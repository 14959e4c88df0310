use vstd::prelude::*;
use vstd::string::StringSliceAdditionalSpecFns;

verus! {

/// How deeply a transaction has been taken into the chain, in increasing
/// order of certainty.
#[derive(Clone, Copy, Debug, PartialEq, Eq, Structural)]
pub enum Durability {
    Processed,
    Confirmed,
    Finalized,
}

impl Durability {
    pub open spec fn rank(self) -> nat {
        match self {
            Durability::Processed => 0,
            Durability::Confirmed => 1,
            Durability::Finalized => 2,
        }
    }

    /// The level's name as the configuration spells it.
    pub open spec fn name_bytes(self) -> Seq<u8> {
        match self {
            Durability::Processed => seq![112u8, 114, 111, 99, 101, 115, 115, 101, 100],
            Durability::Confirmed => seq![99u8, 111, 110, 102, 105, 114, 109, 101, 100],
            Durability::Finalized => seq![102u8, 105, 110, 97, 108, 105, 122, 101, 100],
        }
    }

    pub fn rank_of(&self) -> (r: u8)
        ensures
            r as nat == self.rank(),
    {
        match self {
            Durability::Processed => 0,
            Durability::Confirmed => 1,
            Durability::Finalized => 2,
        }
    }

    /// Whether this level is at least as certain as `other`.
    pub fn at_least(&self, other: &Durability) -> (r: bool)
        ensures
            r == (self.rank() >= other.rank()),
    {
        self.rank_of() >= other.rank_of()
    }

    fn name(&self) -> (r: Vec<u8>)
        ensures
            r@ == self.name_bytes(),
    {
        let r = match self {
            Durability::Processed => vec![112u8, 114, 111, 99, 101, 115, 115, 101, 100],
            Durability::Confirmed => vec![99u8, 111, 110, 102, 105, 114, 109, 101, 100],
            Durability::Finalized => vec![102u8, 105, 110, 97, 108, 105, 122, 101, 100],
        };
        assert(r@ =~= self.name_bytes());
        r
    }

    /// The level that `s` names: "processed", "confirmed" or "finalized".
    pub fn from_name(s: &str) -> (r: Option<Durability>)
        ensures
            r is Some ==> s.spec_bytes() == r->Some_0.name_bytes(),
            r is None ==> forall|d: Durability| s.spec_bytes() != d.name_bytes(),
    {
        let b = s.as_bytes();
        let levels = [Durability::Processed, Durability::Confirmed, Durability::Finalized];
        let mut i: usize = 0;
        while i < 3
            invariant
                0 <= i <= 3,
                b@ == s.spec_bytes(),
                levels@ == seq![Durability::Processed, Durability::Confirmed, Durability::Finalized],
                forall|k: int| 0 <= k < i ==> b@ != (#[trigger] levels@[k]).name_bytes(),
            decreases 3 - i,
        {
            let d = levels[i];
            let n = d.name();
            if bytes_eq(b, n.as_slice()) {
                return Some(d);
            }
            i = i + 1;
        }
        assert forall|d: Durability| s.spec_bytes() != d.name_bytes() by {
            match d {
                Durability::Processed => assert(b@ != levels@[0].name_bytes()),
                Durability::Confirmed => assert(b@ != levels@[1].name_bytes()),
                Durability::Finalized => assert(b@ != levels@[2].name_bytes()),
            }
        }
        None
    }
}

fn bytes_eq(a: &[u8], b: &[u8]) -> (r: bool)
    ensures
        r == (a@ == b@),
{
    if a.len() != b.len() {
        return false;
    }
    let mut i: usize = 0;
    while i < a.len()
        invariant
            0 <= i <= a@.len(),
            a@.len() == b@.len(),
            forall|j: int| 0 <= j < i ==> a@[j] == b@[j],
        decreases a@.len() - i,
    {
        if a[i] != b[i] {
            return false;
        }
        i = i + 1;
    }
    assert(a@ =~= b@);
    true
}

/// Where a transaction stands, from building to its end.
#[derive(Clone, Copy, Debug, PartialEq, Eq, Structural)]
pub enum TxState {
    Built,
    Signed,
    Submitted,
    Landed(Durability),
    Rejected,
    Dropped,
}

/// What can happen to a transaction.
#[derive(Clone, Copy, Debug, PartialEq, Eq, Structural)]
pub enum TxEvent {
    Sign,
    Submit,
    Observe(Durability),
    Reject,
    Expire,
}

impl TxState {
    /// How far along the forward path the state stands.
    pub open spec fn progress(self) -> nat {
        match self {
            TxState::Built => 0,
            TxState::Signed => 1,
            TxState::Submitted => 2,
            TxState::Landed(d) => 3 + d.rank(),
            TxState::Rejected => 6,
            TxState::Dropped => 6,
        }
    }

    pub open spec fn is_terminal(self) -> bool {
        self is Rejected || self is Dropped
    }

    /// The state after `e`; an event that does not apply leaves it as it is.
    pub open spec fn next(self, e: TxEvent) -> TxState {
        match (self, e) {
            (TxState::Built, TxEvent::Sign) => TxState::Signed,
            (TxState::Signed, TxEvent::Submit) => TxState::Submitted,
            (TxState::Submitted, TxEvent::Observe(d)) => TxState::Landed(d),
            (TxState::Landed(c), TxEvent::Observe(d)) => if d.rank() > c.rank() {
                TxState::Landed(d)
            } else {
                self
            },
            (TxState::Submitted, TxEvent::Reject) => TxState::Rejected,
            (TxState::Signed, TxEvent::Reject) => TxState::Rejected,
            (TxState::Submitted, TxEvent::Expire) => TxState::Dropped,
            (TxState::Signed, TxEvent::Expire) => TxState::Dropped,
            _ => self,
        }
    }

    pub fn advance(&self, e: TxEvent) -> (r: TxState)
        ensures
            r == self.next(e),
    {
        match (*self, e) {
            (TxState::Built, TxEvent::Sign) => TxState::Signed,
            (TxState::Signed, TxEvent::Submit) => TxState::Submitted,
            (TxState::Submitted, TxEvent::Observe(d)) => TxState::Landed(d),
            (TxState::Landed(c), TxEvent::Observe(d)) => if d.rank_of() > c.rank_of() {
                TxState::Landed(d)
            } else {
                *self
            },
            (TxState::Submitted, TxEvent::Reject) => TxState::Rejected,
            (TxState::Signed, TxEvent::Reject) => TxState::Rejected,
            (TxState::Submitted, TxEvent::Expire) => TxState::Dropped,
            (TxState::Signed, TxEvent::Expire) => TxState::Dropped,
            _ => *self,
        }
    }
}

/// A transaction only moves forward, and once rejected or dropped it stays so.
pub proof fn lemma_advance_monotonic(s: TxState, e: TxEvent)
    ensures
        s.next(e).progress() >= s.progress(),
        s.is_terminal() ==> s.next(e) == s,
{
}

/// What the node said when last asked about a submitted transaction.
#[derive(Clone, Debug)]
pub enum NodeReport {
    Pending,
    Reached(Durability),
    Rejected(String),
    Expired,
    Transport(String),
}

/// What the poll loop does next.
#[derive(Clone, Debug)]
pub enum PollStep {
    Wait,
    Done,
    Rejected(String),
    Dropped,
    Timeout,
    Network(String),
}

/// Decides the next step of waiting for `target` after `report`, with
/// `polls_left` more polls allowed.
pub fn on_report(report: NodeReport, target: Durability, polls_left: u64) -> (r: PollStep)
    ensures
        match report {
            NodeReport::Reached(d) if d.rank() >= target.rank() => r is Done,
            NodeReport::Rejected(reason) => r == PollStep::Rejected(reason),
            NodeReport::Expired => r is Dropped,
            NodeReport::Transport(reason) => r == PollStep::Network(reason),
            _ => if polls_left == 0 { r is Timeout } else { r is Wait },
        },
{
    match report {
        NodeReport::Reached(d) if d.at_least(&target) => PollStep::Done,
        NodeReport::Rejected(reason) => PollStep::Rejected(reason),
        NodeReport::Expired => PollStep::Dropped,
        NodeReport::Transport(reason) => PollStep::Network(reason),
        _ => if polls_left == 0 {
            PollStep::Timeout
        } else {
            PollStep::Wait
        },
    }
}

} // verus!
