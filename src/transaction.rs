use vstd::prelude::*;
use crate::address::{addr_eq, Address};
use crate::instruction::{ixs_view, Instruction};
use crate::keys::{signature_valid, KeyPair};
use solana_sdk::signer::keypair::Keypair;
use solana_sdk::instruction as outside_ix;
use solana_sdk::message::Message;
use solana_sdk::transaction::Transaction;

verus! {

#[verifier::external_type_specification]
#[verifier::external_body]
pub struct ExTransaction(Transaction);

#[verifier::external_type_specification]
#[verifier::external_body]
pub struct ExMessage(Message);

/// The canonical bytes of the message that compiles instructions (program,
/// account metas, payload) with a fee payer and a blockhash.
pub uninterp spec fn compiled_message(
    payer: Seq<u8>,
    ixs: Seq<(Seq<u8>, Seq<(Seq<u8>, bool, bool)>, Seq<u8>)>,
    blockhash: Seq<u8>,
) -> Seq<u8>;

/// Most distinct addresses that one transaction names: account indices
/// are single bytes.
pub const MAX_ACCOUNT_KEYS: usize = 256;

/// Most signers of one transaction: the signer count is a single byte.
pub const MAX_SIGNERS: usize = 255;

/// A recent block's hash, which dates a transaction.
#[derive(Clone, Copy, Debug)]
pub struct Blockhash {
    pub bytes: [u8; 32],
}

/// Why a transaction could not be assembled.
#[derive(Clone, Copy, Debug, PartialEq, Eq, Structural)]
pub enum AssembleError {
    EmptyTransaction,
    TooManyAccounts,
    MissingSigner,
}

/// Whether `a` must sign a transaction of `ixs` paid by `payer`.
pub open spec fn is_required_signer(payer: Address, ixs: Seq<Instruction>, a: Seq<u8>) -> bool {
    a == payer@ || exists|i: int, j: int|
        0 <= i < ixs.len() && 0 <= j < ixs[i].accounts@.len() && ixs[i].accounts@[j].is_signer
            && #[trigger] ixs[i].accounts@[j].pubkey@ == a
}

/// Whether `r` lists each address at most once.
pub open spec fn distinct_addresses(r: Seq<Address>) -> bool {
    forall|i: int, j: int| 0 <= i < r.len() && 0 <= j < r.len() && i != j ==> r[i]@ != r[j]@
}

/// Whether `r` lists `a`.
pub open spec fn lists(r: Seq<Address>, a: Seq<u8>) -> bool {
    exists|k: int| 0 <= k < r.len() && #[trigger] r[k]@ == a
}

/// The signer table of a transaction: the payer first, then every address
/// flagged as signer, each once.
pub open spec fn is_signer_table(r: Seq<Address>, payer: Address, ixs: Seq<Instruction>) -> bool {
    &&& r.len() >= 1
    &&& r[0]@ == payer@
    &&& distinct_addresses(r)
    &&& forall|a: Seq<u8>| lists(r, a) <==> is_required_signer(payer, ixs, a)
}

/// Whether `a` is named by a transaction of `ixs` paid by `payer`: the
/// payer, a program, or an account of an instruction.
pub open spec fn is_account_of(payer: Address, ixs: Seq<Instruction>, a: Seq<u8>) -> bool {
    a == payer@ || (exists|i: int| 0 <= i < ixs.len() && #[trigger] ixs[i].program_id@ == a)
        || signer_or_not_in(ixs, ixs.len() as int, a)
}

/// Whether one of the first `n` of `ixs` names `a` among its accounts.
pub open spec fn signer_or_not_in(ixs: Seq<Instruction>, n: int, a: Seq<u8>) -> bool {
    exists|i: int, j: int| 0 <= i < n && 0 <= j < ixs[i].accounts@.len()
        && #[trigger] ixs[i].accounts@[j].pubkey@ == a
}

/// The distinct addresses a transaction names.
pub open spec fn key_set(payer: Address, ixs: Seq<Instruction>) -> Set<Seq<u8>> {
    Set::new(|a: Seq<u8>| is_account_of(payer, ixs, a))
}

/// The distinct addresses that must sign a transaction.
pub open spec fn signer_set(payer: Address, ixs: Seq<Instruction>) -> Set<Seq<u8>> {
    Set::new(|a: Seq<u8>| is_required_signer(payer, ixs, a))
}

/// Whether the account and signer counts fit the message format.
pub open spec fn within_limits(payer: Address, ixs: Seq<Instruction>) -> bool {
    key_set(payer, ixs).len() <= MAX_ACCOUNT_KEYS && signer_set(payer, ixs).len() <= MAX_SIGNERS
}

/// A list of distinct addresses counts the set of addresses that it lists.
pub proof fn lemma_table_count(r: Seq<Address>, s: Set<Seq<u8>>)
    requires
        distinct_addresses(r),
        forall|a: Seq<u8>| lists(r, a) <==> s.contains(a),
    ensures
        s.finite(),
        s.len() == r.len(),
{
    let v = r.map_values(|x: Address| x@);
    assert forall|a: Seq<u8>| v.to_set().contains(a) <==> s.contains(a) by {
        if v.to_set().contains(a) {
            let k = choose|k: int| 0 <= k < v.len() && v[k] == a;
            assert(r[k]@ == a);
        }
        if s.contains(a) {
            let k = choose|k: int| 0 <= k < r.len() && #[trigger] r[k]@ == a;
            assert(v[k] == a);
        }
    }
    assert(v.to_set() =~= s);
    v.unique_seq_to_set();
}

/// Whether one of `keys` has address `a`.
pub open spec fn has_key(keys: Seq<KeyPair>, a: Seq<u8>) -> bool {
    exists|k: int| 0 <= k < keys.len() && #[trigger] keys[k].addr()@ == a
}

/// A message compiled from instructions, with its canonical bytes and its
/// signer slots in order.
pub struct CompiledMessage {
    inner: Message,
    bytes: Vec<u8>,
    signers: Vec<Address>,
}

impl CompiledMessage {
    pub closed spec fn bytes_seq(&self) -> Seq<u8> {
        self.bytes@
    }

    pub closed spec fn signer_seq(&self) -> Seq<Address> {
        self.signers@
    }

    fn signers(&self) -> (r: &Vec<Address>)
        ensures
            r@ == self.signer_seq(),
    {
        &self.signers
    }

    fn bytes(&self) -> (r: &Vec<u8>)
        ensures
            r@ == self.bytes_seq(),
    {
        &self.bytes
    }
}

/// A signed transaction: its signer slots (the fee payer first), the
/// canonical message bytes, and one signature per slot over those bytes.
/// The fee payer's signature names the transaction.
pub struct SignedTransaction {
    inner: Transaction,
    signers: Vec<Address>,
    message: Vec<u8>,
    signatures: Vec<Vec<u8>>,
}

impl SignedTransaction {
    pub closed spec fn signer_seq(&self) -> Seq<Address> {
        self.signers@
    }

    pub closed spec fn message_seq(&self) -> Seq<u8> {
        self.message@
    }

    pub closed spec fn signatures_seq(&self) -> Seq<Seq<u8>> {
        self.signatures@.map_values(|x: Vec<u8>| x@)
    }

    /// The signer slots, in the order the message lists them.
    pub fn signers(&self) -> (r: &Vec<Address>)
        ensures
            r@ == self.signer_seq(),
    {
        &self.signers
    }

    /// The canonical bytes of the message that every signer signed.
    pub fn message(&self) -> (r: &Vec<u8>)
        ensures
            r@ == self.message_seq(),
    {
        &self.message
    }

    /// The signature of each signer slot, in slot order.
    pub fn signatures(&self) -> (r: &Vec<Vec<u8>>)
        ensures
            r@.map_values(|x: Vec<u8>| x@) == self.signatures_seq(),
    {
        &self.signatures
    }

    /// The fee payer's signature, which identifies the transaction.
    pub fn signature(&self) -> (r: &Vec<u8>)
        requires
            self.signatures_seq().len() > 0,
        ensures
            r@ == self.signatures_seq()[0],
    {
        &self.signatures[0]
    }

    pub fn transaction(&self) -> &Transaction {
        &self.inner
    }
}

fn position_of(r: &Vec<Address>, a: &Address) -> (p: Option<usize>)
    ensures
        p is Some ==> p->Some_0 < r@.len() && r@[p->Some_0 as int]@ == a@,
        p is None ==> !lists(r@, a@),
{
    let mut k: usize = 0;
    while k < r.len()
        invariant
            0 <= k <= r@.len(),
            forall|m: int| 0 <= m < k ==> r@[m]@ != a@,
        decreases r@.len() - k,
    {
        if addr_eq(&r[k], a) {
            return Some(k);
        }
        k = k + 1;
    }
    None
}

/// Whether one of the first `n` of `accounts` is a signer with address `a`.
pub open spec fn signer_among(accounts: Seq<crate::instruction::AccountMeta>, n: int, a: Seq<u8>) -> bool {
    exists|j: int| 0 <= j < n && accounts[j].is_signer && #[trigger] accounts[j].pubkey@ == a
}

/// Whether one of the first `n` of `ixs` flags `a` as a signer.
pub open spec fn signer_in(ixs: Seq<Instruction>, n: int, a: Seq<u8>) -> bool {
    exists|i: int| 0 <= i < n && #[trigger] signer_among(ixs[i].accounts@, ixs[i].accounts@.len() as int, a)
}

proof fn lemma_required_signer(payer: Address, ixs: Seq<Instruction>, a: Seq<u8>)
    ensures
        is_required_signer(payer, ixs, a) <==> (a == payer@ || signer_in(ixs, ixs.len() as int, a)),
{
    if is_required_signer(payer, ixs, a) && a != payer@ {
        let (i, j) = choose|i: int, j: int|
            0 <= i < ixs.len() && 0 <= j < ixs[i].accounts@.len() && ixs[i].accounts@[j].is_signer
                && #[trigger] ixs[i].accounts@[j].pubkey@ == a;
        assert(signer_among(ixs[i].accounts@, ixs[i].accounts@.len() as int, a));
    }
    if signer_in(ixs, ixs.len() as int, a) {
        let i = choose|i: int| 0 <= i < ixs.len() && #[trigger] signer_among(
            ixs[i].accounts@, ixs[i].accounts@.len() as int, a);
        let j = choose|j: int| 0 <= j < ixs[i].accounts@.len() && ixs[i].accounts@[j].is_signer
            && #[trigger] ixs[i].accounts@[j].pubkey@ == a;
    }
}

/// The signer table of a transaction of `ixs` that `payer` pays for.
pub fn required_signers(payer: &Address, ixs: &Vec<Instruction>) -> (r: Vec<Address>)
    ensures
        is_signer_table(r@, *payer, ixs@),
{
    let mut r: Vec<Address> = Vec::new();
    r.push(*payer);
    assert forall|a: Seq<u8>| lists(r@, a) <==> (a == payer@ || signer_in(ixs@, 0, a)) by {
        if a == payer@ {
            assert(r@[0]@ == a);
        }
    }
    let mut i: usize = 0;
    while i < ixs.len()
        invariant
            0 <= i <= ixs@.len(),
            r@.len() >= 1,
            r@[0]@ == payer@,
            distinct_addresses(r@),
            forall|a: Seq<u8>| lists(r@, a) <==> (a == payer@ || signer_in(ixs@, i as int, a)),
        decreases ixs@.len() - i,
    {
        let accounts = &ixs[i].accounts;
        let mut j: usize = 0;
        while j < accounts.len()
            invariant
                0 <= i < ixs@.len(),
                accounts@ == ixs@[i as int].accounts@,
                0 <= j <= accounts@.len(),
                r@.len() >= 1,
                r@[0]@ == payer@,
                distinct_addresses(r@),
                forall|a: Seq<u8>| lists(r@, a) <==> (a == payer@ || signer_in(ixs@, i as int, a)
                    || signer_among(accounts@, j as int, a)),
            decreases accounts@.len() - j,
        {
            let m = accounts[j];
            let ghost old_r = r@;
            if m.is_signer {
                let p = position_of(&r, &m.pubkey);
                if p.is_none() {
                    r.push(m.pubkey);
                }
            }
            assert forall|a: Seq<u8>| lists(r@, a) <==> (a == payer@ || signer_in(ixs@, i as int, a)
                || signer_among(accounts@, j + 1, a)) by {
                if lists(r@, a) {
                    let k = choose|k: int| 0 <= k < r@.len() && #[trigger] r@[k]@ == a;
                    if k < old_r.len() {
                        assert(old_r[k]@ == a);
                    } else {
                        assert(accounts@[j as int].pubkey@ == a);
                    }
                }
                if signer_among(accounts@, j + 1, a) && !signer_among(accounts@, j as int, a) {
                    assert(accounts@[j as int].pubkey@ == a);
                    if r@.len() > old_r.len() {
                        assert(r@[old_r.len() as int]@ == a);
                    }
                }
                if lists(old_r, a) {
                    let k = choose|k: int| 0 <= k < old_r.len() && #[trigger] old_r[k]@ == a;
                    assert(r@[k]@ == a);
                }
                if signer_among(accounts@, j as int, a) {
                    let j2 = choose|j2: int| 0 <= j2 < j && accounts@[j2].is_signer && #[trigger] accounts@[j2].pubkey@ == a;
                    assert(signer_among(accounts@, j + 1, a));
                }
            }
            j = j + 1;
        }
        assert forall|a: Seq<u8>| lists(r@, a) <==> (a == payer@ || signer_in(ixs@, i + 1, a)) by {
            if signer_among(accounts@, j as int, a) {
                assert(signer_among(ixs@[i as int].accounts@, ixs@[i as int].accounts@.len() as int, a));
            }
            if signer_in(ixs@, i + 1, a) {
                let i2 = choose|i2: int| 0 <= i2 < i + 1 && #[trigger] signer_among(
                    ixs@[i2].accounts@, ixs@[i2].accounts@.len() as int, a);
                if i2 < i {
                    assert(signer_in(ixs@, i as int, a));
                }
            }
        }
        i = i + 1;
    }
    assert forall|a: Seq<u8>| lists(r@, a) <==> is_required_signer(*payer, ixs@, a) by {
        lemma_required_signer(*payer, ixs@, a);
    }
    r
}

/// Whether one of the first `n` of `ixs` has program `a`.
pub open spec fn program_in(ixs: Seq<Instruction>, n: int, a: Seq<u8>) -> bool {
    exists|i: int| 0 <= i < n && #[trigger] ixs[i].program_id@ == a
}

/// Whether one of the first `n` of `accounts` has address `a`.
pub open spec fn meta_among(accounts: Seq<crate::instruction::AccountMeta>, n: int, a: Seq<u8>) -> bool {
    exists|j: int| 0 <= j < n && #[trigger] accounts[j].pubkey@ == a
}

fn insert_unique(r: &mut Vec<Address>, x: Address)
    requires
        old(r)@.len() >= 1,
        distinct_addresses(old(r)@),
    ensures
        final(r)@.len() >= 1,
        final(r)@[0] == old(r)@[0],
        distinct_addresses(final(r)@),
        forall|a: Seq<u8>| lists(final(r)@, a) <==> (lists(old(r)@, a) || a == x@),
{
    let ghost old_r = r@;
    if position_of(r, &x).is_none() {
        r.push(x);
    }
    assert forall|a: Seq<u8>| lists(r@, a) <==> (lists(old_r, a) || a == x@) by {
        if lists(r@, a) {
            let k = choose|k: int| 0 <= k < r@.len() && #[trigger] r@[k]@ == a;
            if k < old_r.len() {
                assert(old_r[k]@ == a);
            }
        }
        if lists(old_r, a) {
            let k = choose|k: int| 0 <= k < old_r.len() && #[trigger] old_r[k]@ == a;
            assert(r@[k]@ == a);
        }
        if a == x@ && r@.len() > old_r.len() {
            assert(r@[old_r.len() as int]@ == a);
        }
    }
}

/// The distinct addresses that a transaction of `ixs` paid by `payer`
/// names, the payer first.
fn account_keys(payer: &Address, ixs: &Vec<Instruction>) -> (r: Vec<Address>)
    ensures
        distinct_addresses(r@),
        forall|a: Seq<u8>| lists(r@, a) <==> is_account_of(*payer, ixs@, a),
{
    let mut r: Vec<Address> = Vec::new();
    r.push(*payer);
    assert forall|a: Seq<u8>| lists(r@, a) <==> a == payer@ by {
        if a == payer@ {
            assert(r@[0]@ == a);
        }
    }
    let mut i: usize = 0;
    while i < ixs.len()
        invariant
            0 <= i <= ixs@.len(),
            r@.len() >= 1,
            distinct_addresses(r@),
            forall|a: Seq<u8>| lists(r@, a) <==> (a == payer@ || program_in(ixs@, i as int, a)
                || signer_or_not_in(ixs@, i as int, a)),
        decreases ixs@.len() - i,
    {
        insert_unique(&mut r, ixs[i].program_id);
        let accounts = &ixs[i].accounts;
        let mut j: usize = 0;
        while j < accounts.len()
            invariant
                0 <= i < ixs@.len(),
                accounts@ == ixs@[i as int].accounts@,
                0 <= j <= accounts@.len(),
                r@.len() >= 1,
                distinct_addresses(r@),
                forall|a: Seq<u8>| lists(r@, a) <==> (a == payer@ || program_in(ixs@, i + 1, a)
                    || signer_or_not_in(ixs@, i as int, a) || meta_among(accounts@, j as int, a)),
            decreases accounts@.len() - j,
        {
            insert_unique(&mut r, accounts[j].pubkey);
            assert forall|a: Seq<u8>| meta_among(accounts@, j + 1, a) <==> (meta_among(
                accounts@, j as int, a) || a == accounts@[j as int].pubkey@) by {
                if meta_among(accounts@, j + 1, a) && !meta_among(accounts@, j as int, a) {
                    let j2 = choose|j2: int| 0 <= j2 < j + 1 && #[trigger] accounts@[j2].pubkey@ == a;
                    assert(j2 == j);
                }
                if a == accounts@[j as int].pubkey@ {
                    assert(meta_among(accounts@, j + 1, a));
                }
                if meta_among(accounts@, j as int, a) {
                    let j2 = choose|j2: int| 0 <= j2 < j && #[trigger] accounts@[j2].pubkey@ == a;
                    assert(meta_among(accounts@, j + 1, a));
                }
            }
            j = j + 1;
        }
        assert forall|a: Seq<u8>| (signer_or_not_in(ixs@, i as int, a) || meta_among(
            accounts@, j as int, a)) <==> signer_or_not_in(ixs@, i + 1, a) by {
            if meta_among(accounts@, j as int, a) {
                let j2 = choose|j2: int| 0 <= j2 < j && #[trigger] accounts@[j2].pubkey@ == a;
                assert(ixs@[i as int].accounts@[j2].pubkey@ == a);
            }
            if signer_or_not_in(ixs@, i as int, a) {
                let (i2, j2) = choose|i2: int, j2: int| 0 <= i2 < i && 0 <= j2 < ixs@[i2].accounts@.len()
                    && #[trigger] ixs@[i2].accounts@[j2].pubkey@ == a;
                assert(signer_or_not_in(ixs@, i + 1, a));
            }
            if signer_or_not_in(ixs@, i + 1, a) && !signer_or_not_in(ixs@, i as int, a) {
                let (i2, j2) = choose|i2: int, j2: int| 0 <= i2 < i + 1 && 0 <= j2 < ixs@[i2].accounts@.len()
                    && #[trigger] ixs@[i2].accounts@[j2].pubkey@ == a;
                assert(i2 == i);
                assert(meta_among(accounts@, j as int, a));
            }
        }
        i = i + 1;
    }
    r
}

/// A transaction of one instruction with at most 250 accounts fits the
/// message format.
pub proof fn lemma_single_instruction_limits(payer: Address, ix: Instruction)
    requires
        ix.accounts@.len() <= 250,
    ensures
        within_limits(payer, seq![ix]),
{
    let ixs = seq![ix];
    let v = seq![payer@, ix.program_id@] + ix.accounts@.map_values(
        |m: crate::instruction::AccountMeta| m.pubkey@,
    );
    assert forall|a: Seq<u8>| key_set(payer, ixs).contains(a) implies v.to_set().contains(a) by {
        if a == payer@ {
            assert(v[0] == a);
        } else if program_in(ixs, 1, a) {
            assert(v[1] == a);
        } else {
            let (i, j) = choose|i: int, j: int| 0 <= i < 1 && 0 <= j < ixs[i].accounts@.len()
                && #[trigger] ixs[i].accounts@[j].pubkey@ == a;
            assert(v[2 + j] == a);
        }
    }
    v.lemma_cardinality_of_set();
    vstd::set_lib::lemma_len_subset(key_set(payer, ixs), v.to_set());
    assert forall|a: Seq<u8>| signer_set(payer, ixs).contains(a) implies key_set(payer, ixs).contains(a) by {
        if a != payer@ {
            let (i, j) = choose|i: int, j: int| 0 <= i < ixs.len() && 0 <= j < ixs[i].accounts@.len()
                && ixs[i].accounts@[j].is_signer && #[trigger] ixs[i].accounts@[j].pubkey@ == a;
            assert(signer_or_not_in(ixs, 1, a));
        }
    }
    vstd::set_lib::lemma_len_subset(signer_set(payer, ixs), key_set(payer, ixs));
}

fn key_for<'a>(keys: &'a Vec<KeyPair>, a: &Address) -> (r: Option<&'a KeyPair>)
    ensures
        r is Some ==> r->Some_0.addr()@ == a@ && has_key(keys@, a@),
        r is None ==> !has_key(keys@, a@),
{
    let mut k: usize = 0;
    while k < keys.len()
        invariant
            0 <= k <= keys@.len(),
            forall|m: int| 0 <= m < k ==> keys@[m].addr()@ != a@,
        decreases keys@.len() - k,
    {
        let addr = keys[k].address();
        if addr_eq(&addr, a) {
            assert(keys@[k as int].addr()@ == a@);
            return Some(&keys[k]);
        }
        k = k + 1;
    }
    None
}

/// Picks, for each address of `table` in order, a key of `keys` with that
/// address. Keys that no address asks for are left out.
pub fn select_signers<'a>(table: &Vec<Address>, keys: &'a Vec<KeyPair>) -> (r: Result<
    Vec<&'a KeyPair>,
    AssembleError,
>)
    ensures
        r is Err <==> exists|k: int| 0 <= k < table@.len() && !has_key(keys@, #[trigger] table@[k]@),
        r is Err ==> r->Err_0 == AssembleError::MissingSigner,
        r is Ok ==> r->Ok_0@.len() == table@.len() && forall|k: int| 0 <= k < table@.len()
            ==> (#[trigger] r->Ok_0@[k]).addr()@ == table@[k]@,
{
    let mut chosen: Vec<&'a KeyPair> = Vec::new();
    let mut i: usize = 0;
    while i < table.len()
        invariant
            0 <= i <= table@.len(),
            chosen@.len() == i,
            forall|k: int| 0 <= k < i ==> (#[trigger] chosen@[k]).addr()@ == table@[k]@,
            forall|k: int| 0 <= k < i ==> has_key(keys@, #[trigger] table@[k]@),
        decreases table@.len() - i,
    {
        match key_for(keys, &table[i]) {
            Some(key) => {
                chosen.push(key);
            },
            None => {
                return Err(AssembleError::MissingSigner);
            },
        }
        i = i + 1;
    }
    Ok(chosen)
}

/// Relies on solana_sdk's Message::new_with_blockhash and
/// Message::serialize: the message lists the payer first, then every
/// address flagged as signer, each once, as its first
/// `num_required_signatures` keys. It fails past 256 keys or 255 signers,
/// which `requires` rules out.
#[verifier::external_body]
fn compile_message(ixs: &Vec<Instruction>, payer: &Address, blockhash: &Blockhash) -> (r: CompiledMessage)
    requires
        within_limits(*payer, ixs@),
    ensures
        r.bytes_seq() == compiled_message(payer@, ixs_view(ixs@), blockhash.bytes@),
        is_signer_table(r.signer_seq(), *payer, ixs@),
{
    let outside: Vec<outside_ix::Instruction> = ixs.iter().map(|i| outside_ix::Instruction::new_with_bytes(
        i.program_id.bytes.into(), &i.data, i.accounts.iter().map(|m| outside_ix::AccountMeta {
            pubkey: m.pubkey.bytes.into(), is_signer: m.is_signer, is_writable: m.is_writable,
        }).collect())).collect();
    let inner = Message::new_with_blockhash(&outside, Some(&payer.bytes.into()), &blockhash.bytes.into());
    let n = inner.header.num_required_signatures as usize;
    let signers = inner.account_keys[..n].iter().map(|k| Address { bytes: k.to_bytes() }).collect();
    CompiledMessage { bytes: inner.serialize(), signers, inner }
}

/// Relies on solana_sdk's Transaction::new, which places the signature of
/// each key over the message bytes (Transaction::message_data) in the slot
/// of that key's address. It panics unless the keys are exactly the
/// message's signers, which `requires` asks.
#[verifier::external_body]
fn sign_compiled(m: CompiledMessage, chosen: &Vec<&KeyPair>) -> (r: (Transaction, Vec<Vec<u8>>))
    requires
        chosen@.len() == m.signer_seq().len(),
        distinct_addresses(m.signer_seq()),
        forall|k: int| 0 <= k < chosen@.len() ==> (#[trigger] chosen@[k]).addr()@ == m.signer_seq()[k]@,
    ensures
        r.1@.len() == m.signer_seq().len(),
        forall|k: int| 0 <= k < r.1@.len() ==> (#[trigger] r.1@[k])@.len() == 64 && signature_valid(
            m.signer_seq()[k]@, m.bytes_seq(), r.1@[k]@),
{
    let keys: Vec<&Keypair> = chosen.iter().map(|k| k.signer()).collect();
    let hash = m.inner.recent_blockhash;
    let tx = Transaction::new(&keys, m.inner, hash);
    let signatures = tx.signatures.iter().map(|s| s.as_ref().to_vec()).collect();
    (tx, signatures)
}

/// Assembles and signs a transaction of `ixs`, paid by `payer`, dated by
/// `blockhash`, with those of `keys` that its signer slots ask for.
pub fn assemble(
    ixs: &Vec<Instruction>,
    payer: &Address,
    keys: &Vec<KeyPair>,
    blockhash: &Blockhash,
) -> (r: Result<SignedTransaction, AssembleError>)
    ensures
        ixs@.len() == 0 <==> (r is Err && r->Err_0 == AssembleError::EmptyTransaction),
        (ixs@.len() > 0 && !within_limits(*payer, ixs@)) <==> (r is Err && r->Err_0
            == AssembleError::TooManyAccounts),
        (ixs@.len() > 0 && within_limits(*payer, ixs@) && exists|a: Seq<u8>|
            is_required_signer(*payer, ixs@, a) && !has_key(keys@, a)) <==> (r is Err
            && r->Err_0 == AssembleError::MissingSigner),
        r is Ok ==> is_signer_table(r->Ok_0.signer_seq(), *payer, ixs@),
        r is Ok ==> r->Ok_0.message_seq() == compiled_message(payer@, ixs_view(ixs@), blockhash.bytes@),
        r is Ok ==> r->Ok_0.signatures_seq().len() == r->Ok_0.signer_seq().len(),
        r is Ok ==> forall|k: int| 0 <= k < r->Ok_0.signatures_seq().len() ==> (
            #[trigger] r->Ok_0.signatures_seq()[k]).len() == 64 && signature_valid(
            r->Ok_0.signer_seq()[k]@, r->Ok_0.message_seq(), r->Ok_0.signatures_seq()[k]),
{
    if ixs.len() == 0 {
        return Err(AssembleError::EmptyTransaction);
    }
    let table = required_signers(payer, ixs);
    let all = account_keys(payer, ixs);
    proof {
        lemma_table_count(table@, signer_set(*payer, ixs@));
        lemma_table_count(all@, key_set(*payer, ixs@));
    }
    if all.len() > MAX_ACCOUNT_KEYS || table.len() > MAX_SIGNERS {
        return Err(AssembleError::TooManyAccounts);
    }
    let m = compile_message(ixs, payer, blockhash);
    let sel = select_signers(m.signers(), keys);
    match sel {
        Err(e) => {
            proof {
                let k = choose|k: int| 0 <= k < m.signer_seq().len() && !has_key(keys@, #[trigger] m.signer_seq()[k]@);
                assert(lists(m.signer_seq(), m.signer_seq()[k]@));
            }
            Err(e)
        },
        Ok(chosen) => {
            assert forall|a: Seq<u8>| is_required_signer(*payer, ixs@, a) implies has_key(keys@, a) by {
                assert(lists(m.signer_seq(), a));
                let k = choose|k: int| 0 <= k < m.signer_seq().len() && #[trigger] m.signer_seq()[k]@ == a;
                assert(chosen@[k].addr()@ == a);
            }
            let signers = m.signers().clone();
            let message = m.bytes().clone();
            let ghost gm = m;
            let (inner, signatures) = sign_compiled(m, &chosen);
            assert(signers@ == gm.signer_seq());
            Ok(SignedTransaction { inner, signers, message, signatures })
        },
    }
}

} // verus!
