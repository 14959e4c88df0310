use vstd::prelude::*;
use crate::address::{Address, AddressError};
use crate::instruction::{build_create_instruction, ix_view, ixs_view, CreationMode, Instruction};
use crate::keys::{signature_valid, KeyPair};
use crate::lifecycle::PollStep;
use crate::transaction::{
    assemble, has_key, is_required_signer, is_signer_table, lists, lemma_single_instruction_limits, compiled_message, AssembleError,
    Blockhash, SignedTransaction,
};

verus! {

/// Why an account could not be created.
#[derive(Clone, Debug, PartialEq, Eq)]
pub enum CreateError {
    Address(AddressError),
    Assemble(AssembleError),
    Network(String),
    NodeRejected(String),
    Dropped,
    Timeout,
}

proof fn lemma_create_signers(ix: Instruction, funder: Address, mode: CreationMode, a: Seq<u8>)
    requires
        ix.accounts@.len() >= 2,
        ix.accounts@[0].pubkey@ == funder@,
        ix.accounts@[0].is_signer,
        ix.accounts@.len() == 2 ==> ix.accounts@[1].is_signer && ix.accounts@[1].pubkey@
            == mode.co_signer()@,
        ix.accounts@.len() == 3 ==> !ix.accounts@[1].is_signer && ix.accounts@[2].is_signer
            && ix.accounts@[2].pubkey@ == mode.co_signer()@,
        ix.accounts@.len() <= 3,
    ensures
        is_required_signer(funder, seq![ix], a) <==> (a == funder@ || a == mode.co_signer()@),
{
    let ixs = seq![ix];
    if a == mode.co_signer()@ {
        if ix.accounts@.len() == 2 {
            assert(ixs[0].accounts@[1].pubkey@ == a);
        } else {
            assert(ixs[0].accounts@[2].pubkey@ == a);
        }
    }
}

/// Builds and signs the transaction that creates the account `mode` names,
/// funded by `funder` with `lamports` (the node's rent-exempt minimum for
/// `space` bytes), dated by `blockhash`. `keys` must hold the funder's key
/// and the key that `mode` asks for: the fresh key, or the base key.
pub fn prepare_creation(
    funder: &Address,
    mode: &CreationMode,
    keys: &Vec<KeyPair>,
    space: u64,
    lamports: u64,
    blockhash: &Blockhash,
) -> (r: Result<(Address, SignedTransaction), CreateError>)
    ensures
        !mode.derivable() ==> r is Err && r->Err_0 == CreateError::Address(mode.derivation_error()),
        mode.derivable() ==> (r is Err <==> (!has_key(keys@, funder@) || !has_key(
            keys@,
            mode.co_signer()@,
        ))),
        mode.derivable() && r is Err ==> r->Err_0 == CreateError::Assemble(
            AssembleError::MissingSigner,
        ),
        r is Ok ==> r->Ok_0.0@ == mode.target(),
        r is Ok ==> r->Ok_0.1.signer_seq()[0]@ == funder@,
        r is Ok ==> r->Ok_0.1.message_seq() == compiled_message(
            funder@,
            seq![mode.instruction_view(*funder, r->Ok_0.0@, lamports, space)],
            blockhash.bytes@,
        ),
        r is Ok ==> r->Ok_0.1.signatures_seq().len() == r->Ok_0.1.signer_seq().len(),
        r is Ok ==> forall|k: int| 0 <= k < r->Ok_0.1.signatures_seq().len() ==> (
            #[trigger] r->Ok_0.1.signatures_seq()[k]).len() == 64 && signature_valid(
            r->Ok_0.1.signer_seq()[k]@, r->Ok_0.1.message_seq(), r->Ok_0.1.signatures_seq()[k]),
        r is Ok ==> forall|a: Seq<u8>| lists(r->Ok_0.1.signer_seq(), a) <==> (a == funder@ || a
            == mode.co_signer()@),
{
    match build_create_instruction(funder, mode, lamports, space) {
        Err(e) => Err(CreateError::Address(e)),
        Ok((target, ix)) => {
            let ghost g = ix;
            let ixs = vec![ix];
            assert(ixs@ =~= seq![g]);
            assert forall|a: Seq<u8>| is_required_signer(*funder, ixs@, a) <==> (a == funder@ || a
                == mode.co_signer()@) by {
                lemma_create_signers(g, *funder, *mode, a);
            }
            proof {
                lemma_single_instruction_limits(*funder, g);
            }
            assert(ixs_view(ixs@) =~= seq![ix_view(g)]);
            match assemble(&ixs, funder, keys, blockhash) {
                Err(e) => {
                    proof {
                        if has_key(keys@, funder@) && has_key(keys@, mode.co_signer()@) {
                            assert forall|a: Seq<u8>| is_required_signer(*funder, ixs@, a) implies has_key(keys@, a) by {}
                        }
                    }
                    Err(CreateError::Assemble(e))
                },
                Ok(tx) => {
                    proof {
                        assert(is_required_signer(*funder, ixs@, funder@));
                        assert(is_required_signer(*funder, ixs@, mode.co_signer()@));
                    }
                    Ok((target, tx))
                },
            }
        },
    }
}

/// What a poll step means for the creation: nothing yet while waiting,
/// success once the target level is reached, and each failure as its error.
pub fn poll_outcome(step: &PollStep) -> (r: Option<Result<(), CreateError>>)
    ensures
        match step {
            PollStep::Wait => r is None,
            PollStep::Done => r == Some(Ok::<(), CreateError>(())),
            PollStep::Rejected(reason) => r == Some(Err::<(), CreateError>(CreateError::NodeRejected(*reason))),
            PollStep::Dropped => r == Some(Err::<(), CreateError>(CreateError::Dropped)),
            PollStep::Timeout => r == Some(Err::<(), CreateError>(CreateError::Timeout)),
            PollStep::Network(reason) => r == Some(Err::<(), CreateError>(CreateError::Network(*reason))),
        },
{
    match step {
        PollStep::Wait => None,
        PollStep::Done => Some(Ok(())),
        PollStep::Rejected(reason) => Some(Err(CreateError::NodeRejected(reason.clone()))),
        PollStep::Dropped => Some(Err(CreateError::Dropped)),
        PollStep::Timeout => Some(Err(CreateError::Timeout)),
        PollStep::Network(reason) => Some(Err(CreateError::Network(reason.clone()))),
    }
}

} // verus!
