//! Creation of system-owned accounts: address derivation, the system
//! program's create instructions, signer selection, transaction assembly and
//! the life cycle of a submitted transaction.

mod address;
mod instruction;
mod keys;
mod lifecycle;
mod transaction;
mod workflow;

pub use address::{
    addr_eq, create_with_seed, derived_address, has_pda_suffix, lemma_derivation_input, Address,
    AddressError, MAX_SEED_LEN,
};
pub use instruction::{
    build_create_instruction, system_program_id, AccountMeta, CreationMode, Instruction,
};
pub use keys::{sign_and_verify, signature_valid, verify_signature, KeyPair};
pub use lifecycle::{
    lemma_advance_monotonic, on_report, Durability, NodeReport, PollStep, TxEvent, TxState,
};
pub use transaction::{
    assemble, required_signers, select_signers, AssembleError, Blockhash, SignedTransaction,
    CompiledMessage, MAX_ACCOUNT_KEYS, MAX_SIGNERS,
};
pub use workflow::{poll_outcome, prepare_creation, CreateError};
