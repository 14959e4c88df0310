use vstd::prelude::*;
use vstd::string::StringSliceAdditionalSpecFns;
use vstd::utf8::encode_utf8;
use solana_program::pubkey::Pubkey;
use crate::address::{create_with_seed, derived_address, has_pda_suffix, Address, AddressError, MAX_SEED_LEN};

verus! {

/// One account that an instruction touches, with its two flags.
#[derive(Clone, Copy, Debug)]
pub struct AccountMeta {
    pub pubkey: Address,
    pub is_signer: bool,
    pub is_writable: bool,
}

/// A directive to one on-chain program.
#[derive(Clone, Debug)]
pub struct Instruction {
    pub program_id: Address,
    pub accounts: Vec<AccountMeta>,
    pub data: Vec<u8>,
}

/// The two ways of choosing the new account's address.
#[derive(Clone, Debug)]
pub enum CreationMode {
    /// The address of a freshly generated key, which signs for itself.
    Fresh { new_account: Address, owner: Address },
    /// An address derived from a base key and a seed; the base key signs.
    Seeded { base: Address, seed: String, owner: Address },
}

/// The system program's address: 32 zero bytes.
pub open spec fn system_program_bytes() -> Seq<u8> {
    Seq::new(32, |i: int| 0u8)
}

pub open spec fn u32_le(x: u32) -> Seq<u8> {
    seq![x as u8, (x >> 8u32) as u8, (x >> 16u32) as u8, (x >> 24u32) as u8]
}

pub open spec fn u64_le(x: u64) -> Seq<u8> {
    seq![
        x as u8, (x >> 8u64) as u8, (x >> 16u64) as u8, (x >> 24u64) as u8,
        (x >> 32u64) as u8, (x >> 40u64) as u8, (x >> 48u64) as u8, (x >> 56u64) as u8,
    ]
}

/// The system program's payload for creating an account at a key that signs.
pub open spec fn create_account_data(lamports: u64, space: u64, owner: Seq<u8>) -> Seq<u8> {
    u32_le(0) + u64_le(lamports) + u64_le(space) + owner
}

/// The system program's payload for creating an account at a seeded address.
pub open spec fn create_account_with_seed_data(
    base: Seq<u8>,
    seed: Seq<u8>,
    lamports: u64,
    space: u64,
    owner: Seq<u8>,
) -> Seq<u8> {
    u32_le(3) + base + u64_le(seed.len() as u64) + seed + u64_le(lamports) + u64_le(space) + owner
}

/// An account meta as address and flags.
pub open spec fn meta_view(m: AccountMeta) -> (Seq<u8>, bool, bool) {
    (m.pubkey@, m.is_signer, m.is_writable)
}

/// An instruction as program, account metas and payload.
pub open spec fn ix_view(ix: Instruction) -> (Seq<u8>, Seq<(Seq<u8>, bool, bool)>, Seq<u8>) {
    (ix.program_id@, ix.accounts@.map_values(|m: AccountMeta| meta_view(m)), ix.data@)
}

pub open spec fn ixs_view(ixs: Seq<Instruction>) -> Seq<(Seq<u8>, Seq<(Seq<u8>, bool, bool)>, Seq<u8>)> {
    ixs.map_values(|ix: Instruction| ix_view(ix))
}

pub open spec fn meta_is(m: AccountMeta, a: Address, signer: bool, writable: bool) -> bool {
    m.pubkey@ == a@ && m.is_signer == signer && m.is_writable == writable
}

/// The instruction that creates `new_account`, funded by `funder`.
pub open spec fn is_create_account(
    ix: Instruction,
    funder: Address,
    new_account: Address,
    lamports: u64,
    space: u64,
    owner: Address,
) -> bool {
    &&& ix.program_id@ == system_program_bytes()
    &&& ix.accounts@.len() == 2
    &&& meta_is(ix.accounts@[0], funder, true, true)
    &&& meta_is(ix.accounts@[1], new_account, true, true)
    &&& ix.data@ == create_account_data(lamports, space, owner@)
}

/// The instruction that creates the seeded address `derived`, funded by `funder`.
pub open spec fn is_create_account_with_seed(
    ix: Instruction,
    funder: Address,
    derived: Address,
    base: Address,
    seed: Seq<u8>,
    lamports: u64,
    space: u64,
    owner: Address,
) -> bool {
    &&& ix.program_id@ == system_program_bytes()
    &&& ix.accounts@.len() == 3
    &&& meta_is(ix.accounts@[0], funder, true, true)
    &&& meta_is(ix.accounts@[1], derived, false, true)
    &&& meta_is(ix.accounts@[2], base, true, false)
    &&& ix.data@ == create_account_with_seed_data(base@, seed, lamports, space, owner@)
}

/// Relies on solana_program's system_program::id, the all-zero address.
#[verifier::external_body]
fn system_id() -> (r: Address)
    ensures
        r@ == system_program_bytes(),
{
    Address { bytes: solana_program::system_program::id().to_bytes() }
}

/// The address of the system program, the default owner of accounts.
pub fn system_program_id() -> (r: Address)
    ensures
        r@ == system_program_bytes(),
{
    system_id()
}

/// Relies on solana_program's system_instruction::create_account: funder and
/// new account both signer and writable, the bincode encoding of
/// `CreateAccount { lamports, space, owner }` as payload.
#[verifier::external_body]
fn system_create_account(
    funder: &Address,
    new_account: &Address,
    lamports: u64,
    space: u64,
    owner: &Address,
) -> (r: Instruction)
    ensures
        is_create_account(r, *funder, *new_account, lamports, space, *owner),
{
    let ix = solana_program::system_instruction::create_account(
        &Pubkey::new_from_array(funder.bytes), &Pubkey::new_from_array(new_account.bytes),
        lamports, space, &Pubkey::new_from_array(owner.bytes));
    let accounts = ix.accounts.iter().map(|m| AccountMeta {
        pubkey: Address { bytes: m.pubkey.to_bytes() }, is_signer: m.is_signer, is_writable: m.is_writable,
    }).collect();
    Instruction { program_id: Address { bytes: ix.program_id.to_bytes() }, accounts, data: ix.data }
}

/// Relies on solana_program's system_instruction::create_account_with_seed:
/// funder signer and writable, derived address writable only, base signer
/// only, the bincode encoding of `CreateAccountWithSeed { base, seed,
/// lamports, space, owner }` as payload.
#[verifier::external_body]
fn system_create_account_with_seed(
    funder: &Address,
    derived: &Address,
    base: &Address,
    seed: &str,
    lamports: u64,
    space: u64,
    owner: &Address,
) -> (r: Instruction)
    ensures
        is_create_account_with_seed(r, *funder, *derived, *base, seed.spec_bytes(), lamports, space, *owner),
{
    let ix = solana_program::system_instruction::create_account_with_seed(
        &Pubkey::new_from_array(funder.bytes), &Pubkey::new_from_array(derived.bytes),
        &Pubkey::new_from_array(base.bytes), seed, lamports, space, &Pubkey::new_from_array(owner.bytes));
    let accounts = ix.accounts.iter().map(|m| AccountMeta {
        pubkey: Address { bytes: m.pubkey.to_bytes() }, is_signer: m.is_signer, is_writable: m.is_writable,
    }).collect();
    Instruction { program_id: Address { bytes: ix.program_id.to_bytes() }, accounts, data: ix.data }
}

impl CreationMode {
    /// Whether derivation accepts this mode's inputs.
    pub open spec fn derivable(&self) -> bool {
        match self {
            CreationMode::Fresh { .. } => true,
            CreationMode::Seeded { seed, owner, .. } => encode_utf8(seed@).len() <= MAX_SEED_LEN
                && !has_pda_suffix(owner@),
        }
    }

    /// Why derivation refuses this mode's inputs, when it does.
    pub open spec fn derivation_error(&self) -> AddressError {
        match self {
            CreationMode::Seeded { seed, .. } if encode_utf8(seed@).len() > MAX_SEED_LEN => AddressError::SeedTooLong,
            _ => AddressError::IllegalOwner,
        }
    }

    /// The instruction, as program, metas and payload, that creates
    /// `target` in this mode.
    pub open spec fn instruction_view(
        &self,
        funder: Address,
        target: Seq<u8>,
        lamports: u64,
        space: u64,
    ) -> (Seq<u8>, Seq<(Seq<u8>, bool, bool)>, Seq<u8>) {
        match self {
            CreationMode::Fresh { new_account, owner } => (
                system_program_bytes(),
                seq![(funder@, true, true), (new_account@, true, true)],
                create_account_data(lamports, space, owner@),
            ),
            CreationMode::Seeded { base, seed, owner } => (
                system_program_bytes(),
                seq![(funder@, true, true), (target, false, true), (base@, true, false)],
                create_account_with_seed_data(base@, encode_utf8(seed@), lamports, space, owner@),
            ),
        }
    }

    /// The address this mode creates, once derivable.
    pub open spec fn target(&self) -> Seq<u8> {
        match self {
            CreationMode::Fresh { new_account, .. } => new_account@,
            CreationMode::Seeded { base, seed, owner } => derived_address(
                base@ + encode_utf8(seed@) + owner@,
            ),
        }
    }

    /// The key, besides the funder's, that must sign the creation.
    pub open spec fn co_signer(&self) -> Address {
        match self {
            CreationMode::Fresh { new_account, .. } => *new_account,
            CreationMode::Seeded { base, .. } => *base,
        }
    }
}

/// Builds the one instruction that creates the account that `mode` names,
/// funded by `funder` with `lamports`, holding `space` bytes. Returns the new
/// address with it.
pub fn build_create_instruction(
    funder: &Address,
    mode: &CreationMode,
    lamports: u64,
    space: u64,
) -> (r: Result<(Address, Instruction), AddressError>)
    ensures
        r is Ok <==> mode.derivable(),
        r is Err ==> r->Err_0 == mode.derivation_error(),
        r is Ok ==> r->Ok_0.0@ == mode.target(),
        r is Ok ==> ix_view(r->Ok_0.1) == mode.instruction_view(*funder, r->Ok_0.0@, lamports, space),
        r is Ok ==> r->Ok_0.1.accounts@.len() <= 3,
        r is Ok ==> match mode {
            CreationMode::Fresh { new_account, owner } => is_create_account(
                r->Ok_0.1, *funder, *new_account, lamports, space, *owner),
            CreationMode::Seeded { base, seed, owner } => is_create_account_with_seed(
                r->Ok_0.1, *funder, r->Ok_0.0, *base, encode_utf8(seed@), lamports, space, *owner),
        },
{
    match mode {
        CreationMode::Fresh { new_account, owner } => {
            let ix = system_create_account(funder, new_account, lamports, space, owner);
            assert(ix_view(ix).1 =~= mode.instruction_view(*funder, new_account@, lamports, space).1);
            Ok((*new_account, ix))
        },
        CreationMode::Seeded { base, seed, owner } => {
            let s: &str = seed.as_str();
            match create_with_seed(base, s, owner) {
                Ok(derived) => {
                    let ix = system_create_account_with_seed(
                        funder, &derived, base, s, lamports, space, owner);
                    assert(ix_view(ix).1 =~= mode.instruction_view(*funder, derived@, lamports, space).1);
                    Ok((derived, ix))
                },
                Err(e) => Err(e),
            }
        },
    }
}

} // verus!
