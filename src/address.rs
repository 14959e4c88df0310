use vstd::prelude::*;
use vstd::string::StringSliceAdditionalSpecFns;

verus! {

/// Longest seed, in bytes, that seeded derivation accepts.
pub const MAX_SEED_LEN: usize = 32;

/// A 32-byte account address.
#[derive(Clone, Copy, Debug)]
pub struct Address {
    pub bytes: [u8; 32],
}

impl View for Address {
    type V = Seq<u8>;

    open spec fn view(&self) -> Seq<u8> {
        self.bytes@
    }
}

/// Why seeded derivation refused its inputs.
#[derive(Clone, Copy, Debug, PartialEq, Eq, Structural)]
pub enum AddressError {
    SeedTooLong,
    IllegalOwner,
}

/// The hash of `base ‖ seed ‖ owner` that seeded derivation returns.
pub uninterp spec fn derived_address(input: Seq<u8>) -> Seq<u8>;

/// The marker that ends the input of a program-derived address.
pub open spec fn pda_marker() -> Seq<u8> {
    seq![80u8, 114, 111, 103, 114, 97, 109, 68, 101, 114, 105, 118, 101, 100,
         65, 100, 100, 114, 101, 115, 115]
}

/// An owner whose bytes end with the program-derived-address marker.
pub open spec fn has_pda_suffix(owner: Seq<u8>) -> bool {
    owner.len() >= pda_marker().len()
        && owner.subrange(owner.len() - pda_marker().len(), owner.len() as int) == pda_marker()
}

/// The refusal `e` of seeded derivation, as the raw result.
pub open spec fn seed_error(e: AddressError) -> Result<[u8; 32], AddressError> {
    Err(e)
}

impl Address {
    pub fn from_bytes(bytes: [u8; 32]) -> (r: Address)
        ensures
            r@ == bytes@,
    {
        Address { bytes }
    }

    pub fn to_bytes(&self) -> (r: [u8; 32])
        ensures
            r@ == self@,
    {
        self.bytes
    }
}

/// Whether two addresses hold the same bytes.
pub fn addr_eq(a: &Address, b: &Address) -> (r: bool)
    ensures
        r == (a@ == b@),
{
    let mut i: usize = 0;
    while i < 32
        invariant
            0 <= i <= 32,
            a@.len() == 32,
            b@.len() == 32,
            forall|j: int| 0 <= j < i ==> a@[j] == b@[j],
        decreases 32 - i,
    {
        if a.bytes[i] != b.bytes[i] {
            return false;
        }
        i = i + 1;
    }
    assert(a@ =~= b@);
    true
}

/// Relies on solana_program's Pubkey::create_with_seed: it refuses a seed of
/// more than MAX_SEED_LEN bytes, then an owner ending in the
/// program-derived-address marker, and otherwise returns the SHA-256 hash of
/// base, seed and owner concatenated.
#[verifier::external_body]
fn pubkey_create_with_seed(base: &Address, seed: &str, owner: &Address) -> (r: Result<
    [u8; 32],
    AddressError,
>)
    ensures
        seed.spec_bytes().len() > MAX_SEED_LEN ==> r == seed_error(AddressError::SeedTooLong),
        seed.spec_bytes().len() <= MAX_SEED_LEN && has_pda_suffix(owner@) ==> r == seed_error(
            AddressError::IllegalOwner,
        ),
        seed.spec_bytes().len() <= MAX_SEED_LEN && !has_pda_suffix(owner@) ==> (r is Ok
            && r->Ok_0@ == derived_address(base@ + seed.spec_bytes() + owner@)),
{
    let b = solana_program::pubkey::Pubkey::new_from_array(base.bytes);
    let o = solana_program::pubkey::Pubkey::new_from_array(owner.bytes);
    match solana_program::pubkey::Pubkey::create_with_seed(&b, seed, &o) {
        Ok(p) => Ok(p.to_bytes()),
        Err(solana_program::pubkey::PubkeyError::MaxSeedLengthExceeded) => Err(
            AddressError::SeedTooLong,
        ),
        Err(_) => Err(AddressError::IllegalOwner),
    }
}

/// Derives the address owned by `owner` that `base` controls under `seed`.
/// The seed is taken as its UTF-8 bytes, without normalisation.
pub fn create_with_seed(base: &Address, seed: &str, owner: &Address) -> (r: Result<
    Address,
    AddressError,
>)
    ensures
        r is Err <==> (seed.spec_bytes().len() > MAX_SEED_LEN || has_pda_suffix(owner@)),
        seed.spec_bytes().len() > MAX_SEED_LEN ==> r->Err_0 == AddressError::SeedTooLong,
        seed.spec_bytes().len() <= MAX_SEED_LEN && has_pda_suffix(owner@) ==> r->Err_0
            == AddressError::IllegalOwner,
        r is Ok ==> r->Ok_0@ == derived_address(base@ + seed.spec_bytes() + owner@),
{
    match pubkey_create_with_seed(base, seed, owner) {
        Ok(bytes) => Ok(Address::from_bytes(bytes)),
        Err(e) => Err(e),
    }
}

/// Seeded derivation is deterministic, and distinct triples of base, seed
/// and owner hash distinct inputs: with base and owner 32 bytes each, the
/// input `base ‖ seed ‖ owner` determines all three. Two triples thus share
/// an address only through a collision of the hash itself.
pub proof fn lemma_derivation_input(
    b1: Seq<u8>,
    s1: Seq<u8>,
    o1: Seq<u8>,
    b2: Seq<u8>,
    s2: Seq<u8>,
    o2: Seq<u8>,
)
    requires
        b1.len() == 32,
        o1.len() == 32,
        b2.len() == 32,
        o2.len() == 32,
    ensures
        (b1 == b2 && s1 == s2 && o1 == o2) ==> derived_address(b1 + s1 + o1) == derived_address(
            b2 + s2 + o2,
        ),
        b1 + s1 + o1 == b2 + s2 + o2 ==> (b1 == b2 && s1 == s2 && o1 == o2),
{
    let x = b1 + s1 + o1;
    let y = b2 + s2 + o2;
    if x == y {
        assert(x.len() == y.len());
        assert(s1.len() == s2.len());
        assert(b1 =~= x.subrange(0, 32));
        assert(b2 =~= y.subrange(0, 32));
        assert(s1 =~= x.subrange(32, 32 + s1.len() as int));
        assert(s2 =~= y.subrange(32, 32 + s2.len() as int));
        assert(o1 =~= x.subrange(32 + s1.len() as int, x.len() as int));
        assert(o2 =~= y.subrange(32 + s2.len() as int, y.len() as int));
    }
}

} // verus!
