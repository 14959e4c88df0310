use vstd::prelude::*;
use crate::address::Address;
use solana_sdk::signature::Signature;
use solana_sdk::signer::keypair::Keypair;
use solana_sdk::signer::Signer;

verus! {

#[verifier::external_type_specification]
#[verifier::external_body]
pub struct ExKeypair(Keypair);

/// Whether `signature` is a valid Ed25519 signature of `message` under the
/// public key `address`.
pub uninterp spec fn signature_valid(address: Seq<u8>, message: Seq<u8>, signature: Seq<u8>) -> bool;

/// The Ed25519 public key that a 32-byte secret key determines.
pub uninterp spec fn ed25519_public_of(secret: Seq<u8>) -> Seq<u8>;

/// Whether `bytes` are a secret key followed by its own public key.
pub open spec fn is_keypair_bytes(bytes: Seq<u8>) -> bool {
    bytes.len() == 64 && bytes.subrange(32, 64) == ed25519_public_of(bytes.subrange(0, 32))
}

/// A signing key together with its public address. The address is read
/// from the key when the pair is made and never changes.
pub struct KeyPair {
    inner: Keypair,
    address: Address,
}

impl KeyPair {
    pub closed spec fn addr(&self) -> Address {
        self.address
    }

    /// Relies on solana_sdk's Keypair::new, which draws a key from the
    /// operating system's generator, and on Signer::pubkey for its address.
    #[verifier::external_body]
    fn random_keypair() -> (r: KeyPair) {
        let inner = Keypair::new();
        let address = Address { bytes: inner.pubkey().to_bytes() };
        KeyPair { inner, address }
    }

    /// Relies on solana_sdk's Keypair::from_bytes: it reads a 32-byte secret
    /// key and a 32-byte public key, and accepts them only where the public
    /// key is the one derived from the secret; and on Signer::pubkey, which
    /// returns that public key.
    #[verifier::external_body]
    fn keypair_from_bytes(bytes: &[u8]) -> (r: Option<KeyPair>)
        ensures
            r is Some <==> (bytes@.len() == 64 && bytes@.subrange(32, 64) == ed25519_public_of(
                bytes@.subrange(0, 32),
            )),
            r is Some ==> r->Some_0.addr()@ == bytes@.subrange(32, 64),
    {
        let inner = Keypair::from_bytes(bytes).ok()?;
        let address = Address { bytes: inner.pubkey().to_bytes() };
        Some(KeyPair { inner, address })
    }

    /// A fresh key pair drawn at random.
    pub fn generate() -> (r: KeyPair) {
        KeyPair::random_keypair()
    }

    /// Reads a key pair from its 64 bytes, the secret key then the public
    /// key; any other bytes hold none.
    pub fn from_bytes(bytes: &[u8]) -> (r: Option<KeyPair>)
        ensures
            r is Some <==> is_keypair_bytes(bytes@),
            r is Some ==> r->Some_0.addr()@ == bytes@.subrange(32, 64),
    {
        KeyPair::keypair_from_bytes(bytes)
    }

    pub fn address(&self) -> (r: Address)
        ensures
            r == self.addr(),
    {
        self.address
    }

    /// Relies on Signer::sign_message of solana_sdk's Keypair: an Ed25519
    /// signature of 64 bytes, which verifies under the key's own address.
    #[verifier::external_body]
    fn ed25519_sign(&self, message: &[u8]) -> (r: Vec<u8>)
        ensures
            r@.len() == 64,
            signature_valid(self.addr()@, message@, r@),
    {
        self.inner.sign_message(message).as_ref().to_vec()
    }

    /// The 64-byte signature of `message` under this key, which verifies
    /// under the key's address.
    pub fn sign_message(&self, message: &[u8]) -> (r: Vec<u8>)
        ensures
            r@.len() == 64,
            signature_valid(self.addr()@, message@, r@),
    {
        self.ed25519_sign(message)
    }

    pub(crate) fn signer(&self) -> &Keypair {
        &self.inner
    }
}

/// Relies on solana_sdk's Signature::verify, after reading the signature
/// from its 64 bytes; any other length is no signature.
#[verifier::external_body]
fn ed25519_verify(address: &Address, message: &[u8], signature: &[u8]) -> (r: bool)
    ensures
        r == signature_valid(address@, message@, signature@),
{
    match Signature::try_from(signature) {
        Ok(s) => s.verify(&address.bytes, message),
        Err(_) => false,
    }
}

/// Whether `signature` signs `message` under `address`.
pub fn verify_signature(address: &Address, message: &[u8], signature: &[u8]) -> (r: bool)
    ensures
        r == signature_valid(address@, message@, signature@),
{
    ed25519_verify(address, message, signature)
}

/// A signature that a key pair makes verifies under that pair's address.
pub fn sign_and_verify(key: &KeyPair, message: &[u8]) -> (r: (Vec<u8>, bool))
    ensures
        signature_valid(key.addr()@, message@, r.0@),
        r.1,
{
    let sig = key.sign_message(message);
    let addr = key.address();
    let ok = verify_signature(&addr, message, sig.as_slice());
    (sig, ok)
}

} // verus!
