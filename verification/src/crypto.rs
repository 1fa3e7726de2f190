//! The signature primitive: ECDSA over secp256k1, with keys and signatures
//! held as the bytes of their standard encodings.

use vstd::prelude::*;
use ecdsa::signature::{Signer, Verifier};
use crate::sha256;

verus! {

/// Whether `bytes` are the encoding of a secp256k1 private scalar.
pub uninterp spec fn secret_key_valid(bytes: Seq<u8>) -> bool;

/// The SEC1 encoding of the public point that belongs to a private scalar.
pub uninterp spec fn public_key_of(secret: Seq<u8>) -> Seq<u8>;

/// The deterministic ECDSA signature of `message` under a private scalar, as
/// the 64 bytes of `r` and `s`, where one can be made.
pub uninterp spec fn ecdsa_signature(secret: Seq<u8>, message: Seq<u8>) -> Option<Seq<u8>>;

/// Whether `signature` is a valid ECDSA signature of `message` under the
/// SEC1-encoded public key. False where either is malformed.
pub uninterp spec fn ecdsa_verifies(signature: Seq<u8>, message: Seq<u8>, public_key: Seq<u8>) -> bool;

/// Calls `SigningKey::from_slice` and reports whether it accepted the bytes.
///
/// Trusted: acceptance depends on the bytes alone.
#[verifier::external_body]
fn secret_key_accepted(bytes: &Vec<u8>) -> (ok: bool)
    ensures
        ok == secret_key_valid(bytes@),
{
    ecdsa::SigningKey::<k256::Secp256k1>::from_slice(bytes).is_ok()
}

/// Draws a private scalar with `SigningKey::random` from the thread's
/// generator and returns its bytes.
///
/// Trusted: the bytes of a key that was just made are accepted as a key.
/// Nothing else is claimed of them: two calls may differ.
#[verifier::external_body]
fn random_secret_key() -> (bytes: Vec<u8>)
    ensures
        secret_key_valid(bytes@),
{
    ecdsa::SigningKey::<k256::Secp256k1>::random(&mut rand::thread_rng()).to_bytes().to_vec()
}

/// Calls `SigningKey::verifying_key` and returns the key's SEC1 encoding.
///
/// Trusted: the public key depends on the private scalar alone.
#[verifier::external_body]
fn derive_public_key(secret: &Vec<u8>) -> (bytes: Vec<u8>)
    requires
        secret_key_valid(secret@),
    ensures
        bytes@ == public_key_of(secret@),
{
    match ecdsa::SigningKey::<k256::Secp256k1>::from_slice(secret) {
        Ok(key) => key.verifying_key().to_encoded_point(true).as_bytes().to_vec(),
        Err(_) => Vec::new(),
    }
}

/// Calls `Signer::try_sign` of the signing key on the message.
///
/// Trusted: the nonce is derived from key and message, so the signature
/// depends on the two alone. No signature is returned where the key is not
/// accepted or signing fails.
#[verifier::external_body]
fn ecdsa_sign(secret: &Vec<u8>, message: &[u8]) -> (signature: Option<Vec<u8>>)
    ensures
        signature is Some <==> ecdsa_signature(secret@, message@) is Some,
        signature is Some ==> signature.unwrap()@ == ecdsa_signature(secret@, message@).unwrap(),
{
    let key = ecdsa::SigningKey::<k256::Secp256k1>::from_slice(secret).ok()?;
    let signature: ecdsa::Signature<k256::Secp256k1> = key.try_sign(message).ok()?;
    Some(signature.to_bytes().to_vec())
}

/// Calls `Verifier::verify` of the verifying key on message and signature.
///
/// Trusted: the answer depends on the three byte strings alone. A public key
/// or a signature that does not parse gives `false`.
#[verifier::external_body]
fn ecdsa_verify(signature: &Vec<u8>, message: &[u8], public_key: &Vec<u8>) -> (ok: bool)
    ensures
        ok == ecdsa_verifies(signature@, message@, public_key@),
{
    let key = match ecdsa::VerifyingKey::<k256::Secp256k1>::from_sec1_bytes(public_key) {
        Ok(key) => key,
        Err(_) => return false,
    };
    let parsed = match ecdsa::Signature::<k256::Secp256k1>::from_slice(signature) {
        Ok(parsed) => parsed,
        Err(_) => return false,
    };
    key.verify(message, &parsed).is_ok()
}

/// Copies a byte vector.
pub fn copy_bytes(bytes: &Vec<u8>) -> (r: Vec<u8>)
    ensures
        r@ == bytes@,
{
    let mut r: Vec<u8> = Vec::new();
    let mut i: usize = 0;
    while i < bytes.len()
        invariant
            i <= bytes.len(),
            r@ == bytes@.subrange(0, i as int),
        decreases bytes.len() - i,
    {
        r.push(bytes[i]);
        i += 1;
        assert(r@ =~= bytes@.subrange(0, i as int));
    }
    assert(r@ =~= bytes@);
    r
}

/// Proof that the holder of a private key authorised a digest.
#[derive(Debug)]
pub struct Signature {
    bytes: Vec<u8>,
}

/// A public key, as its SEC1 encoding.
#[derive(Debug)]
pub struct PublicKey {
    bytes: Vec<u8>,
}

/// A private key, as the bytes of its scalar.
#[derive(Debug)]
pub struct PrivateKey {
    bytes: Vec<u8>,
}

impl View for Signature {
    type V = Seq<u8>;

    closed spec fn view(&self) -> Seq<u8> {
        self.bytes@
    }
}

impl View for PublicKey {
    type V = Seq<u8>;

    closed spec fn view(&self) -> Seq<u8> {
        self.bytes@
    }
}

impl View for PrivateKey {
    type V = Seq<u8>;

    closed spec fn view(&self) -> Seq<u8> {
        self.bytes@
    }
}

impl Clone for Signature {
    fn clone(&self) -> (r: Self)
        ensures
            r@ == self@,
    {
        Signature { bytes: copy_bytes(&self.bytes) }
    }
}

impl Clone for PublicKey {
    fn clone(&self) -> (r: Self)
        ensures
            r@ == self@,
    {
        PublicKey { bytes: copy_bytes(&self.bytes) }
    }
}

impl Clone for PrivateKey {
    fn clone(&self) -> (r: Self)
        ensures
            r@ == self@,
    {
        proof {
            use_type_invariant(self);
        }
        PrivateKey { bytes: copy_bytes(&self.bytes) }
    }
}

impl PublicKey {
    /// The key with the given SEC1 encoding. Bytes that encode no point make
    /// a key under which nothing verifies.
    pub fn from_sec1_bytes(bytes: Vec<u8>) -> (r: PublicKey)
        ensures
            r@ == bytes@,
    {
        PublicKey { bytes }
    }

    pub fn to_sec1_bytes(&self) -> (r: Vec<u8>)
        ensures
            r@ == self@,
    {
        copy_bytes(&self.bytes)
    }
}

impl PrivateKey {
    #[verifier::type_invariant]
    spec fn valid(self) -> bool {
        secret_key_valid(self.bytes@)
    }

    /// A fresh key from the thread's random generator.
    pub fn new_key() -> (r: PrivateKey)
        ensures
            secret_key_valid(r@),
    {
        PrivateKey { bytes: random_secret_key() }
    }

    /// The key with the given scalar bytes, where they encode one.
    pub fn from_bytes(bytes: Vec<u8>) -> (r: Option<PrivateKey>)
        ensures
            r is Some <==> secret_key_valid(bytes@),
            r is Some ==> r.unwrap()@ == bytes@,
    {
        if secret_key_accepted(&bytes) {
            Some(PrivateKey { bytes })
        } else {
            None
        }
    }

    pub fn to_bytes(&self) -> (r: Vec<u8>)
        ensures
            r@ == self@,
            secret_key_valid(r@),
    {
        proof {
            use_type_invariant(self);
        }
        copy_bytes(&self.bytes)
    }

    /// The one public key that belongs to this private key.
    pub fn public_key(&self) -> (r: PublicKey)
        ensures
            r@ == public_key_of(self@),
    {
        proof {
            use_type_invariant(self);
        }
        PublicKey { bytes: derive_public_key(&self.bytes) }
    }
}

impl Signature {
    /// The signature with the given 64 bytes of `r` and `s`. Bytes that
    /// encode no signature make one that never verifies.
    pub fn from_bytes(bytes: Vec<u8>) -> (r: Signature)
        ensures
            r@ == bytes@,
    {
        Signature { bytes }
    }

    pub fn to_bytes(&self) -> (r: Vec<u8>)
        ensures
            r@ == self@,
    {
        copy_bytes(&self.bytes)
    }

    /// Signs the digest of an output with a private key.
    pub fn sign_output(output_hash: &sha256::Hash, private_key: &PrivateKey) -> (r: Option<Signature>)
        ensures
            r is Some <==> ecdsa_signature(private_key@, output_hash.spec_bytes()) is Some,
            r is Some ==> r.unwrap()@ == ecdsa_signature(
                private_key@,
                output_hash.spec_bytes(),
            ).unwrap(),
    {
        let message = output_hash.as_bytes();
        match ecdsa_sign(&private_key.bytes, message.as_slice()) {
            Some(bytes) => Some(Signature { bytes }),
            None => None,
        }
    }

    /// Whether this is a valid signature of the digest under the public key.
    pub fn verify(&self, output_hash: &sha256::Hash, public_key: &PublicKey) -> (r: bool)
        ensures
            r == ecdsa_verifies(self@, output_hash.spec_bytes(), public_key@),
    {
        let message = output_hash.as_bytes();
        ecdsa_verify(&self.bytes, message.as_slice(), &public_key.bytes)
    }
}

} // verus!
