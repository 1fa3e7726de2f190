//! Content addressing: the digest of a value's canonical encoding, read as a
//! 256-bit number.

use vstd::prelude::*;
use crate::encoding::{cbor_encode, cbor_encoding, Encode, FieldModel};
use crate::u256::U256;

verus! {

/// Whether `c` is one of `0`..`9`, `a`..`f`, `A`..`F`.
pub open spec fn is_hex_digit(c: char) -> bool {
    ('0' <= c && c <= '9') || ('a' <= c && c <= 'f') || ('A' <= c && c <= 'F')
}

/// The number that a hexadecimal digit stands for.
pub open spec fn hex_digit_value(c: char) -> nat {
    if '0' <= c && c <= '9' {
        (c as u32 - '0' as u32) as nat
    } else if 'a' <= c && c <= 'f' {
        (c as u32 - 'a' as u32 + 10) as nat
    } else {
        (c as u32 - 'A' as u32 + 10) as nat
    }
}

/// Whether `text` is an even number of hexadecimal digits.
pub open spec fn is_hex_text(text: Seq<char>) -> bool {
    text.len() % 2 == 0 && forall|i: int| 0 <= i < text.len() ==> is_hex_digit(#[trigger] text[i])
}

/// The bytes that a hexadecimal text stands for, two digits to the byte.
pub open spec fn hex_decoded(text: Seq<char>) -> Seq<u8> {
    Seq::new(
        text.len() / 2,
        |i: int| (16 * hex_digit_value(text[2 * i]) + hex_digit_value(text[2 * i + 1])) as u8,
    )
}

/// The SHA-256 digest of `data`, as 64 lower-case hexadecimal digits.
pub uninterp spec fn sha256_hex(data: Seq<u8>) -> Seq<char>;

/// `hex::FromHexError`, the error of `hex::decode`. Nothing is known of its
/// contents here.
#[verifier::external_type_specification]
#[verifier::external_body]
pub struct ExFromHexError(hex::FromHexError);

/// Calls `sha256::digest` on the bytes.
///
/// Trusted: the text returned depends on the bytes alone and is the
/// hexadecimal form of a 32-byte digest, so 64 hexadecimal digits.
#[verifier::external_body]
fn sha256_digest(data: &Vec<u8>) -> (text: String)
    ensures
        text@ == sha256_hex(data@),
        text@.len() == 64,
        is_hex_text(text@),
{
    ::sha256::digest(data)
}

/// Calls `hex::decode` on the text.
///
/// Trusted: decoding succeeds exactly on an even number of hexadecimal
/// digits, and each byte is sixteen times its first digit plus its second.
#[verifier::external_body]
fn hex_decode(text: &String) -> (r: Result<Vec<u8>, hex::FromHexError>)
    ensures
        r is Ok <==> is_hex_text(text@),
        r is Ok ==> r.unwrap()@ == hex_decoded(text@),
{
    hex::decode(text)
}

/// A digest: a 256-bit number that identifies a value by its content.
#[derive(Clone, Copy, Debug, PartialEq, Eq, Hash, Structural)]
pub struct Hash(U256);

impl Hash {
    /// The number that the digest is.
    pub closed spec fn number(self) -> U256 {
        self.0
    }

    /// The digest that is the number `n`.
    pub closed spec fn from_number(n: U256) -> Hash {
        Hash(n)
    }

    /// The digest of the value whose fields are `fields`: the SHA-256 digest
    /// of their canonical encoding, read most significant byte first.
    pub open spec fn spec_hash(fields: Seq<FieldModel>) -> Hash {
        Hash::from_number(
            U256::spec_from_big_endian(hex_decoded(sha256_hex(cbor_encoding(fields)))),
        )
    }

    /// The digest with every bit zero: "no predecessor".
    pub open spec fn spec_zero() -> Hash {
        Hash::from_number(U256::spec_from_words(0, 0, 0, 0))
    }

    /// The 32 bytes of the digest, least significant first.
    pub open spec fn spec_bytes(self) -> Seq<u8> {
        self.number().le_bytes()
    }

    /// Computes the digest of a value.
    pub fn hash<T: Encode>(data: &T) -> (h: Hash)
        ensures
            h == Hash::spec_hash(data.spec_fields()),
    {
        let fields = data.encode_fields();
        let serialized = match cbor_encode(&fields) {
            Some(bytes) => bytes,
            None => vstd::pervasive::unreached(),
        };
        let text = sha256_digest(&serialized);
        match hex_decode(&text) {
            Ok(bytes) => Hash(U256::from_big_endian(bytes.as_slice())),
            Err(_) => vstd::pervasive::unreached(),
        }
    }

    /// Whether the digest, as a number, is at most `target`.
    pub fn matches_target(&self, target: U256) -> (r: bool)
        ensures
            r == (self.number().value() <= target.value()),
    {
        self.0.le(&target)
    }

    pub fn zero() -> (h: Hash)
        ensures
            h == Hash::spec_zero(),
            h.number().value() == 0,
    {
        let n = U256::from_words(0, 0, 0, 0);
        Hash(n)
    }

    pub fn as_bytes(&self) -> (bytes: [u8; 32])
        ensures
            bytes@ == self.spec_bytes(),
    {
        self.0.to_little_endian()
    }

    /// The digest that is the number `n`: for a digest that was stored as a
    /// number and is read back.
    pub fn from_u256(n: U256) -> (h: Hash)
        ensures
            h == Hash::from_number(n),
            h.number() == n,
    {
        Hash(n)
    }

    /// The number that the digest is.
    pub fn to_u256(&self) -> (n: U256)
        ensures
            n == self.number(),
    {
        self.0
    }
}

/// Numbers and digests correspond one to one.
pub proof fn lemma_number_injective(a: Hash, b: Hash)
    ensures
        a.number() == b.number() <==> a == b,
        forall|n: U256| #[trigger] Hash::from_number(n).number() == n,
{
}

} // verus!
