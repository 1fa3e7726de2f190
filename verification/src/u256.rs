//! A 256-bit unsigned integer held as four 64-bit words.

use vstd::prelude::*;

verus! {

/// Two to the power `8 * k`, for the eight byte positions of a word.
pub open spec fn byte_weight(k: int) -> nat {
    if k == 0 {
        0x1
    } else if k == 1 {
        0x100
    } else if k == 2 {
        0x1_0000
    } else if k == 3 {
        0x100_0000
    } else if k == 4 {
        0x1_0000_0000
    } else if k == 5 {
        0x100_0000_0000
    } else if k == 6 {
        0x1_0000_0000_0000
    } else {
        0x100_0000_0000_0000
    }
}

/// The word whose big-endian bytes are `bytes[start .. start + 8]`.
pub open spec fn be_word(bytes: Seq<u8>, start: int) -> nat {
    (bytes[start] as nat) * byte_weight(7) + (bytes[start + 1] as nat) * byte_weight(6)
        + (bytes[start + 2] as nat) * byte_weight(5) + (bytes[start + 3] as nat) * byte_weight(4)
        + (bytes[start + 4] as nat) * byte_weight(3) + (bytes[start + 5] as nat) * byte_weight(2)
        + (bytes[start + 6] as nat) * byte_weight(1) + (bytes[start + 7] as nat)
}

/// Byte `k` of a word, counted from the least significant one.
pub open spec fn word_byte(word: u64, k: int) -> u8 {
    ((word as nat / byte_weight(k)) % 256) as u8
}

/// An unsigned integer below two to the power 256.
#[derive(Clone, Copy, Debug, PartialEq, Eq, Hash, Structural)]
pub struct U256 {
    w3: u64,
    w2: u64,
    w1: u64,
    w0: u64,
}

impl U256 {
    /// Word `i` of the number, word 0 being the least significant.
    pub closed spec fn word(self, i: int) -> u64 {
        if i == 0 {
            self.w0
        } else if i == 1 {
            self.w1
        } else if i == 2 {
            self.w2
        } else {
            self.w3
        }
    }

    /// The number with the given words, most significant first.
    pub closed spec fn spec_from_words(w3: u64, w2: u64, w1: u64, w0: u64) -> U256 {
        U256 { w3, w2, w1, w0 }
    }

    /// The number whose 32 bytes, most significant first, are `bytes`.
    pub open spec fn spec_from_big_endian(bytes: Seq<u8>) -> U256 {
        U256::spec_from_words(
            be_word(bytes, 0) as u64,
            be_word(bytes, 8) as u64,
            be_word(bytes, 16) as u64,
            be_word(bytes, 24) as u64,
        )
    }

    /// The number itself: each word weighs two to the power 64 times the
    /// word below it.
    pub open spec fn value(self) -> nat {
        (self.word(3) as nat) * 0x1_0000_0000_0000_0000_0000_0000_0000_0000_0000_0000_0000_0000
            + (self.word(2) as nat) * 0x1_0000_0000_0000_0000_0000_0000_0000_0000 + (self.word(
            1,
        ) as nat) * 0x1_0000_0000_0000_0000 + (self.word(0) as nat)
    }

    /// The 32 bytes of the number, least significant first.
    pub open spec fn le_bytes(self) -> Seq<u8> {
        Seq::new(32, |i: int| word_byte(self.word(i / 8), i % 8))
    }

    /// The number with the given words, most significant first.
    pub fn from_words(w3: u64, w2: u64, w1: u64, w0: u64) -> (r: U256)
        ensures
            r == U256::spec_from_words(w3, w2, w1, w0),
            r.word(3) == w3,
            r.word(2) == w2,
            r.word(1) == w1,
            r.word(0) == w0,
    {
        U256 { w3, w2, w1, w0 }
    }

    /// The four words, most significant first.
    pub fn words(&self) -> (r: (u64, u64, u64, u64))
        ensures
            r.0 == self.word(3),
            r.1 == self.word(2),
            r.2 == self.word(1),
            r.3 == self.word(0),
    {
        (self.w3, self.w2, self.w1, self.w0)
    }

    pub fn zero() -> (r: U256)
        ensures
            r == U256::spec_from_words(0, 0, 0, 0),
            r.value() == 0,
            forall|i: int| 0 <= i < 4 ==> r.word(i) == 0,
    {
        U256 { w3: 0, w2: 0, w1: 0, w0: 0 }
    }

    /// The largest number of the type.
    pub fn max_value() -> (r: U256)
        ensures
            r == U256::spec_from_words(u64::MAX, u64::MAX, u64::MAX, u64::MAX),
            forall|other: U256| other.value() <= r.value(),
            forall|i: int| 0 <= i < 4 ==> r.word(i) == u64::MAX,
    {
        U256 { w3: u64::MAX, w2: u64::MAX, w1: u64::MAX, w0: u64::MAX }
    }

    pub fn from_u64(v: u64) -> (r: U256)
        ensures
            r == U256::spec_from_words(0, 0, 0, v),
            r.value() == v,
    {
        U256 { w3: 0, w2: 0, w1: 0, w0: v }
    }

    /// Reads 32 bytes as a number written most significant byte first.
    pub fn from_big_endian(bytes: &[u8]) -> (r: U256)
        requires
            bytes@.len() == 32,
        ensures
            r == U256::spec_from_big_endian(bytes@),
            r.word(3) == be_word(bytes@, 0),
            r.word(2) == be_word(bytes@, 8),
            r.word(1) == be_word(bytes@, 16),
            r.word(0) == be_word(bytes@, 24),
    {
        U256 {
            w3: read_be_word(bytes, 0),
            w2: read_be_word(bytes, 8),
            w1: read_be_word(bytes, 16),
            w0: read_be_word(bytes, 24),
        }
    }

    /// Writes the number as 32 bytes, least significant byte first.
    pub fn to_little_endian(&self) -> (bytes: [u8; 32])
        ensures
            bytes@ == self.le_bytes(),
    {
        let mut bytes: [u8; 32] = [0u8; 32];
        put_le_word(&mut bytes, 0, self.w0);
        put_le_word(&mut bytes, 8, self.w1);
        put_le_word(&mut bytes, 16, self.w2);
        put_le_word(&mut bytes, 24, self.w3);
        assert(bytes@ =~= self.le_bytes());
        bytes
    }

    /// Numeric `<=`.
    pub fn le(&self, other: &U256) -> (r: bool)
        ensures
            r == (self.value() <= other.value()),
    {
        if self.w3 != other.w3 {
            self.w3 < other.w3
        } else if self.w2 != other.w2 {
            self.w2 < other.w2
        } else if self.w1 != other.w1 {
            self.w1 < other.w1
        } else {
            self.w0 <= other.w0
        }
    }
}

/// Two numbers with the same value are the same number.
pub proof fn lemma_value_injective(a: U256, b: U256)
    requires
        a.value() == b.value(),
    ensures
        a == b,
{
}

fn read_be_word(bytes: &[u8], start: usize) -> (w: u64)
    requires
        start + 8 <= bytes@.len(),
    ensures
        w == be_word(bytes@, start as int),
{
    let b0: u64 = bytes[start] as u64;
    let b1: u64 = bytes[start + 1] as u64;
    let b2: u64 = bytes[start + 2] as u64;
    let b3: u64 = bytes[start + 3] as u64;
    let b4: u64 = bytes[start + 4] as u64;
    let b5: u64 = bytes[start + 5] as u64;
    let b6: u64 = bytes[start + 6] as u64;
    let b7: u64 = bytes[start + 7] as u64;
    b0 * 0x100_0000_0000_0000 + b1 * 0x1_0000_0000_0000 + b2 * 0x100_0000_0000 + b3
        * 0x1_0000_0000 + b4 * 0x100_0000 + b5 * 0x1_0000 + b6 * 0x100 + b7
}

fn put_le_word(out: &mut [u8; 32], at: usize, word: u64)
    requires
        at + 8 <= 32,
    ensures
        forall|k: int| 0 <= k < 8 ==> final(out)@[at + k] == word_byte(word, k),
        forall|j: int| 0 <= j < 32 && !(at <= j < at + 8) ==> final(out)@[j] == old(out)@[j],
{
    out[at] = (word % 256) as u8;
    out[at + 1] = (word / 0x100 % 256) as u8;
    out[at + 2] = (word / 0x1_0000 % 256) as u8;
    out[at + 3] = (word / 0x100_0000 % 256) as u8;
    out[at + 4] = (word / 0x1_0000_0000 % 256) as u8;
    out[at + 5] = (word / 0x100_0000_0000 % 256) as u8;
    out[at + 6] = (word / 0x1_0000_0000_0000 % 256) as u8;
    out[at + 7] = (word / 0x100_0000_0000_0000 % 256) as u8;
}

} // verus!
