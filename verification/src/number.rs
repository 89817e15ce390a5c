//! Numbers of 3072 bits as a signature structure stores them.

use crate::bytes::{
    be_bytes, be_value, get_array, le_bytes, le_value, lemma_be_bytes_len,
    lemma_be_value_is_reversed_le_value, lemma_be_value_of_be_bytes,
    lemma_le_bytes_of_le_value, lemma_le_value_zero_padded, pow256, zeros,
};
use vstd::prelude::*;

verus! {

/// The number of bytes of an [`RsaNumber`].
pub const RSA_NUMBER_SIZE: usize = 384;

/// A number does not fit in the 384 bytes of an [`RsaNumber`].
#[derive(Copy, Clone, Debug, PartialEq, Eq)]
pub struct ConversionOverflow;

/// A number of at most 3072 bits: 384 bytes, little-endian.
#[derive(Clone, Debug, PartialEq, Eq)]
pub struct RsaNumber([u8; 384]);

impl View for RsaNumber {
    type V = Seq<u8>;

    /// The 384 bytes, least significant first.
    closed spec fn view(&self) -> Seq<u8> {
        self.0@
    }
}

/// The 384 bytes that store the number which `be` holds big-endian: the
/// bytes of `be` in reverse order, then zero bytes.
pub open spec fn le_padded(be: Seq<u8>) -> Seq<u8>
    recommends
        be.len() <= 384,
{
    be.reverse() + zeros((384 - be.len()) as nat)
}

/// The stored bytes encode the number that the big-endian bytes encode.
pub proof fn lemma_le_padded_value(be: Seq<u8>)
    requires
        be.len() <= 384,
    ensures
        le_padded(be).len() == 384,
        le_value(le_padded(be)) == be_value(be),
{
    lemma_be_value_is_reversed_le_value(be);
    lemma_le_value_zero_padded(be.reverse(), (384 - be.len()) as nat);
}

/// Whether `value` fits in the 384 bytes of an [`RsaNumber`].
pub open spec fn fits(value: nat) -> bool {
    value < pow256(384)
}

/// A number that fits is stored as its little-endian encoding in 384
/// bytes.
pub proof fn lemma_le_padded_is_le_bytes(value: nat)
    requires
        fits(value),
    ensures
        le_padded(be_bytes(value)) == le_bytes(value, 384),
{
    lemma_be_bytes_len(value, 384);
    lemma_be_value_of_be_bytes(value);
    lemma_le_padded_value(be_bytes(value));
    lemma_le_bytes_of_le_value(le_padded(be_bytes(value)));
}

/// The two hexadecimal digits of each byte in turn, in lower case.
pub open spec fn hex(bytes: Seq<u8>) -> Seq<char>
    decreases bytes.len(),
{
    if bytes.len() == 0 {
        Seq::<char>::empty()
    } else {
        hex(bytes.drop_last()).push(hex_digit(bytes.last() / 16)).push(
            hex_digit(bytes.last() % 16),
        )
    }
}

/// The hexadecimal digit for a number below 16, in lower case.
pub open spec fn hex_digit(nibble: u8) -> char {
    if nibble < 10 {
        (48 + nibble) as char
    } else {
        (87 + nibble) as char
    }
}

/// The hexadecimal digit for a number below 16, in lower case.
fn digit(nibble: u8) -> (c: char)
    requires
        nibble < 16,
    ensures
        c == hex_digit(nibble),
{
    if nibble < 10 {
        (48 + nibble) as char
    } else {
        (87 + nibble) as char
    }
}

/// Appends one character to a string, with `String::push`.
#[verifier::external_body]
fn push_char(text: &mut String, c: char)
    ensures
        final(text)@ == old(text)@.push(c),
{
    text.push(c)
}

impl RsaNumber {
    /// The number that is stored.
    pub open spec fn value(&self) -> nat {
        le_value(self@)
    }

    /// Every number takes 384 bytes.
    pub proof fn lemma_view_len(&self)
        ensures
            self@.len() == 384,
    {
    }

    /// Two numbers with the same bytes are the same.
    pub proof fn lemma_view_injective(&self, other: &RsaNumber)
        requires
            self@ == other@,
        ensures
            *self == *other,
    {
        assert(self.0 =~= other.0);
    }

    /// Stores the number that `be` holds big-endian.
    ///
    /// The bytes are reversed into the 384 bytes of the result. A string of
    /// more than 384 bytes is refused, whatever it holds.
    pub fn from_be_bytes(be: &[u8]) -> (r: Result<RsaNumber, ConversionOverflow>)
        ensures
            r is Err <==> be@.len() > 384,
            r matches Ok(number) ==> number@ == le_padded(be@) && number.value() == be_value(be@),
    {
        let mut le = [0u8;384];
        let n = be.len();
        if n > RSA_NUMBER_SIZE {
            return Err(ConversionOverflow);
        }
        let mut i: usize = 0;
        while i < n
            invariant
                i <= n <= 384,
                n == be@.len(),
                le@.len() == 384,
                forall|k: int| 0 <= k < 384 && !(n - i <= k < n) ==> le@[k] == 0,
                forall|k: int| n - i <= k < n ==> le@[k] == be@[n - 1 - k],
            decreases n - i,
        {
            le[n - i - 1] = be[i];
            i = i + 1;
        }
        proof {
            assert(le@ =~= le_padded(be@));
            lemma_le_padded_value(be@);
        }
        Ok(RsaNumber(le))
    }

    /// The 384 bytes, least significant first.
    pub fn to_bytes(&self) -> (bytes: [u8; 384])
        ensures
            bytes@ == self@,
    {
        self.0
    }

    /// Reads the number that the 384 bytes of `bytes` from `at` on hold.
    pub fn get(bytes: &[u8], at: usize) -> (number: Self)
        requires
            at + RSA_NUMBER_SIZE <= bytes.len(),
        ensures
            number@ == bytes@.subrange(at as int, at + RSA_NUMBER_SIZE),
    {
        RsaNumber(get_array(bytes, at))
    }

    /// The bytes in hexadecimal, least significant byte first, two digits a
    /// byte.
    pub fn to_hex(&self) -> (text: String)
        ensures
            text@ == hex(self@),
    {
        let mut text = String::new();
        let mut i: usize = 0;
        while i < 384
            invariant
                i <= 384,
                text@ == hex(self.0@.subrange(0, i as int)),
            decreases 384 - i,
        {
            let byte = self.0[i];
            push_char(&mut text, digit(byte / 16));
            push_char(&mut text, digit(byte % 16));
            i = i + 1;
            assert(self.0@.subrange(0, i as int).drop_last() =~= self.0@.subrange(0, i - 1));
        }
        assert(self.0@.subrange(0, 384) =~= self.0@);
        text
    }
}

} // verus!
