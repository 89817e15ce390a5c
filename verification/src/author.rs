//! The author block of a signature structure.

use crate::bytes::{
    get_le, le_bytes, lemma_le_bytes_injective, lemma_le_bytes_len, lemma_pow256_widths,
    lemma_words_le_injective, lemma_words_le_len, lemma_words_le_zero, put_le, words_le, zeros,
};
use vstd::prelude::*;

verus! {

/// The first constant byte string of an author block, as the number that
/// its sixteen bytes `06 00 00 00 e1 00 00 00 00 00 01 00 00 00 00 00`
/// encode little-endian.
pub const HEADER1: u128 = 0x0000_0000_0001_0000_0000_00e1_0000_0006;

/// The second constant byte string of an author block, as the number that
/// its sixteen bytes `01 01 00 00 60 00 00 00 60 00 00 00 01 00 00 00`
/// encode little-endian.
pub const HEADER2: u128 = 0x0000_0001_0000_0060_0000_0060_0000_0101;

/// The number of bytes of an author block on the wire.
pub const AUTHOR_SIZE: usize = 128;

/// The author of an enclave.
///
/// This is the first block of fields of a signature structure that the
/// signature covers.
#[derive(Copy, Clone, Debug, PartialEq, Eq)]
pub struct Author {
    header1: u128,
    /// Vendor.
    pub vendor: u32,
    /// Build date, `YYYYMMDD` in binary-coded decimal.
    pub date: u32,
    header2: u128,
    /// Software-defined value.
    pub swdefined: u32,
    reserved: [u32; 21],
}

/// What an author block holds, field by field.
pub struct AuthorModel {
    /// The first constant byte string.
    pub header1: u128,
    /// Vendor.
    pub vendor: u32,
    /// Build date.
    pub date: u32,
    /// The second constant byte string.
    pub header2: u128,
    /// Software-defined value.
    pub swdefined: u32,
    /// The 21 reserved words.
    pub reserved: Seq<u32>,
}

impl AuthorModel {
    /// Whether there are 21 reserved words, as there are in the model of
    /// every block.
    pub open spec fn sized(self) -> bool {
        self.reserved.len() == 21
    }

    /// The 128 bytes of the block on the wire: every field little-endian,
    /// in the order of the fields.
    pub open spec fn wire(self) -> Seq<u8> {
        le_bytes(self.header1 as nat, 16) + le_bytes(self.vendor as nat, 4) + le_bytes(
            self.date as nat,
            4,
        ) + le_bytes(self.header2 as nat, 16) + le_bytes(self.swdefined as nat, 4) + words_le(
            self.reserved,
        )
    }

    /// A block takes 128 bytes on the wire.
    pub proof fn lemma_wire_len(self)
        requires
            self.sized(),
        ensures
            self.wire().len() == 128,
    {
        lemma_le_bytes_len(self.header1 as nat, 16);
        lemma_le_bytes_len(self.vendor as nat, 4);
        lemma_le_bytes_len(self.date as nat, 4);
        lemma_le_bytes_len(self.header2 as nat, 16);
        lemma_le_bytes_len(self.swdefined as nat, 4);
        lemma_words_le_len(self.reserved);
    }

    /// Where each field of a block stands on the wire: the first constant
    /// byte string at 0, the vendor at 16, the date at 20, the second
    /// constant byte string at 24, the software-defined value at 40 and the
    /// reserved words from 44 to the end at 128.
    pub proof fn lemma_layout(self)
        requires
            self.sized(),
        ensures
            self.wire().len() == 128,
            self.wire().subrange(0, 16) == le_bytes(self.header1 as nat, 16),
            self.wire().subrange(16, 20) == le_bytes(self.vendor as nat, 4),
            self.wire().subrange(20, 24) == le_bytes(self.date as nat, 4),
            self.wire().subrange(24, 40) == le_bytes(self.header2 as nat, 16),
            self.wire().subrange(40, 44) == le_bytes(self.swdefined as nat, 4),
            self.wire().subrange(44, 128) == words_le(self.reserved),
    {
        lemma_le_bytes_len(self.header1 as nat, 16);
        lemma_le_bytes_len(self.vendor as nat, 4);
        lemma_le_bytes_len(self.date as nat, 4);
        lemma_le_bytes_len(self.header2 as nat, 16);
        lemma_le_bytes_len(self.swdefined as nat, 4);
        lemma_words_le_len(self.reserved);
    }

    /// Two blocks with the same bytes on the wire hold the same fields.
    pub proof fn lemma_wire_injective(self, other: AuthorModel)
        requires
            self.sized(),
            other.sized(),
            self.wire() == other.wire(),
        ensures
            self == other,
    {
        self.lemma_layout();
        other.lemma_layout();
        lemma_pow256_widths();
        lemma_le_bytes_injective(self.header1 as nat, other.header1 as nat, 16);
        lemma_le_bytes_injective(self.vendor as nat, other.vendor as nat, 4);
        lemma_le_bytes_injective(self.date as nat, other.date as nat, 4);
        lemma_le_bytes_injective(self.header2 as nat, other.header2 as nat, 16);
        lemma_le_bytes_injective(self.swdefined as nat, other.swdefined as nat, 4);
        lemma_words_le_injective(self.reserved, other.reserved);
    }

    /// Reserved words that are all zero are 84 zero bytes on the wire.
    pub proof fn lemma_reserved_zeroed(self)
        requires
            self.reserved == Seq::new(21, |i: int| 0u32),
        ensures
            self.wire().subrange(44, 128) == zeros(84),
    {
        self.lemma_layout();
        lemma_words_le_zero(self.reserved);
    }
}

impl View for Author {
    type V = AuthorModel;

    closed spec fn view(&self) -> AuthorModel {
        AuthorModel {
            header1: self.header1,
            vendor: self.vendor,
            date: self.date,
            header2: self.header2,
            swdefined: self.swdefined,
            reserved: self.reserved@,
        }
    }
}

impl Author {
    /// The 128 bytes of the block on the wire.
    pub open spec fn wire(&self) -> Seq<u8> {
        self@.wire()
    }

    /// Creates the author block for a date and a software-defined value:
    /// both constant byte strings in place, vendor and reserved words zero.
    pub fn new(date: u32, swdefined: u32) -> (author: Self)
        ensures
            author@ == (AuthorModel {
                header1: HEADER1,
                vendor: 0,
                date,
                header2: HEADER2,
                swdefined,
                reserved: Seq::new(21, |i: int| 0u32),
            }),
    {
        let author = Author {
            header1: HEADER1,
            vendor: 0u32,
            date,
            header2: HEADER2,
            swdefined,
            reserved: [0u32;21],
        };
        assert(author.reserved@ =~= Seq::new(21, |i: int| 0u32));
        author
    }

    /// The first constant byte string.
    pub fn header1(&self) -> (r: u128)
        ensures
            r == self@.header1,
    {
        self.header1
    }

    /// The second constant byte string.
    pub fn header2(&self) -> (r: u128)
        ensures
            r == self@.header2,
    {
        self.header2
    }

    /// The reserved words.
    pub fn reserved(&self) -> (r: [u32; 21])
        ensures
            r@ == self@.reserved,
    {
        self.reserved
    }

    /// Appends the bytes of the block to `buf`.
    pub fn put(&self, buf: &mut Vec<u8>)
        ensures
            final(buf)@ == old(buf)@ + self.wire(),
    {
        put_le(buf, self.header1, 16);
        put_le(buf, self.vendor as u128, 4);
        put_le(buf, self.date as u128, 4);
        put_le(buf, self.header2, 16);
        put_le(buf, self.swdefined as u128, 4);
        let ghost head = buf@;
        let mut done: usize = 0;
        while done < 21
            invariant
                done <= 21,
                buf@ == head + words_le(self.reserved@.subrange(0, done as int)),
            decreases 21 - done,
        {
            put_le(buf, self.reserved[done] as u128, 4);
            done = done + 1;
            assert(self.reserved@.subrange(0, done as int).drop_last()
                =~= self.reserved@.subrange(0, done - 1));
        }
        assert(self.reserved@.subrange(0, 21) =~= self.reserved@);
    }

    /// The 128 bytes of the block on the wire.
    pub fn to_bytes(&self) -> (bytes: Vec<u8>)
        ensures
            bytes@ == self.wire(),
            bytes@.len() == AUTHOR_SIZE,
    {
        let mut bytes = Vec::new();
        self.put(&mut bytes);
        proof {
            self@.lemma_wire_len();
        }
        bytes
    }

    /// Reads the block that the 128 bytes of `bytes` from `at` on hold.
    ///
    /// Every string of 128 bytes is the wire form of one block: no byte is
    /// checked, the constant byte strings and the reserved words are kept
    /// as they stand.
    pub fn get(bytes: &[u8], at: usize) -> (author: Self)
        requires
            at + AUTHOR_SIZE <= bytes.len(),
        ensures
            author.wire() == bytes@.subrange(at as int, at + AUTHOR_SIZE),
    {
        proof {
            lemma_pow256_widths();
        }
        let header1 = get_le(bytes, at, 16);
        let vendor = get_le(bytes, at + 16, 4) as u32;
        let date = get_le(bytes, at + 20, 4) as u32;
        let header2 = get_le(bytes, at + 24, 16);
        let swdefined = get_le(bytes, at + 40, 4) as u32;
        let mut reserved = [0u32;21];
        let mut done: usize = 0;
        assert(words_le(reserved@.subrange(0, 0)) =~= bytes@.subrange(at + 44, at + 44));
        while done < 21
            invariant
                done <= 21,
                at + AUTHOR_SIZE <= bytes.len(),
                words_le(reserved@.subrange(0, done as int)) == bytes@.subrange(
                    at + 44,
                    at + 44 + 4 * done,
                ),
            decreases 21 - done,
        {
            let ghost before = reserved@;
            let word = get_le(bytes, at + 44 + 4 * done, 4) as u32;
            proof {
                lemma_pow256_widths();
            }
            reserved[done] = word;
            done = done + 1;
            proof {
                let now = reserved@.subrange(0, done as int);
                assert(now.drop_last() =~= before.subrange(0, done - 1));
                assert(words_le(now) =~= bytes@.subrange(at + 44, at + 44 + 4 * done));
            }
        }
        let author = Author { header1, vendor, date, header2, swdefined, reserved };
        assert(reserved@.subrange(0, 21) =~= reserved@);
        assert(author.wire() =~= bytes@.subrange(at as int, at + AUTHOR_SIZE));
        author
    }

    /// Every block has 21 reserved words.
    pub proof fn lemma_view_sized(&self)
        ensures
            self@.sized(),
    {
    }

    /// Two blocks that hold the same fields are the same block.
    pub proof fn lemma_view_injective(&self, other: &Author)
        requires
            self@ == other@,
        ensures
            *self == *other,
    {
        assert(self.reserved =~= other.reserved);
    }
}

} // verus!
