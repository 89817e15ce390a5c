//! What is said of a page when it is added to an enclave.

use crate::bytes::{put_zeros, zeros};
use vstd::prelude::*;

verus! {

/// The page can be read from inside the enclave.
pub const FLAG_R: u8 = 0x01;

/// The page can be written from inside the enclave.
pub const FLAG_W: u8 = 0x02;

/// The page can be executed from inside the enclave.
pub const FLAG_X: u8 = 0x04;

/// The page is in the pending state.
pub const FLAG_PENDING: u8 = 0x08;

/// The page is in the modified state.
pub const FLAG_MODIFIED: u8 = 0x10;

/// A permission restriction is in progress on the page.
pub const FLAG_RESTRICTED: u8 = 0x20;

/// The class of a page of an enclave.
#[derive(Copy, Clone, Debug, PartialEq, Eq)]
pub enum Class {
    /// The page holds the control structure of the enclave.
    Secs,
    /// The page holds a thread control structure.
    Tcs,
    /// The page is a regular page.
    Regular,
    /// The page is a version array.
    VersionArray,
    /// The page is in the trimmed state.
    Trimmed,
}

impl Class {
    /// The number that stands for the class in a record.
    pub open spec fn code(self) -> u8 {
        match self {
            Class::Secs => 0,
            Class::Tcs => 1,
            Class::Regular => 2,
            Class::VersionArray => 3,
            Class::Trimmed => 4,
        }
    }

    /// The number that stands for the class in a record.
    pub fn to_code(self) -> (code: u8)
        ensures
            code == self.code(),
    {
        match self {
            Class::Secs => 0,
            Class::Tcs => 1,
            Class::Regular => 2,
            Class::VersionArray => 3,
            Class::Trimmed => 4,
        }
    }
}

/// The security information of a page: its flags and its class.
#[derive(Copy, Clone, Debug, PartialEq, Eq)]
pub struct SecInfo {
    /// The permissions and the state of the page, as a set of `FLAG_` bits.
    pub flags: u8,
    /// The class of the page.
    pub class: Class,
}

impl SecInfo {
    /// The 64 bytes of the record: the flags, the class, and 62 reserved
    /// bytes that are zero.
    pub open spec fn wire(self) -> Seq<u8> {
        seq![self.flags, self.class.code()] + zeros(62)
    }

    /// The first 48 bytes of the record, which are what a measurement
    /// takes of it.
    pub open spec fn measured(self) -> Seq<u8> {
        seq![self.flags, self.class.code()] + zeros(46)
    }

    /// What a measurement takes of a record is how the record starts.
    pub proof fn lemma_measured_is_prefix(self)
        ensures
            self.wire().len() == 64,
            self.measured() == self.wire().subrange(0, 48),
    {
        assert(self.measured() =~= self.wire().subrange(0, 48));
    }

    /// The security information of a regular page with the given flags.
    pub fn reg(flags: u8) -> (secinfo: Self)
        ensures
            secinfo == (SecInfo { flags, class: Class::Regular }),
    {
        SecInfo { flags, class: Class::Regular }
    }

    /// The security information of a page that holds a thread control
    /// structure: no flag set.
    pub fn tcs() -> (secinfo: Self)
        ensures
            secinfo == (SecInfo { flags: 0, class: Class::Tcs }),
    {
        SecInfo { flags: 0, class: Class::Tcs }
    }

    /// Appends the first 48 bytes of the record to `buf`.
    pub fn put_measured(&self, buf: &mut Vec<u8>)
        ensures
            final(buf)@ == old(buf)@ + self.measured(),
    {
        let ghost start = buf@;
        buf.push(self.flags);
        buf.push(self.class.to_code());
        put_zeros(buf, 46);
        assert(buf@ =~= start + self.measured());
    }
}

} // verus!
