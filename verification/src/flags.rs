//! The flag words of an enclave: its miscellaneous selection and its
//! attributes.

use crate::masked::Bitwise;
use vstd::prelude::*;

verus! {

/// Which extended information the processor saves in the MISC region of a
/// state save area when the enclave exits asynchronously.
#[derive(Copy, Clone, Debug, PartialEq, Eq)]
pub struct MiscSelect(pub u32);

impl Default for MiscSelect {
    fn default() -> (r: Self)
        ensures
            r == MiscSelect(0),
    {
        MiscSelect(0)
    }
}

impl Bitwise for MiscSelect {
    open spec fn pattern(self) -> u128 {
        self.0 as u128
    }

    open spec fn full() -> u128 {
        0xffff_ffff
    }

    proof fn lemma_pattern_in_full(self) {
        let bits = self.0;
        assert((bits as u128) & 0xffff_ffff == bits as u128) by (bit_vector);
    }

    proof fn lemma_full_is_a_value() {
        assert(MiscSelect(0xffff_ffff).pattern() == Self::full());
    }

    proof fn lemma_pattern_injective(self, other: Self) {
    }

    fn and(self, rhs: Self) -> (r: Self)
        ensures
            r == MiscSelect(self.0 & rhs.0),
    {
        let (a, b) = (self.0, rhs.0);
        assert((a & b) as u128 == (a as u128) & (b as u128)) by (bit_vector);
        MiscSelect(a & b)
    }

    fn or(self, rhs: Self) -> (r: Self)
        ensures
            r == MiscSelect(self.0 | rhs.0),
    {
        let (a, b) = (self.0, rhs.0);
        assert((a | b) as u128 == (a as u128) | (b as u128)) by (bit_vector);
        MiscSelect(a | b)
    }

    fn not(self) -> (r: Self)
        ensures
            r == MiscSelect(!self.0),
    {
        let a = self.0;
        assert((!a) as u128 == !(a as u128) & 0xffff_ffff) by (bit_vector);
        MiscSelect(!a)
    }

    fn same(self, rhs: Self) -> (r: bool)
        ensures
            r == (self == rhs),
    {
        self.0 == rhs.0
    }
}

/// The attributes of an enclave.
#[derive(Copy, Clone, Debug, PartialEq, Eq)]
pub struct Attributes {
    /// The feature flags of the enclave.
    pub features: u64,
    /// The extended processor state that the enclave may use.
    pub xfrm: u64,
}

impl Default for Attributes {
    fn default() -> (r: Self)
        ensures
            r == (Attributes { features: 0, xfrm: 0 }),
    {
        Attributes { features: 0, xfrm: 0 }
    }
}

/// The 128 bits with `low` in the low half and `high` in the high half.
pub open spec fn join(low: u64, high: u64) -> u128 {
    (low as u128) | ((high as u128) << 64)
}

impl Bitwise for Attributes {
    /// The feature flags in the low half, the extended state in the high
    /// half.
    open spec fn pattern(self) -> u128 {
        join(self.features, self.xfrm)
    }

    open spec fn full() -> u128 {
        0xffff_ffff_ffff_ffff_ffff_ffff_ffff_ffff
    }

    proof fn lemma_pattern_in_full(self) {
        let bits = self.pattern();
        assert(bits & 0xffff_ffff_ffff_ffff_ffff_ffff_ffff_ffff == bits) by (bit_vector);
    }

    proof fn lemma_full_is_a_value() {
        let all = Attributes { features: 0xffff_ffff_ffff_ffff, xfrm: 0xffff_ffff_ffff_ffff };
        assert(join(0xffff_ffff_ffff_ffff, 0xffff_ffff_ffff_ffff)
            == 0xffff_ffff_ffff_ffff_ffff_ffff_ffff_ffff) by (bit_vector);
        assert(all.pattern() == Self::full());
    }

    proof fn lemma_pattern_injective(self, other: Self) {
        let (a, b, c, d) = (self.features, self.xfrm, other.features, other.xfrm);
        assert(join(a, b) == join(c, d) ==> a == c && b == d) by (bit_vector);
    }

    fn and(self, rhs: Self) -> (r: Self)
        ensures
            r == (Attributes {
                features: self.features & rhs.features,
                xfrm: self.xfrm & rhs.xfrm,
            }),
    {
        let (a, b, c, d) = (self.features, self.xfrm, rhs.features, rhs.xfrm);
        assert(join(a & c, b & d) == join(a, b) & join(c, d)) by (bit_vector);
        Attributes { features: a & c, xfrm: b & d }
    }

    fn or(self, rhs: Self) -> (r: Self)
        ensures
            r == (Attributes {
                features: self.features | rhs.features,
                xfrm: self.xfrm | rhs.xfrm,
            }),
    {
        let (a, b, c, d) = (self.features, self.xfrm, rhs.features, rhs.xfrm);
        assert(join(a | c, b | d) == join(a, b) | join(c, d)) by (bit_vector);
        Attributes { features: a | c, xfrm: b | d }
    }

    fn not(self) -> (r: Self)
        ensures
            r == (Attributes { features: !self.features, xfrm: !self.xfrm }),
    {
        let (a, b) = (self.features, self.xfrm);
        assert(join(!a, !b) == !join(a, b) & 0xffff_ffff_ffff_ffff_ffff_ffff_ffff_ffff)
            by (bit_vector);
        Attributes { features: !a, xfrm: !b }
    }

    fn same(self, rhs: Self) -> (r: bool)
        ensures
            r == (self == rhs),
    {
        let (a, b, c, d) = (self.features, self.xfrm, rhs.features, rhs.xfrm);
        assert(join(a, b) == join(c, d) ==> a == c && b == d) by (bit_vector);
        a == c && b == d
    }
}

/// The product identifier that the vendor gave the enclave.
#[derive(Copy, Clone, Debug, PartialEq, Eq)]
pub struct ProductId(pub u16);

impl Default for ProductId {
    fn default() -> (r: Self)
        ensures
            r == ProductId(0),
    {
        ProductId(0)
    }
}

/// The security version number that the vendor gave the enclave.
#[derive(Copy, Clone, Debug, PartialEq, Eq)]
pub struct SecurityVersion(pub u16);

impl Default for SecurityVersion {
    fn default() -> (r: Self)
        ensures
            r == SecurityVersion(0),
    {
        SecurityVersion(0)
    }
}

} // verus!
