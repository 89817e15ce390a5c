//! Values paired with the mask of the bits that are enforced.

use vstd::prelude::*;
use vstd::std_specs::cmp::PartialEqSpecImpl;
use vstd::std_specs::convert::FromSpecImpl;

verus! {

/// A fixed-width set of bits with bitwise AND, OR and NOT.
///
/// The bits of a value are modelled as a `u128` pattern, of which the type
/// uses the bits set in [`Bitwise::full`].
pub trait Bitwise: Copy {
    /// The bits of this value.
    spec fn pattern(self) -> u128;

    /// The pattern in which every bit of the type is set.
    spec fn full() -> u128;

    /// No value has a bit outside the type's width.
    proof fn lemma_pattern_in_full(self)
        ensures
            self.pattern() & Self::full() == self.pattern(),
    ;

    /// Some value has every bit of the type set.
    proof fn lemma_full_is_a_value()
        ensures
            exists|value: Self| value.pattern() == Self::full(),
    ;

    /// A value is nothing but its bits.
    proof fn lemma_pattern_injective(self, other: Self)
        requires
            self.pattern() == other.pattern(),
        ensures
            self == other,
    ;

    /// The bits set in both values.
    fn and(self, rhs: Self) -> (r: Self)
        ensures
            r.pattern() == self.pattern() & rhs.pattern(),
    ;

    /// The bits set in either value.
    fn or(self, rhs: Self) -> (r: Self)
        ensures
            r.pattern() == self.pattern() | rhs.pattern(),
    ;

    /// The bits of the type that are not set in this value.
    fn not(self) -> (r: Self)
        ensures
            r.pattern() == !self.pattern() & Self::full(),
    ;

    /// Whether both values have the same bits.
    fn same(self, rhs: Self) -> (r: bool)
        ensures
            r == (self.pattern() == rhs.pattern()),
    ;
}

/// A value together with the mask of its bits that are enforced.
///
/// A mask is applied to the attributes and to the misc-select of a signed
/// enclave description to say which of their bits the enclave must match.
#[derive(Copy, Debug, PartialEq, Eq)]
pub struct Masked<T: Bitwise> {
    /// The data being masked.
    pub data: T,
    /// The mask.
    pub mask: T,
}

impl<T: Bitwise> Clone for Masked<T> {
    fn clone(&self) -> (copy: Self)
        ensures
            copy == *self,
    {
        *self
    }
}

impl<T: Bitwise> Masked<T> {
    /// Whether `other` agrees with the data on every enforced bit.
    pub open spec fn matches(self, other: T) -> bool {
        self.mask.pattern() & self.data.pattern() == self.mask.pattern() & other.pattern()
    }

    /// Whether every bit of the type is enforced.
    pub open spec fn enforces_all(self) -> bool {
        self.mask.pattern() == T::full()
    }

    /// `value` with every bit enforced, which is what [`Masked::from`]
    /// makes of it.
    pub open spec fn of(value: T) -> Self {
        Masked { data: value, mask: all_bits::<T>() }
    }
}

/// The value of `T` in which every bit is set.
pub open spec fn all_bits<T: Bitwise>() -> T {
    choose|mask: T| mask.pattern() == T::full()
}

impl<T: Bitwise> FromSpecImpl<T> for Masked<T> {
    open spec fn obeys_from_spec() -> bool {
        true
    }

    open spec fn from_spec(value: T) -> Self {
        Masked::of(value)
    }
}

impl<T: Bitwise> From<T> for Masked<T> {
    /// Masks `value` with every bit enforced.
    fn from(value: T) -> (masked: Self)
        ensures
            masked == Masked::of(value),
            masked.data == value,
            masked.enforces_all(),
    {
        let mask = value.or(value.not());
        proof {
            value.lemma_pattern_in_full();
            lemma_or_not_is_full(value.pattern(), T::full());
            mask.lemma_pattern_injective(all_bits::<T>());
        }
        Masked { data: value, mask }
    }
}

impl<T: Bitwise + Default> Default for Masked<T> {
    /// Masks the default value of `T` with every bit enforced.
    fn default() -> (masked: Self)
        ensures
            call_ensures(T::default, (), masked.data),
            masked == Masked::of(masked.data),
    {
        Masked::from(T::default())
    }
}

impl<T: Bitwise> PartialEqSpecImpl<T> for Masked<T> {
    open spec fn obeys_eq_spec() -> bool {
        true
    }

    open spec fn eq_spec(&self, other: &T) -> bool {
        self.matches(*other)
    }
}

impl<T: Bitwise> PartialEq<T> for Masked<T> {
    /// Compares the enforced bits only.
    fn eq(&self, other: &T) -> (r: bool) {
        self.mask.and(self.data).same(self.mask.and(*other))
    }
}

/// A pattern joined with its complement within a width fills the width.
proof fn lemma_or_not_is_full(bits: u128, full: u128)
    by (bit_vector)
    requires
        bits & full == bits,
    ensures
        bits | (!bits & full) == full,
{
}

/// The full mask keeps every bit of a pattern within the width.
proof fn lemma_full_mask_keeps(bits: u128, full: u128)
    by (bit_vector)
    requires
        bits & full == bits,
    ensures
        full & bits == bits,
{
}

/// Patterns that differ in no bit of a mask are the same under the mask.
proof fn lemma_masked_differences(mask: u128, a: u128, b: u128)
    by (bit_vector)
    requires
        mask & (a ^ b) == 0,
    ensures
        mask & a == mask & b,
{
}

/// The mask of a value masked with [`Masked::from`] has every bit set.
pub proof fn lemma_from_enforces_all<T: Bitwise>(value: T)
    ensures
        Masked::of(value).enforces_all(),
{
    T::lemma_full_is_a_value();
}

/// A value masked with [`Masked::from`] matches the value itself.
pub proof fn lemma_from_matches_itself<T: Bitwise>(value: T)
    ensures
        Masked::of(value).matches(value),
{
}

/// A value masked with [`Masked::from`] matches no other value.
pub proof fn lemma_from_matches_nothing_else<T: Bitwise>(value: T, other: T)
    requires
        other != value,
    ensures
        !Masked::of(value).matches(other),
{
    lemma_from_enforces_all(value);
    value.lemma_pattern_in_full();
    other.lemma_pattern_in_full();
    lemma_full_mask_keeps(value.pattern(), T::full());
    lemma_full_mask_keeps(other.pattern(), T::full());
    if value.pattern() == other.pattern() {
        value.lemma_pattern_injective(other);
    }
}

/// Two values that differ in no bit of the mask match alike: the bits
/// outside the mask are free.
pub proof fn lemma_unmasked_bits_are_free<T: Bitwise>(masked: Masked<T>, a: T, b: T)
    requires
        masked.mask.pattern() & (a.pattern() ^ b.pattern()) == 0,
    ensures
        masked.matches(a) == masked.matches(b),
{
    lemma_masked_differences(masked.mask.pattern(), a.pattern(), b.pattern());
}

} // verus!
