//! The digest that a measurement is computed with.

use vstd::prelude::*;

verus! {

/// A cryptographic digest that takes its input in pieces.
///
/// A digest that is written for the verifier says which bytes it has been
/// fed and which output belongs to which input, and declares with
/// [`Digest::obeys_digest_spec`] that its methods keep to that. What is
/// proved of a measurement is proved for such digests. A digest that
/// leaves the three out can still be plugged in: of what it is fed and of
/// what it gives nothing is stated then.
pub trait Digest: Sized {
    /// What finishing the digest gives.
    type Output;

    /// Whether the digest keeps to what [`Digest::fed`] and
    /// [`Digest::output`] say of it.
    open spec fn obeys_digest_spec() -> bool {
        false
    }

    /// Every byte that the digest has been fed so far, in order.
    open spec fn fed(&self) -> Seq<u8> {
        Seq::<u8>::empty()
    }

    /// The output for a digest that has been fed `input` and nothing else.
    ///
    /// The output depends on the bytes fed alone, not on how they were cut
    /// into pieces.
    open spec fn output(input: Seq<u8>) -> Self::Output {
        arbitrary()
    }

    /// A digest that has been fed nothing.
    fn new() -> (digest: Self)
        ensures
            Self::obeys_digest_spec() ==> digest.fed() == Seq::<u8>::empty(),
    ;

    /// Feeds `bytes` to the digest.
    fn update(&mut self, bytes: &[u8])
        ensures
            Self::obeys_digest_spec() ==> final(self).fed() == old(self).fed() + bytes@,
    ;

    /// The output for all that the digest has been fed.
    fn finish(self) -> (output: Self::Output)
        ensures
            Self::obeys_digest_spec() ==> output == Self::output(self.fed()),
    ;
}

} // verus!
