//! SHA-256 as OpenSSL computes it, as the digest of a measurement.
//!
//! What is said here of the three functions of OpenSSL is not proved.

use crate::digest::Digest;
use openssl::sha::Sha256;
use vstd::prelude::*;

verus! {

/// The state of a SHA-256 computation of OpenSSL. The library sees nothing
/// inside it.
#[verifier::external_type_specification]
#[verifier::external_body]
pub struct ExSha256(Sha256);

/// Every byte that a SHA-256 computation has been fed so far, in order.
pub uninterp spec fn sha256_fed(state: Sha256) -> Seq<u8>;

/// The SHA-256 hash of `input`.
pub uninterp spec fn sha256(input: Seq<u8>) -> [u8; 32];

/// A computation that has been fed nothing.
///
/// Calls `Sha256::new`, which is `SHA256_Init`.
#[verifier::external_body]
fn start() -> (state: Sha256)
    ensures
        sha256_fed(state) == Seq::<u8>::empty(),
{
    Sha256::new()
}

/// Feeds `bytes` to the computation, after what it had been fed before.
///
/// Calls `Sha256::update`, which is `SHA256_Update`.
#[verifier::external_body]
fn feed(state: &mut Sha256, bytes: &[u8])
    ensures
        sha256_fed(*final(state)) == sha256_fed(*old(state)) + bytes@,
{
    state.update(bytes)
}

/// The hash of all that the computation has been fed.
///
/// Calls `Sha256::finish`, which is `SHA256_Final`. The claim is that the
/// 32 bytes depend on the bytes fed alone.
#[verifier::external_body]
fn end(state: Sha256) -> (hash: [u8; 32])
    ensures
        hash == sha256(sha256_fed(state)),
{
    state.finish()
}

/// SHA-256 as the digest of a measurement.
pub struct S256Digest(Sha256);

impl Digest for S256Digest {
    type Output = [u8; 32];

    open spec fn obeys_digest_spec() -> bool {
        true
    }

    closed spec fn fed(&self) -> Seq<u8> {
        sha256_fed(self.0)
    }

    open spec fn output(input: Seq<u8>) -> [u8; 32] {
        sha256(input)
    }

    fn new() -> (digest: Self) {
        S256Digest(start())
    }

    fn update(&mut self, bytes: &[u8]) {
        feed(&mut self.0, bytes)
    }

    fn finish(self) -> (output: [u8; 32]) {
        end(self.0)
    }
}

} // verus!
