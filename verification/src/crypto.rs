//! What this crate takes from OpenSSL: the parts of an RSA key, RSA
//! signatures over SHA-256 digests, and arithmetic on big integers.
//!
//! Nothing in this file is proved. Each function states what the call that
//! it makes returns, and the rest of the crate is verified against those
//! statements. Numbers cross this boundary as big-endian byte strings.

use crate::bytes::{be_bytes, be_value};
use openssl::bn::{BigNum, BigNumContext};
use openssl::error::ErrorStack;
use openssl::hash::MessageDigest;
use openssl::pkey::{PKey, Private};
use openssl::rsa::Rsa;
use openssl::sign::Signer;
use vstd::prelude::*;

verus! {

/// An RSA key of OpenSSL. The library sees nothing inside it.
#[verifier::external_type_specification]
#[verifier::external_body]
#[verifier::reject_recursive_types(T)]
pub struct ExRsa<T>(Rsa<T>);

/// The marker of OpenSSL for keys that have their private part.
#[verifier::external_type_specification]
#[verifier::external_body]
pub struct ExPrivate(Private);

/// The error stack that a failed call into OpenSSL leaves.
#[verifier::external_type_specification]
#[verifier::external_body]
pub struct ExErrorStack(ErrorStack);

/// The public exponent `e` of an RSA key.
pub uninterp spec fn rsa_public_exponent(key: Rsa<Private>) -> int;

/// The absolute value of the modulus `n` of an RSA key.
pub uninterp spec fn rsa_modulus(key: Rsa<Private>) -> nat;

/// The signature that OpenSSL computes with an RSA key over the SHA-256
/// digest of a message, as the bytes that it hands out.
pub uninterp spec fn rsa_sha256_signature(key: Rsa<Private>, message: Seq<u8>) -> Seq<u8>;

/// The public exponent of `key`: whether it is negative, and its absolute
/// value, big-endian.
///
/// Calls `RsaRef::e`, and on what it returns `BigNumRef::is_negative`
/// (`BN_is_negative`) and `BigNumRef::to_vec`, which writes the absolute
/// value with `BN_bn2bin` in `BN_num_bytes` bytes: big-endian, without a
/// leading zero byte, and empty for zero.
#[verifier::external_body]
pub(crate) fn public_exponent(key: &Rsa<Private>) -> (r: (bool, Vec<u8>))
    ensures
        r.0 == (rsa_public_exponent(*key) < 0),
        r.1@ == be_bytes(vstd::math::abs(rsa_public_exponent(*key))),
{
    (key.e().is_negative(), key.e().to_vec())
}

/// The absolute value of the modulus of `key`, big-endian.
///
/// Calls `RsaRef::n` and `BigNumRef::to_vec` on what it returns, which
/// gives the shortest big-endian form as it does for the exponent.
#[verifier::external_body]
pub(crate) fn modulus_be(key: &Rsa<Private>) -> (r: Vec<u8>)
    ensures
        r@ == be_bytes(rsa_modulus(*key)),
{
    key.n().to_vec()
}

/// Signs `message` with `key`: RSA over the SHA-256 digest of the message,
/// with the padding that OpenSSL uses by default (PKCS #1 v1.5).
///
/// Calls `PKey::from_rsa` on a clone of the key, `Signer::new` with
/// `MessageDigest::sha256`, `Signer::update` once with the whole message
/// and `Signer::sign_to_vec`. The claim is that the bytes returned depend
/// on the key and the message alone.
#[verifier::external_body]
pub(crate) fn sign_sha256(key: &Rsa<Private>, message: &[u8]) -> (r: Result<Vec<u8>, ErrorStack>)
    ensures
        r matches Ok(signature) ==> signature@ == rsa_sha256_signature(*key, message@),
{
    let pkey = PKey::from_rsa(key.clone())?;
    let mut signer = Signer::new(MessageDigest::sha256(), &pkey)?;
    signer.update(message)?;
    signer.sign_to_vec()
}

/// The product of two numbers given big-endian, big-endian in its shortest
/// form.
///
/// Calls `BigNumRef::checked_mul` (`BN_mul`) on the numbers that
/// `BigNum::from_slice` reads, and `BigNumRef::to_vec` on the product.
/// `from_slice` panics on a slice longer than a C `int` can count, which
/// the precondition leaves out.
#[verifier::external_body]
pub(crate) fn big_mul(a: &[u8], b: &[u8]) -> (r: Result<Vec<u8>, ErrorStack>)
    requires
        a@.len() <= i32::MAX,
        b@.len() <= i32::MAX,
    ensures
        r matches Ok(product) ==> product@ == be_bytes(be_value(a@) * be_value(b@)),
{
    let (x, y) = (BigNum::from_slice(a)?, BigNum::from_slice(b)?);
    let mut product = BigNum::new()?;
    let mut ctx = BigNumContext::new()?;
    product.checked_mul(&x, &y, &mut ctx)?;
    Ok(product.to_vec())
}

/// The quotient and the remainder of two numbers given big-endian, each
/// big-endian in its shortest form.
///
/// Calls `BigNumRef::div_rem` (`BN_div`) on the numbers that
/// `BigNum::from_slice` reads, and `BigNumRef::to_vec` on both results.
/// For a dividend that is not negative and a positive divisor `BN_div`
/// rounds down. It fails on a divisor of zero, of which nothing is
/// claimed.
#[verifier::external_body]
pub(crate) fn big_div_rem(a: &[u8], d: &[u8]) -> (r: Result<(Vec<u8>, Vec<u8>), ErrorStack>)
    requires
        a@.len() <= i32::MAX,
        d@.len() <= i32::MAX,
    ensures
        r matches Ok((quotient, remainder)) ==> be_value(d@) > 0 ==> {
            &&& quotient@ == be_bytes(be_value(a@) / be_value(d@))
            &&& remainder@ == be_bytes(be_value(a@) % be_value(d@))
        },
{
    let (x, y) = (BigNum::from_slice(a)?, BigNum::from_slice(d)?);
    let (mut quotient, mut remainder) = (BigNum::new()?, BigNum::new()?);
    let mut ctx = BigNumContext::new()?;
    quotient.div_rem(&mut remainder, &x, &y, &mut ctx)?;
    Ok((quotient.to_vec(), remainder.to_vec()))
}

} // verus!
