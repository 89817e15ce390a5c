//! The two quotients that let the processor check a signature without
//! dividing.
//!
//! The processor reduces the cube of the signature modulo the modulus. It
//! multiplies, and takes from the signature structure the quotient of each
//! of the two divisions that this needs.

use crate::bytes::{
    be_bytes, be_value, lemma_be_bytes_len, lemma_be_value_bound, lemma_be_value_of_be_bytes,
    lemma_pow256_adds, lemma_pow256_monotonic, pow256,
};
use crate::crypto::{big_div_rem, big_mul};
use openssl::error::ErrorStack;
use vstd::prelude::*;

verus! {

/// The first quotient: the square of the signature, divided by the modulus.
pub open spec fn first_quotient(signature: nat, modulus: nat) -> nat {
    (signature * signature) / modulus
}

/// The second quotient: the signature times what the division of its
/// square left, divided by the modulus.
pub open spec fn second_quotient(signature: nat, modulus: nat) -> nat {
    (signature * ((signature * signature) % modulus)) / modulus
}

/// What the two quotients are for.
///
/// The first quotient times the modulus and the remainder of the square
/// make up the square of the signature. The second quotient times the
/// modulus is the one multiple of the modulus that lies at or below the
/// signature times that remainder, and less than one modulus below it.
pub proof fn lemma_quotients(signature: nat, modulus: nat)
    requires
        modulus > 0,
    ensures
        first_quotient(signature, modulus) * modulus + (signature * signature) % modulus
            == signature * signature,
        second_quotient(signature, modulus) * modulus <= signature * ((signature * signature)
            % modulus),
        signature * ((signature * signature) % modulus) < (second_quotient(signature, modulus)
            + 1) * modulus,
{
    let square = signature * signature;
    let product = signature * (square % modulus);
    assert(square == (square / modulus) * modulus + square % modulus) by (nonlinear_arith)
        requires
            modulus > 0,
    ;
    assert(product == (product / modulus) * modulus + product % modulus && product % modulus
        < modulus && (product / modulus + 1) * modulus == (product / modulus) * modulus
        + modulus) by (nonlinear_arith)
        requires
            modulus > 0,
            product >= 0,
    ;
}

/// The second quotient is never above the signature.
pub proof fn lemma_second_quotient_bound(signature: nat, modulus: nat)
    requires
        modulus > 0,
    ensures
        second_quotient(signature, modulus) <= signature,
{
    let rest = (signature * signature) % modulus;
    assert((signature * rest) / modulus <= signature) by (nonlinear_arith)
        requires
            modulus > 0,
            0 <= rest < modulus,
            signature >= 0,
    {
        assert(signature * rest <= signature * modulus);
        assert((signature * modulus) / modulus == signature);
    }
}

/// The product of two numbers that fit in 384 bytes takes no more than 768.
proof fn lemma_product_len(a: nat, b: nat)
    requires
        a < pow256(384),
        b < pow256(384),
    ensures
        be_bytes(a * b).len() <= 768,
{
    lemma_pow256_adds(384, 384);
    let bound = pow256(384);
    assert(a * b < bound * bound) by (nonlinear_arith)
        requires
            a < bound,
            b < bound,
    ;
    lemma_be_bytes_len(a * b, 768);
}

/// Both quotients for a signature and a modulus of at most 384 bytes, each
/// given big-endian. The quotients come big-endian without leading zero
/// bytes. The arithmetic is OpenSSL's, which may fail.
pub(crate) fn quotients(signature: &[u8], modulus: &[u8]) -> (r: Result<
    (Vec<u8>, Vec<u8>),
    ErrorStack,
>)
    requires
        signature@.len() <= 384,
        modulus@.len() <= 384,
        be_value(modulus@) > 0,
    ensures
        r matches Ok((first, second)) ==> {
            &&& first@ == be_bytes(first_quotient(be_value(signature@), be_value(modulus@)))
            &&& second@ == be_bytes(
                second_quotient(be_value(signature@), be_value(modulus@)),
            )
        },
{
    let ghost s = be_value(signature@);
    let ghost m = be_value(modulus@);
    proof {
        lemma_be_value_bound(signature@);
        lemma_be_value_bound(modulus@);
        lemma_pow256_monotonic(signature@.len(), 384);
        lemma_pow256_monotonic(modulus@.len(), 384);
        lemma_product_len(s, s);
        lemma_product_len(s, (s * s) % m);
        lemma_be_value_of_be_bytes(s * s);
        lemma_be_value_of_be_bytes((s * s) % m);
        lemma_be_bytes_len((s * s) % m, 384);
        lemma_be_value_of_be_bytes(s * ((s * s) % m));
    }
    let square = match big_mul(signature, signature) {
        Ok(square) => square,
        Err(e) => {
            return Err(e);
        },
    };
    let (first, rest) = match big_div_rem(square.as_slice(), modulus) {
        Ok(pair) => pair,
        Err(e) => {
            return Err(e);
        },
    };
    let product = match big_mul(signature, rest.as_slice()) {
        Ok(product) => product,
        Err(e) => {
            return Err(e);
        },
    };
    match big_div_rem(product.as_slice(), modulus) {
        Ok((second, _)) => Ok((first, second)),
        Err(e) => Err(e),
    }
}

} // verus!
