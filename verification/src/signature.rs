//! The signature structure of an enclave: what the author signs, the
//! signature, and the two quotients with which the processor checks it.

use crate::author::{Author, AuthorModel};
use crate::bytes::{
    be_bytes, be_value, get_array, get_le, le_bytes, le_value, lemma_be_bytes_len,
    lemma_be_value_of_be_bytes, lemma_le_bytes_injective, lemma_le_bytes_len,
    lemma_le_value_of_le_bytes, lemma_pow256_widths, put_bytes, put_le, shortest, zeros,
};
use crate::crypto::{
    modulus_be, public_exponent, rsa_modulus, rsa_public_exponent, rsa_sha256_signature,
    sign_sha256,
};
use crate::measurement::{Measurement, MeasurementModel};
use crate::number::{fits, lemma_le_padded_is_le_bytes, RsaNumber, RSA_NUMBER_SIZE};
use crate::quotient::{
    first_quotient, lemma_quotients, lemma_second_quotient_bound, quotients, second_quotient,
};
use openssl::error::ErrorStack;
use openssl::pkey::Private;
use openssl::rsa::Rsa;
use vstd::prelude::*;

verus! {

/// The number of bytes of a signature structure on the wire.
pub const SIGNATURE_SIZE: usize = 1808;

/// The public exponent that the processor supports, and no other.
pub const EXPONENT: u32 = 3;

/// Why a measurement could not be signed.
#[derive(Debug)]
pub enum SignError {
    /// The public exponent of the key is not 3, or its modulus is zero.
    InvalidKey,
    /// The modulus, the signature or a quotient does not fit in 384 bytes.
    ConversionOverflow,
    /// OpenSSL reported a failure.
    Crypto(ErrorStack),
}

/// Fewer bytes than a signature structure takes were there to read.
#[derive(Copy, Clone, Debug, PartialEq, Eq)]
pub struct ShortRead;

/// The shortest big-endian form of a number is the one byte 3 for the
/// number 3 and for no other.
proof fn lemma_be_bytes_of_three(value: nat)
    ensures
        (be_bytes(value).len() == 1 && be_bytes(value)[0] == 3) <==> value == 3,
{
    lemma_be_value_of_be_bytes(value);
    let bytes = be_bytes(value);
    if bytes.len() == 1 {
        assert(bytes.drop_last() =~= Seq::<u8>::empty());
        assert(be_value(bytes) == 256 * be_value(bytes.drop_last()) + bytes.last() as nat);
    }
    if value == 3 {
        reveal_with_fuel(be_bytes, 3);
    }
}

/// The signature structure of an enclave.
///
/// The author and the measurement are the two blocks that the signature
/// covers.
#[derive(Clone, Debug, PartialEq, Eq)]
pub struct Signature {
    author: Author,
    modulus: RsaNumber,
    exponent: u32,
    signature: RsaNumber,
    measurement: Measurement,
    reserved: [u8; 12],
    q1: RsaNumber,
    q2: RsaNumber,
}

/// What a signature structure holds, field by field.
pub struct SignatureModel {
    /// The author block.
    pub author: AuthorModel,
    /// The modulus of the key, 384 bytes little-endian.
    pub modulus: Seq<u8>,
    /// The public exponent of the key.
    pub exponent: u32,
    /// The signature, 384 bytes little-endian.
    pub signature: Seq<u8>,
    /// The measurement block.
    pub measurement: MeasurementModel,
    /// The reserved region, 12 bytes.
    pub reserved: Seq<u8>,
    /// The first quotient, 384 bytes little-endian.
    pub q1: Seq<u8>,
    /// The second quotient, 384 bytes little-endian.
    pub q2: Seq<u8>,
}

impl SignatureModel {
    /// Whether every byte region has the length of its field, as it has in
    /// the view of every structure.
    pub open spec fn sized(self) -> bool {
        &&& self.author.sized()
        &&& self.modulus.len() == 384
        &&& self.signature.len() == 384
        &&& self.measurement.sized()
        &&& self.reserved.len() == 12
        &&& self.q1.len() == 384
        &&& self.q2.len() == 384
    }

    /// The 1808 bytes of the structure on the wire: the fields in their
    /// order, every number little-endian.
    pub open spec fn wire(self) -> Seq<u8> {
        self.author.wire() + self.modulus + le_bytes(self.exponent as nat, 4) + self.signature
            + self.measurement.wire() + self.reserved + self.q1 + self.q2
    }

    /// Where each field of a structure stands on the wire: the author at 0,
    /// the modulus at 128, the exponent at 512, the signature at 516, the
    /// measurement at 900, the reserved region at 1028, the first quotient
    /// at 1040 and the second at 1424, which ends the structure at 1808.
    pub proof fn lemma_layout(self)
        requires
            self.sized(),
        ensures
            self.wire().len() == 1808,
            self.wire().subrange(0, 128) == self.author.wire(),
            self.wire().subrange(128, 512) == self.modulus,
            self.wire().subrange(512, 516) == le_bytes(self.exponent as nat, 4),
            self.wire().subrange(516, 900) == self.signature,
            self.wire().subrange(900, 1028) == self.measurement.wire(),
            self.wire().subrange(1028, 1040) == self.reserved,
            self.wire().subrange(1040, 1424) == self.q1,
            self.wire().subrange(1424, 1808) == self.q2,
    {
        self.author.lemma_wire_len();
        self.measurement.lemma_layout();
        lemma_le_bytes_len(self.exponent as nat, 4);
    }

    /// Two structures with the same bytes on the wire hold the same
    /// fields.
    pub proof fn lemma_wire_injective(self, other: SignatureModel)
        requires
            self.sized(),
            other.sized(),
            self.wire() == other.wire(),
        ensures
            self == other,
    {
        self.lemma_layout();
        other.lemma_layout();
        self.author.lemma_wire_injective(other.author);
        self.measurement.lemma_wire_injective(other.measurement);
        lemma_pow256_widths();
        lemma_le_bytes_injective(self.exponent as nat, other.exponent as nat, 4);
    }
}

/// The structure that signing makes of an author, a measurement, the
/// modulus of the key and the signature as a number: exponent 3, the
/// reserved region zeroed, and both quotients derived.
pub open spec fn signed(
    author: AuthorModel,
    measurement: MeasurementModel,
    modulus: nat,
    signature: nat,
) -> SignatureModel {
    SignatureModel {
        author,
        modulus: le_bytes(modulus, 384),
        exponent: EXPONENT,
        signature: le_bytes(signature, 384),
        measurement,
        reserved: zeros(12),
        q1: le_bytes(first_quotient(signature, modulus), 384),
        q2: le_bytes(second_quotient(signature, modulus), 384),
    }
}

/// The quotients of a signed structure do what they are for. With `n` the
/// modulus, `s` the signature and `q1`, `q2` the quotients that the
/// structure stores: `q1 * n` and the remainder of `s * s` make up
/// `s * s`, and `q2 * n` is the one multiple of `n` at or below `s` times
/// that remainder.
pub proof fn lemma_signed_quotients(
    author: AuthorModel,
    measurement: MeasurementModel,
    modulus: nat,
    signature: nat,
)
    requires
        modulus > 0,
        fits(modulus),
        fits(signature),
        fits(first_quotient(signature, modulus)),
    ensures
        ({
            let made = signed(author, measurement, modulus, signature);
            let n = le_value(made.modulus);
            let s = le_value(made.signature);
            let q1 = le_value(made.q1);
            let q2 = le_value(made.q2);
            &&& n == modulus
            &&& s == signature
            &&& q1 * n + (s * s) % n == s * s
            &&& q2 * n <= s * ((s * s) % n) < (q2 + 1) * n
        }),
{
    lemma_second_quotient_bound(signature, modulus);
    lemma_le_value_of_le_bytes(modulus, 384);
    lemma_le_value_of_le_bytes(signature, 384);
    lemma_le_value_of_le_bytes(first_quotient(signature, modulus), 384);
    lemma_le_value_of_le_bytes(second_quotient(signature, modulus), 384);
    lemma_quotients(signature, modulus);
}

impl View for Signature {
    type V = SignatureModel;

    closed spec fn view(&self) -> SignatureModel {
        SignatureModel {
            author: self.author@,
            modulus: self.modulus@,
            exponent: self.exponent,
            signature: self.signature@,
            measurement: self.measurement@,
            reserved: self.reserved@,
            q1: self.q1@,
            q2: self.q2@,
        }
    }
}

impl Signature {
    /// The 1808 bytes of the structure on the wire.
    pub open spec fn wire(&self) -> Seq<u8> {
        self@.wire()
    }

    /// The byte regions of every structure have the lengths of its fields.
    pub proof fn lemma_view_sized(&self)
        ensures
            self@.sized(),
    {
        self.author.lemma_view_sized();
        self.measurement.lemma_view_sized();
        self.modulus.lemma_view_len();
        self.signature.lemma_view_len();
        self.q1.lemma_view_len();
        self.q2.lemma_view_len();
    }

    /// Two structures that hold the same fields are the same structure.
    pub proof fn lemma_view_injective(&self, other: &Signature)
        requires
            self@ == other@,
        ensures
            *self == *other,
    {
        self.author.lemma_view_injective(&other.author);
        self.measurement.lemma_view_injective(&other.measurement);
        self.modulus.lemma_view_injective(&other.modulus);
        self.signature.lemma_view_injective(&other.signature);
        self.q1.lemma_view_injective(&other.q1);
        self.q2.lemma_view_injective(&other.q2);
        assert(self.reserved =~= other.reserved);
    }

    /// A structure that is read back from its own bytes is the structure
    /// itself: whatever has the first 1808 bytes of the wire form of
    /// `self` as its own wire form is equal to `self`, field for field.
    pub proof fn lemma_round_trip(&self, back: &Signature)
        requires
            back.wire() == self.wire().subrange(0, 1808),
        ensures
            *back == *self,
    {
        self.lemma_view_sized();
        back.lemma_view_sized();
        self@.lemma_layout();
        assert(self.wire().subrange(0, 1808) =~= self.wire());
        back@.lemma_wire_injective(self@);
        back.lemma_view_injective(self);
    }

    /// The author of the enclave.
    pub fn author(&self) -> (author: Author)
        ensures
            author@ == self@.author,
    {
        self.author
    }

    /// The measurement of the enclave.
    pub fn measurement(&self) -> (measurement: Measurement)
        ensures
            measurement@ == self@.measurement,
    {
        self.measurement
    }

    /// Assembles the structure from what the key gave: its modulus and the
    /// signature over author and measurement, both big-endian.
    ///
    /// Both quotients are derived with OpenSSL's arithmetic. A modulus of
    /// zero is refused as no key at all; a modulus, a signature or a
    /// quotient that takes more than 384 bytes is refused as an overflow.
    pub fn assemble(
        author: Author,
        measurement: Measurement,
        modulus: &[u8],
        signature: &[u8],
    ) -> (r: Result<Signature, SignError>)
        ensures
            be_value(modulus@) == 0 <==> r matches Err(SignError::InvalidKey),
            be_value(modulus@) > 0 && !(fits(be_value(modulus@)) && fits(be_value(signature@)))
                ==> r matches Err(SignError::ConversionOverflow),
            r matches Err(SignError::ConversionOverflow) ==> !(fits(be_value(modulus@)) && fits(
                be_value(signature@),
            ) && fits(first_quotient(be_value(signature@), be_value(modulus@)))),
            r matches Ok(made) ==> {
                &&& fits(be_value(modulus@))
                &&& fits(be_value(signature@))
                &&& fits(first_quotient(be_value(signature@), be_value(modulus@)))
                &&& fits(second_quotient(be_value(signature@), be_value(modulus@)))
                &&& made@ == signed(
                    author@,
                    measurement@,
                    be_value(modulus@),
                    be_value(signature@),
                )
            },
    {
        let ghost m = be_value(modulus@);
        let ghost s = be_value(signature@);
        let n = shortest(modulus);
        let sig = shortest(signature);
        proof {
            lemma_be_value_of_be_bytes(m);
            lemma_be_value_of_be_bytes(s);
            lemma_be_bytes_len(m, 384);
            lemma_be_bytes_len(s, 384);
        }
        if n.len() == 0 {
            return Err(SignError::InvalidKey);
        }
        if n.len() > 384 || sig.len() > 384 {
            return Err(SignError::ConversionOverflow);
        }
        let (first, second) = match quotients(sig.as_slice(), n.as_slice()) {
            Ok(pair) => pair,
            Err(e) => {
                return Err(SignError::Crypto(e));
            },
        };
        proof {
            lemma_be_bytes_len(first_quotient(s, m), 384);
            lemma_be_bytes_len(second_quotient(s, m), 384);
            lemma_second_quotient_bound(s, m);
        }
        let q1 = match RsaNumber::from_be_bytes(first.as_slice()) {
            Ok(number) => number,
            Err(_) => {
                return Err(SignError::ConversionOverflow);
            },
        };
        let q2 = match RsaNumber::from_be_bytes(second.as_slice()) {
            Ok(number) => number,
            Err(_) => {
                return Err(SignError::ConversionOverflow);
            },
        };
        let modulus = match RsaNumber::from_be_bytes(n.as_slice()) {
            Ok(number) => number,
            Err(_) => {
                return Err(SignError::ConversionOverflow);
            },
        };
        let signature = match RsaNumber::from_be_bytes(sig.as_slice()) {
            Ok(number) => number,
            Err(_) => {
                return Err(SignError::ConversionOverflow);
            },
        };
        let made = Signature {
            author,
            modulus,
            exponent: EXPONENT,
            signature,
            measurement,
            reserved: [0u8;12],
            q1,
            q2,
        };
        proof {
            lemma_le_padded_is_le_bytes(m);
            lemma_le_padded_is_le_bytes(s);
            lemma_le_padded_is_le_bytes(first_quotient(s, m));
            lemma_le_padded_is_le_bytes(second_quotient(s, m));
            assert(made.reserved@ =~= zeros(12));
        }
        Ok(made)
    }

    /// Appends the bytes of the structure to `buf`.
    pub fn put(&self, buf: &mut Vec<u8>)
        ensures
            final(buf)@ == old(buf)@ + self.wire(),
    {
        self.author.put(buf);
        put_bytes(buf, &self.modulus.to_bytes());
        put_le(buf, self.exponent as u128, 4);
        put_bytes(buf, &self.signature.to_bytes());
        self.measurement.put(buf);
        put_bytes(buf, &self.reserved);
        put_bytes(buf, &self.q1.to_bytes());
        put_bytes(buf, &self.q2.to_bytes());
    }

    /// The 1808 bytes of the structure on the wire.
    pub fn to_bytes(&self) -> (bytes: Vec<u8>)
        ensures
            bytes@ == self.wire(),
            bytes@.len() == SIGNATURE_SIZE,
    {
        let mut bytes = Vec::new();
        self.put(&mut bytes);
        proof {
            self.lemma_view_sized();
            self@.lemma_layout();
        }
        bytes
    }

    /// Reads a structure from the first 1808 bytes of `bytes`.
    ///
    /// Fewer bytes are a short read. No byte is checked: every string of
    /// 1808 bytes is the wire form of one structure, and that structure is
    /// returned.
    pub fn read_from(bytes: &[u8]) -> (r: Result<Signature, ShortRead>)
        ensures
            r is Err <==> bytes@.len() < SIGNATURE_SIZE,
            r matches Ok(read) ==> read.wire() == bytes@.subrange(0, SIGNATURE_SIZE as int),
    {
        if bytes.len() < SIGNATURE_SIZE {
            return Err(ShortRead);
        }
        let author = Author::get(bytes, 0);
        let modulus = RsaNumber::get(bytes, 128);
        let exponent = get_le(bytes, 512, 4);
        proof {
            lemma_pow256_widths();
        }
        let signature = RsaNumber::get(bytes, 516);
        let measurement = Measurement::get(bytes, 900);
        let reserved: [u8; 12] = get_array(bytes, 1028);
        let q1 = RsaNumber::get(bytes, 1040);
        let q2 = RsaNumber::get(bytes, 1424);
        let read = Signature {
            author,
            modulus,
            exponent: exponent as u32,
            signature,
            measurement,
            reserved,
            q1,
            q2,
        };
        proof {
            read.lemma_view_sized();
            read@.lemma_layout();
            assert(read.wire() =~= bytes@.subrange(0, SIGNATURE_SIZE as int));
        }
        Ok(read)
    }
}

impl Measurement {
    /// Signs the measurement with `key` on behalf of `author`.
    ///
    /// The key must have the public exponent 3, which is all that the
    /// processor supports. The signature is RSA over the SHA-256 digest of
    /// the 128 bytes of the author followed by the 128 bytes of the
    /// measurement, as they stand in the signature structure.
    ///
    /// The key is looked at before anything is signed: a public exponent
    /// other than 3 or a modulus of zero makes it invalid, and a modulus
    /// of more than 384 bytes is an overflow. After that OpenSSL may fail,
    /// and the signature or the first quotient may overflow.
    pub fn sign(self, author: Author, key: Rsa<Private>) -> (r: Result<Signature, SignError>)
        ensures
            r matches Err(SignError::InvalidKey) <==> rsa_public_exponent(key) != EXPONENT
                || rsa_modulus(key) == 0,
            rsa_public_exponent(key) == EXPONENT && rsa_modulus(key) > 0 && !fits(
                rsa_modulus(key),
            ) ==> r matches Err(SignError::ConversionOverflow),
            r matches Err(SignError::ConversionOverflow) ==> {
                let signature = be_value(
                    rsa_sha256_signature(key, author.wire() + self.wire()),
                );
                !(fits(rsa_modulus(key)) && fits(signature) && fits(
                    first_quotient(signature, rsa_modulus(key)),
                ))
            },
            r matches Ok(made) ==> {
                let signature = be_value(
                    rsa_sha256_signature(key, author.wire() + self.wire()),
                );
                &&& rsa_public_exponent(key) == EXPONENT
                &&& rsa_modulus(key) > 0
                &&& fits(rsa_modulus(key))
                &&& fits(signature)
                &&& fits(first_quotient(signature, rsa_modulus(key)))
                &&& fits(second_quotient(signature, rsa_modulus(key)))
                &&& made@ == signed(author@, self@, rsa_modulus(key), signature)
            },
    {
        let (negative, exponent) = public_exponent(&key);
        proof {
            lemma_be_bytes_of_three(vstd::math::abs(rsa_public_exponent(key)));
        }
        if negative || exponent.len() != 1 || exponent[0] as u32 != EXPONENT {
            return Err(SignError::InvalidKey);
        }
        let modulus = modulus_be(&key);
        proof {
            lemma_be_value_of_be_bytes(rsa_modulus(key));
            lemma_be_bytes_len(rsa_modulus(key), 384);
        }
        if modulus.len() == 0 {
            return Err(SignError::InvalidKey);
        }
        if modulus.len() > RSA_NUMBER_SIZE {
            return Err(SignError::ConversionOverflow);
        }
        let mut message = Vec::new();
        author.put(&mut message);
        self.put(&mut message);
        assert(message@ =~= author.wire() + self.wire());
        let signature = match sign_sha256(&key, message.as_slice()) {
            Ok(signature) => signature,
            Err(e) => {
                return Err(SignError::Crypto(e));
            },
        };
        Signature::assemble(author, self, modulus.as_slice(), signature.as_slice())
    }
}

} // verus!
