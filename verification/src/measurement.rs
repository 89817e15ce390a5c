//! The parameters of an enclave and the measurement block that is signed.

use crate::bytes::{
    get_array, get_le, le_bytes, lemma_concat_injective, lemma_le_bytes_injective,
    lemma_le_bytes_len, lemma_pow256_widths, put_bytes, put_le, zeros,
};
use crate::flags::{Attributes, MiscSelect, ProductId, SecurityVersion};
use crate::masked::Masked;
use vstd::prelude::*;

verus! {

/// The number of bytes of a measurement block on the wire.
pub const MEASUREMENT_SIZE: usize = 128;

/// The parameters of an enclave that its signature enforces.
#[derive(Copy, Clone, Debug, PartialEq, Eq)]
pub struct Parameters {
    /// Fault information to display in the MISC section of the SSA.
    pub misc: Masked<MiscSelect>,
    /// Enclave attributes.
    pub attr: Masked<Attributes>,
    /// ISV-defined product identifier.
    pub isv_prod_id: ProductId,
    /// ISV-defined security version number.
    pub isv_svn: SecurityVersion,
}

impl Default for Parameters {
    /// No flag set and every bit enforced, product and version zero.
    fn default() -> (parameters: Self)
        ensures
            parameters == (Parameters {
                misc: Masked::of(MiscSelect(0)),
                attr: Masked::of(Attributes { features: 0, xfrm: 0 }),
                isv_prod_id: ProductId(0),
                isv_svn: SecurityVersion(0),
            }),
    {
        Parameters {
            misc: Masked::from(MiscSelect(0)),
            attr: Masked::from(Attributes { features: 0, xfrm: 0 }),
            isv_prod_id: ProductId(0),
            isv_svn: SecurityVersion(0),
        }
    }
}

impl Parameters {
    /// Combines the parameters and the hash of an enclave into the
    /// measurement block, with both reserved regions zeroed.
    pub fn measurement(&self, mrenclave: [u8; 32]) -> (measurement: Measurement)
        ensures
            measurement@ == MeasurementModel::of(*self, mrenclave@),
    {
        let measurement = Measurement {
            misc: self.misc,
            reserved0: [0u8;20],
            attr: self.attr,
            mrenclave,
            reserved1: [0u8;32],
            isv_prod_id: self.isv_prod_id,
            isv_svn: self.isv_svn,
        };
        assert(measurement.reserved0@ =~= zeros(20));
        assert(measurement.reserved1@ =~= zeros(32));
        measurement
    }
}

/// The measurement of an enclave.
///
/// This is the second block of fields of a signature structure that the
/// signature covers.
#[derive(Copy, Clone, Debug, PartialEq, Eq)]
pub struct Measurement {
    misc: Masked<MiscSelect>,
    reserved0: [u8; 20],
    attr: Masked<Attributes>,
    mrenclave: [u8; 32],
    reserved1: [u8; 32],
    isv_prod_id: ProductId,
    isv_svn: SecurityVersion,
}

/// What a measurement block holds, field by field.
pub struct MeasurementModel {
    /// The masked miscellaneous selection.
    pub misc: Masked<MiscSelect>,
    /// The first reserved region, 20 bytes.
    pub reserved0: Seq<u8>,
    /// The masked attributes.
    pub attr: Masked<Attributes>,
    /// The hash of the enclave, 32 bytes.
    pub mrenclave: Seq<u8>,
    /// The second reserved region, 32 bytes.
    pub reserved1: Seq<u8>,
    /// The product identifier.
    pub isv_prod_id: ProductId,
    /// The security version number.
    pub isv_svn: SecurityVersion,
}

impl MeasurementModel {
    /// The block for the parameters and the hash of an enclave: both
    /// reserved regions zeroed.
    pub open spec fn of(parameters: Parameters, mrenclave: Seq<u8>) -> Self {
        MeasurementModel {
            misc: parameters.misc,
            reserved0: zeros(20),
            attr: parameters.attr,
            mrenclave,
            reserved1: zeros(32),
            isv_prod_id: parameters.isv_prod_id,
            isv_svn: parameters.isv_svn,
        }
    }

    /// The parameters of the enclave: the block without the hash and the
    /// reserved regions.
    pub open spec fn parameters(self) -> Parameters {
        Parameters {
            misc: self.misc,
            attr: self.attr,
            isv_prod_id: self.isv_prod_id,
            isv_svn: self.isv_svn,
        }
    }

    /// The block for parameters and a hash gives both back.
    pub proof fn lemma_of_gives_back(parameters: Parameters, mrenclave: Seq<u8>)
        ensures
            Self::of(parameters, mrenclave).parameters() == parameters,
            Self::of(parameters, mrenclave).mrenclave == mrenclave,
    {
    }

    /// Whether the three byte regions have the lengths of the block's
    /// fields, as they have in the view of every block.
    pub open spec fn sized(self) -> bool {
        &&& self.reserved0.len() == 20
        &&& self.mrenclave.len() == 32
        &&& self.reserved1.len() == 32
    }

    /// The eight bytes of the masked miscellaneous selection: data, then
    /// mask.
    pub open spec fn misc_wire(self) -> Seq<u8> {
        le_bytes(self.misc.data.0 as nat, 4) + le_bytes(self.misc.mask.0 as nat, 4)
    }

    /// The 32 bytes of the masked attributes: the features and the extended
    /// state of the data, then those of the mask.
    pub open spec fn attr_wire(self) -> Seq<u8> {
        le_bytes(self.attr.data.features as nat, 8) + le_bytes(self.attr.data.xfrm as nat, 8)
            + le_bytes(self.attr.mask.features as nat, 8) + le_bytes(
            self.attr.mask.xfrm as nat,
            8,
        )
    }

    /// The 128 bytes of the block on the wire: every number little-endian,
    /// in the order of the fields.
    pub open spec fn wire(self) -> Seq<u8> {
        self.misc_wire() + self.reserved0 + self.attr_wire() + self.mrenclave + self.reserved1
            + le_bytes(self.isv_prod_id.0 as nat, 2) + le_bytes(self.isv_svn.0 as nat, 2)
    }

    /// The lengths of the two composite fields.
    pub proof fn lemma_part_lens(self)
        ensures
            self.misc_wire().len() == 8,
            self.attr_wire().len() == 32,
            le_bytes(self.isv_prod_id.0 as nat, 2).len() == 2,
            le_bytes(self.isv_svn.0 as nat, 2).len() == 2,
    {
        lemma_le_bytes_len(self.misc.data.0 as nat, 4);
        lemma_le_bytes_len(self.misc.mask.0 as nat, 4);
        lemma_le_bytes_len(self.attr.data.features as nat, 8);
        lemma_le_bytes_len(self.attr.data.xfrm as nat, 8);
        lemma_le_bytes_len(self.attr.mask.features as nat, 8);
        lemma_le_bytes_len(self.attr.mask.xfrm as nat, 8);
        lemma_le_bytes_len(self.isv_prod_id.0 as nat, 2);
        lemma_le_bytes_len(self.isv_svn.0 as nat, 2);
    }

    /// Where each field of a block stands on the wire: the masked
    /// miscellaneous selection at 0, the first reserved region at 8, the
    /// masked attributes at 28, the hash of the enclave at 60, the second
    /// reserved region at 92, the product identifier at 124 and the security
    /// version number at 126, which ends the block at 128.
    pub proof fn lemma_layout(self)
        requires
            self.sized(),
        ensures
            self.wire().len() == 128,
            self.wire().subrange(0, 8) == self.misc_wire(),
            self.wire().subrange(8, 28) == self.reserved0,
            self.wire().subrange(28, 60) == self.attr_wire(),
            self.wire().subrange(60, 92) == self.mrenclave,
            self.wire().subrange(92, 124) == self.reserved1,
            self.wire().subrange(124, 126) == le_bytes(self.isv_prod_id.0 as nat, 2),
            self.wire().subrange(126, 128) == le_bytes(self.isv_svn.0 as nat, 2),
    {
        self.lemma_part_lens();
    }

    /// Two blocks with the same bytes on the wire hold the same fields.
    pub proof fn lemma_wire_injective(self, other: MeasurementModel)
        requires
            self.sized(),
            other.sized(),
            self.wire() == other.wire(),
        ensures
            self == other,
    {
        self.lemma_layout();
        other.lemma_layout();
        lemma_pow256_widths();
        lemma_le_bytes_len(self.misc.data.0 as nat, 4);
        lemma_le_bytes_len(other.misc.data.0 as nat, 4);
        lemma_concat_injective(
            le_bytes(self.misc.data.0 as nat, 4),
            le_bytes(self.misc.mask.0 as nat, 4),
            le_bytes(other.misc.data.0 as nat, 4),
            le_bytes(other.misc.mask.0 as nat, 4),
        );
        lemma_le_bytes_injective(self.misc.data.0 as nat, other.misc.data.0 as nat, 4);
        lemma_le_bytes_injective(self.misc.mask.0 as nat, other.misc.mask.0 as nat, 4);
        lemma_le_bytes_len(self.attr.data.features as nat, 8);
        lemma_le_bytes_len(self.attr.data.xfrm as nat, 8);
        lemma_le_bytes_len(self.attr.mask.features as nat, 8);
        lemma_le_bytes_len(other.attr.data.features as nat, 8);
        lemma_le_bytes_len(other.attr.data.xfrm as nat, 8);
        lemma_le_bytes_len(other.attr.mask.features as nat, 8);
        lemma_concat_injective(
            le_bytes(self.attr.data.features as nat, 8) + le_bytes(self.attr.data.xfrm as nat, 8)
                + le_bytes(self.attr.mask.features as nat, 8),
            le_bytes(self.attr.mask.xfrm as nat, 8),
            le_bytes(other.attr.data.features as nat, 8) + le_bytes(
                other.attr.data.xfrm as nat,
                8,
            ) + le_bytes(other.attr.mask.features as nat, 8),
            le_bytes(other.attr.mask.xfrm as nat, 8),
        );
        lemma_concat_injective(
            le_bytes(self.attr.data.features as nat, 8) + le_bytes(self.attr.data.xfrm as nat, 8),
            le_bytes(self.attr.mask.features as nat, 8),
            le_bytes(other.attr.data.features as nat, 8) + le_bytes(
                other.attr.data.xfrm as nat,
                8,
            ),
            le_bytes(other.attr.mask.features as nat, 8),
        );
        lemma_concat_injective(
            le_bytes(self.attr.data.features as nat, 8),
            le_bytes(self.attr.data.xfrm as nat, 8),
            le_bytes(other.attr.data.features as nat, 8),
            le_bytes(other.attr.data.xfrm as nat, 8),
        );
        lemma_le_bytes_injective(
            self.attr.data.features as nat,
            other.attr.data.features as nat,
            8,
        );
        lemma_le_bytes_injective(self.attr.data.xfrm as nat, other.attr.data.xfrm as nat, 8);
        lemma_le_bytes_injective(
            self.attr.mask.features as nat,
            other.attr.mask.features as nat,
            8,
        );
        lemma_le_bytes_injective(self.attr.mask.xfrm as nat, other.attr.mask.xfrm as nat, 8);
        lemma_le_bytes_injective(self.isv_prod_id.0 as nat, other.isv_prod_id.0 as nat, 2);
        lemma_le_bytes_injective(self.isv_svn.0 as nat, other.isv_svn.0 as nat, 2);
    }
}

impl View for Measurement {
    type V = MeasurementModel;

    closed spec fn view(&self) -> MeasurementModel {
        MeasurementModel {
            misc: self.misc,
            reserved0: self.reserved0@,
            attr: self.attr,
            mrenclave: self.mrenclave@,
            reserved1: self.reserved1@,
            isv_prod_id: self.isv_prod_id,
            isv_svn: self.isv_svn,
        }
    }
}

impl Measurement {
    /// The 128 bytes of the block on the wire.
    pub open spec fn wire(&self) -> Seq<u8> {
        self@.wire()
    }

    /// The hash of the enclave.
    pub fn mrenclave(&self) -> (digest: [u8; 32])
        ensures
            digest@ == self@.mrenclave,
    {
        self.mrenclave
    }

    /// The parameters of the enclave.
    pub fn parameters(&self) -> (parameters: Parameters)
        ensures
            parameters == self@.parameters(),
    {
        Parameters {
            isv_prod_id: self.isv_prod_id,
            isv_svn: self.isv_svn,
            misc: self.misc,
            attr: self.attr,
        }
    }

    /// Appends the bytes of the block to `buf`.
    pub fn put(&self, buf: &mut Vec<u8>)
        ensures
            final(buf)@ == old(buf)@ + self.wire(),
    {
        put_le(buf, self.misc.data.0 as u128, 4);
        put_le(buf, self.misc.mask.0 as u128, 4);
        put_bytes(buf, &self.reserved0);
        put_le(buf, self.attr.data.features as u128, 8);
        put_le(buf, self.attr.data.xfrm as u128, 8);
        put_le(buf, self.attr.mask.features as u128, 8);
        put_le(buf, self.attr.mask.xfrm as u128, 8);
        put_bytes(buf, &self.mrenclave);
        put_bytes(buf, &self.reserved1);
        put_le(buf, self.isv_prod_id.0 as u128, 2);
        put_le(buf, self.isv_svn.0 as u128, 2);
    }

    /// The 128 bytes of the block on the wire.
    pub fn to_bytes(&self) -> (bytes: Vec<u8>)
        ensures
            bytes@ == self.wire(),
            bytes@.len() == MEASUREMENT_SIZE,
    {
        let mut bytes = Vec::new();
        self.put(&mut bytes);
        proof {
            self@.lemma_layout();
        }
        bytes
    }

    /// Reads the block that the 128 bytes of `bytes` from `at` on hold.
    ///
    /// Every string of 128 bytes is the wire form of one block: no byte is
    /// checked, the reserved regions are kept as they stand.
    pub fn get(bytes: &[u8], at: usize) -> (measurement: Self)
        requires
            at + MEASUREMENT_SIZE <= bytes.len(),
        ensures
            measurement.wire() == bytes@.subrange(at as int, at + MEASUREMENT_SIZE),
    {
        proof {
            lemma_pow256_widths();
        }
        let misc = Masked {
            data: MiscSelect(get_le(bytes, at, 4) as u32),
            mask: MiscSelect(get_le(bytes, at + 4, 4) as u32),
        };
        let reserved0: [u8; 20] = get_array(bytes, at + 8);
        let attr = Masked {
            data: Attributes {
                features: get_le(bytes, at + 28, 8) as u64,
                xfrm: get_le(bytes, at + 36, 8) as u64,
            },
            mask: Attributes {
                features: get_le(bytes, at + 44, 8) as u64,
                xfrm: get_le(bytes, at + 52, 8) as u64,
            },
        };
        let mrenclave: [u8; 32] = get_array(bytes, at + 60);
        let reserved1: [u8; 32] = get_array(bytes, at + 92);
        let isv_prod_id = ProductId(get_le(bytes, at + 124, 2) as u16);
        let isv_svn = SecurityVersion(get_le(bytes, at + 126, 2) as u16);
        let measurement = Measurement {
            misc,
            reserved0,
            attr,
            mrenclave,
            reserved1,
            isv_prod_id,
            isv_svn,
        };
        assert(measurement.wire() =~= bytes@.subrange(at as int, at + MEASUREMENT_SIZE));
        measurement
    }

    /// The byte regions of every block have the lengths of its fields.
    pub proof fn lemma_view_sized(&self)
        ensures
            self@.sized(),
    {
    }

    /// Two blocks that hold the same fields are the same block.
    pub proof fn lemma_view_injective(&self, other: &Measurement)
        requires
            self@ == other@,
        ensures
            *self == *other,
    {
        assert(self.reserved0 =~= other.reserved0);
        assert(self.mrenclave =~= other.mrenclave);
        assert(self.reserved1 =~= other.reserved1);
    }
}

} // verus!
