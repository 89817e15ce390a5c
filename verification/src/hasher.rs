//! The measurement of an enclave, computed as the processor computes it
//! while the enclave is created and its pages are loaded.

use crate::bytes::{
    le_bytes, lemma_le_bytes_injective, lemma_le_bytes_len, lemma_pow256_widths, put_le,
    put_zeros, zeros,
};
use crate::digest::Digest;
use crate::page::SecInfo;
use vstd::prelude::*;

verus! {

/// What starts the record of the creation of an enclave: `ECREATE`.
pub const ECREATE: u64 = 0x0045544145524345;

/// What starts the record of the addition of a page: `EADD`.
pub const EADD: u64 = 0x0000000044444145;

/// What starts the record of the measurement of a segment: `EEXTEND`.
pub const EEXTEND: u64 = 0x00444E4554584545;

/// The number of bytes of a page.
pub const PAGE: usize = 4096;

/// The number of bytes of a page that one record measures.
pub const SEGMENT: usize = 256;

/// Input length is not a multiple of the page size.
#[derive(Copy, Clone, Debug, PartialEq, Eq)]
pub struct InvalidSize;

/// The 64 bytes that record the creation of an enclave of `size` bytes
/// with `ssa_frame_pages` pages in each state save area frame.
pub open spec fn created(size: usize, ssa_frame_pages: u32) -> Seq<u8> {
    le_bytes(ECREATE as nat, 8) + le_bytes(ssa_frame_pages as nat, 4) + le_bytes(size as nat, 8)
        + zeros(44)
}

/// The 64 bytes that record the addition of a page at `offset`.
pub open spec fn added(offset: nat, secinfo: SecInfo) -> Seq<u8> {
    le_bytes(EADD as nat, 8) + le_bytes(offset, 8) + secinfo.measured()
}

/// The 64 bytes that record the measurement of a segment at `offset`.
pub open spec fn extending(offset: nat) -> Seq<u8> {
    le_bytes(EEXTEND as nat, 8) + le_bytes(offset, 8) + zeros(48)
}

/// What the measurement of a segment at `offset` records: the 64 bytes
/// that say so, then the segment itself.
pub open spec fn extended(offset: nat, segment: Seq<u8>) -> Seq<u8> {
    extending(offset) + segment
}

/// The segment of `page` with the given index.
pub open spec fn segment(page: Seq<u8>, index: nat) -> Seq<u8> {
    page.subrange(256 * index as int, 256 * index as int + 256)
}

/// What measuring the first `count` segments of the page at `offset`
/// records.
pub open spec fn measured(page: Seq<u8>, offset: nat, count: nat) -> Seq<u8>
    decreases count,
{
    if count == 0 {
        Seq::<u8>::empty()
    } else {
        measured(page, offset, (count - 1) as nat) + extended(
            (offset + 256 * (count - 1)) as nat,
            segment(page, (count - 1) as nat),
        )
    }
}

/// What loading one page at `offset` records: its addition, and the
/// measurement of its 16 segments where the page is measured.
pub open spec fn page_loaded(page: Seq<u8>, offset: nat, secinfo: SecInfo, measure: bool) -> Seq<
    u8,
> {
    if measure {
        added(offset, secinfo) + measured(page, offset, 16)
    } else {
        added(offset, secinfo)
    }
}

/// The page of `pages` with the given index.
pub open spec fn page(pages: Seq<u8>, index: nat) -> Seq<u8> {
    pages.subrange(4096 * index as int, 4096 * index as int + 4096)
}

/// What loading the first `count` pages of `pages` records, the first of
/// them at `offset` and each of the others where the one before it ends.
pub open spec fn loaded(
    pages: Seq<u8>,
    offset: nat,
    secinfo: SecInfo,
    measure: bool,
    count: nat,
) -> Seq<u8>
    decreases count,
{
    if count == 0 {
        Seq::<u8>::empty()
    } else {
        loaded(pages, offset, secinfo, measure, (count - 1) as nat) + page_loaded(
            page(pages, (count - 1) as nat),
            (offset + 4096 * (count - 1)) as nat,
            secinfo,
            measure,
        )
    }
}

/// The record of an addition takes 64 bytes.
pub proof fn lemma_added_len(offset: nat, secinfo: SecInfo)
    ensures
        added(offset, secinfo).len() == 64,
{
    lemma_le_bytes_len(EADD as nat, 8);
    lemma_le_bytes_len(offset, 8);
}

/// Measuring `count` segments of a page that has them records 320 bytes
/// for each.
pub proof fn lemma_measured_len(page: Seq<u8>, offset: nat, count: nat)
    requires
        256 * count <= page.len(),
    ensures
        measured(page, offset, count).len() == 320 * count,
    decreases count,
{
    if count > 0 {
        lemma_measured_len(page, offset, (count - 1) as nat);
        lemma_le_bytes_len(EEXTEND as nat, 8);
        lemma_le_bytes_len((offset + 256 * (count - 1)) as nat, 8);
    }
}

/// Loading `count` pages of a string that has them records 64 bytes for
/// each page, and 5120 more for each where the pages are measured.
pub proof fn lemma_loaded_len(
    pages: Seq<u8>,
    offset: nat,
    secinfo: SecInfo,
    measure: bool,
    count: nat,
)
    requires
        4096 * count <= pages.len(),
    ensures
        loaded(pages, offset, secinfo, measure, count).len() == if measure {
            5184 * count
        } else {
            64 * count
        },
    decreases count,
{
    if count > 0 {
        lemma_loaded_len(pages, offset, secinfo, measure, (count - 1) as nat);
        lemma_added_len((offset + 4096 * (count - 1)) as nat, secinfo);
        lemma_measured_len(
            page(pages, (count - 1) as nat),
            (offset + 4096 * (count - 1)) as nat,
            16,
        );
    }
}

/// What loading records starts with the addition of the first page.
pub proof fn lemma_loaded_starts_with_added(
    pages: Seq<u8>,
    offset: nat,
    secinfo: SecInfo,
    measure: bool,
    count: nat,
)
    requires
        count > 0,
    ensures
        loaded(pages, offset, secinfo, measure, count).len() >= 64,
        loaded(pages, offset, secinfo, measure, count).subrange(0, 64) == added(offset, secinfo),
    decreases count,
{
    let before = loaded(pages, offset, secinfo, measure, (count - 1) as nat);
    let last = page_loaded(
        page(pages, (count - 1) as nat),
        (offset + 4096 * (count - 1)) as nat,
        secinfo,
        measure,
    );
    lemma_added_len((offset + 4096 * (count - 1)) as nat, secinfo);
    if count == 1 {
        assert(before =~= Seq::<u8>::empty());
        assert((before + last).subrange(0, 64) =~= added(offset, secinfo));
    } else {
        lemma_loaded_starts_with_added(pages, offset, secinfo, measure, (count - 1) as nat);
        assert((before + last).subrange(0, 64) =~= before.subrange(0, 64));
    }
}

/// Pages that are not measured leave no trace of what they hold: two
/// strings record the same when as many pages of each are loaded at the
/// same offset with the same security information.
pub proof fn lemma_unmeasured_ignores_content(
    a: Seq<u8>,
    b: Seq<u8>,
    offset: nat,
    secinfo: SecInfo,
    count: nat,
)
    ensures
        loaded(a, offset, secinfo, false, count) == loaded(b, offset, secinfo, false, count),
    decreases count,
{
    if count > 0 {
        lemma_unmeasured_ignores_content(a, b, offset, secinfo, (count - 1) as nat);
    }
}

/// The offset is recorded: the same pages loaded at two offsets record
/// differently, measured or not.
pub proof fn lemma_offset_matters(
    pages: Seq<u8>,
    first: nat,
    second: nat,
    secinfo: SecInfo,
    measure: bool,
    count: nat,
)
    requires
        count > 0,
        first <= u64::MAX,
        second <= u64::MAX,
        first != second,
    ensures
        loaded(pages, first, secinfo, measure, count) != loaded(
            pages,
            second,
            secinfo,
            measure,
            count,
        ),
{
    lemma_loaded_starts_with_added(pages, first, secinfo, measure, count);
    lemma_loaded_starts_with_added(pages, second, secinfo, measure, count);
    if added(first, secinfo) == added(second, secinfo) {
        lemma_le_bytes_len(EADD as nat, 8);
        lemma_le_bytes_len(first, 8);
        lemma_le_bytes_len(second, 8);
        assert(le_bytes(first, 8) =~= added(first, secinfo).subrange(8, 16));
        assert(le_bytes(second, 8) =~= added(second, secinfo).subrange(8, 16));
        lemma_pow256_widths();
        lemma_le_bytes_injective(first, second, 8);
    }
}

/// The number of pages is recorded: two strings of whole pages that differ
/// in length record differently when both are loaded measured or both
/// unmeasured.
pub proof fn lemma_page_count_matters(
    a: Seq<u8>,
    b: Seq<u8>,
    offset_a: nat,
    offset_b: nat,
    secinfo: SecInfo,
    measure: bool,
)
    requires
        a.len() % 4096 == 0,
        b.len() % 4096 == 0,
        a.len() != b.len(),
    ensures
        loaded(a, offset_a, secinfo, measure, a.len() / 4096) != loaded(
            b,
            offset_b,
            secinfo,
            measure,
            b.len() / 4096,
        ),
{
    lemma_loaded_len(a, offset_a, secinfo, measure, a.len() / 4096);
    lemma_loaded_len(b, offset_b, secinfo, measure, b.len() / 4096);
}

/// Measuring is repeatable: two hashers that have recorded the same give the
/// same output. What a hasher has recorded follows from what it was made
/// with and what was loaded, by the contracts of [`Hasher::new`] and
/// [`Hasher::load`].
pub proof fn lemma_same_record_same_output<T: Digest>(first: &Hasher<T>, second: &Hasher<T>)
    requires
        first.fed() == second.fed(),
    ensures
        T::output(first.fed()) == T::output(second.fed()),
{
}

/// The 64 bytes that record the creation of an enclave of `size` bytes
/// with `ssa_frame_pages` pages in each state save area frame.
pub fn creation_record(size: usize, ssa_frame_pages: u32) -> (record: Vec<u8>)
    ensures
        record@ == created(size, ssa_frame_pages),
{
    let mut record = Vec::new();
    put_le(&mut record, ECREATE as u128, 8);
    put_le(&mut record, ssa_frame_pages as u128, 4);
    put_le(&mut record, size as u128, 8);
    put_zeros(&mut record, 44);
    record
}

/// The 64 bytes that record the addition of a page at `offset`.
pub fn addition_record(offset: usize, secinfo: SecInfo) -> (record: Vec<u8>)
    ensures
        record@ == added(offset as nat, secinfo),
{
    let mut record = Vec::new();
    put_le(&mut record, EADD as u128, 8);
    put_le(&mut record, offset as u128, 8);
    secinfo.put_measured(&mut record);
    record
}

/// The 64 bytes that record the measurement of a segment at `offset`.
pub fn extension_record(offset: usize) -> (record: Vec<u8>)
    ensures
        record@ == extending(offset as nat),
{
    let mut record = Vec::new();
    put_le(&mut record, EEXTEND as u128, 8);
    put_le(&mut record, offset as u128, 8);
    put_zeros(&mut record, 48);
    record
}

/// Computes the measurement of an enclave.
///
/// The digest is fed what the processor records when it creates the enclave
/// and when it adds and measures each page.
pub struct Hasher<T: Digest>(T);

impl<T: Digest> Hasher<T> {
    /// Every byte that the digest has been fed so far.
    pub closed spec fn fed(&self) -> Seq<u8> {
        self.0.fed()
    }

    /// Starts the measurement of an enclave of `size` bytes with
    /// `ssa_frame_pages` pages in each state save area frame.
    pub fn new(size: usize, ssa_frame_pages: u32) -> (hasher: Self)
        ensures
            T::obeys_digest_spec() ==> hasher.fed() == created(size, ssa_frame_pages),
    {
        let mut digest = T::new();
        digest.update(creation_record(size, ssa_frame_pages).as_slice());
        Hasher(digest)
    }

    /// Records the addition of a page at `offset`.
    fn add(&mut self, offset: usize, secinfo: SecInfo)
        ensures
            T::obeys_digest_spec() ==> final(self).fed() == old(self).fed() + added(
                offset as nat,
                secinfo,
            ),
    {
        self.0.update(addition_record(offset, secinfo).as_slice());
    }

    /// Records the measurement of `segment` at `offset`.
    fn extend(&mut self, offset: usize, segment: &[u8])
        ensures
            T::obeys_digest_spec() ==> final(self).fed() == old(self).fed() + extended(
                offset as nat,
                segment@,
            ),
    {
        self.0.update(extension_record(offset).as_slice());
        self.0.update(segment);
    }

    /// Records the loading of the page of `pages` with the given index, at
    /// `offset`.
    fn load_page(
        &mut self,
        pages: &[u8],
        index: usize,
        offset: usize,
        secinfo: SecInfo,
        measure: bool,
    )
        requires
            4096 * index + 4096 <= pages@.len(),
            offset + 4096 <= usize::MAX,
        ensures
            T::obeys_digest_spec() ==> final(self).fed() == old(self).fed() + page_loaded(
                page(pages@, index as nat),
                offset as nat,
                secinfo,
                measure,
            ),
    {
        let ghost before = self.fed();
        let ghost this = page(pages@, index as nat);
        self.add(offset, secinfo);
        if measure {
            let mut part: usize = 0;
            while part < 16
                invariant
                    part <= 16,
                    4096 * index + 4096 <= pages.len(),
                    offset + 4096 <= usize::MAX,
                    this == page(pages@, index as nat),
                    T::obeys_digest_spec() ==> self.fed() == before + added(
                        offset as nat,
                        secinfo,
                    ) + measured(this, offset as nat, part as nat),
                decreases 16 - part,
            {
                let from = index * PAGE + part * SEGMENT;
                let piece = vstd::slice::slice_subrange(pages, from, from + SEGMENT);
                assert(piece@ =~= segment(this, part as nat));
                self.extend(offset + part * SEGMENT, piece);
                part = part + 1;
            }
        }
    }

    /// Measures `pages` as loaded at `offset` with the security
    /// information `secinfo`.
    ///
    /// Every page is recorded as added. Where `measure` is set, each of its
    /// segments is recorded as measured, with what it holds. Input that is
    /// not a whole number of pages is refused and leaves the hasher as it
    /// was. The pages must end within the address space.
    pub fn load(&mut self, pages: &[u8], offset: usize, secinfo: SecInfo, measure: bool) -> (r:
        Result<(), InvalidSize>)
        requires
            pages@.len() % 4096 == 0 ==> offset + pages@.len() <= usize::MAX,
        ensures
            r is Err <==> pages@.len() % 4096 != 0,
            r is Err ==> *final(self) == *old(self),
            r is Ok && T::obeys_digest_spec() ==> final(self).fed() == old(self).fed() + loaded(
                pages@,
                offset as nat,
                secinfo,
                measure,
                pages@.len() / 4096,
            ),
    {
        if pages.len() % PAGE != 0 {
            return Err(InvalidSize);
        }
        let ghost start = self.fed();
        let count = pages.len() / PAGE;
        let mut index: usize = 0;
        while index < count
            invariant
                index <= count,
                count * 4096 == pages@.len(),
                offset + pages@.len() <= usize::MAX,
                T::obeys_digest_spec() ==> self.fed() == start + loaded(
                    pages@,
                    offset as nat,
                    secinfo,
                    measure,
                    index as nat,
                ),
            decreases count - index,
        {
            self.load_page(pages, index, offset + index * PAGE, secinfo, measure);
            index = index + 1;
        }
        Ok(())
    }

    /// Ends the measurement: the output of the digest for all that was
    /// recorded.
    pub fn finish(self) -> (output: T::Output)
        ensures
            T::obeys_digest_spec() ==> output == T::output(self.fed()),
    {
        self.0.finish()
    }
}

} // verus!
