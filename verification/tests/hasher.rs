use std::num::NonZeroU32;

use sgx::digest::Digest;
use sgx::hasher::{
    addition_record, creation_record, extension_record, Hasher, InvalidSize, EADD, ECREATE,
    EEXTEND, PAGE, SEGMENT,
};
use sgx::page::{Class, SecInfo, FLAG_R, FLAG_W, FLAG_X};
use sgx::sha256::S256Digest;

struct Dummy;

impl Digest for Dummy {
    type Output = [u8; 32];

    fn new() -> Self {
        Self
    }

    fn update(&mut self, _: &[u8]) {}

    fn finish(self) -> Self::Output {
        Default::default()
    }
}

/// Keeps every byte that it is fed.
struct Record(Vec<u8>);

impl Digest for Record {
    type Output = Vec<u8>;

    fn new() -> Self {
        Record(Vec::new())
    }

    fn update(&mut self, bytes: &[u8]) {
        self.0.extend_from_slice(bytes)
    }

    fn finish(self) -> Self::Output {
        self.0
    }
}

fn unhex(text: &str) -> Vec<u8> {
    let digits: Vec<u8> = text
        .bytes()
        .map(|c| match c {
            b'0'..=b'9' => c - b'0',
            b'a'..=b'f' => c - b'a' + 10,
            _ => panic!("not a hexadecimal digit"),
        })
        .collect();
    digits.chunks(2).map(|pair| pair[0] * 16 + pair[1]).collect()
}

fn pattern(len: usize, seed: u8) -> Vec<u8> {
    (0..len)
        .map(|i| (i as u8).wrapping_mul(31).wrapping_add(seed))
        .collect()
}

#[test]
fn badsize() {
    let pages = NonZeroU32::new(1).unwrap();
    let mut hasher = Hasher::<Dummy>::new(1 << 20, pages.get());

    let buf = vec![0; 4096];
    for i in 1..4096 {
        assert_eq!(
            hasher.load(&buf[i..], 0, SecInfo::tcs(), true),
            Err(InvalidSize)
        );
    }

    assert_eq!(hasher.load(&buf, 0, SecInfo::tcs(), true), Ok(()));
}

#[test]
fn badsize_at_every_offset_and_either_way() {
    let buf = vec![0; 3 * 4096];
    for measure in [false, true] {
        let mut hasher = Hasher::<Dummy>::new(1 << 20, 1);
        for len in [1, 255, 256, 4095, 4097, 8191, 8193, 3 * 4096 - 1] {
            for offset in [0, 4096, 0x10_0000] {
                assert_eq!(
                    hasher.load(&buf[..len], offset, SecInfo::tcs(), measure),
                    Err(InvalidSize)
                );
            }
        }
        for len in [0, 4096, 8192, 3 * 4096] {
            assert_eq!(
                hasher.load(&buf[..len], 4096, SecInfo::tcs(), measure),
                Ok(())
            );
        }
    }
}

#[test]
fn constants() {
    assert_eq!(&ECREATE.to_le_bytes(), b"ECREATE\0");
    assert_eq!(&EADD.to_le_bytes(), b"EADD\0\0\0\0");
    assert_eq!(&EEXTEND.to_le_bytes(), b"EEXTEND\0");
    assert_eq!(PAGE, 4096);
    assert_eq!(SEGMENT, 256);
}

#[test]
fn records() {
    assert_eq!(
        creation_record(0x0010_0000, 1),
        unhex(
            "4543524541544500010000000000100000000000000000000000000000000000\
             0000000000000000000000000000000000000000000000000000000000000000"
        )
    );
    assert_eq!(
        addition_record(0x0123_4000, SecInfo::reg(FLAG_R | FLAG_W)),
        unhex(
            "4541444400000000004023010000000003020000000000000000000000000000\
             0000000000000000000000000000000000000000000000000000000000000000"
        )
    );
    assert_eq!(
        extension_record(0x0123_4f00),
        unhex(
            "45455854454e4400004f23010000000000000000000000000000000000000000\
             0000000000000000000000000000000000000000000000000000000000000000"
        )
    );
}

#[test]
fn new_records_the_creation() {
    let fed = Hasher::<Record>::new(0x0010_0000, 1).finish();
    assert_eq!(
        fed,
        unhex(
            "4543524541544500010000000000100000000000000000000000000000000000\
             0000000000000000000000000000000000000000000000000000000000000000"
        )
    );
    let fed = Hasher::<Record>::new(0x0102_0304, 0x0a0b_0c0d).finish();
    assert_eq!(fed.len(), 64);
    assert_eq!(&fed[0..8], b"ECREATE\0");
    assert_eq!(&fed[8..12], &[0x0d, 0x0c, 0x0b, 0x0a]);
    assert_eq!(&fed[12..20], &[0x04, 0x03, 0x02, 0x01, 0, 0, 0, 0]);
    assert_eq!(&fed[20..64], &[0u8; 44][..]);
}

#[test]
fn load_unmeasured_records_the_addition_alone() {
    let mut hasher = Hasher::<Record>::new(1 << 20, 1);
    let pages = pattern(2 * 4096, 1);
    hasher
        .load(&pages, 0x0000_2000, SecInfo::reg(FLAG_R | FLAG_X), false)
        .unwrap();
    let fed = hasher.finish();
    assert_eq!(fed.len(), 64 + 2 * 64);
    let first = &fed[64..128];
    assert_eq!(&first[0..8], b"EADD\0\0\0\0");
    assert_eq!(&first[8..16], &[0x00, 0x20, 0, 0, 0, 0, 0, 0]);
    assert_eq!(&first[16..18], &[0x05, 0x02]);
    assert_eq!(&first[18..64], &[0u8; 46][..]);
    let second = &fed[128..192];
    assert_eq!(&second[0..8], b"EADD\0\0\0\0");
    assert_eq!(&second[8..16], &[0x00, 0x30, 0, 0, 0, 0, 0, 0]);
    assert_eq!(&second[16..64], &first[16..64]);
}

#[test]
fn load_measured_records_every_segment() {
    let mut hasher = Hasher::<Record>::new(1 << 20, 1);
    let pages = pattern(2 * 4096, 7);
    hasher.load(&pages, 0x1000, SecInfo::tcs(), true).unwrap();
    let fed = hasher.finish();
    let per_page = 64 + 16 * (64 + 256);
    assert_eq!(fed.len(), 64 + 2 * per_page);
    for page in 0..2 {
        let record = &fed[64 + page * per_page..64 + (page + 1) * per_page];
        let offset = 0x1000 + page as u64 * 4096;
        assert_eq!(&record[0..8], b"EADD\0\0\0\0");
        assert_eq!(&record[8..16], &offset.to_le_bytes());
        assert_eq!(&record[16..18], &[0x00, 0x01]);
        assert_eq!(&record[18..64], &[0u8; 46][..]);
        for segment in 0..16 {
            let extend = &record[64 + segment * 320..64 + (segment + 1) * 320];
            let at = offset + segment as u64 * 256;
            assert_eq!(&extend[0..8], b"EEXTEND\0");
            assert_eq!(&extend[8..16], &at.to_le_bytes());
            assert_eq!(&extend[16..64], &[0u8; 48][..]);
            let from = page * 4096 + segment * 256;
            assert_eq!(&extend[64..320], &pages[from..from + 256]);
        }
    }
}

#[test]
fn load_appends_to_what_was_recorded() {
    let pages = pattern(3 * 4096, 3);
    let mut whole = Hasher::<Record>::new(1 << 20, 2);
    whole.load(&pages, 0, SecInfo::tcs(), true).unwrap();
    let mut parts = Hasher::<Record>::new(1 << 20, 2);
    parts.load(&pages[..4096], 0, SecInfo::tcs(), true).unwrap();
    parts.load(&pages[4096..], 4096, SecInfo::tcs(), true).unwrap();
    assert_eq!(whole.finish(), parts.finish());
}

#[test]
fn load_of_nothing_records_nothing() {
    let mut hasher = Hasher::<Record>::new(1 << 20, 1);
    hasher.load(&[], 4096, SecInfo::tcs(), true).unwrap();
    assert_eq!(hasher.finish().len(), 64);
}

#[test]
fn refused_load_leaves_the_hasher_as_it_was() {
    let pages = pattern(4096, 9);
    let mut hasher = Hasher::<Record>::new(1 << 20, 1);
    hasher.load(&pages, 0, SecInfo::tcs(), true).unwrap();
    let mut other = Hasher::<Record>::new(1 << 20, 1);
    other.load(&pages, 0, SecInfo::tcs(), true).unwrap();
    assert_eq!(
        other.load(&pages[..4095], 4096, SecInfo::tcs(), true),
        Err(InvalidSize)
    );
    assert_eq!(
        other.load(&pages[1..], 4096, SecInfo::tcs(), false),
        Err(InvalidSize)
    );
    assert_eq!(hasher.finish(), other.finish());
}

#[test]
fn hashing_twice_gives_the_same_digest() {
    let pages = pattern(4 * 4096, 11);
    let run = || {
        let mut hasher = Hasher::<S256Digest>::new(1 << 22, 1);
        hasher.load(&pages[..4096], 0, SecInfo::tcs(), true).unwrap();
        hasher
            .load(&pages[4096..], 4096, SecInfo::reg(FLAG_R | FLAG_W), true)
            .unwrap();
        hasher.finish()
    };
    assert_eq!(run(), run());
}

#[test]
fn unmeasured_pages_do_not_count_for_what_they_hold() {
    let run = |pages: &[u8], offset: usize| {
        let mut hasher = Hasher::<S256Digest>::new(1 << 20, 1);
        hasher.load(pages, offset, SecInfo::tcs(), false).unwrap();
        hasher.finish()
    };
    let zero = vec![0u8; 8192];
    let other = pattern(8192, 5);
    assert_eq!(run(&zero, 0x2000), run(&other, 0x2000));
    // the offset and the number of pages count all the same
    assert_ne!(run(&zero, 0x2000), run(&zero, 0x3000));
    assert_ne!(run(&zero, 0x2000), run(&zero[..4096], 0x2000));
    assert_eq!(
        run(&zero, 0x2000).to_vec(),
        unhex("6576b014033a04081b01729cf9ed99f6e309eaec59aa607eb3b035162915480e")
    );
}

#[test]
fn measured_pages_count_for_what_they_hold() {
    let run = |pages: &[u8]| {
        let mut hasher = Hasher::<S256Digest>::new(1 << 20, 1);
        hasher.load(pages, 0, SecInfo::tcs(), true).unwrap();
        hasher.finish()
    };
    let zero = vec![0u8; 4096];
    let mut other = zero.clone();
    other[4095] = 1;
    assert_ne!(run(&zero), run(&other));
}

#[test]
fn measurement_of_one_zeroed_page() {
    let mut hasher = Hasher::<S256Digest>::new(1 << 20, 1);
    let page = vec![0u8; 4096];
    hasher
        .load(&page, 0, SecInfo::reg(FLAG_R | FLAG_W | FLAG_X), true)
        .unwrap();
    assert_eq!(
        hasher.finish().to_vec(),
        unhex("f5c52588a04662219203c75a42a491d178d88b1a1c8cb7f70c94378af9984763")
    );
}

#[test]
fn measurement_of_patterned_pages() {
    // two measured pages for thread control structures, then one page that
    // is not measured and can be read and written
    let mut hasher = Hasher::<S256Digest>::new(1 << 22, 3);
    hasher
        .load(&pattern(2 * 4096, 7), 0x1000, SecInfo::tcs(), true)
        .unwrap();
    hasher
        .load(&pattern(4096, 9), 0x3000, SecInfo::reg(FLAG_R | FLAG_W), false)
        .unwrap();
    assert_eq!(
        hasher.finish().to_vec(),
        unhex("85b49d0ea0726b354b9c56df2c6039fec5477f68285faaf2113204fb99d6bdb4")
    );
}

#[test]
fn sha256_of_what_it_is_fed() {
    // the hash of nothing, of "abc", and of "abc" fed in two pieces
    let digest = S256Digest::new();
    assert_eq!(
        digest.finish().to_vec(),
        unhex("e3b0c44298fc1c149afbf4c8996fb92427ae41e4649b934ca495991b7852b855")
    );
    let mut digest = S256Digest::new();
    digest.update(b"abc");
    assert_eq!(
        digest.finish().to_vec(),
        unhex("ba7816bf8f01cfea414140de5dae2223b00361a396177a9cb410ff61f20015ad")
    );
    let mut digest = S256Digest::new();
    digest.update(b"a");
    digest.update(b"");
    digest.update(b"bc");
    assert_eq!(
        digest.finish().to_vec(),
        unhex("ba7816bf8f01cfea414140de5dae2223b00361a396177a9cb410ff61f20015ad")
    );
}

#[test]
fn secinfo() {
    assert_eq!(
        SecInfo::tcs(),
        SecInfo {
            flags: 0,
            class: Class::Tcs
        }
    );
    assert_eq!(
        SecInfo::reg(FLAG_R | FLAG_W),
        SecInfo {
            flags: 3,
            class: Class::Regular
        }
    );
    let mut buf = vec![0xff];
    SecInfo::reg(FLAG_X).put_measured(&mut buf);
    assert_eq!(buf.len(), 49);
    assert_eq!(&buf[..3], &[0xff, 0x04, 0x02]);
    assert_eq!(&buf[3..], &[0u8; 46][..]);
    assert_eq!(Class::Secs.to_code(), 0);
    assert_eq!(Class::Tcs.to_code(), 1);
    assert_eq!(Class::Regular.to_code(), 2);
    assert_eq!(Class::VersionArray.to_code(), 3);
    assert_eq!(Class::Trimmed.to_code(), 4);
}
