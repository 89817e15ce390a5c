use sgx::author::{Author, AUTHOR_SIZE, HEADER1, HEADER2};

#[test]
fn author_instantiation() {
    let author = Author::new(20000330, 0u32);
    assert_eq!(
        author.header1(),
        u128::from_be(0x06000000E10000000000010000000000)
    );
    assert_eq!(author.vendor, 0u32);
    assert_eq!(
        author.header2(),
        u128::from_be(0x01010000600000006000000001000000)
    );
    assert_eq!(author.swdefined, 0u32);
    assert_eq!(author.reserved(), [0; 21]);
}

#[test]
fn author_keeps_date_and_software_value() {
    let author = Author::new(0x20230101, 0xdeadbeef);
    assert_eq!(author.date, 0x20230101);
    assert_eq!(author.swdefined, 0xdeadbeef);
    assert_eq!(author.vendor, 0);
    assert_eq!(author.header1(), HEADER1);
    assert_eq!(author.header2(), HEADER2);
}

#[test]
fn author_layout() {
    let bytes = Author::new(0x20230101, 0xdeadbeef).to_bytes();
    assert_eq!(AUTHOR_SIZE, 128);
    assert_eq!(bytes.len(), 128);
    assert_eq!(
        &bytes[0..16],
        &[0x06, 0, 0, 0, 0xe1, 0, 0, 0, 0, 0, 0x01, 0, 0, 0, 0, 0]
    );
    assert_eq!(&bytes[16..20], &[0, 0, 0, 0]);
    assert_eq!(&bytes[20..24], &[0x01, 0x01, 0x23, 0x20]);
    assert_eq!(
        &bytes[24..40],
        &[0x01, 0x01, 0, 0, 0x60, 0, 0, 0, 0x60, 0, 0, 0, 0x01, 0, 0, 0]
    );
    assert_eq!(&bytes[40..44], &[0xef, 0xbe, 0xad, 0xde]);
    assert_eq!(&bytes[44..128], &[0u8; 84][..]);
}

#[test]
fn author_vendor_is_written_at_16() {
    let mut author = Author::new(1, 2);
    author.vendor = 0x8086;
    let bytes = author.to_bytes();
    assert_eq!(&bytes[16..20], &[0x86, 0x80, 0, 0]);
}

#[test]
fn author_read_back() {
    let author = Author::new(20230101, 77);
    let bytes = author.to_bytes();
    assert_eq!(Author::get(&bytes, 0), author);
    let mut shifted = vec![0xffu8; 5];
    shifted.extend_from_slice(&bytes);
    assert_eq!(Author::get(&shifted, 5), author);
}

#[test]
fn author_read_keeps_every_byte() {
    let bytes: Vec<u8> = (0..128u8).map(|i| i.wrapping_mul(3).wrapping_add(1)).collect();
    let author = Author::get(&bytes, 0);
    assert_eq!(author.to_bytes(), bytes);
    assert_eq!(author.vendor, u32::from_le_bytes([49, 52, 55, 58]));
    assert_eq!(author.reserved()[0], u32::from_le_bytes([133, 136, 139, 142]));
}
