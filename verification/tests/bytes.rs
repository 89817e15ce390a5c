use sgx::bytes::{get_array, get_le, put_bytes, put_le, put_zeros, shortest};

#[test]
fn put_le_writes_the_low_byte_first() {
    let mut buf = vec![0xee];
    put_le(&mut buf, 0x0102_0304, 4);
    assert_eq!(buf, [0xee, 0x04, 0x03, 0x02, 0x01]);
    put_le(&mut buf, 0xabcd, 2);
    assert_eq!(buf, [0xee, 0x04, 0x03, 0x02, 0x01, 0xcd, 0xab]);
}

#[test]
fn put_le_pads_and_cuts() {
    let mut buf = Vec::new();
    put_le(&mut buf, 0x01, 8);
    assert_eq!(buf, [1, 0, 0, 0, 0, 0, 0, 0]);
    buf.clear();
    put_le(&mut buf, 0x0123_4567, 2);
    assert_eq!(buf, [0x67, 0x45]);
    buf.clear();
    put_le(&mut buf, 0x0123_4567, 0);
    assert!(buf.is_empty());
    put_le(&mut buf, u128::MAX, 16);
    assert_eq!(buf, [0xff; 16]);
}

#[test]
fn get_le_reads_what_put_le_wrote() {
    let mut buf = vec![9, 9, 9];
    put_le(&mut buf, 0x0011_2233_4455_6677_8899_aabb_ccdd_eeff, 16);
    assert_eq!(get_le(&buf, 3, 16), 0x0011_2233_4455_6677_8899_aabb_ccdd_eeff);
    assert_eq!(get_le(&buf, 3, 4), 0xccdd_eeff);
    assert_eq!(get_le(&buf, 4, 2), 0xddee);
    assert_eq!(get_le(&buf, 0, 3), 0x0009_0909);
    assert_eq!(get_le(&buf, 7, 0), 0);
}

#[test]
fn put_zeros_and_bytes() {
    let mut buf = vec![1];
    put_zeros(&mut buf, 3);
    put_bytes(&mut buf, &[7, 8]);
    put_zeros(&mut buf, 0);
    put_bytes(&mut buf, &[]);
    assert_eq!(buf, [1, 0, 0, 0, 7, 8]);
}

#[test]
fn get_array_copies_a_window() {
    let bytes = [10u8, 11, 12, 13, 14, 15];
    let window: [u8; 3] = get_array(&bytes, 2);
    assert_eq!(window, [12, 13, 14]);
    let all: [u8; 6] = get_array(&bytes, 0);
    assert_eq!(all, bytes);
    let none: [u8; 0] = get_array(&bytes, 6);
    assert_eq!(none, []);
}

#[test]
fn shortest_drops_leading_zero_bytes() {
    assert_eq!(shortest(&[0, 0, 1, 0]), [1, 0]);
    assert_eq!(shortest(&[5]), [5]);
    assert_eq!(shortest(&[0, 0]), Vec::<u8>::new());
    assert_eq!(shortest(&[]), Vec::<u8>::new());
}
