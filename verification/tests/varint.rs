//! Varint encoding tests: sizes, byte-exact encodings, and round trips.

use spoa::varint::{get, put, size_of};

fn test_data() -> Vec<(u64, Vec<u8>)> {
    vec![
        (0, vec![0]),
        (1, vec![1]),
        (240, vec![0xF0, 0x00]),
        (0x0000_08ef, vec![0xff, 0x7f]),
        (0x0004_08ef, vec![0xff, 0xff, 0x7f]),
        (0x0204_08ef, vec![0xff, 0xff, 0xff, 0x7f]),
        (0x0001_0204_08ef, vec![0xff, 0xff, 0xff, 0xff, 0x7f]),
        (0x0081_0204_08ef, vec![0xff, 0xff, 0xff, 0xff, 0xff, 0x7f]),
        (0x4081_0204_08ef, vec![0xff, 0xff, 0xff, 0xff, 0xff, 0xff, 0x7f]),
        (
            0x0020_4081_0204_08ef,
            vec![0xff, 0xff, 0xff, 0xff, 0xff, 0xff, 0xff, 0x7f],
        ),
        (
            0x1020_4081_0204_08ef,
            vec![0xff, 0xff, 0xff, 0xff, 0xff, 0xff, 0xff, 0xff, 0x7f],
        ),
        (
            0xffff_ffff_ffff_ffff,
            vec![0xff, 0xf0, 0xfe, 0xfe, 0xfe, 0xfe, 0xfe, 0xfe, 0xfe, 0x0e],
        ),
    ]
}

#[test]
fn test_varint() {
    for (n, b) in test_data() {
        assert_eq!(size_of(n), b.len());

        let mut v = Vec::new();
        put(&mut v, n);
        assert_eq!(v.as_slice(), b.as_slice());

        assert_eq!(get(&b, 0), Some((n, b.len())));
    }
}

#[test]
fn varint_test_varint() {
    for (n, b) in test_data() {
        assert_eq!(size_of(n), b.len());

        let mut v = Vec::new();
        assert_eq!(put(&mut v, n), b.len(), "encode {n} to: {b:?}");
        assert_eq!(v.as_slice(), b.as_slice());

        let (value, consumed) = get(&b, 0).unwrap();
        assert_eq!(value, n);
        assert_eq!(consumed, b.len());
    }
}

#[test]
fn varint_rejects_truncated_input() {
    // 240 encodes to two bytes; the first byte alone must not decode.
    assert_eq!(get(&vec![0xF0], 0), None);
    assert_eq!(get(&vec![], 0), None);
}
