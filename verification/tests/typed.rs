//! Typed-data codec tests: byte-exact encodings and round trips for every
//! variant of the sum.

use spoa::data::{get_typed, put_typed, Ipv4, Ipv6, Typed};

fn values() -> Vec<(Typed, Vec<u8>)> {
    vec![
        (Typed::Null, vec![0x00]),
        (Typed::Boolean(true), vec![0x11]),
        (Typed::Boolean(false), vec![0x01]),
        (Typed::Int32(123), vec![0x02, 123]),
        (Typed::Uint32(456), vec![0x03, 0xf8, 0x0d]),
        (Typed::Int64(789), vec![0x04, 0xf5, 0x22]),
        (Typed::Uint64(999), vec![0x05, 0xf7, 0x2f]),
        (Typed::Ipv4(Ipv4::new(127, 0, 0, 1)), vec![0x06, 127, 0, 0, 1]),
        (
            Typed::Ipv6(Ipv6::new(0, 0, 0, 0, 0, 0xffff, 0xc00a, 0x2ff)),
            vec![
                0x07, 0, 0, 0, 0, 0, 0, 0, 0, 0, 0, 0xff, 0xff, 0xc0, 0x0a, 0x02, 0xff,
            ],
        ),
        (
            Typed::String("hello world".to_string()),
            b"\x08\x0bhello world".to_vec(),
        ),
        (
            Typed::Binary(b"hello world".to_vec()),
            b"\x09\x0bhello world".to_vec(),
        ),
    ]
}

#[test]
fn test_typed_data() {
    for (v, b) in values() {
        let mut buf = Vec::new();
        put_typed(&mut buf, &v);
        assert_eq!(buf.len(), b.len(), "put_typed({v:?}) -> {b:?}");
        assert_eq!(buf.as_slice(), b.as_slice(), "put_typed({v:?}) -> {b:?}");

        let (decoded, end) = get_typed(&b, 0).expect("decode");
        assert_eq!(decoded, v, "get_typed({b:?}) -> {v:?}");
        assert_eq!(end, b.len());
    }
}

#[test]
fn test_data() {
    for (d, b) in values() {
        assert_eq!(d.size(), b.len(), "data: {:?}", d);

        let mut v = Vec::new();
        put_typed(&mut v, &d);
        assert_eq!(v.as_slice(), b.as_slice(), "encode data: {:?}", d);

        let (r, end) = get_typed(&b, 0).unwrap();
        assert_eq!(r, d, "decode data: {:?}", b);
        assert_eq!(end, b.len());
    }
}

#[test]
fn typed_string_decodes_from_utf8_bytes() {
    // Fails if the string codec handed its bytes through untranslated.
    let bytes = vec![0x08, 0x02, b'h', b'i'];
    let (decoded, end) = get_typed(&bytes, 0).unwrap();
    assert_eq!(decoded, Typed::String("hi".to_string()));
    assert_eq!(end, 4);
}

#[test]
fn typed_string_rejects_invalid_utf8() {
    let bytes = vec![0x08, 0x02, 0xff, 0xfe];
    assert!(get_typed(&bytes, 0).is_none());
}
