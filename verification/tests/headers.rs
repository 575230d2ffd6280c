//! Binary header block tests: length-prefixed pairs, ended by an empty pair
//! or the end of the data.

use spoa::req::hdrs_bin;

fn block(parts: &[&[u8]]) -> Vec<u8> {
    let mut v = Vec::new();
    for p in parts {
        v.push(p.len() as u8);
        v.extend_from_slice(p);
    }
    v
}

#[test]
fn hdrs_bin_reads_pairs_in_order() {
    let b = block(&[b"host", b"example", b"accept", b"*/*"]);
    assert_eq!(
        hdrs_bin(&b),
        vec![
            (b"host".to_vec(), b"example".to_vec()),
            (b"accept".to_vec(), b"*/*".to_vec()),
        ]
    );
}

#[test]
fn hdrs_bin_stops_at_empty_pair() {
    let mut b = block(&[b"host", b"example", b"", b""]);
    b.extend_from_slice(&block(&[b"late", b"ignored"]));
    assert_eq!(hdrs_bin(&b), vec![(b"host".to_vec(), b"example".to_vec())]);
}

#[test]
fn hdrs_bin_drops_a_trailing_half_pair() {
    // A name whose value never arrives is not a header.
    let mut b = block(&[b"host", b"example"]);
    b.push(4);
    b.extend_from_slice(b"la");
    assert_eq!(hdrs_bin(&b), vec![(b"host".to_vec(), b"example".to_vec())]);
}

#[test]
fn hdrs_bin_of_nothing_is_empty() {
    assert_eq!(hdrs_bin(&Vec::new()), vec![]);
}
