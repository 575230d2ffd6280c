//! Shared wire primitives: big-endian 32-bit integers, length-prefixed byte
//! blobs, and length-prefixed UTF-8 strings.

use vstd::prelude::*;
use crate::varint;

verus! {

use vstd::string::StrSliceExecFns;

/// Big-endian bytes of a 32-bit integer.
pub open spec fn u32_be_enc(x: u32) -> Seq<u8> {
    seq![(x / 0x1000000) as u8, (x / 0x10000) as u8, (x / 0x100) as u8, x as u8]
}

/// Value of the four big-endian bytes at the front of `b`.
pub open spec fn u32_be_dec(b: Seq<u8>) -> Option<u32> {
    if b.len() < 4 {
        None
    } else {
        Some((b[0] * 0x1000000 + b[1] * 0x10000 + b[2] * 0x100 + b[3]) as u32)
    }
}

pub proof fn lemma_u32_be_round_trip(x: u32, rest: Seq<u8>)
    ensures
        u32_be_dec(u32_be_enc(x) + rest) == Some(x),
{
    let b = u32_be_enc(x) + rest;
    assert(b[0] == (x / 0x1000000) as u8 && b[1] == (x / 0x10000) as u8 && b[2] == (x
        / 0x100) as u8 && b[3] == x as u8);
    assert(((x / 0x1000000) as u8) * 0x1000000 + ((x / 0x10000) as u8) * 0x10000 + ((x
        / 0x100) as u8) * 0x100 + (x as u8) == x) by (bit_vector);
}

/// Appends the big-endian bytes of `x` to `out`.
pub fn put_u32_be(out: &mut Vec<u8>, x: u32)
    ensures
        final(out)@ == old(out)@ + u32_be_enc(x),
{
    out.push((x / 0x1000000) as u8);
    out.push((x / 0x10000) as u8);
    out.push((x / 0x100) as u8);
    out.push(x as u8);
    assert(final(out)@ =~= old(out)@ + u32_be_enc(x));
}

/// Reads four big-endian bytes at `pos`.
pub fn get_u32_be(buf: &Vec<u8>, pos: usize) -> (r: Option<u32>)
    requires
        pos <= buf.len(),
    ensures
        r == u32_be_dec(buf@.skip(pos as int)),
{
    if buf.len() - pos < 4 {
        return None;
    }
    let b0 = buf[pos] as u32;
    let b1 = buf[pos + 1] as u32;
    let b2 = buf[pos + 2] as u32;
    let b3 = buf[pos + 3] as u32;
    assert(b0 * 0x1000000 + b1 * 0x10000 + b2 * 0x100 + b3 <= 0xFFFFFFFF) by (nonlinear_arith)
        requires
            b0 < 0x100 && b1 < 0x100 && b2 < 0x100 && b3 < 0x100,
    ;
    Some(b0 * 0x1000000 + b1 * 0x10000 + b2 * 0x100 + b3)
}

/// A byte blob on the wire: its length as a varint, then the bytes.
pub open spec fn blob_enc(v: Seq<u8>) -> Seq<u8> {
    varint::varint_enc(v.len() as u64) + v
}

/// The blob at the front of `b`, with the total number of bytes it occupies.
pub open spec fn blob_dec(b: Seq<u8>) -> Option<(Seq<u8>, int)> {
    match varint::varint_dec(b) {
        Some(nk) => {
            if nk.1 + nk.0 <= b.len() {
                Some((b.subrange(nk.1, nk.1 + nk.0 as int), nk.1 + nk.0 as int))
            } else {
                None
            }
        },
        None => None,
    }
}

pub proof fn lemma_blob_round_trip(v: Seq<u8>, rest: Seq<u8>)
    requires
        v.len() <= u64::MAX,
    ensures
        blob_dec(blob_enc(v) + rest) == Some((v, blob_enc(v).len() as int)),
{
    let n = v.len() as u64;
    varint::lemma_varint_round_trip(n, v + rest);
    assert(blob_enc(v) + rest =~= varint::varint_enc(n) + (v + rest));
    let b = blob_enc(v) + rest;
    let k = varint::varint_enc(n).len() as int;
    assert(b.subrange(k, k + n as int) =~= v);
}

/// A string on the wire: the length of its UTF-8 bytes as a varint, then
/// those bytes.
pub open spec fn str_enc(s: Seq<char>) -> Seq<u8> {
    blob_enc(vstd::utf8::encode_utf8(s))
}

/// The string at the front of `b`; `None` when the blob there is not valid
/// UTF-8.
pub open spec fn str_dec(b: Seq<u8>) -> Option<(Seq<char>, int)> {
    match blob_dec(b) {
        Some(vk) => {
            if vstd::utf8::valid_utf8(vk.0) {
                Some((vstd::utf8::decode_utf8(vk.0), vk.1))
            } else {
                None
            }
        },
        None => None,
    }
}

pub proof fn lemma_str_round_trip(s: Seq<char>, rest: Seq<u8>)
    requires
        vstd::utf8::encode_utf8(s).len() <= u64::MAX,
    ensures
        str_dec(str_enc(s) + rest) == Some((s, str_enc(s).len() as int)),
{
    broadcast use vstd::utf8::encode_utf8_valid_utf8, vstd::utf8::encode_utf8_decode_utf8;

    lemma_blob_round_trip(vstd::utf8::encode_utf8(s), rest);
}

/// Copies `v[from..to]` into a fresh vector.
pub fn copy_range(v: &Vec<u8>, from: usize, to: usize) -> (r: Vec<u8>)
    requires
        from <= to <= v.len(),
    ensures
        r@ == v@.subrange(from as int, to as int),
{
    let mut out: Vec<u8> = Vec::new();
    let mut i: usize = from;
    while i < to
        invariant
            from <= i <= to <= v.len(),
            out@ == v@.subrange(from as int, i as int),
        decreases to - i,
    {
        out.push(v[i]);
        i = i + 1;
        assert(out@ =~= v@.subrange(from as int, i as int));
    }
    out
}

/// Appends all of `v` to `out`.
pub fn append_bytes(out: &mut Vec<u8>, v: &Vec<u8>)
    ensures
        final(out)@ == old(out)@ + v@,
{
    let mut i: usize = 0;
    while i < v.len()
        invariant
            i <= v.len(),
            out@ == old(out)@ + v@.subrange(0, i as int),
        decreases v.len() - i,
    {
        out.push(v[i]);
        i = i + 1;
        assert(out@ =~= old(out)@ + v@.subrange(0, i as int));
    }
    assert(out@ =~= old(out)@ + v@);
}

/// Relies on `String::from_utf8`: returns the string whose UTF-8 encoding is
/// exactly the input, and `None` precisely when the bytes are not valid UTF-8.
#[verifier::external_body]
pub fn string_from_utf8(v: Vec<u8>) -> (r: Option<String>)
    ensures
        match r {
            Some(s) => vstd::utf8::valid_utf8(v@) && vstd::utf8::encode_utf8(s@) == v@,
            None => !vstd::utf8::valid_utf8(v@),
        },
{
    String::from_utf8(v).ok()
}

/// Appends the wire form of `s` to `out`.
pub fn put_str(out: &mut Vec<u8>, s: &str)
    ensures
        final(out)@ == old(out)@ + str_enc(s@),
{
    let bytes = s.as_bytes_vec();
    varint::put(out, bytes.len() as u64);
    append_bytes(out, &bytes);
    assert(final(out)@ =~= old(out)@ + str_enc(s@));
}

/// Appends the wire form of the blob `v` to `out`.
pub fn put_blob(out: &mut Vec<u8>, v: &Vec<u8>)
    ensures
        final(out)@ == old(out)@ + blob_enc(v@),
{
    varint::put(out, v.len() as u64);
    append_bytes(out, v);
    assert(final(out)@ =~= old(out)@ + blob_enc(v@));
}

/// Reads the blob at `pos`; returns it and the position just after it.
pub fn get_blob(buf: &Vec<u8>, pos: usize) -> (r: Option<(Vec<u8>, usize)>)
    requires
        pos <= buf.len(),
    ensures
        match r {
            Some(vk) => {
                &&& blob_dec(buf@.skip(pos as int)) matches Some(s) && s.0 == vk.0@ && s.1 + pos
                    == vk.1
                &&& pos <= vk.1 <= buf.len()
            },
            None => blob_dec(buf@.skip(pos as int)) is None,
        },
{
    match varint::get(buf, pos) {
        None => None,
        Some((n, k)) => {
            if n <= (buf.len() - pos - k) as u64 {
                let start = pos + k;
                let end = start + n as usize;
                let v = copy_range(buf, start, end);
                assert(buf@.skip(pos as int).subrange(k as int, k + n as int) =~= buf@.subrange(
                    pos + k as int,
                    pos + k + n as int,
                ));
                Some((v, end))
            } else {
                None
            }
        },
    }
}

/// Reads the string at `pos`; returns it and the position just after it.
pub fn get_str(buf: &Vec<u8>, pos: usize) -> (r: Option<(String, usize)>)
    requires
        pos <= buf.len(),
    ensures
        match r {
            Some(sk) => {
                &&& str_dec(buf@.skip(pos as int)) matches Some(s) && s.0 == sk.0@ && s.1 + pos
                    == sk.1
                &&& pos <= sk.1 <= buf.len()
            },
            None => str_dec(buf@.skip(pos as int)) is None,
        },
{
    broadcast use vstd::utf8::encode_utf8_decode_utf8;

    match get_blob(buf, pos) {
        None => None,
        Some((v, end)) => {
            match string_from_utf8(v) {
                None => None,
                Some(s) => Some((s, end)),
            }
        },
    }
}

} // verus!
