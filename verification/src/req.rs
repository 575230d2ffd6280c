//! The binary header block some messages carry: byte strings prefixed by a
//! one-byte length, paired up as names and values, ended by an empty pair or
//! the end of the data.

use vstd::prelude::*;

verus! {

/// The length-prefixed byte string at the front of `b`, with the bytes it
/// occupies; `None` when the data ends inside it.
pub open spec fn bin_str_dec(b: Seq<u8>) -> Option<(Seq<u8>, int)> {
    if b.len() == 0 {
        None
    } else if 1 + b[0] as int <= b.len() {
        Some((b.subrange(1, 1 + b[0] as int), 1 + b[0] as int))
    } else {
        None
    }
}

/// The name/value pairs read off `b`, stopping at an empty pair or wherever
/// the data runs out.
pub open spec fn bin_pairs_dec(b: Seq<u8>) -> Seq<(Seq<u8>, Seq<u8>)>
    decreases b.len(),
{
    match bin_str_dec(b) {
        None => Seq::empty(),
        Some(kk) => match bin_str_dec(b.skip(kk.1)) {
            None => Seq::empty(),
            Some(vv) => {
                if kk.0.len() == 0 && vv.0.len() == 0 {
                    Seq::empty()
                } else if 0 < kk.1 + vv.1 <= b.len() {
                    seq![(kk.0, vv.0)] + bin_pairs_dec(b.skip(kk.1 + vv.1))
                } else {
                    Seq::empty()
                }
            },
        },
    }
}

/// View of an executable pair list.
pub open spec fn bin_pairs_view(s: Seq<(Vec<u8>, Vec<u8>)>) -> Seq<(Seq<u8>, Seq<u8>)> {
    s.map(|i: int, p: (Vec<u8>, Vec<u8>)| (p.0@, p.1@))
}

fn get_bin_str(buf: &Vec<u8>, pos: usize) -> (r: Option<(Vec<u8>, usize)>)
    requires
        pos <= buf.len(),
    ensures
        match r {
            Some(sk) => {
                &&& bin_str_dec(buf@.skip(pos as int)) matches Some(s) && s.0 == sk.0@ && s.1 + pos
                    == sk.1
                &&& pos < sk.1 <= buf.len()
            },
            None => bin_str_dec(buf@.skip(pos as int)) is None,
        },
{
    if pos >= buf.len() {
        return None;
    }
    let n = buf[pos] as usize;
    if n <= buf.len() - pos - 1 {
        let v = crate::wire::copy_range(buf, pos + 1, pos + 1 + n);
        assert(buf@.skip(pos as int).subrange(1, 1 + n as int) =~= buf@.subrange(
            pos + 1 as int,
            pos + 1 + n as int,
        ));
        Some((v, pos + 1 + n))
    } else {
        None
    }
}

/// Reads the header pairs of a binary header block.
pub fn hdrs_bin(buf: &Vec<u8>) -> (r: Vec<(Vec<u8>, Vec<u8>)>)
    ensures
        bin_pairs_view(r@) == bin_pairs_dec(buf@),
{
    let mut out: Vec<(Vec<u8>, Vec<u8>)> = Vec::new();
    let mut pos: usize = 0;
    proof {
        assert(buf@.skip(0) =~= buf@);
        assert(bin_pairs_view(out@) + bin_pairs_dec(buf@) =~= bin_pairs_dec(buf@));
    }
    loop
        invariant
            pos <= buf.len(),
            bin_pairs_dec(buf@) == bin_pairs_view(out@) + bin_pairs_dec(buf@.skip(pos as int)),
        decreases buf@.len() - pos,
    {
        let ghost remain = buf@.skip(pos as int);
        let (k, kend) = match get_bin_str(buf, pos) {
            None => {
                return out;
            },
            Some(x) => x,
        };
        proof {
            assert(remain.skip(kend - pos) =~= buf@.skip(kend as int));
        }
        let (v, vend) = match get_bin_str(buf, kend) {
            None => {
                return out;
            },
            Some(x) => x,
        };
        if k.len() == 0 && v.len() == 0 {
            return out;
        }
        proof {
            assert(remain.skip(vend - pos) =~= buf@.skip(vend as int));
            let ghost pv = (k@, v@);
            assert(bin_pairs_dec(remain) == seq![pv] + bin_pairs_dec(buf@.skip(vend as int)));
            assert(bin_pairs_view(out@) + (seq![pv] + bin_pairs_dec(buf@.skip(vend as int)))
                =~= bin_pairs_view(out@.push((k, v))) + bin_pairs_dec(buf@.skip(vend as int)));
        }
        out.push((k, v));
        pos = vend;
    }
}

} // verus!
