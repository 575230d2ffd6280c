//! Variable-length integers in the Peers encoding.
//!
//! Values below 240 occupy a single byte.  Larger values start with a byte
//! whose high nibble is set; its low nibble holds four value bits, and each
//! following byte holds seven more bits plus a continuation flag:
//!
//! |       0 <= X < 240        | 1 byte  | [ XXXX XXXX ]
//! |     240 <= X < 2288       | 2 bytes | [ 1111 XXXX ] [ 0XXX XXXX ]
//! |    2288 <= X < 264432     | 3 bytes | [ 1111 XXXX ] [ 1XXX XXXX ]   [ 0XXX XXXX ]
//! |  264432 <= X < 33818864   | 4 bytes | [ 1111 XXXX ] [ 1XXX XXXX ]*2 [ 0XXX XXXX ]

use vstd::prelude::*;

verus! {

/// Encoding of the byte groups that follow the first byte of a long varint.
pub open spec fn vtail(m: nat) -> Seq<u8>
    decreases m,
{
    if m < 0x80 {
        seq![m as u8]
    } else {
        seq![(0x80 + m % 0x80) as u8] + vtail((m - 0x80) as nat / 0x80)
    }
}

/// The full encoding of a value.
pub open spec fn varint_enc(n: u64) -> Seq<u8> {
    if n < 0xF0 {
        seq![n as u8]
    } else {
        seq![(0xF0 + n as nat % 0x10) as u8] + vtail((n as nat - 0xF0) as nat / 0x10)
    }
}

/// Value and length of a group chain read from the front of `b`:
/// each byte contributes its raw value scaled by 128 to the power of its
/// position, and the chain ends at the first byte without the high bit.
pub open spec fn vchain_dec(b: Seq<u8>) -> Option<(nat, int)>
    decreases b.len(),
{
    if b.len() == 0 {
        None
    } else if b[0] < 0x80 {
        Some((b[0] as nat, 1))
    } else {
        match vchain_dec(b.skip(1)) {
            Some(vk) => Some(((b[0] + 0x80 * vk.0) as nat, vk.1 + 1)),
            None => None,
        }
    }
}

/// Value and consumed length of the varint at the front of `b`; `None` when
/// the bytes end inside the varint or the value does not fit in 64 bits.
pub open spec fn varint_dec(b: Seq<u8>) -> Option<(u64, int)> {
    if b.len() == 0 {
        None
    } else if b[0] < 0xF0 {
        Some((b[0] as u64, 1))
    } else {
        match vchain_dec(b.skip(1)) {
            Some(vk) => {
                if b[0] + 0x10 * vk.0 <= u64::MAX {
                    Some(((b[0] + 0x10 * vk.0) as u64, vk.1 + 1))
                } else {
                    None
                }
            },
            None => None,
        }
    }
}

/// How the length of a group chain follows from the value it encodes.
pub proof fn lemma_vtail_len(m: nat)
    ensures
        1 <= vtail(m).len(),
        vtail(m).len() == 1 <==> m < 0x80,
        vtail(m).len() == 2 <==> 0x80 <= m < 0x4080,
        vtail(m).len() == 3 <==> 0x4080 <= m < 0x204080,
        vtail(m).len() == 4 <==> 0x204080 <= m < 0x10204080,
        vtail(m).len() == 5 <==> 0x10204080 <= m < 0x810204080,
        vtail(m).len() == 6 <==> 0x810204080 <= m < 0x40810204080,
        vtail(m).len() == 7 <==> 0x40810204080 <= m < 0x2040810204080,
        vtail(m).len() == 8 <==> 0x2040810204080 <= m < 0x102040810204080,
        vtail(m).len() == 9 <==> 0x102040810204080 <= m < 0x8102040810204080,
        m < 0x10000000000000000 ==> vtail(m).len() <= 10,
    decreases m,
{
    if m >= 0x80 {
        let m2 = (m - 0x80) as nat / 0x80;
        lemma_vtail_len(m2);
        assert forall|t: nat| #[trigger] (0x80 * t) != 0 implies (m2 < t <==> m < 0x80 * t + 0x80)
        by {
            vstd::arithmetic::div_mod::lemma_fundamental_div_mod((m - 0x80) as int, 0x80);
        }
        assert(0x80 * 0x80nat == 0x4000 && 0x80 * 0x4080nat == 0x204000 && 0x80 * 0x204080nat
            == 0x10204000 && 0x80 * 0x10204080nat == 0x810204000 && 0x80 * 0x810204080nat
            == 0x40810204000 && 0x80 * 0x40810204080nat == 0x2040810204000 && 0x80
            * 0x2040810204080nat == 0x102040810204000 && 0x80 * 0x102040810204080nat
            == 0x8102040810204000 && 0x80 * 0x8102040810204080nat == 0x408102040810204000);
    }
}

/// Boundaries at which the encoded size of a value grows.
pub proof fn lemma_varint_enc_len(n: u64)
    ensures
        1 <= varint_enc(n).len() <= 10,
        varint_enc(n).len() == 1 <==> n < 0xF0,
        varint_enc(n).len() == 2 <==> 0xF0 <= n < 0x8F0,
        varint_enc(n).len() == 3 <==> 0x8F0 <= n < 0x408F0,
        varint_enc(n).len() == 4 <==> 0x408F0 <= n < 0x20408F0,
        varint_enc(n).len() == 5 <==> 0x20408F0 <= n < 0x1020408F0,
        varint_enc(n).len() == 6 <==> 0x1020408F0 <= n < 0x81020408F0,
        varint_enc(n).len() == 7 <==> 0x81020408F0 <= n < 0x4081020408F0,
        varint_enc(n).len() == 8 <==> 0x4081020408F0 <= n < 0x204081020408F0,
        varint_enc(n).len() == 9 <==> 0x204081020408F0 <= n < 0x10204081020408F0,
        varint_enc(n).len() == 10 <==> 0x10204081020408F0 <= n,
{
    if n >= 0xF0 {
        let m = (n as nat - 0xF0) as nat / 0x10;
        lemma_vtail_len(m);
        assert forall|t: nat| #[trigger] (0x10 * t) != 0 implies (m < t <==> n < 0x10 * t + 0xF0)
        by {
            vstd::arithmetic::div_mod::lemma_fundamental_div_mod((n - 0xF0) as int, 0x10);
        }
        assert(0x10 * 0x80nat == 0x800 && 0x10 * 0x4080nat == 0x40800 && 0x10 * 0x204080nat
            == 0x2040800 && 0x10 * 0x10204080nat == 0x102040800 && 0x10 * 0x810204080nat
            == 0x8102040800 && 0x10 * 0x40810204080nat == 0x408102040800 && 0x10
            * 0x2040810204080nat == 0x20408102040800 && 0x10 * 0x102040810204080nat
            == 0x1020408102040800 && 0x10 * 0x8102040810204080nat == 0x81020408102040800);
        assert(m < 0x10000000000000000);
    }
}

/// A group chain decodes back to the value it was built from, with any bytes
/// after it left untouched.
pub proof fn lemma_vchain_vtail(m: nat, rest: Seq<u8>)
    ensures
        vchain_dec(vtail(m) + rest) == Some((m, vtail(m).len() as int)),
    decreases m,
{
    if m < 0x80 {
        assert((vtail(m) + rest)[0] == m as u8);
        assert(vchain_dec(vtail(m) + rest) == Some((m, 1int)));
    } else {
        let m2 = (m - 0x80) as nat / 0x80;
        lemma_vchain_vtail(m2, rest);
        assert((vtail(m) + rest).skip(1) =~= vtail(m2) + rest);
        vstd::arithmetic::div_mod::lemma_fundamental_div_mod((m - 0x80) as int, 0x80);
        assert((vtail(m) + rest)[0] == (0x80 + m % 0x80) as u8);
        assert(0x80 + m % 0x80 + 0x80 * m2 == m);
    }
}

/// Round trip: decoding the encoding of `n` yields `n` and consumes exactly
/// the encoding, whatever follows it.
pub proof fn lemma_varint_round_trip(n: u64, rest: Seq<u8>)
    ensures
        varint_dec(varint_enc(n) + rest) == Some((n, varint_enc(n).len() as int)),
{
    if n < 0xF0 {
        assert((varint_enc(n) + rest)[0] == n as u8);
    } else {
        let m = (n as nat - 0xF0) as nat / 0x10;
        lemma_vchain_vtail(m, rest);
        assert((varint_enc(n) + rest).skip(1) =~= vtail(m) + rest);
        vstd::arithmetic::div_mod::lemma_fundamental_div_mod((n - 0xF0) as int, 0x10);
        assert((varint_enc(n) + rest)[0] == (0xF0 + n as nat % 0x10) as u8);
        assert(0xF0 + n as nat % 0x10 + 0x10 * m == n);
    }
}

/// Returns the number of bytes the encoding of `n` occupies.
pub fn size_of(n: u64) -> (r: usize)
    ensures
        r == varint_enc(n).len(),
{
    proof {
        lemma_varint_enc_len(n);
    }
    if n < 0xF0 {
        1
    } else if n < 0x8F0 {
        2
    } else if n < 0x408F0 {
        3
    } else if n < 0x20408F0 {
        4
    } else if n < 0x1020408F0 {
        5
    } else if n < 0x81020408F0 {
        6
    } else if n < 0x4081020408F0 {
        7
    } else if n < 0x204081020408F0 {
        8
    } else if n < 0x10204081020408F0 {
        9
    } else {
        10
    }
}

fn put_tail(out: &mut Vec<u8>, m: u64) -> (sz: usize)
    ensures
        final(out)@ == old(out)@ + vtail(m as nat),
        sz == vtail(m as nat).len(),
    decreases m,
{
    proof {
        lemma_vtail_len(m as nat);
    }
    if m < 0x80 {
        out.push(m as u8);
        assert(final(out)@ =~= old(out)@ + vtail(m as nat));
        1
    } else {
        out.push(0x80 + (m % 0x80) as u8);
        let sz = put_tail(out, (m - 0x80) / 0x80);
        assert(final(out)@ =~= old(out)@ + vtail(m as nat));
        1 + sz
    }
}

/// Appends the encoding of `n` to `out` and returns how many bytes it wrote.
pub fn put(out: &mut Vec<u8>, n: u64) -> (sz: usize)
    ensures
        final(out)@ == old(out)@ + varint_enc(n),
        sz == varint_enc(n).len(),
{
    proof {
        lemma_varint_enc_len(n);
    }
    if n < 0xF0 {
        out.push(n as u8);
        assert(final(out)@ =~= old(out)@ + varint_enc(n));
        1
    } else {
        out.push(0xF0 + (n % 0x10) as u8);
        let sz = put_tail(out, (n - 0xF0) / 0x10);
        assert(final(out)@ =~= old(out)@ + varint_enc(n));
        1 + sz
    }
}

fn get_tail(buf: &Vec<u8>, pos: usize) -> (r: Option<(u64, usize)>)
    requires
        pos <= buf.len(),
    ensures
        match r {
            Some(vk) => {
                &&& vchain_dec(buf@.skip(pos as int)) == Some((vk.0 as nat, vk.1 as int))
                &&& pos + vk.1 <= buf.len()
            },
            None => match vchain_dec(buf@.skip(pos as int)) {
                Some(vk) => vk.0 > u64::MAX,
                None => true,
            },
        },
        r is None ==> (vchain_dec(buf@.skip(pos as int)) matches Some(vk) ==> vk.0 > u64::MAX),
        r is Some ==> vchain_dec(buf@.skip(pos as int)) is Some,
    decreases buf.len() - pos,
{
    if pos >= buf.len() {
        return None;
    }
    let c = buf[pos];
    if c < 0x80 {
        Some((c as u64, 1))
    } else {
        assert(buf@.skip(pos as int).skip(1) =~= buf@.skip(pos as int + 1));
        match get_tail(buf, pos + 1) {
            None => None,
            Some((v, k)) => {
                if v <= (u64::MAX - c as u64) / 0x80 {
                    proof {
                        vstd::arithmetic::div_mod::lemma_fundamental_div_mod(
                            (u64::MAX - c) as int,
                            0x80,
                        );
                    }
                    Some((c as u64 + 0x80 * v, k + 1))
                } else {
                    proof {
                        vstd::arithmetic::div_mod::lemma_fundamental_div_mod(
                            (u64::MAX - c) as int,
                            0x80,
                        );
                    }
                    None
                }
            },
        }
    }
}

/// Reads the varint at `pos`; returns its value and the number of bytes it
/// occupied, or `None` when the buffer ends inside it or it overflows 64 bits.
pub fn get(buf: &Vec<u8>, pos: usize) -> (r: Option<(u64, usize)>)
    requires
        pos <= buf.len(),
    ensures
        match r {
            Some(vk) => {
                &&& varint_dec(buf@.skip(pos as int)) == Some((vk.0, vk.1 as int))
                &&& 1 <= vk.1
                &&& pos + vk.1 <= buf.len()
            },
            None => varint_dec(buf@.skip(pos as int)) is None,
        },
{
    if pos >= buf.len() {
        return None;
    }
    let c = buf[pos];
    if c < 0xF0 {
        Some((c as u64, 1))
    } else {
        assert(buf@.skip(pos as int).skip(1) =~= buf@.skip(pos as int + 1));
        match get_tail(buf, pos + 1) {
            None => None,
            Some((v, k)) => {
                if v <= (u64::MAX - c as u64) / 0x10 {
                    proof {
                        vstd::arithmetic::div_mod::lemma_fundamental_div_mod(
                            (u64::MAX - c) as int,
                            0x10,
                        );
                    }
                    Some((c as u64 + 0x10 * v, k + 1))
                } else {
                    proof {
                        vstd::arithmetic::div_mod::lemma_fundamental_div_mod(
                            (u64::MAX - c) as int,
                            0x10,
                        );
                    }
                    None
                }
            },
        }
    }
}

} // verus!
