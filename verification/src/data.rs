//! Typed data values: the tagged sum carried by SPOP key-value lists,
//! message arguments and actions, and its byte-level codec.
//!
//! The wire form prefixes one byte whose low nibble is the type tag and whose
//! high nibble carries type-specific flags; only the boolean uses a flag bit
//! (0x10 holds the value).  Integers follow as varints, addresses as raw
//! octets, strings and binaries as length-prefixed bytes.

use vstd::prelude::*;
use crate::varint;
use crate::wire;

verus! {

/// Type tags of the typed-data sum.
#[derive(Clone, Copy, Debug, PartialEq, Eq, Structural)]
pub enum Type {
    Null,
    Boolean,
    Int32,
    Uint32,
    Int64,
    Uint64,
    Ipv4,
    Ipv6,
    String,
    Binary,
}

pub open spec fn type_code(t: Type) -> u8 {
    match t {
        Type::Null => 0,
        Type::Boolean => 1,
        Type::Int32 => 2,
        Type::Uint32 => 3,
        Type::Int64 => 4,
        Type::Uint64 => 5,
        Type::Ipv4 => 6,
        Type::Ipv6 => 7,
        Type::String => 8,
        Type::Binary => 9,
    }
}

impl Type {
    /// The tag value written to the low nibble of the prefix byte.
    pub fn code(self) -> (r: u8)
        ensures
            r == type_code(self),
    {
        match self {
            Type::Null => 0,
            Type::Boolean => 1,
            Type::Int32 => 2,
            Type::Uint32 => 3,
            Type::Int64 => 4,
            Type::Uint64 => 5,
            Type::Ipv4 => 6,
            Type::Ipv6 => 7,
            Type::String => 8,
            Type::Binary => 9,
        }
    }

    /// The tag a low nibble denotes, if any.
    pub fn from_code(b: u8) -> (r: Option<Type>)
        ensures
            match r {
                Some(t) => type_code(t) == b,
                None => b > 9,
            },
    {
        match b {
            0 => Some(Type::Null),
            1 => Some(Type::Boolean),
            2 => Some(Type::Int32),
            3 => Some(Type::Uint32),
            4 => Some(Type::Int64),
            5 => Some(Type::Uint64),
            6 => Some(Type::Ipv4),
            7 => Some(Type::Ipv6),
            8 => Some(Type::String),
            9 => Some(Type::Binary),
            _ => None,
        }
    }
}

/// An IPv4 address held as its four octets.
#[derive(Clone, Copy, Debug, PartialEq, Eq)]
pub struct Ipv4 {
    pub octets: [u8; 4],
}

impl View for Ipv4 {
    type V = Seq<u8>;

    open spec fn view(&self) -> Seq<u8> {
        self.octets@
    }
}

impl Ipv4 {
    pub fn new(a: u8, b: u8, c: u8, d: u8) -> (r: Ipv4)
        ensures
            r@ == seq![a, b, c, d],
    {
        let r = Ipv4 { octets: [a, b, c, d] };
        assert(r.octets@ =~= seq![a, b, c, d]);
        r
    }
}

/// An IPv6 address held as its sixteen octets, in network order.
#[derive(Clone, Copy, Debug, PartialEq, Eq)]
pub struct Ipv6 {
    pub octets: [u8; 16],
}

impl View for Ipv6 {
    type V = Seq<u8>;

    open spec fn view(&self) -> Seq<u8> {
        self.octets@
    }
}

impl Ipv6 {
    /// Builds the address from its eight 16-bit groups, as they are written.
    pub fn new(g0: u16, g1: u16, g2: u16, g3: u16, g4: u16, g5: u16, g6: u16, g7: u16) -> (r: Ipv6)
        ensures
            r@ == seq![
                (g0 / 0x100) as u8,
                g0 as u8,
                (g1 / 0x100) as u8,
                g1 as u8,
                (g2 / 0x100) as u8,
                g2 as u8,
                (g3 / 0x100) as u8,
                g3 as u8,
                (g4 / 0x100) as u8,
                g4 as u8,
                (g5 / 0x100) as u8,
                g5 as u8,
                (g6 / 0x100) as u8,
                g6 as u8,
                (g7 / 0x100) as u8,
                g7 as u8,
            ],
    {
        let r = Ipv6 {
            octets: [
                (g0 / 0x100) as u8,
                g0 as u8,
                (g1 / 0x100) as u8,
                g1 as u8,
                (g2 / 0x100) as u8,
                g2 as u8,
                (g3 / 0x100) as u8,
                g3 as u8,
                (g4 / 0x100) as u8,
                g4 as u8,
                (g5 / 0x100) as u8,
                g5 as u8,
                (g6 / 0x100) as u8,
                g6 as u8,
                (g7 / 0x100) as u8,
                g7 as u8,
            ],
        };
        assert(r.octets@ =~= seq![
            (g0 / 0x100) as u8,
            g0 as u8,
            (g1 / 0x100) as u8,
            g1 as u8,
            (g2 / 0x100) as u8,
            g2 as u8,
            (g3 / 0x100) as u8,
            g3 as u8,
            (g4 / 0x100) as u8,
            g4 as u8,
            (g5 / 0x100) as u8,
            g5 as u8,
            (g6 / 0x100) as u8,
            g6 as u8,
            (g7 / 0x100) as u8,
            g7 as u8,
        ]);
        r
    }
}

/// A typed data value.
#[derive(Clone, Debug, PartialEq, Eq)]
pub enum Typed {
    Null,
    Boolean(bool),
    Int32(i32),
    Uint32(u32),
    Int64(i64),
    Uint64(u64),
    Ipv4(Ipv4),
    Ipv6(Ipv6),
    String(String),
    Binary(Vec<u8>),
}

/// The mathematical model of a typed value.
pub enum TypedV {
    Null,
    Boolean(bool),
    Int32(i32),
    Uint32(u32),
    Int64(i64),
    Uint64(u64),
    Ipv4(Seq<u8>),
    Ipv6(Seq<u8>),
    Str(Seq<char>),
    Binary(Seq<u8>),
}

impl View for Typed {
    type V = TypedV;

    open spec fn view(&self) -> TypedV {
        match self {
            Typed::Null => TypedV::Null,
            Typed::Boolean(b) => TypedV::Boolean(*b),
            Typed::Int32(n) => TypedV::Int32(*n),
            Typed::Uint32(n) => TypedV::Uint32(*n),
            Typed::Int64(n) => TypedV::Int64(*n),
            Typed::Uint64(n) => TypedV::Uint64(*n),
            Typed::Ipv4(a) => TypedV::Ipv4(a@),
            Typed::Ipv6(a) => TypedV::Ipv6(a@),
            Typed::String(s) => TypedV::Str(s@),
            Typed::Binary(v) => TypedV::Binary(v@),
        }
    }
}

/// Structural bounds under which a model value has a wire form: addresses
/// have their exact octet count and byte lengths fit the varint prefix.
pub open spec fn typed_valid(t: TypedV) -> bool {
    match t {
        TypedV::Ipv4(o) => o.len() == 4,
        TypedV::Ipv6(o) => o.len() == 16,
        TypedV::Str(s) => vstd::utf8::encode_utf8(s).len() <= u64::MAX,
        TypedV::Binary(v) => v.len() <= u64::MAX,
        _ => true,
    }
}

/// Wire form of a typed value.
pub open spec fn typed_enc(t: TypedV) -> Seq<u8> {
    match t {
        TypedV::Null => seq![0u8],
        TypedV::Boolean(b) => seq![if b { 0x11u8 } else { 0x01u8 }],
        TypedV::Int32(n) => seq![2u8] + varint::varint_enc(n as u64),
        TypedV::Uint32(n) => seq![3u8] + varint::varint_enc(n as u64),
        TypedV::Int64(n) => seq![4u8] + varint::varint_enc(n as u64),
        TypedV::Uint64(n) => seq![5u8] + varint::varint_enc(n),
        TypedV::Ipv4(o) => seq![6u8] + o,
        TypedV::Ipv6(o) => seq![7u8] + o,
        TypedV::Str(s) => seq![8u8] + wire::str_enc(s),
        TypedV::Binary(v) => seq![9u8] + wire::blob_enc(v),
    }
}

/// The typed value at the front of `b` and the bytes it occupies.  The low
/// nibble of the prefix byte selects the type; the high nibble is ignored
/// except for the boolean, whose 0x10 bit is the value.
pub open spec fn typed_dec(b: Seq<u8>) -> Option<(TypedV, int)> {
    if b.len() == 0 {
        None
    } else {
        let tag = b[0] as nat % 16;
        if tag == 0 {
            Some((TypedV::Null, 1))
        } else if tag == 1 {
            Some((TypedV::Boolean((b[0] as nat / 16) % 2 == 1), 1))
        } else if tag == 2 {
            match varint::varint_dec(b.skip(1)) {
                Some(nk) => Some((TypedV::Int32(nk.0 as i32), 1 + nk.1)),
                None => None,
            }
        } else if tag == 3 {
            match varint::varint_dec(b.skip(1)) {
                Some(nk) => Some((TypedV::Uint32(nk.0 as u32), 1 + nk.1)),
                None => None,
            }
        } else if tag == 4 {
            match varint::varint_dec(b.skip(1)) {
                Some(nk) => Some((TypedV::Int64(nk.0 as i64), 1 + nk.1)),
                None => None,
            }
        } else if tag == 5 {
            match varint::varint_dec(b.skip(1)) {
                Some(nk) => Some((TypedV::Uint64(nk.0), 1 + nk.1)),
                None => None,
            }
        } else if tag == 6 {
            if b.len() >= 5 {
                Some((TypedV::Ipv4(b.subrange(1, 5)), 5))
            } else {
                None
            }
        } else if tag == 7 {
            if b.len() >= 17 {
                Some((TypedV::Ipv6(b.subrange(1, 17)), 17))
            } else {
                None
            }
        } else if tag == 8 {
            match wire::str_dec(b.skip(1)) {
                Some(sk) => Some((TypedV::Str(sk.0), 1 + sk.1)),
                None => None,
            }
        } else if tag == 9 {
            match wire::blob_dec(b.skip(1)) {
                Some(vk) => Some((TypedV::Binary(vk.0), 1 + vk.1)),
                None => None,
            }
        } else {
            None
        }
    }
}

/// Round trip: decoding the encoding of a valid typed value yields that
/// value and consumes exactly its encoding.
pub proof fn lemma_typed_round_trip(t: TypedV, rest: Seq<u8>)
    requires
        typed_valid(t),
    ensures
        typed_dec(typed_enc(t) + rest) == Some((t, typed_enc(t).len() as int)),
{
    let b = typed_enc(t) + rest;
    match t {
        TypedV::Null => {
            assert(b[0] == 0u8);
        },
        TypedV::Boolean(v) => {
            assert(b[0] == if v {
                0x11u8
            } else {
                0x01u8
            });
        },
        TypedV::Int32(n) => {
            assert(b[0] == 2u8);
            varint::lemma_varint_round_trip(n as u64, rest);
            assert(b.skip(1) =~= varint::varint_enc(n as u64) + rest);
            assert((n as u64) as i32 == n) by (bit_vector);
        },
        TypedV::Uint32(n) => {
            assert(b[0] == 3u8);
            varint::lemma_varint_round_trip(n as u64, rest);
            assert(b.skip(1) =~= varint::varint_enc(n as u64) + rest);
            assert((n as u64) as u32 == n) by (bit_vector);
        },
        TypedV::Int64(n) => {
            assert(b[0] == 4u8);
            varint::lemma_varint_round_trip(n as u64, rest);
            assert(b.skip(1) =~= varint::varint_enc(n as u64) + rest);
            assert((n as u64) as i64 == n) by (bit_vector);
        },
        TypedV::Uint64(n) => {
            assert(b[0] == 5u8);
            varint::lemma_varint_round_trip(n, rest);
            assert(b.skip(1) =~= varint::varint_enc(n) + rest);
        },
        TypedV::Ipv4(o) => {
            assert(b[0] == 6u8);
            assert(b.subrange(1, 5) =~= o);
        },
        TypedV::Ipv6(o) => {
            assert(b[0] == 7u8);
            assert(b.subrange(1, 17) =~= o);
        },
        TypedV::Str(s) => {
            assert(b[0] == 8u8);
            wire::lemma_str_round_trip(s, rest);
            assert(b.skip(1) =~= wire::str_enc(s) + rest);
        },
        TypedV::Binary(v) => {
            assert(b[0] == 9u8);
            wire::lemma_blob_round_trip(v, rest);
            assert(b.skip(1) =~= wire::blob_enc(v) + rest);
        },
    }
}

impl Typed {
    /// Number of bytes of the value's wire form after the prefix byte.
    pub fn payload_size(&self) -> (r: usize)
        requires
            typed_enc(self@).len() <= usize::MAX,
        ensures
            r == typed_enc(self@).len() - 1,
    {
        match self {
            Typed::Null => 0,
            Typed::Boolean(_) => 0,
            Typed::Int32(n) => varint::size_of(*n as u64),
            Typed::Uint32(n) => varint::size_of(*n as u64),
            Typed::Int64(n) => varint::size_of(*n as u64),
            Typed::Uint64(n) => varint::size_of(*n),
            Typed::Ipv4(_) => 4,
            Typed::Ipv6(_) => 16,
            Typed::String(s) => {
                let bytes = vstd::string::StrSliceExecFns::as_bytes_vec(s.as_str());
                varint::size_of(bytes.len() as u64) + bytes.len()
            },
            Typed::Binary(v) => varint::size_of(v.len() as u64) + v.len(),
        }
    }

    /// Number of bytes of the value's full wire form.
    pub fn size(&self) -> (r: usize)
        requires
            typed_enc(self@).len() <= usize::MAX,
        ensures
            r == typed_enc(self@).len(),
    {
        1 + self.payload_size()
    }
}

/// Appends the wire form of `t` to `out`.
pub fn put_typed(out: &mut Vec<u8>, t: &Typed)
    ensures
        final(out)@ == old(out)@ + typed_enc(t@),
{
    match t {
        Typed::Null => {
            out.push(0);
        },
        Typed::Boolean(b) => {
            out.push(if *b {
                0x11
            } else {
                0x01
            });
        },
        Typed::Int32(n) => {
            out.push(2);
            varint::put(out, *n as u64);
        },
        Typed::Uint32(n) => {
            out.push(3);
            varint::put(out, *n as u64);
        },
        Typed::Int64(n) => {
            out.push(4);
            varint::put(out, *n as u64);
        },
        Typed::Uint64(n) => {
            out.push(5);
            varint::put(out, *n);
        },
        Typed::Ipv4(a) => {
            out.push(6);
            out.push(a.octets[0]);
            out.push(a.octets[1]);
            out.push(a.octets[2]);
            out.push(a.octets[3]);
        },
        Typed::Ipv6(a) => {
            out.push(7);
            let mut i: usize = 0;
            while i < 16
                invariant
                    i <= 16,
                    out@ == old(out)@ + seq![7u8] + a.octets@.subrange(0, i as int),
                decreases 16 - i,
            {
                out.push(a.octets[i]);
                i = i + 1;
                assert(out@ =~= old(out)@ + seq![7u8] + a.octets@.subrange(0, i as int));
            }
        },
        Typed::String(s) => {
            out.push(8);
            wire::put_str(out, s.as_str());
        },
        Typed::Binary(v) => {
            out.push(9);
            wire::put_blob(out, v);
        },
    }
    assert(final(out)@ =~= old(out)@ + typed_enc(t@));
}

/// Reads the typed value at `pos`; returns it and the position just after it.
pub fn get_typed(buf: &Vec<u8>, pos: usize) -> (r: Option<(Typed, usize)>)
    requires
        pos <= buf.len(),
    ensures
        match r {
            Some(tk) => {
                &&& typed_dec(buf@.skip(pos as int)) matches Some(s) && s.0 == tk.0@ && s.1 + pos
                    == tk.1
                &&& pos < tk.1 <= buf.len()
            },
            None => typed_dec(buf@.skip(pos as int)) is None,
        },
{
    if pos >= buf.len() {
        return None;
    }
    let prefix = buf[pos];
    let tag = prefix % 16;
    assert(buf@.skip(pos as int).skip(1) =~= buf@.skip(pos as int + 1));
    if tag == 0 {
        Some((Typed::Null, pos + 1))
    } else if tag == 1 {
        Some((Typed::Boolean((prefix / 16) % 2 == 1), pos + 1))
    } else if tag == 2 {
        match varint::get(buf, pos + 1) {
            Some((n, k)) => Some((Typed::Int32(n as i32), pos + 1 + k)),
            None => None,
        }
    } else if tag == 3 {
        match varint::get(buf, pos + 1) {
            Some((n, k)) => Some((Typed::Uint32(n as u32), pos + 1 + k)),
            None => None,
        }
    } else if tag == 4 {
        match varint::get(buf, pos + 1) {
            Some((n, k)) => Some((Typed::Int64(n as i64), pos + 1 + k)),
            None => None,
        }
    } else if tag == 5 {
        match varint::get(buf, pos + 1) {
            Some((n, k)) => Some((Typed::Uint64(n), pos + 1 + k)),
            None => None,
        }
    } else if tag == 6 {
        if buf.len() - pos >= 5 {
            let a = Ipv4 { octets: [buf[pos + 1], buf[pos + 2], buf[pos + 3], buf[pos + 4]] };
            assert(a.octets@ =~= buf@.skip(pos as int).subrange(1, 5));
            Some((Typed::Ipv4(a), pos + 5))
        } else {
            None
        }
    } else if tag == 7 {
        if buf.len() - pos >= 17 {
            let a = Ipv6 {
                octets: [
                    buf[pos + 1],
                    buf[pos + 2],
                    buf[pos + 3],
                    buf[pos + 4],
                    buf[pos + 5],
                    buf[pos + 6],
                    buf[pos + 7],
                    buf[pos + 8],
                    buf[pos + 9],
                    buf[pos + 10],
                    buf[pos + 11],
                    buf[pos + 12],
                    buf[pos + 13],
                    buf[pos + 14],
                    buf[pos + 15],
                    buf[pos + 16],
                ],
            };
            assert(a.octets@ =~= buf@.skip(pos as int).subrange(1, 17));
            Some((Typed::Ipv6(a), pos + 17))
        } else {
            None
        }
    } else if tag == 8 {
        match wire::get_str(buf, pos + 1) {
            Some((s, end)) => Some((Typed::String(s), end)),
            None => None,
        }
    } else if tag == 9 {
        match wire::get_blob(buf, pos + 1) {
            Some((v, end)) => Some((Typed::Binary(v), end)),
            None => None,
        }
    } else {
        None
    }
}

/// A value with a known wire size: the bytes its typed-data payload
/// occupies after the prefix byte.
pub trait Value {
    /// The payload size in the specification.
    spec fn spec_size(&self) -> nat;

    /// Number of bytes of the value's payload.
    fn size(&self) -> (r: usize)
        requires
            self.spec_size() <= usize::MAX,
        ensures
            r == self.spec_size(),
    ;
}

impl Value for bool {
    open spec fn spec_size(&self) -> nat {
        0
    }

    fn size(&self) -> (r: usize) {
        0
    }
}

impl Value for i32 {
    open spec fn spec_size(&self) -> nat {
        varint::varint_enc(*self as u64).len()
    }

    fn size(&self) -> (r: usize) {
        varint::size_of(*self as u64)
    }
}

impl Value for u32 {
    open spec fn spec_size(&self) -> nat {
        varint::varint_enc(*self as u64).len()
    }

    fn size(&self) -> (r: usize) {
        varint::size_of(*self as u64)
    }
}

impl Value for i64 {
    open spec fn spec_size(&self) -> nat {
        varint::varint_enc(*self as u64).len()
    }

    fn size(&self) -> (r: usize) {
        varint::size_of(*self as u64)
    }
}

impl Value for u64 {
    open spec fn spec_size(&self) -> nat {
        varint::varint_enc(*self).len()
    }

    fn size(&self) -> (r: usize) {
        varint::size_of(*self)
    }
}

impl Value for Ipv4 {
    open spec fn spec_size(&self) -> nat {
        4
    }

    fn size(&self) -> (r: usize) {
        4
    }
}

impl Value for Ipv6 {
    open spec fn spec_size(&self) -> nat {
        16
    }

    fn size(&self) -> (r: usize) {
        16
    }
}

impl Value for String {
    open spec fn spec_size(&self) -> nat {
        (wire::str_enc(self@).len()) as nat
    }

    fn size(&self) -> (r: usize) {
        let bytes = vstd::string::StrSliceExecFns::as_bytes_vec(self.as_str());
        varint::size_of(bytes.len() as u64) + bytes.len()
    }
}

impl Value for Vec<u8> {
    open spec fn spec_size(&self) -> nat {
        (wire::blob_enc(self@).len()) as nat
    }

    fn size(&self) -> (r: usize) {
        varint::size_of(self.len() as u64) + self.len()
    }
}

/// A named typed value, one entry of a key-value list.
#[derive(Clone, Debug, PartialEq, Eq)]
pub struct KeyValue {
    pub key: String,
    pub value: Typed,
}

impl View for KeyValue {
    type V = (Seq<char>, TypedV);

    open spec fn view(&self) -> (Seq<char>, TypedV) {
        (self.key@, self.value@)
    }
}

/// Wire form of one key-value entry.
pub open spec fn kv_enc(key: Seq<char>, v: TypedV) -> Seq<u8> {
    wire::str_enc(key) + typed_enc(v)
}

/// The entry at the front of `b` and the bytes it occupies.
pub open spec fn kv_dec(b: Seq<u8>) -> Option<((Seq<char>, TypedV), int)> {
    match wire::str_dec(b) {
        Some(sk) => match typed_dec(b.skip(sk.1)) {
            Some(tk) => Some(((sk.0, tk.0), sk.1 + tk.1)),
            None => None,
        },
        None => None,
    }
}

pub open spec fn kv_valid(key: Seq<char>, v: TypedV) -> bool {
    vstd::utf8::encode_utf8(key).len() <= u64::MAX && typed_valid(v)
}

pub proof fn lemma_kv_round_trip(key: Seq<char>, v: TypedV, rest: Seq<u8>)
    requires
        kv_valid(key, v),
    ensures
        kv_dec(kv_enc(key, v) + rest) == Some(((key, v), kv_enc(key, v).len() as int)),
        kv_enc(key, v).len() >= 2,
{
    let b = kv_enc(key, v) + rest;
    wire::lemma_str_round_trip(key, typed_enc(v) + rest);
    assert(b =~= wire::str_enc(key) + (typed_enc(v) + rest));
    lemma_typed_round_trip(v, rest);
    assert(b.skip(wire::str_enc(key).len() as int) =~= typed_enc(v) + rest);
    varint::lemma_varint_enc_len(vstd::utf8::encode_utf8(key).len() as u64);
}

/// Wire form of a whole key-value list: the entries, one after another.
pub open spec fn kvs_enc(kvs: Seq<(Seq<char>, TypedV)>) -> Seq<u8>
    decreases kvs.len(),
{
    if kvs.len() == 0 {
        Seq::empty()
    } else {
        kv_enc(kvs[0].0, kvs[0].1) + kvs_enc(kvs.skip(1))
    }
}

/// The key-value entries that fill `b` exactly; `None` when the bytes do not
/// parse as a list of entries.
pub open spec fn kvs_dec(b: Seq<u8>) -> Option<Seq<(Seq<char>, TypedV)>>
    decreases b.len(),
{
    if b.len() == 0 {
        Some(Seq::empty())
    } else {
        match kv_dec(b) {
            Some(pk) => {
                if 0 < pk.1 <= b.len() {
                    match kvs_dec(b.skip(pk.1)) {
                        Some(rest) => Some(seq![pk.0] + rest),
                        None => None,
                    }
                } else {
                    None
                }
            },
            None => None,
        }
    }
}

pub open spec fn kvs_valid(kvs: Seq<(Seq<char>, TypedV)>) -> bool {
    forall|i: int| 0 <= i < kvs.len() ==> kv_valid(#[trigger] kvs[i].0, kvs[i].1)
}

pub proof fn lemma_kvs_round_trip(kvs: Seq<(Seq<char>, TypedV)>)
    requires
        kvs_valid(kvs),
    ensures
        kvs_dec(kvs_enc(kvs)) == Some(kvs),
    decreases kvs.len(),
{
    if kvs.len() == 0 {
        assert(kvs =~= Seq::<(Seq<char>, TypedV)>::empty());
    } else {
        assert(kvs_valid(kvs.skip(1))) by {
            assert(forall|i: int|
                0 <= i < kvs.skip(1).len() ==> kvs.skip(1)[i] == #[trigger] kvs[i + 1]);
        }
        lemma_kvs_round_trip(kvs.skip(1));
        let rest = kvs_enc(kvs.skip(1));
        lemma_kv_round_trip(kvs[0].0, kvs[0].1, rest);
        let b = kvs_enc(kvs);
        let k = kv_enc(kvs[0].0, kvs[0].1).len() as int;
        assert(b.skip(k) =~= rest);
        assert((kvs[0].0, kvs[0].1) == kvs[0]);
        assert(seq![kvs[0]] + kvs.skip(1) =~= kvs);
    }
}

/// The first `n` key-value entries at the front of `b`, with the bytes they
/// occupy.
pub open spec fn kvn_dec(b: Seq<u8>, n: nat) -> Option<(Seq<(Seq<char>, TypedV)>, int)>
    decreases n,
{
    if n == 0 {
        Some((Seq::empty(), 0))
    } else {
        match kv_dec(b) {
            Some(pk) => {
                if 0 < pk.1 <= b.len() {
                    match kvn_dec(b.skip(pk.1), (n - 1) as nat) {
                        Some(rk) => Some((seq![pk.0] + rk.0, pk.1 + rk.1)),
                        None => None,
                    }
                } else {
                    None
                }
            },
            None => None,
        }
    }
}

pub proof fn lemma_kvn_round_trip(kvs: Seq<(Seq<char>, TypedV)>, rest: Seq<u8>)
    requires
        kvs_valid(kvs),
    ensures
        kvn_dec(kvs_enc(kvs) + rest, kvs.len()) == Some((kvs, kvs_enc(kvs).len() as int)),
    decreases kvs.len(),
{
    if kvs.len() == 0 {
        assert(kvs =~= Seq::<(Seq<char>, TypedV)>::empty());
        assert(kvs_enc(kvs) =~= Seq::<u8>::empty());
    } else {
        assert(kvs_valid(kvs.skip(1))) by {
            assert(forall|i: int|
                0 <= i < kvs.skip(1).len() ==> kvs.skip(1)[i] == #[trigger] kvs[i + 1]);
        }
        lemma_kvn_round_trip(kvs.skip(1), rest);
        let tail = kvs_enc(kvs.skip(1)) + rest;
        lemma_kv_round_trip(kvs[0].0, kvs[0].1, tail);
        let b = kvs_enc(kvs) + rest;
        let k = kv_enc(kvs[0].0, kvs[0].1).len() as int;
        assert(b =~= kv_enc(kvs[0].0, kvs[0].1) + tail);
        assert(b.skip(k) =~= tail);
        assert((kvs[0].0, kvs[0].1) == kvs[0]);
        assert(seq![kvs[0]] + kvs.skip(1) =~= kvs);
    }
}

/// Reads exactly `n` entries starting at `pos`.
pub fn get_kvn(buf: &Vec<u8>, pos: usize, n: u8) -> (r: Option<(Vec<(String, Typed)>, usize)>)
    requires
        pos <= buf.len(),
    ensures
        match r {
            Some(kk) => {
                &&& kvn_dec(buf@.skip(pos as int), n as nat) matches Some(s) && s.0 == kvs_view(
                    kk.0@,
                ) && s.1 + pos == kk.1
                &&& pos <= kk.1 <= buf.len()
            },
            None => kvn_dec(buf@.skip(pos as int), n as nat) is None,
        },
{
    let mut out: Vec<(String, Typed)> = Vec::new();
    let mut at = pos;
    let mut left = n;
    proof {
        if kvn_dec(buf@.skip(pos as int), n as nat) is Some {
            let s = kvn_dec(buf@.skip(pos as int), n as nat).unwrap();
            assert(kvs_view(out@) + s.0 =~= s.0);
        }
    }
    while left > 0
        invariant
            pos <= at <= buf.len(),
            kvn_dec(buf@.skip(pos as int), n as nat) == match kvn_dec(
                buf@.skip(at as int),
                left as nat,
            ) {
                Some(s) => Some((kvs_view(out@) + s.0, s.1 + at - pos)),
                None => None::<(Seq<(Seq<char>, TypedV)>, int)>,
            },
        decreases left,
    {
        let ghost remain = buf@.skip(at as int);
        match get_kv(buf, at) {
            None => {
                return None;
            },
            Some((pair, end)) => {
                proof {
                    assert(remain.skip(end - at) =~= buf@.skip(end as int));
                    let ghost pv = (pair.0@, pair.1@);
                    if kvn_dec(buf@.skip(end as int), (left - 1) as nat) is Some {
                        let s = kvn_dec(buf@.skip(end as int), (left - 1) as nat).unwrap();
                        assert(kvn_dec(remain, left as nat) == Some(
                            (seq![pv] + s.0, (end - at) + s.1),
                        ));
                        assert(kvs_view(out@) + (seq![pv] + s.0) =~= kvs_view(out@.push(pair))
                            + s.0);
                    } else {
                        assert(kvn_dec(remain, left as nat) is None);
                    }
                }
                out.push(pair);
                at = end;
                left = left - 1;
            },
        }
    }
    proof {
        assert(kvs_view(out@) + Seq::<(Seq<char>, TypedV)>::empty() =~= kvs_view(out@));
    }
    Some((out, at))
}

/// Appending an entry to an encoded list appends its encoding.
pub proof fn lemma_kvs_enc_snoc(kvs: Seq<(Seq<char>, TypedV)>, key: Seq<char>, v: TypedV)
    ensures
        kvs_enc(kvs.push((key, v))) == kvs_enc(kvs) + kv_enc(key, v),
    decreases kvs.len(),
{
    if kvs.len() == 0 {
        assert(kvs.push((key, v))[0] == (key, v));
        assert(kvs.push((key, v)).skip(1) =~= Seq::<(Seq<char>, TypedV)>::empty());
        assert(kvs_enc(Seq::<(Seq<char>, TypedV)>::empty()) =~= Seq::<u8>::empty());
        assert(kvs_enc(kvs.push((key, v))) =~= kv_enc(key, v));
        assert(kvs_enc(kvs) + kv_enc(key, v) =~= kv_enc(key, v));
    } else {
        lemma_kvs_enc_snoc(kvs.skip(1), key, v);
        assert(kvs.push((key, v)).skip(1) =~= kvs.skip(1).push((key, v)));
        assert(kvs.push((key, v))[0] == kvs[0]);
        assert(kv_enc(kvs[0].0, kvs[0].1) + (kvs_enc(kvs.skip(1)) + kv_enc(key, v)) =~= (kv_enc(
            kvs[0].0,
            kvs[0].1,
        ) + kvs_enc(kvs.skip(1))) + kv_enc(key, v));
    }
}

/// Looking a key up after one more entry was inserted.
pub proof fn lemma_kv_lookup_snoc(
    kvs: Seq<(Seq<char>, TypedV)>,
    k: Seq<char>,
    v: TypedV,
    key: Seq<char>,
)
    ensures
        kv_lookup(kvs.push((k, v)), key) == if k == key {
            Some(v)
        } else {
            kv_lookup(kvs, key)
        },
{
    assert(kvs.push((k, v)).last() == (k, v));
    assert(kvs.push((k, v)).drop_last() =~= kvs);
}

/// `lemma_kv_lookup_snoc`, stated over every key at once.
pub proof fn lemma_kv_lookup_snoc_all(kvs: Seq<(Seq<char>, TypedV)>, k: Seq<char>, v: TypedV)
    ensures
        forall|key: Seq<char>|
            #[trigger] kv_lookup(kvs.push((k, v)), key) == if k == key {
                Some(v)
            } else {
                kv_lookup(kvs, key)
            },
{
    assert forall|key: Seq<char>|
        #[trigger] kv_lookup(kvs.push((k, v)), key) == if k == key {
            Some(v)
        } else {
            kv_lookup(kvs, key)
        } by {
        lemma_kv_lookup_snoc(kvs, k, v, key);
    }
}

/// The value under `key`, the last occurrence winning, as in a map built by
/// inserting the entries in order.
pub open spec fn kv_lookup(kvs: Seq<(Seq<char>, TypedV)>, key: Seq<char>) -> Option<TypedV>
    decreases kvs.len(),
{
    if kvs.len() == 0 {
        None
    } else if kvs.last().0 == key {
        Some(kvs.last().1)
    } else {
        kv_lookup(kvs.drop_last(), key)
    }
}

/// View of an executable key-value list.
pub open spec fn kvs_view(kvs: Seq<(String, Typed)>) -> Seq<(Seq<char>, TypedV)> {
    kvs.map(|i: int, p: (String, Typed)| (p.0@, p.1@))
}

/// Appends one entry's wire form to `out`.
pub fn put_kv(out: &mut Vec<u8>, key: &str, value: &Typed)
    ensures
        final(out)@ == old(out)@ + kv_enc(key@, value@),
{
    wire::put_str(out, key);
    put_typed(out, value);
    assert(final(out)@ =~= old(out)@ + kv_enc(key@, value@));
}

/// Reads the entry at `pos`; returns it and the position just after it.
pub fn get_kv(buf: &Vec<u8>, pos: usize) -> (r: Option<((String, Typed), usize)>)
    requires
        pos <= buf.len(),
    ensures
        match r {
            Some(pk) => {
                &&& kv_dec(buf@.skip(pos as int)) matches Some(s) && s.0 == ((pk.0).0@, (pk.0).1@)
                    && s.1 + pos == pk.1
                &&& pos < pk.1 <= buf.len()
            },
            None => kv_dec(buf@.skip(pos as int)) is None,
        },
{
    match wire::get_str(buf, pos) {
        None => None,
        Some((key, mid)) => {
            assert(buf@.skip(pos as int).skip(mid - pos) =~= buf@.skip(mid as int));
            match get_typed(buf, mid) {
                None => None,
                Some((value, end)) => Some(((key, value), end)),
            }
        },
    }
}

/// Reads entries from `pos` to the end of the buffer.
pub fn get_kvs(buf: &Vec<u8>, pos: usize) -> (r: Option<Vec<(String, Typed)>>)
    requires
        pos <= buf.len(),
    ensures
        match r {
            Some(kvs) => kvs_dec(buf@.skip(pos as int)) == Some(kvs_view(kvs@)),
            None => kvs_dec(buf@.skip(pos as int)) is None,
        },
{
    let mut out: Vec<(String, Typed)> = Vec::new();
    let mut at = pos;
    proof {
        if kvs_dec(buf@.skip(pos as int)) is Some {
            assert(kvs_view(out@) + kvs_dec(buf@.skip(pos as int)).unwrap() =~= kvs_dec(
                buf@.skip(pos as int),
            ).unwrap());
        }
    }
    while at < buf.len()
        invariant
            pos <= at <= buf.len(),
            kvs_dec(buf@.skip(pos as int)) == match kvs_dec(buf@.skip(at as int)) {
                Some(rest) => Some(kvs_view(out@) + rest),
                None => None::<Seq<(Seq<char>, TypedV)>>,
            },
        decreases buf.len() - at,
    {
        let ghost remain = buf@.skip(at as int);
        match get_kv(buf, at) {
            None => {
                return None;
            },
            Some((pair, end)) => {
                proof {
                    assert(remain.skip(end - at) =~= buf@.skip(end as int));
                    let ghost pv = (pair.0@, pair.1@);
                    if kvs_dec(buf@.skip(end as int)) is Some {
                        let rest = kvs_dec(buf@.skip(end as int)).unwrap();
                        assert(kvs_dec(remain) == Some(seq![pv] + rest));
                        assert(kvs_view(out@) + (seq![pv] + rest) =~= kvs_view(out@.push(pair))
                            + rest);
                    } else {
                        assert(kvs_dec(remain) is None);
                    }
                }
                out.push(pair);
                at = end;
            },
        }
    }
    proof {
        assert(buf@.skip(buf@.len() as int) =~= Seq::<u8>::empty());
        assert(kvs_view(out@) + Seq::<(Seq<char>, TypedV)>::empty() =~= kvs_view(out@));
    }
    Some(out)
}

/// Finds the entry `kv_lookup` selects: the last whose key is `key`.
pub fn kv_find(kvs: &Vec<(String, Typed)>, key: &str) -> (r: Option<usize>)
    ensures
        match r {
            Some(i) => i < kvs.len() && kvs@[i as int].0@ == key@ && kv_lookup(
                kvs_view(kvs@),
                key@,
            ) == Some(kvs@[i as int].1@),
            None => kv_lookup(kvs_view(kvs@), key@) is None,
        },
{
    let mut i = kvs.len();
    assert(kvs_view(kvs@).subrange(0, kvs@.len() as int) =~= kvs_view(kvs@));
    while i > 0
        invariant
            i <= kvs.len(),
            kv_lookup(kvs_view(kvs@), key@) == kv_lookup(
                kvs_view(kvs@).subrange(0, i as int),
                key@,
            ),
        decreases i,
    {
        i = i - 1;
        let ghost pre = kvs_view(kvs@).subrange(0, i + 1);
        assert(pre.last() == (kvs@[i as int].0@, kvs@[i as int].1@));
        assert(pre.drop_last() =~= kvs_view(kvs@).subrange(0, i as int));
        let eq = crate::chars::token_eq_string(&kvs[i].0, key);
        if eq {
            return Some(i);
        }
    }
    assert(kvs_view(kvs@).subrange(0, 0) =~= Seq::<(Seq<char>, TypedV)>::empty());
    None
}

} // verus!
