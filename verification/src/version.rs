//! SPOP protocol versions, rendered as `"major.minor"` and exchanged in
//! comma-separated lists inside Hello frames.

use vstd::prelude::*;
use crate::chars;

verus! {

/// A protocol version.
#[derive(Clone, Copy, Debug, PartialEq, Eq, Hash, Structural)]
pub struct Version {
    pub major: u8,
    pub minor: u8,
}

impl Version {
    /// Creates a version from its two components.
    pub fn new(major: u8, minor: u8) -> (r: Version)
        ensures
            r == (Version { major, minor }),
    {
        Version { major, minor }
    }

    /// The one version currently defined by the protocol.
    pub fn v2_0() -> (r: Version)
        ensures
            r == (Version { major: 2u8, minor: 0u8 }),
    {
        Version { major: 2, minor: 0 }
    }

    /// Whether `self` is no newer than `other`, ordering by major then minor.
    pub fn le(&self, other: &Version) -> (r: bool)
        ensures
            r == version_le(*self, *other),
    {
        self.major < other.major || (self.major == other.major && self.minor <= other.minor)
    }
}

/// Order on versions: by major, then minor.
pub open spec fn version_le(a: Version, b: Version) -> bool {
    a.major < b.major || (a.major == b.major && a.minor <= b.minor)
}

/// The text form of a version.
pub open spec fn render_version(v: Version) -> Seq<char> {
    chars::dec_chars(v.major as nat) + seq!['.'] + chars::dec_chars(v.minor as nat)
}

/// The version a token denotes: decimal digits, a dot, decimal digits, with
/// both numbers at most 255.
pub open spec fn parse_version(s: Seq<char>) -> Option<Version> {
    let i = chars::find_char(s, '.');
    if i < 0 {
        None
    } else {
        match (chars::parse_dec(s.take(i)), chars::parse_dec(s.skip(i + 1))) {
            (Some(ma), Some(mi)) => {
                if ma <= 255 && mi <= 255 {
                    Some(Version { major: ma as u8, minor: mi as u8 })
                } else {
                    None
                }
            },
            _ => None,
        }
    }
}

/// The text form of a version list, comma separated.
pub open spec fn render_versions(vs: Seq<Version>) -> Seq<char> {
    chars::join_comma(vs.map(|i: int, v: Version| render_version(v)))
}

pub open spec fn parse_version_tokens(ts: Seq<Seq<char>>) -> Option<Seq<Version>>
    decreases ts.len(),
{
    if ts.len() == 0 {
        Some(Seq::empty())
    } else {
        match (parse_version(chars::trim(ts[0])), parse_version_tokens(ts.skip(1))) {
            (Some(v), Some(rest)) => Some(seq![v] + rest),
            _ => None,
        }
    }
}

/// The versions a comma-separated list denotes, each token trimmed of
/// surrounding whitespace; `None` when any token is malformed.
pub open spec fn parse_versions(s: Seq<char>) -> Option<Seq<Version>> {
    parse_version_tokens(chars::split_comma(s))
}

/// No character of a rendered version is a comma or whitespace.
pub proof fn lemma_render_version_plain(v: Version)
    ensures
        forall|j: int|
            0 <= j < render_version(v).len() ==> #[trigger] render_version(v)[j] != ','
                && !chars::is_space(render_version(v)[j]),
        render_version(v).len() > 0,
{
    chars::lemma_dec_chars_val(v.major as nat);
    chars::lemma_dec_chars_val(v.minor as nat);
    let s = render_version(v);
    let ma = chars::dec_chars(v.major as nat);
    let mi = chars::dec_chars(v.minor as nat);
    assert(',' as u32 == 44 && '.' as u32 == 46 && ' ' as u32 == 32 && '\t' as u32 == 9);
    assert forall|j: int|
        0 <= j < s.len() implies #[trigger] s[j] != ',' && !chars::is_space(s[j]) by {
        if j < ma.len() {
            assert(s[j] == ma[j]);
            assert(chars::is_digit(ma[j]));
        } else if j == ma.len() {
            assert(s[j] == '.');
        } else {
            assert(s[j] == mi[j - ma.len() - 1]);
            assert(chars::is_digit(mi[j - ma.len() - 1]));
        }
    }
}

/// A rendered version parses back to itself.
pub proof fn lemma_version_round_trip(v: Version)
    ensures
        parse_version(render_version(v)) == Some(v),
{
    chars::lemma_dec_chars_val(v.major as nat);
    chars::lemma_dec_chars_val(v.minor as nat);
    let s = render_version(v);
    let ma = chars::dec_chars(v.major as nat);
    let mi = chars::dec_chars(v.minor as nat);
    assert(',' as u32 == 44 && '.' as u32 == 46);
    chars::lemma_find_char(s, '.');
    let i = chars::find_char(s, '.');
    assert(s[ma.len() as int] == '.');
    assert(i != -1);
    assert(i >= ma.len()) by {
        if 0 <= i < ma.len() {
            assert(s[i] == ma[i]);
            assert(chars::is_digit(ma[i]));
        }
    }
    assert(i == ma.len());
    assert(s.take(i) =~= ma);
    assert(s.skip(i + 1) =~= mi);
}

/// A rendered version list parses back to itself.
pub proof fn lemma_versions_round_trip(vs: Seq<Version>)
    requires
        vs.len() >= 1,
    ensures
        parse_versions(render_versions(vs)) == Some(vs),
{
    let parts = vs.map(|i: int, v: Version| render_version(v));
    assert forall|k: int, j: int|
        0 <= k < parts.len() && 0 <= j < parts[k].len() implies #[trigger] parts[k][j] != ',' by {
        lemma_render_version_plain(vs[k]);
    }
    chars::lemma_split_join_comma(parts);
    lemma_parse_version_tokens(vs);
}

proof fn lemma_parse_version_tokens(vs: Seq<Version>)
    ensures
        parse_version_tokens(vs.map(|i: int, v: Version| render_version(v))) == Some(vs),
    decreases vs.len(),
{
    let parts = vs.map(|i: int, v: Version| render_version(v));
    if vs.len() == 0 {
        assert(parse_version_tokens(parts) == Some(Seq::<Version>::empty()));
        assert(Seq::<Version>::empty() =~= vs);
    } else {
        lemma_parse_version_tokens(vs.skip(1));
        assert(parts.skip(1) =~= vs.skip(1).map(|i: int, v: Version| render_version(v)));
        lemma_render_version_plain(vs[0]);
        chars::lemma_trim_id(render_version(vs[0]));
        lemma_version_round_trip(vs[0]);
        assert(parts[0] == render_version(vs[0]));
        assert(seq![vs[0]] + vs.skip(1) =~= vs);
    }
}

/// Parses the characters in `[lo, hi)` as one version.
pub fn parse_version_range(v: &Vec<char>, lo: usize, hi: usize) -> (r: Option<Version>)
    requires
        lo <= hi <= v.len(),
    ensures
        r == parse_version(v@.subrange(lo as int, hi as int)),
{
    let ghost s = v@.subrange(lo as int, hi as int);
    proof {
        chars::lemma_find_char(s, '.');
    }
    let mut c = lo;
    while c < hi && v[c] != '.'
        invariant
            lo <= c <= hi <= v.len(),
            s == v@.subrange(lo as int, hi as int),
            forall|j: int| 0 <= j < c - lo ==> #[trigger] s[j] != '.',
        decreases hi - c,
    {
        c = c + 1;
    }
    if c == hi {
        assert(chars::find_char(s, '.') == -1) by {
            if chars::find_char(s, '.') != -1 {
                assert(s[chars::find_char(s, '.')] == '.');
            }
        }
        return None;
    }
    assert(s[c - lo] == '.');
    assert(chars::find_char(s, '.') == c - lo);
    let major = chars::parse_u8_range(v, lo, c);
    let minor = chars::parse_u8_range(v, c + 1, hi);
    assert(s.take(c - lo) =~= v@.subrange(lo as int, c as int));
    assert(s.skip(c - lo + 1) =~= v@.subrange(c + 1 as int, hi as int));
    match (major, minor) {
        (Some(ma), Some(mi)) => Some(Version { major: ma, minor: mi }),
        _ => None,
    }
}

/// Parses a comma-separated version list.
pub fn parse_versions_str(s: &str) -> (r: Option<Vec<Version>>)
    ensures
        match r {
            Some(vs) => parse_versions(s@) == Some(vs@),
            None => parse_versions(s@) is None,
        },
{
    let cs = chars::str_chars(s);
    let n = cs.len();
    let mut out: Vec<Version> = Vec::new();
    let mut start: usize = 0;
    proof {
        assert(cs@.skip(0) =~= s@);
        if parse_version_tokens(chars::split_comma(s@)) is Some {
            assert(out@ + parse_version_tokens(chars::split_comma(s@)).unwrap()
                =~= parse_version_tokens(chars::split_comma(s@)).unwrap());
        }
    }
    loop
        invariant
            start <= n == cs.len(),
            cs@ == s@,
            parse_versions(s@) == match parse_version_tokens(
                chars::split_comma(cs@.skip(start as int)),
            ) {
                Some(rest) => Some(out@ + rest),
                None => None::<Seq<Version>>,
            },
        decreases n - start + 1,
    {
        let ghost remain = cs@.skip(start as int);
        let mut c = start;
        while c < n && cs[c] != ','
            invariant
                start <= c <= n == cs.len(),
                remain == cs@.skip(start as int),
                forall|j: int| 0 <= j < c - start ==> #[trigger] remain[j] != ',',
            decreases n - c,
        {
            c = c + 1;
        }
        let (a, b) = chars::trim_range(&cs, start, c);
        assert(cs@.subrange(start as int, c as int) =~= remain.take(c - start));
        let ver = parse_version_range(&cs, a, b);
        let ghost tok = remain.take(c - start);
        if c < n {
            assert(remain[c - start] == ',');
            proof {
                chars::lemma_split_comma_step(remain, c - start);
                assert(remain.skip(c - start + 1) =~= cs@.skip(c + 1 as int));
                let stail = chars::split_comma(cs@.skip(c + 1 as int));
                assert((seq![tok] + stail)[0] == tok);
                assert((seq![tok] + stail).skip(1) =~= stail);
            }
            match ver {
                None => {
                    assert(parse_version_tokens(chars::split_comma(remain)) is None);
                    return None;
                },
                Some(vv) => {
                    proof {
                        let ghost old_out = out@;
                        let tnew = parse_version_tokens(
                            chars::split_comma(cs@.skip(c + 1 as int)),
                        );
                        if tnew is Some {
                            assert(parse_version_tokens(chars::split_comma(remain)) == Some(
                                seq![vv] + tnew.unwrap(),
                            ));
                            assert(old_out + (seq![vv] + tnew.unwrap()) =~= old_out.push(vv)
                                + tnew.unwrap());
                        } else {
                            assert(parse_version_tokens(chars::split_comma(remain)) is None);
                        }
                    }
                    out.push(vv);
                },
            }
            start = c + 1;
        } else {
            proof {
                chars::lemma_split_comma_whole(remain);
                assert(seq![tok][0] == tok);
                assert(remain.take(c - start) =~= remain);
                assert(seq![tok].skip(1) =~= Seq::<Seq<char>>::empty());
                assert(parse_version_tokens(Seq::<Seq<char>>::empty()) == Some(
                    Seq::<Version>::empty(),
                ));
            }
            match ver {
                None => {
                    assert(parse_version_tokens(chars::split_comma(remain)) is None);
                    return None;
                },
                Some(vv) => {
                    proof {
                        assert(parse_version_tokens(chars::split_comma(remain)) == Some(
                            seq![vv] + Seq::<Version>::empty(),
                        ));
                        assert(out@ + (seq![vv] + Seq::<Version>::empty()) =~= out@.push(vv));
                    }
                    out.push(vv);
                    return Some(out);
                },
            }
        }
    }
}

/// Appends the text form of `ver` to `s`.
pub fn render_version_into(s: &mut String, ver: &Version)
    ensures
        final(s)@ == old(s)@ + render_version(*ver),
{
    chars::push_dec(s, ver.major);
    chars::push_char(s, '.');
    chars::push_dec(s, ver.minor);
    assert(final(s)@ =~= old(s)@ + render_version(*ver));
}

/// The text form of a comma-separated version list.
pub fn render_versions_string(vs: &Vec<Version>) -> (r: String)
    ensures
        r@ == render_versions(vs@),
{
    let mut s = String::new();
    let mut i: usize = 0;
    while i < vs.len()
        invariant
            i <= vs.len(),
            s@ == render_versions(vs@.take(i as int)),
        decreases vs.len() - i,
    {
        if i > 0 {
            chars::push_char(&mut s, ',');
        }
        render_version_into(&mut s, &vs[i]);
        proof {
            let parts = vs@.take(i as int).map(|k: int, v: Version| render_version(v));
            chars::lemma_join_comma_snoc(parts, render_version(vs@[i as int]));
            assert(vs@.take(i + 1).map(|k: int, v: Version| render_version(v)) =~= parts.push(
                render_version(vs@[i as int]),
            ));
        }
        i = i + 1;
    }
    assert(vs@.take(vs@.len() as int) =~= vs@);
    s
}

} // verus!
