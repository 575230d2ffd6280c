//! Protocol capabilities, exchanged as a comma-separated list inside Hello
//! frames.

use vstd::prelude::*;
use crate::chars;

verus! {

/// A negotiable protocol option.
#[derive(Clone, Copy, Debug, PartialEq, Eq, Hash, Structural)]
pub enum Capability {
    /// The peer accepts payloads split over several frames.
    Fragmentation,
    /// The peer decouples NOTIFY and ACK frames.
    Pipelining,
    /// The peer accepts ACK frames on any established connection.
    Async,
}

/// The name under which a capability appears on the wire.
pub open spec fn cap_chars(c: Capability) -> Seq<char> {
    match c {
        Capability::Fragmentation => "fragmentation"@,
        Capability::Pipelining => "pipelining"@,
        Capability::Async => "async"@,
    }
}

/// The capability a trimmed token denotes.
pub open spec fn parse_cap(t: Seq<char>) -> Option<Capability> {
    if t == "fragmentation"@ {
        Some(Capability::Fragmentation)
    } else if t == "pipelining"@ {
        Some(Capability::Pipelining)
    } else if t == "async"@ {
        Some(Capability::Async)
    } else {
        None
    }
}

impl Capability {
    /// The capability's wire name.
    pub fn name(&self) -> (r: &'static str)
        ensures
            r@ == cap_chars(*self),
    {
        match self {
            Capability::Fragmentation => "fragmentation",
            Capability::Pipelining => "pipelining",
            Capability::Async => "async",
        }
    }
}

/// The text form of a capability list, comma separated; an empty list is the
/// empty string.
pub open spec fn render_caps(cs: Seq<Capability>) -> Seq<char> {
    chars::join_comma(cs.map(|i: int, c: Capability| cap_chars(c)))
}

pub open spec fn parse_cap_tokens(ts: Seq<Seq<char>>) -> Option<Seq<Capability>>
    decreases ts.len(),
{
    if ts.len() == 0 {
        Some(Seq::empty())
    } else {
        match (parse_cap(chars::trim(ts[0])), parse_cap_tokens(ts.skip(1))) {
            (Some(c), Some(rest)) => Some(seq![c] + rest),
            _ => None,
        }
    }
}

/// The capabilities a comma-separated list denotes, each token trimmed; a
/// blank string denotes no capabilities, and an unknown name is an error.
pub open spec fn parse_caps(s: Seq<char>) -> Option<Seq<Capability>> {
    if chars::trim(s).len() == 0 {
        Some(Seq::empty())
    } else {
        parse_cap_tokens(chars::split_comma(s))
    }
}

/// No character of a capability name is a comma or whitespace.
pub proof fn lemma_cap_chars_plain(c: Capability)
    ensures
        forall|j: int|
            0 <= j < cap_chars(c).len() ==> #[trigger] cap_chars(c)[j] != ',' && !chars::is_space(
                cap_chars(c)[j],
            ),
        cap_chars(c).len() > 0,
{
    reveal_strlit("fragmentation");
    reveal_strlit("pipelining");
    reveal_strlit("async");
    let s = cap_chars(c);
    assert forall|j: int|
        0 <= j < s.len() implies #[trigger] s[j] != ',' && !chars::is_space(s[j]) by {
        assert(s[j] == s.index(j));
    }
}

/// A capability name parses back to that capability.
pub proof fn lemma_cap_round_trip(c: Capability)
    ensures
        parse_cap(cap_chars(c)) == Some(c),
{
    reveal_strlit("fragmentation");
    reveal_strlit("pipelining");
    reveal_strlit("async");
    assert("fragmentation"@.len() == 13 && "pipelining"@.len() == 10 && "async"@.len() == 5);
}

/// A rendered capability list parses back to itself.
pub proof fn lemma_caps_round_trip(cs: Seq<Capability>)
    ensures
        parse_caps(render_caps(cs)) == Some(cs),
{
    let parts = cs.map(|i: int, c: Capability| cap_chars(c));
    let s = render_caps(cs);
    if cs.len() == 0 {
        assert(s =~= Seq::<char>::empty());
        assert(chars::trim(s).len() == 0) by {
            chars::lemma_trim_range(s);
        }
        assert(cs =~= Seq::<Capability>::empty());
    } else {
        assert forall|k: int, j: int|
            0 <= k < parts.len() && 0 <= j < parts[k].len() implies #[trigger] parts[k][j]
            != ',' by {
            lemma_cap_chars_plain(cs[k]);
        }
        chars::lemma_split_join_comma(parts);
        assert(chars::trim(s).len() > 0) by {
            lemma_cap_chars_plain(cs[0]);
            assert(parts[0] == cap_chars(cs[0]));
            chars::lemma_join_comma_first(parts);
            assert(s[0] == cap_chars(cs[0])[0]);
            assert(!chars::is_space(s[0]));
            chars::lemma_head_spaces(s);
            chars::lemma_tail_spaces(s);
            chars::lemma_trim_range(s);
            assert(chars::head_spaces(s) == 0);
            assert(chars::trim(s) == s.subrange(0, s.len() - chars::tail_spaces(s)));
            assert(0 <= s.len() - chars::tail_spaces(s) <= s.len());
        }
        lemma_parse_cap_tokens(cs);
    }
}

proof fn lemma_parse_cap_tokens(cs: Seq<Capability>)
    ensures
        parse_cap_tokens(cs.map(|i: int, c: Capability| cap_chars(c))) == Some(cs),
    decreases cs.len(),
{
    let parts = cs.map(|i: int, c: Capability| cap_chars(c));
    if cs.len() == 0 {
        assert(parse_cap_tokens(parts) == Some(Seq::<Capability>::empty()));
        assert(Seq::<Capability>::empty() =~= cs);
    } else {
        lemma_parse_cap_tokens(cs.skip(1));
        assert(parts.skip(1) =~= cs.skip(1).map(|i: int, c: Capability| cap_chars(c)));
        lemma_cap_chars_plain(cs[0]);
        chars::lemma_trim_id(cap_chars(cs[0]));
        lemma_cap_round_trip(cs[0]);
        assert(parts[0] == cap_chars(cs[0]));
        assert(seq![cs[0]] + cs.skip(1) =~= cs);
    }
}

fn parse_cap_range(v: &Vec<char>, lo: usize, hi: usize) -> (r: Option<Capability>)
    requires
        lo <= hi <= v.len(),
    ensures
        r == parse_cap(v@.subrange(lo as int, hi as int)),
{
    if chars::token_eq(v, lo, hi, "fragmentation") {
        Some(Capability::Fragmentation)
    } else if chars::token_eq(v, lo, hi, "pipelining") {
        Some(Capability::Pipelining)
    } else if chars::token_eq(v, lo, hi, "async") {
        Some(Capability::Async)
    } else {
        None
    }
}

/// Parses a comma-separated capability list.
pub fn parse_caps_str(s: &str) -> (r: Option<Vec<Capability>>)
    ensures
        match r {
            Some(cs) => parse_caps(s@) == Some(cs@),
            None => parse_caps(s@) is None,
        },
{
    let cs = chars::str_chars(s);
    let n = cs.len();
    let (wa, wb) = chars::trim_range(&cs, 0, n);
    assert(cs@.subrange(0, n as int) =~= s@);
    if wa == wb {
        let out: Vec<Capability> = Vec::new();
        assert(out@ =~= Seq::<Capability>::empty());
        return Some(out);
    }
    let mut out: Vec<Capability> = Vec::new();
    let mut start: usize = 0;
    proof {
        assert(cs@.skip(0) =~= s@);
        if parse_cap_tokens(chars::split_comma(s@)) is Some {
            assert(out@ + parse_cap_tokens(chars::split_comma(s@)).unwrap() =~= parse_cap_tokens(
                chars::split_comma(s@),
            ).unwrap());
        }
    }
    loop
        invariant
            start <= n == cs.len(),
            cs@ == s@,
            chars::trim(s@).len() != 0,
            parse_caps(s@) == match parse_cap_tokens(chars::split_comma(cs@.skip(start as int))) {
                Some(rest) => Some(out@ + rest),
                None => None::<Seq<Capability>>,
            },
        decreases n - start + 1,
    {
        let ghost remain = cs@.skip(start as int);
        let mut c = start;
        while c < n && cs[c] != ','
            invariant
                start <= c <= n == cs.len(),
                remain == cs@.skip(start as int),
                forall|j: int| 0 <= j < c - start ==> #[trigger] remain[j] != ',',
            decreases n - c,
        {
            c = c + 1;
        }
        let (a, b) = chars::trim_range(&cs, start, c);
        assert(cs@.subrange(start as int, c as int) =~= remain.take(c - start));
        let cap = parse_cap_range(&cs, a, b);
        let ghost tok = remain.take(c - start);
        if c < n {
            assert(remain[c - start] == ',');
            proof {
                chars::lemma_split_comma_step(remain, c - start);
                assert(remain.skip(c - start + 1) =~= cs@.skip(c + 1 as int));
                let stail = chars::split_comma(cs@.skip(c + 1 as int));
                assert((seq![tok] + stail)[0] == tok);
                assert((seq![tok] + stail).skip(1) =~= stail);
            }
            match cap {
                None => {
                    assert(parse_cap_tokens(chars::split_comma(remain)) is None);
                    return None;
                },
                Some(vv) => {
                    proof {
                        let ghost old_out = out@;
                        let tnew = parse_cap_tokens(chars::split_comma(cs@.skip(c + 1 as int)));
                        if tnew is Some {
                            assert(parse_cap_tokens(chars::split_comma(remain)) == Some(
                                seq![vv] + tnew.unwrap(),
                            ));
                            assert(old_out + (seq![vv] + tnew.unwrap()) =~= old_out.push(vv)
                                + tnew.unwrap());
                        } else {
                            assert(parse_cap_tokens(chars::split_comma(remain)) is None);
                        }
                    }
                    out.push(vv);
                },
            }
            start = c + 1;
        } else {
            proof {
                chars::lemma_split_comma_whole(remain);
                assert(seq![tok][0] == tok);
                assert(remain.take(c - start) =~= remain);
                assert(seq![tok].skip(1) =~= Seq::<Seq<char>>::empty());
                assert(parse_cap_tokens(Seq::<Seq<char>>::empty()) == Some(
                    Seq::<Capability>::empty(),
                ));
            }
            match cap {
                None => {
                    assert(parse_cap_tokens(chars::split_comma(remain)) is None);
                    return None;
                },
                Some(vv) => {
                    proof {
                        assert(parse_cap_tokens(chars::split_comma(remain)) == Some(
                            seq![vv] + Seq::<Capability>::empty(),
                        ));
                        assert(out@ + (seq![vv] + Seq::<Capability>::empty()) =~= out@.push(vv));
                    }
                    out.push(vv);
                    return Some(out);
                },
            }
        }
    }
}

/// The text form of a comma-separated capability list.
pub fn render_caps_string(cs: &Vec<Capability>) -> (r: String)
    ensures
        r@ == render_caps(cs@),
{
    let mut s = String::new();
    let mut i: usize = 0;
    while i < cs.len()
        invariant
            i <= cs.len(),
            s@ == render_caps(cs@.take(i as int)),
        decreases cs.len() - i,
    {
        if i > 0 {
            chars::push_char(&mut s, ',');
        }
        vstd::string::StringExecFns::append(&mut s, cs[i].name());
        proof {
            let parts = cs@.take(i as int).map(|k: int, c: Capability| cap_chars(c));
            chars::lemma_join_comma_snoc(parts, cap_chars(cs@[i as int]));
            assert(cs@.take(i + 1).map(|k: int, c: Capability| cap_chars(c)) =~= parts.push(
                cap_chars(cs@[i as int]),
            ));
        }
        i = i + 1;
    }
    assert(cs@.take(cs@.len() as int) =~= cs@);
    s
}

/// Whether `cap` occurs in `cs`.
pub fn caps_contain(cs: &Vec<Capability>, cap: Capability) -> (r: bool)
    ensures
        r == cs@.contains(cap),
{
    let mut i: usize = 0;
    while i < cs.len()
        invariant
            i <= cs.len(),
            forall|j: int| 0 <= j < i ==> cs@[j] != cap,
        decreases cs.len() - i,
    {
        if cs[i] == cap {
            return true;
        }
        i = i + 1;
    }
    false
}

} // verus!
