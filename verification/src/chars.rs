//! Character-level helpers for the textual values inside Hello frames:
//! decimal numbers, whitespace trimming, and token comparison.

use vstd::prelude::*;

verus! {

pub open spec fn is_space(c: char) -> bool {
    c == ' ' || c == '\t'
}

pub open spec fn is_digit(c: char) -> bool {
    48 <= c as u32 <= 57
}

pub open spec fn digit_val(c: char) -> nat
    recommends
        is_digit(c),
{
    ((c as u32) - 48) as nat
}

pub open spec fn digit_char(d: nat) -> char
    recommends
        d < 10,
{
    if d == 0 {
        '0'
    } else if d == 1 {
        '1'
    } else if d == 2 {
        '2'
    } else if d == 3 {
        '3'
    } else if d == 4 {
        '4'
    } else if d == 5 {
        '5'
    } else if d == 6 {
        '6'
    } else if d == 7 {
        '7'
    } else if d == 8 {
        '8'
    } else {
        '9'
    }
}

/// Decimal rendering of `n`, most significant digit first.
pub open spec fn dec_chars(n: nat) -> Seq<char>
    decreases n,
{
    if n < 10 {
        seq![digit_char(n)]
    } else {
        dec_chars(n / 10) + seq![digit_char(n % 10)]
    }
}

/// Value of a digit string.
pub open spec fn dec_val(s: Seq<char>) -> nat
    decreases s.len(),
{
    if s.len() == 0 {
        0
    } else {
        dec_val(s.drop_last()) * 10 + digit_val(s.last())
    }
}

pub open spec fn all_digits(s: Seq<char>) -> bool {
    forall|i: int| 0 <= i < s.len() ==> is_digit(#[trigger] s[i])
}

/// A nonempty all-digit string and its value; `None` otherwise.
pub open spec fn parse_dec(s: Seq<char>) -> Option<nat> {
    if s.len() > 0 && all_digits(s) {
        Some(dec_val(s))
    } else {
        None
    }
}

/// The rendering of a number is nonempty, all digits, and parses back to it.
pub proof fn lemma_dec_chars_val(n: nat)
    ensures
        dec_chars(n).len() >= 1,
        all_digits(dec_chars(n)),
        dec_val(dec_chars(n)) == n,
        parse_dec(dec_chars(n)) == Some(n),
    decreases n,
{
    assert('0' as u32 == 48 && '1' as u32 == 49 && '2' as u32 == 50 && '3' as u32 == 51
        && '4' as u32 == 52 && '5' as u32 == 53 && '6' as u32 == 54 && '7' as u32 == 55
        && '8' as u32 == 56 && '9' as u32 == 57);
    assert(dec_val(Seq::<char>::empty()) == 0);
    if n < 10 {
        let s = dec_chars(n);
        assert(s.len() == 1 && s.last() == digit_char(n));
        assert(s.drop_last() =~= Seq::<char>::empty());
        assert(digit_val(digit_char(n)) == n);
        assert(dec_val(s) == dec_val(s.drop_last()) * 10 + digit_val(s.last()));
        assert(dec_val(s) == n);
        assert(is_digit(digit_char(n)));
    } else {
        lemma_dec_chars_val(n / 10);
        let s = dec_chars(n);
        assert(s.drop_last() =~= dec_chars(n / 10));
        assert(s.last() == digit_char(n % 10));
        assert(digit_val(digit_char(n % 10)) == n % 10);
        vstd::arithmetic::div_mod::lemma_fundamental_div_mod(n as int, 10);
        assert(dec_val(s) == dec_val(s.drop_last()) * 10 + digit_val(s.last()));
        assert(dec_val(s) == n);
        assert forall|i: int| 0 <= i < s.len() implies is_digit(#[trigger] s[i]) by {
            if i < s.len() - 1 {
                assert(s[i] == dec_chars(n / 10)[i]);
            } else {
                assert(s[i] == digit_char(n % 10));
            }
        }
    }
}

/// A rendered number is ASCII, and one of up to three digits below 1000.
pub proof fn lemma_dec_chars_ascii(n: nat)
    ensures
        vstd::utf8::is_ascii_chars(dec_chars(n)),
        n < 10 ==> dec_chars(n).len() == 1,
        n < 100 ==> dec_chars(n).len() <= 2,
        n < 1000 ==> dec_chars(n).len() <= 3,
    decreases n,
{
    assert('\0' <= digit_char(n % 10) <= '\u{7f}');
    if n < 10 {
        let s = dec_chars(n);
        assert('\0' <= digit_char(n) <= '\u{7f}');
        assert forall|i| 0 <= i < s.len() implies '\0' <= #[trigger] s[i] <= '\u{7f}' by {
            assert(s[i] == digit_char(n));
        }
    } else {
        lemma_dec_chars_ascii(n / 10);
        let p = dec_chars(n / 10);
        let s = dec_chars(n);
        assert forall|i| 0 <= i < s.len() implies '\0' <= #[trigger] s[i] <= '\u{7f}' by {
            if i < p.len() {
                assert(s[i] == p[i]);
            } else {
                assert(s[i] == digit_char(n % 10));
            }
        }
    }
}

/// Count of leading whitespace characters.
pub open spec fn head_spaces(s: Seq<char>) -> int
    decreases s.len(),
{
    if s.len() == 0 || !is_space(s[0]) {
        0
    } else {
        1 + head_spaces(s.skip(1))
    }
}

/// Count of trailing whitespace characters.
pub open spec fn tail_spaces(s: Seq<char>) -> int
    decreases s.len(),
{
    if s.len() == 0 || !is_space(s.last()) {
        0
    } else {
        1 + tail_spaces(s.drop_last())
    }
}

/// The string with leading and trailing whitespace removed.
pub open spec fn trim(s: Seq<char>) -> Seq<char> {
    if head_spaces(s) == s.len() {
        Seq::empty()
    } else {
        s.subrange(head_spaces(s), s.len() - tail_spaces(s))
    }
}

pub proof fn lemma_head_spaces(s: Seq<char>)
    ensures
        0 <= head_spaces(s) <= s.len(),
        forall|j: int| 0 <= j < head_spaces(s) ==> is_space(#[trigger] s[j]),
        head_spaces(s) < s.len() ==> !is_space(s[head_spaces(s)]),
    decreases s.len(),
{
    if s.len() > 0 && is_space(s[0]) {
        lemma_head_spaces(s.skip(1));
        assert forall|j: int| 0 <= j < head_spaces(s) implies is_space(#[trigger] s[j]) by {
            if j > 0 {
                assert(s[j] == s.skip(1)[j - 1]);
            }
        }
        if head_spaces(s) < s.len() {
            assert(s[head_spaces(s)] == s.skip(1)[head_spaces(s) - 1]);
        }
    }
}

pub proof fn lemma_tail_spaces(s: Seq<char>)
    ensures
        0 <= tail_spaces(s) <= s.len(),
        forall|j: int| s.len() - tail_spaces(s) <= j < s.len() ==> is_space(#[trigger] s[j]),
        tail_spaces(s) < s.len() ==> !is_space(s[s.len() - 1 - tail_spaces(s)]),
    decreases s.len(),
{
    if s.len() > 0 && is_space(s.last()) {
        lemma_tail_spaces(s.drop_last());
        assert forall|j: int| s.len() - tail_spaces(s) <= j < s.len() implies is_space(
            #[trigger] s[j],
        ) by {
            if j < s.len() - 1 {
                assert(s[j] == s.drop_last()[j]);
            }
        }
        if tail_spaces(s) < s.len() {
            assert(s[s.len() - 1 - tail_spaces(s)] == s.drop_last()[s.drop_last().len() - 1
                - tail_spaces(s.drop_last())]);
        }
    }
}

/// A string without any whitespace is left unchanged by trimming.
pub proof fn lemma_trim_id(s: Seq<char>)
    requires
        forall|i: int| 0 <= i < s.len() ==> !is_space(#[trigger] s[i]),
    ensures
        trim(s) == s,
{
    lemma_head_spaces(s);
    lemma_tail_spaces(s);
    if s.len() > 0 {
        assert(head_spaces(s) == 0);
        assert(tail_spaces(s) == 0);
        assert(s.subrange(0, s.len() as int) =~= s);
    } else {
        assert(trim(s) =~= s);
    }
}

/// Trimming never leaves whitespace at either end, and when something
/// remains it is a contiguous range of the input.
pub proof fn lemma_trim_range(s: Seq<char>)
    ensures
        head_spaces(s) == s.len() ==> trim(s) == Seq::<char>::empty(),
        head_spaces(s) < s.len() ==> head_spaces(s) + tail_spaces(s) < s.len() && trim(s)
            == s.subrange(head_spaces(s), s.len() - tail_spaces(s)),
{
    lemma_head_spaces(s);
    lemma_tail_spaces(s);
    if head_spaces(s) < s.len() {
        if head_spaces(s) + tail_spaces(s) >= s.len() {
            assert(is_space(s[head_spaces(s)]));
        }
    }
}

/// Index of the first occurrence of `c`, or -1.
pub open spec fn find_char(s: Seq<char>, c: char) -> int
    decreases s.len(),
{
    if s.len() == 0 {
        -1
    } else if s[0] == c {
        0
    } else {
        let r = find_char(s.skip(1), c);
        if r < 0 {
            -1
        } else {
            1 + r
        }
    }
}

pub proof fn lemma_find_char(s: Seq<char>, c: char)
    ensures
        find_char(s, c) == -1 ==> forall|j: int| 0 <= j < s.len() ==> #[trigger] s[j] != c,
        find_char(s, c) != -1 ==> 0 <= find_char(s, c) < s.len() && s[find_char(s, c)] == c && (
        forall|j: int| 0 <= j < find_char(s, c) ==> #[trigger] s[j] != c),
    decreases s.len(),
{
    if s.len() > 0 && s[0] != c {
        lemma_find_char(s.skip(1), c);
        let r = find_char(s.skip(1), c);
        if r == -1 {
            assert forall|j: int| 0 <= j < s.len() implies #[trigger] s[j] != c by {
                if j > 0 {
                    assert(s[j] == s.skip(1)[j - 1]);
                }
            }
        } else {
            assert(s[1 + r] == s.skip(1)[r]);
            assert forall|j: int| 0 <= j < find_char(s, c) implies #[trigger] s[j] != c by {
                if j > 0 {
                    assert(s[j] == s.skip(1)[j - 1]);
                }
            }
        }
    }
}

/// The pieces of `s` between commas; a string without commas is one piece.
pub open spec fn split_comma(s: Seq<char>) -> Seq<Seq<char>>
    decreases s.len(),
{
    let i = find_char(s, ',');
    if 0 <= i < s.len() {
        seq![s.take(i)] + split_comma(s.skip(i + 1))
    } else {
        seq![s]
    }
}

/// The pieces joined back with commas.
pub open spec fn join_comma(parts: Seq<Seq<char>>) -> Seq<char>
    decreases parts.len(),
{
    if parts.len() == 0 {
        Seq::empty()
    } else if parts.len() == 1 {
        parts[0]
    } else {
        parts[0] + seq![','] + join_comma(parts.skip(1))
    }
}

pub proof fn lemma_join_comma_snoc(parts: Seq<Seq<char>>, p: Seq<char>)
    ensures
        parts.len() == 0 ==> join_comma(parts.push(p)) == p,
        parts.len() > 0 ==> join_comma(parts.push(p)) == join_comma(parts) + seq![','] + p,
    decreases parts.len(),
{
    if parts.len() == 0 {
        assert(join_comma(parts.push(p)) == parts.push(p)[0]);
        assert(parts.push(p)[0] == p);
    } else if parts.len() == 1 {
        assert(parts.push(p).skip(1) =~= seq![p]);
        assert(join_comma(seq![p]) == p);
        assert(join_comma(parts) == parts[0]);
        assert(parts.push(p)[0] == parts[0]);
    } else {
        lemma_join_comma_snoc(parts.skip(1), p);
        assert(parts.push(p).skip(1) =~= parts.skip(1).push(p));
        assert(parts.push(p)[0] == parts[0]);
        assert(join_comma(parts.push(p)) == parts[0] + seq![','] + join_comma(
            parts.skip(1).push(p),
        ));
        assert(parts[0] + seq![','] + (join_comma(parts.skip(1)) + seq![','] + p) =~= (parts[0]
            + seq![','] + join_comma(parts.skip(1))) + seq![','] + p);
    }
}

/// The first character of a join is the first character of its first piece.
pub proof fn lemma_join_comma_first(parts: Seq<Seq<char>>)
    requires
        parts.len() >= 1,
        parts[0].len() >= 1,
    ensures
        join_comma(parts).len() >= 1,
        join_comma(parts)[0] == parts[0][0],
{
    if parts.len() > 1 {
        assert(join_comma(parts)[0] == (parts[0] + seq![','] + join_comma(parts.skip(1)))[0]);
    }
}

/// When no piece holds a comma, splitting undoes joining.
pub proof fn lemma_split_join_comma(parts: Seq<Seq<char>>)
    requires
        parts.len() >= 1,
        forall|k: int, j: int|
            0 <= k < parts.len() && 0 <= j < parts[k].len() ==> #[trigger] parts[k][j] != ',',
    ensures
        split_comma(join_comma(parts)) == parts,
    decreases parts.len(),
{
    let s = join_comma(parts);
    if parts.len() == 1 {
        assert(s == parts[0]);
        lemma_find_char(s, ',');
        if find_char(s, ',') != -1 {
            assert(parts[0][find_char(s, ',')] == ',');
        }
        assert(split_comma(s) =~= parts);
    } else {
        lemma_split_join_comma(parts.skip(1));
        let p0 = parts[0];
        let rest = join_comma(parts.skip(1));
        assert(s == p0 + seq![','] + rest);
        lemma_find_char(s, ',');
        let i = find_char(s, ',');
        assert(s[p0.len() as int] == ',');
        assert(i != -1);
        assert(i >= p0.len()) by {
            if i < p0.len() {
                assert(s[i] == p0[i]);
            }
        }
        assert(i == p0.len());
        assert(s.take(i) =~= p0);
        assert(s.skip(i + 1) =~= rest);
        assert(split_comma(s) =~= seq![p0] + split_comma(rest));
        assert(seq![p0] + parts.skip(1) =~= parts);
    }
}

/// Splitting off the piece before the first comma.
pub proof fn lemma_split_comma_step(s: Seq<char>, k: int)
    requires
        0 <= k < s.len(),
        s[k] == ',',
        forall|j: int| 0 <= j < k ==> #[trigger] s[j] != ',',
    ensures
        split_comma(s) == seq![s.take(k)] + split_comma(s.skip(k + 1)),
{
    lemma_find_char(s, ',');
    let i = find_char(s, ',');
    assert(i != -1);
    assert(i == k);
}

/// A string without commas is a single piece.
pub proof fn lemma_split_comma_whole(s: Seq<char>)
    requires
        forall|j: int| 0 <= j < s.len() ==> #[trigger] s[j] != ',',
    ensures
        split_comma(s) == seq![s],
{
    lemma_find_char(s, ',');
    if find_char(s, ',') != -1 {
        assert(s[find_char(s, ',')] == ',');
    }
}

/// Collects the characters of `s` into a vector.
pub fn str_chars(s: &str) -> (r: Vec<char>)
    ensures
        r@ == s@,
{
    let n = vstd::string::StrSliceExecFns::unicode_len(s);
    let mut v: Vec<char> = Vec::new();
    let mut i: usize = 0;
    while i < n
        invariant
            i <= n,
            n == s@.len(),
            v@ == s@.subrange(0, i as int),
        decreases n - i,
    {
        v.push(vstd::string::StrSliceExecFns::get_char(s, i));
        i = i + 1;
        assert(v@ =~= s@.subrange(0, i as int));
    }
    assert(v@ =~= s@);
    v
}

fn is_space_exec(c: char) -> (r: bool)
    ensures
        r == is_space(c),
{
    c == ' ' || c == '\t'
}

/// Narrows `[lo, hi)` to the bounds of `trim` of that range.
pub fn trim_range(v: &Vec<char>, lo: usize, hi: usize) -> (r: (usize, usize))
    requires
        lo <= hi <= v.len(),
    ensures
        lo <= r.0 <= r.1 <= hi,
        v@.subrange(r.0 as int, r.1 as int) == trim(v@.subrange(lo as int, hi as int)),
{
    let ghost s = v@.subrange(lo as int, hi as int);
    proof {
        lemma_head_spaces(s);
        lemma_tail_spaces(s);
        lemma_trim_range(s);
    }
    let mut a = lo;
    while a < hi && is_space_exec(v[a])
        invariant
            lo <= a <= hi <= v.len(),
            s == v@.subrange(lo as int, hi as int),
            forall|j: int| 0 <= j < a - lo ==> is_space(#[trigger] s[j]),
        decreases hi - a,
    {
        a = a + 1;
    }
    if a == hi {
        assert(head_spaces(s) == s.len());
        assert(v@.subrange(hi as int, hi as int) =~= Seq::<char>::empty());
        return (hi, hi);
    }
    assert(!is_space(s[a - lo]));
    assert(head_spaces(s) == a - lo);
    let mut b = hi;
    while b > a && is_space_exec(v[b - 1])
        invariant
            lo <= a <= b <= hi <= v.len(),
            s == v@.subrange(lo as int, hi as int),
            forall|j: int| b - lo <= j < s.len() ==> is_space(#[trigger] s[j]),
        decreases b,
    {
        b = b - 1;
    }
    assert(b > a) by {
        if b == a {
            assert(is_space(s[a - lo]));
        }
    }
    assert(!is_space(s[b - 1 - lo]));
    assert(tail_spaces(s) == s.len() - (b - lo));
    assert(v@.subrange(a as int, b as int) =~= s.subrange(
        head_spaces(s),
        s.len() - tail_spaces(s),
    ));
    (a, b)
}

/// Whether the characters in `[lo, hi)` are exactly those of `lit`.
pub fn token_eq(v: &Vec<char>, lo: usize, hi: usize, lit: &str) -> (r: bool)
    requires
        lo <= hi <= v.len(),
    ensures
        r == (v@.subrange(lo as int, hi as int) == lit@),
{
    let n = vstd::string::StrSliceExecFns::unicode_len(lit);
    if hi - lo != n {
        return false;
    }
    let mut i: usize = 0;
    while i < n
        invariant
            i <= n,
            n == lit@.len(),
            hi - lo == n,
            lo <= hi <= v.len(),
            forall|j: int| 0 <= j < i ==> v@.subrange(lo as int, hi as int)[j] == lit@[j],
        decreases n - i,
    {
        let c = vstd::string::StrSliceExecFns::get_char(lit, i);
        if v[lo + i] != c {
            return false;
        }
        i = i + 1;
    }
    proof {
        assert(v@.subrange(lo as int, hi as int) =~= lit@);
    }
    true
}

/// Whether the string equals the literal, character for character.
pub fn token_eq_string(a: &String, b: &str) -> (r: bool)
    ensures
        r == (a@ == b@),
{
    let x = a.as_str();
    let n = vstd::string::StrSliceExecFns::unicode_len(x);
    let m = vstd::string::StrSliceExecFns::unicode_len(b);
    if n != m {
        return false;
    }
    let mut i: usize = 0;
    while i < n
        invariant
            i <= n,
            n == x@.len() == b@.len(),
            x@ == a@,
            forall|j: int| 0 <= j < i ==> x@[j] == b@[j],
        decreases n - i,
    {
        if vstd::string::StrSliceExecFns::get_char(x, i) != vstd::string::StrSliceExecFns::get_char(
            b,
            i,
        ) {
            return false;
        }
        i = i + 1;
    }
    proof {
        assert(a@ =~= b@);
    }
    true
}

/// Relies on `String::push`: appends exactly the given character.
#[verifier::external_body]
pub fn push_char(s: &mut String, c: char)
    ensures
        final(s)@ == old(s)@.push(c),
{
    s.push(c);
}

fn digit_char_exec(d: u8) -> (c: char)
    requires
        d < 10,
    ensures
        c == digit_char(d as nat),
{
    match d {
        0 => '0',
        1 => '1',
        2 => '2',
        3 => '3',
        4 => '4',
        5 => '5',
        6 => '6',
        7 => '7',
        8 => '8',
        _ => '9',
    }
}

/// Appends the decimal rendering of `n`.
pub fn push_dec(s: &mut String, n: u8)
    ensures
        final(s)@ == old(s)@ + dec_chars(n as nat),
    decreases n,
{
    if n < 10 {
        push_char(s, digit_char_exec(n));
        assert(final(s)@ =~= old(s)@ + dec_chars(n as nat));
    } else {
        push_dec(s, n / 10);
        push_char(s, digit_char_exec(n % 10));
        assert(final(s)@ =~= old(s)@ + dec_chars(n as nat));
    }
}

/// Parses `[lo, hi)` as a decimal number no larger than 255.
pub fn parse_u8_range(v: &Vec<char>, lo: usize, hi: usize) -> (r: Option<u8>)
    requires
        lo <= hi <= v.len(),
    ensures
        match r {
            Some(d) => parse_dec(v@.subrange(lo as int, hi as int)) == Some(d as nat),
            None => match parse_dec(v@.subrange(lo as int, hi as int)) {
                Some(val) => val > 255,
                None => true,
            },
        },
{
    let ghost s = v@.subrange(lo as int, hi as int);
    if lo == hi {
        return None;
    }
    let mut i = lo;
    let mut acc: u16 = 0;
    let mut too_big = false;
    while i < hi
        invariant
            lo <= i <= hi <= v.len(),
            s == v@.subrange(lo as int, hi as int),
            all_digits(s.subrange(0, i - lo)),
            !too_big ==> acc == dec_val(s.subrange(0, i - lo)) && acc <= 255,
            too_big ==> dec_val(s.subrange(0, i - lo)) > 255,
        decreases hi - i,
    {
        let c = v[i];
        let cv = c as u32;
        if cv < 48 || cv > 57 {
            assert(!is_digit(s[i - lo]));
            return None;
        }
        let d = (cv - 48) as u16;
        proof {
            let ghost pre = s.subrange(0, i - lo);
            let ghost post = s.subrange(0, i + 1 - lo);
            assert(post.drop_last() =~= pre);
            assert(post.last() == s[i - lo]);
        }
        if too_big {
            assert(dec_val(s.subrange(0, i + 1 - lo)) > 255);
        } else {
            let next = acc * 10 + d;
            if next > 255 {
                too_big = true;
            } else {
                acc = next;
            }
        }
        i = i + 1;
    }
    assert(s.subrange(0, hi - lo) =~= s);
    if too_big {
        None
    } else {
        Some(acc as u8)
    }
}

} // verus!
