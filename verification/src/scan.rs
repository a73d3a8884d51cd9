//! Line, field and number scanning over text, with the semantics of `str`'s
//! `lines`, `split`, `trim` and `u32` parsing.
use vstd::prelude::*;
use crate::text::{chars_of, string_of};

verus! {

/// Unicode `White_Space`, the property `char::is_whitespace` tests.
pub open spec fn is_ws(c: char) -> bool {
    ('\u{9}' <= c && c <= '\u{d}') || c == ' ' || c == '\u{85}' || c == '\u{a0}' || c == '\u{1680}'
        || ('\u{2000}' <= c && c <= '\u{200a}') || c == '\u{2028}' || c == '\u{2029}'
        || c == '\u{202f}' || c == '\u{205f}' || c == '\u{3000}'
}

pub fn is_whitespace(c: char) -> (b: bool)
    ensures
        b == is_ws(c),
{
    ('\u{9}' <= c && c <= '\u{d}') || c == ' ' || c == '\u{85}' || c == '\u{a0}' || c == '\u{1680}'
        || ('\u{2000}' <= c && c <= '\u{200a}') || c == '\u{2028}' || c == '\u{2029}'
        || c == '\u{202f}' || c == '\u{205f}' || c == '\u{3000}'
}

/// The pieces of `s` between occurrences of `sep` (always at least one).
pub open spec fn split(s: Seq<char>, sep: char) -> Seq<Seq<char>>
    decreases s.len(),
{
    if s.len() == 0 {
        seq![Seq::empty()]
    } else {
        let p = split(s.drop_last(), sep);
        if s.last() == sep {
            p.push(Seq::empty())
        } else {
            p.update(p.len() - 1, p.last().push(s.last()))
        }
    }
}

proof fn lemma_split_nonempty(s: Seq<char>, sep: char)
    ensures
        split(s, sep).len() >= 1,
    decreases s.len(),
{
    if s.len() > 0 {
        lemma_split_nonempty(s.drop_last(), sep);
    }
}

/// Split a character sequence at every `sep`.
pub fn split_chars(s: &Vec<char>, sep: char) -> (r: Vec<Vec<char>>)
    ensures
        r@.len() == split(s@, sep).len(),
        forall|k: int| 0 <= k < r@.len() ==> #[trigger] r@[k]@ == split(s@, sep)[k],
{
    let mut r: Vec<Vec<char>> = Vec::new();
    let mut cur: Vec<char> = Vec::new();
    let mut i: usize = 0;
    while i < s.len()
        invariant
            i <= s@.len(),
            r@.len() + 1 == split(s@.take(i as int), sep).len(),
            forall|k: int| 0 <= k < r@.len() ==> #[trigger] r@[k]@ == split(s@.take(i as int), sep)[k],
            cur@ == split(s@.take(i as int), sep).last(),
        decreases s@.len() - i,
    {
        let c = s[i];
        let ghost t = s@.take(i as int);
        let ghost t1 = s@.take(i + 1);
        assert(t1.drop_last() =~= t);
        proof {
            lemma_split_nonempty(t, sep);
        }
        if c == sep {
            let done = cur;
            r.push(done);
            cur = Vec::new();
        } else {
            cur.push(c);
        }
        i = i + 1;
    }
    assert(s@.take(s@.len() as int) =~= s@);
    r.push(cur);
    r
}

/// `s` without leading whitespace.
pub open spec fn trim_start(s: Seq<char>) -> Seq<char>
    decreases s.len(),
{
    if s.len() > 0 && is_ws(s[0]) { trim_start(s.drop_first()) } else { s }
}

/// `s` without trailing whitespace.
pub open spec fn trim_end(s: Seq<char>) -> Seq<char>
    decreases s.len(),
{
    if s.len() > 0 && is_ws(s.last()) { trim_end(s.drop_last()) } else { s }
}

/// `s` without leading or trailing whitespace.
pub open spec fn trim(s: Seq<char>) -> Seq<char> {
    trim_end(trim_start(s))
}

/// The index of the first non-whitespace character at or after `i`.
fn skip_ws(s: &Vec<char>, i: usize) -> (j: usize)
    requires
        i <= s@.len(),
    ensures
        i <= j <= s@.len(),
        trim_start(s@.subrange(i as int, s@.len() as int)) == s@.subrange(j as int, s@.len() as int),
    decreases s@.len() - i,
{
    if i < s.len() && is_whitespace(s[i]) {
        assert(s@.subrange(i as int, s@.len() as int).drop_first() =~= s@.subrange(i + 1, s@.len() as int));
        skip_ws(s, i + 1)
    } else {
        i
    }
}

/// The index just past the last non-whitespace character before `j`.
fn back_ws(s: &Vec<char>, a: usize, j: usize) -> (k: usize)
    requires
        a <= j <= s@.len(),
    ensures
        a <= k <= j,
        trim_end(s@.subrange(a as int, j as int)) == s@.subrange(a as int, k as int),
    decreases j - a,
{
    if j > a && is_whitespace(s[j - 1]) {
        assert(s@.subrange(a as int, j as int).drop_last() =~= s@.subrange(a as int, j - 1));
        back_ws(s, a, j - 1)
    } else {
        j
    }
}

/// Trim whitespace from both ends of a character sequence.
pub fn trim_chars(s: &Vec<char>) -> (r: Vec<char>)
    ensures
        r@ == trim(s@),
{
    assert(s@.subrange(0, s@.len() as int) =~= s@);
    let a = skip_ws(s, 0);
    let b = back_ws(s, a, s.len());
    let mut r: Vec<char> = Vec::new();
    let mut i = a;
    while i < b
        invariant
            a <= i <= b,
            b <= s@.len(),
            r@ == s@.subrange(a as int, i as int),
        decreases b - i,
    {
        r.push(s[i]);
        assert(s@.subrange(a as int, i + 1) =~= s@.subrange(a as int, i as int).push(s@[i as int]));
        i = i + 1;
    }
    r
}

/// Trim leading whitespace.
pub fn trim_start_chars(s: &Vec<char>) -> (r: Vec<char>)
    ensures
        r@ == trim_start(s@),
{
    assert(s@.subrange(0, s@.len() as int) =~= s@);
    let a = skip_ws(s, 0);
    let mut r: Vec<char> = Vec::new();
    let mut i = a;
    while i < s.len()
        invariant
            a <= i <= s@.len(),
            r@ == s@.subrange(a as int, i as int),
        decreases s@.len() - i,
    {
        r.push(s[i]);
        assert(s@.subrange(a as int, i + 1) =~= s@.subrange(a as int, i as int).push(s@[i as int]));
        i = i + 1;
    }
    r
}

/// A line without its line terminator's carriage return.
pub open spec fn strip_cr(l: Seq<char>) -> Seq<char> {
    if l.len() > 0 && l.last() == '\r' { l.drop_last() } else { l }
}

/// The lines of `s`: pieces between `\n` (a final empty piece dropped), each
/// without a trailing `\r`.
pub open spec fn lines(s: Seq<char>) -> Seq<Seq<char>> {
    let p = split(s, '\n');
    let q = if p.last().len() == 0 { p.drop_last() } else { p };
    q.map_values(|l: Seq<char>| strip_cr(l))
}

/// Split text into lines.
pub fn lines_of(s: &str) -> (r: Vec<Vec<char>>)
    ensures
        r@.len() == lines(s@).len(),
        forall|k: int| 0 <= k < r@.len() ==> #[trigger] r@[k]@ == lines(s@)[k],
{
    let cs = chars_of(s);
    let pieces = split_chars(&cs, '\n');
    proof {
        lemma_split_nonempty(s@, '\n');
    }
    let n = pieces.len();
    let m = if pieces[n - 1].len() == 0 { n - 1 } else { n };
    let mut r: Vec<Vec<char>> = Vec::new();
    let mut i: usize = 0;
    while i < m
        invariant
            i <= m,
            m <= n,
            n == pieces@.len(),
            n == split(s@, '\n').len(),
            m == if split(s@, '\n').last().len() == 0 { n - 1 } else { n as int },
            forall|k: int| 0 <= k < n ==> #[trigger] pieces@[k]@ == split(s@, '\n')[k],
            r@.len() == i,
            forall|k: int| 0 <= k < i ==> #[trigger] r@[k]@ == strip_cr(split(s@, '\n')[k]),
        decreases m - i,
    {
        let l = &pieces[i];
        let mut line: Vec<char> = Vec::new();
        let len = l.len();
        let keep = if len > 0 && l[len - 1] == '\r' { len - 1 } else { len };
        let mut j: usize = 0;
        while j < keep
            invariant
                j <= keep,
                keep <= l@.len(),
                line@ == l@.take(j as int),
            decreases keep - j,
        {
            line.push(l[j]);
            assert(l@.take(j + 1) =~= l@.take(j as int).push(l@[j as int]));
            j = j + 1;
        }
        assert(line@ =~= strip_cr(l@));
        r.push(line);
        i = i + 1;
    }
    r
}

/// Whether `s` begins with `p`.
pub open spec fn starts_with(s: Seq<char>, p: Seq<char>) -> bool {
    p.len() <= s.len() && s.take(p.len() as int) == p
}

pub fn has_prefix(s: &Vec<char>, p: &str) -> (b: bool)
    ensures
        b == starts_with(s@, p@),
{
    let pc = chars_of(p);
    if pc.len() > s.len() {
        return false;
    }
    let mut i: usize = 0;
    while i < pc.len()
        invariant
            i <= pc@.len(),
            pc@ == p@,
            pc@.len() <= s@.len(),
            forall|k: int| 0 <= k < i ==> s@[k] == pc@[k],
        decreases pc@.len() - i,
    {
        if s[i] != pc[i] {
            assert(s@.take(pc@.len() as int)[i as int] != pc@[i as int]);
            return false;
        }
        i = i + 1;
    }
    assert(s@.take(pc@.len() as int) =~= pc@);
    true
}

/// The decimal value of a string of ASCII digits.
pub open spec fn digits_value(s: Seq<char>) -> nat
    decreases s.len(),
{
    if s.len() == 0 { 0 } else { (digits_value(s.drop_last()) * 10 + (s.last() as nat - '0' as nat)) as nat }
}

pub open spec fn all_digits(s: Seq<char>) -> bool {
    forall|k: int| 0 <= k < s.len() ==> '0' <= #[trigger] s[k] <= '9'
}

/// Unsigned integer parsing (`str::parse` for `u8` .. `u64`, `usize`): an
/// optional `+`, then one or more ASCII digits whose value is at most `max`.
pub open spec fn spec_parse_uint(s: Seq<char>, max: u64) -> Option<u64> {
    let d = if s.len() > 0 && s[0] == '+' { s.drop_first() } else { s };
    if d.len() == 0 || !all_digits(d) || digits_value(d) > max {
        None
    } else {
        Some(digits_value(d) as u64)
    }
}

/// `u32` parsing.
pub open spec fn spec_parse_u32(s: Seq<char>) -> Option<u32> {
    match spec_parse_uint(s, u32::MAX as u64) {
        Some(v) => Some(v as u32),
        None => None,
    }
}

proof fn lemma_digits_monotone(s: Seq<char>, k: int)
    requires
        0 <= k <= s.len(),
        all_digits(s),
    ensures
        digits_value(s.take(k)) <= digits_value(s),
    decreases s.len() - k,
{
    if k < s.len() {
        lemma_digits_monotone(s, k + 1);
        assert(s.take(k + 1).drop_last() =~= s.take(k));
        assert(s.take(k + 1)[k] == s[k]);
    } else {
        assert(s.take(k) =~= s);
    }
}

/// Parse an unsigned decimal number no larger than `max`, the way
/// `str::parse` does for unsigned integer types.
pub fn parse_uint(s: &Vec<char>, max: u64) -> (r: Option<u64>)
    ensures
        r == spec_parse_uint(s@, max),
{
    let start: usize = if s.len() > 0 && s[0] == '+' { 1 } else { 0 };
    let ghost d = if s@.len() > 0 && s@[0] == '+' { s@.drop_first() } else { s@ };
    assert(d =~= s@.subrange(start as int, s@.len() as int));
    if start >= s.len() {
        return None;
    }
    let mut v: u64 = 0;
    let mut i = start;
    while i < s.len()
        invariant
            start <= i <= s@.len(),
            d == s@.subrange(start as int, s@.len() as int),
            d == (if s@.len() > 0 && s@[0] == '+' { s@.drop_first() } else { s@ }),
            all_digits(d.take(i - start)),
            v == digits_value(d.take(i - start)),
            v <= max,
        decreases s@.len() - i,
    {
        let c = s[i];
        assert(d.take(i + 1 - start).drop_last() =~= d.take(i - start));
        assert(d.take(i + 1 - start).last() == c);
        if !('0' <= c && c <= '9') {
            assert(!all_digits(d)) by {
                assert(d[i - start] == c);
            }
            assert(d.len() > 0);
            assert(spec_parse_uint(s@, max) is None);
            return None;
        }
        let dv = ((c as u32) - ('0' as u32)) as u64;
        if dv > max || v > (max - dv) / 10 {
            proof {
                assert(v * 10 + dv > max) by (nonlinear_arith)
                    requires dv > max || v > (max - dv) / 10, dv <= max || dv > max;
                assert(all_digits(d.take(i + 1 - start)));
                if all_digits(d) {
                    lemma_digits_monotone(d, i + 1 - start);
                    assert(digits_value(d) > max);
                }
                assert(spec_parse_uint(s@, max) is None);
            }
            return None;
        }
        proof {
            assert(v * 10 + dv <= max) by (nonlinear_arith)
                requires v <= (max - dv) / 10, dv <= max;
        }
        v = v * 10 + dv;
        i = i + 1;
    }
    assert(d.take(i - start) =~= d);
    Some(v)
}

/// Parse a decimal `u32` the way `str::parse::<u32>` does.
pub fn parse_u32(s: &Vec<char>) -> (r: Option<u32>)
    ensures
        r == spec_parse_u32(s@),
{
    match parse_uint(s, 0xffff_ffffu64) {
        Some(v) => Some(v as u32),
        None => None,
    }
}

/// A character sequence as a string.
pub fn to_string(v: &Vec<char>) -> (s: String)
    ensures
        s@ == v@,
{
    string_of(v)
}

} // verus!
