//! Text building blocks: character-level string assembly, decimal numbers,
//! and the escaping / truncation rules of the reports.
use vstd::prelude::*;

verus! {

/// Append one character to a string (`String::push`).
#[verifier::external_body]
pub(crate) fn push_char(s: &mut String, c: char)
    ensures
        final(s)@ == old(s)@.push(c),
{
    s.push(c);
}

/// A string made of the given characters.
pub fn string_of(chars: &Vec<char>) -> (s: String)
    ensures
        s@ == chars@,
{
    let mut s = String::new();
    let mut i: usize = 0;
    while i < chars.len()
        invariant
            i <= chars@.len(),
            s@ == chars@.take(i as int),
        decreases chars@.len() - i,
    {
        push_char(&mut s, chars[i]);
        assert(chars@.take(i + 1) =~= chars@.take(i as int).push(chars@[i as int]));
        i = i + 1;
    }
    assert(chars@.take(chars@.len() as int) =~= chars@);
    s
}

/// The characters of a string.
pub fn chars_of(s: &str) -> (v: Vec<char>)
    ensures
        v@ == s@,
{
    let n = s.unicode_len();
    let mut v: Vec<char> = Vec::new();
    let mut i: usize = 0;
    while i < n
        invariant
            n == s@.len(),
            i <= n,
            v@ == s@.take(i as int),
        decreases n - i,
    {
        v.push(s.get_char(i));
        assert(s@.take(i + 1) =~= s@.take(i as int).push(s@[i as int]));
        i = i + 1;
    }
    assert(s@.take(n as int) =~= s@);
    v
}

/// Append the characters of `t` to `s`.
pub fn push_chars(s: &mut String, t: &Vec<char>)
    ensures
        final(s)@ == old(s)@ + t@,
{
    let mut i: usize = 0;
    while i < t.len()
        invariant
            i <= t@.len(),
            s@ == old(s)@ + t@.take(i as int),
        decreases t@.len() - i,
    {
        push_char(s, t[i]);
        assert(t@.take(i + 1) =~= t@.take(i as int).push(t@[i as int]));
        i = i + 1;
    }
    assert(t@.take(t@.len() as int) =~= t@);
}

/// Bytes a character takes in UTF-8.
pub open spec fn char_utf8_len(c: char) -> nat {
    if (c as u32) < 0x80 {
        1
    } else if (c as u32) < 0x800 {
        2
    } else if (c as u32) < 0x10000 {
        3
    } else {
        4
    }
}

/// Bytes a string takes in UTF-8.
pub open spec fn utf8_len(s: Seq<char>) -> nat
    decreases s.len(),
{
    if s.len() == 0 { 0 } else { utf8_len(s.drop_last()) + char_utf8_len(s.last()) }
}

/// Bytes a character takes in UTF-8.
pub fn char_len(c: char) -> (n: usize)
    ensures
        n == char_utf8_len(c),
{
    if (c as u32) < 0x80 {
        1
    } else if (c as u32) < 0x800 {
        2
    } else if (c as u32) < 0x10000 {
        3
    } else {
        4
    }
}

pub proof fn lemma_utf8_monotone(s: Seq<char>, k: int)
    requires
        0 <= k <= s.len(),
    ensures
        utf8_len(s.take(k)) <= utf8_len(s),
    decreases s.len() - k,
{
    if k < s.len() {
        lemma_utf8_monotone(s, k + 1);
        assert(s.take(k + 1).drop_last() =~= s.take(k));
    } else {
        assert(s.take(k) =~= s);
    }
}

/// The UTF-8 length of a string in bytes (`str::len`).
pub fn byte_len(s: &str) -> (n: u128)
    ensures
        n == utf8_len(s@),
{
    let cs = chars_of(s);
    let count = s.unicode_len();
    let mut n: u128 = 0;
    let mut i: usize = 0;
    while i < cs.len()
        invariant
            i <= cs@.len(),
            cs@ == s@,
            cs@.len() == count,
            n == utf8_len(cs@.take(i as int)),
            n <= 4 * i,
        decreases cs@.len() - i,
    {
        assert(cs@.take(i + 1).drop_last() =~= cs@.take(i as int));
        n = n + char_len(cs[i]) as u128;
        i = i + 1;
    }
    assert(cs@.take(cs@.len() as int) =~= cs@);
    n
}

/// The decimal digit character for `d < 10`.
pub open spec fn digit_char(d: nat) -> char {
    ('0' as nat + d) as char
}

/// The decimal representation of `n`, without leading zeros.
pub open spec fn decimal(n: nat) -> Seq<char>
    decreases n,
{
    if n < 10 {
        seq![digit_char(n)]
    } else {
        decimal(n / 10).push(digit_char(n % 10))
    }
}

fn digit(d: u64) -> (c: char)
    requires
        d < 10,
    ensures
        c == digit_char(d as nat),
{
    if d == 0 { '0' } else if d == 1 { '1' } else if d == 2 { '2' } else if d == 3 { '3' }
    else if d == 4 { '4' } else if d == 5 { '5' } else if d == 6 { '6' } else if d == 7 { '7' }
    else if d == 8 { '8' } else { '9' }
}

/// Append the decimal representation of `n`.
pub fn push_decimal(s: &mut String, n: u64)
    ensures
        final(s)@ == old(s)@ + decimal(n as nat),
    decreases n,
{
    if n >= 10 {
        push_decimal(s, n / 10);
    }
    push_char(s, digit(n % 10));
    assert(decimal(n as nat) =~= if n < 10 {
        seq![digit_char(n as nat)]
    } else {
        decimal((n / 10) as nat).push(digit_char((n % 10) as nat))
    });
}

/// Append the decimal representation of a 128-bit `n`.
pub fn push_decimal_wide(s: &mut String, n: u128)
    ensures
        final(s)@ == old(s)@ + decimal(n as nat),
    decreases n,
{
    if n >= 10 {
        push_decimal_wide(s, n / 10);
    }
    push_char(s, digit((n % 10) as u64));
    assert(decimal(n as nat) =~= if n < 10 {
        seq![digit_char(n as nat)]
    } else {
        decimal((n / 10) as nat).push(digit_char((n % 10) as nat))
    });
}

/// At most `max` characters: longer text keeps its first `max - 1` and ends
/// in an ellipsis.
pub open spec fn spec_truncate(s: Seq<char>, max: nat) -> Seq<char> {
    if s.len() <= max {
        s
    } else {
        s.take(if max >= 1 { max - 1 } else { 0 }) + seq!['…']
    }
}

/// A truncated text never exceeds the limit (for a limit of at least one),
/// and text within the limit is kept as it is.
pub proof fn truncate_fits(s: Seq<char>, max: nat)
    ensures
        max >= 1 ==> spec_truncate(s, max).len() <= max,
        s.len() <= max ==> spec_truncate(s, max) == s,
        s.len() > max ==> spec_truncate(s, max).last() == '…',
{
}

pub fn truncate(s: &str, max: usize) -> (r: String)
    ensures
        r@ == spec_truncate(s@, max as nat),
{
    let cs = chars_of(s);
    if cs.len() <= max {
        return string_of(&cs);
    }
    let keep = if max >= 1 { max - 1 } else { 0 };
    let mut r = String::new();
    let mut i: usize = 0;
    while i < keep
        invariant
            keep < cs@.len(),
            i <= keep,
            r@ == cs@.take(i as int),
        decreases keep - i,
    {
        push_char(&mut r, cs[i]);
        assert(cs@.take(i + 1) =~= cs@.take(i as int).push(cs@[i as int]));
        i = i + 1;
    }
    push_char(&mut r, '…');
    r
}

/// The JSON string escaping the reports use: backslashes and double quotes
/// get a backslash in front.
pub open spec fn escape_json_char(c: char) -> Seq<char> {
    if c == '\\' {
        seq!['\\', '\\']
    } else if c == '"' {
        seq!['\\', '"']
    } else {
        seq![c]
    }
}

pub open spec fn spec_json_escape(s: Seq<char>) -> Seq<char>
    decreases s.len(),
{
    if s.len() == 0 {
        Seq::empty()
    } else {
        spec_json_escape(s.drop_last()) + escape_json_char(s.last())
    }
}

pub fn json_escape(s: &str) -> (r: String)
    ensures
        r@ == spec_json_escape(s@),
{
    let cs = chars_of(s);
    let mut r = String::new();
    let mut i: usize = 0;
    while i < cs.len()
        invariant
            i <= cs@.len(),
            cs@ == s@,
            r@ == spec_json_escape(cs@.take(i as int)),
        decreases cs@.len() - i,
    {
        let c = cs[i];
        if c == '\\' {
            push_char(&mut r, '\\');
            push_char(&mut r, '\\');
        } else if c == '"' {
            push_char(&mut r, '\\');
            push_char(&mut r, '"');
        } else {
            push_char(&mut r, c);
        }
        assert(cs@.take(i + 1).drop_last() =~= cs@.take(i as int));
        assert(r@ =~= spec_json_escape(cs@.take(i + 1)));
        i = i + 1;
    }
    assert(cs@.take(cs@.len() as int) =~= cs@);
    r
}

/// Doubling every double quote.
pub open spec fn double_quotes(s: Seq<char>) -> Seq<char>
    decreases s.len(),
{
    if s.len() == 0 {
        Seq::empty()
    } else {
        double_quotes(s.drop_last()) + if s.last() == '"' { seq!['"', '"'] } else { seq![s.last()] }
    }
}

/// A CSV field: quoted (inner quotes doubled) when it holds a comma, a double
/// quote or a newline, verbatim otherwise.
pub open spec fn spec_csv_field(s: Seq<char>) -> Seq<char> {
    if s.contains(',') || s.contains('"') || s.contains('\n') {
        seq!['"'] + double_quotes(s) + seq!['"']
    } else {
        s
    }
}

pub fn csv_field(s: &str) -> (r: String)
    ensures
        r@ == spec_csv_field(s@),
{
    let cs = chars_of(s);
    let mut special = false;
    let mut i: usize = 0;
    while i < cs.len()
        invariant
            i <= cs@.len(),
            cs@ == s@,
            special == (cs@.take(i as int).contains(',') || cs@.take(i as int).contains('"')
                || cs@.take(i as int).contains('\n')),
        decreases cs@.len() - i,
    {
        let c = cs[i];
        let ghost t = cs@.take(i as int);
        let ghost t1 = cs@.take(i + 1);
        assert(t1 =~= t.push(c));
        assert(forall|x: char| t1.contains(x) <==> t.contains(x) || x == c) by {
            assert forall|x: char| t1.contains(x) implies t.contains(x) || x == c by {
                let k = choose|k: int| 0 <= k < t1.len() && t1[k] == x;
                if k < t.len() {
                    assert(t[k] == x);
                }
            }
            assert forall|x: char| t.contains(x) || x == c implies t1.contains(x) by {
                if t.contains(x) {
                    let k = choose|k: int| 0 <= k < t.len() && t[k] == x;
                    assert(t1[k] == x);
                } else {
                    assert(t1[i as int] == x);
                }
            }
        }
        if c == ',' || c == '"' || c == '\n' {
            special = true;
        }
        i = i + 1;
    }
    assert(cs@.take(cs@.len() as int) =~= cs@);
    if !special {
        return string_of(&cs);
    }
    let mut r = String::new();
    push_char(&mut r, '"');
    let mut j: usize = 0;
    while j < cs.len()
        invariant
            j <= cs@.len(),
            r@ == seq!['"'] + double_quotes(cs@.take(j as int)),
        decreases cs@.len() - j,
    {
        let c = cs[j];
        push_char(&mut r, c);
        if c == '"' {
            push_char(&mut r, '"');
        }
        assert(cs@.take(j + 1).drop_last() =~= cs@.take(j as int));
        assert(r@ =~= seq!['"'] + double_quotes(cs@.take(j + 1)));
        j = j + 1;
    }
    push_char(&mut r, '"');
    r
}

} // verus!
