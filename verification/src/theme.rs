//! Theme palettes: the built-in color schemes, the `#rrggbb` / `#rrggbbaa`
//! color syntax, and user palettes read from TOML files. Colors are held
//! unmultiplied; turning them into a toolkit's color type is the
//! frontend's business.
use vstd::prelude::*;
use crate::addr_text::hex_char;
use crate::scan::{is_whitespace, is_ws, trim, trim_chars, trim_end, trim_start};
use crate::text::{char_len, char_utf8_len, chars_of, lemma_utf8_monotone, utf8_len};

verus! {

/// An sRGB color with unmultiplied alpha.
#[derive(Clone, Copy, Debug, PartialEq, Eq, Structural)]
pub struct Rgba {
    pub r: u8,
    pub g: u8,
    pub b: u8,
    pub a: u8,
}

/// Opaque mid gray, the color of flows a palette leaves out.
pub open spec fn spec_gray() -> Rgba {
    Rgba { r: 160, g: 160, b: 160, a: 255 }
}

pub fn gray() -> (c: Rgba)
    ensures
        c == spec_gray(),
{
    Rgba { r: 160, g: 160, b: 160, a: 255 }
}

/// `s` without its leading `#` characters.
pub open spec fn strip_hashes(s: Seq<char>) -> Seq<char>
    decreases s.len(),
{
    if s.len() > 0 && s[0] == '#' { strip_hashes(s.drop_first()) } else { s }
}

/// The value of a hexadecimal digit.
pub open spec fn hex_digit(c: char) -> Option<nat> {
    if '0' <= c && c <= '9' {
        Some((c as nat - '0' as nat) as nat)
    } else if 'a' <= c && c <= 'f' {
        Some((c as nat - 'a' as nat + 10) as nat)
    } else if 'A' <= c && c <= 'F' {
        Some((c as nat - 'A' as nat + 10) as nat)
    } else {
        None
    }
}

pub open spec fn all_hex(s: Seq<char>) -> bool {
    forall|k: int| 0 <= k < s.len() ==> #[trigger] hex_digit(s[k]) is Some
}

/// The value of a string of hexadecimal digits.
pub open spec fn hex_value(s: Seq<char>) -> nat
    decreases s.len(),
{
    if s.len() == 0 {
        0
    } else {
        hex_value(s.drop_last()) * 16 + match hex_digit(s.last()) {
            Some(d) => d,
            None => 0,
        }
    }
}

/// `u32::from_str_radix(s, 16)`: an optional `+`, then one or more hex
/// digits whose value fits in 32 bits.
pub open spec fn spec_parse_hex(s: Seq<char>) -> Option<u32> {
    let d = if s.len() > 0 && s[0] == '+' { s.drop_first() } else { s };
    if d.len() == 0 || !all_hex(d) || hex_value(d) > u32::MAX {
        None
    } else {
        Some(hex_value(d) as u32)
    }
}

/// The color a `#rrggbb` or `#rrggbbaa` string names. Surrounding whitespace
/// and leading `#`s are ignored; eight bytes left read as RGBA, anything
/// else as RGB (opaque); a string that is not a 32-bit hex number reads as 0.
#[verifier::opaque]
pub open spec fn spec_hex(s: Seq<char>) -> Rgba {
    let t = strip_hashes(trim(s));
    let n: u32 = match spec_parse_hex(t) {
        Some(v) => v,
        None => 0,
    };
    if utf8_len(t) == 8 {
        Rgba { r: (n >> 24u32) as u8, g: (n >> 16u32) as u8, b: (n >> 8u32) as u8, a: n as u8 }
    } else {
        Rgba { r: (n >> 16u32) as u8, g: (n >> 8u32) as u8, b: n as u8, a: 255 }
    }
}

/// Two lowercase hex digits of a byte.
pub open spec fn hex2(x: u8) -> Seq<char> {
    seq![hex_char((x / 16) as nat), hex_char((x % 16) as nat)]
}

proof fn lemma_hex_char_digit(d: nat)
    requires
        d < 16,
    ensures
        hex_digit(hex_char(d)) == Some(d),
        hex_char(d) != '#' && hex_char(d) != '+',
        !is_ws(hex_char(d)),
        char_utf8_len(hex_char(d)) == 1,
{
}

proof fn lemma_hex_value_push_byte(a: Seq<char>, x: u8)
    ensures
        hex_value(a + hex2(x)) == hex_value(a) * 256 + x,
{
    let s = a + hex2(x);
    let hi = (x / 16) as nat;
    let lo = (x % 16) as nat;
    lemma_hex_char_digit(hi);
    lemma_hex_char_digit(lo);
    assert(s.drop_last() =~= a.push(hex_char(hi)));
    assert(a.push(hex_char(hi)).drop_last() =~= a);
    assert(s.last() == hex_char(lo));
    assert(a.push(hex_char(hi)).last() == hex_char(hi));
    assert(hex_value(s) == hex_value(s.drop_last()) * 16 + lo);
    assert(hex_value(a.push(hex_char(hi))) == hex_value(a) * 16 + hi);
    assert(x == hi * 16 + lo) by (nonlinear_arith)
        requires hi == x / 16, lo == x % 16;
    assert(hex_value(a) * 256 + x == (hex_value(a) * 16 + hi) * 16 + lo) by (nonlinear_arith)
        requires x == hi * 16 + lo;
}

proof fn lemma_utf8_push_ascii(a: Seq<char>, b: Seq<char>)
    requires
        forall|k: int| 0 <= k < b.len() ==> char_utf8_len(#[trigger] b[k]) == 1,
    ensures
        utf8_len(a + b) == utf8_len(a) + b.len(),
    decreases b.len(),
{
    if b.len() > 0 {
        lemma_utf8_push_ascii(a, b.drop_last());
        assert((a + b).drop_last() =~= a + b.drop_last());
        assert((a + b).last() == b.last());
        assert(char_utf8_len(b[b.len() - 1]) == 1);
    } else {
        assert(a + b =~= a);
    }
}

/// A `#rrggbb` color written with lowercase hex digits reads as that opaque
/// color, and `#rrggbbaa` as that color with that alpha.
pub proof fn hex_reads_written_color(r: u8, g: u8, b: u8, a: u8)
    ensures
        spec_hex(seq!['#'] + hex2(r) + hex2(g) + hex2(b)) == (Rgba { r, g, b, a: 255 }),
        spec_hex(seq!['#'] + hex2(r) + hex2(g) + hex2(b) + hex2(a)) == (Rgba { r, g, b, a }),
{
    reveal(spec_hex);
    let d6 = hex2(r) + hex2(g) + hex2(b);
    let d8 = d6 + hex2(a);
    lemma_hex_char_digit((r / 16) as nat);
    lemma_hex_char_digit((r % 16) as nat);
    lemma_hex_char_digit((g / 16) as nat);
    lemma_hex_char_digit((g % 16) as nat);
    lemma_hex_char_digit((b / 16) as nat);
    lemma_hex_char_digit((b % 16) as nat);
    lemma_hex_char_digit((a / 16) as nat);
    lemma_hex_char_digit((a % 16) as nat);
    assert(Seq::<char>::empty() + hex2(r) =~= hex2(r));
    lemma_hex_value_push_byte(Seq::<char>::empty(), r);
    lemma_hex_value_push_byte(hex2(r), g);
    lemma_hex_value_push_byte(hex2(r) + hex2(g), b);
    lemma_hex_value_push_byte(d6, a);
    assert(hex_value(Seq::<char>::empty()) == 0);
    let v6 = hex_value(d6);
    let v8 = hex_value(d8);
    assert(v6 == (r as nat * 256 + g) * 256 + b);
    assert(v8 == v6 * 256 + a);
    assert(all_hex(d6));
    assert(all_hex(d8));
    assert(d6.len() == 6 && d8.len() == 8);
    lemma_utf8_push_ascii(Seq::<char>::empty(), d6);
    lemma_utf8_push_ascii(Seq::<char>::empty(), d8);
    assert(Seq::<char>::empty() + d6 =~= d6);
    assert(Seq::<char>::empty() + d8 =~= d8);
    // Neither string has whitespace or extra `#`s to remove.
    let s6 = seq!['#'] + d6;
    let s8 = seq!['#'] + d8;
    assert(s6 =~= seq!['#'] + hex2(r) + hex2(g) + hex2(b));
    assert(s8 =~= seq!['#'] + hex2(r) + hex2(g) + hex2(b) + hex2(a));
    assert(trim_start(s6) == s6);
    assert(trim_start(s8) == s8);
    assert(s6.last() == d6.last() && s8.last() == d8.last());
    assert(trim_end(s6) == s6);
    assert(trim_end(s8) == s8);
    assert(s6.drop_first() =~= d6);
    assert(s8.drop_first() =~= d8);
    assert(strip_hashes(d6) == d6);
    assert(strip_hashes(d8) == d8);
    assert(strip_hashes(s6) == d6);
    assert(strip_hashes(s8) == d8);
    assert(spec_parse_hex(d6) == Some(v6 as u32));
    assert(spec_parse_hex(d8) == Some(v8 as u32)) by (nonlinear_arith)
        requires v8 == (((r as nat * 256 + g) * 256 + b) * 256 + a), d8.len() == 8, all_hex(d8),
            !(d8[0] == '+'), v8 == hex_value(d8);
    let n6 = v6 as u32;
    let n8 = v8 as u32;
    assert((n6 >> 16u32) as u8 == r && (n6 >> 8u32) as u8 == g && n6 as u8 == b) by (bit_vector)
        requires n6 == (r as u32 * 256 + g as u32) * 256 + b as u32;
    assert((n8 >> 24u32) as u8 == r && (n8 >> 16u32) as u8 == g && (n8 >> 8u32) as u8 == b && n8 as u8 == a)
        by (bit_vector)
        requires n8 == ((r as u32 * 256 + g as u32) * 256 + b as u32) * 256 + a as u32;
}

fn strip_hashes_from(t: &Vec<char>) -> (k: usize)
    ensures
        k <= t@.len(),
        strip_hashes(t@) == t@.subrange(k as int, t@.len() as int),
{
    let mut k: usize = 0;
    assert(t@.subrange(0, t@.len() as int) =~= t@);
    while k < t.len() && t[k] == '#'
        invariant
            k <= t@.len(),
            strip_hashes(t@) == strip_hashes(t@.subrange(k as int, t@.len() as int)),
        decreases t@.len() - k,
    {
        assert(t@.subrange(k as int, t@.len() as int).drop_first() =~= t@.subrange(k + 1, t@.len() as int));
        k = k + 1;
    }
    k
}

fn hex_digit_of(c: char) -> (d: Option<u32>)
    ensures
        match (d, hex_digit(c)) {
            (Some(x), Some(y)) => x == y && x < 16,
            (None, None) => true,
            _ => false,
        },
{
    if '0' <= c && c <= '9' {
        Some((c as u32) - ('0' as u32))
    } else if 'a' <= c && c <= 'f' {
        Some((c as u32) - ('a' as u32) + 10)
    } else if 'A' <= c && c <= 'F' {
        Some((c as u32) - ('A' as u32) + 10)
    } else {
        None
    }
}

proof fn lemma_hex_monotone(s: Seq<char>, k: int)
    requires
        0 <= k <= s.len(),
    ensures
        hex_value(s.take(k)) <= hex_value(s),
    decreases s.len() - k,
{
    if k < s.len() {
        lemma_hex_monotone(s, k + 1);
        assert(s.take(k + 1).drop_last() =~= s.take(k));
    } else {
        assert(s.take(k) =~= s);
    }
}

/// Parse `t[k..]` as `u32::from_str_radix(_, 16)` does.
fn parse_hex_from(t: &Vec<char>, k: usize) -> (r: Option<u32>)
    requires
        k <= t@.len(),
    ensures
        r == spec_parse_hex(t@.subrange(k as int, t@.len() as int)),
{
    let ghost s = t@.subrange(k as int, t@.len() as int);
    let start: usize = if k < t.len() && t[k] == '+' { k + 1 } else { k };
    let ghost d = if s.len() > 0 && s[0] == '+' { s.drop_first() } else { s };
    assert(d =~= t@.subrange(start as int, t@.len() as int));
    if start >= t.len() {
        return None;
    }
    let mut v: u32 = 0;
    let mut i = start;
    while i < t.len()
        invariant
            start <= i <= t@.len(),
            k <= start,
            s == t@.subrange(k as int, t@.len() as int),
            d == (if s.len() > 0 && s[0] == '+' { s.drop_first() } else { s }),
            d == t@.subrange(start as int, t@.len() as int),
            all_hex(d.take(i - start)),
            v == hex_value(d.take(i - start)),
        decreases t@.len() - i,
    {
        let c = t[i];
        assert(d.take(i + 1 - start).drop_last() =~= d.take(i - start));
        assert(d.take(i + 1 - start).last() == c);
        assert(d[i - start] == c);
        match hex_digit_of(c) {
            None => {
                assert(!all_hex(d));
                assert(d.len() > 0);
                return None;
            },
            Some(x) => {
                if v > 0x0fff_ffff {
                    proof {
                        assert(all_hex(d.take(i + 1 - start)));
                        assert(hex_value(d.take(i + 1 - start)) > u32::MAX);
                        lemma_hex_monotone(d, i + 1 - start);
                    }
                    return None;
                }
                v = v * 16 + x;
                i = i + 1;
            },
        }
    }
    assert(d.take(i - start) =~= d);
    Some(v)
}

/// Whether `t[k..]` takes exactly eight bytes in UTF-8.
fn eight_bytes_from(t: &Vec<char>, k: usize) -> (b: bool)
    requires
        k <= t@.len(),
    ensures
        b == (utf8_len(t@.subrange(k as int, t@.len() as int)) == 8),
{
    let ghost s = t@.subrange(k as int, t@.len() as int);
    let mut acc: usize = 0;
    let mut i = k;
    while i < t.len() && acc <= 8
        invariant
            k <= i <= t@.len(),
            s == t@.subrange(k as int, t@.len() as int),
            acc == utf8_len(s.take(i - k)),
            acc <= 12,
        decreases t@.len() - i,
    {
        assert(s.take(i + 1 - k).drop_last() =~= s.take(i - k));
        assert(s.take(i + 1 - k).last() == t@[i as int]);
        acc = acc + char_len(t[i]);
        i = i + 1;
    }
    if i < t.len() {
        proof {
            lemma_utf8_monotone(s, i - k);
        }
        false
    } else {
        assert(s.take(i - k) =~= s);
        acc == 8
    }
}

/// Parse a `#rrggbb` / `#rrggbbaa` color (see [`spec_hex`]).
pub fn hex(s: &str) -> (c: Rgba)
    ensures
        c == spec_hex(s@),
{
    let cs = chars_of(s);
    let t = trim_chars(&cs);
    let k = strip_hashes_from(&t);
    let n: u32 = match parse_hex_from(&t, k) {
        Some(v) => v,
        None => 0,
    };
    proof {
        reveal(spec_hex);
    }
    if eight_bytes_from(&t, k) {
        Rgba { r: (n >> 24u32) as u8, g: (n >> 16u32) as u8, b: (n >> 8u32) as u8, a: n as u8 }
    } else {
        Rgba { r: (n >> 16u32) as u8, g: (n >> 8u32) as u8, b: n as u8, a: 255 }
    }
}

/// A complete palette plus the light/dark flag.
pub struct Theme {
    pub name: String,
    pub dark: bool,
    pub bg: Rgba,
    pub panel: Rgba,
    pub surface: Rgba,
    pub text: Rgba,
    pub muted: Rgba,
    pub accent: Rgba,
    pub accent2: Rgba,
    pub good: Rgba,
    pub warn: Rgba,
    pub bad: Rgba,
    pub grid: Rgba,
    /// One color per probe flow.
    pub flow: [Rgba; 6],
}

pub struct ThemeView {
    pub name: Seq<char>,
    pub dark: bool,
    pub bg: Rgba,
    pub panel: Rgba,
    pub surface: Rgba,
    pub text: Rgba,
    pub muted: Rgba,
    pub accent: Rgba,
    pub accent2: Rgba,
    pub good: Rgba,
    pub warn: Rgba,
    pub bad: Rgba,
    pub grid: Rgba,
    pub flow: Seq<Rgba>,
}

impl View for Theme {
    type V = ThemeView;

    open spec fn view(&self) -> ThemeView {
        ThemeView {
            name: self.name@,
            dark: self.dark,
            bg: self.bg,
            panel: self.panel,
            surface: self.surface,
            text: self.text,
            muted: self.muted,
            accent: self.accent,
            accent2: self.accent2,
            good: self.good,
            warn: self.warn,
            bad: self.bad,
            grid: self.grid,
            flow: self.flow@,
        }
    }
}

impl Theme {
    /// The color of flow `i` (the palette's flow colors repeat).
    pub fn flow_color(&self, i: usize) -> (c: Rgba)
        ensures
            c == self.flow@[(i % 6) as int],
    {
        self.flow[i % 6]
    }
}

/// The theme a palette of color strings describes.
pub open spec fn palette(
    name: Seq<char>,
    dark: bool,
    bg: Seq<char>,
    panel: Seq<char>,
    surface: Seq<char>,
    text: Seq<char>,
    muted: Seq<char>,
    accent: Seq<char>,
    accent2: Seq<char>,
    good: Seq<char>,
    warn: Seq<char>,
    bad: Seq<char>,
    grid: Seq<char>,
    flow: Seq<Seq<char>>,
) -> ThemeView {
    ThemeView {
        name,
        dark,
        bg: spec_hex(bg),
        panel: spec_hex(panel),
        surface: spec_hex(surface),
        text: spec_hex(text),
        muted: spec_hex(muted),
        accent: spec_hex(accent),
        accent2: spec_hex(accent2),
        good: spec_hex(good),
        warn: spec_hex(warn),
        bad: spec_hex(bad),
        grid: spec_hex(grid),
        flow: flow.map_values(|c: Seq<char>| spec_hex(c)),
    }
}

fn make_theme(
    name: &str,
    dark: bool,
    bg: &str,
    panel: &str,
    surface: &str,
    text: &str,
    muted: &str,
    accent: &str,
    accent2: &str,
    good: &str,
    warn: &str,
    bad: &str,
    grid: &str,
    flow: [&str; 6],
) -> (t: Theme)
    ensures
        t@ == palette(
            name@,
            dark,
            bg@,
            panel@,
            surface@,
            text@,
            muted@,
            accent@,
            accent2@,
            good@,
            warn@,
            bad@,
            grid@,
            seq![flow[0]@, flow[1]@, flow[2]@, flow[3]@, flow[4]@, flow[5]@],
        ),
{
    let fl = [hex(flow[0]), hex(flow[1]), hex(flow[2]), hex(flow[3]), hex(flow[4]), hex(flow[5])];
    let t = Theme {
        name: String::from_str(name),
        dark,
        bg: hex(bg),
        panel: hex(panel),
        surface: hex(surface),
        text: hex(text),
        muted: hex(muted),
        accent: hex(accent),
        accent2: hex(accent2),
        good: hex(good),
        warn: hex(warn),
        bad: hex(bad),
        grid: hex(grid),
        flow: fl,
    };
    assert(t.flow@ =~= seq![flow[0]@, flow[1]@, flow[2]@, flow[3]@, flow[4]@, flow[5]@].map_values(|c: Seq<char>| spec_hex(c)));
    t
}

/// The Midnight palette.
#[verifier::opaque]
pub open spec fn midnight_view() -> ThemeView {
    palette("Midnight"@, true, "#12161f"@, "#1a2230"@, "#0d121b"@, "#cdd6e0"@, "#7a8694"@, "#39d98a"@, "#5aa0e6"@, "#78c878"@, "#dcc85a"@, "#dc6e5a"@, "#222c3a"@, seq!["#39d98a"@, "#5aaae6"@, "#e6aa50"@, "#d26ec8"@, "#78d2d2"@, "#e6786e"@])
}

fn midnight() -> (t: Theme)
    ensures
        t@ == midnight_view(),
{
    reveal(midnight_view);
    make_theme("Midnight", true, "#12161f", "#1a2230", "#0d121b", "#cdd6e0", "#7a8694", "#39d98a", "#5aa0e6", "#78c878", "#dcc85a", "#dc6e5a", "#222c3a", ["#39d98a", "#5aaae6", "#e6aa50", "#d26ec8", "#78d2d2", "#e6786e"])
}

/// The Aurora palette.
#[verifier::opaque]
pub open spec fn aurora_view() -> ThemeView {
    palette("Aurora"@, true, "#0f1420"@, "#18203a"@, "#0b1020"@, "#e6ecf5"@, "#8893a8"@, "#7c5cff"@, "#2ad5c8"@, "#4fd6a0"@, "#ffcf5c"@, "#ff6b8b"@, "#232c46"@, seq!["#7c5cff"@, "#2ad5c8"@, "#ffcf5c"@, "#ff6b8b"@, "#5aa0e6"@, "#a0e65a"@])
}

fn aurora() -> (t: Theme)
    ensures
        t@ == aurora_view(),
{
    reveal(aurora_view);
    make_theme("Aurora", true, "#0f1420", "#18203a", "#0b1020", "#e6ecf5", "#8893a8", "#7c5cff", "#2ad5c8", "#4fd6a0", "#ffcf5c", "#ff6b8b", "#232c46", ["#7c5cff", "#2ad5c8", "#ffcf5c", "#ff6b8b", "#5aa0e6", "#a0e65a"])
}

/// The Nord palette.
#[verifier::opaque]
pub open spec fn nord_view() -> ThemeView {
    palette("Nord"@, true, "#2e3440"@, "#3b4252"@, "#272c36"@, "#d8dee9"@, "#7b8694"@, "#88c0d0"@, "#81a1c1"@, "#a3be8c"@, "#ebcb8b"@, "#bf616a"@, "#434c5e"@, seq!["#88c0d0"@, "#81a1c1"@, "#a3be8c"@, "#ebcb8b"@, "#b48ead"@, "#bf616a"@])
}

fn nord() -> (t: Theme)
    ensures
        t@ == nord_view(),
{
    reveal(nord_view);
    make_theme("Nord", true, "#2e3440", "#3b4252", "#272c36", "#d8dee9", "#7b8694", "#88c0d0", "#81a1c1", "#a3be8c", "#ebcb8b", "#bf616a", "#434c5e", ["#88c0d0", "#81a1c1", "#a3be8c", "#ebcb8b", "#b48ead", "#bf616a"])
}

/// The Solarized palette.
#[verifier::opaque]
pub open spec fn solarized_view() -> ThemeView {
    palette("Solarized"@, true, "#002b36"@, "#073642"@, "#00212b"@, "#93a1a1"@, "#586e75"@, "#2aa198"@, "#268bd2"@, "#859900"@, "#b58900"@, "#dc322f"@, "#0a3a45"@, seq!["#2aa198"@, "#268bd2"@, "#859900"@, "#b58900"@, "#d33682"@, "#cb4b16"@])
}

fn solarized() -> (t: Theme)
    ensures
        t@ == solarized_view(),
{
    reveal(solarized_view);
    make_theme("Solarized", true, "#002b36", "#073642", "#00212b", "#93a1a1", "#586e75", "#2aa198", "#268bd2", "#859900", "#b58900", "#dc322f", "#0a3a45", ["#2aa198", "#268bd2", "#859900", "#b58900", "#d33682", "#cb4b16"])
}

/// The Paper palette.
#[verifier::opaque]
pub open spec fn paper_view() -> ThemeView {
    palette("Paper"@, false, "#f5f3ee"@, "#eae6dc"@, "#ffffff"@, "#2b2a26"@, "#8a857a"@, "#2f8f6f"@, "#2f6f9f"@, "#2f8f4f"@, "#b08900"@, "#c0392b"@, "#ddd8cc"@, seq!["#2f8f6f"@, "#2f6f9f"@, "#b08900"@, "#a0408f"@, "#2f9f9f"@, "#c0392b"@])
}

fn paper() -> (t: Theme)
    ensures
        t@ == paper_view(),
{
    reveal(paper_view);
    make_theme("Paper", false, "#f5f3ee", "#eae6dc", "#ffffff", "#2b2a26", "#8a857a", "#2f8f6f", "#2f6f9f", "#2f8f4f", "#b08900", "#c0392b", "#ddd8cc", ["#2f8f6f", "#2f6f9f", "#b08900", "#a0408f", "#2f9f9f", "#c0392b"])
}

/// The Mono palette.
#[verifier::opaque]
pub open spec fn mono_view() -> ThemeView {
    palette("Mono"@, true, "#0a0a0a"@, "#161616"@, "#000000"@, "#e8e8e8"@, "#888888"@, "#f0f0f0"@, "#bbbbbb"@, "#9fd99f"@, "#d9cf9f"@, "#d99f9f"@, "#2a2a2a"@, seq!["#e8e8e8"@, "#7fb0ff"@, "#ffd27f"@, "#ff9f9f"@, "#9fffcf"@, "#cf9fff"@])
}

fn mono() -> (t: Theme)
    ensures
        t@ == mono_view(),
{
    reveal(mono_view);
    make_theme("Mono", true, "#0a0a0a", "#161616", "#000000", "#e8e8e8", "#888888", "#f0f0f0", "#bbbbbb", "#9fd99f", "#d9cf9f", "#d99f9f", "#2a2a2a", ["#e8e8e8", "#7fb0ff", "#ffd27f", "#ff9f9f", "#9fffcf", "#cf9fff"])
}

/// The built-in palettes, in selector order; the first is the default.
pub open spec fn builtin_views() -> Seq<ThemeView> {
    seq![midnight_view(), aurora_view(), nord_view(), solarized_view(), paper_view(), mono_view()]
}

/// The built-in themes, in selector order: Midnight (the default), Aurora,
/// Nord, Solarized, Paper, Mono.
pub fn builtins() -> (v: Vec<Theme>)
    ensures
        v@.map_values(|t: Theme| t@) == builtin_views(),
{
    let mut v: Vec<Theme> = Vec::new();
    v.push(midnight());
    v.push(aurora());
    v.push(nord());
    v.push(solarized());
    v.push(paper());
    v.push(mono());
    assert(v@.map_values(|t: Theme| t@) =~= builtin_views());
    v
}

/// The shape of a user theme file (`*.toml`): color strings, and flow
/// colors of which the first six are used.
pub struct ThemeFile {
    pub name: String,
    pub dark: bool,
    pub bg: String,
    pub panel: String,
    pub surface: String,
    pub text: String,
    pub muted: String,
    pub accent: String,
    pub accent2: String,
    pub good: String,
    pub warn: String,
    pub bad: String,
    pub grid: String,
    pub flow: Vec<String>,
}

/// What a theme file leaves out of `dark` reads as: dark.
pub fn default_true() -> (b: bool)
    ensures
        b,
{
    true
}

/// The flow colors a theme file gives: its first six, gray for the rest.
pub open spec fn file_flow(flow: Seq<String>) -> Seq<Rgba> {
    Seq::new(6, |i: int| if i < flow.len() { spec_hex(flow[i]@) } else { spec_gray() })
}

impl ThemeFile {
    /// The theme this file describes.
    pub fn into_theme(self) -> (t: Theme)
        ensures
            t@ == (ThemeView {
                name: self.name@,
                dark: self.dark,
                bg: spec_hex(self.bg@),
                panel: spec_hex(self.panel@),
                surface: spec_hex(self.surface@),
                text: spec_hex(self.text@),
                muted: spec_hex(self.muted@),
                accent: spec_hex(self.accent@),
                accent2: spec_hex(self.accent2@),
                good: spec_hex(self.good@),
                warn: spec_hex(self.warn@),
                bad: spec_hex(self.bad@),
                grid: spec_hex(self.grid@),
                flow: file_flow(self.flow@),
            }),
    {
        let g = gray();
        let mut flow = [g, g, g, g, g, g];
        let mut i: usize = 0;
        while i < self.flow.len() && i < 6
            invariant
                i <= 6,
                i <= self.flow@.len(),
                flow@.len() == 6,
                forall|j: int| 0 <= j < i ==> flow@[j] == spec_hex(self.flow@[j]@),
                forall|j: int| i <= j < 6 ==> flow@[j] == spec_gray(),
            decreases 6 - i,
        {
            flow[i] = hex(self.flow[i].as_str());
            i = i + 1;
        }
        assert(flow@ =~= file_flow(self.flow@));
        Theme {
            name: self.name,
            dark: self.dark,
            bg: hex(self.bg.as_str()),
            panel: hex(self.panel.as_str()),
            surface: hex(self.surface.as_str()),
            text: hex(self.text.as_str()),
            muted: hex(self.muted.as_str()),
            accent: hex(self.accent.as_str()),
            accent2: hex(self.accent2.as_str()),
            good: hex(self.good.as_str()),
            warn: hex(self.warn.as_str()),
            bad: hex(self.bad.as_str()),
            grid: hex(self.grid.as_str()),
            flow,
        }
    }
}

/// The topology color of an AS: the theme's muted color when unknown, else a
/// color hashed from the AS number (each channel in `90..=201`).
pub open spec fn spec_asn_color(asn: Option<u32>, muted: Rgba) -> Rgba {
    match asn {
        None => muted,
        Some(a) => {
            let h = ((a as nat * 2_654_435_761nat) % 0x1_0000_0000nat) as u32;
            Rgba {
                r: (90 + (h & 0x6fu32)) as u8,
                g: (90 + ((h >> 8u32) & 0x6fu32)) as u8,
                b: (90 + ((h >> 16u32) & 0x6fu32)) as u8,
                a: 255,
            }
        },
    }
}

pub fn asn_color(asn: Option<u32>, theme: &Theme) -> (c: Rgba)
    ensures
        c == spec_asn_color(asn, theme.muted),
{
    match asn {
        None => theme.muted,
        Some(a) => {
            let h = a.wrapping_mul(2_654_435_761u32);
            let r = h & 0x6fu32;
            let g = (h >> 8u32) & 0x6fu32;
            let b = (h >> 16u32) & 0x6fu32;
            assert(r <= 0x6f) by (bit_vector)
                requires r == h & 0x6fu32;
            assert(g <= 0x6f) by (bit_vector)
                requires g == (h >> 8u32) & 0x6fu32;
            assert(b <= 0x6f) by (bit_vector)
                requires b == (h >> 16u32) & 0x6fu32;
            Rgba { r: (90 + r) as u8, g: (90 + g) as u8, b: (90 + b) as u8, a: 255 }
        },
    }
}

/// The template written next to a user's themes the first time the themes
/// folder is created.
pub const STARTER_TOML: &'static str = r##"# hopscout custom theme — copy and tweak. Colors are #rrggbb (or #rrggbbaa).
name = "Custom Example"
dark = true
bg      = "#101418"
panel   = "#1b222b"
surface = "#0b0f14"
text    = "#d6dde6"
muted   = "#7c8794"
accent  = "#ff7a59"
accent2 = "#59b6ff"
good    = "#6fcf86"
warn    = "#e6c25a"
bad     = "#e0685a"
grid    = "#26303a"
flow    = ["#ff7a59", "#59b6ff", "#e6c25a", "#c06ed0", "#5ad2c2", "#e06e6e"]
"##;

} // verus!
