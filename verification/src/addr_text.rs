//! Display text of IP addresses, as the reports and lookup services expect:
//! dotted quad for IPv4, RFC 5952 style for IPv6 (lowercase hex, the first
//! longest run of two or more zero groups compressed to `::`, IPv4-mapped
//! addresses as `::ffff:a.b.c.d`).
use vstd::prelude::*;
use crate::model::Addr;
use crate::text::{decimal, push_char, push_decimal};

verus! {

/// The dotted-quad text of an IPv4 address.
pub open spec fn dotted(x: u32) -> Seq<char> {
    decimal(((x >> 24u32) & 0xffu32) as nat) + seq!['.'] + decimal(((x >> 16u32) & 0xffu32) as nat)
        + seq!['.'] + decimal(((x >> 8u32) & 0xffu32) as nat) + seq!['.'] + decimal(
        (x & 0xffu32) as nat,
    )
}

fn push_dotted(s: &mut String, x: u32)
    ensures
        final(s)@ == old(s)@ + dotted(x),
{
    push_decimal(s, ((x >> 24u32) & 0xffu32) as u64);
    push_char(s, '.');
    push_decimal(s, ((x >> 16u32) & 0xffu32) as u64);
    push_char(s, '.');
    push_decimal(s, ((x >> 8u32) & 0xffu32) as u64);
    push_char(s, '.');
    push_decimal(s, (x & 0xffu32) as u64);
    assert(s@ =~= old(s)@ + dotted(x));
}

/// The lowercase hex digit for `d < 16`.
pub open spec fn hex_char(d: nat) -> char {
    if d < 10 { ('0' as nat + d) as char } else { ('a' as nat + (d - 10)) as char }
}

/// Lowercase hex without leading zeros.
pub open spec fn hex_text(n: nat) -> Seq<char>
    decreases n,
{
    if n < 16 { seq![hex_char(n)] } else { hex_text(n / 16).push(hex_char(n % 16)) }
}

fn hex_digit(d: u16) -> (c: char)
    requires
        d < 16,
    ensures
        c == hex_char(d as nat),
{
    if d == 0 { '0' } else if d == 1 { '1' } else if d == 2 { '2' } else if d == 3 { '3' }
    else if d == 4 { '4' } else if d == 5 { '5' } else if d == 6 { '6' } else if d == 7 { '7' }
    else if d == 8 { '8' } else if d == 9 { '9' } else if d == 10 { 'a' } else if d == 11 { 'b' }
    else if d == 12 { 'c' } else if d == 13 { 'd' } else if d == 14 { 'e' } else { 'f' }
}

fn push_hex(s: &mut String, n: u16)
    ensures
        final(s)@ == old(s)@ + hex_text(n as nat),
    decreases n,
{
    if n >= 16 {
        push_hex(s, n / 16);
    }
    push_char(s, hex_digit(n % 16));
    assert(hex_text(n as nat) =~= if n < 16 {
        seq![hex_char(n as nat)]
    } else {
        hex_text((n / 16) as nat).push(hex_char((n % 16) as nat))
    });
}

/// The eight 16-bit groups of an IPv6 address, most significant first.
pub open spec fn groups(x: u128) -> Seq<u16> {
    seq![
        ((x >> 112u128) & 0xffffu128) as u16,
        ((x >> 96u128) & 0xffffu128) as u16,
        ((x >> 80u128) & 0xffffu128) as u16,
        ((x >> 64u128) & 0xffffu128) as u16,
        ((x >> 48u128) & 0xffffu128) as u16,
        ((x >> 32u128) & 0xffffu128) as u16,
        ((x >> 16u128) & 0xffffu128) as u16,
        (x & 0xffffu128) as u16,
    ]
}

/// Groups `a .. b` in hex, separated by colons.
pub open spec fn join_groups(g: Seq<u16>, a: int, b: int) -> Seq<char>
    decreases b - a,
{
    if b <= a {
        Seq::empty()
    } else if b == a + 1 {
        hex_text(g[a] as nat)
    } else {
        join_groups(g, a, b - 1) + seq![':'] + hex_text(g[b - 1] as nat)
    }
}

/// The zero run chosen for compression after scanning groups `0 .. i`:
/// (longest start, longest length, current start, current length). A run
/// replaces the longest only when strictly longer, so the first wins ties.
pub open spec fn zero_scan(g: Seq<u16>, i: nat) -> (int, int, int, int)
    decreases i,
{
    if i == 0 {
        (0, 0, 0, 0)
    } else {
        let (ls, ll, cs, cl) = zero_scan(g, (i - 1) as nat);
        let k = i - 1;
        if g[k] == 0 {
            let (cs2, cl2) = if cl == 0 { (k, 1) } else { (cs, cl + 1) };
            if cl2 > ll { (cs2, cl2, cs2, cl2) } else { (ls, ll, cs2, cl2) }
        } else {
            (ls, ll, 0, 0)
        }
    }
}

/// Whether the address is IPv4-mapped (`::ffff:a.b.c.d`).
pub open spec fn is_v4_mapped(x: u128) -> bool {
    x >> 32u128 == 0xffffu128
}

/// The display text of an IPv6 address.
pub open spec fn v6_text(x: u128) -> Seq<char> {
    if is_v4_mapped(x) {
        "::ffff:"@ + dotted((x & 0xffff_ffffu128) as u32)
    } else {
        let g = groups(x);
        let (s, l, _, _) = zero_scan(g, 8);
        if l > 1 {
            join_groups(g, 0, s) + seq![':', ':'] + join_groups(g, s + l, 8)
        } else {
            join_groups(g, 0, 8)
        }
    }
}

/// The display text of an address.
pub open spec fn addr_display(a: Addr) -> Seq<char> {
    match a {
        Addr::V4(x) => dotted(x),
        Addr::V6(x) => v6_text(x),
    }
}

fn push_groups(s: &mut String, g: &[u16; 8], a: usize, b: usize)
    requires
        a <= b <= 8,
    ensures
        final(s)@ == old(s)@ + join_groups(g@, a as int, b as int),
{
    let mut i = a;
    while i < b
        invariant
            a <= i <= b,
            b <= 8,
            s@ == old(s)@ + join_groups(g@, a as int, i as int),
        decreases b - i,
    {
        if i > a {
            push_char(s, ':');
        }
        push_hex(s, g[i]);
        assert(s@ =~= old(s)@ + join_groups(g@, a as int, (i + 1) as int));
        i = i + 1;
    }
}

/// Format an address as text.
pub fn addr_text(a: Addr) -> (s: String)
    ensures
        s@ == addr_display(a),
{
    let mut s = String::new();
    match a {
        Addr::V4(x) => {
            push_dotted(&mut s, x);
        },
        Addr::V6(x) => {
            if x >> 32u128 == 0xffffu128 {
                s.append("::ffff:");
                push_dotted(&mut s, (x & 0xffff_ffffu128) as u32);
            } else {
                let g: [u16; 8] = [
                    ((x >> 112u128) & 0xffffu128) as u16,
                    ((x >> 96u128) & 0xffffu128) as u16,
                    ((x >> 80u128) & 0xffffu128) as u16,
                    ((x >> 64u128) & 0xffffu128) as u16,
                    ((x >> 48u128) & 0xffffu128) as u16,
                    ((x >> 32u128) & 0xffffu128) as u16,
                    ((x >> 16u128) & 0xffffu128) as u16,
                    (x & 0xffffu128) as u16,
                ];
                assert(g@ =~= groups(x));
                let mut ls: usize = 0;
                let mut ll: usize = 0;
                let mut cs: usize = 0;
                let mut cl: usize = 0;
                let mut i: usize = 0;
                while i < 8
                    invariant
                        i <= 8,
                        g@ == groups(x),
                        (ls as int, ll as int, cs as int, cl as int) == zero_scan(g@, i as nat),
                        ll <= i && cl <= i && ls <= i && cs <= i,
                    decreases 8 - i,
                {
                    if g[i] == 0 {
                        if cl == 0 {
                            cs = i;
                            cl = 1;
                        } else {
                            cl = cl + 1;
                        }
                        if cl > ll {
                            ls = cs;
                            ll = cl;
                        }
                    } else {
                        cs = 0;
                        cl = 0;
                    }
                    i = i + 1;
                }
                proof {
                    lemma_zero_scan_bounds(g@, 8);
                }
                if ll > 1 {
                    push_groups(&mut s, &g, 0, ls);
                    push_char(&mut s, ':');
                    push_char(&mut s, ':');
                    push_groups(&mut s, &g, ls + ll, 8);
                } else {
                    push_groups(&mut s, &g, 0, 8);
                }
            }
        },
    }
    s
}

proof fn lemma_zero_scan_bounds(g: Seq<u16>, i: nat)
    ensures
        ({
            let (ls, ll, cs, cl) = zero_scan(g, i);
            0 <= ls && 0 <= ll && ls + ll <= i && 0 <= cs && 0 <= cl && cs + cl <= i
        }),
    decreases i,
{
    if i > 0 {
        lemma_zero_scan_bounds(g, (i - 1) as nat);
    }
}

/// The short form of an address used to label topology nodes: the last two
/// octets of an IPv4 address, the last group (hex) of an IPv6 one.
pub open spec fn spec_short_addr(a: Addr) -> Seq<char> {
    match a {
        Addr::V4(x) => decimal(((x >> 8u32) & 0xffu32) as nat) + seq!['.'] + decimal((x & 0xffu32) as nat),
        Addr::V6(x) => hex_text((x & 0xffffu128) as nat),
    }
}

pub fn short_addr(a: Addr) -> (s: String)
    ensures
        s@ == spec_short_addr(a),
{
    let mut s = String::new();
    match a {
        Addr::V4(x) => {
            push_decimal(&mut s, ((x >> 8u32) & 0xffu32) as u64);
            push_char(&mut s, '.');
            push_decimal(&mut s, (x & 0xffu32) as u64);
        },
        Addr::V6(x) => {
            let w: u128 = x & 0xffffu128;
            assert(w <= 0xffff) by (bit_vector)
                requires w == x & 0xffffu128;
            let g: u16 = w as u16;
            push_hex(&mut s, g);
            assert(s@ =~= hex_text(w as nat));
        },
    }
    s
}

} // verus!
