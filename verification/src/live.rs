//! Decisions of the live full-screen view and the report runner: what a key
//! does, what the status line says, how a hop's host and AS cells read, and
//! when a report is ready.
use vstd::prelude::*;
use crate::fields::Field;
use crate::model::{span_ns, MplsLabel, Span};
use crate::report::{min_samples, min_sent, first_index};
use crate::session::{spec_visible, Hop, Session};
use crate::text::{decimal, push_decimal};

verus! {

/// Display flags that drive how the live view renders.
pub struct DisplayOpts {
    /// Annotate hosts with their MPLS label stack (udp/tcp modes).
    pub show_mpls: bool,
    /// Show `name (ip)` instead of just the resolved name.
    pub show_ips: bool,
    /// Don't show resolved names (mirror `--no-dns`).
    pub no_dns: bool,
    /// Show the full alerts pane instead of the hop table.
    pub show_alerts: bool,
    /// Stat columns, in order.
    pub fields: Vec<Field>,
}

/// What a key press in the live view asks for.
#[derive(Clone, Copy, Debug, PartialEq, Eq, Structural)]
pub enum KeyAction {
    Quit,
    TogglePause,
    Reset,
    CaptureBaseline,
    ToggleAlerts,
    Nothing,
}

/// `q` or Esc quits, `p` or space pauses and resumes, `r` resets, `b`
/// captures a baseline, `a` switches between the hop table and the alerts
/// pane; other keys do nothing. `key` is the character
/// typed, if the key was one.
pub fn key_action(key: Option<char>, esc: bool) -> (a: KeyAction)
    ensures
        a == if esc {
            KeyAction::Quit
        } else {
            match key {
                Some('q') => KeyAction::Quit,
                Some('p') => KeyAction::TogglePause,
                Some(' ') => KeyAction::TogglePause,
                Some('r') => KeyAction::Reset,
                Some('b') => KeyAction::CaptureBaseline,
                Some('a') => KeyAction::ToggleAlerts,
                _ => KeyAction::Nothing,
            }
        },
{
    if esc {
        return KeyAction::Quit;
    }
    match key {
        Some('q') => KeyAction::Quit,
        Some('p') => KeyAction::TogglePause,
        Some(' ') => KeyAction::TogglePause,
        Some('r') => KeyAction::Reset,
        Some('b') => KeyAction::CaptureBaseline,
        Some('a') => KeyAction::ToggleAlerts,
        _ => KeyAction::Nothing,
    }
}

/// The status-line text about path discovery.
pub open spec fn spec_path_status(path_len: Option<u8>) -> Seq<char> {
    match path_len {
        Some(p) => "destination at hop "@ + decimal(p as nat),
        None => "discovering path…"@,
    }
}

pub fn path_status(path_len: Option<u8>) -> (s: String)
    ensures
        s@ == spec_path_status(path_len),
{
    match path_len {
        Some(p) => {
            let mut s = String::from_str("destination at hop ");
            push_decimal(&mut s, p as u64);
            s
        },
        None => String::from_str("discovering path…"),
    }
}

/// The labels of an MPLS stack, comma-separated.
pub open spec fn label_list(m: Seq<MplsLabel>) -> Seq<char>
    decreases m.len(),
{
    if m.len() == 0 {
        Seq::empty()
    } else if m.len() == 1 {
        decimal(m[0].label as nat)
    } else {
        label_list(m.drop_last()) + ","@ + decimal(m.last().label as nat)
    }
}

/// A host cell with the hop's MPLS labels appended, when there are any.
pub open spec fn spec_with_mpls(host: Seq<char>, m: Seq<MplsLabel>) -> Seq<char> {
    if m.len() == 0 { host } else { host + " [MPLS "@ + label_list(m) + "]"@ }
}

pub fn with_mpls(host: String, mpls: &Vec<MplsLabel>) -> (r: String)
    ensures
        r@ == spec_with_mpls(host@, mpls@),
{
    if mpls.len() == 0 {
        return host;
    }
    let mut r = host;
    r.append(" [MPLS ");
    let ghost start = r@;
    let mut i: usize = 0;
    while i < mpls.len()
        invariant
            1 <= mpls@.len(),
            i <= mpls@.len(),
            r@ == start + label_list(mpls@.take(i as int)),
        decreases mpls@.len() - i,
    {
        if i > 0 {
            r.append(",");
        }
        push_decimal(&mut r, mpls[i].label as u64);
        assert(mpls@.take(i + 1).drop_last() =~= mpls@.take(i as int));
        i = i + 1;
    }
    assert(mpls@.take(mpls@.len() as int) =~= mpls@);
    r.append("]");
    r
}

/// The AS cell: `AS<n>`, or empty when the origin is unknown.
pub open spec fn spec_asn_cell(asn: Option<u32>) -> Seq<char> {
    match asn {
        Some(n) => "AS"@ + decimal(n as nat),
        None => Seq::empty(),
    }
}

pub fn asn_cell(asn: Option<u32>) -> (s: String)
    ensures
        s@ == spec_asn_cell(asn),
{
    match asn {
        Some(n) => {
            let mut s = String::from_str("AS");
            push_decimal(&mut s, n as u64);
            s
        },
        None => String::new(),
    }
}

/// A report is ready once the destination was found and every visible hop
/// from the first TTL on has at least `cycles` probes.
pub fn report_ready(s: &Session, first_ttl: u8, cycles: u32) -> (b: bool)
    ensures
        b == (s.path_len is Some && ({
            let n = spec_visible(s.path_len, s.hops@.len());
            let a = first_index(first_ttl);
            if a >= n { 0 } else { min_sent(s.hops_view(), a, n as int) }
        }) >= cycles),
{
    s.path_len.is_some() && min_samples(s, first_ttl) >= cycles as u64
}

/// How long a report may run before it prints regardless, in nanoseconds:
/// `cycles + 4` probe intervals (an interval counted as at least 50 ms)
/// plus three seconds.
pub fn report_budget_ns(interval: Span, cycles: u32) -> (ns: u128)
    requires
        cycles <= u32::MAX - 4,
    ensures
        ns == (if span_ns(interval) < 50_000_000 { 50_000_000 } else { span_ns(interval) }) * (cycles + 4)
            + 3_000_000_000,
{
    let per: u128 = interval.as_nanos();
    let per: u128 = if per < 50_000_000 { 50_000_000 } else { per };
    assert(per <= 0xffff_ffff_ffff_ffff * 1_000_000_000 + 0x1_0000_0000);
    assert(per * (cycles as u128 + 4) <= (0xffff_ffff_ffff_ffff * 1_000_000_000 + 0x1_0000_0000) * 0x1_0000_0000) by (nonlinear_arith)
        requires per <= 0xffff_ffff_ffff_ffff * 1_000_000_000 + 0x1_0000_0000, cycles as u128 + 4 <= 0x1_0000_0000;
    per * (cycles as u128 + 4) + 3_000_000_000
}

} // verus!
