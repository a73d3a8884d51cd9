//! The parts of the non-interactive reports (MTR-style text, JSON, CSV) that
//! decide what goes in a row: which hops, how a host is labelled, and when a
//! report has enough samples.
use vstd::prelude::*;
use crate::addr_text::{addr_display, addr_text};
use crate::fields::{default_fields, Field};
use crate::session::{primary, spec_visible, Hop, HopView, Session};
use crate::text::push_char;

verus! {

/// How to render a report. Built from command-line arguments.
pub struct ReportParams {
    /// Target label shown in the header (host name or IP as typed).
    pub target: String,
    /// First TTL to include (1-based); rows before it are skipped.
    pub first_ttl: u8,
    /// Payload size, echoed into the JSON `psize` field.
    pub psize: usize,
    /// Cycle count, echoed into the JSON `tests` field.
    pub cycles: u32,
    /// Don't truncate host names in the text report.
    pub wide: bool,
    /// Treat host names as absent (mirrors `--no-dns`).
    pub no_dns: bool,
    /// Show `name (ip)` instead of just the name.
    pub show_ips: bool,
    /// Include MPLS label lines in the text report.
    pub mpls: bool,
    /// Stat columns, in order.
    pub fields: Vec<Field>,
}

impl ReportParams {
    /// The default columns and flags for a target label.
    pub fn new(target: String) -> (p: ReportParams)
        ensures
            p.target@ == target@,
            p.first_ttl == 1,
            p.psize == 32,
            p.cycles == 0,
            !p.wide && !p.no_dns && !p.show_ips && !p.mpls,
            p.fields@ == default_fields(),
    {
        ReportParams {
            target,
            first_ttl: 1,
            psize: 32,
            cycles: 0,
            wide: false,
            no_dns: false,
            show_ips: false,
            mpls: false,
            fields: crate::fields::default(),
        }
    }
}

/// The first hop index a report shows.
pub open spec fn first_index(first_ttl: u8) -> int {
    if first_ttl == 0 { 0 } else { first_ttl - 1 }
}

/// The smallest sent count among hops `a .. b` (of a non-empty range).
pub open spec fn min_sent(hops: Seq<HopView>, a: int, b: int) -> nat
    decreases b - a,
{
    if b <= a + 1 {
        hops[a].sent
    } else if min_sent(hops, a, b - 1) <= hops[b - 1].sent {
        min_sent(hops, a, b - 1)
    } else {
        hops[b - 1].sent
    }
}

/// Smallest sample count across the visible hops from `first_ttl` on (what
/// "are we done yet?" is judged by); 0 when no such hop is visible.
pub fn min_samples(s: &Session, first_ttl: u8) -> (m: u64)
    ensures
        m == if first_index(first_ttl) >= spec_visible(s.path_len, s.hops@.len()) {
            0
        } else {
            min_sent(s.hops_view(), first_index(first_ttl), spec_visible(s.path_len, s.hops@.len()) as int)
        },
{
    let start: usize = if first_ttl == 0 { 0 } else { (first_ttl - 1) as usize };
    let n = s.visible_hops();
    if start >= n {
        return 0;
    }
    assert(s.hops_view()[start as int] == s.hops@[start as int]@);
    let mut m = s.hops[start].stat.sent();
    let mut i = start + 1;
    while i < n
        invariant
            start < i <= n,
            n <= s.hops@.len(),
            m == min_sent(s.hops_view(), start as int, i as int),
        decreases n - i,
    {
        assert(s.hops_view()[i as int] == s.hops@[i as int]@);
        let c = s.hops[i].stat.sent();
        if c < m {
            m = c;
        }
        i = i + 1;
    }
    m
}

/// The host cell of a hop: its name, `name (ip)`, the bare address, or the
/// fallback when there is neither.
pub open spec fn spec_host_label(h: HopView, show_ips: bool, no_dns: bool, fallback: Seq<char>) -> Seq<char> {
    let name = if no_dns { None } else { h.meta.hostname };
    match (name, primary(h)) {
        (Some(n), Some(a)) => if show_ips {
            n + " ("@ + addr_display(a) + ")"@
        } else {
            n
        },
        (Some(n), None) => n,
        (None, Some(a)) => addr_display(a),
        (None, None) => fallback,
    }
}

/// The host cell of a hop with the given display flags.
pub fn hop_host_label(hop: &Hop, show_ips: bool, no_dns: bool, fallback: &str) -> (r: String)
    ensures
        r@ == spec_host_label(hop@, show_ips, no_dns, fallback@),
{
    let name: Option<String> = if no_dns {
        None
    } else {
        match &hop.meta.hostname {
            Some(n) => Some(n.clone()),
            None => None,
        }
    };
    match (name, hop.primary_addr()) {
        (Some(n), Some(a)) => if show_ips {
            let mut r = n;
            r.append(" (");
            let ip = addr_text(a);
            r.append(ip.as_str());
            r.append(")");
            r
        } else {
            n
        },
        (Some(n), None) => n,
        (None, Some(a)) => addr_text(a),
        (None, None) => String::from_str(fallback),
    }
}

/// The report's host cell for hop index `i` (`???` when unknown).
pub fn host_label(s: &Session, i: usize, p: &ReportParams) -> (r: String)
    requires
        i < s.hops@.len(),
    ensures
        r@ == spec_host_label(s.hops_view()[i as int], p.show_ips, p.no_dns, "???"@),
{
    assert(s.hops_view()[i as int] == s.hops@[i as int]@);
    hop_host_label(&s.hops[i], p.show_ips, p.no_dns, "???")
}

/// The compact location of a hop: its city, else its country, else nothing.
pub open spec fn spec_geo_label(h: HopView) -> Seq<char> {
    match h.meta.city {
        Some(c) if c.len() > 0 => c,
        _ => match h.meta.country {
            Some(c) if c.len() > 0 => c,
            _ => Seq::empty(),
        },
    }
}

pub fn geo_label(hop: &Hop) -> (r: String)
    ensures
        r@ == spec_geo_label(hop@),
{
    if let Some(c) = &hop.meta.city {
        if c.as_str().unicode_len() > 0 {
            return c.clone();
        }
    }
    if let Some(c) = &hop.meta.country {
        if c.as_str().unicode_len() > 0 {
            return c.clone();
        }
    }
    String::new()
}

} // verus!
