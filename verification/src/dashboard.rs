//! Decisions of the multi-target dashboard: the engine settings a target is
//! started with, which target stays selected when one is removed, and how a
//! target's report is exported.
use vstd::prelude::*;
use crate::alert::Alert;
use crate::engine::EngineConfig;
use crate::fields::default_fields;
use crate::model::{Addr, ProbeProtocol, Span};
use crate::session::{spec_visible, HopView, Session};
use crate::report::ReportParams;
use crate::text::{chars_of, push_char};
use crate::theme::{Rgba, Theme};

verus! {

/// A whole number of milliseconds as a span.
pub open spec fn span_of_ms(ms: u64) -> Span {
    Span { secs: ms / 1000, nanos: ((ms % 1000) * 1_000_000) as u32 }
}

pub fn span_from_ms(ms: u64) -> (s: Span)
    ensures
        s == span_of_ms(ms),
{
    Span { secs: ms / 1000, nanos: ((ms % 1000) * 1_000_000) as u32 }
}

/// The engine settings for a new target from the dashboard's fields: an
/// interval of at least 1 ms, a timeout of at least 50 ms, at least one hop,
/// a first TTL within `1..=max_hops`, and at least one flow.
pub fn settings_config(
    target: Addr,
    interval_ms: u64,
    timeout_ms: u64,
    max_hops: u8,
    first_ttl: u8,
    psize: usize,
    proto: ProbeProtocol,
    flows: u8,
) -> (c: EngineConfig)
    ensures
        c.target == target,
        c.interval == span_of_ms(if interval_ms < 1 { 1 } else { interval_ms }),
        c.timeout == span_of_ms(if timeout_ms < 50 { 50 } else { timeout_ms }),
        c.max_hops == if max_hops < 1 { 1 } else { max_hops },
        c.first_ttl == if first_ttl < 1 { 1 } else if first_ttl > c.max_hops { c.max_hops } else { first_ttl },
        c.payload_size == psize,
        c.protocol == proto,
        c.flows == if flows < 1 { 1 } else { flows },
{
    let mut c = EngineConfig::new(target);
    c.interval = span_from_ms(if interval_ms < 1 { 1 } else { interval_ms });
    c.timeout = span_from_ms(if timeout_ms < 50 { 50 } else { timeout_ms });
    c.max_hops = if max_hops < 1 { 1 } else { max_hops };
    c.first_ttl = if first_ttl < 1 {
        1
    } else if first_ttl > c.max_hops {
        c.max_hops
    } else {
        first_ttl
    };
    c.payload_size = psize;
    c.protocol = proto;
    c.flows = if flows < 1 { 1 } else { flows };
    c
}

/// The selected target after one was removed and `remaining` are left: none
/// when nothing is left, else the previous selection (the first if there was
/// none) kept within range.
pub fn selection_after_remove(active: Option<usize>, remaining: usize) -> (r: Option<usize>)
    ensures
        r == if remaining == 0 {
            None::<usize>
        } else {
            let a = match active {
                Some(i) => i,
                None => 0,
            };
            Some(if a < remaining - 1 { a } else { (remaining - 1) as usize })
        },
        r matches Some(i) ==> i < remaining,
{
    if remaining == 0 {
        return None;
    }
    let a = match active {
        Some(i) => i,
        None => 0,
    };
    Some(if a < remaining - 1 { a } else { remaining - 1 })
}

/// Report formats the export writes.
#[derive(Clone, Copy, Debug, PartialEq, Eq, Structural)]
pub enum ExportFormat {
    Text,
    Json,
    Csv,
}

pub open spec fn spec_extension(f: ExportFormat) -> Seq<char> {
    match f {
        ExportFormat::Text => "txt"@,
        ExportFormat::Json => "json"@,
        ExportFormat::Csv => "csv"@,
    }
}

/// The file extension of a format.
pub fn extension(f: ExportFormat) -> (e: &'static str)
    ensures
        e@ == spec_extension(f),
{
    match f {
        ExportFormat::Text => "txt",
        ExportFormat::Json => "json",
        ExportFormat::Csv => "csv",
    }
}

/// A label character kept in a file name: ASCII letters and digits, `.` and
/// `-`; anything else becomes `_`.
pub open spec fn safe_char(c: char) -> char {
    if ('a' <= c && c <= 'z') || ('A' <= c && c <= 'Z') || ('0' <= c && c <= '9') || c == '.' || c == '-' {
        c
    } else {
        '_'
    }
}

/// The file name an export of target `label` is saved under.
pub open spec fn spec_export_name(label: Seq<char>, f: ExportFormat) -> Seq<char> {
    "hopscout-"@ + label.map_values(|c: char| safe_char(c)) + "."@ + spec_extension(f)
}

pub fn export_file_name(label: &str, f: ExportFormat) -> (name: String)
    ensures
        name@ == spec_export_name(label@, f),
{
    let cs = chars_of(label);
    let mut name = String::from_str("hopscout-");
    let ghost start = name@;
    let mut i: usize = 0;
    while i < cs.len()
        invariant
            i <= cs@.len(),
            cs@ == label@,
            name@ == start + cs@.take(i as int).map_values(|c: char| safe_char(c)),
        decreases cs@.len() - i,
    {
        let c = cs[i];
        let k = if ('a' <= c && c <= 'z') || ('A' <= c && c <= 'Z') || ('0' <= c && c <= '9') || c == '.'
            || c == '-' {
            c
        } else {
            '_'
        };
        push_char(&mut name, k);
        assert(cs@.take(i + 1).map_values(|c: char| safe_char(c)) =~= cs@.take(i as int).map_values(
            |c: char| safe_char(c),
        ).push(safe_char(c)));
        i = i + 1;
    }
    assert(cs@.take(cs@.len() as int) =~= cs@);
    name.append(".");
    name.append(extension(f));
    name
}

/// The report settings of an export: full-width host names, MPLS lines, the
/// default columns, and the target's own first TTL and payload size.
pub fn export_params(label: String, first_ttl: u8, psize: usize, no_dns: bool, show_ips: bool) -> (p: ReportParams)
    ensures
        p.target@ == label@,
        p.first_ttl == first_ttl,
        p.psize == psize,
        p.cycles == 0,
        p.wide,
        p.no_dns == no_dns,
        p.show_ips == show_ips,
        p.mpls,
        p.fields@ == default_fields(),
{
    let mut p = ReportParams::new(label);
    p.first_ttl = first_ttl;
    p.psize = psize;
    p.wide = true;
    p.no_dns = no_dns;
    p.show_ips = show_ips;
    p.mpls = true;
    p
}

/// The color an alert is drawn in: route shifts in the warning color,
/// degradation in the bad color.
pub fn alert_color(a: &Alert, theme: &Theme) -> (c: Rgba)
    ensures
        c == match *a {
            Alert::RouteChanged { .. } | Alert::HopAppeared { .. } | Alert::HopDisappeared { .. } => theme.warn,
            Alert::LatencyRegression { .. } | Alert::LossOnset { .. } => theme.bad,
        },
{
    match a {
        Alert::RouteChanged { .. } | Alert::HopAppeared { .. } | Alert::HopDisappeared { .. } => theme.warn,
        Alert::LatencyRegression { .. } | Alert::LossOnset { .. } => theme.bad,
    }
}

/// The hop the latency sparkline shows: the selected one while it is
/// visible, else the last visible hop; none before any hop is visible.
pub fn sparkline_hop(selected: Option<usize>, visible: usize) -> (r: Option<usize>)
    ensures
        r == match selected {
            Some(i) if i < visible => Some(i),
            _ => if visible > 0 { Some((visible - 1) as usize) } else { None::<usize> },
        },
{
    match selected {
        Some(i) if i < visible => Some(i),
        _ => if visible > 0 { Some(visible - 1) } else { None },
    }
}

/// The topology node a flow passes at hop index `i`: the address it saw
/// there, if that address is one the hop has recorded.
pub open spec fn node_at(hops: Seq<HopView>, path: Seq<Option<Addr>>, i: int) -> Option<Addr> {
    if 0 <= i < path.len() && i < hops.len() {
        match path[i] {
            Some(a) => if hops[i].addrs.contains(a) { Some(a) } else { None },
            None => None,
        }
    } else {
        None
    }
}

/// The line segments a flow's path draws among hop indices `0 .. k`: one
/// from index `i - 1` to `i` (listed by `i`) wherever both ends are nodes; a
/// hop without one breaks the line.
pub open spec fn segments(hops: Seq<HopView>, path: Seq<Option<Addr>>, k: int) -> Seq<(usize, Addr, Addr)>
    decreases k,
{
    if k <= 1 {
        Seq::empty()
    } else {
        segments(hops, path, k - 1) + match (node_at(hops, path, k - 2), node_at(hops, path, k - 1)) {
            (Some(a), Some(b)) => seq![((k - 1) as usize, a, b)],
            _ => Seq::empty(),
        }
    }
}

fn addr_in(v: &Vec<Addr>, a: Addr) -> (b: bool)
    ensures
        b == v@.contains(a),
{
    let mut i: usize = 0;
    while i < v.len()
        invariant
            i <= v@.len(),
            forall|j: int| 0 <= j < i ==> v@[j] != a,
        decreases v@.len() - i,
    {
        if v[i] == a {
            assert(v@[i as int] == a);
            return true;
        }
        i = i + 1;
    }
    false
}

fn node_of(s: &Session, flow: usize, i: usize) -> (r: Option<Addr>)
    requires
        flow < s.paths@.len(),
    ensures
        r == node_at(s.hops_view(), s.paths_view()[flow as int], i as int),
{
    let path = &s.paths[flow];
    assert(s.paths_view()[flow as int] == path@);
    if i < path.len() && i < s.hops.len() {
        assert(s.hops_view()[i as int] == s.hops@[i as int]@);
        match path[i] {
            Some(a) => if addr_in(&s.hops[i].addrs, a) { Some(a) } else { None },
            None => None,
        }
    } else {
        None
    }
}

/// The segments the topology view draws for `flow` over the visible hops.
pub fn flow_segments(s: &Session, flow: usize) -> (out: Vec<(usize, Addr, Addr)>)
    requires
        flow < s.paths@.len(),
    ensures
        out@ == segments(s.hops_view(), s.paths_view()[flow as int], spec_visible(s.path_len, s.hops@.len()) as int),
{
    let n = s.visible_hops();
    let mut out: Vec<(usize, Addr, Addr)> = Vec::new();
    let mut i: usize = 1;
    while i < n
        invariant
            1 <= i,
            n == spec_visible(s.path_len, s.hops@.len()),
            n <= s.hops@.len(),
            flow < s.paths@.len(),
            n >= 1 ==> i <= n,
            n == 0 ==> i == 1,
            out@ == segments(s.hops_view(), s.paths_view()[flow as int], i as int),
        decreases n - i,
    {
        let a = node_of(s, flow, i - 1);
        let b = node_of(s, flow, i);
        match (a, b) {
            (Some(x), Some(y)) => {
                out.push((i, x, y));
            },
            _ => {},
        }
        assert(out@ =~= segments(s.hops_view(), s.paths_view()[flow as int], (i + 1) as int));
        i = i + 1;
    }
    proof {
        if n == 0 {
            assert(segments(s.hops_view(), s.paths_view()[flow as int], 0) == Seq::<(usize, Addr, Addr)>::empty());
            assert(segments(s.hops_view(), s.paths_view()[flow as int], i as int) == Seq::<(usize, Addr, Addr)>::empty());
        }
    }
    out
}

} // verus!
