//! The non-interactive reports: MTR-style text, MTR-compatible JSON, and CSV.
//! The numbers that are fractions of a millisecond or a percentage are
//! formatted by the caller, one [`HopFigures`] per hop, in the style of the
//! report at hand; everything else (which hops, labels, escaping, padding,
//! layout) is decided here.
use vstd::prelude::*;
use crate::addr_text::{addr_display, addr_text};
use crate::fields::{spec_header, Field};
use crate::live::{asn_cell, spec_asn_cell};
use crate::model::MplsLabel;
use crate::report::{first_index, host_label, spec_host_label, ReportParams};
use crate::session::{opt_str, primary, spec_visible, HopView, Session};
use crate::text::{
    csv_field, decimal, json_escape, push_char, push_decimal, spec_csv_field, spec_json_escape,
    spec_truncate, truncate,
};

verus! {

/// The pre-formatted figures of one hop: loss percentage and the round-trip
/// times (last, mean, best, worst, standard deviation, 95th percentile).
pub struct HopFigures {
    pub loss: String,
    pub last: String,
    pub avg: String,
    pub best: String,
    pub worst: String,
    pub stdev: String,
    pub p95: String,
}

pub struct FiguresView {
    pub loss: Seq<char>,
    pub last: Seq<char>,
    pub avg: Seq<char>,
    pub best: Seq<char>,
    pub worst: Seq<char>,
    pub stdev: Seq<char>,
    pub p95: Seq<char>,
}

impl View for HopFigures {
    type V = FiguresView;

    open spec fn view(&self) -> FiguresView {
        FiguresView {
            loss: self.loss@,
            last: self.last@,
            avg: self.avg@,
            best: self.best@,
            worst: self.worst@,
            stdev: self.stdev@,
            p95: self.p95@,
        }
    }
}

pub open spec fn figures_view(figs: Seq<HopFigures>) -> Seq<FiguresView> {
    figs.map_values(|f: HopFigures| f@)
}

/// `n` spaces.
pub open spec fn spaces(n: nat) -> Seq<char> {
    Seq::new(n, |i: int| ' ')
}

/// Left-aligned in a column of `w` characters (`{:<w}`).
pub open spec fn pad_right(s: Seq<char>, w: nat) -> Seq<char> {
    if s.len() < w { s + spaces((w - s.len()) as nat) } else { s }
}

/// Right-aligned in a column of `w` characters (`{:>w}`).
pub open spec fn pad_left(s: Seq<char>, w: nat) -> Seq<char> {
    if s.len() < w { spaces((w - s.len()) as nat) + s } else { s }
}

fn push_spaces(out: &mut String, n: usize)
    ensures
        final(out)@ == old(out)@ + spaces(n as nat),
{
    let mut i: usize = 0;
    while i < n
        invariant
            i <= n,
            out@ == old(out)@ + spaces(i as nat),
        decreases n - i,
    {
        push_char(out, ' ');
        assert(spaces((i + 1) as nat) =~= spaces(i as nat).push(' '));
        i = i + 1;
    }
}

fn push_pad_right(out: &mut String, s: &str, w: usize)
    ensures
        final(out)@ == old(out)@ + pad_right(s@, w as nat),
{
    let n = s.unicode_len();
    out.append(s);
    if n < w {
        push_spaces(out, w - n);
    }
}

fn push_pad_left(out: &mut String, s: &str, w: usize)
    ensures
        final(out)@ == old(out)@ + pad_left(s@, w as nat),
{
    let n = s.unicode_len();
    if n < w {
        push_spaces(out, w - n);
    }
    out.append(s);
}

fn decimal_string(n: u64) -> (s: String)
    ensures
        s@ == decimal(n as nat),
{
    let mut s = String::new();
    push_decimal(&mut s, n);
    s
}

pub open spec fn spec_width(f: Field) -> nat {
    match f {
        Field::Loss | Field::Snt | Field::Recv | Field::Drop => 6,
        _ => 7,
    }
}

/// Probes sent but not answered.
pub open spec fn drop_count(h: HopView) -> nat {
    if h.sent >= h.samples.len() { (h.sent - h.samples.len()) as nat } else { 0 }
}

/// The text of one stat cell.
pub open spec fn field_cell(f: Field, h: HopView, g: FiguresView) -> Seq<char> {
    match f {
        Field::Loss => g.loss,
        Field::Snt => decimal(h.sent),
        Field::Recv => decimal(h.samples.len()),
        Field::Drop => decimal(drop_count(h)),
        Field::Last => g.last,
        Field::Avg => g.avg,
        Field::Best => g.best,
        Field::Wrst => g.worst,
        Field::StDev => g.stdev,
        Field::P95 => g.p95,
    }
}

/// A space, then the cell right-aligned in the field's width.
pub open spec fn column(cell: Seq<char>, f: Field) -> Seq<char> {
    seq![' '] + pad_left(cell, spec_width(f))
}

pub open spec fn header_cells(fields: Seq<Field>) -> Seq<char>
    decreases fields.len(),
{
    if fields.len() == 0 {
        Seq::empty()
    } else {
        header_cells(fields.drop_last()) + column(spec_header(fields.last()), fields.last())
    }
}

pub open spec fn row_cells(fields: Seq<Field>, h: HopView, g: FiguresView) -> Seq<char>
    decreases fields.len(),
{
    if fields.len() == 0 {
        Seq::empty()
    } else {
        row_cells(fields.drop_last(), h, g) + column(field_cell(fields.last(), h, g), fields.last())
    }
}

/// One MPLS label line under a hop in the text report.
pub open spec fn mpls_line(m: MplsLabel) -> Seq<char> {
    "         [MPLS: Lbl "@ + decimal(m.label as nat) + " TC "@ + decimal(m.exp as nat) + " S "@ + decimal(
        if m.bos { 1nat } else { 0nat },
    ) + " TTL "@ + decimal(m.ttl as nat) + "]\n"@
}

pub open spec fn mpls_lines(ms: Seq<MplsLabel>) -> Seq<char>
    decreases ms.len(),
{
    if ms.len() == 0 { Seq::empty() } else { mpls_lines(ms.drop_last()) + mpls_line(ms.last()) }
}

/// The host cell of the text report: cut to 33 characters unless wide.
pub open spec fn text_host(h: HopView, p: ReportParams) -> Seq<char> {
    let host = spec_host_label(h, p.show_ips, p.no_dns, "???"@);
    if p.wide { host } else { spec_truncate(host, 33) }
}

/// The text report row of hop index `i`, with its MPLS lines when asked.
pub open spec fn text_row(i: int, h: HopView, g: FiguresView, p: ReportParams) -> Seq<char> {
    pad_left(decimal((i + 1) as nat), 3) + ".|-- "@ + pad_right(text_host(h, p), 33) + row_cells(p.fields@, h, g)
        + seq!['\n'] + if p.mpls { mpls_lines(h.mpls) } else { Seq::empty() }
}

pub open spec fn text_rows(hops: Seq<HopView>, figs: Seq<FiguresView>, p: ReportParams, a: int, k: int) -> Seq<char>
    decreases k - a,
{
    if k <= a { Seq::empty() } else { text_rows(hops, figs, p, a, k - 1) + text_row(k - 1, hops[k - 1], figs[k - 1], p) }
}

/// The MTR-style text report: a header line, then one row per visible hop
/// from the first TTL on.
pub open spec fn spec_text(hops: Seq<HopView>, path_len: Option<u8>, figs: Seq<FiguresView>, p: ReportParams) -> Seq<char> {
    pad_right("HOST:"@, 8) + pad_right(p.target@, 33) + header_cells(p.fields@) + seq!['\n'] + text_rows(
        hops,
        figs,
        p,
        first_index(p.first_ttl),
        spec_visible(path_len, hops.len()) as int,
    )
}

fn push_field_cell(out: &mut String, f: Field, st: &crate::stats::HopStat, Ghost(hv): Ghost<HopView>, g: &HopFigures)
    requires
        hv.sent == st.sent_count(),
        hv.samples == st.samples(),
    ensures
        final(out)@ == old(out)@ + column(field_cell(f, hv, g@), f),
{
    push_char(out, ' ');
    let w = f.width() as usize;
    match f {
        Field::Loss => push_pad_left(out, g.loss.as_str(), w),
        Field::Snt => {
            let t = decimal_string(st.sent());
            push_pad_left(out, t.as_str(), w);
        },
        Field::Recv => {
            let t = decimal_string(st.recv());
            push_pad_left(out, t.as_str(), w);
        },
        Field::Drop => {
            let t = decimal_string(st.lost());
            push_pad_left(out, t.as_str(), w);
        },
        Field::Last => push_pad_left(out, g.last.as_str(), w),
        Field::Avg => push_pad_left(out, g.avg.as_str(), w),
        Field::Best => push_pad_left(out, g.best.as_str(), w),
        Field::Wrst => push_pad_left(out, g.worst.as_str(), w),
        Field::StDev => push_pad_left(out, g.stdev.as_str(), w),
        Field::P95 => push_pad_left(out, g.p95.as_str(), w),
    }
    assert(out@ =~= old(out)@ + column(field_cell(f, hv, g@), f));
}

fn push_mpls_line(out: &mut String, m: MplsLabel)
    ensures
        final(out)@ == old(out)@ + mpls_line(m),
{
    out.append("         [MPLS: Lbl ");
    push_decimal(out, m.label as u64);
    out.append(" TC ");
    push_decimal(out, m.exp as u64);
    out.append(" S ");
    push_decimal(out, if m.bos { 1 } else { 0 });
    out.append(" TTL ");
    push_decimal(out, m.ttl as u64);
    out.append("]\n");
    assert(out@ =~= old(out)@ + mpls_line(m));
}

fn push_text_row(out: &mut String, s: &Session, i: usize, p: &ReportParams, g: &HopFigures)
    requires
        i < s.hops@.len(),
        i < usize::MAX,
    ensures
        final(out)@ == old(out)@ + text_row(i as int, s.hops_view()[i as int], g@, *p),
{
    let ghost hv = s.hops_view()[i as int];
    assert(hv == s.hops@[i as int]@);
    let label = decimal_string((i + 1) as u64);
    push_pad_left(out, label.as_str(), 3);
    out.append(".|-- ");
    let host = host_label(s, i, p);
    let host = if p.wide { host } else { truncate(host.as_str(), 33) };
    push_pad_right(out, host.as_str(), 33);
    let ghost mid = out@;
    let mut k: usize = 0;
    while k < p.fields.len()
        invariant
            k <= p.fields@.len(),
            i < s.hops@.len(),
            hv == s.hops@[i as int]@,
            out@ == mid + row_cells(p.fields@.take(k as int), hv, g@),
        decreases p.fields@.len() - k,
    {
        let f = p.fields[k];
        push_field_cell(out, f, &s.hops[i].stat, Ghost(hv), g);
        assert(p.fields@.take(k + 1).drop_last() =~= p.fields@.take(k as int));
        k = k + 1;
    }
    assert(p.fields@.take(p.fields@.len() as int) =~= p.fields@);
    push_char(out, '\n');
    let ghost mid2 = out@;
    if p.mpls {
        let mut j: usize = 0;
        while j < s.hops[i].mpls.len()
            invariant
                j <= hv.mpls.len(),
                i < s.hops@.len(),
                hv == s.hops@[i as int]@,
                out@ == mid2 + mpls_lines(hv.mpls.take(j as int)),
            decreases hv.mpls.len() - j,
        {
            push_mpls_line(out, s.hops[i].mpls[j]);
            assert(hv.mpls.take(j + 1).drop_last() =~= hv.mpls.take(j as int));
            j = j + 1;
        }
        assert(hv.mpls.take(hv.mpls.len() as int) =~= hv.mpls);
    }
    assert(out@ =~= old(out)@ + text_row(i as int, hv, g@, *p));
}

/// The MTR-style text report; `figs[i]` holds the figures of hop index `i`
/// in the text style (`"12%"`, `"3.4"`, `"-"`).
pub fn text(s: &Session, p: &ReportParams, figs: &Vec<HopFigures>) -> (r: String)
    requires
        figs@.len() >= s.hops@.len(),
    ensures
        r@ == spec_text(s.hops_view(), s.path_len, figures_view(figs@), *p),
{
    let mut out = String::new();
    push_pad_right(&mut out, "HOST:", 8);
    push_pad_right(&mut out, p.target.as_str(), 33);
    let ghost head = out@;
    let mut k: usize = 0;
    while k < p.fields.len()
        invariant
            k <= p.fields@.len(),
            out@ == head + header_cells(p.fields@.take(k as int)),
        decreases p.fields@.len() - k,
    {
        let f = p.fields[k];
        push_char(&mut out, ' ');
        push_pad_left(&mut out, f.header(), f.width() as usize);
        assert(p.fields@.take(k + 1).drop_last() =~= p.fields@.take(k as int));
        assert(out@ =~= head + header_cells(p.fields@.take(k + 1)));
        k = k + 1;
    }
    assert(p.fields@.take(p.fields@.len() as int) =~= p.fields@);
    push_char(&mut out, '\n');
    let ghost top = out@;
    let ghost fv = figures_view(figs@);
    let start: usize = if p.first_ttl == 0 { 0 } else { (p.first_ttl - 1) as usize };
    let n = s.visible_hops();
    let mut i = start;
    while i < n
        invariant
            start <= i,
            start == first_index(p.first_ttl),
            n == spec_visible(s.path_len, s.hops@.len()),
            n <= s.hops@.len(),
            figs@.len() >= s.hops@.len(),
            fv == figures_view(figs@),
            start <= n ==> i <= n,
            start > n ==> i == start,
            out@ == top + text_rows(s.hops_view(), fv, *p, start as int, i as int),
        decreases n - i,
    {
        assert(fv[i as int] == figs@[i as int]@);
        push_text_row(&mut out, s, i, p, &figs[i]);
        i = i + 1;
    }
    assert(out@ =~= spec_text(s.hops_view(), s.path_len, fv, *p)) by {
        if start > n {
            assert(text_rows(s.hops_view(), fv, *p, start as int, i as int) == Seq::<char>::empty());
        }
    }
    out
}

/// An optional JSON member `,"key":"value"` for non-empty text.
pub open spec fn json_text_member(key: Seq<char>, v: Option<Seq<char>>) -> Seq<char> {
    match v {
        Some(c) => if c.len() > 0 { ",\""@ + key + "\":\""@ + spec_json_escape(c) + "\""@ } else { Seq::empty() },
        None => Seq::empty(),
    }
}

/// One JSON hub: count, host, loss, sent and the times, then the origin AS
/// and location when known.
pub open spec fn json_hub(i: int, h: HopView, g: FiguresView, p: ReportParams) -> Seq<char> {
    "{\"count\":"@ + decimal((i + 1) as nat) + ",\"host\":\""@ + spec_json_escape(
        spec_host_label(h, p.show_ips, p.no_dns, "???"@),
    ) + "\",\"Loss%\":"@ + g.loss + ",\"Snt\":"@ + decimal(h.sent) + ",\"Last\":"@ + g.last + ",\"Avg\":"@
        + g.avg + ",\"Best\":"@ + g.best + ",\"Wrst\":"@ + g.worst + ",\"StDev\":"@ + g.stdev + (match h.meta.asn {
        Some(a) => ",\"ASN\":"@ + decimal(a as nat),
        None => Seq::empty(),
    }) + json_text_member("city"@, h.meta.city) + json_text_member("country"@, h.meta.country) + "}"@
}

/// The hubs of hop indices `a .. k`, comma-separated.
pub open spec fn json_hubs(hops: Seq<HopView>, figs: Seq<FiguresView>, p: ReportParams, a: int, k: int) -> Seq<char>
    decreases k - a,
{
    if k <= a {
        Seq::empty()
    } else if k == a + 1 {
        json_hub(a, hops[a], figs[a], p)
    } else {
        json_hubs(hops, figs, p, a, k - 1) + ","@ + json_hub(k - 1, hops[k - 1], figs[k - 1], p)
    }
}

/// The MTR-compatible JSON report.
pub open spec fn spec_json(hops: Seq<HopView>, path_len: Option<u8>, figs: Seq<FiguresView>, p: ReportParams) -> Seq<char> {
    "{\"report\":{\"mtr\":{\"src\":\"\",\"dst\":\""@ + spec_json_escape(p.target@) + "\",\"psize\":\""@
        + decimal(p.psize as nat) + "\",\"tests\":\""@ + decimal(p.cycles as nat) + "\"},\"hubs\":["@ + json_hubs(
        hops,
        figs,
        p,
        first_index(p.first_ttl),
        spec_visible(path_len, hops.len()) as int,
    ) + "]}}\n"@
}

fn json_asn_part(asn: Option<u32>) -> (r: String)
    ensures
        r@ == match asn {
            Some(a) => ",\"ASN\":"@ + decimal(a as nat),
            None => Seq::<char>::empty(),
        },
{
    match asn {
        Some(a) => {
            let mut r = String::from_str(",\"ASN\":");
            push_decimal(&mut r, a as u64);
            r
        },
        None => String::new(),
    }
}

fn json_text_part(key: &str, v: &Option<String>) -> (r: String)
    ensures
        r@ == json_text_member(key@, opt_str(*v)),
{
    match v {
        Some(c) => {
            if c.as_str().unicode_len() > 0 {
                let mut r = String::from_str(",\"");
                r.append(key);
                r.append("\":\"");
                let e = json_escape(c.as_str());
                r.append(e.as_str());
                r.append("\"");
                r
            } else {
                String::new()
            }
        },
        None => String::new(),
    }
}

fn push_json_hub(out: &mut String, s: &Session, i: usize, p: &ReportParams, g: &HopFigures)
    requires
        i < s.hops@.len(),
        i < usize::MAX,
    ensures
        final(out)@ == old(out)@ + json_hub(i as int, s.hops_view()[i as int], g@, *p),
{
    let ghost hv = s.hops_view()[i as int];
    assert(hv == s.hops@[i as int]@);
    let mut h = String::from_str("{\"count\":");
    push_decimal(&mut h, (i + 1) as u64);
    h.append(",\"host\":\"");
    let host = host_label(s, i, p);
    let e = json_escape(host.as_str());
    h.append(e.as_str());
    h.append("\",\"Loss%\":");
    h.append(g.loss.as_str());
    h.append(",\"Snt\":");
    push_decimal(&mut h, s.hops[i].stat.sent());
    h.append(",\"Last\":");
    h.append(g.last.as_str());
    h.append(",\"Avg\":");
    h.append(g.avg.as_str());
    h.append(",\"Best\":");
    h.append(g.best.as_str());
    h.append(",\"Wrst\":");
    h.append(g.worst.as_str());
    h.append(",\"StDev\":");
    h.append(g.stdev.as_str());
    let part = json_asn_part(s.hops[i].meta.asn);
    h.append(part.as_str());
    let part = json_text_part("city", &s.hops[i].meta.city);
    h.append(part.as_str());
    let part = json_text_part("country", &s.hops[i].meta.country);
    h.append(part.as_str());
    h.append("}");
    assert(h@ == json_hub(i as int, hv, g@, *p));
    out.append(h.as_str());
}

/// The MTR-compatible JSON report; `figs[i]` holds the figures of hop index
/// `i` in the JSON style (`"12.50"`, `"0.00"` for unknown times).
pub fn json(s: &Session, p: &ReportParams, figs: &Vec<HopFigures>) -> (r: String)
    requires
        figs@.len() >= s.hops@.len(),
    ensures
        r@ == spec_json(s.hops_view(), s.path_len, figures_view(figs@), *p),
{
    let mut out = String::from_str("{\"report\":{\"mtr\":{\"src\":\"\",\"dst\":\"");
    let e = json_escape(p.target.as_str());
    out.append(e.as_str());
    out.append("\",\"psize\":\"");
    push_decimal(&mut out, p.psize as u64);
    out.append("\",\"tests\":\"");
    push_decimal(&mut out, p.cycles as u64);
    out.append("\"},\"hubs\":[");
    let ghost top = out@;
    let ghost fv = figures_view(figs@);
    let start: usize = if p.first_ttl == 0 { 0 } else { (p.first_ttl - 1) as usize };
    let n = s.visible_hops();
    let mut i = start;
    while i < n
        invariant
            start <= i,
            start == first_index(p.first_ttl),
            n == spec_visible(s.path_len, s.hops@.len()),
            n <= s.hops@.len(),
            figs@.len() >= s.hops@.len(),
            fv == figures_view(figs@),
            start <= n ==> i <= n,
            start > n ==> i == start,
            out@ == top + json_hubs(s.hops_view(), fv, *p, start as int, i as int),
        decreases n - i,
    {
        assert(fv[i as int] == figs@[i as int]@);
        if i > start {
            out.append(",");
        }
        push_json_hub(&mut out, s, i, p, &figs[i]);
        i = i + 1;
    }
    out.append("]}}\n");
    assert(out@ =~= spec_json(s.hops_view(), s.path_len, fv, *p)) by {
        if start > n {
            assert(json_hubs(s.hops_view(), fv, *p, start as int, i as int) == Seq::<char>::empty());
        }
    }
    out
}

/// Text of an optional string, empty when absent.
pub open spec fn or_empty(v: Option<Seq<char>>) -> Seq<char> {
    match v {
        Some(c) => c,
        None => Seq::empty(),
    }
}

/// One CSV row: hop, address, host name, AS, city, country, loss, sent, and
/// the times.
pub open spec fn csv_row(i: int, h: HopView, g: FiguresView, p: ReportParams) -> Seq<char> {
    let ip = match primary(h) {
        Some(a) => addr_display(a),
        None => Seq::empty(),
    };
    let host = if p.no_dns { Seq::empty() } else { or_empty(h.meta.hostname) };
    decimal((i + 1) as nat) + ","@ + spec_csv_field(ip) + ","@ + spec_csv_field(host) + ","@ + spec_asn_cell(
        h.meta.asn,
    ) + ","@ + spec_csv_field(or_empty(h.meta.city)) + ","@ + spec_csv_field(or_empty(h.meta.country)) + ","@
        + g.loss + ","@ + decimal(h.sent) + ","@ + g.last + ","@ + g.avg + ","@ + g.best + ","@ + g.worst + ","@
        + g.stdev + "\n"@
}

pub open spec fn csv_rows(hops: Seq<HopView>, figs: Seq<FiguresView>, p: ReportParams, a: int, k: int) -> Seq<char>
    decreases k - a,
{
    if k <= a { Seq::empty() } else { csv_rows(hops, figs, p, a, k - 1) + csv_row(k - 1, hops[k - 1], figs[k - 1], p) }
}

/// The CSV report: a header, then one row per visible hop from the first TTL.
pub open spec fn spec_csv(hops: Seq<HopView>, path_len: Option<u8>, figs: Seq<FiguresView>, p: ReportParams) -> Seq<char> {
    "Hop,Ip,Host,ASN,City,Country,Loss%,Snt,Last,Avg,Best,Wrst,StDev\n"@ + csv_rows(
        hops,
        figs,
        p,
        first_index(p.first_ttl),
        spec_visible(path_len, hops.len()) as int,
    )
}

fn text_or_empty(v: &Option<String>) -> (s: String)
    ensures
        s@ == or_empty(opt_str(*v)),
{
    match v {
        Some(c) => c.clone(),
        None => String::new(),
    }
}

fn push_csv_row(out: &mut String, s: &Session, i: usize, p: &ReportParams, g: &HopFigures)
    requires
        i < s.hops@.len(),
        i < usize::MAX,
    ensures
        final(out)@ == old(out)@ + csv_row(i as int, s.hops_view()[i as int], g@, *p),
{
    let ghost hv = s.hops_view()[i as int];
    assert(hv == s.hops@[i as int]@);
    let hop = &s.hops[i];
    let ip = match hop.primary_addr() {
        Some(a) => addr_text(a),
        None => String::new(),
    };
    let host = if p.no_dns { String::new() } else { text_or_empty(&hop.meta.hostname) };
    let asn = asn_cell(hop.meta.asn);
    let city = text_or_empty(&hop.meta.city);
    let country = text_or_empty(&hop.meta.country);
    let mut r = decimal_string((i + 1) as u64);
    r.append(",");
    let f = csv_field(ip.as_str());
    r.append(f.as_str());
    r.append(",");
    let f = csv_field(host.as_str());
    r.append(f.as_str());
    r.append(",");
    r.append(asn.as_str());
    r.append(",");
    let f = csv_field(city.as_str());
    r.append(f.as_str());
    r.append(",");
    let f = csv_field(country.as_str());
    r.append(f.as_str());
    r.append(",");
    r.append(g.loss.as_str());
    r.append(",");
    push_decimal(&mut r, hop.stat.sent());
    r.append(",");
    r.append(g.last.as_str());
    r.append(",");
    r.append(g.avg.as_str());
    r.append(",");
    r.append(g.best.as_str());
    r.append(",");
    r.append(g.worst.as_str());
    r.append(",");
    r.append(g.stdev.as_str());
    r.append("\n");
    assert(r@ == csv_row(i as int, hv, g@, *p));
    out.append(r.as_str());
}

/// The CSV report; `figs[i]` holds the figures of hop index `i` in the CSV
/// style (`"12.5"`, empty for unknown times).
pub fn csv(s: &Session, p: &ReportParams, figs: &Vec<HopFigures>) -> (r: String)
    requires
        figs@.len() >= s.hops@.len(),
    ensures
        r@ == spec_csv(s.hops_view(), s.path_len, figures_view(figs@), *p),
{
    let mut out = String::from_str("Hop,Ip,Host,ASN,City,Country,Loss%,Snt,Last,Avg,Best,Wrst,StDev\n");
    let ghost top = out@;
    let ghost fv = figures_view(figs@);
    let start: usize = if p.first_ttl == 0 { 0 } else { (p.first_ttl - 1) as usize };
    let n = s.visible_hops();
    let mut i = start;
    while i < n
        invariant
            start <= i,
            start == first_index(p.first_ttl),
            n == spec_visible(s.path_len, s.hops@.len()),
            n <= s.hops@.len(),
            figs@.len() >= s.hops@.len(),
            fv == figures_view(figs@),
            start <= n ==> i <= n,
            start > n ==> i == start,
            out@ == top + csv_rows(s.hops_view(), fv, *p, start as int, i as int),
        decreases n - i,
    {
        assert(fv[i as int] == figs@[i as int]@);
        push_csv_row(&mut out, s, i, p, &figs[i]);
        i = i + 1;
    }
    assert(out@ =~= spec_csv(s.hops_view(), s.path_len, fv, *p)) by {
        if start > n {
            assert(csv_rows(s.hops_view(), fv, *p, start as int, i as int) == Seq::<char>::empty());
        }
    }
    out
}

} // verus!
