//! Hop enrichment: which addresses still need looking up, the request texts
//! for the WHOIS (Team Cymru) and geolocation (ip-api) services, reading the
//! WHOIS table back, and writing results into every matching hop.
use vstd::prelude::*;
use crate::addr_text::{addr_display, addr_text};
use crate::model::Addr;
use crate::scan::{has_prefix, lines, lines_of, parse_u32, spec_parse_u32, split, split_chars, starts_with, trim, trim_chars, trim_start, trim_start_chars};
use crate::session::{opt_str, primary, HopView, MetaView, Session};
use crate::text::{byte_len, decimal, push_char, push_decimal, push_decimal_wide, string_of, utf8_len};

verus! {

/// Resolved origin for one address.
pub struct Origin {
    pub asn: u32,
    pub name: String,
}

/// Resolved geolocation for one address; coordinates are the bit patterns of
/// 32-bit float degrees.
pub struct Geo {
    pub lat_bits: u32,
    pub lon_bits: u32,
    pub city: String,
    pub country: String,
}

/// The primary addresses of hops `0 .. k` that are not in `done`, each once,
/// in hop order.
pub open spec fn pending(hops: Seq<HopView>, done: Seq<Addr>, k: nat) -> Seq<Addr>
    decreases k,
{
    if k == 0 {
        Seq::empty()
    } else {
        let p = pending(hops, done, (k - 1) as nat);
        match primary(hops[k - 1]) {
            Some(a) => if !done.contains(a) && !p.contains(a) { p.push(a) } else { p },
            None => p,
        }
    }
}

/// Each address is looked up at most once: what is pending holds no address
/// already done, and none twice.
pub proof fn pending_is_new_and_distinct(hops: Seq<HopView>, done: Seq<Addr>, k: nat)
    ensures
        forall|i: int| 0 <= i < pending(hops, done, k).len() ==> !done.contains(#[trigger] pending(hops, done, k)[i]),
        forall|i: int, j: int| 0 <= i < j < pending(hops, done, k).len()
            ==> pending(hops, done, k)[i] != pending(hops, done, k)[j],
    decreases k,
{
    if k > 0 {
        pending_is_new_and_distinct(hops, done, (k - 1) as nat);
        let p = pending(hops, done, (k - 1) as nat);
        match primary(hops[k - 1]) {
            Some(a) => {
                if !done.contains(a) && !p.contains(a) {
                    let q = p.push(a);
                    assert forall|i: int, j: int| 0 <= i < j < q.len() implies q[i] != q[j] by {
                        if j == q.len() - 1 {
                            assert(q[i] == p[i]);
                            assert(p.contains(p[i]));
                        }
                    }
                }
            },
            None => {},
        }
    }
}

fn vec_contains(v: &Vec<Addr>, a: Addr) -> (b: bool)
    ensures
        b == v@.contains(a),
{
    let mut i: usize = 0;
    while i < v.len()
        invariant
            i <= v@.len(),
            forall|j: int| 0 <= j < i ==> v@[j] != a,
        decreases v@.len() - i,
    {
        if v[i] == a {
            assert(v@[i as int] == a);
            return true;
        }
        i = i + 1;
    }
    false
}

/// Hop primary addresses present in the session but not yet enriched.
pub fn collect_pending(s: &Session, done: &Vec<Addr>) -> (out: Vec<Addr>)
    ensures
        out@ == pending(s.hops_view(), done@, s.hops@.len()),
{
    let mut out: Vec<Addr> = Vec::new();
    let mut i: usize = 0;
    while i < s.hops.len()
        invariant
            i <= s.hops@.len(),
            out@ == pending(s.hops_view(), done@, i as nat),
        decreases s.hops@.len() - i,
    {
        assert(s.hops_view()[i as int] == s.hops@[i as int]@);
        if let Some(a) = s.hops[i].primary_addr() {
            if !vec_contains(done, a) && !vec_contains(&out, a) {
                out.push(a);
            }
        }
        i = i + 1;
    }
    out
}

/// The index of the last entry for address `a` (later results for the same
/// address replace earlier ones).
pub open spec fn last_for<T>(entries: Seq<(Addr, T)>, a: Addr) -> Option<int>
    decreases entries.len(),
{
    if entries.len() == 0 {
        None
    } else if entries.last().0 == a {
        Some(entries.len() - 1)
    } else {
        last_for(entries.drop_last(), a)
    }
}

fn find_last<T>(entries: &Vec<(Addr, T)>, a: Addr) -> (r: Option<usize>)
    ensures
        r matches Some(k) ==> last_for(entries@, a) == Some(k as int) && k < entries@.len(),
        r is None ==> last_for(entries@, a) is None,
{
    let mut i: usize = entries.len();
    assert(entries@.take(entries@.len() as int) =~= entries@);
    while i > 0
        invariant
            i <= entries@.len(),
            last_for(entries@, a) == last_for(entries@.take(i as int), a),
        decreases i,
    {
        assert(entries@.take(i as int).drop_last() =~= entries@.take(i - 1));
        if entries[i - 1].0 == a {
            return Some(i - 1);
        }
        i = i - 1;
    }
    None
}

/// A hop's metadata after a lookup result keyed by its primary address.
pub open spec fn with_origin(h: HopView, entries: Seq<(Addr, Origin)>) -> HopView {
    match primary(h) {
        Some(a) => match last_for(entries, a) {
            Some(k) => HopView {
                meta: MetaView {
                    asn: Some(entries[k].1.asn),
                    as_name: Some(entries[k].1.name@),
                    ..h.meta
                },
                ..h
            },
            None => h,
        },
        None => h,
    }
}

/// Write a batch of resolved origins into every matching hop.
pub fn apply_asn(s: &mut Session, asn: &Vec<(Addr, Origin)>)
    ensures
        final(s).hops_view() == old(s).hops_view().map_values(|h: HopView| with_origin(h, asn@)),
        final(s).target == old(s).target,
        final(s).path_len == old(s).path_len,
        final(s).paths@ == old(s).paths@,
{
    let ghost h0 = s.hops_view();
    let mut i: usize = 0;
    while i < s.hops.len()
        invariant
            i <= s.hops@.len(),
            s.hops@.len() == h0.len(),
            forall|j: int| 0 <= j < i ==> #[trigger] s.hops@[j]@ == with_origin(h0[j], asn@),
            forall|j: int| i <= j < h0.len() ==> #[trigger] s.hops@[j]@ == h0[j],
            s.target == old(s).target,
            s.path_len == old(s).path_len,
            s.paths@ == old(s).paths@,
        decreases h0.len() - i,
    {
        if let Some(a) = s.hops[i].primary_addr() {
            if let Some(k) = find_last(asn, a) {
                let name = asn[k].1.name.clone();
                s.hops[i].meta.asn = Some(asn[k].1.asn);
                s.hops[i].meta.as_name = Some(name);
            }
        }
        i = i + 1;
    }
    assert(s.hops_view() =~= h0.map_values(|h: HopView| with_origin(h, asn@)));
}

/// A hop's metadata after a geolocation result keyed by its primary address.
pub open spec fn with_geo(h: HopView, entries: Seq<(Addr, Geo)>) -> HopView {
    match primary(h) {
        Some(a) => match last_for(entries, a) {
            Some(k) => HopView {
                meta: MetaView {
                    lat_bits: Some(entries[k].1.lat_bits),
                    lon_bits: Some(entries[k].1.lon_bits),
                    city: Some(entries[k].1.city@),
                    country: Some(entries[k].1.country@),
                    ..h.meta
                },
                ..h
            },
            None => h,
        },
        None => h,
    }
}

/// Write a batch of geolocations into every matching hop.
pub fn apply_geo(s: &mut Session, geo: &Vec<(Addr, Geo)>)
    ensures
        final(s).hops_view() == old(s).hops_view().map_values(|h: HopView| with_geo(h, geo@)),
        final(s).target == old(s).target,
        final(s).path_len == old(s).path_len,
        final(s).paths@ == old(s).paths@,
{
    let ghost h0 = s.hops_view();
    let mut i: usize = 0;
    while i < s.hops.len()
        invariant
            i <= s.hops@.len(),
            s.hops@.len() == h0.len(),
            forall|j: int| 0 <= j < i ==> #[trigger] s.hops@[j]@ == with_geo(h0[j], geo@),
            forall|j: int| i <= j < h0.len() ==> #[trigger] s.hops@[j]@ == h0[j],
            s.target == old(s).target,
            s.path_len == old(s).path_len,
            s.paths@ == old(s).paths@,
        decreases h0.len() - i,
    {
        if let Some(a) = s.hops[i].primary_addr() {
            if let Some(k) = find_last(geo, a) {
                let city = geo[k].1.city.clone();
                let country = geo[k].1.country.clone();
                s.hops[i].meta.lat_bits = Some(geo[k].1.lat_bits);
                s.hops[i].meta.lon_bits = Some(geo[k].1.lon_bits);
                s.hops[i].meta.city = Some(city);
                s.hops[i].meta.country = Some(country);
            }
        }
        i = i + 1;
    }
    assert(s.hops_view() =~= h0.map_values(|h: HopView| with_geo(h, geo@)));
}

/// A hop after a reverse-DNS result for `addr`.
pub open spec fn with_hostname(h: HopView, addr: Addr, name: Seq<char>) -> HopView {
    if primary(h) == Some(addr) {
        HopView { meta: MetaView { hostname: Some(name), ..h.meta }, ..h }
    } else {
        h
    }
}

/// Write a resolved hostname into every hop whose primary address matches.
pub fn apply_hostname(s: &mut Session, addr: Addr, name: &String)
    ensures
        final(s).hops_view() == old(s).hops_view().map_values(|h: HopView| with_hostname(h, addr, name@)),
        final(s).target == old(s).target,
        final(s).path_len == old(s).path_len,
        final(s).paths@ == old(s).paths@,
{
    let ghost h0 = s.hops_view();
    let mut i: usize = 0;
    while i < s.hops.len()
        invariant
            i <= s.hops@.len(),
            s.hops@.len() == h0.len(),
            forall|j: int| 0 <= j < i ==> #[trigger] s.hops@[j]@ == with_hostname(h0[j], addr, name@),
            forall|j: int| i <= j < h0.len() ==> #[trigger] s.hops@[j]@ == h0[j],
            s.target == old(s).target,
            s.path_len == old(s).path_len,
            s.paths@ == old(s).paths@,
        decreases h0.len() - i,
    {
        if s.hops[i].primary_addr() == Some(addr) {
            s.hops[i].meta.hostname = Some(name.clone());
        }
        i = i + 1;
    }
    assert(s.hops_view() =~= h0.map_values(|h: HopView| with_hostname(h, addr, name@)));
}

/// One address per line.
pub open spec fn addr_lines(addrs: Seq<Addr>) -> Seq<char>
    decreases addrs.len(),
{
    if addrs.len() == 0 {
        Seq::empty()
    } else {
        addr_lines(addrs.drop_last()) + addr_display(addrs.last()) + seq!['\n']
    }
}

/// The bulk WHOIS query: `begin`, `verbose`, one address per line, `end`.
pub open spec fn spec_whois_request(addrs: Seq<Addr>) -> Seq<char> {
    "begin\nverbose\n"@ + addr_lines(addrs) + "end\n"@
}

pub fn whois_request(addrs: &Vec<Addr>) -> (r: String)
    ensures
        r@ == spec_whois_request(addrs@),
{
    let mut r = String::from_str("begin\nverbose\n");
    let mut i: usize = 0;
    while i < addrs.len()
        invariant
            i <= addrs@.len(),
            r@ == "begin\nverbose\n"@ + addr_lines(addrs@.take(i as int)),
        decreases addrs@.len() - i,
    {
        let t = addr_text(addrs[i]);
        r.append(t.as_str());
        push_char(&mut r, '\n');
        assert(addrs@.take(i + 1).drop_last() =~= addrs@.take(i as int));
        assert(r@ =~= "begin\nverbose\n"@ + addr_lines(addrs@.take(i + 1)));
        i = i + 1;
    }
    assert(addrs@.take(addrs@.len() as int) =~= addrs@);
    r.append("end\n");
    r
}

/// One row of the WHOIS table: origin AS, the address column as written, and
/// the AS name.
pub struct WhoisRow {
    pub asn: u32,
    pub ip: String,
    pub name: String,
}

/// The rows a WHOIS reply line contributes: none for blank, banner and header
/// lines, for lines with fewer than seven `|` columns, and for rows whose AS
/// column is not a number (`NA` for private / unrouted addresses).
pub open spec fn row_of(line: Seq<char>) -> Option<(u32, Seq<char>, Seq<char>)> {
    let t = trim_start(line);
    if t.len() == 0 || starts_with(t, "Bulk mode"@) || starts_with(t, "AS "@) {
        None
    } else {
        let cols = split(line, '|');
        if cols.len() < 7 {
            None
        } else {
            match spec_parse_u32(trim(cols[0])) {
                Some(asn) => Some((asn, trim(cols[1]), trim(cols[6]))),
                None => None,
            }
        }
    }
}

/// The rows of the first `k` lines.
pub open spec fn rows_of(ls: Seq<Seq<char>>, k: nat) -> Seq<(u32, Seq<char>, Seq<char>)>
    decreases k,
{
    if k == 0 {
        Seq::empty()
    } else {
        rows_of(ls, (k - 1) as nat) + match row_of(ls[k - 1]) {
            Some(r) => seq![r],
            None => Seq::empty(),
        }
    }
}

/// The rows of the whole reply.
pub open spec fn spec_parse_whois(resp: Seq<char>) -> Seq<(u32, Seq<char>, Seq<char>)> {
    rows_of(lines(resp), lines(resp).len())
}

fn whois_row(line: &Vec<char>) -> (r: Option<WhoisRow>)
    ensures
        r matches Some(w) ==> row_of(line@) == Some((w.asn, w.ip@, w.name@)),
        r is None ==> row_of(line@) is None,
{
    let t = trim_start_chars(line);
    if t.len() == 0 || has_prefix(&t, "Bulk mode") || has_prefix(&t, "AS ") {
        return None;
    }
    let cols = split_chars(line, '|');
    if cols.len() < 7 {
        return None;
    }
    let c0 = trim_chars(&cols[0]);
    match parse_u32(&c0) {
        Some(asn) => {
            let c1 = trim_chars(&cols[1]);
            let c6 = trim_chars(&cols[6]);
            Some(WhoisRow { asn, ip: string_of(&c1), name: string_of(&c6) })
        },
        None => None,
    }
}

/// The spec view of a row.
pub open spec fn row_view(w: WhoisRow) -> (u32, Seq<char>, Seq<char>) {
    (w.asn, w.ip@, w.name@)
}

/// Read the rows of a verbose bulk WHOIS reply, in order.
pub fn parse_whois(resp: &str) -> (rows: Vec<WhoisRow>)
    ensures
        rows@.map_values(|w: WhoisRow| row_view(w)) == spec_parse_whois(resp@),
{
    let ls = lines_of(resp);
    let ghost lv = lines(resp@);
    let mut rows: Vec<WhoisRow> = Vec::new();
    let mut i: usize = 0;
    while i < ls.len()
        invariant
            i <= ls@.len(),
            ls@.len() == lv.len(),
            lv == lines(resp@),
            forall|k: int| 0 <= k < ls@.len() ==> #[trigger] ls@[k]@ == lv[k],
            rows@.map_values(|w: WhoisRow| row_view(w)) == rows_of(lv, i as nat),
        decreases ls@.len() - i,
    {
        let ghost before = rows@;
        let r = whois_row(&ls[i]);
        match r {
            Some(w) => {
                rows.push(w);
                assert(rows@.map_values(|w: WhoisRow| row_view(w)) =~= before.map_values(
                    |w: WhoisRow| row_view(w),
                ).push(row_view(w)));
            },
            None => {},
        }
        i = i + 1;
    }
    rows
}

/// The JSON array of quoted addresses posted to the geolocation service.
pub open spec fn geo_items(addrs: Seq<Addr>) -> Seq<char>
    decreases addrs.len(),
{
    if addrs.len() == 0 {
        Seq::empty()
    } else if addrs.len() == 1 {
        seq!['"'] + addr_display(addrs[0]) + seq!['"']
    } else {
        geo_items(addrs.drop_last()) + seq![','] + seq!['"'] + addr_display(addrs.last()) + seq!['"']
    }
}

pub open spec fn geo_body(addrs: Seq<Addr>) -> Seq<char> {
    seq!['['] + geo_items(addrs) + seq![']']
}

/// The HTTP/1.0 batch request to the geolocation service.
pub open spec fn spec_geo_request(addrs: Seq<Addr>) -> Seq<char> {
    "POST /batch?fields=status,lat,lon,city,country,query HTTP/1.0\r\nHost: ip-api.com\r\nContent-Type: application/json\r\nContent-Length: "@
        + decimal(utf8_len(geo_body(addrs))) + "\r\nConnection: close\r\n\r\n"@ + geo_body(addrs)
}

pub fn geo_request(addrs: &Vec<Addr>) -> (r: String)
    ensures
        r@ == spec_geo_request(addrs@),
{
    let mut body = String::new();
    push_char(&mut body, '[');
    let mut i: usize = 0;
    while i < addrs.len()
        invariant
            i <= addrs@.len(),
            body@ == seq!['['] + geo_items(addrs@.take(i as int)),
        decreases addrs@.len() - i,
    {
        if i > 0 {
            push_char(&mut body, ',');
        }
        push_char(&mut body, '"');
        let t = addr_text(addrs[i]);
        body.append(t.as_str());
        push_char(&mut body, '"');
        assert(addrs@.take(i + 1).drop_last() =~= addrs@.take(i as int));
        assert(body@ =~= seq!['['] + geo_items(addrs@.take(i + 1)));
        i = i + 1;
    }
    assert(addrs@.take(addrs@.len() as int) =~= addrs@);
    push_char(&mut body, ']');
    assert(body@ =~= geo_body(addrs@));
    let len = byte_len(body.as_str());
    let mut r = String::from_str(
        "POST /batch?fields=status,lat,lon,city,country,query HTTP/1.0\r\nHost: ip-api.com\r\nContent-Type: application/json\r\nContent-Length: ",
    );
    push_decimal_wide(&mut r, len);
    r.append("\r\nConnection: close\r\n\r\n");
    r.append(body.as_str());
    r
}

/// Whether the HTTP header terminator `\r\n\r\n` starts at `k`.
pub open spec fn blank_at(s: Seq<char>, k: int) -> bool {
    0 <= k && k + 4 <= s.len() && s.subrange(k, k + 4) == "\r\n\r\n"@
}

/// The body of an HTTP response (after the first blank line), trimmed; `None`
/// when there is no header terminator.
pub fn http_body(resp: &str) -> (r: Option<String>)
    ensures
        match r {
            Some(b) => exists|k: int| #[trigger] blank_at(resp@, k)
                && (forall|j: int| 0 <= j < k ==> !#[trigger] blank_at(resp@, j))
                && b@ == trim(resp@.subrange(k + 4, resp@.len() as int)),
            None => forall|k: int| !#[trigger] blank_at(resp@, k),
        },
{
    proof {
        reveal_strlit("\r\n\r\n");
    }
    let cs = crate::text::chars_of(resp);
    let n = cs.len();
    let mut k: usize = 0;
    while n >= 4 && k <= n - 4
        invariant
            n == cs@.len(),
            cs@ == resp@,
            forall|j: int| 0 <= j < k ==> !#[trigger] blank_at(resp@, j),
        decreases n - k,
    {
        proof {
            reveal_strlit("\r\n\r\n");
        }
        if cs[k] == '\r' && cs[k + 1] == '\n' && cs[k + 2] == '\r' && cs[k + 3] == '\n' {
            assert(resp@.subrange(k as int, k + 4) =~= "\r\n\r\n"@);
            assert(blank_at(resp@, k as int));
            let mut rest: Vec<char> = Vec::new();
            let mut i = k + 4;
            while i < n
                invariant
                    k + 4 <= i <= n,
                    n == cs@.len(),
                    rest@ == cs@.subrange(k + 4, i as int),
                decreases n - i,
            {
                rest.push(cs[i]);
                assert(cs@.subrange(k + 4, i + 1) =~= cs@.subrange(k + 4, i as int).push(cs@[i as int]));
                i = i + 1;
            }
            let t = trim_chars(&rest);
            return Some(string_of(&t));
        }
        proof {
            if blank_at(resp@, k as int) {
                assert(resp@.subrange(k as int, k + 4)[0] == '\r');
                assert(resp@.subrange(k as int, k + 4)[1] == '\n');
                assert(resp@.subrange(k as int, k + 4)[2] == '\r');
                assert(resp@.subrange(k as int, k + 4)[3] == '\n');
            }
        }
        k = k + 1;
    }
    assert forall|j: int| !#[trigger] blank_at(resp@, j) by {
        if 0 <= j && j + 4 <= n && n >= 4 {
            assert(j < k);
        }
    }
    None
}

/// Whether a geolocation batch entry is kept: only those whose status is
/// `success`.
pub fn geo_entry_ok(status: &str) -> (b: bool)
    ensures
        b == (status@ == "success"@),
{
    let cs = crate::text::chars_of(status);
    let want = crate::text::chars_of("success");
    if cs.len() != want.len() {
        return false;
    }
    let mut i: usize = 0;
    while i < cs.len()
        invariant
            i <= cs@.len(),
            cs@ == status@,
            want@ == "success"@,
            cs@.len() == want@.len(),
            forall|j: int| 0 <= j < i ==> cs@[j] == want@[j],
        decreases cs@.len() - i,
    {
        if cs[i] != want[i] {
            return false;
        }
        i = i + 1;
    }
    assert(cs@ =~= want@);
    true
}

} // verus!
