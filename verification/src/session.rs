//! The live model both frontends render: a list of hops, each accumulating
//! responding addresses, rolling stats, a bounded RTT history (for
//! sparklines), MPLS labels and enrichment (rDNS / ASN / geolocation).
use std::collections::VecDeque;
use vstd::prelude::*;
use crate::model::{Addr, MplsLabel, ProbeResponse};
use crate::stats::{sum_of, HopStat};

verus! {

/// How many recent samples each hop keeps for sparkline rendering.
pub const HISTORY: usize = 256;

/// An optional string by its characters.
pub open spec fn opt_str(o: Option<String>) -> Option<Seq<char>> {
    match o {
        Some(s) => Some(s@),
        None => None,
    }
}

/// Enrichment for a hop address, filled in asynchronously. Coordinates are
/// carried as the bit patterns of 32-bit floats (degrees) and only ever
/// copied here.
#[derive(Clone, Debug)]
pub struct HopMeta {
    /// Reverse-DNS name, if one resolved.
    pub hostname: Option<String>,
    /// Origin autonomous system number.
    pub asn: Option<u32>,
    /// Human-readable AS name / org.
    pub as_name: Option<String>,
    pub lat_bits: Option<u32>,
    pub lon_bits: Option<u32>,
    pub city: Option<String>,
    pub country: Option<String>,
}

pub struct MetaView {
    pub hostname: Option<Seq<char>>,
    pub asn: Option<u32>,
    pub as_name: Option<Seq<char>>,
    pub lat_bits: Option<u32>,
    pub lon_bits: Option<u32>,
    pub city: Option<Seq<char>>,
    pub country: Option<Seq<char>>,
}

impl View for HopMeta {
    type V = MetaView;

    open spec fn view(&self) -> MetaView {
        MetaView {
            hostname: opt_str(self.hostname),
            asn: self.asn,
            as_name: opt_str(self.as_name),
            lat_bits: self.lat_bits,
            lon_bits: self.lon_bits,
            city: opt_str(self.city),
            country: opt_str(self.country),
        }
    }
}

/// No enrichment at all.
pub open spec fn empty_meta() -> MetaView {
    MetaView {
        hostname: None,
        asn: None,
        as_name: None,
        lat_bits: None,
        lon_bits: None,
        city: None,
        country: None,
    }
}

impl HopMeta {
    pub fn new() -> (m: HopMeta)
        ensures
            m@ == empty_meta(),
    {
        HopMeta {
            hostname: None,
            asn: None,
            as_name: None,
            lat_bits: None,
            lon_bits: None,
            city: None,
            country: None,
        }
    }
}

/// One hop on the path (one TTL value).
#[derive(Clone)]
pub struct Hop {
    /// Addresses observed responding at this TTL, in order of first sight.
    /// More than one means the path is load-balanced (ECMP) here.
    pub addrs: Vec<Addr>,
    pub stat: HopStat,
    /// Recent RTTs in ns; `None` marks a probe answered without one. Bounded
    /// to [`HISTORY`].
    pub recent: VecDeque<Option<u64>>,
    /// Enrichment for the primary (first) address.
    pub meta: HopMeta,
    /// Most recent MPLS label stack seen at this hop (empty if none).
    pub mpls: Vec<MplsLabel>,
}

pub struct HopView {
    pub addrs: Seq<Addr>,
    pub sent: nat,
    pub samples: Seq<u64>,
    pub recent: Seq<Option<u64>>,
    pub meta: MetaView,
    pub mpls: Seq<MplsLabel>,
}

impl View for Hop {
    type V = HopView;

    open spec fn view(&self) -> HopView {
        HopView {
            addrs: self.addrs@,
            sent: self.stat.sent_count(),
            samples: self.stat.samples(),
            recent: self.recent@,
            meta: self.meta@,
            mpls: self.mpls@,
        }
    }
}

/// A hop nothing has been recorded for.
pub open spec fn fresh_hop() -> HopView {
    HopView {
        addrs: Seq::empty(),
        sent: 0,
        samples: Seq::empty(),
        recent: Seq::empty(),
        meta: empty_meta(),
        mpls: Seq::empty(),
    }
}

/// No address occurs twice.
pub open spec fn distinct(s: Seq<Addr>) -> bool {
    forall|i: int, j: int| 0 <= i < j < s.len() ==> s[i] != s[j]
}

/// A hop that is sound to hold: distinct addresses, bounded history, and
/// round-trip totals that fit the statistics' integers (the sum in 128 bits,
/// the count in 64).
pub open spec fn hop_wf(h: HopView) -> bool {
    &&& distinct(h.addrs)
    &&& h.recent.len() <= HISTORY
    &&& sum_of(h.samples) <= u128::MAX
    &&& h.samples.len() <= u64::MAX
}

/// The addresses after seeing `a` respond: appended when new.
pub open spec fn note_addr(addrs: Seq<Addr>, a: Addr) -> Seq<Addr> {
    if addrs.contains(a) { addrs } else { addrs.push(a) }
}

/// The history after one more sample, the oldest dropped when full.
pub open spec fn push_recent(r: Seq<Option<u64>>, sample: Option<u64>) -> Seq<Option<u64>> {
    if r.len() >= HISTORY { r.drop_first().push(sample) } else { r.push(sample) }
}

/// The address treated as canonical for display and enrichment.
pub open spec fn primary(h: HopView) -> Option<Addr> {
    if h.addrs.len() > 0 { Some(h.addrs[0]) } else { None }
}

fn contains_addr(v: &Vec<Addr>, a: Addr) -> (b: bool)
    ensures
        b == v@.contains(a),
{
    let mut i: usize = 0;
    while i < v.len()
        invariant
            i <= v@.len(),
            forall|j: int| 0 <= j < i ==> v@[j] != a,
        decreases v@.len() - i,
    {
        if v[i] == a {
            assert(v@[i as int] == a);
            return true;
        }
        i = i + 1;
    }
    false
}

impl Hop {
    pub fn new() -> (h: Hop)
        ensures
            h@ == fresh_hop(),
    {
        Hop {
            addrs: Vec::new(),
            stat: HopStat::new(),
            recent: VecDeque::new(),
            meta: HopMeta::new(),
            mpls: Vec::new(),
        }
    }

    fn note_addr(&mut self, addr: Addr)
        requires
            distinct(old(self).addrs@),
        ensures
            final(self)@ == (HopView { addrs: note_addr(old(self)@.addrs, addr), ..old(self)@ }),
            distinct(final(self).addrs@),
    {
        if !contains_addr(&self.addrs, addr) {
            self.addrs.push(addr);
        }
    }

    fn push_recent(&mut self, sample: Option<u64>)
        ensures
            final(self)@ == (HopView { recent: push_recent(old(self)@.recent, sample), ..old(self)@ }),
    {
        if self.recent.len() >= HISTORY {
            self.recent.pop_front();
        }
        self.recent.push_back(sample);
        assert(self.recent@ =~= push_recent(old(self)@.recent, sample));
    }

    /// The address we treat as canonical for display/enrichment.
    pub fn primary_addr(&self) -> (a: Option<Addr>)
        ensures
            a == primary(self@),
    {
        if self.addrs.len() > 0 { Some(self.addrs[0]) } else { None }
    }
}

/// The whole trace state. `hops[i]` is the hop at TTL `i + 1`.
#[derive(Clone)]
pub struct Session {
    pub target: Option<Addr>,
    pub hops: Vec<Hop>,
    /// TTL at which the destination first replied, once known. Frontends
    /// render hops `1..=path_len`.
    pub path_len: Option<u8>,
    /// Per-flow observed path: `paths[flow][ttl-1]` is the last address that
    /// flow saw at that TTL.
    pub paths: Vec<Vec<Option<Addr>>>,
}

/// The hop index a TTL lands on (TTL 0 shares hop 0 with TTL 1).
pub open spec fn hop_index(ttl: u8) -> int {
    if ttl == 0 { 0 } else { ttl - 1 }
}

/// The hops after making sure index `idx` exists, new hops fresh.
pub open spec fn grow(hops: Seq<HopView>, idx: int) -> Seq<HopView> {
    if idx < hops.len() {
        hops
    } else {
        hops + Seq::new((idx + 1 - hops.len()) as nat, |i: int| fresh_hop())
    }
}

/// A hop with one more probe counted as sent.
pub open spec fn hop_sent(h: HopView) -> HopView {
    HopView { sent: h.sent + 1, ..h }
}

/// A hop after folding in a response.
pub open spec fn hop_response(h: HopView, from: Option<Addr>, rtt: Option<u64>, mpls: Seq<MplsLabel>) -> HopView {
    HopView {
        addrs: match from {
            Some(a) => note_addr(h.addrs, a),
            None => h.addrs,
        },
        samples: match rtt {
            Some(r) => h.samples.push(r),
            None => h.samples,
        },
        recent: push_recent(h.recent, rtt),
        mpls: if mpls.len() > 0 { mpls } else { h.mpls },
        ..h
    }
}

/// The number of hops worth displaying.
pub open spec fn spec_visible(path_len: Option<u8>, n: nat) -> nat {
    match path_len {
        Some(p) => if (p as nat) < n { p as nat } else { n },
        None => n,
    }
}

/// A path after `addr` was seen at index `idx`, gaps filled with `None`.
pub open spec fn path_record(p: Seq<Option<Addr>>, idx: int, addr: Addr) -> Seq<Option<Addr>> {
    let grown = if idx < p.len() {
        p
    } else {
        p + Seq::new((idx + 1 - p.len()) as nat, |i: int| None::<Addr>)
    };
    grown.update(idx, Some(addr))
}

/// The per-flow paths after `flow` saw `addr` at `ttl`: missing flows are
/// added empty, and the flow's path records the address.
pub open spec fn paths_after(paths: Seq<Seq<Option<Addr>>>, flow: int, ttl: u8, addr: Addr) -> Seq<Seq<Option<Addr>>> {
    let grown = if flow < paths.len() {
        paths
    } else {
        paths + Seq::new((flow + 1 - paths.len()) as nat, |i: int| Seq::<Option<Addr>>::empty())
    };
    grown.update(flow, path_record(grown[flow], hop_index(ttl), addr))
}

impl Session {
    /// All hops by their views.
    pub open spec fn hops_view(&self) -> Seq<HopView> {
        self.hops@.map_values(|h: Hop| h@)
    }

    /// All per-flow paths by their views.
    pub open spec fn paths_view(&self) -> Seq<Seq<Option<Addr>>> {
        self.paths@.map_values(|p: Vec<Option<Addr>>| p@)
    }

    /// Every hop is sound to hold.
    pub open spec fn wf(&self) -> bool {
        forall|i: int| 0 <= i < self.hops@.len() ==> hop_wf(#[trigger] self.hops@[i]@)
    }

    /// An empty session toward `target`.
    pub fn new(target: Option<Addr>) -> (s: Session)
        ensures
            s.target == target,
            s.hops@.len() == 0,
            s.path_len is None,
            s.paths@.len() == 0,
            s.wf(),
    {
        Session { target, hops: Vec::new(), path_len: None, paths: Vec::new() }
    }

    /// Make sure the hop for `ttl` exists, appending fresh hops as needed.
    fn ensure_hop(&mut self, ttl: u8) -> (idx: usize)
        requires
            old(self).wf(),
        ensures
            idx == hop_index(ttl),
            idx < final(self).hops@.len(),
            final(self).hops_view() == grow(old(self).hops_view(), idx as int),
            final(self).hops@[idx as int]@ == grow(old(self).hops_view(), idx as int)[idx as int],
            final(self).wf(),
            final(self).target == old(self).target,
            final(self).path_len == old(self).path_len,
            final(self).paths@ == old(self).paths@,
    {
        let idx: usize = if ttl == 0 { 0 } else { (ttl - 1) as usize };
        let ghost start = self.hops_view();
        while self.hops.len() <= idx
            invariant
                self.wf(),
                idx < 256,
                start.len() <= self.hops@.len() <= if idx < start.len() { start.len() } else { (idx + 1) as nat },
                self.hops_view() == start + Seq::new((self.hops@.len() - start.len()) as nat, |i: int| fresh_hop()),
                self.target == old(self).target,
                self.path_len == old(self).path_len,
                self.paths@ == old(self).paths@,
            decreases idx + 1 - self.hops@.len(),
        {
            let ghost before = self.hops_view();
            self.hops.push(Hop::new());
            assert(self.hops_view() =~= before.push(fresh_hop()));
            assert(self.hops_view() =~= start + Seq::new((self.hops@.len() - start.len()) as nat, |i: int| fresh_hop()));
        }
        assert(self.hops_view() =~= grow(start, idx as int));
        assert(self.hops@[idx as int]@ == self.hops_view()[idx as int]);
        idx
    }

    /// Record that we emitted a probe at `ttl` (drives the loss denominator).
    pub fn on_sent(&mut self, ttl: u8)
        requires
            old(self).wf(),
            old(self).send_room(ttl),
        ensures
            final(self).wf(),
            final(self).hops_view() == grow(old(self).hops_view(), hop_index(ttl)).update(
                hop_index(ttl),
                hop_sent(grow(old(self).hops_view(), hop_index(ttl))[hop_index(ttl)]),
            ),
            final(self).target == old(self).target,
            final(self).path_len == old(self).path_len,
            final(self).paths_view() == old(self).paths_view(),
    {
        let ghost p0 = self.paths@;
        let ghost g0 = self.hops_view();
        let idx = self.ensure_hop(ttl);
        let ghost g = self.hops_view();
        assert(self.hops@[idx as int]@.sent < u64::MAX) by {
            if (idx as int) < g0.len() {
                assert(g0[idx as int] == old(self).hops@[idx as int]@);
            }
        }
        self.hops[idx].stat.record_sent();
        assert(self.hops_view() =~= g.update(idx as int, hop_sent(g[idx as int])));
        assert(self.paths@ == p0);
        assert(forall|i: int| 0 <= i < self.hops@.len() ==> #[trigger] self.hops@[i]@ == self.hops_view()[i]);
    }

    /// Fold a probe response into the session.
    pub fn on_response(&mut self, resp: &ProbeResponse)
        requires
            old(self).wf(),
            resp.rtt_ns is Some ==> old(self).sample_room(resp.ttl),
        ensures
            final(self).wf(),
            final(self).hops_view() == grow(old(self).hops_view(), hop_index(resp.ttl)).update(
                hop_index(resp.ttl),
                hop_response(
                    grow(old(self).hops_view(), hop_index(resp.ttl))[hop_index(resp.ttl)],
                    resp.from,
                    resp.rtt_ns,
                    resp.mpls@,
                ),
            ),
            final(self).target == old(self).target,
            final(self).path_len == old(self).path_len,
            final(self).paths_view() == old(self).paths_view(),
    {
        let ghost p0 = self.paths@;
        let ghost g0 = self.hops_view();
        let idx = self.ensure_hop(resp.ttl);
        let ghost g = self.hops_view();
        assert(self.hops@[idx as int]@ == g[idx as int]);
        assert(hop_wf(g[idx as int]));
        assert(resp.rtt_ns is Some ==> self.hops@[idx as int]@.samples.len() < u64::MAX) by {
            if (idx as int) < g0.len() {
                assert(g0[idx as int] == old(self).hops@[idx as int]@);
            }
        }
        if let Some(addr) = resp.from {
            self.hops[idx].note_addr(addr);
        }
        if resp.mpls.len() > 0 {
            self.hops[idx].mpls = clone_labels(&resp.mpls);
        }
        match resp.rtt_ns {
            Some(rtt) => {
                self.hops[idx].stat.record_rtt(rtt);
            },
            None => {},
        }
        self.hops[idx].push_recent(resp.rtt_ns);
        assert(self.hops@[idx as int]@ == hop_response(g[idx as int], resp.from, resp.rtt_ns, resp.mpls@));
        assert(self.hops_view() =~= g.update(
            idx as int,
            hop_response(g[idx as int], resp.from, resp.rtt_ns, resp.mpls@),
        ));
        assert(self.paths@ == p0);
        assert(forall|i: int| 0 <= i < self.hops@.len() ==> #[trigger] self.hops@[i]@ == self.hops_view()[i]);
    }

    /// Note that the destination was reached at `ttl`; `path_len` converges
    /// to the shortest TTL that reaches it.
    pub fn note_reached(&mut self, ttl: u8)
        ensures
            final(self).path_len == Some(match old(self).path_len {
                Some(p) => if p <= ttl { p } else { ttl },
                None => ttl,
            }),
            final(self).hops@ == old(self).hops@,
            final(self).target == old(self).target,
            final(self).paths@ == old(self).paths@,
    {
        self.path_len = Some(match self.path_len {
            Some(p) => if p <= ttl { p } else { ttl },
            None => ttl,
        });
    }

    /// Record the address a given `flow` saw at `ttl` (for the topology view).
    pub fn record_path(&mut self, flow: usize, ttl: u8, addr: Addr)
        requires
            flow < usize::MAX,
        ensures
            final(self).paths_view() == paths_after(old(self).paths_view(), flow as int, ttl, addr),
            final(self).hops@ == old(self).hops@,
            final(self).target == old(self).target,
            final(self).path_len == old(self).path_len,
    {
        let ghost start = self.paths_view();
        while self.paths.len() <= flow
            invariant
                start.len() <= self.paths@.len() <= if (flow as int) < start.len() { start.len() } else { (flow + 1) as nat },
                self.paths_view() == start + Seq::new((self.paths@.len() - start.len()) as nat, |i: int| Seq::<Option<Addr>>::empty()),
                self.hops@ == old(self).hops@,
                self.target == old(self).target,
                self.path_len == old(self).path_len,
            decreases flow + 1 - self.paths@.len(),
        {
            let ghost before = self.paths_view();
            self.paths.push(Vec::new());
            assert(self.paths_view() =~= before.push(Seq::<Option<Addr>>::empty()));
            assert(self.paths_view() =~= start + Seq::new((self.paths@.len() - start.len()) as nat, |i: int| Seq::<Option<Addr>>::empty()));
        }
        let ghost grown = self.paths_view();
        assert(grown =~= (if (flow as int) < start.len() {
            start
        } else {
            start + Seq::new((flow + 1 - start.len()) as nat, |i: int| Seq::<Option<Addr>>::empty())
        }));
        let idx: usize = if ttl == 0 { 0 } else { (ttl - 1) as usize };
        let ghost p0 = self.paths@[flow as int]@;
        while self.paths[flow].len() <= idx
            invariant
                flow < self.paths@.len(),
                self.paths@.len() == grown.len(),
                idx < 256,
                forall|j: int| 0 <= j < grown.len() && j != flow ==> #[trigger] self.paths@[j]@ == grown[j],
                p0.len() <= self.paths@[flow as int]@.len(),
                self.paths@[flow as int]@ == p0 + Seq::new((self.paths@[flow as int]@.len() - p0.len()) as nat, |i: int| None::<Addr>),
                self.paths@[flow as int]@.len() <= if (idx as int) < p0.len() { p0.len() } else { (idx + 1) as nat },
                self.hops@ == old(self).hops@,
                self.target == old(self).target,
                self.path_len == old(self).path_len,
            decreases idx + 1 - self.paths@[flow as int]@.len(),
        {
            let ghost before = self.paths@[flow as int]@;
            self.paths[flow].push(None);
            assert(self.paths@[flow as int]@ =~= p0 + Seq::new((self.paths@[flow as int]@.len() - p0.len()) as nat, |i: int| None::<Addr>));
        }
        self.paths[flow].set(idx, Some(addr));
        assert(self.paths@[flow as int]@ =~= path_record(p0, idx as int, addr));
        assert(self.paths_view() =~= grown.update(flow as int, path_record(grown[flow as int], idx as int, addr)));
    }

    /// The hop for `ttl`, if it exists, can count one more probe.
    pub open spec fn send_room(&self, ttl: u8) -> bool {
        hop_index(ttl) < self.hops@.len() ==> self.hops@[hop_index(ttl)]@.sent < u64::MAX
    }

    /// The hop for `ttl`, if it exists, can take one more round-trip sample.
    pub open spec fn sample_room(&self, ttl: u8) -> bool {
        hop_index(ttl) < self.hops@.len() ==> self.hops@[hop_index(ttl)]@.samples.len() < u64::MAX
    }

    /// Whether [`Session::on_sent`] may be called for `ttl`.
    pub fn has_send_room(&self, ttl: u8) -> (b: bool)
        ensures
            b == self.send_room(ttl),
    {
        let idx: usize = if ttl == 0 { 0 } else { (ttl - 1) as usize };
        if idx < self.hops.len() {
            self.hops[idx].stat.sent() < u64::MAX
        } else {
            true
        }
    }

    /// Whether [`Session::on_response`] may be called for a response at `ttl`.
    pub fn has_sample_room(&self, ttl: u8) -> (b: bool)
        ensures
            b == self.sample_room(ttl),
    {
        let idx: usize = if ttl == 0 { 0 } else { (ttl - 1) as usize };
        if idx < self.hops.len() {
            self.hops[idx].stat.recv() < u64::MAX
        } else {
            true
        }
    }

    /// Number of hops worth displaying right now.
    pub fn visible_hops(&self) -> (n: usize)
        ensures
            n == spec_visible(self.path_len, self.hops@.len()),
    {
        match self.path_len {
            Some(p) => if (p as usize) < self.hops.len() { p as usize } else { self.hops.len() },
            None => self.hops.len(),
        }
    }
}

fn clone_labels(v: &Vec<MplsLabel>) -> (r: Vec<MplsLabel>)
    ensures
        r@ == v@,
{
    let mut r: Vec<MplsLabel> = Vec::new();
    let mut i: usize = 0;
    while i < v.len()
        invariant
            i <= v@.len(),
            r@ == v@.take(i as int),
        decreases v@.len() - i,
    {
        r.push(v[i]);
        assert(v@.take(i + 1) =~= v@.take(i as int).push(v@[i as int]));
        i = i + 1;
    }
    assert(v@.take(v@.len() as int) =~= v@);
    r
}

} // verus!
