//! Path-change detection: capture a [`Baseline`] of the path, then report how
//! the live [`Session`] deviates from it: route changes, hops appearing or
//! disappearing, latency regressions, and loss onset.
use vstd::prelude::*;
use crate::model::Addr;
use crate::session::{hop_wf, primary, spec_visible, HopView, Session};
use crate::stats::sum_of;
use crate::wide::{add_wide, b128, ge_wide, mul_wide};

verus! {

/// Extra latency (ns) a hop must add before a regression is reported.
pub const LATENCY_SLACK_NS: u64 = 5_000_000;
/// Loss percentage from which loss onset is reported.
pub const LOSS_ALERT_PCT: u64 = 10;

/// One way the current path differs from the baseline. Latencies are mean
/// round-trip times in nanoseconds; loss is given as lost / sent probes.
#[derive(Clone, Copy, Debug, PartialEq, Eq, Structural)]
pub enum Alert {
    RouteChanged { ttl: u8, from: Addr, to: Addr },
    HopAppeared { ttl: u8, addr: Addr },
    HopDisappeared { ttl: u8, addr: Addr },
    LatencyRegression { ttl: u8, baseline_ns: u64, now_ns: u64 },
    LossOnset { ttl: u8, lost: u64, sent: u64 },
}

impl Alert {
    pub open spec fn spec_ttl(self) -> u8 {
        match self {
            Alert::RouteChanged { ttl, .. } => ttl,
            Alert::HopAppeared { ttl, .. } => ttl,
            Alert::HopDisappeared { ttl, .. } => ttl,
            Alert::LatencyRegression { ttl, .. } => ttl,
            Alert::LossOnset { ttl, .. } => ttl,
        }
    }

    /// The hop (TTL) the alert is about.
    pub fn ttl(&self) -> (t: u8)
        ensures
            t == self.spec_ttl(),
    {
        match *self {
            Alert::RouteChanged { ttl, .. } => ttl,
            Alert::HopAppeared { ttl, .. } => ttl,
            Alert::HopDisappeared { ttl, .. } => ttl,
            Alert::LatencyRegression { ttl, .. } => ttl,
            Alert::LossOnset { ttl, .. } => ttl,
        }
    }
}

/// The mean RTT of a hop (rounded down to whole ns), if it has replies.
pub open spec fn mean_of(h: HopView) -> Option<u64> {
    if h.samples.len() == 0 {
        None
    } else {
        Some((sum_of(h.samples) / h.samples.len()) as u64)
    }
}

/// The round-trip times of a hop taken together: their sum in nanoseconds and
/// how many there are. Their ratio is the exact mean.
#[derive(Clone, Copy, Debug, PartialEq, Eq, Structural)]
pub struct RttTotal {
    pub sum_ns: u128,
    pub count: u64,
}

/// The mean of a total rounded down to whole ns (saturating at `u64::MAX`).
pub open spec fn floor_mean(t: RttTotal) -> u64 {
    if t.count == 0 {
        0
    } else if t.sum_ns / (t.count as u128) <= u64::MAX as u128 {
        (t.sum_ns / (t.count as u128)) as u64
    } else {
        u64::MAX
    }
}

impl RttTotal {
    /// The mean round-trip time, rounded down to whole nanoseconds.
    pub fn mean_ns(&self) -> (m: u64)
        ensures
            m == floor_mean(*self),
    {
        if self.count == 0 {
            0
        } else {
            let q = self.sum_ns / (self.count as u128);
            if q <= u64::MAX as u128 {
                q as u64
            } else {
                u64::MAX
            }
        }
    }
}

/// The total of a hop's round-trip times, if it has replies.
pub open spec fn total_of(h: HopView) -> Option<RttTotal> {
    if h.samples.len() == 0 {
        None
    } else {
        Some(RttTotal { sum_ns: sum_of(h.samples) as u128, count: h.samples.len() as u64 })
    }
}

/// A hop whose totals fit the integers a [`RttTotal`] holds (true of every
/// hop of a session).
pub open spec fn fits(h: HopView) -> bool {
    sum_of(h.samples) <= u128::MAX && h.samples.len() <= u64::MAX
}

/// A captured snapshot of the path: per-TTL primary address and RTT total.
#[derive(Clone)]
pub struct Baseline {
    pub hops: Vec<(Option<Addr>, Option<RttTotal>)>,
}

/// The TTL of hop index `i`, as the one-byte value the alerts carry.
pub open spec fn ttl_of(i: int) -> u8 {
    ((i + 1) % 256) as u8
}

/// Whether a hop counts as lossy: at least the alert percentage of its sent
/// probes went unanswered.
pub open spec fn lossy(h: HopView) -> bool {
    h.sent > 0 && (h.sent - h.samples.len()) * 100 >= LOSS_ALERT_PCT * h.sent
}

/// Whether the live mean RTT (`now_sum / now_n`) regressed against the
/// baseline's mean, compared exactly: at least the factor (in thousandths)
/// times the baseline mean, and at least the slack above it.
pub open spec fn regressed(base: RttTotal, now_sum: nat, now_n: nat, factor_permille: u64) -> bool {
    &&& base.count > 0
    &&& now_n > 0
    &&& now_sum * base.count * 1000 >= base.sum_ns * now_n * factor_permille
    &&& now_sum * base.count >= base.sum_ns * now_n + LATENCY_SLACK_NS * now_n * base.count
}

/// The loss-onset alert of hop index `i`, if the hop is lossy.
pub open spec fn loss_onset_at(i: int, h: HopView) -> Seq<Alert> {
    if lossy(h) {
        seq![Alert::LossOnset { ttl: ttl_of(i), lost: (h.sent - h.samples.len()) as u64, sent: h.sent as u64 }]
    } else {
        Seq::empty()
    }
}

/// The loss-onset alerts of the lossy hops among the first `n`, in TTL order.
pub open spec fn loss_onsets(hops: Seq<HopView>, n: nat) -> Seq<Alert>
    decreases n,
{
    if n == 0 {
        Seq::empty()
    } else {
        loss_onsets(hops, (n - 1) as nat) + loss_onset_at(n - 1, hops[n - 1])
    }
}

/// The alerts for hop index `i`, given the baseline entry and the live hop
/// (either may be missing), in the order route, latency, loss.
pub open spec fn alerts_at(
    i: int,
    base: Option<(Option<Addr>, Option<RttTotal>)>,
    cur: Option<HopView>,
    factor_permille: u64,
) -> Seq<Alert> {
    let (base_addr, base_total) = match base {
        Some(b) => b,
        None => (None, None),
    };
    let cur_addr = match cur {
        Some(h) => primary(h),
        None => None,
    };
    let ttl = ttl_of(i);
    let route: Seq<Alert> = match (base_addr, cur_addr) {
        (Some(a), Some(b)) => if a != b {
            seq![Alert::RouteChanged { ttl, from: a, to: b }]
        } else {
            Seq::empty()
        },
        (None, Some(b)) => seq![Alert::HopAppeared { ttl, addr: b }],
        (Some(a), None) => seq![Alert::HopDisappeared { ttl, addr: a }],
        (None, None) => Seq::empty(),
    };
    let latency: Seq<Alert> = match (base_total, cur) {
        (Some(bt), Some(h)) => match mean_of(h) {
            Some(now) => if regressed(bt, sum_of(h.samples), h.samples.len(), factor_permille) {
                seq![Alert::LatencyRegression { ttl, baseline_ns: floor_mean(bt), now_ns: now }]
            } else {
                Seq::empty()
            },
            None => Seq::empty(),
        },
        _ => Seq::empty(),
    };
    let loss: Seq<Alert> = match cur {
        Some(h) => loss_onset_at(i, h),
        None => Seq::empty(),
    };
    route + latency + loss
}

/// The entry at `i` of a sequence, if there is one.
pub open spec fn get_opt<T>(s: Seq<T>, i: int) -> Option<T> {
    if 0 <= i < s.len() { Some(s[i]) } else { None }
}

/// All alerts for hop indices `0 .. n`, in TTL order.
pub open spec fn spec_deviations(
    base: Seq<(Option<Addr>, Option<RttTotal>)>,
    hops: Seq<HopView>,
    n: nat,
    factor_permille: u64,
) -> Seq<Alert>
    decreases n,
{
    if n == 0 {
        Seq::empty()
    } else {
        spec_deviations(base, hops, (n - 1) as nat, factor_permille) + alerts_at(
            n - 1,
            get_opt(base, n - 1),
            get_opt(hops, n - 1),
            factor_permille,
        )
    }
}

/// The baseline entries of the first `n` hops.
pub open spec fn spec_capture(hops: Seq<HopView>, n: nat) -> Seq<(Option<Addr>, Option<RttTotal>)> {
    Seq::new(n, |i: int| (primary(hops[i]), total_of(hops[i])))
}

/// Every hop has no more replies than probes sent.
pub open spec fn counts_sound(hops: Seq<HopView>) -> bool {
    forall|i: int| 0 <= i < hops.len() ==> (#[trigger] hops[i]).samples.len() <= hops[i].sent
}

/// Whether no hop of the session holds more replies than probes sent (what
/// [`Baseline::deviations`] needs to read loss).
pub fn counts_ok(s: &Session) -> (b: bool)
    ensures
        b == counts_sound(s.hops_view()),
{
    let mut i: usize = 0;
    while i < s.hops.len()
        invariant
            i <= s.hops@.len(),
            forall|j: int| 0 <= j < i ==> (#[trigger] s.hops_view()[j]).samples.len() <= s.hops_view()[j].sent,
        decreases s.hops@.len() - i,
    {
        assert(s.hops_view()[i as int] == s.hops@[i as int]@);
        if s.hops[i].stat.recv() > s.hops[i].stat.sent() {
            return false;
        }
        i = i + 1;
    }
    true
}

/// Whether a live mean of `now_sum / now_n` regressed against the baseline
/// total, decided on exact 256-bit products.
pub fn latency_regressed(base: RttTotal, now_sum: u128, now_n: u64, factor_permille: u64) -> (b: bool)
    ensures
        b == regressed(base, now_sum as nat, now_n as nat, factor_permille),
{
    if base.count == 0 || now_n == 0 {
        return false;
    }
    let ghost bs = base.sum_ns as int;
    let ghost bc = base.count as int;
    let ghost ns = now_sum as int;
    let ghost nn = now_n as int;
    let ghost f = factor_permille as int;
    assert(bc * 1000 <= 0xffff_ffff_ffff_ffff * 1000) by (nonlinear_arith)
        requires 0 <= bc <= 0xffff_ffff_ffff_ffff;
    assert(0 <= nn * f <= 0xffff_ffff_ffff_ffff * 0xffff_ffff_ffff_ffff) by (nonlinear_arith)
        requires 0 <= nn <= 0xffff_ffff_ffff_ffff, 0 <= f <= 0xffff_ffff_ffff_ffff;
    assert(0 <= 5_000_000 * nn <= 5_000_000 * 0xffff_ffff_ffff_ffff) by (nonlinear_arith)
        requires 0 <= nn <= 0xffff_ffff_ffff_ffff;
    let c1000 = (base.count as u128) * 1000;
    let nf = (now_n as u128) * (factor_permille as u128);
    let slack_n = (LATENCY_SLACK_NS as u128) * (now_n as u128);
    let lhs1 = mul_wide(now_sum, c1000);
    let rhs1 = mul_wide(base.sum_ns, nf);
    let lhs2 = mul_wide(now_sum, base.count as u128);
    let d = mul_wide(base.sum_ns, now_n as u128);
    let e = mul_wide(slack_n, base.count as u128);
    proof {
        assert(ns * (bc * 1000) == ns * bc * 1000) by (nonlinear_arith);
        assert(bs * (nn * f) == bs * nn * f) by (nonlinear_arith);
        assert((5_000_000 * nn) * bc == 5_000_000 * nn * bc) by (nonlinear_arith);
        assert(bs * nn <= 0xffff_ffff_ffff_ffff_ffff_ffff_ffff_ffff * 0xffff_ffff_ffff_ffff) by (nonlinear_arith)
            requires 0 <= bs <= 0xffff_ffff_ffff_ffff_ffff_ffff_ffff_ffff, 0 <= nn <= 0xffff_ffff_ffff_ffff;
        assert(5_000_000 * nn * bc <= 5_000_000 * 0xffff_ffff_ffff_ffff * 0xffff_ffff_ffff_ffff) by (nonlinear_arith)
            requires 0 <= nn <= 0xffff_ffff_ffff_ffff, 0 <= bc <= 0xffff_ffff_ffff_ffff;
        assert(d.value() + e.value() < b128() * b128());
    }
    let rhs2 = add_wide(d, e);
    ge_wide(lhs1, rhs1) && ge_wide(lhs2, rhs2)
}

impl Baseline {
    /// Capture the current visible path as the baseline.
    pub fn capture(s: &Session) -> (b: Baseline)
        ensures
            b.hops@ == spec_capture(s.hops_view(), spec_visible(s.path_len, s.hops@.len())),
    {
        let n = s.visible_hops();
        let mut hops: Vec<(Option<Addr>, Option<RttTotal>)> = Vec::new();
        let mut i: usize = 0;
        while i < n
            invariant
                n == spec_visible(s.path_len, s.hops@.len()),
                n <= s.hops@.len(),
                i <= n,
                hops@ == spec_capture(s.hops_view(), i as nat),
            decreases n - i,
        {
            let h = &s.hops[i];
            assert(s.hops_view()[i as int] == h@);
            let total = if h.stat.recv() == 0 {
                None
            } else {
                Some(RttTotal { sum_ns: h.stat.sum_ns(), count: h.stat.recv() })
            };
            hops.push((h.primary_addr(), total));
            assert(hops@ =~= spec_capture(s.hops_view(), (i + 1) as nat));
            i = i + 1;
        }
        Baseline { hops }
    }

    pub fn is_empty(&self) -> (b: bool)
        ensures
            b == (self.hops@.len() == 0),
    {
        self.hops.len() == 0
    }

    /// Deviations of `s` from the baseline, over every TTL either of them
    /// covers. `factor_permille` (e.g. 1500 for 1.5x) flags a hop whose mean
    /// RTT is now at least that factor of the baseline and at least 5 ms higher.
    pub fn deviations(&self, s: &Session, factor_permille: u64) -> (out: Vec<Alert>)
        requires
            counts_sound(s.hops_view()),
        ensures
            out@ == spec_deviations(
                self.hops@,
                s.hops_view(),
                if spec_visible(s.path_len, s.hops@.len()) >= self.hops@.len() {
                    spec_visible(s.path_len, s.hops@.len())
                } else {
                    self.hops@.len()
                },
                factor_permille,
            ),
    {
        let v = s.visible_hops();
        let n = if v >= self.hops.len() { v } else { self.hops.len() };
        let mut out: Vec<Alert> = Vec::new();
        let mut i: usize = 0;
        while i < n
            invariant
                i <= n,
                n == (if v >= self.hops@.len() { v as int } else { self.hops@.len() as int }),
                v == spec_visible(s.path_len, s.hops@.len()),
                counts_sound(s.hops_view()),
                out@ == spec_deviations(self.hops@, s.hops_view(), i as nat, factor_permille),
            decreases n - i,
        {
            let mut here = self.alerts_for(s, i, factor_permille);
            out.append(&mut here);
            i = i + 1;
        }
        out
    }

    /// The alerts for hop index `i`.
    fn alerts_for(&self, s: &Session, i: usize, factor_permille: u64) -> (out: Vec<Alert>)
        requires
            counts_sound(s.hops_view()),
            i < usize::MAX,
        ensures
            out@ == alerts_at(
                i as int,
                get_opt(self.hops@, i as int),
                get_opt(s.hops_view(), i as int),
                factor_permille,
            ),
    {
        let ttl: u8 = ((i + 1) % 256) as u8;
        let (base_addr, base_total) = if i < self.hops.len() { self.hops[i] } else { (None, None) };
        let cur_addr = if i < s.hops.len() { s.hops[i].primary_addr() } else { None };
        let mut out: Vec<Alert> = Vec::new();
        match (base_addr, cur_addr) {
            (Some(a), Some(b)) => if a != b {
                out.push(Alert::RouteChanged { ttl, from: a, to: b });
            },
            (None, Some(b)) => out.push(Alert::HopAppeared { ttl, addr: b }),
            (Some(a), None) => out.push(Alert::HopDisappeared { ttl, addr: a }),
            (None, None) => {},
        }
        if i < s.hops.len() {
            let h = &s.hops[i];
            assert(s.hops_view()[i as int] == h@);
            if let Some(bt) = base_total {
                if let Some(now) = h.stat.avg_ns() {
                    if bt.count > 0 && self::latency_regressed(bt, h.stat.sum_ns(), h.stat.recv(), factor_permille) {
                        out.push(Alert::LatencyRegression { ttl, baseline_ns: bt.mean_ns(), now_ns: now });
                    }
                }
            }
            if h.stat.loss_at_least(LOSS_ALERT_PCT) {
                out.push(Alert::LossOnset { ttl, lost: h.stat.lost(), sent: h.stat.sent() });
            }
        }
        proof {
            let cur = get_opt(s.hops_view(), i as int);
            assert(cur_addr == match cur { Some(h) => primary(h), None => None });
        }
        assert(out@ =~= alerts_at(
            i as int,
            get_opt(self.hops@, i as int),
            get_opt(s.hops_view(), i as int),
            factor_permille,
        ));
        out
    }
}

/// Comparing a session with a baseline captured from it, with any factor,
/// reports exactly the loss-onset alerts of its lossy hops, in TTL order: no
/// route change, no hop appearing or disappearing, no latency regression.
pub proof fn self_comparison_is_loss_onsets(hops: Seq<HopView>, vis: nat, factor_permille: u64)
    requires
        vis <= hops.len(),
        forall|i: int| 0 <= i < vis ==> fits(#[trigger] hops[i]),
    ensures
        spec_deviations(spec_capture(hops, vis), hops, vis, factor_permille) == loss_onsets(hops, vis),
    decreases vis,
{
    if vis > 0 {
        let m = (vis - 1) as nat;
        let base = spec_capture(hops, vis);
        self_comparison_is_loss_onsets(hops, m, factor_permille);
        lemma_deviations_prefix(base, spec_capture(hops, m), hops, m, factor_permille);
        let h = hops[m as int];
        assert(fits(h));
        assert(get_opt(base, m as int) == Some((primary(h), total_of(h))));
        assert(get_opt(hops, m as int) == Some(h));
        if h.samples.len() > 0 {
            let n = h.samples.len();
            let t = total_of(h)->0;
            assert(t.sum_ns == sum_of(h.samples) && t.count == n);
            assert(!(sum_of(h.samples) * n >= t.sum_ns * n + LATENCY_SLACK_NS * n * t.count)) by (nonlinear_arith)
                requires
                    t.sum_ns == sum_of(h.samples),
                    t.count == n,
                    n > 0,
            ;
            assert(!regressed(t, sum_of(h.samples), n, factor_permille));
        }
        let here = alerts_at(m as int, get_opt(base, m as int), get_opt(hops, m as int), factor_permille);
        assert(here =~= loss_onset_at(m as int, h));
    }
}

/// The same for a well-formed session and what [`Baseline::capture`] takes
/// from it: comparing the session with its own capture reports exactly the
/// loss-onset alerts of its lossy visible hops, in TTL order.
pub proof fn session_self_comparison(s: Session, factor_permille: u64)
    requires
        s.wf(),
    ensures
        ({
            let vis = spec_visible(s.path_len, s.hops@.len());
            spec_deviations(spec_capture(s.hops_view(), vis), s.hops_view(), vis, factor_permille)
                == loss_onsets(s.hops_view(), vis)
        }),
{
    let vis = spec_visible(s.path_len, s.hops@.len());
    let hops = s.hops_view();
    assert forall|i: int| 0 <= i < vis implies fits(#[trigger] hops[i]) by {
        assert(hops[i] == s.hops@[i]@);
        assert(hop_wf(s.hops@[i]@));
    }
    self_comparison_is_loss_onsets(hops, vis, factor_permille);
}

/// Comparing a session with a baseline captured from it reports loss onset
/// only.
pub proof fn clean_baseline_reports_only_loss(hops: Seq<HopView>, vis: nat, factor_permille: u64)
    requires
        vis <= hops.len(),
        forall|i: int| 0 <= i < vis ==> fits(#[trigger] hops[i]),
    ensures
        forall|k: int|
            0 <= k < spec_deviations(spec_capture(hops, vis), hops, vis, factor_permille).len()
                ==> #[trigger] spec_deviations(spec_capture(hops, vis), hops, vis, factor_permille)[k] is LossOnset,
{
    self_comparison_is_loss_onsets(hops, vis, factor_permille);
    lemma_loss_onsets_are_loss(hops, vis);
}

proof fn lemma_loss_onsets_are_loss(hops: Seq<HopView>, n: nat)
    ensures
        forall|k: int| 0 <= k < loss_onsets(hops, n).len() ==> #[trigger] loss_onsets(hops, n)[k] is LossOnset,
    decreases n,
{
    if n > 0 {
        let m = (n - 1) as nat;
        lemma_loss_onsets_are_loss(hops, m);
        let prev = loss_onsets(hops, m);
        let here = loss_onset_at(m as int, hops[m as int]);
        let all = loss_onsets(hops, n);
        assert(all == prev + here);
        assert forall|k: int| 0 <= k < all.len() implies #[trigger] all[k] is LossOnset by {
            if k < prev.len() {
                assert(all[k] == prev[k]);
            } else {
                assert(all[k] == here[k - prev.len()]);
            }
        }
    }
}

proof fn lemma_hop_alerts_included(
    base: Seq<(Option<Addr>, Option<RttTotal>)>,
    hops: Seq<HopView>,
    n: nat,
    factor_permille: u64,
    i: int,
    k: int,
)
    requires
        0 <= i < n,
        0 <= k < alerts_at(i, get_opt(base, i), get_opt(hops, i), factor_permille).len(),
    ensures
        spec_deviations(base, hops, n, factor_permille).contains(
            alerts_at(i, get_opt(base, i), get_opt(hops, i), factor_permille)[k],
        ),
    decreases n,
{
    let prev = spec_deviations(base, hops, (n - 1) as nat, factor_permille);
    let here = alerts_at(n - 1, get_opt(base, n - 1), get_opt(hops, n - 1), factor_permille);
    let all = spec_deviations(base, hops, n, factor_permille);
    assert(all == prev + here);
    if i == n - 1 {
        assert(all[prev.len() + k] == here[k]);
    } else {
        lemma_hop_alerts_included(base, hops, (n - 1) as nat, factor_permille, i, k);
        let x = alerts_at(i, get_opt(base, i), get_opt(hops, i), factor_permille)[k];
        let j = choose|j: int| 0 <= j < prev.len() && prev[j] == x;
        assert(all[j] == prev[j]);
    }
}

/// Every change of a hop against the baseline is reported: a different
/// address as a route change, an address the baseline lacked as a new hop,
/// and a baseline address now missing as a hop that disappeared.
pub proof fn changes_are_reported(
    base: Seq<(Option<Addr>, Option<RttTotal>)>,
    hops: Seq<HopView>,
    n: nat,
    factor_permille: u64,
    i: int,
)
    requires
        0 <= i < n,
    ensures
        ({
            let was = match get_opt(base, i) {
                Some(b) => b.0,
                None => None,
            };
            let now = match get_opt(hops, i) {
                Some(h) => primary(h),
                None => None,
            };
            let devs = spec_deviations(base, hops, n, factor_permille);
            &&& (was is Some && now is Some && was != now)
                ==> devs.contains(Alert::RouteChanged { ttl: ttl_of(i), from: was->0, to: now->0 })
            &&& (was is None && now is Some) ==> devs.contains(Alert::HopAppeared { ttl: ttl_of(i), addr: now->0 })
            &&& (was is Some && now is None) ==> devs.contains(Alert::HopDisappeared { ttl: ttl_of(i), addr: was->0 })
        }),
{
    let here = alerts_at(i, get_opt(base, i), get_opt(hops, i), factor_permille);
    let was = match get_opt(base, i) {
        Some(b) => b.0,
        None => None,
    };
    let now = match get_opt(hops, i) {
        Some(h) => primary(h),
        None => None,
    };
    if (was is Some && now is Some && was != now) || (was is None && now is Some) || (was is Some && now is None) {
        assert(here.len() > 0);
        lemma_hop_alerts_included(base, hops, n, factor_permille, i, 0);
    }
}

proof fn lemma_deviations_prefix(
    b1: Seq<(Option<Addr>, Option<RttTotal>)>,
    b2: Seq<(Option<Addr>, Option<RttTotal>)>,
    hops: Seq<HopView>,
    j: nat,
    factor_permille: u64,
)
    requires
        j <= b2.len(),
        b2.len() <= b1.len(),
        forall|i: int| 0 <= i < b2.len() ==> b1[i] == b2[i],
    ensures
        spec_deviations(b1, hops, j, factor_permille) == spec_deviations(b2, hops, j, factor_permille),
    decreases j,
{
    if j > 0 {
        lemma_deviations_prefix(b1, b2, hops, (j - 1) as nat, factor_permille);
        assert(get_opt(b1, j - 1) == get_opt(b2, j - 1));
    }
}

} // verus!
