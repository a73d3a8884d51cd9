//! Per-hop rolling statistics.
//!
//! Everything here is O(1) per probe and bounded in memory. Round-trip times
//! are kept as exact integer nanoseconds: the running sum and sum of squares
//! give the mean and the jitter (standard deviation) without a history.
use vstd::prelude::*;
use crate::wide::{mul_wide, sub_wide, U256};

verus! {

/// Sum of the samples.
pub open spec fn sum_of(s: Seq<u64>) -> nat
    decreases s.len(),
{
    if s.len() == 0 { 0 } else { sum_of(s.drop_last()) + s.last() as nat }
}

/// Sum of the squared samples.
pub open spec fn sum_sq_of(s: Seq<u64>) -> nat
    decreases s.len(),
{
    if s.len() == 0 { 0 } else { sum_sq_of(s.drop_last()) + s.last() as nat * s.last() as nat }
}

/// Smallest sample (of a non-empty sequence).
pub open spec fn min_of(s: Seq<u64>) -> u64
    decreases s.len(),
{
    if s.len() <= 1 {
        s[0]
    } else if min_of(s.drop_last()) <= s.last() {
        min_of(s.drop_last())
    } else {
        s.last()
    }
}

/// Largest sample (of a non-empty sequence).
pub open spec fn max_of(s: Seq<u64>) -> u64
    decreases s.len(),
{
    if s.len() <= 1 {
        s[0]
    } else if max_of(s.drop_last()) >= s.last() {
        max_of(s.drop_last())
    } else {
        s.last()
    }
}

/// A sum capped at the largest `u128`.
pub open spec fn cap128(x: nat) -> u128 {
    if x <= u128::MAX { x as u128 } else { u128::MAX }
}

proof fn lemma_sum_bound(s: Seq<u64>)
    ensures
        sum_of(s) <= s.len() * 0xffff_ffff_ffff_ffff,
    decreases s.len(),
{
    if s.len() > 0 {
        lemma_sum_bound(s.drop_last());
        assert((s.len() - 1) * 0xffff_ffff_ffff_ffff + 0xffff_ffff_ffff_ffff == s.len()
            * 0xffff_ffff_ffff_ffff) by (nonlinear_arith);
    }
}

proof fn lemma_spread(s: Seq<u64>, y: int)
    ensures
        sum_sq_of(s) - 2 * y * sum_of(s) + s.len() * y * y >= 0,
    decreases s.len(),
{
    if s.len() > 0 {
        let t = s.drop_last();
        let x = s.last() as int;
        lemma_spread(t, y);
        let a = sum_sq_of(t) as int;
        let b = sum_of(t) as int;
        let n = t.len() as int;
        assert(sum_sq_of(s) == a + x * x);
        assert(sum_of(s) == b + x);
        assert((a + x * x) - 2 * y * (b + x) + (n + 1) * y * y == (a - 2 * y * b + n * y * y) + (x - y) * (x - y))
            by (nonlinear_arith);
        assert((x - y) * (x - y) >= 0) by (nonlinear_arith);
        assert(s.len() == n + 1);
        let ss = sum_sq_of(s) as int;
        let s1 = sum_of(s) as int;
        let len = s.len() as int;
        assert(ss - 2 * y * s1 + len * y * y >= 0) by (nonlinear_arith)
            requires
                ss == a + x * x,
                s1 == b + x,
                len == n + 1,
                (a + x * x) - 2 * y * (b + x) + (n + 1) * y * y == (a - 2 * y * b + n * y * y) + (x - y) * (x - y),
                a - 2 * y * b + n * y * y >= 0,
                (x - y) * (x - y) >= 0,
        ;
    } else {
        assert(sum_of(s) == 0 && sum_sq_of(s) == 0);
        assert(sum_sq_of(s) - 2 * y * sum_of(s) + s.len() * y * y == 0) by (nonlinear_arith)
            requires s.len() == 0, sum_of(s) == 0, sum_sq_of(s) == 0;
    }
}

/// The squared sum of the samples is at most their count times the sum of
/// their squares (so the sample variance is never negative).
proof fn lemma_square_of_sum(s: Seq<u64>)
    ensures
        sum_of(s) * sum_of(s) <= s.len() * sum_sq_of(s),
    decreases s.len(),
{
    if s.len() > 0 {
        let t = s.drop_last();
        let x = s.last() as int;
        lemma_square_of_sum(t);
        lemma_spread(t, x);
        let a = sum_sq_of(t) as int;
        let b = sum_of(t) as int;
        let n = t.len() as int;
        assert(sum_sq_of(s) == a + x * x);
        assert(sum_of(s) == b + x);
        assert((n + 1) * (a + x * x) - (b + x) * (b + x) == (n * a - b * b) + (a - 2 * x * b + n * x * x))
            by (nonlinear_arith);
    }
}

/// Rolling stats for a single hop.
#[derive(Clone, Copy)]
pub struct HopStat {
    sent: u64,
    recv: u64,
    last_ns: Option<u64>,
    best_ns: Option<u64>,
    worst_ns: Option<u64>,
    sum_ns: u128,
    sum_sq: u128,
    samples: Ghost<Seq<u64>>,
}

impl HopStat {
    /// Number of probes counted as sent.
    pub closed spec fn sent_count(self) -> nat {
        self.sent as nat
    }

    /// Every round-trip time folded in so far, oldest first.
    pub closed spec fn samples(self) -> Seq<u64> {
        self.samples@
    }

    #[verifier::type_invariant]
    closed spec fn inv(self) -> bool {
        &&& self.recv == self.samples@.len()
        &&& self.sum_ns == sum_of(self.samples@)
        &&& self.sum_sq == cap128(sum_sq_of(self.samples@))
        &&& self.last_ns == if self.samples@.len() == 0 { None } else { Some(self.samples@.last()) }
        &&& self.best_ns == if self.samples@.len() == 0 { None } else { Some(min_of(self.samples@)) }
        &&& self.worst_ns == if self.samples@.len() == 0 { None } else { Some(max_of(self.samples@)) }
    }

    /// Fresh stats: nothing sent, nothing received.
    pub fn new() -> (s: HopStat)
        ensures
            s.sent_count() == 0,
            s.samples() == Seq::<u64>::empty(),
    {
        HopStat {
            sent: 0,
            recv: 0,
            last_ns: None,
            best_ns: None,
            worst_ns: None,
            sum_ns: 0,
            sum_sq: 0,
            samples: Ghost(Seq::empty()),
        }
    }

    /// Count a probe we just emitted toward this hop.
    pub fn record_sent(&mut self)
        requires
            old(self).sent_count() < u64::MAX,
        ensures
            final(self).sent_count() == old(self).sent_count() + 1,
            final(self).samples() == old(self).samples(),
    {
        proof {
            use_type_invariant(&*self);
        }
        *self = HopStat {
            sent: self.sent + 1,
            recv: self.recv,
            last_ns: self.last_ns,
            best_ns: self.best_ns,
            worst_ns: self.worst_ns,
            sum_ns: self.sum_ns,
            sum_sq: self.sum_sq,
            samples: self.samples,
        };
    }

    /// Fold a received round-trip time (nanoseconds) into the rolling stats.
    pub fn record_rtt(&mut self, rtt_ns: u64)
        requires
            old(self).samples().len() < u64::MAX,
        ensures
            final(self).sent_count() == old(self).sent_count(),
            final(self).samples() == old(self).samples().push(rtt_ns),
            sum_of(final(self).samples()) <= u128::MAX,
    {
        proof {
            use_type_invariant(&*self);
        }
        let ghost s = self.samples@;
        let ghost t = s.push(rtt_ns);
        assert(t.drop_last() =~= s);
        proof {
            lemma_sum_bound(t);
            assert(t.len() * 0xffff_ffff_ffff_ffff <= 0xffff_ffff_ffff_ffff * 0xffff_ffff_ffff_ffff) by (nonlinear_arith)
                requires t.len() <= 0xffff_ffff_ffff_ffff;
        }
        let best = match self.best_ns {
            Some(b) => if b <= rtt_ns { Some(b) } else { Some(rtt_ns) },
            None => Some(rtt_ns),
        };
        let worst = match self.worst_ns {
            Some(w) => if w >= rtt_ns { Some(w) } else { Some(rtt_ns) },
            None => Some(rtt_ns),
        };
        assert((rtt_ns as u128) * (rtt_ns as u128) <= 0xffff_ffff_ffff_ffff * 0xffff_ffff_ffff_ffff) by (nonlinear_arith)
            requires rtt_ns <= 0xffff_ffff_ffff_ffffu64;
        let sq = (rtt_ns as u128) * (rtt_ns as u128);
        assert((rtt_ns as u128) * (rtt_ns as u128) == rtt_ns as nat * rtt_ns as nat) by (nonlinear_arith)
            requires rtt_ns <= 0xffff_ffff_ffff_ffffu64;
        *self = HopStat {
            sent: self.sent,
            recv: self.recv + 1,
            last_ns: Some(rtt_ns),
            best_ns: best,
            worst_ns: worst,
            sum_ns: self.sum_ns + rtt_ns as u128,
            sum_sq: self.sum_sq.saturating_add(sq),
            samples: Ghost(t),
        };
    }

    pub fn sent(&self) -> (n: u64)
        ensures
            n == self.sent_count(),
    {
        self.sent
    }

    pub fn recv(&self) -> (n: u64)
        ensures
            n == self.samples().len(),
    {
        proof {
            use_type_invariant(self);
        }
        self.recv
    }

    /// Probes sent but not (yet) answered.
    pub fn lost(&self) -> (n: u64)
        ensures
            n == if self.sent_count() >= self.samples().len() {
                self.sent_count() - self.samples().len()
            } else {
                0
            },
    {
        proof {
            use_type_invariant(self);
        }
        self.sent.saturating_sub(self.recv)
    }

    /// Most recent round-trip time.
    pub fn last_ns(&self) -> (r: Option<u64>)
        ensures
            r == if self.samples().len() == 0 { None } else { Some(self.samples().last()) },
    {
        proof {
            use_type_invariant(self);
        }
        self.last_ns
    }

    /// Fastest round-trip time.
    pub fn best_ns(&self) -> (r: Option<u64>)
        ensures
            r == if self.samples().len() == 0 { None } else { Some(min_of(self.samples())) },
    {
        proof {
            use_type_invariant(self);
        }
        self.best_ns
    }

    /// Slowest round-trip time.
    pub fn worst_ns(&self) -> (r: Option<u64>)
        ensures
            r == if self.samples().len() == 0 { None } else { Some(max_of(self.samples())) },
    {
        proof {
            use_type_invariant(self);
        }
        self.worst_ns
    }

    /// Sum of all round-trip times.
    pub fn sum_ns(&self) -> (r: u128)
        ensures
            r == sum_of(self.samples()),
    {
        proof {
            use_type_invariant(self);
        }
        self.sum_ns
    }

    /// Sum of the squared round-trip times (saturating at `u128::MAX`).
    pub fn sum_sq_ns(&self) -> (r: u128)
        ensures
            r == cap128(sum_sq_of(self.samples())),
    {
        proof {
            use_type_invariant(self);
        }
        self.sum_sq
    }

    /// Mean round-trip time (rounded down), or `None` until the first reply.
    pub fn avg_ns(&self) -> (r: Option<u64>)
        ensures
            r == if self.samples().len() == 0 {
                None::<u64>
            } else {
                Some((sum_of(self.samples()) / self.samples().len()) as u64)
            },
            r matches Some(a) ==> a == sum_of(self.samples()) / self.samples().len(),
    {
        proof {
            use_type_invariant(self);
        }
        if self.recv == 0 {
            None
        } else {
            proof {
                let s = self.samples@;
                lemma_sum_bound(s);
                assert(sum_of(s) / s.len() <= 0xffff_ffff_ffff_ffff) by (nonlinear_arith)
                    requires sum_of(s) <= s.len() * 0xffff_ffff_ffff_ffff, s.len() > 0;
            }
            Some((self.sum_ns / (self.recv as u128)) as u64)
        }
    }

    /// The two exact parts of the sample variance of the round-trip times:
    /// `n * sum(x^2) - sum(x)^2` and `n * (n - 1)`, whose ratio is the
    /// variance in ns^2. `None` with fewer than two replies, or once the sum
    /// of squares reaches the largest 128-bit value (where it saturates).
    pub fn variance_parts(&self) -> (r: Option<(U256, u128)>)
        ensures
            r is Some <==> (self.samples().len() >= 2 && sum_sq_of(self.samples()) < u128::MAX),
            r matches Some(p) ==> {
                &&& p.0.value() == self.samples().len() * sum_sq_of(self.samples())
                    - sum_of(self.samples()) * sum_of(self.samples())
                &&& p.1 == self.samples().len() * (self.samples().len() - 1)
            },
    {
        proof {
            use_type_invariant(self);
        }
        if self.recv < 2 || self.sum_sq == u128::MAX {
            return None;
        }
        let n = self.recv;
        let a = mul_wide(self.sum_sq, n as u128);
        let b = mul_wide(self.sum_ns, self.sum_ns);
        proof {
            lemma_square_of_sum(self.samples@);
            assert(self.sum_sq as nat * n as nat == n as nat * self.sum_sq as nat) by (nonlinear_arith);
        }
        let d = sub_wide(a, b);
        assert((n as u128) * ((n - 1) as u128) <= 0xffff_ffff_ffff_ffff * 0xffff_ffff_ffff_ffff) by (nonlinear_arith)
            requires n <= 0xffff_ffff_ffff_ffffu64, n >= 2;
        Some((d, (n as u128) * ((n - 1) as u128)))
    }

    /// Whether the loss (unanswered share of sent probes) is at least `pct`
    /// percent; never with nothing sent.
    pub fn loss_at_least(&self, pct: u64) -> (b: bool)
        requires
            self.samples().len() <= self.sent_count(),
        ensures
            b == (self.sent_count() > 0 && (self.sent_count() - self.samples().len()) * 100
                >= pct * self.sent_count()),
    {
        proof {
            use_type_invariant(self);
        }
        if self.sent == 0 {
            false
        } else {
            assert((pct as u128) * (self.sent as u128) <= 0xffff_ffff_ffff_ffff * 0xffff_ffff_ffff_ffff) by (nonlinear_arith)
                requires pct <= 0xffff_ffff_ffff_ffffu64, self.sent <= 0xffff_ffff_ffff_ffffu64;
            ((self.sent - self.recv) as u128) * 100 >= (pct as u128) * (self.sent as u128)
        }
    }
}

proof fn lemma_sum_between(s: Seq<u64>)
    requires
        s.len() > 0,
    ensures
        min_of(s) * s.len() <= sum_of(s) <= max_of(s) * s.len(),
    decreases s.len(),
{
    if s.len() > 1 {
        let t = s.drop_last();
        lemma_sum_between(t);
        assert(min_of(s) * t.len() <= min_of(t) * t.len()) by (nonlinear_arith)
            requires min_of(s) <= min_of(t);
        assert(max_of(t) * t.len() <= max_of(s) * t.len()) by (nonlinear_arith)
            requires max_of(t) <= max_of(s);
        assert(min_of(s) * s.len() == min_of(s) * t.len() + min_of(s)) by (nonlinear_arith)
            requires s.len() == t.len() + 1;
        assert(max_of(s) * s.len() == max_of(s) * t.len() + max_of(s)) by (nonlinear_arith)
            requires s.len() == t.len() + 1;
        assert(sum_of(s) == sum_of(t) + s.last());
        assert(min_of(s) <= s.last() && s.last() <= max_of(s));
    } else {
        assert(s.drop_last().len() == 0);
        assert(sum_of(s) == sum_of(s.drop_last()) + s.last());
        assert(s.last() == s[0]);
    }
}

/// The mean round-trip time lies between the fastest and the slowest.
pub proof fn mean_between_best_and_worst(s: Seq<u64>)
    requires
        s.len() > 0,
    ensures
        min_of(s) <= sum_of(s) / s.len() <= max_of(s),
{
    lemma_sum_between(s);
    let n = s.len() as int;
    let m = sum_of(s) as int;
    assert(min_of(s) <= m / n <= max_of(s)) by (nonlinear_arith)
        requires min_of(s) * n <= m, m <= max_of(s) * n, n > 0;
}

impl Default for HopStat {
    fn default() -> (s: HopStat)
        ensures
            s.sent_count() == 0,
            s.samples() == Seq::<u64>::empty(),
    {
        HopStat::new()
    }
}

} // verus!
