//! The computing half of the unprivileged ICMP echo backend: reading the IP
//! status of an echo reply, clamping timeouts, and the path-MTU binary search
//! as a state machine driven by echo results.
use vstd::prelude::*;
use crate::model::{Addr, ProbeOutcome, ProbeRequest, ProbeResponse};

verus! {

pub const IP_SUCCESS: u32 = 0;
pub const IP_DEST_NET_UNREACHABLE: u32 = 11002;
pub const IP_DEST_HOST_UNREACHABLE: u32 = 11003;
pub const IP_DEST_PROT_UNREACHABLE: u32 = 11004;
pub const IP_DEST_PORT_UNREACHABLE: u32 = 11005;
pub const IP_REQ_TIMED_OUT: u32 = 11010;
pub const IP_TTL_EXPIRED_TRANSIT: u32 = 11013;
pub const IP_TTL_EXPIRED_REASSEM: u32 = 11014;

/// A timeout in milliseconds as the 32-bit value the echo API takes.
pub fn clamp_timeout(timeout_ms: u128) -> (t: u32)
    ensures
        t == if timeout_ms <= u32::MAX { timeout_ms } else { u32::MAX as u128 },
{
    if timeout_ms <= 0xffff_ffffu128 { timeout_ms as u32 } else { u32::MAX }
}

/// The outcome an IP status code reports; unknown codes count as unreachable.
pub open spec fn spec_status_outcome(status: u32) -> ProbeOutcome {
    if status == IP_SUCCESS {
        ProbeOutcome::Reply
    } else if status == IP_TTL_EXPIRED_TRANSIT || status == IP_TTL_EXPIRED_REASSEM {
        ProbeOutcome::TtlExceeded
    } else if status == IP_REQ_TIMED_OUT {
        ProbeOutcome::Timeout
    } else {
        ProbeOutcome::Unreachable
    }
}

/// Map a raw IP status plus responder / RTT into a probe response; a timed-out
/// status carries neither.
pub fn classify(req: &ProbeRequest, status: u32, from: Addr, rtt_ns: u64) -> (r: ProbeResponse)
    ensures
        r.ttl == req.ttl,
        r.seq == req.seq,
        r.outcome == spec_status_outcome(status),
        r.mpls@.len() == 0,
        r.outcome == ProbeOutcome::Timeout ==> r.from is None && r.rtt_ns is None,
        r.outcome != ProbeOutcome::Timeout ==> r.from == Some(from) && r.rtt_ns == Some(rtt_ns),
{
    let outcome = if status == IP_SUCCESS {
        ProbeOutcome::Reply
    } else if status == IP_TTL_EXPIRED_TRANSIT || status == IP_TTL_EXPIRED_REASSEM {
        ProbeOutcome::TtlExceeded
    } else if status == IP_DEST_NET_UNREACHABLE || status == IP_DEST_HOST_UNREACHABLE
        || status == IP_DEST_PROT_UNREACHABLE || status == IP_DEST_PORT_UNREACHABLE {
        ProbeOutcome::Unreachable
    } else if status == IP_REQ_TIMED_OUT {
        ProbeOutcome::Timeout
    } else {
        ProbeOutcome::Unreachable
    };
    let (from, rtt_ns) = match outcome {
        ProbeOutcome::Timeout => (None, None),
        _ => (Some(from), Some(rtt_ns)),
    };
    ProbeResponse { ttl: req.ttl, seq: req.seq, outcome, from, rtt_ns, mpls: Vec::new() }
}

/// What an echo status reports: success (0) is a reply from the target; TTL
/// expired in transit or during reassembly (11013, 11014), and nothing else,
/// is a router's time exceeded; a request timeout (11010), and nothing else,
/// is a timeout; every destination net / host / protocol / port unreachable
/// (11002 to 11005), like any other status, is unreachable.
pub proof fn status_outcomes(status: u32)
    ensures
        spec_status_outcome(status) == ProbeOutcome::Reply <==> status == 0,
        spec_status_outcome(status) == ProbeOutcome::TtlExceeded <==> (status == 11013 || status == 11014),
        spec_status_outcome(status) == ProbeOutcome::Timeout <==> status == 11010,
        11002 <= status <= 11005 ==> spec_status_outcome(status) == ProbeOutcome::Unreachable,
        spec_status_outcome(status) == ProbeOutcome::Unreachable <==> (status != 0 && status != 11010
            && status != 11013 && status != 11014),
{
}

/// IPv4 + ICMP header bytes added to an echo payload.
pub const MTU_HEADERS: u16 = 28;
/// Largest payload the search tries (jumbo frames).
pub const MTU_MAX_PAYLOAD: u16 = 8972;

/// Where a path-MTU search stands.
#[derive(Clone, Copy, Debug, PartialEq, Eq, Structural)]
pub enum MtuSearch {
    /// The empty-payload echo that shows the host answers ping at all.
    Start,
    /// Binary search over payloads `lo ..= hi`; `best` is the largest payload
    /// known to pass.
    Searching { lo: u16, hi: u16, best: u16 },
    /// The search is over: the MTU in bytes, or `None` if the host does not
    /// answer ping.
    Done(Option<u16>),
}

/// The middle of the remaining range.
pub open spec fn mid_of(lo: u16, hi: u16) -> int {
    lo + (hi - lo) / 2
}

/// A search state that is sound to hold: a searching range is non-empty,
/// within the payload limit, and `best` sits just below it.
pub open spec fn search_wf(s: MtuSearch) -> bool {
    match s {
        MtuSearch::Searching { lo, hi, best } => lo <= hi <= MTU_MAX_PAYLOAD && (if lo == 0 {
            best == 0
        } else {
            best == lo - 1
        }),
        MtuSearch::Done(r) => r matches Some(m) ==> m <= MTU_MAX_PAYLOAD + MTU_HEADERS,
        MtuSearch::Start => true,
    }
}

/// The search after learning whether its pending echo got through.
pub open spec fn spec_feed(s: MtuSearch, ok: bool) -> MtuSearch {
    match s {
        MtuSearch::Start => if ok {
            MtuSearch::Searching { lo: 0, hi: MTU_MAX_PAYLOAD, best: 0 }
        } else {
            MtuSearch::Done(None)
        },
        MtuSearch::Searching { lo, hi, best } => {
            let mid = mid_of(lo, hi);
            if ok {
                if mid + 1 > hi {
                    MtuSearch::Done(Some((mid + MTU_HEADERS) as u16))
                } else {
                    MtuSearch::Searching { lo: (mid + 1) as u16, hi, best: mid as u16 }
                }
            } else if mid == 0 || mid - 1 < lo {
                MtuSearch::Done(Some((best + MTU_HEADERS) as u16))
            } else {
                MtuSearch::Searching { lo, hi: (mid - 1) as u16, best }
            }
        },
        MtuSearch::Done(r) => MtuSearch::Done(r),
    }
}

/// The echo payload the search wants tried next, if it is not over.
pub open spec fn spec_next_payload(s: MtuSearch) -> Option<u16> {
    match s {
        MtuSearch::Start => Some(0),
        MtuSearch::Searching { lo, hi, .. } => Some(mid_of(lo, hi) as u16),
        MtuSearch::Done(_) => None,
    }
}

impl MtuSearch {
    pub fn new() -> (s: MtuSearch)
        ensures
            s == MtuSearch::Start,
    {
        MtuSearch::Start
    }

    /// The payload size to echo next (with Don't Fragment set), or `None` when
    /// the search is over.
    pub fn next_payload(&self) -> (p: Option<u16>)
        requires
            search_wf(*self),
        ensures
            p == spec_next_payload(*self),
    {
        match *self {
            MtuSearch::Start => Some(0),
            MtuSearch::Searching { lo, hi, .. } => Some(lo + (hi - lo) / 2),
            MtuSearch::Done(_) => None,
        }
    }

    /// Record whether the pending echo got through.
    pub fn feed(&mut self, ok: bool)
        requires
            search_wf(*old(self)),
        ensures
            *final(self) == spec_feed(*old(self), ok),
            search_wf(*final(self)),
    {
        *self = match *self {
            MtuSearch::Start => if ok {
                MtuSearch::Searching { lo: 0, hi: MTU_MAX_PAYLOAD, best: 0 }
            } else {
                MtuSearch::Done(None)
            },
            MtuSearch::Searching { lo, hi, best } => {
                let mid = lo + (hi - lo) / 2;
                if ok {
                    if mid + 1 > hi {
                        MtuSearch::Done(Some(mid + MTU_HEADERS))
                    } else {
                        MtuSearch::Searching { lo: mid + 1, hi, best: mid }
                    }
                } else if mid == 0 || mid - 1 < lo {
                    MtuSearch::Done(Some(best + MTU_HEADERS))
                } else {
                    MtuSearch::Searching { lo, hi: mid - 1, best }
                }
            },
            MtuSearch::Done(r) => MtuSearch::Done(r),
        };
    }

    /// The result once the search is over.
    pub fn result(&self) -> (r: Option<Option<u16>>)
        ensures
            r == match *self {
                MtuSearch::Done(m) => Some(m),
                _ => None,
            },
    {
        match *self {
            MtuSearch::Done(m) => Some(m),
            _ => None,
        }
    }
}

/// Whether an echo of `payload` gets through on a path whose largest passing
/// payload is `m` (none passes when `m` is negative).
pub open spec fn passes(m: int, payload: int) -> bool {
    payload <= m
}

/// The search driven for `fuel` steps by a path whose largest passing payload
/// is `m`.
pub open spec fn run_on_path(s: MtuSearch, m: int, fuel: nat) -> MtuSearch
    decreases fuel,
{
    if fuel == 0 {
        s
    } else {
        match spec_next_payload(s) {
            None => s,
            Some(p) => run_on_path(spec_feed(s, passes(m, p as int)), m, (fuel - 1) as nat),
        }
    }
}

/// The size of what is left to search (a bound on the remaining steps).
pub open spec fn remaining(s: MtuSearch) -> nat {
    match s {
        MtuSearch::Start => (MTU_MAX_PAYLOAD + 2) as nat,
        MtuSearch::Searching { lo, hi, .. } => (hi - lo + 1) as nat,
        MtuSearch::Done(_) => 0,
    }
}

/// The search invariant against a path whose largest passing payload `m` is
/// at least 0: everything below `lo` passes, and the answer (capped at the
/// payload limit) lies in `lo - 1 ..= hi`.
pub open spec fn consistent(s: MtuSearch, m: int) -> bool {
    let cap = if m < MTU_MAX_PAYLOAD { m } else { MTU_MAX_PAYLOAD as int };
    match s {
        MtuSearch::Searching { lo, hi, best } => search_wf(s) && lo <= cap + 1 && cap <= hi,
        MtuSearch::Done(r) => r == Some((cap + MTU_HEADERS) as u16),
        MtuSearch::Start => true,
    }
}

proof fn lemma_run_consistent(s: MtuSearch, m: int, fuel: nat)
    requires
        m >= 0,
        consistent(s, m),
        s != MtuSearch::Start,
        fuel >= remaining(s),
    ensures
        run_on_path(s, m, fuel) == MtuSearch::Done(Some(
            ((if m < MTU_MAX_PAYLOAD { m } else { MTU_MAX_PAYLOAD as int }) + MTU_HEADERS) as u16,
        )),
    decreases fuel,
{
    match s {
        MtuSearch::Searching { lo, hi, best } => {
            let mid = mid_of(lo, hi);
            let next = spec_feed(s, passes(m, mid));
            assert(lo <= mid <= hi);
            lemma_run_consistent(next, m, (fuel - 1) as nat);
        },
        _ => {},
    }
}

/// On a path that passes exactly the payloads up to some `m >= 0`, the search
/// finishes within 8975 echoes and reports `m` (capped at the largest payload
/// tried) plus the 28 header bytes; on a path that answers no echo it reports
/// `None` after the first.
pub proof fn mtu_search_finds_threshold(m: int)
    ensures
        m >= 0 ==> run_on_path(MtuSearch::Start, m, (MTU_MAX_PAYLOAD + 3) as nat) == MtuSearch::Done(
            Some(((if m < MTU_MAX_PAYLOAD { m } else { MTU_MAX_PAYLOAD as int }) + MTU_HEADERS) as u16),
        ),
        m < 0 ==> run_on_path(MtuSearch::Start, m, 1) == MtuSearch::Done(None),
{
    if m >= 0 {
        let s1 = spec_feed(MtuSearch::Start, passes(m, 0));
        assert(s1 == MtuSearch::Searching { lo: 0, hi: MTU_MAX_PAYLOAD, best: 0 });
        lemma_run_consistent(s1, m, (MTU_MAX_PAYLOAD + 2) as nat);
    } else {
        assert(run_on_path(spec_feed(MtuSearch::Start, false), m, 0) == MtuSearch::Done(None));
    }
}

} // verus!
