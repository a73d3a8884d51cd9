//! Core probe types shared by the engine, the backends, the helper protocol
//! and the frontends.
use vstd::prelude::*;

verus! {

/// An IP address: IPv4 as its big-endian 32-bit number, IPv6 as its
/// big-endian 128-bit number.
#[derive(Clone, Copy, Debug, PartialEq, Eq, Structural)]
pub enum Addr {
    V4(u32),
    V6(u128),
}

/// Transport used to elicit a TTL-exceeded / reply from each hop.
#[derive(Clone, Copy, Debug, PartialEq, Eq, Structural)]
pub enum ProbeProtocol {
    Icmp,
    Udp,
    TcpSyn,
}

/// How a single probe turned out.
#[derive(Clone, Copy, Debug, PartialEq, Eq, Structural)]
pub enum ProbeOutcome {
    /// Reached the final destination (ICMP echo reply / TCP SYN-ACK).
    Reply,
    /// A router on the path returned "TTL exceeded".
    TtlExceeded,
    /// Destination/host/net/port unreachable.
    Unreachable,
    /// No response within the timeout.
    Timeout,
}

/// One entry of an MPLS label stack (RFC 4950).
#[derive(Clone, Copy, Debug, PartialEq, Eq, Structural)]
pub struct MplsLabel {
    pub label: u32,
    pub exp: u8,
    pub bos: bool,
    pub ttl: u8,
}

/// A duration as whole seconds plus nanoseconds (`nanos` below one second
/// for durations the program builds).
#[derive(Clone, Copy, Debug, PartialEq, Eq, Structural)]
pub struct Span {
    pub secs: u64,
    pub nanos: u32,
}

/// A span's length in nanoseconds.
pub open spec fn span_ns(s: Span) -> nat {
    s.secs as nat * 1_000_000_000 + s.nanos as nat
}

impl Span {
    /// Whole milliseconds, rounded down.
    pub fn as_millis(&self) -> (ms: u128)
        ensures
            ms == self.secs * 1000 + self.nanos / 1_000_000,
    {
        (self.secs as u128) * 1000 + (self.nanos / 1_000_000) as u128
    }

    /// Whole nanoseconds.
    pub fn as_nanos(&self) -> (ns: u128)
        ensures
            ns == span_ns(*self),
    {
        (self.secs as u128) * 1_000_000_000 + self.nanos as u128
    }
}

/// One probe to send.
#[derive(Clone, Copy, Debug, PartialEq, Eq, Structural)]
pub struct ProbeRequest {
    pub ttl: u8,
    pub seq: u64,
    pub protocol: ProbeProtocol,
    pub payload_size: usize,
    /// Which probe flow this belongs to (multipath discovery).
    pub flow_id: u16,
}

/// A probe response handed back by a backend. Round-trip times are in
/// nanoseconds.
#[derive(Clone, Debug)]
pub struct ProbeResponse {
    pub ttl: u8,
    pub seq: u64,
    pub outcome: ProbeOutcome,
    /// The address that responded; `None` on timeout.
    pub from: Option<Addr>,
    /// Round-trip time in nanoseconds; `None` on timeout.
    pub rtt_ns: Option<u64>,
    /// MPLS label stack quoted by the responder (empty if none).
    pub mpls: Vec<MplsLabel>,
}

/// The response for a probe that got no answer in time.
pub fn timeout_response(req: &ProbeRequest) -> (r: ProbeResponse)
    ensures
        r.ttl == req.ttl,
        r.seq == req.seq,
        r.outcome == ProbeOutcome::Timeout,
        r.from is None,
        r.rtt_ns is None,
        r.mpls@.len() == 0,
{
    ProbeResponse {
        ttl: req.ttl,
        seq: req.seq,
        outcome: ProbeOutcome::Timeout,
        from: None,
        rtt_ns: None,
        mpls: Vec::new(),
    }
}

} // verus!
