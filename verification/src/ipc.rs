//! Framing for the privilege-separation helper pipe.
//!
//! The client sends a fixed 7-byte Hello (protocol, IPv4 destination, port),
//! then a stream of 19-byte Probe messages, each answered by a 10-byte Resp.
//! All multi-byte fields are big-endian.
use vstd::prelude::*;
use crate::bytes::{be16, be32, be64, from_be16, from_be32, from_be64, lemma_be16_roundtrip, lemma_be32_roundtrip, lemma_be64_roundtrip, u16_from_be, u16_to_be, u32_from_be, u32_to_be, u64_to_be};
use crate::model::{Addr, ProbeOutcome, ProbeProtocol, ProbeRequest, ProbeResponse};

verus! {

/// The helper's named pipe.
pub const PIPE_NAME: &'static str = "\\\\.\\pipe\\hopscout-helper";
pub const PROTO_UDP: u8 = 1;
pub const PROTO_TCP: u8 = 2;
pub const HELLO_LEN: usize = 7;
pub const PROBE_LEN: usize = 19;
pub const RESP_LEN: usize = 10;
pub const NANOS_PER_MILLI: u64 = 1_000_000;

/// The protocol byte of the Hello message (ICMP never goes through the helper).
pub open spec fn spec_proto_byte(p: ProbeProtocol) -> u8 {
    match p {
        ProbeProtocol::Udp => PROTO_UDP,
        ProbeProtocol::TcpSyn => PROTO_TCP,
        ProbeProtocol::Icmp => 0,
    }
}

pub fn proto_byte(p: ProbeProtocol) -> (b: u8)
    ensures
        b == spec_proto_byte(p),
{
    match p {
        ProbeProtocol::Udp => PROTO_UDP,
        ProbeProtocol::TcpSyn => PROTO_TCP,
        ProbeProtocol::Icmp => 0,
    }
}

/// The protocol a helper serves for a Hello protocol byte; other bytes end
/// the connection.
pub fn proto_from_byte(b: u8) -> (p: Option<ProbeProtocol>)
    ensures
        b == PROTO_UDP ==> p == Some(ProbeProtocol::Udp),
        b == PROTO_TCP ==> p == Some(ProbeProtocol::TcpSyn),
        b != PROTO_UDP && b != PROTO_TCP ==> p is None,
{
    if b == PROTO_UDP {
        Some(ProbeProtocol::Udp)
    } else if b == PROTO_TCP {
        Some(ProbeProtocol::TcpSyn)
    } else {
        None
    }
}

/// The Hello message: protocol byte, the four address octets, the port.
pub open spec fn spec_hello(proto: u8, dest: u32, port: u16) -> Seq<u8> {
    seq![proto] + be32(dest) + be16(port)
}

pub fn encode_hello(proto: u8, dest: u32, port: u16) -> (b: [u8; HELLO_LEN])
    ensures
        b@ == spec_hello(proto, dest, port),
{
    let o = u32_to_be(dest);
    let p = u16_to_be(port);
    let b = [proto, o[0], o[1], o[2], o[3], p[0], p[1]];
    assert(b@ =~= spec_hello(proto, dest, port));
    b
}

pub fn decode_hello(b: &[u8; HELLO_LEN]) -> (r: (u8, u32, u16))
    ensures
        r == (b@[0], from_be32(b@[1], b@[2], b@[3], b@[4]), from_be16(b@[5], b@[6])),
{
    (b[0], u32_from_be(b[1], b[2], b[3], b[4]), u16_from_be(b[5], b[6]))
}

/// Decoding an encoded Hello gives back its three fields.
pub proof fn hello_roundtrip(proto: u8, dest: u32, port: u16)
    ensures
        ({
            let b = spec_hello(proto, dest, port);
            (b[0], from_be32(b[1], b[2], b[3], b[4]), from_be16(b[5], b[6])) == (proto, dest, port)
        }),
{
    lemma_be32_roundtrip(dest);
    lemma_be16_roundtrip(port);
    let b = spec_hello(proto, dest, port);
    assert(b[1] == be32(dest)[0] && b[2] == be32(dest)[1] && b[3] == be32(dest)[2] && b[4] == be32(dest)[3]);
    assert(b[5] == be16(port)[0] && b[6] == be16(port)[1]);
}

/// A count clamped to what fits the 32-bit wire fields.
pub open spec fn clamp32(x: int) -> u32 {
    if x <= u32::MAX { x as u32 } else { u32::MAX }
}

/// The Probe message: TTL, sequence number, payload size, flow id and timeout
/// in milliseconds (sizes and timeouts saturate at `u32::MAX`).
pub open spec fn spec_probe(req: ProbeRequest, timeout_ms: u128) -> Seq<u8> {
    seq![req.ttl] + be64(req.seq) + be32(clamp32(req.payload_size as int)) + be16(req.flow_id)
        + be32(clamp32(timeout_ms as int))
}

pub fn encode_probe(req: &ProbeRequest, timeout_ms: u128) -> (b: [u8; PROBE_LEN])
    ensures
        b@ == spec_probe(*req, timeout_ms),
{
    let size: u32 = if req.payload_size <= 0xffff_ffffusize { req.payload_size as u32 } else { u32::MAX };
    let t: u32 = if timeout_ms <= 0xffff_ffffu128 { timeout_ms as u32 } else { u32::MAX };
    let s = u64_to_be(req.seq);
    let z = u32_to_be(size);
    let f = u16_to_be(req.flow_id);
    let m = u32_to_be(t);
    let b = [
        req.ttl, s[0], s[1], s[2], s[3], s[4], s[5], s[6], s[7], z[0], z[1], z[2], z[3], f[0],
        f[1], m[0], m[1], m[2], m[3],
    ];
    assert(b@ =~= spec_probe(*req, timeout_ms));
    b
}

/// The request and timeout (milliseconds) a Probe message carries.
pub open spec fn spec_decode_probe(b: Seq<u8>, proto: ProbeProtocol) -> (ProbeRequest, u64) {
    (
        ProbeRequest {
            ttl: b[0],
            seq: from_be64(b.subrange(1, 9)),
            payload_size: from_be32(b[9], b[10], b[11], b[12]) as usize,
            flow_id: from_be16(b[13], b[14]),
            protocol: proto,
        },
        from_be32(b[15], b[16], b[17], b[18]) as u64,
    )
}

pub fn decode_probe(b: &[u8; PROBE_LEN], proto: ProbeProtocol) -> (r: (ProbeRequest, u64))
    ensures
        r == spec_decode_probe(b@, proto),
{
    let seq = ((b[1] as u64) << 56u64) | ((b[2] as u64) << 48u64) | ((b[3] as u64) << 40u64)
        | ((b[4] as u64) << 32u64) | ((b[5] as u64) << 24u64) | ((b[6] as u64) << 16u64)
        | ((b[7] as u64) << 8u64) | (b[8] as u64);
    let size = u32_from_be(b[9], b[10], b[11], b[12]);
    let req = ProbeRequest {
        ttl: b[0],
        seq,
        payload_size: size as usize,
        flow_id: u16_from_be(b[13], b[14]),
        protocol: proto,
    };
    let t = u32_from_be(b[15], b[16], b[17], b[18]);
    assert(b@.subrange(1, 9)[0] == b@[1]);
    assert(b@.subrange(1, 9)[7] == b@[8]);
    proof {
        let s = b@.subrange(1, 9);
        assert(s[1] == b@[2] && s[2] == b@[3] && s[3] == b@[4] && s[4] == b@[5] && s[5] == b@[6] && s[6] == b@[7]);
    }
    (req, t as u64)
}

/// Decoding an encoded Probe gives back the request (with the protocol the
/// connection was opened for) and the timeout, whenever the payload size and
/// the timeout fit the 32-bit fields.
pub proof fn probe_roundtrip(req: ProbeRequest, timeout_ms: u128)
    requires
        req.payload_size <= u32::MAX,
        timeout_ms <= u32::MAX,
    ensures
        spec_decode_probe(spec_probe(req, timeout_ms), req.protocol) == (req, timeout_ms as u64),
{
    let b = spec_probe(req, timeout_ms);
    lemma_be64_roundtrip(req.seq);
    lemma_be32_roundtrip(req.payload_size as u32);
    lemma_be16_roundtrip(req.flow_id);
    lemma_be32_roundtrip(timeout_ms as u32);
    assert(b.subrange(1, 9) =~= be64(req.seq));
    let (r, t) = spec_decode_probe(b, req.protocol);
    assert(b[9] == be32(req.payload_size as u32)[0]);
    assert(b[10] == be32(req.payload_size as u32)[1]);
    assert(b[11] == be32(req.payload_size as u32)[2]);
    assert(b[12] == be32(req.payload_size as u32)[3]);
    assert(b[13] == be16(req.flow_id)[0]);
    assert(b[14] == be16(req.flow_id)[1]);
    assert(b[15] == be32(timeout_ms as u32)[0]);
    assert(b[16] == be32(timeout_ms as u32)[1]);
    assert(b[17] == be32(timeout_ms as u32)[2]);
    assert(b[18] == be32(timeout_ms as u32)[3]);
    assert(r == req);
}

/// The outcome code carried in byte 0 of a Resp.
pub open spec fn outcome_code(o: ProbeOutcome) -> u8 {
    match o {
        ProbeOutcome::Reply => 0,
        ProbeOutcome::TtlExceeded => 1,
        ProbeOutcome::Unreachable => 2,
        ProbeOutcome::Timeout => 3,
    }
}

/// The outcome a Resp code stands for; unknown codes read as a timeout.
pub open spec fn outcome_of_code(c: u8) -> ProbeOutcome {
    if c == 0 {
        ProbeOutcome::Reply
    } else if c == 1 {
        ProbeOutcome::TtlExceeded
    } else if c == 2 {
        ProbeOutcome::Unreachable
    } else {
        ProbeOutcome::Timeout
    }
}

/// The whole milliseconds of an RTT, saturating at `u32::MAX`; 0 when absent.
pub open spec fn rtt_wire_ms(rtt_ns: Option<u64>) -> u32 {
    match rtt_ns {
        Some(n) => clamp32((n / NANOS_PER_MILLI) as int),
        None => 0,
    }
}

/// The Resp message: outcome code, an address-family marker (4 for an IPv4
/// responder, else 0) with the four octets, and the RTT in milliseconds.
pub open spec fn spec_resp(r: ProbeResponse) -> Seq<u8> {
    let addr: Seq<u8> = match r.from {
        Some(Addr::V4(a)) => seq![4u8] + be32(a),
        _ => seq![0u8, 0u8, 0u8, 0u8, 0u8],
    };
    seq![outcome_code(r.outcome)] + addr + be32(rtt_wire_ms(r.rtt_ns))
}

pub fn encode_resp(resp: &ProbeResponse) -> (b: [u8; RESP_LEN])
    ensures
        b@ == spec_resp(*resp),
{
    let mut b = [0u8; RESP_LEN];
    b[0] = match resp.outcome {
        ProbeOutcome::Reply => 0,
        ProbeOutcome::TtlExceeded => 1,
        ProbeOutcome::Unreachable => 2,
        ProbeOutcome::Timeout => 3,
    };
    if let Some(Addr::V4(v4)) = resp.from {
        let o = u32_to_be(v4);
        b[1] = 4;
        b[2] = o[0];
        b[3] = o[1];
        b[4] = o[2];
        b[5] = o[3];
    }
    let rtt: u32 = match resp.rtt_ns {
        Some(n) => {
            let ms = n / NANOS_PER_MILLI;
            if ms <= 0xffff_ffffu64 { ms as u32 } else { u32::MAX }
        },
        None => 0,
    };
    let r = u32_to_be(rtt);
    b[6] = r[0];
    b[7] = r[1];
    b[8] = r[2];
    b[9] = r[3];
    assert(b@ =~= spec_resp(*resp));
    b
}

/// The fields (TTL, sequence, outcome, responder, RTT) of the response a Resp
/// message describes for the probe `ttl`/`seq`. The RTT is present exactly
/// when the outcome is not a timeout, independent of the address marker.
pub open spec fn spec_decode_resp(b: Seq<u8>, ttl: u8, seq: u64) -> (u8, u64, ProbeOutcome, Option<Addr>, Option<u64>) {
    let outcome = outcome_of_code(b[0]);
    (
        ttl,
        seq,
        outcome,
        if b[1] == 4 { Some(Addr::V4(from_be32(b[2], b[3], b[4], b[5]))) } else { None },
        if outcome != ProbeOutcome::Timeout {
            Some((from_be32(b[6], b[7], b[8], b[9]) as u64 * NANOS_PER_MILLI) as u64)
        } else {
            None
        },
    )
}

/// The fields of a response that travel over the pipe.
pub open spec fn resp_fields(r: ProbeResponse) -> (u8, u64, ProbeOutcome, Option<Addr>, Option<u64>) {
    (r.ttl, r.seq, r.outcome, r.from, r.rtt_ns)
}

pub fn decode_resp(b: &[u8; RESP_LEN], ttl: u8, seq: u64) -> (r: ProbeResponse)
    ensures
        resp_fields(r) == spec_decode_resp(b@, ttl, seq),
        r.mpls@.len() == 0,
{
    let outcome = if b[0] == 0 {
        ProbeOutcome::Reply
    } else if b[0] == 1 {
        ProbeOutcome::TtlExceeded
    } else if b[0] == 2 {
        ProbeOutcome::Unreachable
    } else {
        ProbeOutcome::Timeout
    };
    let from = if b[1] == 4 { Some(Addr::V4(u32_from_be(b[2], b[3], b[4], b[5]))) } else { None };
    let rtt_ms = u32_from_be(b[6], b[7], b[8], b[9]);
    let rtt_ns = match outcome {
        ProbeOutcome::Timeout => None,
        _ => Some(rtt_ms as u64 * NANOS_PER_MILLI),
    };
    ProbeResponse { ttl, seq, outcome, from, rtt_ns, mpls: Vec::new() }
}

/// A response survives the helper pipe unchanged when it is representable
/// there: the responder is absent or IPv4, and the RTT is a whole number of
/// milliseconds below 2^32 that is present exactly when the probe did not
/// time out.
pub proof fn resp_roundtrip(r: ProbeResponse)
    requires
        r.from is None || r.from matches Some(Addr::V4(_)),
        r.outcome == ProbeOutcome::Timeout <==> r.rtt_ns is None,
        r.rtt_ns matches Some(n) ==> n % NANOS_PER_MILLI == 0 && n / NANOS_PER_MILLI <= u32::MAX,
    ensures
        spec_decode_resp(spec_resp(r), r.ttl, r.seq) == resp_fields(r),
{
    let b = spec_resp(r);
    let w = rtt_wire_ms(r.rtt_ns);
    lemma_be32_roundtrip(w);
    assert(b[6] == be32(w)[0] && b[7] == be32(w)[1] && b[8] == be32(w)[2] && b[9] == be32(w)[3]);
    if let Some(Addr::V4(a)) = r.from {
        lemma_be32_roundtrip(a);
        assert(b[2] == be32(a)[0] && b[3] == be32(a)[1] && b[4] == be32(a)[2] && b[5] == be32(a)[3]);
    }
    let d = spec_decode_resp(b, r.ttl, r.seq);
    assert(d.2 == r.outcome);
    assert(d.3 == r.from);
    if let Some(n) = r.rtt_ns {
        assert(n == (n / NANOS_PER_MILLI) * NANOS_PER_MILLI);
    }
}

} // verus!
