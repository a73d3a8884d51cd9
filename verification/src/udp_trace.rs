//! The computing half of the UDP traceroute: choosing the correlation port,
//! recognising the ICMP error a raw receive socket captured, and turning what
//! came back into a probe response.
use vstd::prelude::*;
use crate::bytes::{from_be16, lemma_from_be16_value, u16_from_be};
use crate::model::{Addr, ProbeOutcome, ProbeRequest, ProbeResponse};

verus! {

/// Classic traceroute UDP base port.
pub const BASE_PORT: u16 = 33434;
/// Size of the unique-destination-port window.
pub const PORT_SPAN: u16 = 4000;
/// Largest UDP payload a probe sends.
pub const MAX_UDP_PAYLOAD: usize = 1400;

/// What kind of ICMP error answered a UDP probe.
#[derive(Clone, Copy, Debug, PartialEq, Eq, Structural)]
pub enum IcmpKind {
    TimeExceeded,
    PortUnreachable,
    Unreachable,
}

/// The destination port of the `n`-th probe: ports cycle through the window
/// starting at the base port.
pub fn alloc_port(n: u32) -> (port: u16)
    ensures
        port as int == BASE_PORT as int + n as int % PORT_SPAN as int,
{
    BASE_PORT + (n % (PORT_SPAN as u32)) as u16
}

/// The payload length a UDP probe actually sends.
pub fn udp_payload_len(payload_size: usize) -> (n: usize)
    ensures
        n == if payload_size < MAX_UDP_PAYLOAD { payload_size } else { MAX_UDP_PAYLOAD },
{
    if payload_size < MAX_UDP_PAYLOAD { payload_size } else { MAX_UDP_PAYLOAD }
}

/// The header length an IPv4 version/IHL byte announces, in bytes.
pub open spec fn header_len(b: u8) -> int {
    (b & 0x0fu8) as int * 4
}

pub fn header_len_of(b: u8) -> (n: usize)
    ensures
        n == header_len(b),
        n <= 60,
{
    assert(b & 0x0fu8 <= 15u8) by (bit_vector);
    ((b & 0x0fu8) as usize) * 4
}

/// The error kind a type/code pair stands for, if it is one we correlate.
pub open spec fn kind_of(t: u8, code: u8) -> Option<IcmpKind> {
    if t == 11 {
        Some(IcmpKind::TimeExceeded)
    } else if t == 3 && code == 3 {
        Some(IcmpKind::PortUnreachable)
    } else if t == 3 {
        Some(IcmpKind::Unreachable)
    } else {
        None
    }
}

/// A captured IPv4 datagram carrying an ICMP Time Exceeded / Destination
/// Unreachable that quotes a UDP datagram: the error kind and the quoted UDP
/// destination port (our correlation key). Anything else gives `None`.
pub open spec fn spec_parse_icmp_v4(buf: Seq<u8>) -> Option<(IcmpKind, u16)> {
    if buf.len() < 20 || buf[9] != 1 {
        None
    } else {
        let off = header_len(buf[0]);
        if off > buf.len() || buf.len() - off < 8 {
            None
        } else {
            match kind_of(buf[off], buf[off + 1]) {
                None => None,
                Some(kind) => {
                    let inner = off + 8;
                    if buf.len() - inner < 20 || buf[inner + 9] != 17 {
                        None
                    } else {
                        let udp = inner + header_len(buf[inner]);
                        if udp > buf.len() || buf.len() - udp < 4 {
                            None
                        } else {
                            Some((kind, from_be16(buf[udp + 2], buf[udp + 3])))
                        }
                    }
                },
            }
        }
    }
}

/// The header length byte's low nibble counts 32-bit words.
pub proof fn lemma_header_len_is_low_nibble(b: u8)
    ensures
        header_len(b) == b % 16 * 4,
{
    assert((b & 0x0fu8) == b % 16) by (bit_vector);
}

/// What an accepted datagram is: an IPv4 datagram of protocol ICMP (1) whose
/// ICMP message, after the header length its first byte announces, is a Time
/// Exceeded (type 11) or a Destination Unreachable (type 3); the kind is Port
/// Unreachable exactly for type 3 code 3, any other unreachable code is plain
/// Unreachable; and the port is the big-endian destination port of the quoted
/// UDP header (protocol 17). ICMP types other than 3 and 11 are never accepted.
pub proof fn error_kind_follows_type_and_code(buf: Seq<u8>)
    ensures
        spec_parse_icmp_v4(buf) matches Some((kind, port)) ==> {
            let off = buf[0] % 16 * 4;
            let inner = off + 8;
            let udp = inner + buf[inner] % 16 * 4;
            &&& buf.len() >= off + 8
            &&& buf[9] == 1
            &&& buf[off] == 3 || buf[off] == 11
            &&& (kind == IcmpKind::TimeExceeded <==> buf[off] == 11)
            &&& (kind == IcmpKind::PortUnreachable <==> (buf[off] == 3 && buf[off + 1] == 3))
            &&& (kind == IcmpKind::Unreachable <==> (buf[off] == 3 && buf[off + 1] != 3))
            &&& buf[inner + 9] == 17
            &&& udp + 4 <= buf.len()
            &&& port == buf[udp + 2] * 256 + buf[udp + 3]
        },
{
    if buf.len() >= 20 {
        lemma_header_len_is_low_nibble(buf[0]);
        if let Some((kind, port)) = spec_parse_icmp_v4(buf) {
            let inner = header_len(buf[0]) + 8;
            lemma_header_len_is_low_nibble(buf[inner]);
            let udp = inner + header_len(buf[inner]);
            lemma_from_be16_value(buf[udp + 2], buf[udp + 3]);
        }
    }
}

/// Parse a raw IPv4 ICMP datagram, returning the error kind and the original
/// UDP destination port.
pub fn parse_icmp_v4(buf: &[u8]) -> (r: Option<(IcmpKind, u16)>)
    ensures
        r == spec_parse_icmp_v4(buf@),
{
    if buf.len() < 20 || buf[9] != 1 {
        return None;
    }
    let off = header_len_of(buf[0]);
    if off > buf.len() || buf.len() - off < 8 {
        return None;
    }
    let t = buf[off];
    let code = buf[off + 1];
    let kind = if t == 11 {
        IcmpKind::TimeExceeded
    } else if t == 3 && code == 3 {
        IcmpKind::PortUnreachable
    } else if t == 3 {
        IcmpKind::Unreachable
    } else {
        return None;
    };
    let inner = off + 8;
    if buf.len() - inner < 20 || buf[inner + 9] != 17 {
        return None;
    }
    let udp = inner + header_len_of(buf[inner]);
    if udp > buf.len() || buf.len() - udp < 4 {
        return None;
    }
    Some((kind, u16_from_be(buf[udp + 2], buf[udp + 3])))
}

/// The probe outcome an ICMP error kind means for a UDP probe: a port
/// unreachable comes from the destination itself.
pub open spec fn spec_outcome_for_kind(k: IcmpKind) -> ProbeOutcome {
    match k {
        IcmpKind::TimeExceeded => ProbeOutcome::TtlExceeded,
        IcmpKind::PortUnreachable => ProbeOutcome::Reply,
        IcmpKind::Unreachable => ProbeOutcome::Unreachable,
    }
}

pub fn outcome_for_kind(k: IcmpKind) -> (o: ProbeOutcome)
    ensures
        o == spec_outcome_for_kind(k),
{
    match k {
        IcmpKind::TimeExceeded => ProbeOutcome::TtlExceeded,
        IcmpKind::PortUnreachable => ProbeOutcome::Reply,
        IcmpKind::Unreachable => ProbeOutcome::Unreachable,
    }
}

/// Only a port unreachable (the destination's own answer) means the probe
/// reached its target; a time exceeded names a router on the way, and any
/// other unreachable reports the probe as unreachable.
pub proof fn only_port_unreachable_means_reached(k: IcmpKind)
    ensures
        spec_outcome_for_kind(k) == ProbeOutcome::Reply <==> k == IcmpKind::PortUnreachable,
        spec_outcome_for_kind(k) == ProbeOutcome::TtlExceeded <==> k == IcmpKind::TimeExceeded,
        spec_outcome_for_kind(k) == ProbeOutcome::Unreachable <==> k == IcmpKind::Unreachable,
{
}

/// The response to a UDP probe: the responder, its error kind and the elapsed
/// time when an ICMP error arrived in time, a timeout otherwise.
pub fn udp_response(req: &ProbeRequest, answer: Option<(Addr, IcmpKind, u64)>) -> (r: ProbeResponse)
    ensures
        r.ttl == req.ttl,
        r.seq == req.seq,
        r.mpls@.len() == 0,
        match answer {
            Some((from, kind, rtt)) => r.outcome == spec_outcome_for_kind(kind) && r.from == Some(from)
                && r.rtt_ns == Some(rtt),
            None => r.outcome == ProbeOutcome::Timeout && r.from is None && r.rtt_ns is None,
        },
{
    match answer {
        Some((from, kind, rtt)) => ProbeResponse {
            ttl: req.ttl,
            seq: req.seq,
            outcome: outcome_for_kind(kind),
            from: Some(from),
            rtt_ns: Some(rtt),
            mpls: Vec::new(),
        },
        None => crate::model::timeout_response(req),
    }
}

} // verus!
