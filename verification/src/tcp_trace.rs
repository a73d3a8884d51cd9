//! The computing half of the TCP-SYN traceroute: the per-probe identifiers and
//! matching a captured Ethernet frame to the probe it answers.
use vstd::prelude::*;
use crate::bytes::{
    from_be16, from_be32, lemma_from_be16_value, lemma_from_be32_value, u16_from_be, u32_from_be,
};
use crate::model::ProbeOutcome;
use crate::udp_trace::{header_len, header_len_of, lemma_header_len_is_low_nibble};

verus! {

/// Source port held constant across all probes (Paris-style).
pub const SRC_PORT: u16 = 50000;
/// High bits of every SYN sequence number; the low 16 bits carry the IP id.
pub const SEQ_TAG: u32 = 0x1000_0000;

/// The IP id of a probe: the shared counter's value, never zero.
pub fn probe_ip_id(counter: u16) -> (id: u16)
    ensures
        id == if counter == 0 { 1 } else { counter },
{
    if counter == 0 { 1 } else { counter }
}

/// The SYN sequence number that encodes a probe's IP id.
pub open spec fn spec_syn_seq(ip_id: u16) -> u32 {
    SEQ_TAG | ip_id as u32
}

pub fn syn_seq(ip_id: u16) -> (s: u32)
    ensures
        s == spec_syn_seq(ip_id),
{
    SEQ_TAG | ip_id as u32
}

/// The acknowledgement number a SYN-ACK / RST to the probe carries.
pub open spec fn expected_ack(ip_id: u16) -> u32 {
    if spec_syn_seq(ip_id) == u32::MAX { 0 } else { (spec_syn_seq(ip_id) + 1) as u32 }
}

/// What a captured frame says about the probe with IP id `ip_id`: an ICMP Time
/// Exceeded / Unreachable quoting that id names the hop; a TCP segment from the
/// destination to our source port acknowledging the probe's sequence number
/// means the destination was reached. The address is the frame's IPv4 source.
pub open spec fn spec_parse_reply(frame: Seq<u8>, ip_id: u16, dst_ip: u32, src_port: u16) -> Option<(ProbeOutcome, u32)> {
    if frame.len() < 34 || frame[12] != 0x08 || frame[13] != 0x00 {
        None
    } else {
        let ihl = header_len(frame[14]);
        let l4 = 14 + ihl;
        let src = from_be32(frame[26], frame[27], frame[28], frame[29]);
        if frame.len() - 14 < ihl {
            None
        } else if frame[23] == 1 {
            if frame.len() - l4 < 8 {
                None
            } else {
                let outcome = if frame[l4] == 11 {
                    Some(ProbeOutcome::TtlExceeded)
                } else if frame[l4] == 3 {
                    Some(ProbeOutcome::Unreachable)
                } else {
                    None
                };
                match outcome {
                    None => None,
                    Some(o) => if frame.len() - (l4 + 8) < 6 {
                        None
                    } else if from_be16(frame[l4 + 12], frame[l4 + 13]) == ip_id {
                        Some((o, src))
                    } else {
                        None
                    },
                }
            }
        } else if frame[23] == 6 {
            if src != dst_ip || frame.len() - l4 < 12 {
                None
            } else if from_be16(frame[l4 + 2], frame[l4 + 3]) == src_port && from_be32(
                frame[l4 + 8],
                frame[l4 + 9],
                frame[l4 + 10],
                frame[l4 + 11],
            ) == expected_ack(ip_id) {
                Some((ProbeOutcome::Reply, src))
            } else {
                None
            }
        } else {
            None
        }
    }
}

proof fn lemma_ack_value(ip_id: u16)
    ensures
        expected_ack(ip_id) == 0x1000_0000 + ip_id + 1,
{
    let x = ip_id as u32;
    assert(x < 65536);
    assert(0x1000_0000u32 | x == 0x1000_0000u32 + x) by (bit_vector)
        requires x < 65536;
}

/// What a matched frame is. It is an IPv4 Ethernet frame and the hop is its
/// IPv4 source address. The probe timed out at a router (TTL exceeded)
/// exactly when it carries an ICMP Time Exceeded (type 11), and was reported
/// unreachable exactly when it carries an ICMP Destination Unreachable (type
/// 3); such an ICMP error quotes the probe's IP id. The destination was
/// reached exactly when it is a TCP segment, and then it comes from the
/// destination to our source port and acknowledges the probe's sequence
/// number (the tag plus the IP id) plus one.
pub proof fn reply_outcome_follows_frame(frame: Seq<u8>, ip_id: u16, dst_ip: u32, src_port: u16)
    ensures
        spec_parse_reply(frame, ip_id, dst_ip, src_port) matches Some((o, a)) ==> {
            let l4 = 14 + frame[14] % 16 * 4;
            &&& frame.len() >= 34
            &&& frame[12] == 8 && frame[13] == 0
            &&& a == frame[26] * 16777216 + frame[27] * 65536 + frame[28] * 256 + frame[29]
            &&& (o == ProbeOutcome::TtlExceeded <==> (frame[23] == 1 && frame[l4] == 11))
            &&& (o == ProbeOutcome::Unreachable <==> (frame[23] == 1 && frame[l4] == 3))
            &&& (o == ProbeOutcome::Reply <==> frame[23] == 6)
            &&& o != ProbeOutcome::Timeout
            &&& frame[23] == 1 ==> (l4 + 14 <= frame.len() && frame[l4 + 12] * 256 + frame[l4 + 13] == ip_id)
            &&& frame[23] == 6 ==> {
                &&& l4 + 12 <= frame.len()
                &&& a == dst_ip
                &&& frame[l4 + 2] * 256 + frame[l4 + 3] == src_port
                &&& frame[l4 + 8] * 16777216 + frame[l4 + 9] * 65536 + frame[l4 + 10] * 256 + frame[l4 + 11]
                    == 0x1000_0000 + ip_id + 1
            }
        },
{
    if frame.len() >= 34 {
        lemma_header_len_is_low_nibble(frame[14]);
        lemma_from_be32_value(frame[26], frame[27], frame[28], frame[29]);
        let l4 = 14 + header_len(frame[14]);
        if let Some((o, a)) = spec_parse_reply(frame, ip_id, dst_ip, src_port) {
            if frame[23] == 1 {
                lemma_from_be16_value(frame[l4 + 12], frame[l4 + 13]);
            } else {
                lemma_from_be16_value(frame[l4 + 2], frame[l4 + 3]);
                lemma_from_be32_value(frame[l4 + 8], frame[l4 + 9], frame[l4 + 10], frame[l4 + 11]);
                lemma_ack_value(ip_id);
            }
        }
    }
}

/// Match a captured Ethernet frame to the probe `ip_id`, returning the hop.
pub fn parse_reply(frame: &[u8], ip_id: u16, dst_ip: u32, src_port: u16) -> (r: Option<(ProbeOutcome, u32)>)
    ensures
        r == spec_parse_reply(frame@, ip_id, dst_ip, src_port),
{
    if frame.len() < 34 || frame[12] != 0x08 || frame[13] != 0x00 {
        return None;
    }
    let ihl = header_len_of(frame[14]);
    if frame.len() - 14 < ihl {
        return None;
    }
    let l4 = 14 + ihl;
    let src = u32_from_be(frame[26], frame[27], frame[28], frame[29]);
    if frame[23] == 1 {
        if frame.len() - l4 < 8 {
            return None;
        }
        let outcome = if frame[l4] == 11 {
            ProbeOutcome::TtlExceeded
        } else if frame[l4] == 3 {
            ProbeOutcome::Unreachable
        } else {
            return None;
        };
        if frame.len() - (l4 + 8) < 6 {
            return None;
        }
        let inner_id = u16_from_be(frame[l4 + 12], frame[l4 + 13]);
        if inner_id == ip_id { Some((outcome, src)) } else { None }
    } else if frame[23] == 6 {
        if src != dst_ip || frame.len() - l4 < 12 {
            return None;
        }
        let dport = u16_from_be(frame[l4 + 2], frame[l4 + 3]);
        let ack = u32_from_be(frame[l4 + 8], frame[l4 + 9], frame[l4 + 10], frame[l4 + 11]);
        let expected = syn_seq(ip_id).wrapping_add(1);
        if dport == src_port && ack == expected {
            Some((ProbeOutcome::Reply, src))
        } else {
            None
        }
    } else {
        None
    }
}

} // verus!
