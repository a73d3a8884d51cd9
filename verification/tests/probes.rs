use hopscout::echo::{
    clamp_timeout, classify, MtuSearch, IP_DEST_PORT_UNREACHABLE, IP_REQ_TIMED_OUT, IP_SUCCESS,
    IP_TTL_EXPIRED_TRANSIT, MTU_HEADERS,
};
use hopscout::model::{Addr, ProbeOutcome, ProbeProtocol, ProbeRequest};
use hopscout::packet::{ethernet_frame, TcpSyn};
use hopscout::tcp_trace::{parse_reply, probe_ip_id, syn_seq, SEQ_TAG, SRC_PORT};
use hopscout::udp_trace::{alloc_port, udp_payload_len, udp_response, IcmpKind, BASE_PORT};

fn req(ttl: u8) -> ProbeRequest {
    ProbeRequest { ttl, seq: 9, protocol: ProbeProtocol::Icmp, payload_size: 32, flow_id: 0 }
}

#[test]
fn echo_status_classification() {
    let from = Addr::V4(0x0a00_0001);
    let r = classify(&req(3), IP_TTL_EXPIRED_TRANSIT, from, 5);
    assert_eq!((r.ttl, r.seq, r.outcome, r.from, r.rtt_ns), (3, 9, ProbeOutcome::TtlExceeded, Some(from), Some(5)));
    assert_eq!(classify(&req(3), IP_SUCCESS, from, 5).outcome, ProbeOutcome::Reply);
    assert_eq!(classify(&req(3), IP_DEST_PORT_UNREACHABLE, from, 5).outcome, ProbeOutcome::Unreachable);
    assert_eq!(classify(&req(3), 99_999, from, 5).outcome, ProbeOutcome::Unreachable);
    let t = classify(&req(3), IP_REQ_TIMED_OUT, from, 5);
    assert_eq!((t.outcome, t.from, t.rtt_ns), (ProbeOutcome::Timeout, None, None));
    assert_eq!(clamp_timeout(800), 800);
    assert_eq!(clamp_timeout(1u128 << 40), u32::MAX);
}

/// Run the MTU search against a path that passes payloads up to `limit`.
fn search(limit: Option<u16>) -> Option<u16> {
    let mut s = MtuSearch::new();
    let mut steps = 0;
    while let Some(p) = s.next_payload() {
        let ok = match limit {
            Some(l) => p <= l,
            None => false,
        };
        s.feed(ok);
        steps += 1;
        assert!(steps < 40);
    }
    s.result().expect("finished")
}

#[test]
fn mtu_search_finds_the_threshold() {
    assert_eq!(search(Some(1472)), Some(1472 + MTU_HEADERS));
    assert_eq!(search(Some(0)), Some(MTU_HEADERS));
    assert_eq!(search(Some(8972)), Some(8972 + MTU_HEADERS));
    assert_eq!(search(None), None);
    assert_eq!(MtuSearch::new().result(), None);
}

#[test]
fn udp_probe_helpers() {
    assert_eq!(alloc_port(0), BASE_PORT);
    assert_eq!(alloc_port(4001), BASE_PORT + 1);
    assert_eq!(udp_payload_len(32), 32);
    assert_eq!(udp_payload_len(9000), 1400);
    let from = Addr::V4(1);
    let r = udp_response(&req(4), Some((from, IcmpKind::PortUnreachable, 77)));
    assert_eq!((r.outcome, r.from, r.rtt_ns), (ProbeOutcome::Reply, Some(from), Some(77)));
    let r = udp_response(&req(4), Some((from, IcmpKind::TimeExceeded, 77)));
    assert_eq!(r.outcome, ProbeOutcome::TtlExceeded);
    let r = udp_response(&req(4), None);
    assert_eq!((r.outcome, r.from, r.rtt_ns), (ProbeOutcome::Timeout, None, None));
}

fn frame(ip: Vec<u8>) -> Vec<u8> {
    ethernet_frame([0; 6], [1; 6], &ip)
}

#[test]
fn tcp_reply_parsing() {
    let dst = u32::from_be_bytes([8, 8, 8, 8]);
    let me = u32::from_be_bytes([192, 168, 0, 2]);
    assert_eq!(probe_ip_id(0), 1);
    assert_eq!(probe_ip_id(7), 7);
    assert_eq!(syn_seq(7), SEQ_TAG | 7);

    // The destination answers our SYN with a SYN-ACK acknowledging seq + 1.
    let syn = TcpSyn { src_ip: dst, dst_ip: me, src_port: 443, dst_port: SRC_PORT, seq: 0, ttl: 60, ip_id: 1 };
    let mut pkt = syn.build().to_vec();
    pkt[33] = 0x12; // SYN + ACK
    let ack = (syn_seq(7) + 1).to_be_bytes();
    pkt[28..32].copy_from_slice(&ack);
    assert_eq!(parse_reply(&frame(pkt.clone()), 7, dst, SRC_PORT), Some((ProbeOutcome::Reply, dst)));
    // A different probe's acknowledgement is not ours.
    assert_eq!(parse_reply(&frame(pkt), 8, dst, SRC_PORT), None);

    // A router's time-exceeded quoting our IP id names the hop.
    let router = u32::from_be_bytes([10, 0, 0, 1]);
    let mut icmp = vec![0u8; 20 + 8 + 20];
    icmp[0] = 0x45;
    icmp[9] = 1;
    icmp[12..16].copy_from_slice(&router.to_be_bytes());
    icmp[20] = 11;
    icmp[28] = 0x45;
    icmp[28 + 4..28 + 6].copy_from_slice(&7u16.to_be_bytes());
    assert_eq!(parse_reply(&frame(icmp.clone()), 7, dst, SRC_PORT), Some((ProbeOutcome::TtlExceeded, router)));
    assert_eq!(parse_reply(&frame(icmp), 9, dst, SRC_PORT), None);
    assert_eq!(parse_reply(&[0u8; 10], 7, dst, SRC_PORT), None);
}
