use hopscout::ipc::{
    decode_hello, decode_probe, decode_resp, encode_hello, encode_probe, encode_resp, proto_byte,
    proto_from_byte, PROTO_TCP, PROTO_UDP,
};
use hopscout::model::{Addr, ProbeOutcome, ProbeProtocol, ProbeRequest, ProbeResponse};
use hopscout::mpls_ext::parse_mpls;
use hopscout::packet::{checksum, ethernet_frame, TcpSyn};
use hopscout::udp_trace::{parse_icmp_v4, IcmpKind};

fn v4(a: u8, b: u8, c: u8, d: u8) -> u32 {
    u32::from_be_bytes([a, b, c, d])
}

#[test]
fn parses_mpls_label_stack() {
    // ICMP header (8) + original datagram (length=2 words = 8 bytes) + ext.
    let mut m = vec![11u8, 0, 0, 0, 0, 2, 0, 0];
    m.extend_from_slice(&[0u8; 8]); // original datagram
    m.extend_from_slice(&[0x20, 0, 0, 0]); // extension header, version 2
    m.extend_from_slice(&[0, 8, 1, 1]); // object: len 8, class 1, ctype 1
    let w: u32 = (100_000u32 << 12) | (5 << 9) | (1 << 8) | 64;
    m.extend_from_slice(&w.to_be_bytes());

    let labels = parse_mpls(&m);
    assert_eq!(labels.len(), 1);
    assert_eq!(labels[0].label, 100_000);
    assert_eq!(labels[0].exp, 5);
    assert!(labels[0].bos);
    assert_eq!(labels[0].ttl, 64);
}

#[test]
fn no_extension_is_empty() {
    let m = vec![11u8, 0, 0, 0, 0, 0, 0, 0, 0x45, 0, 0, 0];
    assert!(parse_mpls(&m).is_empty());
}

#[test]
fn mpls_stack_of_two_keeps_order() {
    let mut m = vec![11u8, 0, 0, 0, 0, 2, 0, 0];
    m.extend_from_slice(&[0u8; 8]);
    m.extend_from_slice(&[0x20, 0, 0, 0]);
    m.extend_from_slice(&[0, 12, 1, 1]); // object: len 12, two entries
    let w1: u32 = (16u32 << 12) | (0 << 9) | 255;
    let w2: u32 = (17u32 << 12) | (7 << 9) | (1 << 8) | 1;
    m.extend_from_slice(&w1.to_be_bytes());
    m.extend_from_slice(&w2.to_be_bytes());
    let labels = parse_mpls(&m);
    assert_eq!(labels.len(), 2);
    assert_eq!((labels[0].label, labels[0].exp, labels[0].bos, labels[0].ttl), (16, 0, false, 255));
    assert_eq!((labels[1].label, labels[1].exp, labels[1].bos, labels[1].ttl), (17, 7, true, 1));
}

#[test]
fn mpls_ignores_other_object_classes() {
    let mut m = vec![11u8, 0, 0, 0, 0, 2, 0, 0];
    m.extend_from_slice(&[0u8; 8]);
    m.extend_from_slice(&[0x20, 0, 0, 0]);
    m.extend_from_slice(&[0, 8, 2, 1]); // class 2: not MPLS
    m.extend_from_slice(&[0, 1, 0x01, 0x40]);
    assert!(parse_mpls(&m).is_empty());
}

#[test]
fn hello_roundtrip() {
    let (p, d, port) = decode_hello(&encode_hello(PROTO_TCP, v4(8, 8, 8, 8), 443));
    assert_eq!((p, d, port), (PROTO_TCP, v4(8, 8, 8, 8), 443));
}

#[test]
fn hello_layout_is_big_endian() {
    let b = encode_hello(PROTO_UDP, v4(1, 2, 3, 4), 0x1234);
    assert_eq!(b, [PROTO_UDP, 1, 2, 3, 4, 0x12, 0x34]);
}

#[test]
fn probe_roundtrip() {
    let req = ProbeRequest {
        ttl: 7,
        seq: 0xDEAD_BEEF_1234,
        protocol: ProbeProtocol::Udp,
        payload_size: 64,
        flow_id: 3,
    };
    let (r2, t2) = decode_probe(&encode_probe(&req, 900), ProbeProtocol::Udp);
    assert_eq!((r2.ttl, r2.seq, r2.payload_size, r2.flow_id), (7, 0xDEAD_BEEF_1234, 64, 3));
    assert_eq!(t2, 900);
}

#[test]
fn probe_timeout_saturates_at_u32() {
    let req = ProbeRequest { ttl: 1, seq: 0, protocol: ProbeProtocol::TcpSyn, payload_size: 0, flow_id: 0 };
    let b = encode_probe(&req, 1u128 << 40);
    assert_eq!(&b[15..19], &[0xff, 0xff, 0xff, 0xff]);
    let (_, t) = decode_probe(&b, ProbeProtocol::TcpSyn);
    assert_eq!(t, u32::MAX as u64);
}

#[test]
fn resp_roundtrip() {
    let resp = ProbeResponse {
        ttl: 9,
        seq: 5,
        outcome: ProbeOutcome::TtlExceeded,
        from: Some(Addr::V4(v4(192, 168, 0, 1))),
        rtt_ns: Some(12_000_000),
        mpls: Vec::new(),
    };
    let d = decode_resp(&encode_resp(&resp), 9, 5);
    assert!(matches!(d.outcome, ProbeOutcome::TtlExceeded));
    assert_eq!(d.from, Some(Addr::V4(v4(192, 168, 0, 1))));
    assert_eq!(d.rtt_ns, Some(12_000_000));
}

#[test]
fn resp_timeout_has_no_rtt() {
    let resp = ProbeResponse {
        ttl: 3,
        seq: 1,
        outcome: ProbeOutcome::Timeout,
        from: None,
        rtt_ns: None,
        mpls: Vec::new(),
    };
    let d = decode_resp(&encode_resp(&resp), 3, 1);
    assert!(matches!(d.outcome, ProbeOutcome::Timeout));
    assert_eq!(d.from, None);
    assert_eq!(d.rtt_ns, None);
    assert_eq!((d.ttl, d.seq), (3, 1));
}

#[test]
fn proto_bytes() {
    assert_eq!(proto_byte(ProbeProtocol::Udp), PROTO_UDP);
    assert_eq!(proto_byte(ProbeProtocol::TcpSyn), PROTO_TCP);
    assert_eq!(proto_byte(ProbeProtocol::Icmp), 0);
    assert_eq!(proto_from_byte(PROTO_UDP), Some(ProbeProtocol::Udp));
    assert_eq!(proto_from_byte(PROTO_TCP), Some(ProbeProtocol::TcpSyn));
    assert_eq!(proto_from_byte(0), None);
}

#[test]
fn checksum_zeroes_when_field_included() {
    // A correct IPv4 header re-checksums to 0 (checksum field already set).
    let syn = TcpSyn {
        src_ip: v4(192, 168, 0, 200),
        dst_ip: v4(8, 8, 8, 8),
        src_port: 50000,
        dst_port: 443,
        seq: 0x1234_5678,
        ttl: 7,
        ip_id: 0xABCD,
    };
    let pkt = syn.build();
    assert_eq!(checksum(&pkt[0..20]), 0, "IP header checksum should verify");
    assert_eq!(pkt[8], 7, "TTL");
    assert_eq!(pkt[9], 6, "protocol TCP");
    assert_eq!(pkt[33] & 0x02, 0x02, "SYN flag set");
    assert_eq!(u16::from_be_bytes([pkt[22], pkt[23]]), 443, "dst port");
}

#[test]
fn known_checksum() {
    // Two 16-bit words 0x0001 + 0xF203 = 0xF204; complement = 0x0DFB.
    assert_eq!(checksum(&[0x00, 0x01, 0xF2, 0x03]), 0x0DFB);
}

#[test]
fn checksum_pads_odd_length_and_folds_carry() {
    // 0xFFFF + 0x0100 (odd byte padded) = 0x100FF -> fold 0x0100 -> !0x0100.
    assert_eq!(checksum(&[0xFF, 0xFF, 0x01]), !0x0100u16);
    assert_eq!(checksum(&[]), 0xFFFF);
}

#[test]
fn ethernet_frames_prefix() {
    let f = ethernet_frame([1, 2, 3, 4, 5, 6], [7, 8, 9, 10, 11, 12], &[0xAA, 0xBB]);
    assert_eq!(&f[0..6], &[1, 2, 3, 4, 5, 6]);
    assert_eq!(&f[6..12], &[7, 8, 9, 10, 11, 12]);
    assert_eq!(&f[12..14], &[0x08, 0x00]);
    assert_eq!(&f[14..], &[0xAA, 0xBB]);
}

#[test]
fn parses_time_exceeded_udp() {
    // Outer IPv4 (20B, proto=ICMP) | ICMP(type 11) | inner IPv4(20B, proto=UDP) | UDP(dport=33500)
    let mut pkt = vec![0u8; 20 + 8 + 20 + 8];
    pkt[0] = 0x45; // IPv4, IHL=5
    pkt[9] = 1; // ICMP
    pkt[20] = 11; // time exceeded
    pkt[20 + 1] = 0;
    let inner = 20 + 8;
    pkt[inner] = 0x45; // inner IPv4, IHL=5
    pkt[inner + 9] = 17; // UDP
    let udp = inner + 20;
    pkt[udp + 2] = (33500u16 >> 8) as u8;
    pkt[udp + 3] = (33500u16 & 0xff) as u8;

    let (kind, port) = parse_icmp_v4(&pkt).expect("should parse");
    assert!(matches!(kind, IcmpKind::TimeExceeded));
    assert_eq!(port, 33500);
}

#[test]
fn port_unreachable_and_non_udp_inner() {
    let mut pkt = vec![0u8; 56];
    pkt[0] = 0x45;
    pkt[9] = 1;
    pkt[20] = 3; // destination unreachable
    pkt[21] = 3; // port unreachable
    pkt[28] = 0x45;
    pkt[28 + 9] = 17;
    pkt[48 + 2] = 0x82;
    pkt[48 + 3] = 0x9b;
    assert_eq!(parse_icmp_v4(&pkt), Some((IcmpKind::PortUnreachable, 0x829b)));
    pkt[28 + 9] = 6; // inner TCP: not ours
    assert_eq!(parse_icmp_v4(&pkt), None);
    assert_eq!(parse_icmp_v4(&pkt[..40]), None);
}
