use hopscout::alert::Alert;
use hopscout::dashboard::{
    alert_color, export_file_name, export_params, extension, flow_segments, selection_after_remove,
    settings_config, span_from_ms, sparkline_hop, ExportFormat,
};
use hopscout::model::{Addr, ProbeOutcome, ProbeProtocol, ProbeResponse, Span};
use hopscout::session::Session;
use hopscout::theme::builtins;

#[test]
fn dashboard_settings_are_clamped() {
    let c = settings_config(Addr::V4(1), 0, 10, 0, 5, 64, ProbeProtocol::Udp, 0);
    assert_eq!(c.interval, Span { secs: 0, nanos: 1_000_000 });
    assert_eq!(c.timeout, Span { secs: 0, nanos: 50_000_000 });
    assert_eq!(c.max_hops, 1);
    assert_eq!(c.first_ttl, 1);
    assert_eq!(c.flows, 1);
    assert_eq!(c.payload_size, 64);
    assert_eq!(c.protocol, ProbeProtocol::Udp);
    let c = settings_config(Addr::V4(1), 1500, 2000, 20, 0, 32, ProbeProtocol::Icmp, 4);
    assert_eq!(c.interval, Span { secs: 1, nanos: 500_000_000 });
    assert_eq!(c.timeout, Span { secs: 2, nanos: 0 });
    assert_eq!((c.max_hops, c.first_ttl, c.flows), (20, 1, 4));
    assert_eq!(span_from_ms(12_345), Span { secs: 12, nanos: 345_000_000 });
}

#[test]
fn selection_survives_removal() {
    assert_eq!(selection_after_remove(Some(3), 0), None);
    assert_eq!(selection_after_remove(Some(3), 2), Some(1));
    assert_eq!(selection_after_remove(Some(0), 2), Some(0));
    assert_eq!(selection_after_remove(None, 2), Some(0));
}

#[test]
fn export_names_and_params() {
    assert_eq!(export_file_name("dns.google", ExportFormat::Json), "hopscout-dns.google.json");
    assert_eq!(export_file_name("fe80::1 (lan)", ExportFormat::Csv), "hopscout-fe80__1__lan_.csv");
    assert_eq!(export_file_name("ü-1", ExportFormat::Text), "hopscout-_-1.txt");
    assert_eq!(extension(ExportFormat::Text), "txt");
    let p = export_params("x".to_string(), 3, 100, true, false);
    assert_eq!((p.first_ttl, p.psize, p.cycles, p.wide, p.no_dns, p.show_ips, p.mpls), (3, 100, 0, true, true, false, true));
    assert_eq!(p.fields, hopscout::fields::default());
}

#[test]
fn alert_colors_follow_severity() {
    let t = &builtins()[0];
    assert_eq!(alert_color(&Alert::HopAppeared { ttl: 1, addr: Addr::V4(1) }, t), t.warn);
    assert_eq!(alert_color(&Alert::LossOnset { ttl: 1, lost: 1, sent: 2 }, t), t.bad);
}

#[test]
fn sparkline_follows_selection() {
    assert_eq!(sparkline_hop(Some(2), 5), Some(2));
    assert_eq!(sparkline_hop(Some(7), 5), Some(4));
    assert_eq!(sparkline_hop(None, 5), Some(4));
    assert_eq!(sparkline_hop(None, 0), None);
}

#[test]
fn flow_segments_break_at_silent_hops() {
    let a = |x: u32| Addr::V4(x);
    let mut s = Session::new(None);
    for ttl in [1u8, 2, 4] {
        s.on_response(&ProbeResponse {
            ttl,
            seq: 0,
            outcome: ProbeOutcome::TtlExceeded,
            from: Some(a(ttl as u32)),
            rtt_ns: Some(1),
            mpls: Vec::new(),
        });
    }
    s.on_sent(3);
    for ttl in [1u8, 2, 4] {
        s.record_path(0, ttl, a(ttl as u32));
    }
    // An address the hop never recorded is no node either.
    s.record_path(1, 1, a(1));
    s.record_path(1, 2, a(99));
    assert_eq!(flow_segments(&s, 0), vec![(1, a(1), a(2))]);
    assert!(flow_segments(&s, 1).is_empty());
    s.on_response(&ProbeResponse {
        ttl: 3,
        seq: 0,
        outcome: ProbeOutcome::TtlExceeded,
        from: Some(a(3)),
        rtt_ns: Some(1),
        mpls: Vec::new(),
    });
    s.record_path(0, 3, a(3));
    assert_eq!(flow_segments(&s, 0), vec![(1, a(1), a(2)), (2, a(2), a(3)), (3, a(3), a(4))]);
    s.note_reached(2);
    assert_eq!(flow_segments(&s, 0), vec![(1, a(1), a(2))]);
}
