use hopscout::addr_text::{addr_text, short_addr};
use hopscout::brand::name_version;
use hopscout::caps::{detect, Capabilities};
use hopscout::cli::{engine_config, parse_args, Family, Mode, Outcome, SecsValue};
use hopscout::elevate::{launch_succeeded, relaunch_params};
use hopscout::factory::{plan_backend, BackendError, BackendPlan};
use hopscout::fields::{parse_order, Field};
use hopscout::iface::{device_name, mac_of, next_hop};
use hopscout::labels::{family_label, mtu_label, proto_label, truncate_label};
use hopscout::live::{asn_cell, key_action, path_status, report_budget_ns, report_ready, with_mpls, KeyAction};
use hopscout::model::{Addr, MplsLabel, ProbeOutcome, ProbeProtocol, ProbeResponse, Span};
use hopscout::report::{geo_label, host_label, hop_host_label, min_samples, ReportParams};
use hopscout::session::Session;
use hopscout::text::{byte_len, csv_field, json_escape, truncate};

fn strs(v: &[&str]) -> Vec<String> {
    v.iter().map(|s| s.to_string()).collect()
}

fn no_secs(n: usize) -> Vec<SecsValue> {
    vec![SecsValue::NotNumber; n]
}

fn v4(a: u8, b: u8, c: u8, d: u8) -> Addr {
    Addr::V4(u32::from_be_bytes([a, b, c, d]))
}

fn run_args(v: &[&str]) -> Outcome {
    parse_args(&strs(v), &no_secs(v.len())).outcome
}

#[test]
fn parses_report_command_line() {
    let p = parse_args(&strs(&["8.8.8.8", "-r", "-c", "10"]), &no_secs(4));
    assert!(p.notes.is_empty());
    match p.outcome {
        Outcome::Run(a) => {
            assert_eq!(a.target, "8.8.8.8");
            assert_eq!(a.mode, Mode::Report);
            assert_eq!(a.cycles, 10);
            assert_eq!(a.port, 443);
            assert_eq!(a.max_ttl, 30);
            assert_eq!(a.first_ttl, 1);
            assert_eq!(a.psize, 32);
            assert_eq!(a.flows, 1);
            assert_eq!(a.family, Family::Auto);
            assert_eq!(a.proto, ProbeProtocol::Icmp);
            assert_eq!(a.interval, Span { secs: 1, nanos: 0 });
            assert_eq!(a.fields, hopscout::fields::default());
            assert!(!a.no_dns && !a.show_ips && !a.wide && !a.mpls);
        }
        _ => panic!("expected a run"),
    }
}

#[test]
fn mode_precedence_and_flags() {
    match run_args(&["-j", "-C", "-r", "--mtu", "h", "-T", "-P", "80", "-6", "-n", "-b", "-w", "-z", "-e"]) {
        Outcome::Run(a) => {
            assert_eq!(a.mode, Mode::Mtu);
            assert_eq!(a.proto, ProbeProtocol::TcpSyn);
            assert_eq!(a.port, 80);
            assert_eq!(a.family, Family::V6);
            assert!(a.no_dns && a.show_ips && a.wide && a.mpls);
        }
        _ => panic!("expected a run"),
    }
    match run_args(&["-C", "-r", "h"]) {
        Outcome::Run(a) => assert_eq!(a.mode, Mode::Csv),
        _ => panic!(),
    }
    match run_args(&["h", "-u", "-4"]) {
        Outcome::Run(a) => {
            assert_eq!(a.mode, Mode::Interactive);
            assert_eq!(a.proto, ProbeProtocol::Udp);
            assert_eq!(a.family, Family::V4);
        }
        _ => panic!(),
    }
}

#[test]
fn usage_errors() {
    let err = |v: &[&str]| match run_args(v) {
        Outcome::Error(m) => m,
        _ => panic!("expected an error for {v:?}"),
    };
    assert_eq!(err(&[]), "missing target host");
    assert_eq!(err(&["h", "-m", "0"]), "max-ttl must be >= 1");
    assert_eq!(err(&["h", "-c"]), "--report-cycles needs a value");
    assert_eq!(err(&["h", "-P", "70000"]), "--port value '70000' is not a number");
    assert_eq!(err(&["h", "-m", "x"]), "--max-ttl value 'x' is not a number");
    assert_eq!(err(&["h", "--bogus"]), "unknown flag '--bogus'");
    assert_eq!(err(&["h", "g"]), "more than one target given");
    assert_eq!(err(&["h", "-o"]), "--order needs a value");
    // The first problem, left to right, is the one reported.
    assert_eq!(err(&["--bogus", "-c"]), "unknown flag '--bogus'");
}

#[test]
fn help_and_version_stop_parsing() {
    assert!(matches!(run_args(&["-h", "--bogus"]), Outcome::Help));
    assert!(matches!(run_args(&["h", "--version"]), Outcome::Version));
    assert!(matches!(run_args(&["-V"]), Outcome::Version));
}

#[test]
fn seconds_values() {
    let args = strs(&["h", "-i", "0.5", "--timeout", "2"]);
    let secs = vec![
        SecsValue::NotNumber,
        SecsValue::NotNumber,
        SecsValue::Valid(Span { secs: 0, nanos: 500_000_000 }),
        SecsValue::NotNumber,
        SecsValue::Valid(Span { secs: 2, nanos: 0 }),
    ];
    match parse_args(&args, &secs).outcome {
        Outcome::Run(a) => {
            assert_eq!(a.interval, Span { secs: 0, nanos: 500_000_000 });
            assert_eq!(a.timeout, Span { secs: 2, nanos: 0 });
        }
        _ => panic!(),
    }
    let args = strs(&["h", "-i", "-1"]);
    let secs = vec![SecsValue::NotNumber, SecsValue::NotNumber, SecsValue::Invalid];
    match parse_args(&args, &secs).outcome {
        Outcome::InvalidSeconds(raw) => assert_eq!(raw, "-1"),
        _ => panic!(),
    }
    let args = strs(&["h", "--timeout", "soon"]);
    match parse_args(&args, &no_secs(3)).outcome {
        Outcome::Error(m) => assert_eq!(m, "--timeout value 'soon' is not a number"),
        _ => panic!(),
    }
}

#[test]
fn notes_and_order() {
    let p = parse_args(&strs(&["-x", "h", "-a", "1.2.3.4", "-o", "lbw"]), &no_secs(6));
    assert_eq!(
        p.notes,
        strs(&[
            "hopscout: note: XML output is not supported yet",
            "hopscout: note: source --address is not supported yet",
        ])
    );
    match p.outcome {
        Outcome::Run(a) => {
            assert_eq!(a.target, "h");
            assert_eq!(a.fields, vec![Field::Loss, Field::Best, Field::Wrst]);
        }
        _ => panic!(),
    }
    match run_args(&["h", "-o", "zz"]) {
        Outcome::Run(a) => assert_eq!(a.fields, hopscout::fields::default()),
        _ => panic!(),
    }
}

#[test]
fn numbers_accept_plus_and_limits() {
    match run_args(&["h", "-c", "+7", "-s", "1500", "--flows", "255", "-f", "3"]) {
        Outcome::Run(a) => {
            assert_eq!(a.cycles, 7);
            assert_eq!(a.psize, 1500);
            assert_eq!(a.flows, 255);
            assert_eq!(a.first_ttl, 3);
        }
        _ => panic!(),
    }
    assert!(matches!(run_args(&["h", "--flows", "256"]), Outcome::Error(_)));
    assert!(matches!(run_args(&["h", "-c", ""]), Outcome::Error(_)));
}

#[test]
fn engine_config_clamps() {
    match run_args(&["h", "-f", "40", "-m", "20", "--flows", "0"]) {
        Outcome::Run(a) => {
            let c = engine_config(&a, v4(8, 8, 8, 8));
            assert_eq!(c.first_ttl, 20);
            assert_eq!(c.max_hops, 20);
            assert_eq!(c.flows, 1);
        }
        _ => panic!(),
    }
    match run_args(&["h", "-f", "0"]) {
        Outcome::Run(a) => assert_eq!(engine_config(&a, v4(1, 1, 1, 1)).first_ttl, 1),
        _ => panic!(),
    }
}

#[test]
fn fields_api() {
    assert_eq!(Field::from_char('l'), Some(Field::Loss));
    assert_eq!(Field::from_char('P'), Some(Field::P95));
    assert_eq!(Field::from_char('x'), None);
    assert_eq!(Field::Loss.header(), "Loss%");
    assert_eq!(Field::P95.header(), "p95");
    assert_eq!(Field::Drop.width(), 6);
    assert_eq!(Field::Avg.width(), 7);
    assert!(Field::Loss.is_loss());
    assert!(!Field::Snt.is_loss());
    assert_eq!(parse_order("LSNABWVP"), hopscout::fields::default());
    assert_eq!(parse_order("?"), hopscout::fields::default());
    assert_eq!(parse_order("d-r"), vec![Field::Drop, Field::Recv]);
}

#[test]
fn backend_plans() {
    let none = Capabilities::default();
    let all = detect(true, true, true);
    assert_eq!(plan_backend(ProbeProtocol::Icmp, Addr::V6(1), 443, &none), Ok(BackendPlan::Icmp));
    assert_eq!(plan_backend(ProbeProtocol::Udp, v4(8, 8, 8, 8), 443, &none), Err(BackendError::NeedsElevation));
    assert_eq!(
        plan_backend(ProbeProtocol::Udp, v4(8, 8, 8, 8), 443, &all),
        Ok(BackendPlan::RawUdp { dest: 0x0808_0808 })
    );
    assert_eq!(
        plan_backend(ProbeProtocol::Udp, Addr::V6(1), 443, &all),
        Err(BackendError::Unsupported("UDP mode is IPv4-only".to_string()))
    );
    assert_eq!(plan_backend(ProbeProtocol::TcpSyn, v4(8, 8, 8, 8), 443, &none), Err(BackendError::NeedsNpcap));
    assert_eq!(
        plan_backend(ProbeProtocol::TcpSyn, v4(8, 8, 8, 8), 443, &detect(false, false, true)),
        Err(BackendError::NeedsElevation)
    );
    assert_eq!(
        plan_backend(ProbeProtocol::TcpSyn, v4(8, 8, 8, 8), 8443, &all),
        Ok(BackendPlan::NpcapTcp { dest: 0x0808_0808, port: 8443 })
    );
    assert_eq!(
        plan_backend(ProbeProtocol::TcpSyn, Addr::V6(1), 443, &all),
        Err(BackendError::Unsupported("TCP mode is IPv4-only".to_string()))
    );
    assert_eq!(BackendError::NeedsElevation.message(), "this mode needs administrator privileges");
    assert_eq!(BackendError::NeedsNpcap.message(), "this mode needs Npcap (install from https://npcap.com)");
    assert_eq!(BackendError::Io("boom".to_string()).message(), "boom");
    assert!(all.rung2() && all.rung3());
    assert!(!none.rung2() && !none.rung3());
}

#[test]
fn address_text() {
    assert_eq!(addr_text(v4(192, 168, 0, 1)), "192.168.0.1");
    assert_eq!(addr_text(Addr::V6(0x2001_0db8_0000_0000_0000_0000_0000_0001)), "2001:db8::1");
    assert_eq!(addr_text(Addr::V6(0)), "::");
    assert_eq!(addr_text(Addr::V6(1)), "::1");
    assert_eq!(addr_text(Addr::V6(0x0000_0000_0000_0000_0000_ffff_c0a8_0001)), "::ffff:192.168.0.1");
    assert_eq!(addr_text(Addr::V6(0x2001_0db8_0000_0001_0000_0000_0000_0001)), "2001:db8:0:1::1");
    assert_eq!(addr_text(Addr::V6(0x2001_0db8_0000_0001_0001_0001_0001_0001)), "2001:db8:0:1:1:1:1:1");
    assert_eq!(short_addr(v4(10, 1, 2, 3)), "2.3");
    assert_eq!(short_addr(Addr::V6(0x2001_0db8_0000_0000_0000_0000_0000_abcd)), "abcd");
}

#[test]
fn text_helpers() {
    assert_eq!(truncate("abcdef", 4), "abc…");
    assert_eq!(truncate("abc", 3), "abc");
    assert_eq!(truncate("abc", 0), "…");
    assert_eq!(truncate_label("héllo wörld", 6), "héllo…");
    assert_eq!(json_escape("a\"b\\c"), "a\\\"b\\\\c");
    assert_eq!(csv_field("plain"), "plain");
    assert_eq!(csv_field("a,b"), "\"a,b\"");
    assert_eq!(csv_field("say \"hi\""), "\"say \"\"hi\"\"\"");
    assert_eq!(csv_field("two\nlines"), "\"two\nlines\"");
    assert_eq!(name_version(), "hopscout 0.1.0");
    assert_eq!(byte_len("héllo €"), "héllo €".len() as u128);
    assert_eq!(byte_len(""), 0);
}

#[test]
fn labels() {
    assert_eq!(mtu_label(None), "MTU probing…");
    assert_eq!(mtu_label(Some(None)), "MTU n/a");
    assert_eq!(mtu_label(Some(Some(1500))), "MTU 1500");
    assert_eq!(proto_label(ProbeProtocol::TcpSyn), "TCP");
    assert_eq!(proto_label(ProbeProtocol::Icmp), "ICMP");
    assert_eq!(family_label(Family::V6), "IPv6");
    assert_eq!(family_label(Family::Auto), "Auto");
    assert_eq!(path_status(None), "discovering path…");
    assert_eq!(path_status(Some(12)), "destination at hop 12");
    assert_eq!(asn_cell(Some(15169)), "AS15169");
    assert_eq!(asn_cell(None), "");
    let m = |l: u32| MplsLabel { label: l, exp: 0, bos: false, ttl: 1 };
    assert_eq!(with_mpls("r1".to_string(), &vec![m(16), m(17)]), "r1 [MPLS 16,17]");
    assert_eq!(with_mpls("r1".to_string(), &vec![]), "r1");
}

#[test]
fn keys() {
    assert_eq!(key_action(Some('q'), false), KeyAction::Quit);
    assert_eq!(key_action(None, true), KeyAction::Quit);
    assert_eq!(key_action(Some(' '), false), KeyAction::TogglePause);
    assert_eq!(key_action(Some('p'), false), KeyAction::TogglePause);
    assert_eq!(key_action(Some('r'), false), KeyAction::Reset);
    assert_eq!(key_action(Some('b'), false), KeyAction::CaptureBaseline);
    assert_eq!(key_action(Some('a'), false), KeyAction::ToggleAlerts);
    assert_eq!(key_action(Some('x'), false), KeyAction::Nothing);
}

#[test]
fn relaunch_and_platform_helpers() {
    assert_eq!(relaunch_params(&strs(&["8.8.8.8", "-T", "a b"])), "\"8.8.8.8\" \"-T\" \"a b\"");
    assert_eq!(relaunch_params(&vec![]), "");
    assert!(launch_succeeded(33));
    assert!(!launch_succeeded(32));
    assert_eq!(next_hop(0, 7), 7);
    assert_eq!(next_hop(5, 7), 5);
    assert_eq!(device_name(&"{ABC}".chars().collect()), "\\Device\\NPF_{ABC}");
    assert_eq!(mac_of(&[1, 2, 3, 4, 5, 6, 7, 8], 6), [1, 2, 3, 4, 5, 6]);
    assert_eq!(mac_of(&[1, 2, 3, 4, 5, 6, 7, 8], 3), [1, 2, 3, 0, 0, 0]);
    assert_eq!(mac_of(&[1, 2, 3, 4, 5, 6, 7, 8], 8), [1, 2, 3, 4, 5, 6]);
}

fn named_session() -> Session {
    let mut s = Session::new(None);
    for ttl in 1..=3u8 {
        for _ in 0..ttl {
            s.on_sent(ttl);
        }
    }
    s.on_response(&ProbeResponse {
        ttl: 2,
        seq: 0,
        outcome: ProbeOutcome::TtlExceeded,
        from: Some(v4(10, 0, 0, 2)),
        rtt_ns: Some(1_000_000),
        mpls: Vec::new(),
    });
    s.hops[1].meta.hostname = Some("gw.example".to_string());
    s.hops[1].meta.city = Some(String::new());
    s.hops[1].meta.country = Some("US".to_string());
    s
}

#[test]
fn report_helpers() {
    let mut s = named_session();
    let mut p = ReportParams::new("t".to_string());
    assert_eq!(p.fields, hopscout::fields::default());
    assert_eq!(host_label(&s, 0, &p), "???");
    assert_eq!(host_label(&s, 1, &p), "gw.example");
    p.show_ips = true;
    assert_eq!(host_label(&s, 1, &p), "gw.example (10.0.0.2)");
    p.no_dns = true;
    assert_eq!(host_label(&s, 1, &p), "10.0.0.2");
    assert_eq!(hop_host_label(&s.hops[0], false, false, "*"), "*");
    assert_eq!(geo_label(&s.hops[1]), "US");
    assert_eq!(geo_label(&s.hops[0]), "");
    assert_eq!(min_samples(&s, 1), 1);
    assert_eq!(min_samples(&s, 2), 2);
    assert_eq!(min_samples(&s, 9), 0);
    assert!(!report_ready(&s, 1, 1));
    s.note_reached(3);
    assert!(report_ready(&s, 1, 1));
    assert!(!report_ready(&s, 1, 2));
    assert!(report_ready(&s, 2, 2));
    assert_eq!(report_budget_ns(Span { secs: 1, nanos: 0 }, 10), 14_000_000_000 + 3_000_000_000);
    assert_eq!(report_budget_ns(Span { secs: 0, nanos: 10 }, 0), 4 * 50_000_000 + 3_000_000_000);
}
