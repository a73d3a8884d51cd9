use hopscout::alert::{counts_ok, Alert, Baseline};
use hopscout::engine::{
    absorb, flow_of, shrink_path_len, sleep_chunk, EngineConfig, HopWorker, WorkerAction,
};
use hopscout::model::{timeout_response, Addr, ProbeOutcome, ProbeProtocol, ProbeRequest, ProbeResponse, Span};
use hopscout::session::Session;
use hopscout::stats::HopStat;

fn v4(a: u8, b: u8, c: u8, d: u8) -> Addr {
    Addr::V4(u32::from_be_bytes([a, b, c, d]))
}

fn reply(ttl: u8, outcome: ProbeOutcome, from: Addr, rtt_ms: u64) -> ProbeResponse {
    ProbeResponse {
        ttl,
        seq: 0,
        outcome,
        from: Some(from),
        rtt_ns: Some(rtt_ms * 1_000_000),
        mpls: Vec::new(),
    }
}

fn hop1(ip: [u8; 4], rtt_ms: u64) -> Session {
    let mut s = Session::new(None);
    s.on_sent(1);
    s.on_response(&reply(1, ProbeOutcome::TtlExceeded, v4(ip[0], ip[1], ip[2], ip[3]), rtt_ms));
    s.note_reached(1);
    s
}

fn avg_ms(s: &HopStat) -> Option<f64> {
    if s.recv() == 0 {
        None
    } else {
        Some(s.sum_ns() as f64 / s.recv() as f64 / 1e6)
    }
}

fn stddev_ms(s: &HopStat) -> Option<f64> {
    let (num, den) = s.variance_parts()?;
    let var = (num.hi as f64 * 2f64.powi(128) + num.lo as f64) / den as f64;
    Some(var.sqrt() / 1e6)
}

fn loss_pct(s: &HopStat) -> f64 {
    if s.sent() == 0 {
        0.0
    } else {
        (s.sent() - s.recv()) as f64 / s.sent() as f64 * 100.0
    }
}

#[test]
fn welford_matches_naive() {
    let mut s = HopStat::default();
    let samples = [10.0_f64, 12.0, 8.0, 11.0, 9.0];
    for &ms in &samples {
        s.record_sent();
        s.record_rtt((ms * 1_000_000.0) as u64);
    }
    let n = samples.len() as f64;
    let mean = samples.iter().sum::<f64>() / n;
    let var = samples.iter().map(|x| (x - mean).powi(2)).sum::<f64>() / (n - 1.0);

    assert!((avg_ms(&s).unwrap() - mean).abs() < 1e-6);
    assert!((stddev_ms(&s).unwrap() - var.sqrt()).abs() < 1e-6);
    assert_eq!(loss_pct(&s), 0.0);
}

#[test]
fn loss_is_counted() {
    let mut s = HopStat::default();
    for _ in 0..4 {
        s.record_sent();
    }
    s.record_rtt(5_000_000);
    assert_eq!(loss_pct(&s), 75.0);
    assert_eq!(s.lost(), 3);
    assert!(s.loss_at_least(75));
    assert!(!s.loss_at_least(76));
}

#[test]
fn stats_extremes_and_mean() {
    let mut s = HopStat::new();
    assert_eq!((s.sent(), s.recv()), (0, 0));
    assert_eq!((s.last_ns(), s.best_ns(), s.worst_ns(), s.avg_ns()), (None, None, None, None));
    for ns in [7u64, 3, 9, 4] {
        s.record_sent();
        s.record_rtt(ns);
    }
    assert_eq!(s.last_ns(), Some(4));
    assert_eq!(s.best_ns(), Some(3));
    assert_eq!(s.worst_ns(), Some(9));
    assert_eq!(s.sum_ns(), 23);
    assert_eq!(s.sum_sq_ns(), 49 + 9 + 81 + 16);
    assert_eq!(s.avg_ns(), Some(5)); // 23 / 4 rounded down
    // 4 * 155 - 23^2 over 4 * 3: the sample variance 91/12 ns^2.
    let (num, den) = s.variance_parts().unwrap();
    assert_eq!((num.hi, num.lo, den), (0, 91, 12));
    let best = s.best_ns().unwrap();
    let worst = s.worst_ns().unwrap();
    let avg = s.avg_ns().unwrap();
    assert!(best <= avg && avg <= worst);
    assert!(!s.loss_at_least(1));
    assert!(s.loss_at_least(0));
}

#[test]
fn detects_route_change_and_clean_baseline() {
    let base = Baseline::capture(&hop1([10, 0, 0, 1], 5));
    assert!(base.deviations(&hop1([10, 0, 0, 1], 5), 1500).is_empty());

    let devs = base.deviations(&hop1([10, 0, 0, 2], 5), 1500);
    assert!(devs.iter().any(|a| matches!(a, Alert::RouteChanged { ttl: 1, .. })));
}

#[test]
fn detects_latency_regression() {
    let base = Baseline::capture(&hop1([10, 0, 0, 1], 10));
    let devs = base.deviations(&hop1([10, 0, 0, 1], 40), 1500);
    assert!(devs.iter().any(|a| matches!(a, Alert::LatencyRegression { .. })));
}

#[test]
fn small_latency_rise_is_not_a_regression() {
    // 2 ms -> 6 ms is three times slower but only 4 ms more: under the slack.
    let base = Baseline::capture(&hop1([10, 0, 0, 1], 2));
    assert!(base.deviations(&hop1([10, 0, 0, 1], 6), 1500).is_empty());
}

#[test]
fn hop_appearing_disappearing_and_loss() {
    let empty = Baseline::capture(&Session::new(None));
    assert!(empty.is_empty());
    let devs = empty.deviations(&hop1([10, 0, 0, 1], 5), 1500);
    assert_eq!(devs, vec![Alert::HopAppeared { ttl: 1, addr: v4(10, 0, 0, 1) }]);

    let base = Baseline::capture(&hop1([10, 0, 0, 1], 5));
    assert!(!base.is_empty());
    let mut lossy = Session::new(None);
    for _ in 0..10 {
        lossy.on_sent(1);
    }
    lossy.note_reached(1);
    assert!(counts_ok(&lossy));
    let devs = base.deviations(&lossy, 1500);
    assert_eq!(
        devs,
        vec![
            Alert::HopDisappeared { ttl: 1, addr: v4(10, 0, 0, 1) },
            Alert::LossOnset { ttl: 1, lost: 10, sent: 10 },
        ]
    );
    assert_eq!(devs[1].ttl(), 1);
}

#[test]
fn session_folds_responses() {
    let mut s = Session::new(Some(v4(8, 8, 8, 8)));
    s.on_sent(3);
    assert_eq!(s.hops.len(), 3);
    assert_eq!(s.hops[2].stat.sent(), 1);
    assert_eq!(s.hops[0].stat.sent(), 0);
    s.on_response(&reply(3, ProbeOutcome::TtlExceeded, v4(10, 0, 0, 3), 7));
    s.on_response(&reply(3, ProbeOutcome::TtlExceeded, v4(10, 0, 0, 4), 9));
    s.on_response(&reply(3, ProbeOutcome::TtlExceeded, v4(10, 0, 0, 3), 8));
    assert_eq!(s.hops[2].addrs, vec![v4(10, 0, 0, 3), v4(10, 0, 0, 4)]);
    assert_eq!(s.hops[2].primary_addr(), Some(v4(10, 0, 0, 3)));
    assert_eq!(s.hops[2].recent.len(), 3);
    assert_eq!(s.visible_hops(), 3);
    s.note_reached(2);
    s.note_reached(5);
    assert_eq!(s.path_len, Some(2));
    assert_eq!(s.visible_hops(), 2);
    let t = timeout_response(&ProbeRequest { ttl: 1, seq: 4, protocol: ProbeProtocol::Icmp, payload_size: 32, flow_id: 0 });
    s.on_response(&t);
    assert_eq!(s.hops[0].recent.iter().copied().collect::<Vec<_>>(), vec![None]);
    assert_eq!(s.hops[0].stat.recv(), 0);
}

#[test]
fn recent_history_is_bounded() {
    let mut s = Session::new(None);
    for i in 0..300u64 {
        s.on_sent(1);
        s.on_response(&reply(1, ProbeOutcome::TtlExceeded, v4(10, 0, 0, 1), i));
    }
    assert_eq!(s.hops[0].recent.len(), 256);
    assert_eq!(s.hops[0].recent.back().copied(), Some(Some(299 * 1_000_000)));
    assert_eq!(s.hops[0].recent.front().copied(), Some(Some(44 * 1_000_000)));
}

#[test]
fn record_path_fills_gaps() {
    let mut s = Session::new(None);
    s.record_path(1, 3, v4(1, 1, 1, 1));
    assert_eq!(s.paths.len(), 2);
    assert!(s.paths[0].is_empty());
    assert_eq!(s.paths[1], vec![None, None, Some(v4(1, 1, 1, 1))]);
}

#[test]
fn engine_config_defaults() {
    let c = EngineConfig::new(v4(8, 8, 8, 8));
    assert_eq!(c.max_hops, 30);
    assert_eq!(c.first_ttl, 1);
    assert_eq!(c.interval, Span { secs: 1, nanos: 0 });
    assert_eq!(c.timeout, Span { secs: 1, nanos: 0 });
    assert_eq!(c.payload_size, 32);
    assert_eq!(c.protocol, ProbeProtocol::Icmp);
    assert_eq!(c.flows, 1);
}

#[test]
fn worker_turns() {
    let mut cfg = EngineConfig::new(v4(8, 8, 8, 8));
    cfg.flows = 3;
    cfg.protocol = ProbeProtocol::Udp;
    let mut w = HopWorker::new(5);
    assert_eq!(w.next_action(&cfg, true, false, 30), WorkerAction::Exit);
    assert_eq!(w.next_action(&cfg, false, true, 30), WorkerAction::Idle);
    assert_eq!(w.next_action(&cfg, false, false, 4), WorkerAction::Idle);
    assert_eq!(w.seq, 0);
    let a = w.next_action(&cfg, false, false, 5);
    assert_eq!(
        a,
        WorkerAction::Probe(ProbeRequest { ttl: 5, seq: 0, protocol: ProbeProtocol::Udp, payload_size: 32, flow_id: 0 })
    );
    let mut flows = Vec::new();
    for _ in 0..4 {
        if let WorkerAction::Probe(r) = w.next_action(&cfg, false, false, 30) {
            flows.push(r.flow_id);
        }
    }
    assert_eq!(flows, vec![1, 2, 0, 1]);
    assert_eq!(w.seq, 5);
    w.seq = u64::MAX;
    let _ = w.next_action(&cfg, false, false, 30);
    assert_eq!(w.seq, 0);
    assert_eq!(flow_of(7, 0), 0);
    assert_eq!(flow_of(7, 4), 3);
}

#[test]
fn path_len_shrinks_only_on_reply() {
    assert_eq!(shrink_path_len(30, 7, ProbeOutcome::Reply), 7);
    assert_eq!(shrink_path_len(7, 9, ProbeOutcome::Reply), 7);
    assert_eq!(shrink_path_len(30, 7, ProbeOutcome::TtlExceeded), 30);
    // Replies arriving in any order converge on the smallest replying TTL.
    let mut p = 30;
    for (ttl, o) in [(12, ProbeOutcome::Reply), (9, ProbeOutcome::TtlExceeded), (10, ProbeOutcome::Reply), (14, ProbeOutcome::Reply)] {
        p = shrink_path_len(p, ttl, o);
    }
    assert_eq!(p, 10);
}

#[test]
fn absorb_updates_session_and_paths() {
    let mut s = Session::new(Some(v4(8, 8, 8, 8)));
    s.on_sent(4);
    let n = absorb(&mut s, 30, 4, 2, &reply(4, ProbeOutcome::Reply, v4(8, 8, 8, 8), 20));
    assert_eq!(n, 4);
    assert_eq!(s.path_len, Some(4));
    assert_eq!(s.hops[3].stat.recv(), 1);
    assert_eq!(s.paths.len(), 3);
    assert_eq!(s.paths[2], vec![None, None, None, Some(v4(8, 8, 8, 8))]);
    let t = timeout_response(&ProbeRequest { ttl: 2, seq: 0, protocol: ProbeProtocol::Icmp, payload_size: 32, flow_id: 0 });
    let n = absorb(&mut s, 4, 2, 0, &t);
    assert_eq!(n, 4);
    assert_eq!(s.paths.len(), 3);
}

#[test]
fn sleep_is_chunked() {
    assert_eq!(sleep_chunk(1_000_000_000, false), 100_000_000);
    assert_eq!(sleep_chunk(30_000_000, false), 30_000_000);
    assert_eq!(sleep_chunk(1_000_000_000, true), 0);
    assert_eq!(sleep_chunk(0, false), 0);
}

#[test]
fn span_conversions() {
    let s = Span { secs: 2, nanos: 345_678_901 };
    assert_eq!(s.as_millis(), 2345);
    assert_eq!(s.as_nanos(), 2_345_678_901);
}

#[test]
fn regression_threshold_is_inclusive() {
    // 10 ms -> 15 ms is exactly 1.5x and exactly 5 ms more: flagged.
    let base = Baseline::capture(&hop1([10, 0, 0, 1], 10));
    let devs = base.deviations(&hop1([10, 0, 0, 1], 15), 1500);
    assert_eq!(
        devs,
        vec![Alert::LatencyRegression { ttl: 1, baseline_ns: 10_000_000, now_ns: 15_000_000 }]
    );
    // 10 ms -> 14 ms is under both thresholds.
    assert!(base.deviations(&hop1([10, 0, 0, 1], 14), 1500).is_empty());
}

fn hop_ns(ip: [u8; 4], rtts_ns: &[u64]) -> Session {
    let mut s = Session::new(None);
    for &rtt in rtts_ns {
        s.on_sent(1);
        s.on_response(&ProbeResponse {
            ttl: 1,
            seq: 0,
            outcome: ProbeOutcome::TtlExceeded,
            from: Some(v4(ip[0], ip[1], ip[2], ip[3])),
            rtt_ns: Some(rtt),
            mpls: Vec::new(),
        });
    }
    s.note_reached(1);
    s
}

#[test]
fn regression_compares_exact_means() {
    // Baseline mean 3.5 ns: 5 000 003 ns is 4 999 999.5 ns above it, short of
    // the 5 ms slack; 5 000 004 ns is past it.
    let base = Baseline::capture(&hop_ns([10, 0, 0, 1], &[3, 4]));
    assert!(base.deviations(&hop_ns([10, 0, 0, 1], &[5_000_003]), 1500).is_empty());
    assert_eq!(
        base.deviations(&hop_ns([10, 0, 0, 1], &[5_000_004]), 1500),
        vec![Alert::LatencyRegression { ttl: 1, baseline_ns: 3, now_ns: 5_000_004 }]
    );
    // The factor is exact too: 30 000 000 ns against a baseline mean of
    // 20 000 000.5 ns is just under 1.5x (but over 1.499x).
    let base = Baseline::capture(&hop_ns([10, 0, 0, 1], &[20_000_000, 20_000_001]));
    let now = hop_ns([10, 0, 0, 1], &[30_000_000]);
    assert!(base.deviations(&now, 1500).is_empty());
    assert_eq!(
        base.deviations(&now, 1499),
        vec![Alert::LatencyRegression { ttl: 1, baseline_ns: 20_000_000, now_ns: 30_000_000 }]
    );
}

#[test]
fn worker_run_numbers_probes_in_order() {
    let mut cfg = EngineConfig::new(v4(192, 0, 2, 1));
    cfg.flows = 2;
    let mut w = HopWorker::new(3);
    // (stopped, paused, path length) on each turn.
    let turns = [
        (false, false, 30),
        (false, true, 30),
        (false, false, 2),
        (false, false, 30),
        (false, false, 3),
        (true, false, 30),
    ];
    let mut seqs = Vec::new();
    let mut kinds = Vec::new();
    for &(stopped, paused, limit) in &turns {
        match w.next_action(&cfg, stopped, paused, limit) {
            WorkerAction::Probe(r) => {
                assert_eq!(r.ttl, 3);
                assert_eq!(r.flow_id, (r.seq % 2) as u16);
                seqs.push(r.seq);
                kinds.push('p');
            }
            WorkerAction::Idle => kinds.push('i'),
            WorkerAction::Exit => kinds.push('x'),
        }
    }
    assert_eq!(seqs, vec![0, 1, 2]);
    assert_eq!(kinds, vec!['p', 'i', 'i', 'p', 'p', 'x']);
    assert!(shrink_path_len(30, 3, ProbeOutcome::Reply) <= 3);
}

#[test]
fn self_comparison_reports_only_lossy_hops() {
    let mut s = Session::new(None);
    for _ in 0..10 {
        s.on_sent(1);
        s.on_sent(2);
    }
    for _ in 0..10 {
        s.on_response(&reply(1, ProbeOutcome::TtlExceeded, v4(10, 0, 0, 1), 3));
    }
    for _ in 0..5 {
        s.on_response(&reply(2, ProbeOutcome::Reply, v4(10, 0, 0, 2), 9));
    }
    s.note_reached(2);
    let base = Baseline::capture(&s);
    assert!(counts_ok(&s));
    assert_eq!(base.deviations(&s, 1000), vec![Alert::LossOnset { ttl: 2, lost: 5, sent: 10 }]);
}

#[test]
fn a_probe_turn_counts_the_send_first() {
    let cfg = EngineConfig::new(v4(192, 0, 2, 1));
    let mut s = Session::new(None);
    let mut w = HopWorker::new(2);
    assert_eq!(w.take_turn(&mut s, &cfg, false, true, 30), WorkerAction::Idle);
    assert_eq!(s.hops.len(), 0);
    match w.take_turn(&mut s, &cfg, false, false, 30) {
        WorkerAction::Probe(r) => assert_eq!((r.ttl, r.seq), (2, 0)),
        other => panic!("expected a probe, got {:?}", other),
    }
    assert_eq!(s.hops.len(), 2);
    assert_eq!(s.hops[1].stat.sent(), 1);
    assert_eq!(s.hops[0].stat.sent(), 0);
    assert_eq!(w.take_turn(&mut s, &cfg, true, false, 30), WorkerAction::Exit);
    assert_eq!(s.hops[1].stat.sent(), 1);
}

#[test]
fn loss_threshold_above_one_hundred_percent() {
    let mut s = HopStat::new();
    s.record_sent();
    assert!(s.loss_at_least(100));
    assert!(!s.loss_at_least(101));
}
