use hopscout::fields::Field;
use hopscout::model::{Addr, MplsLabel, ProbeOutcome, ProbeResponse};
use hopscout::render::{csv, json, text, HopFigures};
use hopscout::report::ReportParams;
use hopscout::session::Session;

fn v4(a: u8, b: u8, c: u8, d: u8) -> Addr {
    Addr::V4(u32::from_be_bytes([a, b, c, d]))
}

fn figs(tag: &str, n: usize) -> Vec<HopFigures> {
    (0..n)
        .map(|i| HopFigures {
            loss: format!("{tag}L{i}"),
            last: format!("{tag}n{i}"),
            avg: format!("{tag}a{i}"),
            best: format!("{tag}b{i}"),
            worst: format!("{tag}w{i}"),
            stdev: format!("{tag}v{i}"),
            p95: format!("{tag}p{i}"),
        })
        .collect()
}

/// Hop 1 answers from a named router with an MPLS stack; hop 2 is silent;
/// hop 3 is the destination.
fn session() -> Session {
    let mut s = Session::new(Some(v4(8, 8, 8, 8)));
    for ttl in 1..=3u8 {
        s.on_sent(ttl);
        s.on_sent(ttl);
    }
    s.on_response(&ProbeResponse {
        ttl: 1,
        seq: 0,
        outcome: ProbeOutcome::TtlExceeded,
        from: Some(v4(10, 0, 0, 1)),
        rtt_ns: Some(1_000_000),
        mpls: vec![MplsLabel { label: 100_000, exp: 5, bos: true, ttl: 64 }],
    });
    s.on_response(&ProbeResponse {
        ttl: 3,
        seq: 0,
        outcome: ProbeOutcome::Reply,
        from: Some(v4(8, 8, 8, 8)),
        rtt_ns: Some(9_000_000),
        mpls: Vec::new(),
    });
    s.note_reached(3);
    s.hops[0].meta.hostname = Some("router.\"lan\"".to_string());
    s.hops[0].meta.asn = Some(64512);
    s.hops[2].meta.city = Some("Mountain View, CA".to_string());
    s.hops[2].meta.country = Some(String::new());
    s
}

#[test]
fn text_report_layout() {
    let s = session();
    let mut p = ReportParams::new("dns.google".to_string());
    p.mpls = true;
    p.fields = vec![Field::Loss, Field::Snt, Field::Drop, Field::Avg];
    let f = figs("", 3);
    let out = text(&s, &p, &f);

    let mut want = format!("{:<8}{:<33}", "HOST:", "dns.google");
    for fl in &p.fields {
        want.push_str(&format!(" {:>w$}", fl.header(), w = fl.width() as usize));
    }
    want.push('\n');
    let hosts = ["router.\"lan\"", "???", "8.8.8.8"];
    let drops = [1, 2, 1];
    for i in 0..3 {
        want.push_str(&format!("{:>3}.|-- {:<33}", i + 1, hosts[i]));
        want.push_str(&format!(" {:>6}", format!("L{i}")));
        want.push_str(&format!(" {:>6}", 2));
        want.push_str(&format!(" {:>6}", drops[i]));
        want.push_str(&format!(" {:>7}", format!("a{i}")));
        want.push('\n');
        if i == 0 {
            want.push_str("         [MPLS: Lbl 100000 TC 5 S 1 TTL 64]\n");
        }
    }
    assert_eq!(out, want);

    // From TTL 3 on, names off, addresses only.
    p.first_ttl = 3;
    p.mpls = false;
    p.no_dns = true;
    let out = text(&s, &p, &f);
    assert!(out.ends_with(&format!("  3.|-- {:<33} {:>6} {:>6} {:>6} {:>7}\n", "8.8.8.8", "L2", 2, 1, "a2")));
    assert_eq!(out.lines().count(), 2);
}

#[test]
fn text_report_truncates_long_hosts_unless_wide() {
    let mut s = session();
    s.hops[0].meta.hostname = Some("a-very-long-host-name.example.internal.net".to_string());
    let mut p = ReportParams::new("t".to_string());
    p.fields = vec![];
    let f = figs("", 3);
    let out = text(&s, &p, &f);
    assert!(out.contains("  1.|-- a-very-long-host-name.example.in…\n"));
    p.wide = true;
    let out = text(&s, &p, &f);
    assert!(out.contains("  1.|-- a-very-long-host-name.example.internal.net\n"));
}

#[test]
fn json_report_shape() {
    let s = session();
    let mut p = ReportParams::new("dns\"google".to_string());
    p.psize = 64;
    p.cycles = 10;
    let f = figs("", 3);
    let out = json(&s, &p, &f);
    let hub = |i: usize, host: &str, snt: u64, extra: &str| {
        format!(
            "{{\"count\":{},\"host\":\"{}\",\"Loss%\":L{i},\"Snt\":{},\"Last\":n{i},\"Avg\":a{i},\"Best\":b{i},\"Wrst\":w{i},\"StDev\":v{i}{}}}",
            i + 1,
            host,
            snt,
            extra
        )
    };
    let want = format!(
        "{{\"report\":{{\"mtr\":{{\"src\":\"\",\"dst\":\"dns\\\"google\",\"psize\":\"64\",\"tests\":\"10\"}},\"hubs\":[{},{},{}]}}}}\n",
        hub(0, "router.\\\"lan\\\"", 2, ",\"ASN\":64512"),
        hub(1, "???", 2, ""),
        hub(2, "8.8.8.8", 2, ",\"city\":\"Mountain View, CA\"")
    );
    assert_eq!(out, want);
    // Nothing visible: no hubs.
    p.first_ttl = 9;
    assert!(json(&s, &p, &f).ends_with("\"hubs\":[]}}\n"));
}

#[test]
fn csv_report_rows() {
    let s = session();
    let p = ReportParams::new("t".to_string());
    let f = figs("x", 3);
    let out = csv(&s, &p, &f);
    let want = "Hop,Ip,Host,ASN,City,Country,Loss%,Snt,Last,Avg,Best,Wrst,StDev\n\
        1,10.0.0.1,\"router.\"\"lan\"\"\",AS64512,,,xL0,2,xn0,xa0,xb0,xw0,xv0\n\
        2,,,,,,xL1,2,xn1,xa1,xb1,xw1,xv1\n\
        3,8.8.8.8,,,\"Mountain View, CA\",,xL2,2,xn2,xa2,xb2,xw2,xv2\n";
    assert_eq!(out, want);
    let mut p = ReportParams::new("t".to_string());
    p.no_dns = true;
    assert!(csv(&s, &p, &f).contains("\n1,10.0.0.1,,AS64512,"));
}
