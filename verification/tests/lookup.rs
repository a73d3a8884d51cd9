use hopscout::enrich::{
    apply_asn, apply_geo, apply_hostname, collect_pending, geo_entry_ok, geo_request, http_body,
    parse_whois, whois_request, Geo, Origin,
};
use hopscout::model::{Addr, ProbeOutcome, ProbeResponse};
use hopscout::session::Session;

fn v4(a: u8, b: u8, c: u8, d: u8) -> Addr {
    Addr::V4(u32::from_be_bytes([a, b, c, d]))
}

fn seen(s: &mut Session, ttl: u8, a: Addr) {
    s.on_response(&ProbeResponse {
        ttl,
        seq: 0,
        outcome: ProbeOutcome::TtlExceeded,
        from: Some(a),
        rtt_ns: Some(1),
        mpls: Vec::new(),
    });
}

#[test]
fn parses_verbose_table() {
    let resp = "Bulk mode; whois.cymru.com [2024-01-01 00:00:00 +0000]\n\
        AS      | IP               | BGP Prefix          | CC | Registry | Allocated  | AS Name\n\
        15169   | 8.8.8.8          | 8.8.8.0/24          | US | arin     | 1992-12-01 | GOOGLE, US\n\
        NA      | 192.168.0.1      | NA                  | NA | other    |            | NA, NA\n";
    let rows = parse_whois(resp);
    assert_eq!(rows.len(), 1);
    let o = &rows[0];
    assert_eq!(o.ip, "8.8.8.8");
    assert_eq!(o.asn, 15169);
    assert_eq!(o.name, "GOOGLE, US");
}

#[test]
fn whois_skips_short_rows_and_keeps_order() {
    let resp = "1 | 1.1.1.1 | p | c | r | d | ONE\r\n2 | 2.2.2.2 | too short\n\n  3|3.3.3.3|p|c|r|d|THREE";
    let rows = parse_whois(resp);
    assert_eq!(rows.len(), 2);
    assert_eq!((rows[0].asn, rows[0].ip.as_str(), rows[0].name.as_str()), (1, "1.1.1.1", "ONE"));
    assert_eq!((rows[1].asn, rows[1].ip.as_str(), rows[1].name.as_str()), (3, "3.3.3.3", "THREE"));
}

#[test]
fn request_texts() {
    let addrs = vec![v4(8, 8, 8, 8), Addr::V6(1)];
    assert_eq!(whois_request(&addrs), "begin\nverbose\n8.8.8.8\n::1\nend\n");
    let body = "[\"8.8.8.8\",\"::1\"]";
    assert_eq!(
        geo_request(&addrs),
        format!(
            "POST /batch?fields=status,lat,lon,city,country,query HTTP/1.0\r\nHost: ip-api.com\r\nContent-Type: application/json\r\nContent-Length: {}\r\nConnection: close\r\n\r\n{}",
            body.len(),
            body
        )
    );
    assert_eq!(http_body("HTTP/1.0 200 OK\r\nA: b\r\n\r\n  [1]\n"), Some("[1]".to_string()));
    assert_eq!(http_body("no terminator"), None);
    assert!(geo_entry_ok("success"));
    assert!(!geo_entry_ok("fail"));
}

#[test]
fn pending_and_apply() {
    let mut s = Session::new(None);
    seen(&mut s, 1, v4(10, 0, 0, 1));
    seen(&mut s, 2, v4(10, 0, 0, 2));
    seen(&mut s, 3, v4(10, 0, 0, 1));
    s.on_sent(4);
    assert_eq!(collect_pending(&s, &vec![]), vec![v4(10, 0, 0, 1), v4(10, 0, 0, 2)]);
    assert_eq!(collect_pending(&s, &vec![v4(10, 0, 0, 1)]), vec![v4(10, 0, 0, 2)]);

    let asn = vec![
        (v4(10, 0, 0, 1), Origin { asn: 1, name: "OLD".to_string() }),
        (v4(10, 0, 0, 1), Origin { asn: 64512, name: "PRIVATE".to_string() }),
    ];
    apply_asn(&mut s, &asn);
    assert_eq!(s.hops[0].meta.asn, Some(64512));
    assert_eq!(s.hops[2].meta.as_name.as_deref(), Some("PRIVATE"));
    assert_eq!(s.hops[1].meta.asn, None);

    let geo = vec![(v4(10, 0, 0, 2), Geo { lat_bits: 1, lon_bits: 2, city: "Oslo".to_string(), country: "NO".to_string() })];
    apply_geo(&mut s, &geo);
    assert_eq!(s.hops[1].meta.city.as_deref(), Some("Oslo"));
    assert_eq!(s.hops[1].meta.lat_bits, Some(1));
    assert_eq!(s.hops[0].meta.city, None);

    apply_hostname(&mut s, v4(10, 0, 0, 1), &"r1.example".to_string());
    assert_eq!(s.hops[0].meta.hostname.as_deref(), Some("r1.example"));
    assert_eq!(s.hops[2].meta.hostname.as_deref(), Some("r1.example"));
    assert_eq!(s.hops[1].meta.hostname, None);
}
