use zapret_checker::config::DnsConfig;
use zapret_checker::dns::{
    begin_lookup, check_dns_mode, next_lookup, normalize_dns_host, pick_answer, query_url, DnsAnswer, Lookup,
    LookupEvent, LookupStep, RecordType,
};
use zapret_checker::types::HostIp;

fn ip(text: &str) -> HostIp {
    HostIp { is_ipv4: !text.contains(':'), text: text.to_string() }
}

fn asked(step: LookupStep) -> Lookup {
    match step {
        LookupStep::Ask(lookup) => lookup,
        _ => panic!("the lookup ended"),
    }
}

#[test]
fn doh_normalizes_host_port_before_query() {
    assert_eq!(normalize_dns_host("example.com:8443").unwrap(), "example.com");
}

#[test]
fn doh_normalizes_bracketed_ipv6_literal() {
    assert_eq!(normalize_dns_host("[2001:db8::1]:443").unwrap(), "2001:db8::1");
}

#[test]
fn a_host_is_normalized_at_its_edges() {
    assert_eq!(normalize_dns_host("  example.com.. ").unwrap(), "example.com");
    assert_eq!(normalize_dns_host("2001:db8::1").unwrap(), "2001:db8::1");
    assert_eq!(normalize_dns_host("example.com:x1").unwrap(), "example.com:x1");
    assert_eq!(normalize_dns_host(" . ").unwrap_err().message(), "host must not be empty");
    assert_eq!(normalize_dns_host("[::1").unwrap_err().message(), "invalid bracketed IPv6 host");
    assert_eq!(normalize_dns_host("[::1]x").unwrap_err().message(), "invalid bracketed IPv6 host");
}

#[test]
fn a_query_names_the_host_and_the_kind() {
    assert_eq!(
        query_url("dns.google", "/resolve", "example.com", RecordType::Aaaa),
        "https://dns.google/resolve?name=example.com&type=AAAA"
    );
    assert_eq!(RecordType::A.code(), 1);
    assert_eq!(RecordType::Aaaa.code(), 28);
}

#[test]
fn the_first_address_of_the_kind_is_picked() {
    let answers = vec![
        DnsAnswer { record_type: 5, address: None },
        DnsAnswer { record_type: 1, address: None },
        DnsAnswer { record_type: 28, address: Some(ip("::1")) },
        DnsAnswer { record_type: 1, address: Some(ip("192.0.2.1")) },
        DnsAnswer { record_type: 1, address: Some(ip("192.0.2.2")) },
    ];
    assert_eq!(pick_answer(0, &answers, RecordType::A).unwrap().unwrap().text, "192.0.2.1");
    assert_eq!(pick_answer(0, &answers, RecordType::Aaaa).unwrap().unwrap().text, "::1");
    assert!(pick_answer(0, &Vec::new(), RecordType::A).unwrap().is_none());
    assert_eq!(pick_answer(3, &answers, RecordType::A).unwrap_err().message(), "DNS status 3");
}

#[test]
fn a_lookup_asks_each_server_in_turn_and_fails_at_the_end() {
    let mut dns = DnsConfig::default();
    dns.doh_addrs = vec!["192.0.2.1:443".to_string(), "192.0.2.2:443".to_string()];
    assert!(check_dns_mode(&dns).is_ok());
    let lookup = asked(begin_lookup(&dns, "example.com", None));
    assert_eq!(lookup.record, RecordType::A);
    let lookup = asked(next_lookup(lookup, LookupEvent::Answer(0, Vec::new())));
    assert_eq!(lookup.record, RecordType::Aaaa);
    let lookup = asked(next_lookup(lookup, LookupEvent::Answer(0, Vec::new())));
    assert_eq!(lookup.notes, ["192.0.2.1:443: no A/AAAA answer"]);
    assert_eq!(lookup.record, RecordType::A);
    match next_lookup(lookup, LookupEvent::Error("timed out".to_string())) {
        LookupStep::Failed(fault) => assert_eq!(
            fault.message(),
            "DoH lookup for example.com via 192.0.2.1:443, 192.0.2.2:443 failed: 192.0.2.1:443: no A/AAAA answer; 192.0.2.2:443: timed out"
        ),
        _ => panic!("the lookup went on"),
    }
}

#[test]
fn a_lookup_ends_with_the_first_address() {
    let dns = DnsConfig::default();
    let lookup = asked(begin_lookup(&dns, "example.com", None));
    let answers = vec![DnsAnswer { record_type: 1, address: Some(ip("192.0.2.7")) }];
    match next_lookup(lookup, LookupEvent::Answer(0, answers)) {
        LookupStep::Found(address) => assert_eq!(address.text, "192.0.2.7"),
        _ => panic!("no address"),
    }
    match begin_lookup(&dns, "192.0.2.9", Some(ip("192.0.2.9"))) {
        LookupStep::Found(address) => assert_eq!(address.text, "192.0.2.9"),
        _ => panic!("no address"),
    }
}

#[test]
fn another_mode_of_lookup_is_refused() {
    let mut dns = DnsConfig::default();
    dns.mode = "system".to_string();
    assert_eq!(check_dns_mode(&dns).unwrap_err().message(), "unsupported DNS mode: system");
}
