use zapret_checker::config::IsolationConfig;
use zapret_checker::isolation::{
    format_hex_mark, generate_assignments, parse_hex_mark, validate_nfqws_desync_mark, worker_fwmark, IsolationMode,
};
use zapret_checker::scheduler::effective_workers;

fn isolation(mode: &str) -> IsolationConfig {
    IsolationConfig {
        mode: mode.to_string(),
        queue_base: 200,
        mark_base: "0x20000000".to_string(),
        desync_mark: "0x40000000".to_string(),
        use_nft_vmap: true,
    }
}

#[test]
fn fwmark_assignment_uses_queue_base_and_mark_base() {
    let assignments = generate_assignments(3, &isolation("fwmark"));
    assert_eq!(assignments.len(), 3);
    assert_eq!(assignments[0].qnum, 200);
    assert_eq!(assignments[1].qnum, 201);
    assert_eq!(assignments[2].qnum, 202);
    assert_eq!(assignments[0].fwmark, Some(0x20000001));
    assert_eq!(assignments[1].fwmark, Some(0x20000002));
    assert_eq!(assignments[2].fwmark, Some(0x20000003));
    assert!(assignments.iter().all(|item| item.source_port.is_none()));
}

#[test]
fn source_port_assignment_has_no_fwmark() {
    let assignments = generate_assignments(2, &isolation("source_port"));
    assert!(assignments.iter().all(|item| item.fwmark.is_none()));
    assert_eq!(assignments[0].qnum, 200);
}

#[test]
fn config_validation_rejects_invalid_mode_and_equal_marks() {
    let mut cfg = IsolationConfig {
        mode: "bad".to_string(),
        queue_base: 200,
        mark_base: "0x20000000".to_string(),
        desync_mark: "0x40000000".to_string(),
        use_nft_vmap: true,
    };
    assert!(IsolationMode::parse(&cfg.mode).is_err());

    cfg.mode = "fwmark".to_string();
    cfg.desync_mark = cfg.mark_base.clone();
    assert!(parse_hex_mark(&cfg.mark_base).unwrap() == parse_hex_mark(&cfg.desync_mark).unwrap());
}

#[test]
fn nfqws_desync_mark_mismatch_is_rejected() {
    let err = validate_nfqws_desync_mark(&["--fwmark=0x1".to_string()], "0x40000000").unwrap_err();
    assert!(err.message().contains("does not match"));
}

#[test]
fn nfqws_desync_mark_that_matches_is_accepted() {
    let args = vec!["--user=daemon".to_string(), "--fwmark=0x40000000".to_string()];
    assert!(validate_nfqws_desync_mark(&args, "0x40000000").is_ok());
    assert!(validate_nfqws_desync_mark(&[], "0x40000000").is_ok());
}

#[test]
fn marks_are_written_and_read_back() {
    for mark in [0u32, 1, 0x20000001, 0x4000_0000, u32::MAX] {
        assert_eq!(parse_hex_mark(&format_hex_mark(mark)).unwrap(), mark);
    }
    assert_eq!(format_hex_mark(0x2a), "0x0000002a");
    assert_eq!(parse_hex_mark(" 0X2A ").unwrap(), 42);
    assert_eq!(parse_hex_mark("2a").unwrap(), 42);
}

#[test]
fn a_bad_mark_is_quoted_in_the_error() {
    let err = parse_hex_mark("0xzz").unwrap_err();
    assert_eq!(err.message(), "invalid mark \"0xzz\": invalid digit found in string");
    let err = parse_hex_mark("0x\t").unwrap_err();
    assert!(err.message().starts_with("invalid mark \"0x\\t\": "));
}

#[test]
fn marks_of_workers_end_at_the_largest_one() {
    assert_eq!(worker_fwmark(0x20000000, 0), 0x20000001);
    assert_eq!(worker_fwmark(u32::MAX - 1, 0), u32::MAX);
    assert_eq!(worker_fwmark(u32::MAX - 1, 5), u32::MAX);
}

#[test]
fn isolation_modes_have_their_names() {
    assert_eq!(IsolationMode::parse("fwmark").unwrap(), IsolationMode::Fwmark);
    assert_eq!(IsolationMode::parse("source_port").unwrap(), IsolationMode::SourcePort);
    assert_eq!(IsolationMode::Fwmark.as_str(), "fwmark");
    assert_eq!(IsolationMode::SourcePort.as_str(), "source_port");
}

#[test]
fn workers_have_queues_of_their_own() {
    let mut config = isolation("source_port");
    config.queue_base = 65_530;
    let workers = effective_workers(100, config.queue_base);
    assert_eq!(workers, 6);
    let queues: Vec<u16> = generate_assignments(workers, &config).iter().map(|a| a.qnum).collect();
    assert_eq!(queues, [65_530, 65_531, 65_532, 65_533, 65_534, 65_535]);
}
