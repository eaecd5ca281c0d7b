use zapret_checker::bayes::BayesianState;
use zapret_checker::config::{
    AppConfig, BayesConfig, BlobConfig, DebugConfig, DnsConfig, FirewallConfig, IsolationConfig, NfqwsConfig,
    PayloadConfig, ProbeConfig, ProtocolProbeConfig, SourcePortConfig, StrategiesConfig, StrategyCombinationConfig,
    StrategyValuesConfig, WorkersConfig,
};
use zapret_checker::graph::{BaseWeights, NodeWeights, StrategyComponent, StrategyNode};
use zapret_checker::map::TextMap;
use zapret_checker::payload_registry::{PayloadDef, PayloadProtocol};
use zapret_checker::report::{
    blob_aliases_in_args, combination_summary, live_probe_summary, payload_blob_imports, payload_summary,
    pool_done_line, pool_start_line, print_check_report, strategy_command_args, strategy_param_names,
    strategy_report_name, target_display_key, unique_strategy_targets, BlobImport, CheckOutput, CombinationSummary,
    PayloadSummary, ScoredResult,
};
use zapret_checker::scheduler::{
    finalize_results, fmt_ms, live_strategy_result_line, unique_attempt_targets, StrategyRunResult,
};
use zapret_checker::scoring::{score_term, ScoreTerm};
use zapret_checker::types::{
    FailureKind, HostIp, HttpMethod, HttpRequestSpec, ProbeErrorClass, ProbeOutcome, ProbeProtocol, ProbeResult,
    ReadMode, StrategyProbeTarget, TargetScheme, TransferLevel,
};
use zapret_checker::worker_pool::IndexedPoolResult;

fn words(items: &[&str]) -> Vec<String> {
    items.iter().map(|item| item.to_string()).collect()
}

fn localhost() -> HostIp {
    HostIp { is_ipv4: true, text: "127.0.0.1".to_string() }
}

fn check_output(
    results: Vec<ScoredResult>,
    payload_summary: Option<PayloadSummary>,
    combination_summary: Option<CombinationSummary>,
) -> CheckOutput {
    CheckOutput {
        target: "https://example.com/".to_string(),
        target_scheme: TargetScheme::Https,
        request: request(),
        test_count: 1,
        test_targets: words(&["example.com:443/", "example.com:443/"]),
        baseline: probe_result("baseline", ProbeOutcome::Success),
        results,
        successful_strategy_limit: 10,
        search_mode: "signal".to_string(),
        round_robin_families: true,
        generated_count: 0,
        workers_count: 1,
        isolation_mode: "source_port".to_string(),
        payload_summary,
        payload_blob_imports: Vec::new(),
        combination_summary,
    }
}

fn request() -> HttpRequestSpec {
    HttpRequestSpec {
        method: HttpMethod::Get,
        path_and_query: "/".to_string(),
        user_agent: "test".to_string(),
        read_mode: ReadMode::Body,
        min_body_bytes: 1,
        dpi_detection_bytes: 16384,
        verify_transfer_bytes: 32768,
        max_read_bytes: 1024,
    }
}

fn probe_result(strategy_id: &str, outcome: ProbeOutcome) -> ProbeResult {
    ProbeResult {
        strategy_id: strategy_id.to_string(),
        worker_id: 0,
        qnum: None,
        assigned_source_port: None,
        target_host: "example.com".to_string(),
        target_ip: localhost(),
        target_port: 443,
        protocol: ProbeProtocol::Tls12Http11,
        path: "/".to_string(),
        method: HttpMethod::Get,
        read_mode: ReadMode::Body,
        setup_ms: Some(0),
        connect_ms: Some(0),
        tls_ms: Some(0),
        first_byte_ms: Some(0),
        total_ms: 1,
        outcome,
        http_status: Some(200),
        bytes_read: 128,
        header_bytes: 64,
        body_bytes: 64,
        total_bytes: 128,
        transfer_level: TransferLevel::Body,
        dpi_suspicious: false,
        failure_kind: None,
        error_class: None,
        error_message: None,
    }
}

fn weights(cost: f64, risk: f64) -> NodeWeights {
    NodeWeights::Own(BaseWeights {
        cost: cost.to_bits(),
        risk: risk.to_bits(),
        prior_success: 1.0f64.to_bits(),
        prior_failure: 1.0f64.to_bits(),
    })
}

fn single_node(id: &str) -> StrategyNode {
    StrategyNode {
        id: id.to_string(),
        family: "fake".to_string(),
        action_id: "fake_tls".to_string(),
        args: words(&["--lua-desync=fake"]),
        components: vec![StrategyComponent {
            family: "fake".to_string(),
            action_id: "fake_tls".to_string(),
            args: words(&["--lua-desync=fake"]),
        }],
        is_combined: false,
        weights: weights(1.0, 1.0),
    }
}

fn combined_node() -> StrategyNode {
    StrategyNode {
        id: "tls12_combined_fake_split_0".to_string(),
        family: "combined_fake_split".to_string(),
        action_id: "fake_tls+multisplit_tls".to_string(),
        args: words(&["--lua-desync=fake", "--lua-desync=multisplit"]),
        components: vec![
            StrategyComponent {
                family: "fake".to_string(),
                action_id: "fake_tls".to_string(),
                args: words(&["--lua-desync=fake"]),
            },
            StrategyComponent {
                family: "split".to_string(),
                action_id: "multisplit_tls".to_string(),
                args: words(&["--lua-desync=multisplit"]),
            },
        ],
        is_combined: true,
        weights: weights(5.0, 2.0),
    }
}

fn scored(node: StrategyNode, result: ProbeResult, score: f64) -> ScoredResult {
    ScoredResult {
        run: StrategyRunResult {
            score: score_term(&result),
            attempts: vec![result.clone()],
            node,
            result,
            worker_id: 0,
            qnum: 200,
        },
        score_text: format!("{score:.1}"),
        score: score.to_bits(),
        cost: 1.0f64.to_bits(),
        risk: 1.0f64.to_bits(),
    }
}

fn app_config() -> AppConfig {
    AppConfig {
        workers: WorkersConfig {
            count: 1,
            spawn_grace_ms: 1,
            task_channel_size: 1,
            result_channel_size: 1,
            shutdown_timeout_ms: 1,
        },
        source_port: SourcePortConfig {
            mode: "os_assigned".to_string(),
            bind_ipv4: localhost(),
            bind_ipv6: HostIp { is_ipv4: false, text: "::".to_string() },
        },
        probe: ProbeConfig {
            backend: "native".to_string(),
            connect_timeout_ms: 1,
            tls_timeout_ms: 1,
            first_byte_timeout_ms: 1,
            total_timeout_ms: 1,
            max_read_bytes: 1,
            user_agent: String::new(),
            method: "GET".to_string(),
            read_mode: "body".to_string(),
            min_body_bytes: 1,
            dpi_detection_bytes: 1,
            verify_transfer_bytes: 1,
            base_domains: Vec::new(),
            test_count: 1,
            protocols: ProtocolProbeConfig::default(),
            dns: DnsConfig::default(),
        },
        nfqws: NfqwsConfig {
            binary: String::new(),
            library_paths: Vec::new(),
            base_args: Vec::new(),
            start_grace_ms: 1,
            stop_timeout_ms: 1,
            log_stderr: false,
            log_stdout: false,
        },
        firewall: FirewallConfig {
            backend: "nftables".to_string(),
            table: String::new(),
            hook: "output".to_string(),
            priority: "mangle".to_string(),
            cleanup_on_start: false,
            cleanup_on_exit: false,
        },
        debug: DebugConfig { enable_curl_fallback: false, keep_rules_on_failure: false, verbose_nfqws: false },
        isolation: IsolationConfig::default(),
        strategies: StrategiesConfig::default(),
        bayes: BayesConfig::default(),
        blobs: BlobConfig::default(),
        payloads: PayloadConfig::default(),
        strategy_values: StrategyValuesConfig::default(),
        strategy_combinations: StrategyCombinationConfig::default(),
    }
}

#[test]
fn report_does_not_panic_without_payloads() {
    let output = check_output(Vec::new(), None, None);
    let lines = print_check_report(&output, &StrategyValuesConfig::default());
    assert_eq!(
        lines,
        words(&[
            "Target",
            "  url:        https://example.com/",
            "  scheme:     Https",
            "  host:       example.com",
            "  ip:         127.0.0.1",
            "  port:       443",
            "  protocol:   Tls12Http11",
            "  method:     GET",
            "  path:       /",
            "  read_mode:  Body",
            "  user-agent: test",
            "  tests:      1",
            "",
            "Baseline",
            "  outcome:       Success",
            "  failure_kind:  None",
            "  error_class:   None",
            "  timing:        connect=0ms tls=0ms first_byte=0ms total=1ms",
            "  http_status:   200",
            "  bytes_read:    128",
            "  header_bytes:  64",
            "  body_bytes:    64",
            "  total_bytes:   128",
            "  transfer_level: Body",
            "",
            "",
            "Parallelism",
            "  workers: 1",
            "  active_model: nfqws-per-task",
            "  isolation: source_port",
            "",
            "Summary",
            "  generated: 0",
            "  tested:   0",
            "  success:  0",
            "  failed:   0",
            "  search_mode: signal",
            "  round_robin: true",
            "  test_targets: example.com:443/",
            "  stop_at_success: 10",
            "",
            "Strategy values",
            "  mode: extend",
            "  http params: none",
            "  tls params: none",
            "  quic params: none",
            "",
            "Families",
            "  none",
            "",
            "Best strategies",
            "  none",
            "",
            "Failed strategies",
        ])
    );
}

#[test]
fn report_combined_strategy_name_includes_family_and_actions() {
    let node = combined_node();
    assert_eq!(strategy_report_name(&node), "combined_fake_split fake_tls+multisplit_tls");
}

#[test]
fn report_payload_summary_counts_payloads() {
    let mut cfg = app_config();
    cfg.blobs.auto_load = true;
    let payloads = vec![
        PayloadDef {
            protocol: PayloadProtocol::Tls,
            alias: "fake_default_tls".to_string(),
            path: None,
            builtin: true,
        },
        PayloadDef {
            protocol: PayloadProtocol::Tls,
            alias: "tls_google".to_string(),
            path: Some("tls.bin".into()),
            builtin: false,
        },
        PayloadDef {
            protocol: PayloadProtocol::Http,
            alias: "fake_default_http".to_string(),
            path: None,
            builtin: true,
        },
    ];

    let summary = payload_summary(&cfg, &payloads);

    assert_eq!(summary.http.builtin, 1);
    assert_eq!(summary.http.files, 0);
    assert_eq!(summary.tls.builtin, 1);
    assert_eq!(summary.tls.files, 1);
    assert!(summary.auto_load);

    let imports = payload_blob_imports(&payloads);
    assert_eq!(imports.len(), 1);
    assert_eq!(imports[0].alias, "tls_google");
    assert_eq!(imports[0].arg, "--blob=tls_google:@tls.bin");
}

#[test]
fn strategy_command_args_include_used_blob_import_before_strategy_args() {
    let args = vec!["--lua-desync=fake:blob=tls_google:fooling=badsum".to_string()];
    let imports = vec![
        BlobImport {
            alias: "http_other".to_string(),
            path: "/tmp/http.bin".to_string(),
            arg: "--blob=http_other:@/tmp/http.bin".to_string(),
        },
        BlobImport {
            alias: "tls_google".to_string(),
            path: "/tmp/tls.bin".to_string(),
            arg: "--blob=tls_google:@/tmp/tls.bin".to_string(),
        },
    ];

    assert_eq!(
        strategy_command_args(&args, &imports),
        vec!["--blob=tls_google:@/tmp/tls.bin", "--lua-desync=fake:blob=tls_google:fooling=badsum"]
    );
}

#[test]
fn blob_aliases_are_extracted_from_multiple_strategy_args() {
    let args = vec![
        "--lua-desync=fake:blob=tls_a".to_string(),
        "--lua-desync=syndata:blob=tls_b:fooling=autottl".to_string(),
    ];

    assert_eq!(
        blob_aliases_in_args(&args).into_iter().collect::<Vec<_>>(),
        vec!["tls_a".to_string(), "tls_b".to_string()]
    );
}

#[test]
fn blob_aliases_are_sorted_and_told_once() {
    let args = words(&["x:blob=b:seqovl_blob=a:blob=b", "blob=:blob=", "none"]);
    assert_eq!(blob_aliases_in_args(&args), ["a", "b"]);
}

#[test]
fn report_non_combined_strategy_name_is_old_id() {
    let node = single_node("tls12_fake_0");
    assert_eq!(strategy_report_name(&node), "tls12_fake_0");
}

#[test]
fn report_lists_the_best_first_and_the_failed_at_the_end() {
    let mut bad = probe_result("s", ProbeOutcome::Timeout);
    bad.failure_kind = Some(FailureKind::StrategyFailure);
    bad.error_class = Some(ProbeErrorClass::ReadTimeout);
    bad.error_message = Some("read timeout".to_string());
    let results = vec![
        scored(single_node("tls12_fake_0"), probe_result("s", ProbeOutcome::Success), 92.0),
        scored(single_node("tls12_fake_1"), bad, -28.0),
        scored(combined_node(), probe_result("s", ProbeOutcome::Success), 95.5),
    ];
    assert_eq!(pool_done_line(&results), "info(checker::pool): done tested=3 success=2 failed=1");
    let output = check_output(
        results,
        None,
        Some(CombinationSummary { enabled: true, allowed_pairs: 1, generated: 1 }),
    );
    let lines = print_check_report(&output, &StrategyValuesConfig::default());
    let families = lines.iter().position(|line| line == "Families").unwrap();
    assert_eq!(
        lines[families..],
        words(&[
            "Families",
            "  combined_fake_split tested=1 success=1 failed=0",
            "  fake           tested=2 success=1 failed=1",
            "",
            "Best strategies",
            "  [  95.5] combined_fake_split fake_tls+multisplit_tls combined_fake_split http=200 body=64B tls=0ms total=1ms",
            "           --lua-desync=fake",
            "           --lua-desync=multisplit",
            "           components:",
            "             - fake/fake_tls",
            "             - split/multisplit_tls",
            "  [  92.0] tls12_fake_0                         fake         http=200 body=64B tls=0ms total=1ms",
            "           --lua-desync=fake",
            "",
            "Failed strategies",
            "  [ -28.0] tls12_fake_1                         fake         Timeout / Some(ReadTimeout)",
            "           read timeout",
            "           --lua-desync=fake",
        ])
    );
    assert!(lines.contains(&"  allowed_pairs: 1".to_string()));
}

#[test]
fn report_names_at_most_twenty_failed_strategies() {
    let results = (0..25)
        .map(|i| scored(single_node(&format!("tls12_fake_{i}")), probe_result("s", ProbeOutcome::TcpReset), -13.0))
        .collect();
    let lines = print_check_report(&check_output(results, None, None), &StrategyValuesConfig::default());
    assert_eq!(lines.iter().filter(|line| line.contains("TcpReset / None")).count(), 20);
}

#[test]
fn results_with_equal_scores_are_listed_by_name() {
    let results = vec![
        scored(single_node("b"), probe_result("s", ProbeOutcome::Success), 92.0),
        scored(single_node("a"), probe_result("s", ProbeOutcome::Success), 92.0),
    ];
    let lines = print_check_report(&check_output(results, None, None), &StrategyValuesConfig::default());
    let best: Vec<&String> = lines.iter().filter(|line| line.starts_with("  [  92.0]")).collect();
    assert!(best[0].starts_with("  [  92.0] a "));
    assert!(best[1].starts_with("  [  92.0] b "));
}

#[test]
fn a_probe_is_summed_up_in_one_line() {
    let mut result = probe_result("s", ProbeOutcome::HttpBlockPage);
    result.tls_ms = None;
    result.failure_kind = Some(FailureKind::StrategyFailure);
    assert_eq!(
        live_probe_summary(&result),
        "outcome=HttpBlockPage http=200 body=64B bytes=128 transfer=Body dpi=false connect=0ms tls=-ms first_byte=0ms total=1ms failure=Some(StrategyFailure) error=None"
    );
    assert_eq!(fmt_ms(None), "-");
    assert_eq!(fmt_ms(Some(12)), "12");
}

#[test]
fn a_strategy_is_told_as_soon_as_it_was_tried() {
    let result = probe_result("s", ProbeOutcome::Success);
    let mut elsewhere = probe_result("s", ProbeOutcome::Timeout);
    elsewhere.path = "/other".to_string();
    let attempts = vec![result.clone(), elsewhere, result.clone()];
    assert_eq!(unique_attempt_targets(&attempts), 2);
    let item = IndexedPoolResult {
        strategy_index: 4,
        node: single_node("tls12_fake_4"),
        result,
        attempts,
        worker_id: 1,
        qnum: 201,
    };
    assert_eq!(
        live_strategy_result_line(7, &item, "92.0"),
        "info(checker): strategy #7     id=tls12_fake_4 family=fake worker=1 qnum=201 attempts=2/3 domains=2 outcome=Success http=200 body=64B bytes=128 tls=0ms total=1ms score=92.0"
    );
}

#[test]
fn targets_are_counted_by_host_port_and_path() {
    let target = |host: &str, path: &str| StrategyProbeTarget {
        original: host.to_string(),
        host: host.to_string(),
        ip: localhost(),
        port: 443,
        protocol: ProbeProtocol::Tls12Http11,
        request: HttpRequestSpec { path_and_query: path.to_string(), ..request() },
    };
    let targets = vec![target("a", "/"), target("a", "/x"), target("b", "/"), target("a", "/")];
    assert_eq!(unique_strategy_targets(&targets), 3);
    assert_eq!(target_display_key(&targets[1]), "a:443/x");
    assert_eq!(
        pool_start_line(9, 2, 3, 1, 4, 0),
        "info(checker::pool): start generated=9 workers=2 domains=3 repeats=1 total_tests=4 stop_at_success=disabled"
    );
}

#[test]
fn names_of_configured_parameters_are_listed() {
    let mut values = StrategyValuesConfig::default();
    values.tls = TextMap::new().insert("pos".to_string(), words(&["1"])).insert("blob".to_string(), words(&["x"]));
    assert_eq!(strategy_param_names(&values, "tls13"), "blob, pos");
    assert_eq!(strategy_param_names(&values, "http"), "none");
    let summary = combination_summary(&StrategyCombinationConfig::default(), &[combined_node(), single_node("a")]);
    assert_eq!(summary, CombinationSummary { enabled: false, allowed_pairs: 0, generated: 1 });
}

#[test]
fn results_are_judged_and_taken_in() {
    let mut broken = probe_result("s1", ProbeOutcome::InternalError);
    broken.failure_kind = Some(FailureKind::InfrastructureFailure);
    let item = |id: &str, result: ProbeResult| IndexedPoolResult {
        strategy_index: 0,
        node: single_node(id),
        attempts: vec![result.clone()],
        result,
        worker_id: 3,
        qnum: 203,
    };
    let mut bayes = BayesianState::default();
    let runs = finalize_results(
        vec![item("s1", broken), item("s0", probe_result("s0", ProbeOutcome::Success))],
        &mut bayes,
    );
    assert_eq!(runs.len(), 2);
    assert_eq!(runs[0].score, ScoreTerm::Void);
    assert_eq!(runs[1].score, ScoreTerm::Success);
    assert_eq!(runs[1].qnum, 203);
    assert_eq!(bayes.posteriors.keys(), ["s0"]);
    assert_eq!(bayes.posteriors.get("s0").unwrap().tests, 1);
}
