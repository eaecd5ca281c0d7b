use zapret_checker::config::{
    AppConfig, BayesConfig, BlobConfig, DebugConfig, DnsConfig, FirewallConfig, IsolationConfig, NfqwsConfig,
    PayloadConfig, ProbeConfig, ProtocolProbeConfig, SourcePortConfig, StrategiesConfig, StrategyCombinationConfig,
    StrategyValuesConfig, WorkersConfig,
};
use zapret_checker::firewall::FirewallHook;
use zapret_checker::graph::{StrategyGraph, StrategyNode};
use zapret_checker::isolation::IsolationMode;
use zapret_checker::path::{extension, file_name, file_stem, has_extension, join_path, parent};
use zapret_checker::payload_registry::PayloadAliases;
use zapret_checker::scheduler::{effective_workers, Scheduler};
use zapret_checker::settings::{
    append_repeated_strategy_target, build_firewall, catalog_options, check_base_domains, check_domain_protocol, choose_backend,
    effective_test_count, nfqws_library_paths, parse_probe_domain_target, parse_probe_protocol, plain_task, primary_target_request, protocol_enabled, request_from_config,
    selected_protocol, strategies_file, validate_nfqws_binary, validate_nfqws_library_paths, Backend,
    BinaryState, FirewallChoice, LibraryState,
};
use zapret_checker::types::{HostIp, HttpMethod, ProbeProtocol, ProbeTimeouts, ReadMode};
use zapret_checker::worker::WorkerRuntime;

fn words(items: &[&str]) -> Vec<String> {
    items.iter().map(|item| item.to_string()).collect()
}

fn any_ip() -> HostIp {
    HostIp { is_ipv4: true, text: "0.0.0.0".to_string() }
}

fn app_config() -> AppConfig {
    AppConfig {
        workers: WorkersConfig {
            count: 0,
            spawn_grace_ms: 17,
            task_channel_size: 1,
            result_channel_size: 1,
            shutdown_timeout_ms: 1,
        },
        source_port: SourcePortConfig {
            mode: "os_assigned".to_string(),
            bind_ipv4: any_ip(),
            bind_ipv6: HostIp { is_ipv4: false, text: "::".to_string() },
        },
        probe: ProbeConfig {
            backend: "native".to_string(),
            connect_timeout_ms: 1,
            tls_timeout_ms: 2,
            first_byte_timeout_ms: 3,
            total_timeout_ms: 4,
            max_read_bytes: 1024,
            user_agent: "agent".to_string(),
            method: "HEAD".to_string(),
            read_mode: "headers".to_string(),
            min_body_bytes: 16,
            dpi_detection_bytes: 5,
            verify_transfer_bytes: 6,
            base_domains: words(&["example.com", "http://example.org/x"]),
            test_count: 1,
            protocols: ProtocolProbeConfig::default(),
            dns: DnsConfig::default(),
        },
        nfqws: NfqwsConfig {
            binary: "/opt/zapret2/nfqws2".to_string(),
            library_paths: Vec::new(),
            base_args: Vec::new(),
            start_grace_ms: 1,
            stop_timeout_ms: 1,
            log_stderr: false,
            log_stdout: false,
        },
        firewall: FirewallConfig {
            backend: "nftables".to_string(),
            table: "zapret_checker".to_string(),
            hook: "postrouting".to_string(),
            priority: "mangle".to_string(),
            cleanup_on_start: true,
            cleanup_on_exit: false,
        },
        debug: DebugConfig { enable_curl_fallback: false, keep_rules_on_failure: false, verbose_nfqws: false },
        isolation: IsolationConfig::default(),
        strategies: StrategiesConfig::default(),
        bayes: BayesConfig::default(),
        blobs: BlobConfig::default(),
        payloads: PayloadConfig::default(),
        strategy_values: StrategyValuesConfig::default(),
        strategy_combinations: StrategyCombinationConfig::default(),
    }
}

#[test]
fn protocols_are_named_and_must_be_enabled() {
    let cfg = app_config();
    assert_eq!(parse_probe_protocol("quic").unwrap(), ProbeProtocol::QuicHttp3Future);
    assert_eq!(parse_probe_protocol("ssl").unwrap_err().message(), "unsupported probe protocol: ssl");
    assert!(protocol_enabled(&cfg, ProbeProtocol::HttpPlain));
    assert_eq!(selected_protocol(&cfg, None).unwrap(), ProbeProtocol::Tls12Http11);
    assert_eq!(selected_protocol(&cfg, Some("http".to_string())).unwrap(), ProbeProtocol::HttpPlain);
    assert_eq!(
        selected_protocol(&cfg, Some("tls13".to_string())).unwrap_err().message(),
        "selected protocol Tls13Http11 is disabled in config"
    );
}

#[test]
fn what_is_asked_for_goes_before_what_is_configured() {
    let cfg = app_config();
    let request = request_from_config(&cfg, None, None, None, None).unwrap();
    assert_eq!(request.method, HttpMethod::Head);
    assert_eq!(request.read_mode, ReadMode::Headers);
    assert_eq!(request.path_and_query, "/");
    assert_eq!((request.min_body_bytes, request.max_read_bytes), (16, 1024));
    let request = request_from_config(&cfg, Some(HttpMethod::Get), Some(ReadMode::Body), Some(8), None).unwrap();
    assert_eq!(request.method, HttpMethod::Get);
    assert_eq!(request.min_body_bytes, 8);
    assert_eq!(
        request_from_config(&cfg, None, None, Some(9), Some(8)).unwrap_err().message(),
        "--min-body-bytes must be less than or equal to --max-read-bytes"
    );
}

#[test]
fn a_check_without_a_target_takes_the_first_domain() {
    let mut cfg = app_config();
    let target = primary_target_request(&cfg, None, None, ProbeProtocol::Tls12Http11, false).unwrap();
    assert_eq!(target.host, "example.com");
    let target =
        primary_target_request(&cfg, Some("other.net".to_string()), None, ProbeProtocol::Tls12Http11, false).unwrap();
    assert_eq!(target.host, "other.net");
    cfg.probe.base_domains = Vec::new();
    assert_eq!(
        primary_target_request(&cfg, None, None, ProbeProtocol::Tls12Http11, false).unwrap_err().message(),
        "specify --host/--url or configure probe.base_domains"
    );
}

#[test]
fn a_domain_is_repeated_as_often_as_it_is_tested() {
    let mut cfg = app_config();
    let parsed = parse_probe_domain_target("http://example.org/x", ProbeProtocol::Tls12Http11, false).unwrap();
    assert_eq!(parsed.protocol, ProbeProtocol::HttpPlain);
    assert!(check_domain_protocol(&cfg, &parsed).is_ok());
    let request = request_from_config(&cfg, None, None, None, None).unwrap();
    let mut targets = Vec::new();
    append_repeated_strategy_target(&mut targets, &parsed, &any_ip(), &request, 3);
    assert_eq!(targets.len(), 3);
    assert!(targets.iter().all(|t| t.host == "example.org" && t.request.path_and_query == "/x" && t.port == 80));
    cfg.probe.protocols.http = false;
    assert_eq!(
        check_domain_protocol(&cfg, &parsed).unwrap_err().message(),
        "base domain protocol HttpPlain is disabled in config for http://example.org/x"
    );
}

#[test]
fn a_plain_task_has_no_strategy() {
    let cfg = app_config();
    let request = request_from_config(&cfg, None, None, None, None).unwrap();
    let timeouts = ProbeTimeouts { connect_ms: 1, tls_ms: 2, first_byte_ms: 3, total_ms: 4 };
    let task =
        plain_task("baseline", "example.com".to_string(), any_ip(), 443, ProbeProtocol::Tls12Http11, request, timeouts);
    assert_eq!(task.strategy_id, "baseline");
    assert_eq!(task.path, "/");
    assert!(task.strategy_args.is_empty());
}

#[test]
fn the_packet_filter_must_be_a_program() {
    assert!(validate_nfqws_binary("/x", &BinaryState::Program).is_ok());
    let message = |state| validate_nfqws_binary("/x", &state).unwrap_err().message();
    assert_eq!(message(BinaryState::NotFound("gone".to_string())), "nfqws2 binary not found at /x: gone");
    assert_eq!(message(BinaryState::NotFile), "nfqws2 binary path is not a file: /x");
    assert_eq!(message(BinaryState::NotExecutable), "nfqws2 binary is not executable: /x");
}

#[test]
fn the_libraries_lie_beside_the_program_unless_told_otherwise() {
    let mut cfg = app_config();
    assert_eq!(nfqws_library_paths(&cfg, "/opt/zapret2/nfqws2", Vec::new()), ["/opt/zapret2"]);
    cfg.nfqws.library_paths = words(&["/lib"]);
    assert_eq!(nfqws_library_paths(&cfg, "/opt/zapret2/nfqws2", Vec::new()), ["/lib"]);
    assert_eq!(nfqws_library_paths(&cfg, "/opt/zapret2/nfqws2", words(&["/own"])), ["/own"]);

    let paths = words(&["/a", "/b"]);
    assert!(validate_nfqws_library_paths(&paths, &vec![LibraryState::Directory, LibraryState::Directory]).is_ok());
    let error =
        validate_nfqws_library_paths(&paths, &vec![LibraryState::Directory, LibraryState::NotDirectory]).unwrap_err();
    assert_eq!(error.message(), "nfqws2 library path is not a directory: /b");
    let error = validate_nfqws_library_paths(
        &paths,
        &vec![LibraryState::NotFound("gone".to_string()), LibraryState::NotDirectory],
    )
    .unwrap_err();
    assert_eq!(error.message(), "nfqws2 library path not found at /a: gone");
}

#[test]
fn parents_of_paths() {
    for (path, expected) in [
        ("/opt/nfqws2", Some("/opt")),
        ("nfqws2", Some("")),
        ("/nfqws2", Some("/")),
        ("/", None),
        ("", None),
        ("a/b/", Some("a")),
        ("a/./b", Some("a")),
        ("./b", Some(".")),
        ("a//b", Some("a")),
        ("..", Some("")),
    ] {
        assert_eq!(parent(path).as_deref(), expected, "{path}");
        assert_eq!(std::path::Path::new(path).parent().map(|p| p.to_str().unwrap()), expected, "{path}");
    }
}

#[test]
fn names_and_stems_of_paths() {
    for path in ["/a/b.tar.gz", "b", ".hidden", "a/", "/", "", "a/..", "x/.", "a.b/c"] {
        let path_of = std::path::Path::new(path);
        assert_eq!(file_name(path).as_deref(), path_of.file_name().and_then(|n| n.to_str()), "{path}");
        assert_eq!(file_stem(path).as_deref(), path_of.file_stem().and_then(|n| n.to_str()), "{path}");
    }
    for (base, path) in [("/a", "b"), ("/a/", "b"), ("", "b"), ("/a", "/b"), ("a", "")] {
        assert_eq!(join_path(base, path), std::path::Path::new(base).join(path).to_str().unwrap());
    }
}

#[test]
fn the_file_of_the_strategies() {
    let cfg = app_config();
    assert_eq!(strategies_file(&cfg, None), "config/standart/strategies.yaml");
    assert_eq!(strategies_file(&cfg, Some("custom".to_string())), "custom/strategies.yaml");
}

#[test]
fn the_firewall_goes_by_the_configuration() {
    let mut cfg = app_config();
    match build_firewall(&cfg, Vec::new()) {
        FirewallChoice::Nftables(manager) => {
            assert_eq!(manager.hook, FirewallHook::Postrouting);
            assert!(manager.cleanup_on_start);
        }
        other => panic!("{other:?}"),
    }
    cfg.firewall.backend = "iptables".to_string();
    assert!(matches!(build_firewall(&cfg, Vec::new()), FirewallChoice::Iptables(_)));
    cfg.isolation.mode = "fwmark".to_string();
    cfg.isolation.use_nft_vmap = true;
    match build_firewall(&cfg, Vec::new()) {
        FirewallChoice::Vmap(manager) => assert_eq!(manager.desync_mark, 0x40000000),
        other => panic!("{other:?}"),
    }
}

#[test]
fn a_run_has_a_worker_and_a_task_for_every_strategy() {
    let cfg = app_config();
    assert_eq!(effective_workers(0, 10), 1);
    assert_eq!(effective_workers(3, 10), 3);
    assert_eq!(effective_workers(3, u16::MAX), 1);
    assert_eq!(effective_workers(usize::MAX, 0), 65_536);
    let scheduler = Scheduler {
        runtime: WorkerRuntime {
            nfqws_binary: String::new(),
            nfqws_library_paths: Vec::new(),
            nfqws_base_args: Vec::new(),
            nfqws_start_grace_ms: 1,
            nfqws_log_stdout: false,
            nfqws_log_stderr: false,
            firewall_hook: FirewallHook::Output,
            isolation_mode: IsolationMode::SourcePort,
        },
        workers_config: cfg.workers,
        isolation: IsolationConfig::default(),
        successful_strategy_limit: 2,
        targets: Vec::new(),
        live_log: true,
    };
    let nodes: Vec<StrategyNode> = Vec::new();
    let timeouts = ProbeTimeouts { connect_ms: 1, tls_ms: 2, first_byte_ms: 3, total_ms: 4 };
    let run = scheduler.prepare(&StrategyGraph { nodes }, timeouts);
    assert_eq!(run.pool.worker_count(), 1);
    assert_eq!(run.pool.assignments()[0].qnum, 10);
    assert_eq!(run.runtime.nfqws_start_grace_ms, 17);
    assert!(run.pool.next_task(false).1.is_none());
    assert!(run.live_log);
}

#[test]
fn extensions_of_paths() {
    assert_eq!(extension("config/checker.toml").as_deref(), Some("toml"));
    assert_eq!(extension("a.tar.gz/").as_deref(), Some("gz"));
    assert_eq!(extension("dir.d/name"), None);
    assert_eq!(extension(".hidden"), None);
    assert_eq!(extension("name.").as_deref(), Some(""));
    assert_eq!(extension(".."), None);
    assert!(has_extension("state.json", "json"));
    assert!(!has_extension("state.yaml", "json"));
    assert!(!has_extension("json", "json"));
}

#[test]
fn without_a_target_there_must_be_domains() {
    let mut cfg = app_config();
    assert!(check_base_domains(&cfg).is_ok());
    cfg.probe.base_domains.clear();
    assert_eq!(
        check_base_domains(&cfg).unwrap_err().message(),
        "probe.base_domains must not be empty when --host/--url is omitted"
    );
}

#[test]
fn there_is_at_least_one_test() {
    let mut cfg = app_config();
    cfg.probe.test_count = 5;
    assert_eq!(effective_test_count(&cfg, None).unwrap(), 5);
    assert_eq!(effective_test_count(&cfg, Some(2)).unwrap(), 2);
    assert_eq!(
        effective_test_count(&cfg, Some(0)).unwrap_err().message(),
        "--test-count must be greater than zero"
    );
}

#[test]
fn the_backend_is_native_or_curl_where_that_is_allowed() {
    let mut cfg = app_config();
    cfg.debug.enable_curl_fallback = false;
    assert_eq!(choose_backend(&cfg, None).unwrap(), Backend::Native);
    assert_eq!(
        choose_backend(&cfg, Some("curl".to_string())).unwrap_err().message(),
        "--backend curl requires debug.enable_curl_fallback = true in config"
    );
    assert_eq!(
        choose_backend(&cfg, Some("quic".to_string())).unwrap_err().message(),
        "unsupported backend: quic"
    );
    cfg.debug.enable_curl_fallback = true;
    cfg.probe.backend = "curl".to_string();
    assert_eq!(choose_backend(&cfg, None).unwrap(), Backend::Curl);
    assert_eq!(choose_backend(&cfg, Some("native".to_string())).unwrap(), Backend::Native);
}

#[test]
fn no_more_candidates_are_loaded_than_configured() {
    let mut cfg = app_config();
    let aliases = PayloadAliases { http: Vec::new(), tls: Vec::new(), quic: Vec::new() };
    assert_eq!(catalog_options(&cfg, ProbeProtocol::HttpPlain, &aliases).max_candidates, usize::MAX);
    cfg.strategies.max_candidates = 200;
    let options = catalog_options(&cfg, ProbeProtocol::Tls13Http11, &aliases);
    assert_eq!(options.protocol_key, "tls13");
    assert_eq!(options.search_mode, "signal");
    assert_eq!(options.max_candidates, 200);
    assert_eq!(options.max_per_family, usize::MAX);
    assert!(options.round_robin_families);
}
