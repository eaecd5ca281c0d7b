use zapret_checker::config::{
    AllowedCombination, AppConfig, BayesConfig, BlobConfig, DebugConfig, DnsConfig, FirewallConfig, IsolationConfig,
    NfqwsConfig, PayloadConfig, ProbeConfig, ProtocolProbeConfig, SourcePortConfig, StrategiesConfig,
    StrategyCombinationConfig, StrategyValuesConfig, WorkersConfig,
};
use zapret_checker::map::TextMap;
use zapret_checker::types::HostIp;

fn words(items: &[&str]) -> Vec<String> {
    items.iter().map(|item| item.to_string()).collect()
}

fn aliases(items: &[(&str, &str)]) -> TextMap<String> {
    let mut map = TextMap::new();
    for (alias, file) in items {
        map = map.insert(alias.to_string(), file.to_string());
    }
    map
}

fn checker_config() -> AppConfig {
    let mut payloads = PayloadConfig::default();
    payloads.max_per_protocol = 16;
    payloads.http.aliases = aliases(&[("http_iana_org", "http_iana_org.bin")]);
    payloads.tls.aliases = aliases(&[("tls_www_google_com", "tls_www_google_com.bin")]);
    payloads.quic.aliases = aliases(&[("quic_www_google_com", "quic_www_google_com.bin")]);
    let mut strategy_values = StrategyValuesConfig::default();
    strategy_values.tls = TextMap::new().insert("payload".to_string(), words(&["tls_client_hello"]));
    AppConfig {
        workers: WorkersConfig {
            count: 4,
            spawn_grace_ms: 100,
            task_channel_size: 1024,
            result_channel_size: 1024,
            shutdown_timeout_ms: 3000,
        },
        source_port: SourcePortConfig {
            mode: "os_assigned".to_string(),
            bind_ipv4: HostIp { is_ipv4: true, text: "0.0.0.0".to_string() },
            bind_ipv6: HostIp { is_ipv4: false, text: "::".to_string() },
        },
        probe: ProbeConfig {
            backend: "native".to_string(),
            connect_timeout_ms: 1000,
            tls_timeout_ms: 1000,
            first_byte_timeout_ms: 1000,
            total_timeout_ms: 5000,
            max_read_bytes: 65536,
            user_agent: "test".to_string(),
            method: "GET".to_string(),
            read_mode: "body".to_string(),
            min_body_bytes: 1,
            dpi_detection_bytes: 16384,
            verify_transfer_bytes: 32768,
            base_domains: words(&["example.com"]),
            test_count: 1,
            protocols: ProtocolProbeConfig {
                http: true,
                tls12: true,
                tls13: false,
                quic: true,
                preferred: "tls12".to_string(),
            },
            dns: DnsConfig {
                mode: "doh".to_string(),
                doh_addr: "1.1.1.1:443".to_string(),
                doh_addrs: words(&["1.1.1.1:443", "104.16.248.249:443", "104.16.249.249:443"]),
                doh_host: "cloudflare-dns.com".to_string(),
                doh_path: "/dns-query".to_string(),
            },
        },
        nfqws: NfqwsConfig {
            binary: "/opt/zapret2/nfqws2".to_string(),
            library_paths: Vec::new(),
            base_args: words(&["--user=daemon", "--fwmark=0x40000000"]),
            start_grace_ms: 100,
            stop_timeout_ms: 1000,
            log_stderr: false,
            log_stdout: false,
        },
        firewall: FirewallConfig {
            backend: "nftables".to_string(),
            table: "zapret_checker".to_string(),
            hook: "output".to_string(),
            priority: "mangle".to_string(),
            cleanup_on_start: true,
            cleanup_on_exit: true,
        },
        debug: DebugConfig { enable_curl_fallback: false, keep_rules_on_failure: false, verbose_nfqws: false },
        isolation: IsolationConfig::default(),
        strategies: StrategiesConfig {
            search_mode: "expand".to_string(),
            ..StrategiesConfig::default()
        },
        bayes: BayesConfig::default(),
        blobs: BlobConfig { auto_load: true, base_dir: Some("/opt/zapret/files/fake".to_string()) },
        payloads,
        strategy_values,
        strategy_combinations: StrategyCombinationConfig {
            enabled: true,
            allowed: vec![AllowedCombination {
                protocols: words(&["tls12", "tls13"]),
                families: words(&["fake", "split"]),
            }],
            ..StrategyCombinationConfig::default()
        },
    }
}

fn ports(cfg: &AppConfig) -> Vec<Option<u16>> {
    cfg.probe.dns.effective_doh_addrs().iter().map(|_| Some(443)).collect()
}

fn error_of(cfg: &AppConfig) -> String {
    cfg.validate(&ports(cfg)).unwrap_err().message()
}

#[test]
fn config_loads_checker_toml_and_validates_os_assigned_source_port() {
    let cfg = checker_config();
    cfg.validate(&ports(&cfg)).unwrap();
    assert_eq!(cfg.source_port.mode, "os_assigned");
    assert!(cfg.workers.count > 0);
    assert!(cfg.isolation.queue_base > 0);
    assert_eq!(
        cfg.probe.dns.effective_doh_addrs(),
        ["1.1.1.1:443", "104.16.248.249:443", "104.16.249.249:443"]
    );
    assert_eq!(cfg.strategies.successful_strategy_limit, 10);
    assert!(cfg.strategies.round_robin_families);
    assert!(cfg.payloads.http.aliases.contains_key("http_iana_org"));
    assert_eq!(cfg.strategy_values.mode, "extend");
    assert_eq!(
        cfg.strategy_values.values_for_param("tls12", "payload"),
        Some(&vec!["tls_client_hello".to_string()])
    );
    assert!(cfg.strategy_combinations.require_different_family);
    assert!(!cfg.strategy_combinations.allow_same_action);
    assert_eq!(cfg.strategy_combinations.mode, "pairwise");
}

#[test]
fn config_accepts_expand_search_mode() {
    let mut cfg = checker_config();
    cfg.strategies.search_mode = "force".to_string();
    cfg.validate(&ports(&cfg)).unwrap();
    assert_eq!(cfg.strategies.search_mode, "force");
}

#[test]
fn config_rejects_source_port_pool_mode() {
    let mut cfg = checker_config();
    cfg.source_port.mode = "fixed_pool".to_string();
    assert!(error_of(&cfg).contains("source_port.mode must be os_assigned"));
}

#[test]
fn strategy_values_rejects_invalid_mode() {
    let mut cfg = checker_config();
    cfg.strategy_values.mode = "bad".to_string();
    assert!(error_of(&cfg).contains("strategy_values.mode must be extend or override"));
}

#[test]
fn strategy_combinations_default_is_disabled() {
    let config = StrategyCombinationConfig::default();
    assert!(!config.enabled);
    assert!(!config.pair_allowed("tls12", "fake", "split"));
}

#[test]
fn strategy_combinations_rejects_invalid_protocol() {
    let mut cfg = checker_config();
    cfg.strategy_combinations.allowed[0].protocols = words(&["tls11", "tls13"]);
    assert!(error_of(&cfg).contains("unsupported protocol"));
}

#[test]
fn strategy_combinations_rejects_family_count_not_two() {
    let mut cfg = checker_config();
    cfg.strategy_combinations.allowed[0].families = words(&["fake", "split", "wsize"]);
    assert!(error_of(&cfg).contains("must contain exactly 2 families"));
}

#[test]
fn strategy_combinations_pair_allowed_is_unordered() {
    let mut cfg = checker_config();
    cfg.strategy_combinations.enabled = true;

    assert!(cfg.strategy_combinations.pair_allowed("tls12", "split", "fake"));
    assert!(cfg.strategy_combinations.pair_allowed("tls13", "fake", "split"));
    assert!(!cfg.strategy_combinations.pair_allowed("tls12", "fake", "udp_len"));
}

#[test]
fn strategy_combinations_disabled_pair_allowed_is_false() {
    let mut cfg = checker_config();
    cfg.strategy_combinations.enabled = false;
    assert!(!cfg.strategy_combinations.pair_allowed("tls12", "fake", "split"));
}

#[test]
fn strategy_combinations_force_mode_allows_pair() {
    let mut cfg = checker_config();
    cfg.strategy_combinations.enabled = true;
    cfg.strategy_combinations.mode = "force".to_string();

    assert!(cfg.strategy_combinations.pair_allowed("tls12", "fake", "udp_len"));
    assert!(!cfg.strategy_combinations.pair_allowed("tls12", "fake", "fake"));
}

#[test]
fn payload_config_auto_load_false_allows_missing_base_dir() {
    let mut cfg = checker_config();
    cfg.blobs.auto_load = false;
    cfg.blobs.base_dir = Some("/tmp/zapret_checker_missing_payload_blobs".to_string());
    cfg.validate(&ports(&cfg)).unwrap();
    assert!(!cfg.blobs.auto_load);
}

#[test]
fn payload_config_auto_load_true_requires_base_dir() {
    let mut cfg = checker_config();
    cfg.blobs.base_dir = None;
    assert!(error_of(&cfg).contains("blobs.base_dir is required"));
}

#[test]
fn payload_config_rejects_duplicate_alias_between_protocols() {
    let mut cfg = checker_config();
    cfg.payloads.http.aliases = aliases(&[("http_iana_org", "http_iana_org.bin"), ("shared", "http.bin")]);
    cfg.payloads.tls.aliases = aliases(&[("shared", "tls.bin"), ("tls_www_google_com", "tls_www_google_com.bin")]);
    assert!(error_of(&cfg).contains("duplicated between http and tls"));
}

#[test]
fn payload_config_rejects_alias_with_hyphen() {
    let mut cfg = checker_config();
    cfg.payloads.tls.aliases = aliases(&[("tls-google", "tls.bin")]);
    assert!(error_of(&cfg).contains("must contain only ASCII letters, digits or underscore"));
}

#[test]
fn payload_config_rejects_zero_max_per_protocol() {
    let mut cfg = checker_config();
    cfg.payloads.max_per_protocol = 0;
    assert!(error_of(&cfg).contains("payloads.max_per_protocol must be greater than zero"));
}

#[test]
fn config_loads_without_transition_matrix() {
    let cfg = checker_config();
    cfg.validate(&ports(&cfg)).unwrap();
    assert!(cfg.strategies.transition_matrix.is_none());
}

#[test]
fn payload_config_defaults_load_from_checker_toml() {
    let payloads = PayloadConfig::default();
    assert_eq!(payloads.http.builtin, ["fake_default_http"]);
    assert!(payloads.http.files.is_empty());
    assert_eq!(payloads.tls.builtin, ["fake_default_tls"]);
    assert!(payloads.tls.files.is_empty());
    assert_eq!(payloads.quic.builtin, ["fake_default_quic"]);
    assert!(payloads.quic.files.is_empty());
}

#[test]
fn no_worker_at_all_is_refused() {
    let mut cfg = checker_config();
    cfg.workers.count = 0;
    assert!(error_of(&cfg).contains("workers.count"));
}

#[test]
fn equal_marks_are_refused() {
    let mut cfg = checker_config();
    cfg.isolation.mode = "fwmark".to_string();
    cfg.isolation.desync_mark = cfg.isolation.mark_base.clone();
    assert_eq!(error_of(&cfg), "isolation.mark_base must differ from isolation.desync_mark");
    cfg.isolation.desync_mark = "0x40000000".to_string();
    assert_eq!(error_of(&cfg), "isolation.use_nft_vmap must be true when isolation.mode=fwmark");
    cfg.isolation.use_nft_vmap = true;
    assert!(cfg.validate(&ports(&cfg)).is_ok());
    cfg.isolation.desync_mark = "0x20000004".to_string();
    assert_eq!(error_of(&cfg), "worker fwmark range overlaps isolation.desync_mark");
    cfg.firewall.backend = "iptables".to_string();
    assert_eq!(error_of(&cfg), "isolation.mode=fwmark requires firewall.backend=nftables");
}

#[test]
fn a_server_address_without_a_port_is_refused() {
    let cfg = checker_config();
    assert!(cfg.validate(&vec![Some(443), None, Some(443)]).is_err());
}

#[test]
fn every_worker_needs_a_queue_of_its_own() {
    let mut cfg = checker_config();
    cfg.isolation.queue_base = 65_535;
    cfg.workers.count = 1;
    cfg.validate(&ports(&cfg)).unwrap();
    for count in [2, 65_536, u32::MAX as usize, usize::MAX] {
        cfg.workers.count = count;
        assert_eq!(
            error_of(&cfg),
            "isolation.queue_base (65535) + workers.count - 1 overflows u16 qnum space"
        );
    }
    cfg.workers.count = (u32::MAX as usize).wrapping_add(2);
    if cfg.workers.count > 1 {
        assert!(error_of(&cfg).contains("overflows u16 qnum space"));
    }
}

#[test]
fn values_of_an_unknown_protocol_are_none() {
    let mut values = StrategyValuesConfig::default();
    values.tls = TextMap::new().insert("pos".to_string(), words(&["1", "2"])).insert("blob".to_string(), words(&[]));
    for key in ["tls", "tls12", "tls13"] {
        let map = values.values_for_protocol_key(key);
        assert_eq!(map.keys(), ["blob", "pos"]);
        assert_eq!(map.get("pos").unwrap(), &words(&["1", "2"]));
    }
    assert_eq!(values.values_for_protocol_key("http").len(), 0);
    assert_eq!(values.values_for_protocol_key("ftp").len(), 0);
    assert!(values.values_for_param("ftp", "pos").is_none());
}
