use vstd::prelude::*;
use crate::config::AppConfig;
use crate::fault::{
    done, first_fault, first_fault_at, first_fault_none, plain, seen, unless, Fault,
};
use crate::firewall::{
    hook_named, parse_hook, IptablesFirewallManager, NftablesFirewallManager,
    NftablesVmapFirewallManager,
};
use crate::graph::{no_strategy_limit, GraphLoadOptions};
use crate::isolation::{mark_value, IsolationMode};
use crate::path::{join_path, parent, parent_of, path_under};
use crate::payload_registry::PayloadAliases;
use crate::text::{cat2, cat3, cat4, contains, copy_texts, has_text, opt_text, str_eq, texts};
use crate::types::{
    parse_target_request, target_named, FailureKind, HostIp, HttpMethod, HttpRequestSpec,
    ProbeErrorClass, ProbeProtocol, ProbeResult, ProbeTask, ProbeTimeouts, ReadMode,
    StrategyProbeTarget, TargetModel, TargetRequest,
};
use crate::worker::WorkerAssignment;

verus! {

// ---------------------------------------------------------------------------
// The protocol

/// The protocol that a key names.
pub open spec fn protocol_named(s: Seq<char>) -> Result<ProbeProtocol, Seq<char>> {
    if s == "http"@ {
        Ok(ProbeProtocol::HttpPlain)
    } else if s == "tls12"@ {
        Ok(ProbeProtocol::Tls12Http11)
    } else if s == "tls13"@ {
        Ok(ProbeProtocol::Tls13Http11)
    } else if s == "quic"@ {
        Ok(ProbeProtocol::QuicHttp3Future)
    } else {
        Err("unsupported probe protocol: "@ + s)
    }
}

/// The protocol that a key names.
pub fn parse_probe_protocol(s: &str) -> (r: Result<ProbeProtocol, Fault>)
    ensures
        plain(r) == protocol_named(s@),
{
    if str_eq(s, "http") {
        Ok(ProbeProtocol::HttpPlain)
    } else if str_eq(s, "tls12") {
        Ok(ProbeProtocol::Tls12Http11)
    } else if str_eq(s, "tls13") {
        Ok(ProbeProtocol::Tls13Http11)
    } else if str_eq(s, "quic") {
        Ok(ProbeProtocol::QuicHttp3Future)
    } else {
        Err(Fault { text: cat2("unsupported probe protocol: ", s) })
    }
}

/// A key names the protocol that is listed under it.
pub proof fn protocol_keys_agree(p: ProbeProtocol)
    ensures
        protocol_named(p.key()) == Ok::<ProbeProtocol, Seq<char>>(p),
{
    reveal_strlit("http");
    reveal_strlit("tls12");
    reveal_strlit("tls13");
    reveal_strlit("quic");
    assert("http"@[0] == 'h');
    assert("tls12"@[4] == '2');
    assert("tls13"@[4] == '3');
    assert("quic"@[0] == 'q');
}

/// Probes by the protocol are switched on.
pub open spec fn has_protocol(cfg: AppConfig, p: ProbeProtocol) -> bool {
    match p {
        ProbeProtocol::HttpPlain => cfg.probe.protocols.http,
        ProbeProtocol::Tls12Http11 => cfg.probe.protocols.tls12,
        ProbeProtocol::Tls13Http11 => cfg.probe.protocols.tls13,
        ProbeProtocol::QuicHttp3Future => cfg.probe.protocols.quic,
    }
}

/// Whether probes by the protocol are switched on.
pub fn protocol_enabled(cfg: &AppConfig, p: ProbeProtocol) -> (r: bool)
    ensures
        r == has_protocol(*cfg, p),
{
    match p {
        ProbeProtocol::HttpPlain => cfg.probe.protocols.http,
        ProbeProtocol::Tls12Http11 => cfg.probe.protocols.tls12,
        ProbeProtocol::Tls13Http11 => cfg.probe.protocols.tls13,
        ProbeProtocol::QuicHttp3Future => cfg.probe.protocols.quic,
    }
}

/// The protocol of a check: the one that was asked for, or else the preferred one. It must
/// be switched on.
pub open spec fn protocol_selected(cfg: AppConfig, asked: Option<Seq<char>>) -> Result<
    ProbeProtocol,
    Seq<char>,
> {
    let key = match asked {
        Some(k) => k,
        None => cfg.probe.protocols.preferred@,
    };
    match protocol_named(key) {
        Err(e) => Err(e),
        Ok(p) => if has_protocol(cfg, p) {
            Ok(p)
        } else {
            Err(disabled_text(p))
        },
    }
}

/// What is said of a protocol that is switched off.
pub open spec fn disabled_text(p: ProbeProtocol) -> Seq<char> {
    "selected protocol "@ + p.label() + " is disabled in config"@
}

/// What is said of a protocol that is switched off.
pub fn protocol_disabled(p: ProbeProtocol) -> (r: Fault)
    ensures
        r@ == disabled_text(p),
{
    Fault { text: cat3("selected protocol ", p.name(), " is disabled in config") }
}

/// The protocol of a check.
pub fn selected_protocol(cfg: &AppConfig, cli: Option<String>) -> (r: Result<ProbeProtocol, Fault>)
    ensures
        plain(r) == protocol_selected(*cfg, opt_text(cli)),
{
    let asked = match &cli {
        Some(k) => parse_probe_protocol(k.as_str()),
        None => parse_probe_protocol(cfg.probe.protocols.preferred.as_str()),
    };
    match asked {
        Err(e) => Err(e),
        Ok(p) => if protocol_enabled(cfg, p) {
            Ok(p)
        } else {
            Err(protocol_disabled(p))
        },
    }
}

// ---------------------------------------------------------------------------
// The request

/// The request of a check, as far as it does not depend on the target: what was asked for
/// goes before what is configured.
pub open spec fn request_choice(
    cfg: AppConfig,
    method: Option<HttpMethod>,
    read_mode: Option<ReadMode>,
    min_body_bytes: Option<usize>,
    max_read_bytes: Option<usize>,
) -> Result<(HttpMethod, ReadMode, usize, usize), Seq<char>> {
    let least = match min_body_bytes {
        Some(n) => n,
        None => cfg.probe.min_body_bytes,
    };
    let most = match max_read_bytes {
        Some(n) => n,
        None => cfg.probe.max_read_bytes,
    };
    match (HttpMethod::configured(cfg.probe.method@), ReadMode::configured(cfg.probe.read_mode@)) {
        (Err(e), _) => Err(e),
        (_, Err(e)) => Err(e),
        (Ok(m), Ok(r)) => if least > most {
            Err("--min-body-bytes must be less than or equal to --max-read-bytes"@)
        } else {
            Ok(
                (
                    match method {
                        Some(x) => x,
                        None => m,
                    },
                    match read_mode {
                        Some(x) => x,
                        None => r,
                    },
                    least,
                    most,
                ),
            )
        },
    }
}

/// `req` is the request for the root by the choice of a method, of how much is read, and of the
/// least and the most bytes.
pub open spec fn is_request_by(
    req: HttpRequestSpec,
    cfg: AppConfig,
    choice: (HttpMethod, ReadMode, usize, usize),
) -> bool {
    &&& req.path_and_query@ == "/"@
    &&& req == (HttpRequestSpec {
        method: choice.0,
        path_and_query: req.path_and_query,
        user_agent: cfg.probe.user_agent,
        read_mode: choice.1,
        min_body_bytes: choice.2,
        dpi_detection_bytes: cfg.probe.dpi_detection_bytes,
        verify_transfer_bytes: cfg.probe.verify_transfer_bytes,
        max_read_bytes: choice.3,
    })
}

/// The request of a check for the root of a target.
pub fn request_from_config(
    cfg: &AppConfig,
    method: Option<HttpMethod>,
    read_mode: Option<ReadMode>,
    min_body_bytes: Option<usize>,
    max_read_bytes: Option<usize>,
) -> (r: Result<HttpRequestSpec, Fault>)
    ensures
        match request_choice(*cfg, method, read_mode, min_body_bytes, max_read_bytes) {
            Err(e) => r matches Err(f) && f@ == e,
            Ok(choice) => r matches Ok(req) && is_request_by(req, *cfg, choice),
        },
{
    let configured_method = match HttpMethod::parse_config(cfg.probe.method.as_str()) {
        Ok(m) => m,
        Err(e) => {
            return Err(e);
        },
    };
    let configured_mode = match ReadMode::parse_config(cfg.probe.read_mode.as_str()) {
        Ok(m) => m,
        Err(e) => {
            return Err(e);
        },
    };
    let least: usize = match min_body_bytes {
        Some(n) => n,
        None => cfg.probe.min_body_bytes,
    };
    let most: usize = match max_read_bytes {
        Some(n) => n,
        None => cfg.probe.max_read_bytes,
    };
    if least > most {
        return Err(
            Fault::new("--min-body-bytes must be less than or equal to --max-read-bytes"),
        );
    }
    Ok(
        HttpRequestSpec {
            method: match method {
                Some(m) => m,
                None => configured_method,
            },
            path_and_query: "/".to_owned(),
            user_agent: cfg.probe.user_agent.clone(),
            read_mode: match read_mode {
                Some(m) => m,
                None => configured_mode,
            },
            min_body_bytes: least,
            dpi_detection_bytes: cfg.probe.dpi_detection_bytes,
            verify_transfer_bytes: cfg.probe.verify_transfer_bytes,
            max_read_bytes: most,
        },
    )
}

/// The timeouts of a configuration.
pub open spec fn timeouts_of(cfg: AppConfig) -> ProbeTimeouts {
    ProbeTimeouts {
        connect_ms: cfg.probe.connect_timeout_ms,
        tls_ms: cfg.probe.tls_timeout_ms,
        first_byte_ms: cfg.probe.first_byte_timeout_ms,
        total_ms: cfg.probe.total_timeout_ms,
    }
}

/// The timeouts that are configured.
pub fn configured_timeouts(cfg: &AppConfig) -> (r: ProbeTimeouts)
    ensures
        r == timeouts_of(*cfg),
{
    ProbeTimeouts {
        connect_ms: cfg.probe.connect_timeout_ms,
        tls_ms: cfg.probe.tls_timeout_ms,
        first_byte_ms: cfg.probe.first_byte_timeout_ms,
        total_ms: cfg.probe.total_timeout_ms,
    }
}

/// `r` is the task of a probe without a strategy.
pub open spec fn is_plain_task(
    r: ProbeTask,
    name: Seq<char>,
    host: String,
    ip: HostIp,
    port: u16,
    protocol: ProbeProtocol,
    request: HttpRequestSpec,
    timeouts: ProbeTimeouts,
) -> bool {
    &&& r.strategy_id@ == name
    &&& r.strategy_args@.len() == 0
    &&& r == (ProbeTask {
        strategy_id: r.strategy_id,
        worker_id: 0,
        strategy_args: r.strategy_args,
        target_host: host,
        target_ip: ip,
        target_port: port,
        protocol,
        path: request.path_and_query,
        request,
        timeouts,
    })
}

/// The task of a probe without a strategy, under the given name.
pub fn plain_task(
    name: &str,
    host: String,
    ip: HostIp,
    port: u16,
    protocol: ProbeProtocol,
    request: HttpRequestSpec,
    timeouts: ProbeTimeouts,
) -> (r: ProbeTask)
    ensures
        is_plain_task(r, name@, host, ip, port, protocol, request, timeouts),
{
    ProbeTask {
        strategy_id: name.to_owned(),
        worker_id: 0,
        strategy_args: Vec::new(),
        target_host: host,
        target_ip: ip,
        target_port: port,
        protocol,
        path: request.path_and_query.clone(),
        request,
        timeouts,
    }
}

// ---------------------------------------------------------------------------
// The targets

/// The target that a configured domain names: a URL where it has a scheme, else a host.
pub open spec fn domain_target(domain: Seq<char>, selected: ProbeProtocol, explicit: bool) -> Result<
    TargetModel,
    Seq<char>,
> {
    if has_text(domain, "://"@) {
        target_named(None, Some(domain), selected, explicit)
    } else {
        target_named(Some(domain), None, selected, explicit)
    }
}

/// The target that a configured domain names.
pub fn parse_probe_domain_target(domain: &str, selected: ProbeProtocol, explicit: bool) -> (r:
    Result<TargetRequest, Fault>)
    ensures
        seen(r) == domain_target(domain@, selected, explicit),
{
    if contains(domain, "://") {
        parse_target_request(None, Some(domain.to_owned()), selected, explicit)
    } else {
        parse_target_request(Some(domain.to_owned()), None, selected, explicit)
    }
}

/// The target of a check: the one that was given, or else the first configured domain.
pub open spec fn primary_target(
    cfg: AppConfig,
    host: Option<Seq<char>>,
    url: Option<Seq<char>>,
    selected: ProbeProtocol,
    explicit: bool,
) -> Result<TargetModel, Seq<char>> {
    if host is None && url is None {
        if cfg.probe.base_domains@.len() == 0 {
            Err("specify --host/--url or configure probe.base_domains"@)
        } else {
            domain_target(cfg.probe.base_domains@[0]@, selected, explicit)
        }
    } else {
        target_named(host, url, selected, explicit)
    }
}

/// The target of a check.
pub fn primary_target_request(
    cfg: &AppConfig,
    host: Option<String>,
    url: Option<String>,
    selected: ProbeProtocol,
    explicit: bool,
) -> (r: Result<TargetRequest, Fault>)
    ensures
        seen(r) == primary_target(*cfg, opt_text(host), opt_text(url), selected, explicit),
{
    match (&host, &url) {
        (None, None) => {
            if cfg.probe.base_domains.len() == 0 {
                return Err(Fault::new("specify --host/--url or configure probe.base_domains"));
            }
            parse_probe_domain_target(cfg.probe.base_domains[0].as_str(), selected, explicit)
        },
        _ => parse_target_request(host, url, selected, explicit),
    }
}

/// What is wrong where no domains are configured.
pub open spec fn domains_fault(cfg: AppConfig) -> Option<Seq<char>> {
    if cfg.probe.base_domains@.len() == 0 {
        Some("probe.base_domains must not be empty when --host/--url is omitted"@)
    } else {
        None
    }
}

/// Checks that there are domains to take the targets from.
pub fn check_base_domains(cfg: &AppConfig) -> (r: Result<(), Fault>)
    ensures
        done(r) == unless(domains_fault(*cfg)),
{
    if cfg.probe.base_domains.len() == 0 {
        Err(Fault::new("probe.base_domains must not be empty when --host/--url is omitted"))
    } else {
        Ok(())
    }
}

/// How often a strategy is tested: as often as was asked for, or else as is configured.
pub open spec fn tests_wanted(cfg: AppConfig, asked: Option<usize>) -> Result<usize, Seq<char>> {
    match asked {
        Some(n) => count_or_fault(n),
        None => count_or_fault(cfg.probe.test_count),
    }
}

/// How often every target is tested: as often as was asked for, or else as configured, and
/// at least once.
pub fn effective_test_count(cfg: &AppConfig, asked: Option<usize>) -> (r: Result<usize, Fault>)
    ensures
        plain(r) == tests_wanted(*cfg, asked),
{
    let count: usize = match asked {
        Some(n) => n,
        None => cfg.probe.test_count,
    };
    if count == 0 {
        Err(Fault::new("--test-count must be greater than zero"))
    } else {
        Ok(count)
    }
}

/// A number of tests, which must not be zero.
pub open spec fn count_or_fault(n: usize) -> Result<usize, Seq<char>> {
    if n == 0 {
        Err("--test-count must be greater than zero"@)
    } else {
        Ok(n)
    }
}

/// What makes the probes of a check.
#[derive(Debug, Clone, Copy, PartialEq, Eq, Structural)]
pub enum Backend {
    /// The probe of this program.
    Native,
    /// Another program.
    Curl,
}

/// What makes the probes: another program only where the configuration lets it.
pub open spec fn backend_named(name: Seq<char>, curl_allowed: bool) -> Result<Backend, Seq<char>> {
    if name == "curl"@ {
        if curl_allowed {
            Ok(Backend::Curl)
        } else {
            Err("--backend curl requires debug.enable_curl_fallback = true in config"@)
        }
    } else if name == "native"@ {
        Ok(Backend::Native)
    } else {
        Err("unsupported backend: "@ + name)
    }
}

/// What makes the probes: the backend that was asked for, or else the configured one.
pub fn choose_backend(cfg: &AppConfig, asked: Option<String>) -> (r: Result<Backend, Fault>)
    ensures
        plain(r) == backend_named(
            match asked {
                Some(name) => name@,
                None => cfg.probe.backend@,
            },
            cfg.debug.enable_curl_fallback,
        ),
{
    let name = match &asked {
        Some(name) => name.as_str(),
        None => cfg.probe.backend.as_str(),
    };
    if str_eq(name, "curl") {
        if cfg.debug.enable_curl_fallback {
            Ok(Backend::Curl)
        } else {
            Err(Fault::new("--backend curl requires debug.enable_curl_fallback = true in config"))
        }
    } else if str_eq(name, "native") {
        Ok(Backend::Native)
    } else {
        Err(Fault { text: cat2("unsupported backend: ", name) })
    }
}

/// What is wrong with a configured domain whose protocol is switched off.
pub open spec fn domain_protocol_fault(cfg: AppConfig, parsed: TargetModel) -> Option<Seq<char>> {
    if has_protocol(cfg, parsed.protocol) {
        None
    } else {
        Some(
            "base domain protocol "@ + parsed.protocol.label() + " is disabled in config for "@
                + parsed.original,
        )
    }
}

/// Checks that the protocol of a configured domain is switched on.
pub fn check_domain_protocol(cfg: &AppConfig, parsed: &TargetRequest) -> (r: Result<(), Fault>)
    ensures
        done(r) == unless(domain_protocol_fault(*cfg, parsed@)),
{
    if protocol_enabled(cfg, parsed.protocol) {
        Ok(())
    } else {
        Err(
            Fault {
                text: cat4(
                    "base domain protocol ",
                    parsed.protocol.name(),
                    " is disabled in config for ",
                    parsed.original.as_str(),
                ),
            },
        )
    }
}

/// The target of strategies that a parsed target is: the common request for its own path.
pub open spec fn strategy_target(
    parsed: TargetRequest,
    ip: HostIp,
    request: HttpRequestSpec,
) -> StrategyProbeTarget {
    StrategyProbeTarget {
        original: parsed.original,
        host: parsed.host,
        ip,
        port: parsed.port,
        protocol: parsed.protocol,
        request: HttpRequestSpec { path_and_query: parsed.path_and_query, ..request },
    }
}

fn make_strategy_target(parsed: &TargetRequest, ip: &HostIp, request: &HttpRequestSpec) -> (r:
    StrategyProbeTarget)
    ensures
        r == strategy_target(*parsed, *ip, *request),
{
    let mut own = request.clone();
    own.path_and_query = parsed.path_and_query.clone();
    StrategyProbeTarget {
        original: parsed.original.clone(),
        host: parsed.host.clone(),
        ip: ip.clone(),
        port: parsed.port,
        protocol: parsed.protocol,
        request: own,
    }
}

/// Adds a target as often as it is to be tested.
pub fn append_repeated_strategy_target(
    targets: &mut Vec<StrategyProbeTarget>,
    parsed: &TargetRequest,
    ip: &HostIp,
    request: &HttpRequestSpec,
    test_count: usize,
)
    ensures
        final(targets)@ == old(targets)@ + Seq::new(
            test_count as nat,
            |i: int| strategy_target(*parsed, *ip, *request),
        ),
{
    let ghost start = targets@;
    let ghost want = Seq::new(test_count as nat, |i: int| strategy_target(*parsed, *ip, *request));
    let mut i: usize = 0;
    while i < test_count
        invariant
            i <= test_count,
            want == Seq::new(
                test_count as nat,
                |i: int| strategy_target(*parsed, *ip, *request),
            ),
            targets@ =~= start + want.take(i as int),
        decreases test_count - i,
    {
        targets.push(make_strategy_target(parsed, ip, request));
        assert(start + want.take(i + 1) =~= (start + want.take(i as int)).push(want[i as int]));
        i = i + 1;
    }
    assert(want.take(test_count as int) =~= want);
}

/// The target could not be connected to.
pub open spec fn out_of_reach(kind: Option<FailureKind>, class: Option<ProbeErrorClass>) -> bool {
    kind == Some(FailureKind::TargetFailure) && (class == Some(ProbeErrorClass::ConnectTimeout)
        || class == Some(ProbeErrorClass::ConnectFailed))
}

/// Strategies are not tried where the probe without one failed for reasons of its own, was
/// cancelled, or did not reach the target.
pub open spec fn baseline_ends_check(
    kind: Option<FailureKind>,
    class: Option<ProbeErrorClass>,
) -> bool {
    kind == Some(FailureKind::InfrastructureFailure) || kind == Some(FailureKind::Cancelled)
        || out_of_reach(kind, class)
}

/// Whether strategies are not tried after the probe without one.
pub fn should_skip_strategies_after_baseline(result: &ProbeResult) -> (r: bool)
    ensures
        r == baseline_ends_check(result.failure_kind, result.error_class),
{
    match result.failure_kind {
        Some(FailureKind::InfrastructureFailure) => true,
        Some(FailureKind::Cancelled) => true,
        Some(FailureKind::TargetFailure) => match result.error_class {
            Some(ProbeErrorClass::ConnectTimeout) => true,
            Some(ProbeErrorClass::ConnectFailed) => true,
            _ => false,
        },
        _ => false,
    }
}

// ---------------------------------------------------------------------------
// The strategies

/// `r` says what strategies are loaded for a probe by the given protocol.
pub open spec fn loads_for<'a>(
    r: GraphLoadOptions<'a>,
    cfg: AppConfig,
    protocol: ProbeProtocol,
    aliases: PayloadAliases,
) -> bool {
    &&& r.protocol_key@ == protocol.key()
    &&& r.search_mode@ == cfg.strategies.search_mode@
    &&& r.max_candidates == cfg.strategies.max_candidates
    &&& r.max_per_family == usize::MAX
    &&& r.max_per_action == usize::MAX
    &&& r.round_robin_families == cfg.strategies.round_robin_families
    &&& r.payload_aliases == Some(&aliases)
    &&& r.strategy_values == Some(&cfg.strategy_values)
    &&& r.strategy_combinations == Some(&cfg.strategy_combinations)
}

/// What strategies are loaded for a probe by the given protocol, and how many: no more than are
/// configured, with no limit for a single family or action.
pub fn catalog_options<'a>(
    cfg: &'a AppConfig,
    protocol: ProbeProtocol,
    aliases: &'a PayloadAliases,
) -> (r: GraphLoadOptions<'a>)
    ensures
        loads_for(r, *cfg, protocol, *aliases),
{
    GraphLoadOptions {
        protocol_key: protocol.catalog_key(),
        search_mode: cfg.strategies.search_mode.as_str(),
        max_candidates: cfg.strategies.max_candidates,
        max_per_family: no_strategy_limit(),
        max_per_action: no_strategy_limit(),
        round_robin_families: cfg.strategies.round_robin_families,
        payload_aliases: Some(aliases),
        strategy_values: Some(&cfg.strategy_values),
        strategy_combinations: Some(&cfg.strategy_combinations),
    }
}

// ---------------------------------------------------------------------------
// The packet filter

/// What was found at the path of the packet filter.
#[derive(Debug)]
pub enum BinaryState {
    /// Nothing that could be looked at.
    NotFound(String),
    /// Something that is no file.
    NotFile,
    /// A file that cannot be run.
    NotExecutable,
    /// A program.
    Program,
}

/// What is wrong with the packet filter.
pub open spec fn binary_fault(path: Seq<char>, state: BinaryState) -> Option<Seq<char>> {
    match state {
        BinaryState::NotFound(e) => Some("nfqws2 binary not found at "@ + path + ": "@ + e@),
        BinaryState::NotFile => Some("nfqws2 binary path is not a file: "@ + path),
        BinaryState::NotExecutable => Some("nfqws2 binary is not executable: "@ + path),
        BinaryState::Program => None,
    }
}

/// Checks what was found at the path of the packet filter.
pub fn validate_nfqws_binary(path: &str, state: &BinaryState) -> (r: Result<(), Fault>)
    ensures
        done(r) == unless(binary_fault(path@, *state)),
{
    match state {
        BinaryState::NotFound(e) => Err(
            Fault { text: cat4("nfqws2 binary not found at ", path, ": ", e.as_str()) },
        ),
        BinaryState::NotFile => Err(
            Fault { text: cat2("nfqws2 binary path is not a file: ", path) },
        ),
        BinaryState::NotExecutable => Err(
            Fault { text: cat2("nfqws2 binary is not executable: ", path) },
        ),
        BinaryState::Program => Ok(()),
    }
}

/// Where the libraries of the packet filter lie: where it was asked for, else where it is
/// configured, else beside the program.
pub open spec fn library_dirs(
    configured: Seq<Seq<char>>,
    binary: Seq<char>,
    asked: Seq<Seq<char>>,
) -> Seq<Seq<char>> {
    if asked.len() > 0 {
        asked
    } else if configured.len() > 0 {
        configured
    } else {
        match parent_of(binary) {
            Some(dir) => seq![dir],
            None => Seq::empty(),
        }
    }
}

/// Where the libraries of the packet filter lie.
pub fn nfqws_library_paths(cfg: &AppConfig, nfqws_binary: &str, cli_paths: Vec<String>) -> (r: Vec<
    String,
>)
    ensures
        texts(r@) == library_dirs(
            texts(cfg.nfqws.library_paths@),
            nfqws_binary@,
            texts(cli_paths@),
        ),
{
    assert(texts(cli_paths@).len() == cli_paths@.len());
    assert(texts(cfg.nfqws.library_paths@).len() == cfg.nfqws.library_paths@.len());
    if cli_paths.len() > 0 {
        return cli_paths;
    }
    if cfg.nfqws.library_paths.len() > 0 {
        return copy_texts(&cfg.nfqws.library_paths);
    }
    let mut out: Vec<String> = Vec::new();
    assert(texts(out@) =~= Seq::empty());
    if let Some(dir) = parent(nfqws_binary) {
        out.push(dir);
        assert(texts(out@) =~= seq![dir@]);
    }
    out
}

/// What was found at a path of libraries.
#[derive(Debug)]
pub enum LibraryState {
    /// Nothing that could be looked at.
    NotFound(String),
    /// Something that is no directory.
    NotDirectory,
    /// A directory.
    Directory,
}

/// What is wrong with a path of libraries.
pub open spec fn library_fault(path: Seq<char>, state: LibraryState) -> Option<Seq<char>> {
    match state {
        LibraryState::NotFound(e) => Some("nfqws2 library path not found at "@ + path + ": "@ + e@),
        LibraryState::NotDirectory => Some("nfqws2 library path is not a directory: "@ + path),
        LibraryState::Directory => None,
    }
}

/// What is wrong with the first path of libraries that has a fault.
pub open spec fn libraries_fault(paths: Seq<Seq<char>>, states: Seq<LibraryState>) -> Option<
    Seq<char>,
> {
    first_fault(Seq::new(paths.len(), |i: int| library_fault(paths[i], states[i])))
}

/// Checks what was found at the paths of libraries.
pub fn validate_nfqws_library_paths(paths: &Vec<String>, states: &Vec<LibraryState>) -> (r: Result<
    (),
    Fault,
>)
    requires
        paths@.len() == states@.len(),
    ensures
        done(r) == unless(libraries_fault(texts(paths@), states@)),
{
    let ghost names = texts(paths@);
    let ghost faults = Seq::new(names.len(), |i: int| library_fault(names[i], states@[i]));
    let mut i: usize = 0;
    while i < paths.len()
        invariant
            i <= paths@.len(),
            paths@.len() == states@.len(),
            names == texts(paths@),
            faults == Seq::new(names.len(), |i: int| library_fault(names[i], states@[i])),
            forall|j: int| 0 <= j < i ==> #[trigger] faults[j] is None,
        decreases paths@.len() - i,
    {
        let path = paths[i].as_str();
        match &states[i] {
            LibraryState::NotFound(e) => {
                proof {
                    first_fault_at(faults, i as int);
                }
                return Err(
                    Fault {
                        text: cat4("nfqws2 library path not found at ", path, ": ", e.as_str()),
                    },
                );
            },
            LibraryState::NotDirectory => {
                proof {
                    first_fault_at(faults, i as int);
                }
                return Err(Fault { text: cat2("nfqws2 library path is not a directory: ", path) });
            },
            LibraryState::Directory => {},
        }
        i = i + 1;
    }
    proof {
        first_fault_none(faults);
    }
    Ok(())
}

/// The file of the strategies: that of the directory that was asked for, or else the configured
/// one.
pub open spec fn strategies_path(cfg: AppConfig, dir: Option<Seq<char>>) -> Seq<char> {
    match dir {
        Some(d) => path_under(d, "strategies.yaml"@),
        None => cfg.strategies.file@,
    }
}

/// The file of the strategies: in the directory that was asked for, or where it is
/// configured.
pub fn strategies_file(cfg: &AppConfig, strategies_dir: Option<String>) -> (r: String)
    ensures
        r@ == strategies_path(*cfg, opt_text(strategies_dir)),
{
    match strategies_dir {
        Some(dir) => join_path(dir.as_str(), "strategies.yaml"),
        None => cfg.strategies.file.clone(),
    }
}

// ---------------------------------------------------------------------------
// The firewall

/// The firewall that a configuration asks for.
#[derive(Debug)]
pub enum FirewallChoice {
    Vmap(NftablesVmapFirewallManager),
    Iptables(IptablesFirewallManager),
    Nftables(NftablesFirewallManager),
}

/// Packets are led into queues by marks.
pub open spec fn by_marks(cfg: AppConfig) -> bool {
    IsolationMode::configured(cfg.isolation.mode@) == Ok::<IsolationMode, Seq<char>>(
        IsolationMode::Fwmark,
    ) && cfg.isolation.use_nft_vmap
}

/// `r` is the firewall that a configuration asks for.
pub open spec fn is_firewall_for(
    r: FirewallChoice,
    cfg: AppConfig,
    assignments: Vec<WorkerAssignment>,
) -> bool {
    if by_marks(cfg) {
        r matches FirewallChoice::Vmap(m) && m == (NftablesVmapFirewallManager {
            table: cfg.firewall.table,
            hook: hook_named(cfg.firewall.hook@),
            priority: cfg.firewall.priority,
            cleanup_on_start: cfg.firewall.cleanup_on_start,
            desync_mark: mark_value(cfg.isolation.desync_mark@)->Ok_0,
            assignments,
        })
    } else if cfg.firewall.backend@ == "iptables"@ {
        r is Iptables
    } else {
        r matches FirewallChoice::Nftables(m) && m == (NftablesFirewallManager {
            table: cfg.firewall.table,
            hook: hook_named(cfg.firewall.hook@),
            priority: cfg.firewall.priority,
            cleanup_on_start: cfg.firewall.cleanup_on_start,
        })
    }
}

/// Chooses the firewall that a configuration asks for.
pub fn build_firewall(cfg: &AppConfig, assignments: Vec<WorkerAssignment>) -> (r: FirewallChoice)
    requires
        by_marks(*cfg) ==> mark_value(cfg.isolation.desync_mark@) is Ok,
    ensures
        is_firewall_for(r, *cfg, assignments),
{
    let hook = parse_hook(cfg.firewall.hook.as_str());
    if let Ok(IsolationMode::Fwmark) = cfg.isolation.mode() {
        if cfg.isolation.use_nft_vmap {
            if let Ok(desync_mark) = cfg.isolation.desync_mark_value() {
                return FirewallChoice::Vmap(
                    NftablesVmapFirewallManager {
                        table: cfg.firewall.table.clone(),
                        hook,
                        priority: cfg.firewall.priority.clone(),
                        cleanup_on_start: cfg.firewall.cleanup_on_start,
                        desync_mark,
                        assignments,
                    },
                );
            }
        }
    }
    if str_eq(cfg.firewall.backend.as_str(), "iptables") {
        FirewallChoice::Iptables(IptablesFirewallManager)
    } else {
        FirewallChoice::Nftables(
            NftablesFirewallManager {
                table: cfg.firewall.table.clone(),
                hook,
                priority: cfg.firewall.priority.clone(),
                cleanup_on_start: cfg.firewall.cleanup_on_start,
            },
        )
    }
}

} // verus!
