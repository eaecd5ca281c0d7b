use vstd::prelude::*;
use crate::fault::{
    done, fail_if, fault_if, first_fault, first_fault_at, first_fault_none, plain, quote, quoted,
    sooner, unless, Fault,
};
use crate::isolation::{fwmark_of, mark_value, parse_hex_mark, worker_fwmark, IsolationMode};
use crate::map::{ascending, keys_of, value_at, with_entry, TextMap};
use crate::number::{dec, decimal, decimal_sum};
use crate::order::{before, before_irreflexive, listed};
use crate::path::{file_stem, file_stem_of};
use crate::text::{
    alnum, cat2, cat3, cat5, chars_of, contains_char, copy_texts, is_alnum, opt_text, str_eq,
    take_next, texts,
};
use crate::types::{HostIp, HttpMethod, ReadMode};

verus! {

// ---------------------------------------------------------------------------
// The configuration

/// The whole configuration of a checker.
#[derive(Debug)]
pub struct AppConfig {
    pub workers: WorkersConfig,
    pub source_port: SourcePortConfig,
    pub probe: ProbeConfig,
    pub nfqws: NfqwsConfig,
    pub firewall: FirewallConfig,
    pub debug: DebugConfig,
    pub isolation: IsolationConfig,
    pub strategies: StrategiesConfig,
    pub bayes: BayesConfig,
    pub blobs: BlobConfig,
    pub payloads: PayloadConfig,
    pub strategy_values: StrategyValuesConfig,
    pub strategy_combinations: StrategyCombinationConfig,
}

#[derive(Debug, Clone, Copy, PartialEq, Eq, Structural)]
pub struct WorkersConfig {
    pub count: usize,
    pub spawn_grace_ms: u64,
    pub task_channel_size: usize,
    pub result_channel_size: usize,
    pub shutdown_timeout_ms: u64,
}

/// How workers are kept apart.
#[derive(Debug)]
pub struct IsolationConfig {
    pub mode: String,
    pub queue_base: u16,
    pub mark_base: String,
    pub desync_mark: String,
    pub use_nft_vmap: bool,
}

#[derive(Debug)]
pub struct SourcePortConfig {
    pub mode: String,
    pub bind_ipv4: HostIp,
    pub bind_ipv6: HostIp,
}

#[derive(Debug)]
pub struct ProbeConfig {
    pub backend: String,
    pub connect_timeout_ms: u64,
    pub tls_timeout_ms: u64,
    pub first_byte_timeout_ms: u64,
    pub total_timeout_ms: u64,
    pub max_read_bytes: usize,
    pub user_agent: String,
    pub method: String,
    pub read_mode: String,
    pub min_body_bytes: usize,
    pub dpi_detection_bytes: usize,
    pub verify_transfer_bytes: usize,
    pub base_domains: Vec<String>,
    pub test_count: usize,
    pub protocols: ProtocolProbeConfig,
    pub dns: DnsConfig,
}

#[derive(Debug)]
pub struct DnsConfig {
    pub mode: String,
    pub doh_addr: String,
    pub doh_addrs: Vec<String>,
    pub doh_host: String,
    pub doh_path: String,
}

#[derive(Debug)]
pub struct ProtocolProbeConfig {
    pub http: bool,
    pub tls12: bool,
    pub tls13: bool,
    pub quic: bool,
    pub preferred: String,
}

#[derive(Debug)]
pub struct NfqwsConfig {
    pub binary: String,
    pub library_paths: Vec<String>,
    pub base_args: Vec<String>,
    pub start_grace_ms: u64,
    pub stop_timeout_ms: u64,
    pub log_stderr: bool,
    pub log_stdout: bool,
}

#[derive(Debug)]
pub struct FirewallConfig {
    pub backend: String,
    pub table: String,
    pub hook: String,
    pub priority: String,
    pub cleanup_on_start: bool,
    pub cleanup_on_exit: bool,
}

#[derive(Debug, Clone, Copy, PartialEq, Eq, Structural)]
pub struct DebugConfig {
    pub enable_curl_fallback: bool,
    pub keep_rules_on_failure: bool,
    pub verbose_nfqws: bool,
}

#[derive(Debug)]
pub struct BlobConfig {
    pub auto_load: bool,
    pub base_dir: Option<String>,
}

#[derive(Debug)]
pub struct PayloadConfig {
    pub max_per_protocol: usize,
    pub http: PayloadProtocolConfig,
    pub tls: PayloadProtocolConfig,
    pub quic: PayloadProtocolConfig,
}

#[derive(Debug)]
pub struct PayloadProtocolConfig {
    pub builtin: Vec<String>,
    pub files: Vec<String>,
    pub aliases: TextMap<String>,
}

#[derive(Debug)]
pub struct StrategyValuesConfig {
    pub mode: String,
    pub http: TextMap<Vec<String>>,
    pub tls: TextMap<Vec<String>>,
    pub quic: TextMap<Vec<String>>,
}

#[derive(Debug)]
pub struct StrategyCombinationConfig {
    pub enabled: bool,
    pub require_different_family: bool,
    pub allow_same_action: bool,
    pub mode: String,
    pub allowed: Vec<AllowedCombination>,
}

/// A pair of families that may stand together under the given protocols.
#[derive(Debug)]
pub struct AllowedCombination {
    pub protocols: Vec<String>,
    pub families: Vec<String>,
}

#[derive(Debug)]
pub struct StrategiesConfig {
    pub file: String,
    pub transition_matrix: Option<String>,
    pub successful_strategy_limit: usize,
    pub search_mode: String,
    pub round_robin_families: bool,
    pub max_candidates: usize,
}

#[derive(Debug)]
pub struct BayesConfig {
    pub state_file: String,
}

// ---------------------------------------------------------------------------
// What a configuration says where it is silent

pub const DEFAULT_SPAWN_GRACE_MS: u64 = 100;

pub const DEFAULT_TASK_CHANNEL_SIZE: usize = 1024;

pub const DEFAULT_RESULT_CHANNEL_SIZE: usize = 1024;

pub const DEFAULT_SHUTDOWN_TIMEOUT_MS: u64 = 3000;

pub const DEFAULT_QUEUE_BASE: u16 = 10;

pub const DEFAULT_MIN_BODY_BYTES: usize = 1;

pub const DEFAULT_DPI_DETECTION_BYTES: usize = 16384;

pub const DEFAULT_VERIFY_TRANSFER_BYTES: usize = 32768;

pub const DEFAULT_MAX_READ_BYTES: usize = 65536;

pub const DEFAULT_TEST_COUNT: usize = 1;

pub const DEFAULT_PAYLOADS_PER_PROTOCOL: usize = 8;

pub const DEFAULT_SUCCESSFUL_STRATEGIES: usize = 10;

/// The user agent of a probe unless one is configured.
pub fn default_user_agent() -> (r: String)
    ensures
        r@
            == "Mozilla/5.0 (Windows NT 10.0; Win64; x64; rv:150.0) Gecko/20100101 Firefox/150.0"@,
{
    "Mozilla/5.0 (Windows NT 10.0; Win64; x64; rv:150.0) Gecko/20100101 Firefox/150.0".to_owned()
}

/// The method of a probe unless one is configured.
pub fn default_http_method() -> (r: String)
    ensures
        r@ == "GET"@,
{
    "GET".to_owned()
}

/// How much a probe reads unless it is configured.
pub fn default_read_mode() -> (r: String)
    ensures
        r@ == "body"@,
{
    "body".to_owned()
}

impl Default for IsolationConfig {
    fn default() -> (r: IsolationConfig)
        ensures
            r.mode@ == "source_port"@,
            r.queue_base == DEFAULT_QUEUE_BASE,
            r.mark_base@ == "0x20000000"@,
            r.desync_mark@ == "0x40000000"@,
            !r.use_nft_vmap,
    {
        IsolationConfig {
            mode: "source_port".to_owned(),
            queue_base: DEFAULT_QUEUE_BASE,
            mark_base: "0x20000000".to_owned(),
            desync_mark: "0x40000000".to_owned(),
            use_nft_vmap: false,
        }
    }
}

impl Default for DnsConfig {
    fn default() -> (r: DnsConfig)
        ensures
            r.mode@ == "doh"@,
            r.doh_addr@ == "1.1.1.1:443"@,
            r.doh_addrs@.len() == 0,
            r.doh_host@ == "cloudflare-dns.com"@,
            r.doh_path@ == "/dns-query"@,
    {
        DnsConfig {
            mode: "doh".to_owned(),
            doh_addr: "1.1.1.1:443".to_owned(),
            doh_addrs: Vec::new(),
            doh_host: "cloudflare-dns.com".to_owned(),
            doh_path: "/dns-query".to_owned(),
        }
    }
}

impl Default for ProtocolProbeConfig {
    fn default() -> (r: ProtocolProbeConfig)
        ensures
            r.http,
            r.tls12,
            !r.tls13,
            !r.quic,
            r.preferred@ == "tls12"@,
    {
        ProtocolProbeConfig {
            http: true,
            tls12: true,
            tls13: false,
            quic: false,
            preferred: "tls12".to_owned(),
        }
    }
}

impl Default for BlobConfig {
    fn default() -> (r: BlobConfig)
        ensures
            !r.auto_load,
            r.base_dir is None,
    {
        BlobConfig { auto_load: false, base_dir: None }
    }
}

impl Default for PayloadProtocolConfig {
    fn default() -> (r: PayloadProtocolConfig)
        ensures
            r.builtin@.len() == 0,
            r.files@.len() == 0,
            r.aliases@.len() == 0,
    {
        PayloadProtocolConfig {
            builtin: Vec::new(),
            files: Vec::new(),
            aliases: TextMap::new(),
        }
    }
}

/// One builtin payload and no files.
pub fn builtin_only(alias: &str) -> (r: PayloadProtocolConfig)
    ensures
        texts(r.builtin@) == seq![alias@],
        r.files@.len() == 0,
        r.aliases@.len() == 0,
{
    let mut builtin: Vec<String> = Vec::new();
    builtin.push(alias.to_owned());
    assert(texts(builtin@) =~= seq![alias@]);
    PayloadProtocolConfig { builtin, files: Vec::new(), aliases: TextMap::new() }
}

impl Default for PayloadConfig {
    fn default() -> (r: PayloadConfig)
        ensures
            r.max_per_protocol == DEFAULT_PAYLOADS_PER_PROTOCOL,
            texts(r.http.builtin@) == seq!["fake_default_http"@],
            texts(r.tls.builtin@) == seq!["fake_default_tls"@],
            texts(r.quic.builtin@) == seq!["fake_default_quic"@],
            r.http.files@.len() == 0,
            r.tls.files@.len() == 0,
            r.quic.files@.len() == 0,
            r.http.aliases@.len() == 0,
            r.tls.aliases@.len() == 0,
            r.quic.aliases@.len() == 0,
    {
        PayloadConfig {
            max_per_protocol: DEFAULT_PAYLOADS_PER_PROTOCOL,
            http: builtin_only("fake_default_http"),
            tls: builtin_only("fake_default_tls"),
            quic: builtin_only("fake_default_quic"),
        }
    }
}

impl Default for StrategyValuesConfig {
    fn default() -> (r: StrategyValuesConfig)
        ensures
            r.mode@ == "extend"@,
            r.http@.len() == 0,
            r.tls@.len() == 0,
            r.quic@.len() == 0,
    {
        StrategyValuesConfig {
            mode: "extend".to_owned(),
            http: TextMap::new(),
            tls: TextMap::new(),
            quic: TextMap::new(),
        }
    }
}

impl Default for StrategyCombinationConfig {
    fn default() -> (r: StrategyCombinationConfig)
        ensures
            !r.enabled,
            r.require_different_family,
            !r.allow_same_action,
            r.mode@ == "pairwise"@,
            r.allowed@.len() == 0,
    {
        StrategyCombinationConfig {
            enabled: false,
            require_different_family: true,
            allow_same_action: false,
            mode: "pairwise".to_owned(),
            allowed: Vec::new(),
        }
    }
}

impl Default for StrategiesConfig {
    fn default() -> (r: StrategiesConfig)
        ensures
            r.file@ == "config/standart/strategies.yaml"@,
            r.transition_matrix is None,
            r.successful_strategy_limit == DEFAULT_SUCCESSFUL_STRATEGIES,
            r.search_mode@ == "signal"@,
            r.round_robin_families,
            r.max_candidates == usize::MAX,
    {
        StrategiesConfig {
            file: "config/standart/strategies.yaml".to_owned(),
            transition_matrix: None,
            successful_strategy_limit: DEFAULT_SUCCESSFUL_STRATEGIES,
            search_mode: "signal".to_owned(),
            round_robin_families: true,
            max_candidates: usize::MAX,
        }
    }
}

impl Default for BayesConfig {
    fn default() -> (r: BayesConfig)
        ensures
            r.state_file@ == "config/standart/bayesian_priors.yaml"@,
    {
        BayesConfig { state_file: "config/standart/bayesian_priors.yaml".to_owned() }
    }
}

// ---------------------------------------------------------------------------
// Reading single settings

impl IsolationConfig {
    /// The mode in which workers are kept apart.
    pub fn mode(&self) -> (r: Result<IsolationMode, Fault>)
        ensures
            plain(r) == IsolationMode::configured(self.mode@),
    {
        IsolationMode::parse(self.mode.as_str())
    }

    /// The mark in front of the workers' marks.
    pub fn mark_base_value(&self) -> (r: Result<u32, Fault>)
        ensures
            plain(r) == mark_value(self.mark_base@),
    {
        parse_hex_mark(self.mark_base.as_str())
    }

    /// The mark of changed packets.
    pub fn desync_mark_value(&self) -> (r: Result<u32, Fault>)
        ensures
            plain(r) == mark_value(self.desync_mark@),
    {
        parse_hex_mark(self.desync_mark.as_str())
    }
}

impl DnsConfig {
    /// The addresses of the DNS servers: the list, or where it is empty the single address.
    pub open spec fn server_addrs(self) -> Seq<Seq<char>> {
        if self.doh_addrs@.len() == 0 {
            seq![self.doh_addr@]
        } else {
            texts(self.doh_addrs@)
        }
    }

    /// The addresses of the DNS servers.
    pub fn effective_doh_addrs(&self) -> (r: Vec<&str>)
        ensures
            Seq::new(r@.len(), |i: int| r@[i]@) == self.server_addrs(),
    {
        let mut out: Vec<&str> = Vec::new();
        if self.doh_addrs.len() == 0 {
            out.push(self.doh_addr.as_str());
            assert(Seq::new(out@.len(), |i: int| out@[i]@) =~= self.server_addrs());
        } else {
            let mut i: usize = 0;
            while i < self.doh_addrs.len()
                invariant
                    i <= self.doh_addrs@.len(),
                    out@.len() == i,
                    forall|j: int| 0 <= j < i ==> (#[trigger] out@[j])@ == self.doh_addrs@[j]@,
                decreases self.doh_addrs@.len() - i,
            {
                out.push(self.doh_addrs[i].as_str());
                i = i + 1;
            }
            assert(Seq::new(out@.len(), |i: int| out@[i]@) =~= self.server_addrs());
        }
        out
    }
}

/// The group of settings that a protocol key belongs to.
#[derive(Debug, Clone, Copy, PartialEq, Eq, Structural)]
pub enum ProtocolGroup {
    Http,
    Tls,
    Quic,
}

/// The group of settings that a protocol key belongs to.
pub open spec fn group_of(protocol_key: Seq<char>) -> Option<ProtocolGroup> {
    if protocol_key == "http"@ {
        Some(ProtocolGroup::Http)
    } else if protocol_key == "tls12"@ || protocol_key == "tls13"@ || protocol_key == "tls"@ {
        Some(ProtocolGroup::Tls)
    } else if protocol_key == "quic"@ {
        Some(ProtocolGroup::Quic)
    } else {
        None
    }
}

/// The group of settings that a protocol key belongs to.
pub fn protocol_group(protocol_key: &str) -> (r: Option<ProtocolGroup>)
    ensures
        r == group_of(protocol_key@),
{
    if str_eq(protocol_key, "http") {
        Some(ProtocolGroup::Http)
    } else if str_eq(protocol_key, "tls12") || str_eq(protocol_key, "tls13") || str_eq(
        protocol_key,
        "tls",
    ) {
        Some(ProtocolGroup::Tls)
    } else if str_eq(protocol_key, "quic") {
        Some(ProtocolGroup::Quic)
    } else {
        None
    }
}

/// Lists of texts under names, by their contents.
pub open spec fn value_lists(s: Seq<(Seq<char>, Vec<String>)>) -> Seq<(Seq<char>, Seq<Seq<char>>)> {
    Seq::new(s.len(), |i: int| (s[i].0, texts(s[i].1@)))
}

fn copy_values(map: &TextMap<Vec<String>>) -> (r: TextMap<Vec<String>>)
    ensures
        value_lists(r@) == value_lists(map@),
{
    let mut out: TextMap<Vec<String>> = TextMap::new();
    let n: usize = map.len();
    let mut i: usize = 0;
    while i < n
        invariant
            i <= n,
            n == map@.len(),
            ascending(map@),
            out@.len() == i,
            forall|j: int|
                0 <= j < i ==> (#[trigger] out@[j]).0 == map@[j].0 && texts(out@[j].1@) == texts(
                    map@[j].1@,
                ),
        decreases n - i,
    {
        let ghost start = out@;
        let values = copy_texts(map.value(i));
        proof {
            if i > 0 {
                assert(start[i - 1].0 == map@[i - 1].0);
                assert(before(map@[i - 1].0, map@[i as int].0));
                before_irreflexive(map@[i as int].0);
            }
            assert(with_entry(start, map@[i as int].0, values) =~= start.push(
                (map@[i as int].0, values),
            ));
        }
        out = out.insert(map.key(i).clone(), values);
        assert forall|j: int| 0 <= j < i + 1 implies (#[trigger] out@[j]).0 == map@[j].0 && texts(
            out@[j].1@,
        ) == texts(map@[j].1@) by {
            if j < i {
                assert(out@[j] == start[j]);
            }
        }
        i = i + 1;
    }
    assert(value_lists(out@) =~= value_lists(map@));
    out
}

impl StrategyValuesConfig {
    /// The configured parameter values of a protocol.
    pub open spec fn of_protocol(self, protocol_key: Seq<char>) -> Seq<(Seq<char>, Vec<String>)> {
        match group_of(protocol_key) {
            Some(ProtocolGroup::Http) => self.http@,
            Some(ProtocolGroup::Tls) => self.tls@,
            Some(ProtocolGroup::Quic) => self.quic@,
            None => Seq::empty(),
        }
    }

    fn group_values(&self, protocol_key: &str) -> (r: Option<&TextMap<Vec<String>>>)
        ensures
            r is Some == group_of(protocol_key@) is Some,
            r matches Some(map) ==> map@ == self.of_protocol(protocol_key@),
    {
        match protocol_group(protocol_key) {
            Some(ProtocolGroup::Http) => Some(&self.http),
            Some(ProtocolGroup::Tls) => Some(&self.tls),
            Some(ProtocolGroup::Quic) => Some(&self.quic),
            None => None,
        }
    }

    /// The configured parameter values of a protocol; an empty map for a key that names no
    /// protocol.
    pub fn values_for_protocol_key(&self, protocol_key: &str) -> (r: TextMap<Vec<String>>)
        ensures
            value_lists(r@) == value_lists(self.of_protocol(protocol_key@)),
    {
        match self.group_values(protocol_key) {
            Some(map) => copy_values(map),
            None => TextMap::new(),
        }
    }

    /// The configured values of one parameter of a protocol.
    pub fn values_for_param(&self, protocol_key: &str, param: &str) -> (r: Option<&Vec<String>>)
        ensures
            r matches Some(v) ==> value_at(self.of_protocol(protocol_key@), param@) == Some(*v),
            r is None ==> value_at(self.of_protocol(protocol_key@), param@) is None,
    {
        match self.group_values(protocol_key) {
            Some(map) => map.get(param),
            None => None,
        }
    }

    /// The names of the parameters that have configured values under a protocol, in order.
    pub fn param_names_for_protocol_key(&self, protocol_key: &str) -> (r: Vec<String>)
        ensures
            texts(r@) == keys_of(self.of_protocol(protocol_key@)),
    {
        match self.group_values(protocol_key) {
            Some(map) => map.keys(),
            None => {
                let out: Vec<String> = Vec::new();
                assert(texts(out@) =~= keys_of(self.of_protocol(protocol_key@)));
                out
            },
        }
    }
}

/// The pair `a`, `b` is the one that `c` names, in either order, under one of its protocols.
pub open spec fn names_pair(
    c: AllowedCombination,
    protocol_key: Seq<char>,
    a: Seq<char>,
    b: Seq<char>,
) -> bool {
    let f = texts(c.families@);
    &&& texts(c.protocols@).contains(protocol_key)
    &&& f.len() == 2
    &&& (f[0] == a && f[1] == b) || (f[0] == b && f[1] == a)
}

impl StrategyCombinationConfig {
    /// Strategies of the two families may stand together under the protocol.
    pub open spec fn allows(self, protocol_key: Seq<char>, a: Seq<char>, b: Seq<char>) -> bool {
        &&& self.enabled
        &&& if self.mode@ == "force"@ {
            !self.require_different_family || a != b
        } else {
            exists|i: int|
                0 <= i < self.allowed@.len() && names_pair(
                    #[trigger] self.allowed@[i],
                    protocol_key,
                    a,
                    b,
                )
        }
    }

    /// Whether strategies of the two families may stand together under the protocol.
    pub fn pair_allowed(&self, protocol_key: &str, family_a: &str, family_b: &str) -> (r: bool)
        ensures
            r == self.allows(protocol_key@, family_a@, family_b@),
    {
        if !self.enabled {
            return false;
        }
        if str_eq(self.mode.as_str(), "force") {
            return !self.require_different_family || !str_eq(family_a, family_b);
        }
        let mut i: usize = 0;
        while i < self.allowed.len()
            invariant
                i <= self.allowed@.len(),
                self.enabled,
                self.mode@ != "force"@,
                forall|j: int|
                    0 <= j < i ==> !names_pair(
                        #[trigger] self.allowed@[j],
                        protocol_key@,
                        family_a@,
                        family_b@,
                    ),
            decreases self.allowed@.len() - i,
        {
            let c = &self.allowed[i];
            if listed(&c.protocols, protocol_key) && c.families.len() == 2 {
                let first = c.families[0].as_str();
                let second = c.families[1].as_str();
                assert(texts(c.families@)[0] == first@ && texts(c.families@)[1] == second@);
                if (str_eq(first, family_a) && str_eq(second, family_b)) || (str_eq(
                    first,
                    family_b,
                ) && str_eq(second, family_a)) {
                    assert(names_pair(
                        self.allowed@[i as int],
                        protocol_key@,
                        family_a@,
                        family_b@,
                    ));
                    return true;
                }
            }
            i = i + 1;
        }
        false
    }
}

/// Which of two families comes first makes no difference to whether they may stand together.
pub proof fn pair_is_unordered(
    config: StrategyCombinationConfig,
    protocol_key: Seq<char>,
    a: Seq<char>,
    b: Seq<char>,
)
    ensures
        config.allows(protocol_key, a, b) == config.allows(protocol_key, b, a),
{
    if config.enabled && config.mode@ != "force"@ {
        assert forall|i: int| 0 <= i < config.allowed@.len() implies names_pair(
            #[trigger] config.allowed@[i],
            protocol_key,
            a,
            b,
        ) == names_pair(config.allowed@[i], protocol_key, b, a) by {}
        if config.allows(protocol_key, a, b) {
            let i = choose|i: int|
                0 <= i < config.allowed@.len() && names_pair(
                    #[trigger] config.allowed@[i],
                    protocol_key,
                    a,
                    b,
                );
            assert(names_pair(config.allowed@[i], protocol_key, b, a));
        }
        if config.allows(protocol_key, b, a) {
            let i = choose|i: int|
                0 <= i < config.allowed@.len() && names_pair(
                    #[trigger] config.allowed@[i],
                    protocol_key,
                    b,
                    a,
                );
            assert(names_pair(config.allowed@[i], protocol_key, a, b));
        }
    }
}

// ---------------------------------------------------------------------------
// Checking a configuration

/// A key that names one of the probe protocols.
pub open spec fn is_probe_key(s: Seq<char>) -> bool {
    s == "http"@ || s == "tls12"@ || s == "tls13"@ || s == "quic"@
}

fn probe_key(s: &str) -> (r: bool)
    ensures
        r == is_probe_key(s@),
{
    str_eq(s, "http") || str_eq(s, "tls12") || str_eq(s, "tls13") || str_eq(s, "quic")
}

impl ProtocolProbeConfig {
    /// Probes by the protocol of the given key are switched on.
    pub open spec fn has(self, key: Seq<char>) -> bool {
        if key == "http"@ {
            self.http
        } else if key == "tls12"@ {
            self.tls12
        } else if key == "tls13"@ {
            self.tls13
        } else if key == "quic"@ {
            self.quic
        } else {
            false
        }
    }

    /// What is wrong with the choice of protocols.
    pub open spec fn fault(self) -> Option<Seq<char>> {
        if !is_probe_key(self.preferred@) {
            Some("probe.protocols.preferred must be http, tls12, tls13 or quic"@)
        } else if !self.http && !self.tls12 && !self.tls13 && !self.quic {
            Some("at least one protocol probe must be enabled"@)
        } else if !self.has(self.preferred@) {
            Some("probe.protocols.preferred is disabled in probe.protocols"@)
        } else {
            None
        }
    }

    /// Whether probes by the protocol of the given key are switched on.
    pub fn enabled(&self, key: &str) -> (r: bool)
        ensures
            r == self.has(key@),
    {
        if str_eq(key, "http") {
            self.http
        } else if str_eq(key, "tls12") {
            self.tls12
        } else if str_eq(key, "tls13") {
            self.tls13
        } else if str_eq(key, "quic") {
            self.quic
        } else {
            false
        }
    }

    fn check(&self) -> (r: Result<(), Fault>)
        ensures
            done(r) == unless(self.fault()),
    {
        if !probe_key(self.preferred.as_str()) {
            Err(Fault::new("probe.protocols.preferred must be http, tls12, tls13 or quic"))
        } else if !self.http && !self.tls12 && !self.tls13 && !self.quic {
            Err(Fault::new("at least one protocol probe must be enabled"))
        } else if !self.enabled(self.preferred.as_str()) {
            Err(Fault::new("probe.protocols.preferred is disabled in probe.protocols"))
        } else {
            Ok(())
        }
    }
}

/// The number of the last worker.
pub open spec fn last_worker(count: usize) -> int {
    if count == 0 {
        0
    } else {
        count - 1
    }
}

/// What is wrong with the number of workers and the queues they take.
pub open spec fn workers_fault(w: WorkersConfig, queue_base: u16) -> Option<Seq<char>> {
    if w.count == 0 {
        Some("workers.count must be greater than zero"@)
    } else if w.task_channel_size == 0 {
        Some("workers.task_channel_size must be greater than zero"@)
    } else if w.result_channel_size == 0 {
        Some("workers.result_channel_size must be greater than zero"@)
    } else if queue_base + last_worker(w.count) > u16::MAX {
        Some(
            "isolation.queue_base ("@ + dec(queue_base as nat)
                + ") + workers.count - 1 overflows u16 qnum space"@,
        )
    } else {
        None
    }
}

fn check_workers(w: &WorkersConfig, queue_base: u16) -> (r: Result<(), Fault>)
    ensures
        done(r) == unless(workers_fault(*w, queue_base)),
{
    if w.count == 0 {
        Err(Fault::new("workers.count must be greater than zero"))
    } else if w.task_channel_size == 0 {
        Err(Fault::new("workers.task_channel_size must be greater than zero"))
    } else if w.result_channel_size == 0 {
        Err(Fault::new("workers.result_channel_size must be greater than zero"))
    } else if w.count - 1 > (u16::MAX - queue_base) as usize {
        Err(
            Fault {
                text: cat3(
                    "isolation.queue_base (",
                    decimal(queue_base as u64).as_str(),
                    ") + workers.count - 1 overflows u16 qnum space",
                ),
            },
        )
    } else {
        Ok(())
    }
}

impl AppConfig {
    /// What is wrong with the way workers are kept apart.
    pub open spec fn isolation_fault(self) -> Option<Seq<char>> {
        let i = self.isolation;
        match (
            IsolationMode::configured(i.mode@),
            mark_value(i.mark_base@),
            mark_value(i.desync_mark@),
        ) {
            (Err(e), _, _) => Some(e),
            (_, Err(e), _) => Some(e),
            (_, _, Err(e)) => Some(e),
            (Ok(mode), Ok(base), Ok(desync)) => if i.mark_base@ == i.desync_mark@ {
                Some("isolation.mark_base must differ from isolation.desync_mark"@)
            } else if mode == IsolationMode::Fwmark {
                if !i.use_nft_vmap {
                    Some("isolation.use_nft_vmap must be true when isolation.mode=fwmark"@)
                } else if self.firewall.backend@ != "nftables"@ {
                    Some("isolation.mode=fwmark requires firewall.backend=nftables"@)
                } else if fwmark_of(base, last_worker(self.workers.count) as usize) == desync {
                    Some("worker fwmark range overlaps isolation.desync_mark"@)
                } else {
                    None
                }
            } else {
                None
            },
        }
    }

    fn validate_isolation(&self) -> (r: Result<(), Fault>)
        requires
            last_worker(self.workers.count) < u32::MAX,
        ensures
            done(r) == unless(self.isolation_fault()),
    {
        let mode = match self.isolation.mode() {
            Ok(mode) => mode,
            Err(e) => {
                return Err(e);
            },
        };
        let base = match self.isolation.mark_base_value() {
            Ok(base) => base,
            Err(e) => {
                return Err(e);
            },
        };
        let desync = match self.isolation.desync_mark_value() {
            Ok(desync) => desync,
            Err(e) => {
                return Err(e);
            },
        };
        if str_eq(self.isolation.mark_base.as_str(), self.isolation.desync_mark.as_str()) {
            return Err(Fault::new("isolation.mark_base must differ from isolation.desync_mark"));
        }
        if mode == IsolationMode::Fwmark {
            if !self.isolation.use_nft_vmap {
                return Err(
                    Fault::new("isolation.use_nft_vmap must be true when isolation.mode=fwmark"),
                );
            }
            if !str_eq(self.firewall.backend.as_str(), "nftables") {
                return Err(
                    Fault::new("isolation.mode=fwmark requires firewall.backend=nftables"),
                );
            }
            let last: usize = if self.workers.count == 0 {
                0
            } else {
                self.workers.count - 1
            };
            if worker_fwmark(base, last) == desync {
                return Err(Fault::new("worker fwmark range overlaps isolation.desync_mark"));
            }
        }
        Ok(())
    }
}

/// What is wrong with one DNS server address, given the port that it names if it can be
/// read as an IP socket address.
pub open spec fn doh_port_fault(port: Option<u16>) -> Option<Seq<char>> {
    match port {
        None => Some(
            "probe.dns.doh_addr/doh_addrs must be IP socket addresses like 1.1.1.1:443"@,
        ),
        Some(p) => if p != 443 {
            Some("probe.dns.doh_addr/doh_addrs must use port 443"@)
        } else {
            None
        },
    }
}

/// What is wrong with the first DNS server address that has a fault.
pub open spec fn doh_ports_fault(ports: Seq<Option<u16>>) -> Option<Seq<char>> {
    first_fault(Seq::new(ports.len(), |i: int| doh_port_fault(ports[i])))
}

fn check_doh_ports(ports: &Vec<Option<u16>>) -> (r: Result<(), Fault>)
    ensures
        done(r) == unless(doh_ports_fault(ports@)),
{
    let ghost faults = Seq::new(ports@.len(), |i: int| doh_port_fault(ports@[i]));
    let mut i: usize = 0;
    while i < ports.len()
        invariant
            i <= ports@.len(),
            faults == Seq::new(ports@.len(), |i: int| doh_port_fault(ports@[i])),
            forall|j: int| 0 <= j < i ==> #[trigger] faults[j] is None,
        decreases ports@.len() - i,
    {
        match ports[i] {
            None => {
                proof {
                    first_fault_at(faults, i as int);
                }
                return Err(
                    Fault::new(
                        "probe.dns.doh_addr/doh_addrs must be IP socket addresses like 1.1.1.1:443",
                    ),
                );
            },
            Some(p) => if p != 443 {
                proof {
                    first_fault_at(faults, i as int);
                }
                return Err(Fault::new("probe.dns.doh_addr/doh_addrs must use port 443"));
            },
        }
        i = i + 1;
    }
    proof {
        first_fault_none(faults);
    }
    Ok(())
}

impl ProbeConfig {
    /// What is wrong with the settings of a probe, apart from its protocols and its DNS.
    pub open spec fn fault(self) -> Option<Seq<char>> {
        if self.backend@ != "native"@ && self.backend@ != "curl"@ {
            Some("probe.backend must be native or curl"@)
        } else if HttpMethod::configured(self.method@) is Err {
            Some(HttpMethod::configured(self.method@)->Err_0)
        } else if ReadMode::configured(self.read_mode@) is Err {
            Some(ReadMode::configured(self.read_mode@)->Err_0)
        } else if self.min_body_bytes > self.max_read_bytes {
            Some("probe.min_body_bytes must be less than or equal to probe.max_read_bytes"@)
        } else if self.test_count == 0 {
            Some("probe.test_count must be greater than zero"@)
        } else {
            None
        }
    }

    fn check(&self) -> (r: Result<(), Fault>)
        ensures
            done(r) == unless(self.fault()),
    {
        if !str_eq(self.backend.as_str(), "native") && !str_eq(self.backend.as_str(), "curl") {
            return Err(Fault::new("probe.backend must be native or curl"));
        }
        if let Err(e) = HttpMethod::parse_config(self.method.as_str()) {
            return Err(e);
        }
        if let Err(e) = ReadMode::parse_config(self.read_mode.as_str()) {
            return Err(e);
        }
        if self.min_body_bytes > self.max_read_bytes {
            return Err(
                Fault::new(
                    "probe.min_body_bytes must be less than or equal to probe.max_read_bytes",
                ),
            );
        }
        fail_if(self.test_count == 0, "probe.test_count must be greater than zero")
    }
}

impl DnsConfig {
    /// What is wrong with the DNS settings, given the port of each server address.
    pub open spec fn fault(self, ports: Seq<Option<u16>>) -> Option<Seq<char>> {
        if self.mode@ != "doh"@ {
            Some("probe.dns.mode must be doh"@)
        } else if doh_ports_fault(ports) is Some {
            doh_ports_fault(ports)
        } else if self.doh_host@.len() == 0 || self.doh_host@.contains(':')
            || self.doh_host@.contains('/') {
            Some("probe.dns.doh_host must be a DNS host name without port or path"@)
        } else if !(self.doh_path@.len() > 0 && self.doh_path@[0] == '/') {
            Some("probe.dns.doh_path must start with /"@)
        } else {
            None
        }
    }

    fn check(&self, ports: &Vec<Option<u16>>) -> (r: Result<(), Fault>)
        ensures
            done(r) == unless(self.fault(ports@)),
    {
        if !str_eq(self.mode.as_str(), "doh") {
            return Err(Fault::new("probe.dns.mode must be doh"));
        }
        if let Err(e) = check_doh_ports(ports) {
            return Err(e);
        }
        if self.doh_host.as_str().is_empty() || contains_char(self.doh_host.as_str(), ':')
            || contains_char(self.doh_host.as_str(), '/') {
            return Err(
                Fault::new("probe.dns.doh_host must be a DNS host name without port or path"),
            );
        }
        let path = chars_of(self.doh_path.as_str());
        fail_if(!(path.len() > 0 && path[0] == '/'), "probe.dns.doh_path must start with /")
    }
}

impl AppConfig {
    /// What is wrong with the firewall, the debugging and the search settings.
    pub open spec fn mode_fault(self) -> Option<Seq<char>> {
        if self.firewall.backend@ != "nftables"@ && self.firewall.backend@ != "iptables"@ {
            Some("firewall.backend must be nftables or iptables"@)
        } else if self.firewall.hook@ != "output"@ && self.firewall.hook@ != "postrouting"@ {
            Some("firewall.hook must be output or postrouting"@)
        } else if self.debug.keep_rules_on_failure && self.firewall.cleanup_on_exit {
            Some("debug.keep_rules_on_failure conflicts with firewall.cleanup_on_exit safety"@)
        } else if self.strategies.search_mode@ != "signal"@ && self.strategies.search_mode@
            != "expand"@ && self.strategies.search_mode@ != "force"@ {
            Some("strategies.search_mode must be signal, expand or force"@)
        } else {
            None
        }
    }

    fn check_modes(&self) -> (r: Result<(), Fault>)
        ensures
            done(r) == unless(self.mode_fault()),
    {
        let backend = self.firewall.backend.as_str();
        if !str_eq(backend, "nftables") && !str_eq(backend, "iptables") {
            return Err(Fault::new("firewall.backend must be nftables or iptables"));
        }
        let hook = self.firewall.hook.as_str();
        if !str_eq(hook, "output") && !str_eq(hook, "postrouting") {
            return Err(Fault::new("firewall.hook must be output or postrouting"));
        }
        if self.debug.keep_rules_on_failure && self.firewall.cleanup_on_exit {
            return Err(
                Fault::new(
                    "debug.keep_rules_on_failure conflicts with firewall.cleanup_on_exit safety",
                ),
            );
        }
        let mode = self.strategies.search_mode.as_str();
        fail_if(
            !str_eq(mode, "signal") && !str_eq(mode, "expand") && !str_eq(mode, "force"),
            "strategies.search_mode must be signal, expand or force",
        )
    }
}

// ---------------------------------------------------------------------------
// Payloads

/// ASCII letters, digits and underscores only.
pub open spec fn is_alias_text(s: Seq<char>) -> bool {
    forall|i: int| 0 <= i < s.len() ==> is_alnum(#[trigger] s[i]) || s[i] == '_'
}

/// What is wrong with the form of a payload alias.
pub open spec fn alias_form_fault(alias: Seq<char>) -> Option<Seq<char>> {
    if alias.len() == 0 {
        Some("payload alias must not be empty"@)
    } else if !is_alias_text(alias) {
        Some(
            "payload alias "@ + quoted(alias)
                + " must contain only ASCII letters, digits or underscore"@,
        )
    } else {
        None
    }
}

/// The aliases of the payloads that need no file.
pub open spec fn is_builtin_alias(alias: Seq<char>) -> bool {
    alias == "fake_default_http"@ || alias == "fake_default_tls"@ || alias
        == "fake_default_quic"@
}

/// What is wrong with a file payload that takes the alias of a builtin one.
pub open spec fn reserved_alias_fault(alias: Seq<char>) -> Option<Seq<char>> {
    if is_builtin_alias(alias) {
        Some("payload alias "@ + quoted(alias) + " conflicts with a builtin payload alias"@)
    } else {
        None
    }
}

/// Checks the form of a payload alias.
pub fn check_alias_form(alias: &str) -> (r: Result<(), Fault>)
    ensures
        done(r) == unless(alias_form_fault(alias@)),
{
    let cs = chars_of(alias);
    if cs.len() == 0 {
        return Err(Fault::new("payload alias must not be empty"));
    }
    let mut i: usize = 0;
    while i < cs.len()
        invariant
            i <= cs@.len(),
            cs@ == alias@,
            cs@.len() > 0,
            forall|j: int| 0 <= j < i ==> is_alnum(#[trigger] cs@[j]) || cs@[j] == '_',
        decreases cs@.len() - i,
    {
        if !alnum(cs[i]) && cs[i] != '_' {
            assert(!is_alias_text(alias@)) by {
                assert(!(is_alnum(alias@[i as int]) || alias@[i as int] == '_'));
            }
            return Err(
                Fault {
                    text: cat3(
                        "payload alias ",
                        quote(alias).as_str(),
                        " must contain only ASCII letters, digits or underscore",
                    ),
                },
            );
        }
        i = i + 1;
    }
    assert(is_alias_text(alias@));
    Ok(())
}

/// Checks that a file payload does not take the alias of a builtin one.
pub fn check_reserved_alias(alias: &str) -> (r: Result<(), Fault>)
    ensures
        done(r) == unless(reserved_alias_fault(alias@)),
{
    if str_eq(alias, "fake_default_http") || str_eq(alias, "fake_default_tls") || str_eq(
        alias,
        "fake_default_quic",
    ) {
        Err(
            Fault {
                text: cat3(
                    "payload alias ",
                    quote(alias).as_str(),
                    " conflicts with a builtin payload alias",
                ),
            },
        )
    } else {
        Ok(())
    }
}

/// A payload that a configuration names: the alias that it goes by, unless its file has no
/// name, and the protocol that it stands under.
pub struct NamedPayload {
    pub alias: Option<Seq<char>>,
    pub protocol: Seq<char>,
}

/// The file payloads of one protocol: those with a chosen alias in the order of their
/// aliases, then the files, each under its name without the extension.
pub open spec fn named_payloads(protocol: Seq<char>, config: PayloadProtocolConfig) -> Seq<
    NamedPayload,
> {
    Seq::new(
        config.aliases@.len(),
        |i: int| NamedPayload { alias: Some(config.aliases@[i].0), protocol },
    ) + Seq::new(
        config.files@.len(),
        |i: int| NamedPayload { alias: file_stem_of(config.files@[i]@), protocol },
    )
}

/// The protocol of the last payload that goes by `alias`.
pub open spec fn alias_owner(s: Seq<NamedPayload>, alias: Seq<char>) -> Option<Seq<char>>
    decreases s.len(),
{
    if s.len() == 0 {
        None
    } else if s.last().alias == Some(alias) {
        Some(s.last().protocol)
    } else {
        alias_owner(s.drop_last(), alias)
    }
}

/// What is wrong with the payload at place `i`, seen against those before it.
pub open spec fn named_payload_fault(s: Seq<NamedPayload>, i: int) -> Option<Seq<char>> {
    match s[i].alias {
        None => Some("payload file must have a valid UTF-8 file name"@),
        Some(alias) => sooner(
            sooner(alias_form_fault(alias), reserved_alias_fault(alias)),
            match alias_owner(s.take(i), alias) {
                Some(owner) => Some(
                    "payload alias "@ + quoted(alias) + " is duplicated between "@ + owner
                        + " and "@ + s[i].protocol,
                ),
                None => None,
            },
        ),
    }
}

/// What is wrong with the first payload that has a fault.
pub open spec fn named_payloads_fault(s: Seq<NamedPayload>) -> Option<Seq<char>> {
    first_fault(Seq::new(s.len(), |i: int| named_payload_fault(s, i)))
}

impl PayloadConfig {
    /// The file payloads of all protocols.
    pub open spec fn named(self) -> Seq<NamedPayload> {
        named_payloads("http"@, self.http) + named_payloads("tls"@, self.tls) + named_payloads(
            "quic"@,
            self.quic,
        )
    }
}

/// What is wrong with the number of file payloads of a protocol.
pub open spec fn file_limit_fault(
    protocol: Seq<char>,
    config: PayloadProtocolConfig,
    limit: usize,
) -> Option<Seq<char>> {
    let count = config.files@.len() + config.aliases@.len();
    if count > limit {
        Some(
            "payloads."@ + protocol + " has "@ + dec(count)
                + " file payloads, but payloads.max_per_protocol is "@ + dec(limit as nat),
        )
    } else {
        None
    }
}

impl AppConfig {
    /// What is wrong with the payloads.
    pub open spec fn payloads_fault(self) -> Option<Seq<char>> {
        let p = self.payloads;
        if p.max_per_protocol == 0 {
            Some("payloads.max_per_protocol must be greater than zero"@)
        } else if self.blobs.auto_load && self.blobs.base_dir is None {
            Some("blobs.base_dir is required when blobs.auto_load=true"@)
        } else {
            sooner(
                named_payloads_fault(p.named()),
                sooner(
                    file_limit_fault("http"@, p.http, p.max_per_protocol),
                    sooner(
                        file_limit_fault("tls"@, p.tls, p.max_per_protocol),
                        file_limit_fault("quic"@, p.quic, p.max_per_protocol),
                    ),
                ),
            )
        }
    }
}

/// A payload that a configuration names.
struct Named {
    alias: Option<String>,
    protocol: String,
}

spec fn named_models(s: Seq<Named>) -> Seq<NamedPayload> {
    Seq::new(
        s.len(),
        |i: int| NamedPayload { alias: opt_text(s[i].alias), protocol: s[i].protocol@ },
    )
}

fn push_named(out: &mut Vec<Named>, protocol: &str, config: &PayloadProtocolConfig)
    ensures
        named_models(final(out)@) == named_models(old(out)@) + named_payloads(protocol@, *config),
{
    let ghost start = named_models(out@);
    let ghost first = Seq::new(
        config.aliases@.len(),
        |i: int| NamedPayload { alias: Some(config.aliases@[i].0), protocol: protocol@ },
    );
    let ghost second = Seq::new(
        config.files@.len(),
        |i: int| NamedPayload { alias: file_stem_of(config.files@[i]@), protocol: protocol@ },
    );
    let n: usize = config.aliases.len();
    let mut i: usize = 0;
    assert(start + first.take(0) =~= start);
    while i < n
        invariant
            i <= n,
            n == config.aliases@.len(),
            first == Seq::new(
                config.aliases@.len(),
                |i: int| NamedPayload { alias: Some(config.aliases@[i].0), protocol: protocol@ },
            ),
            named_models(out@) == start + first.take(i as int),
        decreases n - i,
    {
        let item = Named {
            alias: Some(config.aliases.key(i).clone()),
            protocol: protocol.to_owned(),
        };
        let ghost before_push = out@;
        let ghost model = NamedPayload { alias: opt_text(item.alias), protocol: item.protocol@ };
        out.push(item);
        proof {
            assert(named_models(out@) =~= named_models(before_push).push(model));
            assert(model == first[i as int]);
            assert(start + first.take(i + 1) =~= (start + first.take(i as int)).push(model));
        }
        i = i + 1;
    }
    assert(first.take(n as int) =~= first);
    let mut k: usize = 0;
    assert(start + first + second.take(0) =~= start + first);
    while k < config.files.len()
        invariant
            k <= config.files@.len(),
            second == Seq::new(
                config.files@.len(),
                |i: int|
                    NamedPayload { alias: file_stem_of(config.files@[i]@), protocol: protocol@ },
            ),
            named_models(out@) == start + first + second.take(k as int),
        decreases config.files@.len() - k,
    {
        let item = Named {
            alias: file_stem(config.files[k].as_str()),
            protocol: protocol.to_owned(),
        };
        let ghost before_push = out@;
        let ghost model = NamedPayload { alias: opt_text(item.alias), protocol: item.protocol@ };
        out.push(item);
        proof {
            assert(named_models(out@) =~= named_models(before_push).push(model));
            assert(model == second[k as int]);
            assert(start + first + second.take(k + 1) =~= (start + first + second.take(
                k as int,
            )).push(model));
        }
        k = k + 1;
    }
    assert(start + first + second.take(second.len() as int) =~= start + (first + second));
}

fn find_owner(items: &Vec<Named>, upto: usize, alias: &str) -> (r: Option<String>)
    requires
        upto <= items@.len(),
    ensures
        opt_text(r) == alias_owner(named_models(items@).take(upto as int), alias@),
{
    let ghost models = named_models(items@);
    let mut i: usize = upto;
    while i > 0
        invariant
            i <= upto <= items@.len(),
            models == named_models(items@),
            alias_owner(models.take(i as int), alias@) == alias_owner(
                models.take(upto as int),
                alias@,
            ),
        decreases i,
    {
        proof {
            take_next(models, i - 1);
        }
        if let Some(other) = &items[i - 1].alias {
            if str_eq(other.as_str(), alias) {
                return Some(items[i - 1].protocol.clone());
            }
        }
        i = i - 1;
    }
    None
}

fn check_named_payload(items: &Vec<Named>, i: usize) -> (r: Result<(), Fault>)
    requires
        i < items@.len(),
    ensures
        done(r) == unless(named_payload_fault(named_models(items@), i as int)),
{
    match &items[i].alias {
        None => Err(Fault::new("payload file must have a valid UTF-8 file name")),
        Some(alias) => {
            if let Err(e) = check_alias_form(alias.as_str()) {
                return Err(e);
            }
            if let Err(e) = check_reserved_alias(alias.as_str()) {
                return Err(e);
            }
            match find_owner(items, i, alias.as_str()) {
                Some(owner) => {
                    let mut text = cat5(
                        "payload alias ",
                        quote(alias.as_str()).as_str(),
                        " is duplicated between ",
                        owner.as_str(),
                        " and ",
                    );
                    text.append(items[i].protocol.as_str());
                    Err(Fault { text })
                },
                None => Ok(()),
            }
        },
    }
}

fn check_named_payloads(config: &PayloadConfig) -> (r: Result<(), Fault>)
    ensures
        done(r) == unless(named_payloads_fault(config.named())),
{
    let mut items: Vec<Named> = Vec::new();
    assert(named_models(items@) =~= Seq::empty());
    push_named(&mut items, "http", &config.http);
    push_named(&mut items, "tls", &config.tls);
    push_named(&mut items, "quic", &config.quic);
    let ghost models = named_models(items@);
    assert(models =~= config.named());
    let ghost faults = Seq::new(models.len(), |i: int| named_payload_fault(models, i));
    let mut i: usize = 0;
    while i < items.len()
        invariant
            i <= items@.len(),
            models == named_models(items@),
            models == config.named(),
            faults == Seq::new(models.len(), |i: int| named_payload_fault(models, i)),
            forall|j: int| 0 <= j < i ==> #[trigger] faults[j] is None,
        decreases items@.len() - i,
    {
        if let Err(e) = check_named_payload(&items, i) {
            proof {
                first_fault_at(faults, i as int);
            }
            return Err(e);
        }
        i = i + 1;
    }
    proof {
        first_fault_none(faults);
    }
    Ok(())
}

fn check_file_limit(protocol: &str, config: &PayloadProtocolConfig, limit: usize) -> (r: Result<
    (),
    Fault,
>)
    ensures
        done(r) == unless(file_limit_fault(protocol@, *config, limit)),
{
    let files: usize = config.files.len();
    let aliases: usize = config.aliases.len();
    if files as u128 + aliases as u128 > limit as u128 {
        let mut text = cat5(
            "payloads.",
            protocol,
            " has ",
            decimal_sum(files, aliases).as_str(),
            " file payloads, but payloads.max_per_protocol is ",
        );
        text.append(decimal(limit as u64).as_str());
        Err(Fault { text })
    } else {
        Ok(())
    }
}

impl AppConfig {
    fn validate_payloads(&self) -> (r: Result<(), Fault>)
        ensures
            done(r) == unless(self.payloads_fault()),
    {
        let limit: usize = self.payloads.max_per_protocol;
        if limit == 0 {
            return Err(Fault::new("payloads.max_per_protocol must be greater than zero"));
        }
        if self.blobs.auto_load {
            if let None = &self.blobs.base_dir {
                return Err(Fault::new("blobs.base_dir is required when blobs.auto_load=true"));
            }
        }
        if let Err(e) = check_named_payloads(&self.payloads) {
            return Err(e);
        }
        if let Err(e) = check_file_limit("http", &self.payloads.http, limit) {
            return Err(e);
        }
        if let Err(e) = check_file_limit("tls", &self.payloads.tls, limit) {
            return Err(e);
        }
        check_file_limit("quic", &self.payloads.quic, limit)
    }
}

// ---------------------------------------------------------------------------
// Parameter values

/// What is wrong with the values of one parameter.
pub open spec fn param_fault(
    protocol: Seq<char>,
    param: Seq<char>,
    values: Seq<Seq<char>>,
) -> Option<Seq<char>> {
    if param.len() == 0 {
        Some("strategy_values."@ + protocol + " parameter name must not be empty"@)
    } else {
        first_fault(
            Seq::new(
                values.len(),
                |i: int|
                    fault_if(
                        values[i].len() == 0,
                        "strategy_values."@ + protocol + "."@ + param + "["@ + dec(i as nat)
                            + "] must not be an empty string"@,
                    ),
            ),
        )
    }
}

/// What is wrong with the first parameter that has a fault.
pub open spec fn params_fault(
    protocol: Seq<char>,
    values: Seq<(Seq<char>, Vec<String>)>,
) -> Option<Seq<char>> {
    first_fault(
        Seq::new(
            values.len(),
            |i: int| param_fault(protocol, values[i].0, texts(values[i].1@)),
        ),
    )
}

fn check_param(protocol: &str, param: &str, values: &Vec<String>) -> (r: Result<(), Fault>)
    ensures
        done(r) == unless(param_fault(protocol@, param@, texts(values@))),
{
    if param.is_empty() {
        return Err(
            Fault {
                text: cat3("strategy_values.", protocol, " parameter name must not be empty"),
            },
        );
    }
    let ghost faults = Seq::new(
        texts(values@).len(),
        |i: int|
            fault_if(
                texts(values@)[i].len() == 0,
                "strategy_values."@ + protocol@ + "."@ + param@ + "["@ + dec(i as nat)
                    + "] must not be an empty string"@,
            ),
    );
    let mut i: usize = 0;
    while i < values.len()
        invariant
            i <= values@.len(),
            param@.len() > 0,
            faults == Seq::new(
                texts(values@).len(),
                |i: int|
                    fault_if(
                        texts(values@)[i].len() == 0,
                        "strategy_values."@ + protocol@ + "."@ + param@ + "["@ + dec(i as nat)
                            + "] must not be an empty string"@,
                    ),
            ),
            forall|j: int| 0 <= j < i ==> #[trigger] faults[j] is None,
        decreases values@.len() - i,
    {
        if values[i].as_str().is_empty() {
            proof {
                first_fault_at(faults, i as int);
            }
            let mut text = cat5("strategy_values.", protocol, ".", param, "[");
            text.append(decimal(i as u64).as_str());
            text.append("] must not be an empty string");
            return Err(Fault { text });
        }
        i = i + 1;
    }
    proof {
        first_fault_none(faults);
    }
    Ok(())
}

fn check_params(protocol: &str, values: &TextMap<Vec<String>>) -> (r: Result<(), Fault>)
    ensures
        done(r) == unless(params_fault(protocol@, values@)),
{
    let ghost faults = Seq::new(
        values@.len(),
        |i: int| param_fault(protocol@, values@[i].0, texts(values@[i].1@)),
    );
    let n: usize = values.len();
    let mut i: usize = 0;
    while i < n
        invariant
            i <= n,
            n == values@.len(),
            faults == Seq::new(
                values@.len(),
                |i: int| param_fault(protocol@, values@[i].0, texts(values@[i].1@)),
            ),
            forall|j: int| 0 <= j < i ==> #[trigger] faults[j] is None,
        decreases n - i,
    {
        if let Err(e) = check_param(protocol, values.key(i).as_str(), values.value(i)) {
            proof {
                first_fault_at(faults, i as int);
            }
            return Err(e);
        }
        i = i + 1;
    }
    proof {
        first_fault_none(faults);
    }
    Ok(())
}

impl StrategyValuesConfig {
    /// What is wrong with the parameter values.
    pub open spec fn fault(self) -> Option<Seq<char>> {
        if self.mode@ != "extend"@ && self.mode@ != "override"@ {
            Some("strategy_values.mode must be extend or override"@)
        } else {
            sooner(
                params_fault("http"@, self.http@),
                sooner(params_fault("tls"@, self.tls@), params_fault("quic"@, self.quic@)),
            )
        }
    }

    fn check(&self) -> (r: Result<(), Fault>)
        ensures
            done(r) == unless(self.fault()),
    {
        if !str_eq(self.mode.as_str(), "extend") && !str_eq(self.mode.as_str(), "override") {
            return Err(Fault::new("strategy_values.mode must be extend or override"));
        }
        if let Err(e) = check_params("http", &self.http) {
            return Err(e);
        }
        if let Err(e) = check_params("tls", &self.tls) {
            return Err(e);
        }
        check_params("quic", &self.quic)
    }
}

// ---------------------------------------------------------------------------
// Combinations

/// How a message names the allowed combination at place `i`.
pub open spec fn allowed_place(i: int) -> Seq<char> {
    "strategy_combinations.allowed["@ + dec(i as nat) + "]"@
}

/// What is wrong with the protocols of the allowed combination at place `i`.
pub open spec fn allowed_protocols_fault(protocols: Seq<Seq<char>>, i: int) -> Option<Seq<char>> {
    first_fault(
        Seq::new(
            protocols.len(),
            |k: int|
                fault_if(
                    !is_probe_key(protocols[k]),
                    allowed_place(i) + ".protocols contains unsupported protocol "@ + quoted(
                        protocols[k],
                    ),
                ),
        ),
    )
}

/// What is wrong with the allowed combination at place `i`.
pub open spec fn allowed_fault(c: AllowedCombination, i: int, different: bool) -> Option<
    Seq<char>,
> {
    let f = texts(c.families@);
    if c.protocols@.len() == 0 {
        Some(allowed_place(i) + ".protocols must not be empty"@)
    } else if allowed_protocols_fault(texts(c.protocols@), i) is Some {
        allowed_protocols_fault(texts(c.protocols@), i)
    } else if f.len() != 2 {
        Some(allowed_place(i) + ".families must contain exactly 2 families"@)
    } else if f[0].len() == 0 || f[1].len() == 0 {
        Some(allowed_place(i) + ".families must not contain empty family names"@)
    } else if different && f[0] == f[1] {
        Some(
            allowed_place(i)
                + ".families must be different when require_different_family=true"@,
        )
    } else {
        None
    }
}

fn place_text(i: usize) -> (r: String)
    ensures
        r@ == allowed_place(i as int),
{
    cat3("strategy_combinations.allowed[", decimal(i as u64).as_str(), "]")
}

fn check_allowed_protocols(protocols: &Vec<String>, i: usize) -> (r: Result<(), Fault>)
    ensures
        done(r) == unless(allowed_protocols_fault(texts(protocols@), i as int)),
{
    let ghost faults = Seq::new(
        texts(protocols@).len(),
        |k: int|
            fault_if(
                !is_probe_key(texts(protocols@)[k]),
                allowed_place(i as int) + ".protocols contains unsupported protocol "@ + quoted(
                    texts(protocols@)[k],
                ),
            ),
    );
    let mut k: usize = 0;
    while k < protocols.len()
        invariant
            k <= protocols@.len(),
            faults == Seq::new(
                texts(protocols@).len(),
                |k: int|
                    fault_if(
                        !is_probe_key(texts(protocols@)[k]),
                        allowed_place(i as int) + ".protocols contains unsupported protocol "@
                            + quoted(texts(protocols@)[k]),
                    ),
            ),
            forall|j: int| 0 <= j < k ==> #[trigger] faults[j] is None,
        decreases protocols@.len() - k,
    {
        if !probe_key(protocols[k].as_str()) {
            proof {
                first_fault_at(faults, k as int);
            }
            return Err(
                Fault {
                    text: cat3(
                        place_text(i).as_str(),
                        ".protocols contains unsupported protocol ",
                        quote(protocols[k].as_str()).as_str(),
                    ),
                },
            );
        }
        k = k + 1;
    }
    proof {
        first_fault_none(faults);
    }
    Ok(())
}

fn check_allowed(c: &AllowedCombination, i: usize, different: bool) -> (r: Result<(), Fault>)
    ensures
        done(r) == unless(allowed_fault(*c, i as int, different)),
{
    let place = place_text(i);
    if c.protocols.len() == 0 {
        return Err(Fault { text: cat2(place.as_str(), ".protocols must not be empty") });
    }
    if let Err(e) = check_allowed_protocols(&c.protocols, i) {
        return Err(e);
    }
    if c.families.len() != 2 {
        return Err(
            Fault { text: cat2(place.as_str(), ".families must contain exactly 2 families") },
        );
    }
    let first = c.families[0].as_str();
    let second = c.families[1].as_str();
    assert(texts(c.families@)[0] == first@ && texts(c.families@)[1] == second@);
    if first.is_empty() || second.is_empty() {
        return Err(
            Fault { text: cat2(place.as_str(), ".families must not contain empty family names") },
        );
    }
    if different && str_eq(first, second) {
        return Err(
            Fault {
                text: cat2(
                    place.as_str(),
                    ".families must be different when require_different_family=true",
                ),
            },
        );
    }
    Ok(())
}

impl StrategyCombinationConfig {
    /// What is wrong with the allowed combinations.
    pub open spec fn fault(self) -> Option<Seq<char>> {
        if self.mode@ != "pairwise"@ && self.mode@ != "best_with_variants"@ && self.mode@
            != "force"@ {
            Some("strategy_combinations.mode must be pairwise, best_with_variants or force"@)
        } else {
            first_fault(
                Seq::new(
                    self.allowed@.len(),
                    |i: int| allowed_fault(self.allowed@[i], i, self.require_different_family),
                ),
            )
        }
    }

    fn check(&self) -> (r: Result<(), Fault>)
        ensures
            done(r) == unless(self.fault()),
    {
        let mode = self.mode.as_str();
        if !str_eq(mode, "pairwise") && !str_eq(mode, "best_with_variants") && !str_eq(
            mode,
            "force",
        ) {
            return Err(
                Fault::new(
                    "strategy_combinations.mode must be pairwise, best_with_variants or force",
                ),
            );
        }
        let ghost faults = Seq::new(
            self.allowed@.len(),
            |i: int| allowed_fault(self.allowed@[i], i, self.require_different_family),
        );
        let mut i: usize = 0;
        while i < self.allowed.len()
            invariant
                i <= self.allowed@.len(),
                self.mode@ == "pairwise"@ || self.mode@ == "best_with_variants"@ || self.mode@
                    == "force"@,
                faults == Seq::new(
                    self.allowed@.len(),
                    |i: int| allowed_fault(self.allowed@[i], i, self.require_different_family),
                ),
                forall|j: int| 0 <= j < i ==> #[trigger] faults[j] is None,
            decreases self.allowed@.len() - i,
        {
            if let Err(e) = check_allowed(&self.allowed[i], i, self.require_different_family) {
                proof {
                    first_fault_at(faults, i as int);
                }
                return Err(e);
            }
            i = i + 1;
        }
        proof {
            first_fault_none(faults);
        }
        Ok(())
    }
}

// ---------------------------------------------------------------------------
// The whole check

impl AppConfig {
    /// The first thing that is wrong with a configuration, given the port of each DNS server
    /// address.
    pub open spec fn fault(self, doh_ports: Seq<Option<u16>>) -> Option<Seq<char>> {
        sooner(
            sooner(
                sooner(
                    self.probe.protocols.fault(),
                    workers_fault(self.workers, self.isolation.queue_base),
                ),
                sooner(
                    self.isolation_fault(),
                    fault_if(
                        self.source_port.mode@ != "os_assigned"@,
                        "source_port.mode must be os_assigned"@,
                    ),
                ),
            ),
            sooner(
                sooner(
                    sooner(self.probe.fault(), self.probe.dns.fault(doh_ports)),
                    self.mode_fault(),
                ),
                sooner(
                    self.payloads_fault(),
                    sooner(self.strategy_values.fault(), self.strategy_combinations.fault()),
                ),
            ),
        )
    }

    /// Checks a configuration. `doh_ports` gives, for each of the DNS server addresses, the
    /// port that it names, or nothing where it is no IP socket address.
    pub fn validate(&self, doh_ports: &Vec<Option<u16>>) -> (r: Result<(), Fault>)
        requires
            doh_ports@.len() == self.probe.dns.server_addrs().len(),
        ensures
            done(r) == unless(self.fault(doh_ports@)),
    {
        if let Err(e) = self.probe.protocols.check() {
            return Err(e);
        }
        if let Err(e) = check_workers(&self.workers, self.isolation.queue_base) {
            return Err(e);
        }
        if let Err(e) = self.validate_isolation() {
            return Err(e);
        }
        if !str_eq(self.source_port.mode.as_str(), "os_assigned") {
            return Err(Fault::new("source_port.mode must be os_assigned"));
        }
        if let Err(e) = self.probe.check() {
            return Err(e);
        }
        if let Err(e) = self.probe.dns.check(doh_ports) {
            return Err(e);
        }
        if let Err(e) = self.check_modes() {
            return Err(e);
        }
        if let Err(e) = self.validate_payloads() {
            return Err(e);
        }
        if let Err(e) = self.strategy_values.check() {
            return Err(e);
        }
        self.strategy_combinations.check()
    }
}

/// A configuration that passes its check gives every worker a queue: the mode and the marks
/// can be read, and the queue numbers fit.
pub proof fn valid_config_assigns(config: AppConfig, doh_ports: Seq<Option<u16>>)
    requires
        config.fault(doh_ports) is None,
    ensures
        config.workers.count > 0,
        IsolationMode::configured(config.isolation.mode@) is Ok,
        mark_value(config.isolation.mark_base@) is Ok,
        config.isolation.queue_base + config.workers.count - 1 <= u16::MAX,
{
}

} // verus!
