use vstd::prelude::*;
use crate::config::{AppConfig, StrategyCombinationConfig, StrategyValuesConfig};
use crate::desync::{append_texts, dedup_preserve_order, without_repeats};
use crate::graph::{views_push, NodeModel, StrategyComponent, StrategyNode};
use crate::map::{keys_of, sort_unique, unique_sorted};
use crate::number::{dec, decimal, pad_left, pad_right, padded_left, padded_right};
use crate::order::{
    before, before_weak, less, listed, sorted, sorted_in_order, sorted_keeps_items, stable_sort,
    views, weak_order,
};
use crate::ordering::{total_key, total_less};
use crate::payload_registry::{payload_models, PayloadDef, PayloadModel, PayloadProtocol};
use crate::scheduler::{fmt_ms, fmt_status, ms_text, status_text, RunModel, StrategyRunResult};
use crate::text::{
    alnum, cat2, cat3, cat4, cat5, chars_of, find_text, first_text, is_alnum, join, joined,
    opt_text, str_eq, string_of, take_all, take_next, texts, texts_push,
};
use crate::types::{
    count_places, differing, FailureKind, HttpRequestSpec, Place, PlaceModel, ProbeErrorClass,
    ProbeOutcome, ProbeResult, StrategyProbeTarget, TargetRequest, TargetScheme,
};

verus! {

// ---------------------------------------------------------------------------
// What is reported

/// What came of a strategy, with its score as a text, and with the bits of the doubles of
/// its score, its cost and its risk.
#[derive(Debug)]
pub struct ScoredResult {
    pub run: StrategyRunResult,
    pub score_text: String,
    pub score: u64,
    pub cost: u64,
    pub risk: u64,
}

/// What came of a strategy by its contents.
pub struct ScoredModel {
    pub run: RunModel,
    pub score_text: Seq<char>,
    pub score: u64,
    pub cost: u64,
    pub risk: u64,
}

impl View for ScoredResult {
    type V = ScoredModel;

    open spec fn view(&self) -> ScoredModel {
        ScoredModel {
            run: self.run@,
            score_text: self.score_text@,
            score: self.score,
            cost: self.cost,
            risk: self.risk,
        }
    }
}

/// How many payloads of a protocol there are.
#[derive(Debug, Clone, Copy, PartialEq, Eq, Structural)]
pub struct PayloadProtocolSummary {
    pub builtin: usize,
    pub files: usize,
}

/// How many payloads there are.
#[derive(Debug)]
pub struct PayloadSummary {
    pub http: PayloadProtocolSummary,
    pub tls: PayloadProtocolSummary,
    pub quic: PayloadProtocolSummary,
    pub base_dir: Option<String>,
    pub auto_load: bool,
}

/// A payload out of a file, and the argument that hands it over.
#[derive(Debug)]
pub struct BlobImport {
    pub alias: String,
    pub path: String,
    pub arg: String,
}

/// A payload out of a file by its contents.
pub struct ImportModel {
    pub alias: Seq<char>,
    pub path: Seq<char>,
    pub arg: Seq<char>,
}

impl View for BlobImport {
    type V = ImportModel;

    open spec fn view(&self) -> ImportModel {
        ImportModel { alias: self.alias@, path: self.path@, arg: self.arg@ }
    }
}

/// How many strategies were combined.
#[derive(Debug, Clone, Copy, PartialEq, Eq, Structural)]
pub struct CombinationSummary {
    pub enabled: bool,
    pub allowed_pairs: usize,
    pub generated: usize,
}

/// What came of a check.
#[derive(Debug)]
pub struct CheckOutput {
    pub target: String,
    pub target_scheme: TargetScheme,
    pub request: HttpRequestSpec,
    pub test_count: usize,
    pub test_targets: Vec<String>,
    pub baseline: ProbeResult,
    pub results: Vec<ScoredResult>,
    pub successful_strategy_limit: usize,
    pub search_mode: String,
    pub round_robin_families: bool,
    pub generated_count: usize,
    pub workers_count: usize,
    pub isolation_mode: String,
    pub payload_summary: Option<PayloadSummary>,
    pub payload_blob_imports: Vec<BlobImport>,
    pub combination_summary: Option<CombinationSummary>,
}

// ---------------------------------------------------------------------------
// Words

/// A truth value as a word.
pub open spec fn truth(b: bool) -> Seq<char> {
    if b {
        "true"@
    } else {
        "false"@
    }
}

fn truth_text(b: bool) -> (r: &'static str)
    ensures
        r@ == truth(b),
{
    if b {
        "true"
    } else {
        "false"
    }
}

/// A kind of failure, if there is one.
pub open spec fn kind_text(kind: Option<FailureKind>) -> Seq<char> {
    match kind {
        Some(k) => "Some("@ + k.label() + ")"@,
        None => "None"@,
    }
}

fn kind_name(kind: Option<FailureKind>) -> (r: String)
    ensures
        r@ == kind_text(kind),
{
    match kind {
        Some(k) => cat3("Some(", k.name(), ")"),
        None => "None".to_owned(),
    }
}

/// A class of errors, if there is one.
pub open spec fn class_text(class: Option<ProbeErrorClass>) -> Seq<char> {
    match class {
        Some(c) => "Some("@ + c.label() + ")"@,
        None => "None"@,
    }
}

fn class_name(class: Option<ProbeErrorClass>) -> (r: String)
    ensures
        r@ == class_text(class),
{
    match class {
        Some(c) => cat3("Some(", c.name(), ")"),
        None => "None".to_owned(),
    }
}

/// A limit, where zero is none.
pub open spec fn limit_text(limit: usize) -> Seq<char> {
    if limit == 0 {
        "disabled"@
    } else {
        dec(limit as nat)
    }
}

/// A limit, where zero is none.
pub fn fmt_limit(limit: usize) -> (r: String)
    ensures
        r@ == limit_text(limit),
{
    if limit == 0 {
        "disabled".to_owned()
    } else {
        decimal(limit as u64)
    }
}

fn number_line(label: &str, n: usize) -> (r: String)
    ensures
        r@ == label@ + dec(n as nat),
{
    cat2(label, decimal(n as u64).as_str())
}

// ---------------------------------------------------------------------------
// A probe

/// The lines of a report on a probe.
pub open spec fn probe_lines(prefix: Seq<char>, r: ProbeResult) -> Seq<Seq<char>> {
    let head = seq![
        prefix + "outcome:       "@ + r.outcome.label(),
        prefix + "failure_kind:  "@ + kind_text(r.failure_kind),
        prefix + "error_class:   "@ + class_text(r.error_class),
    ];
    let error = match r.error_message {
        Some(msg) => seq![prefix + "error:         "@ + msg@],
        None => Seq::empty(),
    };
    let rest = seq![
        prefix + "timing:        connect="@ + ms_text(r.connect_ms) + "ms tls="@ + ms_text(r.tls_ms)
            + "ms first_byte="@ + ms_text(r.first_byte_ms) + "ms total="@ + dec(r.total_ms as nat)
            + "ms"@,
        prefix + "http_status:   "@ + status_text(r.http_status),
        prefix + "bytes_read:    "@ + dec(r.bytes_read as nat),
        prefix + "header_bytes:  "@ + dec(r.header_bytes as nat),
        prefix + "body_bytes:    "@ + dec(r.body_bytes as nat),
        prefix + "total_bytes:   "@ + dec(r.total_bytes as nat),
        prefix + "transfer_level: "@ + r.transfer_level.label(),
    ];
    let suspicion = if r.dpi_suspicious {
        seq![prefix + "dpi_suspicious: true"@]
    } else {
        Seq::empty()
    };
    head + error + rest + suspicion
}

fn timing_line(prefix: &str, r: &ProbeResult) -> (line: String)
    ensures
        line@ == prefix@ + "timing:        connect="@ + ms_text(r.connect_ms) + "ms tls="@
            + ms_text(r.tls_ms) + "ms first_byte="@ + ms_text(r.first_byte_ms) + "ms total="@ + dec(
            r.total_ms as nat,
        ) + "ms"@,
{
    let mut line = cat4(
        prefix,
        "timing:        connect=",
        fmt_ms(r.connect_ms).as_str(),
        "ms tls=",
    );
    line.append(fmt_ms(r.tls_ms).as_str());
    line.append("ms first_byte=");
    line.append(fmt_ms(r.first_byte_ms).as_str());
    line.append("ms total=");
    line.append(decimal(r.total_ms).as_str());
    line.append("ms");
    line
}

fn count_line(prefix: &str, label: &str, n: usize) -> (r: String)
    ensures
        r@ == prefix@ + label@ + dec(n as nat),
{
    cat3(prefix, label, decimal(n as u64).as_str())
}

/// The lines of a report on a probe.
pub fn print_probe_result(prefix: &str, r: &ProbeResult) -> (lines: Vec<String>)
    ensures
        texts(lines@) == probe_lines(prefix@, *r),
{
    let mut lines: Vec<String> = Vec::new();
    lines.push(cat3(prefix, "outcome:       ", r.outcome.name()));
    lines.push(cat3(prefix, "failure_kind:  ", kind_name(r.failure_kind).as_str()));
    lines.push(cat3(prefix, "error_class:   ", class_name(r.error_class).as_str()));
    let ghost head = texts(lines@);
    if let Some(msg) = &r.error_message {
        lines.push(cat3(prefix, "error:         ", msg.as_str()));
    }
    let ghost upto_error = texts(lines@);
    lines.push(timing_line(prefix, r));
    lines.push(cat3(prefix, "http_status:   ", fmt_status(r.http_status).as_str()));
    lines.push(count_line(prefix, "bytes_read:    ", r.bytes_read));
    lines.push(count_line(prefix, "header_bytes:  ", r.header_bytes));
    lines.push(count_line(prefix, "body_bytes:    ", r.body_bytes));
    lines.push(count_line(prefix, "total_bytes:   ", r.total_bytes));
    lines.push(cat3(prefix, "transfer_level: ", r.transfer_level.name()));
    if r.dpi_suspicious {
        lines.push(cat2(prefix, "dpi_suspicious: true"));
    }
    assert(texts(lines@) =~= probe_lines(prefix@, *r));
    lines
}

/// What is said of a probe in one line.
pub open spec fn probe_summary(r: ProbeResult) -> Seq<char> {
    "outcome="@ + r.outcome.label() + " http="@ + status_text(r.http_status) + " body="@ + dec(
        r.body_bytes as nat,
    ) + "B bytes="@ + dec(r.bytes_read as nat) + " transfer="@ + r.transfer_level.label()
        + " dpi="@ + truth(r.dpi_suspicious) + " connect="@ + ms_text(r.connect_ms) + "ms tls="@
        + ms_text(r.tls_ms) + "ms first_byte="@ + ms_text(r.first_byte_ms) + "ms total="@ + dec(
        r.total_ms as nat,
    ) + "ms failure="@ + kind_text(r.failure_kind) + " error="@ + class_text(r.error_class)
}

/// What is said of a probe in one line.
pub fn live_probe_summary(r: &ProbeResult) -> (line: String)
    ensures
        line@ == probe_summary(*r),
{
    let mut line = cat4("outcome=", r.outcome.name(), " http=", fmt_status(r.http_status).as_str());
    line.append(" body=");
    line.append(decimal(r.body_bytes as u64).as_str());
    line.append("B bytes=");
    line.append(decimal(r.bytes_read as u64).as_str());
    line.append(" transfer=");
    line.append(r.transfer_level.name());
    line.append(" dpi=");
    line.append(truth_text(r.dpi_suspicious));
    line.append(" connect=");
    line.append(fmt_ms(r.connect_ms).as_str());
    line.append("ms tls=");
    line.append(fmt_ms(r.tls_ms).as_str());
    line.append("ms first_byte=");
    line.append(fmt_ms(r.first_byte_ms).as_str());
    line.append("ms total=");
    line.append(decimal(r.total_ms).as_str());
    line.append("ms failure=");
    line.append(kind_name(r.failure_kind).as_str());
    line.append(" error=");
    line.append(class_name(r.error_class).as_str());
    line
}

// ---------------------------------------------------------------------------
// Targets

/// What a strategy is tried on.
pub open spec fn target_place(t: StrategyProbeTarget) -> PlaceModel {
    PlaceModel { host: t.host@, port: t.port, path: t.request.path_and_query@ }
}

/// How many different places strategies are tried on.
pub fn unique_strategy_targets(targets: &Vec<StrategyProbeTarget>) -> (r: usize)
    ensures
        r == differing(targets@.map_values(|t: StrategyProbeTarget| target_place(t))),
{
    let ghost want = targets@.map_values(|t: StrategyProbeTarget| target_place(t));
    let mut places: Vec<Place> = Vec::new();
    let mut i: usize = 0;
    while i < targets.len()
        invariant
            i <= targets@.len(),
            want == targets@.map_values(|t: StrategyProbeTarget| target_place(t)),
            views(places@) =~= want.take(i as int),
        decreases targets@.len() - i,
    {
        let place = Place {
            host: targets[i].host.clone(),
            port: targets[i].port,
            path: targets[i].request.path_and_query.clone(),
        };
        proof {
            views_push(places@, place);
            take_next(want, i as int);
            assert(place@ == want[i as int]);
        }
        places.push(place);
        i = i + 1;
    }
    proof {
        take_all(want);
    }
    count_places(&places)
}

/// A target as a report names it.
pub fn target_display_key(target: &StrategyProbeTarget) -> (r: String)
    ensures
        r@ == target.host@ + ":"@ + dec(target.port as nat) + target.request.path_and_query@,
{
    cat4(
        target.host.as_str(),
        ":",
        decimal(target.port as u64).as_str(),
        target.request.path_and_query.as_str(),
    )
}

/// What is said of the target before it is probed.
pub fn target_line(target: &TargetRequest, ip: &str, request: &HttpRequestSpec) -> (r: String)
    ensures
        r@ == "info(checker): target="@ + target.original@ + " host="@ + target.host@ + " ip="@
            + ip@ + " port="@ + dec(target.port as nat) + " protocol="@ + target.protocol.label()
            + " method="@ + request.method.name() + " read_mode="@ + request.read_mode.label(),
{
    let mut line = cat4(
        "info(checker): target=",
        target.original.as_str(),
        " host=",
        target.host.as_str(),
    );
    line.append(" ip=");
    line.append(ip);
    line.append(" port=");
    line.append(decimal(target.port as u64).as_str());
    line.append(" protocol=");
    line.append(target.protocol.name());
    line.append(" method=");
    line.append(request.method.as_str());
    line.append(" read_mode=");
    line.append(request.read_mode.name());
    line
}

/// What is said before the strategies are tried.
pub fn pool_start_line(
    generated: usize,
    workers: usize,
    domains: usize,
    repeats: usize,
    total_tests: usize,
    successful_strategy_limit: usize,
) -> (r: String)
    ensures
        r@ == "info(checker::pool): start generated="@ + dec(generated as nat) + " workers="@ + dec(
            workers as nat,
        ) + " domains="@ + dec(domains as nat) + " repeats="@ + dec(repeats as nat)
            + " total_tests="@ + dec(total_tests as nat) + " stop_at_success="@ + limit_text(
            successful_strategy_limit,
        ),
{
    let mut line = number_line("info(checker::pool): start generated=", generated);
    line.append(" workers=");
    line.append(decimal(workers as u64).as_str());
    line.append(" domains=");
    line.append(decimal(domains as u64).as_str());
    line.append(" repeats=");
    line.append(decimal(repeats as u64).as_str());
    line.append(" total_tests=");
    line.append(decimal(total_tests as u64).as_str());
    line.append(" stop_at_success=");
    line.append(fmt_limit(successful_strategy_limit).as_str());
    line
}

// ---------------------------------------------------------------------------
// Payloads and combinations

/// The payload is of the protocol, and builtin or not.
pub open spec fn counts_as(p: PayloadModel, protocol: PayloadProtocol, builtin: bool) -> bool {
    p.protocol == protocol && p.builtin == builtin
}

/// How many payloads of the protocol there are that are builtin or not.
pub open spec fn payload_count(
    payloads: Seq<PayloadModel>,
    protocol: PayloadProtocol,
    builtin: bool,
) -> nat
    decreases payloads.len(),
{
    if payloads.len() == 0 {
        0
    } else {
        payload_count(payloads.drop_last(), protocol, builtin) + if counts_as(
            payloads.last(),
            protocol,
            builtin,
        ) {
            1nat
        } else {
            0
        }
    }
}

fn count_payloads(payloads: &[PayloadDef], protocol: PayloadProtocol) -> (r: PayloadProtocolSummary)
    ensures
        r.builtin == payload_count(payload_models(payloads@), protocol, true),
        r.files == payload_count(payload_models(payloads@), protocol, false),
{
    let ghost all = payload_models(payloads@);
    let mut r = PayloadProtocolSummary { builtin: 0, files: 0 };
    let mut i: usize = 0;
    while i < payloads.len()
        invariant
            i <= payloads@.len(),
            all == payload_models(payloads@),
            r.builtin <= i,
            r.files <= i,
            r.builtin == payload_count(all.take(i as int), protocol, true),
            r.files == payload_count(all.take(i as int), protocol, false),
        decreases payloads@.len() - i,
    {
        proof {
            take_next(all, i as int);
        }
        assert(all[i as int] == payloads@[i as int]@);
        if payloads[i].protocol == protocol {
            if payloads[i].builtin {
                r.builtin = r.builtin + 1;
            } else {
                r.files = r.files + 1;
            }
        }
        i = i + 1;
    }
    proof {
        take_all(all);
    }
    r
}

/// `r` counts the payloads.
pub open spec fn counts_payloads(
    r: PayloadSummary,
    cfg: AppConfig,
    payloads: Seq<PayloadModel>,
) -> bool {
    &&& r.http.builtin == payload_count(payloads, PayloadProtocol::Http, true)
    &&& r.http.files == payload_count(payloads, PayloadProtocol::Http, false)
    &&& r.tls.builtin == payload_count(payloads, PayloadProtocol::Tls, true)
    &&& r.tls.files == payload_count(payloads, PayloadProtocol::Tls, false)
    &&& r.quic.builtin == payload_count(payloads, PayloadProtocol::Quic, true)
    &&& r.quic.files == payload_count(payloads, PayloadProtocol::Quic, false)
    &&& opt_text(r.base_dir) == opt_text(cfg.blobs.base_dir)
    &&& r.auto_load == cfg.blobs.auto_load
}

/// How many payloads there are.
pub fn payload_summary(cfg: &AppConfig, payloads: &[PayloadDef]) -> (r: PayloadSummary)
    ensures
        counts_payloads(r, *cfg, payload_models(payloads@)),
{
    PayloadSummary {
        http: count_payloads(payloads, PayloadProtocol::Http),
        tls: count_payloads(payloads, PayloadProtocol::Tls),
        quic: count_payloads(payloads, PayloadProtocol::Quic),
        base_dir: match &cfg.blobs.base_dir {
            Some(dir) => Some(dir.clone()),
            None => None,
        },
        auto_load: cfg.blobs.auto_load,
    }
}

/// Every payload is counted once: the counts add up to their number.
pub proof fn payloads_add_up(payloads: Seq<PayloadModel>)
    ensures
        payload_count(payloads, PayloadProtocol::Http, true) + payload_count(
            payloads,
            PayloadProtocol::Http,
            false,
        ) + payload_count(payloads, PayloadProtocol::Tls, true) + payload_count(
            payloads,
            PayloadProtocol::Tls,
            false,
        ) + payload_count(payloads, PayloadProtocol::Quic, true) + payload_count(
            payloads,
            PayloadProtocol::Quic,
            false,
        ) == payloads.len(),
    decreases payloads.len(),
{
    if payloads.len() > 0 {
        payloads_add_up(payloads.drop_last());
    }
}

/// The payload as it is handed over from its file.
pub open spec fn import_of(alias: Seq<char>, path: Seq<char>) -> ImportModel {
    ImportModel { alias, path, arg: "--blob="@ + alias + ":@"@ + path }
}

/// The payloads that are handed over from their files, in order.
pub open spec fn imports_of(payloads: Seq<PayloadModel>) -> Seq<ImportModel>
    decreases payloads.len(),
{
    if payloads.len() == 0 {
        Seq::empty()
    } else {
        let imports = imports_of(payloads.drop_last());
        match payloads.last().path {
            Some(path) => imports.push(import_of(payloads.last().alias, path)),
            None => imports,
        }
    }
}

/// The payloads that are handed over from their files, in order.
pub fn payload_blob_imports(payloads: &[PayloadDef]) -> (r: Vec<BlobImport>)
    ensures
        views(r@) == imports_of(payload_models(payloads@)),
{
    let ghost all = payload_models(payloads@);
    let mut out: Vec<BlobImport> = Vec::new();
    let mut i: usize = 0;
    assert(views(out@) =~= imports_of(all.take(0)));
    while i < payloads.len()
        invariant
            i <= payloads@.len(),
            all == payload_models(payloads@),
            views(out@) == imports_of(all.take(i as int)),
        decreases payloads@.len() - i,
    {
        proof {
            take_next(all, i as int);
        }
        assert(all[i as int] == payloads@[i as int]@);
        if let Some(path) = &payloads[i].path {
            let alias = payloads[i].alias.as_str();
            let import = BlobImport {
                alias: alias.to_owned(),
                path: path.clone(),
                arg: cat4("--blob=", alias, ":@", path.as_str()),
            };
            proof {
                views_push(out@, import);
            }
            out.push(import);
        }
        i = i + 1;
    }
    proof {
        take_all(all);
    }
    out
}

/// How many of the strategies are combined.
pub open spec fn combined_count(nodes: Seq<StrategyNode>) -> nat
    decreases nodes.len(),
{
    if nodes.len() == 0 {
        0
    } else {
        combined_count(nodes.drop_last()) + if nodes.last().is_combined {
            1nat
        } else {
            0
        }
    }
}

/// `r` counts the combinations.
pub open spec fn counts_combinations(
    r: CombinationSummary,
    cfg: StrategyCombinationConfig,
    nodes: Seq<StrategyNode>,
) -> bool {
    &&& r.enabled == cfg.enabled
    &&& r.allowed_pairs == cfg.allowed@.len()
    &&& r.generated == combined_count(nodes)
}

/// How many strategies were combined.
pub fn combination_summary(cfg: &StrategyCombinationConfig, nodes: &[StrategyNode]) -> (r:
    CombinationSummary)
    ensures
        counts_combinations(r, *cfg, nodes@),
{
    let mut count: usize = 0;
    let mut i: usize = 0;
    while i < nodes.len()
        invariant
            i <= nodes@.len(),
            count <= i,
            count == combined_count(nodes@.take(i as int)),
        decreases nodes@.len() - i,
    {
        proof {
            take_next(nodes@, i as int);
        }
        if nodes[i].is_combined {
            count = count + 1;
        }
        i = i + 1;
    }
    proof {
        take_all(nodes@);
    }
    CombinationSummary { enabled: cfg.enabled, allowed_pairs: cfg.allowed.len(), generated: count }
}

/// The names of the parameters that have values of their own under a protocol.
pub open spec fn param_names(values: StrategyValuesConfig, key: Seq<char>) -> Seq<char> {
    let names = keys_of(values.of_protocol(key));
    if names.len() == 0 {
        "none"@
    } else {
        joined(names, ", "@)
    }
}

/// The names of the parameters that have values of their own under a protocol.
pub fn strategy_param_names(strategy_values: &StrategyValuesConfig, protocol_key: &str) -> (r:
    String)
    ensures
        r@ == param_names(*strategy_values, protocol_key@),
{
    let names = strategy_values.param_names_for_protocol_key(protocol_key);
    assert(texts(names@).len() == names@.len());
    if names.len() == 0 {
        "none".to_owned()
    } else {
        join(&names, ", ")
    }
}

// ---------------------------------------------------------------------------
// The commands of a strategy

/// The name of a strategy in a report: a combined one goes by its family and its actions.
pub open spec fn report_name(node: NodeModel) -> Seq<char> {
    if node.is_combined {
        node.family + " "@ + node.action_id
    } else {
        node.id
    }
}

/// The name of a strategy in a report.
pub fn strategy_report_name(node: &StrategyNode) -> (r: String)
    ensures
        r@ == report_name(node@),
{
    if node.is_combined {
        cat3(node.family.as_str(), " ", node.action_id.as_str())
    } else {
        node.id.clone()
    }
}

/// The length of the name that a text begins with.
pub open spec fn name_length(s: Seq<char>) -> nat
    decreases s.len(),
{
    if s.len() > 0 && (is_alnum(s[0]) || s[0] == '_') {
        1 + name_length(s.skip(1))
    } else {
        0
    }
}

/// A name is no longer than the text that begins with it.
pub proof fn name_length_bound(s: Seq<char>)
    ensures
        name_length(s) <= s.len(),
    decreases s.len(),
{
    if s.len() > 0 {
        name_length_bound(s.skip(1));
    }
}

/// The names behind each `blob=` of a text, in order.
pub open spec fn aliases_in(s: Seq<char>) -> Seq<Seq<char>>
    decreases s.len(),
{
    match first_text(s, "blob="@, 0) {
        Some(i) if 0 <= i && i + 5 <= s.len() => {
            let value = s.skip(i + 5);
            let n = name_length(value);
            let first = if n == 0 {
                Seq::empty()
            } else {
                seq![value.take(n as int)]
            };
            proof {
                name_length_bound(value);
            }
            first + aliases_in(value.skip(n as int))
        },
        _ => Seq::empty(),
    }
}

/// The names behind each `blob=` of the arguments, in order.
pub open spec fn all_aliases(args: Seq<Seq<char>>) -> Seq<Seq<char>>
    decreases args.len(),
{
    if args.len() == 0 {
        Seq::empty()
    } else {
        all_aliases(args.drop_last()) + aliases_in(args.last())
    }
}

/// The length of the name that a text begins with from position `from` on.
fn name_at(s: &Vec<char>, from: usize) -> (r: usize)
    requires
        from <= s@.len(),
    ensures
        r == name_length(s@.skip(from as int)),
        from + r <= s@.len(),
{
    let mut i: usize = from;
    while i < s.len() && (alnum(s[i]) || s[i] == '_')
        invariant
            from <= i <= s@.len(),
            name_length(s@.skip(from as int)) == i - from + name_length(s@.skip(i as int)),
        decreases s@.len() - i,
    {
        assert(s@.skip(i as int).skip(1) =~= s@.skip(i + 1));
        assert(s@.skip(i as int)[0] == s@[i as int]);
        i = i + 1;
    }
    proof {
        if i < s@.len() {
            assert(s@.skip(i as int)[0] == s@[i as int]);
        }
    }
    i - from
}

/// Puts the names behind each `blob=` of a text behind those of `out`.
fn push_aliases(out: &mut Vec<String>, arg: &str)
    ensures
        texts(final(out)@) == texts(old(out)@) + aliases_in(arg@),
{
    let ghost start = texts(out@);
    let ghost whole = aliases_in(arg@);
    let mut rest = chars_of(arg);
    assert(start + aliases_in(rest@) =~= start + whole);
    loop
        invariant
            texts(out@) + aliases_in(rest@) == start + whole,
        ensures
            texts(out@) == start + whole,
        decreases rest@.len(),
    {
        let index: usize = match find_text(&rest, "blob=") {
            Some(index) => index,
            None => {
                assert(texts(out@) + aliases_in(rest@) =~= texts(out@));
                break;
            },
        };
        let total: usize = rest.len();
        proof {
            reveal_strlit("blob=");
            assert(index + 5 <= total);
        }
        let from: usize = index + 5;
        let n: usize = name_at(&rest, from);
        let ghost value = rest@.skip(from as int);
        let ghost before_push = texts(out@);
        let ghost first: Seq<Seq<char>> = if n == 0 {
            Seq::empty()
        } else {
            seq![value.take(n as int)]
        };
        if n > 0 {
            let alias = string_of(rest.as_slice(), from, from + n);
            proof {
                texts_push(out@, alias);
                assert(alias@ =~= value.take(n as int));
            }
            out.push(alias);
        }
        assert(texts(out@) =~= before_push + first);
        let next = chars_from(&rest, from + n);
        proof {
            assert(next@ =~= value.skip(n as int));
            assert(before_push + (first + aliases_in(next@)) =~= (before_push + first) + aliases_in(
                next@,
            ));
        }
        rest = next;
    }
}

fn chars_from(s: &Vec<char>, from: usize) -> (r: Vec<char>)
    requires
        from <= s@.len(),
    ensures
        r@ == s@.skip(from as int),
{
    let mut out: Vec<char> = Vec::new();
    let mut i: usize = from;
    while i < s.len()
        invariant
            from <= i <= s@.len(),
            out@ == s@.subrange(from as int, i as int),
        decreases s@.len() - i,
    {
        out.push(s[i]);
        i = i + 1;
        assert(out@ =~= s@.subrange(from as int, i as int));
    }
    assert(out@ =~= s@.skip(from as int));
    out
}

/// The names of the payloads that arguments use, each once, in order.
pub fn blob_aliases_in_args(args: &Vec<String>) -> (r: Vec<String>)
    ensures
        texts(r@) == unique_sorted(all_aliases(texts(args@))),
{
    let ghost all = texts(args@);
    let mut out: Vec<String> = Vec::new();
    let mut i: usize = 0;
    assert(texts(out@) =~= all_aliases(all.take(0)));
    while i < args.len()
        invariant
            i <= args@.len(),
            all == texts(args@),
            texts(out@) == all_aliases(all.take(i as int)),
        decreases args@.len() - i,
    {
        proof {
            take_next(all, i as int);
        }
        assert(all[i as int] == args@[i as int]@);
        push_aliases(&mut out, args[i].as_str());
        i = i + 1;
    }
    proof {
        take_all(all);
    }
    sort_unique(&out)
}

/// The arguments that hand over the payloads with the given names, in order.
pub open spec fn used_imports(imports: Seq<ImportModel>, aliases: Seq<Seq<char>>) -> Seq<Seq<char>>
    decreases imports.len(),
{
    if imports.len() == 0 {
        Seq::empty()
    } else {
        let used = used_imports(imports.drop_last(), aliases);
        if aliases.contains(imports.last().alias) {
            used.push(imports.last().arg)
        } else {
            used
        }
    }
}

/// The arguments of a strategy, behind those that hand over the payloads that it uses.
pub open spec fn command_args(args: Seq<Seq<char>>, imports: Seq<ImportModel>) -> Seq<Seq<char>> {
    used_imports(imports, unique_sorted(all_aliases(args))) + args
}

/// The arguments of a strategy, behind those that hand over the payloads that it uses.
pub fn strategy_command_args(args: &Vec<String>, blob_imports: &Vec<BlobImport>) -> (r: Vec<String>)
    ensures
        texts(r@) == command_args(texts(args@), views(blob_imports@)),
{
    let aliases = blob_aliases_in_args(args);
    let ghost all = views(blob_imports@);
    let mut out: Vec<String> = Vec::new();
    let mut i: usize = 0;
    assert(texts(out@) =~= used_imports(all.take(0), texts(aliases@)));
    while i < blob_imports.len()
        invariant
            i <= blob_imports@.len(),
            all == views(blob_imports@),
            texts(out@) == used_imports(all.take(i as int), texts(aliases@)),
        decreases blob_imports@.len() - i,
    {
        proof {
            take_next(all, i as int);
        }
        assert(all[i as int] == blob_imports@[i as int]@);
        if listed(&aliases, blob_imports[i].alias.as_str()) {
            let arg = blob_imports[i].arg.clone();
            proof {
                texts_push(out@, arg);
            }
            out.push(arg);
        }
        i = i + 1;
    }
    proof {
        take_all(all);
    }
    append_texts(&mut out, args);
    out
}

// ---------------------------------------------------------------------------
// The strategies

/// The lines, moved in.
pub open spec fn indented(lines: Seq<Seq<char>>) -> Seq<Seq<char>> {
    Seq::new(lines.len(), |i: int| "           "@ + lines[i])
}

/// The lines on the parts of a combined strategy.
pub open spec fn component_lines(node: NodeModel) -> Seq<Seq<char>> {
    if node.is_combined {
        seq!["           components:"@] + Seq::new(
            node.components.len(),
            |i: int|
                "             - "@ + node.components[i].family + "/"@
                    + node.components[i].action_id,
        )
    } else {
        Seq::empty()
    }
}

/// The arguments of a strategy and its parts.
pub open spec fn detail_lines(node: NodeModel, imports: Seq<ImportModel>) -> Seq<Seq<char>> {
    indented(command_args(node.args, imports)) + component_lines(node)
}

fn push_details(out: &mut Vec<String>, node: &StrategyNode, imports: &Vec<BlobImport>)
    ensures
        texts(final(out)@) == texts(old(out)@) + detail_lines(node@, views(imports@)),
{
    let ghost start = texts(out@);
    let args = strategy_command_args(&node.args, imports);
    let ghost arg_lines = indented(texts(args@));
    let mut i: usize = 0;
    assert(start + arg_lines.take(0) =~= start);
    while i < args.len()
        invariant
            i <= args@.len(),
            arg_lines == indented(texts(args@)),
            texts(out@) == start + arg_lines.take(i as int),
        decreases args@.len() - i,
    {
        let line = cat2("           ", args[i].as_str());
        proof {
            texts_push(out@, line);
            assert(line@ == arg_lines[i as int]);
            assert(start + arg_lines.take(i + 1) =~= (start + arg_lines.take(i as int)).push(
                line@,
            ));
        }
        out.push(line);
        i = i + 1;
    }
    proof {
        take_all(arg_lines);
    }
    if node.is_combined {
        let ghost whole = component_lines(node@);
        let ghost upto = texts(out@);
        let title = "           components:".to_owned();
        proof {
            texts_push(out@, title);
        }
        out.push(title);
        let mut k: usize = 0;
        assert(texts(out@) =~= upto + whole.take(1));
        while k < node.components.len()
            invariant
                k <= node.components@.len(),
                node.is_combined,
                whole == component_lines(node@),
                texts(out@) == upto + whole.take(k + 1),
            decreases node.components@.len() - k,
        {
            let part: &StrategyComponent = &node.components[k];
            let line = cat4(
                "             - ",
                part.family.as_str(),
                "/",
                part.action_id.as_str(),
            );
            proof {
                texts_push(out@, line);
                assert(node@.components[k as int] == part@);
                assert(line@ == whole[k + 1]);
                assert(upto + whole.take(k + 2) =~= (upto + whole.take(k + 1)).push(line@));
            }
            out.push(line);
            k = k + 1;
        }
        assert(whole.take(whole.len() as int) =~= whole);
        assert(node@.components.len() == node.components@.len());
        assert(upto + whole =~= start + (arg_lines + whole));
    } else {
        assert(arg_lines + component_lines(node@) =~= arg_lines);
    }
}

/// The score, the name and the family of a strategy.
pub open spec fn headed(item: ScoredModel) -> Seq<char> {
    "  ["@ + padded_left(item.score_text, 6, ' ') + "] "@ + padded_right(
        report_name(item.run.node),
        36,
        ' ',
    ) + " "@ + padded_right(item.run.node.family, 12, ' ')
}

fn head_of(item: &ScoredResult) -> (r: String)
    ensures
        r@ == headed(item@),
{
    let mut line = cat3("  [", pad_left(item.score_text.as_str(), 6, ' ').as_str(), "] ");
    line.append(pad_right(strategy_report_name(&item.run.node).as_str(), 36, ' ').as_str());
    line.append(" ");
    line.append(pad_right(item.run.node.family.as_str(), 12, ' ').as_str());
    line
}

/// The lines on a strategy that succeeded.
pub open spec fn best_entry(item: ScoredModel, imports: Seq<ImportModel>) -> Seq<Seq<char>> {
    seq![
        headed(item) + " http="@ + status_text(item.run.result.http_status) + " body="@ + dec(
            item.run.result.body_bytes as nat,
        ) + "B tls="@ + ms_text(item.run.result.tls_ms) + "ms total="@ + dec(
            item.run.result.total_ms as nat,
        ) + "ms"@,
    ] + detail_lines(item.run.node, imports)
}

fn push_best(out: &mut Vec<String>, item: &ScoredResult, imports: &Vec<BlobImport>)
    ensures
        texts(final(out)@) == texts(old(out)@) + best_entry(item@, views(imports@)),
{
    let ghost start = texts(out@);
    let result = &item.run.result;
    let mut line = head_of(item);
    line.append(" http=");
    line.append(fmt_status(result.http_status).as_str());
    line.append(" body=");
    line.append(decimal(result.body_bytes as u64).as_str());
    line.append("B tls=");
    line.append(fmt_ms(result.tls_ms).as_str());
    line.append("ms total=");
    line.append(decimal(result.total_ms).as_str());
    line.append("ms");
    proof {
        texts_push(out@, line);
    }
    out.push(line);
    let ghost upto = texts(out@);
    push_details(out, &item.run.node, imports);
    assert(texts(out@) =~= start + best_entry(item@, views(imports@)));
}

/// The lines on a strategy that failed.
pub open spec fn failed_entry(item: ScoredModel, imports: Seq<ImportModel>) -> Seq<Seq<char>> {
    let head = seq![
        headed(item) + " "@ + item.run.result.outcome.label() + " / "@ + class_text(
            item.run.result.error_class,
        ),
    ];
    let error = match item.run.result.error_message {
        Some(msg) => seq!["           "@ + msg@],
        None => Seq::empty(),
    };
    head + error + detail_lines(item.run.node, imports)
}

fn push_failed(out: &mut Vec<String>, item: &ScoredResult, imports: &Vec<BlobImport>)
    ensures
        texts(final(out)@) == texts(old(out)@) + failed_entry(item@, views(imports@)),
{
    let ghost start = texts(out@);
    let result = &item.run.result;
    let mut line = head_of(item);
    line.append(" ");
    line.append(result.outcome.name());
    line.append(" / ");
    line.append(class_name(result.error_class).as_str());
    proof {
        texts_push(out@, line);
    }
    out.push(line);
    if let Some(msg) = &result.error_message {
        let detail = cat2("           ", msg.as_str());
        proof {
            texts_push(out@, detail);
        }
        out.push(detail);
    }
    push_details(out, &item.run.node, imports);
    assert(texts(out@) =~= start + failed_entry(item@, views(imports@)));
}

/// The strategies that succeeded, or those that did not, in order.
pub open spec fn with_success(items: Seq<ScoredModel>, success: bool) -> Seq<ScoredModel>
    decreases items.len(),
{
    if items.len() == 0 {
        Seq::empty()
    } else {
        let some = with_success(items.drop_last(), success);
        if (items.last().run.result.outcome == ProbeOutcome::Success) == success {
            some.push(items.last())
        } else {
            some
        }
    }
}

/// The lines on the strategies, those that succeeded or those that did not.
pub open spec fn entries(
    items: Seq<ScoredModel>,
    imports: Seq<ImportModel>,
    success: bool,
) -> Seq<Seq<char>>
    decreases items.len(),
{
    if items.len() == 0 {
        Seq::empty()
    } else {
        entries(items.drop_last(), imports, success) + if success {
            best_entry(items.last(), imports)
        } else {
            failed_entry(items.last(), imports)
        }
    }
}

/// `a` is the better strategy: it has the higher score, or it is cheaper, less risky, or
/// first by name.
pub open spec fn better(a: ScoredModel, b: ScoredModel) -> bool {
    if total_key(a.score) != total_key(b.score) {
        total_key(a.score) > total_key(b.score)
    } else if total_key(a.cost) != total_key(b.cost) {
        total_key(a.cost) < total_key(b.cost)
    } else if total_key(a.risk) != total_key(b.risk) {
        total_key(a.risk) < total_key(b.risk)
    } else {
        before(a.run.node.id, b.run.node.id)
    }
}

/// The order of the strategies by how good they are.
pub open spec fn best_order() -> spec_fn(ScoredModel, ScoredModel) -> bool {
    |a: ScoredModel, b: ScoredModel| better(a, b)
}

/// The order of the strategies by how good they are is one to sort by.
pub proof fn best_order_weak()
    ensures
        weak_order(best_order()),
{
    let o = best_order();
    assert forall|a: ScoredModel, b: ScoredModel| #[trigger] o(a, b) implies !o(b, a) by {
        before_weak(a.run.node.id, b.run.node.id, b.run.node.id);
    }
    assert forall|a: ScoredModel, b: ScoredModel, c: ScoredModel|
        !(#[trigger] o(b, a)) && !(#[trigger] o(c, b)) implies !o(c, a) by {
        before_weak(a.run.node.id, b.run.node.id, c.run.node.id);
    }
}

fn is_better(a: &&ScoredResult, b: &&ScoredResult) -> (r: bool)
    ensures
        r == better(a@, b@),
{
    if a.score != b.score {
        total_less(b.score, a.score)
    } else if a.cost != b.cost {
        total_less(a.cost, b.cost)
    } else if a.risk != b.risk {
        total_less(a.risk, b.risk)
    } else {
        less(a.run.node.id.as_str(), b.run.node.id.as_str())
    }
}

/// The best strategies come first.
pub proof fn best_come_first(items: Seq<ScoredModel>, i: int, j: int)
    requires
        0 <= i < j < with_success(items, true).len(),
    ensures
        sorted(with_success(items, true), best_order()).len() == with_success(items, true).len(),
        !better(
            sorted(with_success(items, true), best_order())[j],
            sorted(with_success(items, true), best_order())[i],
        ),
{
    let some = with_success(items, true);
    best_order_weak();
    sorted_keeps_items(some, best_order());
    sorted_in_order(some, best_order());
}

fn select_results(items: &Vec<ScoredResult>, success: bool) -> (r: Vec<&ScoredResult>)
    ensures
        views(r@) == with_success(views(items@), success),
{
    let ghost all = views(items@);
    let mut out: Vec<&ScoredResult> = Vec::new();
    let mut i: usize = 0;
    assert(views(out@) =~= with_success(all.take(0), success));
    while i < items.len()
        invariant
            i <= items@.len(),
            all == views(items@),
            views(out@) == with_success(all.take(i as int), success),
        decreases items@.len() - i,
    {
        proof {
            take_next(all, i as int);
        }
        assert(all[i as int] == items@[i as int]@);
        if (items[i].run.result.outcome == ProbeOutcome::Success) == success {
            let item: &ScoredResult = &items[i];
            proof {
                views_push(out@, item);
            }
            out.push(item);
        }
        i = i + 1;
    }
    proof {
        take_all(all);
    }
    out
}

fn push_entries(
    out: &mut Vec<String>,
    items: &Vec<&ScoredResult>,
    imports: &Vec<BlobImport>,
    success: bool,
    n: usize,
)
    requires
        n <= items@.len(),
    ensures
        texts(final(out)@) == texts(old(out)@) + entries(
            views(items@).take(n as int),
            views(imports@),
            success,
        ),
{
    let ghost start = texts(out@);
    let ghost all = views(items@).take(n as int);
    let mut i: usize = 0;
    assert(start + entries(all.take(0), views(imports@), success) =~= start);
    while i < n
        invariant
            i <= n <= items@.len(),
            all == views(items@).take(n as int),
            texts(out@) == start + entries(all.take(i as int), views(imports@), success),
        decreases n - i,
    {
        proof {
            take_next(all, i as int);
        }
        assert(all[i as int] == items@[i as int]@);
        if success {
            push_best(out, items[i], imports);
        } else {
            push_failed(out, items[i], imports);
        }
        proof {
            let x = if success {
                best_entry(all[i as int], views(imports@))
            } else {
                failed_entry(all[i as int], views(imports@))
            };
            let done_lines = entries(all.take(i as int), views(imports@), success);
            assert((start + done_lines) + x =~= start + (done_lines + x));
        }
        i = i + 1;
    }
    proof {
        take_all(all);
    }
}

// ---------------------------------------------------------------------------
// The families

/// How many strategies of a family were tried with the given success.
pub open spec fn family_count(items: Seq<ScoredModel>, family: Seq<char>, success: bool) -> nat
    decreases items.len(),
{
    if items.len() == 0 {
        0
    } else {
        family_count(items.drop_last(), family, success) + if items.last().run.node.family
            == family && (items.last().run.result.outcome == ProbeOutcome::Success) == success {
            1nat
        } else {
            0
        }
    }
}

/// The families of the strategies.
pub open spec fn families_of(items: Seq<ScoredModel>) -> Seq<Seq<char>> {
    Seq::new(items.len(), |i: int| items[i].run.node.family)
}

/// The line on a family.
pub open spec fn family_line(items: Seq<ScoredModel>, family: Seq<char>) -> Seq<char> {
    "  "@ + padded_right(family, 14, ' ') + " tested="@ + dec(
        family_count(items, family, true) + family_count(items, family, false),
    ) + " success="@ + dec(family_count(items, family, true)) + " failed="@ + dec(
        family_count(items, family, false),
    )
}

/// The lines on the families, in order.
pub open spec fn family_lines(items: Seq<ScoredModel>) -> Seq<Seq<char>> {
    let families = unique_sorted(families_of(items));
    if families.len() == 0 {
        seq!["  none"@]
    } else {
        Seq::new(families.len(), |i: int| family_line(items, families[i]))
    }
}

/// How many strategies of a family were tried.
struct FamilyCounters {
    tested: usize,
    success: usize,
    failed: usize,
}

fn count_family(items: &Vec<ScoredResult>, family: &str) -> (r: FamilyCounters)
    ensures
        r.success == family_count(views(items@), family@, true),
        r.failed == family_count(views(items@), family@, false),
        r.tested == r.success + r.failed,
{
    let ghost all = views(items@);
    let mut r = FamilyCounters { tested: 0, success: 0, failed: 0 };
    let mut i: usize = 0;
    while i < items.len()
        invariant
            i <= items@.len(),
            all == views(items@),
            r.tested <= i,
            r.success == family_count(all.take(i as int), family@, true),
            r.failed == family_count(all.take(i as int), family@, false),
            r.tested == r.success + r.failed,
        decreases items@.len() - i,
    {
        proof {
            take_next(all, i as int);
        }
        assert(all[i as int] == items@[i as int]@);
        if str_eq(items[i].run.node.family.as_str(), family) {
            r.tested = r.tested + 1;
            if items[i].run.result.outcome == ProbeOutcome::Success {
                r.success = r.success + 1;
            } else {
                r.failed = r.failed + 1;
            }
        }
        i = i + 1;
    }
    proof {
        take_all(all);
    }
    r
}

fn families(items: &Vec<ScoredResult>) -> (r: Vec<String>)
    ensures
        texts(r@) == families_of(views(items@)),
{
    let mut out: Vec<String> = Vec::new();
    let mut i: usize = 0;
    while i < items.len()
        invariant
            i <= items@.len(),
            out@.len() == i,
            forall|j: int| 0 <= j < i ==> (#[trigger] out@[j])@ == items@[j].run.node.family@,
        decreases items@.len() - i,
    {
        out.push(items[i].run.node.family.clone());
        i = i + 1;
    }
    assert(texts(out@) =~= families_of(views(items@)));
    out
}

fn print_families(items: &Vec<ScoredResult>) -> (r: Vec<String>)
    ensures
        texts(r@) == family_lines(views(items@)),
{
    let ghost all = views(items@);
    let names = sort_unique(&families(items));
    let ghost want = family_lines(all);
    let mut out: Vec<String> = Vec::new();
    assert(texts(names@).len() == names@.len());
    if names.len() == 0 {
        out.push("  none".to_owned());
        assert(texts(out@) =~= want);
        return out;
    }
    let mut i: usize = 0;
    while i < names.len()
        invariant
            i <= names@.len(),
            all == views(items@),
            names@.len() > 0,
            texts(names@) == unique_sorted(families_of(all)),
            want == family_lines(all),
            texts(out@) =~= want.take(i as int),
            want.len() == names@.len(),
        decreases names@.len() - i,
    {
        let family = names[i].as_str();
        let counters = count_family(items, family);
        let mut line = cat2("  ", pad_right(family, 14, ' ').as_str());
        line.append(" tested=");
        line.append(decimal(counters.tested as u64).as_str());
        line.append(" success=");
        line.append(decimal(counters.success as u64).as_str());
        line.append(" failed=");
        line.append(decimal(counters.failed as u64).as_str());
        proof {
            assert(texts(names@)[i as int] == family@);
            assert(line@ == family_line(all, family@));
            assert(line@ == want[i as int]);
            texts_push(out@, line);
            assert(want.take(i + 1) =~= want.take(i as int).push(line@));
        }
        out.push(line);
        i = i + 1;
    }
    proof {
        take_all(want);
    }
    out
}

// ---------------------------------------------------------------------------
// The report

/// The lines on the target.
pub open spec fn target_lines(o: CheckOutput) -> Seq<Seq<char>> {
    seq![
        "Target"@,
        "  url:        "@ + o.target@,
        "  scheme:     "@ + o.target_scheme.label(),
        "  host:       "@ + o.baseline.target_host@,
        "  ip:         "@ + o.baseline.target_ip.text@,
        "  port:       "@ + dec(o.baseline.target_port as nat),
        "  protocol:   "@ + o.baseline.protocol.label(),
        "  method:     "@ + o.request.method.name(),
        "  path:       "@ + o.baseline.path@,
        "  read_mode:  "@ + o.baseline.read_mode.label(),
        "  user-agent: "@ + o.request.user_agent@,
        "  tests:      "@ + dec(o.test_count as nat),
        ""@,
    ]
}

fn print_target(o: &CheckOutput) -> (r: Vec<String>)
    ensures
        texts(r@) == target_lines(*o),
{
    let mut out: Vec<String> = Vec::new();
    out.push("Target".to_owned());
    out.push(cat2("  url:        ", o.target.as_str()));
    out.push(cat2("  scheme:     ", o.target_scheme.name()));
    out.push(cat2("  host:       ", o.baseline.target_host.as_str()));
    out.push(cat2("  ip:         ", o.baseline.target_ip.text.as_str()));
    out.push(cat2("  port:       ", decimal(o.baseline.target_port as u64).as_str()));
    out.push(cat2("  protocol:   ", o.baseline.protocol.name()));
    out.push(cat2("  method:     ", o.request.method.as_str()));
    out.push(cat2("  path:       ", o.baseline.path.as_str()));
    out.push(cat2("  read_mode:  ", o.baseline.read_mode.name()));
    out.push(cat2("  user-agent: ", o.request.user_agent.as_str()));
    out.push(number_line("  tests:      ", o.test_count));
    out.push("".to_owned());
    assert(texts(out@) =~= target_lines(*o));
    out
}

/// The lines on the probe without a strategy.
pub open spec fn baseline_lines(o: CheckOutput) -> Seq<Seq<char>> {
    seq!["Baseline"@] + probe_lines("  "@, o.baseline) + seq![""@, ""@]
}

fn print_baseline(o: &CheckOutput) -> (r: Vec<String>)
    ensures
        texts(r@) == baseline_lines(*o),
{
    let mut out: Vec<String> = Vec::new();
    out.push("Baseline".to_owned());
    assert(texts(out@) =~= seq!["Baseline"@]);
    append_texts(&mut out, &print_probe_result("  ", &o.baseline));
    let ghost upto = texts(out@);
    out.push("".to_owned());
    out.push("".to_owned());
    assert(texts(out@) =~= upto + seq![""@, ""@]);
    out
}

/// The lines on the workers.
pub open spec fn parallelism_lines(o: CheckOutput) -> Seq<Seq<char>> {
    seq![
        "Parallelism"@,
        "  workers: "@ + dec(o.workers_count as nat),
        "  active_model: nfqws-per-task"@,
        "  isolation: "@ + o.isolation_mode@,
        ""@,
    ]
}

fn print_parallelism(o: &CheckOutput) -> (r: Vec<String>)
    ensures
        texts(r@) == parallelism_lines(*o),
{
    let mut out: Vec<String> = Vec::new();
    out.push("Parallelism".to_owned());
    out.push(number_line("  workers: ", o.workers_count));
    out.push("  active_model: nfqws-per-task".to_owned());
    out.push(cat2("  isolation: ", o.isolation_mode.as_str()));
    out.push("".to_owned());
    assert(texts(out@) =~= parallelism_lines(*o));
    out
}

/// The lines on how many strategies there were.
pub open spec fn summary_lines(o: CheckOutput) -> Seq<Seq<char>> {
    seq![
        "Summary"@,
        "  generated: "@ + dec(o.generated_count as nat),
        "  tested:   "@ + dec(o.results@.len()),
        "  success:  "@ + dec(with_success(views(o.results@), true).len()),
        "  failed:   "@ + dec(with_success(views(o.results@), false).len()),
        "  search_mode: "@ + o.search_mode@,
        "  round_robin: "@ + truth(o.round_robin_families),
        "  test_targets: "@ + joined(without_repeats(texts(o.test_targets@)), ", "@),
        "  stop_at_success: "@ + limit_text(o.successful_strategy_limit),
        ""@,
    ]
}

/// Every strategy either succeeded or did not.
pub proof fn successes_and_failures(items: Seq<ScoredModel>)
    ensures
        with_success(items, true).len() + with_success(items, false).len() == items.len(),
    decreases items.len(),
{
    if items.len() > 0 {
        successes_and_failures(items.drop_last());
    }
}

/// What is said after the strategies were tried.
pub fn pool_done_line(results: &Vec<ScoredResult>) -> (r: String)
    ensures
        r@ == "info(checker::pool): done tested="@ + dec(results@.len()) + " success="@ + dec(
            with_success(views(results@), true).len(),
        ) + " failed="@ + dec(with_success(views(results@), false).len()),
{
    let success = select_results(results, true);
    let failed = select_results(results, false);
    proof {
        assert(views(success@).len() == success@.len());
        assert(views(failed@).len() == failed@.len());
    }
    let mut line = number_line("info(checker::pool): done tested=", results.len());
    line.append(" success=");
    line.append(decimal(success.len() as u64).as_str());
    line.append(" failed=");
    line.append(decimal(failed.len() as u64).as_str());
    line
}

fn print_summary(o: &CheckOutput) -> (r: Vec<String>)
    ensures
        texts(r@) == summary_lines(*o),
{
    let total: usize = o.results.len();
    let chosen = select_results(&o.results, true);
    let success: usize = chosen.len();
    proof {
        successes_and_failures(views(o.results@));
        assert(views(chosen@).len() == chosen@.len());
        assert(views(o.results@).len() == o.results@.len());
    }
    let failed: usize = total - success;
    let mut out: Vec<String> = Vec::new();
    out.push("Summary".to_owned());
    out.push(number_line("  generated: ", o.generated_count));
    out.push(number_line("  tested:   ", total));
    out.push(number_line("  success:  ", success));
    out.push(number_line("  failed:   ", failed));
    out.push(cat2("  search_mode: ", o.search_mode.as_str()));
    out.push(cat2("  round_robin: ", truth_text(o.round_robin_families)));
    out.push(
        cat2("  test_targets: ", join(&dedup_preserve_order(&o.test_targets), ", ").as_str()),
    );
    out.push(cat2("  stop_at_success: ", fmt_limit(o.successful_strategy_limit).as_str()));
    out.push("".to_owned());
    assert(texts(out@) =~= summary_lines(*o));
    out
}

/// The lines on the configured values.
pub open spec fn values_lines(values: StrategyValuesConfig) -> Seq<Seq<char>> {
    seq![
        "Strategy values"@,
        "  mode: "@ + values.mode@,
        "  http params: "@ + param_names(values, "http"@),
        "  tls params: "@ + param_names(values, "tls"@),
        "  quic params: "@ + param_names(values, "quic"@),
        ""@,
    ]
}

fn print_values(values: &StrategyValuesConfig) -> (r: Vec<String>)
    ensures
        texts(r@) == values_lines(*values),
{
    let mut out: Vec<String> = Vec::new();
    out.push("Strategy values".to_owned());
    out.push(cat2("  mode: ", values.mode.as_str()));
    out.push(cat2("  http params: ", strategy_param_names(values, "http").as_str()));
    out.push(cat2("  tls params: ", strategy_param_names(values, "tls").as_str()));
    out.push(cat2("  quic params: ", strategy_param_names(values, "quic").as_str()));
    out.push("".to_owned());
    assert(texts(out@) =~= values_lines(*values));
    out
}

/// The line on the payloads of a protocol.
pub open spec fn payload_line(label: Seq<char>, p: PayloadProtocolSummary) -> Seq<char> {
    label + "builtin="@ + dec(p.builtin as nat) + " files="@ + dec(p.files as nat)
}

fn print_payload_line(label: &str, p: &PayloadProtocolSummary) -> (r: String)
    ensures
        r@ == payload_line(label@, *p),
{
    cat5(
        label,
        "builtin=",
        decimal(p.builtin as u64).as_str(),
        " files=",
        decimal(p.files as u64).as_str(),
    )
}

/// The lines on the payloads, where they were counted.
pub open spec fn payloads_lines(summary: Option<PayloadSummary>) -> Seq<Seq<char>> {
    match summary {
        None => Seq::empty(),
        Some(p) => seq![
            "Payloads"@,
            payload_line("  http: "@, p.http),
            payload_line("  tls:  "@, p.tls),
            payload_line("  quic: "@, p.quic),
            "  base_dir: "@ + match p.base_dir {
                Some(dir) => dir@,
                None => "-"@,
            },
            "  auto_load: "@ + truth(p.auto_load),
            ""@,
        ],
    }
}

fn print_payloads(summary: &Option<PayloadSummary>) -> (r: Vec<String>)
    ensures
        texts(r@) == payloads_lines(*summary),
{
    let mut out: Vec<String> = Vec::new();
    if let Some(p) = summary {
        out.push("Payloads".to_owned());
        out.push(print_payload_line("  http: ", &p.http));
        out.push(print_payload_line("  tls:  ", &p.tls));
        out.push(print_payload_line("  quic: ", &p.quic));
        let dir = match &p.base_dir {
            Some(dir) => dir.as_str(),
            None => "-",
        };
        out.push(cat2("  base_dir: ", dir));
        out.push(cat2("  auto_load: ", truth_text(p.auto_load)));
        out.push("".to_owned());
    }
    assert(texts(out@) =~= payloads_lines(*summary));
    out
}

/// The lines on the combined strategies, where they were counted.
pub open spec fn combinations_lines(summary: Option<CombinationSummary>) -> Seq<Seq<char>> {
    match summary {
        None => Seq::empty(),
        Some(c) => seq![
            "Combinations"@,
            "  enabled: "@ + truth(c.enabled),
            "  allowed_pairs: "@ + dec(c.allowed_pairs as nat),
            "  generated: "@ + dec(c.generated as nat),
            ""@,
        ],
    }
}

fn print_combinations(summary: &Option<CombinationSummary>) -> (r: Vec<String>)
    ensures
        texts(r@) == combinations_lines(*summary),
{
    let mut out: Vec<String> = Vec::new();
    if let Some(c) = summary {
        out.push("Combinations".to_owned());
        out.push(cat2("  enabled: ", truth_text(c.enabled)));
        out.push(number_line("  allowed_pairs: ", c.allowed_pairs));
        out.push(number_line("  generated: ", c.generated));
        out.push("".to_owned());
    }
    assert(texts(out@) =~= combinations_lines(*summary));
    out
}

/// The lines on the strategies that succeeded, the best ones first.
pub open spec fn best_lines(o: CheckOutput) -> Seq<Seq<char>> {
    let best = sorted(with_success(views(o.results@), true), best_order());
    seq!["Best strategies"@] + (if best.len() == 0 {
        seq!["  none"@]
    } else {
        entries(best, views(o.payload_blob_imports@), true)
    }) + seq![""@]
}

fn print_best(o: &CheckOutput) -> (r: Vec<String>)
    ensures
        texts(r@) == best_lines(*o),
{
    proof {
        best_order_weak();
    }
    let best = stable_sort(select_results(&o.results, true), is_better, Ghost(best_order()));
    let ghost all = views(best@);
    assert(all.len() == best@.len());
    let mut out: Vec<String> = Vec::new();
    out.push("Best strategies".to_owned());
    assert(texts(out@) =~= seq!["Best strategies"@]);
    let ghost title = texts(out@);
    if best.len() == 0 {
        out.push("  none".to_owned());
        assert(texts(out@) =~= title + seq!["  none"@]);
    } else {
        let n: usize = best.len();
        push_entries(&mut out, &best, &o.payload_blob_imports, true, n);
        proof {
            take_all(all);
        }
    }
    let ghost upto = texts(out@);
    out.push("".to_owned());
    assert(texts(out@) =~= upto + seq![""@]);
    out
}

/// The first ones of a list, and no more than `limit`.
pub open spec fn at_most(items: Seq<ScoredModel>, limit: int) -> Seq<ScoredModel> {
    if items.len() <= limit {
        items
    } else {
        items.take(limit)
    }
}

/// The lines on the first of the strategies that did not succeed.
pub open spec fn failed_lines(o: CheckOutput) -> Seq<Seq<char>> {
    seq!["Failed strategies"@] + entries(
        at_most(with_success(views(o.results@), false), 20),
        views(o.payload_blob_imports@),
        false,
    )
}

fn print_failed(o: &CheckOutput) -> (r: Vec<String>)
    ensures
        texts(r@) == failed_lines(*o),
{
    let failed = select_results(&o.results, false);
    let ghost all = views(failed@);
    assert(all.len() == failed@.len());
    let n: usize = if failed.len() <= 20 {
        failed.len()
    } else {
        20
    };
    let mut out: Vec<String> = Vec::new();
    out.push("Failed strategies".to_owned());
    assert(texts(out@) =~= seq!["Failed strategies"@]);
    push_entries(&mut out, &failed, &o.payload_blob_imports, false, n);
    proof {
        take_all(all);
    }
    out
}

/// The lines of the report on a check.
pub open spec fn report_lines(o: CheckOutput, values: StrategyValuesConfig) -> Seq<Seq<char>> {
    target_lines(o) + baseline_lines(o) + parallelism_lines(o) + summary_lines(o) + values_lines(
        values,
    ) + payloads_lines(o.payload_summary) + combinations_lines(o.combination_summary) + seq![
        "Families"@,
    ] + family_lines(views(o.results@)) + seq![""@] + best_lines(o) + failed_lines(o)
}

/// The lines of the report on a check.
pub fn print_check_report(output: &CheckOutput, strategy_values: &StrategyValuesConfig) -> (r: Vec<
    String,
>)
    ensures
        texts(r@) == report_lines(*output, *strategy_values),
{
    let mut out = print_target(output);
    append_texts(&mut out, &print_baseline(output));
    append_texts(&mut out, &print_parallelism(output));
    append_texts(&mut out, &print_summary(output));
    append_texts(&mut out, &print_values(strategy_values));
    append_texts(&mut out, &print_payloads(&output.payload_summary));
    append_texts(&mut out, &print_combinations(&output.combination_summary));
    let ghost upto = texts(out@);
    out.push("Families".to_owned());
    assert(texts(out@) =~= upto + seq!["Families"@]);
    append_texts(&mut out, &print_families(&output.results));
    let ghost upto = texts(out@);
    out.push("".to_owned());
    assert(texts(out@) =~= upto + seq![""@]);
    append_texts(&mut out, &print_best(output));
    append_texts(&mut out, &print_failed(output));
    out
}

} // verus!
