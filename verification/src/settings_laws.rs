use vstd::prelude::*;
use crate::bayes::{step_of, PosteriorModel, PosteriorStep};
use crate::config::AppConfig;
use crate::firewall::{
    hook_named, nft_add_chain_args, nft_add_table_args, nft_delete_table_args, setup_commands,
    FirewallHook, NftablesFirewallManager,
};
use crate::graph::{GraphLoadOptions, NodeModel};
use crate::isolation::mark_value;
use crate::path::parent_of;
use crate::payload_registry::PayloadAliases;
use crate::scheduler::{all_judged, judged, noted_after, succeeded, tasks_of, workers_for};
use crate::scoring::ScoreTerm;
use crate::settings::{
    backend_named, baseline_ends_check, binary_fault, by_marks, count_or_fault,
    domain_protocol_fault, domain_target, domains_fault, has_protocol, is_firewall_for,
    is_plain_task, is_request_by, library_dirs, library_fault, loads_for, primary_target,
    protocol_named, protocol_selected, request_choice, strategies_path, strategy_target,
    tests_wanted, timeouts_of, Backend, BinaryState, FirewallChoice, LibraryState,
};
use crate::text::has_text;
use crate::types::{
    target_named, FailureKind, HostIp, HttpMethod, HttpRequestSpec, ProbeErrorClass, ProbeOutcome,
    ProbeProtocol, ProbeResult, ProbeTask, ProbeTimeouts, ReadMode, StrategyProbeTarget,
    TargetModel, TargetRequest,
};
use crate::worker::WorkerAssignment;
use crate::worker_pool::PoolResultModel;

verus! {

// ---------------------------------------------------------------------------
// What a check is asked for

/// Each protocol is named by its own key, and by nothing else.
pub proof fn keys_name_protocols(key: Seq<char>)
    ensures
        protocol_named(key) == Ok::<ProbeProtocol, Seq<char>>(ProbeProtocol::HttpPlain) <==> key
            == "http"@,
        protocol_named(key) == Ok::<ProbeProtocol, Seq<char>>(ProbeProtocol::Tls12Http11) <==> key
            == "tls12"@,
        protocol_named(key) == Ok::<ProbeProtocol, Seq<char>>(ProbeProtocol::Tls13Http11) <==> key
            == "tls13"@,
        protocol_named(key) == Ok::<ProbeProtocol, Seq<char>>(ProbeProtocol::QuicHttp3Future)
            <==> key == "quic"@,
        protocol_named(key) is Err <==> key != "http"@ && key != "tls12"@ && key != "tls13"@ && key
            != "quic"@,
{
    reveal_strlit("http");
    reveal_strlit("tls12");
    reveal_strlit("tls13");
    reveal_strlit("quic");
    assert("http"@[0] != "quic"@[0]);
    assert("http"@.len() != "tls12"@.len());
    assert("tls12"@[4] != "tls13"@[4]);
}

/// Each protocol has its own switch.
pub proof fn switches_are_for_their_protocols(cfg: AppConfig)
    ensures
        has_protocol(cfg, ProbeProtocol::HttpPlain) == cfg.probe.protocols.http,
        has_protocol(cfg, ProbeProtocol::Tls12Http11) == cfg.probe.protocols.tls12,
        has_protocol(cfg, ProbeProtocol::Tls13Http11) == cfg.probe.protocols.tls13,
        has_protocol(cfg, ProbeProtocol::QuicHttp3Future) == cfg.probe.protocols.quic,
{
}

/// The protocol that was asked for is used, and the preferred one only where none was; one
/// that is switched off is never used.
pub proof fn asked_protocol_is_used(cfg: AppConfig, asked: Option<Seq<char>>)
    ensures
        ({
            let key = if asked is Some {
                asked->0
            } else {
                cfg.probe.protocols.preferred@
            };
            &&& protocol_selected(cfg, asked) matches Ok(p) ==> protocol_named(key) == Ok::<
                ProbeProtocol,
                Seq<char>,
            >(p) && has_protocol(cfg, p)
            &&& protocol_selected(cfg, asked) is Ok <==> protocol_named(key) is Ok && has_protocol(
                cfg,
                protocol_named(key)->Ok_0,
            )
        }),
{
}

/// What was asked for goes before what is configured, each for itself; a least body that can
/// never be read is refused.
pub proof fn asked_request_is_made(
    cfg: AppConfig,
    method: Option<HttpMethod>,
    read_mode: Option<ReadMode>,
    min_body_bytes: Option<usize>,
    max_read_bytes: Option<usize>,
)
    ensures
        ({
            let choice = request_choice(cfg, method, read_mode, min_body_bytes, max_read_bytes);
            let least = if min_body_bytes is Some {
                min_body_bytes->0
            } else {
                cfg.probe.min_body_bytes
            };
            let most = if max_read_bytes is Some {
                max_read_bytes->0
            } else {
                cfg.probe.max_read_bytes
            };
            &&& choice is Ok <==> least <= most && HttpMethod::configured(cfg.probe.method@) is Ok
                && ReadMode::configured(cfg.probe.read_mode@) is Ok
            &&& choice matches Ok((m, r, min, max)) ==> {
                &&& min == least && max == most
                &&& method is Some ==> m == method->0
                &&& method is None ==> HttpMethod::configured(cfg.probe.method@) == Ok::<
                    HttpMethod,
                    Seq<char>,
                >(m)
                &&& read_mode is Some ==> r == read_mode->0
                &&& read_mode is None ==> ReadMode::configured(cfg.probe.read_mode@) == Ok::<
                    ReadMode,
                    Seq<char>,
                >(r)
            }
        }),
{
}

/// A configured domain is read as a URL if and only if it has a scheme, and else as a host.
pub proof fn domains_are_urls_or_hosts(
    domain: Seq<char>,
    selected: ProbeProtocol,
    explicit: bool,
)
    ensures
        has_text(domain, "://"@) ==> domain_target(domain, selected, explicit) == target_named(
            None,
            Some(domain),
            selected,
            explicit,
        ),
        !has_text(domain, "://"@) ==> domain_target(domain, selected, explicit) == target_named(
            Some(domain),
            None,
            selected,
            explicit,
        ),
{
}

/// The target that was named goes before the configured domains, of which only the first is
/// ever the target.
pub proof fn named_target_goes_first(
    cfg: AppConfig,
    host: Option<Seq<char>>,
    url: Option<Seq<char>>,
    selected: ProbeProtocol,
    explicit: bool,
)
    ensures
        host is Some || url is Some ==> primary_target(cfg, host, url, selected, explicit)
            == target_named(host, url, selected, explicit),
        host is None && url is None && cfg.probe.base_domains@.len() > 0 ==> primary_target(
            cfg,
            host,
            url,
            selected,
            explicit,
        ) == domain_target(cfg.probe.base_domains@[0]@, selected, explicit),
        host is None && url is None && cfg.probe.base_domains@.len() == 0 ==> primary_target(
            cfg,
            host,
            url,
            selected,
            explicit,
        ) is Err,
{
}

/// A domain is refused if and only if its protocol is switched off.
pub proof fn domains_need_their_protocol(cfg: AppConfig, parsed: TargetModel)
    ensures
        domain_protocol_fault(cfg, parsed) is None <==> has_protocol(cfg, parsed.protocol),
{
}

/// The target of strategies is the target that was read, at the address that was found, with
/// the common request for its own path.
pub proof fn strategy_targets_keep_what_was_read(
    parsed: TargetRequest,
    ip: HostIp,
    request: HttpRequestSpec,
)
    ensures
        ({
            let t = strategy_target(parsed, ip, request);
            &&& t.host == parsed.host && t.port == parsed.port && t.protocol == parsed.protocol
            &&& t.ip == ip && t.original == parsed.original
            &&& t.request.path_and_query == parsed.path_and_query
            &&& t.request.method == request.method && t.request.read_mode == request.read_mode
            &&& t.request.min_body_bytes == request.min_body_bytes
            &&& t.request.user_agent == request.user_agent
        }),
{
}

/// A strategy is tested at least once, and as often as was asked for.
pub proof fn tests_are_counted(n: usize)
    ensures
        count_or_fault(n) is Err <==> n == 0,
        n > 0 ==> count_or_fault(n) == Ok::<usize, Seq<char>>(n),
{
}

/// There are two backends by their names, and the one that runs another program has to be let.
pub proof fn backends_have_their_names(name: Seq<char>, curl_allowed: bool)
    ensures
        backend_named(name, curl_allowed) == Ok::<Backend, Seq<char>>(Backend::Curl) <==> name
            == "curl"@ && curl_allowed,
        backend_named(name, curl_allowed) == Ok::<Backend, Seq<char>>(Backend::Native) <==> name
            == "native"@,
{
    reveal_strlit("curl");
    reveal_strlit("native");
    assert("curl"@.len() != "native"@.len());
}

/// After the probe without a strategy the check ends if and only if that probe failed by the
/// check's own fault, was cancelled, or could not connect to the target. A target that answered
/// badly, was reset or timed out later is one that strategies are for.
pub proof fn checks_go_on_where_strategies_may_help(
    kind: Option<FailureKind>,
    class: Option<ProbeErrorClass>,
)
    ensures
        kind == Some(FailureKind::InfrastructureFailure) ==> baseline_ends_check(kind, class),
        kind == Some(FailureKind::Cancelled) ==> baseline_ends_check(kind, class),
        kind == Some(FailureKind::TargetFailure) ==> (baseline_ends_check(kind, class) <==> class
            == Some(ProbeErrorClass::ConnectTimeout) || class == Some(
            ProbeErrorClass::ConnectFailed,
        )),
        kind is None || kind == Some(FailureKind::StrategyFailure) ==> !baseline_ends_check(
            kind,
            class,
        ),
{
}

/// The packet filter is fit if and only if it is a program, and a path of libraries if and only
/// if it is a directory.
pub proof fn only_programs_are_run(path: Seq<char>, state: BinaryState, library: LibraryState)
    ensures
        binary_fault(path, state) is None <==> state is Program,
        library_fault(path, library) is None <==> library is Directory,
{
}

/// The paths of libraries that were asked for go before the configured ones, and those before
/// the directory of the program.
pub proof fn asked_libraries_are_used(
    configured: Seq<Seq<char>>,
    binary: Seq<char>,
    asked: Seq<Seq<char>>,
)
    ensures
        asked.len() > 0 ==> library_dirs(configured, binary, asked) == asked,
        asked.len() == 0 && configured.len() > 0 ==> library_dirs(configured, binary, asked)
            == configured,
        asked.len() == 0 && configured.len() == 0 ==> match parent_of(binary) {
            Some(dir) => library_dirs(configured, binary, asked) == seq![dir],
            None => library_dirs(configured, binary, asked).len() == 0,
        },
{
}

/// Packets are led by marks if and only if the workers are told apart by marks and the map of
/// marks is asked for.
pub proof fn marks_are_used_where_asked_for(cfg: AppConfig)
    ensures
        by_marks(cfg) <==> cfg.isolation.mode@ == "fwmark"@ && cfg.isolation.use_nft_vmap,
{
    reveal_strlit("fwmark");
    reveal_strlit("source_port");
    assert("fwmark"@.len() != "source_port"@.len());
}

/// One hook is named by its word, and every other word is for the other hook.
pub proof fn hooks_have_their_words(word: Seq<char>)
    ensures
        hook_named(word) == FirewallHook::Postrouting <==> word == "postrouting"@,
        hook_named(word) == FirewallHook::Output <==> word != "postrouting"@,
{
}

/// A table is made before its chain, and where it shall be cleaned up what is left of it is
/// deleted before that.
pub proof fn tables_are_made_first(m: NftablesFirewallManager)
    ensures
        ({
            let commands = setup_commands(m);
            let n = commands.len() as int;
            &&& n == if m.cleanup_on_start {
                3int
            } else {
                2
            }
            &&& commands[n - 2] == nft_add_table_args(m.table@)
            &&& commands[n - 1] == nft_add_chain_args(m.table@, m.hook, m.priority@)
            &&& m.cleanup_on_start ==> commands[0] == nft_delete_table_args(m.table@)
        }),
{
}

// ---------------------------------------------------------------------------
// Workers and results

/// There is always a worker, there are never more than were asked for, and never one without a
/// queue of its own; as many as were asked for there are wherever there are queues for them.
pub proof fn workers_have_queues(count: usize, queue_base: u16)
    ensures
        workers_for(count, queue_base) >= 1,
        count >= 1 ==> workers_for(count, queue_base) <= count,
        queue_base + workers_for(count, queue_base) - 1 <= 65535,
        count >= 1 && queue_base + count - 1 <= 65535 ==> workers_for(count, queue_base) == count,
        count >= 1 && queue_base + count - 1 > 65535 ==> queue_base + workers_for(count, queue_base)
            - 1 == 65535,
{
}

/// A result is judged as it came: nothing of it is changed, and its score is that of a success
/// if and only if it succeeded and the infrastructure held.
pub proof fn results_are_judged_as_they_came(item: PoolResultModel)
    ensures
        judged(item).node == item.node,
        judged(item).result == item.result,
        judged(item).attempts == item.attempts,
        judged(item).worker_id == item.worker_id,
        judged(item).qnum == item.qnum,
        judged(item).score == ScoreTerm::Success <==> item.result.outcome == ProbeOutcome::Success
            && item.result.failure_kind != Some(FailureKind::InfrastructureFailure),
{
}

/// What is learnt of a result: nothing where it is of another strategy, where the
/// infrastructure failed, and nothing but that the strategy is known where the probe was
/// cancelled. Otherwise one test more is counted, and the last thing noted is a success, a
/// timeout or a failure, as the probe ended.
pub proof fn results_are_learnt_one_by_one(
    start: Option<PosteriorModel>,
    items: Seq<PoolResultModel>,
    key: Seq<char>,
)
    requires
        items.len() > 0,
        noted_after(start, items.drop_last(), key) matches Some(p) ==> p.tests < u64::MAX,
    ensures
        ({
            let before = noted_after(start, items.drop_last(), key);
            let after = noted_after(start, items, key);
            let last = items.last();
            let known = match before {
                Some(p) => p,
                None => PosteriorModel::untested(last.node.weights.prior()),
            };
            let outcome = last.result.outcome;
            let counts = last.node.id == key && last.result.failure_kind != Some(
                FailureKind::InfrastructureFailure,
            );
            &&& !counts ==> after == before
            &&& counts ==> after is Some && after->0.alpha == known.alpha && after->0.beta
                == known.beta
            &&& counts && outcome == ProbeOutcome::Cancelled ==> after == Some(known)
            &&& counts && outcome != ProbeOutcome::Cancelled ==> after->0.tests == known.tests + 1
                && after->0.steps.drop_last() == known.steps && after->0.steps.last()
                == if outcome == ProbeOutcome::Success {
                PosteriorStep::Success
            } else if outcome == ProbeOutcome::Timeout {
                PosteriorStep::Timeout
            } else {
                PosteriorStep::Failure
            }
        }),
{
    let last = items.last();
    let known = match noted_after(start, items.drop_last(), key) {
        Some(p) => p,
        None => PosteriorModel::untested(last.node.weights.prior()),
    };
    assert(known.tests < u64::MAX);
    let step = step_of(last.result.failure_kind, last.result.outcome);
    assert(known.steps.push(step).drop_last() =~= known.steps);
}

/// The successes among the attempts are counted: each success is one more, all are counted
/// where all succeeded, and none where none did.
pub proof fn successes_are_counted(attempts: Seq<ProbeResult>)
    ensures
        succeeded(attempts) <= attempts.len(),
        succeeded(attempts) == attempts.len() <==> forall|i: int|
            #![trigger attempts[i]]
            0 <= i < attempts.len() ==> attempts[i].outcome == ProbeOutcome::Success,
        succeeded(attempts) == 0 <==> forall|i: int|
            #![trigger attempts[i]]
            0 <= i < attempts.len() ==> attempts[i].outcome != ProbeOutcome::Success,
        attempts.len() > 0 ==> succeeded(attempts) == succeeded(attempts.drop_last()) + if
            attempts.last().outcome == ProbeOutcome::Success {
            1int
        } else {
            0
        },
    decreases attempts.len(),
{
    if attempts.len() > 0 {
        let init = attempts.drop_last();
        successes_are_counted(init);
        assert(forall|i: int|
            #![trigger attempts[i]]
            0 <= i < init.len() ==> init[i] == attempts[i]);
        assert(forall|i: int| 0 <= i < init.len() ==> #[trigger] init[i] == attempts[i]);
        assert(attempts[attempts.len() - 1] == attempts.last());
    }
}

/// What was asked for goes before what is configured: the number of tests, which is never
/// zero, and the file of the strategies, which lies in the directory that was asked for.
pub proof fn asked_tests_and_files_are_used(
    cfg: AppConfig,
    asked: Option<usize>,
    dir: Option<Seq<char>>,
)
    ensures
        asked matches Some(n) ==> n > 0 ==> tests_wanted(cfg, asked) == Ok::<usize, Seq<char>>(n),
        asked == Some(0usize) ==> tests_wanted(cfg, asked) is Err,
        asked is None && cfg.probe.test_count > 0 ==> tests_wanted(cfg, asked) == Ok::<
            usize,
            Seq<char>,
        >(cfg.probe.test_count),
        dir is None ==> strategies_path(cfg, dir) == cfg.strategies.file@,
        dir matches Some(d) ==> d.len() > 0 && d.last() != '/' ==> strategies_path(cfg, dir) == d
            + "/strategies.yaml"@,
        domains_fault(cfg) is None <==> cfg.probe.base_domains@.len() > 0,
{
    reveal_strlit("strategies.yaml");
    reveal_strlit("/");
    reveal_strlit("/strategies.yaml");
    assert("/strategies.yaml"@ =~= "/"@ + "strategies.yaml"@);
    if let Some(d) = dir {
        assert(d + "/"@ + "strategies.yaml"@ =~= d + ("/"@ + "strategies.yaml"@));
    }
}

/// The firewall is the one that the configuration asks for: the map of marks where packets are
/// led by marks, else iptables where that is named, and else nftables; and it works on the
/// table, the hook and the priority that are configured, and on all the workers' marks.
pub proof fn firewalls_are_as_configured(
    r: FirewallChoice,
    cfg: AppConfig,
    assignments: Vec<WorkerAssignment>,
)
    requires
        is_firewall_for(r, cfg, assignments),
    ensures
        r is Vmap <==> cfg.isolation.mode@ == "fwmark"@ && cfg.isolation.use_nft_vmap,
        r is Iptables <==> !(r is Vmap) && cfg.firewall.backend@ == "iptables"@,
        r is Nftables <==> !(r is Vmap) && cfg.firewall.backend@ != "iptables"@,
        r matches FirewallChoice::Vmap(m) ==> {
            &&& m.table == cfg.firewall.table && m.priority == cfg.firewall.priority
            &&& m.hook == FirewallHook::Postrouting <==> cfg.firewall.hook@ == "postrouting"@
            &&& m.cleanup_on_start == cfg.firewall.cleanup_on_start
            &&& m.assignments == assignments
            &&& mark_value(cfg.isolation.desync_mark@) matches Ok(mark) ==> m.desync_mark == mark
        },
        r matches FirewallChoice::Nftables(m) ==> {
            &&& m.table == cfg.firewall.table && m.priority == cfg.firewall.priority
            &&& m.hook == FirewallHook::Postrouting <==> cfg.firewall.hook@ == "postrouting"@
            &&& m.cleanup_on_start == cfg.firewall.cleanup_on_start
        },
{
    marks_are_used_where_asked_for(cfg);
}

/// The request of a check is for the root, in the name of the configured client, by the method
/// and with the limits that were chosen.
pub proof fn requests_are_as_chosen(
    req: HttpRequestSpec,
    cfg: AppConfig,
    choice: (HttpMethod, ReadMode, usize, usize),
)
    requires
        is_request_by(req, cfg, choice),
    ensures
        req.path_and_query@ == "/"@,
        req.user_agent == cfg.probe.user_agent,
        req.method == choice.0 && req.read_mode == choice.1,
        req.min_body_bytes == choice.2 && req.max_read_bytes == choice.3,
{
}

/// Every strategy waits once to be tried, in its order and at its own place, with all its
/// targets.
pub proof fn every_strategy_waits(
    nodes: Seq<NodeModel>,
    targets: Seq<StrategyProbeTarget>,
    timeouts: ProbeTimeouts,
    i: int,
)
    requires
        0 <= i < nodes.len(),
        nodes.len() <= usize::MAX,
    ensures
        tasks_of(nodes, targets, timeouts).len() == nodes.len(),
        tasks_of(nodes, targets, timeouts)[i].strategy_index == i,
        tasks_of(nodes, targets, timeouts)[i].node == nodes[i],
        tasks_of(nodes, targets, timeouts)[i].targets == targets,
        tasks_of(nodes, targets, timeouts)[i].timeouts == timeouts,
{
}

/// Every result is judged, at the place where it came.
pub proof fn every_result_is_judged(items: Seq<PoolResultModel>, i: int)
    requires
        0 <= i < items.len(),
    ensures
        all_judged(items).len() == items.len(),
        all_judged(items)[i].node == items[i].node,
        all_judged(items)[i].result == items[i].result,
{
}

/// Strategies are loaded for the protocol of the probe by its key, in the configured mode, no
/// more of them than are configured, and with no limit for a single family or action; with the
/// payloads at hand, and with the configured values and combinations.
pub proof fn strategies_are_loaded_as_configured(
    r: GraphLoadOptions,
    cfg: AppConfig,
    protocol: ProbeProtocol,
    aliases: PayloadAliases,
)
    requires
        loads_for(r, cfg, protocol, aliases),
    ensures
        protocol == ProbeProtocol::HttpPlain ==> r.protocol_key@ == "http"@,
        protocol == ProbeProtocol::Tls12Http11 ==> r.protocol_key@ == "tls12"@,
        protocol == ProbeProtocol::Tls13Http11 ==> r.protocol_key@ == "tls13"@,
        protocol == ProbeProtocol::QuicHttp3Future ==> r.protocol_key@ == "quic"@,
        r.search_mode@ == cfg.strategies.search_mode@,
        r.max_candidates == cfg.strategies.max_candidates,
        r.max_per_family == usize::MAX && r.max_per_action == usize::MAX,
        r.round_robin_families == cfg.strategies.round_robin_families,
        r.payload_aliases == Some(&aliases),
        r.strategy_values == Some(&cfg.strategy_values),
        r.strategy_combinations == Some(&cfg.strategy_combinations),
{
}

/// Each step has the timeout that is configured for it.
pub proof fn steps_have_their_timeouts(cfg: AppConfig)
    ensures
        timeouts_of(cfg).connect_ms == cfg.probe.connect_timeout_ms,
        timeouts_of(cfg).tls_ms == cfg.probe.tls_timeout_ms,
        timeouts_of(cfg).first_byte_ms == cfg.probe.first_byte_timeout_ms,
        timeouts_of(cfg).total_ms == cfg.probe.total_timeout_ms,
{
}

/// A probe without a strategy has no arguments, and is for the target and by the request that
/// it was made for.
pub proof fn plain_tasks_have_no_strategy(
    r: ProbeTask,
    name: Seq<char>,
    host: String,
    ip: HostIp,
    port: u16,
    protocol: ProbeProtocol,
    request: HttpRequestSpec,
    timeouts: ProbeTimeouts,
)
    requires
        is_plain_task(r, name, host, ip, port, protocol, request, timeouts),
    ensures
        r.strategy_args@.len() == 0 && r.strategy_id@ == name,
        r.target_host == host && r.target_ip == ip && r.target_port == port,
        r.protocol == protocol && r.request == request && r.path == request.path_and_query,
        r.timeouts == timeouts,
{
}

} // verus!
