use vstd::prelude::*;
use crate::config::{AppConfig, StrategyCombinationConfig, StrategyValuesConfig};
use crate::graph::{NodeModel, StrategyNode};
use crate::map::{unique_sorted, unique_sorted_members};
use crate::number::{dec, padded_right};
use crate::order::{before, sorted, views};
use crate::ordering::total_key;
use crate::payload_registry::{PayloadModel, PayloadProtocol};
use crate::report::{
    at_most, baseline_lines, best_entry, best_lines, best_order, better, class_text,
    combinations_lines, combined_count, command_args, counts_combinations, counts_payloads,
    detail_lines, entries, failed_entry, failed_lines, families_of, family_count, family_line,
    family_lines, headed, import_of, imports_of, indented, kind_text, limit_text, parallelism_lines,
    payload_count, payloads_lines, probe_lines, report_lines, report_name, summary_lines,
    target_lines, used_imports, values_lines, with_success, CheckOutput, CombinationSummary,
    ImportModel, PayloadSummary, ScoredModel,
};
use crate::scheduler::{ms_text, status_text};
use crate::selection_laws::sorted_members;
use crate::types::{ProbeOutcome, ProbeResult};

verus! {

// ---------------------------------------------------------------------------
// Words

/// A limit of zero is none, and any other is told; a missing status and a missing time are
/// told by a dash.
pub proof fn missing_numbers_are_told(limit: usize, status: Option<u16>, ms: Option<u64>)
    ensures
        limit == 0 ==> limit_text(limit) == "disabled"@,
        limit > 0 ==> limit_text(limit) == dec(limit as nat),
        status is None ==> status_text(status) == "-"@,
        status matches Some(s) ==> status_text(status) == dec(s as nat),
        ms is None ==> ms_text(ms) == "-"@,
        ms matches Some(n) ==> ms_text(ms) == dec(n as nat),
{
}

proof fn in_either_part(a: Seq<Seq<char>>, b: Seq<Seq<char>>, x: Seq<char>)
    ensures
        a.contains(x) ==> (a + b).contains(x),
        b.contains(x) ==> (a + b).contains(x),
{
    let s = a + b;
    if a.contains(x) {
        let k = choose|k: int| 0 <= k < a.len() && a[k] == x;
        assert(s[k] == x);
    }
    if b.contains(x) {
        let k = choose|k: int| 0 <= k < b.len() && b[k] == x;
        assert(s[a.len() + k] == x);
    }
}

/// A report on a probe tells its outcome, whose failure it was and which error, its status and
/// how much was read, each in a line of its own; an error in words and a suspicion if and only
/// if there is one.
pub proof fn probes_are_reported(prefix: Seq<char>, r: ProbeResult)
    ensures
        ({
            let lines = probe_lines(prefix, r);
            &&& lines.contains(prefix + "outcome:       "@ + r.outcome.label())
            &&& lines.contains(prefix + "failure_kind:  "@ + kind_text(r.failure_kind))
            &&& lines.contains(prefix + "error_class:   "@ + class_text(r.error_class))
            &&& lines.contains(prefix + "http_status:   "@ + status_text(r.http_status))
            &&& lines.contains(prefix + "bytes_read:    "@ + dec(r.bytes_read as nat))
            &&& lines.contains(prefix + "header_bytes:  "@ + dec(r.header_bytes as nat))
            &&& lines.contains(prefix + "body_bytes:    "@ + dec(r.body_bytes as nat))
            &&& lines.contains(prefix + "total_bytes:   "@ + dec(r.total_bytes as nat))
            &&& lines.contains(
                prefix + "timing:        connect="@ + ms_text(r.connect_ms) + "ms tls="@ + ms_text(
                    r.tls_ms,
                ) + "ms first_byte="@ + ms_text(r.first_byte_ms) + "ms total="@ + dec(
                    r.total_ms as nat,
                ) + "ms"@,
            )
            &&& r.error_message matches Some(msg) ==> lines.contains(
                prefix + "error:         "@ + msg@,
            )
            &&& r.dpi_suspicious ==> lines.contains(prefix + "dpi_suspicious: true"@)
            &&& lines.len() == 10 + (if r.error_message is Some {
                1int
            } else {
                0
            }) + (if r.dpi_suspicious {
                1int
            } else {
                0
            })
        }),
{
    let lines = probe_lines(prefix, r);
    let n: int = if r.error_message is Some {
        1
    } else {
        0
    };
    assert(lines[0] == prefix + "outcome:       "@ + r.outcome.label());
    assert(lines[1] == prefix + "failure_kind:  "@ + kind_text(r.failure_kind));
    assert(lines[2] == prefix + "error_class:   "@ + class_text(r.error_class));
    if let Some(msg) = r.error_message {
        assert(lines[3] == prefix + "error:         "@ + msg@);
    }
    assert(lines[3 + n] == prefix + "timing:        connect="@ + ms_text(r.connect_ms) + "ms tls="@
        + ms_text(r.tls_ms) + "ms first_byte="@ + ms_text(r.first_byte_ms) + "ms total="@ + dec(
        r.total_ms as nat,
    ) + "ms"@);
    assert(lines[4 + n] == prefix + "http_status:   "@ + status_text(r.http_status));
    assert(lines[5 + n] == prefix + "bytes_read:    "@ + dec(r.bytes_read as nat));
    assert(lines[6 + n] == prefix + "header_bytes:  "@ + dec(r.header_bytes as nat));
    assert(lines[7 + n] == prefix + "body_bytes:    "@ + dec(r.body_bytes as nat));
    assert(lines[8 + n] == prefix + "total_bytes:   "@ + dec(r.total_bytes as nat));
    if r.dpi_suspicious {
        assert(lines[10 + n] == prefix + "dpi_suspicious: true"@);
    }
}

// ---------------------------------------------------------------------------
// Which strategies are told

/// The strategies are told apart by whether they succeeded: each stands among those that did
/// or among those that did not, as its own outcome says.
pub proof fn outcomes_tell_strategies_apart(items: Seq<ScoredModel>, success: bool, x: ScoredModel)
    ensures
        with_success(items, success).contains(x) <==> items.contains(x) && (x.run.result.outcome
            == ProbeOutcome::Success) == success,
    decreases items.len(),
{
    if items.len() > 0 {
        let init = items.drop_last();
        let last = items.last();
        let some = with_success(init, success);
        let all = with_success(items, success);
        outcomes_tell_strategies_apart(init, success, x);
        assert(items[items.len() - 1] == last);
        if init.contains(x) {
            let k = choose|k: int| 0 <= k < init.len() && init[k] == x;
            assert(items[k] == x);
        }
        if items.contains(x) && x != last {
            let k = choose|k: int| 0 <= k < items.len() && items[k] == x;
            assert(init[k] == x);
        }
        if (last.run.result.outcome == ProbeOutcome::Success) == success {
            assert(all == some.push(last));
            assert(all[some.len() as int] == last);
            if some.contains(x) {
                let k = choose|k: int| 0 <= k < some.len() && some[k] == x;
                assert(all[k] == x);
            }
            if all.contains(x) && x != last {
                let k = choose|k: int| 0 <= k < all.len() && all[k] == x;
                assert(some[k] == x);
            }
        }
    }
}

/// The better of two strategies is the one with the higher score; of two with the same score
/// the cheaper one, then the one of less risk, then the first by name.
pub proof fn higher_scores_are_better(a: ScoredModel, b: ScoredModel)
    ensures
        total_key(a.score) > total_key(b.score) ==> better(a, b) && !better(b, a),
        a.score == b.score && total_key(a.cost) < total_key(b.cost) ==> better(a, b) && !better(
            b,
            a,
        ),
        a.score == b.score && a.cost == b.cost && total_key(a.risk) < total_key(b.risk) ==> better(
            a,
            b,
        ) && !better(b, a),
        a.score == b.score && a.cost == b.cost && a.risk == b.risk ==> (better(a, b) <==> before(
            a.run.node.id,
            b.run.node.id,
        )),
{
}

proof fn entry_is_told(
    items: Seq<ScoredModel>,
    imports: Seq<ImportModel>,
    success: bool,
    i: int,
    line: Seq<char>,
)
    requires
        0 <= i < items.len(),
        success ==> best_entry(items[i], imports).contains(line),
        !success ==> failed_entry(items[i], imports).contains(line),
    ensures
        entries(items, imports, success).contains(line),
    decreases items.len(),
{
    let init = items.drop_last();
    let own = if success {
        best_entry(items.last(), imports)
    } else {
        failed_entry(items.last(), imports)
    };
    in_either_part(entries(init, imports, success), own, line);
    if i < items.len() - 1 {
        assert(init[i] == items[i]);
        entry_is_told(init, imports, success, i, line);
    }
}

/// The details of a strategy tell every one of its arguments.
pub proof fn arguments_are_told(node: NodeModel, imports: Seq<ImportModel>, k: int)
    requires
        0 <= k < node.args.len(),
    ensures
        detail_lines(node, imports).contains("           "@ + node.args[k]),
{
    let args = command_args(node.args, imports);
    let lines = indented(args);
    let at = args.len() - node.args.len() + k;
    assert(args[at] == node.args[k]);
    assert(lines[at] == "           "@ + node.args[k]);
    assert(detail_lines(node, imports)[at] == "           "@ + node.args[k]);
}

proof fn section_is_told(o: CheckOutput, values: StrategyValuesConfig, x: Seq<char>)
    requires
        target_lines(o).contains(x) || baseline_lines(o).contains(x) || parallelism_lines(
            o,
        ).contains(x) || summary_lines(o).contains(x) || family_lines(views(o.results@)).contains(x)
            || best_lines(o).contains(x) || failed_lines(o).contains(x),
    ensures
        report_lines(o, values).contains(x),
{
    let s1 = target_lines(o) + baseline_lines(o);
    let s2 = s1 + parallelism_lines(o);
    let s3 = s2 + summary_lines(o);
    let s4 = s3 + values_lines(values);
    let s5 = s4 + payloads_lines(o.payload_summary);
    let s6 = s5 + combinations_lines(o.combination_summary);
    let s7 = s6 + seq!["Families"@];
    let s8 = s7 + family_lines(views(o.results@));
    let s9 = s8 + seq![""@];
    let s10 = s9 + best_lines(o);
    in_either_part(target_lines(o), baseline_lines(o), x);
    in_either_part(s1, parallelism_lines(o), x);
    in_either_part(s2, summary_lines(o), x);
    in_either_part(s3, values_lines(values), x);
    in_either_part(s4, payloads_lines(o.payload_summary), x);
    in_either_part(s5, combinations_lines(o.combination_summary), x);
    in_either_part(s6, seq!["Families"@], x);
    in_either_part(s7, family_lines(views(o.results@)), x);
    in_either_part(s8, seq![""@], x);
    in_either_part(s9, best_lines(o), x);
    in_either_part(s10, failed_lines(o), x);
}

/// The report tells how to use what it found: of every strategy that succeeded it tells the
/// score, the name and the family, and every one of its arguments.
pub proof fn successes_are_reported(
    o: CheckOutput,
    values: StrategyValuesConfig,
    item: ScoredModel,
    k: int,
)
    requires
        views(o.results@).contains(item),
        item.run.result.outcome == ProbeOutcome::Success,
    ensures
        0 <= k < item.run.node.args.len() ==> report_lines(o, values).contains(
            "           "@ + item.run.node.args[k],
        ),
        report_lines(o, values).contains(
            headed(item) + " http="@ + status_text(item.run.result.http_status) + " body="@ + dec(
                item.run.result.body_bytes as nat,
            ) + "B tls="@ + ms_text(item.run.result.tls_ms) + "ms total="@ + dec(
                item.run.result.total_ms as nat,
            ) + "ms"@,
        ),
{
    let good = with_success(views(o.results@), true);
    let best = sorted(good, best_order());
    let imports = views(o.payload_blob_imports@);
    outcomes_tell_strategies_apart(views(o.results@), true, item);
    sorted_members(good, best_order(), item);
    let i = best.index_of(item);
    assert(best[i] == item);
    let head = headed(item) + " http="@ + status_text(item.run.result.http_status) + " body="@
        + dec(item.run.result.body_bytes as nat) + "B tls="@ + ms_text(item.run.result.tls_ms)
        + "ms total="@ + dec(item.run.result.total_ms as nat) + "ms"@;
    let title = seq!["Best strategies"@];
    let told = entries(best, imports, true);
    assert(best_entry(item, imports)[0] == head);
    entry_is_told(best, imports, true, i, head);
    in_either_part(title, told, head);
    in_either_part(title + told, seq![""@], head);
    section_is_told(o, values, head);
    if 0 <= k < item.run.node.args.len() {
        let line = "           "@ + item.run.node.args[k];
        arguments_are_told(item.run.node, imports, k);
        in_either_part(seq![head], detail_lines(item.run.node, imports), line);
        assert(best_entry(item, imports) == seq![head] + detail_lines(item.run.node, imports));
        entry_is_told(best, imports, true, i, line);
        in_either_part(title, told, line);
        in_either_part(title + told, seq![""@], line);
        section_is_told(o, values, line);
    }
}

/// Of the strategies that failed the first twenty are reported, with their outcome and their
/// error.
pub proof fn failures_are_reported(o: CheckOutput, values: StrategyValuesConfig, i: int)
    requires
        0 <= i < with_success(views(o.results@), false).len(),
        i < 20,
    ensures
        ({
            let item = with_success(views(o.results@), false)[i];
            report_lines(o, values).contains(
                headed(item) + " "@ + item.run.result.outcome.label() + " / "@ + class_text(
                    item.run.result.error_class,
                ),
            )
        }),
        at_most(with_success(views(o.results@), false), 20).len() <= 20,
{
    let bad = with_success(views(o.results@), false);
    let some = at_most(bad, 20);
    let item = bad[i];
    let imports = views(o.payload_blob_imports@);
    let head = headed(item) + " "@ + item.run.result.outcome.label() + " / "@ + class_text(
        item.run.result.error_class,
    );
    assert(some[i] == item);
    assert(failed_entry(item, imports)[0] == head);
    entry_is_told(some, imports, false, i, head);
    in_either_part(seq!["Failed strategies"@], entries(some, imports, false), head);
    section_is_told(o, values, head);
}

/// A combined strategy goes by its family and its actions, any other by its name.
pub proof fn strategies_have_report_names(node: NodeModel)
    ensures
        node.is_combined ==> report_name(node) == node.family + " "@ + node.action_id,
        !node.is_combined ==> report_name(node) == node.id,
{
}

/// The report tells the target that was asked, the probe without a strategy, the workers, and
/// how many strategies were generated, tried, and succeeded or not.
pub proof fn checks_are_reported(o: CheckOutput, values: StrategyValuesConfig)
    ensures
        ({
            let lines = report_lines(o, values);
            let items = views(o.results@);
            &&& lines.contains("  url:        "@ + o.target@)
            &&& lines.contains("  host:       "@ + o.baseline.target_host@)
            &&& lines.contains("  ip:         "@ + o.baseline.target_ip.text@)
            &&& lines.contains("  port:       "@ + dec(o.baseline.target_port as nat))
            &&& lines.contains("  protocol:   "@ + o.baseline.protocol.label())
            &&& lines.contains("  method:     "@ + o.request.method.name())
            &&& lines.contains("  path:       "@ + o.baseline.path@)
            &&& lines.contains("  tests:      "@ + dec(o.test_count as nat))
            &&& lines.contains("  outcome:       "@ + o.baseline.outcome.label())
            &&& lines.contains("  workers: "@ + dec(o.workers_count as nat))
            &&& lines.contains("  isolation: "@ + o.isolation_mode@)
            &&& lines.contains("  generated: "@ + dec(o.generated_count as nat))
            &&& lines.contains("  tested:   "@ + dec(o.results@.len()))
            &&& lines.contains("  success:  "@ + dec(with_success(items, true).len()))
            &&& lines.contains("  failed:   "@ + dec(with_success(items, false).len()))
            &&& lines.contains("  search_mode: "@ + o.search_mode@)
        }),
{
    let t = target_lines(o);
    assert(t[1] == "  url:        "@ + o.target@);
    section_is_told(o, values, t[1]);
    assert(t[3] == "  host:       "@ + o.baseline.target_host@);
    section_is_told(o, values, t[3]);
    section_is_told(o, values, t[4]);
    section_is_told(o, values, t[5]);
    section_is_told(o, values, t[6]);
    section_is_told(o, values, t[7]);
    section_is_told(o, values, t[8]);
    section_is_told(o, values, t[11]);
    let p = parallelism_lines(o);
    section_is_told(o, values, p[1]);
    section_is_told(o, values, p[3]);
    let s = summary_lines(o);
    section_is_told(o, values, s[1]);
    section_is_told(o, values, s[2]);
    section_is_told(o, values, s[3]);
    section_is_told(o, values, s[4]);
    section_is_told(o, values, s[5]);
    let probe = probe_lines("  "@, o.baseline);
    let outcome = "  "@ + "outcome:       "@ + o.baseline.outcome.label();
    probes_are_reported("  "@, o.baseline);
    in_either_part(seq!["Baseline"@], probe, outcome);
    in_either_part(seq!["Baseline"@] + probe, seq![""@, ""@], outcome);
    section_is_told(o, values, outcome);
    reveal_strlit("  ");
    reveal_strlit("outcome:       ");
    reveal_strlit("  outcome:       ");
    assert("  "@ + "outcome:       "@ =~= "  outcome:       "@);
}

// ---------------------------------------------------------------------------
// Families and payloads

/// The family of every strategy that was tried has its line, with how many of its strategies
/// were tried, succeeded and did not.
pub proof fn families_are_reported(o: CheckOutput, values: StrategyValuesConfig, i: int)
    requires
        0 <= i < views(o.results@).len(),
    ensures
        ({
            let items = views(o.results@);
            let family = items[i].run.node.family;
            let good = family_count(items, family, true);
            let bad = family_count(items, family, false);
            report_lines(o, values).contains(
                "  "@ + padded_right(family, 14, ' ') + " tested="@ + dec(good + bad)
                    + " success="@ + dec(good) + " failed="@ + dec(bad),
            )
        }),
{
    let items = views(o.results@);
    let family = items[i].run.node.family;
    let all = families_of(items);
    let families = unique_sorted(all);
    assert(all[i] == family);
    assert(all.contains(family));
    unique_sorted_members(all, family);
    let k = families.index_of(family);
    assert(families[k] == family);
    let line = family_line(items, family);
    assert(family_lines(items)[k] == line);
    section_is_told(o, values, line);
}

/// A strategy is counted for its own family, by its own outcome, and for no other.
pub proof fn families_are_counted(items: Seq<ScoredModel>, family: Seq<char>, success: bool)
    requires
        items.len() > 0,
    ensures
        ({
            let last = items.last();
            let counts = last.run.node.family == family && (last.run.result.outcome
                == ProbeOutcome::Success) == success;
            family_count(items, family, success) == family_count(
                items.drop_last(),
                family,
                success,
            ) + if counts {
                1int
            } else {
                0
            }
        }),
        family_count(Seq::empty(), family, success) == 0,
{
}

/// Every payload with a file is handed over from it, under its alias; those without are not.
pub proof fn imports_are_those_with_files(payloads: Seq<PayloadModel>, i: int)
    ensures
        imports_of(payloads).len() <= payloads.len(),
        0 <= i < payloads.len() && payloads[i].path is Some ==> exists|k: int|
            #![trigger imports_of(payloads)[k]]
            0 <= k < imports_of(payloads).len() && imports_of(payloads)[k].alias
                == payloads[i].alias && imports_of(payloads)[k].path == payloads[i].path->0
                && imports_of(payloads)[k].arg == "--blob="@ + payloads[i].alias + ":@"@
                + payloads[i].path->0,
        (forall|j: int| 0 <= j < payloads.len() ==> (#[trigger] payloads[j]).path is None)
            ==> imports_of(payloads).len() == 0,
    decreases payloads.len(),
{
    if payloads.len() > 0 {
        let init = payloads.drop_last();
        let before = imports_of(init);
        let all = imports_of(payloads);
        imports_are_those_with_files(init, i);
        assert(forall|j: int| 0 <= j < init.len() ==> #[trigger] init[j] == payloads[j]);
        assert(payloads[payloads.len() - 1] == payloads.last());
        if 0 <= i < payloads.len() && payloads[i].path is Some {
            if i < init.len() {
                assert(init[i] == payloads[i]);
                let k = choose|k: int|
                    #![trigger before[k]]
                    0 <= k < before.len() && before[k].alias == payloads[i].alias && before[k].path
                        == payloads[i].path->0 && before[k].arg == "--blob="@ + payloads[i].alias
                        + ":@"@ + payloads[i].path->0;
                assert(all[k] == before[k]);
            } else {
                let k = before.len() as int;
                assert(all[k] == import_of(payloads[i].alias, payloads[i].path->0));
            }
        }
    }
}

/// A strategy's own arguments stand behind those that hand over its payloads, all of them in
/// their order.
pub proof fn commands_end_with_the_arguments(args: Seq<Seq<char>>, imports: Seq<ImportModel>)
    ensures
        command_args(args, imports).len() >= args.len(),
        command_args(args, imports).skip(command_args(args, imports).len() - args.len()) == args,
{
    let all = command_args(args, imports);
    assert(all.skip(all.len() - args.len()) =~= args);
}

/// Of the payloads at hand exactly those with a name in use are handed over.
pub proof fn used_payloads_are_handed_over(
    imports: Seq<ImportModel>,
    aliases: Seq<Seq<char>>,
    x: Seq<char>,
)
    ensures
        used_imports(imports, aliases).contains(x) <==> exists|i: int|
            #![trigger imports[i]]
            0 <= i < imports.len() && aliases.contains(imports[i].alias) && imports[i].arg == x,
    decreases imports.len(),
{
    if imports.len() > 0 {
        let init = imports.drop_last();
        let last = imports.last();
        let before = used_imports(init, aliases);
        let all = used_imports(imports, aliases);
        used_payloads_are_handed_over(init, aliases, x);
        assert(forall|i: int| 0 <= i < init.len() ==> #[trigger] init[i] == imports[i]);
        assert(forall|i: int|
            #![trigger imports[i]]
            0 <= i < init.len() ==> init[i] == imports[i]);
        assert(imports[imports.len() - 1] == last);
        if aliases.contains(last.alias) {
            assert(all == before.push(last.arg));
            assert(all[before.len() as int] == last.arg);
            if before.contains(x) {
                let k = choose|k: int| 0 <= k < before.len() && before[k] == x;
                assert(all[k] == x);
            }
            if all.contains(x) && x != last.arg {
                let k = choose|k: int| 0 <= k < all.len() && all[k] == x;
                assert(before[k] == x);
            }
        }
    }
}

/// A payload is counted for its own protocol, among the builtin ones or among the files, as it
/// is, and for nothing else.
pub proof fn payloads_are_counted(
    payloads: Seq<PayloadModel>,
    protocol: PayloadProtocol,
    builtin: bool,
)
    ensures
        payloads.len() == 0 ==> payload_count(payloads, protocol, builtin) == 0,
        payloads.len() > 0 ==> payload_count(payloads, protocol, builtin) == payload_count(
            payloads.drop_last(),
            protocol,
            builtin,
        ) + if payloads.last().protocol == protocol && payloads.last().builtin == builtin {
            1int
        } else {
            0
        },
{
}

/// The counts of a report are those of the payloads: each protocol has its own, and in each the
/// builtin ones and those out of files.
pub proof fn payload_counts_are_told(
    r: PayloadSummary,
    cfg: AppConfig,
    payloads: Seq<PayloadModel>,
)
    requires
        counts_payloads(r, cfg, payloads),
    ensures
        r.http.builtin == payload_count(payloads, PayloadProtocol::Http, true),
        r.http.files == payload_count(payloads, PayloadProtocol::Http, false),
        r.tls.builtin == payload_count(payloads, PayloadProtocol::Tls, true),
        r.tls.files == payload_count(payloads, PayloadProtocol::Tls, false),
        r.quic.builtin == payload_count(payloads, PayloadProtocol::Quic, true),
        r.quic.files == payload_count(payloads, PayloadProtocol::Quic, false),
        r.auto_load == cfg.blobs.auto_load,
{
}

/// The combinations of a report are the combined ones among the strategies: each of them is one
/// more.
pub proof fn combinations_are_counted(
    r: CombinationSummary,
    cfg: StrategyCombinationConfig,
    nodes: Seq<StrategyNode>,
)
    requires
        counts_combinations(r, cfg, nodes),
    ensures
        r.enabled == cfg.enabled,
        r.allowed_pairs == cfg.allowed@.len(),
        nodes.len() == 0 ==> r.generated == 0,
        nodes.len() > 0 ==> r.generated == combined_count(nodes.drop_last()) + if
            nodes.last().is_combined {
            1int
        } else {
            0
        },
{
}

} // verus!
