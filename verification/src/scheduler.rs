use vstd::prelude::*;
use crate::bayes::{noted, step_of, BayesianState, PosteriorModel, PosteriorStep};
use crate::config::{IsolationConfig, WorkersConfig};
use crate::graph::{views_push, NodeModel, StrategyGraph, StrategyNode};
use crate::isolation::{assignments_of, generate_assignments, mark_value, IsolationMode};
use crate::number::{dec, decimal, pad_right, padded_right};
use crate::order::views;
use crate::pruning::should_update_strategy_score;
use crate::scoring::{score_term, term_of, ScoreTerm};
use crate::text::{take_all, take_next};
use crate::types::{
    count_places, differing, Place, PlaceModel, ProbeOutcome, ProbeResult, ProbeTimeouts,
    StrategyProbeTarget,
};
use crate::worker::WorkerRuntime;
use crate::worker_pool::{
    IndexedPoolResult, IndexedPoolTask, PoolResultModel, TaskModel, WorkerPool, WorkerPoolConfig,
};

verus! {

/// What strategies are to be tried on, and by whom.
#[derive(Debug)]
pub struct Scheduler {
    pub runtime: WorkerRuntime,
    pub workers_config: WorkersConfig,
    pub isolation: IsolationConfig,
    pub successful_strategy_limit: usize,
    pub targets: Vec<StrategyProbeTarget>,
    pub live_log: bool,
}

/// A run of strategies that is ready to start.
#[derive(Debug)]
pub struct ScheduledRun {
    pub runtime: WorkerRuntime,
    pub pool: WorkerPool,
    pub live_log: bool,
}

/// How many queues there are from the first one on.
pub open spec fn queues_from(queue_base: u16) -> usize {
    (0x1_0000 - queue_base) as usize
}

/// How many workers there are: as many as asked for, but always one, and no more than queues.
pub open spec fn workers_for(count: usize, queue_base: u16) -> usize {
    if count == 0 {
        1
    } else if count > queues_from(queue_base) {
        queues_from(queue_base)
    } else {
        count
    }
}

/// The number of workers: as many as asked for, but always one, and no more than queues.
pub fn effective_workers(count: usize, queue_base: u16) -> (r: usize)
    ensures
        r == workers_for(count, queue_base),
        1 <= r,
        queue_base + r - 1 <= u16::MAX,
{
    let queues: usize = (0x1_0000 - queue_base as u32) as usize;
    if count == 0 {
        1
    } else if count > queues {
        queues
    } else {
        count
    }
}

/// A copy of the targets.
fn copy_targets(targets: &Vec<StrategyProbeTarget>) -> (r: Vec<StrategyProbeTarget>)
    ensures
        r@ == targets@,
{
    let mut out: Vec<StrategyProbeTarget> = Vec::new();
    let mut i: usize = 0;
    while i < targets.len()
        invariant
            i <= targets@.len(),
            out@ == targets@.take(i as int),
        decreases targets@.len() - i,
    {
        proof {
            take_next(targets@, i as int);
        }
        out.push(targets[i].clone());
        assert(out@ =~= targets@.take(i + 1));
        i = i + 1;
    }
    proof {
        take_all(targets@);
    }
    out
}

/// The tasks that try the strategies in their order, each on all targets.
pub open spec fn tasks_of(
    nodes: Seq<NodeModel>,
    targets: Seq<StrategyProbeTarget>,
    timeouts: ProbeTimeouts,
) -> Seq<TaskModel> {
    Seq::new(
        nodes.len(),
        |i: int| TaskModel { strategy_index: i as usize, node: nodes[i], targets, timeouts },
    )
}

impl Scheduler {
    /// The workers can be told apart: it can be read how.
    pub open spec fn feasible(self) -> bool {
        &&& IsolationMode::configured(self.isolation.mode@) is Ok
        &&& mark_value(self.isolation.mark_base@) is Ok
    }

    /// Gets ready to try the strategies of a graph in their order, each on all targets.
    pub fn prepare(self, graph: &StrategyGraph, timeouts: ProbeTimeouts) -> (r: ScheduledRun)
        requires
            self.feasible(),
        ensures
            r.live_log == self.live_log,
            r.runtime == (WorkerRuntime {
                nfqws_start_grace_ms: self.workers_config.spawn_grace_ms,
                ..self.runtime
            }),
            r.pool.limit() == self.successful_strategy_limit,
            r.pool.workers() == assignments_of(
                self.isolation,
                workers_for(self.workers_config.count, self.isolation.queue_base),
            ),
            r.pool.found() == Seq::<PoolResultModel>::empty(),
            r.pool.waiting() == tasks_of(views(graph.nodes@), self.targets@, timeouts),
    {
        let Scheduler {
            runtime,
            workers_config,
            isolation,
            successful_strategy_limit,
            targets,
            live_log,
        } = self;
        let workers: usize = effective_workers(workers_config.count, isolation.queue_base);
        let assignments = generate_assignments(workers, &isolation);
        let mut runtime = runtime;
        runtime.nfqws_start_grace_ms = workers_config.spawn_grace_ms;
        let pool = WorkerPool::new(
            WorkerPoolConfig {
                workers: workers_config,
                isolation,
                stop_at_success: successful_strategy_limit,
            },
            assignments,
        );
        let nodes = graph.ordered_seed();
        assert(views(nodes@).len() == views(graph.nodes@).len());
        let mut tasks: Vec<IndexedPoolTask> = Vec::new();
        let mut i: usize = 0;
        while i < nodes.len()
            invariant
                i <= nodes@.len(),
                tasks@.len() == i,
                nodes@.len() == graph.nodes@.len(),
                views(nodes@) == views(graph.nodes@),
                forall|j: int|
                    0 <= j < i ==> (#[trigger] tasks@[j])@ == (TaskModel {
                        strategy_index: j as usize,
                        node: graph.nodes@[j]@,
                        targets: targets@,
                        timeouts,
                    }),
            decreases nodes@.len() - i,
        {
            assert(views(nodes@)[i as int] == nodes@[i as int]@);
            assert(views(graph.nodes@)[i as int] == graph.nodes@[i as int]@);
            tasks.push(
                IndexedPoolTask {
                    strategy_index: i,
                    node: nodes[i].clone(),
                    targets: copy_targets(&targets),
                    timeouts,
                },
            );
            i = i + 1;
        }
        let pool = pool.with_tasks(tasks);
        ScheduledRun { runtime, pool, live_log }
    }
}

// ---------------------------------------------------------------------------
// What came of the strategies

/// What came of a strategy, and what its score is made of.
#[derive(Debug)]
pub struct StrategyRunResult {
    pub node: StrategyNode,
    pub result: ProbeResult,
    pub attempts: Vec<ProbeResult>,
    pub score: ScoreTerm,
    pub worker_id: usize,
    pub qnum: u16,
}

/// What came of a strategy by its contents.
pub struct RunModel {
    pub node: NodeModel,
    pub result: ProbeResult,
    pub attempts: Seq<ProbeResult>,
    pub score: ScoreTerm,
    pub worker_id: usize,
    pub qnum: u16,
}

impl View for StrategyRunResult {
    type V = RunModel;

    open spec fn view(&self) -> RunModel {
        RunModel {
            node: self.node@,
            result: self.result,
            attempts: self.attempts@,
            score: self.score,
            worker_id: self.worker_id,
            qnum: self.qnum,
        }
    }
}

/// What came of the strategies, judged, in their order.
pub open spec fn all_judged(items: Seq<PoolResultModel>) -> Seq<RunModel> {
    Seq::new(items.len(), |i: int| judged(items[i]))
}

/// What came of a strategy, judged.
pub open spec fn judged(item: PoolResultModel) -> RunModel {
    RunModel {
        node: item.node,
        result: item.result,
        attempts: item.attempts,
        score: term_of(item.result.failure_kind, item.result.outcome),
        worker_id: item.worker_id,
        qnum: item.qnum,
    }
}

fn judge(item: IndexedPoolResult) -> (r: StrategyRunResult)
    ensures
        r@ == judged(item@),
{
    let score = score_term(&item.result);
    StrategyRunResult {
        node: item.node,
        result: item.result,
        attempts: item.attempts,
        score,
        worker_id: item.worker_id,
        qnum: item.qnum,
    }
}

/// What is noted of a strategy after the results, each of which changes what is noted of its
/// own strategy.
pub open spec fn noted_after(
    start: Option<PosteriorModel>,
    items: Seq<PoolResultModel>,
    key: Seq<char>,
) -> Option<PosteriorModel>
    decreases items.len(),
{
    if items.len() == 0 {
        start
    } else {
        let known = noted_after(start, items.drop_last(), key);
        let last = items.last();
        let step = step_of(last.result.failure_kind, last.result.outcome);
        if last.node.id != key || step == PosteriorStep::Skip {
            known
        } else {
            Some(
                match known {
                    Some(p) => p,
                    None => PosteriorModel::untested(last.node.weights.prior()),
                }.after(step),
            )
        }
    }
}

/// There is room to count `n` more tests of every strategy.
pub open spec fn countable(bayes: BayesianState, n: nat) -> bool {
    forall|key: Seq<char>| #[trigger]
        noted(bayes, key) matches Some(p) ==> p.tests + n <= u64::MAX
}

fn learn(items: &Vec<IndexedPoolResult>, bayes: &mut BayesianState)
    requires
        countable(*old(bayes), items@.len()),
    ensures
        forall|key: Seq<char>| #[trigger]
            noted(*final(bayes), key) == noted_after(noted(*old(bayes), key), views(items@), key),
{
    let ghost all = views(items@);
    let ghost start = *bayes;
    let mut i: usize = 0;
    while i < items.len()
        invariant
            i <= items@.len(),
            all == views(items@),
            countable(*bayes, (items@.len() - i) as nat),
            forall|key: Seq<char>| #[trigger]
                noted(*bayes, key) == noted_after(noted(start, key), all.take(i as int), key),
        decreases items@.len() - i,
    {
        let item = &items[i];
        let prior = item.node.weights.prior_bits();
        let ghost known = *bayes;
        proof {
            take_next(all, i as int);
            assert(all[i as int] == item@);
            assert(noted(known, item.node.id@) is Some ==> noted(
                known,
                item.node.id@,
            )->Some_0.tests + 1 <= u64::MAX);
        }
        if should_update_strategy_score(&item.result) {
            bayes.update(item.node.id.as_str(), prior, &item.result);
        }
        proof {
            assert forall|key: Seq<char>| #[trigger]
                noted(*bayes, key) == noted_after(
                    noted(start, key),
                    all.take(i + 1),
                    key,
                ) by {
                assert(noted(known, key) == noted_after(
                    noted(start, key),
                    all.take(i as int),
                    key,
                ));
            }
            assert forall|key: Seq<char>| (#[trigger] noted(*bayes, key)) is Some implies noted(
                *bayes,
                key,
            )->Some_0.tests + (items@.len() - i - 1) <= u64::MAX by {
                assert(noted(known, key) is Some ==> noted(known, key)->Some_0.tests + (
                items@.len() - i) <= u64::MAX);
            }
        }
        i = i + 1;
    }
    proof {
        take_all(all);
    }
}

/// Judges what came of the strategies, in their order, and takes it in.
pub fn finalize_results(pool_results: Vec<IndexedPoolResult>, bayes: &mut BayesianState) -> (r: Vec<
    StrategyRunResult,
>)
    requires
        countable(*old(bayes), pool_results@.len()),
    ensures
        views(r@) == all_judged(views(pool_results@)),
        forall|key: Seq<char>| #[trigger]
            noted(*final(bayes), key) == noted_after(
                noted(*old(bayes), key),
                views(pool_results@),
                key,
            ),
{
    learn(&pool_results, bayes);
    let ghost all = views(pool_results@);
    let ghost want = all.map_values(|item: PoolResultModel| judged(item));
    let mut rest = pool_results;
    let mut back: Vec<StrategyRunResult> = Vec::new();
    while rest.len() > 0
        invariant
            rest@.len() + back@.len() == all.len(),
            views(rest@) =~= all.take(rest@.len() as int),
            forall|j: int|
                0 <= j < back@.len() ==> (#[trigger] back@[j])@ == judged(all[all.len() - 1 - j]),
        decreases rest@.len(),
    {
        let ghost before_pop = rest@;
        if let Some(item) = rest.pop() {
            assert(views(before_pop)[rest@.len() as int] == item@);
            assert(views(rest@) =~= all.take(rest@.len() as int));
            back.push(judge(item));
        }
    }
    let mut out: Vec<StrategyRunResult> = Vec::new();
    while back.len() > 0
        invariant
            back@.len() + out@.len() == all.len(),
            forall|j: int|
                0 <= j < back@.len() ==> (#[trigger] back@[j])@ == judged(all[all.len() - 1 - j]),
            forall|j: int| 0 <= j < out@.len() ==> (#[trigger] out@[j])@ == judged(all[j]),
        decreases back@.len(),
    {
        if let Some(item) = back.pop() {
            out.push(item);
        }
    }
    assert(views(out@) =~= want);
    out
}

/// How many of the attempts succeeded.
pub open spec fn succeeded(attempts: Seq<ProbeResult>) -> nat
    decreases attempts.len(),
{
    if attempts.len() == 0 {
        0
    } else {
        succeeded(attempts.drop_last()) + if attempts.last().outcome == ProbeOutcome::Success {
            1nat
        } else {
            0
        }
    }
}

fn count_successes(attempts: &Vec<ProbeResult>) -> (r: usize)
    ensures
        r == succeeded(attempts@),
        r <= attempts@.len(),
{
    let mut count: usize = 0;
    let mut i: usize = 0;
    while i < attempts.len()
        invariant
            i <= attempts@.len(),
            count <= i,
            count == succeeded(attempts@.take(i as int)),
        decreases attempts@.len() - i,
    {
        proof {
            take_next(attempts@, i as int);
        }
        if attempts[i].outcome == ProbeOutcome::Success {
            count = count + 1;
        }
        i = i + 1;
    }
    proof {
        take_all(attempts@);
    }
    count
}

/// What an attempt was made on.
pub open spec fn attempt_place(a: ProbeResult) -> PlaceModel {
    PlaceModel { host: a.target_host@, port: a.target_port, path: a.path@ }
}

/// How many different places the attempts were made on.
pub open spec fn attempt_targets(attempts: Seq<ProbeResult>) -> nat {
    differing(attempts.map_values(|a: ProbeResult| attempt_place(a)))
}

/// How many different places the attempts were made on.
pub fn unique_attempt_targets(attempts: &Vec<ProbeResult>) -> (r: usize)
    ensures
        r == attempt_targets(attempts@),
{
    let ghost want = attempts@.map_values(|a: ProbeResult| attempt_place(a));
    let mut places: Vec<Place> = Vec::new();
    let mut i: usize = 0;
    while i < attempts.len()
        invariant
            i <= attempts@.len(),
            want == attempts@.map_values(|a: ProbeResult| attempt_place(a)),
            views(places@) =~= want.take(i as int),
        decreases attempts@.len() - i,
    {
        let place = Place {
            host: attempts[i].target_host.clone(),
            port: attempts[i].target_port,
            path: attempts[i].path.clone(),
        };
        proof {
            views_push(places@, place);
            take_next(want, i as int);
            assert(place@ == want[i as int]);
        }
        places.push(place);
        i = i + 1;
    }
    proof {
        take_all(want);
    }
    count_places(&places)
}

/// A status, or a dash where there is none.
pub open spec fn status_text(status: Option<u16>) -> Seq<char> {
    match status {
        Some(v) => dec(v as nat),
        None => "-"@,
    }
}

/// A status, or a dash where there is none.
pub fn fmt_status(status: Option<u16>) -> (r: String)
    ensures
        r@ == status_text(status),
{
    match status {
        Some(v) => decimal(v as u64),
        None => "-".to_owned(),
    }
}

/// A time, or a dash where there is none.
pub open spec fn ms_text(v: Option<u64>) -> Seq<char> {
    match v {
        Some(x) => dec(x as nat),
        None => "-"@,
    }
}

/// A time, or a dash where there is none.
pub fn fmt_ms(v: Option<u64>) -> (r: String)
    ensures
        r@ == ms_text(v),
{
    match v {
        Some(x) => decimal(x),
        None => "-".to_owned(),
    }
}

/// What is said of a strategy as soon as it was tried.
pub open spec fn live_line(index: usize, item: PoolResultModel, score: Seq<char>) -> Seq<char> {
    "info(checker): strategy #"@ + padded_right(dec(index as nat), 5, ' ') + " id="@ + item.node.id
        + " family="@ + item.node.family + " worker="@ + dec(item.worker_id as nat) + " qnum="@
        + dec(item.qnum as nat) + " attempts="@ + dec(succeeded(item.attempts)) + "/"@ + dec(
        item.attempts.len(),
    ) + " domains="@ + dec(attempt_targets(item.attempts)) + " outcome="@
        + item.result.outcome.label() + " http="@ + status_text(item.result.http_status)
        + " body="@ + dec(item.result.body_bytes as nat) + "B bytes="@ + dec(
        item.result.bytes_read as nat,
    ) + " tls="@ + ms_text(item.result.tls_ms) + "ms total="@ + dec(item.result.total_ms as nat)
        + "ms score="@ + score
}

/// What is said of a strategy as soon as it was tried, with its score as a text.
pub fn live_strategy_result_line(index: usize, item: &IndexedPoolResult, score: &str) -> (r: String)
    ensures
        r@ == live_line(index, item@, score@),
{
    let mut line = "info(checker): strategy #".to_owned();
    line.append(pad_right(decimal(index as u64).as_str(), 5, ' ').as_str());
    line.append(" id=");
    line.append(item.node.id.as_str());
    line.append(" family=");
    line.append(item.node.family.as_str());
    line.append(" worker=");
    line.append(decimal(item.worker_id as u64).as_str());
    line.append(" qnum=");
    line.append(decimal(item.qnum as u64).as_str());
    line.append(" attempts=");
    line.append(decimal(count_successes(&item.attempts) as u64).as_str());
    line.append("/");
    line.append(decimal(item.attempts.len() as u64).as_str());
    line.append(" domains=");
    line.append(decimal(unique_attempt_targets(&item.attempts) as u64).as_str());
    line.append(" outcome=");
    line.append(item.result.outcome.name());
    line.append(" http=");
    line.append(fmt_status(item.result.http_status).as_str());
    line.append(" body=");
    line.append(decimal(item.result.body_bytes as u64).as_str());
    line.append("B bytes=");
    line.append(decimal(item.result.bytes_read as u64).as_str());
    line.append(" tls=");
    line.append(fmt_ms(item.result.tls_ms).as_str());
    line.append("ms total=");
    line.append(decimal(item.result.total_ms).as_str());
    line.append("ms score=");
    line.append(score);
    line
}

} // verus!
