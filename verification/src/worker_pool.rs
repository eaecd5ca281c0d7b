use vstd::prelude::*;
use crate::config::{IsolationConfig, WorkersConfig};
use crate::graph::{views_push, NodeModel, StrategyNode};
use crate::order::{in_order, sorted, sorted_in_order, stable_sort, views, weak_order};
use crate::text::{copy_texts, texts};
use crate::types::{ProbeOutcome, ProbeResult, ProbeTimeouts, StrategyProbeTarget, StrategyTask};
use crate::worker::WorkerAssignment;
pub use crate::isolation::generate_assignments;

verus! {

/// How a pool of workers runs.
#[derive(Debug)]
pub struct WorkerPoolConfig {
    pub workers: WorkersConfig,
    pub isolation: IsolationConfig,
    pub stop_at_success: usize,
}

/// A strategy to try, with its place among the others.
#[derive(Debug)]
pub struct IndexedPoolTask {
    pub strategy_index: usize,
    pub node: StrategyNode,
    pub targets: Vec<StrategyProbeTarget>,
    pub timeouts: ProbeTimeouts,
}

/// A strategy to try by its contents.
pub struct TaskModel {
    pub strategy_index: usize,
    pub node: NodeModel,
    pub targets: Seq<StrategyProbeTarget>,
    pub timeouts: ProbeTimeouts,
}

impl View for IndexedPoolTask {
    type V = TaskModel;

    open spec fn view(&self) -> TaskModel {
        TaskModel {
            strategy_index: self.strategy_index,
            node: self.node@,
            targets: self.targets@,
            timeouts: self.timeouts,
        }
    }
}

/// What came of a strategy, with its place among the others.
#[derive(Debug)]
pub struct IndexedPoolResult {
    pub strategy_index: usize,
    pub node: StrategyNode,
    pub result: ProbeResult,
    pub attempts: Vec<ProbeResult>,
    pub worker_id: usize,
    pub qnum: u16,
}

/// What came of a strategy by its contents.
pub struct PoolResultModel {
    pub strategy_index: usize,
    pub node: NodeModel,
    pub result: ProbeResult,
    pub attempts: Seq<ProbeResult>,
    pub worker_id: usize,
    pub qnum: u16,
}

impl View for IndexedPoolResult {
    type V = PoolResultModel;

    open spec fn view(&self) -> PoolResultModel {
        PoolResultModel {
            strategy_index: self.strategy_index,
            node: self.node@,
            result: self.result,
            attempts: self.attempts@,
            worker_id: self.worker_id,
            qnum: self.qnum,
        }
    }
}

// ---------------------------------------------------------------------------
// Stopping after enough successes

/// How many strategies succeeded, and how many are enough. A limit of zero is none.
#[derive(Debug, Clone, Copy, PartialEq, Eq, Structural)]
pub struct StopState {
    pub limit: usize,
    pub success_count: usize,
    pub stop_enqueue: bool,
}

/// How many successes are counted after one more: none without a limit.
pub open spec fn count_after(limit: usize, count: usize) -> usize {
    if limit == 0 {
        count
    } else {
        (count + 1) as usize
    }
}

impl StopState {
    /// There is a limit, and it has been reached.
    pub open spec fn enough(self) -> bool {
        self.limit > 0 && self.success_count >= self.limit
    }

    /// It is to stop exactly where there is enough.
    pub open spec fn consistent(self) -> bool {
        self.stop_enqueue == self.enough()
    }

    /// Nothing has succeeded yet.
    pub fn new(limit: usize) -> (r: StopState)
        ensures
            r.limit == limit,
            r.success_count == 0,
            r.consistent(),
            !r.stop_enqueue,
    {
        StopState { limit, success_count: 0, stop_enqueue: false }
    }

    /// Whether no further strategies are to be tried.
    pub fn should_stop_enqueueing(&self) -> (r: bool)
        requires
            self.consistent(),
        ensures
            r == self.enough(),
    {
        self.stop_enqueue
    }

    /// Counts a success, where there is a limit.
    pub fn record_success(&mut self)
        requires
            old(self).consistent(),
            old(self).success_count < usize::MAX,
        ensures
            final(self).limit == old(self).limit,
            final(self).success_count == count_after(old(self).limit, old(self).success_count),
            final(self).consistent(),
            old(self).enough() ==> final(self).enough(),
    {
        if self.limit == 0 {
            return;
        }
        self.success_count = self.success_count + 1;
        if self.success_count >= self.limit {
            self.stop_enqueue = true;
        }
    }
}

/// Whether tasks may still be handed out.
#[derive(Debug, Clone, Copy, PartialEq, Eq, Structural)]
pub struct EnqueueContext {
    pub stop_state: StopState,
    pub cancelled: bool,
}

impl EnqueueContext {
    /// Whether no further task is to be handed out.
    pub fn should_stop(&self) -> (r: bool)
        requires
            self.stop_state.consistent(),
        ensures
            r == (self.cancelled || self.stop_state.enough()),
    {
        self.cancelled || self.stop_state.should_stop_enqueueing()
    }

    /// Whether a task was handed out, given whether there was someone to take it.
    pub fn enqueue(&self, taken: bool) -> (r: bool)
        requires
            self.stop_state.consistent(),
        ensures
            r == (taken && !self.cancelled && !self.stop_state.enough()),
    {
        !self.should_stop() && taken
    }
}

// ---------------------------------------------------------------------------
// Workers

/// What a worker found when it looked for a task.
#[derive(Debug, Clone, Copy, PartialEq, Eq, Structural)]
pub enum TaskSupply {
    /// A task.
    Task,
    /// Nothing for the moment.
    Empty,
    /// Nothing, and nothing will come.
    Closed,
}

/// What a worker does next.
#[derive(Debug, Clone, Copy, PartialEq, Eq, Structural)]
pub enum WorkerStep {
    /// Run the task.
    Run,
    /// Look again a little later.
    Wait,
    /// End.
    Quit,
}

/// What a worker does next: it ends where enough strategies succeeded or it was cancelled.
pub open spec fn worker_step(enough: bool, supply: TaskSupply, cancelled: bool) -> WorkerStep {
    if enough || cancelled {
        WorkerStep::Quit
    } else {
        match supply {
            TaskSupply::Task => WorkerStep::Run,
            TaskSupply::Empty => WorkerStep::Wait,
            TaskSupply::Closed => WorkerStep::Quit,
        }
    }
}

/// The task that is handed out: the first of those that wait, unless it is to stop.
pub open spec fn handed(waiting: Seq<TaskModel>, stop: bool) -> Option<TaskModel> {
    if stop || waiting.len() == 0 {
        None
    } else {
        Some(waiting[0])
    }
}

/// What waits after a task was handed out.
pub open spec fn left_waiting(waiting: Seq<TaskModel>, stop: bool) -> Seq<TaskModel> {
    if handed(waiting, stop) is None {
        waiting
    } else {
        waiting.skip(1)
    }
}

/// The tasks that were handed out, and those that wait, after a task was asked for again and
/// again; `stops` tells each time whether it was to stop.
pub open spec fn handed_out(tasks: Seq<TaskModel>, stops: Seq<bool>) -> (
    Seq<TaskModel>,
    Seq<TaskModel>,
)
    decreases stops.len(),
{
    if stops.len() == 0 {
        (Seq::empty(), tasks)
    } else {
        let (given, waiting) = handed_out(tasks, stops.drop_last());
        (
            match handed(waiting, stops.last()) {
                Some(task) => given.push(task),
                None => given,
            },
            left_waiting(waiting, stops.last()),
        )
    }
}

/// How often it was not to stop.
pub open spec fn goes(stops: Seq<bool>) -> nat
    decreases stops.len(),
{
    if stops.len() == 0 {
        0
    } else {
        goes(stops.drop_last()) + (if stops.last() {
            0nat
        } else {
            1nat
        })
    }
}

/// Tasks are handed out in their order, none twice and none left out: what was handed out and
/// what waits are together all tasks. As many are handed out as were asked for without a stop,
/// as long as there are any.
pub proof fn tasks_in_turn(tasks: Seq<TaskModel>, stops: Seq<bool>)
    ensures
        handed_out(tasks, stops).0 + handed_out(tasks, stops).1 == tasks,
        handed_out(tasks, stops).0.len() == if goes(stops) < tasks.len() {
            goes(stops)
        } else {
            tasks.len()
        },
    decreases stops.len(),
{
    if stops.len() == 0 {
        assert(Seq::<TaskModel>::empty() + tasks =~= tasks);
    } else {
        tasks_in_turn(tasks, stops.drop_last());
        let (given, waiting) = handed_out(tasks, stops.drop_last());
        assert(given.len() + waiting.len() == tasks.len());
        if handed(waiting, stops.last()) is Some {
            assert(given.push(waiting[0]) + waiting.skip(1) =~= given + waiting);
        }
    }
}

/// Where every task has its own place, each place is handed out at most once, and every one
/// where it was asked for often enough without a stop.
pub proof fn each_place_once(tasks: Seq<TaskModel>, stops: Seq<bool>, i: int, j: int)
    requires
        forall|k: int| 0 <= k < tasks.len() ==> (#[trigger] tasks[k]).strategy_index == k,
        0 <= i < handed_out(tasks, stops).0.len(),
        0 <= j < handed_out(tasks, stops).0.len(),
    ensures
        handed_out(tasks, stops).0[i].strategy_index < tasks.len(),
        i != j ==> handed_out(tasks, stops).0[i].strategy_index != handed_out(
            tasks,
            stops,
        ).0[j].strategy_index,
        goes(stops) >= tasks.len() ==> handed_out(tasks, stops).0 == tasks,
{
    tasks_in_turn(tasks, stops);
    let (given, waiting) = handed_out(tasks, stops);
    assert((given + waiting)[i] == given[i]);
    assert((given + waiting)[j] == given[j]);
    if goes(stops) >= tasks.len() {
        assert(given + waiting =~= given);
    }
}

/// The number of successes among the results.
pub open spec fn successes(s: Seq<PoolResultModel>) -> nat
    decreases s.len(),
{
    if s.len() == 0 {
        0
    } else {
        successes(s.drop_last()) + (if s.last().result.outcome == ProbeOutcome::Success {
            1nat
        } else {
            0nat
        })
    }
}

proof fn successes_bound(s: Seq<PoolResultModel>)
    ensures
        successes(s) <= s.len(),
    decreases s.len(),
{
    if s.len() > 0 {
        successes_bound(s.drop_last());
    }
}

/// The order of the strategies.
pub open spec fn index_order() -> spec_fn(PoolResultModel, PoolResultModel) -> bool {
    |a: PoolResultModel, b: PoolResultModel| a.strategy_index < b.strategy_index
}

fn index_less(a: &IndexedPoolResult, b: &IndexedPoolResult) -> (r: bool)
    ensures
        r == (a@.strategy_index < b@.strategy_index),
{
    a.strategy_index < b.strategy_index
}

/// The workers, what they are still to try, and what they found out so far.
#[derive(Debug)]
pub struct WorkerPool {
    config: WorkerPoolConfig,
    assignments: Vec<WorkerAssignment>,
    waiting: Vec<IndexedPoolTask>,
    stop: StopState,
    results: Vec<IndexedPoolResult>,
}

impl WorkerPool {
    #[verifier::type_invariant]
    spec fn counted(self) -> bool {
        &&& self.stop.consistent()
        &&& self.stop.limit == self.config.stop_at_success
        &&& self.stop.success_count == if self.stop.limit == 0 {
            0
        } else {
            successes(views(self.results@))
        }
    }

    /// How many successes are enough.
    pub closed spec fn limit(self) -> usize {
        self.config.stop_at_success
    }

    /// What belongs to each of the workers.
    pub closed spec fn workers(self) -> Seq<WorkerAssignment> {
        self.assignments@
    }

    /// What is still to be handed out, in its order.
    pub closed spec fn waiting(self) -> Seq<TaskModel> {
        views(self.waiting@)
    }

    /// What was found out so far, in the order in which it came.
    pub closed spec fn found(self) -> Seq<PoolResultModel> {
        views(self.results@)
    }

    /// Enough strategies succeeded.
    pub open spec fn enough(self) -> bool {
        self.limit() > 0 && successes(self.found()) >= self.limit()
    }

    /// A pool of one worker for each of the assignments.
    pub fn new(config: WorkerPoolConfig, assignments: Vec<WorkerAssignment>) -> (r: WorkerPool)
        ensures
            r.limit() == config.stop_at_success,
            r.workers() == assignments@,
            r.waiting() == Seq::<TaskModel>::empty(),
            r.found() == Seq::<PoolResultModel>::empty(),
    {
        let stop = StopState::new(config.stop_at_success);
        let waiting: Vec<IndexedPoolTask> = Vec::new();
        let results: Vec<IndexedPoolResult> = Vec::new();
        assert(views(waiting@) =~= Seq::empty());
        assert(views(results@) =~= Seq::empty());
        WorkerPool { config, assignments, waiting, stop, results }
    }

    /// The pool with tasks behind those that it still has.
    pub fn with_tasks(self, tasks: Vec<IndexedPoolTask>) -> (r: WorkerPool)
        ensures
            r.limit() == self.limit(),
            r.workers() == self.workers(),
            r.waiting() == self.waiting() + views(tasks@),
            r.found() == self.found(),
    {
        proof {
            use_type_invariant(&self);
        }
        let WorkerPool { config, assignments, waiting, stop, results } = self;
        let ghost start = waiting@;
        let mut waiting = waiting;
        let mut tasks = tasks;
        let ghost more = tasks@;
        waiting.append(&mut tasks);
        assert(views(waiting@) =~= views(start) + views(more));
        WorkerPool { config, assignments, waiting, stop, results }
    }

    /// Hands out the next task: the first of those that wait, unless it is to stop.
    pub fn next_task(self, cancelled: bool) -> (r: (WorkerPool, Option<IndexedPoolTask>))
        ensures
            r.0.limit() == self.limit(),
            r.0.workers() == self.workers(),
            r.0.found() == self.found(),
            r.0.waiting() == left_waiting(self.waiting(), self.enough() || cancelled),
            match r.1 {
                Some(task) => handed(self.waiting(), self.enough() || cancelled) == Some(task@),
                None => handed(self.waiting(), self.enough() || cancelled) is None,
            },
    {
        proof {
            use_type_invariant(&self);
        }
        let WorkerPool { config, assignments, waiting, stop, results } = self;
        let mut waiting = waiting;
        let ghost start = waiting@;
        assert(views(start).len() == start.len());
        if cancelled || stop.should_stop_enqueueing() || waiting.len() == 0 {
            return (WorkerPool { config, assignments, waiting, stop, results }, None);
        }
        let task = waiting.remove(0);
        assert(views(start)[0] == task@);
        assert(views(waiting@) =~= views(start).skip(1));
        (WorkerPool { config, assignments, waiting, stop, results }, Some(task))
    }

    /// What belongs to each of the workers.
    pub fn assignments(&self) -> (r: &[WorkerAssignment])
        ensures
            r@ == self.workers(),
    {
        self.assignments.as_slice()
    }

    /// The number of workers.
    pub fn worker_count(&self) -> (r: usize)
        ensures
            r == self.workers().len(),
    {
        self.assignments.len()
    }

    /// What a worker does next, given what it found when it looked for a task.
    pub fn next_step(&self, supply: TaskSupply, cancelled: bool) -> (r: WorkerStep)
        ensures
            r == worker_step(self.enough(), supply, cancelled),
    {
        proof {
            use_type_invariant(self);
        }
        if self.stop.should_stop_enqueueing() || cancelled {
            return WorkerStep::Quit;
        }
        match supply {
            TaskSupply::Task => WorkerStep::Run,
            TaskSupply::Empty => WorkerStep::Wait,
            TaskSupply::Closed => WorkerStep::Quit,
        }
    }

    /// Whether tasks may still be handed out.
    pub fn enqueue_context(&self, cancelled: bool) -> (r: EnqueueContext)
        ensures
            r.cancelled == cancelled,
            r.stop_state.consistent(),
            r.stop_state.enough() == self.enough(),
    {
        proof {
            use_type_invariant(self);
        }
        EnqueueContext { stop_state: self.stop, cancelled }
    }

    /// Takes in what came of a strategy.
    pub fn record(self, result: IndexedPoolResult) -> (r: WorkerPool)
        requires
            self.found().len() < usize::MAX,
        ensures
            r.limit() == self.limit(),
            r.workers() == self.workers(),
            r.waiting() == self.waiting(),
            r.found() == self.found().push(result@),
            self.enough() ==> r.enough(),
    {
        proof {
            use_type_invariant(&self);
            successes_bound(views(self.results@));
        }
        let WorkerPool { config, assignments, waiting, stop, results } = self;
        let ghost found = views(results@);
        let mut stop = stop;
        let mut results = results;
        assert(found.len() == results@.len());
        if result.result.outcome == ProbeOutcome::Success {
            stop.record_success();
        }
        proof {
            assert(found.push(result@).drop_last() =~= found);
            views_push(results@, result);
        }
        results.push(result);
        WorkerPool { config, assignments, waiting, stop, results }
    }

    /// What was found out, in the order of the strategies.
    pub fn finish(self) -> (r: Vec<IndexedPoolResult>)
        ensures
            views(r@) == sorted(self.found(), index_order()),
    {
        proof {
            index_order_weak();
        }
        stable_sort(self.results, index_less, Ghost(index_order()))
    }
}

proof fn index_order_weak()
    ensures
        weak_order(index_order()),
{
}

/// Results come out in the order of the strategies, in whatever order they came in.
pub proof fn results_in_order(found: Seq<PoolResultModel>)
    ensures
        in_order(sorted(found, index_order()), index_order()),
{
    index_order_weak();
    sorted_in_order(found, index_order());
}

/// Once enough strategies succeeded, no worker runs another task.
pub proof fn enough_is_enough(supply: TaskSupply, cancelled: bool)
    ensures
        worker_step(true, supply, cancelled) == WorkerStep::Quit,
{
}

// ---------------------------------------------------------------------------
// A strategy on all its targets

/// `t` tries the strategy on the target.
pub open spec fn tries(
    t: StrategyTask,
    node: StrategyNode,
    target: StrategyProbeTarget,
    timeouts: ProbeTimeouts,
) -> bool {
    &&& t.strategy_id == node.id
    &&& texts(t.strategy_args@) == texts(node.args@)
    &&& t.target_host == target.host
    &&& t.target_ip == target.ip
    &&& t.target_port == target.port
    &&& t.protocol == target.protocol
    &&& t.path == target.request.path_and_query
    &&& t.request == target.request
    &&& t.timeouts == timeouts
}

/// The task that tries a strategy on a target.
pub fn task_for_target(
    node: &StrategyNode,
    target: StrategyProbeTarget,
    timeouts: ProbeTimeouts,
) -> (r: StrategyTask)
    ensures
        tries(r, *node, target, timeouts),
{
    StrategyTask {
        strategy_id: node.id.clone(),
        strategy_args: copy_texts(&node.args),
        target_host: target.host,
        target_ip: target.ip,
        target_port: target.port,
        protocol: target.protocol,
        path: target.request.path_and_query.clone(),
        request: target.request,
        timeouts,
    }
}

/// The tasks that try a strategy on each of its targets, in their order.
pub fn tasks_for_targets(
    node: &StrategyNode,
    targets: &Vec<StrategyProbeTarget>,
    timeouts: ProbeTimeouts,
) -> (r: Vec<StrategyTask>)
    ensures
        r@.len() == targets@.len(),
        forall|i: int| 0 <= i < r@.len() ==> tries(#[trigger] r@[i], *node, targets@[i], timeouts),
{
    let mut out: Vec<StrategyTask> = Vec::new();
    let mut i: usize = 0;
    while i < targets.len()
        invariant
            i <= targets@.len(),
            out@.len() == i,
            forall|j: int| 0 <= j < i ==> tries(#[trigger] out@[j], *node, targets@[j], timeouts),
        decreases targets@.len() - i,
    {
        out.push(task_for_target(node, targets[i].clone(), timeouts));
        i = i + 1;
    }
    out
}

/// The attempt that decides for a strategy: the first that failed, or the last one where all
/// succeeded.
pub open spec fn deciding(attempts: Seq<ProbeResult>, i: int) -> ProbeResult
    decreases attempts.len() - i,
{
    if i < 0 || i >= attempts.len() {
        attempts.last()
    } else if attempts[i].outcome != ProbeOutcome::Success {
        attempts[i]
    } else {
        deciding(attempts, i + 1)
    }
}

/// What came of a strategy, given what came of it on each of its targets.
pub fn strategy_verdict(attempts: &Vec<ProbeResult>) -> (r: ProbeResult)
    requires
        attempts@.len() > 0,
    ensures
        r == deciding(attempts@, 0),
{
    let mut i: usize = 0;
    while i < attempts.len()
        invariant
            i <= attempts@.len(),
            deciding(attempts@, i as int) == deciding(attempts@, 0),
        decreases attempts@.len() - i,
    {
        if attempts[i].outcome != ProbeOutcome::Success {
            return attempts[i].clone();
        }
        i = i + 1;
    }
    attempts[attempts.len() - 1].clone()
}

/// What came of a task, given what came of it on each of its targets.
pub fn task_result(
    task: IndexedPoolTask,
    attempts: Vec<ProbeResult>,
    assignment: WorkerAssignment,
) -> (r: IndexedPoolResult)
    requires
        attempts@.len() > 0,
    ensures
        r@ == (PoolResultModel {
            strategy_index: task.strategy_index,
            node: task.node@,
            result: deciding(attempts@, 0),
            attempts: attempts@,
            worker_id: assignment.worker_id,
            qnum: assignment.qnum,
        }),
{
    let result = strategy_verdict(&attempts);
    IndexedPoolResult {
        strategy_index: task.strategy_index,
        node: task.node,
        result,
        attempts,
        worker_id: assignment.worker_id,
        qnum: assignment.qnum,
    }
}

/// A strategy succeeded exactly where it succeeded on every one of its targets.
pub proof fn verdict_needs_all(attempts: Seq<ProbeResult>, i: int)
    requires
        0 <= i <= attempts.len(),
        attempts.len() > 0,
        forall|j: int| 0 <= j < i ==> (#[trigger] attempts[j]).outcome == ProbeOutcome::Success,
    ensures
        deciding(attempts, i).outcome == ProbeOutcome::Success <==> (forall|j: int|
            0 <= j < attempts.len() ==> (#[trigger] attempts[j]).outcome
                == ProbeOutcome::Success),
    decreases attempts.len() - i,
{
    if i < attempts.len() && attempts[i].outcome == ProbeOutcome::Success {
        verdict_needs_all(attempts, i + 1);
    }
    if i == attempts.len() {
        assert(attempts[attempts.len() - 1].outcome == ProbeOutcome::Success);
    }
}

/// Of the attempts the first that failed decides, whatever came of those behind it; where none
/// failed the last one does.
pub proof fn first_failure_decides(attempts: Seq<ProbeResult>, i: int)
    requires
        attempts.len() > 0,
    ensures
        0 <= i < attempts.len() && attempts[i].outcome != ProbeOutcome::Success && (forall|j: int|
            0 <= j < i ==> (#[trigger] attempts[j]).outcome == ProbeOutcome::Success) ==> deciding(
            attempts,
            0,
        ) == attempts[i],
        (forall|j: int|
            0 <= j < attempts.len() ==> (#[trigger] attempts[j]).outcome == ProbeOutcome::Success)
            ==> deciding(attempts, 0) == attempts.last(),
{
    first_failure_from(attempts, 0, i);
}

proof fn first_failure_from(attempts: Seq<ProbeResult>, from: int, i: int)
    requires
        0 <= from <= attempts.len(),
    ensures
        from <= i < attempts.len() && attempts[i].outcome != ProbeOutcome::Success && (forall|
            j: int,
        | from <= j < i ==> (#[trigger] attempts[j]).outcome == ProbeOutcome::Success) ==> deciding(
            attempts,
            from,
        ) == attempts[i],
        (forall|j: int|
            from <= j < attempts.len() ==> (#[trigger] attempts[j]).outcome
                == ProbeOutcome::Success) ==> deciding(attempts, from) == attempts.last(),
    decreases attempts.len() - from,
{
    if from < attempts.len() && attempts[from].outcome == ProbeOutcome::Success {
        first_failure_from(attempts, from + 1, i);
    }
}

/// A worker runs a task if and only if there is one and nothing stops it, waits if and only if
/// there may be one later, and else ends.
pub proof fn workers_run_what_there_is(enough: bool, supply: TaskSupply, cancelled: bool)
    ensures
        worker_step(enough, supply, cancelled) == WorkerStep::Run <==> !enough && !cancelled
            && supply == TaskSupply::Task,
        worker_step(enough, supply, cancelled) == WorkerStep::Wait <==> !enough && !cancelled
            && supply == TaskSupply::Empty,
        worker_step(enough, supply, cancelled) == WorkerStep::Quit <==> enough || cancelled
            || supply == TaskSupply::Closed,
{
}

/// Without a limit there is never enough; with one there is from the success on that reaches
/// it.
pub proof fn limits_stop_where_reached(state: StopState)
    ensures
        state.limit == 0 ==> !state.enough(),
        state.limit > 0 ==> (state.enough() <==> state.success_count >= state.limit),
{
}

/// The task of a strategy on a target is for that target, with all the arguments of the
/// strategy and the target's own request.
pub proof fn tasks_are_for_their_target(
    t: StrategyTask,
    node: StrategyNode,
    target: StrategyProbeTarget,
    timeouts: ProbeTimeouts,
)
    requires
        tries(t, node, target, timeouts),
    ensures
        t.strategy_id == node.id && texts(t.strategy_args@) == texts(node.args@),
        t.target_host == target.host && t.target_ip == target.ip && t.target_port == target.port,
        t.protocol == target.protocol && t.request == target.request,
        t.path == target.request.path_and_query,
        t.timeouts == timeouts,
{
}

/// With a limit each success is one more, without one none is counted.
pub proof fn successes_count_towards_a_limit(limit: usize, count: usize)
    requires
        count < usize::MAX,
    ensures
        limit > 0 ==> count_after(limit, count) == count + 1,
        limit == 0 ==> count_after(limit, count) == count,
{
}

} // verus!
