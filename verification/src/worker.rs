use vstd::prelude::*;
use crate::firewall::{FirewallError, FirewallHook, L4Protocol, WorkerFirewallRule};
use crate::isolation::IsolationMode;
use crate::nfqws::{NfqwsError, NfqwsInstanceConfig};
use crate::probe::ProbeError;
use crate::text::{copy_texts, opt_text, texts};
use crate::types::{
    blank_result, empty_result, FailureKind, ProbeErrorClass, ProbeOutcome, ProbeProtocol,
    ProbeResult, ProbeTask, StrategyTask,
};

verus! {

/// The queue, the mark and the source port that belong to a worker.
#[derive(Debug, Clone, Copy, PartialEq, Eq, Structural)]
pub struct WorkerAssignment {
    pub worker_id: usize,
    pub qnum: u16,
    pub fwmark: Option<u32>,
    pub source_port: Option<u16>,
}

/// What every task of a worker is run with.
#[derive(Debug)]
pub struct WorkerRuntime {
    pub nfqws_binary: String,
    pub nfqws_library_paths: Vec<String>,
    pub nfqws_base_args: Vec<String>,
    pub nfqws_start_grace_ms: u64,
    pub nfqws_log_stdout: bool,
    pub nfqws_log_stderr: bool,
    pub firewall_hook: FirewallHook,
    pub isolation_mode: IsolationMode,
}

// ---------------------------------------------------------------------------
// The phases of a task

/// What a task waits for.
#[derive(Debug, Clone, Copy, PartialEq, Eq, Structural)]
pub enum WorkerPhase {
    /// A socket that is ready.
    Preparing,
    /// The start of the packet filter.
    Starting,
    /// The firewall rule.
    Installing,
    /// The end of the probe.
    Probing,
    /// The removal of the firewall rule.
    Removing,
    /// The end of the packet filter.
    Stopping,
    /// The end of the packet filter where there was no rule to be had.
    Abandoning,
    /// Nothing more.
    Done,
}

/// The phase after `phase`, given whether it went well.
pub open spec fn next_phase(phase: WorkerPhase, mode: IsolationMode, ok: bool) -> WorkerPhase {
    match phase {
        WorkerPhase::Preparing => if ok {
            WorkerPhase::Starting
        } else {
            WorkerPhase::Done
        },
        WorkerPhase::Starting => if !ok {
            WorkerPhase::Done
        } else if mode == IsolationMode::SourcePort {
            WorkerPhase::Installing
        } else {
            WorkerPhase::Probing
        },
        WorkerPhase::Installing => if ok {
            WorkerPhase::Probing
        } else {
            WorkerPhase::Abandoning
        },
        WorkerPhase::Probing => if mode == IsolationMode::SourcePort {
            WorkerPhase::Removing
        } else {
            WorkerPhase::Stopping
        },
        WorkerPhase::Removing => WorkerPhase::Stopping,
        WorkerPhase::Stopping => WorkerPhase::Done,
        WorkerPhase::Abandoning => WorkerPhase::Done,
        WorkerPhase::Done => WorkerPhase::Done,
    }
}

/// A packet filter is running.
pub open spec fn filter_held(phase: WorkerPhase) -> bool {
    match phase {
        WorkerPhase::Installing => true,
        WorkerPhase::Probing => true,
        WorkerPhase::Removing => true,
        WorkerPhase::Stopping => true,
        WorkerPhase::Abandoning => true,
        _ => false,
    }
}

/// A firewall rule is in force.
pub open spec fn rule_held(phase: WorkerPhase, mode: IsolationMode) -> bool {
    mode == IsolationMode::SourcePort && match phase {
        WorkerPhase::Probing => true,
        WorkerPhase::Removing => true,
        _ => false,
    }
}

/// How many phases there can still be.
pub open spec fn phases_left(phase: WorkerPhase) -> nat {
    match phase {
        WorkerPhase::Preparing => 6,
        WorkerPhase::Starting => 5,
        WorkerPhase::Installing => 4,
        WorkerPhase::Probing => 3,
        WorkerPhase::Removing => 2,
        WorkerPhase::Stopping => 1,
        WorkerPhase::Abandoning => 1,
        WorkerPhase::Done => 0,
    }
}

/// Every task comes to its end: each phase leaves fewer to come.
pub proof fn phases_run_out(phase: WorkerPhase, mode: IsolationMode, ok: bool)
    requires
        phase != WorkerPhase::Done,
    ensures
        phases_left(next_phase(phase, mode, ok)) < phases_left(phase),
{
}

/// A packet filter runs from its start until it is stopped, a rule is in force from its
/// installation until it is removed, and no rule is in force without a filter.
pub proof fn cleanup_order(phase: WorkerPhase, mode: IsolationMode, ok: bool)
    ensures
        !filter_held(phase) && filter_held(next_phase(phase, mode, ok)) ==> phase
            == WorkerPhase::Starting && ok,
        filter_held(phase) && !filter_held(next_phase(phase, mode, ok)) ==> phase
            == WorkerPhase::Stopping || phase == WorkerPhase::Abandoning,
        !rule_held(phase, mode) && rule_held(next_phase(phase, mode, ok), mode) ==> phase
            == WorkerPhase::Installing && ok,
        rule_held(phase, mode) && !rule_held(next_phase(phase, mode, ok), mode) ==> phase
            == WorkerPhase::Removing,
        rule_held(phase, mode) ==> filter_held(phase),
{
}

/// How often things were begun and ended in the course of a task.
pub struct Ledger {
    pub phase: WorkerPhase,
    pub filters_started: int,
    pub filters_stopped: int,
    pub rules_installed: int,
    pub rules_removed: int,
}

/// What was begun and ended after the given phases went well or not.
pub open spec fn ledger_after(mode: IsolationMode, oks: Seq<bool>) -> Ledger
    decreases oks.len(),
{
    if oks.len() == 0 {
        Ledger {
            phase: WorkerPhase::Preparing,
            filters_started: 0,
            filters_stopped: 0,
            rules_installed: 0,
            rules_removed: 0,
        }
    } else {
        let l = ledger_after(mode, oks.drop_last());
        let ok = oks.last();
        Ledger {
            phase: next_phase(l.phase, mode, ok),
            filters_started: l.filters_started + (if l.phase == WorkerPhase::Starting && ok {
                1int
            } else {
                0
            }),
            filters_stopped: l.filters_stopped + (if l.phase == WorkerPhase::Stopping || l.phase
                == WorkerPhase::Abandoning {
                1int
            } else {
                0
            }),
            rules_installed: l.rules_installed + (if l.phase == WorkerPhase::Installing && ok {
                1int
            } else {
                0
            }),
            rules_removed: l.rules_removed + (if l.phase == WorkerPhase::Removing {
                1int
            } else {
                0
            }),
        }
    }
}

/// Whatever goes wrong on the way: when a task is done, every packet filter that was started
/// was stopped, and every rule that was installed was removed.
pub proof fn nothing_is_left(mode: IsolationMode, oks: Seq<bool>)
    ensures
        ledger_after(mode, oks).filters_started - ledger_after(mode, oks).filters_stopped == (
        if filter_held(ledger_after(mode, oks).phase) {
            1int
        } else {
            0
        }),
        ledger_after(mode, oks).rules_installed - ledger_after(mode, oks).rules_removed == (
        if rule_held(ledger_after(mode, oks).phase, mode) {
            1int
        } else {
            0
        }),
        ledger_after(mode, oks).phase == WorkerPhase::Done ==> ledger_after(
            mode,
            oks,
        ).filters_started == ledger_after(mode, oks).filters_stopped && ledger_after(
            mode,
            oks,
        ).rules_installed == ledger_after(mode, oks).rules_removed,
        ledger_after(mode, oks).phase == WorkerPhase::Installing ==> mode
            == IsolationMode::SourcePort,
        ledger_after(mode, oks).phase == WorkerPhase::Removing ==> mode
            == IsolationMode::SourcePort,
    decreases oks.len(),
{
    if oks.len() > 0 {
        nothing_is_left(mode, oks.drop_last());
    }
}

/// While a task is probing, its packet filter is running, and where packets are told apart by
/// ports its rule is in force.
pub proof fn probing_is_isolated(mode: IsolationMode, oks: Seq<bool>)
    requires
        ledger_after(mode, oks).phase == WorkerPhase::Probing,
    ensures
        ledger_after(mode, oks).filters_started == ledger_after(mode, oks).filters_stopped + 1,
        mode == IsolationMode::SourcePort ==> ledger_after(mode, oks).rules_installed
            == ledger_after(mode, oks).rules_removed + 1,
{
    nothing_is_left(mode, oks);
}

// ---------------------------------------------------------------------------
// A task

/// What is to be done next for a task.
#[derive(Debug)]
pub enum WorkerAction {
    /// Make a socket ready, with the mark where there is one.
    Prepare(Option<u32>),
    /// Start the packet filter.
    StartFilter(NfqwsInstanceConfig),
    /// Install the firewall rule.
    InstallRule(WorkerFirewallRule),
    /// Probe with the socket.
    Probe,
    /// Remove the firewall rule.
    RemoveRule(WorkerFirewallRule),
    /// Stop the packet filter.
    StopFilter,
    /// Nothing more: this came of it.
    Finish(ProbeResult),
}

/// What came of the last thing that was done.
#[derive(Debug)]
pub enum WorkerEvent {
    /// The socket is ready, on the given port; or it is not.
    Prepared(Result<u16, ProbeError>),
    /// The packet filter was started, or not.
    Started(Result<(), NfqwsError>),
    /// The rule was installed, or not.
    Installed(Result<(), FirewallError>),
    /// The probe ended, or took too long.
    Probed(Option<ProbeResult>),
    /// The rule was removed, or not.
    Removed(Result<(), FirewallError>),
    /// The packet filter was stopped, or not.
    Stopped(Result<(), NfqwsError>),
}

/// A task on its way.
#[derive(Debug)]
pub struct WorkerRun {
    pub task: ProbeTask,
    pub assignment: WorkerAssignment,
    pub phase: WorkerPhase,
    pub source_port: u16,
    pub setup_ms: u64,
    pub result: Option<ProbeResult>,
}

/// The event is the one that the phase waits for.
pub open spec fn awaited(phase: WorkerPhase, event: WorkerEvent) -> bool {
    match phase {
        WorkerPhase::Preparing => event is Prepared,
        WorkerPhase::Starting => event is Started,
        WorkerPhase::Installing => event is Installed,
        WorkerPhase::Probing => event is Probed,
        WorkerPhase::Removing => event is Removed,
        WorkerPhase::Stopping => event is Stopped,
        WorkerPhase::Abandoning => event is Stopped,
        WorkerPhase::Done => false,
    }
}

/// The event tells of success.
pub open spec fn went_well(event: WorkerEvent) -> bool {
    match event {
        WorkerEvent::Prepared(r) => r is Ok,
        WorkerEvent::Started(r) => r is Ok,
        WorkerEvent::Installed(r) => r is Ok,
        WorkerEvent::Probed(r) => r is Some,
        WorkerEvent::Removed(r) => r is Ok,
        WorkerEvent::Stopped(r) => r is Ok,
    }
}

/// The transport that a probe uses.
pub open spec fn transport_of(protocol: ProbeProtocol) -> L4Protocol {
    if protocol == ProbeProtocol::QuicHttp3Future {
        L4Protocol::Udp
    } else {
        L4Protocol::Tcp
    }
}

impl WorkerRun {
    /// There is a result from the probe on.
    pub open spec fn consistent(self) -> bool {
        match self.phase {
            WorkerPhase::Removing => self.result is Some,
            WorkerPhase::Stopping => self.result is Some,
            WorkerPhase::Abandoning => self.result is Some,
            _ => true,
        }
    }

    /// The rule that leads the packets of the task into its queue.
    pub open spec fn rule(self, port: u16, hook: FirewallHook) -> WorkerFirewallRule {
        WorkerFirewallRule {
            worker_id: self.task.worker_id,
            qnum: self.assignment.qnum,
            source_port: port,
            target_ip: self.task.target_ip,
            target_port: self.task.target_port,
            protocol: transport_of(self.task.protocol),
            hook,
        }
    }

    /// The result of the task where it failed before its strategy was put to the test.
    pub open spec fn setup_failure(
        self,
        port: Option<u16>,
        class: ProbeErrorClass,
        message: Option<String>,
        total_ms: u64,
    ) -> ProbeResult {
        blank_result(
            self.task,
            Some(self.assignment.qnum),
            port,
            total_ms,
            ProbeOutcome::InternalError,
            Some(FailureKind::InfrastructureFailure),
            Some(class),
            message,
        )
    }

    fn make_rule(&self, port: u16, hook: FirewallHook) -> (r: WorkerFirewallRule)
        ensures
            r == self.rule(port, hook),
    {
        WorkerFirewallRule {
            worker_id: self.task.worker_id,
            qnum: self.assignment.qnum,
            source_port: port,
            target_ip: self.task.target_ip.clone(),
            target_port: self.task.target_port,
            protocol: match self.task.protocol {
                ProbeProtocol::QuicHttp3Future => L4Protocol::Udp,
                _ => L4Protocol::Tcp,
            },
            hook,
        }
    }
}

/// `c` starts the packet filter of the task.
pub open spec fn starts_filter(
    c: NfqwsInstanceConfig,
    runtime: WorkerRuntime,
    run: WorkerRun,
) -> bool {
    &&& c.qnum == run.assignment.qnum
    &&& c.binary == runtime.nfqws_binary
    &&& texts(c.library_paths@) == texts(runtime.nfqws_library_paths@)
    &&& texts(c.base_args@) == texts(runtime.nfqws_base_args@)
    &&& texts(c.strategy_args@) == texts(run.task.strategy_args@)
    &&& c.worker_id == run.task.worker_id
    &&& c.strategy_id == run.task.strategy_id
    &&& c.start_grace_ms == runtime.nfqws_start_grace_ms
    &&& c.log_stdout == runtime.nfqws_log_stdout
    &&& c.log_stderr == runtime.nfqws_log_stderr
}

/// The result of a probe that took too long, or the one that it ended with.
pub open spec fn is_probe_outcome(
    r: ProbeResult,
    run: WorkerRun,
    end: Option<ProbeResult>,
    total_ms: u64,
) -> bool {
    match end {
        Some(res) => r == res,
        None => opt_text(r.error_message) == Some("total timeout"@) && r == blank_result(
            run.task,
            Some(run.assignment.qnum),
            Some(run.source_port),
            total_ms,
            ProbeOutcome::Timeout,
            Some(FailureKind::StrategyFailure),
            Some(ProbeErrorClass::ReadTimeout),
            r.error_message,
        ),
    }
}

/// The port that a result tells, or `otherwise` where it tells none.
pub open spec fn port_of(r: ProbeResult, otherwise: u16) -> u16 {
    match r.assigned_source_port {
        Some(p) => if p != 0 {
            p
        } else {
            otherwise
        },
        None => otherwise,
    }
}

/// The result with an error of cleaning up, where it tells none itself.
pub open spec fn with_class(r: ProbeResult, failed: bool, class: ProbeErrorClass) -> ProbeResult {
    if failed && r.error_class is None {
        ProbeResult { error_class: Some(class), ..r }
    } else {
        r
    }
}

/// What is done, and how the task stands, after the event.
pub open spec fn follows(
    runtime: WorkerRuntime,
    run: WorkerRun,
    event: WorkerEvent,
    now_ms: u64,
    next: WorkerRun,
    action: WorkerAction,
) -> bool {
    let mode = runtime.isolation_mode;
    let hook = runtime.firewall_hook;
    &&& next.task == run.task
    &&& next.assignment == run.assignment
    &&& next.phase == next_phase(run.phase, mode, went_well(event))
    &&& next.consistent()
    &&& match event {
        WorkerEvent::Prepared(Ok(port)) => {
            &&& next.source_port == port
            &&& next.result is None
            &&& action matches WorkerAction::StartFilter(c) && starts_filter(c, runtime, run)
        },
        WorkerEvent::Prepared(Err(e)) => action matches WorkerAction::Finish(res)
            && opt_text(res.error_message) == Some(e.words()) && res == run.setup_failure(
            None,
            ProbeErrorClass::BindFailed,
            res.error_message,
            now_ms,
        ),
        WorkerEvent::Started(Ok(_)) => {
            &&& next.source_port == run.source_port
            &&& if mode == IsolationMode::SourcePort {
                action == WorkerAction::InstallRule(run.rule(run.source_port, hook))
            } else {
                action == WorkerAction::Probe && next.setup_ms == now_ms
            }
        },
        WorkerEvent::Started(Err(e)) => action matches WorkerAction::Finish(res)
            && opt_text(res.error_message) == Some(e.words()) && res == run.setup_failure(
            Some(run.source_port),
            ProbeErrorClass::NfqwsStartFailed,
            res.error_message,
            now_ms,
        ),
        WorkerEvent::Installed(Ok(_)) => {
            &&& next.source_port == run.source_port
            &&& next.setup_ms == now_ms
            &&& action == WorkerAction::Probe
        },
        WorkerEvent::Installed(Err(e)) => {
            &&& action == WorkerAction::StopFilter
            &&& next.result matches Some(res) && opt_text(res.error_message) == Some(e.words())
                && res == run.setup_failure(
                Some(run.source_port),
                ProbeErrorClass::FirewallInstallFailed,
                res.error_message,
                now_ms,
            )
        },
        WorkerEvent::Probed(end) => {
            &&& next.result matches Some(res) && exists|seen: ProbeResult|
                {
                    &&& #[trigger] is_probe_outcome(seen, run, end, now_ms)
                    &&& res == (ProbeResult { setup_ms: Some(run.setup_ms), ..seen })
                    &&& next.source_port == port_of(seen, run.source_port)
                }
            &&& if mode == IsolationMode::SourcePort {
                action == WorkerAction::RemoveRule(run.rule(run.source_port, hook))
            } else {
                action == WorkerAction::StopFilter
            }
        },
        WorkerEvent::Removed(r) => {
            &&& next.source_port == run.source_port
            &&& action == WorkerAction::StopFilter
            &&& next.result == Some(
                with_class(run.result->0, r is Err, ProbeErrorClass::FirewallRemoveFailed),
            )
        },
        WorkerEvent::Stopped(r) => if run.phase == WorkerPhase::Abandoning {
            action == WorkerAction::Finish(run.result->0)
        } else {
            action == WorkerAction::Finish(
                ProbeResult {
                    qnum: Some(run.assignment.qnum),
                    assigned_source_port: Some(run.source_port),
                    ..with_class(run.result->0, r is Err, ProbeErrorClass::NfqwsStopFailed)
                },
            )
        },
    }
}

/// Where packets are told apart by ports, the rule of a task leads the port of its socket into
/// its queue, and the rule that is removed after the probe is the one that was installed before
/// it.
pub proof fn installed_rule_is_removed(
    runtime: WorkerRuntime,
    ready: WorkerRun,
    port: u16,
    prepared: (WorkerRun, WorkerAction, u64),
    started: (WorkerRun, WorkerAction, u64),
    installed: (WorkerRun, WorkerAction, u64),
    end: Option<ProbeResult>,
    probed: (WorkerRun, WorkerAction, u64),
)
    requires
        runtime.isolation_mode == IsolationMode::SourcePort,
        ready.phase == WorkerPhase::Preparing,
        follows(
            runtime,
            ready,
            WorkerEvent::Prepared(Ok(port)),
            prepared.2,
            prepared.0,
            prepared.1,
        ),
        follows(
            runtime,
            prepared.0,
            WorkerEvent::Started(Ok(())),
            started.2,
            started.0,
            started.1,
        ),
        follows(
            runtime,
            started.0,
            WorkerEvent::Installed(Ok(())),
            installed.2,
            installed.0,
            installed.1,
        ),
        follows(runtime, installed.0, WorkerEvent::Probed(end), probed.2, probed.0, probed.1),
    ensures
        started.1 == WorkerAction::InstallRule(ready.rule(port, runtime.firewall_hook)),
        installed.1 == WorkerAction::Probe,
        probed.1 == WorkerAction::RemoveRule(ready.rule(port, runtime.firewall_hook)),
        ready.rule(port, runtime.firewall_hook).source_port == port,
        ready.rule(port, runtime.firewall_hook).qnum == ready.assignment.qnum,
{
}

/// The task of a worker that a strategy's task becomes.
pub open spec fn task_for(task: StrategyTask, assignment: WorkerAssignment) -> ProbeTask {
    ProbeTask {
        strategy_id: task.strategy_id,
        worker_id: assignment.worker_id,
        strategy_args: task.strategy_args,
        target_host: task.target_host,
        target_ip: task.target_ip,
        target_port: task.target_port,
        protocol: task.protocol,
        path: task.path,
        request: task.request,
        timeouts: task.timeouts,
    }
}

/// A task begins with `run` and `action`: with a socket, which has the worker's mark where
/// packets are told apart by marks.
pub open spec fn begins_task(
    mode: IsolationMode,
    task: ProbeTask,
    assignment: WorkerAssignment,
    run: WorkerRun,
    action: WorkerAction,
) -> bool {
    &&& run.task == task
    &&& run.assignment == assignment
    &&& run.phase == WorkerPhase::Preparing
    &&& run.consistent()
    &&& action == WorkerAction::Prepare(
        if mode == IsolationMode::Fwmark {
            assignment.fwmark
        } else {
            None
        },
    )
}

impl WorkerRuntime {
    /// Begins a task of a strategy.
    pub fn run_strategy_task(&self, task: StrategyTask, assignment: WorkerAssignment) -> (r: (
        WorkerRun,
        WorkerAction,
    ))
        requires
            self.isolation_mode == IsolationMode::Fwmark ==> assignment.fwmark is Some,
        ensures
            begins_task(self.isolation_mode, task_for(task, assignment), assignment, r.0, r.1),
    {
        self.run_worker_task(
            ProbeTask::from_strategy_task(task, assignment.worker_id),
            assignment,
        )
    }

    /// Begins a task.
    pub fn run_worker_task(&self, task: ProbeTask, assignment: WorkerAssignment) -> (r: (
        WorkerRun,
        WorkerAction,
    ))
        requires
            self.isolation_mode == IsolationMode::Fwmark ==> assignment.fwmark is Some,
        ensures
            begins_task(self.isolation_mode, task, assignment, r.0, r.1),
    {
        let mark = match self.isolation_mode {
            IsolationMode::SourcePort => None,
            IsolationMode::Fwmark => assignment.fwmark,
        };
        (
            WorkerRun {
                task,
                assignment,
                phase: WorkerPhase::Preparing,
                source_port: 0,
                setup_ms: 0,
                result: None,
            },
            WorkerAction::Prepare(mark),
        )
    }

    fn filter_config(&self, run: &WorkerRun) -> (r: NfqwsInstanceConfig)
        ensures
            starts_filter(r, *self, *run),
    {
        NfqwsInstanceConfig {
            qnum: run.assignment.qnum,
            binary: self.nfqws_binary.clone(),
            library_paths: copy_texts(&self.nfqws_library_paths),
            base_args: copy_texts(&self.nfqws_base_args),
            strategy_args: copy_texts(&run.task.strategy_args),
            worker_id: run.task.worker_id,
            strategy_id: run.task.strategy_id.clone(),
            start_grace_ms: self.nfqws_start_grace_ms,
            log_stdout: self.nfqws_log_stdout,
            log_stderr: self.nfqws_log_stderr,
        }
    }

    /// Says what is to be done next for a task after an event. `now_ms` tells how long ago
    /// the task began.
    pub fn advance(&self, run: WorkerRun, event: WorkerEvent, now_ms: u64) -> (r: (
        WorkerRun,
        WorkerAction,
    ))
        requires
            run.consistent(),
            awaited(run.phase, event),
        ensures
            follows(*self, run, event, now_ms, r.0, r.1),
    {
        match event {
            WorkerEvent::Prepared(end) => self.after_prepare(run, end, now_ms),
            WorkerEvent::Started(end) => self.after_start(run, end, now_ms),
            WorkerEvent::Installed(end) => self.after_install(run, end, now_ms),
            WorkerEvent::Probed(end) => self.after_probe(run, end, now_ms),
            WorkerEvent::Removed(end) => self.after_remove(run, end, Ghost(now_ms)),
            WorkerEvent::Stopped(end) => self.after_stop(run, end, Ghost(now_ms)),
        }
    }

    fn after_prepare(&self, run: WorkerRun, end: Result<u16, ProbeError>, now_ms: u64) -> (r: (
        WorkerRun,
        WorkerAction,
    ))
        requires
            run.phase == WorkerPhase::Preparing,
        ensures
            follows(*self, run, WorkerEvent::Prepared(end), now_ms, r.0, r.1),
    {
        let mut next = run;
        next.result = None;
        match end {
            Ok(port) => {
                let config = self.filter_config(&next);
                next.source_port = port;
                next.phase = WorkerPhase::Starting;
                (next, WorkerAction::StartFilter(config))
            },
            Err(e) => {
                next.phase = WorkerPhase::Done;
                let res = ProbeResult::infrastructure_failure(
                    &next.task,
                    Some(next.assignment.qnum),
                    None,
                    ProbeErrorClass::BindFailed,
                    e.message(),
                    now_ms,
                );
                (next, WorkerAction::Finish(res))
            },
        }
    }

    fn after_start(&self, run: WorkerRun, end: Result<(), NfqwsError>, now_ms: u64) -> (r: (
        WorkerRun,
        WorkerAction,
    ))
        requires
            run.phase == WorkerPhase::Starting,
        ensures
            follows(*self, run, WorkerEvent::Started(end), now_ms, r.0, r.1),
    {
        let mut next = run;
        match end {
            Ok(_) => match self.isolation_mode {
                IsolationMode::SourcePort => {
                    next.phase = WorkerPhase::Installing;
                    let rule = next.make_rule(next.source_port, self.firewall_hook);
                    (next, WorkerAction::InstallRule(rule))
                },
                IsolationMode::Fwmark => {
                    next.phase = WorkerPhase::Probing;
                    next.setup_ms = now_ms;
                    (next, WorkerAction::Probe)
                },
            },
            Err(e) => {
                next.phase = WorkerPhase::Done;
                let res = ProbeResult::infrastructure_failure(
                    &next.task,
                    Some(next.assignment.qnum),
                    Some(next.source_port),
                    ProbeErrorClass::NfqwsStartFailed,
                    e.message(),
                    now_ms,
                );
                (next, WorkerAction::Finish(res))
            },
        }
    }

    fn after_install(&self, run: WorkerRun, end: Result<(), FirewallError>, now_ms: u64) -> (r: (
        WorkerRun,
        WorkerAction,
    ))
        requires
            run.phase == WorkerPhase::Installing,
        ensures
            follows(*self, run, WorkerEvent::Installed(end), now_ms, r.0, r.1),
    {
        let mut next = run;
        match end {
            Ok(_) => {
                next.phase = WorkerPhase::Probing;
                next.setup_ms = now_ms;
                (next, WorkerAction::Probe)
            },
            Err(e) => {
                next.phase = WorkerPhase::Abandoning;
                let res = ProbeResult::infrastructure_failure(
                    &next.task,
                    Some(next.assignment.qnum),
                    Some(next.source_port),
                    ProbeErrorClass::FirewallInstallFailed,
                    e.message(),
                    now_ms,
                );
                next.result = Some(res);
                (next, WorkerAction::StopFilter)
            },
        }
    }

    fn after_probe(&self, run: WorkerRun, end: Option<ProbeResult>, now_ms: u64) -> (r: (
        WorkerRun,
        WorkerAction,
    ))
        requires
            run.phase == WorkerPhase::Probing,
        ensures
            follows(*self, run, WorkerEvent::Probed(end), now_ms, r.0, r.1),
    {
        let mut next = run;
        let mut res = match end {
            Some(res) => res,
            None => empty_result(
                &next.task,
                Some(next.assignment.qnum),
                Some(next.source_port),
                now_ms,
                ProbeOutcome::Timeout,
                Some(FailureKind::StrategyFailure),
                Some(ProbeErrorClass::ReadTimeout),
                Some("total timeout".to_owned()),
            ),
        };
        assert(is_probe_outcome(res, run, end, now_ms));
        let rule = next.make_rule(next.source_port, self.firewall_hook);
        if let Some(port) = res.assigned_source_port {
            if port != 0 {
                next.source_port = port;
            }
        }
        res.setup_ms = Some(next.setup_ms);
        next.result = Some(res);
        match self.isolation_mode {
            IsolationMode::SourcePort => {
                next.phase = WorkerPhase::Removing;
                (next, WorkerAction::RemoveRule(rule))
            },
            IsolationMode::Fwmark => {
                next.phase = WorkerPhase::Stopping;
                (next, WorkerAction::StopFilter)
            },
        }
    }

    fn after_remove(
        &self,
        run: WorkerRun,
        end: Result<(), FirewallError>,
        Ghost(now_ms): Ghost<u64>,
    ) -> (r: (
        WorkerRun,
        WorkerAction,
    ))
        requires
            run.phase == WorkerPhase::Removing,
            run.consistent(),
        ensures
            follows(*self, run, WorkerEvent::Removed(end), now_ms, r.0, r.1),
    {
        let WorkerRun { task, assignment, phase: _, source_port, setup_ms, result } = run;
        let result = Some(
            note_class(result.unwrap(), end.is_err(), ProbeErrorClass::FirewallRemoveFailed),
        );
        let next = WorkerRun {
            task,
            assignment,
            phase: WorkerPhase::Stopping,
            source_port,
            setup_ms,
            result,
        };
        (next, WorkerAction::StopFilter)
    }

    fn after_stop(
        &self,
        run: WorkerRun,
        end: Result<(), NfqwsError>,
        Ghost(now_ms): Ghost<u64>,
    ) -> (r: (
        WorkerRun,
        WorkerAction,
    ))
        requires
            run.phase == WorkerPhase::Stopping || run.phase == WorkerPhase::Abandoning,
            run.consistent(),
        ensures
            follows(*self, run, WorkerEvent::Stopped(end), now_ms, r.0, r.1),
    {
        let WorkerRun { task, assignment, phase, source_port, setup_ms, result } = run;
        let res = result.unwrap();
        let last = if phase == WorkerPhase::Abandoning {
            res
        } else {
            let mut res = note_class(res, end.is_err(), ProbeErrorClass::NfqwsStopFailed);
            res.qnum = Some(assignment.qnum);
            res.assigned_source_port = Some(source_port);
            res
        };
        let next = WorkerRun {
            task,
            assignment,
            phase: WorkerPhase::Done,
            source_port,
            setup_ms,
            result: None,
        };
        (next, WorkerAction::Finish(last))
    }
}

fn note_class(r: ProbeResult, failed: bool, class: ProbeErrorClass) -> (out: ProbeResult)
    ensures
        out == with_class(r, failed, class),
{
    let mut r = r;
    if failed {
        if let None = r.error_class {
            r.error_class = Some(class);
        }
    }
    r
}

} // verus!
