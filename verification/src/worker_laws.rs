use vstd::prelude::*;
use crate::firewall::{FirewallHook, L4Protocol};
use crate::isolation::IsolationMode;
use crate::text::texts;
use crate::types::{
    FailureKind, ProbeErrorClass, ProbeOutcome, ProbeProtocol, ProbeResult, ProbeTask, StrategyTask,
};
use crate::worker::{
    begins_task, follows, next_phase, port_of, task_for, went_well, WorkerAction, WorkerAssignment,
    WorkerEvent, WorkerPhase, WorkerRun, WorkerRuntime,
};

verus! {

/// The phases of a task. The filter is started once a socket is ready. A rule is installed if
/// and only if the filter runs and packets are told apart by ports, and the probe begins once
/// the rule is in force, or at once where packets are told apart by marks. After a probe,
/// whatever came of it, the rule is removed and then the filter stopped. A filter without its
/// rule is stopped too.
pub proof fn phases_follow(phase: WorkerPhase, mode: IsolationMode, ok: bool)
    ensures
        ({
            let next = next_phase(phase, mode, ok);
            let ports = mode == IsolationMode::SourcePort;
            &&& next == WorkerPhase::Starting <==> phase == WorkerPhase::Preparing && ok
            &&& next == WorkerPhase::Installing <==> phase == WorkerPhase::Starting && ok && ports
            &&& next == WorkerPhase::Probing <==> ok && (phase == WorkerPhase::Installing || phase
                == WorkerPhase::Starting && !ports)
            &&& next == WorkerPhase::Abandoning <==> phase == WorkerPhase::Installing && !ok
            &&& next == WorkerPhase::Removing <==> phase == WorkerPhase::Probing && ports
            &&& next == WorkerPhase::Stopping <==> phase == WorkerPhase::Removing || phase
                == WorkerPhase::Probing && !ports
            &&& next != WorkerPhase::Preparing
        }),
{
}

/// The rule of a task is for the task's own packets: from the port of its socket to the address
/// and the port of its target, by the transport of its protocol, into the queue of its worker.
pub proof fn rules_are_for_their_task(run: WorkerRun, port: u16, hook: FirewallHook)
    ensures
        ({
            let rule = run.rule(port, hook);
            &&& rule.worker_id == run.task.worker_id
            &&& rule.qnum == run.assignment.qnum
            &&& rule.source_port == port
            &&& rule.target_ip == run.task.target_ip
            &&& rule.target_port == run.task.target_port
            &&& rule.protocol == L4Protocol::Udp <==> run.task.protocol
                == ProbeProtocol::QuicHttp3Future
            &&& rule.hook == hook
        }),
{
}

/// The filter of a task reads the queue of the task's worker and is started with all the
/// arguments of the task's strategy.
pub proof fn filters_are_for_their_task(
    runtime: WorkerRuntime,
    run: WorkerRun,
    port: u16,
    now_ms: u64,
    next: WorkerRun,
    action: WorkerAction,
)
    requires
        follows(runtime, run, WorkerEvent::Prepared(Ok(port)), now_ms, next, action),
    ensures
        next.source_port == port,
        action is StartFilter,
        action matches WorkerAction::StartFilter(c) ==> {
            &&& c.qnum == run.assignment.qnum
            &&& c.binary == runtime.nfqws_binary
            &&& texts(c.strategy_args@) == texts(run.task.strategy_args@)
            &&& texts(c.base_args@) == texts(runtime.nfqws_base_args@)
            &&& c.worker_id == run.task.worker_id && c.strategy_id == run.task.strategy_id
        },
{
}

/// Where a task fails before its strategy was put to the test, the strategy is not to blame:
/// the failure is one of the infrastructure, of the kind of the step that failed.
pub proof fn setup_failures_blame_nobody(
    runtime: WorkerRuntime,
    run: WorkerRun,
    event: WorkerEvent,
    now_ms: u64,
    next: WorkerRun,
    action: WorkerAction,
)
    requires
        follows(runtime, run, event, now_ms, next, action),
        event is Prepared || event is Started || event is Installed,
        !went_well(event),
    ensures
        event is Prepared || event is Started ==> action is Finish,
        event is Installed ==> action == WorkerAction::StopFilter && next.result is Some,
        ({
            let res = if event is Installed {
                next.result->0
            } else {
                action->Finish_0
            };
            &&& res.outcome == ProbeOutcome::InternalError
            &&& res.failure_kind == Some(FailureKind::InfrastructureFailure)
            &&& res.total_ms == now_ms
            &&& res.qnum == Some(run.assignment.qnum)
            &&& event is Prepared ==> res.error_class == Some(ProbeErrorClass::BindFailed)
                && res.assigned_source_port is None
            &&& event is Started ==> res.error_class == Some(ProbeErrorClass::NfqwsStartFailed)
            &&& event is Installed ==> res.error_class == Some(
                ProbeErrorClass::FirewallInstallFailed,
            )
        }),
{
}

/// A probe that did not end in time is held against the strategy as a timeout; one that ended
/// is told as it ended, with the time that the set-up took.
pub proof fn probes_are_told_as_they_ended(
    runtime: WorkerRuntime,
    run: WorkerRun,
    end: Option<ProbeResult>,
    now_ms: u64,
    next: WorkerRun,
    action: WorkerAction,
)
    requires
        follows(runtime, run, WorkerEvent::Probed(end), now_ms, next, action),
    ensures
        next.result is Some,
        next.result->0.setup_ms == Some(run.setup_ms),
        end is None ==> {
            let res = next.result->0;
            &&& res.outcome == ProbeOutcome::Timeout
            &&& res.failure_kind == Some(FailureKind::StrategyFailure)
            &&& res.error_class == Some(ProbeErrorClass::ReadTimeout)
            &&& res.total_ms == now_ms
        },
        end matches Some(seen) ==> next.result->0 == (ProbeResult {
            setup_ms: Some(run.setup_ms),
            ..seen
        }),
{
}

/// What goes wrong in cleaning up changes no outcome: it is told only where nothing went wrong
/// before.
pub proof fn cleaning_up_changes_no_outcome(
    runtime: WorkerRuntime,
    run: WorkerRun,
    event: WorkerEvent,
    now_ms: u64,
    next: WorkerRun,
    action: WorkerAction,
)
    requires
        follows(runtime, run, event, now_ms, next, action),
        run.result is Some,
        event is Removed || event is Stopped,
    ensures
        event is Removed ==> {
            let before = run.result->0;
            let res = next.result->0;
            &&& action == WorkerAction::StopFilter && next.result is Some
            &&& res.outcome == before.outcome && res.failure_kind == before.failure_kind
            &&& res.total_ms == before.total_ms
            &&& res.error_class == if before.error_class is None && !went_well(event) {
                Some(ProbeErrorClass::FirewallRemoveFailed)
            } else {
                before.error_class
            }
        },
        event is Stopped ==> {
            let before = run.result->0;
            let res = action->Finish_0;
            &&& action is Finish
            &&& res.outcome == before.outcome && res.failure_kind == before.failure_kind
            &&& run.phase != WorkerPhase::Abandoning ==> res.qnum == Some(run.assignment.qnum)
                && res.assigned_source_port == Some(run.source_port)
            &&& run.phase != WorkerPhase::Abandoning ==> res.error_class
                == if before.error_class is None && !went_well(event) {
                Some(ProbeErrorClass::NfqwsStopFailed)
            } else {
                before.error_class
            }
        },
{
}

/// The port of a task is the one that the result tells, unless it tells none or none that can
/// be one.
pub proof fn told_ports_count(r: ProbeResult, otherwise: u16)
    ensures
        r.assigned_source_port is None || r.assigned_source_port == Some(0u16) ==> port_of(
            r,
            otherwise,
        ) == otherwise,
        r.assigned_source_port matches Some(p) ==> p != 0 ==> port_of(r, otherwise) == p,
{
}

/// A task begins with a socket, and the socket has the worker's mark if and only if packets are
/// told apart by marks.
pub proof fn tasks_begin_with_a_socket(
    mode: IsolationMode,
    task: ProbeTask,
    assignment: WorkerAssignment,
    run: WorkerRun,
    action: WorkerAction,
)
    requires
        begins_task(mode, task, assignment, run, action),
    ensures
        run.task == task && run.assignment == assignment,
        run.phase == WorkerPhase::Preparing,
        mode == IsolationMode::Fwmark ==> action == WorkerAction::Prepare(assignment.fwmark),
        mode == IsolationMode::SourcePort ==> action == WorkerAction::Prepare(None),
{
}

/// The task of a worker is the strategy's task, with all its arguments and for its own target,
/// in the hands of that worker.
pub proof fn workers_take_the_task_as_it_is(task: StrategyTask, assignment: WorkerAssignment)
    ensures
        ({
            let t = task_for(task, assignment);
            &&& t.worker_id == assignment.worker_id
            &&& t.strategy_id == task.strategy_id && t.strategy_args == task.strategy_args
            &&& t.target_host == task.target_host && t.target_ip == task.target_ip
            &&& t.target_port == task.target_port && t.protocol == task.protocol
            &&& t.path == task.path && t.request == task.request && t.timeouts == task.timeouts
        }),
{
}

} // verus!
