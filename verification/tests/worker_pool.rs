use zapret_checker::config::{IsolationConfig, WorkersConfig};
use zapret_checker::graph::{BaseWeights, NodeWeights, StrategyComponent, StrategyNode};
use zapret_checker::isolation::generate_assignments;
use zapret_checker::nfqws::{build_nfqws_args, NfqwsInstanceConfig};
use zapret_checker::types::{
    HostIp, HttpMethod, HttpRequestSpec, ProbeOutcome, ProbeProtocol, ProbeResult, ProbeTimeouts, ReadMode,
    StrategyProbeTarget, TransferLevel,
};
use zapret_checker::worker_pool::{
    strategy_verdict, task_result, tasks_for_targets, IndexedPoolResult, IndexedPoolTask, TaskSupply, WorkerPool,
    WorkerPoolConfig, WorkerStep,
};

fn test_isolation(mode: &str) -> IsolationConfig {
    IsolationConfig {
        mode: mode.to_string(),
        queue_base: 200,
        mark_base: "0x20000000".to_string(),
        desync_mark: "0x40000000".to_string(),
        use_nft_vmap: mode == "fwmark",
    }
}

fn pool_config(workers: usize, stop_at_success: usize) -> WorkerPoolConfig {
    WorkerPoolConfig {
        workers: WorkersConfig {
            count: workers,
            spawn_grace_ms: 1,
            task_channel_size: 64,
            result_channel_size: 64,
            shutdown_timeout_ms: 1000,
        },
        isolation: test_isolation("source_port"),
        stop_at_success,
    }
}

fn localhost() -> HostIp {
    HostIp { is_ipv4: true, text: "127.0.0.1".to_string() }
}

fn probe_result(strategy_id: &str, worker_id: usize, qnum: u16, outcome: ProbeOutcome) -> ProbeResult {
    ProbeResult {
        strategy_id: strategy_id.to_string(),
        worker_id,
        qnum: Some(qnum),
        assigned_source_port: Some(40_000 + worker_id as u16),
        target_host: "example.com".to_string(),
        target_ip: localhost(),
        target_port: 443,
        protocol: ProbeProtocol::Tls12Http11,
        path: "/".to_string(),
        method: HttpMethod::Get,
        read_mode: ReadMode::Body,
        setup_ms: Some(1),
        connect_ms: Some(1),
        tls_ms: Some(1),
        first_byte_ms: Some(1),
        total_ms: 1,
        outcome,
        http_status: Some(200),
        bytes_read: 1,
        header_bytes: 0,
        body_bytes: 1,
        total_bytes: 1,
        transfer_level: TransferLevel::Body,
        dpi_suspicious: false,
        failure_kind: None,
        error_class: None,
        error_message: None,
    }
}

fn test_node(id: &str) -> StrategyNode {
    let one: u64 = 1.0f64.to_bits();
    StrategyNode {
        id: id.to_string(),
        family: "fake".to_string(),
        action_id: "fake_tls".to_string(),
        args: vec!["--lua-desync=fake".to_string()],
        components: vec![StrategyComponent {
            family: "fake".to_string(),
            action_id: "fake_tls".to_string(),
            args: vec!["--lua-desync=fake".to_string()],
        }],
        is_combined: false,
        weights: NodeWeights::Own(BaseWeights { cost: one, risk: one, prior_success: one, prior_failure: one }),
    }
}

fn indexed_result(index: usize, outcome: ProbeOutcome) -> IndexedPoolResult {
    let result = probe_result(&index.to_string(), 0, 200, outcome);
    IndexedPoolResult {
        strategy_index: index,
        node: test_node(&index.to_string()),
        result: result.clone(),
        attempts: vec![result],
        worker_id: 0,
        qnum: 200,
    }
}

fn strategy_probe_target() -> StrategyProbeTarget {
    StrategyProbeTarget {
        original: "http://127.0.0.1:9/".to_string(),
        host: "127.0.0.1".to_string(),
        ip: localhost(),
        port: 9,
        protocol: ProbeProtocol::HttpPlain,
        request: HttpRequestSpec {
            method: HttpMethod::Get,
            path_and_query: "/".to_string(),
            user_agent: "test".to_string(),
            read_mode: ReadMode::Body,
            min_body_bytes: 1,
            dpi_detection_bytes: 16384,
            verify_transfer_bytes: 32768,
            max_read_bytes: 1024,
        },
    }
}

fn new_pool(workers: usize, stop_at_success: usize) -> WorkerPool {
    WorkerPool::new(
        pool_config(workers, stop_at_success),
        generate_assignments(workers, &test_isolation("source_port")),
    )
}

#[test]
fn assignment_generation_uses_queue_base_plus_worker_id() {
    let assignments = generate_assignments(3, &test_isolation("source_port"));
    assert_eq!(assignments.len(), 3);
    assert_eq!(assignments[0].qnum, 200);
    assert_eq!(assignments[1].qnum, 201);
    assert_eq!(assignments[2].qnum, 202);
    assert_eq!(assignments[0].worker_id, 0);
    assert_eq!(assignments[2].worker_id, 2);
}

#[test]
fn fwmark_assignment_sets_mark_and_queue() {
    let assignments = generate_assignments(3, &test_isolation("fwmark"));
    assert_eq!(assignments[0].fwmark, Some(0x20000001));
    assert_eq!(assignments[2].fwmark, Some(0x20000003));
    assert!(assignments.iter().all(|item| item.source_port.is_none()));
}

#[test]
fn deterministic_task_indexing_preserved_in_results() {
    let mut pool = new_pool(2, 0);
    for index in 0..3 {
        assert_eq!(pool.next_step(TaskSupply::Task, false), WorkerStep::Run);
        pool = pool.record(indexed_result(index, ProbeOutcome::Success));
    }
    let results = pool.finish();
    assert_eq!(results.len(), 3);
    assert_eq!(results.iter().map(|item| item.strategy_index).collect::<Vec<_>>(), vec![0, 1, 2]);
}

#[test]
fn out_of_order_results_are_sorted_by_strategy_index() {
    let mut pool = new_pool(3, 0);
    for index in [2, 0, 1] {
        pool = pool.record(indexed_result(index, ProbeOutcome::Success));
    }
    let results = pool.finish();
    assert_eq!(results.iter().map(|item| item.strategy_index).collect::<Vec<_>>(), vec![0, 1, 2]);
}

#[test]
fn stop_at_success_stops_queueing_new_tasks() {
    let mut pool = new_pool(2, 2);
    let mut started = 0usize;
    for index in 0..8 {
        if pool.enqueue_context(false).should_stop() {
            break;
        }
        if pool.next_step(TaskSupply::Task, false) == WorkerStep::Run {
            started += 1;
            pool = pool.record(indexed_result(index, ProbeOutcome::Success));
        }
    }
    assert!(started < 8, "started={started}");
    let results = pool.finish();
    assert!(results.iter().filter(|item| item.result.outcome == ProbeOutcome::Success).count() >= 2);
}

#[test]
fn stop_at_success_does_not_run_prefilled_queue_tail() {
    let mut pool = new_pool(2, 2);
    let mut started = 0usize;
    let mut index = 0usize;
    while index < 20 {
        let mut running = Vec::new();
        for _worker in 0..pool.worker_count() {
            if index < 20 && pool.next_step(TaskSupply::Task, false) == WorkerStep::Run {
                running.push(index);
                index += 1;
                started += 1;
            }
        }
        if running.is_empty() {
            break;
        }
        for task in running {
            pool = pool.record(indexed_result(task, ProbeOutcome::Success));
        }
    }
    assert!(started <= 4, "started={started}");
    assert!(pool.finish().len() <= 4);
}

#[test]
fn active_workers_never_exceed_workers_count() {
    let mut pool = new_pool(2, 0).with_tasks((0..6).map(pool_task).collect());
    assert_eq!(pool.worker_count(), 2);
    assert_eq!(pool.assignments().len(), 2);
    let assignments = pool.assignments().to_vec();
    let mut running: Vec<Option<IndexedPoolTask>> = assignments.iter().map(|_| None).collect();
    let mut max_active = 0;
    for turn in 0..20 {
        let worker = turn % running.len();
        match running[worker].take() {
            Some(task) => {
                let outcome = probe_result("s", worker, assignments[worker].qnum, ProbeOutcome::Success);
                pool = pool.record(task_result(task, vec![outcome], assignments[worker]));
            }
            None => {
                let (left, task) = pool.next_task(false);
                pool = left;
                let supply = if task.is_some() { TaskSupply::Task } else { TaskSupply::Closed };
                let wanted = if task.is_some() { WorkerStep::Run } else { WorkerStep::Quit };
                assert_eq!(pool.next_step(supply, false), wanted);
                running[worker] = task;
            }
        }
        max_active = max_active.max(running.iter().filter(|task| task.is_some()).count());
    }
    assert_eq!(max_active, 2);
    assert_eq!(pool.finish().len(), 6);
}

#[test]
fn a_worker_waits_for_tasks_and_ends_with_the_supply() {
    let pool = new_pool(1, 0);
    assert_eq!(pool.next_step(TaskSupply::Empty, false), WorkerStep::Wait);
    assert_eq!(pool.next_step(TaskSupply::Closed, false), WorkerStep::Quit);
    assert_eq!(pool.next_step(TaskSupply::Task, true), WorkerStep::Quit);
}

#[test]
fn failures_do_not_count_towards_the_limit() {
    let mut pool = new_pool(1, 1);
    pool = pool.record(indexed_result(0, ProbeOutcome::Timeout));
    assert!(!pool.enqueue_context(false).should_stop());
    pool = pool.record(indexed_result(1, ProbeOutcome::Success));
    assert!(pool.enqueue_context(false).should_stop());
}

#[test]
fn strategy_runs_all_targets_even_after_failure() {
    let targets = vec![strategy_probe_target(), strategy_probe_target(), strategy_probe_target()];
    let timeouts = ProbeTimeouts { connect_ms: 50, tls_ms: 50, first_byte_ms: 50, total_ms: 100 };
    let tasks = tasks_for_targets(&test_node("repeat-check"), &targets, timeouts);
    let attempts: Vec<ProbeResult> =
        tasks.iter().map(|task| probe_result(&task.strategy_id, 0, 200, ProbeOutcome::Refused)).collect();

    assert_eq!(attempts.len(), 3);
    assert_ne!(strategy_verdict(&attempts).outcome, ProbeOutcome::Success);
    assert_eq!(tasks[2].strategy_args, ["--lua-desync=fake"]);
    assert_eq!(tasks[2].target_port, 9);
}

#[test]
fn a_strategy_succeeds_where_all_attempts_do() {
    let good = probe_result("s", 0, 200, ProbeOutcome::Success);
    let bad = probe_result("s", 0, 200, ProbeOutcome::Timeout);
    assert_eq!(strategy_verdict(&vec![good.clone(), good.clone()]).outcome, ProbeOutcome::Success);
    assert_eq!(strategy_verdict(&vec![good.clone(), bad, good]).outcome, ProbeOutcome::Timeout);
}

#[test]
fn nfqws_args_order_is_base_qnum_strategy() {
    let args = build_nfqws_args(&NfqwsInstanceConfig {
        qnum: 200,
        binary: "/bin/nfqws2".to_string(),
        library_paths: Vec::new(),
        base_args: vec!["--user=daemon".to_string(), "--fwmark=0x1".to_string()],
        strategy_args: vec!["--lua-desync=fake".to_string()],
        worker_id: 0,
        strategy_id: "s0".to_string(),
        start_grace_ms: 100,
        log_stdout: false,
        log_stderr: false,
    });
    assert_eq!(
        args,
        vec![
            "--user=daemon".to_string(),
            "--fwmark=0x1".to_string(),
            "--qnum=200".to_string(),
            "--lua-desync=fake".to_string(),
        ]
    );
}

fn pool_task(index: usize) -> IndexedPoolTask {
    IndexedPoolTask {
        strategy_index: index,
        node: indexed_result(index, ProbeOutcome::Success).node,
        targets: Vec::new(),
        timeouts: ProbeTimeouts { connect_ms: 1, tls_ms: 1, first_byte_ms: 1, total_ms: 1 },
    }
}

#[test]
fn tasks_are_handed_out_once_and_in_their_order() {
    let mut pool = new_pool(2, 0).with_tasks((0..3).map(pool_task).collect());
    let mut given = Vec::new();
    for cancelled in [false, true, false, false, false] {
        let (left, task) = pool.next_task(cancelled);
        pool = left;
        given.push(task.map(|task| task.strategy_index));
    }
    assert_eq!(given, [Some(0), None, Some(1), Some(2), None]);
}

#[test]
fn no_task_is_handed_out_after_enough_successes() {
    let pool = new_pool(2, 1).with_tasks((0..3).map(pool_task).collect());
    let (pool, task) = pool.next_task(false);
    let assignment = pool.assignments()[1];
    let attempts = vec![probe_result("a", 1, 201, ProbeOutcome::Success)];
    let result = task_result(task.unwrap(), attempts, assignment);
    assert_eq!((result.strategy_index, result.worker_id, result.qnum), (0, 1, 201));
    let (pool, task) = pool.record(result).next_task(false);
    assert!(task.is_none());
    assert_eq!(pool.finish().len(), 1);
}
