use zapret_checker::firewall::{FirewallError, FirewallHook};
use zapret_checker::isolation::IsolationMode;
use zapret_checker::nfqws::NfqwsError;
use zapret_checker::probe::{
    after_connect, after_handshake, after_read, after_send, begin_probe, finish_native_probe, AnswerPart,
    CurlEnd, CurlProbeFallback, ProbeEnd, ProbeError, ProbeStep, ReadEnd, StepEnd, StepTimes,
};
use zapret_checker::settings::should_skip_strategies_after_baseline;
use zapret_checker::types::{
    FailureKind, HostIp, HttpMethod, HttpRequestSpec, ProbeContext, ProbeErrorClass, ProbeOutcome, ProbeProtocol,
    ProbeResult, ProbeTask, ProbeTimeouts, ReadMode, StrategyTask,
};
use zapret_checker::worker::{WorkerAction, WorkerAssignment, WorkerEvent, WorkerPhase, WorkerRuntime};

fn runtime(isolation_mode: IsolationMode) -> WorkerRuntime {
    WorkerRuntime {
        nfqws_binary: "/bin/nfqws2".to_string(),
        nfqws_library_paths: Vec::new(),
        nfqws_base_args: vec!["--user=daemon".to_string()],
        nfqws_start_grace_ms: 5,
        nfqws_log_stdout: false,
        nfqws_log_stderr: true,
        firewall_hook: FirewallHook::Output,
        isolation_mode,
    }
}

fn request() -> HttpRequestSpec {
    HttpRequestSpec {
        method: HttpMethod::Get,
        path_and_query: "/".to_string(),
        user_agent: "test".to_string(),
        read_mode: ReadMode::Body,
        min_body_bytes: 1,
        dpi_detection_bytes: 16384,
        verify_transfer_bytes: 32768,
        max_read_bytes: 1024,
    }
}

fn ip() -> HostIp {
    HostIp { is_ipv4: true, text: "192.0.2.1".to_string() }
}

fn timeouts() -> ProbeTimeouts {
    ProbeTimeouts { connect_ms: 50, tls_ms: 50, first_byte_ms: 50, total_ms: 100 }
}

fn strategy_task() -> StrategyTask {
    StrategyTask {
        strategy_id: "s0".to_string(),
        strategy_args: vec!["--lua-desync=fake".to_string()],
        target_host: "example.com".to_string(),
        target_ip: ip(),
        target_port: 443,
        protocol: ProbeProtocol::Tls12Http11,
        path: "/".to_string(),
        request: request(),
        timeouts: timeouts(),
    }
}

fn probe_task(protocol: ProbeProtocol) -> ProbeTask {
    ProbeTask {
        strategy_id: "s0".to_string(),
        worker_id: 1,
        strategy_args: Vec::new(),
        target_host: "example.com".to_string(),
        target_ip: ip(),
        target_port: 443,
        protocol,
        path: "/".to_string(),
        request: request(),
        timeouts: timeouts(),
    }
}

fn assignment() -> WorkerAssignment {
    WorkerAssignment { worker_id: 1, qnum: 201, fwmark: Some(0x20000002), source_port: None }
}

fn context(baseline: bool) -> ProbeContext {
    ProbeContext { qnum: 201, baseline }
}

fn times() -> StepTimes {
    StepTimes { connect_ms: Some(3), tls_ms: Some(4), total_ms: 9 }
}

fn read_step(part: Option<AnswerPart>, end: ReadEnd) -> ProbeStep {
    after_read(&probe_task(ProbeProtocol::Tls12Http11), context(false), 40000, 1024, part, end, 8, times())
}

fn bytes(text: &[u8]) -> ReadEnd {
    ReadEnd::Bytes(text.to_vec())
}

fn finished(step: ProbeStep) -> ProbeResult {
    match step {
        ProbeStep::Finish(result) => result,
        other => panic!("{other:?}"),
    }
}

fn good_result() -> ProbeResult {
    finished(read_step(None, bytes(b"HTTP/1.1 200 OK\r\n\r\nhello")))
}

#[test]
fn a_task_goes_through_its_phases_and_cleans_up() {
    let runtime = runtime(IsolationMode::SourcePort);
    let (run, action) = runtime.run_strategy_task(strategy_task(), assignment());
    assert!(matches!(action, WorkerAction::Prepare(None)));
    let (run, action) = runtime.advance(run, WorkerEvent::Prepared(Ok(40000)), 1);
    match action {
        WorkerAction::StartFilter(config) => {
            assert_eq!(config.qnum, 201);
            assert_eq!(config.strategy_args, ["--lua-desync=fake"]);
            assert_eq!(config.base_args, ["--user=daemon"]);
        }
        other => panic!("{other:?}"),
    }
    let (run, action) = runtime.advance(run, WorkerEvent::Started(Ok(())), 2);
    match action {
        WorkerAction::InstallRule(rule) => {
            assert_eq!((rule.qnum, rule.source_port, rule.target_port), (201, 40000, 443));
        }
        other => panic!("{other:?}"),
    }
    let (run, action) = runtime.advance(run, WorkerEvent::Installed(Ok(())), 7);
    assert!(matches!(action, WorkerAction::Probe));
    let (run, action) = runtime.advance(run, WorkerEvent::Probed(Some(good_result())), 20);
    assert!(matches!(action, WorkerAction::RemoveRule(_)));
    let (run, action) = runtime.advance(run, WorkerEvent::Removed(Ok(())), 21);
    assert!(matches!(action, WorkerAction::StopFilter));
    let (run, action) = runtime.advance(run, WorkerEvent::Stopped(Ok(())), 22);
    assert_eq!(run.phase, WorkerPhase::Done);
    match action {
        WorkerAction::Finish(result) => {
            assert_eq!(result.outcome, ProbeOutcome::Success);
            assert_eq!(result.setup_ms, Some(7));
            assert_eq!(result.qnum, Some(201));
            assert_eq!(result.assigned_source_port, Some(40000));
        }
        other => panic!("{other:?}"),
    }
}

#[test]
fn a_task_by_marks_needs_no_rule() {
    let runtime = runtime(IsolationMode::Fwmark);
    let (run, action) = runtime.run_strategy_task(strategy_task(), assignment());
    assert!(matches!(action, WorkerAction::Prepare(Some(0x20000002))));
    let (run, _) = runtime.advance(run, WorkerEvent::Prepared(Ok(40000)), 1);
    let (run, action) = runtime.advance(run, WorkerEvent::Started(Ok(())), 2);
    assert!(matches!(action, WorkerAction::Probe));
    let (run, action) = runtime.advance(run, WorkerEvent::Probed(None), 100);
    assert!(matches!(action, WorkerAction::StopFilter));
    let stop = NfqwsError::StopFailed("kill timeout".to_string());
    let (_, action) = runtime.advance(run, WorkerEvent::Stopped(Err(stop)), 101);
    match action {
        WorkerAction::Finish(result) => {
            assert_eq!(result.outcome, ProbeOutcome::Timeout);
            assert_eq!(result.failure_kind, Some(FailureKind::StrategyFailure));
            assert_eq!(result.error_class, Some(ProbeErrorClass::ReadTimeout));
            assert_eq!(result.error_message.as_deref(), Some("total timeout"));
        }
        other => panic!("{other:?}"),
    }
}

#[test]
fn a_failed_setup_is_no_failure_of_the_strategy() {
    let runtime = runtime(IsolationMode::SourcePort);
    let (run, _) = runtime.run_strategy_task(strategy_task(), assignment());
    let (_, action) = runtime.advance(run, WorkerEvent::Prepared(Err(ProbeError::Bind("in use".to_string()))), 1);
    match action {
        WorkerAction::Finish(result) => {
            assert_eq!(result.failure_kind, Some(FailureKind::InfrastructureFailure));
            assert_eq!(result.error_class, Some(ProbeErrorClass::BindFailed));
        }
        other => panic!("{other:?}"),
    }

    let (run, _) = runtime.run_strategy_task(strategy_task(), assignment());
    let (run, _) = runtime.advance(run, WorkerEvent::Prepared(Ok(40000)), 1);
    let (run, _) = runtime.advance(run, WorkerEvent::Started(Ok(())), 2);
    let error = FirewallError::CommandFailed("nft".to_string());
    let words = error.message();
    let (run, action) = runtime.advance(run, WorkerEvent::Installed(Err(error)), 3);
    assert!(matches!(action, WorkerAction::StopFilter));
    let (_, action) = runtime.advance(run, WorkerEvent::Stopped(Ok(())), 4);
    match action {
        WorkerAction::Finish(result) => {
            assert_eq!(result.error_class, Some(ProbeErrorClass::FirewallInstallFailed));
            assert_eq!(result.error_message, Some(words));
        }
        other => panic!("{other:?}"),
    }
}

#[test]
fn a_cancelled_probe_does_not_connect() {
    let task = probe_task(ProbeProtocol::Tls12Http11);
    assert!(matches!(begin_probe(&task, context(true), 40000, false, 0), ProbeStep::Connect));
    match begin_probe(&task, context(true), 40000, true, 0) {
        ProbeStep::Finish(result) => assert_eq!(result.outcome, ProbeOutcome::Cancelled),
        other => panic!("{other:?}"),
    }
}

#[test]
fn a_probe_goes_on_by_its_protocol() {
    let plain = probe_task(ProbeProtocol::HttpPlain);
    assert!(matches!(after_connect(&plain, context(true), 1, StepEnd::Done, 1, 1), ProbeStep::Send(_)));
    let tls = probe_task(ProbeProtocol::Tls13Http11);
    assert!(matches!(after_connect(&tls, context(true), 1, StepEnd::Done, 1, 1), ProbeStep::Handshake(_)));
    match after_connect(&tls, context(false), 1, StepEnd::TimedOut, 1, 1) {
        ProbeStep::Finish(result) => assert_eq!(result.outcome, ProbeOutcome::Timeout),
        other => panic!("{other:?}"),
    }
    assert!(matches!(after_handshake(&tls, context(true), 1, StepEnd::Done, times()), ProbeStep::Send(_)));
    assert!(matches!(after_send(&tls, context(true), 1, 77, None, times()), ProbeStep::Read(77)));
    assert!(matches!(after_send(&tls, context(true), 1, 0, None, times()), ProbeStep::Read(1)));
}

#[test]
fn an_answer_is_read_and_judged() {
    let result = good_result();
    assert_eq!(result.outcome, ProbeOutcome::Success);
    assert_eq!(result.http_status, Some(200));
    assert_eq!(result.body_bytes, 5);
    assert_eq!(result.header_bytes, 19);
    assert_eq!(result.first_byte_ms, Some(8));
    assert_eq!(finished(read_step(None, bytes(b""))).outcome, ProbeOutcome::EmptyResponse);
    assert_eq!(finished(read_step(None, ReadEnd::TimedOut)).outcome, ProbeOutcome::Timeout);
    assert_eq!(finished(read_step(None, ReadEnd::Failed("reset".into()))).outcome, ProbeOutcome::TcpReset);
    let blocked = finished(read_step(None, bytes(b"HTTP/1.1 403 Forbidden\r\n")));
    assert_eq!(blocked.outcome, ProbeOutcome::HttpBlockPage);
}

fn headers_only() -> AnswerPart {
    match read_step(None, bytes(b"HTTP/1.1 200 OK\r\n\r\n")) {
        ProbeStep::ReadOn(part, most) => {
            assert_eq!(part.status, Some(200));
            assert_eq!(most, 1024 - 19);
            part
        }
        other => panic!("{other:?}"),
    }
}

#[test]
fn an_answer_that_falls_short_is_read_on() {
    let whole = finished(read_step(Some(headers_only()), bytes(b"\xff\xfe")));
    assert_eq!(whole.outcome, ProbeOutcome::Success);
    assert_eq!(whole.http_status, Some(200));
    assert_eq!((whole.header_bytes, whole.body_bytes, whole.total_bytes), (19, 2, 21));
    for end in [bytes(b""), ReadEnd::TimedOut, ReadEnd::Failed("reset".into())] {
        let short = finished(read_step(Some(headers_only()), end));
        assert_eq!(short.outcome, ProbeOutcome::BodyTooSmall);
        assert_eq!(short.body_bytes, 0);
    }
    assert_eq!(finished(read_step(Some(headers_only()), ReadEnd::Cancelled)).outcome, ProbeOutcome::Cancelled);
    let task = probe_task(ProbeProtocol::Tls12Http11);
    let full = after_read(&task, context(false), 1, 19, None, bytes(b"HTTP/1.1 200 OK\r\n\r\n"), 8, times());
    assert_eq!(finished(full).outcome, ProbeOutcome::BodyTooSmall);
}

#[test]
fn a_probe_without_a_strategy_tells_no_queue() {
    let task = probe_task(ProbeProtocol::Tls12Http11);
    let result = finish_native_probe(&task, context(true), ProbeEnd::Finished(good_result()), 5);
    assert_eq!(result.qnum, None);
    let result = finish_native_probe(&task, context(false), ProbeEnd::TimedOut, 5);
    assert_eq!(result.qnum, Some(201));
    assert_eq!(result.error_message.as_deref(), Some("total timeout"));
}

#[test]
fn curl_gets_its_arguments_and_tells_the_status() {
    let task = probe_task(ProbeProtocol::Tls12Http11);
    let args = CurlProbeFallback.render_args(&task, "0.05", "0.1");
    assert_eq!(args.last().unwrap(), "https://example.com:443/");
    assert!(args.contains(&"example.com:443:192.0.2.1".to_string()));
    assert!(args.contains(&"--tlsv1.2".to_string()));
    assert_eq!(CurlProbeFallback.read_status("body\n403"), Some(403));
    assert_eq!(CurlProbeFallback.read_status("body\n000"), None);
    let end = CurlEnd::Exited { success: true, stdout: b"\xff\n200".to_vec(), stderr: Vec::new() };
    let result = CurlProbeFallback.finish(&task, context(true), end, 6);
    assert_eq!(result.http_status, Some(200));
    assert_eq!(result.outcome, ProbeOutcome::Success);
    let end = CurlEnd::Exited { success: false, stdout: Vec::new(), stderr: b"bad \xff".to_vec() };
    let result = CurlProbeFallback.finish(&task, context(false), end, 6);
    assert_eq!(result.error_message.as_deref(), Some("bad \u{fffd}"));
    assert_eq!(result.error_class, Some(ProbeErrorClass::CurlFailed));
}

#[test]
fn strategies_are_tried_only_where_the_target_is_reached() {
    let baseline = |kind, class| {
        let mut result = good_result();
        result.failure_kind = kind;
        result.error_class = class;
        should_skip_strategies_after_baseline(&result)
    };
    let target = Some(FailureKind::TargetFailure);
    assert!(baseline(target, Some(ProbeErrorClass::ConnectTimeout)));
    assert!(baseline(target, Some(ProbeErrorClass::ConnectFailed)));
    assert!(baseline(Some(FailureKind::InfrastructureFailure), None));
    assert!(baseline(Some(FailureKind::Cancelled), Some(ProbeErrorClass::Cancelled)));
    assert!(!baseline(target, Some(ProbeErrorClass::TlsTimeout)));
    assert!(!baseline(target, Some(ProbeErrorClass::FirstByteTimeout)));
    assert!(!baseline(None, None));
}
