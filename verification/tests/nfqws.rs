use zapret_checker::nfqws::{
    early_exit, next_stop_action, render_library_path, NfqwsError, NfqwsInstanceConfig, StopAction, StopEvent,
};

fn instance() -> NfqwsInstanceConfig {
    NfqwsInstanceConfig {
        qnum: 200,
        binary: "/bin/nfqws2".to_string(),
        library_paths: Vec::new(),
        base_args: vec!["--user=daemon".to_string()],
        strategy_args: vec!["--lua-desync=\"fake\"".to_string()],
        worker_id: 0,
        strategy_id: "s0".to_string(),
        start_grace_ms: 100,
        log_stdout: false,
        log_stderr: false,
    }
}

#[test]
fn library_paths_come_before_the_existing_ones() {
    let paths = vec!["/a".to_string(), "/b".to_string()];
    assert_eq!(render_library_path(&paths, Some("/lib")), "/a:/b:/lib");
    assert_eq!(render_library_path(&paths, Some("")), "/a:/b");
    assert_eq!(render_library_path(&paths, None), "/a:/b");
}

#[test]
fn an_early_exit_is_told_with_all_that_is_known() {
    let error = early_exit(&instance(), "exit status: 1", " out\n", "err ");
    assert_eq!(
        error.message(),
        "exited early: status=exit status: 1, args=[\"--user=daemon\", \"--qnum=200\", \"--lua-desync=\\\"fake\\\"\"], stdout=out, stderr=err"
    );
}

#[test]
fn a_filter_is_asked_then_killed_then_given_up() {
    assert!(matches!(next_stop_action(StopEvent::Looked(true), false), StopAction::Finish(Ok(()))));
    assert!(matches!(next_stop_action(StopEvent::Looked(false), false), StopAction::Terminate));
    assert!(matches!(next_stop_action(StopEvent::Asked, false), StopAction::Wait));
    assert!(matches!(next_stop_action(StopEvent::TimedOut, false), StopAction::Kill));
    assert!(matches!(next_stop_action(StopEvent::Killed, true), StopAction::Wait));
    assert!(matches!(next_stop_action(StopEvent::Ended, true), StopAction::Finish(Ok(()))));
    match next_stop_action(StopEvent::TimedOut, true) {
        StopAction::Finish(Err(error)) => assert_eq!(error.message(), "stop failed: kill timeout"),
        other => panic!("{other:?}"),
    }
    match next_stop_action(StopEvent::LookFailed("gone".to_string()), false) {
        StopAction::Finish(Err(error)) => assert_eq!(error.message(), "io error: gone"),
        other => panic!("{other:?}"),
    }
    assert_eq!(NfqwsError::StartFailed("no such file".to_string()).message(), "start failed: no such file");
}
