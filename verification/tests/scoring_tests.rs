use zapret_checker::bayes::{posterior_step, BayesianState, PosteriorStep};
use zapret_checker::pruning::should_update_strategy_score;
use zapret_checker::scoring::{score_term, ScoreTerm};
use zapret_checker::types::{
    FailureKind, HostIp, HttpMethod, ProbeOutcome, ProbeProtocol, ProbeResult, ReadMode, TransferLevel,
};

fn result(kind: Option<FailureKind>, outcome: ProbeOutcome) -> ProbeResult {
    ProbeResult {
        strategy_id: "s1".into(),
        worker_id: 0,
        qnum: Some(200),
        assigned_source_port: Some(50000),
        target_host: "example.org".into(),
        target_ip: HostIp { is_ipv4: true, text: "127.0.0.1".into() },
        target_port: 443,
        protocol: ProbeProtocol::Tls12Http11,
        path: "/".into(),
        method: HttpMethod::Get,
        read_mode: ReadMode::Body,
        setup_ms: None,
        connect_ms: None,
        tls_ms: None,
        first_byte_ms: None,
        total_ms: 1,
        outcome,
        http_status: None,
        bytes_read: 0,
        header_bytes: 0,
        body_bytes: 0,
        total_bytes: 0,
        transfer_level: TransferLevel::Nothing,
        dpi_suspicious: false,
        failure_kind: kind,
        error_class: None,
        error_message: None,
    }
}

fn prior() -> (u64, u64) {
    (4.0f64.to_bits(), 2.0f64.to_bits())
}

#[test]
fn infrastructure_failure_does_not_penalize_adaptive_score() {
    let failed = result(Some(FailureKind::InfrastructureFailure), ProbeOutcome::InternalError);
    assert_eq!(score_term(&failed), ScoreTerm::Void);
}

#[test]
fn infrastructure_failure_does_not_update_bayesian_state() {
    let mut state = BayesianState::default();
    let failed = result(Some(FailureKind::InfrastructureFailure), ProbeOutcome::InternalError);
    state.update("s1", prior(), &failed);
    assert!(state.posteriors.get("s1").is_none());
    assert!(!should_update_strategy_score(&failed));
}

#[test]
fn strategy_failure_updates_bayesian_state() {
    let mut state = BayesianState::default();
    state.update("s1", prior(), &result(Some(FailureKind::StrategyFailure), ProbeOutcome::Timeout));
    let posterior = state.posteriors.get("s1").unwrap();
    assert_eq!(posterior.tests, 1);
    assert_eq!(posterior.beta, 2.0f64.to_bits());
    assert_eq!(posterior.steps, [PosteriorStep::Timeout]);
    let beta = posterior.steps.iter().fold(f64::from_bits(posterior.beta), |beta, step| match step {
        PosteriorStep::Timeout => beta + 0.7,
        PosteriorStep::Failure => beta + 1.0,
        _ => beta,
    });
    assert!(beta > 2.0);
}

#[test]
fn each_strategy_is_believed_by_itself() {
    let mut state = BayesianState::default();
    state.update("b", prior(), &result(None, ProbeOutcome::Success));
    state.update("a", prior(), &result(None, ProbeOutcome::Cancelled));
    state.update("b", (0, 0), &result(Some(FailureKind::StrategyFailure), ProbeOutcome::TlsAlert));
    assert_eq!(state.posteriors.keys(), ["a", "b"]);
    let a = state.posteriors.get("a").unwrap();
    assert_eq!((a.alpha, a.tests, a.steps.len()), (4.0f64.to_bits(), 0, 0));
    let b = state.posteriors.get("b").unwrap();
    assert_eq!((b.alpha, b.tests), (4.0f64.to_bits(), 2));
    assert_eq!(b.steps, [PosteriorStep::Success, PosteriorStep::Failure]);
    assert_eq!(state.get_or_prior("c", prior()).alpha, 4.0f64.to_bits());
}

#[test]
fn every_outcome_has_its_term_and_its_step() {
    let term = |outcome| score_term(&result(None, outcome));
    assert_eq!(term(ProbeOutcome::Success), ScoreTerm::Success);
    assert_eq!(term(ProbeOutcome::Timeout), ScoreTerm::Timeout);
    assert_eq!(term(ProbeOutcome::Cancelled), ScoreTerm::Neutral);
    assert_eq!(term(ProbeOutcome::HttpBlockPage), ScoreTerm::Failure);
    assert_eq!(posterior_step(&result(None, ProbeOutcome::Cancelled)), PosteriorStep::Note);
}
