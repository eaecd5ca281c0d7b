use vstd::prelude::*;
use crate::types::{FailureKind, ProbeOutcome, ProbeResult};

verus! {

/// What the score of a strategy is made of.
#[derive(Debug, Clone, Copy, PartialEq, Eq, Structural)]
pub enum ScoreTerm {
    /// No score at all, and no penalties.
    Void,
    /// The reward for success, less the penalties.
    Success,
    /// The penalty for a timeout, and the other penalties.
    Timeout,
    /// The penalties alone.
    Neutral,
    /// The fixed penalty for a failure, and the other penalties.
    Failure,
}

/// What the score of a result is made of.
pub open spec fn term_of(kind: Option<FailureKind>, outcome: ProbeOutcome) -> ScoreTerm {
    if kind == Some(FailureKind::InfrastructureFailure) {
        ScoreTerm::Void
    } else {
        match outcome {
            ProbeOutcome::Success => ScoreTerm::Success,
            ProbeOutcome::Timeout => ScoreTerm::Timeout,
            ProbeOutcome::Cancelled => ScoreTerm::Neutral,
            _ => ScoreTerm::Failure,
        }
    }
}

/// What the score of a result is made of.
pub fn score_term(result: &ProbeResult) -> (r: ScoreTerm)
    ensures
        r == term_of(result.failure_kind, result.outcome),
{
    if let Some(FailureKind::InfrastructureFailure) = result.failure_kind {
        return ScoreTerm::Void;
    }
    match result.outcome {
        ProbeOutcome::Success => ScoreTerm::Success,
        ProbeOutcome::Timeout => ScoreTerm::Timeout,
        ProbeOutcome::Cancelled => ScoreTerm::Neutral,
        _ => ScoreTerm::Failure,
    }
}

/// A result is void if and only if the infrastructure failed, whatever came of the probe.
/// Otherwise it is a success if and only if the probe succeeded, a timeout if and only if it
/// timed out, neutral if and only if it was cancelled, and a failure in every other case.
pub proof fn only_success_is_scored(kind: Option<FailureKind>, outcome: ProbeOutcome)
    ensures
        term_of(kind, outcome) == ScoreTerm::Void <==> kind == Some(
            FailureKind::InfrastructureFailure,
        ),
        kind != Some(FailureKind::InfrastructureFailure) ==> {
            &&& term_of(kind, outcome) == ScoreTerm::Success <==> outcome == ProbeOutcome::Success
            &&& term_of(kind, outcome) == ScoreTerm::Timeout <==> outcome == ProbeOutcome::Timeout
            &&& term_of(kind, outcome) == ScoreTerm::Neutral <==> outcome
                == ProbeOutcome::Cancelled
            &&& term_of(kind, outcome) == ScoreTerm::Failure <==> outcome != ProbeOutcome::Success
                && outcome != ProbeOutcome::Timeout && outcome != ProbeOutcome::Cancelled
        },
{
}

} // verus!
