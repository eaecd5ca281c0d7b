use vstd::prelude::*;
use crate::bayes::{step_of, PosteriorStep};
use crate::scoring::{term_of, ScoreTerm};
use crate::types::{FailureKind, ProbeOutcome, ProbeResult};

verus! {

/// A failure of the given kind says something of the strategy: one of the infrastructure does
/// not.
pub open spec fn counts_for_strategy(kind: Option<FailureKind>) -> bool {
    kind != Some(FailureKind::InfrastructureFailure)
}

/// Whether a result says anything of the strategy: one of a failed infrastructure does not.
pub fn should_update_strategy_score(result: &ProbeResult) -> (r: bool)
    ensures
        r == counts_for_strategy(result.failure_kind),
{
    match result.failure_kind {
        Some(FailureKind::InfrastructureFailure) => false,
        _ => true,
    }
}

/// A result counts for its strategy if and only if it is no failure of the infrastructure, and
/// then, and only then, is it scored and held for or against the strategy.
pub proof fn what_counts_is_scored_and_believed(kind: Option<FailureKind>, outcome: ProbeOutcome)
    ensures
        counts_for_strategy(kind) <==> kind != Some(FailureKind::InfrastructureFailure),
        counts_for_strategy(kind) <==> step_of(kind, outcome) != PosteriorStep::Skip,
        counts_for_strategy(kind) <==> term_of(kind, outcome) != ScoreTerm::Void,
{
}

} // verus!
