use vstd::prelude::*;
use crate::map::{ascending, value_at, with_entry, with_entry_value, TextMap};
use crate::scoring::{term_of, ScoreTerm};
use crate::types::{FailureKind, ProbeOutcome, ProbeResult};

verus! {

/// How a result changes what is believed of a strategy.
#[derive(Debug, Clone, Copy, PartialEq, Eq, Structural)]
pub enum PosteriorStep {
    /// Nothing is changed, and nothing noted.
    Skip,
    /// The strategy is noted with its prior, and not counted as tested.
    Note,
    /// One success more, and one test.
    Success,
    /// Part of a failure more, and one test.
    Timeout,
    /// One failure more, and one test.
    Failure,
}

/// How a result changes what is believed of a strategy.
pub open spec fn step_of(kind: Option<FailureKind>, outcome: ProbeOutcome) -> PosteriorStep {
    if kind == Some(FailureKind::InfrastructureFailure) {
        PosteriorStep::Skip
    } else {
        match outcome {
            ProbeOutcome::Success => PosteriorStep::Success,
            ProbeOutcome::Cancelled => PosteriorStep::Note,
            ProbeOutcome::Timeout => PosteriorStep::Timeout,
            _ => PosteriorStep::Failure,
        }
    }
}

/// How a result changes what is believed of a strategy.
pub fn posterior_step(result: &ProbeResult) -> (r: PosteriorStep)
    ensures
        r == step_of(result.failure_kind, result.outcome),
{
    if let Some(FailureKind::InfrastructureFailure) = result.failure_kind {
        return PosteriorStep::Skip;
    }
    match result.outcome {
        ProbeOutcome::Success => PosteriorStep::Success,
        ProbeOutcome::Cancelled => PosteriorStep::Note,
        ProbeOutcome::Timeout => PosteriorStep::Timeout,
        _ => PosteriorStep::Failure,
    }
}

/// A failed infrastructure is held against no strategy: neither its score nor what is
/// believed of it changes.
pub proof fn infrastructure_is_forgiven(outcome: ProbeOutcome)
    ensures
        step_of(Some(FailureKind::InfrastructureFailure), outcome) == PosteriorStep::Skip,
        term_of(Some(FailureKind::InfrastructureFailure), outcome) == ScoreTerm::Void,
{
}

/// Where the infrastructure held, a strategy is credited with a success if and only if the
/// probe succeeded, charged with a timeout if and only if it timed out, and neither credited
/// nor charged if and only if it was cancelled. Whatever else came of the probe is a failure.
pub proof fn only_success_is_credited(kind: Option<FailureKind>, outcome: ProbeOutcome)
    requires
        kind != Some(FailureKind::InfrastructureFailure),
    ensures
        step_of(kind, outcome) == PosteriorStep::Success <==> outcome == ProbeOutcome::Success,
        step_of(kind, outcome) == PosteriorStep::Timeout <==> outcome == ProbeOutcome::Timeout,
        step_of(kind, outcome) == PosteriorStep::Note <==> outcome == ProbeOutcome::Cancelled,
        step_of(kind, outcome) == PosteriorStep::Failure <==> outcome != ProbeOutcome::Success
            && outcome != ProbeOutcome::Timeout && outcome != ProbeOutcome::Cancelled,
        step_of(kind, outcome) != PosteriorStep::Skip,
{
}

/// The score and the belief go by the same reading of a result: what one holds a success, a
/// timeout, a failure, no evidence or no result at all, the other does.
pub proof fn score_agrees_with_belief(kind: Option<FailureKind>, outcome: ProbeOutcome)
    ensures
        step_of(kind, outcome) == PosteriorStep::Skip <==> term_of(kind, outcome)
            == ScoreTerm::Void,
        step_of(kind, outcome) == PosteriorStep::Success <==> term_of(kind, outcome)
            == ScoreTerm::Success,
        step_of(kind, outcome) == PosteriorStep::Timeout <==> term_of(kind, outcome)
            == ScoreTerm::Timeout,
        step_of(kind, outcome) == PosteriorStep::Note <==> term_of(kind, outcome)
            == ScoreTerm::Neutral,
        step_of(kind, outcome) == PosteriorStep::Failure <==> term_of(kind, outcome)
            == ScoreTerm::Failure,
{
}

// ---------------------------------------------------------------------------
// What is believed of the strategies

/// What is believed of a strategy: the bits of the two doubles that it began with, how often
/// it was tested, and what has changed since, in order.
#[derive(Debug)]
pub struct Posterior {
    pub alpha: u64,
    pub beta: u64,
    pub tests: u64,
    pub steps: Vec<PosteriorStep>,
}

/// What is believed of a strategy by its contents.
pub struct PosteriorModel {
    pub alpha: u64,
    pub beta: u64,
    pub tests: u64,
    pub steps: Seq<PosteriorStep>,
}

impl View for Posterior {
    type V = PosteriorModel;

    open spec fn view(&self) -> PosteriorModel {
        PosteriorModel {
            alpha: self.alpha,
            beta: self.beta,
            tests: self.tests,
            steps: self.steps@,
        }
    }
}

fn copy_posterior(p: &Posterior) -> (r: Posterior)
    ensures
        r@ == p@,
{
    let mut steps: Vec<PosteriorStep> = Vec::new();
    let mut i: usize = 0;
    while i < p.steps.len()
        invariant
            i <= p.steps@.len(),
            steps@ == p.steps@.take(i as int),
        decreases p.steps@.len() - i,
    {
        steps.push(p.steps[i]);
        i = i + 1;
        assert(steps@ =~= p.steps@.take(i as int));
    }
    assert(steps@ =~= p.steps@);
    Posterior { alpha: p.alpha, beta: p.beta, tests: p.tests, steps }
}

impl PosteriorModel {
    /// What is believed of a strategy that was never tested, with the bits of its prior.
    pub open spec fn untested(prior: (u64, u64)) -> PosteriorModel {
        PosteriorModel { alpha: prior.0, beta: prior.1, tests: 0, steps: Seq::empty() }
    }

    /// What is believed after a step.
    pub open spec fn after(self, step: PosteriorStep) -> PosteriorModel {
        match step {
            PosteriorStep::Skip | PosteriorStep::Note => self,
            _ => PosteriorModel {
                tests: (self.tests + 1) as u64,
                steps: self.steps.push(step),
                ..self
            },
        }
    }
}

/// A belief grows by evidence alone. A success, a failure and a timeout are each counted as one
/// test more and noted, as what they are, behind what was noted before; what is no evidence
/// changes nothing; and the prior stays as it was.
pub proof fn beliefs_grow_by_evidence(belief: PosteriorModel, step: PosteriorStep)
    requires
        belief.tests < u64::MAX,
    ensures
        ({
            let evidence = step == PosteriorStep::Success || step == PosteriorStep::Failure || step
                == PosteriorStep::Timeout;
            let after = belief.after(step);
            &&& evidence ==> after.tests == belief.tests + 1
            &&& evidence ==> after.steps.len() == belief.steps.len() + 1
            &&& evidence ==> after.steps.last() == step && after.steps.drop_last() == belief.steps
            &&& !evidence ==> after == belief
            &&& after.alpha == belief.alpha && after.beta == belief.beta
        }),
{
    assert(belief.steps.push(step).drop_last() =~= belief.steps);
}

/// A strategy that was never tested is believed what its prior says and no more.
pub proof fn untested_is_its_prior(prior: (u64, u64))
    ensures
        PosteriorModel::untested(prior).alpha == prior.0,
        PosteriorModel::untested(prior).beta == prior.1,
        PosteriorModel::untested(prior).tests == 0,
        PosteriorModel::untested(prior).steps.len() == 0,
{
}

/// What is believed of the strategies, by their names.
#[derive(Debug)]
pub struct BayesianState {
    pub posteriors: TextMap<Posterior>,
}

impl Default for BayesianState {
    fn default() -> (r: BayesianState)
        ensures
            r.posteriors@ == Seq::<(Seq<char>, Posterior)>::empty(),
    {
        BayesianState { posteriors: TextMap::new() }
    }
}

impl BayesianState {
    /// What is believed of a strategy: what was noted, or else its prior.
    pub open spec fn belief(self, key: Seq<char>, prior: (u64, u64)) -> PosteriorModel {
        match value_at(self.posteriors@, key) {
            Some(p) => p@,
            None => PosteriorModel::untested(prior),
        }
    }

    /// What is believed of a strategy: what was noted, or else its prior.
    pub fn get_or_prior(&self, key: &str, prior: (u64, u64)) -> (r: Posterior)
        ensures
            r@ == self.belief(key@, prior),
    {
        match self.posteriors.get(key) {
            Some(p) => copy_posterior(p),
            None => {
                let steps: Vec<PosteriorStep> = Vec::new();
                Posterior { alpha: prior.0, beta: prior.1, tests: 0, steps }
            },
        }
    }

    /// Takes in what came of a strategy. The names of all others keep what is noted of them.
    pub fn update(&mut self, key: &str, prior: (u64, u64), result: &ProbeResult)
        requires
            old(self).belief(key@, prior).tests < u64::MAX,
        ensures
            ({
                let step = step_of(result.failure_kind, result.outcome);
                if step == PosteriorStep::Skip {
                    final(self).posteriors@ == old(self).posteriors@
                } else {
                    value_at(final(self).posteriors@, key@) matches Some(p) && p@ == old(
                        self,
                    ).belief(key@, prior).after(step) && final(self).posteriors@ == with_entry(
                        old(self).posteriors@,
                        key@,
                        p,
                    )
                }
            }),
            forall|other: Seq<char>|
                other != key@ ==> #[trigger] noted(*final(self), other) == noted(*old(self), other),
    {
        let step = posterior_step(result);
        if step == PosteriorStep::Skip {
            return;
        }
        let mut posterior = self.get_or_prior(key, prior);
        if step != PosteriorStep::Note {
            posterior.tests = posterior.tests + 1;
            posterior.steps.push(step);
        }
        let mut posteriors: TextMap<Posterior> = TextMap::new();
        std::mem::swap(&mut posteriors, &mut self.posteriors);
        let ghost known = posteriors@;
        self.posteriors = posteriors.insert(key.to_owned(), posterior);
        proof {
            assert forall|other: Seq<char>| other != key@ implies #[trigger] value_at(
                with_entry(known, key@, posterior),
                other,
            ) == value_at(known, other) by {
                with_entry_value(known, key@, posterior, other);
            }
        }
    }
}

/// What is noted of a strategy.
pub open spec fn noted(state: BayesianState, key: Seq<char>) -> Option<PosteriorModel> {
    match value_at(state.posteriors@, key) {
        Some(p) => Some(p@),
        None => None,
    }
}

/// A result changes what is believed of its own strategy, and of no other.
pub proof fn others_keep_their_beliefs(
    before: Seq<(Seq<char>, Posterior)>,
    key: Seq<char>,
    p: Posterior,
    other: Seq<char>,
)
    requires
        ascending(before),
        other != key,
    ensures
        value_at(with_entry(before, key, p), other) == value_at(before, other),
{
    with_entry_value(before, key, p, other);
}

} // verus!
