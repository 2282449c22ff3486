//! Provider-independent orchestration of the hosted source workflow.
//!
//! The workflow owns sequencing and retry policy; the database, the source
//! collector and the evaluator stay behind ports that the caller drives. A run
//! is a state machine: `HostedWorkflow::start` asks for a job, and each call of
//! `HostedWorkflow::step` takes what the last port call reported and answers
//! with the next port call, until the run finishes with an outcome.
use vstd::prelude::*;

use crate::domain::{RepositorySource, RevisionId, valid_revision_id};
use crate::json::JsonValue;
use crate::text::{owned, text_eq};

verus! {

/// The stage of a hosted job that a failure is settled against.
#[derive(Clone, Copy, Debug, PartialEq, Eq, Structural)]
pub enum HostedWorkflowStage {
    Collecting,
    Evaluating,
}

pub open spec fn workflow_stage_text(stage: HostedWorkflowStage) -> Seq<char> {
    match stage {
        HostedWorkflowStage::Collecting => "collecting"@,
        HostedWorkflowStage::Evaluating => "evaluating"@,
    }
}

impl HostedWorkflowStage {
    /// Returns the stable storage code.
    pub fn as_str(self) -> (r: &'static str)
        ensures
            r@ == workflow_stage_text(self),
    {
        match self {
            HostedWorkflowStage::Collecting => "collecting",
            HostedWorkflowStage::Evaluating => "evaluating",
        }
    }
}

/// A job claimed from the store under a lease.
#[derive(Debug)]
pub struct HostedClaimedJob {
    pub job_id: u128,
    pub request_id: u128,
    pub owner: String,
    pub repository: String,
    pub generation: i32,
    pub attempt_count: i32,
    pub max_attempts: i32,
    pub lease_generation: i64,
    pub lease_token: u128,
    pub stage: HostedWorkflowStage,
    pub source_snapshot_id: Option<u128>,
}

/// What the source collector read of a repository.
#[derive(Debug)]
pub struct HostedSourceCollection {
    pub provider_repository_id: i64,
    pub owner: String,
    pub repository: String,
    pub canonical_url: String,
    pub default_branch: String,
    pub head_sha: String,
    pub source_url: String,
    pub etag: Option<String>,
    pub normalized_facts: JsonValue,
}

/// Where the store kept a collected source.
#[derive(Debug)]
pub struct HostedStoredSource {
    pub source_snapshot_id: u128,
    pub source_observation_id: u128,
}

/// What the evaluator is given.
#[derive(Debug)]
pub struct HostedEvaluationInput {
    pub source: HostedStoredSource,
    pub normalized_facts: JsonValue,
}

/// One evaluation attempt, as the evaluator reported it.
#[derive(Debug)]
pub struct HostedEvaluationAttempt {
    pub provider_id: String,
    pub model: String,
    pub evaluator_profile: String,
    pub rubric_version: String,
    pub prompt_version: String,
    pub evaluation_version: String,
    pub provider_profile_version: String,
    pub sampling: JsonValue,
    pub evidence_bundle_hash: String,
    pub usage: Option<JsonValue>,
    pub latency_ms: Option<i64>,
    pub status: String,
    pub error_code: Option<String>,
    pub validated_judgments: Option<JsonValue>,
}

/// What the workflow reads of a collected source: the repository it names
/// and its head revision.
#[derive(Debug)]
pub struct HostedSourceIdentity {
    pub owner: String,
    pub repository: String,
    pub head_sha: String,
}

/// Whether a collected source names a hosted repository and a revision.
pub open spec fn identity_is_valid(i: HostedSourceIdentity) -> bool {
    &&& i.owner@.len() > 0
    &&& i.repository@.len() > 0
    &&& valid_revision_id(i.head_sha@)
}

impl HostedSourceIdentity {
    /// Checks that the source names a hosted repository and a revision.
    pub fn is_valid(&self) -> (r: bool)
        ensures
            r == identity_is_valid(*self),
    {
        proof {
            reveal_strlit("github");
        }
        let source = RepositorySource::hosted("github", self.owner.as_str(), self.repository.as_str());
        let revision = RevisionId::parse(self.head_sha.as_str());
        source.is_some() && revision.is_some()
    }
}

/// What the workflow reads of a successful evaluation: its status and
/// whether it carries validated judgments.
#[derive(Debug)]
pub struct HostedEvaluationSummary {
    pub status: String,
    pub has_validated_judgments: bool,
}

impl HostedEvaluationSummary {
    /// The summary of an evaluation attempt.
    pub fn of(attempt: &HostedEvaluationAttempt) -> (r: HostedEvaluationSummary)
        ensures
            r.status@ == attempt.status@,
            r.has_validated_judgments == attempt.validated_judgments is Some,
    {
        HostedEvaluationSummary {
            status: owned(attempt.status.as_str()),
            has_validated_judgments: attempt.validated_judgments.is_some(),
        }
    }
}

/// The evaluation status under which an evaluation without validated
/// judgments cannot be stored.
pub open spec fn unpublished_status() -> Seq<char> {
    "validated_unpublished"@
}

/// Which score artifact an evaluation is stored with.
#[derive(Clone, Copy, Debug, PartialEq, Eq, Structural)]
pub enum HostedScoreSource {
    /// No score could be compiled: the artifact says the score is unavailable.
    Unavailable,
    /// The score compiled from the evaluation's validated judgments.
    Compiled,
}

/// Whom a failure is attributed to.
#[derive(Clone, Copy, Debug, PartialEq, Eq, Structural)]
pub enum HostedFailureScope {
    Repository,
    Provider,
}

/// A collection or evaluation failure, to be settled by the store.
#[derive(Debug)]
pub struct HostedFailure {
    pub code: String,
    pub retryable: bool,
    pub retry_after_seconds: Option<i64>,
    pub evaluation_attempt: Option<Box<HostedEvaluationAttempt>>,
    pub scope: HostedFailureScope,
}

impl HostedFailure {
    /// A failure attributed to the repository, with no retry hint and no
    /// attempt.
    pub fn new(code: &str, retryable: bool) -> (r: HostedFailure)
        ensures
            r.code@ == code@,
            r.retryable == retryable,
            r.retry_after_seconds is None,
            r.evaluation_attempt is None,
            r.scope == HostedFailureScope::Repository,
    {
        HostedFailure {
            code: owned(code),
            retryable,
            retry_after_seconds: None,
            evaluation_attempt: None,
            scope: HostedFailureScope::Repository,
        }
    }

    /// The same failure attributed to the provider.
    pub fn provider(code: &str, retryable: bool) -> (r: HostedFailure)
        ensures
            r.code@ == code@,
            r.retryable == retryable,
            r.retry_after_seconds is None,
            r.evaluation_attempt is None,
            r.scope == HostedFailureScope::Provider,
    {
        let mut f = HostedFailure::new(code, retryable);
        f.scope = HostedFailureScope::Provider;
        f
    }
}

/// Why a store call failed.
#[derive(Clone, Copy, Debug, PartialEq, Eq, Structural)]
pub enum HostedPortErrorKind {
    LeaseLost,
    Unavailable,
}

/// A failed store call.
#[derive(Clone, Copy, Debug, PartialEq, Eq, Structural)]
pub struct HostedPortError {
    kind: HostedPortErrorKind,
}

impl HostedPortError {
    pub closed spec fn error_kind(self) -> HostedPortErrorKind {
        self.kind
    }

    /// The job's lease was taken over by another worker.
    pub fn lease_lost() -> (r: HostedPortError)
        ensures
            r.error_kind() == HostedPortErrorKind::LeaseLost,
    {
        HostedPortError { kind: HostedPortErrorKind::LeaseLost }
    }

    /// The store could not be reached or refused the call.
    pub fn unavailable() -> (r: HostedPortError)
        ensures
            r.error_kind() == HostedPortErrorKind::Unavailable,
            r == unavailable_error(),
    {
        HostedPortError { kind: HostedPortErrorKind::Unavailable }
    }

    pub fn kind(self) -> (r: HostedPortErrorKind)
        ensures
            r == self.error_kind(),
    {
        self.kind
    }
}

/// The store-unavailable error.
pub closed spec fn unavailable_error() -> HostedPortError {
    HostedPortError { kind: HostedPortErrorKind::Unavailable }
}

/// The store-unavailable error is of the unavailable kind.
pub proof fn lemma_unavailable_error_kind()
    ensures
        unavailable_error().error_kind() == HostedPortErrorKind::Unavailable,
{
}

/// The retry policy handed to the store when it settles a failure.
#[derive(Clone, Copy, Debug, PartialEq, Eq, Structural)]
pub struct HostedWorkflowPolicy {
    pub retry_delay_cap_seconds: i64,
    pub failure_circuit_threshold: i32,
    pub failure_circuit_cooldown_seconds: i64,
}

/// How one run of the workflow ended.
#[derive(Clone, Copy, Debug, PartialEq, Eq, Structural)]
pub enum HostedWorkflowOutcome {
    Idle,
    Complete,
    RetryScheduled,
    TerminalUnavailable,
    LeaseLost,
}

/// Where a run stands: which port call it waits on, or how it ended.
#[derive(Clone, Copy, Debug)]
pub enum HostedWorkflowPhase {
    Claiming,
    LoadingInput,
    Collecting,
    /// Storing the collected source; `true` when it names a hosted
    /// repository and a revision.
    StoringSource(bool),
    Evaluating,
    RecordingAttempt,
    CompilingScore,
    StoringEvaluation(HostedScoreSource),
    Settling(HostedWorkflowStage),
    Finished(Result<HostedWorkflowOutcome, HostedPortError>),
}

/// The next port call a run asks its driver to make.
#[derive(Clone, Copy, Debug)]
pub enum HostedWorkflowAction {
    /// Claim a job for this worker.
    ClaimJob,
    /// Load the stored input of the claimed job's evaluation.
    LoadEvaluationInput,
    /// Collect the claimed job's source.
    Collect,
    /// Store the collected source.
    StoreSourceCollection,
    /// Evaluate the input.
    Evaluate,
    /// Record the attempt carried by the pending failure.
    RecordEvaluationAttempt,
    /// Compile a score from the evaluation's validated judgments.
    CompileScore,
    /// Store the evaluation with the given score artifact.
    StoreEvaluation(HostedScoreSource),
    /// Settle the pending failure against the stage, under the policy.
    SettleFailure(HostedWorkflowStage),
    /// The run is over.
    Finish(Result<HostedWorkflowOutcome, HostedPortError>),
}

/// What the last port call reported.
#[derive(Debug)]
pub enum HostedWorkflowEvent {
    /// The claim returned a job at the given stage, or none.
    JobClaimed(Option<HostedWorkflowStage>),
    /// The stored evaluation input was found or not.
    EvaluationInputLoaded(bool),
    /// The collector succeeded, naming the source it read, or reported a
    /// failure.
    Collected(Result<HostedSourceIdentity, HostedFailure>),
    /// The collected source was stored.
    SourceStored,
    /// The evaluator succeeded or reported a failure.
    Evaluated(Result<HostedEvaluationSummary, HostedFailure>),
    /// The failed attempt was recorded.
    AttemptRecorded,
    /// The score was compiled, or its compilation failed.
    ScoreCompiled(bool),
    /// The evaluation was stored.
    EvaluationStored,
    /// The failure was settled; `true` when a retry was scheduled.
    Settled(bool),
    /// A store call failed.
    PortFailed(HostedPortError),
}

/// The port call a phase waits on.
pub open spec fn pending_action(phase: HostedWorkflowPhase) -> HostedWorkflowAction {
    match phase {
        HostedWorkflowPhase::Claiming => HostedWorkflowAction::ClaimJob,
        HostedWorkflowPhase::LoadingInput => HostedWorkflowAction::LoadEvaluationInput,
        HostedWorkflowPhase::Collecting => HostedWorkflowAction::Collect,
        HostedWorkflowPhase::StoringSource(_) => HostedWorkflowAction::StoreSourceCollection,
        HostedWorkflowPhase::Evaluating => HostedWorkflowAction::Evaluate,
        HostedWorkflowPhase::RecordingAttempt => HostedWorkflowAction::RecordEvaluationAttempt,
        HostedWorkflowPhase::CompilingScore => HostedWorkflowAction::CompileScore,
        HostedWorkflowPhase::StoringEvaluation(score) => HostedWorkflowAction::StoreEvaluation(score),
        HostedWorkflowPhase::Settling(stage) => HostedWorkflowAction::SettleFailure(stage),
        HostedWorkflowPhase::Finished(r) => HostedWorkflowAction::Finish(r),
    }
}

/// A store error while a claimed job is processed: a lost lease ends the run
/// quietly, anything else is passed on.
pub open spec fn processing_result(e: HostedPortError) -> Result<HostedWorkflowOutcome, HostedPortError> {
    if e.error_kind() == HostedPortErrorKind::LeaseLost {
        Ok(HostedWorkflowOutcome::LeaseLost)
    } else {
        Err(e)
    }
}

/// Move to a phase that holds no failure.
pub open spec fn go(phase: HostedWorkflowPhase) -> (HostedWorkflowPhase, Option<HostedFailure>) {
    (phase, None)
}

/// Settle `f` against `stage`.
pub open spec fn settle(stage: HostedWorkflowStage, f: HostedFailure) -> (HostedWorkflowPhase, Option<HostedFailure>) {
    (HostedWorkflowPhase::Settling(stage), Some(f))
}

/// End the run.
pub open spec fn finish(r: Result<HostedWorkflowOutcome, HostedPortError>) -> (HostedWorkflowPhase, Option<HostedFailure>) {
    (HostedWorkflowPhase::Finished(r), None)
}

/// The failure settled when a job's stored evaluation input is missing.
pub open spec fn missing_snapshot_failure(f: HostedFailure) -> bool {
    &&& f.code@ == "source_snapshot_missing"@
    &&& !f.retryable
    &&& f.retry_after_seconds is None
    &&& f.evaluation_attempt is None
    &&& f.scope == HostedFailureScope::Repository
}

/// The failure settled when an evaluation without validated judgments is
/// reported as validated but unpublished: no score can be compiled from it.
pub open spec fn missing_score_input_failure(f: HostedFailure) -> bool {
    &&& f.code@ == "score_compilation_input_missing"@
    &&& !f.retryable
    &&& f.retry_after_seconds is None
    &&& f.evaluation_attempt is None
    &&& f.scope == HostedFailureScope::Repository
}

/// An evaluation without validated judgments under the unpublished status.
pub open spec fn lacks_score_input(e: HostedEvaluationSummary) -> bool {
    !e.has_validated_judgments && e.status@ == unpublished_status()
}

/// The event answers the phase's pending port call.
pub open spec fn answers(phase: HostedWorkflowPhase, event: HostedWorkflowEvent) -> bool {
    match (phase, event) {
        (HostedWorkflowPhase::Finished(_), _) => false,
        (_, HostedWorkflowEvent::PortFailed(_)) => true,
        (HostedWorkflowPhase::Claiming, HostedWorkflowEvent::JobClaimed(_)) => true,
        (HostedWorkflowPhase::LoadingInput, HostedWorkflowEvent::EvaluationInputLoaded(_)) => true,
        (HostedWorkflowPhase::Collecting, HostedWorkflowEvent::Collected(_)) => true,
        (HostedWorkflowPhase::StoringSource(_), HostedWorkflowEvent::SourceStored) => true,
        (HostedWorkflowPhase::Evaluating, HostedWorkflowEvent::Evaluated(_)) => true,
        (HostedWorkflowPhase::RecordingAttempt, HostedWorkflowEvent::AttemptRecorded) => true,
        (HostedWorkflowPhase::CompilingScore, HostedWorkflowEvent::ScoreCompiled(_)) => true,
        (HostedWorkflowPhase::StoringEvaluation(_), HostedWorkflowEvent::EvaluationStored) => true,
        (HostedWorkflowPhase::Settling(_), HostedWorkflowEvent::Settled(_)) => true,
        _ => false,
    }
}

/// The run's state after `event` answers the pending call of `phase`, the
/// run holding `failure`; an event that does not answer it changes nothing.
/// A missing evaluation input, and an evaluation that lacks score input, are
/// left to `steps_to`, which settles a failure made for each.
pub open spec fn next_state(phase: HostedWorkflowPhase, failure: Option<HostedFailure>, event: HostedWorkflowEvent) -> (HostedWorkflowPhase, Option<HostedFailure>) {
    if !answers(phase, event) {
        (phase, failure)
    } else {
        match (phase, event) {
            (HostedWorkflowPhase::Claiming, HostedWorkflowEvent::PortFailed(e)) => finish(Err(e)),
            (_, HostedWorkflowEvent::PortFailed(e)) => finish(processing_result(e)),
            (_, HostedWorkflowEvent::JobClaimed(None)) => finish(Ok(HostedWorkflowOutcome::Idle)),
            (_, HostedWorkflowEvent::JobClaimed(Some(HostedWorkflowStage::Evaluating))) => go(
                HostedWorkflowPhase::LoadingInput,
            ),
            (_, HostedWorkflowEvent::JobClaimed(Some(HostedWorkflowStage::Collecting))) => go(
                HostedWorkflowPhase::Collecting,
            ),
            (_, HostedWorkflowEvent::EvaluationInputLoaded(true)) => go(HostedWorkflowPhase::Evaluating),
            (_, HostedWorkflowEvent::Collected(Ok(identity))) => go(
                HostedWorkflowPhase::StoringSource(identity_is_valid(identity)),
            ),
            (_, HostedWorkflowEvent::Collected(Err(f))) => settle(HostedWorkflowStage::Collecting, f),
            (HostedWorkflowPhase::StoringSource(valid), HostedWorkflowEvent::SourceStored) => if valid {
                go(HostedWorkflowPhase::Evaluating)
            } else {
                finish(Err(unavailable_error()))
            },
            (_, HostedWorkflowEvent::Evaluated(Ok(e))) => if e.has_validated_judgments {
                go(HostedWorkflowPhase::CompilingScore)
            } else {
                go(HostedWorkflowPhase::StoringEvaluation(HostedScoreSource::Unavailable))
            },
            (_, HostedWorkflowEvent::ScoreCompiled(true)) => go(
                HostedWorkflowPhase::StoringEvaluation(HostedScoreSource::Compiled),
            ),
            (_, HostedWorkflowEvent::ScoreCompiled(false)) => finish(Err(unavailable_error())),
            (_, HostedWorkflowEvent::Evaluated(Err(f))) => if f.evaluation_attempt is Some {
                (HostedWorkflowPhase::RecordingAttempt, Some(f))
            } else {
                settle(HostedWorkflowStage::Evaluating, f)
            },
            (_, HostedWorkflowEvent::AttemptRecorded) => (
                HostedWorkflowPhase::Settling(HostedWorkflowStage::Evaluating),
                failure,
            ),
            (_, HostedWorkflowEvent::EvaluationStored) => finish(Ok(HostedWorkflowOutcome::Complete)),
            (_, HostedWorkflowEvent::Settled(true)) => finish(Ok(HostedWorkflowOutcome::RetryScheduled)),
            (_, HostedWorkflowEvent::Settled(false)) => finish(
                Ok(HostedWorkflowOutcome::TerminalUnavailable),
            ),
            _ => (phase, failure),
        }
    }
}

/// `next` is the run's state after `event` answers the pending call of
/// `phase`, the run holding `failure`.
pub open spec fn steps_to(
    phase: HostedWorkflowPhase,
    failure: Option<HostedFailure>,
    event: HostedWorkflowEvent,
    next: (HostedWorkflowPhase, Option<HostedFailure>),
) -> bool {
    match (phase, event) {
        (HostedWorkflowPhase::LoadingInput, HostedWorkflowEvent::EvaluationInputLoaded(false)) => {
            &&& next.0 == HostedWorkflowPhase::Settling(HostedWorkflowStage::Evaluating)
            &&& next.1 matches Some(f) && missing_snapshot_failure(f)
        },
        (HostedWorkflowPhase::Evaluating, HostedWorkflowEvent::Evaluated(Ok(e))) if lacks_score_input(e) => {
            &&& next.0 == HostedWorkflowPhase::Settling(HostedWorkflowStage::Evaluating)
            &&& next.1 matches Some(f) && missing_score_input_failure(f)
        },
        _ => next == next_state(phase, failure, event),
    }
}

/// How many port calls a phase is at most from the end of its run.
pub open spec fn calls_left(phase: HostedWorkflowPhase) -> nat {
    match phase {
        HostedWorkflowPhase::Claiming => 6,
        HostedWorkflowPhase::LoadingInput => 4,
        HostedWorkflowPhase::Collecting => 5,
        HostedWorkflowPhase::StoringSource(_) => 4,
        HostedWorkflowPhase::Evaluating => 3,
        HostedWorkflowPhase::RecordingAttempt => 2,
        HostedWorkflowPhase::CompilingScore => 2,
        HostedWorkflowPhase::StoringEvaluation(_) => 1,
        HostedWorkflowPhase::Settling(_) => 1,
        HostedWorkflowPhase::Finished(_) => 0,
    }
}

/// Every answer to a pending port call moves a run closer to its end, so a
/// run whose calls are answered finishes after at most six calls.
pub proof fn law_every_answer_moves_forward(
    phase: HostedWorkflowPhase,
    failure: Option<HostedFailure>,
    event: HostedWorkflowEvent,
    next: (HostedWorkflowPhase, Option<HostedFailure>),
)
    requires
        answers(phase, event),
        steps_to(phase, failure, event, next),
    ensures
        calls_left(next.0) < calls_left(phase),
{
}

/// A finished run stays finished, whatever it is told.
pub proof fn law_finished_runs_stay_finished(
    r: Result<HostedWorkflowOutcome, HostedPortError>,
    failure: Option<HostedFailure>,
    event: HostedWorkflowEvent,
    next: (HostedWorkflowPhase, Option<HostedFailure>),
)
    requires
        steps_to(HostedWorkflowPhase::Finished(r), failure, event, next),
    ensures
        next.0 == HostedWorkflowPhase::Finished(r),
        pending_action(next.0) == HostedWorkflowAction::Finish(r),
{
}

/// Losing the job's lease while the job is processed ends the run with the
/// `LeaseLost` outcome rather than an error; any other store error ends it
/// with that error. A failed claim is always an error.
pub proof fn law_lost_lease_is_an_outcome(
    phase: HostedWorkflowPhase,
    failure: Option<HostedFailure>,
    e: HostedPortError,
    next: (HostedWorkflowPhase, Option<HostedFailure>),
)
    requires
        !(phase is Finished),
        steps_to(phase, failure, HostedWorkflowEvent::PortFailed(e), next),
    ensures
        phase is Claiming ==> next.0 == HostedWorkflowPhase::Finished(Err(e)),
        !(phase is Claiming) && e.error_kind() == HostedPortErrorKind::LeaseLost ==> next.0
            == HostedWorkflowPhase::Finished(Ok(HostedWorkflowOutcome::LeaseLost)),
        !(phase is Claiming) && e.error_kind() != HostedPortErrorKind::LeaseLost ==> next.0
            == HostedWorkflowPhase::Finished(Err(e)),
{
}

/// A reported failure is settled against the stage it happened in, exactly
/// as reported; a failed evaluation that carries an attempt has the attempt
/// recorded first, and then the same failure is settled.
pub proof fn law_failures_are_settled_where_they_happen(
    failure: Option<HostedFailure>,
    f: HostedFailure,
    collected: (HostedWorkflowPhase, Option<HostedFailure>),
    evaluated: (HostedWorkflowPhase, Option<HostedFailure>),
    recorded: (HostedWorkflowPhase, Option<HostedFailure>),
)
    requires
        steps_to(HostedWorkflowPhase::Collecting, failure, HostedWorkflowEvent::Collected(Err(f)), collected),
        steps_to(HostedWorkflowPhase::Evaluating, failure, HostedWorkflowEvent::Evaluated(Err(f)), evaluated),
        steps_to(evaluated.0, evaluated.1, HostedWorkflowEvent::AttemptRecorded, recorded),
    ensures
        collected == (HostedWorkflowPhase::Settling(HostedWorkflowStage::Collecting), Some(f)),
        f.evaluation_attempt is None ==> evaluated == (
            HostedWorkflowPhase::Settling(HostedWorkflowStage::Evaluating),
            Some(f),
        ),
        f.evaluation_attempt is Some ==> {
            &&& evaluated == (HostedWorkflowPhase::RecordingAttempt, Some(f))
            &&& pending_action(evaluated.0) == HostedWorkflowAction::RecordEvaluationAttempt
            &&& recorded == (HostedWorkflowPhase::Settling(HostedWorkflowStage::Evaluating), Some(f))
        },
{
}

/// Settling a failure ends the run: with `RetryScheduled` when the store
/// scheduled a retry, with `TerminalUnavailable` when it did not.
pub proof fn law_settlement_decides_the_outcome(
    stage: HostedWorkflowStage,
    failure: Option<HostedFailure>,
    retry: bool,
    next: (HostedWorkflowPhase, Option<HostedFailure>),
)
    requires
        steps_to(HostedWorkflowPhase::Settling(stage), failure, HostedWorkflowEvent::Settled(retry), next),
    ensures
        next.0 == HostedWorkflowPhase::Finished(
            Ok(
                if retry {
                    HostedWorkflowOutcome::RetryScheduled
                } else {
                    HostedWorkflowOutcome::TerminalUnavailable
                },
            ),
        ),
{
}

/// A job whose stored evaluation input is gone is settled as a
/// non-retryable `source_snapshot_missing` failure of its evaluation.
pub proof fn law_missing_input_is_settled(
    failure: Option<HostedFailure>,
    next: (HostedWorkflowPhase, Option<HostedFailure>),
)
    requires
        steps_to(HostedWorkflowPhase::LoadingInput, failure, HostedWorkflowEvent::EvaluationInputLoaded(false), next),
    ensures
        pending_action(next.0) == HostedWorkflowAction::SettleFailure(HostedWorkflowStage::Evaluating),
        next.1 matches Some(f) && f.code@ == "source_snapshot_missing"@ && !f.retryable,
{
}

/// A successful evaluation decides how it is stored: one with validated
/// judgments has a score compiled from them and is stored with it, or ends
/// the run unavailable when compilation fails; one without them is stored
/// with an unavailable score, unless it is validated but unpublished, which
/// is settled as a non-retryable `score_compilation_input_missing` failure.
pub proof fn law_scores_follow_the_evaluation(
    failure: Option<HostedFailure>,
    e: HostedEvaluationSummary,
    compiled: bool,
    evaluated: (HostedWorkflowPhase, Option<HostedFailure>),
    scored: (HostedWorkflowPhase, Option<HostedFailure>),
)
    requires
        steps_to(HostedWorkflowPhase::Evaluating, failure, HostedWorkflowEvent::Evaluated(Ok(e)), evaluated),
        steps_to(HostedWorkflowPhase::CompilingScore, failure, HostedWorkflowEvent::ScoreCompiled(compiled), scored),
    ensures
        e.has_validated_judgments ==> pending_action(evaluated.0) == HostedWorkflowAction::CompileScore,
        !e.has_validated_judgments && e.status@ != unpublished_status() ==> pending_action(evaluated.0)
            == HostedWorkflowAction::StoreEvaluation(HostedScoreSource::Unavailable),
        lacks_score_input(e) ==> pending_action(evaluated.0) == HostedWorkflowAction::SettleFailure(
            HostedWorkflowStage::Evaluating,
        ) && (evaluated.1 matches Some(f) && f.code@ == "score_compilation_input_missing"@ && !f.retryable),
        compiled ==> pending_action(scored.0) == HostedWorkflowAction::StoreEvaluation(HostedScoreSource::Compiled),
        !compiled ==> (scored.0 matches HostedWorkflowPhase::Finished(Err(x))
            && x.error_kind() == HostedPortErrorKind::Unavailable),
{
    lemma_unavailable_error_kind();
}

/// A collected source that does not name a hosted repository and a revision
/// is stored, and then the run ends with the store-unavailable error; one
/// that does is evaluated next.
pub proof fn law_unnamed_sources_end_the_run(
    failure: Option<HostedFailure>,
    identity: HostedSourceIdentity,
    collected: (HostedWorkflowPhase, Option<HostedFailure>),
    stored: (HostedWorkflowPhase, Option<HostedFailure>),
)
    requires
        steps_to(HostedWorkflowPhase::Collecting, failure, HostedWorkflowEvent::Collected(Ok(identity)), collected),
        steps_to(collected.0, collected.1, HostedWorkflowEvent::SourceStored, stored),
    ensures
        pending_action(collected.0) == HostedWorkflowAction::StoreSourceCollection,
        identity_is_valid(identity) ==> pending_action(stored.0) == HostedWorkflowAction::Evaluate,
        !identity_is_valid(identity) ==> (stored.0 matches HostedWorkflowPhase::Finished(Err(x))
            && x.error_kind() == HostedPortErrorKind::Unavailable),
{
    lemma_unavailable_error_kind();
}

/// One run of the workflow over one claimed job.
#[derive(Debug)]
pub struct HostedWorkflowRun {
    phase: HostedWorkflowPhase,
    failure: Option<HostedFailure>,
}

impl HostedWorkflowRun {
    pub closed spec fn spec_phase(self) -> HostedWorkflowPhase {
        self.phase
    }

    pub closed spec fn spec_failure(self) -> Option<HostedFailure> {
        self.failure
    }

    /// A run holds a failure exactly while it records or settles one, and a
    /// failure whose attempt it records carries one.
    #[verifier::type_invariant]
    closed spec fn holds_failure_when_settling(self) -> bool {
        match self.phase {
            HostedWorkflowPhase::Settling(_) => self.failure is Some,
            HostedWorkflowPhase::RecordingAttempt => self.failure matches Some(f)
                && f.evaluation_attempt is Some,
            _ => self.failure is None,
        }
    }

    /// The phase the run is in.
    pub fn phase(&self) -> (r: HostedWorkflowPhase)
        ensures
            r == self.spec_phase(),
    {
        self.phase
    }

    /// The failure to record or settle, while there is one.
    pub fn pending_failure(&self) -> (r: Option<&HostedFailure>)
        ensures
            r is Some <==> self.spec_failure() is Some,
            r matches Some(f) ==> self.spec_failure() == Some(*f),
    {
        match &self.failure {
            Some(f) => Some(f),
            None => None,
        }
    }
}

/// The hosted workflow: its retry policy and its sequencing.
#[derive(Debug)]
pub struct HostedWorkflow {
    policy: HostedWorkflowPolicy,
}

impl HostedWorkflow {
    pub closed spec fn spec_policy(self) -> HostedWorkflowPolicy {
        self.policy
    }

    pub fn new(policy: HostedWorkflowPolicy) -> (r: HostedWorkflow)
        ensures
            r.spec_policy() == policy,
    {
        HostedWorkflow { policy }
    }

    /// The policy every failure is settled under.
    pub fn policy(&self) -> (r: HostedWorkflowPolicy)
        ensures
            r == self.spec_policy(),
    {
        self.policy
    }

    /// A new run, which first claims a job.
    pub fn start(&self) -> (r: (HostedWorkflowRun, HostedWorkflowAction))
        ensures
            r.0.spec_phase() == HostedWorkflowPhase::Claiming,
            r.0.spec_failure() is None,
            r.1 == HostedWorkflowAction::ClaimJob,
    {
        (HostedWorkflowRun { phase: HostedWorkflowPhase::Claiming, failure: None }, HostedWorkflowAction::ClaimJob)
    }

    /// Takes what the pending port call reported and returns the run's next
    /// state with the call to make next.
    pub fn step(&self, run: HostedWorkflowRun, event: HostedWorkflowEvent) -> (r: (HostedWorkflowRun, HostedWorkflowAction))
        ensures
            steps_to(run.spec_phase(), run.spec_failure(), event, (r.0.spec_phase(), r.0.spec_failure())),
            r.1 == pending_action(r.0.spec_phase()),
    {
        proof {
            use_type_invariant(&run);
        }
        let HostedWorkflowRun { phase, failure } = run;
        let (next_phase, next_failure) = transition(phase, failure, event);
        let action = action_of(next_phase);
        (HostedWorkflowRun { phase: next_phase, failure: next_failure }, action)
    }
}

fn action_of(phase: HostedWorkflowPhase) -> (r: HostedWorkflowAction)
    ensures
        r == pending_action(phase),
{
    match phase {
        HostedWorkflowPhase::Claiming => HostedWorkflowAction::ClaimJob,
        HostedWorkflowPhase::LoadingInput => HostedWorkflowAction::LoadEvaluationInput,
        HostedWorkflowPhase::Collecting => HostedWorkflowAction::Collect,
        HostedWorkflowPhase::StoringSource(_) => HostedWorkflowAction::StoreSourceCollection,
        HostedWorkflowPhase::Evaluating => HostedWorkflowAction::Evaluate,
        HostedWorkflowPhase::RecordingAttempt => HostedWorkflowAction::RecordEvaluationAttempt,
        HostedWorkflowPhase::CompilingScore => HostedWorkflowAction::CompileScore,
        HostedWorkflowPhase::StoringEvaluation(score) => HostedWorkflowAction::StoreEvaluation(score),
        HostedWorkflowPhase::Settling(stage) => HostedWorkflowAction::SettleFailure(stage),
        HostedWorkflowPhase::Finished(r) => HostedWorkflowAction::Finish(r),
    }
}

/// A store error while a job is processed.
fn processing_error(e: HostedPortError) -> (r: Result<HostedWorkflowOutcome, HostedPortError>)
    ensures
        r == processing_result(e),
{
    if e.kind() == HostedPortErrorKind::LeaseLost {
        Ok(HostedWorkflowOutcome::LeaseLost)
    } else {
        Err(e)
    }
}

/// The decision behind `HostedWorkflow::step`.
fn transition(phase: HostedWorkflowPhase, failure: Option<HostedFailure>, event: HostedWorkflowEvent) -> (r: (HostedWorkflowPhase, Option<HostedFailure>))
    requires
        match phase {
            HostedWorkflowPhase::Settling(_) => failure is Some,
            HostedWorkflowPhase::RecordingAttempt => failure matches Some(f) && f.evaluation_attempt is Some,
            _ => failure is None,
        },
    ensures
        steps_to(phase, failure, event, r),
        match r.0 {
            HostedWorkflowPhase::Settling(_) => r.1 is Some,
            HostedWorkflowPhase::RecordingAttempt => r.1 matches Some(f) && f.evaluation_attempt is Some,
            _ => r.1 is None,
        },
{
    match (phase, event) {
        (HostedWorkflowPhase::Finished(_), _) => (phase, failure),
        (HostedWorkflowPhase::Claiming, HostedWorkflowEvent::PortFailed(e)) => (HostedWorkflowPhase::Finished(Err(e)), None),
        (_, HostedWorkflowEvent::PortFailed(e)) => (HostedWorkflowPhase::Finished(processing_error(e)), None),
        (HostedWorkflowPhase::Claiming, HostedWorkflowEvent::JobClaimed(claimed)) => match claimed {
            None => (HostedWorkflowPhase::Finished(Ok(HostedWorkflowOutcome::Idle)), None),
            Some(HostedWorkflowStage::Evaluating) => (HostedWorkflowPhase::LoadingInput, None),
            Some(HostedWorkflowStage::Collecting) => (HostedWorkflowPhase::Collecting, None),
        },
        (HostedWorkflowPhase::LoadingInput, HostedWorkflowEvent::EvaluationInputLoaded(found)) => {
            if found {
                (HostedWorkflowPhase::Evaluating, None)
            } else {
                (
                    HostedWorkflowPhase::Settling(HostedWorkflowStage::Evaluating),
                    Some(HostedFailure::new("source_snapshot_missing", false)),
                )
            }
        },
        (HostedWorkflowPhase::Collecting, HostedWorkflowEvent::Collected(collected)) => match collected {
            Ok(identity) => (HostedWorkflowPhase::StoringSource(identity.is_valid()), None),
            Err(f) => (HostedWorkflowPhase::Settling(HostedWorkflowStage::Collecting), Some(f)),
        },
        (HostedWorkflowPhase::StoringSource(valid), HostedWorkflowEvent::SourceStored) => {
            if valid {
                (HostedWorkflowPhase::Evaluating, None)
            } else {
                (HostedWorkflowPhase::Finished(Err(HostedPortError::unavailable())), None)
            }
        },
        (HostedWorkflowPhase::Evaluating, HostedWorkflowEvent::Evaluated(evaluated)) => match evaluated {
            Ok(e) => {
                if e.has_validated_judgments {
                    (HostedWorkflowPhase::CompilingScore, None)
                } else if text_eq(e.status.as_str(), "validated_unpublished") {
                    (
                        HostedWorkflowPhase::Settling(HostedWorkflowStage::Evaluating),
                        Some(HostedFailure::new("score_compilation_input_missing", false)),
                    )
                } else {
                    (HostedWorkflowPhase::StoringEvaluation(HostedScoreSource::Unavailable), None)
                }
            },
            Err(f) => {
                if f.evaluation_attempt.is_some() {
                    (HostedWorkflowPhase::RecordingAttempt, Some(f))
                } else {
                    (HostedWorkflowPhase::Settling(HostedWorkflowStage::Evaluating), Some(f))
                }
            },
        },
        (HostedWorkflowPhase::RecordingAttempt, HostedWorkflowEvent::AttemptRecorded) => (
            HostedWorkflowPhase::Settling(HostedWorkflowStage::Evaluating),
            failure,
        ),
        (HostedWorkflowPhase::CompilingScore, HostedWorkflowEvent::ScoreCompiled(compiled)) => {
            if compiled {
                (HostedWorkflowPhase::StoringEvaluation(HostedScoreSource::Compiled), None)
            } else {
                (HostedWorkflowPhase::Finished(Err(HostedPortError::unavailable())), None)
            }
        },
        (HostedWorkflowPhase::StoringEvaluation(_), HostedWorkflowEvent::EvaluationStored) => (
            HostedWorkflowPhase::Finished(Ok(HostedWorkflowOutcome::Complete)),
            None,
        ),
        (HostedWorkflowPhase::Settling(_), HostedWorkflowEvent::Settled(retry)) => {
            if retry {
                (HostedWorkflowPhase::Finished(Ok(HostedWorkflowOutcome::RetryScheduled)), None)
            } else {
                (HostedWorkflowPhase::Finished(Ok(HostedWorkflowOutcome::TerminalUnavailable)), None)
            }
        },
        _ => (phase, failure),
    }
}

} // verus!
