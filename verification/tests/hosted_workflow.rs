use assay_project_intelligence::hosted_workflow::{
    HostedEvaluationAttempt, HostedEvaluationSummary, HostedFailure, HostedFailureScope, HostedPortError,
    HostedPortErrorKind, HostedScoreSource, HostedSourceIdentity, HostedWorkflow, HostedWorkflowAction,
    HostedWorkflowEvent, HostedWorkflowOutcome, HostedWorkflowPhase, HostedWorkflowPolicy, HostedWorkflowRun,
    HostedWorkflowStage,
};
use assay_project_intelligence::json::JsonValue;

fn workflow() -> HostedWorkflow {
    HostedWorkflow::new(HostedWorkflowPolicy {
        retry_delay_cap_seconds: 900,
        failure_circuit_threshold: 3,
        failure_circuit_cooldown_seconds: 3_600,
    })
}

fn drive(events: Vec<HostedWorkflowEvent>) -> (HostedWorkflowRun, HostedWorkflowAction) {
    let workflow = workflow();
    let (mut run, mut action) = workflow.start();
    assert!(matches!(action, HostedWorkflowAction::ClaimJob));
    for event in events {
        let (next, next_action) = workflow.step(run, event);
        run = next;
        action = next_action;
    }
    (run, action)
}

fn attempt() -> HostedEvaluationAttempt {
    HostedEvaluationAttempt {
        provider_id: "ollama".into(),
        model: "model".into(),
        evaluator_profile: "profile".into(),
        rubric_version: "project-rubric-1".into(),
        prompt_version: "prompt-1".into(),
        evaluation_version: "hosted-evaluation-1".into(),
        provider_profile_version: "provider-1".into(),
        sampling: JsonValue::Null,
        evidence_bundle_hash: "sha256:00".into(),
        usage: None,
        latency_ms: Some(12),
        status: "invalid_output".into(),
        error_code: Some("schema_violation".into()),
        validated_judgments: None,
    }
}

fn identity(head_sha: &str) -> HostedSourceIdentity {
    HostedSourceIdentity { owner: "example-org".into(), repository: "seed".into(), head_sha: head_sha.into() }
}

fn valid_identity() -> HostedSourceIdentity {
    identity("0123456789abcdef0123456789abcdef01234567")
}

fn summary(status: &str, has_validated_judgments: bool) -> HostedEvaluationSummary {
    HostedEvaluationSummary { status: status.into(), has_validated_judgments }
}

#[test]
fn a_worker_without_a_job_is_idle() {
    let (_, action) = drive(vec![HostedWorkflowEvent::JobClaimed(None)]);
    assert!(matches!(action, HostedWorkflowAction::Finish(Ok(HostedWorkflowOutcome::Idle))));
}

#[test]
fn a_collecting_job_is_collected_stored_evaluated_and_completed() {
    let workflow = workflow();
    let (run, action) = workflow.start();
    let (run, action) = {
        assert!(matches!(action, HostedWorkflowAction::ClaimJob));
        workflow.step(run, HostedWorkflowEvent::JobClaimed(Some(HostedWorkflowStage::Collecting)))
    };
    assert!(matches!(action, HostedWorkflowAction::Collect));
    let (run, action) = workflow.step(run, HostedWorkflowEvent::Collected(Ok(valid_identity())));
    assert!(matches!(action, HostedWorkflowAction::StoreSourceCollection));
    let (run, action) = workflow.step(run, HostedWorkflowEvent::SourceStored);
    assert!(matches!(action, HostedWorkflowAction::Evaluate));
    let (run, action) = workflow.step(run, HostedWorkflowEvent::Evaluated(Ok(summary("validated", false))));
    assert!(matches!(action, HostedWorkflowAction::StoreEvaluation(HostedScoreSource::Unavailable)));
    let (run, action) = workflow.step(run, HostedWorkflowEvent::EvaluationStored);
    assert!(matches!(action, HostedWorkflowAction::Finish(Ok(HostedWorkflowOutcome::Complete))));
    assert!(matches!(run.phase(), HostedWorkflowPhase::Finished(Ok(HostedWorkflowOutcome::Complete))));
    assert!(run.pending_failure().is_none());
}

#[test]
fn an_evaluating_job_loads_its_stored_input() {
    let (_, action) = drive(vec![
        HostedWorkflowEvent::JobClaimed(Some(HostedWorkflowStage::Evaluating)),
        HostedWorkflowEvent::EvaluationInputLoaded(true),
    ]);
    assert!(matches!(action, HostedWorkflowAction::Evaluate));
}

#[test]
fn a_missing_snapshot_is_settled_as_a_permanent_evaluation_failure() {
    let (run, action) = drive(vec![
        HostedWorkflowEvent::JobClaimed(Some(HostedWorkflowStage::Evaluating)),
        HostedWorkflowEvent::EvaluationInputLoaded(false),
    ]);
    assert!(matches!(action, HostedWorkflowAction::SettleFailure(HostedWorkflowStage::Evaluating)));
    let failure = run.pending_failure().unwrap();
    assert_eq!(failure.code, "source_snapshot_missing");
    assert!(!failure.retryable);
    assert_eq!(failure.scope, HostedFailureScope::Repository);
    let (run, action) = workflow().step(run, HostedWorkflowEvent::Settled(true));
    assert!(matches!(action, HostedWorkflowAction::Finish(Ok(HostedWorkflowOutcome::RetryScheduled))));
    assert!(run.pending_failure().is_none());
}

#[test]
fn a_collection_failure_is_settled_against_collection() {
    let (run, action) = drive(vec![
        HostedWorkflowEvent::JobClaimed(Some(HostedWorkflowStage::Collecting)),
        HostedWorkflowEvent::Collected(Err(HostedFailure::provider("rate_limited", true))),
    ]);
    assert!(matches!(action, HostedWorkflowAction::SettleFailure(HostedWorkflowStage::Collecting)));
    let failure = run.pending_failure().unwrap();
    assert_eq!(failure.code, "rate_limited");
    assert!(failure.retryable);
    assert_eq!(failure.scope, HostedFailureScope::Provider);
    let (_, action) = workflow().step(run, HostedWorkflowEvent::Settled(false));
    assert!(matches!(action, HostedWorkflowAction::Finish(Ok(HostedWorkflowOutcome::TerminalUnavailable))));
}

#[test]
fn a_failed_attempt_is_recorded_before_its_failure_is_settled() {
    let mut failure = HostedFailure::new("invalid_output", false);
    failure.evaluation_attempt = Some(Box::new(attempt()));
    let (run, action) = drive(vec![
        HostedWorkflowEvent::JobClaimed(Some(HostedWorkflowStage::Evaluating)),
        HostedWorkflowEvent::EvaluationInputLoaded(true),
        HostedWorkflowEvent::Evaluated(Err(failure)),
    ]);
    assert!(matches!(action, HostedWorkflowAction::RecordEvaluationAttempt));
    assert_eq!(run.pending_failure().unwrap().evaluation_attempt.as_ref().unwrap().status, "invalid_output");
    let (run, action) = workflow().step(run, HostedWorkflowEvent::AttemptRecorded);
    assert!(matches!(action, HostedWorkflowAction::SettleFailure(HostedWorkflowStage::Evaluating)));
    assert_eq!(run.pending_failure().unwrap().code, "invalid_output");
}

#[test]
fn a_failure_without_an_attempt_is_settled_at_once() {
    let (_, action) = drive(vec![
        HostedWorkflowEvent::JobClaimed(Some(HostedWorkflowStage::Evaluating)),
        HostedWorkflowEvent::EvaluationInputLoaded(true),
        HostedWorkflowEvent::Evaluated(Err(HostedFailure::new("model_timeout", true))),
    ]);
    assert!(matches!(action, HostedWorkflowAction::SettleFailure(HostedWorkflowStage::Evaluating)));
}

#[test]
fn a_lost_lease_ends_processing_quietly() {
    let (_, action) = drive(vec![
        HostedWorkflowEvent::JobClaimed(Some(HostedWorkflowStage::Collecting)),
        HostedWorkflowEvent::Collected(Ok(valid_identity())),
        HostedWorkflowEvent::PortFailed(HostedPortError::lease_lost()),
    ]);
    assert!(matches!(action, HostedWorkflowAction::Finish(Ok(HostedWorkflowOutcome::LeaseLost))));
}

#[test]
fn other_store_errors_are_passed_on() {
    let (_, action) = drive(vec![
        HostedWorkflowEvent::JobClaimed(Some(HostedWorkflowStage::Collecting)),
        HostedWorkflowEvent::PortFailed(HostedPortError::unavailable()),
    ]);
    match action {
        HostedWorkflowAction::Finish(Err(error)) => assert_eq!(error.kind(), HostedPortErrorKind::Unavailable),
        other => panic!("unexpected action {other:?}"),
    }
}

#[test]
fn a_failed_claim_is_an_error_even_when_the_lease_is_lost() {
    let (_, action) = drive(vec![HostedWorkflowEvent::PortFailed(HostedPortError::lease_lost())]);
    match action {
        HostedWorkflowAction::Finish(Err(error)) => assert_eq!(error.kind(), HostedPortErrorKind::LeaseLost),
        other => panic!("unexpected action {other:?}"),
    }
}

#[test]
fn an_answer_to_another_call_changes_nothing() {
    let (_, action) = drive(vec![
        HostedWorkflowEvent::JobClaimed(Some(HostedWorkflowStage::Collecting)),
        HostedWorkflowEvent::EvaluationStored,
    ]);
    assert!(matches!(action, HostedWorkflowAction::Collect));
}

#[test]
fn a_finished_run_stays_finished() {
    let (_, action) = drive(vec![
        HostedWorkflowEvent::JobClaimed(None),
        HostedWorkflowEvent::JobClaimed(Some(HostedWorkflowStage::Collecting)),
        HostedWorkflowEvent::PortFailed(HostedPortError::unavailable()),
    ]);
    assert!(matches!(action, HostedWorkflowAction::Finish(Ok(HostedWorkflowOutcome::Idle))));
}

#[test]
fn stages_and_policy_are_kept() {
    assert_eq!(HostedWorkflowStage::Collecting.as_str(), "collecting");
    assert_eq!(HostedWorkflowStage::Evaluating.as_str(), "evaluating");
    assert_eq!(workflow().policy().failure_circuit_threshold, 3);
}

#[test]
fn judgments_are_compiled_into_the_stored_score() {
    let (run, action) = drive(vec![
        HostedWorkflowEvent::JobClaimed(Some(HostedWorkflowStage::Evaluating)),
        HostedWorkflowEvent::EvaluationInputLoaded(true),
        HostedWorkflowEvent::Evaluated(Ok(summary("validated", true))),
    ]);
    assert!(matches!(action, HostedWorkflowAction::CompileScore));
    let (run, action) = workflow().step(run, HostedWorkflowEvent::ScoreCompiled(true));
    assert!(matches!(action, HostedWorkflowAction::StoreEvaluation(HostedScoreSource::Compiled)));
    let (_, action) = workflow().step(run, HostedWorkflowEvent::EvaluationStored);
    assert!(matches!(action, HostedWorkflowAction::Finish(Ok(HostedWorkflowOutcome::Complete))));
}

#[test]
fn a_failed_score_compilation_is_unavailable() {
    let (_, action) = drive(vec![
        HostedWorkflowEvent::JobClaimed(Some(HostedWorkflowStage::Evaluating)),
        HostedWorkflowEvent::EvaluationInputLoaded(true),
        HostedWorkflowEvent::Evaluated(Ok(summary("validated", true))),
        HostedWorkflowEvent::ScoreCompiled(false),
    ]);
    match action {
        HostedWorkflowAction::Finish(Err(error)) => assert_eq!(error.kind(), HostedPortErrorKind::Unavailable),
        other => panic!("unexpected action {other:?}"),
    }
}

#[test]
fn an_unpublished_evaluation_without_judgments_is_settled() {
    let (run, action) = drive(vec![
        HostedWorkflowEvent::JobClaimed(Some(HostedWorkflowStage::Evaluating)),
        HostedWorkflowEvent::EvaluationInputLoaded(true),
        HostedWorkflowEvent::Evaluated(Ok(summary("validated_unpublished", false))),
    ]);
    assert!(matches!(action, HostedWorkflowAction::SettleFailure(HostedWorkflowStage::Evaluating)));
    let failure = run.pending_failure().unwrap();
    assert_eq!(failure.code, "score_compilation_input_missing");
    assert!(!failure.retryable);
}

#[test]
fn a_source_without_a_revision_ends_the_run_after_it_is_stored() {
    let (_, action) = drive(vec![
        HostedWorkflowEvent::JobClaimed(Some(HostedWorkflowStage::Collecting)),
        HostedWorkflowEvent::Collected(Ok(identity("not-a-sha"))),
        HostedWorkflowEvent::SourceStored,
    ]);
    match action {
        HostedWorkflowAction::Finish(Err(error)) => assert_eq!(error.kind(), HostedPortErrorKind::Unavailable),
        other => panic!("unexpected action {other:?}"),
    }
    assert!(valid_identity().is_valid());
    assert!(!identity("not-a-sha").is_valid());
}

#[test]
fn an_evaluation_summary_reads_the_attempt() {
    let mut evaluated = attempt();
    evaluated.validated_judgments = Some(JsonValue::Null);
    let summary = HostedEvaluationSummary::of(&evaluated);
    assert_eq!(summary.status, "invalid_output");
    assert!(summary.has_validated_judgments);
}
