use assay_project_intelligence::hosted::{
    HOSTED_API_CONTRACT, HOSTED_API_SCHEMA_VERSION, HostedAdmission, HostedContractEnvelope,
    HostedContractValueError, HostedErrorResponse, HostedEvaluationStatus, HostedJobStage, HostedJobState,
    HostedProjectStatus, HostedProjectStatusRecord, HostedRecentSourceStatus, HostedRecentSourceStatusRecord,
    HostedRequestState, HostedScoreStatus, HostedSubmission, HostedTimestamp,
};

const REQUEST_ID: u128 = 0x67e5_5044_10b1_426f_9247_bb68_0e5f_e0c8;

fn at(unix_seconds: i128, offset_seconds: i32) -> HostedTimestamp {
    HostedTimestamp { unix_nanos: unix_seconds * 1_000_000_000, offset_seconds }
}

fn status_record(next_attempt_at: HostedTimestamp) -> HostedProjectStatusRecord {
    HostedProjectStatusRecord {
        request_id: REQUEST_ID,
        owner: "assay".into(),
        repository: "example".into(),
        canonical_url: "https://github.com/assay/example".into(),
        request_state: HostedRequestState::Collecting,
        job_stage: HostedJobStage::Evaluating,
        job_state: HostedJobState::Running,
        last_error_code: Some("rate_limited".into()),
        provider_repository_id: Some(-42),
        default_branch: Some("main".into()),
        head_sha: None,
        description: None,
        stars: Some(7),
        evaluation_status: Some(HostedEvaluationStatus::Partial),
        score_status: HostedScoreStatus::Pending,
        next_attempt_at,
        updated_at: at(0, 0),
    }
}

#[test]
fn every_published_code_reads_back_as_its_state() {
    for state in [
        HostedRequestState::Queued,
        HostedRequestState::Collecting,
        HostedRequestState::Partial,
        HostedRequestState::Complete,
        HostedRequestState::Unavailable,
    ] {
        assert_eq!(HostedRequestState::from_code(state.code()), Ok(state));
    }
    for admission in [HostedAdmission::Admitted, HostedAdmission::JoinedActive, HostedAdmission::Cooldown] {
        assert_eq!(HostedAdmission::from_code(admission.code()), Ok(admission));
    }
    for stage in [
        HostedJobStage::Canonicalizing,
        HostedJobStage::Collecting,
        HostedJobStage::Evaluating,
        HostedJobStage::Publishing,
    ] {
        assert_eq!(HostedJobStage::from_code(stage.code()), Ok(stage));
    }
    for state in [
        HostedJobState::Queued,
        HostedJobState::Running,
        HostedJobState::Partial,
        HostedJobState::Complete,
        HostedJobState::Unavailable,
    ] {
        assert_eq!(HostedJobState::from_code(state.code()), Ok(state));
    }
    for status in [
        HostedEvaluationStatus::ValidatedUnpublished,
        HostedEvaluationStatus::Partial,
        HostedEvaluationStatus::Unavailable,
    ] {
        assert_eq!(HostedEvaluationStatus::from_code(status.code()), Ok(status));
    }
    for status in [
        HostedScoreStatus::Pending,
        HostedScoreStatus::Complete,
        HostedScoreStatus::Partial,
        HostedScoreStatus::Insufficient,
        HostedScoreStatus::Unavailable,
    ] {
        assert_eq!(HostedScoreStatus::from_code(status.code()), Ok(status));
    }
}

#[test]
fn running_is_read_as_collecting_and_unknown_codes_are_refused() {
    assert_eq!(HostedRequestState::from_code("running"), Ok(HostedRequestState::Collecting));
    assert_eq!(HostedRequestState::Collecting.code(), "collecting");
    assert_eq!(HostedJobState::from_code("collecting"), Err(HostedContractValueError));
    assert_eq!(HostedScoreStatus::from_code("Pending"), Err(HostedContractValueError));
    assert_eq!(HostedEvaluationStatus::from_code("validated_unpublished"), Ok(HostedEvaluationStatus::ValidatedUnpublished));
}

#[test]
fn envelopes_name_the_hosted_contract() {
    let envelope = HostedContractEnvelope::new(5u8);
    assert_eq!(envelope.contract, "assay-hosted-api");
    assert_eq!(envelope.schema_version, "1.0.0");
    assert_eq!(envelope.data, 5);
    let error = HostedErrorResponse::new("repository_not_found");
    assert_eq!(error.contract, HOSTED_API_CONTRACT);
    assert_eq!(error.schema_version, HOSTED_API_SCHEMA_VERSION);
    assert_eq!(error.code(), "repository_not_found");
}

#[test]
fn a_submission_publishes_its_request_id_and_canonical_url() {
    let submission = HostedSubmission::new(
        REQUEST_ID,
        "assay".into(),
        "example".into(),
        HostedRequestState::Queued,
        HostedAdmission::Cooldown,
        Some(30),
    );
    assert_eq!(submission.request_id, "67e55044-10b1-426f-9247-bb680e5fe0c8");
    assert_eq!(submission.canonical_url, "https://github.com/assay/example");
    assert_eq!(submission.state(), HostedRequestState::Queued);
    assert_eq!(submission.admission(), HostedAdmission::Cooldown);
    assert_eq!(submission.retry_after_seconds(), Some(30));
}

#[test]
fn a_uuid_is_written_with_leading_zeros() {
    let submission =
        HostedSubmission::new(1, "a".into(), "b".into(), HostedRequestState::Queued, HostedAdmission::Admitted, None);
    assert_eq!(submission.request_id, "00000000-0000-0000-0000-000000000001");
}

#[test]
fn a_project_status_publishes_identifiers_as_text_and_instants_as_rfc3339() {
    let status = HostedProjectStatus::project(status_record(at(3_600, 3_600)));
    assert_eq!(status.request_id, "67e55044-10b1-426f-9247-bb680e5fe0c8");
    assert_eq!(status.provider_repository_id.as_deref(), Some("-42"));
    assert_eq!(status.next_attempt_at, "1970-01-01T02:00:00+01:00");
    assert_eq!(status.updated_at, "1970-01-01T00:00:00Z");
    assert_eq!(status.last_error_code.as_deref(), Some("rate_limited"));
    assert_eq!(status.request_state, HostedRequestState::Collecting);
    assert_eq!(status.stars, Some(7));
    assert_eq!(status.head_sha, None);
}

#[test]
fn fractional_seconds_are_kept_in_the_published_instant() {
    let record = status_record(HostedTimestamp { unix_nanos: 1_500_000_000, offset_seconds: 0 });
    let status = HostedProjectStatus::try_project(record).unwrap();
    assert_eq!(status.next_attempt_at, "1970-01-01T00:00:01.5Z");
}

#[test]
fn an_instant_without_an_rfc3339_text_is_not_published() {
    // Year 10000 has no four-digit RFC 3339 form.
    let far = at(253_402_300_800, 0);
    assert!(HostedProjectStatus::try_project(status_record(far)).is_none());
    let record = HostedRecentSourceStatusRecord {
        owner: "assay".into(),
        repository: "example".into(),
        canonical_url: "https://github.com/assay/example".into(),
        provider_repository_id: 9,
        description: None,
        stars: None,
        default_branch: None,
        head_sha: None,
        collection_status: HostedRequestState::Complete,
        evaluation_status: None,
        score_status: HostedScoreStatus::Unavailable,
        updated_at: far,
    };
    assert!(HostedRecentSourceStatus::try_recent_source(record).is_none());
}

#[test]
fn a_recent_source_publishes_its_provider_id_as_text() {
    let record = HostedRecentSourceStatusRecord {
        owner: "assay".into(),
        repository: "example".into(),
        canonical_url: "https://github.com/assay/example".into(),
        provider_repository_id: 1_234_567,
        description: Some("A project".into()),
        stars: Some(3),
        default_branch: Some("main".into()),
        head_sha: Some("0123456789abcdef0123456789abcdef01234567".into()),
        collection_status: HostedRequestState::Partial,
        evaluation_status: Some(HostedEvaluationStatus::Unavailable),
        score_status: HostedScoreStatus::Insufficient,
        updated_at: at(86_400, 0),
    };
    let status = HostedRecentSourceStatus::recent_source(record);
    assert_eq!(status.provider_repository_id, "1234567");
    assert_eq!(status.updated_at, "1970-01-02T00:00:00Z");
    assert_eq!(status.collection_status, HostedRequestState::Partial);
    assert_eq!(status.score_status, HostedScoreStatus::Insufficient);
}
