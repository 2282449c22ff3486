//! Hosted source-processing machine contracts and projection policy.
//!
//! These contracts report collection and evaluation workflow state. They do
//! not represent project-catalog publication, a provider judgment, or a score.
use vstd::arithmetic::power2::pow2;
use vstd::prelude::*;

use crate::hex::hex_text;
use crate::raw_facts::opt_text_view;
use crate::text::{push_text, signed_decimal, signed_decimal_text, text_eq};

verus! {

pub const HOSTED_API_CONTRACT: &'static str = "assay-hosted-api";

pub const HOSTED_API_SCHEMA_VERSION: &'static str = "1.0.0";

/// A stored code that names no value of the expected enum.
#[derive(Clone, Copy, Debug, PartialEq, Eq, Structural)]
pub struct HostedContractValueError;

/// The state of a hosted submission request.
#[derive(Clone, Copy, Debug, PartialEq, Eq, Structural)]
pub enum HostedRequestState {
    Queued,
    Collecting,
    Partial,
    Complete,
    Unavailable,
}

pub open spec fn request_state_text(v: HostedRequestState) -> Seq<char> {
    match v {
        HostedRequestState::Queued => "queued"@,
        HostedRequestState::Collecting => "collecting"@,
        HostedRequestState::Partial => "partial"@,
        HostedRequestState::Complete => "complete"@,
        HostedRequestState::Unavailable => "unavailable"@,
    }
}

/// The request state a stored code names; `running` is the older name of
/// `collecting`.
pub open spec fn request_state_of(t: Seq<char>) -> Option<HostedRequestState> {
    if t == "queued"@ {
        Some(HostedRequestState::Queued)
    } else if t == "collecting"@ || t == "running"@ {
        Some(HostedRequestState::Collecting)
    } else if t == "partial"@ {
        Some(HostedRequestState::Partial)
    } else if t == "complete"@ {
        Some(HostedRequestState::Complete)
    } else if t == "unavailable"@ {
        Some(HostedRequestState::Unavailable)
    } else {
        None
    }
}

impl HostedRequestState {
    /// The snake_case code the state is published and stored under.
    pub fn code(self) -> (r: &'static str)
        ensures
            r@ == request_state_text(self),
    {
        match self {
            HostedRequestState::Queued => "queued",
            HostedRequestState::Collecting => "collecting",
            HostedRequestState::Partial => "partial",
            HostedRequestState::Complete => "complete",
            HostedRequestState::Unavailable => "unavailable",
        }
    }

    /// Reads a stored code.
    pub fn from_code(value: &str) -> (r: Result<HostedRequestState, HostedContractValueError>)
        ensures
            match request_state_of(value@) {
                Some(v) => r == Ok::<HostedRequestState, HostedContractValueError>(v),
                None => r is Err,
            },
    {
        if text_eq(value, "queued") {
            Ok(HostedRequestState::Queued)
        } else if text_eq(value, "collecting") || text_eq(value, "running") {
            Ok(HostedRequestState::Collecting)
        } else if text_eq(value, "partial") {
            Ok(HostedRequestState::Partial)
        } else if text_eq(value, "complete") {
            Ok(HostedRequestState::Complete)
        } else if text_eq(value, "unavailable") {
            Ok(HostedRequestState::Unavailable)
        } else {
            Err(HostedContractValueError)
        }
    }
}

/// How a submission was admitted.
#[derive(Clone, Copy, Debug, PartialEq, Eq, Structural)]
pub enum HostedAdmission {
    Admitted,
    JoinedActive,
    Cooldown,
}

pub open spec fn admission_text(v: HostedAdmission) -> Seq<char> {
    match v {
        HostedAdmission::Admitted => "admitted"@,
        HostedAdmission::JoinedActive => "joined_active"@,
        HostedAdmission::Cooldown => "cooldown"@,
    }
}

pub open spec fn admission_of(t: Seq<char>) -> Option<HostedAdmission> {
    if t == "admitted"@ {
        Some(HostedAdmission::Admitted)
    } else if t == "joined_active"@ {
        Some(HostedAdmission::JoinedActive)
    } else if t == "cooldown"@ {
        Some(HostedAdmission::Cooldown)
    } else {
        None
    }
}

impl HostedAdmission {
    pub fn code(self) -> (r: &'static str)
        ensures
            r@ == admission_text(self),
    {
        match self {
            HostedAdmission::Admitted => "admitted",
            HostedAdmission::JoinedActive => "joined_active",
            HostedAdmission::Cooldown => "cooldown",
        }
    }

    pub fn from_code(value: &str) -> (r: Result<HostedAdmission, HostedContractValueError>)
        ensures
            match admission_of(value@) {
                Some(v) => r == Ok::<HostedAdmission, HostedContractValueError>(v),
                None => r is Err,
            },
    {
        if text_eq(value, "admitted") {
            Ok(HostedAdmission::Admitted)
        } else if text_eq(value, "joined_active") {
            Ok(HostedAdmission::JoinedActive)
        } else if text_eq(value, "cooldown") {
            Ok(HostedAdmission::Cooldown)
        } else {
            Err(HostedContractValueError)
        }
    }
}

/// The stage a hosted job is in.
#[derive(Clone, Copy, Debug, PartialEq, Eq, Structural)]
pub enum HostedJobStage {
    Canonicalizing,
    Collecting,
    Evaluating,
    Publishing,
}

pub open spec fn job_stage_text(v: HostedJobStage) -> Seq<char> {
    match v {
        HostedJobStage::Canonicalizing => "canonicalizing"@,
        HostedJobStage::Collecting => "collecting"@,
        HostedJobStage::Evaluating => "evaluating"@,
        HostedJobStage::Publishing => "publishing"@,
    }
}

pub open spec fn job_stage_of(t: Seq<char>) -> Option<HostedJobStage> {
    if t == "canonicalizing"@ {
        Some(HostedJobStage::Canonicalizing)
    } else if t == "collecting"@ {
        Some(HostedJobStage::Collecting)
    } else if t == "evaluating"@ {
        Some(HostedJobStage::Evaluating)
    } else if t == "publishing"@ {
        Some(HostedJobStage::Publishing)
    } else {
        None
    }
}

impl HostedJobStage {
    pub fn code(self) -> (r: &'static str)
        ensures
            r@ == job_stage_text(self),
    {
        match self {
            HostedJobStage::Canonicalizing => "canonicalizing",
            HostedJobStage::Collecting => "collecting",
            HostedJobStage::Evaluating => "evaluating",
            HostedJobStage::Publishing => "publishing",
        }
    }

    pub fn from_code(value: &str) -> (r: Result<HostedJobStage, HostedContractValueError>)
        ensures
            match job_stage_of(value@) {
                Some(v) => r == Ok::<HostedJobStage, HostedContractValueError>(v),
                None => r is Err,
            },
    {
        if text_eq(value, "canonicalizing") {
            Ok(HostedJobStage::Canonicalizing)
        } else if text_eq(value, "collecting") {
            Ok(HostedJobStage::Collecting)
        } else if text_eq(value, "evaluating") {
            Ok(HostedJobStage::Evaluating)
        } else if text_eq(value, "publishing") {
            Ok(HostedJobStage::Publishing)
        } else {
            Err(HostedContractValueError)
        }
    }
}

/// The state of a hosted job.
#[derive(Clone, Copy, Debug, PartialEq, Eq, Structural)]
pub enum HostedJobState {
    Queued,
    Running,
    Partial,
    Complete,
    Unavailable,
}

pub open spec fn job_state_text(v: HostedJobState) -> Seq<char> {
    match v {
        HostedJobState::Queued => "queued"@,
        HostedJobState::Running => "running"@,
        HostedJobState::Partial => "partial"@,
        HostedJobState::Complete => "complete"@,
        HostedJobState::Unavailable => "unavailable"@,
    }
}

pub open spec fn job_state_of(t: Seq<char>) -> Option<HostedJobState> {
    if t == "queued"@ {
        Some(HostedJobState::Queued)
    } else if t == "running"@ {
        Some(HostedJobState::Running)
    } else if t == "partial"@ {
        Some(HostedJobState::Partial)
    } else if t == "complete"@ {
        Some(HostedJobState::Complete)
    } else if t == "unavailable"@ {
        Some(HostedJobState::Unavailable)
    } else {
        None
    }
}

impl HostedJobState {
    pub fn code(self) -> (r: &'static str)
        ensures
            r@ == job_state_text(self),
    {
        match self {
            HostedJobState::Queued => "queued",
            HostedJobState::Running => "running",
            HostedJobState::Partial => "partial",
            HostedJobState::Complete => "complete",
            HostedJobState::Unavailable => "unavailable",
        }
    }

    pub fn from_code(value: &str) -> (r: Result<HostedJobState, HostedContractValueError>)
        ensures
            match job_state_of(value@) {
                Some(v) => r == Ok::<HostedJobState, HostedContractValueError>(v),
                None => r is Err,
            },
    {
        if text_eq(value, "queued") {
            Ok(HostedJobState::Queued)
        } else if text_eq(value, "running") {
            Ok(HostedJobState::Running)
        } else if text_eq(value, "partial") {
            Ok(HostedJobState::Partial)
        } else if text_eq(value, "complete") {
            Ok(HostedJobState::Complete)
        } else if text_eq(value, "unavailable") {
            Ok(HostedJobState::Unavailable)
        } else {
            Err(HostedContractValueError)
        }
    }
}

/// The state of a hosted evaluation.
#[derive(Clone, Copy, Debug, PartialEq, Eq, Structural)]
pub enum HostedEvaluationStatus {
    ValidatedUnpublished,
    Partial,
    Unavailable,
}

pub open spec fn evaluation_status_text(v: HostedEvaluationStatus) -> Seq<char> {
    match v {
        HostedEvaluationStatus::ValidatedUnpublished => "validated_unpublished"@,
        HostedEvaluationStatus::Partial => "partial"@,
        HostedEvaluationStatus::Unavailable => "unavailable"@,
    }
}

pub open spec fn evaluation_status_of(t: Seq<char>) -> Option<HostedEvaluationStatus> {
    if t == "validated_unpublished"@ {
        Some(HostedEvaluationStatus::ValidatedUnpublished)
    } else if t == "partial"@ {
        Some(HostedEvaluationStatus::Partial)
    } else if t == "unavailable"@ {
        Some(HostedEvaluationStatus::Unavailable)
    } else {
        None
    }
}

impl HostedEvaluationStatus {
    pub fn code(self) -> (r: &'static str)
        ensures
            r@ == evaluation_status_text(self),
    {
        match self {
            HostedEvaluationStatus::ValidatedUnpublished => "validated_unpublished",
            HostedEvaluationStatus::Partial => "partial",
            HostedEvaluationStatus::Unavailable => "unavailable",
        }
    }

    pub fn from_code(value: &str) -> (r: Result<HostedEvaluationStatus, HostedContractValueError>)
        ensures
            match evaluation_status_of(value@) {
                Some(v) => r == Ok::<HostedEvaluationStatus, HostedContractValueError>(v),
                None => r is Err,
            },
    {
        if text_eq(value, "validated_unpublished") {
            Ok(HostedEvaluationStatus::ValidatedUnpublished)
        } else if text_eq(value, "partial") {
            Ok(HostedEvaluationStatus::Partial)
        } else if text_eq(value, "unavailable") {
            Ok(HostedEvaluationStatus::Unavailable)
        } else {
            Err(HostedContractValueError)
        }
    }
}

/// The state of a hosted score.
#[derive(Clone, Copy, Debug, PartialEq, Eq, Structural)]
pub enum HostedScoreStatus {
    Pending,
    Complete,
    Partial,
    Insufficient,
    Unavailable,
}

pub open spec fn score_status_text(v: HostedScoreStatus) -> Seq<char> {
    match v {
        HostedScoreStatus::Pending => "pending"@,
        HostedScoreStatus::Complete => "complete"@,
        HostedScoreStatus::Partial => "partial"@,
        HostedScoreStatus::Insufficient => "insufficient"@,
        HostedScoreStatus::Unavailable => "unavailable"@,
    }
}

pub open spec fn score_status_of(t: Seq<char>) -> Option<HostedScoreStatus> {
    if t == "pending"@ {
        Some(HostedScoreStatus::Pending)
    } else if t == "complete"@ {
        Some(HostedScoreStatus::Complete)
    } else if t == "partial"@ {
        Some(HostedScoreStatus::Partial)
    } else if t == "insufficient"@ {
        Some(HostedScoreStatus::Insufficient)
    } else if t == "unavailable"@ {
        Some(HostedScoreStatus::Unavailable)
    } else {
        None
    }
}

impl HostedScoreStatus {
    pub fn code(self) -> (r: &'static str)
        ensures
            r@ == score_status_text(self),
    {
        match self {
            HostedScoreStatus::Pending => "pending",
            HostedScoreStatus::Complete => "complete",
            HostedScoreStatus::Partial => "partial",
            HostedScoreStatus::Insufficient => "insufficient",
            HostedScoreStatus::Unavailable => "unavailable",
        }
    }

    pub fn from_code(value: &str) -> (r: Result<HostedScoreStatus, HostedContractValueError>)
        ensures
            match score_status_of(value@) {
                Some(v) => r == Ok::<HostedScoreStatus, HostedContractValueError>(v),
                None => r is Err,
            },
    {
        if text_eq(value, "pending") {
            Ok(HostedScoreStatus::Pending)
        } else if text_eq(value, "complete") {
            Ok(HostedScoreStatus::Complete)
        } else if text_eq(value, "partial") {
            Ok(HostedScoreStatus::Partial)
        } else if text_eq(value, "insufficient") {
            Ok(HostedScoreStatus::Insufficient)
        } else if text_eq(value, "unavailable") {
            Ok(HostedScoreStatus::Unavailable)
        } else {
            Err(HostedContractValueError)
        }
    }
}

/// Every state's published code reads back as that state.
pub proof fn law_codes_read_back(
    request: HostedRequestState,
    admission: HostedAdmission,
    stage: HostedJobStage,
    job: HostedJobState,
    evaluation: HostedEvaluationStatus,
    score: HostedScoreStatus,
)
    ensures
        request_state_of(request_state_text(request)) == Some(request),
        admission_of(admission_text(admission)) == Some(admission),
        job_stage_of(job_stage_text(stage)) == Some(stage),
        job_state_of(job_state_text(job)) == Some(job),
        evaluation_status_of(evaluation_status_text(evaluation)) == Some(evaluation),
        score_status_of(score_status_text(score)) == Some(score),
{
    reveal_strlit("queued");
    reveal_strlit("collecting");
    reveal_strlit("running");
    reveal_strlit("partial");
    reveal_strlit("complete");
    reveal_strlit("unavailable");
    reveal_strlit("admitted");
    reveal_strlit("joined_active");
    reveal_strlit("cooldown");
    reveal_strlit("canonicalizing");
    reveal_strlit("evaluating");
    reveal_strlit("publishing");
    reveal_strlit("validated_unpublished");
    reveal_strlit("pending");
    reveal_strlit("insufficient");
    assert(request_state_of(request_state_text(request)) == Some(request)) by {
        match request {
            HostedRequestState::Queued => {},
            HostedRequestState::Collecting => assert("collecting"@.len() != "queued"@.len() || "collecting"@[0] != "queued"@[0] || "collecting"@[1] != "queued"@[1]),
            HostedRequestState::Partial => assert("partial"@.len() != "queued"@.len() || "partial"@[0] != "queued"@[0] || "partial"@[1] != "queued"@[1]),
            HostedRequestState::Complete => assert("complete"@.len() != "partial"@.len() || "complete"@[0] != "partial"@[0] || "complete"@[1] != "partial"@[1]),
            HostedRequestState::Unavailable => assert("unavailable"@.len() != "complete"@.len() || "unavailable"@[0] != "complete"@[0] || "unavailable"@[1] != "complete"@[1]),
        }
    }
    assert(admission_of(admission_text(admission)) == Some(admission)) by {
        match admission {
            HostedAdmission::Admitted => {},
            HostedAdmission::JoinedActive => assert("joined_active"@.len() != "admitted"@.len() || "joined_active"@[0] != "admitted"@[0] || "joined_active"@[1] != "admitted"@[1]),
            HostedAdmission::Cooldown => assert("cooldown"@.len() != "joined_active"@.len() || "cooldown"@[0] != "joined_active"@[0] || "cooldown"@[1] != "joined_active"@[1]),
        }
    }
    assert(job_stage_of(job_stage_text(stage)) == Some(stage)) by {
        match stage {
            HostedJobStage::Canonicalizing => {},
            HostedJobStage::Collecting => assert("collecting"@.len() != "canonicalizing"@.len() || "collecting"@[0] != "canonicalizing"@[0] || "collecting"@[1] != "canonicalizing"@[1]),
            HostedJobStage::Evaluating => assert("evaluating"@.len() != "collecting"@.len() || "evaluating"@[0] != "collecting"@[0] || "evaluating"@[1] != "collecting"@[1]),
            HostedJobStage::Publishing => assert("publishing"@.len() != "evaluating"@.len() || "publishing"@[0] != "evaluating"@[0] || "publishing"@[1] != "evaluating"@[1]),
        }
    }
    assert(job_state_of(job_state_text(job)) == Some(job)) by {
        match job {
            HostedJobState::Queued => {},
            HostedJobState::Running => assert("running"@.len() != "queued"@.len() || "running"@[0] != "queued"@[0] || "running"@[1] != "queued"@[1]),
            HostedJobState::Partial => assert("partial"@.len() != "running"@.len() || "partial"@[0] != "running"@[0] || "partial"@[1] != "running"@[1]),
            HostedJobState::Complete => assert("complete"@.len() != "partial"@.len() || "complete"@[0] != "partial"@[0] || "complete"@[1] != "partial"@[1]),
            HostedJobState::Unavailable => assert("unavailable"@.len() != "complete"@.len() || "unavailable"@[0] != "complete"@[0] || "unavailable"@[1] != "complete"@[1]),
        }
    }
    assert(evaluation_status_of(evaluation_status_text(evaluation)) == Some(evaluation)) by {
        match evaluation {
            HostedEvaluationStatus::ValidatedUnpublished => {},
            HostedEvaluationStatus::Partial => assert("partial"@.len() != "validated_unpublished"@.len() || "partial"@[0] != "validated_unpublished"@[0] || "partial"@[1] != "validated_unpublished"@[1]),
            HostedEvaluationStatus::Unavailable => assert("unavailable"@.len() != "partial"@.len() || "unavailable"@[0] != "partial"@[0] || "unavailable"@[1] != "partial"@[1]),
        }
    }
    assert(score_status_of(score_status_text(score)) == Some(score)) by {
        match score {
            HostedScoreStatus::Pending => {},
            HostedScoreStatus::Complete => assert("complete"@.len() != "pending"@.len() || "complete"@[0] != "pending"@[0] || "complete"@[1] != "pending"@[1]),
            HostedScoreStatus::Partial => assert("partial"@.len() != "complete"@.len() || "partial"@[0] != "complete"@[0] || "partial"@[1] != "complete"@[1]),
            HostedScoreStatus::Insufficient => assert("insufficient"@.len() != "partial"@.len() || "insufficient"@[0] != "partial"@[0] || "insufficient"@[1] != "partial"@[1]),
            HostedScoreStatus::Unavailable => assert("unavailable"@.len() != "insufficient"@.len() || "unavailable"@[0] != "insufficient"@[0] || "unavailable"@[1] != "insufficient"@[1]),
        }
    }
}

/// A submission request: the repository as the caller wrote it.
#[derive(Debug)]
pub struct HostedSubmissionRequest {
    pub repository: String,
}

/// A hosted response body under the contract's name and schema version.
#[derive(Debug)]
pub struct HostedContractEnvelope<T> {
    pub contract: &'static str,
    pub schema_version: &'static str,
    pub data: T,
}

impl<T> HostedContractEnvelope<T> {
    pub fn new(data: T) -> (r: HostedContractEnvelope<T>)
        ensures
            r.contract == HOSTED_API_CONTRACT,
            r.schema_version == HOSTED_API_SCHEMA_VERSION,
            r.data == data,
    {
        HostedContractEnvelope {
            contract: HOSTED_API_CONTRACT,
            schema_version: HOSTED_API_SCHEMA_VERSION,
            data,
        }
    }
}

/// The error of a hosted error body.
#[derive(Debug)]
pub struct HostedError {
    pub code: &'static str,
}

/// A hosted error body: the contract's name and schema version and one
/// error code.
#[derive(Debug)]
pub struct HostedErrorResponse {
    pub contract: &'static str,
    pub schema_version: &'static str,
    pub error: HostedError,
}

impl HostedErrorResponse {
    pub fn new(code: &'static str) -> (r: HostedErrorResponse)
        ensures
            r.contract == HOSTED_API_CONTRACT,
            r.schema_version == HOSTED_API_SCHEMA_VERSION,
            r.error.code == code,
    {
        HostedErrorResponse {
            contract: HOSTED_API_CONTRACT,
            schema_version: HOSTED_API_SCHEMA_VERSION,
            error: HostedError { code },
        }
    }

    /// The error code.
    pub fn code(&self) -> (r: &'static str)
        ensures
            r == self.error.code,
    {
        self.error.code
    }
}

/// The sixteen big-endian bytes of a 128-bit value.
pub open spec fn be_bytes_u128(v: u128) -> Seq<u8> {
    Seq::new(16, |i: int| ((v as int / pow2((8 * (15 - i)) as nat) as int) % 256) as u8)
}

/// The hyphenated lowercase text of the UUID with the value `v`: 32
/// hexadecimal digits in groups of 8, 4, 4, 4 and 12.
pub open spec fn uuid_text(v: u128) -> Seq<char> {
    let h = hex_text(be_bytes_u128(v));
    h.subrange(0, 8) + seq!['-'] + h.subrange(8, 12) + seq!['-'] + h.subrange(12, 16) + seq!['-']
        + h.subrange(16, 20) + seq!['-'] + h.subrange(20, 32)
}

/// Renders a UUID with `uuid::Uuid::from_u128` and its `Display`, which
/// writes the hyphenated lowercase form of the big-endian bytes; the
/// contract claims exactly that text.
#[verifier::external_body]
fn uuid_hyphenated(v: u128) -> (r: String)
    ensures
        r@ == uuid_text(v),
{
    uuid::Uuid::from_u128(v).to_string()
}

/// The public locator of a GitHub repository.
pub open spec fn github_url(owner: Seq<char>, repository: Seq<char>) -> Seq<char> {
    "https://github.com/"@ + owner + "/"@ + repository
}

/// The answer to a submission.
#[derive(Debug)]
pub struct HostedSubmission {
    pub request_id: String,
    pub owner: String,
    pub repository: String,
    pub canonical_url: String,
    pub state: HostedRequestState,
    pub admission: HostedAdmission,
    pub retry_after_seconds: Option<i64>,
}

impl HostedSubmission {
    pub fn new(
        request_id: u128,
        owner: String,
        repository: String,
        state: HostedRequestState,
        admission: HostedAdmission,
        retry_after_seconds: Option<i64>,
    ) -> (r: HostedSubmission)
        ensures
            r.request_id@ == uuid_text(request_id),
            r.owner@ == owner@,
            r.repository@ == repository@,
            r.canonical_url@ == github_url(owner@, repository@),
            r.state == state,
            r.admission == admission,
            r.retry_after_seconds == retry_after_seconds,
    {
        let mut canonical_url = String::new();
        push_text(&mut canonical_url, "https://github.com/");
        push_text(&mut canonical_url, owner.as_str());
        push_text(&mut canonical_url, "/");
        push_text(&mut canonical_url, repository.as_str());
        HostedSubmission {
            request_id: uuid_hyphenated(request_id),
            owner,
            repository,
            canonical_url,
            state,
            admission,
            retry_after_seconds,
        }
    }

    pub fn admission(&self) -> (r: HostedAdmission)
        ensures
            r == self.admission,
    {
        self.admission
    }

    pub fn state(&self) -> (r: HostedRequestState)
        ensures
            r == self.state,
    {
        self.state
    }

    pub fn retry_after_seconds(&self) -> (r: Option<i64>)
        ensures
            r == self.retry_after_seconds,
    {
        self.retry_after_seconds
    }
}

/// An instant with the UTC offset it was recorded at: nanoseconds since the
/// Unix epoch, and the offset in seconds.
#[derive(Clone, Copy, Debug, PartialEq, Eq, Structural)]
pub struct HostedTimestamp {
    pub unix_nanos: i128,
    pub offset_seconds: i32,
}

/// The RFC 3339 text of an instant at an offset, when it has one.
pub uninterp spec fn rfc3339_text(unix_nanos: i128, offset_seconds: i32) -> Option<Seq<char>>;

/// Formats an instant as RFC 3339 with `time::OffsetDateTime::format`, after
/// building it with `OffsetDateTime::from_unix_timestamp_nanos`,
/// `UtcOffset::from_whole_seconds` and `OffsetDateTime::checked_to_offset`.
/// The contract claims that the outcome is a function of the two numbers
/// (named `rfc3339_text`); which instants have a text (the year must have four
/// digits, the offset whole minutes) is left unsaid.
#[verifier::external_body]
fn format_rfc3339(t: HostedTimestamp) -> (r: Option<String>)
    ensures
        match r {
            Some(s) => rfc3339_text(t.unix_nanos, t.offset_seconds) == Some(s@),
            None => rfc3339_text(t.unix_nanos, t.offset_seconds) is None,
        },
{
    let offset = time::UtcOffset::from_whole_seconds(t.offset_seconds).ok()?;
    let at = time::OffsetDateTime::from_unix_timestamp_nanos(t.unix_nanos).ok()?;
    let local = at.checked_to_offset(offset)?;
    local.format(&time::format_description::well_known::Rfc3339).ok()
}

/// The instant has an RFC 3339 text.
pub open spec fn formats(t: HostedTimestamp) -> bool {
    rfc3339_text(t.unix_nanos, t.offset_seconds) is Some
}

/// The RFC 3339 text of an instant that has one.
pub open spec fn timestamp_text(t: HostedTimestamp) -> Seq<char> {
    rfc3339_text(t.unix_nanos, t.offset_seconds).unwrap()
}

fn timestamp(t: HostedTimestamp) -> (r: String)
    requires
        formats(t),
    ensures
        r@ == timestamp_text(t),
{
    match format_rfc3339(t) {
        Some(s) => s,
        None => {
            proof {
                assert(false);
            }
            String::new()
        },
    }
}

/// The decimal text of an optional identifier.
pub open spec fn opt_decimal(id: Option<i64>) -> Option<Seq<char>> {
    match id {
        Some(v) => Some(signed_decimal(v as int)),
        None => None,
    }
}

fn opt_decimal_text(id: Option<i64>) -> (r: Option<String>)
    ensures
        opt_text_view(r) == opt_decimal(id),
{
    match id {
        Some(v) => Some(signed_decimal_text(v)),
        None => None,
    }
}

/// A stored project status, as the store reads it.
#[derive(Debug)]
pub struct HostedProjectStatusRecord {
    pub request_id: u128,
    pub owner: String,
    pub repository: String,
    pub canonical_url: String,
    pub request_state: HostedRequestState,
    pub job_stage: HostedJobStage,
    pub job_state: HostedJobState,
    pub last_error_code: Option<String>,
    pub provider_repository_id: Option<i64>,
    pub default_branch: Option<String>,
    pub head_sha: Option<String>,
    pub description: Option<String>,
    pub stars: Option<i64>,
    pub evaluation_status: Option<HostedEvaluationStatus>,
    pub score_status: HostedScoreStatus,
    pub next_attempt_at: HostedTimestamp,
    pub updated_at: HostedTimestamp,
}

/// The published status of a project.
#[derive(Debug)]
pub struct HostedProjectStatus {
    pub request_id: String,
    pub owner: String,
    pub repository: String,
    pub canonical_url: String,
    pub request_state: HostedRequestState,
    pub job_stage: HostedJobStage,
    pub job_state: HostedJobState,
    pub last_error_code: Option<String>,
    pub provider_repository_id: Option<String>,
    pub default_branch: Option<String>,
    pub head_sha: Option<String>,
    pub description: Option<String>,
    pub stars: Option<i64>,
    pub evaluation_status: Option<HostedEvaluationStatus>,
    pub score_status: HostedScoreStatus,
    pub next_attempt_at: String,
    pub updated_at: String,
}

/// `p` publishes `record`: identifiers as text, instants as RFC 3339, the
/// rest unchanged.
pub open spec fn projects_status(record: HostedProjectStatusRecord, p: HostedProjectStatus) -> bool {
    &&& p.request_id@ == uuid_text(record.request_id)
    &&& p.owner@ == record.owner@
    &&& p.repository@ == record.repository@
    &&& p.canonical_url@ == record.canonical_url@
    &&& p.request_state == record.request_state
    &&& p.job_stage == record.job_stage
    &&& p.job_state == record.job_state
    &&& opt_text_view(p.last_error_code) == opt_text_view(record.last_error_code)
    &&& opt_text_view(p.provider_repository_id) == opt_decimal(record.provider_repository_id)
    &&& opt_text_view(p.default_branch) == opt_text_view(record.default_branch)
    &&& opt_text_view(p.head_sha) == opt_text_view(record.head_sha)
    &&& opt_text_view(p.description) == opt_text_view(record.description)
    &&& p.stars == record.stars
    &&& p.evaluation_status == record.evaluation_status
    &&& p.score_status == record.score_status
    &&& p.next_attempt_at@ == timestamp_text(record.next_attempt_at)
    &&& p.updated_at@ == timestamp_text(record.updated_at)
}

impl HostedProjectStatus {
    /// Publishes a stored status whose instants have RFC 3339 texts.
    pub fn project(record: HostedProjectStatusRecord) -> (r: HostedProjectStatus)
        requires
            formats(record.next_attempt_at),
            formats(record.updated_at),
        ensures
            projects_status(record, r),
    {
        let ghost original = record;
        let next_attempt_at = timestamp(record.next_attempt_at);
        let updated_at = timestamp(record.updated_at);
        let request_id = uuid_hyphenated(record.request_id);
        let provider_repository_id = opt_decimal_text(record.provider_repository_id);
        HostedProjectStatus {
            request_id,
            owner: record.owner,
            repository: record.repository,
            canonical_url: record.canonical_url,
            request_state: record.request_state,
            job_stage: record.job_stage,
            job_state: record.job_state,
            last_error_code: record.last_error_code,
            provider_repository_id,
            default_branch: record.default_branch,
            head_sha: record.head_sha,
            description: record.description,
            stars: record.stars,
            evaluation_status: record.evaluation_status,
            score_status: record.score_status,
            next_attempt_at,
            updated_at,
        }
    }

    /// Publishes a stored status, or gives `None` when one of its instants
    /// has no RFC 3339 text.
    pub fn try_project(record: HostedProjectStatusRecord) -> (r: Option<HostedProjectStatus>)
        ensures
            r is Some <==> formats(record.next_attempt_at) && formats(record.updated_at),
            r matches Some(p) ==> projects_status(record, p),
    {
        if format_rfc3339(record.next_attempt_at).is_some() && format_rfc3339(record.updated_at).is_some() {
            Some(HostedProjectStatus::project(record))
        } else {
            None
        }
    }
}

/// A recently processed source, as the store reads it.
#[derive(Debug)]
pub struct HostedRecentSourceStatusRecord {
    pub owner: String,
    pub repository: String,
    pub canonical_url: String,
    pub provider_repository_id: i64,
    pub description: Option<String>,
    pub stars: Option<i64>,
    pub default_branch: Option<String>,
    pub head_sha: Option<String>,
    pub collection_status: HostedRequestState,
    pub evaluation_status: Option<HostedEvaluationStatus>,
    pub score_status: HostedScoreStatus,
    pub updated_at: HostedTimestamp,
}

/// The published status of a recently processed source.
#[derive(Debug)]
pub struct HostedRecentSourceStatus {
    pub owner: String,
    pub repository: String,
    pub canonical_url: String,
    pub provider_repository_id: String,
    pub description: Option<String>,
    pub stars: Option<i64>,
    pub default_branch: Option<String>,
    pub head_sha: Option<String>,
    pub collection_status: HostedRequestState,
    pub evaluation_status: Option<HostedEvaluationStatus>,
    pub score_status: HostedScoreStatus,
    pub updated_at: String,
}

/// `p` publishes `record`.
pub open spec fn projects_recent_source(record: HostedRecentSourceStatusRecord, p: HostedRecentSourceStatus) -> bool {
    &&& p.owner@ == record.owner@
    &&& p.repository@ == record.repository@
    &&& p.canonical_url@ == record.canonical_url@
    &&& p.provider_repository_id@ == signed_decimal(record.provider_repository_id as int)
    &&& opt_text_view(p.description) == opt_text_view(record.description)
    &&& p.stars == record.stars
    &&& opt_text_view(p.default_branch) == opt_text_view(record.default_branch)
    &&& opt_text_view(p.head_sha) == opt_text_view(record.head_sha)
    &&& p.collection_status == record.collection_status
    &&& p.evaluation_status == record.evaluation_status
    &&& p.score_status == record.score_status
    &&& p.updated_at@ == timestamp_text(record.updated_at)
}

impl HostedRecentSourceStatus {
    /// Publishes a recent source whose instant has an RFC 3339 text.
    pub fn recent_source(record: HostedRecentSourceStatusRecord) -> (r: HostedRecentSourceStatus)
        requires
            formats(record.updated_at),
        ensures
            projects_recent_source(record, r),
    {
        let updated_at = timestamp(record.updated_at);
        let provider_repository_id = signed_decimal_text(record.provider_repository_id);
        HostedRecentSourceStatus {
            owner: record.owner,
            repository: record.repository,
            canonical_url: record.canonical_url,
            provider_repository_id,
            description: record.description,
            stars: record.stars,
            default_branch: record.default_branch,
            head_sha: record.head_sha,
            collection_status: record.collection_status,
            evaluation_status: record.evaluation_status,
            score_status: record.score_status,
            updated_at,
        }
    }

    /// Publishes a recent source, or gives `None` when its instant has no
    /// RFC 3339 text.
    pub fn try_recent_source(record: HostedRecentSourceStatusRecord) -> (r: Option<HostedRecentSourceStatus>)
        ensures
            r is Some <==> formats(record.updated_at),
            r matches Some(p) ==> projects_recent_source(record, p),
    {
        if format_rfc3339(record.updated_at).is_some() {
            Some(HostedRecentSourceStatus::recent_source(record))
        } else {
            None
        }
    }
}

/// The stable storage codes of the hosted request, admission, job,
/// evaluation and score states.
pub proof fn law_hosted_state_codes()
    ensures
        request_state_text(HostedRequestState::Queued) == "queued"@,
        request_state_text(HostedRequestState::Collecting) == "collecting"@,
        request_state_text(HostedRequestState::Partial) == "partial"@,
        request_state_text(HostedRequestState::Complete) == "complete"@,
        request_state_text(HostedRequestState::Unavailable) == "unavailable"@,
        admission_text(HostedAdmission::Admitted) == "admitted"@,
        admission_text(HostedAdmission::JoinedActive) == "joined_active"@,
        admission_text(HostedAdmission::Cooldown) == "cooldown"@,
        job_stage_text(HostedJobStage::Canonicalizing) == "canonicalizing"@,
        job_stage_text(HostedJobStage::Collecting) == "collecting"@,
        job_stage_text(HostedJobStage::Evaluating) == "evaluating"@,
        job_stage_text(HostedJobStage::Publishing) == "publishing"@,
        job_state_text(HostedJobState::Queued) == "queued"@,
        job_state_text(HostedJobState::Running) == "running"@,
        job_state_text(HostedJobState::Partial) == "partial"@,
        job_state_text(HostedJobState::Complete) == "complete"@,
        job_state_text(HostedJobState::Unavailable) == "unavailable"@,
        evaluation_status_text(HostedEvaluationStatus::ValidatedUnpublished) == "validated_unpublished"@,
        evaluation_status_text(HostedEvaluationStatus::Partial) == "partial"@,
        evaluation_status_text(HostedEvaluationStatus::Unavailable) == "unavailable"@,
        score_status_text(HostedScoreStatus::Pending) == "pending"@,
        score_status_text(HostedScoreStatus::Complete) == "complete"@,
        score_status_text(HostedScoreStatus::Partial) == "partial"@,
        score_status_text(HostedScoreStatus::Insufficient) == "insufficient"@,
        score_status_text(HostedScoreStatus::Unavailable) == "unavailable"@,
{
}

} // verus!
