//! The vocabulary of raw repository facts and file classifications: fact
//! kinds, incompleteness reasons, classification categories and tags, their
//! stable machine codes, and the assembly failure kinds.
use vstd::prelude::*;

verus! {

/// Stable category for a raw repository fact.
#[derive(Clone, Copy, Debug, PartialEq, Eq, PartialOrd, Ord, Hash, Structural)]
pub enum RawEvidenceKind {
    RepositorySnapshot,
    TrackedFile,
    HistoryScope,
    ParentDelta,
}

/// The kind component of a raw fact's evidence identifier.
pub open spec fn raw_kind_component(kind: RawEvidenceKind) -> Seq<char> {
    match kind {
        RawEvidenceKind::RepositorySnapshot => "repository-snapshot"@,
        RawEvidenceKind::TrackedFile => "tracked-file"@,
        RawEvidenceKind::HistoryScope => "history-scope"@,
        RawEvidenceKind::ParentDelta => "parent-delta"@,
    }
}

impl RawEvidenceKind {
    pub fn id_component(self) -> (r: &'static str)
        ensures
            r@ == raw_kind_component(self),
    {
        match self {
            RawEvidenceKind::RepositorySnapshot => "repository-snapshot",
            RawEvidenceKind::TrackedFile => "tracked-file",
            RawEvidenceKind::HistoryScope => "history-scope",
            RawEvidenceKind::ParentDelta => "parent-delta",
        }
    }
}

/// How a portable path represents the exact Git path bytes.
#[derive(Clone, Copy, Debug, PartialEq, Eq, PartialOrd, Ord, Hash, Structural)]
pub enum PortablePathEncoding {
    Utf8,
    GitPathHex,
}

/// Portable Git object-format name.
#[derive(Clone, Copy, Debug, PartialEq, Eq, PartialOrd, Ord, Hash, Structural)]
pub enum GitObjectFormatRecord {
    Sha1,
    Sha256,
}

pub open spec fn object_format_text(f: GitObjectFormatRecord) -> Seq<char> {
    match f {
        GitObjectFormatRecord::Sha1 => "sha1"@,
        GitObjectFormatRecord::Sha256 => "sha256"@,
    }
}

impl GitObjectFormatRecord {
    pub fn code(self) -> (r: &'static str)
        ensures
            r@ == object_format_text(self),
    {
        match self {
            GitObjectFormatRecord::Sha1 => "sha1",
            GitObjectFormatRecord::Sha256 => "sha256",
        }
    }
}

/// The Git mode of a tracked entry.
#[derive(Clone, Copy, Debug, PartialEq, Eq, PartialOrd, Ord, Hash, Structural)]
pub enum EntryMode {
    Regular,
    Executable,
    SymbolicLink,
    Gitlink,
}

pub open spec fn entry_mode_text(m: EntryMode) -> Seq<char> {
    match m {
        EntryMode::Regular => "regular"@,
        EntryMode::Executable => "executable"@,
        EntryMode::SymbolicLink => "symbolic_link"@,
        EntryMode::Gitlink => "gitlink"@,
    }
}

impl EntryMode {
    pub fn code(self) -> (r: &'static str)
        ensures
            r@ == entry_mode_text(self),
    {
        match self {
            EntryMode::Regular => "regular",
            EntryMode::Executable => "executable",
            EntryMode::SymbolicLink => "symbolic_link",
            EntryMode::Gitlink => "gitlink",
        }
    }
}

/// The kind of Git object a tracked entry references.
#[derive(Clone, Copy, Debug, PartialEq, Eq, PartialOrd, Ord, Hash, Structural)]
pub enum ObjectKind {
    Blob,
    Commit,
}

pub open spec fn object_kind_text(k: ObjectKind) -> Seq<char> {
    match k {
        ObjectKind::Blob => "blob"@,
        ObjectKind::Commit => "commit"@,
    }
}

impl ObjectKind {
    pub fn code(self) -> (r: &'static str)
        ensures
            r@ == object_kind_text(self),
    {
        match self {
            ObjectKind::Blob => "blob",
            ObjectKind::Commit => "commit",
        }
    }
}

/// Stable reason associated with incomplete raw evidence.
#[derive(Clone, Copy, Debug, PartialEq, Eq, PartialOrd, Ord, Hash, Structural)]
pub enum RawEvidenceIssue {
    GitlinkContent,
    SizeLimit,
    MissingOrUnreadable,
    Timeout,
    OutputLimit,
    MalformedMetadata,
    HistoryDepthLimit,
    ShallowRepository,
    ProcessFailure,
    MalformedOutput,
    RenameCandidateLimit,
}

pub open spec fn raw_issue_text(i: RawEvidenceIssue) -> Seq<char> {
    match i {
        RawEvidenceIssue::GitlinkContent => "gitlink_content"@,
        RawEvidenceIssue::SizeLimit => "size_limit"@,
        RawEvidenceIssue::MissingOrUnreadable => "missing_or_unreadable"@,
        RawEvidenceIssue::Timeout => "timeout"@,
        RawEvidenceIssue::OutputLimit => "output_limit"@,
        RawEvidenceIssue::MalformedMetadata => "malformed_metadata"@,
        RawEvidenceIssue::HistoryDepthLimit => "history_depth_limit"@,
        RawEvidenceIssue::ShallowRepository => "shallow_repository"@,
        RawEvidenceIssue::ProcessFailure => "process_failure"@,
        RawEvidenceIssue::MalformedOutput => "malformed_output"@,
        RawEvidenceIssue::RenameCandidateLimit => "rename_candidate_limit"@,
    }
}

impl RawEvidenceIssue {
    pub fn code(self) -> (r: &'static str)
        ensures
            r@ == raw_issue_text(self),
    {
        match self {
            RawEvidenceIssue::GitlinkContent => "gitlink_content",
            RawEvidenceIssue::SizeLimit => "size_limit",
            RawEvidenceIssue::MissingOrUnreadable => "missing_or_unreadable",
            RawEvidenceIssue::Timeout => "timeout",
            RawEvidenceIssue::OutputLimit => "output_limit",
            RawEvidenceIssue::MalformedMetadata => "malformed_metadata",
            RawEvidenceIssue::HistoryDepthLimit => "history_depth_limit",
            RawEvidenceIssue::ShallowRepository => "shallow_repository",
            RawEvidenceIssue::ProcessFailure => "process_failure",
            RawEvidenceIssue::MalformedOutput => "malformed_output",
            RawEvidenceIssue::RenameCandidateLimit => "rename_candidate_limit",
        }
    }
}

/// Why first-parent delta evidence is incomplete.
#[derive(Clone, Copy, Debug, PartialEq, Eq, PartialOrd, Ord, Hash, Structural)]
pub enum ParentDeltaIssue {
    RenameCandidateLimit,
    ShallowRepository,
    ProcessFailure,
    MalformedOutput,
}

impl ParentDeltaIssue {
    /// The raw-evidence reason of a delta issue.
    pub open spec fn spec_raw(self) -> RawEvidenceIssue {
        match self {
            ParentDeltaIssue::RenameCandidateLimit => RawEvidenceIssue::RenameCandidateLimit,
            ParentDeltaIssue::ShallowRepository => RawEvidenceIssue::ShallowRepository,
            ParentDeltaIssue::ProcessFailure => RawEvidenceIssue::ProcessFailure,
            ParentDeltaIssue::MalformedOutput => RawEvidenceIssue::MalformedOutput,
        }
    }

    pub fn to_raw(self) -> (r: RawEvidenceIssue)
        ensures
            r == self.spec_raw(),
    {
        match self {
            ParentDeltaIssue::RenameCandidateLimit => RawEvidenceIssue::RenameCandidateLimit,
            ParentDeltaIssue::ShallowRepository => RawEvidenceIssue::ShallowRepository,
            ParentDeltaIssue::ProcessFailure => RawEvidenceIssue::ProcessFailure,
            ParentDeltaIssue::MalformedOutput => RawEvidenceIssue::MalformedOutput,
        }
    }
}

/// Stable classification category.
#[derive(Clone, Copy, Debug, PartialEq, Eq, PartialOrd, Ord, Hash, Structural)]
pub enum ClassificationCategoryRecord {
    ProductionCode,
    Test,
    Documentation,
    CiCd,
    Infrastructure,
    SchemaMigration,
    Dependency,
    SecurityPolicy,
    Configuration,
    Generated,
    Vendored,
    BuildOutput,
    Coverage,
    Unknown,
}

pub open spec fn category_text(c: ClassificationCategoryRecord) -> Seq<char> {
    match c {
        ClassificationCategoryRecord::ProductionCode => "production_code"@,
        ClassificationCategoryRecord::Test => "test"@,
        ClassificationCategoryRecord::Documentation => "documentation"@,
        ClassificationCategoryRecord::CiCd => "ci_cd"@,
        ClassificationCategoryRecord::Infrastructure => "infrastructure"@,
        ClassificationCategoryRecord::SchemaMigration => "schema_migration"@,
        ClassificationCategoryRecord::Dependency => "dependency"@,
        ClassificationCategoryRecord::SecurityPolicy => "security_policy"@,
        ClassificationCategoryRecord::Configuration => "configuration"@,
        ClassificationCategoryRecord::Generated => "generated"@,
        ClassificationCategoryRecord::Vendored => "vendored"@,
        ClassificationCategoryRecord::BuildOutput => "build_output"@,
        ClassificationCategoryRecord::Coverage => "coverage"@,
        ClassificationCategoryRecord::Unknown => "unknown"@,
    }
}

impl ClassificationCategoryRecord {
    /// The code hashed into classification evidence identifiers.
    pub fn code(self) -> (r: &'static str)
        ensures
            r@ == category_text(self),
    {
        match self {
            ClassificationCategoryRecord::ProductionCode => "production_code",
            ClassificationCategoryRecord::Test => "test",
            ClassificationCategoryRecord::Documentation => "documentation",
            ClassificationCategoryRecord::CiCd => "ci_cd",
            ClassificationCategoryRecord::Infrastructure => "infrastructure",
            ClassificationCategoryRecord::SchemaMigration => "schema_migration",
            ClassificationCategoryRecord::Dependency => "dependency",
            ClassificationCategoryRecord::SecurityPolicy => "security_policy",
            ClassificationCategoryRecord::Configuration => "configuration",
            ClassificationCategoryRecord::Generated => "generated",
            ClassificationCategoryRecord::Vendored => "vendored",
            ClassificationCategoryRecord::BuildOutput => "build_output",
            ClassificationCategoryRecord::Coverage => "coverage",
            ClassificationCategoryRecord::Unknown => "unknown",
        }
    }
}

/// Stable classification tag.
#[derive(Clone, Copy, Debug, PartialEq, Eq, PartialOrd, Ord, Hash, Structural)]
pub enum ClassificationTagRecord {
    DependencyManifest,
    Lockfile,
    LinguistGenerated,
    LinguistVendored,
    GeneratedSuppressed,
    VendoredSuppressed,
    AttributesUnavailable,
    Minified,
}

/// The declaration position of a tag, which is its canonical order.
pub open spec fn tag_rank(t: ClassificationTagRecord) -> int {
    match t {
        ClassificationTagRecord::DependencyManifest => 0,
        ClassificationTagRecord::Lockfile => 1,
        ClassificationTagRecord::LinguistGenerated => 2,
        ClassificationTagRecord::LinguistVendored => 3,
        ClassificationTagRecord::GeneratedSuppressed => 4,
        ClassificationTagRecord::VendoredSuppressed => 5,
        ClassificationTagRecord::AttributesUnavailable => 6,
        ClassificationTagRecord::Minified => 7,
    }
}

pub open spec fn tag_text(t: ClassificationTagRecord) -> Seq<char> {
    match t {
        ClassificationTagRecord::DependencyManifest => "dependency_manifest"@,
        ClassificationTagRecord::Lockfile => "lockfile"@,
        ClassificationTagRecord::LinguistGenerated => "linguist_generated"@,
        ClassificationTagRecord::LinguistVendored => "linguist_vendored"@,
        ClassificationTagRecord::GeneratedSuppressed => "generated_suppressed"@,
        ClassificationTagRecord::VendoredSuppressed => "vendored_suppressed"@,
        ClassificationTagRecord::AttributesUnavailable => "attributes_unavailable"@,
        ClassificationTagRecord::Minified => "minified"@,
    }
}

impl ClassificationTagRecord {
    pub fn code(self) -> (r: &'static str)
        ensures
            r@ == tag_text(self),
    {
        match self {
            ClassificationTagRecord::DependencyManifest => "dependency_manifest",
            ClassificationTagRecord::Lockfile => "lockfile",
            ClassificationTagRecord::LinguistGenerated => "linguist_generated",
            ClassificationTagRecord::LinguistVendored => "linguist_vendored",
            ClassificationTagRecord::GeneratedSuppressed => "generated_suppressed",
            ClassificationTagRecord::VendoredSuppressed => "vendored_suppressed",
            ClassificationTagRecord::AttributesUnavailable => "attributes_unavailable",
            ClassificationTagRecord::Minified => "minified",
        }
    }

    pub fn rank(self) -> (r: u8)
        ensures
            r as int == tag_rank(self),
    {
        match self {
            ClassificationTagRecord::DependencyManifest => 0,
            ClassificationTagRecord::Lockfile => 1,
            ClassificationTagRecord::LinguistGenerated => 2,
            ClassificationTagRecord::LinguistVendored => 3,
            ClassificationTagRecord::GeneratedSuppressed => 4,
            ClassificationTagRecord::VendoredSuppressed => 5,
            ClassificationTagRecord::AttributesUnavailable => 6,
            ClassificationTagRecord::Minified => 7,
        }
    }
}

/// Stable classification-provenance kind.
#[derive(Clone, Copy, Debug, PartialEq, Eq, PartialOrd, Ord, Hash, Structural)]
pub enum ClassificationEvidenceKindRecord {
    PolicyRule,
    LinguistAttribute,
    AttributeFactsUnavailable,
}

pub open spec fn evidence_kind_rank(k: ClassificationEvidenceKindRecord) -> int {
    match k {
        ClassificationEvidenceKindRecord::PolicyRule => 0,
        ClassificationEvidenceKindRecord::LinguistAttribute => 1,
        ClassificationEvidenceKindRecord::AttributeFactsUnavailable => 2,
    }
}

pub open spec fn evidence_kind_text(k: ClassificationEvidenceKindRecord) -> Seq<char> {
    match k {
        ClassificationEvidenceKindRecord::PolicyRule => "policy_rule"@,
        ClassificationEvidenceKindRecord::LinguistAttribute => "linguist_attribute"@,
        ClassificationEvidenceKindRecord::AttributeFactsUnavailable => "attribute_facts_unavailable"@,
    }
}

impl ClassificationEvidenceKindRecord {
    pub fn code(self) -> (r: &'static str)
        ensures
            r@ == evidence_kind_text(self),
    {
        match self {
            ClassificationEvidenceKindRecord::PolicyRule => "policy_rule",
            ClassificationEvidenceKindRecord::LinguistAttribute => "linguist_attribute",
            ClassificationEvidenceKindRecord::AttributeFactsUnavailable => "attribute_facts_unavailable",
        }
    }

    pub fn rank(self) -> (r: u8)
        ensures
            r as int == evidence_kind_rank(self),
    {
        match self {
            ClassificationEvidenceKindRecord::PolicyRule => 0,
            ClassificationEvidenceKindRecord::LinguistAttribute => 1,
            ClassificationEvidenceKindRecord::AttributeFactsUnavailable => 2,
        }
    }
}

/// Explicit reason why usable classification is partial or absent.
#[derive(Clone, Copy, Debug, PartialEq, Eq, PartialOrd, Ord, Hash, Structural)]
pub enum ClassificationAvailabilityReason {
    AttributesUnavailable,
    MissingClassification,
    NonPortablePath,
}

pub open spec fn availability_reason_text(r: ClassificationAvailabilityReason) -> Seq<char> {
    match r {
        ClassificationAvailabilityReason::AttributesUnavailable => "attributes_unavailable"@,
        ClassificationAvailabilityReason::MissingClassification => "missing_classification"@,
        ClassificationAvailabilityReason::NonPortablePath => "non_portable_path"@,
    }
}

impl ClassificationAvailabilityReason {
    pub fn code(self) -> (r: &'static str)
        ensures
            r@ == availability_reason_text(self),
    {
        match self {
            ClassificationAvailabilityReason::AttributesUnavailable => "attributes_unavailable",
            ClassificationAvailabilityReason::MissingClassification => "missing_classification",
            ClassificationAvailabilityReason::NonPortablePath => "non_portable_path",
        }
    }
}

/// Stable redacted assembly failure category.
#[derive(Clone, Copy, Debug, PartialEq, Eq, Structural)]
pub enum EvidenceAssemblyErrorKind {
    DuplicateClassification,
    ClassificationSnapshotMismatch,
    MixedClassificationPolicy,
    EvidenceIdGeneration,
    EvidenceIdCollision,
}

/// Redacted assembly failure that never retains a path, source, or object ID.
#[derive(Clone, Copy, Debug, PartialEq, Eq, Structural)]
pub struct EvidenceAssemblyError {
    pub kind: EvidenceAssemblyErrorKind,
}

impl EvidenceAssemblyError {
    pub fn new(kind: EvidenceAssemblyErrorKind) -> (r: EvidenceAssemblyError)
        ensures
            r.kind == kind,
    {
        EvidenceAssemblyError { kind }
    }

    /// Returns the stable non-sensitive failure category.
    pub fn kind(&self) -> (r: EvidenceAssemblyErrorKind)
        ensures
            r == self.kind,
    {
        self.kind
    }
}

/// The counts a first-parent delta publishes: both counts only when the
/// delta is complete; the changed-entry count alone when only rename
/// detection hit its candidate limit; nothing otherwise.
pub open spec fn delta_values_spec(
    status: crate::domain::EvidenceStatus,
    issue: Option<ParentDeltaIssue>,
    changed_entries: usize,
    renames: usize,
) -> (Option<usize>, Option<usize>) {
    match (status, issue) {
        (crate::domain::EvidenceStatus::Complete, None) => (Some(changed_entries), Some(renames)),
        (crate::domain::EvidenceStatus::Partial, Some(ParentDeltaIssue::RenameCandidateLimit)) => (
            Some(changed_entries),
            None,
        ),
        _ => (None, None),
    }
}

/// Keeps only the delta counts that were actually observed.
pub fn parent_delta_values(
    status: crate::domain::EvidenceStatus,
    issue: Option<ParentDeltaIssue>,
    changed_entries: usize,
    renames: usize,
) -> (r: (Option<usize>, Option<usize>))
    ensures
        r == delta_values_spec(status, issue, changed_entries, renames),
{
    match (status, issue) {
        (crate::domain::EvidenceStatus::Complete, None) => (Some(changed_entries), Some(renames)),
        (crate::domain::EvidenceStatus::Partial, Some(ParentDeltaIssue::RenameCandidateLimit)) => (
            Some(changed_entries),
            None,
        ),
        _ => (None, None),
    }
}

/// The stable machine codes of the evidence vocabulary: raw-fact kinds,
/// object formats, entry modes, object kinds, collection issues,
/// classification categories and tags, provenance kinds and availability
/// reasons.
pub proof fn law_evidence_codes()
    ensures
        raw_kind_component(RawEvidenceKind::RepositorySnapshot) == "repository-snapshot"@,
        raw_kind_component(RawEvidenceKind::TrackedFile) == "tracked-file"@,
        raw_kind_component(RawEvidenceKind::HistoryScope) == "history-scope"@,
        raw_kind_component(RawEvidenceKind::ParentDelta) == "parent-delta"@,
        object_format_text(GitObjectFormatRecord::Sha1) == "sha1"@,
        object_format_text(GitObjectFormatRecord::Sha256) == "sha256"@,
        entry_mode_text(EntryMode::Regular) == "regular"@,
        entry_mode_text(EntryMode::Executable) == "executable"@,
        entry_mode_text(EntryMode::SymbolicLink) == "symbolic_link"@,
        entry_mode_text(EntryMode::Gitlink) == "gitlink"@,
        object_kind_text(ObjectKind::Blob) == "blob"@,
        object_kind_text(ObjectKind::Commit) == "commit"@,
        raw_issue_text(RawEvidenceIssue::GitlinkContent) == "gitlink_content"@,
        raw_issue_text(RawEvidenceIssue::SizeLimit) == "size_limit"@,
        raw_issue_text(RawEvidenceIssue::MissingOrUnreadable) == "missing_or_unreadable"@,
        raw_issue_text(RawEvidenceIssue::Timeout) == "timeout"@,
        raw_issue_text(RawEvidenceIssue::OutputLimit) == "output_limit"@,
        raw_issue_text(RawEvidenceIssue::MalformedMetadata) == "malformed_metadata"@,
        raw_issue_text(RawEvidenceIssue::HistoryDepthLimit) == "history_depth_limit"@,
        raw_issue_text(RawEvidenceIssue::ShallowRepository) == "shallow_repository"@,
        raw_issue_text(RawEvidenceIssue::ProcessFailure) == "process_failure"@,
        raw_issue_text(RawEvidenceIssue::MalformedOutput) == "malformed_output"@,
        raw_issue_text(RawEvidenceIssue::RenameCandidateLimit) == "rename_candidate_limit"@,
        category_text(ClassificationCategoryRecord::ProductionCode) == "production_code"@,
        category_text(ClassificationCategoryRecord::Test) == "test"@,
        category_text(ClassificationCategoryRecord::Documentation) == "documentation"@,
        category_text(ClassificationCategoryRecord::CiCd) == "ci_cd"@,
        category_text(ClassificationCategoryRecord::Infrastructure) == "infrastructure"@,
        category_text(ClassificationCategoryRecord::SchemaMigration) == "schema_migration"@,
        category_text(ClassificationCategoryRecord::Dependency) == "dependency"@,
        category_text(ClassificationCategoryRecord::SecurityPolicy) == "security_policy"@,
        category_text(ClassificationCategoryRecord::Configuration) == "configuration"@,
        category_text(ClassificationCategoryRecord::Generated) == "generated"@,
        category_text(ClassificationCategoryRecord::Vendored) == "vendored"@,
        category_text(ClassificationCategoryRecord::BuildOutput) == "build_output"@,
        category_text(ClassificationCategoryRecord::Coverage) == "coverage"@,
        category_text(ClassificationCategoryRecord::Unknown) == "unknown"@,
        tag_text(ClassificationTagRecord::DependencyManifest) == "dependency_manifest"@,
        tag_text(ClassificationTagRecord::Lockfile) == "lockfile"@,
        tag_text(ClassificationTagRecord::LinguistGenerated) == "linguist_generated"@,
        tag_text(ClassificationTagRecord::LinguistVendored) == "linguist_vendored"@,
        tag_text(ClassificationTagRecord::GeneratedSuppressed) == "generated_suppressed"@,
        tag_text(ClassificationTagRecord::VendoredSuppressed) == "vendored_suppressed"@,
        tag_text(ClassificationTagRecord::AttributesUnavailable) == "attributes_unavailable"@,
        tag_text(ClassificationTagRecord::Minified) == "minified"@,
        evidence_kind_text(ClassificationEvidenceKindRecord::PolicyRule) == "policy_rule"@,
        evidence_kind_text(ClassificationEvidenceKindRecord::LinguistAttribute) == "linguist_attribute"@,
        evidence_kind_text(ClassificationEvidenceKindRecord::AttributeFactsUnavailable) == "attribute_facts_unavailable"@,
        availability_reason_text(ClassificationAvailabilityReason::AttributesUnavailable) == "attributes_unavailable"@,
        availability_reason_text(ClassificationAvailabilityReason::MissingClassification) == "missing_classification"@,
        availability_reason_text(ClassificationAvailabilityReason::NonPortablePath) == "non_portable_path"@,
{
}

} // verus!
