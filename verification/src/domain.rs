//! Shared domain values: evidence identifiers and availability, repository
//! sources and revisions, and the project type, maturity and rubric
//! vocabulary that classification and comparison speak in.
use vstd::prelude::*;

use crate::sorted::Keyed;
use crate::text::{owned, text_eq, utf8};

verus! {

/// Availability of one piece of evidence; absence is never a numeric zero.
#[derive(Clone, Copy, Debug, PartialEq, Eq, Structural)]
pub enum EvidenceStatus {
    Complete,
    Partial,
    Unavailable,
    Unsupported,
    Insufficient,
    Pending,
}

/// The machine code of an availability state.
pub open spec fn evidence_status_text(status: EvidenceStatus) -> Seq<char> {
    match status {
        EvidenceStatus::Complete => "complete"@,
        EvidenceStatus::Partial => "partial"@,
        EvidenceStatus::Unavailable => "unavailable"@,
        EvidenceStatus::Unsupported => "unsupported"@,
        EvidenceStatus::Insufficient => "insufficient"@,
        EvidenceStatus::Pending => "pending"@,
    }
}

impl EvidenceStatus {
    /// Returns the stable snake_case machine code.
    pub fn code(self) -> (r: &'static str)
        ensures
            r@ == evidence_status_text(self),
    {
        match self {
            EvidenceStatus::Complete => "complete",
            EvidenceStatus::Partial => "partial",
            EvidenceStatus::Unavailable => "unavailable",
            EvidenceStatus::Unsupported => "unsupported",
            EvidenceStatus::Insufficient => "insufficient",
            EvidenceStatus::Pending => "pending",
        }
    }

    /// Whether the evidence can be used, completely or in part.
    pub open spec fn spec_is_usable(self) -> bool {
        self == EvidenceStatus::Complete || self == EvidenceStatus::Partial
    }

    pub fn is_usable(self) -> (r: bool)
        ensures
            r == self.spec_is_usable(),
    {
        match self {
            EvidenceStatus::Complete | EvidenceStatus::Partial => true,
            _ => false,
        }
    }
}

/// Availability of a whole analysis.
#[derive(Clone, Copy, Debug, PartialEq, Eq, Structural)]
pub enum AnalysisStatus {
    Complete,
    Partial,
    Unavailable,
    Unsupported,
    Insufficient,
    Pending,
}

pub open spec fn analysis_status_text(status: AnalysisStatus) -> Seq<char> {
    match status {
        AnalysisStatus::Complete => "complete"@,
        AnalysisStatus::Partial => "partial"@,
        AnalysisStatus::Unavailable => "unavailable"@,
        AnalysisStatus::Unsupported => "unsupported"@,
        AnalysisStatus::Insufficient => "insufficient"@,
        AnalysisStatus::Pending => "pending"@,
    }
}

impl AnalysisStatus {
    /// Returns the stable snake_case machine code.
    pub fn code(self) -> (r: &'static str)
        ensures
            r@ == analysis_status_text(self),
    {
        match self {
            AnalysisStatus::Complete => "complete",
            AnalysisStatus::Partial => "partial",
            AnalysisStatus::Unavailable => "unavailable",
            AnalysisStatus::Unsupported => "unsupported",
            AnalysisStatus::Insufficient => "insufficient",
            AnalysisStatus::Pending => "pending",
        }
    }
}

/// A byte allowed inside an evidence identifier segment.
pub open spec fn evidence_id_byte(b: u8) -> bool {
    (97 <= b <= 122) || (48 <= b <= 57) || b == 46 || b == 45 || b == 95
}

/// `evidence:` followed by at least two non-empty colon-separated segments
/// of lowercase letters, digits, `.`, `-` and `_`.
pub open spec fn valid_evidence_id_bytes(b: Seq<u8>) -> bool {
    &&& b.len() > 9
    &&& b.subrange(0, 9) == utf8("evidence:"@)
    &&& forall|i: int| 9 <= i < b.len() ==> evidence_id_byte(#[trigger] b[i]) || b[i] == 58
    &&& b[9] != 58
    &&& b[b.len() - 1] != 58
    &&& forall|i: int| 9 <= i < b.len() - 1 ==> !(#[trigger] b[i] == 58 && b[i + 1] == 58)
    &&& exists|i: int| 9 <= i < b.len() && #[trigger] b[i] == 58
}

pub open spec fn valid_evidence_id(id: Seq<char>) -> bool {
    valid_evidence_id_bytes(utf8(id))
}

fn evidence_prefix_matches(b: &[u8]) -> (r: bool)
    requires
        b@.len() >= 9,
    ensures
        r == (b@.subrange(0, 9) == utf8("evidence:"@)),
{
    let p = "evidence:".as_bytes();
    assert(p@ == utf8("evidence:"@));
    if p.len() != 9 {
        assert(b@.subrange(0, 9).len() != p@.len());
        return false;
    }
    let mut i: usize = 0;
    while i < 9
        invariant
            p@ == utf8("evidence:"@),
            p@.len() == 9,
            b@.len() >= 9,
            i <= 9,
            forall|j: int| 0 <= j < i ==> b@[j] == p@[j],
        decreases 9 - i,
    {
        if b[i] != p[i] {
            assert(b@.subrange(0, 9)[i as int] == b@[i as int]);
            assert(b@.subrange(0, 9) != p@);
            return false;
        }
        i = i + 1;
    }
    assert(b@.subrange(0, 9) =~= p@);
    true
}

/// Checks the evidence identifier grammar.
pub fn is_valid_evidence_id(id: &str) -> (r: bool)
    ensures
        r == valid_evidence_id(id@),
{
    let b = id.as_bytes();
    let n = b.len();
    if n <= 9 {
        return false;
    }
    if !evidence_prefix_matches(b) {
        return false;
    }
    if b[9] == 58 || b[n - 1] == 58 {
        return false;
    }
    let mut colons: usize = 0;
    let mut i: usize = 9;
    while i < n
        invariant
            b@ == utf8(id@),
            n == b@.len(),
            9 <= i <= n,
            colons <= i,
            forall|j: int| 9 <= j < i ==> evidence_id_byte(#[trigger] b@[j]) || b@[j] == 58,
            forall|j: int| 9 <= j < i && j < n - 1 ==> !(#[trigger] b@[j] == 58 && b@[j + 1] == 58),
            colons > 0 <==> exists|j: int| 9 <= j < i && #[trigger] b@[j] == 58,
        decreases n - i,
    {
        let c = b[i];
        let allowed = (97 <= c && c <= 122) || (48 <= c && c <= 57) || c == 46 || c == 45 || c
            == 95;
        if !allowed && c != 58 {
            return false;
        }
        if c == 58 && i + 1 < n && b[i + 1] == 58 {
            return false;
        }
        if c == 58 {
            colons = colons + 1;
        }
        i = i + 1;
    }
    colons > 0
}

/// A versioned, content-derived evidence identifier.
#[derive(Clone, Debug, PartialEq, Eq)]
pub struct EvidenceId {
    pub(crate) value: String,
}

impl EvidenceId {
    pub closed spec fn view(&self) -> Seq<char> {
        self.value@
    }

    /// Parses an identifier, rejecting text outside the identifier grammar.
    pub fn parse(value: &str) -> (r: Option<EvidenceId>)
        ensures
            r is Some <==> valid_evidence_id(value@),
            r matches Some(id) ==> id.view() == value@,
    {
        if is_valid_evidence_id(value) {
            Some(EvidenceId { value: owned(value) })
        } else {
            None
        }
    }

    /// Returns the identifier text.
    pub fn as_str(&self) -> (r: &str)
        ensures
            r@ == self.view(),
    {
        self.value.as_str()
    }

    /// Returns a copy with the same text.
    pub fn copy(&self) -> (r: EvidenceId)
        ensures
            r.view() == self.view(),
    {
        EvidenceId { value: owned(self.value.as_str()) }
    }
}

impl Keyed for EvidenceId {
    open spec fn key_view(&self) -> Seq<char> {
        self.view()
    }

    fn key(&self) -> (r: &str) {
        self.value.as_str()
    }
}

/// The texts of a sequence of evidence identifiers.
pub open spec fn ids_view(ids: Seq<EvidenceId>) -> Seq<Seq<char>> {
    ids.map_values(|id: EvidenceId| id.view())
}

/// A lowercase hexadecimal digit byte.
pub open spec fn lower_hex_byte(b: u8) -> bool {
    (48 <= b <= 57) || (97 <= b <= 102)
}

fn all_lower_hex(b: &[u8], from: usize) -> (r: bool)
    requires
        from <= b@.len(),
    ensures
        r == forall|i: int| from <= i < b@.len() ==> lower_hex_byte(#[trigger] b@[i]),
{
    let mut i = from;
    while i < b.len()
        invariant
            from <= i <= b@.len(),
            forall|j: int| from <= j < i ==> lower_hex_byte(#[trigger] b@[j]),
        decreases b.len() - i,
    {
        let c = b[i];
        if !((48 <= c && c <= 57) || (97 <= c && c <= 102)) {
            return false;
        }
        i = i + 1;
    }
    true
}

/// An immutable Git object or commit identifier: 40 (SHA-1) or 64 (SHA-256)
/// lowercase hexadecimal digits.
pub open spec fn valid_revision_id(id: Seq<char>) -> bool {
    let b = utf8(id);
    (b.len() == 40 || b.len() == 64) && forall|i: int| 0 <= i < b.len() ==> lower_hex_byte(
        #[trigger] b[i],
    )
}

/// An immutable repository revision.
#[derive(Clone, Debug, PartialEq, Eq)]
pub struct RevisionId {
    pub(crate) value: String,
}

impl RevisionId {
    pub closed spec fn view(&self) -> Seq<char> {
        self.value@
    }

    /// Parses a revision identifier.
    pub fn parse(value: &str) -> (r: Option<RevisionId>)
        ensures
            r is Some <==> valid_revision_id(value@),
            r matches Some(id) ==> id.view() == value@,
    {
        let b = value.as_bytes();
        if (b.len() == 40 || b.len() == 64) && all_lower_hex(b, 0) {
            Some(RevisionId { value: owned(value) })
        } else {
            None
        }
    }

    pub fn as_str(&self) -> (r: &str)
        ensures
            r@ == self.view(),
    {
        self.value.as_str()
    }

    pub fn copy(&self) -> (r: RevisionId)
        ensures
            r.view() == self.view(),
    {
        RevisionId { value: owned(self.value.as_str()) }
    }
}

/// `sha256:` followed by 64 lowercase hexadecimal digits.
pub open spec fn valid_content_hash(text: Seq<char>) -> bool {
    let b = utf8(text);
    &&& b.len() == 71
    &&& b.subrange(0, 7) == utf8("sha256:"@)
    &&& forall|i: int| 7 <= i < b.len() ==> lower_hex_byte(#[trigger] b[i])
}

/// A complete SHA-256 content digest.
#[derive(Clone, Debug, PartialEq, Eq)]
pub struct ContentHash {
    pub(crate) value: String,
}

impl ContentHash {
    pub closed spec fn view(&self) -> Seq<char> {
        self.value@
    }

    /// Parses a `sha256:<hex>` content hash.
    pub fn parse(value: &str) -> (r: Option<ContentHash>)
        ensures
            r is Some <==> valid_content_hash(value@),
            r matches Some(h) ==> h.view() == value@,
    {
        let b = value.as_bytes();
        if b.len() != 71 {
            return None;
        }
        let p = "sha256:".as_bytes();
        assert(p@ == utf8("sha256:"@));
        if p.len() != 7 {
            return None;
        }
        let mut i: usize = 0;
        while i < 7
            invariant
                p@ == utf8("sha256:"@),
                b@ == utf8(value@),
                p@.len() == 7,
                b@.len() == 71,
                i <= 7,
                forall|j: int| 0 <= j < i ==> b@[j] == p@[j],
            decreases 7 - i,
        {
            if b[i] != p[i] {
                assert(b@.subrange(0, 7)[i as int] == b@[i as int]);
                assert(b@.subrange(0, 7) != p@);
                return None;
            }
            i = i + 1;
        }
        assert(b@.subrange(0, 7) =~= p@);
        if all_lower_hex(b, 7) {
            Some(ContentHash { value: owned(value) })
        } else {
            None
        }
    }

    pub fn as_str(&self) -> (r: &str)
        ensures
            r@ == self.view(),
    {
        self.value.as_str()
    }

    pub fn copy(&self) -> (r: ContentHash)
        ensures
            r.view() == self.view(),
    {
        ContentHash { value: owned(self.value.as_str()) }
    }
}

/// Where a repository comes from: a path-free local identifier, or a hosted
/// `provider/namespace/repository` locator.
#[derive(Clone, Debug, PartialEq, Eq)]
pub enum RepositorySource {
    Local { repository_id: ContentHash },
    Hosted { provider: String, namespace: String, repository: String },
}

/// The abstract value of a repository source.
pub ghost enum SourceView {
    Local(Seq<char>),
    Hosted(Seq<char>, Seq<char>, Seq<char>),
}

impl RepositorySource {
    pub open spec fn view(&self) -> SourceView {
        match self {
            RepositorySource::Local { repository_id } => SourceView::Local(repository_id.view()),
            RepositorySource::Hosted { provider, namespace, repository } => SourceView::Hosted(
                provider@,
                namespace@,
                repository@,
            ),
        }
    }

    /// A local source identified by its content-derived repository id.
    pub fn local(repository_id: ContentHash) -> (r: RepositorySource)
        ensures
            r.view() == SourceView::Local(repository_id.view()),
    {
        RepositorySource::Local { repository_id }
    }

    /// A hosted source; every component must be non-empty.
    pub fn hosted(provider: &str, namespace: &str, repository: &str) -> (r: Option<
        RepositorySource,
    >)
        ensures
            r is Some <==> (provider@.len() > 0 && namespace@.len() > 0 && repository@.len() > 0),
            r matches Some(s) ==> s.view() == SourceView::Hosted(
                provider@,
                namespace@,
                repository@,
            ),
    {
        if provider.is_empty() || namespace.is_empty() || repository.is_empty() {
            None
        } else {
            Some(
                RepositorySource::Hosted {
                    provider: owned(provider),
                    namespace: owned(namespace),
                    repository: owned(repository),
                },
            )
        }
    }

    /// Returns the hosted locator, absent for a local source.
    pub fn hosted_locator(&self) -> (r: Option<(&str, &str, &str)>)
        ensures
            r is Some <==> self.view() is Hosted,
            r matches Some((p, n, q)) ==> self.view() == SourceView::Hosted(p@, n@, q@),
    {
        match self {
            RepositorySource::Hosted { provider, namespace, repository } => Some(
                (provider.as_str(), namespace.as_str(), repository.as_str()),
            ),
            RepositorySource::Local { .. } => None,
        }
    }

    /// Returns the local repository identifier, absent for a hosted source.
    pub fn local_repository_id(&self) -> (r: Option<&ContentHash>)
        ensures
            r is Some <==> self.view() is Local,
            r matches Some(h) ==> self.view() == SourceView::Local(h.view()),
    {
        match self {
            RepositorySource::Local { repository_id } => Some(repository_id),
            RepositorySource::Hosted { .. } => None,
        }
    }

    pub fn copy(&self) -> (r: RepositorySource)
        ensures
            r.view() == self.view(),
    {
        match self {
            RepositorySource::Local { repository_id } => RepositorySource::Local {
                repository_id: repository_id.copy(),
            },
            RepositorySource::Hosted { provider, namespace, repository } => RepositorySource::Hosted {
                provider: owned(provider.as_str()),
                namespace: owned(namespace.as_str()),
                repository: owned(repository.as_str()),
            },
        }
    }

    /// Whether two sources are the same.
    pub fn same_as(&self, other: &RepositorySource) -> (r: bool)
        ensures
            r == (self.view() == other.view()),
    {
        match (self, other) {
            (RepositorySource::Local { repository_id: a }, RepositorySource::Local {
                repository_id: b,
            }) => text_eq(a.as_str(), b.as_str()),
            (
                RepositorySource::Hosted { provider: p1, namespace: n1, repository: r1 },
                RepositorySource::Hosted { provider: p2, namespace: n2, repository: r2 },
            ) => text_eq(p1.as_str(), p2.as_str()) && text_eq(n1.as_str(), n2.as_str()) && text_eq(
                r1.as_str(),
                r2.as_str(),
            ),
            _ => false,
        }
    }
}

/// The delivery form or artifact kind of a project.
#[derive(Clone, Copy, Debug, PartialEq, Eq, PartialOrd, Ord, Hash, Structural)]
pub enum ProjectType {
    CuratedResource,
    ProtocolSpecificationStandard,
    DatasetModelResearchArtifact,
    EducationalExampleTemplate,
    ExperimentalProofOfConcept,
    ServiceInfrastructurePlatform,
    CliDeveloperTool,
    LibrarySdkFramework,
    Application,
}

/// The position of a type in declaration order, which is also the
/// primary-type priority order.
pub open spec fn type_rank(t: ProjectType) -> int {
    match t {
        ProjectType::CuratedResource => 0,
        ProjectType::ProtocolSpecificationStandard => 1,
        ProjectType::DatasetModelResearchArtifact => 2,
        ProjectType::EducationalExampleTemplate => 3,
        ProjectType::ExperimentalProofOfConcept => 4,
        ProjectType::ServiceInfrastructurePlatform => 5,
        ProjectType::CliDeveloperTool => 6,
        ProjectType::LibrarySdkFramework => 7,
        ProjectType::Application => 8,
    }
}

pub fn type_rank_exec(t: ProjectType) -> (r: u8)
    ensures
        r as int == type_rank(t),
{
    match t {
        ProjectType::CuratedResource => 0,
        ProjectType::ProtocolSpecificationStandard => 1,
        ProjectType::DatasetModelResearchArtifact => 2,
        ProjectType::EducationalExampleTemplate => 3,
        ProjectType::ExperimentalProofOfConcept => 4,
        ProjectType::ServiceInfrastructurePlatform => 5,
        ProjectType::CliDeveloperTool => 6,
        ProjectType::LibrarySdkFramework => 7,
        ProjectType::Application => 8,
    }
}

/// The project type with a given rank.
pub open spec fn type_at_rank(r: int) -> ProjectType {
    if r == 0 {
        ProjectType::CuratedResource
    } else if r == 1 {
        ProjectType::ProtocolSpecificationStandard
    } else if r == 2 {
        ProjectType::DatasetModelResearchArtifact
    } else if r == 3 {
        ProjectType::EducationalExampleTemplate
    } else if r == 4 {
        ProjectType::ExperimentalProofOfConcept
    } else if r == 5 {
        ProjectType::ServiceInfrastructurePlatform
    } else if r == 6 {
        ProjectType::CliDeveloperTool
    } else if r == 7 {
        ProjectType::LibrarySdkFramework
    } else {
        ProjectType::Application
    }
}

pub fn type_at_rank_exec(r: u8) -> (t: ProjectType)
    requires
        r < 9,
    ensures
        t == type_at_rank(r as int),
        type_rank(t) == r,
{
    if r == 0 {
        ProjectType::CuratedResource
    } else if r == 1 {
        ProjectType::ProtocolSpecificationStandard
    } else if r == 2 {
        ProjectType::DatasetModelResearchArtifact
    } else if r == 3 {
        ProjectType::EducationalExampleTemplate
    } else if r == 4 {
        ProjectType::ExperimentalProofOfConcept
    } else if r == 5 {
        ProjectType::ServiceInfrastructurePlatform
    } else if r == 6 {
        ProjectType::CliDeveloperTool
    } else if r == 7 {
        ProjectType::LibrarySdkFramework
    } else {
        ProjectType::Application
    }
}

/// A project lifecycle stage.
#[derive(Clone, Copy, Debug, PartialEq, Eq, PartialOrd, Ord, Hash, Structural)]
pub enum ProjectMaturity {
    Concept,
    Prototype,
    Alpha,
    Beta,
    Stable,
    Maintenance,
    Dormant,
    Archived,
}

/// One scored dimension of the Assay rubric.
#[derive(Clone, Copy, Debug, PartialEq, Eq, PartialOrd, Ord, Hash, Structural)]
pub enum ScoreDimension {
    ProjectSubstance,
    Originality,
    EngineeringRigor,
    OpenSourceReadiness,
    MaintenanceHealth,
}

/// Every rubric dimension, in canonical order.
pub fn assay_score_dimensions() -> (r: [ScoreDimension; 5])
    ensures
        r@ == seq![
            ScoreDimension::ProjectSubstance,
            ScoreDimension::Originality,
            ScoreDimension::EngineeringRigor,
            ScoreDimension::OpenSourceReadiness,
            ScoreDimension::MaintenanceHealth,
        ],
{
    let r = [
        ScoreDimension::ProjectSubstance,
        ScoreDimension::Originality,
        ScoreDimension::EngineeringRigor,
        ScoreDimension::OpenSourceReadiness,
        ScoreDimension::MaintenanceHealth,
    ];
    assert(r@ =~= seq![
        ScoreDimension::ProjectSubstance,
        ScoreDimension::Originality,
        ScoreDimension::EngineeringRigor,
        ScoreDimension::OpenSourceReadiness,
        ScoreDimension::MaintenanceHealth,
    ]);
    r
}

/// Whether a rubric dimension applies to a project.
#[derive(Clone, Copy, Debug, PartialEq, Eq, Hash, Structural)]
pub enum RubricApplicability {
    Applicable,
    PartiallyApplicable,
    NotApplicable,
}

/// The classification the score compiler consumes. Confidence is in basis
/// points (ten-thousandths).
#[derive(Clone, Debug)]
pub struct ProjectClassification {
    pub status: EvidenceStatus,
    pub primary_type: Option<ProjectType>,
    pub secondary_types: Vec<ProjectType>,
    pub tags: Vec<String>,
    pub maturity: Option<ProjectMaturity>,
    pub confidence_bp: u32,
    pub evidence_ids: Vec<EvidenceId>,
}

impl ProjectClassification {
    pub fn status(&self) -> (r: EvidenceStatus)
        ensures
            r == self.status,
    {
        self.status
    }

    pub fn primary_type(&self) -> (r: Option<ProjectType>)
        ensures
            r == self.primary_type,
    {
        self.primary_type
    }

    pub fn secondary_types(&self) -> (r: &[ProjectType])
        ensures
            r@ == self.secondary_types@,
    {
        self.secondary_types.as_slice()
    }

    pub fn tags(&self) -> (r: &[String])
        ensures
            r@ == self.tags@,
    {
        self.tags.as_slice()
    }

    pub fn maturity(&self) -> (r: Option<ProjectMaturity>)
        ensures
            r == self.maturity,
    {
        self.maturity
    }

    pub fn confidence_basis_points(&self) -> (r: u32)
        ensures
            r == self.confidence_bp,
    {
        self.confidence_bp
    }

    pub fn evidence_ids(&self) -> (r: &[EvidenceId])
        ensures
            r@ == self.evidence_ids@,
    {
        self.evidence_ids.as_slice()
    }
}

/// The stable machine codes of evidence and analysis availability.
pub proof fn law_status_codes()
    ensures
        evidence_status_text(EvidenceStatus::Complete) == "complete"@,
        evidence_status_text(EvidenceStatus::Partial) == "partial"@,
        evidence_status_text(EvidenceStatus::Unavailable) == "unavailable"@,
        evidence_status_text(EvidenceStatus::Unsupported) == "unsupported"@,
        evidence_status_text(EvidenceStatus::Insufficient) == "insufficient"@,
        evidence_status_text(EvidenceStatus::Pending) == "pending"@,
        analysis_status_text(AnalysisStatus::Complete) == "complete"@,
        analysis_status_text(AnalysisStatus::Partial) == "partial"@,
        analysis_status_text(AnalysisStatus::Unavailable) == "unavailable"@,
        analysis_status_text(AnalysisStatus::Unsupported) == "unsupported"@,
        analysis_status_text(AnalysisStatus::Insufficient) == "insufficient"@,
        analysis_status_text(AnalysisStatus::Pending) == "pending"@,
{
}

} // verus!
