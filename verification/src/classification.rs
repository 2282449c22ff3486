//! Deterministic project type and maturity classification.
//!
//! Cited observations (concrete signals, never conclusions) resolve to a
//! primary type, secondary types, descriptive tags and a maturity. A usable
//! classification needs both a resolved type and a resolved maturity;
//! otherwise the result is an explicit unknown with `Insufficient` status and
//! nothing invented. The type and maturity select which rubric dimensions
//! apply.
use vstd::prelude::*;

use crate::domain::{
    EvidenceId, EvidenceStatus, ProjectClassification, ProjectMaturity, ProjectType,
    RubricApplicability, ScoreDimension, type_at_rank, type_at_rank_exec, type_rank,
    type_rank_exec,
};
use crate::sorted::{Keyed, insert_unique, keys_of, sorted_unique, strictly_sorted};

verus! {

/// A cited observation that a project exhibits one type-relevant signal.
#[derive(Clone, Copy, Debug, PartialEq, Eq, PartialOrd, Ord, Hash, Structural)]
pub enum TypeSignal {
    CuratedListStructure,
    SpecificationDocument,
    DatasetOrModelArtifact,
    TemplateMarker,
    ProofOfConceptMarker,
    ServiceDeploymentDeclared,
    CliEntrypointDeclared,
    LibraryPackagingDeclared,
    ApplicationEntrypointDeclared,
    PluginHostDeclared,
    FrameworkExtensionPoints,
    DevOpsInfrastructure,
}

/// The primary type a signal implies, when it implies one.
pub open spec fn signal_type(s: TypeSignal) -> Option<ProjectType> {
    match s {
        TypeSignal::CuratedListStructure => Some(ProjectType::CuratedResource),
        TypeSignal::SpecificationDocument => Some(ProjectType::ProtocolSpecificationStandard),
        TypeSignal::DatasetOrModelArtifact => Some(ProjectType::DatasetModelResearchArtifact),
        TypeSignal::TemplateMarker => Some(ProjectType::EducationalExampleTemplate),
        TypeSignal::ProofOfConceptMarker => Some(ProjectType::ExperimentalProofOfConcept),
        TypeSignal::ServiceDeploymentDeclared => Some(ProjectType::ServiceInfrastructurePlatform),
        TypeSignal::CliEntrypointDeclared => Some(ProjectType::CliDeveloperTool),
        TypeSignal::LibraryPackagingDeclared => Some(ProjectType::LibrarySdkFramework),
        TypeSignal::ApplicationEntrypointDeclared => Some(ProjectType::Application),
        _ => None,
    }
}

/// The descriptive tag a signal contributes, when it contributes one.
pub open spec fn signal_tag(s: TypeSignal) -> Option<Seq<char>> {
    match s {
        TypeSignal::PluginHostDeclared => Some("plugin"@),
        TypeSignal::FrameworkExtensionPoints => Some("framework"@),
        TypeSignal::DevOpsInfrastructure => Some("infrastructure"@),
        _ => None,
    }
}

impl TypeSignal {
    /// Returns the primary type this signal implies, when it maps to one.
    pub fn primary_type(self) -> (r: Option<ProjectType>)
        ensures
            r == signal_type(self),
    {
        match self {
            TypeSignal::CuratedListStructure => Some(ProjectType::CuratedResource),
            TypeSignal::SpecificationDocument => Some(ProjectType::ProtocolSpecificationStandard),
            TypeSignal::DatasetOrModelArtifact => Some(ProjectType::DatasetModelResearchArtifact),
            TypeSignal::TemplateMarker => Some(ProjectType::EducationalExampleTemplate),
            TypeSignal::ProofOfConceptMarker => Some(ProjectType::ExperimentalProofOfConcept),
            TypeSignal::ServiceDeploymentDeclared => Some(
                ProjectType::ServiceInfrastructurePlatform,
            ),
            TypeSignal::CliEntrypointDeclared => Some(ProjectType::CliDeveloperTool),
            TypeSignal::LibraryPackagingDeclared => Some(ProjectType::LibrarySdkFramework),
            TypeSignal::ApplicationEntrypointDeclared => Some(ProjectType::Application),
            _ => None,
        }
    }

    /// Returns the descriptive tag this signal contributes, when any.
    pub fn tag(self) -> (r: Option<&'static str>)
        ensures
            r is Some <==> signal_tag(self) is Some,
            r matches Some(t) ==> t@ == signal_tag(self)->0,
    {
        match self {
            TypeSignal::PluginHostDeclared => Some("plugin"),
            TypeSignal::FrameworkExtensionPoints => Some("framework"),
            TypeSignal::DevOpsInfrastructure => Some("infrastructure"),
            _ => None,
        }
    }
}

/// A cited observation that a project exhibits one maturity-relevant signal.
/// Declaration order is resolution priority: a stronger lifecycle or release
/// signal wins over inactivity.
#[derive(Clone, Copy, Debug, PartialEq, Eq, PartialOrd, Ord, Hash, Structural)]
pub enum MaturitySignal {
    ArchivedRepository,
    MaintenanceModeDeclared,
    StableReleaseTagged,
    BetaPrereleaseTagged,
    AlphaPrereleaseTagged,
    SustainedIteration,
    SingleInitialImport,
    ConceptOnly,
    DormantNoRecentActivity,
}

pub open spec fn signal_maturity(s: MaturitySignal) -> ProjectMaturity {
    match s {
        MaturitySignal::ArchivedRepository => ProjectMaturity::Archived,
        MaturitySignal::MaintenanceModeDeclared => ProjectMaturity::Maintenance,
        MaturitySignal::StableReleaseTagged => ProjectMaturity::Stable,
        MaturitySignal::BetaPrereleaseTagged => ProjectMaturity::Beta,
        MaturitySignal::AlphaPrereleaseTagged => ProjectMaturity::Alpha,
        MaturitySignal::SustainedIteration => ProjectMaturity::Prototype,
        MaturitySignal::SingleInitialImport => ProjectMaturity::Concept,
        MaturitySignal::ConceptOnly => ProjectMaturity::Concept,
        MaturitySignal::DormantNoRecentActivity => ProjectMaturity::Dormant,
    }
}

/// Resolution priority of a maturity signal (lower wins).
pub open spec fn maturity_rank(s: MaturitySignal) -> int {
    match s {
        MaturitySignal::ArchivedRepository => 0,
        MaturitySignal::MaintenanceModeDeclared => 1,
        MaturitySignal::StableReleaseTagged => 2,
        MaturitySignal::BetaPrereleaseTagged => 3,
        MaturitySignal::AlphaPrereleaseTagged => 4,
        MaturitySignal::SustainedIteration => 5,
        MaturitySignal::SingleInitialImport => 6,
        MaturitySignal::ConceptOnly => 7,
        MaturitySignal::DormantNoRecentActivity => 8,
    }
}

pub open spec fn maturity_signal_at(r: int) -> MaturitySignal {
    if r == 0 {
        MaturitySignal::ArchivedRepository
    } else if r == 1 {
        MaturitySignal::MaintenanceModeDeclared
    } else if r == 2 {
        MaturitySignal::StableReleaseTagged
    } else if r == 3 {
        MaturitySignal::BetaPrereleaseTagged
    } else if r == 4 {
        MaturitySignal::AlphaPrereleaseTagged
    } else if r == 5 {
        MaturitySignal::SustainedIteration
    } else if r == 6 {
        MaturitySignal::SingleInitialImport
    } else if r == 7 {
        MaturitySignal::ConceptOnly
    } else {
        MaturitySignal::DormantNoRecentActivity
    }
}

fn maturity_signal_at_exec(r: u8) -> (s: MaturitySignal)
    requires
        r < 9,
    ensures
        s == maturity_signal_at(r as int),
        maturity_rank(s) == r,
{
    if r == 0 {
        MaturitySignal::ArchivedRepository
    } else if r == 1 {
        MaturitySignal::MaintenanceModeDeclared
    } else if r == 2 {
        MaturitySignal::StableReleaseTagged
    } else if r == 3 {
        MaturitySignal::BetaPrereleaseTagged
    } else if r == 4 {
        MaturitySignal::AlphaPrereleaseTagged
    } else if r == 5 {
        MaturitySignal::SustainedIteration
    } else if r == 6 {
        MaturitySignal::SingleInitialImport
    } else if r == 7 {
        MaturitySignal::ConceptOnly
    } else {
        MaturitySignal::DormantNoRecentActivity
    }
}

impl MaturitySignal {
    /// Returns the maturity this signal implies.
    pub fn maturity(self) -> (r: ProjectMaturity)
        ensures
            r == signal_maturity(self),
    {
        match self {
            MaturitySignal::ArchivedRepository => ProjectMaturity::Archived,
            MaturitySignal::MaintenanceModeDeclared => ProjectMaturity::Maintenance,
            MaturitySignal::StableReleaseTagged => ProjectMaturity::Stable,
            MaturitySignal::BetaPrereleaseTagged => ProjectMaturity::Beta,
            MaturitySignal::AlphaPrereleaseTagged => ProjectMaturity::Alpha,
            MaturitySignal::SustainedIteration => ProjectMaturity::Prototype,
            MaturitySignal::SingleInitialImport => ProjectMaturity::Concept,
            MaturitySignal::ConceptOnly => ProjectMaturity::Concept,
            MaturitySignal::DormantNoRecentActivity => ProjectMaturity::Dormant,
        }
    }
}

/// Stable classification failure category.
#[derive(Clone, Copy, Debug, PartialEq, Eq, Structural)]
pub enum ClassificationErrorKind {
    UncitedObservation,
}

/// A stable, redacted classification failure that never echoes source material.
#[derive(Clone, Copy, Debug, PartialEq, Eq, Structural)]
pub struct ClassificationError {
    pub kind: ClassificationErrorKind,
}

impl ClassificationError {
    /// Returns the stable non-sensitive failure category.
    pub fn kind(&self) -> (r: ClassificationErrorKind)
        ensures
            r == self.kind,
    {
        self.kind
    }
}

/// Versioned classification confidence and applicability policy.
#[derive(Clone, Copy, Debug)]
pub struct ClassificationPolicy {
    pub(crate) policy_version: &'static str,
    pub(crate) applicability_policy_version: &'static str,
    pub(crate) single_type_confidence_bp: u32,
    pub(crate) ambiguous_type_confidence_bp: u32,
    pub(crate) maturity_confidence_bp: u32,
}

impl ClassificationPolicy {
    pub closed spec fn spec_policy_version(&self) -> Seq<char> {
        self.policy_version@
    }

    pub closed spec fn spec_applicability_policy_version(&self) -> Seq<char> {
        self.applicability_policy_version@
    }

    pub closed spec fn spec_single_type_bp(&self) -> u32 {
        self.single_type_confidence_bp
    }

    pub closed spec fn spec_ambiguous_type_bp(&self) -> u32 {
        self.ambiguous_type_confidence_bp
    }

    pub closed spec fn spec_maturity_bp(&self) -> u32 {
        self.maturity_confidence_bp
    }

    /// Returns the initial versioned classification policy.
    pub fn v1() -> (r: ClassificationPolicy)
        ensures
            r.spec_policy_version() == "project-classification-1"@,
            r.spec_applicability_policy_version() == "project-classification-applicability-1"@,
            r.spec_single_type_bp() == 8000,
            r.spec_ambiguous_type_bp() == 6000,
            r.spec_maturity_bp() == 7000,
    {
        ClassificationPolicy {
            policy_version: "project-classification-1",
            applicability_policy_version: "project-classification-applicability-1",
            single_type_confidence_bp: 8_000,
            ambiguous_type_confidence_bp: 6_000,
            maturity_confidence_bp: 7_000,
        }
    }

    /// Returns the classification policy version.
    pub fn policy_version(&self) -> (r: &'static str)
        ensures
            r@ == self.spec_policy_version(),
    {
        self.policy_version
    }

    /// Returns the applicability policy version.
    pub fn applicability_policy_version(&self) -> (r: &'static str)
        ensures
            r@ == self.spec_applicability_policy_version(),
    {
        self.applicability_policy_version
    }
}

/// One cited type observation: at least one citation, sorted and unique.
#[derive(Debug)]
pub struct TypeObservation {
    pub(crate) signal: TypeSignal,
    pub(crate) evidence_ids: Vec<EvidenceId>,
}

impl TypeObservation {
    pub closed spec fn signal(&self) -> TypeSignal {
        self.signal
    }

    /// The cited evidence identifiers.
    pub closed spec fn cited(&self) -> Seq<Seq<char>> {
        keys_of(self.evidence_ids@)
    }

    /// Validates one type observation, requiring at least one citation.
    pub fn new(signal: TypeSignal, evidence_ids: Vec<EvidenceId>) -> (r: Result<
        TypeObservation,
        ClassificationError,
    >)
        ensures
            evidence_ids@.len() == 0 <==> r is Err,
            r matches Err(e) ==> e.kind == ClassificationErrorKind::UncitedObservation,
            r matches Ok(o) ==> o.signal() == signal && strictly_sorted(o.cited())
                && o.cited().to_set() == keys_of(evidence_ids@).to_set(),
    {
        if evidence_ids.len() == 0 {
            return Err(ClassificationError { kind: ClassificationErrorKind::UncitedObservation });
        }
        Ok(TypeObservation { signal, evidence_ids: sorted_unique(evidence_ids) })
    }
}

/// One cited maturity observation: at least one citation, sorted and unique.
#[derive(Debug)]
pub struct MaturityObservation {
    pub(crate) signal: MaturitySignal,
    pub(crate) evidence_ids: Vec<EvidenceId>,
}

impl MaturityObservation {
    pub closed spec fn signal(&self) -> MaturitySignal {
        self.signal
    }

    pub closed spec fn cited(&self) -> Seq<Seq<char>> {
        keys_of(self.evidence_ids@)
    }

    /// Validates one maturity observation, requiring at least one citation.
    pub fn new(signal: MaturitySignal, evidence_ids: Vec<EvidenceId>) -> (r: Result<
        MaturityObservation,
        ClassificationError,
    >)
        ensures
            evidence_ids@.len() == 0 <==> r is Err,
            r matches Err(e) ==> e.kind == ClassificationErrorKind::UncitedObservation,
            r matches Ok(o) ==> o.signal() == signal && strictly_sorted(o.cited())
                && o.cited().to_set() == keys_of(evidence_ids@).to_set(),
    {
        if evidence_ids.len() == 0 {
            return Err(ClassificationError { kind: ClassificationErrorKind::UncitedObservation });
        }
        Ok(MaturityObservation { signal, evidence_ids: sorted_unique(evidence_ids) })
    }
}

/// Per-dimension rubric applicability.
#[derive(Clone, Copy, Debug, PartialEq, Eq, Structural)]
pub struct DimensionApplicability {
    pub project_substance: RubricApplicability,
    pub originality: RubricApplicability,
    pub engineering_rigor: RubricApplicability,
    pub open_source_readiness: RubricApplicability,
    pub maintenance_health: RubricApplicability,
}

impl DimensionApplicability {
    pub open spec fn at(&self, dimension: ScoreDimension) -> RubricApplicability {
        match dimension {
            ScoreDimension::ProjectSubstance => self.project_substance,
            ScoreDimension::Originality => self.originality,
            ScoreDimension::EngineeringRigor => self.engineering_rigor,
            ScoreDimension::OpenSourceReadiness => self.open_source_readiness,
            ScoreDimension::MaintenanceHealth => self.maintenance_health,
        }
    }

    /// Returns the applicability of one dimension.
    pub fn get(&self, dimension: ScoreDimension) -> (r: RubricApplicability)
        ensures
            r == self.at(dimension),
    {
        match dimension {
            ScoreDimension::ProjectSubstance => self.project_substance,
            ScoreDimension::Originality => self.originality,
            ScoreDimension::EngineeringRigor => self.engineering_rigor,
            ScoreDimension::OpenSourceReadiness => self.open_source_readiness,
            ScoreDimension::MaintenanceHealth => self.maintenance_health,
        }
    }
}

/// The base applicability of a dimension for a type, before maturity.
pub open spec fn base_applicability(t: ProjectType, d: ScoreDimension) -> RubricApplicability {
    match t {
        ProjectType::Application | ProjectType::CliDeveloperTool
        | ProjectType::ServiceInfrastructurePlatform
        | ProjectType::LibrarySdkFramework => RubricApplicability::Applicable,
        ProjectType::CuratedResource | ProjectType::ProtocolSpecificationStandard => match d {
            ScoreDimension::ProjectSubstance => RubricApplicability::PartiallyApplicable,
            ScoreDimension::EngineeringRigor => RubricApplicability::NotApplicable,
            _ => RubricApplicability::Applicable,
        },
        ProjectType::DatasetModelResearchArtifact => match d {
            ScoreDimension::EngineeringRigor | ScoreDimension::MaintenanceHealth =>
                RubricApplicability::PartiallyApplicable,
            _ => RubricApplicability::Applicable,
        },
        ProjectType::EducationalExampleTemplate => match d {
            ScoreDimension::OpenSourceReadiness => RubricApplicability::Applicable,
            _ => RubricApplicability::PartiallyApplicable,
        },
        ProjectType::ExperimentalProofOfConcept => match d {
            ScoreDimension::ProjectSubstance | ScoreDimension::Originality =>
                RubricApplicability::Applicable,
            _ => RubricApplicability::PartiallyApplicable,
        },
    }
}

/// A concept or prototype project.
pub open spec fn is_young(m: ProjectMaturity) -> bool {
    m == ProjectMaturity::Concept || m == ProjectMaturity::Prototype
}

/// A project in maintenance, dormant or archived.
pub open spec fn is_lifecycle_quiet(m: ProjectMaturity) -> bool {
    m == ProjectMaturity::Maintenance || m == ProjectMaturity::Dormant || m
        == ProjectMaturity::Archived
}

/// Maturity only relaxes an applicable dimension: rigor and maintenance for
/// young projects, maintenance for end-of-life projects.
pub open spec fn resolved_applicability(
    t: ProjectType,
    m: ProjectMaturity,
    d: ScoreDimension,
) -> RubricApplicability {
    let base = base_applicability(t, d);
    if base == RubricApplicability::Applicable && ((is_young(m) && (d
        == ScoreDimension::EngineeringRigor || d == ScoreDimension::MaintenanceHealth)) || (
    is_lifecycle_quiet(m) && d == ScoreDimension::MaintenanceHealth)) {
        RubricApplicability::PartiallyApplicable
    } else {
        base
    }
}

fn base_exec(t: ProjectType, d: ScoreDimension) -> (r: RubricApplicability)
    ensures
        r == base_applicability(t, d),
{
    match t {
        ProjectType::Application | ProjectType::CliDeveloperTool
        | ProjectType::ServiceInfrastructurePlatform
        | ProjectType::LibrarySdkFramework => RubricApplicability::Applicable,
        ProjectType::CuratedResource | ProjectType::ProtocolSpecificationStandard => match d {
            ScoreDimension::ProjectSubstance => RubricApplicability::PartiallyApplicable,
            ScoreDimension::EngineeringRigor => RubricApplicability::NotApplicable,
            _ => RubricApplicability::Applicable,
        },
        ProjectType::DatasetModelResearchArtifact => match d {
            ScoreDimension::EngineeringRigor | ScoreDimension::MaintenanceHealth =>
                RubricApplicability::PartiallyApplicable,
            _ => RubricApplicability::Applicable,
        },
        ProjectType::EducationalExampleTemplate => match d {
            ScoreDimension::OpenSourceReadiness => RubricApplicability::Applicable,
            _ => RubricApplicability::PartiallyApplicable,
        },
        ProjectType::ExperimentalProofOfConcept => match d {
            ScoreDimension::ProjectSubstance | ScoreDimension::Originality =>
                RubricApplicability::Applicable,
            _ => RubricApplicability::PartiallyApplicable,
        },
    }
}

fn resolve_dimension(t: ProjectType, m: ProjectMaturity, d: ScoreDimension) -> (r:
    RubricApplicability)
    ensures
        r == resolved_applicability(t, m, d),
{
    let base = base_exec(t, d);
    let young = match m {
        ProjectMaturity::Concept | ProjectMaturity::Prototype => true,
        _ => false,
    };
    let quiet = match m {
        ProjectMaturity::Maintenance | ProjectMaturity::Dormant | ProjectMaturity::Archived => true,
        _ => false,
    };
    let rigor_or_maintenance = match d {
        ScoreDimension::EngineeringRigor | ScoreDimension::MaintenanceHealth => true,
        _ => false,
    };
    let maintenance = match d {
        ScoreDimension::MaintenanceHealth => true,
        _ => false,
    };
    let applicable = match base {
        RubricApplicability::Applicable => true,
        _ => false,
    };
    if applicable && ((young && rigor_or_maintenance) || (quiet && maintenance)) {
        RubricApplicability::PartiallyApplicable
    } else {
        base
    }
}

/// Resolves type- and maturity-specific criteria applicability.
///
/// The base applicability reflects each type's evaluable surface; maturity
/// only relaxes an `Applicable` dimension to `PartiallyApplicable` for young
/// or end-of-life projects, never tightening it.
pub fn criteria_applicability(
    primary_type: ProjectType,
    maturity: ProjectMaturity,
    _policy: &ClassificationPolicy,
) -> (r: DimensionApplicability)
    ensures
        forall|d: ScoreDimension| #[trigger] r.at(d) == resolved_applicability(primary_type, maturity, d),
{
    let r = DimensionApplicability {
        project_substance: resolve_dimension(primary_type, maturity, ScoreDimension::ProjectSubstance),
        originality: resolve_dimension(primary_type, maturity, ScoreDimension::Originality),
        engineering_rigor: resolve_dimension(primary_type, maturity, ScoreDimension::EngineeringRigor),
        open_source_readiness: resolve_dimension(
            primary_type,
            maturity,
            ScoreDimension::OpenSourceReadiness,
        ),
        maintenance_health: resolve_dimension(primary_type, maturity, ScoreDimension::MaintenanceHealth),
    };
    assert forall|d: ScoreDimension| #[trigger] r.at(d) == resolved_applicability(
        primary_type,
        maturity,
        d,
    ) by {
        match d {
            ScoreDimension::ProjectSubstance => {},
            ScoreDimension::Originality => {},
            ScoreDimension::EngineeringRigor => {},
            ScoreDimension::OpenSourceReadiness => {},
            ScoreDimension::MaintenanceHealth => {},
        }
    }
    r
}

/// Every dimension partially applicable: what an unknown classification gets.
pub fn unknown_applicability() -> (r: DimensionApplicability)
    ensures
        forall|d: ScoreDimension| #[trigger] r.at(d) == RubricApplicability::PartiallyApplicable,
{
    DimensionApplicability {
        project_substance: RubricApplicability::PartiallyApplicable,
        originality: RubricApplicability::PartiallyApplicable,
        engineering_rigor: RubricApplicability::PartiallyApplicable,
        open_source_readiness: RubricApplicability::PartiallyApplicable,
        maintenance_health: RubricApplicability::PartiallyApplicable,
    }
}

/// Maturity never tightens applicability: a dimension that is not
/// applicable for the type stays exactly as the type says, and a dimension
/// ends up applicable only when the type alone makes it applicable.
pub proof fn law_maturity_only_relaxes(t: ProjectType, m: ProjectMaturity, d: ScoreDimension)
    ensures
        base_applicability(t, d) != RubricApplicability::Applicable ==> resolved_applicability(
            t,
            m,
            d,
        ) == base_applicability(t, d),
        resolved_applicability(t, m, d) == RubricApplicability::Applicable ==> base_applicability(
            t,
            d,
        ) == RubricApplicability::Applicable,
        resolved_applicability(t, m, d) != RubricApplicability::NotApplicable
            <== base_applicability(t, d) != RubricApplicability::NotApplicable,
{
}

/// A young project is never held to rigor or maintenance evidence in full.
pub proof fn law_young_projects_relax_rigor_and_maintenance(t: ProjectType, m: ProjectMaturity)
    requires
        is_young(m),
    ensures
        resolved_applicability(t, m, ScoreDimension::EngineeringRigor)
            != RubricApplicability::Applicable,
        resolved_applicability(t, m, ScoreDimension::MaintenanceHealth)
            != RubricApplicability::Applicable,
{
}

/// The resolved outcome of classification with its aligned applicability.
#[derive(Debug)]
pub struct ClassificationOutcome {
    pub(crate) classification: ProjectClassification,
    pub(crate) primary_type: Option<ProjectType>,
    pub(crate) maturity: Option<ProjectMaturity>,
    pub(crate) applicability: DimensionApplicability,
    pub(crate) policy_version: &'static str,
    pub(crate) applicability_policy_version: &'static str,
}

impl ClassificationOutcome {
    pub closed spec fn spec_classification(&self) -> ProjectClassification {
        self.classification
    }

    pub closed spec fn spec_primary_type(&self) -> Option<ProjectType> {
        self.primary_type
    }

    pub closed spec fn spec_maturity(&self) -> Option<ProjectMaturity> {
        self.maturity
    }

    pub closed spec fn spec_applicability(&self) -> DimensionApplicability {
        self.applicability
    }

    pub closed spec fn spec_policy_version(&self) -> Seq<char> {
        self.policy_version@
    }

    pub closed spec fn spec_applicability_policy_version(&self) -> Seq<char> {
        self.applicability_policy_version@
    }

    /// Returns the classification the score compiler consumes.
    pub fn classification(&self) -> (r: &ProjectClassification)
        ensures
            *r == self.spec_classification(),
    {
        &self.classification
    }

    /// Returns the resolved primary type, absent when the result is unknown.
    pub fn primary_type(&self) -> (r: Option<ProjectType>)
        ensures
            r == self.spec_primary_type(),
    {
        self.primary_type
    }

    /// Returns the resolved maturity, absent when the result is unknown.
    pub fn maturity(&self) -> (r: Option<ProjectMaturity>)
        ensures
            r == self.spec_maturity(),
    {
        self.maturity
    }

    /// Returns type- and maturity-resolved applicability for one dimension.
    pub fn applicability(&self, dimension: ScoreDimension) -> (r: RubricApplicability)
        ensures
            r == self.spec_applicability().at(dimension),
    {
        self.applicability.get(dimension)
    }

    /// Returns the classification policy version applied.
    pub fn policy_version(&self) -> (r: &'static str)
        ensures
            r@ == self.spec_policy_version(),
    {
        self.policy_version
    }

    /// Returns the applicability policy version applied.
    pub fn applicability_policy_version(&self) -> (r: &'static str)
        ensures
            r@ == self.spec_applicability_policy_version(),
    {
        self.applicability_policy_version
    }
}

/// Some type observation implies type `t`.
pub open spec fn type_present(obs: Seq<TypeObservation>, t: ProjectType) -> bool {
    exists|i: int| 0 <= i < obs.len() && signal_type(#[trigger] obs[i].signal()) == Some(t)
}

/// The implied types of rank at least `r`, in rank order.
pub open spec fn present_types_from(obs: Seq<TypeObservation>, r: int) -> Seq<ProjectType>
    decreases 9 - r,
{
    if r >= 9 || r < 0 {
        Seq::empty()
    } else if type_present(obs, type_at_rank(r)) {
        seq![type_at_rank(r)] + present_types_from(obs, r + 1)
    } else {
        present_types_from(obs, r + 1)
    }
}

/// Every implied type, in priority order; the first is the primary type.
pub open spec fn present_types(obs: Seq<TypeObservation>) -> Seq<ProjectType> {
    present_types_from(obs, 0)
}

/// A service, CLI, library or application delivery form.
pub open spec fn is_delivery_form(t: ProjectType) -> bool {
    type_rank(t) >= 5
}

/// The number of delivery forms among a sequence of types.
pub open spec fn delivery_form_count(ts: Seq<ProjectType>) -> nat
    decreases ts.len(),
{
    if ts.len() == 0 {
        0
    } else {
        delivery_form_count(ts.drop_last()) + if is_delivery_form(ts.last()) {
            1nat
        } else {
            0nat
        }
    }
}

/// `e` is cited by an observation that implies some type.
pub open spec fn cites_type_evidence(obs: Seq<TypeObservation>, e: Seq<char>) -> bool {
    exists|i: int|
        0 <= i < obs.len() && signal_type(#[trigger] obs[i].signal()) is Some
            && obs[i].cited().contains(e)
}

/// `t` is the tag of some type observation.
pub open spec fn has_tag(obs: Seq<TypeObservation>, t: Seq<char>) -> bool {
    exists|i: int| 0 <= i < obs.len() && signal_tag(#[trigger] obs[i].signal()) == Some(t)
}

/// Some maturity observation carries signal `s`.
pub open spec fn maturity_present(obs: Seq<MaturityObservation>, s: MaturitySignal) -> bool {
    exists|i: int| 0 <= i < obs.len() && #[trigger] obs[i].signal() == s
}

/// The highest-priority maturity signal of rank at least `r`.
pub open spec fn selected_maturity_from(obs: Seq<MaturityObservation>, r: int) -> Option<
    MaturitySignal,
>
    decreases 9 - r,
{
    if r >= 9 || r < 0 {
        None
    } else if maturity_present(obs, maturity_signal_at(r)) {
        Some(maturity_signal_at(r))
    } else {
        selected_maturity_from(obs, r + 1)
    }
}

pub open spec fn selected_maturity(obs: Seq<MaturityObservation>) -> Option<MaturitySignal> {
    selected_maturity_from(obs, 0)
}

/// `e` is cited by an observation carrying signal `s`.
pub open spec fn cites_maturity_evidence(
    obs: Seq<MaturityObservation>,
    s: MaturitySignal,
    e: Seq<char>,
) -> bool {
    exists|i: int| 0 <= i < obs.len() && #[trigger] obs[i].signal() == s && obs[i].cited().contains(e)
}

/// The combined confidence in basis points.
pub open spec fn classification_confidence_bp(policy: ClassificationPolicy, ambiguous: bool) -> int {
    let type_bp = if ambiguous {
        policy.spec_ambiguous_type_bp()
    } else {
        policy.spec_single_type_bp()
    };
    (type_bp + policy.spec_maturity_bp()) / 2
}

proof fn lemma_present_types_from_sorted(obs: Seq<TypeObservation>, r: int)
    requires
        0 <= r,
    ensures
        forall|i: int|
            0 <= i < present_types_from(obs, r).len() ==> r <= type_rank(
                #[trigger] present_types_from(obs, r)[i],
            ) && type_present(obs, present_types_from(obs, r)[i]),
        forall|i: int, j: int|
            0 <= i < j < present_types_from(obs, r).len() ==> type_rank(
                #[trigger] present_types_from(obs, r)[i],
            ) < type_rank(#[trigger] present_types_from(obs, r)[j]),
        forall|t: ProjectType|
            type_present(obs, t) && type_rank(t) >= r ==> #[trigger] present_types_from(
                obs,
                r,
            ).contains(t),
    decreases 9 - r,
{
    if r < 9 {
        lemma_present_types_from_sorted(obs, r + 1);
        let rest = present_types_from(obs, r + 1);
        if type_present(obs, type_at_rank(r)) {
            let s = present_types_from(obs, r);
            assert(s == seq![type_at_rank(r)] + rest);
            assert forall|t: ProjectType| type_present(obs, t) && type_rank(t) >= r implies s.contains(
                t,
            ) by {
                if type_rank(t) == r {
                    assert(t == type_at_rank(r));
                    assert(s[0] == t);
                } else {
                    assert(rest.contains(t));
                    let k = choose|k: int| 0 <= k < rest.len() && rest[k] == t;
                    assert(s[k + 1] == t);
                }
            }
        } else {
            assert forall|t: ProjectType| type_present(obs, t) && type_rank(t) >= r implies present_types_from(
                obs,
                r,
            ).contains(t) by {
                if type_rank(t) == r {
                    assert(t == type_at_rank(r));
                }
            }
        }
    } else {
        assert forall|t: ProjectType| type_present(obs, t) && type_rank(t) >= r implies present_types_from(
            obs,
            r,
        ).contains(t) by {
            assert(type_rank(t) <= 8);
        }
    }
}

/// Returns whether some observation implies the type of rank `r`.
fn any_implies(observations: &[TypeObservation], t: ProjectType) -> (b: bool)
    ensures
        b == type_present(observations@, t),
{
    let mut i: usize = 0;
    while i < observations.len()
        invariant
            i <= observations@.len(),
            forall|j: int| 0 <= j < i ==> signal_type(#[trigger] observations@[j].signal()) != Some(t),
        decreases observations.len() - i,
    {
        if observations[i].signal.primary_type() == Some(t) {
            assert(signal_type(observations@[i as int].signal()) == Some(t));
            return true;
        }
        i = i + 1;
    }
    false
}

fn any_maturity(observations: &[MaturityObservation], s: MaturitySignal) -> (b: bool)
    ensures
        b == maturity_present(observations@, s),
{
    let mut i: usize = 0;
    while i < observations.len()
        invariant
            i <= observations@.len(),
            forall|j: int| 0 <= j < i ==> #[trigger] observations@[j].signal() != s,
        decreases observations.len() - i,
    {
        if observations[i].signal == s {
            assert(observations@[i as int].signal() == s);
            return true;
        }
        i = i + 1;
    }
    false
}

/// All implied types in priority order.
fn resolve_types(observations: &[TypeObservation]) -> (r: Vec<ProjectType>)
    ensures
        r@ == present_types(observations@),
{
    let mut out: Vec<ProjectType> = Vec::new();
    let mut rank: u8 = 9;
    while rank > 0
        invariant
            rank <= 9,
            out@ == present_types_from(observations@, rank as int),
        decreases rank,
    {
        rank = rank - 1;
        let t = type_at_rank_exec(rank);
        if any_implies(observations, t) {
            out.insert(0, t);
            assert(out@ =~= seq![t] + present_types_from(observations@, rank + 1));
        }
    }
    out
}

fn count_delivery_forms(ts: &Vec<ProjectType>) -> (n: usize)
    ensures
        n == delivery_form_count(ts@),
{
    let mut n: usize = 0;
    let mut i: usize = 0;
    while i < ts.len()
        invariant
            i <= ts@.len(),
            n == delivery_form_count(ts@.subrange(0, i as int)),
            n <= i,
        decreases ts.len() - i,
    {
        assert(ts@.subrange(0, i + 1).drop_last() =~= ts@.subrange(0, i as int));
        if type_rank_exec(ts[i]) >= 5 {
            n = n + 1;
        }
        i = i + 1;
    }
    assert(ts@.subrange(0, ts@.len() as int) =~= ts@);
    n
}

fn copy_ids(ids: &Vec<EvidenceId>, out: &mut Vec<EvidenceId>)
    ensures
        keys_of(final(out)@) == keys_of(old(out)@) + keys_of(ids@),
{
    let ghost start = keys_of(out@);
    let mut i: usize = 0;
    while i < ids.len()
        invariant
            i <= ids@.len(),
            keys_of(out@) == start + keys_of(ids@.subrange(0, i as int)),
        decreases ids.len() - i,
    {
        let ghost prev = out@;
        let c = ids[i].copy();
        out.push(c);
        assert(out@ == prev.push(c));
        assert(keys_of(out@) =~= keys_of(prev).push(c.key_view()));
        assert(keys_of(ids@.subrange(0, i + 1)) =~= keys_of(ids@.subrange(0, i as int)).push(
            ids@[i as int].key_view(),
        ));
        assert(keys_of(out@) =~= start + keys_of(ids@.subrange(0, i + 1)));
        i = i + 1;
    }
    assert(ids@.subrange(0, ids@.len() as int) =~= ids@);
}

/// Evidence cited by type-implying observations.
fn gather_type_evidence(observations: &[TypeObservation]) -> (r: Vec<EvidenceId>)
    ensures
        forall|e: Seq<char>| keys_of(r@).contains(e) <==> cites_type_evidence(observations@, e),
{
    let mut out: Vec<EvidenceId> = Vec::new();
    let mut i: usize = 0;
    while i < observations.len()
        invariant
            i <= observations@.len(),
            forall|e: Seq<char>|
                keys_of(out@).contains(e) <==> cites_type_evidence(
                    observations@.subrange(0, i as int),
                    e,
                ),
        decreases observations.len() - i,
    {
        let ghost before = keys_of(out@);
        let o = &observations[i];
        let ghost prev_out = out@;
        let has_type = o.signal.primary_type().is_some();
        if has_type {
            copy_ids(&o.evidence_ids, &mut out);
        }
        assert(has_type == (signal_type(o.signal()) is Some));
        assert(!has_type ==> out@ == prev_out);
        assert(has_type ==> keys_of(out@) == before + o.cited());
        proof {
            let pre = observations@.subrange(0, i as int);
            let post = observations@.subrange(0, i + 1);
            assert(forall|e: Seq<char>| before.contains(e) <==> cites_type_evidence(pre, e));
            assert(keys_of(out@).len() >= before.len());
            assert(forall|m: int| 0 <= m < before.len() ==> keys_of(out@)[m] == before[m]);
            assert forall|e: Seq<char>| keys_of(out@).contains(e) <==> cites_type_evidence(
                post,
                e,
            ) by {
                if keys_of(out@).contains(e) {
                    if before.contains(e) {
                        let k = choose|k: int|
                            0 <= k < pre.len() && signal_type(#[trigger] pre[k].signal()) is Some
                                && pre[k].cited().contains(e);
                        assert(post[k] == pre[k]);
                    } else {
                        let m = choose|m: int| 0 <= m < keys_of(out@).len() && keys_of(out@)[m] == e;
                        assert(m >= before.len());
                        assert(o.cited()[m - before.len()] == e);
                        assert(post[i as int] == *o);
                        assert(o.cited().contains(e));
                    }
                }
                if cites_type_evidence(post, e) {
                    let k = choose|k: int|
                        0 <= k < post.len() && signal_type(#[trigger] post[k].signal()) is Some
                            && post[k].cited().contains(e);
                    if k < i {
                        assert(pre[k] == post[k]);
                        assert(cites_type_evidence(pre, e));
                        let m = choose|m: int| 0 <= m < before.len() && before[m] == e;
                        assert(keys_of(out@)[m] == e);
                    } else {
                        assert(post[k] == *o);
                        let m = choose|m: int| 0 <= m < o.cited().len() && o.cited()[m] == e;
                        assert(keys_of(out@)[before.len() + m] == e);
                    }
                }
            }
        }
        i = i + 1;
    }
    assert(observations@.subrange(0, observations@.len() as int) =~= observations@);
    out
}

/// Evidence cited by observations carrying signal `s`.
fn gather_maturity_evidence(observations: &[MaturityObservation], s: MaturitySignal) -> (r: Vec<
    EvidenceId,
>)
    ensures
        forall|e: Seq<char>|
            keys_of(r@).contains(e) <==> cites_maturity_evidence(observations@, s, e),
{
    let mut out: Vec<EvidenceId> = Vec::new();
    let mut i: usize = 0;
    while i < observations.len()
        invariant
            i <= observations@.len(),
            forall|e: Seq<char>|
                keys_of(out@).contains(e) <==> cites_maturity_evidence(
                    observations@.subrange(0, i as int),
                    s,
                    e,
                ),
        decreases observations.len() - i,
    {
        let ghost before = keys_of(out@);
        let o = &observations[i];
        let ghost prev_out = out@;
        let same_signal = o.signal == s;
        if same_signal {
            copy_ids(&o.evidence_ids, &mut out);
        }
        assert(same_signal == (o.signal() == s));
        assert(!same_signal ==> out@ == prev_out);
        assert(same_signal ==> keys_of(out@) == before + o.cited());
        proof {
            let pre = observations@.subrange(0, i as int);
            let post = observations@.subrange(0, i + 1);
            assert(forall|e: Seq<char>| before.contains(e) <==> cites_maturity_evidence(pre, s, e));
            assert(keys_of(out@).len() >= before.len());
            assert(forall|m: int| 0 <= m < before.len() ==> keys_of(out@)[m] == before[m]);
            assert forall|e: Seq<char>| keys_of(out@).contains(e) <==> cites_maturity_evidence(
                post,
                s,
                e,
            ) by {
                if keys_of(out@).contains(e) {
                    if before.contains(e) {
                        let k = choose|k: int|
                            0 <= k < pre.len() && #[trigger] pre[k].signal() == s
                                && pre[k].cited().contains(e);
                        assert(post[k] == pre[k]);
                    } else {
                        let m = choose|m: int| 0 <= m < keys_of(out@).len() && keys_of(out@)[m] == e;
                        assert(o.cited()[m - before.len()] == e);
                        assert(post[i as int] == *o);
                        assert(o.cited().contains(e));
                    }
                }
                if cites_maturity_evidence(post, s, e) {
                    let k = choose|k: int|
                        0 <= k < post.len() && #[trigger] post[k].signal() == s
                            && post[k].cited().contains(e);
                    if k < i {
                        assert(pre[k] == post[k]);
                        assert(pre[k].signal() == s);
                        assert(pre[k].cited().contains(e));
                        assert(cites_maturity_evidence(pre, s, e));
                        assert(before.contains(e));
                        let m = choose|m: int| 0 <= m < before.len() && before[m] == e;
                        assert(keys_of(out@)[m] == e);
                    } else {
                        assert(post[k] == *o);
                        let m = choose|m: int| 0 <= m < o.cited().len() && o.cited()[m] == e;
                        assert(keys_of(out@)[before.len() + m] == e);
                    }
                }
            }
        }
        i = i + 1;
    }
    assert(observations@.subrange(0, observations@.len() as int) =~= observations@);
    out
}

/// Distinct tags of the type observations, in text order.
fn resolve_tags(observations: &[TypeObservation]) -> (r: Vec<String>)
    ensures
        strictly_sorted(keys_of(r@)),
        forall|t: Seq<char>| keys_of(r@).contains(t) <==> has_tag(observations@, t),
{
    let mut tags: Vec<String> = Vec::new();
    let mut i: usize = 0;
    while i < observations.len()
        invariant
            i <= observations@.len(),
            strictly_sorted(keys_of(tags@)),
            forall|t: Seq<char>|
                keys_of(tags@).contains(t) <==> has_tag(observations@.subrange(0, i as int), t),
        decreases observations.len() - i,
    {
        let ghost before = keys_of(tags@);
        let o = &observations[i];
        match o.signal.tag() {
            Some(t) => {
                insert_unique(&mut tags, t.to_owned());
            },
            None => {},
        }
        proof {
            let pre = observations@.subrange(0, i as int);
            let post = observations@.subrange(0, i + 1);
            assert(post[i as int] == *o);
            assert forall|t: Seq<char>| keys_of(tags@).contains(t) <==> has_tag(post, t) by {
                if keys_of(tags@).contains(t) {
                    assert(keys_of(tags@).to_set().contains(t));
                    if before.contains(t) {
                        let k = choose|k: int|
                            0 <= k < pre.len() && signal_tag(#[trigger] pre[k].signal()) == Some(t);
                        assert(post[k] == pre[k]);
                    } else {
                        assert(before.to_set().contains(t) == before.contains(t));
                        assert(signal_tag(post[i as int].signal()) == Some(t));
                    }
                }
                if has_tag(post, t) {
                    let k = choose|k: int|
                        0 <= k < post.len() && signal_tag(#[trigger] post[k].signal()) == Some(t);
                    if k < i {
                        assert(pre[k] == post[k]);
                        assert(has_tag(pre, t));
                        assert(before.to_set().contains(t));
                    }
                    assert(keys_of(tags@).to_set().contains(t));
                }
            }
        }
        i = i + 1;
    }
    assert(observations@.subrange(0, observations@.len() as int) =~= observations@);
    tags
}

/// What classification yields for given observations and policy.
pub open spec fn classification_matches(
    type_observations: Seq<TypeObservation>,
    maturity_observations: Seq<MaturityObservation>,
    policy: ClassificationPolicy,
    r: ClassificationOutcome,
) -> bool {
    &&& r.spec_policy_version() == policy.spec_policy_version()
    &&& r.spec_applicability_policy_version() == policy.spec_applicability_policy_version()
    &&& ({
            let types = present_types(type_observations);
            let selected = selected_maturity(maturity_observations);
            let c = r.spec_classification();
            if types.len() > 0 && selected is Some {
                let primary = types[0];
                let maturity = signal_maturity(selected->0);
                &&& r.spec_primary_type() == Some(primary)
                &&& r.spec_maturity() == Some(maturity)
                &&& c.status == EvidenceStatus::Complete
                &&& c.primary_type == Some(primary)
                &&& c.secondary_types@ == types.drop_first()
                &&& c.maturity == Some(maturity)
                &&& c.confidence_bp == classification_confidence_bp(
                    policy,
                    delivery_form_count(types) > 1,
                )
                &&& strictly_sorted(keys_of(c.tags@))
                &&& forall|t: Seq<char>| #[trigger]
                    keys_of(c.tags@).contains(t) <==> has_tag(type_observations, t)
                &&& strictly_sorted(keys_of(c.evidence_ids@))
                &&& forall|e: Seq<char>| #[trigger]
                    keys_of(c.evidence_ids@).contains(e) <==> (cites_type_evidence(
                        type_observations,
                        e,
                    ) || cites_maturity_evidence(maturity_observations, selected->0, e))
                &&& forall|d: ScoreDimension| #[trigger]
                    r.spec_applicability().at(d) == resolved_applicability(primary, maturity, d)
            } else {
                &&& r.spec_primary_type() is None
                &&& r.spec_maturity() is None
                &&& c.status == EvidenceStatus::Insufficient
                &&& c.primary_type is None
                &&& c.secondary_types@.len() == 0
                &&& c.tags@.len() == 0
                &&& c.maturity is None
                &&& c.confidence_bp == 0
                &&& c.evidence_ids@.len() == 0
                &&& forall|d: ScoreDimension| #[trigger]
                    r.spec_applicability().at(d) == RubricApplicability::PartiallyApplicable
            }
        })
}

/// Classifies a project from cited type and maturity observations.
///
/// A usable classification requires both a resolved type and a resolved
/// maturity; otherwise the result is an explicit unknown classification with
/// an `Insufficient` status and no invented type, maturity, or zero.
pub fn classify_project(
    type_observations: &[TypeObservation],
    maturity_observations: &[MaturityObservation],
    policy: &ClassificationPolicy,
) -> (r: ClassificationOutcome)
    ensures
        classification_matches(type_observations@, maturity_observations@, *policy, r),

{
    let mut types = resolve_types(type_observations);
    let mut selected: Option<MaturitySignal> = None;
    let mut rank: u8 = 9;
    while rank > 0
        invariant
            rank <= 9,
            selected == selected_maturity_from(maturity_observations@, rank as int),
        decreases rank,
    {
        rank = rank - 1;
        let s = maturity_signal_at_exec(rank);
        if any_maturity(maturity_observations, s) {
            selected = Some(s);
        }
    }
    if types.len() > 0 && selected.is_some() {
        let signal = selected.unwrap();
        let ambiguous = count_delivery_forms(&types) > 1;
        let primary = types.remove(0);
        let maturity = signal.maturity();
        let tags = resolve_tags(type_observations);
        let mut evidence = gather_type_evidence(type_observations);
        let maturity_evidence = gather_maturity_evidence(maturity_observations, signal);
        let ghost type_keys = keys_of(evidence@);
        copy_ids(&maturity_evidence, &mut evidence);
        let ghost all_keys = keys_of(evidence@);
        let evidence_ids = sorted_unique(evidence);
        proof {
            assert forall|e: Seq<char>| #[trigger]
                keys_of(evidence_ids@).contains(e) <==> (cites_type_evidence(
                    type_observations@,
                    e,
                ) || cites_maturity_evidence(maturity_observations@, signal, e)) by {
                assert(keys_of(evidence_ids@).to_set().contains(e) == all_keys.to_set().contains(e));
                if all_keys.contains(e) {
                    let m = choose|m: int| 0 <= m < all_keys.len() && all_keys[m] == e;
                    if m < type_keys.len() {
                        assert(type_keys[m] == e);
                    } else {
                        assert(keys_of(maturity_evidence@)[m - type_keys.len()] == e);
                    }
                }
                if cites_type_evidence(type_observations@, e) {
                    let m = choose|m: int| 0 <= m < type_keys.len() && type_keys[m] == e;
                    assert(all_keys[m] == e);
                }
                if cites_maturity_evidence(maturity_observations@, signal, e) {
                    assert(keys_of(maturity_evidence@).contains(e));
                    let m = choose|m: int|
                        0 <= m < keys_of(maturity_evidence@).len() && keys_of(maturity_evidence@)[m]
                            == e;
                    assert(all_keys[type_keys.len() + m] == e);
                }
            }
        }
        let type_bp = if ambiguous {
            policy.ambiguous_type_confidence_bp
        } else {
            policy.single_type_confidence_bp
        };
        let confidence = ((type_bp as u64 + policy.maturity_confidence_bp as u64) / 2) as u32;
        let classification = ProjectClassification {
            status: EvidenceStatus::Complete,
            primary_type: Some(primary),
            secondary_types: types,
            tags,
            maturity: Some(maturity),
            confidence_bp: confidence,
            evidence_ids,
        };
        ClassificationOutcome {
            classification,
            primary_type: Some(primary),
            maturity: Some(maturity),
            applicability: criteria_applicability(primary, maturity, policy),
            policy_version: policy.policy_version,
            applicability_policy_version: policy.applicability_policy_version,
        }
    } else {
        let classification = ProjectClassification {
            status: EvidenceStatus::Insufficient,
            primary_type: None,
            secondary_types: Vec::new(),
            tags: Vec::new(),
            maturity: None,
            confidence_bp: 0,
            evidence_ids: Vec::new(),
        };
        ClassificationOutcome {
            classification,
            primary_type: None,
            maturity: None,
            applicability: unknown_applicability(),
            policy_version: policy.policy_version,
            applicability_policy_version: policy.applicability_policy_version,
        }
    }
}

/// An unknown classification never marks a dimension not applicable: absent
/// classification never silently excludes a dimension.
pub proof fn law_unknown_never_excludes(
    type_observations: Seq<TypeObservation>,
    maturity_observations: Seq<MaturityObservation>,
    policy: ClassificationPolicy,
    r: ClassificationOutcome,
    d: ScoreDimension,
)
    requires
        classification_matches(type_observations, maturity_observations, policy, r),
        r.spec_primary_type() is None,
    ensures
        r.spec_applicability().at(d) == RubricApplicability::PartiallyApplicable,
{
}

/// The primary type is implied by some observation, and no implied type
/// outranks it; every other implied type is recorded as secondary, in order.
pub proof fn law_primary_type_has_priority(obs: Seq<TypeObservation>)
    requires
        present_types(obs).len() > 0,
    ensures
        type_present(obs, present_types(obs)[0]),
        forall|t: ProjectType|
            type_present(obs, t) ==> type_rank(present_types(obs)[0]) <= #[trigger] type_rank(t),
        forall|t: ProjectType|
            type_present(obs, t) && t != present_types(obs)[0] ==> #[trigger] present_types(
                obs,
            ).drop_first().contains(t),
{
    lemma_present_types_from_sorted(obs, 0);
    let ts = present_types(obs);
    assert forall|t: ProjectType| type_present(obs, t) implies type_rank(ts[0]) <= #[trigger] type_rank(
        t,
    ) by {
        assert(ts.contains(t));
        let k = choose|k: int| 0 <= k < ts.len() && ts[k] == t;
        if k > 0 {
            assert(type_rank(ts[0]) < type_rank(ts[k]));
        }
    }
    assert forall|t: ProjectType| type_present(obs, t) && t != ts[0] implies #[trigger] ts.drop_first().contains(
        t,
    ) by {
        assert(ts.contains(t));
        let k = choose|k: int| 0 <= k < ts.len() && ts[k] == t;
        assert(ts.drop_first()[k - 1] == t);
    }
}

/// Each type signal names its own project type, and the descriptive signals
/// name none: curated lists are curated resources, specifications protocol
/// standards, datasets or models research artifacts, templates educational
/// examples, proof-of-concept markers experiments, service deployments
/// service platforms, CLI entrypoints developer tools, library packaging
/// libraries, and application entrypoints applications.
pub proof fn law_type_signals_name_their_types()
    ensures
        signal_type(TypeSignal::CuratedListStructure) == Some(ProjectType::CuratedResource),
        signal_type(TypeSignal::SpecificationDocument) == Some(ProjectType::ProtocolSpecificationStandard),
        signal_type(TypeSignal::DatasetOrModelArtifact) == Some(ProjectType::DatasetModelResearchArtifact),
        signal_type(TypeSignal::TemplateMarker) == Some(ProjectType::EducationalExampleTemplate),
        signal_type(TypeSignal::ProofOfConceptMarker) == Some(ProjectType::ExperimentalProofOfConcept),
        signal_type(TypeSignal::ServiceDeploymentDeclared) == Some(ProjectType::ServiceInfrastructurePlatform),
        signal_type(TypeSignal::CliEntrypointDeclared) == Some(ProjectType::CliDeveloperTool),
        signal_type(TypeSignal::LibraryPackagingDeclared) == Some(ProjectType::LibrarySdkFramework),
        signal_type(TypeSignal::ApplicationEntrypointDeclared) == Some(ProjectType::Application),
        signal_type(TypeSignal::PluginHostDeclared) is None,
        signal_type(TypeSignal::FrameworkExtensionPoints) is None,
        signal_type(TypeSignal::DevOpsInfrastructure) is None,
        forall|a: TypeSignal, b: TypeSignal|
            #[trigger] signal_type(a) is Some && signal_type(a) == #[trigger] signal_type(b) ==> a == b,
{
}

/// Some implied type is listed once a type is present, from any rank up to
/// that type's.
proof fn lemma_present_type_listed(obs: Seq<TypeObservation>, t: ProjectType, r: int)
    requires
        type_present(obs, t),
        0 <= r <= type_rank(t),
    ensures
        present_types_from(obs, r).len() > 0,
    decreases 9 - r,
{
    if !type_present(obs, type_at_rank(r)) {
        assert(type_at_rank(type_rank(t)) == t);
        assert(r != type_rank(t));
        lemma_present_type_listed(obs, t, r + 1);
    }
}

/// Some maturity is selected once a maturity signal is present, from any rank
/// up to that signal's.
proof fn lemma_maturity_selected(obs: Seq<MaturityObservation>, s: MaturitySignal, r: int)
    requires
        maturity_present(obs, s),
        0 <= r <= maturity_rank(s),
    ensures
        selected_maturity_from(obs, r) is Some,
    decreases 9 - r,
{
    if !maturity_present(obs, maturity_signal_at(r)) {
        assert(maturity_signal_at(maturity_rank(s)) == s);
        assert(r != maturity_rank(s));
        lemma_maturity_selected(obs, s, r + 1);
    }
}

/// A project whose type observations all carry one type signal, and which has
/// some maturity observation, is classified, completely, as the type that
/// signal names.
pub proof fn law_a_single_type_signal_decides_the_type(
    type_observations: Seq<TypeObservation>,
    maturity_observations: Seq<MaturityObservation>,
    policy: ClassificationPolicy,
    r: ClassificationOutcome,
    s: TypeSignal,
)
    requires
        classification_matches(type_observations, maturity_observations, policy, r),
        type_observations.len() > 0,
        forall|i: int| 0 <= i < type_observations.len() ==> (#[trigger] type_observations[i]).signal() == s,
        maturity_observations.len() > 0,
        signal_type(s) is Some,
    ensures
        r.spec_primary_type() == signal_type(s),
        r.spec_classification().status == EvidenceStatus::Complete,
{
    let t = signal_type(s)->0;
    assert(type_observations[0].signal() == s);
    assert(type_present(type_observations, t));
    lemma_present_type_listed(type_observations, t, 0);
    let m = maturity_observations[0].signal();
    assert(maturity_present(maturity_observations, m));
    lemma_maturity_selected(maturity_observations, m, 0);
    law_primary_type_has_priority(type_observations);
    let p = present_types(type_observations)[0];
    let i = choose|i: int| 0 <= i < type_observations.len() && signal_type(#[trigger] type_observations[i].signal()) == Some(p);
    assert(type_observations[i].signal() == s);
}

/// The rubric applicability of each project type at every maturity: full
/// delivery forms keep every dimension applicable but relax rigor for young
/// projects and maintenance for young or end-of-life ones; curated resources
/// and specifications only partly measure substance and never rigor;
/// datasets, models and research artifacts only partly measure rigor and
/// maintenance; templates are fully measured on readiness only; experiments
/// on substance and originality only.
pub proof fn law_applicability_table(m: ProjectMaturity)
    ensures
        forall|t: ProjectType|
            t == ProjectType::Application || t == ProjectType::CliDeveloperTool || t
                == ProjectType::ServiceInfrastructurePlatform || t == ProjectType::LibrarySdkFramework ==> {
                &&& #[trigger] resolved_applicability(t, m, ScoreDimension::ProjectSubstance)
                    == RubricApplicability::Applicable
                &&& resolved_applicability(t, m, ScoreDimension::Originality) == RubricApplicability::Applicable
                &&& resolved_applicability(t, m, ScoreDimension::OpenSourceReadiness)
                    == RubricApplicability::Applicable
                &&& resolved_applicability(t, m, ScoreDimension::EngineeringRigor) == if m
                    == ProjectMaturity::Concept || m == ProjectMaturity::Prototype {
                    RubricApplicability::PartiallyApplicable
                } else {
                    RubricApplicability::Applicable
                }
                &&& resolved_applicability(t, m, ScoreDimension::MaintenanceHealth) == if m
                    == ProjectMaturity::Concept || m == ProjectMaturity::Prototype || m
                    == ProjectMaturity::Maintenance || m == ProjectMaturity::Dormant || m
                    == ProjectMaturity::Archived {
                    RubricApplicability::PartiallyApplicable
                } else {
                    RubricApplicability::Applicable
                }
            },
        forall|t: ProjectType|
            t == ProjectType::CuratedResource || t == ProjectType::ProtocolSpecificationStandard ==> {
                &&& #[trigger] resolved_applicability(t, m, ScoreDimension::ProjectSubstance)
                    == RubricApplicability::PartiallyApplicable
                &&& resolved_applicability(t, m, ScoreDimension::Originality) == RubricApplicability::Applicable
                &&& resolved_applicability(t, m, ScoreDimension::EngineeringRigor)
                    == RubricApplicability::NotApplicable
                &&& resolved_applicability(t, m, ScoreDimension::OpenSourceReadiness)
                    == RubricApplicability::Applicable
                &&& resolved_applicability(t, m, ScoreDimension::MaintenanceHealth) == if m
                    == ProjectMaturity::Concept || m == ProjectMaturity::Prototype || m
                    == ProjectMaturity::Maintenance || m == ProjectMaturity::Dormant || m
                    == ProjectMaturity::Archived {
                    RubricApplicability::PartiallyApplicable
                } else {
                    RubricApplicability::Applicable
                }
            },
        resolved_applicability(ProjectType::DatasetModelResearchArtifact, m, ScoreDimension::ProjectSubstance)
            == RubricApplicability::Applicable,
        resolved_applicability(ProjectType::DatasetModelResearchArtifact, m, ScoreDimension::Originality)
            == RubricApplicability::Applicable,
        resolved_applicability(ProjectType::DatasetModelResearchArtifact, m, ScoreDimension::EngineeringRigor)
            == RubricApplicability::PartiallyApplicable,
        resolved_applicability(ProjectType::DatasetModelResearchArtifact, m, ScoreDimension::OpenSourceReadiness)
            == RubricApplicability::Applicable,
        resolved_applicability(ProjectType::DatasetModelResearchArtifact, m, ScoreDimension::MaintenanceHealth)
            == RubricApplicability::PartiallyApplicable,
        resolved_applicability(ProjectType::EducationalExampleTemplate, m, ScoreDimension::ProjectSubstance)
            == RubricApplicability::PartiallyApplicable,
        resolved_applicability(ProjectType::EducationalExampleTemplate, m, ScoreDimension::Originality)
            == RubricApplicability::PartiallyApplicable,
        resolved_applicability(ProjectType::EducationalExampleTemplate, m, ScoreDimension::EngineeringRigor)
            == RubricApplicability::PartiallyApplicable,
        resolved_applicability(ProjectType::EducationalExampleTemplate, m, ScoreDimension::OpenSourceReadiness)
            == RubricApplicability::Applicable,
        resolved_applicability(ProjectType::EducationalExampleTemplate, m, ScoreDimension::MaintenanceHealth)
            == RubricApplicability::PartiallyApplicable,
        resolved_applicability(ProjectType::ExperimentalProofOfConcept, m, ScoreDimension::ProjectSubstance)
            == RubricApplicability::Applicable,
        resolved_applicability(ProjectType::ExperimentalProofOfConcept, m, ScoreDimension::Originality)
            == RubricApplicability::Applicable,
        resolved_applicability(ProjectType::ExperimentalProofOfConcept, m, ScoreDimension::EngineeringRigor)
            == RubricApplicability::PartiallyApplicable,
        resolved_applicability(ProjectType::ExperimentalProofOfConcept, m, ScoreDimension::OpenSourceReadiness)
            == RubricApplicability::PartiallyApplicable,
        resolved_applicability(ProjectType::ExperimentalProofOfConcept, m, ScoreDimension::MaintenanceHealth)
            == RubricApplicability::PartiallyApplicable,
{
}

/// The descriptive tags and the maturity each signal reports: plugin hosts
/// are tagged `plugin`, framework extension points `framework` and DevOps
/// infrastructure `infrastructure`; an archived repository is archived, a
/// declared maintenance mode in maintenance, a stable release stable, beta
/// and alpha prereleases beta and alpha, sustained iteration a prototype, a
/// single initial import or a bare concept a concept, and a repository
/// without recent activity dormant.
pub proof fn law_signals_report_their_tags_and_maturity()
    ensures
        signal_tag(TypeSignal::PluginHostDeclared) == Some("plugin"@),
        signal_tag(TypeSignal::FrameworkExtensionPoints) == Some("framework"@),
        signal_tag(TypeSignal::DevOpsInfrastructure) == Some("infrastructure"@),
        forall|s: TypeSignal| #[trigger] signal_type(s) is Some ==> signal_tag(s) is None,
        signal_maturity(MaturitySignal::ArchivedRepository) == ProjectMaturity::Archived,
        signal_maturity(MaturitySignal::MaintenanceModeDeclared) == ProjectMaturity::Maintenance,
        signal_maturity(MaturitySignal::StableReleaseTagged) == ProjectMaturity::Stable,
        signal_maturity(MaturitySignal::BetaPrereleaseTagged) == ProjectMaturity::Beta,
        signal_maturity(MaturitySignal::AlphaPrereleaseTagged) == ProjectMaturity::Alpha,
        signal_maturity(MaturitySignal::SustainedIteration) == ProjectMaturity::Prototype,
        signal_maturity(MaturitySignal::SingleInitialImport) == ProjectMaturity::Concept,
        signal_maturity(MaturitySignal::ConceptOnly) == ProjectMaturity::Concept,
        signal_maturity(MaturitySignal::DormantNoRecentActivity) == ProjectMaturity::Dormant,
{
}

/// Resolution priority follows declaration order: among types, curated
/// resources win over specifications, then datasets, templates,
/// experiments, services, CLI tools, libraries and applications; among
/// maturity signals, archival wins over maintenance, then stable, beta and
/// alpha releases, sustained iteration, a single import, a bare concept and
/// inactivity.
pub proof fn law_priorities_follow_declaration_order()
    ensures
        type_rank(ProjectType::CuratedResource) < type_rank(ProjectType::ProtocolSpecificationStandard),
        type_rank(ProjectType::ProtocolSpecificationStandard) < type_rank(ProjectType::DatasetModelResearchArtifact),
        type_rank(ProjectType::DatasetModelResearchArtifact) < type_rank(ProjectType::EducationalExampleTemplate),
        type_rank(ProjectType::EducationalExampleTemplate) < type_rank(ProjectType::ExperimentalProofOfConcept),
        type_rank(ProjectType::ExperimentalProofOfConcept) < type_rank(ProjectType::ServiceInfrastructurePlatform),
        type_rank(ProjectType::ServiceInfrastructurePlatform) < type_rank(ProjectType::CliDeveloperTool),
        type_rank(ProjectType::CliDeveloperTool) < type_rank(ProjectType::LibrarySdkFramework),
        type_rank(ProjectType::LibrarySdkFramework) < type_rank(ProjectType::Application),
        maturity_rank(MaturitySignal::ArchivedRepository) < maturity_rank(MaturitySignal::MaintenanceModeDeclared),
        maturity_rank(MaturitySignal::MaintenanceModeDeclared) < maturity_rank(MaturitySignal::StableReleaseTagged),
        maturity_rank(MaturitySignal::StableReleaseTagged) < maturity_rank(MaturitySignal::BetaPrereleaseTagged),
        maturity_rank(MaturitySignal::BetaPrereleaseTagged) < maturity_rank(MaturitySignal::AlphaPrereleaseTagged),
        maturity_rank(MaturitySignal::AlphaPrereleaseTagged) < maturity_rank(MaturitySignal::SustainedIteration),
        maturity_rank(MaturitySignal::SustainedIteration) < maturity_rank(MaturitySignal::SingleInitialImport),
        maturity_rank(MaturitySignal::SingleInitialImport) < maturity_rank(MaturitySignal::ConceptOnly),
        maturity_rank(MaturitySignal::ConceptOnly) < maturity_rank(MaturitySignal::DormantNoRecentActivity),
        forall|a: ProjectType, b: ProjectType| #[trigger] type_rank(a) == #[trigger] type_rank(b) ==> a == b,
        forall|a: MaturitySignal, b: MaturitySignal|
            #[trigger] maturity_rank(a) == #[trigger] maturity_rank(b) ==> a == b,
{
}

/// Once any observation implies a type, some type is primary: an implied type
/// that no other implied type outranks.
pub proof fn law_primary_type_is_the_first_in_priority(obs: Seq<TypeObservation>, t: ProjectType)
    requires
        type_present(obs, t),
    ensures
        present_types(obs).len() > 0,
        type_rank(present_types(obs)[0]) <= type_rank(t),
        type_present(obs, present_types(obs)[0]),
{
    lemma_present_type_listed(obs, t, 0);
    law_primary_type_has_priority(obs);
}

/// The combined confidence is the mean of the type and maturity confidences:
/// under the first policy version 7500 basis points for a single delivery
/// form and 6500 when several compete.
pub proof fn law_confidence_is_the_mean_of_type_and_maturity(policy: ClassificationPolicy)
    requires
        policy.spec_single_type_bp() == 8000,
        policy.spec_ambiguous_type_bp() == 6000,
        policy.spec_maturity_bp() == 7000,
    ensures
        classification_confidence_bp(policy, false) == 7500,
        classification_confidence_bp(policy, true) == 6500,
{
}

/// The delivery forms, whose competition makes a classification ambiguous,
/// are services, CLI tools, libraries and applications.
pub proof fn law_delivery_forms(t: ProjectType)
    ensures
        is_delivery_form(t) <==> (t == ProjectType::ServiceInfrastructurePlatform || t == ProjectType::CliDeveloperTool
            || t == ProjectType::LibrarySdkFramework || t == ProjectType::Application),
{
}

} // verus!
