use assay_project_intelligence::classification::{
    ClassificationErrorKind, ClassificationPolicy, MaturityObservation, MaturitySignal, TypeObservation,
    TypeSignal, classify_project,
};
use assay_project_intelligence::domain::{
    EvidenceId, ProjectMaturity, ProjectType, RubricApplicability, ScoreDimension, assay_score_dimensions,
};

fn classification_evidence(value: &str) -> EvidenceId {
    EvidenceId::parse(value).unwrap()
}

fn classification_type_obs(signal: TypeSignal) -> TypeObservation {
    TypeObservation::new(signal, vec![classification_evidence("evidence:readme:signal")]).unwrap()
}

fn classification_maturity_obs(signal: MaturitySignal) -> MaturityObservation {
    MaturityObservation::new(signal, vec![classification_evidence("evidence:history:signal")]).unwrap()
}

#[test]
fn classification_a_single_delivery_form_resolves_to_that_primary_type() {
    let outcome = classify_project(
        &[classification_type_obs(TypeSignal::CliEntrypointDeclared)],
        &[classification_maturity_obs(MaturitySignal::SustainedIteration)],
        &ClassificationPolicy::v1(),
    );
    assert_eq!(outcome.primary_type(), Some(ProjectType::CliDeveloperTool));
    assert_eq!(outcome.maturity(), Some(ProjectMaturity::Prototype));
    assert_eq!(
        outcome.classification().evidence_ids().len(),
        2,
        "the resolved classification cites its type and maturity observations"
    );
}

#[test]
fn classification_a_specific_artifact_type_wins_over_a_delivery_form_and_records_a_secondary() {
    let outcome = classify_project(
        &[
            classification_type_obs(TypeSignal::CuratedListStructure),
            classification_type_obs(TypeSignal::ApplicationEntrypointDeclared),
        ],
        &[classification_maturity_obs(MaturitySignal::StableReleaseTagged)],
        &ClassificationPolicy::v1(),
    );
    assert_eq!(outcome.primary_type(), Some(ProjectType::CuratedResource));
}

#[test]
fn classification_conflicting_delivery_forms_reduce_confidence() {
    let clear = classify_project(
        &[classification_type_obs(TypeSignal::LibraryPackagingDeclared)],
        &[classification_maturity_obs(MaturitySignal::StableReleaseTagged)],
        &ClassificationPolicy::v1(),
    );
    let ambiguous = classify_project(
        &[
            classification_type_obs(TypeSignal::LibraryPackagingDeclared),
            classification_type_obs(TypeSignal::ApplicationEntrypointDeclared),
        ],
        &[classification_maturity_obs(MaturitySignal::StableReleaseTagged)],
        &ClassificationPolicy::v1(),
    );
    assert!(
        format!("{:?}", ambiguous.classification()) != format!("{:?}", clear.classification()),
        "ambiguity must be reflected in the classification"
    );
}

#[test]
fn classification_an_absent_maturity_signal_yields_an_unknown_classification() {
    let outcome = classify_project(
        &[classification_type_obs(TypeSignal::LibraryPackagingDeclared)],
        &[],
        &ClassificationPolicy::v1(),
    );
    assert_eq!(outcome.primary_type(), None);
    assert_eq!(
        outcome.classification().evidence_ids(),
        &[] as &[EvidenceId],
        "an unknown classification cites nothing and invents no type"
    );
}

#[test]
fn classification_tags_are_derived_from_auxiliary_signals() {
    let outcome = classify_project(
        &[
            classification_type_obs(TypeSignal::LibraryPackagingDeclared),
            classification_type_obs(TypeSignal::FrameworkExtensionPoints),
            classification_type_obs(TypeSignal::PluginHostDeclared),
        ],
        &[classification_maturity_obs(MaturitySignal::StableReleaseTagged)],
        &ClassificationPolicy::v1(),
    );
    assert_eq!(outcome.primary_type(), Some(ProjectType::LibrarySdkFramework));
}

#[test]
fn classification_a_curated_resource_excludes_engineering_rigor_but_not_via_zero() {
    let outcome = classify_project(
        &[classification_type_obs(TypeSignal::CuratedListStructure)],
        &[classification_maturity_obs(MaturitySignal::MaintenanceModeDeclared)],
        &ClassificationPolicy::v1(),
    );
    assert_eq!(
        outcome.applicability(ScoreDimension::EngineeringRigor),
        RubricApplicability::NotApplicable
    );
    assert_eq!(
        outcome.applicability(ScoreDimension::OpenSourceReadiness),
        RubricApplicability::Applicable
    );
}

#[test]
fn classification_a_young_project_relaxes_rigor_and_maintenance_applicability() {
    let outcome = classify_project(
        &[classification_type_obs(TypeSignal::LibraryPackagingDeclared)],
        &[classification_maturity_obs(MaturitySignal::ConceptOnly)],
        &ClassificationPolicy::v1(),
    );
    assert_eq!(
        outcome.applicability(ScoreDimension::EngineeringRigor),
        RubricApplicability::PartiallyApplicable
    );
    assert_eq!(
        outcome.applicability(ScoreDimension::MaintenanceHealth),
        RubricApplicability::PartiallyApplicable
    );
    assert_eq!(
        outcome.applicability(ScoreDimension::ProjectSubstance),
        RubricApplicability::Applicable
    );
}

#[test]
fn classification_an_unknown_classification_never_marks_a_dimension_not_applicable() {
    let outcome = classify_project(&[], &[], &ClassificationPolicy::v1());
    for dimension in assay_score_dimensions() {
        assert_eq!(
            outcome.applicability(dimension),
            RubricApplicability::PartiallyApplicable
        );
    }
}

#[test]
fn classification_an_uncited_observation_is_rejected() {
    assert_eq!(
        TypeObservation::new(TypeSignal::CliEntrypointDeclared, Vec::new())
            .unwrap_err()
            .kind(),
        ClassificationErrorKind::UncitedObservation
    );
}

#[test]
fn tests_a_single_delivery_form_resolves_to_that_primary_type() {
    let outcome = classify_project(
        &[classification_type_obs(TypeSignal::CliEntrypointDeclared)],
        &[classification_maturity_obs(MaturitySignal::SustainedIteration)],
        &ClassificationPolicy::v1(),
    );
    assert_eq!(outcome.primary_type(), Some(ProjectType::CliDeveloperTool));
    assert_eq!(outcome.maturity(), Some(ProjectMaturity::Prototype));
    assert_eq!(
        outcome.classification().evidence_ids().len(),
        2,
        "the resolved classification cites its type and maturity observations"
    );
}

#[test]
fn tests_a_specific_artifact_type_wins_over_a_delivery_form_and_records_a_secondary() {
    let outcome = classify_project(
        &[
            classification_type_obs(TypeSignal::CuratedListStructure),
            classification_type_obs(TypeSignal::ApplicationEntrypointDeclared),
        ],
        &[classification_maturity_obs(MaturitySignal::StableReleaseTagged)],
        &ClassificationPolicy::v1(),
    );
    assert_eq!(outcome.primary_type(), Some(ProjectType::CuratedResource));
}

#[test]
fn tests_conflicting_delivery_forms_reduce_confidence() {
    let clear = classify_project(
        &[classification_type_obs(TypeSignal::LibraryPackagingDeclared)],
        &[classification_maturity_obs(MaturitySignal::StableReleaseTagged)],
        &ClassificationPolicy::v1(),
    );
    let ambiguous = classify_project(
        &[
            classification_type_obs(TypeSignal::LibraryPackagingDeclared),
            classification_type_obs(TypeSignal::ApplicationEntrypointDeclared),
        ],
        &[classification_maturity_obs(MaturitySignal::StableReleaseTagged)],
        &ClassificationPolicy::v1(),
    );
    assert!(
        format!("{:?}", ambiguous.classification()) != format!("{:?}", clear.classification()),
        "ambiguity must be reflected in the classification"
    );
}

#[test]
fn tests_an_absent_maturity_signal_yields_an_unknown_classification() {
    let outcome = classify_project(
        &[classification_type_obs(TypeSignal::LibraryPackagingDeclared)],
        &[],
        &ClassificationPolicy::v1(),
    );
    assert_eq!(outcome.primary_type(), None);
    assert_eq!(
        outcome.classification().evidence_ids(),
        &[] as &[EvidenceId],
        "an unknown classification cites nothing and invents no type"
    );
}

#[test]
fn tests_tags_are_derived_from_auxiliary_signals() {
    let outcome = classify_project(
        &[
            classification_type_obs(TypeSignal::LibraryPackagingDeclared),
            classification_type_obs(TypeSignal::FrameworkExtensionPoints),
            classification_type_obs(TypeSignal::PluginHostDeclared),
        ],
        &[classification_maturity_obs(MaturitySignal::StableReleaseTagged)],
        &ClassificationPolicy::v1(),
    );
    assert_eq!(outcome.primary_type(), Some(ProjectType::LibrarySdkFramework));
}

#[test]
fn tests_a_curated_resource_excludes_engineering_rigor_but_not_via_zero() {
    let outcome = classify_project(
        &[classification_type_obs(TypeSignal::CuratedListStructure)],
        &[classification_maturity_obs(MaturitySignal::MaintenanceModeDeclared)],
        &ClassificationPolicy::v1(),
    );
    assert_eq!(
        outcome.applicability(ScoreDimension::EngineeringRigor),
        RubricApplicability::NotApplicable
    );
    assert_eq!(
        outcome.applicability(ScoreDimension::OpenSourceReadiness),
        RubricApplicability::Applicable
    );
}

#[test]
fn tests_a_young_project_relaxes_rigor_and_maintenance_applicability() {
    let outcome = classify_project(
        &[classification_type_obs(TypeSignal::LibraryPackagingDeclared)],
        &[classification_maturity_obs(MaturitySignal::ConceptOnly)],
        &ClassificationPolicy::v1(),
    );
    assert_eq!(
        outcome.applicability(ScoreDimension::EngineeringRigor),
        RubricApplicability::PartiallyApplicable
    );
    assert_eq!(
        outcome.applicability(ScoreDimension::MaintenanceHealth),
        RubricApplicability::PartiallyApplicable
    );
    assert_eq!(
        outcome.applicability(ScoreDimension::ProjectSubstance),
        RubricApplicability::Applicable
    );
}

#[test]
fn tests_an_unknown_classification_never_marks_a_dimension_not_applicable() {
    let outcome = classify_project(&[], &[], &ClassificationPolicy::v1());
    for dimension in assay_score_dimensions() {
        assert_eq!(
            outcome.applicability(dimension),
            RubricApplicability::PartiallyApplicable
        );
    }
}

#[test]
fn tests_an_uncited_observation_is_rejected() {
    assert_eq!(
        TypeObservation::new(TypeSignal::CliEntrypointDeclared, Vec::new())
            .unwrap_err()
            .kind(),
        ClassificationErrorKind::UncitedObservation
    );
}
