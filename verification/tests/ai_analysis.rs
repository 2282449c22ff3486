use assay_project_intelligence::ai_analysis::{
    Judgment, JudgmentDocument, JudgmentPrivacy, ProjectAiAnalysisEnvelope, StoredProjectAiAnalysis,
    is_unit_confidence, valid_evidence_id,
};

const HASH: &str = "sha256:0123456789abcdef0123456789abcdef0123456789abcdef0123456789abcdef";

fn stored() -> StoredProjectAiAnalysis {
    StoredProjectAiAnalysis {
        owner: "assay".into(),
        repository: "example".into(),
        commit_sha: "0123456789abcdef0123456789abcdef01234567".into(),
        default_branch: "main".into(),
        evaluation_version: "hosted-evaluation-1".into(),
        rubric_version: "project-rubric-1".into(),
        evidence_bundle_hash: HASH.into(),
    }
}

fn judgment(evidence_ids: Vec<&str>, rationale: &str) -> Judgment {
    Judgment {
        criterion_id: "quality.documentation".into(),
        applicability: "applicable".into(),
        rating: Some(3),
        rating_scale: 4,
        confidence: 0.8f64.to_string(),
        evidence_ids: evidence_ids.into_iter().map(str::to_owned).collect(),
        rationale: rationale.into(),
    }
}

fn document(evidence_scope: &str, external_transmission: &str, judgments: Vec<Judgment>) -> JudgmentDocument {
    JudgmentDocument {
        schema_version: "1.0.0".into(),
        evaluation_version: "hosted-evaluation-1".into(),
        rubric_version: "project-rubric-1".into(),
        status: "complete".into(),
        evidence_bundle_hash: HASH.into(),
        privacy: JudgmentPrivacy {
            evidence_scope: evidence_scope.into(),
            external_transmission: external_transmission.into(),
        },
        judgments,
    }
}

#[test]
fn projects_only_public_bound_validated_judgments() {
    let judgments = || vec![judgment(vec!["evidence:github:readme"], "Clear public documentation.")];
    let output =
        ProjectAiAnalysisEnvelope::from_stored(stored(), document("public_only", "not_used", judgments())).unwrap();
    assert_eq!(output.data.interpretation.not_a_project_score, true);
    assert!(!output.data.judgments[0].rationale.is_empty());

    let public_transmission = document("public_only", "public_only", judgments());
    assert!(ProjectAiAnalysisEnvelope::from_stored(stored(), public_transmission).is_some());
}

#[test]
fn rejects_private_or_mismatched_judgments() {
    let private = document("private_local", "not_used", Vec::new());
    assert!(ProjectAiAnalysisEnvelope::from_stored(stored(), private).is_none());
    let mut legacy = document("public_only", "not_used", Vec::new());
    legacy.evaluation_version = "legacy".into();
    assert!(ProjectAiAnalysisEnvelope::from_stored(stored(), legacy).is_none());
}

#[test]
fn rejects_schema_invalid_judgment_fields() {
    let duplicated = document(
        "public_only",
        "public_only",
        vec![judgment(vec!["evidence:github:readme", "evidence:github:readme"], "Supported.")],
    );
    assert!(ProjectAiAnalysisEnvelope::from_stored(stored(), duplicated).is_none());
    let empty_rationale = document("public_only", "public_only", vec![judgment(vec!["evidence:github:readme"], "")]);
    assert!(ProjectAiAnalysisEnvelope::from_stored(stored(), empty_rationale).is_none());
}

#[test]
fn a_published_analysis_keeps_its_binding_and_limitations() {
    let output = ProjectAiAnalysisEnvelope::from_stored(
        stored(),
        document("public_only", "not_used", vec![judgment(vec!["evidence:github:readme"], "Cited.")]),
    )
    .unwrap();
    assert_eq!(output.contract, "project-ai-analysis");
    assert_eq!(output.schema_version, "1.0.0");
    assert_eq!(output.data.interpretation.kind, "ai_interpretation");
    assert_eq!(output.data.evaluation.evidence_bundle_hash, HASH);
    assert_eq!(output.data.project.owner, "assay");
    assert_eq!(output.data.revision.default_branch, "main");
    assert_eq!(
        output.data.limitations,
        vec![
            "AI interpretation of cited public evidence only; it is not a project score.".to_owned(),
            "Missing or insufficient evidence is not treated as a zero.".to_owned(),
        ]
    );
}

#[test]
fn not_applicable_judgments_carry_no_rating_and_no_citations() {
    let mut not_applicable = judgment(Vec::new(), "Not relevant here.");
    not_applicable.applicability = "not_applicable".into();
    not_applicable.rating = None;
    let accepted = document("public_only", "not_used", vec![not_applicable]);
    assert!(ProjectAiAnalysisEnvelope::from_stored(stored(), accepted).is_some());

    let mut rated = judgment(Vec::new(), "Not relevant here.");
    rated.applicability = "not_applicable".into();
    let rejected = document("public_only", "not_used", vec![rated]);
    assert!(ProjectAiAnalysisEnvelope::from_stored(stored(), rejected).is_none());
}

#[test]
fn evidence_identifiers_need_two_clean_segments() {
    assert!(valid_evidence_id("evidence:github:readme"));
    assert!(valid_evidence_id("evidence:tracked-file:v1-abc_1.2"));
    assert!(!valid_evidence_id("evidence:readme"));
    assert!(!valid_evidence_id("evidence::readme"));
    assert!(!valid_evidence_id("evidence:github:"));
    assert!(!valid_evidence_id("evidence:GitHub:readme"));
    assert!(!valid_evidence_id("proof:github:readme"));
}

#[test]
fn confidences_lie_between_zero_and_one() {
    for accepted in [0.0f64, -0.0, 0.8, 1.0, 0.000001] {
        assert!(is_unit_confidence(&accepted.to_string()), "{accepted}");
    }
    for rejected in [1.5f64, -0.1, 2.0, f64::NAN, f64::INFINITY] {
        assert!(!is_unit_confidence(&rejected.to_string()), "{rejected}");
    }
}
