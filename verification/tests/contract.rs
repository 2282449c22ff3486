use assay_project_intelligence::contract::validate_project_bundle_consistency;
use assay_project_intelligence::digest::stable_hash;
use assay_project_intelligence::features::repository_feature_id;
use assay_project_intelligence::json::{JsonNumber, JsonValue};

const EVIDENCE_BYTES: &[u8] = b"[the serialized evidence]";
const HISTORY_ID: &str = "evidence:history-scope:v1-b";
const SNAPSHOT_ID: &str = "evidence:repository-snapshot:v1-a";

fn text(value: &str) -> JsonValue {
    JsonValue::Text(value.to_owned())
}

fn count(value: u64) -> JsonValue {
    JsonValue::Number(JsonNumber::Unsigned(value))
}

fn object(entries: Vec<(&str, JsonValue)>) -> JsonValue {
    JsonValue::Object(entries.into_iter().map(|(key, value)| (key.to_owned(), value)).collect())
}

fn source() -> JsonValue {
    object(vec![
        ("kind", text("hosted")),
        ("provider", text("github")),
        ("namespace", text("o")),
        ("repository", text("r")),
    ])
}

fn provenance() -> JsonValue {
    object(vec![("repository_revision", text("rev"))])
}

fn history() -> JsonValue {
    object(vec![
        ("repository", source()),
        ("id", text(HISTORY_ID)),
        ("status", text("complete")),
        ("provenance", provenance()),
        (
            "payload",
            object(vec![
                ("kind", text("history_scope")),
                ("head_revision", text("rev")),
                ("base_revision", JsonValue::Null),
                ("commit_count", count(3)),
            ]),
        ),
    ])
}

fn snapshot() -> JsonValue {
    object(vec![
        ("repository", source()),
        ("id", text(SNAPSHOT_ID)),
        ("status", text("complete")),
        ("provenance", provenance()),
        ("payload", object(vec![("kind", text("repository_snapshot")), ("root_tree", text("tree")), ("commit_time", count(5))])),
    ])
}

fn readme_feature(state: &str, id: &str) -> JsonValue {
    object(vec![
        ("repository", source()),
        ("id", text(id)),
        ("status", text("complete")),
        ("provenance", provenance()),
        (
            "payload",
            object(vec![
                ("kind", text("repository_feature")),
                ("feature", text("readme")),
                ("state", text(state)),
                ("related_evidence_ids", JsonValue::Array(Vec::new())),
            ]),
        ),
    ])
}

fn absent_readme_id() -> String {
    repository_feature_id("hosted:github:o:r", "rev", "readme", "absent", &Vec::new())
}

fn data_source(id: &str, kind: &str) -> JsonValue {
    object(vec![("id", text(id)), ("kind", text(kind)), ("status", text("complete")), ("revision", text("rev"))])
}

fn bundle(evidence: Vec<JsonValue>, status: &str, warnings: Vec<JsonValue>) -> JsonValue {
    let records = evidence.len() as u64;
    object(vec![
        (
            "manifest",
            object(vec![
                (
                    "source_snapshot",
                    object(vec![
                        ("source", source()),
                        ("revision", text("rev")),
                        ("root_tree", text("tree")),
                        ("commit_time", count(5)),
                    ]),
                ),
                (
                    "scope",
                    object(vec![
                        ("head_revision", text("rev")),
                        ("base_revision", JsonValue::Null),
                        ("history_status", text("complete")),
                        ("commit_count", count(3)),
                    ]),
                ),
                ("status", text(status)),
                (
                    "data_sources",
                    JsonValue::Array(vec![
                        data_source(SNAPSHOT_ID, "repository"),
                        data_source(HISTORY_ID, "repository_history"),
                    ]),
                ),
                ("warnings", JsonValue::Array(warnings)),
                ("limitations", JsonValue::Array(Vec::new())),
                (
                    "artifacts",
                    JsonValue::Array(vec![object(vec![
                        ("role", text("project_evidence")),
                        ("status", text(status)),
                        ("record_count", count(records)),
                        ("content_hash", text(&stable_hash(EVIDENCE_BYTES))),
                    ])]),
                ),
            ]),
        ),
        ("evidence", JsonValue::Array(evidence)),
    ])
}

fn consistent() -> JsonValue {
    bundle(vec![history(), readme_feature("absent", &absent_readme_id()), snapshot()], "complete", Vec::new())
}

#[test]
fn a_consistent_bundle_passes() {
    assert_eq!(validate_project_bundle_consistency(&consistent(), EVIDENCE_BYTES), Ok(()));
}

#[test]
fn a_bundle_without_a_manifest_is_refused() {
    let value = object(vec![("evidence", JsonValue::Array(Vec::new()))]);
    assert_eq!(validate_project_bundle_consistency(&value, b""), Err("missing_manifest"));
    let value = object(vec![("manifest", object(Vec::new()))]);
    assert_eq!(validate_project_bundle_consistency(&value, b""), Err("missing_evidence"));
}

#[test]
fn records_must_be_ordered_by_identifier() {
    let value = bundle(vec![snapshot(), history()], "complete", Vec::new());
    assert_eq!(validate_project_bundle_consistency(&value, EVIDENCE_BYTES), Err("evidence_order"));
}

#[test]
fn every_record_cites_the_manifest_repository() {
    let mut foreign = history();
    if let JsonValue::Object(entries) = &mut foreign {
        entries[0].1 = object(vec![("kind", text("local")), ("repository_id", text("sha256:00"))]);
    }
    let value = bundle(vec![foreign, snapshot()], "complete", Vec::new());
    assert_eq!(validate_project_bundle_consistency(&value, EVIDENCE_BYTES), Err("source_mismatch"));
}

#[test]
fn diagnostics_may_cite_only_records_of_the_bundle() {
    let warning = object(vec![("affected_evidence_ids", JsonValue::Array(vec![text("evidence:unknown:v1-x")]))]);
    let value = bundle(vec![history(), snapshot()], "complete", vec![warning]);
    assert_eq!(validate_project_bundle_consistency(&value, EVIDENCE_BYTES), Err("unknown_evidence_reference"));
}

#[test]
fn the_artifact_hash_covers_the_serialized_evidence() {
    assert_eq!(validate_project_bundle_consistency(&consistent(), b"[other bytes]"), Err("artifact_hash"));
}

#[test]
fn a_partial_status_needs_a_limitation() {
    let value = bundle(vec![history(), readme_feature("absent", &absent_readme_id()), snapshot()], "partial", Vec::new());
    assert_eq!(validate_project_bundle_consistency(&value, EVIDENCE_BYTES), Err("partial_status_without_limitation"));
}

#[test]
fn a_present_feature_must_cite_evidence() {
    let value = bundle(vec![history(), readme_feature("present", &absent_readme_id()), snapshot()], "complete", Vec::new());
    assert_eq!(validate_project_bundle_consistency(&value, EVIDENCE_BYTES), Err("feature_present_references"));
}

#[test]
fn a_feature_identifier_is_derived_from_its_content() {
    let id = "evidence:repository-feature:v1-000000000000000000000000";
    let value = bundle(vec![history(), readme_feature("absent", id), snapshot()], "complete", Vec::new());
    assert_eq!(validate_project_bundle_consistency(&value, EVIDENCE_BYTES), Err("feature_identity"));
}

#[test]
fn a_feature_identifier_is_a_short_digest() {
    let id = absent_readme_id();
    assert!(id.starts_with("evidence:repository-feature:v1-"));
    assert_eq!(id.len(), "evidence:repository-feature:v1-".len() + 24);
}
