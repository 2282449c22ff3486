use assay_project_intelligence::bundle_feature::derive_repository_feature;
use assay_project_intelligence::json::JsonValue;

fn text(value: &str) -> JsonValue {
    JsonValue::Text(value.to_owned())
}

fn object(entries: Vec<(&str, JsonValue)>) -> JsonValue {
    JsonValue::Object(entries.into_iter().map(|(key, value)| (key.to_owned(), value)).collect())
}

fn envelope(id: &str, requested_kind: &str) -> JsonValue {
    object(vec![
        ("id", text(id)),
        ("status", text("unsupported")),
        ("requested_kind", text(requested_kind)),
        ("reason", text("path_length_limit")),
    ])
}

fn tracked_file(id: &str, path: &str) -> JsonValue {
    object(vec![
        ("id", text(id)),
        ("status", text("complete")),
        (
            "payload",
            object(vec![
                ("kind", text("tracked_file")),
                ("path", object(vec![("encoding", text("utf8")), ("value", text(path))])),
            ]),
        ),
    ])
}

fn classification(id: &str, category: &str) -> JsonValue {
    classification_with_status(id, "complete", category)
}

fn classification_with_status(id: &str, status: &str, category: &str) -> JsonValue {
    object(vec![
        ("id", text(id)),
        ("status", text(status)),
        (
            "payload",
            object(vec![
                ("kind", text("file_classification")),
                ("classification", object(vec![("primary_category", text(category))])),
            ]),
        ),
    ])
}

#[test]
fn path_features_cite_every_payload_free_raw_envelope_in_sorted_order() {
    let evidence = [
        envelope("evidence:tracked-file:v1-z", "tracked_file"),
        envelope("evidence:tracked-file:v1-a", "tracked_file"),
    ];

    let feature = derive_repository_feature("license", &evidence).unwrap();

    assert_eq!(feature.state, "unavailable");
    assert_eq!(
        feature.related_evidence_ids,
        ["evidence:tracked-file:v1-a".to_owned(), "evidence:tracked-file:v1-z".to_owned()]
    );
}

#[test]
fn classification_features_cite_every_payload_free_classification_envelope() {
    let evidence = [
        envelope("evidence:file-classification:v1-z", "file_classification"),
        envelope("evidence:file-classification:v1-a", "file_classification"),
    ];

    let feature = derive_repository_feature("test", &evidence).unwrap();

    assert_eq!(feature.state, "unavailable");
    assert_eq!(
        feature.related_evidence_ids,
        ["evidence:file-classification:v1-a".to_owned(), "evidence:file-classification:v1-z".to_owned()]
    );
}

#[test]
fn reliable_public_matches_take_precedence_over_opaque_causes() {
    let path_evidence = [
        envelope("evidence:tracked-file:v1-opaque", "tracked_file"),
        tracked_file("evidence:tracked-file:v1-readme", "README.md"),
    ];
    let classification_evidence = [
        envelope("evidence:file-classification:v1-opaque", "file_classification"),
        classification("evidence:file-classification:v1-test", "test"),
    ];

    let readme = derive_repository_feature("readme", &path_evidence).unwrap();
    let test = derive_repository_feature("test", &classification_evidence).unwrap();

    assert_eq!(readme.state, "present");
    assert_eq!(readme.related_evidence_ids, ["evidence:tracked-file:v1-readme".to_owned()]);
    assert_eq!(test.state, "present");
    assert_eq!(test.related_evidence_ids, ["evidence:file-classification:v1-test".to_owned()]);
}

#[test]
fn an_unknown_feature_name_is_rejected() {
    assert_eq!(derive_repository_feature("mascot", &[]).unwrap_err(), "feature_name");
}

#[test]
fn a_feature_without_any_evidence_is_absent() {
    let evidence = [tracked_file("evidence:tracked-file:v1-main", "src/main.rs")];
    let feature = derive_repository_feature("license", &evidence).unwrap();
    assert_eq!(feature.state, "absent");
    assert!(feature.related_evidence_ids.is_empty());
}

#[test]
fn an_incomplete_direct_match_is_cited_before_other_uncertainty() {
    let evidence = [
        classification_with_status("evidence:file-classification:v1-b", "partial", "test"),
        classification_with_status("evidence:file-classification:v1-a", "partial", "documentation"),
    ];
    let feature = derive_repository_feature("test", &evidence).unwrap();
    assert_eq!(feature.state, "unavailable");
    assert_eq!(feature.related_evidence_ids, ["evidence:file-classification:v1-b".to_owned()]);
}

#[test]
fn license_matches_copying_and_names_are_case_insensitive() {
    let evidence = [
        tracked_file("evidence:tracked-file:v1-b", "docs/COPYING"),
        tracked_file("evidence:tracked-file:v1-a", "License.md"),
    ];
    let feature = derive_repository_feature("license", &evidence).unwrap();
    assert_eq!(feature.state, "present");
    assert_eq!(
        feature.related_evidence_ids,
        ["evidence:tracked-file:v1-a".to_owned(), "evidence:tracked-file:v1-b".to_owned()]
    );
}
