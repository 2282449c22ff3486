use assay_project_intelligence::assembly::assemble_project_evidence;
use assay_project_intelligence::contract::validate_project_bundle_consistency;
use assay_project_intelligence::domain::{AnalysisStatus, ContentHash, EvidenceStatus, RepositorySource, RevisionId};
use assay_project_intelligence::evidence::{
    ClassificationAvailabilityReason, ClassificationCategoryRecord, ClassificationEvidenceKindRecord, EntryMode,
    GitObjectFormatRecord, ObjectKind,
};
use assay_project_intelligence::file_classification::{
    ClassificationEvidenceFact, ClassifiedSnapshotFile, FileClassificationResult,
};
use assay_project_intelligence::json::{JsonNumber, JsonValue};
use assay_project_intelligence::machine::{build_project_analysis, project_evidence_records};
use assay_project_intelligence::raw_facts::{
    GitEvidenceProvenance, HistorySummary, ObjectContent, ParentDeltaSummary, RepositorySnapshot, SourceSnapshot,
    TrackedEntry,
};
use serde_json::Value;

fn to_serde(value: &JsonValue) -> Value {
    match value {
        JsonValue::Null => Value::Null,
        JsonValue::Bool(b) => Value::Bool(*b),
        JsonValue::Number(JsonNumber::Unsigned(n)) => Value::from(*n),
        JsonValue::Number(JsonNumber::Negative(n)) => Value::from(*n),
        JsonValue::Number(JsonNumber::BasisPoints(bp)) => Value::from(f64::from(*bp) / 10_000.0),
        JsonValue::Number(JsonNumber::Float(text)) => Value::from(text.parse::<f64>().unwrap()),
        JsonValue::Text(text) => Value::String(text.clone()),
        JsonValue::Array(items) => Value::Array(items.iter().map(to_serde).collect()),
        JsonValue::Object(entries) => {
            let mut map = serde_json::Map::new();
            for (key, entry) in entries {
                map.insert(key.clone(), to_serde(entry));
            }
            Value::Object(map)
        }
    }
}

fn entry(path: &str, object_id: &str, digest: char) -> TrackedEntry {
    TrackedEntry {
        path: path.as_bytes().to_vec(),
        portable_text: Some(path.to_owned()),
        object_id: object_id.to_owned(),
        mode: EntryMode::Regular,
        kind: ObjectKind::Blob,
        content: ObjectContent {
            status: EvidenceStatus::Complete,
            size: Some(12),
            content_hash: Some(ContentHash::parse(&format!("sha256:{}", digest.to_string().repeat(64))).unwrap()),
            issue: None,
        },
    }
}

fn snapshot() -> RepositorySnapshot {
    RepositorySnapshot {
        source_snapshot: SourceSnapshot {
            source: RepositorySource::hosted("github", "example-org", "seed").unwrap(),
            revision: RevisionId::parse("0123456789abcdef0123456789abcdef01234567").unwrap(),
            root_tree: Some(RevisionId::parse("89abcdef0123456789abcdef0123456789abcdef").unwrap()),
        },
        provenance: GitEvidenceProvenance {
            adapter_id: "assay-git".into(),
            git_version: "2.45.0".into(),
            object_format: GitObjectFormatRecord::Sha1,
        },
        status: EvidenceStatus::Complete,
        commit_time: Some(1_700_000_000),
        entries: vec![
            entry("README.md", "1111111111111111111111111111111111111111", 'a'),
            entry("src/lib.rs", "2222222222222222222222222222222222222222", 'b'),
        ],
        history: HistorySummary { status: EvidenceStatus::Complete, reachable_commits: 3, truncated: false, issue: None },
        parent_delta: ParentDeltaSummary {
            status: EvidenceStatus::Complete,
            issue: None,
            changed_entries: 1,
            renames: 0,
        },
    }
}

fn classification(category: ClassificationCategoryRecord, rule: &str) -> FileClassificationResult {
    FileClassificationResult {
        category,
        tags: Vec::new(),
        rule_id: rule.into(),
        confidence_basis_points: 9_000,
        evidence: vec![ClassificationEvidenceFact {
            kind: ClassificationEvidenceKindRecord::PolicyRule,
            rule_id: rule.into(),
            attribute_name: None,
            attribute_value: None,
        }],
        attributes_unavailable: false,
    }
}

fn bundle() -> (Value, Vec<u8>) {
    let s = snapshot();
    let classified = vec![
        ClassifiedSnapshotFile::classify(
            &s,
            &s.entries[0],
            "classifier-policy-1",
            Some(classification(ClassificationCategoryRecord::Documentation, "readme")),
        )
        .unwrap(),
        ClassifiedSnapshotFile::classify(
            &s,
            &s.entries[1],
            "classifier-policy-1",
            Some(classification(ClassificationCategoryRecord::ProductionCode, "source")),
        )
        .unwrap(),
    ];
    let manifest = assemble_project_evidence(&s, classified).unwrap();
    let records = project_evidence_records(&s, &manifest, "2024-01-01T00:00:00Z").unwrap();
    let bytes = serde_json::to_vec(&records.iter().map(to_serde).collect::<Vec<_>>()).unwrap();
    let value = build_project_analysis(&s, &manifest, "2024-01-01T00:00:00Z", "0.1.0", records, &bytes).unwrap();
    (to_serde(&value), bytes)
}

fn from_serde(value: &Value) -> JsonValue {
    match value {
        Value::Null => JsonValue::Null,
        Value::Bool(b) => JsonValue::Bool(*b),
        Value::Number(n) => match (n.as_u64(), n.as_i64()) {
            (Some(u), _) => JsonValue::Number(JsonNumber::Unsigned(u)),
            (None, Some(i)) => JsonValue::Number(JsonNumber::Negative(i)),
            _ => JsonValue::Number(JsonNumber::Float(n.to_string())),
        },
        Value::String(text) => JsonValue::Text(text.clone()),
        Value::Array(items) => JsonValue::Array(items.iter().map(from_serde).collect()),
        Value::Object(map) => JsonValue::Object(map.iter().map(|(k, v)| (k.clone(), from_serde(v))).collect()),
    }
}

#[test]
fn a_built_bundle_is_consistent() {
    let (value, _) = bundle();
    let evidence_bytes = serde_json::to_vec(&value["evidence"]).unwrap();
    assert_eq!(validate_project_bundle_consistency(&from_serde(&value), &evidence_bytes), Ok(()));
}

#[test]
fn a_built_bundle_hashes_exactly_its_evidence() {
    let (value, bytes) = bundle();
    assert_eq!(serde_json::to_vec(&value["evidence"]).unwrap(), bytes);
    let evidence = value["evidence"].as_array().unwrap();
    let ids = evidence.iter().map(|record| record["id"].as_str().unwrap().to_owned()).collect::<Vec<_>>();
    let mut sorted = ids.clone();
    sorted.sort();
    sorted.dedup();
    assert_eq!(ids, sorted, "records are ordered by identifier and unique");
}

#[test]
fn a_built_bundle_reports_its_features() {
    let (value, _) = bundle();
    let features = value["evidence"]
        .as_array()
        .unwrap()
        .iter()
        .filter(|record| record["payload"]["kind"] == "repository_feature")
        .map(|record| (record["payload"]["feature"].as_str().unwrap().to_owned(), record["payload"]["state"].as_str().unwrap().to_owned()))
        .collect::<Vec<_>>();
    assert_eq!(features.len(), 11);
    assert!(features.contains(&("readme".to_owned(), "present".to_owned())));
    assert!(features.contains(&("documentation".to_owned(), "present".to_owned())));
    assert!(features.contains(&("license".to_owned(), "absent".to_owned())));
}

#[test]
fn an_unclassified_file_keeps_an_explicit_unavailable_classification() {
    let s = snapshot();
    let classified = vec![ClassifiedSnapshotFile::classify(
        &s,
        &s.entries[0],
        "classifier-policy-1",
        Some(classification(ClassificationCategoryRecord::Documentation, "readme")),
    )
    .unwrap()];
    let manifest = assemble_project_evidence(&s, classified).unwrap();
    assert_eq!(manifest.classification_facts.len(), 2);
    let missing = manifest
        .classification_facts
        .iter()
        .filter(|fact| fact.reason == Some(ClassificationAvailabilityReason::MissingClassification))
        .collect::<Vec<_>>();
    assert_eq!(missing.len(), 1);
    assert_eq!(missing[0].status, EvidenceStatus::Unavailable);
    assert!(missing[0].payload.is_none());
    assert_eq!(manifest.status, AnalysisStatus::Partial);
    assert_eq!(manifest.all_evidence_ids().len(), manifest.raw_facts.len() + 2);
}

#[test]
fn a_fully_classified_complete_snapshot_is_complete() {
    let s = snapshot();
    let classified = vec![
        ClassifiedSnapshotFile::classify(
            &s,
            &s.entries[0],
            "classifier-policy-1",
            Some(classification(ClassificationCategoryRecord::Documentation, "readme")),
        )
        .unwrap(),
        ClassifiedSnapshotFile::classify(
            &s,
            &s.entries[1],
            "classifier-policy-1",
            Some(classification(ClassificationCategoryRecord::ProductionCode, "source")),
        )
        .unwrap(),
    ];
    let manifest = assemble_project_evidence(&s, classified).unwrap();
    assert_eq!(manifest.status, AnalysisStatus::Complete);
    assert_eq!(manifest.classification_policy_version(), Some("classifier-policy-1"));
}

#[test]
fn raw_payloads_are_read_through_their_typed_views() {
    let s = snapshot();
    let manifest = assemble_project_evidence(&s, Vec::new()).unwrap();
    let snapshots = manifest.raw_facts.iter().filter(|f| f.payload.is_repository_snapshot()).count();
    assert_eq!(snapshots, 1);
    let history = manifest.raw_facts.iter().find_map(|f| f.payload.as_history_scope()).unwrap();
    assert_eq!(history.reachable_commits(), Some(3));
    assert_eq!(history.truncated(), Some(false));
    assert_eq!(history.issue(), None);
    let delta = manifest.raw_facts.iter().find_map(|f| f.payload.as_parent_delta()).unwrap();
    assert_eq!(delta.changed_entries(), Some(1));
    assert_eq!(delta.renames(), Some(0));
    let files = manifest.raw_facts.iter().filter_map(|f| f.payload.as_tracked_file()).collect::<Vec<_>>();
    assert_eq!(files.len(), 2);
    for file in files {
        assert_eq!(file.mode(), EntryMode::Regular);
        assert_eq!(file.object_kind(), ObjectKind::Blob);
        assert_eq!(file.size_bytes(), Some(12));
        assert!(file.content_hash().is_some());
    }
}

#[test]
fn citations_carry_the_adapter_provenance() {
    let s = snapshot();
    let manifest = assemble_project_evidence(&s, Vec::new()).unwrap();
    for fact in &manifest.raw_facts {
        assert_eq!(fact.source.provenance.adapter_id(), "assay-git");
        assert_eq!(fact.source.provenance.git_version(), "2.45.0");
        assert_eq!(fact.source.provenance.object_format(), GitObjectFormatRecord::Sha1);
    }
    let fact = ClassificationEvidenceFact {
        kind: ClassificationEvidenceKindRecord::LinguistAttribute,
        rule_id: "linguist-generated".into(),
        attribute_name: Some("linguist-generated".into()),
        attribute_value: Some(true),
    };
    assert_eq!(fact.kind(), ClassificationEvidenceKindRecord::LinguistAttribute);
    assert_eq!(fact.rule_id(), "linguist-generated");
    assert_eq!(fact.attribute_name(), Some("linguist-generated"));
    assert_eq!(fact.attribute_value(), Some(true));
}

#[test]
fn the_order_of_supplied_classifications_is_immaterial() {
    let s = snapshot();
    let classify = |index: usize, category: ClassificationCategoryRecord, rule: &str| {
        ClassifiedSnapshotFile::classify(&s, &s.entries[index], "classifier-policy-1", Some(classification(category, rule)))
            .unwrap()
    };
    let forward = vec![
        classify(0, ClassificationCategoryRecord::Documentation, "readme"),
        classify(1, ClassificationCategoryRecord::ProductionCode, "source"),
    ];
    let backward = vec![
        classify(1, ClassificationCategoryRecord::ProductionCode, "source"),
        classify(0, ClassificationCategoryRecord::Documentation, "readme"),
    ];
    let first = assemble_project_evidence(&s, forward).unwrap();
    let second = assemble_project_evidence(&s, backward).unwrap();
    assert_eq!(format!("{:?}", first), format!("{:?}", second));
}

#[test]
fn identifier_generation_never_fails_for_a_snapshot() {
    let s = snapshot();
    let manifest = assemble_project_evidence(&s, Vec::new()).unwrap();
    for fact in &manifest.raw_facts {
        assert!(fact.id.as_str().starts_with("evidence:"));
    }
    assert_eq!(manifest.raw_facts.len(), s.entries.len() + 3);
    assert_eq!(manifest.classification_facts().len(), s.entries.len());
}

#[test]
fn manifest_lists_ascend_by_identifier_and_hold_every_fact() {
    let s = snapshot();
    let manifest = assemble_project_evidence(&s, Vec::new()).unwrap();
    let raw_ids = manifest.raw_facts.iter().map(|f| f.id.as_str().to_owned()).collect::<Vec<_>>();
    assert!(raw_ids.windows(2).all(|pair| pair[0] < pair[1]));
    let class_ids = manifest.classification_facts().iter().map(|f| f.id.as_str().to_owned()).collect::<Vec<_>>();
    assert!(class_ids.windows(2).all(|pair| pair[0] < pair[1]));
    assert_eq!(manifest.all_evidence_ids().len(), raw_ids.len() + class_ids.len());
    let history = manifest.raw_facts.iter().filter_map(|f| f.payload.as_history_scope()).collect::<Vec<_>>();
    assert_eq!(history.len(), 1);
    assert_eq!(history[0].reachable_commits(), Some(3));
    assert_eq!(history[0].truncated(), Some(false));
}
