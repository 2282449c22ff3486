use assay_project_intelligence::domain::{EvidenceId, EvidenceStatus};
use assay_project_intelligence::evidence::{
    EntryMode, EvidenceAssemblyErrorKind, ObjectKind, ParentDeltaIssue, PortablePathEncoding, parent_delta_values,
};
use assay_project_intelligence::raw_facts::{ObjectContent, PortableRepositoryPath, TrackedEntry, portable_path_bytes};
use assay_project_intelligence::evidence_id::EvidenceIdBuilder;

#[test]
fn evidence_evidence_id_normalization_is_length_prefixed_and_kind_separated() {
    fn id(kind: &str, fields: &[(&[u8], &[u8])]) -> EvidenceId {
        let mut builder = EvidenceIdBuilder::new(kind);
        for (name, value) in fields {
            builder.field(name, value);
        }
        builder.finish(kind).unwrap()
    }

    let first = id("tracked-file", &[(b"a", b"bc"), (b"ab", b"c")]);
    let ambiguous_without_lengths = id("tracked-file", &[(b"a", b"bca"), (b"b", b"c")]);
    let different_kind = id("file-classification", &[(b"a", b"bc"), (b"ab", b"c")]);

    assert_ne!(first, ambiguous_without_lengths);
    assert_ne!(first, different_kind);
    assert_eq!(
        first.as_str(),
        "evidence:tracked-file:v1-5765416995d5c02f05916bbbb36f2deff800535712caf2397f098db769fc823b"
    );
}

#[test]
fn evidence_parent_delta_values_preserve_only_observed_counts() {
    assert_eq!(parent_delta_values(EvidenceStatus::Complete, None, 3, 1), (Some(3), Some(1)));
    assert_eq!(
        parent_delta_values(EvidenceStatus::Partial, Some(ParentDeltaIssue::RenameCandidateLimit), 3, 0),
        (Some(3), None)
    );
    assert_eq!(
        parent_delta_values(EvidenceStatus::Partial, Some(ParentDeltaIssue::ShallowRepository), 0, 0),
        (None, None)
    );
    assert_eq!(
        parent_delta_values(EvidenceStatus::Unavailable, Some(ParentDeltaIssue::ProcessFailure), 0, 0),
        (None, None)
    );
}

#[test]
fn tests_evidence_id_normalization_is_length_prefixed_and_kind_separated() {
    fn id(kind: &str, fields: &[(&[u8], &[u8])]) -> EvidenceId {
        let mut builder = EvidenceIdBuilder::new(kind);
        for (name, value) in fields {
            builder.field(name, value);
        }
        builder.finish(kind).unwrap()
    }

    let first = id("tracked-file", &[(b"a", b"bc"), (b"ab", b"c")]);
    let ambiguous_without_lengths = id("tracked-file", &[(b"a", b"bca"), (b"b", b"c")]);
    let different_kind = id("file-classification", &[(b"a", b"bc"), (b"ab", b"c")]);

    assert_ne!(first, ambiguous_without_lengths);
    assert_ne!(first, different_kind);
    assert_eq!(
        first.as_str(),
        "evidence:tracked-file:v1-5765416995d5c02f05916bbbb36f2deff800535712caf2397f098db769fc823b"
    );
}

#[test]
fn tests_parent_delta_values_preserve_only_observed_counts() {
    assert_eq!(parent_delta_values(EvidenceStatus::Complete, None, 3, 1), (Some(3), Some(1)));
    assert_eq!(
        parent_delta_values(EvidenceStatus::Partial, Some(ParentDeltaIssue::RenameCandidateLimit), 3, 0),
        (Some(3), None)
    );
    assert_eq!(
        parent_delta_values(EvidenceStatus::Partial, Some(ParentDeltaIssue::ShallowRepository), 0, 0),
        (None, None)
    );
    assert_eq!(
        parent_delta_values(EvidenceStatus::Unavailable, Some(ParentDeltaIssue::ProcessFailure), 0, 0),
        (None, None)
    );
}

fn entry_with_path(path: &[u8], portable_text: Option<&str>) -> TrackedEntry {
    TrackedEntry {
        path: path.to_vec(),
        portable_text: portable_text.map(str::to_owned),
        object_id: "1111111111111111111111111111111111111111".into(),
        mode: EntryMode::Regular,
        kind: ObjectKind::Blob,
        content: ObjectContent { status: EvidenceStatus::Complete, size: None, content_hash: None, issue: None },
    }
}

#[test]
fn a_non_portable_path_is_recorded_as_hex_and_decodes_back() {
    let bytes = [b'd', b'i', b'r', b'/', 0xff, 0x00, b'x'];
    let path = PortableRepositoryPath::of_entry(&entry_with_path(&bytes, None));
    assert_eq!(path.encoding(), PortablePathEncoding::GitPathHex);
    assert_eq!(path.value(), "6469722fff0078");
    assert_eq!(portable_path_bytes(&path), Some(bytes.to_vec()));
}

#[test]
fn a_portable_path_is_recorded_as_text_and_decodes_back() {
    let path = PortableRepositoryPath::of_entry(&entry_with_path("docs/ünï.md".as_bytes(), Some("docs/ünï.md")));
    assert_eq!(path.encoding(), PortablePathEncoding::Utf8);
    assert_eq!(path.value(), "docs/ünï.md");
    assert_eq!(portable_path_bytes(&path), Some("docs/ünï.md".as_bytes().to_vec()));
}

#[test]
fn different_field_values_give_different_identifiers() {
    let mut a = EvidenceIdBuilder::new("tracked-file");
    a.field(b"path", b"a");
    let mut b = EvidenceIdBuilder::new("tracked-file");
    b.field(b"path", b"b");
    assert_ne!(a.finish("tracked-file").unwrap(), b.finish("tracked-file").unwrap());
}

#[test]
fn an_identifier_kind_that_is_not_a_segment_fails_generation() {
    let builder = EvidenceIdBuilder::new("Bad Kind");
    assert_eq!(builder.finish("Bad Kind").unwrap_err().kind(), EvidenceAssemblyErrorKind::EvidenceIdGeneration);
    let builder = EvidenceIdBuilder::new("tracked-file");
    assert!(builder.finish("tracked-file").unwrap().as_str().starts_with("evidence:tracked-file:v1-"));
}
