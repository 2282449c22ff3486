//! Public machine records of raw facts and file classifications.
//!
//! A history or delta fact whose evidence is unusable, a file whose path is
//! too long to publish, and a classification that did not produce a usable
//! result become payload-free availability envelopes that name the
//! requested kind and the reason; every other fact becomes a factual record
//! with provenance and a typed payload.
use vstd::prelude::*;

use crate::cohort_record::{repository_json, repository_value, texts_json, texts_value, ToJson};
use crate::domain::{EvidenceStatus, evidence_status_text};
use crate::evidence::{
    ClassificationAvailabilityReason, ClassificationCategoryRecord, ClassificationTagRecord,
    PortablePathEncoding, RawEvidenceIssue, RawEvidenceKind, availability_reason_text,
    entry_mode_text, evidence_kind_text, object_kind_text, raw_issue_text,
};
use crate::file_classification::{ClassificationEvidenceFact, ClassificationEvidenceRecord};
use crate::json::{
    JsonValue, JsonView, NumberView, ObjectBuilder, entries_view, i64_view, items_view, json_array,
    json_bp, json_i64, json_null, json_opt_text, json_opt_u64, json_text, json_u64, opt_text_view,
    opt_u64_view,
};
use crate::path_text::{language, language_of, path_value_publishable, public_path_limit};
use crate::raw_facts::{
    EvidenceSourceRecord, PayloadView, PortableRepositoryPath, RawEvidenceFact, RawEvidencePayload,
    RepositorySnapshot, opt_hash_view, opt_path_view, opt_revision_view,
};

verus! {

/// The privacy statement every record carries.
pub open spec fn privacy_json() -> JsonView {
    JsonView::Object(
        seq![
            ("visibility"@, JsonView::Text("private_local"@)),
            ("source_content"@, JsonView::Text("not_retained"@)),
            ("external_transmission"@, JsonView::Text("prohibited"@)),
        ],
    )
}

pub fn privacy_value() -> (r: JsonValue)
    ensures
        r.view() == privacy_json(),
{
    let mut b = ObjectBuilder::new();
    b.add("visibility", json_text("private_local"));
    b.add("source_content", json_text("not_retained"));
    b.add("external_transmission", json_text("prohibited"));
    let r = b.build();
    assert(entries_view(b.entries@) =~= seq![
        ("visibility"@, JsonView::Text("private_local"@)),
        ("source_content"@, JsonView::Text("not_retained"@)),
        ("external_transmission"@, JsonView::Text("prohibited"@)),
    ]);
    r
}

/// Whether a portable path is short enough to publish.
pub open spec fn publishable(p: (PortablePathEncoding, Seq<char>)) -> bool {
    p.1.len() <= public_path_limit()
}

pub fn path_is_publishable(p: &PortableRepositoryPath) -> (r: bool)
    ensures
        r == publishable(p.view()),
{
    path_value_publishable(p.value.as_str())
}

/// The public source kind of a raw fact.
pub open spec fn source_kind_text(k: RawEvidenceKind) -> Seq<char> {
    match k {
        RawEvidenceKind::RepositorySnapshot => "repository"@,
        RawEvidenceKind::TrackedFile => "repository_content"@,
        RawEvidenceKind::HistoryScope => "repository_history"@,
        RawEvidenceKind::ParentDelta => "repository_history"@,
    }
}

fn source_kind(k: RawEvidenceKind) -> (r: &'static str)
    ensures
        r@ == source_kind_text(k),
{
    match k {
        RawEvidenceKind::RepositorySnapshot => "repository",
        RawEvidenceKind::TrackedFile => "repository_content",
        RawEvidenceKind::HistoryScope => "repository_history",
        RawEvidenceKind::ParentDelta => "repository_history",
    }
}

pub open spec fn path_encoding_text(e: PortablePathEncoding) -> Seq<char> {
    match e {
        PortablePathEncoding::Utf8 => "utf8"@,
        PortablePathEncoding::GitPathHex => "git_path_hex"@,
    }
}

fn path_encoding(e: PortablePathEncoding) -> (r: &'static str)
    ensures
        r@ == path_encoding_text(e),
{
    match e {
        PortablePathEncoding::Utf8 => "utf8",
        PortablePathEncoding::GitPathHex => "git_path_hex",
    }
}

/// An optional text as JSON.
pub open spec fn opt_text_json(t: Option<Seq<char>>) -> JsonView {
    match t {
        Some(v) => JsonView::Text(v),
        None => JsonView::Null,
    }
}

pub open spec fn opt_issue_json(i: Option<RawEvidenceIssue>) -> JsonView {
    match i {
        Some(v) => JsonView::Text(raw_issue_text(v)),
        None => JsonView::Null,
    }
}

fn opt_issue_value(i: Option<RawEvidenceIssue>) -> (r: JsonValue)
    ensures
        r.view() == opt_issue_json(i),
{
    match i {
        Some(v) => json_text(v.code()),
        None => json_null(),
    }
}

fn opt_count_value(n: Option<usize>) -> (r: JsonValue)
    ensures
        r.view() == opt_u64_view(match n {
            Some(v) => Some(v as u64),
            None => None,
        }),
{
    match n {
        Some(v) => json_u64(v as u64),
        None => json_null(),
    }
}

pub open spec fn opt_count_json(n: Option<usize>) -> JsonView {
    opt_u64_view(
        match n {
            Some(v) => Some(v as u64),
            None => None,
        },
    )
}

pub open spec fn opt_i64_json(v: Option<i64>) -> JsonView {
    match v {
        Some(x) => i64_view(x),
        None => JsonView::Null,
    }
}

fn opt_i64_value(v: Option<i64>) -> (r: JsonValue)
    ensures
        r.view() == opt_i64_json(v),
{
    match v {
        Some(x) => json_i64(x),
        None => json_null(),
    }
}

fn opt_revision_value(r: &Option<crate::domain::RevisionId>) -> (v: JsonValue)
    ensures
        v.view() == opt_text_json(opt_revision_view(*r)),
{
    match r {
        Some(x) => json_text(x.as_str()),
        None => json_null(),
    }
}

/// A payload-free availability envelope.
pub open spec fn envelope_json(
    repository: JsonView,
    id: Seq<char>,
    status: Seq<char>,
    requested_kind: Seq<char>,
    reason: Seq<char>,
) -> JsonView {
    JsonView::Object(
        seq![
            ("schema_version"@, JsonView::Text("1.0.0"@)),
            ("repository"@, repository),
            ("id"@, JsonView::Text(id)),
            ("status"@, JsonView::Text(status)),
            ("grade"@, JsonView::Null),
            ("privacy"@, privacy_json()),
            ("requested_kind"@, JsonView::Text(requested_kind)),
            ("reason"@, JsonView::Text(reason)),
        ],
    )
}

fn envelope_value(fact_source: &EvidenceSourceRecord, id: &str, status: &str, requested_kind: &str, reason: &str) -> (r: JsonValue)
    ensures
        r.view() == envelope_json(
            repository_json(fact_source.repository.view()),
            id@,
            status@,
            requested_kind@,
            reason@,
        ),
{
    let mut b = ObjectBuilder::new();
    b.add("schema_version", json_text("1.0.0"));
    b.add("repository", repository_value(&fact_source.repository));
    b.add("id", json_text(id));
    b.add("status", json_text(status));
    b.add("grade", json_null());
    b.add("privacy", privacy_value());
    b.add("requested_kind", json_text(requested_kind));
    b.add("reason", json_text(reason));
    let r = b.build();
    assert(entries_view(b.entries@) =~= match envelope_json(
        repository_json(fact_source.repository.view()),
        id@,
        status@,
        requested_kind@,
        reason@,
    ) {
        JsonView::Object(e) => e,
        _ => Seq::empty(),
    });
    r
}

/// The record of a raw fact with provenance and payload.
pub open spec fn factual_json(f: RawEvidenceFact, collected_at: Seq<char>, status: Seq<char>, payload: JsonView) -> JsonView {
    JsonView::Object(
        seq![
            ("schema_version"@, JsonView::Text("1.0.0"@)),
            ("repository"@, repository_json(f.source.repository.view())),
            ("id"@, JsonView::Text(f.id.view())),
            ("status"@, JsonView::Text(status)),
            ("grade"@, JsonView::Text("a"@)),
            ("privacy"@, privacy_json()),
            (
                "provenance"@,
                JsonView::Object(
                    seq![
                        ("source_kind"@, JsonView::Text(source_kind_text(f.kind))),
                        ("collected_at"@, JsonView::Text(collected_at)),
                        ("repository_revision"@, JsonView::Text(f.source.repository_revision.view())),
                        ("content_hash"@, opt_text_json(match f.payload.view() {
                            PayloadView::TrackedFile(_, _, _, h, _) => h,
                            _ => None,
                        })),
                        ("remote_record_id"@, JsonView::Null),
                    ],
                ),
            ),
            ("payload"@, payload),
        ],
    )
}

fn factual_value(f: &RawEvidenceFact, collected_at: &str, status: &str, payload: JsonValue) -> (r: JsonValue)
    ensures
        r.view() == factual_json(*f, collected_at@, status@, payload.view()),
{
    let hash = match f.content_hash() {
        Some(h) => json_text(h.as_str()),
        None => json_null(),
    };
    let mut p = ObjectBuilder::new();
    p.add("source_kind", json_text(source_kind(f.kind)));
    p.add("collected_at", json_text(collected_at));
    p.add("repository_revision", json_text(f.source.repository_revision.as_str()));
    p.add("content_hash", hash);
    p.add("remote_record_id", json_null());
    let ghost pe = entries_view(p.entries@);
    let provenance = p.build();
    let ghost pv = payload.view();
    let mut b = ObjectBuilder::new();
    b.add("schema_version", json_text("1.0.0"));
    b.add("repository", repository_value(&f.source.repository));
    b.add("id", json_text(f.id.as_str()));
    b.add("status", json_text(status));
    b.add("grade", json_text("a"));
    b.add("privacy", privacy_value());
    b.add("provenance", provenance);
    b.add("payload", payload);
    let r = b.build();
    assert(pe =~= seq![
        ("source_kind"@, JsonView::Text(source_kind_text(f.kind))),
        ("collected_at"@, JsonView::Text(collected_at@)),
        ("repository_revision"@, JsonView::Text(f.source.repository_revision.view())),
        ("content_hash"@, opt_text_json(match f.payload.view() {
            PayloadView::TrackedFile(_, _, _, h, _) => h,
            _ => None,
        })),
        ("remote_record_id"@, JsonView::Null),
    ]);
    assert(entries_view(b.entries@) =~= match factual_json(*f, collected_at@, status@, pv) {
        JsonView::Object(e) => e,
        _ => Seq::empty(),
    });
    r
}

/// The public record of one raw fact; absent when the fact's payload does
/// not match its kind, or a file fact lacks its path or object.
pub open spec fn raw_record_json(s: RepositorySnapshot, f: RawEvidenceFact, collected_at: Seq<char>) -> Option<JsonView> {
    let history_like = f.kind == RawEvidenceKind::HistoryScope || f.kind == RawEvidenceKind::ParentDelta;
    let repo = repository_json(f.source.repository.view());
    if history_like && !f.status.spec_is_usable() {
        let issue = match (f.kind, f.payload.view()) {
            (RawEvidenceKind::HistoryScope, PayloadView::HistoryScope(_, _, i)) => i,
            (RawEvidenceKind::ParentDelta, PayloadView::ParentDelta(_, _, i)) => i,
            _ => None,
        };
        Some(
            envelope_json(
                repo,
                f.id.view(),
                evidence_status_text(f.status),
                if f.kind == RawEvidenceKind::HistoryScope {
                    "history_scope"@
                } else {
                    "parent_delta"@
                },
                match issue {
                    Some(i) => raw_issue_text(i),
                    None => "source_unavailable"@,
                },
            ),
        )
    } else {
        let published = if f.kind == RawEvidenceKind::TrackedFile && !f.status.spec_is_usable() {
            "partial"@
        } else {
            evidence_status_text(f.status)
        };
        match f.kind {
            RawEvidenceKind::RepositorySnapshot => Some(
                factual_json(
                    f,
                    collected_at,
                    published,
                    JsonView::Object(
                        seq![
                            ("kind"@, JsonView::Text("repository_snapshot"@)),
                            ("commit_time"@, opt_i64_json(s.commit_time)),
                            ("root_tree"@, opt_text_json(opt_revision_view(s.source_snapshot.root_tree))),
                        ],
                    ),
                ),
            ),
            RawEvidenceKind::TrackedFile => match (f.payload.view(), opt_path_view(f.source.path)) {
                (PayloadView::TrackedFile(mode, okind, size, hash, issue), Some(path)) => if !publishable(path) {
                    Some(envelope_json(repo, f.id.view(), "unsupported"@, "tracked_file"@, "path_length_limit"@))
                } else {
                    match f.source.object_id {
                        Some(oid) => {
                            let lang = language_of(path.0, path.1);
                            Some(
                                factual_json(
                                    f,
                                    collected_at,
                                    published,
                                    JsonView::Object(
                                        seq![
                                            ("kind"@, JsonView::Text("tracked_file"@)),
                                            (
                                                "path"@,
                                                JsonView::Object(
                                                    seq![
                                                        ("encoding"@, JsonView::Text(path_encoding_text(path.0))),
                                                        ("value"@, JsonView::Text(path.1)),
                                                    ],
                                                ),
                                            ),
                                            ("mode"@, JsonView::Text(entry_mode_text(mode))),
                                            ("object_kind"@, JsonView::Text(object_kind_text(okind))),
                                            ("object_id"@, JsonView::Text(oid@)),
                                            ("content_status"@, JsonView::Text(evidence_status_text(f.status))),
                                            ("language"@, opt_text_json(lang.0)),
                                            ("language_status"@, JsonView::Text(lang.1)),
                                            ("size_bytes"@, opt_u64_view(size)),
                                            ("content_hash"@, opt_text_json(hash)),
                                            ("issue"@, opt_issue_json(issue)),
                                        ],
                                    ),
                                ),
                            )
                        },
                        None => None,
                    }
                },
                _ => None,
            },
            RawEvidenceKind::HistoryScope => match f.payload.view() {
                PayloadView::HistoryScope(count, _, _) => Some(
                    factual_json(
                        f,
                        collected_at,
                        published,
                        JsonView::Object(
                            seq![
                                ("kind"@, JsonView::Text("history_scope"@)),
                                ("base_revision"@, JsonView::Null),
                                ("head_revision"@, JsonView::Text(s.source_snapshot.revision.view())),
                                ("commit_count"@, opt_count_json(count)),
                            ],
                        ),
                    ),
                ),
                _ => None,
            },
            RawEvidenceKind::ParentDelta => match f.payload.view() {
                PayloadView::ParentDelta(changed, renames, issue) => Some(
                    factual_json(
                        f,
                        collected_at,
                        published,
                        JsonView::Object(
                            seq![
                                ("kind"@, JsonView::Text("parent_delta"@)),
                                ("changed_entries"@, opt_count_json(changed)),
                                ("renames"@, opt_count_json(renames)),
                                ("issue"@, opt_issue_json(issue)),
                            ],
                        ),
                    ),
                ),
                _ => None,
            },
        }
    }
}

/// Redacted deterministic mapping failure.
#[derive(Clone, Copy, Debug, PartialEq, Eq, Structural)]
pub struct MachineMappingError;

/// Maps one raw fact onto its public record.
#[verifier::rlimit(40)]
pub fn map_raw(s: &RepositorySnapshot, f: &RawEvidenceFact, collected_at: &str) -> (r: Result<JsonValue, MachineMappingError>)
    ensures
        match raw_record_json(*s, *f, collected_at@) {
            Some(v) => r matches Ok(x) && x.view() == v,
            None => r is Err,
        },
{
    let history_like = match f.kind {
        RawEvidenceKind::HistoryScope | RawEvidenceKind::ParentDelta => true,
        _ => false,
    };
    if history_like && !f.status.is_usable() {
        let issue = match (&f.kind, &f.payload) {
            (RawEvidenceKind::HistoryScope, RawEvidencePayload::HistoryScope { issue, .. }) => *issue,
            (RawEvidenceKind::ParentDelta, RawEvidencePayload::ParentDelta { issue, .. }) => *issue,
            _ => None,
        };
        let requested = match f.kind {
            RawEvidenceKind::HistoryScope => "history_scope",
            _ => "parent_delta",
        };
        let reason = match issue {
            Some(i) => i.code(),
            None => "source_unavailable",
        };
        return Ok(envelope_value(&f.source, f.id.as_str(), f.status.code(), requested, reason));
    }
    let published = match f.kind {
        RawEvidenceKind::TrackedFile => if f.status.is_usable() {
            f.status.code()
        } else {
            "partial"
        },
        _ => f.status.code(),
    };
    match f.kind {
        RawEvidenceKind::RepositorySnapshot => {
            let mut b = ObjectBuilder::new();
            b.add("kind", json_text("repository_snapshot"));
            b.add("commit_time", opt_i64_value(s.commit_time));
            b.add("root_tree", opt_revision_value(&s.source_snapshot.root_tree));
            let ghost e = entries_view(b.entries@);
            let payload = b.build();
            assert(e =~= seq![
                ("kind"@, JsonView::Text("repository_snapshot"@)),
                ("commit_time"@, opt_i64_json(s.commit_time)),
                ("root_tree"@, opt_text_json(opt_revision_view(s.source_snapshot.root_tree))),
            ]);
            Ok(factual_value(f, collected_at, published, payload))
        },
        RawEvidenceKind::TrackedFile => {
            let (mode, okind, size, hash, issue) = match &f.payload {
                RawEvidencePayload::TrackedFile { mode, object_kind, size_bytes, content_hash, issue } => (
                    *mode,
                    *object_kind,
                    *size_bytes,
                    content_hash,
                    *issue,
                ),
                _ => {
                    return Err(MachineMappingError);
                },
            };
            let path = match &f.source.path {
                Some(p) => p,
                None => {
                    return Err(MachineMappingError);
                },
            };
            if !path_is_publishable(path) {
                return Ok(envelope_value(&f.source, f.id.as_str(), "unsupported", "tracked_file", "path_length_limit"));
            }
            let oid = match &f.source.object_id {
                Some(o) => o,
                None => {
                    return Err(MachineMappingError);
                },
            };
            let (lang, lang_status) = language(path.encoding, path.value.as_str());
            let mut pb = ObjectBuilder::new();
            pb.add("encoding", json_text(path_encoding(path.encoding)));
            pb.add("value", json_text(path.value.as_str()));
            let ghost pe = entries_view(pb.entries@);
            let path_value = pb.build();
            let mut b = ObjectBuilder::new();
            b.add("kind", json_text("tracked_file"));
            b.add("path", path_value);
            b.add("mode", json_text(mode.code()));
            b.add("object_kind", json_text(okind.code()));
            b.add("object_id", json_text(oid.as_str()));
            b.add("content_status", json_text(f.status.code()));
            b.add("language", json_opt_text(lang));
            b.add("language_status", json_text(lang_status));
            b.add("size_bytes", json_opt_u64(size));
            b.add("content_hash", match hash {
                Some(h) => json_text(h.as_str()),
                None => json_null(),
            });
            b.add("issue", opt_issue_value(issue));
            let ghost e = entries_view(b.entries@);
            let payload = b.build();
            proof {
                assert(pe =~= seq![
                    ("encoding"@, JsonView::Text(path_encoding_text(path.encoding))),
                    ("value"@, JsonView::Text(path.value@)),
                ]);
                let lv = language_of(path.encoding, path.value@);
                assert(e =~= seq![
                    ("kind"@, JsonView::Text("tracked_file"@)),
                    (
                        "path"@,
                        JsonView::Object(
                            seq![
                                ("encoding"@, JsonView::Text(path_encoding_text(path.encoding))),
                                ("value"@, JsonView::Text(path.value@)),
                            ],
                        ),
                    ),
                    ("mode"@, JsonView::Text(entry_mode_text(mode))),
                    ("object_kind"@, JsonView::Text(object_kind_text(okind))),
                    ("object_id"@, JsonView::Text(oid@)),
                    ("content_status"@, JsonView::Text(evidence_status_text(f.status))),
                    ("language"@, opt_text_json(lv.0)),
                    ("language_status"@, JsonView::Text(lv.1)),
                    ("size_bytes"@, opt_u64_view(size)),
                    ("content_hash"@, opt_text_json(opt_hash_view(*hash))),
                    ("issue"@, opt_issue_json(issue)),
                ]);
            }
            Ok(factual_value(f, collected_at, published, payload))
        },
        RawEvidenceKind::HistoryScope => {
            let count = match &f.payload {
                RawEvidencePayload::HistoryScope { reachable_commits, .. } => *reachable_commits,
                _ => {
                    return Err(MachineMappingError);
                },
            };
            let mut b = ObjectBuilder::new();
            b.add("kind", json_text("history_scope"));
            b.add("base_revision", json_null());
            b.add("head_revision", json_text(s.source_snapshot.revision.as_str()));
            b.add("commit_count", opt_count_value(count));
            let ghost e = entries_view(b.entries@);
            let payload = b.build();
            assert(e =~= seq![
                ("kind"@, JsonView::Text("history_scope"@)),
                ("base_revision"@, JsonView::Null),
                ("head_revision"@, JsonView::Text(s.source_snapshot.revision.view())),
                ("commit_count"@, opt_count_json(count)),
            ]);
            Ok(factual_value(f, collected_at, published, payload))
        },
        RawEvidenceKind::ParentDelta => {
            let (changed, renames, issue) = match &f.payload {
                RawEvidencePayload::ParentDelta { changed_entries, renames, issue } => (*changed_entries, *renames, *issue),
                _ => {
                    return Err(MachineMappingError);
                },
            };
            let mut b = ObjectBuilder::new();
            b.add("kind", json_text("parent_delta"));
            b.add("changed_entries", opt_count_value(changed));
            b.add("renames", opt_count_value(renames));
            b.add("issue", opt_issue_value(issue));
            let ghost e = entries_view(b.entries@);
            let payload = b.build();
            assert(e =~= seq![
                ("kind"@, JsonView::Text("parent_delta"@)),
                ("changed_entries"@, opt_count_json(changed)),
                ("renames"@, opt_count_json(renames)),
                ("issue"@, opt_issue_json(issue)),
            ]);
            Ok(factual_value(f, collected_at, published, payload))
        },
    }
}


/// The public name of a classification category.
pub open spec fn public_category_text(c: ClassificationCategoryRecord) -> Seq<char> {
    match c {
        ClassificationCategoryRecord::SecurityPolicy => "security"@,
        _ => crate::evidence::category_text(c),
    }
}

pub fn public_category(c: ClassificationCategoryRecord) -> (r: &'static str)
    ensures
        r@ == public_category_text(c),
{
    match c {
        ClassificationCategoryRecord::SecurityPolicy => "security",
        _ => c.code(),
    }
}

/// The public name of a classification tag; internal tags have none.
pub open spec fn public_tag_text(t: ClassificationTagRecord) -> Option<Seq<char>> {
    match t {
        ClassificationTagRecord::DependencyManifest => Some("dependency"@),
        ClassificationTagRecord::Lockfile => Some("lockfile"@),
        ClassificationTagRecord::LinguistGenerated => Some("generated"@),
        ClassificationTagRecord::LinguistVendored => Some("vendored"@),
        ClassificationTagRecord::Minified => Some("minified"@),
        _ => None,
    }
}

fn public_tag(t: ClassificationTagRecord) -> (r: Option<&'static str>)
    ensures
        match r {
            Some(x) => public_tag_text(t) == Some(x@),
            None => public_tag_text(t) is None,
        },
{
    match t {
        ClassificationTagRecord::DependencyManifest => Some("dependency"),
        ClassificationTagRecord::Lockfile => Some("lockfile"),
        ClassificationTagRecord::LinguistGenerated => Some("generated"),
        ClassificationTagRecord::LinguistVendored => Some("vendored"),
        ClassificationTagRecord::Minified => Some("minified"),
        _ => None,
    }
}

/// The public names of tags, in order, internal tags left out.
pub open spec fn public_tags(ts: Seq<ClassificationTagRecord>) -> Seq<JsonView>
    decreases ts.len(),
{
    if ts.len() == 0 {
        Seq::empty()
    } else {
        match public_tag_text(ts.last()) {
            Some(t) => public_tags(ts.drop_last()).push(JsonView::Text(t)),
            None => public_tags(ts.drop_last()),
        }
    }
}

fn public_tags_value(ts: &[ClassificationTagRecord]) -> (r: JsonValue)
    ensures
        r.view() == JsonView::Array(public_tags(ts@)),
{
    let mut out: Vec<JsonValue> = Vec::new();
    let mut i: usize = 0;
    while i < ts.len()
        invariant
            i <= ts@.len(),
            items_view(out@) == public_tags(ts@.subrange(0, i as int)),
        decreases ts.len() - i,
    {
        let ghost sub = ts@.subrange(0, i + 1);
        assert(sub.drop_last() =~= ts@.subrange(0, i as int));
        assert(sub.last() == ts@[i as int]);
        match public_tag(ts[i]) {
            Some(t) => {
                let ghost prev = out@;
                let v = json_text(t);
                out.push(v);
                assert(items_view(out@) =~= items_view(prev).push(v.view()));
            },
            None => {},
        }
        i = i + 1;
    }
    assert(ts@.subrange(0, ts@.len() as int) =~= ts@);
    json_array(out)
}

/// The public form of one provenance item.
pub open spec fn public_fact_json(f: ClassificationEvidenceFact) -> JsonView {
    JsonView::Object(
        seq![
            ("kind"@, JsonView::Text(evidence_kind_text(f.kind))),
            ("rule_id"@, JsonView::Text(f.rule_id@)),
            ("attribute_name"@, opt_text_json(match f.attribute_name {
                Some(n) => Some(n@),
                None => None,
            })),
            ("attribute_value"@, match f.attribute_value {
                Some(b) => JsonView::Bool(b),
                None => JsonView::Null,
            }),
        ],
    )
}

fn public_fact_value(f: &ClassificationEvidenceFact) -> (r: JsonValue)
    ensures
        r.view() == public_fact_json(*f),
{
    let mut b = ObjectBuilder::new();
    b.add("kind", json_text(f.kind.code()));
    b.add("rule_id", json_text(f.rule_id.as_str()));
    b.add("attribute_name", match &f.attribute_name {
        Some(n) => json_text(n.as_str()),
        None => json_null(),
    });
    b.add("attribute_value", match f.attribute_value {
        Some(v) => crate::json::json_bool(v),
        None => json_null(),
    });
    let r = b.build();
    assert(entries_view(b.entries@) =~= match public_fact_json(*f) {
        JsonView::Object(e) => e,
        _ => Seq::empty(),
    });
    r
}

fn public_facts_value(fs: &[ClassificationEvidenceFact]) -> (r: JsonValue)
    ensures
        r.view() == JsonView::Array(fs@.map_values(|f: ClassificationEvidenceFact| public_fact_json(f))),
{
    let mut out: Vec<JsonValue> = Vec::new();
    let mut i: usize = 0;
    while i < fs.len()
        invariant
            i <= fs@.len(),
            items_view(out@) == fs@.subrange(0, i as int).map_values(|f: ClassificationEvidenceFact| public_fact_json(f)),
        decreases fs.len() - i,
    {
        let ghost prev = out@;
        let v = public_fact_value(&fs[i]);
        out.push(v);
        assert(items_view(out@) =~= items_view(prev).push(v.view()));
        assert(fs@.subrange(0, i + 1).map_values(|f: ClassificationEvidenceFact| public_fact_json(f)) =~= fs@.subrange(0, i as int).map_values(|f: ClassificationEvidenceFact| public_fact_json(f)).push(public_fact_json(fs@[i as int])));
        i = i + 1;
    }
    assert(fs@.subrange(0, fs@.len() as int) =~= fs@);
    json_array(out)
}

/// Whether a citation's path is present and too long to publish.
pub open spec fn path_limited(rec: EvidenceSourceRecord) -> bool {
    match opt_path_view(rec.path) {
        Some(p) => !publishable(p),
        None => false,
    }
}

/// The entries every classification record starts with.
pub open spec fn classification_head(f: ClassificationEvidenceRecord, status: Seq<char>, grade: JsonView) -> Seq<(Seq<char>, JsonView)> {
    seq![
        ("schema_version"@, JsonView::Text("1.0.0"@)),
        ("repository"@, repository_json(f.source.repository.view())),
        ("id"@, JsonView::Text(f.id.view())),
        ("status"@, JsonView::Text(status)),
        ("grade"@, grade),
        ("privacy"@, privacy_json()),
        ("related_evidence_ids"@, texts_json(seq![f.source_evidence_id.view()])),
    ] + match f.attempted_policy_version {
        Some(p) => seq![("attempted_policy_version"@, JsonView::Text(p@))],
        None => Seq::empty(),
    }
}

/// The payload of a usable classification record.
pub open spec fn classification_payload_json(f: ClassificationEvidenceRecord) -> JsonView {
    let (category, tags, rule, confidence, evidence) = match f.payload {
        Some(p) => (Some(public_category_text(p.category)), public_tags(p.tags@), Some(p.rule_id@), Some(p.confidence_basis_points), p.evidence@),
        None => (None, Seq::empty(), None, None, Seq::empty()),
    };
    JsonView::Object(
        seq![
            ("kind"@, JsonView::Text("file_classification"@)),
            ("source_evidence_id"@, JsonView::Text(f.source_evidence_id.view())),
            ("policy_version"@, opt_text_json(crate::raw_facts::opt_text_view(f.attempted_policy_version))),
            ("reason"@, opt_text_json(match f.reason {
                Some(r) => Some(availability_reason_text(r)),
                None => None,
            })),
            (
                "classification"@,
                JsonView::Object(
                    seq![
                        ("primary_category"@, opt_text_json(category)),
                        ("tags"@, JsonView::Array(tags)),
                        ("rule_id"@, opt_text_json(rule)),
                        ("confidence"@, match confidence {
                            Some(c) => JsonView::Number(NumberView::BasisPoints(c as u32)),
                            None => JsonView::Null,
                        }),
                        ("evidence"@, JsonView::Array(evidence.map_values(|x: ClassificationEvidenceFact| public_fact_json(x)))),
                    ],
                ),
            ),
        ],
    )
}

/// The public record of one classification fact.
pub open spec fn classification_record_json(f: ClassificationEvidenceRecord, collected_at: Seq<char>) -> JsonView {
    if path_limited(f.source) && f.attempted_policy_version is Some {
        JsonView::Object(
            classification_head(f, "unsupported"@, JsonView::Null) + seq![
                ("requested_kind"@, JsonView::Text("file_classification"@)),
                ("reason"@, JsonView::Text("path_length_limit"@)),
            ],
        )
    } else if f.status.spec_is_usable() {
        JsonView::Object(
            classification_head(f, evidence_status_text(f.status), JsonView::Text("a"@)) + seq![
                (
                    "provenance"@,
                    JsonView::Object(
                        seq![
                            ("source_kind"@, JsonView::Text("repository_content"@)),
                            ("collected_at"@, JsonView::Text(collected_at)),
                            ("repository_revision"@, JsonView::Text(f.source.repository_revision.view())),
                            ("content_hash"@, JsonView::Null),
                            ("remote_record_id"@, JsonView::Null),
                        ],
                    ),
                ),
                ("payload"@, classification_payload_json(f)),
            ],
        )
    } else {
        JsonView::Object(
            classification_head(f, evidence_status_text(f.status), JsonView::Null) + seq![
                ("requested_kind"@, JsonView::Text("file_classification"@)),
                ("reason"@, JsonView::Text(match f.reason {
                    Some(r) => availability_reason_text(r),
                    None => "missing_classification"@,
                })),
            ],
        )
    }
}

fn classification_head_builder(f: &ClassificationEvidenceRecord, status: &str, grade: JsonValue) -> (b: ObjectBuilder)
    ensures
        entries_view(b.entries@) == classification_head(*f, status@, grade.view()),
{
    let ghost gv = grade.view();
    let mut related: Vec<JsonValue> = Vec::new();
    related.push(json_text(f.source_evidence_id.as_str()));
    let ghost rv = items_view(related@);
    assert(rv =~= seq![f.source_evidence_id.view()].map_values(|t: Seq<char>| JsonView::Text(t)));
    let mut b = ObjectBuilder::new();
    b.add("schema_version", json_text("1.0.0"));
    b.add("repository", repository_value(&f.source.repository));
    b.add("id", json_text(f.id.as_str()));
    b.add("status", json_text(status));
    b.add("grade", grade);
    b.add("privacy", privacy_value());
    b.add("related_evidence_ids", json_array(related));
    match &f.attempted_policy_version {
        Some(p) => b.add("attempted_policy_version", json_text(p.as_str())),
        None => {},
    }
    assert(entries_view(b.entries@) =~= classification_head(*f, status@, gv));
    b
}

fn classification_payload_value(f: &ClassificationEvidenceRecord) -> (r: JsonValue)
    ensures
        r.view() == classification_payload_json(*f),
{
    let mut c = ObjectBuilder::new();
    match &f.payload {
        Some(p) => {
            c.add("primary_category", json_text(public_category(p.category)));
            c.add("tags", public_tags_value(p.tags.as_slice()));
            c.add("rule_id", json_text(p.rule_id.as_str()));
            c.add("confidence", json_bp(p.confidence_basis_points as u32));
            c.add("evidence", public_facts_value(p.evidence.as_slice()));
        },
        None => {
            c.add("primary_category", json_null());
            let empty: Vec<ClassificationTagRecord> = Vec::new();
            c.add("tags", public_tags_value(empty.as_slice()));
            c.add("rule_id", json_null());
            c.add("confidence", json_null());
            let none: Vec<ClassificationEvidenceFact> = Vec::new();
            c.add("evidence", public_facts_value(none.as_slice()));
        },
    }
    let ghost ce = entries_view(c.entries@);
    let classification = c.build();
    let mut b = ObjectBuilder::new();
    b.add("kind", json_text("file_classification"));
    b.add("source_evidence_id", json_text(f.source_evidence_id.as_str()));
    b.add("policy_version", match &f.attempted_policy_version {
        Some(p) => json_text(p.as_str()),
        None => json_null(),
    });
    b.add("reason", match f.reason {
        Some(x) => json_text(x.code()),
        None => json_null(),
    });
    b.add("classification", classification);
    let r = b.build();
    proof {
        let inner = match classification_payload_json(*f) {
            JsonView::Object(e) => e[4].1,
            _ => JsonView::Null,
        };
        assert(JsonView::Object(ce) == inner) by {
            assert(ce =~= match inner {
                JsonView::Object(e) => e,
                _ => Seq::empty(),
            });
        }
        assert(entries_view(b.entries@) =~= match classification_payload_json(*f) {
            JsonView::Object(e) => e,
            _ => Seq::empty(),
        });
    }
    r
}

/// Maps one classification fact onto its public record.
pub fn map_classification(f: &ClassificationEvidenceRecord, collected_at: &str) -> (r: JsonValue)
    ensures
        r.view() == classification_record_json(*f, collected_at@),
{
    let limited = match &f.source.path {
        Some(p) => !path_is_publishable(p),
        None => false,
    };
    if limited && f.attempted_policy_version.is_some() {
        let mut b = classification_head_builder(f, "unsupported", json_null());
        b.add("requested_kind", json_text("file_classification"));
        b.add("reason", json_text("path_length_limit"));
        let r = b.build();
        assert(entries_view(b.entries@) =~= match classification_record_json(*f, collected_at@) {
            JsonView::Object(e) => e,
            _ => Seq::empty(),
        });
        r
    } else if f.status.is_usable() {
        let mut p = ObjectBuilder::new();
        p.add("source_kind", json_text("repository_content"));
        p.add("collected_at", json_text(collected_at));
        p.add("repository_revision", json_text(f.source.repository_revision.as_str()));
        p.add("content_hash", json_null());
        p.add("remote_record_id", json_null());
        let ghost pe = entries_view(p.entries@);
        let provenance = p.build();
        let mut b = classification_head_builder(f, f.status.code(), json_text("a"));
        b.add("provenance", provenance);
        b.add("payload", classification_payload_value(f));
        let r = b.build();
        assert(pe =~= seq![
            ("source_kind"@, JsonView::Text("repository_content"@)),
            ("collected_at"@, JsonView::Text(collected_at@)),
            ("repository_revision"@, JsonView::Text(f.source.repository_revision.view())),
            ("content_hash"@, JsonView::Null),
            ("remote_record_id"@, JsonView::Null),
        ]);
        assert(entries_view(b.entries@) =~= match classification_record_json(*f, collected_at@) {
            JsonView::Object(e) => e,
            _ => Seq::empty(),
        });
        r
    } else {
        let reason = match f.reason {
            Some(x) => x.code(),
            None => "missing_classification",
        };
        let mut b = classification_head_builder(f, f.status.code(), json_null());
        b.add("requested_kind", json_text("file_classification"));
        b.add("reason", json_text(reason));
        let r = b.build();
        assert(entries_view(b.entries@) =~= match classification_record_json(*f, collected_at@) {
            JsonView::Object(e) => e,
            _ => Seq::empty(),
        });
        r
    }
}

/// The codes public records use: source kinds, path encodings, the public
/// names of tags (internal tags have none) and of categories (the security
/// policy category is published as `security`, every other category under its
/// own code).
pub proof fn law_public_record_codes()
    ensures
        source_kind_text(RawEvidenceKind::RepositorySnapshot) == "repository"@,
        source_kind_text(RawEvidenceKind::TrackedFile) == "repository_content"@,
        source_kind_text(RawEvidenceKind::HistoryScope) == "repository_history"@,
        source_kind_text(RawEvidenceKind::ParentDelta) == "repository_history"@,
        path_encoding_text(PortablePathEncoding::Utf8) == "utf8"@,
        path_encoding_text(PortablePathEncoding::GitPathHex) == "git_path_hex"@,
        public_tag_text(ClassificationTagRecord::DependencyManifest) == Some("dependency"@),
        public_tag_text(ClassificationTagRecord::Lockfile) == Some("lockfile"@),
        public_tag_text(ClassificationTagRecord::LinguistGenerated) == Some("generated"@),
        public_tag_text(ClassificationTagRecord::LinguistVendored) == Some("vendored"@),
        public_tag_text(ClassificationTagRecord::Minified) == Some("minified"@),
        public_category_text(ClassificationCategoryRecord::SecurityPolicy) == "security"@,
        forall|t: ClassificationTagRecord|
            !(t == ClassificationTagRecord::DependencyManifest || t == ClassificationTagRecord::Lockfile || t
                == ClassificationTagRecord::LinguistGenerated || t == ClassificationTagRecord::LinguistVendored || t
                == ClassificationTagRecord::Minified) ==> #[trigger] public_tag_text(t) is None,
        forall|c: ClassificationCategoryRecord|
            c != ClassificationCategoryRecord::SecurityPolicy ==> #[trigger] public_category_text(c)
                == crate::evidence::category_text(c),
{
}

} // verus!
