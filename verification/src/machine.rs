//! The public project-analysis bundle: every record of a manifest in
//! identifier order, and the manifest record that describes the analysis,
//! its scope, sources, artifact, warnings and limitations.
//!
//! The bundle's artifact hash covers the serialized evidence records. The
//! bytes are produced by the caller from exactly the records this module
//! returns, and hashed here.
use vstd::prelude::*;

use crate::assembly::ProjectEvidenceManifest;
use crate::cohort_record::{repository_json, repository_value, texts_json, texts_value};
use crate::digest::{stable_hash, stable_hash_text};
use crate::domain::{AnalysisStatus, EvidenceStatus, analysis_status_text, evidence_status_text};
use crate::evidence::{RawEvidenceIssue, RawEvidenceKind, raw_issue_text};
use crate::features::{feature_json, last_class_for, repository_features};
use crate::file_classification::ClassificationEvidenceRecord;
use crate::json::{
    JsonValue, JsonView, NumberView, ObjectBuilder, as_text, entries_view, field, items_view,
    json_array, json_null, json_text, json_u64,
};
use crate::machine_records::{
    MachineMappingError, classification_record_json, map_classification, map_raw, opt_count_json,
    opt_i64_json, opt_text_json, path_is_publishable, path_limited, publishable, raw_record_json,
};
use crate::ranking::{Ranked, rank_stably, stable_rank};
use crate::raw_facts::{PayloadView, RawEvidenceFact, RawEvidencePayload, RepositorySnapshot, opt_path_view, opt_revision_view};
use crate::sorted::{insert_unique, keys_of, lemma_sorted_texts, sorted_texts, strictly_sorted};
use crate::text::{
    TextOrder, compare_text, lemma_text_lt_irreflexive, lemma_text_lt_total,
    lemma_text_lt_transitive, owned, text_lt, utf8,
};

verus! {

/// The identifier text of a record, when it has one.
pub open spec fn record_id(v: JsonView) -> Option<Seq<char>> {
    as_text(field(v, "id"@))
}

/// Records without an identifier first, then identifiers in text order.
pub open spec fn record_id_lt(a: Option<Seq<char>>, b: Option<Seq<char>>) -> bool {
    match (a, b) {
        (None, Some(_)) => true,
        (Some(x), Some(y)) => text_lt(x, y),
        _ => false,
    }
}

impl Ranked for JsonValue {
    open spec fn rank_before(&self, other: &Self) -> bool {
        record_id_lt(record_id(self.view()), record_id(other.view()))
    }

    proof fn lemma_rank_irreflexive(a: Self) {
        if let Some(x) = record_id(a.view()) {
            lemma_text_lt_irreflexive(x);
        }
    }

    proof fn lemma_rank_transitive(a: Self, b: Self, c: Self) {
        let (x, y, z) = (record_id(a.view()), record_id(b.view()), record_id(c.view()));
        if x is Some && y is Some && z is Some {
            if text_lt(x->0, y->0) && text_lt(y->0, z->0) {
                lemma_text_lt_transitive(x->0, y->0, z->0);
            }
        }
    }

    proof fn lemma_rank_tied(a: Self, b: Self, c: Self) {
        let (x, y) = (record_id(a.view()), record_id(b.view()));
        if x is Some && y is Some {
            lemma_text_lt_total(x->0, y->0);
        }
    }

    fn goes_before(&self, other: &Self) -> (r: bool) {
        match (self.text_at("id"), other.text_at("id")) {
            (None, Some(_)) => true,
            (Some(x), Some(y)) => match compare_text(x, y) {
                TextOrder::Less => true,
                _ => false,
            },
            _ => false,
        }
    }
}

/// The records of a manifest before ordering: each raw fact, each tracked
/// file followed by the classification that cites it; absent when a raw
/// fact cannot be mapped.
pub open spec fn fact_records(s: RepositorySnapshot, m: ProjectEvidenceManifest, rs: Seq<RawEvidenceFact>, at: Seq<char>) -> Option<
    Seq<JsonView>,
>
    decreases rs.len(),
{
    if rs.len() == 0 {
        Some(Seq::empty())
    } else {
        match (fact_records(s, m, rs.drop_last(), at), raw_record_json(s, rs.last(), at)) {
            (Some(prev), Some(raw)) => {
                let with_raw = prev.push(raw);
                if rs.last().kind == RawEvidenceKind::TrackedFile {
                    match last_class_for(m.classification_facts@, rs.last().id.view()) {
                        Some(c) => Some(with_raw.push(classification_record_json(c, at))),
                        None => Some(with_raw),
                    }
                } else {
                    Some(with_raw)
                }
            },
            _ => None,
        }
    }
}

/// Every record of the bundle before ordering: the facts' records, then the
/// repository features.
pub open spec fn unordered_records(s: RepositorySnapshot, m: ProjectEvidenceManifest, at: Seq<char>) -> Option<Seq<JsonView>> {
    match fact_records(s, m, m.raw_facts@, at) {
        Some(fs) => Some(fs + Seq::new(11, |k: int| feature_json(s, m, k, at))),
        None => None,
    }
}

/// The views of a list of records.
pub open spec fn record_views(rs: Seq<JsonValue>) -> Seq<JsonView> {
    rs.map_values(|v: JsonValue| v.view())
}

/// `records` are the bundle's records of `m`, ordered by identifier.
pub open spec fn ordered_records(s: RepositorySnapshot, m: ProjectEvidenceManifest, at: Seq<char>, records: Seq<JsonValue>) -> bool {
    exists|input: Seq<JsonValue>| #[trigger]
        stable_rank(input, records) && record_views(input) == unordered_records(s, m, at)->0
}

/// Maps a manifest onto its public evidence records, ordered by identifier.
pub fn project_evidence_records(s: &RepositorySnapshot, m: &ProjectEvidenceManifest, collected_at: &str) -> (r: Result<
    Vec<JsonValue>,
    MachineMappingError,
>)
    ensures
        r is Ok <==> unordered_records(*s, *m, collected_at@) is Some,
        r matches Ok(records) ==> ordered_records(*s, *m, collected_at@, records@),
{
    let rs = &m.raw_facts;
    let cfs = m.classification_facts.as_slice();
    let mut out: Vec<JsonValue> = Vec::new();
    let mut i: usize = 0;
    while i < rs.len()
        invariant
            i <= rs@.len(),
            rs@ == m.raw_facts@,
            cfs@ == m.classification_facts@,
            fact_records(*s, *m, rs@.subrange(0, i as int), collected_at@) == Some(record_views(out@)),
        decreases rs.len() - i,
    {
        let f = &rs[i];
        let ghost sub = rs@.subrange(0, i + 1);
        assert(sub.drop_last() =~= rs@.subrange(0, i as int));
        assert(sub.last() == *f);
        let ghost prev = out@;
        match map_raw(s, f, collected_at) {
            Ok(v) => {
                out.push(v);
                assert(record_views(out@) =~= record_views(prev).push(v.view()));
            },
            Err(e) => {
                proof {
                    assert(fact_records(*s, *m, sub, collected_at@) is None);
                    lemma_fact_records_none(*s, *m, rs@, i + 1, collected_at@);
                    assert(rs@.subrange(0, rs@.len() as int) =~= rs@);
                }
                return Err(e);
            },
        }
        match f.kind {
            RawEvidenceKind::TrackedFile => {
                match crate::features::find_last_class_pub(cfs, f.id.as_str()) {
                    Some(c) => {
                        let ghost mid = out@;
                        let v = map_classification(c, collected_at);
                        out.push(v);
                        assert(record_views(out@) =~= record_views(mid).push(v.view()));
                    },
                    None => {},
                }
            },
            _ => {},
        }
        i = i + 1;
    }
    assert(rs@.subrange(0, rs@.len() as int) =~= rs@);
    let mut features = repository_features(s, m, collected_at);
    let ghost fact_part = out@;
    let ghost feature_part = features@;
    out.append(&mut features);
    assert(record_views(out@) =~= record_views(fact_part) + Seq::new(11, |q: int| feature_json(*s, *m, q, collected_at@)));
    let ghost input = out@;
    let sorted = rank_stably(out);
    proof {
        assert(fact_records(*s, *m, m.raw_facts@, collected_at@) == Some(record_views(fact_part)));
        assert(unordered_records(*s, *m, collected_at@)->0 == record_views(input));
        assert(stable_rank(input, sorted@));
        assert(ordered_records(*s, *m, collected_at@, sorted@));
    }
    Ok(sorted)
}

proof fn lemma_fact_records_none(s: RepositorySnapshot, m: ProjectEvidenceManifest, rs: Seq<RawEvidenceFact>, n: int, at: Seq<char>)
    requires
        0 <= n <= rs.len(),
        fact_records(s, m, rs.subrange(0, n), at) is None,
    ensures
        fact_records(s, m, rs, at) is None,
    decreases rs.len() - n,
{
    if n < rs.len() {
        let next = rs.subrange(0, n + 1);
        assert(next.drop_last() =~= rs.subrange(0, n));
        lemma_fact_records_none(s, m, rs, n + 1, at);
    } else {
        assert(rs.subrange(0, n) =~= rs);
    }
}


/// The first raw fact of a kind.
pub open spec fn first_of_kind(rs: Seq<RawEvidenceFact>, k: RawEvidenceKind) -> Option<RawEvidenceFact>
    decreases rs.len(),
{
    if rs.len() == 0 {
        None
    } else if rs[0].kind == k {
        Some(rs[0])
    } else {
        first_of_kind(rs.drop_first(), k)
    }
}

fn find_first_of_kind<'a>(rs: &'a [RawEvidenceFact], k: RawEvidenceKind) -> (r: Option<&'a RawEvidenceFact>)
    ensures
        match r {
            Some(f) => first_of_kind(rs@, k) == Some(*f),
            None => first_of_kind(rs@, k) is None,
        },
{
    let mut i: usize = 0;
    assert(rs@.subrange(0, rs@.len() as int) =~= rs@);
    while i < rs.len()
        invariant
            i <= rs@.len(),
            first_of_kind(rs@, k) == first_of_kind(rs@.subrange(i as int, rs@.len() as int), k),
        decreases rs.len() - i,
    {
        let ghost rest = rs@.subrange(i as int, rs@.len() as int);
        assert(rest.drop_first() =~= rs@.subrange(i + 1, rs@.len() as int));
        if rs[i].kind == k {
            return Some(&rs[i]);
        }
        i = i + 1;
    }
    None
}

/// The incompleteness reason a raw fact's payload records.
pub open spec fn fact_issue(f: RawEvidenceFact) -> Option<RawEvidenceIssue> {
    match (f.kind, f.payload.view()) {
        (RawEvidenceKind::TrackedFile, PayloadView::TrackedFile(_, _, _, _, i)) => i,
        (RawEvidenceKind::HistoryScope, PayloadView::HistoryScope(_, _, i)) => i,
        (RawEvidenceKind::ParentDelta, PayloadView::ParentDelta(_, _, i)) => i,
        _ => None,
    }
}

fn issue_of(f: &RawEvidenceFact) -> (r: Option<RawEvidenceIssue>)
    ensures
        r == fact_issue(*f),
{
    match (&f.kind, &f.payload) {
        (RawEvidenceKind::TrackedFile, RawEvidencePayload::TrackedFile { issue, .. }) => *issue,
        (RawEvidenceKind::HistoryScope, RawEvidencePayload::HistoryScope { issue, .. }) => *issue,
        (RawEvidenceKind::ParentDelta, RawEvidencePayload::ParentDelta { issue, .. }) => *issue,
        _ => None,
    }
}

/// A coded notice citing evidence.
pub open spec fn notice_json(code: Seq<char>, ids: Seq<Seq<char>>) -> JsonView {
    JsonView::Object(seq![("code"@, JsonView::Text(code)), ("affected_evidence_ids"@, texts_json(ids))])
}

fn notice_value(code: &str, ids: &Vec<String>) -> (r: JsonValue)
    ensures
        r.view() == notice_json(code@, keys_of(ids@)),
{
    let mut b = ObjectBuilder::new();
    b.add("code", json_text(code));
    b.add("affected_evidence_ids", texts_value(ids));
    let r = b.build();
    assert(entries_view(b.entries@) =~= seq![
        ("code"@, JsonView::Text(code@)),
        ("affected_evidence_ids"@, texts_json(keys_of(ids@))),
    ]);
    r
}

fn one_id(id: &str) -> (r: Vec<String>)
    ensures
        keys_of(r@) == seq![id@],
{
    let mut v: Vec<String> = Vec::new();
    v.push(owned(id));
    assert(keys_of(v@) =~= seq![id@]);
    v
}

/// One warning per raw fact that records an incompleteness reason.
pub open spec fn warnings_json(rs: Seq<RawEvidenceFact>) -> Seq<JsonView>
    decreases rs.len(),
{
    if rs.len() == 0 {
        Seq::empty()
    } else {
        match fact_issue(rs.last()) {
            Some(i) => warnings_json(rs.drop_last()).push(notice_json(raw_issue_text(i), seq![rs.last().id.view()])),
            None => warnings_json(rs.drop_last()),
        }
    }
}

fn warnings(m: &ProjectEvidenceManifest) -> (r: Vec<JsonValue>)
    ensures
        record_views(r@) == warnings_json(m.raw_facts@),
{
    let rs = &m.raw_facts;
    let mut out: Vec<JsonValue> = Vec::new();
    let mut i: usize = 0;
    while i < rs.len()
        invariant
            i <= rs@.len(),
            record_views(out@) == warnings_json(rs@.subrange(0, i as int)),
        decreases rs.len() - i,
    {
        let ghost sub = rs@.subrange(0, i + 1);
        assert(sub.drop_last() =~= rs@.subrange(0, i as int));
        assert(sub.last() == rs@[i as int]);
        match issue_of(&rs[i]) {
            Some(issue) => {
                let ghost prev = out@;
                let v = notice_value(issue.code(), &one_id(rs[i].id.as_str()));
                out.push(v);
                assert(record_views(out@) =~= record_views(prev).push(v.view()));
            },
            None => {},
        }
        i = i + 1;
    }
    assert(rs@.subrange(0, rs@.len() as int) =~= rs@);
    out
}

/// Raw facts whose path is too long to publish.
pub open spec fn limited_raw_ids(rs: Seq<RawEvidenceFact>) -> Set<Seq<char>> {
    Set::new(|x: Seq<char>| exists|i: int| 0 <= i < rs.len() && #[trigger] rs[i].id.view() == x && path_limited(rs[i].source))
}

/// Facts affected by the path-length limit: limited raw facts and the
/// classifications that cite them.
pub open spec fn path_limit_set(m: ProjectEvidenceManifest) -> Set<Seq<char>> {
    let raw = limited_raw_ids(m.raw_facts@);
    let cfs = m.classification_facts@;
    raw.union(
        Set::new(|x: Seq<char>| exists|i: int| 0 <= i < cfs.len() && #[trigger] cfs[i].id.view() == x && raw.contains(cfs[i].source_evidence_id.view())),
    )
}

fn path_limit_ids(m: &ProjectEvidenceManifest) -> (r: Vec<String>)
    ensures
        strictly_sorted(keys_of(r@)),
        keys_of(r@).to_set() == path_limit_set(*m),
{
    let rs = &m.raw_facts;
    let cfs = &m.classification_facts;
    let mut limited: Vec<String> = Vec::new();
    let mut i: usize = 0;
    while i < rs.len()
        invariant
            i <= rs@.len(),
            strictly_sorted(keys_of(limited@)),
            forall|x: Seq<char>| #[trigger] keys_of(limited@).to_set().contains(x) <==> exists|q: int|
                0 <= q < i && #[trigger] rs@[q].id.view() == x && path_limited(rs@[q].source),
        decreases rs.len() - i,
    {
        let f = &rs[i];
        let is_limited = match &f.source.path {
            Some(p) => !path_is_publishable(p),
            None => false,
        };
        if is_limited {
            insert_unique(&mut limited, owned(f.id.as_str()));
        }
        proof {
            assert forall|x: Seq<char>| #[trigger] keys_of(limited@).to_set().contains(x) <==> exists|q: int|
                0 <= q < i + 1 && #[trigger] rs@[q].id.view() == x && path_limited(rs@[q].source) by {
                if x == f.id.view() && is_limited {
                    assert(rs@[i as int].id.view() == x);
                }
            }
        }
        i = i + 1;
    }
    let ghost raw = limited_raw_ids(rs@);
    assert(keys_of(limited@).to_set() =~= raw);
    let mut ids: Vec<String> = Vec::new();
    let mut k: usize = 0;
    while k < limited.len()
        invariant
            k <= limited@.len(),
            strictly_sorted(keys_of(ids@)),
            keys_of(ids@).to_set() == keys_of(limited@.subrange(0, k as int)).to_set(),
        decreases limited.len() - k,
    {
        let ghost pre = keys_of(limited@.subrange(0, k as int));
        insert_unique(&mut ids, owned(limited[k].as_str()));
        proof {
            assert(keys_of(limited@.subrange(0, k + 1)) =~= pre.push(limited@[k as int]@));
            crate::sorted::lemma_push_to_set(pre, limited@[k as int]@);
        }
        k = k + 1;
    }
    assert(limited@.subrange(0, limited@.len() as int) =~= limited@);
    let ghost cited = Set::new(|x: Seq<char>| exists|q: int| 0 <= q < cfs@.len() && #[trigger] cfs@[q].id.view() == x && raw.contains(cfs@[q].source_evidence_id.view()));
    let mut j: usize = 0;
    while j < cfs.len()
        invariant
            j <= cfs@.len(),
            raw == limited_raw_ids(rs@),
            keys_of(limited@).to_set() == raw,
            strictly_sorted(keys_of(ids@)),
            forall|x: Seq<char>| #[trigger] keys_of(ids@).to_set().contains(x) <==> (raw.contains(x) || exists|q: int|
                0 <= q < j && #[trigger] cfs@[q].id.view() == x && raw.contains(cfs@[q].source_evidence_id.view())),
        decreases cfs.len() - j,
    {
        let c = &cfs[j];
        let cites = crate::sorted::contains_key(limited.as_slice(), c.source_evidence_id.as_str());
        if cites {
            insert_unique(&mut ids, owned(c.id.as_str()));
        }
        proof {
            assert forall|x: Seq<char>| #[trigger] keys_of(ids@).to_set().contains(x) <==> (raw.contains(x) || exists|q: int|
                0 <= q < j + 1 && #[trigger] cfs@[q].id.view() == x && raw.contains(cfs@[q].source_evidence_id.view())) by {
                if x == c.id.view() && cites {
                    assert(cfs@[j as int].id.view() == x);
                }
            }
        }
        j = j + 1;
    }
    assert(keys_of(ids@).to_set() =~= path_limit_set(*m));
    ids
}


/// A published classification record that is partial for want of attributes.
pub open spec fn attribute_partial(v: JsonView) -> bool {
    &&& field(v, "status"@) == JsonView::Text("partial"@)
    &&& field(field(v, "payload"@), "kind"@) == JsonView::Text("file_classification"@)
    &&& field(field(v, "payload"@), "reason"@) == JsonView::Text("attributes_unavailable"@)
}

/// The identifiers of such records, in record order.
pub open spec fn attribute_ids(rs: Seq<JsonView>) -> Seq<Seq<char>>
    decreases rs.len(),
{
    if rs.len() == 0 {
        Seq::empty()
    } else {
        let prev = attribute_ids(rs.drop_last());
        if attribute_partial(rs.last()) {
            match record_id(rs.last()) {
                Some(id) => prev.push(id),
                None => prev,
            }
        } else {
            prev
        }
    }
}

fn field_is(v: &JsonValue, key: &str, text: &str) -> (r: bool)
    ensures
        r == (field(v.view(), key@) == JsonView::Text(text@)),
{
    match v.get(key) {
        Some(x) => x.is_text(text),
        None => false,
    }
}

fn is_attribute_partial(v: &JsonValue) -> (r: bool)
    ensures
        r == attribute_partial(v.view()),
{
    if !field_is(v, "status", "partial") {
        return false;
    }
    match v.get("payload") {
        Some(p) => field_is(p, "kind", "file_classification") && field_is(p, "reason", "attributes_unavailable"),
        None => false,
    }
}

fn attribute_unavailable_ids(records: &Vec<JsonValue>) -> (r: Vec<String>)
    ensures
        keys_of(r@) == attribute_ids(record_views(records@)),
{
    let mut out: Vec<String> = Vec::new();
    let mut i: usize = 0;
    while i < records.len()
        invariant
            i <= records@.len(),
            keys_of(out@) == attribute_ids(record_views(records@.subrange(0, i as int))),
        decreases records.len() - i,
    {
        let ghost sub = record_views(records@.subrange(0, i + 1));
        assert(sub.drop_last() =~= record_views(records@.subrange(0, i as int)));
        assert(sub.last() == records@[i as int].view());
        if is_attribute_partial(&records[i]) {
            match records[i].text_at("id") {
                Some(id) => {
                    let ghost prev = keys_of(out@);
                    out.push(owned(id));
                    assert(keys_of(out@) =~= prev.push(id@));
                },
                None => {},
            }
        }
        i = i + 1;
    }
    assert(records@.subrange(0, records@.len() as int) =~= records@);
    out
}

/// The limitations of an analysis: attribute resolution when some
/// classification lacked it, the two standing limitations citing the
/// snapshot, and the path-length limit when some path was too long.
pub open spec fn limitations_json(attr: Seq<Seq<char>>, snapshot_id: Seq<char>, paths: Seq<Seq<char>>) -> Seq<JsonView> {
    (if attr.len() > 0 {
        seq![notice_json("attribute_resolution_unavailable"@, attr)]
    } else {
        Seq::empty()
    }) + seq![
        notice_json("project_scores_not_computed"@, seq![snapshot_id]),
        notice_json("repository_code_not_executed"@, seq![snapshot_id]),
    ] + (if paths.len() > 0 {
        seq![notice_json("path_length_limit"@, paths)]
    } else {
        Seq::empty()
    })
}

/// The hashed description of the rule set.
pub open spec fn rule_set_text() -> Seq<char> {
    "assay-rule-set-v1\0classifier-v1\0project-evidence-v1"@
}

/// The hashed description of the effective configuration.
pub open spec fn config_text() -> Seq<char> {
    "assay-effective-config-v1\0default-local-read-only"@
}

pub open spec fn name_version_json(name: Seq<char>, version: Seq<char>) -> JsonView {
    JsonView::Object(seq![("name"@, JsonView::Text(name)), ("version"@, JsonView::Text(version))])
}

fn name_version_value(name: &str, version: &str) -> (r: JsonValue)
    ensures
        r.view() == name_version_json(name@, version@),
{
    let mut b = ObjectBuilder::new();
    b.add("name", json_text(name));
    b.add("version", json_text(version));
    let r = b.build();
    assert(entries_view(b.entries@) =~= seq![("name"@, JsonView::Text(name@)), ("version"@, JsonView::Text(version@))]);
    r
}

/// One data source of the analysis.
pub open spec fn data_source_json(id: Seq<char>, kind: Seq<char>, status: EvidenceStatus, revision: Seq<char>, at: Seq<char>) -> JsonView {
    JsonView::Object(
        seq![
            ("id"@, JsonView::Text(id)),
            ("kind"@, JsonView::Text(kind)),
            ("status"@, JsonView::Text(evidence_status_text(status))),
            ("revision"@, JsonView::Text(revision)),
            ("content_hash"@, JsonView::Null),
            ("remote_record_id"@, JsonView::Null),
            ("collected_at"@, JsonView::Text(at)),
            ("visibility"@, JsonView::Text("private_local"@)),
            ("retention"@, JsonView::Text("metadata_only"@)),
        ],
    )
}

fn data_source_value(id: &str, kind: &str, status: EvidenceStatus, revision: &str, at: &str) -> (r: JsonValue)
    ensures
        r.view() == data_source_json(id@, kind@, status, revision@, at@),
{
    let mut b = ObjectBuilder::new();
    b.add("id", json_text(id));
    b.add("kind", json_text(kind));
    b.add("status", json_text(status.code()));
    b.add("revision", json_text(revision));
    b.add("content_hash", json_null());
    b.add("remote_record_id", json_null());
    b.add("collected_at", json_text(at));
    b.add("visibility", json_text("private_local"));
    b.add("retention", json_text("metadata_only"));
    let r = b.build();
    assert(entries_view(b.entries@) =~= match data_source_json(id@, kind@, status, revision@, at@) {
        JsonView::Object(e) => e,
        _ => Seq::empty(),
    });
    r
}

/// Whether some raw fact's path is too long to publish.
pub open spec fn has_bounded_path(rs: Seq<RawEvidenceFact>) -> bool {
    exists|i: int| 0 <= i < rs.len() && path_limited(#[trigger] rs[i].source)
}

/// The manifest record of an analysis.
pub open spec fn manifest_json(
    s: RepositorySnapshot,
    m: ProjectEvidenceManifest,
    generated_at: Seq<char>,
    tool_version: Seq<char>,
    records: Seq<JsonView>,
    evidence_bytes: Seq<u8>,
    snapshot_id: Seq<char>,
    history: RawEvidenceFact,
    commit_count: Option<usize>,
) -> JsonView {
    let status = if has_bounded_path(m.raw_facts@) {
        "partial"@
    } else {
        analysis_status_text(m.status)
    };
    let revision = s.source_snapshot.revision.view();
    JsonView::Object(
        seq![
            ("schema_version"@, JsonView::Text("1.0.0"@)),
            ("analysis_version"@, JsonView::Text("repository-evidence-1"@)),
            ("tool"@, name_version_json("assay"@, tool_version)),
            (
                "source_snapshot"@,
                JsonView::Object(
                    seq![
                        ("source"@, repository_json(s.source_snapshot.source.view())),
                        ("revision"@, JsonView::Text(revision)),
                        ("root_tree"@, opt_text_json(opt_revision_view(s.source_snapshot.root_tree))),
                        ("commit_time"@, opt_i64_json(s.commit_time)),
                    ],
                ),
            ),
            ("rule_set_hash"@, JsonView::Text(stable_hash_text(utf8(rule_set_text())))),
            ("config_hash"@, JsonView::Text(stable_hash_text(utf8(config_text())))),
            (
                "analyzers"@,
                JsonView::Array(
                    seq![
                        name_version_json("assay-classifier"@, tool_version),
                        name_version_json("assay-git"@, tool_version),
                        name_version_json("assay-project-intelligence"@, tool_version),
                    ],
                ),
            ),
            ("parsers"@, JsonView::Array(Seq::empty())),
            ("status"@, JsonView::Text(status)),
            ("generated_at"@, JsonView::Text(generated_at)),
            (
                "scope"@,
                JsonView::Object(
                    seq![
                        ("mode"@, JsonView::Text("single_revision"@)),
                        ("base_revision"@, JsonView::Null),
                        ("head_revision"@, JsonView::Text(revision)),
                        ("history_status"@, JsonView::Text(evidence_status_text(history.status))),
                        ("commit_count"@, opt_count_json(commit_count)),
                        (
                            "requested_capabilities"@,
                            texts_json(
                                seq![
                                    "repository_snapshot"@,
                                    "tracked_files"@,
                                    "file_classification"@,
                                    "repository_history"@,
                                    "language_detection"@,
                                ],
                            ),
                        ),
                    ],
                ),
            ),
            (
                "data_sources"@,
                JsonView::Array(
                    seq![
                        data_source_json(snapshot_id, "repository"@, s.status, revision, generated_at),
                        data_source_json(history.id.view(), "repository_history"@, history.status, revision, generated_at),
                    ],
                ),
            ),
            (
                "artifacts"@,
                JsonView::Array(
                    seq![
                        JsonView::Object(
                            seq![
                                ("role"@, JsonView::Text("project_evidence"@)),
                                ("schema_version"@, JsonView::Text("1.0.0"@)),
                                ("content_hash"@, JsonView::Text(stable_hash_text(evidence_bytes))),
                                ("record_count"@, JsonView::Number(NumberView::Unsigned(records.len() as u64))),
                                ("status"@, JsonView::Text(status)),
                            ],
                        ),
                    ],
                ),
            ),
            ("warnings"@, JsonView::Array(warnings_json(m.raw_facts@))),
            (
                "limitations"@,
                JsonView::Array(
                    limitations_json(attribute_ids(records), snapshot_id, sorted_texts(path_limit_set(m))),
                ),
            ),
        ],
    )
}

/// The project-analysis bundle of a manifest, given its ordered records and
/// their serialization; absent when the manifest lacks its snapshot or
/// history fact, or the history fact lacks its payload.
pub open spec fn bundle_json(
    s: RepositorySnapshot,
    m: ProjectEvidenceManifest,
    generated_at: Seq<char>,
    tool_version: Seq<char>,
    records: Seq<JsonView>,
    evidence_bytes: Seq<u8>,
) -> Option<JsonView> {
    match (first_of_kind(m.raw_facts@, RawEvidenceKind::RepositorySnapshot), first_of_kind(m.raw_facts@, RawEvidenceKind::HistoryScope)) {
        (Some(snap), Some(history)) => match history.payload.view() {
            PayloadView::HistoryScope(count, _, _) => Some(
                JsonView::Object(
                    seq![
                        ("schema_version"@, JsonView::Text("1.0.0"@)),
                        (
                            "manifest"@,
                            manifest_json(s, m, generated_at, tool_version, records, evidence_bytes, snap.id.view(), history, count),
                        ),
                        ("evidence"@, JsonView::Array(records)),
                    ],
                ),
            ),
            _ => None,
        },
        _ => None,
    }
}


fn has_bounded_path_exec(rs: &Vec<RawEvidenceFact>) -> (r: bool)
    ensures
        r == has_bounded_path(rs@),
{
    let mut i: usize = 0;
    while i < rs.len()
        invariant
            i <= rs@.len(),
            forall|q: int| 0 <= q < i ==> !path_limited(#[trigger] rs@[q].source),
        decreases rs.len() - i,
    {
        let limited = match &rs[i].source.path {
            Some(p) => !path_is_publishable(p),
            None => false,
        };
        if limited {
            return true;
        }
        i = i + 1;
    }
    false
}

fn texts_array(items: Vec<&str>) -> (r: JsonValue)
    ensures
        r.view() == texts_json(items@.map_values(|t: &str| t@)),
{
    let mut out: Vec<JsonValue> = Vec::new();
    let mut i: usize = 0;
    while i < items.len()
        invariant
            i <= items@.len(),
            items_view(out@) == items@.subrange(0, i as int).map_values(|t: &str| JsonView::Text(t@)),
        decreases items.len() - i,
    {
        let ghost prev = out@;
        let v = json_text(items[i]);
        out.push(v);
        assert(items_view(out@) =~= items_view(prev).push(v.view()));
        assert(items@.subrange(0, i + 1).map_values(|t: &str| JsonView::Text(t@)) =~= items@.subrange(0, i as int).map_values(|t: &str| JsonView::Text(t@)).push(JsonView::Text(items@[i as int]@)));
        i = i + 1;
    }
    assert(items@.subrange(0, items@.len() as int) =~= items@);
    assert(items@.map_values(|t: &str| JsonView::Text(t@)) =~= items@.map_values(|t: &str| t@).map_values(|t: Seq<char>| JsonView::Text(t)));
    json_array(out)
}

fn limitations_value(attr: &Vec<String>, snapshot_id: &str, paths: &Vec<String>) -> (r: JsonValue)
    ensures
        r.view() == JsonView::Array(limitations_json(keys_of(attr@), snapshot_id@, keys_of(paths@))),
{
    let mut out: Vec<JsonValue> = Vec::new();
    if attr.len() > 0 {
        out.push(notice_value("attribute_resolution_unavailable", attr));
    }
    let ghost a = items_view(out@);
    out.push(notice_value("project_scores_not_computed", &one_id(snapshot_id)));
    out.push(notice_value("repository_code_not_executed", &one_id(snapshot_id)));
    let ghost b = items_view(out@);
    if paths.len() > 0 {
        out.push(notice_value("path_length_limit", paths));
    }
    assert(items_view(out@) =~= limitations_json(keys_of(attr@), snapshot_id@, keys_of(paths@)));
    json_array(out)
}

/// Assembles the project-analysis bundle of a manifest. Its evidence is the
/// manifest's own public records, collected at `generated_at` and ordered by
/// identifier, as `project_evidence_records` gives them; `evidence_bytes` is
/// their serialization, which the bundle's artifact hashes.
#[verifier::rlimit(60)]
pub fn build_project_analysis(
    s: &RepositorySnapshot,
    m: &ProjectEvidenceManifest,
    generated_at: &str,
    tool_version: &str,
    records: Vec<JsonValue>,
    evidence_bytes: &[u8],
) -> (r: Result<JsonValue, MachineMappingError>)
    requires
        ordered_records(*s, *m, generated_at@, records@),
    ensures
        match bundle_json(*s, *m, generated_at@, tool_version@, record_views(records@), evidence_bytes@) {
            Some(v) => r matches Ok(x) && x.view() == v,
            None => r is Err,
        },
{
    let snap = match find_first_of_kind(m.raw_facts.as_slice(), RawEvidenceKind::RepositorySnapshot) {
        Some(f) => f,
        None => {
            return Err(MachineMappingError);
        },
    };
    let history = match find_first_of_kind(m.raw_facts.as_slice(), RawEvidenceKind::HistoryScope) {
        Some(f) => f,
        None => {
            return Err(MachineMappingError);
        },
    };
    let count = match &history.payload {
        RawEvidencePayload::HistoryScope { reachable_commits, .. } => *reachable_commits,
        _ => {
            return Err(MachineMappingError);
        },
    };
    let bounded = has_bounded_path_exec(&m.raw_facts);
    let status = if bounded {
        "partial"
    } else {
        m.status.code()
    };
    let revision = s.source_snapshot.revision.as_str();
    let attr = attribute_unavailable_ids(&records);
    let paths = path_limit_ids(m);
    proof {
        lemma_sorted_texts(keys_of(paths@));
    }
    let warning_list = warnings(m);
    let ghost warning_views = record_views(warning_list@);
    assert(items_view(warning_list@) =~= warning_views);
    let mut src = ObjectBuilder::new();
    src.add("source", repository_value(&s.source_snapshot.source));
    src.add("revision", json_text(revision));
    src.add("root_tree", match &s.source_snapshot.root_tree {
        Some(t) => json_text(t.as_str()),
        None => json_null(),
    });
    src.add("commit_time", match s.commit_time {
        Some(t) => crate::json::json_i64(t),
        None => json_null(),
    });
    let ghost src_e = entries_view(src.entries@);
    let source_snapshot = src.build();
    let mut analyzers: Vec<JsonValue> = Vec::new();
    analyzers.push(name_version_value("assay-classifier", tool_version));
    analyzers.push(name_version_value("assay-git", tool_version));
    analyzers.push(name_version_value("assay-project-intelligence", tool_version));
    let ghost an_v = items_view(analyzers@);
    let mut scope = ObjectBuilder::new();
    scope.add("mode", json_text("single_revision"));
    scope.add("base_revision", json_null());
    scope.add("head_revision", json_text(revision));
    scope.add("history_status", json_text(history.status.code()));
    scope.add("commit_count", match count {
        Some(c) => json_u64(c as u64),
        None => json_null(),
    });
    let caps = vec!["repository_snapshot", "tracked_files", "file_classification", "repository_history", "language_detection"];
    let ghost caps_v = caps@.map_values(|t: &str| t@);
    scope.add("requested_capabilities", texts_array(caps));
    let ghost scope_e = entries_view(scope.entries@);
    let scope_value = scope.build();
    let mut sources: Vec<JsonValue> = Vec::new();
    sources.push(data_source_value(snap.id.as_str(), "repository", s.status, revision, generated_at));
    sources.push(data_source_value(history.id.as_str(), "repository_history", history.status, revision, generated_at));
    let ghost sources_v = items_view(sources@);
    let mut art = ObjectBuilder::new();
    art.add("role", json_text("project_evidence"));
    art.add("schema_version", json_text("1.0.0"));
    art.add("content_hash", json_text(stable_hash(evidence_bytes).as_str()));
    let record_count = records.len();
    assert(record_count == records@.len());
    art.add("record_count", json_u64(record_count as u64));
    art.add("status", json_text(status));
    let ghost art_e = entries_view(art.entries@);
    let mut artifacts: Vec<JsonValue> = Vec::new();
    artifacts.push(art.build());
    let ghost art_v = items_view(artifacts@);
    assert(art_v =~= seq![JsonView::Object(art_e)]);
    let no_parsers: Vec<JsonValue> = Vec::new();
    let ghost np = items_view(no_parsers@);
    let rule_hash = stable_hash("assay-rule-set-v1\0classifier-v1\0project-evidence-v1".as_bytes());
    let config_hash = stable_hash("assay-effective-config-v1\0default-local-read-only".as_bytes());
    let mut mb = ObjectBuilder::new();
    mb.add("schema_version", json_text("1.0.0"));
    mb.add("analysis_version", json_text("repository-evidence-1"));
    mb.add("tool", name_version_value("assay", tool_version));
    mb.add("source_snapshot", source_snapshot);
    mb.add("rule_set_hash", json_text(rule_hash.as_str()));
    mb.add("config_hash", json_text(config_hash.as_str()));
    mb.add("analyzers", json_array(analyzers));
    mb.add("parsers", json_array(no_parsers));
    mb.add("status", json_text(status));
    mb.add("generated_at", json_text(generated_at));
    mb.add("scope", scope_value);
    mb.add("data_sources", json_array(sources));
    mb.add("artifacts", json_array(artifacts));
    mb.add("warnings", json_array(warning_list));
    mb.add("limitations", limitations_value(&attr, snap.id.as_str(), &paths));
    let ghost mb_e = entries_view(mb.entries@);
    let manifest_value = mb.build();
    let ghost rv = record_views(records@);
    let mut bb = ObjectBuilder::new();
    bb.add("schema_version", json_text("1.0.0"));
    bb.add("manifest", manifest_value);
    proof {
        crate::json::lemma_array_view(records);
        assert(items_view(records@) =~= rv);
    }
    bb.add("evidence", json_array(records));
    let r = bb.build();
    proof {
        assert(status@ == (if has_bounded_path(m.raw_facts@) { "partial"@ } else { analysis_status_text(m.status) }));
        assert(src_e =~= seq![
            ("source"@, repository_json(s.source_snapshot.source.view())),
            ("revision"@, JsonView::Text(s.source_snapshot.revision.view())),
            ("root_tree"@, opt_text_json(opt_revision_view(s.source_snapshot.root_tree))),
            ("commit_time"@, opt_i64_json(s.commit_time)),
        ]);
        reveal_strlit("repository_snapshot");
        reveal_strlit("tracked_files");
        reveal_strlit("file_classification");
        reveal_strlit("repository_history");
        reveal_strlit("language_detection");
        assert(caps_v =~= seq![
            "repository_snapshot"@,
            "tracked_files"@,
            "file_classification"@,
            "repository_history"@,
            "language_detection"@,
        ]);
        assert(scope_e =~= seq![
            ("mode"@, JsonView::Text("single_revision"@)),
            ("base_revision"@, JsonView::Null),
            ("head_revision"@, JsonView::Text(s.source_snapshot.revision.view())),
            ("history_status"@, JsonView::Text(evidence_status_text(history.status))),
            ("commit_count"@, opt_count_json(count)),
            ("requested_capabilities"@, texts_json(caps_v)),
        ]);
        assert(an_v =~= seq![
            name_version_json("assay-classifier"@, tool_version@),
            name_version_json("assay-git"@, tool_version@),
            name_version_json("assay-project-intelligence"@, tool_version@),
        ]);
        assert(np =~= Seq::<JsonView>::empty());
        assert(art_e =~= seq![
            ("role"@, JsonView::Text("project_evidence"@)),
            ("schema_version"@, JsonView::Text("1.0.0"@)),
            ("content_hash"@, JsonView::Text(stable_hash_text(evidence_bytes@))),
            ("record_count"@, JsonView::Number(NumberView::Unsigned(rv.len() as u64))),
            ("status"@, JsonView::Text(status@)),
        ]);
        assert(sources_v =~= seq![
            data_source_json(snap.id.view(), "repository"@, s.status, s.source_snapshot.revision.view(), generated_at@),
            data_source_json(history.id.view(), "repository_history"@, history.status, s.source_snapshot.revision.view(), generated_at@),
        ]);
        let mj = manifest_json(*s, *m, generated_at@, tool_version@, rv, evidence_bytes@, snap.id.view(), *history, count);
        let me = match mj {
            JsonView::Object(e) => e,
            _ => Seq::empty(),
        };
        assert(mb_e.len() == me.len());
        assert(mb_e[0] == me[0]);
        assert(mb_e[1] == me[1]);
        assert(mb_e[2] == me[2]);
        assert(mb_e[3] == me[3]);
        assert(mb_e[4] == me[4]);
        assert(mb_e[5] == me[5]);
        assert(mb_e[6] == me[6]);
        assert(mb_e[7] == me[7]);
        assert(mb_e[8] == me[8]);
        assert(mb_e[9] == me[9]);
        assert(mb_e[10] == me[10]);
        assert(mb_e[11] == me[11]);
        assert(mb_e[12] == me[12]);
        assert(mb_e[13] == me[13]);
        assert(mb_e[14] == me[14]);
        assert(mb_e =~= match manifest_json(*s, *m, generated_at@, tool_version@, rv, evidence_bytes@, snap.id.view(), *history, count) {
            JsonView::Object(e) => e,
            _ => Seq::empty(),
        });
        assert(entries_view(bb.entries@) =~= match bundle_json(*s, *m, generated_at@, tool_version@, rv, evidence_bytes@) {
            Some(JsonView::Object(e)) => e,
            _ => Seq::empty(),
        });
    }
    Ok(r)
}

/// Every analysis states that no project score was computed and no
/// repository code was executed, both citing the snapshot; it adds the
/// attribute-resolution limitation exactly when some classification lacked
/// attributes and the path-length limitation exactly when some path was too
/// long, each citing the affected evidence.
pub proof fn law_analyses_state_their_limits(attr: Seq<Seq<char>>, snapshot_id: Seq<char>, paths: Seq<Seq<char>>)
    ensures
        limitations_json(attr, snapshot_id, paths).contains(
            notice_json("project_scores_not_computed"@, seq![snapshot_id]),
        ),
        limitations_json(attr, snapshot_id, paths).contains(
            notice_json("repository_code_not_executed"@, seq![snapshot_id]),
        ),
        limitations_json(attr, snapshot_id, paths).len() == 2 + (if attr.len() > 0 {
            1int
        } else {
            0
        }) + (if paths.len() > 0 {
            1int
        } else {
            0
        }),
        attr.len() > 0 ==> limitations_json(attr, snapshot_id, paths)[0] == notice_json(
            "attribute_resolution_unavailable"@,
            attr,
        ),
        paths.len() > 0 ==> limitations_json(attr, snapshot_id, paths).last() == notice_json(
            "path_length_limit"@,
            paths,
        ),
{
    let l = limitations_json(attr, snapshot_id, paths);
    let k: int = if attr.len() > 0 {
        1
    } else {
        0
    };
    assert(l[k] == notice_json("project_scores_not_computed"@, seq![snapshot_id]));
    assert(l[k + 1] == notice_json("repository_code_not_executed"@, seq![snapshot_id]));
}

} // verus!
