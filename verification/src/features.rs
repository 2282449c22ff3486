//! Repository features derived from a manifest's tracked files and their
//! classifications: present when a publishable record shows the feature,
//! unavailable when only records that cannot settle it exist, absent
//! otherwise.
use vstd::prelude::*;

use crate::assembly::ProjectEvidenceManifest;
use crate::cohort_record::{repository_json, repository_value, texts_json, texts_value};
use crate::digest::{sha256, sha256_of};
use crate::domain::{EvidenceStatus, SourceView};
use crate::evidence::{ClassificationCategoryRecord, PortablePathEncoding, RawEvidenceKind};
use crate::file_classification::ClassificationEvidenceRecord;
use crate::hex::{hex_text, lower_hex};
use crate::json::{JsonValue, JsonView, ObjectBuilder, entries_view, json_null, json_text};
use crate::machine_records::{path_is_publishable, privacy_json, privacy_value, publishable};
use crate::path_text::{PathFeature, path_matches};
use crate::raw_facts::{RawEvidenceFact, RepositorySnapshot, opt_path_view};
use crate::sorted::{contains_key, insert_unique, keys_of, lemma_push_to_set, lemma_sorted_texts, sorted_texts, strictly_sorted};
use crate::text::{owned, push_char, push_text, utf8};

verus! {

/// How a repository feature is recognised.
#[derive(Clone, Copy, Debug, PartialEq, Eq, Structural)]
pub enum FeatureRule {
    /// By a tracked file's name.
    Path(PathFeature),
    /// By a file classification's primary category.
    Category(ClassificationCategoryRecord),
}

/// The repository features, in publication order.
pub open spec fn feature_names() -> Seq<Seq<char>> {
    seq![
        "readme"@,
        "license"@,
        "package_manifest"@,
        "ci"@,
        "test"@,
        "documentation"@,
        "migration"@,
        "dependency"@,
        "security_policy"@,
        "generated_content"@,
        "vendored_content"@,
    ]
}

/// How feature `k` is recognised.
pub open spec fn feature_rule(k: int) -> FeatureRule {
    if k == 0 {
        FeatureRule::Path(PathFeature::Readme)
    } else if k == 1 {
        FeatureRule::Path(PathFeature::License)
    } else if k == 2 {
        FeatureRule::Path(PathFeature::PackageManifest)
    } else if k == 3 {
        FeatureRule::Category(ClassificationCategoryRecord::CiCd)
    } else if k == 4 {
        FeatureRule::Category(ClassificationCategoryRecord::Test)
    } else if k == 5 {
        FeatureRule::Category(ClassificationCategoryRecord::Documentation)
    } else if k == 6 {
        FeatureRule::Category(ClassificationCategoryRecord::SchemaMigration)
    } else if k == 7 {
        FeatureRule::Category(ClassificationCategoryRecord::Dependency)
    } else if k == 8 {
        FeatureRule::Category(ClassificationCategoryRecord::SecurityPolicy)
    } else if k == 9 {
        FeatureRule::Category(ClassificationCategoryRecord::Generated)
    } else {
        FeatureRule::Category(ClassificationCategoryRecord::Vendored)
    }
}

fn feature_at(k: usize) -> (r: (&'static str, FeatureRule))
    requires
        k < 11,
    ensures
        r.0@ == feature_names()[k as int],
        r.1 == feature_rule(k as int),
{
    proof {
        reveal_strlit("readme");
    }
    if k == 0 {
        ("readme", FeatureRule::Path(PathFeature::Readme))
    } else if k == 1 {
        ("license", FeatureRule::Path(PathFeature::License))
    } else if k == 2 {
        ("package_manifest", FeatureRule::Path(PathFeature::PackageManifest))
    } else if k == 3 {
        ("ci", FeatureRule::Category(ClassificationCategoryRecord::CiCd))
    } else if k == 4 {
        ("test", FeatureRule::Category(ClassificationCategoryRecord::Test))
    } else if k == 5 {
        ("documentation", FeatureRule::Category(ClassificationCategoryRecord::Documentation))
    } else if k == 6 {
        ("migration", FeatureRule::Category(ClassificationCategoryRecord::SchemaMigration))
    } else if k == 7 {
        ("dependency", FeatureRule::Category(ClassificationCategoryRecord::Dependency))
    } else if k == 8 {
        ("security_policy", FeatureRule::Category(ClassificationCategoryRecord::SecurityPolicy))
    } else if k == 9 {
        ("generated_content", FeatureRule::Category(ClassificationCategoryRecord::Generated))
    } else {
        ("vendored_content", FeatureRule::Category(ClassificationCategoryRecord::Vendored))
    }
}

/// The category a classification fact produced, if any.
pub open spec fn category_of(f: ClassificationEvidenceRecord) -> Option<ClassificationCategoryRecord> {
    match f.payload {
        Some(p) => Some(p.category),
        None => None,
    }
}

/// Whether a file, by its path and its classification, shows a feature.
pub open spec fn matches_feature(
    rule: FeatureRule,
    path: Option<Seq<char>>,
    cls: Option<ClassificationEvidenceRecord>,
) -> bool {
    match rule {
        FeatureRule::Path(p) => path_matches(
            p,
            match path {
                Some(v) => v,
                None => Seq::empty(),
            },
        ),
        FeatureRule::Category(c) => match cls {
            Some(f) => category_of(f) == Some(c),
            None => false,
        },
    }
}

/// The last classification fact citing raw fact `raw_id`.
pub open spec fn last_class_for(cfs: Seq<ClassificationEvidenceRecord>, raw_id: Seq<char>) -> Option<
    ClassificationEvidenceRecord,
>
    decreases cfs.len(),
{
    if cfs.len() == 0 {
        None
    } else if cfs.last().source_evidence_id.view() == raw_id {
        Some(cfs.last())
    } else {
        last_class_for(cfs.drop_last(), raw_id)
    }
}

pub fn find_last_class_pub<'a>(cfs: &'a [ClassificationEvidenceRecord], raw_id: &str) -> (r: Option<&'a ClassificationEvidenceRecord>)
    ensures
        match r {
            Some(f) => last_class_for(cfs@, raw_id@) == Some(*f),
            None => last_class_for(cfs@, raw_id@) is None,
        },
{
    let mut k: usize = cfs.len();
    assert(cfs@.subrange(0, k as int) =~= cfs@);
    while k > 0
        invariant
            k <= cfs@.len(),
            last_class_for(cfs@, raw_id@) == last_class_for(cfs@.subrange(0, k as int), raw_id@),
        decreases k,
    {
        let ghost sub = cfs@.subrange(0, k as int);
        assert(sub.drop_last() =~= cfs@.subrange(0, k - 1));
        if crate::text::text_eq(cfs[k - 1].source_evidence_id.as_str(), raw_id) {
            return Some(&cfs[k - 1]);
        }
        k = k - 1;
    }
    None
}

/// A classification fact that is complete and whose path is publishable.
pub open spec fn publicly_complete(f: ClassificationEvidenceRecord) -> bool {
    f.status == EvidenceStatus::Complete && match opt_path_view(f.source.path) {
        Some(p) => publishable(p),
        None => false,
    }
}

fn is_publicly_complete(f: &ClassificationEvidenceRecord) -> (r: bool)
    ensures
        r == publicly_complete(*f),
{
    let complete = match f.status {
        EvidenceStatus::Complete => true,
        _ => false,
    };
    complete && match &f.source.path {
        Some(p) => path_is_publishable(p),
        None => false,
    }
}

/// The path value of a fact's citation, if any.
pub open spec fn path_value_of(f: RawEvidenceFact) -> Option<Seq<char>> {
    match opt_path_view(f.source.path) {
        Some(p) => Some(p.1),
        None => None,
    }
}

/// What one raw fact contributes to a feature: a reliable match, a match
/// that cannot settle it, or nothing.
pub open spec fn contribution(rule: FeatureRule, f: RawEvidenceFact, cfs: Seq<ClassificationEvidenceRecord>) -> (
    Option<Seq<char>>,
    Option<Seq<char>>,
) {
    let cls = last_class_for(cfs, f.id.view());
    if f.kind != RawEvidenceKind::TrackedFile || !matches_feature(rule, path_value_of(f), cls) {
        (None, None)
    } else {
        match rule {
            FeatureRule::Path(_) => if match opt_path_view(f.source.path) {
                Some(p) => publishable(p),
                None => false,
            } {
                (Some(f.id.view()), None)
            } else {
                (None, Some(f.id.view()))
            },
            FeatureRule::Category(_) => match cls {
                Some(c) => if publicly_complete(c) {
                    (Some(c.id.view()), None)
                } else {
                    (None, Some(c.id.view()))
                },
                None => (None, None),
            },
        }
    }
}

pub open spec fn opt_insert(s: Set<Seq<char>>, x: Option<Seq<char>>) -> Set<Seq<char>> {
    match x {
        Some(v) => s.insert(v),
        None => s,
    }
}

/// The reliable and uncertain matches of a feature over raw facts `rs`.
pub open spec fn matches_over(rule: FeatureRule, rs: Seq<RawEvidenceFact>, cfs: Seq<ClassificationEvidenceRecord>) -> (
    Set<Seq<char>>,
    Set<Seq<char>>,
)
    decreases rs.len(),
{
    if rs.len() == 0 {
        (Set::empty(), Set::empty())
    } else {
        let prev = matches_over(rule, rs.drop_last(), cfs);
        let c = contribution(rule, rs.last(), cfs);
        (opt_insert(prev.0, c.0), opt_insert(prev.1, c.1))
    }
}

/// Classification facts that are not publicly complete.
pub open spec fn incomplete_class_ids(cfs: Seq<ClassificationEvidenceRecord>) -> Set<Seq<char>> {
    Set::new(|x: Seq<char>| exists|i: int| 0 <= i < cfs.len() && #[trigger] cfs[i].id.view() == x && !publicly_complete(cfs[i]))
}

/// Tracked files whose path is not publishable UTF-8.
pub open spec fn incomplete_raw_path_ids(rs: Seq<RawEvidenceFact>) -> Set<Seq<char>> {
    Set::new(
        |x: Seq<char>|
            exists|i: int|
                0 <= i < rs.len() && #[trigger] rs[i].id.view() == x && rs[i].kind == RawEvidenceKind::TrackedFile
                    && match opt_path_view(rs[i].source.path) {
                    Some(p) => p.0 != PortablePathEncoding::Utf8 || !publishable(p),
                    None => false,
                },
    )
}

/// A feature's state and the evidence it cites.
pub open spec fn feature_outcome(rule: FeatureRule, m: ProjectEvidenceManifest) -> (Seq<char>, Set<Seq<char>>) {
    let rs = m.raw_facts@;
    let cfs = m.classification_facts@;
    let (reliable, candidates) = matches_over(rule, rs, cfs);
    let candidates = if reliable.len() == 0 && candidates.len() == 0 {
        match rule {
            FeatureRule::Path(_) => incomplete_raw_path_ids(rs),
            FeatureRule::Category(_) => incomplete_class_ids(cfs),
        }
    } else {
        candidates
    };
    if reliable.len() > 0 {
        ("present"@, reliable)
    } else if candidates.len() > 0 {
        ("unavailable"@, candidates)
    } else {
        ("absent"@, Set::empty())
    }
}

/// The identity component of a repository source in feature identifiers.
pub open spec fn identity_text(v: SourceView) -> Seq<char> {
    match v {
        SourceView::Local(id) => "local:"@ + id,
        SourceView::Hosted(p, n, r) => "hosted:"@ + p + ":"@ + n + ":"@ + r,
    }
}

/// Texts joined with NUL characters.
pub open spec fn join_nul(ts: Seq<Seq<char>>) -> Seq<char>
    decreases ts.len(),
{
    if ts.len() == 0 {
        Seq::empty()
    } else if ts.len() == 1 {
        ts[0]
    } else {
        join_nul(ts.drop_last()) + seq!['\0'] + ts.last()
    }
}

/// The identifier of a feature record: a short digest of the repository's
/// identity, the revision, the feature, its state and the cited evidence.
pub open spec fn feature_id_text(
    scope: Seq<char>,
    revision: Seq<char>,
    name: Seq<char>,
    state: Seq<char>,
    related: Seq<Seq<char>>,
) -> Seq<char> {
    let input = scope + seq!['\0'] + revision + seq!['\0'] + name + seq!['\0'] + state + seq!['\0'] + join_nul(
        related,
    );
    "evidence:repository-feature:v1-"@ + hex_text(sha256_of(utf8(input))).subrange(0, 24)
}

/// The identifier of a feature record of a snapshot.
pub open spec fn feature_id(s: RepositorySnapshot, name: Seq<char>, state: Seq<char>, related: Seq<Seq<char>>) -> Seq<char> {
    feature_id_text(identity_text(s.source_snapshot.source.view()), s.source_snapshot.revision.view(), name, state, related)
}

/// The public record of one repository feature.
pub open spec fn feature_json(
    s: RepositorySnapshot,
    m: ProjectEvidenceManifest,
    k: int,
    collected_at: Seq<char>,
) -> JsonView {
    let name = feature_names()[k];
    let (state, related_set) = feature_outcome(feature_rule(k), m);
    let related = sorted_texts(related_set);
    JsonView::Object(
        seq![
            ("schema_version"@, JsonView::Text("1.0.0"@)),
            ("repository"@, repository_json(s.source_snapshot.source.view())),
            ("id"@, JsonView::Text(feature_id(s, name, state, related))),
            ("status"@, JsonView::Text(if state == "unavailable"@ { "partial"@ } else { "complete"@ })),
            ("grade"@, JsonView::Text("a"@)),
            ("privacy"@, privacy_json()),
            (
                "provenance"@,
                JsonView::Object(
                    seq![
                        ("source_kind"@, JsonView::Text("repository_content"@)),
                        ("collected_at"@, JsonView::Text(collected_at)),
                        ("repository_revision"@, JsonView::Text(s.source_snapshot.revision.view())),
                        ("content_hash"@, JsonView::Null),
                        ("remote_record_id"@, JsonView::Null),
                    ],
                ),
            ),
            (
                "payload"@,
                JsonView::Object(
                    seq![
                        ("kind"@, JsonView::Text("repository_feature"@)),
                        ("feature"@, JsonView::Text(name)),
                        ("state"@, JsonView::Text(state)),
                        ("related_evidence_ids"@, texts_json(related)),
                    ],
                ),
            ),
        ],
    )
}


fn insert_opt(set: &mut Vec<String>, x: Option<&str>)
    requires
        strictly_sorted(keys_of(old(set)@)),
    ensures
        strictly_sorted(keys_of(final(set)@)),
        keys_of(final(set)@).to_set() == opt_insert(keys_of(old(set)@).to_set(), match x {
            Some(t) => Some(t@),
            None => None,
        }),
{
    match x {
        Some(t) => {
            insert_unique(set, owned(t));
        },
        None => {},
    }
}

/// The reliable and uncertain matches of one feature, as sorted lists.
fn feature_matches(rule: FeatureRule, m: &ProjectEvidenceManifest) -> (r: (Vec<String>, Vec<String>))
    ensures
        strictly_sorted(keys_of(r.0@)),
        strictly_sorted(keys_of(r.1@)),
        keys_of(r.0@).to_set() == matches_over(rule, m.raw_facts@, m.classification_facts@).0,
        keys_of(r.1@).to_set() == matches_over(rule, m.raw_facts@, m.classification_facts@).1,
{
    let rs = &m.raw_facts;
    let cfs = m.classification_facts.as_slice();
    let mut reliable: Vec<String> = Vec::new();
    let mut candidates: Vec<String> = Vec::new();
    let mut i: usize = 0;
    proof {
        assert(keys_of(reliable@).to_set() =~= Set::<Seq<char>>::empty());
        assert(keys_of(candidates@).to_set() =~= Set::<Seq<char>>::empty());
    }
    while i < rs.len()
        invariant
            i <= rs@.len(),
            cfs@ == m.classification_facts@,
            strictly_sorted(keys_of(reliable@)),
            strictly_sorted(keys_of(candidates@)),
            keys_of(reliable@).to_set() == matches_over(rule, rs@.subrange(0, i as int), cfs@).0,
            keys_of(candidates@).to_set() == matches_over(rule, rs@.subrange(0, i as int), cfs@).1,
        decreases rs.len() - i,
    {
        let f = &rs[i];
        let ghost sub = rs@.subrange(0, i + 1);
        assert(sub.drop_last() =~= rs@.subrange(0, i as int));
        assert(sub.last() == *f);
        let is_file = match f.kind {
            RawEvidenceKind::TrackedFile => true,
            _ => false,
        };
        let cls = find_last_class_pub(cfs, f.id.as_str());
        let path_value: Option<&str> = match &f.source.path {
            Some(p) => Some(p.value.as_str()),
            None => None,
        };
        let hit = is_file && match rule {
            FeatureRule::Path(pf) => pf.matches(match path_value {
                Some(v) => v,
                None => "",
            }),
            FeatureRule::Category(c) => match cls {
                Some(x) => match &x.payload {
                    Some(p) => p.category == c,
                    None => false,
                },
                None => false,
            },
        };
        proof {
            reveal_strlit("");
            assert(""@ =~= Seq::<char>::empty());
            match rule {
                FeatureRule::Path(pf) => {
                    assert(path_value_of(*f) == match path_value {
                        Some(v) => Some(v@),
                        None => None,
                    });
                },
                FeatureRule::Category(c) => {},
            }
        }
        let ghost c = contribution(rule, *f, cfs@);
        let ghost cls_spec = last_class_for(cfs@, f.id.view());
        assert(hit == (f.kind == RawEvidenceKind::TrackedFile && matches_feature(rule, path_value_of(*f), cls_spec)));
        let ghost prev_r = keys_of(reliable@).to_set();
        let ghost prev_c = keys_of(candidates@).to_set();
        if hit {
            match rule {
                FeatureRule::Path(_) => {
                    let ok = match &f.source.path {
                        Some(p) => path_is_publishable(p),
                        None => false,
                    };
                    if ok {
                        insert_opt(&mut reliable, Some(f.id.as_str()));
                        assert(c == (Some(f.id.view()), None::<Seq<char>>));
                    } else {
                        insert_opt(&mut candidates, Some(f.id.as_str()));
                        assert(c == (None::<Seq<char>>, Some(f.id.view())));
                    }
                },
                FeatureRule::Category(_) => match cls {
                    Some(x) => {
                        if is_publicly_complete(x) {
                            insert_opt(&mut reliable, Some(x.id.as_str()));
                            assert(c == (Some(x.id.view()), None::<Seq<char>>));
                        } else {
                            insert_opt(&mut candidates, Some(x.id.as_str()));
                            assert(c == (None::<Seq<char>>, Some(x.id.view())));
                        }
                    },
                    None => {
                        assert(c == (None::<Seq<char>>, None::<Seq<char>>));
                    },
                },
            }
        } else {
            assert(c == (None::<Seq<char>>, None::<Seq<char>>));
        }
        assert(keys_of(reliable@).to_set() == opt_insert(prev_r, c.0));
        assert(keys_of(candidates@).to_set() == opt_insert(prev_c, c.1));
        i = i + 1;
    }
    assert(rs@.subrange(0, rs@.len() as int) =~= rs@);
    (reliable, candidates)
}

/// The sorted identifiers of facts that cannot settle a feature by themselves.
fn fallback_ids(rule: FeatureRule, m: &ProjectEvidenceManifest) -> (r: Vec<String>)
    ensures
        strictly_sorted(keys_of(r@)),
        keys_of(r@).to_set() == match rule {
            FeatureRule::Path(_) => incomplete_raw_path_ids(m.raw_facts@),
            FeatureRule::Category(_) => incomplete_class_ids(m.classification_facts@),
        },
{
    let mut out: Vec<String> = Vec::new();
    match rule {
        FeatureRule::Path(_) => {
            let rs = &m.raw_facts;
            let ghost target = incomplete_raw_path_ids(rs@);
            let mut i: usize = 0;
            while i < rs.len()
                invariant
                    i <= rs@.len(),
                    target == incomplete_raw_path_ids(rs@),
                    strictly_sorted(keys_of(out@)),
                    forall|x: Seq<char>| #[trigger] keys_of(out@).to_set().contains(x) <==> exists|q: int|
                        0 <= q < i && #[trigger] rs@[q].id.view() == x && rs@[q].kind == RawEvidenceKind::TrackedFile
                            && match opt_path_view(rs@[q].source.path) {
                            Some(p) => p.0 != PortablePathEncoding::Utf8 || !publishable(p),
                            None => false,
                        },
                decreases rs.len() - i,
            {
                let f = &rs[i];
                let is_file = match f.kind {
                    RawEvidenceKind::TrackedFile => true,
                    _ => false,
                };
                let incomplete = match &f.source.path {
                    Some(p) => p.encoding != PortablePathEncoding::Utf8 || !path_is_publishable(p),
                    None => false,
                };
                let ghost before = keys_of(out@).to_set();
                if is_file && incomplete {
                    insert_opt(&mut out, Some(f.id.as_str()));
                }
                proof {
                    assert forall|x: Seq<char>| #[trigger] keys_of(out@).to_set().contains(x) <==> exists|q: int|
                        0 <= q < i + 1 && #[trigger] rs@[q].id.view() == x && rs@[q].kind == RawEvidenceKind::TrackedFile
                            && match opt_path_view(rs@[q].source.path) {
                            Some(p) => p.0 != PortablePathEncoding::Utf8 || !publishable(p),
                            None => false,
                        } by {
                        if x == f.id.view() && is_file && incomplete {
                            assert(rs@[i as int].id.view() == x);
                        }
                    }
                }
                i = i + 1;
            }
            assert(keys_of(out@).to_set() =~= target);
        },
        FeatureRule::Category(_) => {
            let cfs = &m.classification_facts;
            let ghost target = incomplete_class_ids(cfs@);
            let mut i: usize = 0;
            while i < cfs.len()
                invariant
                    i <= cfs@.len(),
                    target == incomplete_class_ids(cfs@),
                    strictly_sorted(keys_of(out@)),
                    forall|x: Seq<char>| #[trigger] keys_of(out@).to_set().contains(x) <==> exists|q: int|
                        0 <= q < i && #[trigger] cfs@[q].id.view() == x && !publicly_complete(cfs@[q]),
                decreases cfs.len() - i,
            {
                let f = &cfs[i];
                let incomplete = !is_publicly_complete(f);
                if incomplete {
                    insert_opt(&mut out, Some(f.id.as_str()));
                }
                proof {
                    assert forall|x: Seq<char>| #[trigger] keys_of(out@).to_set().contains(x) <==> exists|q: int|
                        0 <= q < i + 1 && #[trigger] cfs@[q].id.view() == x && !publicly_complete(cfs@[q]) by {
                        if x == f.id.view() && incomplete {
                            assert(cfs@[i as int].id.view() == x);
                        }
                    }
                }
                i = i + 1;
            }
            assert(keys_of(out@).to_set() =~= target);
        },
    }
    out
}

/// Joins texts with NUL characters.
fn join_with_nul(ts: &Vec<String>) -> (r: String)
    ensures
        r@ == join_nul(keys_of(ts@)),
{
    let mut r = String::new();
    let mut i: usize = 0;
    while i < ts.len()
        invariant
            i <= ts@.len(),
            r@ == join_nul(keys_of(ts@.subrange(0, i as int))),
        decreases ts.len() - i,
    {
        let ghost sub = keys_of(ts@.subrange(0, i + 1));
        assert(sub.drop_last() =~= keys_of(ts@.subrange(0, i as int)));
        assert(sub.last() == ts@[i as int]@);
        if i > 0 {
            push_char(&mut r, '\0');
        } else {
            assert(sub.len() == 1);
        }
        push_text(&mut r, ts[i].as_str());
        proof {
            if i == 0 {
                assert(r@ =~= sub[0]);
            } else {
                assert(r@ =~= join_nul(sub.drop_last()) + seq!['\0'] + sub.last());
            }
        }
        i = i + 1;
    }
    assert(ts@.subrange(0, ts@.len() as int) =~= ts@);
    r
}

fn identity_component(s: &RepositorySnapshot) -> (r: String)
    ensures
        r@ == identity_text(s.source_snapshot.source.view()),
{
    match s.source_snapshot.source.local_repository_id() {
        Some(id) => {
            let mut t = owned("local:");
            push_text(&mut t, id.as_str());
            t
        },
        None => match s.source_snapshot.source.hosted_locator() {
            Some((p, n, q)) => {
                let mut t = owned("hosted:");
                push_text(&mut t, p);
                push_text(&mut t, ":");
                push_text(&mut t, n);
                push_text(&mut t, ":");
                push_text(&mut t, q);
                t
            },
            None => {
                proof {
                    assert(false);
                }
                String::new()
            },
        },
    }
}

/// The first `n` characters of a text.
fn prefix_chars(t: &str, n: usize) -> (r: String)
    requires
        n <= t@.len(),
    ensures
        r@ == t@.subrange(0, n as int),
{
    let cs = crate::text::chars_of(t);
    let mut r = String::new();
    let mut i: usize = 0;
    while i < n
        invariant
            n <= cs@.len(),
            cs@ == t@,
            i <= n,
            r@ == t@.subrange(0, i as int),
        decreases n - i,
    {
        push_char(&mut r, cs[i]);
        assert(r@ =~= t@.subrange(0, i + 1));
        i = i + 1;
    }
    r
}

/// The identifier of a feature record.
pub fn repository_feature_id(
    identity_scope: &str,
    revision: &str,
    feature: &str,
    state: &str,
    related: &Vec<String>,
) -> (r: String)
    ensures
        r@ == feature_id_text(identity_scope@, revision@, feature@, state@, keys_of(related@)),
{
    let mut input = owned(identity_scope);
    push_char(&mut input, '\0');
    push_text(&mut input, revision);
    push_char(&mut input, '\0');
    push_text(&mut input, feature);
    push_char(&mut input, '\0');
    push_text(&mut input, state);
    push_char(&mut input, '\0');
    let joined = join_with_nul(related);
    push_text(&mut input, joined.as_str());
    assert(input@ =~= identity_scope@ + seq!['\0'] + revision@ + seq!['\0'] + feature@ + seq!['\0'] + state@
        + seq!['\0'] + join_nul(keys_of(related@)));
    let digest = sha256(input.as_str().as_bytes());
    let hex = lower_hex(digest.as_slice());
    proof {
        assert(hex@.len() == 64);
    }
    let mut id = owned("evidence:repository-feature:v1-");
    let short = prefix_chars(hex.as_str(), 24);
    push_text(&mut id, short.as_str());
    id
}

/// Builds the record of feature `k`.
#[verifier::rlimit(40)]
fn feature_record(s: &RepositorySnapshot, m: &ProjectEvidenceManifest, k: usize, collected_at: &str) -> (r: JsonValue)
    requires
        k < 11,
    ensures
        r.view() == feature_json(*s, *m, k as int, collected_at@),
{
    let (name, rule) = feature_at(k);
    let (reliable, candidates) = feature_matches(rule, m);
    proof {
        crate::sorted::lemma_strictly_sorted_no_duplicates(keys_of(reliable@));
        keys_of(reliable@).unique_seq_to_set();
        crate::sorted::lemma_strictly_sorted_no_duplicates(keys_of(candidates@));
        keys_of(candidates@).unique_seq_to_set();
    }
    let candidates = if reliable.len() == 0 && candidates.len() == 0 {
        fallback_ids(rule, m)
    } else {
        candidates
    };
    proof {
        crate::sorted::lemma_strictly_sorted_no_duplicates(keys_of(candidates@));
        keys_of(candidates@).unique_seq_to_set();
    }
    let unavailable = reliable.len() == 0 && candidates.len() > 0;
    let (state, related) = if reliable.len() > 0 {
        ("present", reliable)
    } else if candidates.len() > 0 {
        ("unavailable", candidates)
    } else {
        ("absent", Vec::new())
    };
    proof {
        lemma_sorted_texts(keys_of(related@));
        if related@.len() == 0 {
            assert(keys_of(related@).to_set() =~= Set::<Seq<char>>::empty());
        }
    }
    let ghost outcome = feature_outcome(rule, *m);
    assert(state@ == outcome.0);
    assert(keys_of(related@) == sorted_texts(outcome.1));
    let scope = identity_component(s);
    let id = repository_feature_id(scope.as_str(), s.source_snapshot.revision.as_str(), name, state, &related);
    let status = if unavailable {
        "partial"
    } else {
        "complete"
    };
    proof {
        reveal_strlit("present");
        reveal_strlit("unavailable");
        reveal_strlit("absent");
    }
    let mut p = ObjectBuilder::new();
    p.add("source_kind", json_text("repository_content"));
    p.add("collected_at", json_text(collected_at));
    p.add("repository_revision", json_text(s.source_snapshot.revision.as_str()));
    p.add("content_hash", json_null());
    p.add("remote_record_id", json_null());
    let ghost pe = entries_view(p.entries@);
    let provenance = p.build();
    let mut pl = ObjectBuilder::new();
    pl.add("kind", json_text("repository_feature"));
    pl.add("feature", json_text(name));
    pl.add("state", json_text(state));
    pl.add("related_evidence_ids", texts_value(&related));
    let ghost ple = entries_view(pl.entries@);
    let payload = pl.build();
    let mut b = ObjectBuilder::new();
    b.add("schema_version", json_text("1.0.0"));
    b.add("repository", repository_value(&s.source_snapshot.source));
    b.add("id", json_text(id.as_str()));
    b.add("status", json_text(status));
    b.add("grade", json_text("a"));
    b.add("privacy", privacy_value());
    b.add("provenance", provenance);
    b.add("payload", payload);
    let r = b.build();
    proof {
        assert(id@ == feature_id(*s, name@, state@, keys_of(related@)));
        assert(pe =~= seq![
            ("source_kind"@, JsonView::Text("repository_content"@)),
            ("collected_at"@, JsonView::Text(collected_at@)),
            ("repository_revision"@, JsonView::Text(s.source_snapshot.revision.view())),
            ("content_hash"@, JsonView::Null),
            ("remote_record_id"@, JsonView::Null),
        ]);
        assert(ple =~= seq![
            ("kind"@, JsonView::Text("repository_feature"@)),
            ("feature"@, JsonView::Text(name@)),
            ("state"@, JsonView::Text(state@)),
            ("related_evidence_ids"@, texts_json(keys_of(related@))),
        ]);
        assert(entries_view(b.entries@) =~= match feature_json(*s, *m, k as int, collected_at@) {
            JsonView::Object(e) => e,
            _ => Seq::empty(),
        });
    }
    r
}

/// The records of every repository feature, in publication order.
pub fn repository_features(s: &RepositorySnapshot, m: &ProjectEvidenceManifest, collected_at: &str) -> (r: Vec<JsonValue>)
    ensures
        r@.len() == 11,
        forall|k: int| 0 <= k < 11 ==> (#[trigger] r@[k]).view() == feature_json(*s, *m, k, collected_at@),
{
    let mut out: Vec<JsonValue> = Vec::new();
    let mut k: usize = 0;
    while k < 11
        invariant
            k <= 11,
            out@.len() == k,
            forall|q: int| 0 <= q < k ==> (#[trigger] out@[q]).view() == feature_json(*s, *m, q, collected_at@),
        decreases 11 - k,
    {
        out.push(feature_record(s, m, k, collected_at));
        k = k + 1;
    }
    out
}

} // verus!
