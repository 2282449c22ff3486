//! Derives one repository feature solely from the records of a public
//! evidence bundle.
//!
//! A payload-free `path_length_limit` envelope hides its path, so a bundle
//! cannot show whether that record was a direct name or category match. Every
//! opaque envelope of the applicable evidence layer is therefore a cause of
//! uncertainty whenever no reliable public match exists. A reliable match
//! takes precedence and cites only the matching factual records. An opaque
//! cause means that absence cannot be established; it does not claim that the
//! hidden record holds the feature.
use vstd::prelude::*;

use crate::evidence::ClassificationCategoryRecord;
use crate::features::{FeatureRule, feature_names, feature_rule, opt_insert};
use crate::json::{JsonValue, JsonView, as_text, field, has_field, items_view};
use crate::machine_records::{public_category, public_category_text};
use crate::path_text::{PathFeature, path_matches};
use crate::sorted::{insert_unique, keys_of, lemma_sorted_texts, sorted_texts, strictly_sorted};
use crate::text::{owned, text_eq};

verus! {

/// The kind of an evidence record: its payload's kind, else the kind a
/// payload-free envelope requested.
pub open spec fn evidence_kind(f: JsonView) -> Option<Seq<char>> {
    if has_field(f, "payload"@) && as_text(field(field(f, "payload"@), "kind"@)) is Some {
        as_text(field(field(f, "payload"@), "kind"@))
    } else {
        as_text(field(f, "requested_kind"@))
    }
}

/// The kind of an evidence record.
pub fn record_kind(f: &JsonValue) -> (r: Option<&str>)
    ensures
        r is Some <==> evidence_kind(f.view()) is Some,
        r matches Some(k) ==> evidence_kind(f.view()) == Some(k@),
{
    match f.get("payload") {
        Some(p) => match p.text_at("kind") {
            Some(k) => Some(k),
            None => f.text_at("requested_kind"),
        },
        None => f.text_at("requested_kind"),
    }
}

/// The rule of the feature with public name `name`.
pub open spec fn rule_named(name: Seq<char>) -> Option<FeatureRule> {
    if name == "readme"@ {
        Some(FeatureRule::Path(PathFeature::Readme))
    } else if name == "license"@ {
        Some(FeatureRule::Path(PathFeature::License))
    } else if name == "package_manifest"@ {
        Some(FeatureRule::Path(PathFeature::PackageManifest))
    } else if name == "ci"@ {
        Some(FeatureRule::Category(ClassificationCategoryRecord::CiCd))
    } else if name == "test"@ {
        Some(FeatureRule::Category(ClassificationCategoryRecord::Test))
    } else if name == "documentation"@ {
        Some(FeatureRule::Category(ClassificationCategoryRecord::Documentation))
    } else if name == "migration"@ {
        Some(FeatureRule::Category(ClassificationCategoryRecord::SchemaMigration))
    } else if name == "dependency"@ {
        Some(FeatureRule::Category(ClassificationCategoryRecord::Dependency))
    } else if name == "security_policy"@ {
        Some(FeatureRule::Category(ClassificationCategoryRecord::SecurityPolicy))
    } else if name == "generated_content"@ {
        Some(FeatureRule::Category(ClassificationCategoryRecord::Generated))
    } else if name == "vendored_content"@ {
        Some(FeatureRule::Category(ClassificationCategoryRecord::Vendored))
    } else {
        None
    }
}

fn rule_of(name: &str) -> (r: Option<FeatureRule>)
    ensures
        r == rule_named(name@),
{
    if text_eq(name, "readme") {
        Some(FeatureRule::Path(PathFeature::Readme))
    } else if text_eq(name, "license") {
        Some(FeatureRule::Path(PathFeature::License))
    } else if text_eq(name, "package_manifest") {
        Some(FeatureRule::Path(PathFeature::PackageManifest))
    } else if text_eq(name, "ci") {
        Some(FeatureRule::Category(ClassificationCategoryRecord::CiCd))
    } else if text_eq(name, "test") {
        Some(FeatureRule::Category(ClassificationCategoryRecord::Test))
    } else if text_eq(name, "documentation") {
        Some(FeatureRule::Category(ClassificationCategoryRecord::Documentation))
    } else if text_eq(name, "migration") {
        Some(FeatureRule::Category(ClassificationCategoryRecord::SchemaMigration))
    } else if text_eq(name, "dependency") {
        Some(FeatureRule::Category(ClassificationCategoryRecord::Dependency))
    } else if text_eq(name, "security_policy") {
        Some(FeatureRule::Category(ClassificationCategoryRecord::SecurityPolicy))
    } else if text_eq(name, "generated_content") {
        Some(FeatureRule::Category(ClassificationCategoryRecord::Generated))
    } else if text_eq(name, "vendored_content") {
        Some(FeatureRule::Category(ClassificationCategoryRecord::Vendored))
    } else {
        None
    }
}

/// What one record contributes to a feature: a reliable match, a direct
/// candidate whose classification is incomplete, and a cause of uncertainty.
pub open spec fn record_contribution(rule: FeatureRule, f: JsonView) -> (
    Option<Seq<char>>,
    Option<Seq<char>>,
    Option<Seq<char>>,
) {
    match as_text(field(f, "id"@)) {
        None => (None, None, None),
        Some(id) => match rule {
            FeatureRule::Path(pf) => {
                let path = field(field(f, "payload"@), "path"@);
                if evidence_kind(f) != Some("tracked_file"@) {
                    (None, None, None)
                } else if !has_field(f, "payload"@) || field(path, "encoding"@) != JsonView::Text("utf8"@) {
                    (None, None, Some(id))
                } else if as_text(field(path, "value"@)) matches Some(v) && path_matches(pf, v) {
                    (Some(id), None, None)
                } else {
                    (None, None, None)
                }
            },
            FeatureRule::Category(c) => {
                let complete = field(f, "status"@) == JsonView::Text("complete"@);
                let hit = field(field(field(f, "payload"@), "classification"@), "primary_category"@)
                    == JsonView::Text(public_category_text(c));
                if evidence_kind(f) != Some("file_classification"@) {
                    (None, None, None)
                } else {
                    (
                        if hit && complete {
                            Some(id)
                        } else {
                            None
                        },
                        if hit && !complete {
                            Some(id)
                        } else {
                            None
                        },
                        if !complete {
                            Some(id)
                        } else {
                            None
                        },
                    )
                }
            },
        },
    }
}

/// The reliable matches, direct candidates and uncertainty causes of a
/// feature over a sequence of records.
pub open spec fn feature_evidence(rule: FeatureRule, facts: Seq<JsonView>) -> (
    Set<Seq<char>>,
    Set<Seq<char>>,
    Set<Seq<char>>,
)
    decreases facts.len(),
{
    if facts.len() == 0 {
        (Set::empty(), Set::empty(), Set::empty())
    } else {
        let prior = feature_evidence(rule, facts.drop_last());
        let c = record_contribution(rule, facts.last());
        (opt_insert(prior.0, c.0), opt_insert(prior.1, c.1), opt_insert(prior.2, c.2))
    }
}

/// The state of a feature and the sorted identifiers it cites: present with
/// its reliable matches; else unavailable with its direct candidates, else
/// with its uncertainty causes; else absent, citing nothing.
pub open spec fn derived_feature(rule: FeatureRule, facts: Seq<JsonView>) -> (Seq<char>, Seq<Seq<char>>) {
    let e = feature_evidence(rule, facts);
    if e.0 != Set::<Seq<char>>::empty() {
        ("present"@, sorted_texts(e.0))
    } else if e.1 != Set::<Seq<char>>::empty() {
        ("unavailable"@, sorted_texts(e.1))
    } else if e.2 != Set::<Seq<char>>::empty() {
        ("unavailable"@, sorted_texts(e.2))
    } else {
        ("absent"@, Seq::empty())
    }
}

/// The state a feature should have in a bundle and the evidence it cites.
#[derive(Debug)]
pub struct RepositoryFeatureExpectation {
    pub state: &'static str,
    pub related_evidence_ids: Vec<String>,
}

fn some_id(id: &str) -> (r: Option<String>)
    ensures
        (r matches Some(s) && s@ == id@),
{
    Some(owned(id))
}

fn contribution(rule: FeatureRule, f: &JsonValue) -> (r: (Option<String>, Option<String>, Option<String>))
    ensures
        (opt_view(r.0), opt_view(r.1), opt_view(r.2)) == record_contribution(rule, f.view()),
{
    let id = match f.text_at("id") {
        Some(id) => id,
        None => return (None, None, None),
    };
    match rule {
        FeatureRule::Path(pf) => {
            let is_tracked = match record_kind(f) {
                Some(k) => text_eq(k, "tracked_file"),
                None => false,
            };
            if !is_tracked {
                return (None, None, None);
            }
            match f.get("payload") {
                None => (None, None, some_id(id)),
                Some(p) => {
                    let (utf8, value) = match p.get("path") {
                        Some(path) => (
                            match path.get("encoding") {
                                Some(e) => e.is_text("utf8"),
                                None => false,
                            },
                            path.text_at("value"),
                        ),
                        None => (false, None),
                    };
                    if !utf8 {
                        (None, None, some_id(id))
                    } else {
                        match value {
                            Some(v) => {
                                if pf.matches(v) {
                                    (some_id(id), None, None)
                                } else {
                                    (None, None, None)
                                }
                            },
                            None => (None, None, None),
                        }
                    }
                },
            }
        },
        FeatureRule::Category(c) => {
            let is_classification = match record_kind(f) {
                Some(k) => text_eq(k, "file_classification"),
                None => false,
            };
            if !is_classification {
                return (None, None, None);
            }
            let complete = match f.get("status") {
                Some(s) => s.is_text("complete"),
                None => false,
            };
            let category = match f.get("payload") {
                Some(p) => match p.get("classification") {
                    Some(cl) => match cl.get("primary_category") {
                        Some(pc) => pc.is_text(public_category(c)),
                        None => false,
                    },
                    None => false,
                },
                None => false,
            };
            (
                if category && complete {
                    some_id(id)
                } else {
                    None
                },
                if category && !complete {
                    some_id(id)
                } else {
                    None
                },
                if !complete {
                    some_id(id)
                } else {
                    None
                },
            )
        },
    }
}

pub open spec fn opt_view(t: Option<String>) -> Option<Seq<char>> {
    match t {
        Some(s) => Some(s@),
        None => None,
    }
}

fn add_id(set: &mut Vec<String>, id: Option<String>)
    requires
        strictly_sorted(keys_of(old(set)@)),
    ensures
        strictly_sorted(keys_of(final(set)@)),
        keys_of(final(set)@).to_set() == opt_insert(keys_of(old(set)@).to_set(), opt_view(id)),
{
    match id {
        Some(s) => {
            insert_unique(set, s);
        },
        None => {},
    }
}

proof fn lemma_sorted_set(v: Seq<String>)
    requires
        strictly_sorted(keys_of(v)),
    ensures
        sorted_texts(keys_of(v).to_set()) == keys_of(v),
        (v.len() == 0) == (keys_of(v).to_set() == Set::<Seq<char>>::empty()),
{
    lemma_sorted_texts(keys_of(v));
    if v.len() > 0 {
        assert(keys_of(v).to_set().contains(keys_of(v)[0]));
    } else {
        assert(keys_of(v).to_set() =~= Set::<Seq<char>>::empty());
    }
}

/// Derives feature `feature` from the records of a bundle, in their order.
pub fn derive_repository_feature(feature: &str, evidence: &[JsonValue]) -> (r: Result<
    RepositoryFeatureExpectation,
    &'static str,
>)
    ensures
        rule_named(feature@) is None ==> (r matches Err(e) && e@ == "feature_name"@),
        rule_named(feature@) matches Some(rule) ==> (r matches Ok(x) && (
        x.state@,
        keys_of(x.related_evidence_ids@),
        ) == derived_feature(rule, items_view(evidence@))),
        r matches Ok(x) ==> strictly_sorted(keys_of(x.related_evidence_ids@)),
        r matches Ok(x) ==> ((x.state@ == "absent"@) == (x.related_evidence_ids@.len() == 0)),
{
    let rule = match rule_of(feature) {
        Some(rule) => rule,
        None => return Err("feature_name"),
    };
    let ghost facts = items_view(evidence@);
    let mut reliable: Vec<String> = Vec::new();
    let mut candidates: Vec<String> = Vec::new();
    let mut causes: Vec<String> = Vec::new();
    let mut i: usize = 0;
    proof {
        assert(facts.subrange(0, 0) =~= Seq::<JsonView>::empty());
        assert(keys_of(reliable@).to_set() =~= Set::<Seq<char>>::empty());
    }
    while i < evidence.len()
        invariant
            i <= evidence@.len(),
            facts == items_view(evidence@),
            strictly_sorted(keys_of(reliable@)),
            strictly_sorted(keys_of(candidates@)),
            strictly_sorted(keys_of(causes@)),
            (keys_of(reliable@).to_set(), keys_of(candidates@).to_set(), keys_of(causes@).to_set())
                == feature_evidence(rule, facts.subrange(0, i as int)),
        decreases evidence.len() - i,
    {
        let (a, b, c) = contribution(rule, &evidence[i]);
        add_id(&mut reliable, a);
        add_id(&mut candidates, b);
        add_id(&mut causes, c);
        proof {
            assert(facts.subrange(0, i + 1).drop_last() =~= facts.subrange(0, i as int));
            assert(facts.subrange(0, i + 1).last() == evidence@[i as int].view());
        }
        i = i + 1;
    }
    proof {
        assert(facts.subrange(0, evidence@.len() as int) =~= facts);
        lemma_sorted_set(reliable@);
        lemma_sorted_set(candidates@);
        lemma_sorted_set(causes@);
        assert(keys_of(Seq::<String>::empty()) =~= Seq::<Seq<char>>::empty());
    }
    let (state, related) = if reliable.len() > 0 {
        ("present", reliable)
    } else if candidates.len() > 0 {
        ("unavailable", candidates)
    } else if causes.len() > 0 {
        ("unavailable", causes)
    } else {
        ("absent", Vec::new())
    };
    proof {
        reveal_strlit("absent");
        reveal_strlit("present");
        reveal_strlit("unavailable");
        assert("absent"@.len() == 6 && "present"@.len() == 7 && "unavailable"@.len() == 11);
    }
    Ok(RepositoryFeatureExpectation { state, related_evidence_ids: related })
}

/// The repository features and how each is recognised: README, license and
/// package manifest by a tracked file's name; CI by a `ci_cd` classification,
/// tests by `test`, documentation by `documentation`, migrations by
/// `schema_migration`, dependencies by `dependency`, the security policy by
/// `security_policy`, generated and vendored content by `generated` and
/// `vendored`. The bundle's feature records and their derivation from a
/// bundle name the same rules, and no other feature name has one.
pub proof fn law_feature_rules_table()
    ensures
        rule_named("readme"@) == Some(FeatureRule::Path(PathFeature::Readme)),
        rule_named("license"@) == Some(FeatureRule::Path(PathFeature::License)),
        rule_named("package_manifest"@) == Some(FeatureRule::Path(PathFeature::PackageManifest)),
        rule_named("ci"@) == Some(FeatureRule::Category(ClassificationCategoryRecord::CiCd)),
        rule_named("test"@) == Some(FeatureRule::Category(ClassificationCategoryRecord::Test)),
        rule_named("documentation"@) == Some(FeatureRule::Category(ClassificationCategoryRecord::Documentation)),
        rule_named("migration"@) == Some(FeatureRule::Category(ClassificationCategoryRecord::SchemaMigration)),
        rule_named("dependency"@) == Some(FeatureRule::Category(ClassificationCategoryRecord::Dependency)),
        rule_named("security_policy"@) == Some(FeatureRule::Category(ClassificationCategoryRecord::SecurityPolicy)),
        rule_named("generated_content"@) == Some(FeatureRule::Category(ClassificationCategoryRecord::Generated)),
        rule_named("vendored_content"@) == Some(FeatureRule::Category(ClassificationCategoryRecord::Vendored)),
        forall|k: int| 0 <= k < 11 ==> rule_named(#[trigger] feature_names()[k]) == Some(feature_rule(k)),
        feature_names().len() == 11,
        forall|n: Seq<char>| #[trigger] rule_named(n) is Some ==> feature_names().contains(n),
{
    reveal_strlit("readme");
    reveal_strlit("license");
    reveal_strlit("package_manifest");
    reveal_strlit("ci");
    reveal_strlit("test");
    reveal_strlit("documentation");
    reveal_strlit("migration");
    reveal_strlit("dependency");
    reveal_strlit("security_policy");
    reveal_strlit("generated_content");
    reveal_strlit("vendored_content");
    assert("readme"@.len() == 6);
    assert("license"@.len() == 7);
    assert("package_manifest"@.len() == 16);
    assert("ci"@.len() == 2);
    assert("test"@.len() == 4);
    assert("documentation"@.len() == 13);
    assert("migration"@.len() == 9);
    assert("dependency"@.len() == 10);
    assert("security_policy"@.len() == 15);
    assert("generated_content"@.len() == 17);
    assert("vendored_content"@.len() == 16);
    assert("vendored_content"@[0] != "package_manifest"@[0]);
    assert forall|k: int| 0 <= k < 11 implies rule_named(#[trigger] feature_names()[k]) == Some(feature_rule(k)) by {
        if k == 0 {
        } else if k == 1 {
        } else if k == 2 {
        } else if k == 3 {
        } else if k == 4 {
        } else if k == 5 {
        } else if k == 6 {
        } else if k == 7 {
        } else if k == 8 {
        } else if k == 9 {
        } else {
        }
    }
    assert forall|n: Seq<char>| #[trigger] rule_named(n) is Some implies feature_names().contains(n) by {
        if n == "readme"@ {
            assert(feature_names()[0] == n);
        } else if n == "license"@ {
            assert(feature_names()[1] == n);
        } else if n == "package_manifest"@ {
            assert(feature_names()[2] == n);
        } else if n == "ci"@ {
            assert(feature_names()[3] == n);
        } else if n == "test"@ {
            assert(feature_names()[4] == n);
        } else if n == "documentation"@ {
            assert(feature_names()[5] == n);
        } else if n == "migration"@ {
            assert(feature_names()[6] == n);
        } else if n == "dependency"@ {
            assert(feature_names()[7] == n);
        } else if n == "security_policy"@ {
            assert(feature_names()[8] == n);
        } else if n == "generated_content"@ {
            assert(feature_names()[9] == n);
        } else {
            assert(feature_names()[10] == n);
        }
    }
}

} // verus!
