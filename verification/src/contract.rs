//! Cross-record invariants of a project analysis bundle that its JSON schema
//! cannot express: every record cites the manifest's repository and revision,
//! records are ordered by identifier, every reference resolves, redundant
//! copies of a fact agree, repository features follow from the records they
//! cite, the evidence artifact describes exactly the evidence, and the
//! analysis status agrees with the statuses it summarises.
//!
//! A bundle is checked in a fixed order and the first broken invariant is
//! reported by its code.
use vstd::prelude::*;

use crate::bundle_feature::{derive_repository_feature, derived_feature, evidence_kind, record_kind, rule_named};
use crate::digest::{stable_hash, stable_hash_text};
use crate::features::{feature_id_text, repository_feature_id};
use crate::json::{JsonNumber, JsonValue, JsonView, NumberView, as_array, as_text, field, has_field, items_view, json_eq, json_null};
use crate::sorted::{is_strictly_sorted, keys_of, strictly_sorted};
use crate::text::{TextOrder, compare_text, owned, push_text, text_eq, text_lt};

verus! {

/// The outcome of one check: `Ok`, or the code of the broken invariant.
pub open spec fn verdict(r: Result<(), &'static str>) -> Result<(), Seq<char>> {
    match r {
        Ok(_) => Ok(()),
        Err(e) => Err(e@),
    }
}

/// `a`, unless it passed, then `b`.
pub open spec fn and_then(a: Result<(), Seq<char>>, b: Result<(), Seq<char>>) -> Result<(), Seq<char>> {
    if a is Err {
        a
    } else {
        b
    }
}

/// The first failing check among `check(0)`, ..., `check(n - 1)`.
pub open spec fn first_failure(n: nat, check: spec_fn(int) -> Result<(), Seq<char>>) -> Result<(), Seq<char>>
    decreases n,
{
    if n == 0 {
        Ok(())
    } else {
        and_then(first_failure((n - 1) as nat, check), check(n - 1))
    }
}

/// Once some check fails, later checks change nothing.
pub proof fn lemma_first_failure_stays(n: nat, m: nat, check: spec_fn(int) -> Result<(), Seq<char>>)
    requires
        n <= m,
        first_failure(n, check) is Err,
    ensures
        first_failure(m, check) == first_failure(n, check),
    decreases m,
{
    if m > n {
        lemma_first_failure_stays(n, (m - 1) as nat, check);
    }
}

/// The text under `key`, when it is a text.
pub open spec fn text_of(v: JsonView, key: Seq<char>) -> Option<Seq<char>> {
    as_text(field(v, key))
}

/// The first record whose identifier is `id`.
pub open spec fn fact_with_id(facts: Seq<JsonView>, id: Seq<char>) -> Option<JsonView>
    decreases facts.len(),
{
    if facts.len() == 0 {
        None
    } else {
        match fact_with_id(facts.drop_last(), id) {
            Some(f) => Some(f),
            None => if text_of(facts.last(), "id"@) == Some(id) {
                Some(facts.last())
            } else {
                None
            },
        }
    }
}

proof fn lemma_fact_with_id_stays(facts: Seq<JsonView>, id: Seq<char>, n: int)
    requires
        0 <= n <= facts.len(),
        fact_with_id(facts.subrange(0, n), id) is Some,
    ensures
        fact_with_id(facts, id) == fact_with_id(facts.subrange(0, n), id),
    decreases facts.len() - n,
{
    if n < facts.len() {
        assert(facts.subrange(0, n + 1).drop_last() =~= facts.subrange(0, n));
        lemma_fact_with_id_stays(facts, id, n + 1);
    } else {
        assert(facts.subrange(0, n) =~= facts);
    }
}

/// `v[key]`, reading a missing entry as `null`.
fn at<'a>(v: &'a JsonValue, key: &str, null: &'a JsonValue) -> (r: &'a JsonValue)
    requires
        null.view() is Null,
    ensures
        r.view() == field(v.view(), key@),
{
    match v.get(key) {
        Some(x) => x,
        None => null,
    }
}

/// The position of the first record whose identifier is `id`.
fn find_fact(facts: &Vec<JsonValue>, id: &str) -> (r: Option<usize>)
    ensures
        r is Some <==> fact_with_id(items_view(facts@), id@) is Some,
        r matches Some(k) ==> k < facts@.len() && fact_with_id(items_view(facts@), id@) == Some(
            facts@[k as int].view(),
        ),
{
    let ghost fs = items_view(facts@);
    let mut i: usize = 0;
    assert(fs.subrange(0, 0) =~= Seq::<JsonView>::empty());
    while i < facts.len()
        invariant
            i <= facts@.len(),
            fs == items_view(facts@),
            fact_with_id(fs.subrange(0, i as int), id@) is None,
        decreases facts.len() - i,
    {
        let ghost pre = fs.subrange(0, i + 1);
        assert(pre.drop_last() =~= fs.subrange(0, i as int));
        assert(pre.last() == facts@[i as int].view());
        let found = match facts[i].text_at("id") {
            Some(t) => text_eq(t, id),
            None => false,
        };
        if found {
            proof {
                lemma_fact_with_id_stays(fs, id@, i + 1);
            }
            return Some(i);
        }
        i = i + 1;
    }
    assert(fs.subrange(0, facts@.len() as int) =~= fs);
    None
}

// ---------------------------------------------------------------------------
// Source, revision and order of the records.

/// Record `i` cites the manifest's repository and revision, has an
/// identifier, and sorts strictly after record `i - 1`.
pub open spec fn fact_order_check(facts: Seq<JsonView>, source: JsonView, revision: JsonView, i: int) -> Result<
    (),
    Seq<char>,
> {
    let f = facts[i];
    let rev = field(field(f, "provenance"@), "repository_revision"@);
    if field(f, "repository"@) != source {
        Err("source_mismatch"@)
    } else if has_field(f, "provenance"@) && !(rev is Null) && rev != revision {
        Err("revision_mismatch"@)
    } else if text_of(f, "id"@) is None {
        Err("missing_evidence_id"@)
    } else if i > 0 && !text_lt(text_of(facts[i - 1], "id"@)->0, text_of(f, "id"@)->0) {
        Err("evidence_order"@)
    } else {
        Ok(())
    }
}

/// The records are ordered and cite the manifest's source.
pub open spec fn order_stage(facts: Seq<JsonView>, source: JsonView, revision: JsonView) -> Result<(), Seq<char>> {
    first_failure(facts.len(), |i: int| fact_order_check(facts, source, revision, i))
}

fn check_order(facts: &Vec<JsonValue>, source: &JsonValue, revision: &JsonValue) -> (r: Result<(), &'static str>)
    ensures
        verdict(r) == order_stage(items_view(facts@), source.view(), revision.view()),
        r is Ok ==> strictly_sorted_ids(items_view(facts@)),
{
    let ghost fs = items_view(facts@);
    let ghost check = |i: int| fact_order_check(fs, source.view(), revision.view(), i);
    let null = json_null();
    let mut i: usize = 0;
    while i < facts.len()
        invariant
            i <= facts@.len(),
            fs == items_view(facts@),
            check == (|i: int| fact_order_check(fs, source.view(), revision.view(), i)),
            null.view() is Null,
            first_failure(i as nat, check) == Ok::<(), Seq<char>>(()),
            forall|k: int| 0 <= k < i ==> text_of(#[trigger] fs[k], "id"@) is Some,
            forall|p: int, q: int|
                0 <= p < q < i ==> text_lt(text_of(#[trigger] fs[p], "id"@)->0, text_of(#[trigger] fs[q], "id"@)->0),
        decreases facts.len() - i,
    {
        let f = &facts[i];
        assert(fs[i as int] == f.view());
        let r: Result<(), &'static str> = if !json_eq(at(f, "repository", &null), source) {
            Err("source_mismatch")
        } else {
            let broken_revision = match f.get("provenance") {
                Some(p) => {
                    let rev = at(p, "repository_revision", &null);
                    !rev.is_null() && !json_eq(rev, revision)
                },
                None => false,
            };
            if broken_revision {
                Err("revision_mismatch")
            } else {
                match f.text_at("id") {
                    None => Err("missing_evidence_id"),
                    Some(id) => {
                        if i > 0 {
                            let prior = facts[i - 1].text_at("id");
                            assert(fs[i - 1] == facts@[i - 1].view());
                            match prior {
                                Some(p) => match compare_text(p, id) {
                                    TextOrder::Less => Ok(()),
                                    _ => Err("evidence_order"),
                                },
                                None => Err("evidence_order"),
                            }
                        } else {
                            Ok(())
                        }
                    },
                }
            }
        };
        assert(verdict(r) == check(i as int));
        if r.is_err() {
            proof {
                lemma_first_failure_stays((i + 1) as nat, fs.len(), check);
            }
            return r;
        }
        proof {
            assert forall|p: int, q: int| 0 <= p < q < i + 1 implies text_lt(
                text_of(#[trigger] fs[p], "id"@)->0,
                text_of(#[trigger] fs[q], "id"@)->0,
            ) by {
                if q == i && p < i - 1 {
                    crate::text::lemma_text_lt_transitive(
                        text_of(fs[p], "id"@)->0,
                        text_of(fs[i - 1], "id"@)->0,
                        text_of(fs[q], "id"@)->0,
                    );
                }
            }
        }
        i = i + 1;
    }
    Ok(())
}

/// Every record has an identifier, and the identifiers strictly increase.
pub open spec fn strictly_sorted_ids(facts: Seq<JsonView>) -> bool {
    &&& forall|k: int| 0 <= k < facts.len() ==> text_of(#[trigger] facts[k], "id"@) is Some
    &&& forall|p: int, q: int|
        0 <= p < q < facts.len() ==> text_lt(text_of(#[trigger] facts[p], "id"@)->0, text_of(#[trigger] facts[q], "id"@)->0)
}

// ---------------------------------------------------------------------------
// References.

/// `r` is the identifier of a record of the bundle.
pub open spec fn reference_check(facts: Seq<JsonView>, r: JsonView) -> Result<(), Seq<char>> {
    match as_text(r) {
        None => Err("invalid_reference"@),
        Some(id) => if fact_with_id(facts, id) is Some {
            Ok(())
        } else {
            Err("unknown_evidence_reference"@)
        },
    }
}

fn check_reference(facts: &Vec<JsonValue>, r: &JsonValue) -> (res: Result<(), &'static str>)
    ensures
        verdict(res) == reference_check(items_view(facts@), r.view()),
{
    match r.as_str() {
        None => Err("invalid_reference"),
        Some(id) => {
            if find_fact(facts, id).is_some() {
                Ok(())
            } else {
                Err("unknown_evidence_reference")
            }
        },
    }
}

/// `refs` is a list of identifiers of records of the bundle.
pub open spec fn references_check(facts: Seq<JsonView>, refs: JsonView) -> Result<(), Seq<char>> {
    match as_array(refs) {
        None => Err("invalid_reference_list"@),
        Some(items) => first_failure(items.len(), |k: int| reference_check(facts, items[k])),
    }
}

#[verifier::loop_isolation(false)]
fn check_references(facts: &Vec<JsonValue>, refs: &JsonValue) -> (res: Result<(), &'static str>)
    ensures
        verdict(res) == references_check(items_view(facts@), refs.view()),
{
    match refs.as_array() {
        None => Err("invalid_reference_list"),
        Some(items) => {
            let ghost fs = items_view(facts@);
            let ghost is = items_view(items@);
            let ghost check = |k: int| reference_check(fs, is[k]);
            assert(check =~= (|k: int| reference_check(fs, as_array(refs.view())->0[k])));
            let mut i: usize = 0;
            while i < items.len()
                invariant
                    i <= items@.len(),
                    fs == items_view(facts@),
                    is == items_view(items@),
                    check == (|k: int| reference_check(fs, is[k])),
                    first_failure(i as nat, check) == Ok::<(), Seq<char>>(()),
                decreases items.len() - i,
            {
                let r = check_reference(facts, &items[i]);
                assert(is[i as int] == items@[i as int].view());
                assert(verdict(r) == check(i as int));
                if r.is_err() {
                    proof {
                        lemma_first_failure_stays((i + 1) as nat, is.len(), check);
                    }
                    return r;
                }
                i = i + 1;
            }
            Ok(())
        },
    }
}

/// A reference field of a payload, when present: a list or one identifier.
pub open spec fn payload_reference_check(facts: Seq<JsonView>, p: JsonView, name: Seq<char>) -> Result<
    (),
    Seq<char>,
> {
    if has_field(p, name) {
        let r = field(p, name);
        if r is Array {
            references_check(facts, r)
        } else {
            reference_check(facts, r)
        }
    } else {
        Ok(())
    }
}

fn check_payload_reference(facts: &Vec<JsonValue>, p: &JsonValue, name: &str) -> (res: Result<(), &'static str>)
    ensures
        verdict(res) == payload_reference_check(items_view(facts@), p.view(), name@),
{
    match p.get(name) {
        Some(r) => {
            if r.as_array().is_some() {
                check_references(facts, r)
            } else {
                check_reference(facts, r)
            }
        },
        None => Ok(()),
    }
}

/// Every reference a record makes resolves.
pub open spec fn fact_references_check(facts: Seq<JsonView>, f: JsonView) -> Result<(), Seq<char>> {
    let p = field(f, "payload"@);
    and_then(
        if has_field(f, "related_evidence_ids"@) {
            references_check(facts, field(f, "related_evidence_ids"@))
        } else {
            Ok(())
        },
        if has_field(f, "payload"@) {
            and_then(
                payload_reference_check(facts, p, "related_evidence_ids"@),
                and_then(
                    payload_reference_check(facts, p, "implementation_evidence_ids"@),
                    payload_reference_check(facts, p, "source_evidence_id"@),
                ),
            )
        } else {
            Ok(())
        },
    )
}

fn check_fact_references(facts: &Vec<JsonValue>, f: &JsonValue) -> (res: Result<(), &'static str>)
    ensures
        verdict(res) == fact_references_check(items_view(facts@), f.view()),
{
    match f.get("related_evidence_ids") {
        Some(related) => {
            let r = check_references(facts, related);
            if r.is_err() {
                return r;
            }
        },
        None => {},
    }
    match f.get("payload") {
        Some(p) => {
            let r = check_payload_reference(facts, p, "related_evidence_ids");
            if r.is_err() {
                return r;
            }
            let r = check_payload_reference(facts, p, "implementation_evidence_ids");
            if r.is_err() {
                return r;
            }
            check_payload_reference(facts, p, "source_evidence_id")
        },
        None => Ok(()),
    }
}

/// Every diagnostic of a list cites records of the bundle.
pub open spec fn diagnostics_check(facts: Seq<JsonView>, list: JsonView) -> Result<(), Seq<char>> {
    match as_array(list) {
        None => Err("invalid_diagnostics"@),
        Some(ds) => first_failure(ds.len(), |k: int| references_check(facts, field(ds[k], "affected_evidence_ids"@))),
    }
}

#[verifier::loop_isolation(false)]
fn check_diagnostics(facts: &Vec<JsonValue>, list: &JsonValue) -> (res: Result<(), &'static str>)
    ensures
        verdict(res) == diagnostics_check(items_view(facts@), list.view()),
{
    match list.as_array() {
        None => Err("invalid_diagnostics"),
        Some(ds) => {
            let ghost fs = items_view(facts@);
            let ghost dv = items_view(ds@);
            let ghost check = |k: int| references_check(fs, field(dv[k], "affected_evidence_ids"@));
            assert(check =~= (|k: int| references_check(fs, field(as_array(list.view())->0[k], "affected_evidence_ids"@))));
            let null = json_null();
            let mut i: usize = 0;
            while i < ds.len()
                invariant
                    i <= ds@.len(),
                    fs == items_view(facts@),
                    dv == items_view(ds@),
                    null.view() is Null,
                    check == (|k: int| references_check(fs, field(dv[k], "affected_evidence_ids"@))),
                    first_failure(i as nat, check) == Ok::<(), Seq<char>>(()),
                decreases ds.len() - i,
            {
                let r = check_references(facts, at(&ds[i], "affected_evidence_ids", &null));
                assert(dv[i as int] == ds@[i as int].view());
                assert(verdict(r) == check(i as int));
                if r.is_err() {
                    proof {
                        lemma_first_failure_stays((i + 1) as nat, dv.len(), check);
                    }
                    return r;
                }
                i = i + 1;
            }
            Ok(())
        },
    }
}

/// Every data source, diagnostic and record cites records of the bundle.
pub open spec fn references_stage(facts: Seq<JsonView>, manifest: JsonView) -> Result<(), Seq<char>> {
    match as_array(field(manifest, "data_sources"@)) {
        None => Err("missing_data_sources"@),
        Some(sources) => and_then(
            first_failure(sources.len(), |k: int| reference_check(facts, field(sources[k], "id"@))),
            and_then(
                diagnostics_check(facts, field(manifest, "warnings"@)),
                and_then(
                    diagnostics_check(facts, field(manifest, "limitations"@)),
                    first_failure(facts.len(), |k: int| fact_references_check(facts, facts[k])),
                ),
            ),
        ),
    }
}

#[verifier::loop_isolation(false)]
fn check_references_stage(facts: &Vec<JsonValue>, manifest: &JsonValue) -> (res: Result<(), &'static str>)
    ensures
        verdict(res) == references_stage(items_view(facts@), manifest.view()),
{
    let null = json_null();
    let ghost fs = items_view(facts@);
    let sources = match at(manifest, "data_sources", &null).as_array() {
        Some(s) => s,
        None => return Err("missing_data_sources"),
    };
    let ghost sv = items_view(sources@);
    let ghost check = |k: int| reference_check(fs, field(sv[k], "id"@));
    assert(check =~= (|k: int| reference_check(fs, field(as_array(field(manifest.view(), "data_sources"@))->0[k], "id"@))));
    let mut i: usize = 0;
    while i < sources.len()
        invariant
            i <= sources@.len(),
            fs == items_view(facts@),
            sv == items_view(sources@),
            null.view() is Null,
            check == (|k: int| reference_check(fs, field(sv[k], "id"@))),
            first_failure(i as nat, check) == Ok::<(), Seq<char>>(()),
        decreases sources.len() - i,
    {
        let r = check_reference(facts, at(&sources[i], "id", &null));
        assert(sv[i as int] == sources@[i as int].view());
        assert(verdict(r) == check(i as int));
        if r.is_err() {
            proof {
                lemma_first_failure_stays((i + 1) as nat, sv.len(), check);
            }
            return r;
        }
        i = i + 1;
    }
    let r = check_diagnostics(facts, at(manifest, "warnings", &null));
    if r.is_err() {
        return r;
    }
    let r = check_diagnostics(facts, at(manifest, "limitations", &null));
    if r.is_err() {
        return r;
    }
    let ghost fcheck = |k: int| fact_references_check(fs, fs[k]);
    let mut j: usize = 0;
    while j < facts.len()
        invariant
            j <= facts@.len(),
            fs == items_view(facts@),
            fcheck == (|k: int| fact_references_check(fs, fs[k])),
            first_failure(j as nat, fcheck) == Ok::<(), Seq<char>>(()),
        decreases facts.len() - j,
    {
        let r = check_fact_references(facts, &facts[j]);
        assert(fs[j as int] == facts@[j as int].view());
        assert(verdict(r) == fcheck(j as int));
        if r.is_err() {
            proof {
                lemma_first_failure_stays((j + 1) as nat, fs.len(), fcheck);
            }
            return r;
        }
        j = j + 1;
    }
    Ok(())
}

// ---------------------------------------------------------------------------
// Redundant copies of facts, and repository features.

/// A classification cites exactly one record, the one its payload names as
/// its source, and that record is a tracked file.
pub open spec fn class_source_check(facts: Seq<JsonView>, f: JsonView, payload: Option<JsonView>) -> Result<
    (),
    Seq<char>,
> {
    match as_array(field(f, "related_evidence_ids"@)) {
        None => Err("classification_relation"@),
        Some(rel) => if rel.len() != 1 {
            Err("classification_relation_count"@)
        } else {
            let source = match payload {
                Some(p) => field(p, "source_evidence_id"@),
                None => rel[0],
            };
            if rel[0] != source {
                Err("classification_relation"@)
            } else {
                match as_text(source) {
                    None => Err("classification_relation"@),
                    Some(sid) => match fact_with_id(facts, sid) {
                        None => Err("classification_relation"@),
                        Some(t) => if evidence_kind(t) != Some("tracked_file"@) {
                            Err("classification_source_kind"@)
                        } else {
                            Ok(())
                        },
                    },
                }
            }
        },
    }
}

fn check_class_source(facts: &Vec<JsonValue>, f: &JsonValue, payload: Option<&JsonValue>) -> (res: Result<
    (),
    &'static str,
>)
    ensures
        verdict(res) == class_source_check(
            items_view(facts@),
            f.view(),
            match payload {
                Some(p) => Some(p.view()),
                None => None,
            },
        ),
{
    let null = json_null();
    let rel = match at(f, "related_evidence_ids", &null).as_array() {
        Some(rel) => rel,
        None => return Err("classification_relation"),
    };
    if rel.len() != 1 {
        assert(items_view(rel@).len() == rel@.len());
        return Err("classification_relation_count");
    }
    assert(items_view(rel@)[0] == rel@[0].view());
    let source = match payload {
        Some(p) => at(p, "source_evidence_id", &null),
        None => &rel[0],
    };
    if !json_eq(&rel[0], source) {
        return Err("classification_relation");
    }
    let sid = match source.as_str() {
        Some(t) => t,
        None => return Err("classification_relation"),
    };
    let k = match find_fact(facts, sid) {
        Some(k) => k,
        None => return Err("classification_relation"),
    };
    let source_is_file = match record_kind(&facts[k]) {
        Some(kind) => text_eq(kind, "tracked_file"),
        None => false,
    };
    if !source_is_file {
        Err("classification_source_kind")
    } else {
        Ok(())
    }
}

/// A feature's state agrees with its record's status and with whether it
/// cites anything.
pub open spec fn state_status_check(state: Seq<char>, status: Seq<char>, cited: nat) -> Result<(), Seq<char>> {
    if state == "present"@ {
        if status != "complete"@ {
            Err("feature_status"@)
        } else if cited == 0 {
            Err("feature_present_references"@)
        } else {
            Ok(())
        }
    } else if state == "unavailable"@ {
        if status != "partial"@ {
            Err("feature_status"@)
        } else if cited == 0 {
            Err("feature_unavailable_references"@)
        } else {
            Ok(())
        }
    } else if state == "absent"@ {
        if status != "complete"@ {
            Err("feature_status"@)
        } else if cited != 0 {
            Err("feature_absent_references"@)
        } else {
            Ok(())
        }
    } else {
        Err("feature_state"@)
    }
}

fn check_state_status(state: &str, status: &str, cited: usize) -> (res: Result<(), &'static str>)
    ensures
        verdict(res) == state_status_check(state@, status@, cited as nat),
{
    if text_eq(state, "present") {
        if !text_eq(status, "complete") {
            Err("feature_status")
        } else if cited == 0 {
            Err("feature_present_references")
        } else {
            Ok(())
        }
    } else if text_eq(state, "unavailable") {
        if !text_eq(status, "partial") {
            Err("feature_status")
        } else if cited == 0 {
            Err("feature_unavailable_references")
        } else {
            Ok(())
        }
    } else if text_eq(state, "absent") {
        if !text_eq(status, "complete") {
            Err("feature_status")
        } else if cited != 0 {
            Err("feature_absent_references")
        } else {
            Ok(())
        }
    } else {
        Err("feature_state")
    }
}

/// The texts of a list whose every element is a text.
pub open spec fn texts_of(items: Seq<JsonView>) -> Option<Seq<Seq<char>>> {
    if forall|k: int| 0 <= k < items.len() ==> (#[trigger] as_text(items[k])) is Some {
        Some(Seq::new(items.len(), |k: int| as_text(items[k])->0))
    } else {
        None
    }
}

fn texts_in(items: &Vec<JsonValue>) -> (r: Option<Vec<String>>)
    ensures
        match texts_of(items_view(items@)) {
            Some(ts) => r matches Some(v) && keys_of(v@) == ts,
            None => r is None,
        },
{
    let ghost is = items_view(items@);
    let mut out: Vec<String> = Vec::new();
    let mut i: usize = 0;
    while i < items.len()
        invariant
            i <= items@.len(),
            is == items_view(items@),
            out@.len() == i,
            forall|k: int| 0 <= k < i ==> (#[trigger] as_text(is[k])) is Some && out@[k]@ == as_text(is[k])->0,
        decreases items.len() - i,
    {
        assert(is[i as int] == items@[i as int].view());
        match items[i].as_str() {
            Some(t) => out.push(owned(t)),
            None => {
                assert(as_text(is[i as int]) is None);
                return None;
            },
        }
        i = i + 1;
    }
    assert(keys_of(out@) =~= Seq::new(is.len(), |k: int| as_text(is[k])->0));
    Some(out)
}

/// Whether two lists of texts are equal.
fn same_texts(a: &Vec<String>, b: &Vec<String>) -> (r: bool)
    ensures
        r == (keys_of(a@) == keys_of(b@)),
{
    if a.len() != b.len() {
        assert(keys_of(a@).len() != keys_of(b@).len());
        return false;
    }
    let mut i: usize = 0;
    while i < a.len()
        invariant
            i <= a@.len(),
            a@.len() == b@.len(),
            forall|k: int| 0 <= k < i ==> a@[k]@ == b@[k]@,
        decreases a.len() - i,
    {
        if !text_eq(a[i].as_str(), b[i].as_str()) {
            assert(keys_of(a@)[i as int] != keys_of(b@)[i as int]);
            return false;
        }
        i = i + 1;
    }
    assert(keys_of(a@) =~= keys_of(b@));
    true
}

/// A cited record exists and has the kind the feature is recognised by.
pub open spec fn reference_kind_check(facts: Seq<JsonView>, id: Seq<char>, expected: Seq<char>) -> Result<
    (),
    Seq<char>,
> {
    match fact_with_id(facts, id) {
        None => Err("feature_reference"@),
        Some(t) => if evidence_kind(t) != Some(expected) {
            Err("feature_reference_kind"@)
        } else {
            Ok(())
        },
    }
}

/// The features recognised by a file's name rather than its classification.
pub open spec fn path_feature_name(name: Option<Seq<char>>) -> bool {
    name == Some("readme"@) || name == Some("license"@) || name == Some("package_manifest"@)
}

#[verifier::loop_isolation(false)]
fn check_reference_kinds(facts: &Vec<JsonValue>, ids: &Vec<String>, expected: &str) -> (res: Result<(), &'static str>)
    ensures
        verdict(res) == first_failure(
            ids@.len(),
            |k: int| reference_kind_check(items_view(facts@), keys_of(ids@)[k], expected@),
        ),
{
    let ghost check = |k: int| reference_kind_check(items_view(facts@), keys_of(ids@)[k], expected@);
    let mut i: usize = 0;
    while i < ids.len()
        invariant
            i <= ids@.len(),
            first_failure(i as nat, check) == Ok::<(), Seq<char>>(()),
        decreases ids.len() - i,
    {
        let r: Result<(), &'static str> = match find_fact(facts, ids[i].as_str()) {
            None => Err("feature_reference"),
            Some(k) => {
                let ok = match record_kind(&facts[k]) {
                    Some(kind) => text_eq(kind, expected),
                    None => false,
                };
                if ok {
                    Ok(())
                } else {
                    Err("feature_reference_kind")
                }
            },
        };
        assert(verdict(r) == check(i as int));
        if r.is_err() {
            proof {
                lemma_first_failure_stays((i + 1) as nat, ids@.len(), check);
            }
            return r;
        }
        i = i + 1;
    }
    Ok(())
}

/// The identity of a repository in feature identifiers.
pub open spec fn repository_identity(repo: JsonView) -> Option<Seq<char>> {
    let kind = text_of(repo, "kind"@);
    if kind == Some("local"@) {
        match text_of(repo, "repository_id"@) {
            Some(id) => Some("local:"@ + id),
            None => None,
        }
    } else if kind == Some("hosted"@) {
        match (text_of(repo, "provider"@), text_of(repo, "namespace"@), text_of(repo, "repository"@)) {
            (Some(p), Some(n), Some(r)) => Some("hosted:"@ + p + ":"@ + n + ":"@ + r),
            _ => None,
        }
    } else {
        None
    }
}

fn identity_of(repo: &JsonValue) -> (r: Option<String>)
    ensures
        match repository_identity(repo.view()) {
            Some(t) => r matches Some(s) && s@ == t,
            None => r is None,
        },
{
    let kind = repo.text_at("kind");
    let local = match kind {
        Some(k) => text_eq(k, "local"),
        None => false,
    };
    let hosted = match kind {
        Some(k) => text_eq(k, "hosted"),
        None => false,
    };
    if local {
        match repo.text_at("repository_id") {
            Some(id) => {
                let mut t = owned("local:");
                push_text(&mut t, id);
                Some(t)
            },
            None => None,
        }
    } else if hosted {
        match (repo.text_at("provider"), repo.text_at("namespace"), repo.text_at("repository")) {
            (Some(p), Some(n), Some(q)) => {
                let mut t = owned("hosted:");
                push_text(&mut t, p);
                push_text(&mut t, ":");
                push_text(&mut t, n);
                push_text(&mut t, ":");
                push_text(&mut t, q);
                Some(t)
            },
            _ => None,
        }
    } else {
        None
    }
}

/// The checks of one repository-feature record after its references:
/// its repository, revision and feature are readable, its state and
/// citations are those the bundle's records give the feature, and its
/// identifier is derived from them.
pub open spec fn feature_semantics_check(
    facts: Seq<JsonView>,
    f: JsonView,
    payload: JsonView,
    state: Seq<char>,
    ids: Seq<Seq<char>>,
) -> Result<(), Seq<char>> {
    match repository_identity(field(f, "repository"@)) {
        None => Err("feature_repository"@),
        Some(scope) => match text_of(field(f, "provenance"@), "repository_revision"@) {
            None => Err("feature_revision"@),
            Some(revision) => match text_of(payload, "feature"@) {
                None => Err("feature_name"@),
                Some(feature) => match rule_named(feature) {
                    None => Err("feature_name"@),
                    Some(rule) => {
                        let d = derived_feature(rule, facts);
                        if d.0 != state || d.1 != ids {
                            Err("feature_semantics"@)
                        } else if text_of(f, "id"@) != Some(feature_id_text(scope, revision, feature, state, ids)) {
                            Err("feature_identity"@)
                        } else {
                            Ok(())
                        }
                    },
                },
            },
        },
    }
}

/// A repository-feature record is consistent with the records it is
/// derived from.
pub open spec fn feature_check(facts: Seq<JsonView>, f: JsonView, payload: JsonView) -> Result<(), Seq<char>> {
    match text_of(payload, "state"@) {
        None => Err("feature_state"@),
        Some(state) => match text_of(f, "status"@) {
            None => Err("feature_status"@),
            Some(status) => match as_array(field(payload, "related_evidence_ids"@)) {
                None => Err("feature_references"@),
                Some(related) => and_then(
                    state_status_check(state, status, related.len()),
                    match texts_of(related) {
                        None => Err("feature_reference"@),
                        Some(ids) => if !strictly_sorted(ids) {
                            Err("feature_reference_order"@)
                        } else {
                            let expected = if path_feature_name(text_of(payload, "feature"@)) {
                                "tracked_file"@
                            } else {
                                "file_classification"@
                            };
                            and_then(
                                first_failure(ids.len(), |k: int| reference_kind_check(facts, ids[k], expected)),
                                feature_semantics_check(facts, f, payload, state, ids),
                            )
                        },
                    },
                ),
            },
        },
    }
}

fn check_feature_semantics(
    facts: &Vec<JsonValue>,
    f: &JsonValue,
    payload: &JsonValue,
    state: &str,
    ids: &Vec<String>,
) -> (res: Result<(), &'static str>)
    ensures
        verdict(res) == feature_semantics_check(items_view(facts@), f.view(), payload.view(), state@, keys_of(ids@)),
{
    let null = json_null();
    let scope = match identity_of(at(f, "repository", &null)) {
        Some(s) => s,
        None => return Err("feature_repository"),
    };
    let revision = match at(f, "provenance", &null).text_at("repository_revision") {
        Some(r) => r,
        None => return Err("feature_revision"),
    };
    let feature = match payload.text_at("feature") {
        Some(t) => t,
        None => return Err("feature_name"),
    };
    let expectation = match derive_repository_feature(feature, facts.as_slice()) {
        Ok(x) => x,
        Err(e) => return Err(e),
    };
    if !text_eq(expectation.state, state) || !same_texts(&expectation.related_evidence_ids, ids) {
        return Err("feature_semantics");
    }
    let expected_id = repository_feature_id(scope.as_str(), revision, feature, state, ids);
    let matches = match f.text_at("id") {
        Some(id) => text_eq(id, expected_id.as_str()),
        None => false,
    };
    if !matches {
        Err("feature_identity")
    } else {
        Ok(())
    }
}

fn check_feature(facts: &Vec<JsonValue>, f: &JsonValue, payload: &JsonValue) -> (res: Result<(), &'static str>)
    ensures
        verdict(res) == feature_check(items_view(facts@), f.view(), payload.view()),
{
    let null = json_null();
    let state = match payload.text_at("state") {
        Some(s) => s,
        None => return Err("feature_state"),
    };
    let status = match f.text_at("status") {
        Some(s) => s,
        None => return Err("feature_status"),
    };
    let related = match at(payload, "related_evidence_ids", &null).as_array() {
        Some(r) => r,
        None => return Err("feature_references"),
    };
    assert(items_view(related@).len() == related@.len());
    let r = check_state_status(state, status, related.len());
    if r.is_err() {
        return r;
    }
    let ids = match texts_in(related) {
        Some(ids) => ids,
        None => return Err("feature_reference"),
    };
    if !is_strictly_sorted(ids.as_slice()) {
        return Err("feature_reference_order");
    }
    let path_feature = match payload.text_at("feature") {
        Some(t) => text_eq(t, "readme") || text_eq(t, "license") || text_eq(t, "package_manifest"),
        None => false,
    };
    let expected = if path_feature {
        "tracked_file"
    } else {
        "file_classification"
    };
    let r = check_reference_kinds(facts, &ids, expected);
    assert((|k: int| reference_kind_check(items_view(facts@), keys_of(ids@)[k], expected@)) =~= (|k: int|
        reference_kind_check(items_view(facts@), keys_of(ids@)[k], expected@)));
    if r.is_err() {
        return r;
    }
    check_feature_semantics(facts, f, payload, state, &ids)
}

/// One record's redundant copies agree: a tracked file's content hash, a
/// classification's source and policy version, and a feature's derivation.
pub open spec fn redundancy_check(facts: Seq<JsonView>, f: JsonView) -> Result<(), Seq<char>> {
    let p = field(f, "payload"@);
    if !has_field(f, "payload"@) {
        if field(f, "requested_kind"@) == JsonView::Text("file_classification"@) {
            class_source_check(facts, f, None)
        } else {
            Ok(())
        }
    } else {
        match text_of(p, "kind"@) {
            Some(k) => if k == "tracked_file"@ {
                if field(field(f, "provenance"@), "content_hash"@) != field(p, "content_hash"@) {
                    Err("tracked_content_hash"@)
                } else {
                    Ok(())
                }
            } else if k == "file_classification"@ {
                and_then(
                    class_source_check(facts, f, Some(p)),
                    if field(f, "attempted_policy_version"@) != field(p, "policy_version"@) {
                        Err("classification_policy"@)
                    } else {
                        Ok(())
                    },
                )
            } else if k == "repository_feature"@ {
                feature_check(facts, f, p)
            } else {
                Ok(())
            },
            None => Ok(()),
        }
    }
}

fn check_redundancy(facts: &Vec<JsonValue>, f: &JsonValue) -> (res: Result<(), &'static str>)
    ensures
        verdict(res) == redundancy_check(items_view(facts@), f.view()),
{
    let null = json_null();
    match f.get("payload") {
        None => {
            if at(f, "requested_kind", &null).is_text("file_classification") {
                check_class_source(facts, f, None)
            } else {
                Ok(())
            }
        },
        Some(p) => match p.text_at("kind") {
            Some(k) => {
                if text_eq(k, "tracked_file") {
                    if !json_eq(at(at(f, "provenance", &null), "content_hash", &null), at(p, "content_hash", &null)) {
                        Err("tracked_content_hash")
                    } else {
                        Ok(())
                    }
                } else if text_eq(k, "file_classification") {
                    let r = check_class_source(facts, f, Some(p));
                    if r.is_err() {
                        return r;
                    }
                    if !json_eq(at(f, "attempted_policy_version", &null), at(p, "policy_version", &null)) {
                        Err("classification_policy")
                    } else {
                        Ok(())
                    }
                } else if text_eq(k, "repository_feature") {
                    check_feature(facts, f, p)
                } else {
                    Ok(())
                }
            },
            None => Ok(()),
        },
    }
}

/// Every record's redundant copies agree.
pub open spec fn redundancy_stage(facts: Seq<JsonView>) -> Result<(), Seq<char>> {
    first_failure(facts.len(), |k: int| redundancy_check(facts, facts[k]))
}

#[verifier::loop_isolation(false)]
fn check_redundancy_stage(facts: &Vec<JsonValue>) -> (res: Result<(), &'static str>)
    ensures
        verdict(res) == redundancy_stage(items_view(facts@)),
{
    let ghost fs = items_view(facts@);
    let ghost check = |k: int| redundancy_check(fs, fs[k]);
    let mut i: usize = 0;
    while i < facts.len()
        invariant
            i <= facts@.len(),
            first_failure(i as nat, check) == Ok::<(), Seq<char>>(()),
        decreases facts.len() - i,
    {
        let r = check_redundancy(facts, &facts[i]);
        assert(fs[i as int] == facts@[i as int].view());
        assert(verdict(r) == check(i as int));
        if r.is_err() {
            proof {
                lemma_first_failure_stays((i + 1) as nat, fs.len(), check);
            }
            return r;
        }
        i = i + 1;
    }
    Ok(())
}

// ---------------------------------------------------------------------------
// Snapshot, history, artifact, data sources and status.

/// Which records a selection keeps.
#[derive(Clone, Copy, Debug, PartialEq, Eq, Structural)]
pub enum Selector {
    /// Records whose payload has the kind.
    PayloadKind,
    /// Records whose payload has, or whose envelope requested, the kind.
    PayloadOrRequestedKind,
    /// Artifacts with the role.
    Role,
    /// Data sources of the kind.
    Kind,
}

pub open spec fn selected(sel: Selector, name: Seq<char>, v: JsonView) -> bool {
    match sel {
        Selector::PayloadKind => field(field(v, "payload"@), "kind"@) == JsonView::Text(name),
        Selector::PayloadOrRequestedKind => field(field(v, "payload"@), "kind"@) == JsonView::Text(name) || field(
            v,
            "requested_kind"@,
        ) == JsonView::Text(name),
        Selector::Role => field(v, "role"@) == JsonView::Text(name),
        Selector::Kind => field(v, "kind"@) == JsonView::Text(name),
    }
}

/// The elements a selection keeps, in order.
pub open spec fn select(s: Seq<JsonView>, sel: Selector, name: Seq<char>) -> Seq<JsonView>
    decreases s.len(),
{
    if s.len() == 0 {
        Seq::empty()
    } else {
        let r = select(s.drop_last(), sel, name);
        if selected(sel, name, s.last()) {
            r.push(s.last())
        } else {
            r
        }
    }
}

fn is_selected(sel: Selector, name: &str, v: &JsonValue) -> (r: bool)
    ensures
        r == selected(sel, name@, v.view()),
{
    let null = json_null();
    match sel {
        Selector::PayloadKind => at(at(v, "payload", &null), "kind", &null).is_text(name),
        Selector::PayloadOrRequestedKind => at(at(v, "payload", &null), "kind", &null).is_text(name) || at(
            v,
            "requested_kind",
            &null,
        ).is_text(name),
        Selector::Role => at(v, "role", &null).is_text(name),
        Selector::Kind => at(v, "kind", &null).is_text(name),
    }
}

/// How many elements a selection keeps, and where the first one is.
fn select_first(items: &Vec<JsonValue>, sel: Selector, name: &str) -> (r: (usize, Option<usize>))
    ensures
        r.0 == select(items_view(items@), sel, name@).len(),
        (r.0 > 0) == (r.1 is Some),
        r.1 matches Some(k) ==> k < items@.len() && select(items_view(items@), sel, name@)[0] == items@[k as int].view(),
{
    let ghost is = items_view(items@);
    let mut count: usize = 0;
    let mut first: Option<usize> = None;
    let mut i: usize = 0;
    assert(is.subrange(0, 0) =~= Seq::<JsonView>::empty());
    while i < items.len()
        invariant
            i <= items@.len(),
            is == items_view(items@),
            count <= i,
            count == select(is.subrange(0, i as int), sel, name@).len(),
            (count > 0) == (first is Some),
            first matches Some(k) ==> k < items@.len() && select(is.subrange(0, i as int), sel, name@)[0]
                == items@[k as int].view(),
        decreases items.len() - i,
    {
        let ghost pre = is.subrange(0, i + 1);
        assert(pre.drop_last() =~= is.subrange(0, i as int));
        assert(pre.last() == items@[i as int].view());
        if is_selected(sel, name, &items[i]) {
            if first.is_none() {
                first = Some(i);
            }
            count = count + 1;
        }
        i = i + 1;
    }
    assert(is.subrange(0, items@.len() as int) =~= is);
    (count, first)
}

/// The only data source of a kind.
pub open spec fn data_source_of_kind(manifest: JsonView, kind: Seq<char>) -> Result<JsonView, Seq<char>> {
    match as_array(field(manifest, "data_sources"@)) {
        None => Err("missing_data_sources"@),
        Some(ds) => {
            let m = select(ds, Selector::Kind, kind);
            if m.len() == 1 {
                Ok(m[0])
            } else {
                Err("data_source_kind_count"@)
            }
        },
    }
}

fn data_source_by_kind<'a>(manifest: &'a JsonValue, kind: &str) -> (r: Result<&'a JsonValue, &'static str>)
    ensures
        match data_source_of_kind(manifest.view(), kind@) {
            Ok(d) => r matches Ok(x) && x.view() == d,
            Err(e) => r matches Err(x) && x@ == e,
        },
{
    let ds = match manifest.get("data_sources") {
        Some(d) => match d.as_array() {
            Some(a) => a,
            None => return Err("missing_data_sources"),
        },
        None => {
            assert(as_array(field(manifest.view(), "data_sources"@)) is None);
            return Err("missing_data_sources");
        },
    };
    let (count, first) = select_first(ds, Selector::Kind, kind);
    if count == 1 {
        match first {
            Some(k) => Ok(&ds[k]),
            None => Err("data_source_kind_count"),
        }
    } else {
        Err("data_source_kind_count")
    }
}

/// The one repository-snapshot record agrees with the manifest's source
/// snapshot and with the repository data source.
pub open spec fn snapshot_stage(facts: Seq<JsonView>, manifest: JsonView, source: JsonView, revision: JsonView) -> Result<
    (),
    Seq<char>,
> {
    let snaps = select(facts, Selector::PayloadKind, "repository_snapshot"@);
    let ss = field(manifest, "source_snapshot"@);
    if snaps.len() != 1 {
        Err("repository_snapshot_count"@)
    } else {
        let s = snaps[0];
        let p = field(s, "payload"@);
        if field(s, "repository"@) != source || field(field(s, "provenance"@), "repository_revision"@) != revision
            || field(p, "root_tree"@) != field(ss, "root_tree"@) || field(p, "commit_time"@) != field(ss, "commit_time"@) {
            Err("repository_snapshot_mismatch"@)
        } else {
            match data_source_of_kind(manifest, "repository"@) {
                Err(e) => Err(e),
                Ok(d) => if field(d, "id"@) != field(s, "id"@) || field(d, "status"@) != field(s, "status"@) || field(
                    d,
                    "revision"@,
                ) != revision {
                    Err("repository_data_source_mismatch"@)
                } else {
                    Ok(())
                },
            }
        }
    }
}

fn check_snapshot(facts: &Vec<JsonValue>, manifest: &JsonValue, source: &JsonValue, revision: &JsonValue) -> (res:
    Result<(), &'static str>)
    ensures
        verdict(res) == snapshot_stage(items_view(facts@), manifest.view(), source.view(), revision.view()),
{
    let null = json_null();
    let (count, first) = select_first(facts, Selector::PayloadKind, "repository_snapshot");
    if count != 1 {
        return Err("repository_snapshot_count");
    }
    let s = match first {
        Some(k) => &facts[k],
        None => return Err("repository_snapshot_count"),
    };
    let ss = at(manifest, "source_snapshot", &null);
    let p = at(s, "payload", &null);
    if !json_eq(at(s, "repository", &null), source) || !json_eq(
        at(at(s, "provenance", &null), "repository_revision", &null),
        revision,
    ) || !json_eq(at(p, "root_tree", &null), at(ss, "root_tree", &null)) || !json_eq(
        at(p, "commit_time", &null),
        at(ss, "commit_time", &null),
    ) {
        return Err("repository_snapshot_mismatch");
    }
    let d = match data_source_by_kind(manifest, "repository") {
        Ok(d) => d,
        Err(e) => return Err(e),
    };
    if !json_eq(at(d, "id", &null), at(s, "id", &null)) || !json_eq(at(d, "status", &null), at(s, "status", &null))
        || !json_eq(at(d, "revision", &null), revision) {
        Err("repository_data_source_mismatch")
    } else {
        Ok(())
    }
}

/// The one history-scope record agrees with the manifest's scope and with
/// the history data source.
pub open spec fn history_stage(facts: Seq<JsonView>, manifest: JsonView, revision: JsonView) -> Result<(), Seq<char>> {
    let hs = select(facts, Selector::PayloadOrRequestedKind, "history_scope"@);
    let scope = field(manifest, "scope"@);
    if hs.len() != 1 {
        Err("history_scope_count"@)
    } else {
        let h = hs[0];
        let p = field(h, "payload"@);
        if field(scope, "head_revision"@) != revision || field(scope, "history_status"@) != field(h, "status"@) {
            Err("history_scope_mismatch"@)
        } else if has_field(h, "payload"@) && (field(p, "head_revision"@) != field(scope, "head_revision"@) || field(
            p,
            "base_revision"@,
        ) != field(scope, "base_revision"@) || field(p, "commit_count"@) != field(scope, "commit_count"@)) {
            Err("history_payload_mismatch"@)
        } else if !has_field(h, "payload"@) && !(field(scope, "commit_count"@) is Null) {
            Err("history_unavailable_count"@)
        } else {
            match data_source_of_kind(manifest, "repository_history"@) {
                Err(e) => Err(e),
                Ok(d) => if field(d, "id"@) != field(h, "id"@) || field(d, "status"@) != field(h, "status"@) || field(
                    d,
                    "revision"@,
                ) != revision {
                    Err("history_data_source_mismatch"@)
                } else {
                    Ok(())
                },
            }
        }
    }
}

fn check_history(facts: &Vec<JsonValue>, manifest: &JsonValue, revision: &JsonValue) -> (res: Result<(), &'static str>)
    ensures
        verdict(res) == history_stage(items_view(facts@), manifest.view(), revision.view()),
{
    let null = json_null();
    let (count, first) = select_first(facts, Selector::PayloadOrRequestedKind, "history_scope");
    if count != 1 {
        return Err("history_scope_count");
    }
    let h = match first {
        Some(k) => &facts[k],
        None => return Err("history_scope_count"),
    };
    let scope = at(manifest, "scope", &null);
    if !json_eq(at(scope, "head_revision", &null), revision) || !json_eq(
        at(scope, "history_status", &null),
        at(h, "status", &null),
    ) {
        return Err("history_scope_mismatch");
    }
    match h.get("payload") {
        Some(p) => {
            if !json_eq(at(p, "head_revision", &null), at(scope, "head_revision", &null)) || !json_eq(
                at(p, "base_revision", &null),
                at(scope, "base_revision", &null),
            ) || !json_eq(at(p, "commit_count", &null), at(scope, "commit_count", &null)) {
                return Err("history_payload_mismatch");
            }
        },
        None => {
            if !at(scope, "commit_count", &null).is_null() {
                return Err("history_unavailable_count");
            }
        },
    }
    let d = match data_source_by_kind(manifest, "repository_history") {
        Ok(d) => d,
        Err(e) => return Err(e),
    };
    if !json_eq(at(d, "id", &null), at(h, "id", &null)) || !json_eq(at(d, "status", &null), at(h, "status", &null))
        || !json_eq(at(d, "revision", &null), revision) {
        Err("history_data_source_mismatch")
    } else {
        Ok(())
    }
}

/// The one project-evidence artifact shares the manifest's status, counts
/// the records, and carries the hash of their serialization.
pub open spec fn artifact_stage(facts: Seq<JsonView>, manifest: JsonView, evidence_bytes: Seq<u8>) -> Result<
    (),
    Seq<char>,
> {
    match as_array(field(manifest, "artifacts"@)) {
        None => Err("missing_artifact"@),
        Some(arts) => {
            let m = select(arts, Selector::Role, "project_evidence"@);
            if m.len() == 0 {
                Err("missing_artifact"@)
            } else if m.len() > 1 {
                Err("duplicate_artifact"@)
            } else {
                let a = m[0];
                if field(a, "status"@) != field(manifest, "status"@) {
                    Err("artifact_status"@)
                } else if !(field(a, "record_count"@) matches JsonView::Number(NumberView::Unsigned(n)) && n
                    == facts.len()) {
                    Err("artifact_count"@)
                } else if text_of(a, "content_hash"@) != Some(stable_hash_text(evidence_bytes)) {
                    Err("artifact_hash"@)
                } else {
                    Ok(())
                }
            }
        },
    }
}

fn check_artifact(facts: &Vec<JsonValue>, manifest: &JsonValue, evidence_bytes: &[u8]) -> (res: Result<
    (),
    &'static str,
>)
    ensures
        verdict(res) == artifact_stage(items_view(facts@), manifest.view(), evidence_bytes@),
{
    let null = json_null();
    let arts = match at(manifest, "artifacts", &null).as_array() {
        Some(a) => a,
        None => return Err("missing_artifact"),
    };
    let (count, first) = select_first(arts, Selector::Role, "project_evidence");
    if count == 0 {
        return Err("missing_artifact");
    }
    if count > 1 {
        return Err("duplicate_artifact");
    }
    let a = match first {
        Some(k) => &arts[k],
        None => return Err("missing_artifact"),
    };
    if !json_eq(at(a, "status", &null), at(manifest, "status", &null)) {
        return Err("artifact_status");
    }
    let counted = match at(a, "record_count", &null) {
        JsonValue::Number(JsonNumber::Unsigned(n)) => *n as usize == facts.len() && *n <= usize::MAX as u64,
        _ => false,
    };
    assert(items_view(facts@).len() == facts@.len());
    if !counted {
        return Err("artifact_count");
    }
    let expected = stable_hash(evidence_bytes);
    let hashed = match a.text_at("content_hash") {
        Some(h) => text_eq(h, expected.as_str()),
        None => false,
    };
    if !hashed {
        Err("artifact_hash")
    } else {
        Ok(())
    }
}

/// Every data source that names a revision names the manifest's.
pub open spec fn data_revision_check(ds: Seq<JsonView>, revision: JsonView, k: int) -> Result<(), Seq<char>> {
    let r = field(ds[k], "revision"@);
    if !(r is Null) && r != revision {
        Err("data_source_revision"@)
    } else {
        Ok(())
    }
}

pub open spec fn data_revision_stage(manifest: JsonView, revision: JsonView) -> Result<(), Seq<char>> {
    match as_array(field(manifest, "data_sources"@)) {
        None => Err("missing_data_sources"@),
        Some(ds) => first_failure(ds.len(), |k: int| data_revision_check(ds, revision, k)),
    }
}

#[verifier::loop_isolation(false)]
fn check_data_revisions(manifest: &JsonValue, revision: &JsonValue) -> (res: Result<(), &'static str>)
    ensures
        verdict(res) == data_revision_stage(manifest.view(), revision.view()),
{
    let null = json_null();
    let ds = match at(manifest, "data_sources", &null).as_array() {
        Some(d) => d,
        None => return Err("missing_data_sources"),
    };
    let ghost dv = items_view(ds@);
    let ghost check = |k: int| data_revision_check(dv, revision.view(), k);
    let mut i: usize = 0;
    while i < ds.len()
        invariant
            i <= ds@.len(),
            first_failure(i as nat, check) == Ok::<(), Seq<char>>(()),
        decreases ds.len() - i,
    {
        let r_v = at(&ds[i], "revision", &null);
        assert(dv[i as int] == ds@[i as int].view());
        let r: Result<(), &'static str> = if !r_v.is_null() && !json_eq(r_v, revision) {
            Err("data_source_revision")
        } else {
            Ok(())
        };
        assert(verdict(r) == check(i as int));
        if r.is_err() {
            proof {
                lemma_first_failure_stays((i + 1) as nat, dv.len(), check);
            }
            return r;
        }
        i = i + 1;
    }
    Ok(())
}

/// Every element of a list has status `complete`.
pub open spec fn all_complete(items: Seq<JsonView>) -> bool {
    forall|k: int| 0 <= k < items.len() ==> field(#[trigger] items[k], "status"@) == JsonView::Text("complete"@)
}

/// The analysis status is `complete` exactly when every record, data source,
/// the history and every artifact is complete, and `partial` otherwise.
pub open spec fn status_stage(facts: Seq<JsonView>, manifest: JsonView) -> Result<(), Seq<char>> {
    match (as_array(field(manifest, "data_sources"@)), as_array(field(manifest, "artifacts"@))) {
        (Some(ds), Some(arts)) => match text_of(manifest, "status"@) {
            None => Err("manifest_status"@),
            Some(status) => {
                let complete = all_complete(facts) && all_complete(ds) && field(field(manifest, "scope"@), "history_status"@)
                    == JsonView::Text("complete"@);
                if status == "complete"@ {
                    if !complete || !all_complete(arts) {
                        Err("complete_status_contradiction"@)
                    } else {
                        Ok(())
                    }
                } else if status == "partial"@ {
                    if complete {
                        Err("partial_status_without_limitation"@)
                    } else {
                        Ok(())
                    }
                } else {
                    Err("unsupported_analysis_status"@)
                }
            },
        },
        (None, _) => Err("missing_data_sources"@),
        (_, None) => Err("missing_artifact"@),
    }
}

fn are_all_complete(items: &Vec<JsonValue>) -> (r: bool)
    ensures
        r == all_complete(items_view(items@)),
{
    let null = json_null();
    let ghost is = items_view(items@);
    let mut i: usize = 0;
    while i < items.len()
        invariant
            i <= items@.len(),
            is == items_view(items@),
            null.view() is Null,
            forall|k: int| 0 <= k < i ==> field(#[trigger] is[k], "status"@) == JsonView::Text("complete"@),
        decreases items.len() - i,
    {
        assert(is[i as int] == items@[i as int].view());
        if !at(&items[i], "status", &null).is_text("complete") {
            return false;
        }
        i = i + 1;
    }
    true
}

fn check_status(facts: &Vec<JsonValue>, manifest: &JsonValue) -> (res: Result<(), &'static str>)
    ensures
        verdict(res) == status_stage(items_view(facts@), manifest.view()),
{
    let null = json_null();
    let ds = match at(manifest, "data_sources", &null).as_array() {
        Some(d) => d,
        None => return Err("missing_data_sources"),
    };
    let arts = match at(manifest, "artifacts", &null).as_array() {
        Some(a) => a,
        None => return Err("missing_artifact"),
    };
    let status = match manifest.text_at("status") {
        Some(s) => s,
        None => return Err("manifest_status"),
    };
    let complete = are_all_complete(facts) && are_all_complete(ds) && at(at(manifest, "scope", &null), "history_status", &null).is_text(
        "complete",
    );
    if text_eq(status, "complete") {
        if !complete || !are_all_complete(arts) {
            Err("complete_status_contradiction")
        } else {
            Ok(())
        }
    } else if text_eq(status, "partial") {
        if complete {
            Err("partial_status_without_limitation")
        } else {
            Ok(())
        }
    } else {
        Err("unsupported_analysis_status")
    }
}

// ---------------------------------------------------------------------------
// The whole bundle.

/// The first broken invariant of a bundle, checked in order: presence of
/// the manifest and the evidence, then order, references, redundancy, the
/// snapshot, the history, the artifact, data-source revisions and status.
/// `evidence_bytes` is the compact serialization of the evidence array.
pub open spec fn bundle_check(v: JsonView, evidence_bytes: Seq<u8>) -> Result<(), Seq<char>> {
    if !has_field(v, "manifest"@) {
        Err("missing_manifest"@)
    } else {
        match as_array(field(v, "evidence"@)) {
            None => Err("missing_evidence"@),
            Some(facts) => {
                let manifest = field(v, "manifest"@);
                let ss = field(manifest, "source_snapshot"@);
                let source = field(ss, "source"@);
                let revision = field(ss, "revision"@);
                and_then(
                    order_stage(facts, source, revision),
                    and_then(
                        references_stage(facts, manifest),
                        and_then(
                            redundancy_stage(facts),
                            and_then(
                                snapshot_stage(facts, manifest, source, revision),
                                and_then(
                                    history_stage(facts, manifest, revision),
                                    and_then(
                                        artifact_stage(facts, manifest, evidence_bytes),
                                        and_then(data_revision_stage(manifest, revision), status_stage(facts, manifest)),
                                    ),
                                ),
                            ),
                        ),
                    ),
                )
            },
        }
    }
}

/// Checks the cross-record invariants of a project analysis bundle and
/// reports the first broken one by its code; `evidence_bytes` is the compact
/// serialization of the bundle's evidence array.
pub fn validate_project_bundle_consistency(value: &JsonValue, evidence_bytes: &[u8]) -> (r: Result<(), &'static str>)
    ensures
        verdict(r) == bundle_check(value.view(), evidence_bytes@),
{
    let null = json_null();
    let manifest = match value.get("manifest") {
        Some(m) => m,
        None => return Err("missing_manifest"),
    };
    let facts = match value.get("evidence") {
        Some(e) => match e.as_array() {
            Some(a) => a,
            None => return Err("missing_evidence"),
        },
        None => {
            assert(as_array(field(value.view(), "evidence"@)) is None);
            return Err("missing_evidence");
        },
    };
    let ss = at(manifest, "source_snapshot", &null);
    let source = at(ss, "source", &null);
    let revision = at(ss, "revision", &null);
    let r = check_order(facts, source, revision);
    if r.is_err() {
        return r;
    }
    let r = check_references_stage(facts, manifest);
    if r.is_err() {
        return r;
    }
    let r = check_redundancy_stage(facts);
    if r.is_err() {
        return r;
    }
    let r = check_snapshot(facts, manifest, source, revision);
    if r.is_err() {
        return r;
    }
    let r = check_history(facts, manifest, revision);
    if r.is_err() {
        return r;
    }
    let r = check_artifact(facts, manifest, evidence_bytes);
    if r.is_err() {
        return r;
    }
    let r = check_data_revisions(manifest, revision);
    if r.is_err() {
        return r;
    }
    check_status(facts, manifest)
}

/// When no check fails, every check passes.
pub proof fn lemma_first_failure_ok(n: nat, check: spec_fn(int) -> Result<(), Seq<char>>, i: int)
    requires
        first_failure(n, check) is Ok,
        0 <= i < n,
    ensures
        check(i) is Ok,
    decreases n,
{
    if i < n - 1 {
        lemma_first_failure_ok((n - 1) as nat, check, i);
    }
}

proof fn lemma_ordered_ids(facts: Seq<JsonView>, source: JsonView, revision: JsonView, p: int, q: int)
    requires
        order_stage(facts, source, revision) is Ok,
        0 <= p < q < facts.len(),
    ensures
        text_of(facts[p], "id"@) is Some,
        text_of(facts[q], "id"@) is Some,
        text_lt(text_of(facts[p], "id"@)->0, text_of(facts[q], "id"@)->0),
    decreases q - p,
{
    let check = |i: int| fact_order_check(facts, source, revision, i);
    lemma_first_failure_ok(facts.len(), check, p);
    lemma_first_failure_ok(facts.len(), check, q);
    lemma_first_failure_ok(facts.len(), check, q - 1);
    if p < q - 1 {
        lemma_ordered_ids(facts, source, revision, p, q - 1);
        crate::text::lemma_text_lt_transitive(
            text_of(facts[p], "id"@)->0,
            text_of(facts[q - 1], "id"@)->0,
            text_of(facts[q], "id"@)->0,
        );
    }
}

/// In a bundle that passes, every record has an identifier and the
/// identifiers strictly increase, so no identifier occurs twice.
pub proof fn law_consistent_bundles_have_unique_ordered_ids(v: JsonView, evidence_bytes: Seq<u8>)
    requires
        bundle_check(v, evidence_bytes) is Ok,
    ensures
        as_array(field(v, "evidence"@)) matches Some(facts) && strictly_sorted_ids(facts),
{
    let facts = as_array(field(v, "evidence"@))->0;
    let ss = field(field(v, "manifest"@), "source_snapshot"@);
    assert(order_stage(facts, field(ss, "source"@), field(ss, "revision"@)) is Ok);
    assert forall|k: int| 0 <= k < facts.len() implies text_of(#[trigger] facts[k], "id"@) is Some by {
        lemma_first_failure_ok(
            facts.len(),
            |i: int| fact_order_check(facts, field(ss, "source"@), field(ss, "revision"@), i),
            k,
        );
    }
    assert forall|p: int, q: int| 0 <= p < q < facts.len() implies text_lt(
        text_of(#[trigger] facts[p], "id"@)->0,
        text_of(#[trigger] facts[q], "id"@)->0,
    ) by {
        lemma_ordered_ids(facts, field(ss, "source"@), field(ss, "revision"@), p, q);
    }
}

/// In a bundle that passes, every record cites the manifest's repository.
pub proof fn law_consistent_bundles_cite_one_repository(v: JsonView, evidence_bytes: Seq<u8>, k: int)
    requires
        bundle_check(v, evidence_bytes) is Ok,
        as_array(field(v, "evidence"@)) matches Some(facts) && 0 <= k < facts.len(),
    ensures
        field(as_array(field(v, "evidence"@))->0[k], "repository"@) == field(
            field(field(v, "manifest"@), "source_snapshot"@),
            "source"@,
        ),
{
    let facts = as_array(field(v, "evidence"@))->0;
    let ss = field(field(v, "manifest"@), "source_snapshot"@);
    lemma_first_failure_ok(
        facts.len(),
        |i: int| fact_order_check(facts, field(ss, "source"@), field(ss, "revision"@), i),
        k,
    );
}


/// In a bundle that passes, every repository-feature record follows from the
/// bundle's own records: its feature is known, and its state and sorted
/// citations are those the records give that feature.
pub proof fn law_consistent_bundle_features_follow_from_their_records(v: JsonView, evidence_bytes: Seq<u8>, k: int)
    requires
        bundle_check(v, evidence_bytes) is Ok,
        as_array(field(v, "evidence"@)) matches Some(facts) && 0 <= k < facts.len(),
        has_field(as_array(field(v, "evidence"@))->0[k], "payload"@),
        text_of(field(as_array(field(v, "evidence"@))->0[k], "payload"@), "kind"@) == Some("repository_feature"@),
    ensures
        ({
            let facts = as_array(field(v, "evidence"@))->0;
            let p = field(facts[k], "payload"@);
            &&& text_of(p, "feature"@) matches Some(name)
            &&& rule_named(name) matches Some(rule)
            &&& text_of(p, "state"@) == Some(derived_feature(rule, facts).0)
            &&& as_array(field(p, "related_evidence_ids"@)) matches Some(rel)
            &&& texts_of(rel) == Some(derived_feature(rule, facts).1)
        }),
{
    let facts = as_array(field(v, "evidence"@))->0;
    assert(redundancy_stage(facts) is Ok);
    lemma_first_failure_ok(facts.len(), |i: int| redundancy_check(facts, facts[i]), k);
    assert(redundancy_check(facts, facts[k]) is Ok);
    reveal_strlit("tracked_file");
    reveal_strlit("file_classification");
    reveal_strlit("repository_feature");
    assert("repository_feature"@ != "tracked_file"@ && "repository_feature"@ != "file_classification"@) by {
        assert("repository_feature"@.len() == 18);
        assert("tracked_file"@.len() == 12);
        assert("file_classification"@.len() == 19);
    }
    assert(feature_check(facts, facts[k], field(facts[k], "payload"@)) is Ok);
}

} // verus!
