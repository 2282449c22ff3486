//! The public machine record of a cohort comparison.
use vstd::prelude::*;

use crate::cohort::{
    Candidate, CohortComparison, Differentiator, FacetSimilarity, FacetWeight, Limitation, cohort_compared, compared,
    kept_descriptors, law_custom_facets_never_change_a_comparison, limitation_entries,
    outcomes_differ_only_in_custom_facets,
};
use crate::comparison::{CandidateDescriptor, CandidateSearchOutcome, CohortMode, ComparisonPolicy, SeedProject};
use crate::ranking::{Ranked, aligned_at, lemma_stable_ranks_align, stable_rank};
use crate::domain::{EvidenceId, RepositorySource, SourceView, evidence_status_text};
use crate::json::{
    JsonValue, JsonView, NumberView, ObjectBuilder, entries_view, items_view, json_array, json_bp,
    json_opt_bp, json_opt_u64, json_text, json_u64, opt_bp_view, opt_u64_view,
};
use crate::sorted::keys_of;

verus! {

/// A value with a JSON form.
pub trait ToJson: Sized {
    spec fn json_view(&self) -> JsonView;

    fn to_json(&self) -> (r: JsonValue)
        ensures
            r.view() == self.json_view(),
    ;
}

/// An array of the JSON forms of `xs`.
pub fn array_of<T: ToJson>(xs: &Vec<T>) -> (r: JsonValue)
    ensures
        r.view() == JsonView::Array(xs@.map_values(|x: T| x.json_view())),
{
    let mut out: Vec<JsonValue> = Vec::new();
    let mut i: usize = 0;
    while i < xs.len()
        invariant
            i <= xs@.len(),
            items_view(out@) == xs@.subrange(0, i as int).map_values(|x: T| x.json_view()),
        decreases xs.len() - i,
    {
        let ghost prev = out@;
        let v = xs[i].to_json();
        out.push(v);
        assert(items_view(out@) =~= items_view(prev).push(v.view()));
        assert(xs@.subrange(0, i + 1).map_values(|x: T| x.json_view()) =~= xs@.subrange(
            0,
            i as int,
        ).map_values(|x: T| x.json_view()).push(xs@[i as int].json_view()));
        i = i + 1;
    }
    assert(xs@.subrange(0, xs@.len() as int) =~= xs@);
    json_array(out)
}

/// An array of texts.
pub open spec fn texts_json(ts: Seq<Seq<char>>) -> JsonView {
    JsonView::Array(ts.map_values(|t: Seq<char>| JsonView::Text(t)))
}

impl ToJson for String {
    open spec fn json_view(&self) -> JsonView {
        JsonView::Text(self@)
    }

    fn to_json(&self) -> (r: JsonValue) {
        json_text(self.as_str())
    }
}

impl ToJson for EvidenceId {
    open spec fn json_view(&self) -> JsonView {
        JsonView::Text(self.view())
    }

    fn to_json(&self) -> (r: JsonValue) {
        json_text(self.as_str())
    }
}

/// The texts of `xs` as a JSON array.
pub fn texts_value<T: ToJson + crate::sorted::Keyed>(xs: &Vec<T>) -> (r: JsonValue)
    requires
        forall|i: int| 0 <= i < xs@.len() ==> (#[trigger] xs@[i]).json_view() == JsonView::Text(
            xs@[i].key_view(),
        ),
    ensures
        r.view() == texts_json(keys_of(xs@)),
{
    let r = array_of(xs);
    assert(xs@.map_values(|x: T| x.json_view()) =~= keys_of(xs@).map_values(
        |t: Seq<char>| JsonView::Text(t),
    ));
    r
}

/// The JSON form of a repository source.
pub open spec fn repository_json(v: SourceView) -> JsonView {
    match v {
        SourceView::Local(id) => JsonView::Object(
            seq![("kind"@, JsonView::Text("local"@)), ("repository_id"@, JsonView::Text(id))],
        ),
        SourceView::Hosted(p, n, r) => JsonView::Object(
            seq![
                ("kind"@, JsonView::Text("hosted"@)),
                ("provider"@, JsonView::Text(p)),
                ("namespace"@, JsonView::Text(n)),
                ("repository"@, JsonView::Text(r)),
            ],
        ),
    }
}

/// Builds the JSON form of a repository source.
pub fn repository_value(source: &RepositorySource) -> (r: JsonValue)
    ensures
        r.view() == repository_json(source.view()),
{
    let mut b = ObjectBuilder::new();
    match source.hosted_locator() {
        Some((p, n, q)) => {
            b.add("kind", json_text("hosted"));
            b.add("provider", json_text(p));
            b.add("namespace", json_text(n));
            b.add("repository", json_text(q));
        },
        None => {
            match source.local_repository_id() {
                Some(id) => {
                    b.add("kind", json_text("local"));
                    b.add("repository_id", json_text(id.as_str()));
                },
                None => {},
            }
        },
    }
    let r = b.build();
    assert(entries_view(b.entries@) =~= match repository_json(source.view()) {
        JsonView::Object(e) => e,
        _ => Seq::empty(),
    });
    r
}

/// `complete` for a present similarity, `unavailable` for an absent one.
pub open spec fn similarity_status_text(bp: Option<u32>) -> Seq<char> {
    if bp is Some {
        "complete"@
    } else {
        "unavailable"@
    }
}

fn similarity_status(bp: Option<u32>) -> (r: &'static str)
    ensures
        r@ == similarity_status_text(bp),
{
    if bp.is_some() {
        "complete"
    } else {
        "unavailable"
    }
}

/// A similarity with its explicit availability.
pub open spec fn similarity_json(bp: Option<u32>) -> JsonView {
    JsonView::Object(
        seq![("status"@, JsonView::Text(similarity_status_text(bp))), ("value"@, opt_bp_view(bp))],
    )
}

fn similarity_value(bp: Option<u32>) -> (r: JsonValue)
    ensures
        r.view() == similarity_json(bp),
{
    let mut b = ObjectBuilder::new();
    b.add("status", json_text(similarity_status(bp)));
    b.add("value", json_opt_bp(bp));
    let r = b.build();
    assert(entries_view(b.entries@) =~= seq![
        ("status"@, JsonView::Text(similarity_status_text(bp))),
        ("value"@, opt_bp_view(bp)),
    ]);
    r
}

impl ToJson for FacetSimilarity {
    open spec fn json_view(&self) -> JsonView {
        JsonView::Object(
            seq![
                ("facet"@, JsonView::Text(self.facet@)),
                ("status"@, JsonView::Text(similarity_status_text(self.similarity_bp))),
                ("value"@, opt_bp_view(self.similarity_bp)),
            ],
        )
    }

    fn to_json(&self) -> (r: JsonValue) {
        let mut b = ObjectBuilder::new();
        b.add("facet", json_text(self.facet.as_str()));
        b.add("status", json_text(similarity_status(self.similarity_bp)));
        b.add("value", json_opt_bp(self.similarity_bp));
        let r = b.build();
        assert(entries_view(b.entries@) =~= seq![
            ("facet"@, JsonView::Text(self.facet@)),
            ("status"@, JsonView::Text(similarity_status_text(self.similarity_bp))),
            ("value"@, opt_bp_view(self.similarity_bp)),
        ]);
        r
    }
}

impl ToJson for Differentiator {
    open spec fn json_view(&self) -> JsonView {
        JsonView::Object(
            seq![
                ("token"@, JsonView::Text(self.token@)),
                ("evidence_ids"@, texts_json(keys_of(self.evidence_ids@))),
            ],
        )
    }

    fn to_json(&self) -> (r: JsonValue) {
        let mut b = ObjectBuilder::new();
        b.add("token", json_text(self.token.as_str()));
        b.add("evidence_ids", texts_value(&self.evidence_ids));
        let r = b.build();
        assert(entries_view(b.entries@) =~= seq![
            ("token"@, JsonView::Text(self.token@)),
            ("evidence_ids"@, texts_json(keys_of(self.evidence_ids@))),
        ]);
        r
    }
}

impl ToJson for FacetWeight {
    open spec fn json_view(&self) -> JsonView {
        JsonView::Object(
            seq![
                ("facet"@, JsonView::Text(self.facet@)),
                ("weight"@, JsonView::Number(NumberView::Unsigned(self.weight as u64))),
            ],
        )
    }

    fn to_json(&self) -> (r: JsonValue) {
        let mut b = ObjectBuilder::new();
        b.add("facet", json_text(self.facet.as_str()));
        b.add("weight", json_u64(self.weight as u64));
        let r = b.build();
        assert(entries_view(b.entries@) =~= seq![
            ("facet"@, JsonView::Text(self.facet@)),
            ("weight"@, JsonView::Number(NumberView::Unsigned(self.weight as u64))),
        ]);
        r
    }
}

impl ToJson for Limitation {
    open spec fn json_view(&self) -> JsonView {
        JsonView::Object(
            seq![
                ("code"@, JsonView::Text(self.code@)),
                ("evidence_ids"@, texts_json(seq![self.evidence_id.view()])),
            ],
        )
    }

    fn to_json(&self) -> (r: JsonValue) {
        let mut ids: Vec<JsonValue> = Vec::new();
        ids.push(json_text(self.evidence_id.as_str()));
        let mut b = ObjectBuilder::new();
        b.add("code", json_text(self.code.as_str()));
        let ghost iv = items_view(ids@);
        assert(iv =~= seq![self.evidence_id.view()].map_values(|t: Seq<char>| JsonView::Text(t)));
        b.add("evidence_ids", json_array(ids));
        let r = b.build();
        assert(entries_view(b.entries@) =~= seq![
            ("code"@, JsonView::Text(self.code@)),
            ("evidence_ids"@, texts_json(seq![self.evidence_id.view()])),
        ]);
        r
    }
}

/// The repository and revision a candidate names.
pub open spec fn candidate_ref_json(c: Candidate) -> JsonView {
    JsonView::Object(
        seq![
            ("source"@, repository_json(c.source.view())),
            ("revision"@, JsonView::Text(c.revision.view())),
        ],
    )
}

fn candidate_ref_value(c: &Candidate) -> (r: JsonValue)
    ensures
        r.view() == candidate_ref_json(*c),
{
    let mut b = ObjectBuilder::new();
    b.add("source", repository_value(&c.source));
    b.add("revision", json_text(c.revision.as_str()));
    let r = b.build();
    assert(entries_view(b.entries@) =~= seq![
        ("source"@, repository_json(c.source.view())),
        ("revision"@, JsonView::Text(c.revision.view())),
    ]);
    r
}

/// The full record of a detailed candidate.
pub open spec fn detailed_json(c: Candidate) -> JsonView {
    JsonView::Object(
        seq![
            ("candidate"@, candidate_ref_json(c)),
            ("selection_reasons"@, texts_json(keys_of(c.selection_reasons@))),
            ("confidence"@, JsonView::Number(NumberView::BasisPoints(c.confidence_bp))),
            ("overall_similarity"@, similarity_json(c.overall_similarity_bp)),
            ("facets"@, JsonView::Array(c.facet_similarities@.map_values(|f: FacetSimilarity| f.json_view()))),
            ("popularity"@, JsonView::Object(seq![("stars"@, opt_u64_view(c.stars))])),
            (
                "differentiators"@,
                JsonView::Object(
                    seq![
                        ("seed_only"@, JsonView::Array(c.seed_only@.map_values(|d: Differentiator| d.json_view()))),
                        ("candidate_only"@, JsonView::Array(c.candidate_only@.map_values(|d: Differentiator| d.json_view()))),
                    ],
                ),
            ),
            ("evidence_ids"@, texts_json(keys_of(c.evidence_ids@))),
        ],
    )
}

/// The compact record of an additional candidate.
pub open spec fn compact_json(c: Candidate) -> JsonView {
    JsonView::Object(
        seq![
            ("candidate"@, candidate_ref_json(c)),
            ("confidence"@, JsonView::Number(NumberView::BasisPoints(c.confidence_bp))),
            ("overall_similarity"@, similarity_json(c.overall_similarity_bp)),
            ("evidence_ids"@, texts_json(seq![c.discovery_evidence_id.view()])),
        ],
    )
}

impl ToJson for Candidate {
    open spec fn json_view(&self) -> JsonView {
        detailed_json(*self)
    }

    fn to_json(&self) -> (r: JsonValue) {
        let mut pop = ObjectBuilder::new();
        pop.add("stars", json_opt_u64(self.stars));
        let ghost pop_entries = entries_view(pop.entries@);
        let popularity = pop.build();
        let mut diff = ObjectBuilder::new();
        diff.add("seed_only", array_of(&self.seed_only));
        diff.add("candidate_only", array_of(&self.candidate_only));
        let ghost diff_entries = entries_view(diff.entries@);
        let differentiators = diff.build();
        let mut b = ObjectBuilder::new();
        b.add("candidate", candidate_ref_value(self));
        b.add("selection_reasons", texts_value(&self.selection_reasons));
        b.add("confidence", json_bp(self.confidence_bp));
        b.add("overall_similarity", similarity_value(self.overall_similarity_bp));
        b.add("facets", array_of(&self.facet_similarities));
        b.add("popularity", popularity);
        b.add("differentiators", differentiators);
        b.add("evidence_ids", texts_value(&self.evidence_ids));
        let r = b.build();
        assert(pop_entries =~= seq![("stars"@, opt_u64_view(self.stars))]);
        assert(diff_entries =~= seq![
            ("seed_only"@, JsonView::Array(self.seed_only@.map_values(|d: Differentiator| d.json_view()))),
            ("candidate_only"@, JsonView::Array(self.candidate_only@.map_values(|d: Differentiator| d.json_view()))),
        ]);
        assert(entries_view(b.entries@) =~= match detailed_json(*self) {
            JsonView::Object(e) => e,
            _ => Seq::empty(),
        });
        r
    }
}

fn compact_value(c: &Candidate) -> (r: JsonValue)
    ensures
        r.view() == compact_json(*c),
{
    let mut ids: Vec<JsonValue> = Vec::new();
    ids.push(json_text(c.discovery_evidence_id.as_str()));
    let ghost iv = items_view(ids@);
    assert(iv =~= seq![c.discovery_evidence_id.view()].map_values(|t: Seq<char>| JsonView::Text(t)));
    let mut b = ObjectBuilder::new();
    b.add("candidate", candidate_ref_value(c));
    b.add("confidence", json_bp(c.confidence_bp));
    b.add("overall_similarity", similarity_value(c.overall_similarity_bp));
    b.add("evidence_ids", json_array(ids));
    let r = b.build();
    assert(entries_view(b.entries@) =~= match compact_json(*c) {
        JsonView::Object(e) => e,
        _ => Seq::empty(),
    });
    r
}

fn compact_array(cs: &Vec<Candidate>) -> (r: JsonValue)
    ensures
        r.view() == JsonView::Array(cs@.map_values(|c: Candidate| compact_json(c))),
{
    let mut out: Vec<JsonValue> = Vec::new();
    let mut i: usize = 0;
    while i < cs.len()
        invariant
            i <= cs@.len(),
            items_view(out@) == cs@.subrange(0, i as int).map_values(|c: Candidate| compact_json(c)),
        decreases cs.len() - i,
    {
        let ghost prev = out@;
        let v = compact_value(&cs[i]);
        out.push(v);
        assert(items_view(out@) =~= items_view(prev).push(v.view()));
        assert(cs@.subrange(0, i + 1).map_values(|c: Candidate| compact_json(c)) =~= cs@.subrange(
            0,
            i as int,
        ).map_values(|c: Candidate| compact_json(c)).push(compact_json(cs@[i as int])));
        i = i + 1;
    }
    assert(cs@.subrange(0, cs@.len() as int) =~= cs@);
    json_array(out)
}

/// The machine code of a cohort mode.
pub open spec fn cohort_mode_text(mode: CohortMode) -> Seq<char> {
    match mode {
        CohortMode::FunctionalCohort => "functional_cohort"@,
        CohortMode::CuratedList => "curated_list"@,
    }
}

/// The public record of a cohort comparison.
pub open spec fn cohort_json(c: CohortComparison) -> JsonView {
    JsonView::Object(
        seq![
            ("schema_version"@, JsonView::Text("1.0.0"@)),
            ("comparison_version"@, JsonView::Text("project-comparison-1"@)),
            ("mode"@, JsonView::Text(cohort_mode_text(c.mode))),
            ("status"@, JsonView::Text(evidence_status_text(c.status))),
            ("search_depth"@, JsonView::Text("one_depth"@)),
            (
                "seed"@,
                JsonView::Object(
                    seq![
                        ("source"@, repository_json(c.seed_source.view())),
                        ("revision"@, JsonView::Text(c.seed_revision.view())),
                    ],
                ),
            ),
            ("facet_weights"@, JsonView::Array(c.facet_weights@.map_values(|w: FacetWeight| w.json_view()))),
            ("detailed_candidates"@, JsonView::Array(c.detailed@.map_values(|x: Candidate| detailed_json(x)))),
            ("additional_candidates"@, JsonView::Array(c.additional@.map_values(|x: Candidate| compact_json(x)))),
            ("evidence_ids"@, texts_json(keys_of(c.evidence_ids@))),
            ("warnings"@, JsonView::Array(Seq::empty())),
            ("limitations"@, JsonView::Array(c.limitations@.map_values(|l: Limitation| l.json_view()))),
        ],
    )
}

impl CohortComparison {
    /// Maps the comparison onto its public machine record.
    pub fn to_machine_value(&self) -> (r: JsonValue)
        ensures
            r.view() == cohort_json(*self),
    {
        let mut seed = ObjectBuilder::new();
        seed.add("source", repository_value(&self.seed_source));
        seed.add("revision", json_text(self.seed_revision.as_str()));
        let ghost seed_entries = entries_view(seed.entries@);
        let seed_value = seed.build();
        let mut b = ObjectBuilder::new();
        b.add("schema_version", json_text("1.0.0"));
        b.add("comparison_version", json_text("project-comparison-1"));
        b.add("mode", json_text(self.mode.code()));
        b.add("status", json_text(self.status.code()));
        b.add("search_depth", json_text(self.search_depth().code()));
        b.add("seed", seed_value);
        b.add("facet_weights", array_of(&self.facet_weights));
        b.add("detailed_candidates", array_of(&self.detailed));
        b.add("additional_candidates", compact_array(&self.additional));
        b.add("evidence_ids", texts_value(&self.evidence_ids));
        let empty: Vec<JsonValue> = Vec::new();
        let ghost ev = items_view(empty@);
        assert(ev =~= Seq::<JsonView>::empty());
        b.add("warnings", json_array(empty));
        b.add("limitations", array_of(&self.limitations));
        let r = b.build();
        assert(seed_entries =~= seq![
            ("source"@, repository_json(self.seed_source.view())),
            ("revision"@, JsonView::Text(self.seed_revision.view())),
        ]);
        assert(self.detailed@.map_values(|x: Candidate| x.json_view()) =~= self.detailed@.map_values(
            |x: Candidate| detailed_json(x),
        ));
        assert(entries_view(b.entries@) =~= match cohort_json(*self) {
            JsonView::Object(e) => e,
            _ => Seq::empty(),
        });
        r
    }
}

/// Two candidates compared from the same search answer have the same
/// public records and rank alike.
proof fn lemma_compared_candidates_agree(
    seed: SeedProject,
    d: CandidateDescriptor,
    policy: ComparisonPolicy,
    c1: Candidate,
    c2: Candidate,
)
    requires
        compared(&seed, &d, policy, &c1),
        compared(&seed, &d, policy, &c2),
    ensures
        detailed_json(c1) == detailed_json(c2),
        compact_json(c1) == compact_json(c2),
        c1.overall_similarity_bp == c2.overall_similarity_bp,
        c1.stars == c2.stars,
        c1.source.view() == c2.source.view(),
{
    let f1 = c1.facet_similarities@;
    let f2 = c2.facet_similarities@;
    assert(f1.map_values(|f: FacetSimilarity| f.json_view()) =~= f2.map_values(|f: FacetSimilarity| f.json_view()))
        by {
        assert forall|i: int| 0 <= i < f1.len() implies f1[i].json_view() == f2[i].json_view() by {
            assert(f1[i].facet@ == f2[i].facet@);
        }
    }
    let s1 = c1.seed_only@;
    let s2 = c2.seed_only@;
    assert(keys_of(s1) == keys_of(s2));
    assert(s1.len() == keys_of(s1).len() && s2.len() == keys_of(s2).len());
    assert(s1.map_values(|x: Differentiator| x.json_view()) =~= s2.map_values(|x: Differentiator| x.json_view()))
        by {
        assert forall|i: int| 0 <= i < s1.len() implies s1[i].json_view() == s2[i].json_view() by {
            assert(keys_of(s1)[i] == keys_of(s2)[i]);
            assert(keys_of(s1[i].evidence_ids@) == keys_of(seed.profile.evidence_ids@));
            assert(keys_of(s2[i].evidence_ids@) == keys_of(seed.profile.evidence_ids@));
        }
    }
    let o1 = c1.candidate_only@;
    let o2 = c2.candidate_only@;
    assert(keys_of(o1) == keys_of(o2));
    assert(o1.len() == keys_of(o1).len() && o2.len() == keys_of(o2).len());
    assert(o1.map_values(|x: Differentiator| x.json_view()) =~= o2.map_values(|x: Differentiator| x.json_view()))
        by {
        assert forall|i: int| 0 <= i < o1.len() implies o1[i].json_view() == o2[i].json_view() by {
            assert(keys_of(o1)[i] == keys_of(o2)[i]);
            assert(keys_of(o1[i].evidence_ids@) == keys_of(o2[i].evidence_ids@));
        }
    }
}

/// The public record of a comparison depends only on the seed, the policy
/// and the search outcome: any two comparisons of them publish the same
/// record.
pub proof fn law_public_record_is_determined_by_the_outcome(
    seed: SeedProject,
    policy: ComparisonPolicy,
    o: CandidateSearchOutcome,
    c1: CohortComparison,
    c2: CohortComparison,
)
    requires
        cohort_compared(&seed, &o, policy, &c1),
        cohort_compared(&seed, &o, policy, &c2),
    ensures
        cohort_json(c1) == cohort_json(c2),
{
    let w1 = c1.facet_weights@;
    let w2 = c2.facet_weights@;
    assert(w1.map_values(|w: FacetWeight| w.json_view()) =~= w2.map_values(|w: FacetWeight| w.json_view())) by {
        assert forall|i: int| 0 <= i < w1.len() implies w1[i].json_view() == w2[i].json_view() by {
            assert(w1[i].facet@ == w2[i].facet@ && w1[i].weight == w2[i].weight);
        }
    }
    crate::sorted::lemma_strictly_sorted_unique(keys_of(c1.evidence_ids@), keys_of(c2.evidence_ids@));
    if o.status.spec_is_usable() {
        let ds = o.candidates@;
        let kd = kept_descriptors(seed, policy, ds);
        let e = limitation_entries(seed, policy, ds);
        let r1 = c1.detailed@ + c1.additional@;
        let r2 = c2.detailed@ + c2.additional@;
        let in1 = choose|input: Seq<Candidate>|
            #[trigger] stable_rank(input, r1) && input.len() == kd.len() && forall|i: int|
                0 <= i < input.len() ==> compared(&seed, &kd[i], policy, &#[trigger] input[i]);
        let in2 = choose|input: Seq<Candidate>|
            #[trigger] stable_rank(input, r2) && input.len() == kd.len() && forall|i: int|
                0 <= i < input.len() ==> compared(&seed, &kd[i], policy, &#[trigger] input[i]);
        assert forall|a: int, b: int| 0 <= a < in1.len() && 0 <= b < in1.len() implies #[trigger] in1[a].rank_before(
            &in1[b],
        ) == in2[a].rank_before(&in2[b]) by {
            lemma_compared_candidates_agree(seed, kd[a], policy, in1[a], in2[a]);
            lemma_compared_candidates_agree(seed, kd[b], policy, in1[b], in2[b]);
        }
        lemma_stable_ranks_align(in1, r1, in2, r2);
        let dn = c1.detailed@.len();
        assert forall|k: int| 0 <= k < r1.len() implies detailed_json(#[trigger] r1[k]) == detailed_json(r2[k])
            && compact_json(r1[k]) == compact_json(r2[k]) by {
            assert(aligned_at(in1, r1, in2, r2, k));
            let a = choose|a: int| 0 <= a < in1.len() && r1[k] == #[trigger] in1[a] && r2[k] == in2[a];
            lemma_compared_candidates_agree(seed, kd[a], policy, in1[a], in2[a]);
        }
        assert(c1.detailed@.map_values(|x: Candidate| detailed_json(x)) =~= c2.detailed@.map_values(
            |x: Candidate| detailed_json(x),
        )) by {
            assert forall|k: int| 0 <= k < dn implies detailed_json(c1.detailed@[k]) == detailed_json(
                c2.detailed@[k],
            ) by {
                assert(r1[k] == c1.detailed@[k] && r2[k] == c2.detailed@[k]);
            }
        }
        assert(c1.additional@.map_values(|x: Candidate| compact_json(x)) =~= c2.additional@.map_values(
            |x: Candidate| compact_json(x),
        )) by {
            assert forall|k: int| 0 <= k < c1.additional@.len() implies compact_json(c1.additional@[k])
                == compact_json(c2.additional@[k]) by {
                assert(r1[dn + k] == c1.additional@[k] && r2[dn + k] == c2.additional@[k]);
            }
        }
        let l1 = choose|lims: Seq<Limitation>|
            #[trigger] stable_rank(lims, c1.limitations@) && lims.len() == e.len() && forall|i: int|
                0 <= i < lims.len() ==> (#[trigger] lims[i]).code@ == e[i].0 && lims[i].evidence_id.view() == e[i].1;
        let l2 = choose|lims: Seq<Limitation>|
            #[trigger] stable_rank(lims, c2.limitations@) && lims.len() == e.len() && forall|i: int|
                0 <= i < lims.len() ==> (#[trigger] lims[i]).code@ == e[i].0 && lims[i].evidence_id.view() == e[i].1;
        assert forall|a: int, b: int| 0 <= a < l1.len() && 0 <= b < l1.len() implies #[trigger] l1[a].rank_before(
            &l1[b],
        ) == l2[a].rank_before(&l2[b]) by {
            assert(l1[a].code@ == l2[a].code@ && l1[b].code@ == l2[b].code@);
        }
        lemma_stable_ranks_align(l1, c1.limitations@, l2, c2.limitations@);
        assert(c1.limitations@.map_values(|l: Limitation| l.json_view()) =~= c2.limitations@.map_values(
            |l: Limitation| l.json_view(),
        )) by {
            assert forall|k: int| 0 <= k < c1.limitations@.len() implies c1.limitations@[k].json_view()
                == c2.limitations@[k].json_view() by {
                assert(aligned_at(l1, c1.limitations@, l2, c2.limitations@, k));
                let a = choose|a: int|
                    0 <= a < l1.len() && c1.limitations@[k] == #[trigger] l1[a] && c2.limitations@[k] == l2[a];
                assert(l1[a].code@ == l2[a].code@);
            }
        }
    } else {
        assert(c1.detailed@.map_values(|x: Candidate| detailed_json(x)) =~= c2.detailed@.map_values(
            |x: Candidate| detailed_json(x),
        ));
        assert(c1.additional@.map_values(|x: Candidate| compact_json(x)) =~= c2.additional@.map_values(
            |x: Candidate| compact_json(x),
        ));
        assert(c1.limitations@.map_values(|l: Limitation| l.json_view()) =~= c2.limitations@.map_values(
            |l: Limitation| l.json_view(),
        ));
    }
}

/// Facets outside the mode's canonical set never reach the public record:
/// comparisons of two outcomes that differ only in such facets publish the
/// same record, so no custom facet name or token appears in it.
pub proof fn law_custom_facets_never_reach_the_public_record(
    seed: SeedProject,
    policy: ComparisonPolicy,
    o1: CandidateSearchOutcome,
    o2: CandidateSearchOutcome,
    c1: CohortComparison,
    c2: CohortComparison,
)
    requires
        o1.wf(),
        o2.wf(),
        outcomes_differ_only_in_custom_facets(seed.profile.mode, o1, o2),
        cohort_compared(&seed, &o1, policy, &c1),
        cohort_compared(&seed, &o2, policy, &c2),
    ensures
        cohort_json(c1) == cohort_json(c2),
{
    law_custom_facets_never_change_a_comparison(seed, policy, o1, o2, c1);
    law_public_record_is_determined_by_the_outcome(seed, policy, o2, c1, c2);
}

/// The machine codes of the cohort modes.
pub proof fn law_cohort_mode_codes()
    ensures
        cohort_mode_text(CohortMode::FunctionalCohort) == "functional_cohort"@,
        cohort_mode_text(CohortMode::CuratedList) == "curated_list"@,
{
}

} // verus!
