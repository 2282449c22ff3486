//! Comparing discovered candidates with the seed: per-facet Jaccard
//! similarity over the mode's canonical facets, the weighted overall
//! similarity, differentiating tokens, ranking and the one-depth cohort
//! record.
use vstd::prelude::*;

use crate::comparison::{
    CandidateDescriptor, CandidateSearch, CandidateSearchError, CandidateSearchOutcome, CohortMode, ComparisonError,
    ComparisonErrorKind, ComparisonPolicy, Facet, SearchDepth, SeedProject, canonical_facet_names, facets_wf,
    facet_weight_of, ordered_facet_names,
};
use crate::domain::{EvidenceId, EvidenceStatus, RepositorySource, RevisionId, SourceView, ids_view};
use crate::ranking::{Ranked, lemma_stable_rank_members, rank_stably, stable_rank};
use crate::sorted::{
    Keyed, contains_key, insert_unique, keys_of, lemma_keys_contains, lemma_push_to_set,
    lemma_sorted_key_position, lemma_sorted_texts, lemma_strictly_sorted_no_duplicates,
    position_of, sorted_texts, sorted_unique, strictly_sorted,
};
use crate::text::{
    TextOrder, compare_text, lemma_text_lt_asymmetric, lemma_text_lt_irreflexive,
    lemma_text_lt_total, lemma_text_lt_transitive, owned, push_text, text_lt,
};

verus! {

broadcast use vstd::seq_lib::group_seq_properties, vstd::set_lib::group_set_properties;

/// The token set that `facets` declares for facet `name`, when it declares one.
pub open spec fn tokens_of(facets: Seq<Facet>, name: Seq<char>) -> Option<Set<Seq<char>>> {
    if exists|i: int| 0 <= i < facets.len() && #[trigger] facets[i].name@ == name {
        let i = choose|i: int| 0 <= i < facets.len() && #[trigger] facets[i].name@ == name;
        Some(facets[i].token_set())
    } else {
        None
    }
}

/// Finds the facet called `name` in a name-sorted facet list.
fn find_facet<'a>(facets: &'a Vec<Facet>, name: &str) -> (r: Option<&'a Facet>)
    requires
        strictly_sorted(keys_of(facets@)),
    ensures
        r is None <==> tokens_of(facets@, name@) is None,
        r matches Some(f) ==> tokens_of(facets@, name@) == Some(f.token_set()) && facets@.contains(
            *f,
        ),
{
    match position_of(facets.as_slice(), name) {
        Some(i) => {
            proof {
                assert(facets@[i as int].name@ == name@);
                let j = choose|j: int| 0 <= j < facets@.len() && #[trigger] facets@[j].name@ == name@;
                lemma_sorted_key_position(facets@, i as int, j);
            }
            Some(&facets[i])
        },
        None => {
            proof {
                if exists|i: int| 0 <= i < facets@.len() && #[trigger] facets@[i].name@ == name@ {
                    let i = choose|i: int| 0 <= i < facets@.len() && #[trigger] facets@[i].name@ == name@;
                    lemma_keys_contains(facets@, i);
                }
            }
            None
        },
    }
}

/// Counts the tokens of `a` that `b` also holds.
fn count_shared(a: &Vec<String>, b: &Vec<String>) -> (r: usize)
    requires
        strictly_sorted(keys_of(a@)),
    ensures
        r == keys_of(a@).to_set().intersect(keys_of(b@).to_set()).len(),
        r <= a@.len(),
{
    let ghost bs = keys_of(b@).to_set();
    let mut n: usize = 0;
    let mut i: usize = 0;
    while i < a.len()
        invariant
            i <= a@.len(),
            n <= i,
            bs == keys_of(b@).to_set(),
            strictly_sorted(keys_of(a@)),
            n == keys_of(a@.subrange(0, i as int)).to_set().intersect(bs).len(),
        decreases a.len() - i,
    {
        let ghost pre = keys_of(a@.subrange(0, i as int));
        let ghost x = a@[i as int]@;
        proof {
            assert(keys_of(a@.subrange(0, i + 1)) =~= pre.push(x));
            lemma_push_to_set(pre, x);
            if pre.contains(x) {
                let j = choose|j: int| 0 <= j < pre.len() && pre[j] == x;
                assert(keys_of(a@)[j] == x);
                assert(keys_of(a@)[i as int] == x);
                assert(text_lt(keys_of(a@)[j], keys_of(a@)[i as int]));
                lemma_text_lt_irreflexive(x);
            }
        }
        if contains_key(b.as_slice(), a[i].as_str()) {
            proof {
                assert(pre.to_set().insert(x).intersect(bs) =~= pre.to_set().intersect(bs).insert(x));
                assert(!pre.to_set().intersect(bs).contains(x));
            }
            n = n + 1;
        } else {
            proof {
                assert(pre.to_set().insert(x).intersect(bs) =~= pre.to_set().intersect(bs));
            }
        }
        i = i + 1;
    }
    assert(a@.subrange(0, a@.len() as int) =~= a@);
    n
}

/// The Jaccard similarity of two token sets in basis points, rounded down:
/// shared tokens over all tokens; zero for two empty sets.
pub open spec fn jaccard_bp(a: Set<Seq<char>>, b: Set<Seq<char>>) -> int {
    if a.union(b).len() == 0 {
        0
    } else {
        (a.intersect(b).len() * 10000) as int / a.union(b).len() as int
    }
}

/// A strictly sorted token list has as many tokens as distinct tokens.
proof fn lemma_sorted_len(s: Seq<Seq<char>>)
    requires
        strictly_sorted(s),
    ensures
        s.to_set().len() == s.len(),
        s.to_set().finite(),
{
    lemma_strictly_sorted_no_duplicates(s);
    s.unique_seq_to_set();
}

/// The Jaccard similarity of two facets' token sets.
fn jaccard_basis_points(a: &Facet, b: &Facet) -> (r: u32)
    requires
        a.wf(),
        b.wf(),
    ensures
        r == jaccard_bp(a.token_set(), b.token_set()),
        r <= 10000,
{
    let shared = count_shared(&a.tokens, &b.tokens);
    let ghost sa = a.token_set();
    let ghost sb = b.token_set();
    proof {
        lemma_sorted_len(keys_of(a.tokens@));
        lemma_sorted_len(keys_of(b.tokens@));
        vstd::set_lib::lemma_set_intersect_union_lens(sa, sb);
        vstd::set_lib::lemma_len_intersect(sb, sa);
        assert(sb.intersect(sa) =~= sa.intersect(sb));
    }
    let la = a.tokens.len() as u128;
    let lb = b.tokens.len() as u128;
    let union = la + lb - shared as u128;
    assert(union == sa.union(sb).len());
    assert(union > 0);
    let num = (shared as u128) * 10000;
    let q = num / union;
    assert(q <= 10000) by (nonlinear_arith)
        requires
            q == num / union,
            num == shared * 10000,
            shared <= union,
            union > 0,
    ;
    q as u32
}

/// The similarity of one facet, when both sides declare tokens for it.
pub open spec fn facet_similarity(seed: Seq<Facet>, cand: Seq<Facet>, name: Seq<char>) -> Option<
    u32,
> {
    match (tokens_of(seed, name), tokens_of(cand, name)) {
        (Some(a), Some(b)) => Some(jaccard_bp(a, b) as u32),
        _ => None,
    }
}


/// The summed weight of the facets among `ns` that both sides declare.
pub open spec fn weight_total(
    policy: ComparisonPolicy,
    seed: Seq<Facet>,
    cand: Seq<Facet>,
    ns: Seq<Seq<char>>,
) -> int
    decreases ns.len(),
{
    if ns.len() == 0 {
        0
    } else {
        weight_total(policy, seed, cand, ns.drop_last()) + if facet_similarity(
            seed,
            cand,
            ns.last(),
        ) is Some {
            facet_weight_of(policy, ns.last()) as int
        } else {
            0
        }
    }
}

/// The summed weighted similarity of the facets among `ns`.
pub open spec fn value_total(
    policy: ComparisonPolicy,
    seed: Seq<Facet>,
    cand: Seq<Facet>,
    ns: Seq<Seq<char>>,
) -> int
    decreases ns.len(),
{
    if ns.len() == 0 {
        0
    } else {
        value_total(policy, seed, cand, ns.drop_last()) + match facet_similarity(
            seed,
            cand,
            ns.last(),
        ) {
            Some(bp) => facet_weight_of(policy, ns.last()) * bp,
            None => 0,
        }
    }
}

/// How many facets among `ns` both sides declare.
pub open spec fn available_count(seed: Seq<Facet>, cand: Seq<Facet>, ns: Seq<Seq<char>>) -> int
    decreases ns.len(),
{
    if ns.len() == 0 {
        0
    } else {
        available_count(seed, cand, ns.drop_last()) + if facet_similarity(
            seed,
            cand,
            ns.last(),
        ) is Some {
            1int
        } else {
            0
        }
    }
}

/// The facets among `ns`, in order, whose similarity is above zero.
pub open spec fn reasons_in(seed: Seq<Facet>, cand: Seq<Facet>, ns: Seq<Seq<char>>) -> Seq<
    Seq<char>,
>
    decreases ns.len(),
{
    if ns.len() == 0 {
        Seq::empty()
    } else {
        let prev = reasons_in(seed, cand, ns.drop_last());
        match facet_similarity(seed, cand, ns.last()) {
            Some(bp) => if bp > 0 {
                prev.push(ns.last())
            } else {
                prev
            },
            None => prev,
        }
    }
}

/// The weighted mean similarity over the facets both sides declare, absent
/// when they share none.
pub open spec fn overall_similarity_of(
    policy: ComparisonPolicy,
    seed: Seq<Facet>,
    cand: Seq<Facet>,
    ns: Seq<Seq<char>>,
) -> Option<u32> {
    if weight_total(policy, seed, cand, ns) > 0 {
        Some(
            (value_total(policy, seed, cand, ns) / weight_total(policy, seed, cand, ns)) as u32,
        )
    } else {
        None
    }
}

/// The share of facets both sides declare, in basis points.
pub open spec fn confidence_of(seed: Seq<Facet>, cand: Seq<Facet>, ns: Seq<Seq<char>>) -> u32 {
    (available_count(seed, cand, ns) * 10000 / ns.len() as int) as u32
}

/// Whether facet `f` is canonical for `mode` and declares token `t`.
pub open spec fn declares_token(mode: CohortMode, f: Facet, t: Seq<char>) -> bool {
    canonical_facet_names(mode).contains(f.name@) && f.token_set().contains(t)
}

/// The tokens of the first `n` facets that are canonical for `mode`.
pub open spec fn canonical_tokens_upto(mode: CohortMode, facets: Seq<Facet>, n: int) -> Set<
    Seq<char>,
> {
    Set::new(
        |t: Seq<char>| exists|k: int| 0 <= k < n && #[trigger] declares_token(mode, facets[k], t),
    )
}

/// All tokens of the facets that are canonical for `mode`.
pub open spec fn canonical_tokens(mode: CohortMode, facets: Seq<Facet>) -> Set<Seq<char>> {
    canonical_tokens_upto(mode, facets, facets.len() as int)
}

/// The sorted tokens of the facets that are canonical for `mode`; tokens of
/// other facets never reach public output.
fn canonical_token_list(mode: CohortMode, facets: &Vec<Facet>) -> (r: Vec<String>)
    ensures
        strictly_sorted(keys_of(r@)),
        keys_of(r@).to_set() == canonical_tokens(mode, facets@),
{
    let mut r: Vec<String> = Vec::new();
    let mut i: usize = 0;
    proof {
        assert(keys_of(r@).to_set() =~= canonical_tokens_upto(mode, facets@, 0));
    }
    while i < facets.len()
        invariant
            i <= facets@.len(),
            strictly_sorted(keys_of(r@)),
            keys_of(r@).to_set() == canonical_tokens_upto(mode, facets@, i as int),
        decreases facets.len() - i,
    {
        let f = &facets[i];
        let ghost upto = canonical_tokens_upto(mode, facets@, i as int);
        let ghost next = canonical_tokens_upto(mode, facets@, i + 1);
        if mode.is_canonical(f.name.as_str()) {
            let mut j: usize = 0;
            assert(keys_of(f.tokens@.subrange(0, 0)).to_set() =~= Set::<Seq<char>>::empty());
            while j < f.tokens.len()
                invariant
                    j <= f.tokens@.len(),
                    strictly_sorted(keys_of(r@)),
                    keys_of(r@).to_set() == upto.union(keys_of(f.tokens@.subrange(0, j as int)).to_set()),
                decreases f.tokens.len() - j,
            {
                let ghost pre = keys_of(f.tokens@.subrange(0, j as int));
                let t = owned(f.tokens[j].as_str());
                insert_unique(&mut r, t);
                proof {
                    assert(keys_of(f.tokens@.subrange(0, j + 1)) =~= pre.push(t@));
                    lemma_push_to_set(pre, t@);
                    assert(keys_of(r@).to_set() =~= upto.union(pre.push(t@).to_set()));
                }
                j = j + 1;
            }
            proof {
                assert(f.tokens@.subrange(0, f.tokens@.len() as int) =~= f.tokens@);
                assert forall|t: Seq<char>| next.contains(t) <==> upto.union(f.token_set()).contains(t) by {
                    if next.contains(t) {
                        let k = choose|k: int| 0 <= k < i + 1 && #[trigger] declares_token(mode, facets@[k], t);
                        if k < i {
                            assert(upto.contains(t));
                        }
                    }
                    if f.token_set().contains(t) {
                        assert(declares_token(mode, facets@[i as int], t));
                    }
                    if upto.contains(t) {
                        let k = choose|k: int| 0 <= k < i && #[trigger] declares_token(mode, facets@[k], t);
                        assert(declares_token(mode, facets@[k], t));
                    }
                }
                assert(keys_of(r@).to_set() =~= next);
            }
        } else {
            proof {
                assert forall|t: Seq<char>| next.contains(t) <==> upto.contains(t) by {
                    if next.contains(t) {
                        let k = choose|k: int| 0 <= k < i + 1 && #[trigger] declares_token(mode, facets@[k], t);
                        assert(k != i);
                    }
                    if upto.contains(t) {
                        let k = choose|k: int| 0 <= k < i && #[trigger] declares_token(mode, facets@[k], t);
                        assert(declares_token(mode, facets@[k], t));
                    }
                }
                assert(next =~= upto);
            }
        }
        i = i + 1;
    }
    r
}

/// The tokens of `a` that `b` lacks, in order.
fn tokens_missing_from(a: &Vec<String>, b: &Vec<String>) -> (r: Vec<String>)
    requires
        strictly_sorted(keys_of(a@)),
    ensures
        strictly_sorted(keys_of(r@)),
        keys_of(r@).to_set() == keys_of(a@).to_set().difference(keys_of(b@).to_set()),
{
    let ghost bs = keys_of(b@).to_set();
    let mut r: Vec<String> = Vec::new();
    let mut i: usize = 0;
    while i < a.len()
        invariant
            i <= a@.len(),
            strictly_sorted(keys_of(a@)),
            bs == keys_of(b@).to_set(),
            strictly_sorted(keys_of(r@)),
            forall|k: int| 0 <= k < r@.len() ==> exists|j: int| 0 <= j < i && #[trigger] a@[j]@ == (#[trigger] r@[k])@,
            keys_of(r@).to_set() == keys_of(a@.subrange(0, i as int)).to_set().difference(bs),
        decreases a.len() - i,
    {
        let ghost pre = keys_of(a@.subrange(0, i as int));
        let ghost x = a@[i as int]@;
        proof {
            assert(keys_of(a@.subrange(0, i + 1)) =~= pre.push(x));
            lemma_push_to_set(pre, x);
        }
        if !contains_key(b.as_slice(), a[i].as_str()) {
            let ghost old_r = r@;
            let t = owned(a[i].as_str());
            r.push(t);
            proof {
                assert(keys_of(r@) =~= keys_of(old_r).push(x));
                lemma_push_to_set(keys_of(old_r), x);
                assert forall|p: int, q: int| 0 <= p < q < keys_of(r@).len() implies text_lt(
                    #[trigger] keys_of(r@)[p],
                    #[trigger] keys_of(r@)[q],
                ) by {
                    if q == old_r.len() {
                        let j = choose|j: int| 0 <= j < i && #[trigger] a@[j]@ == (#[trigger] old_r[p])@;
                        assert(keys_of(a@)[j] == a@[j]@);
                        assert(keys_of(a@)[i as int] == x);
                    } else {
                        assert(keys_of(old_r)[p] == keys_of(r@)[p]);
                        assert(keys_of(old_r)[q] == keys_of(r@)[q]);
                    }
                }
                assert forall|k: int| 0 <= k < r@.len() implies exists|j: int| 0 <= j < i + 1 && #[trigger] a@[j]@ == (#[trigger] r@[k])@ by {
                    if k == old_r.len() {
                        assert(a@[i as int]@ == r@[k]@);
                    } else {
                        assert(r@[k] == old_r[k]);
                    }
                }
                assert(keys_of(r@).to_set() =~= pre.push(x).to_set().difference(bs));
            }
        } else {
            proof {
                assert(keys_of(r@).to_set() =~= pre.push(x).to_set().difference(bs));
            }
        }
        i = i + 1;
    }
    assert(a@.subrange(0, a@.len() as int) =~= a@);
    r
}


/// The similarity of one canonical facet, absent when either side lacks it.
#[derive(Debug)]
pub struct FacetSimilarity {
    pub facet: String,
    pub similarity_bp: Option<u32>,
}

/// One token that only the seed, or only the candidate, declares, with the
/// evidence that cites it.
#[derive(Debug)]
pub struct Differentiator {
    pub token: String,
    pub evidence_ids: Vec<EvidenceId>,
}

impl Keyed for Differentiator {
    open spec fn key_view(&self) -> Seq<char> {
        self.token@
    }

    fn key(&self) -> (r: &str) {
        self.token.as_str()
    }
}

/// One compared candidate with its facet breakdown and differentiators.
#[derive(Debug)]
pub struct Candidate {
    pub source: RepositorySource,
    pub revision: RevisionId,
    pub stars: Option<u64>,
    pub discovery_evidence_id: EvidenceId,
    pub overall_similarity_bp: Option<u32>,
    pub confidence_bp: u32,
    pub selection_reasons: Vec<String>,
    pub facet_similarities: Vec<FacetSimilarity>,
    pub seed_only: Vec<Differentiator>,
    pub candidate_only: Vec<Differentiator>,
    pub evidence_ids: Vec<EvidenceId>,
}

/// The evidence a compared candidate cites: its discovery, and the seed's
/// evidence when the seed has tokens the candidate lacks.
pub open spec fn candidate_evidence(seed_ids: Seq<EvidenceId>, discovery: Seq<char>, cites_seed: bool) -> Set<
    Seq<char>,
> {
    if cites_seed {
        keys_of(seed_ids).to_set().insert(discovery)
    } else {
        Set::empty().insert(discovery)
    }
}

/// `c` is the comparison of candidate `d` with `seed` under `policy`: every
/// canonical facet of the seed's mode is enumerated in text order.
pub open spec fn compared(
    seed: &SeedProject,
    d: &CandidateDescriptor,
    policy: ComparisonPolicy,
    c: &Candidate,
) -> bool {
    let mode = seed.profile.mode;
    let sf = seed.profile.facets@;
    let cf = d.facets@;
    let ns = ordered_facet_names(mode);
    let seed_set = canonical_tokens(mode, sf);
    let cand_set = canonical_tokens(mode, cf);
    &&& c.source.view() == d.source.view()
    &&& c.revision.view() == d.revision.view()
    &&& c.stars == d.stars
    &&& c.discovery_evidence_id.view() == d.discovery_evidence_id.view()
    &&& c.overall_similarity_bp == overall_similarity_of(policy, sf, cf, ns)
    &&& c.confidence_bp == confidence_of(sf, cf, ns)
    &&& keys_of(c.selection_reasons@) == reasons_in(sf, cf, ns)
    &&& c.facet_similarities@.len() == ns.len()
    &&& forall|i: int|
        0 <= i < ns.len() ==> (#[trigger] c.facet_similarities@[i]).facet@ == ns[i]
            && c.facet_similarities@[i].similarity_bp == facet_similarity(sf, cf, ns[i])
    &&& keys_of(c.seed_only@) == sorted_texts(seed_set.difference(cand_set))
    &&& forall|i: int|
        0 <= i < c.seed_only@.len() ==> keys_of((#[trigger] c.seed_only@[i]).evidence_ids@)
            == keys_of(seed.profile.evidence_ids@)
    &&& keys_of(c.candidate_only@) == sorted_texts(cand_set.difference(seed_set))
    &&& forall|i: int|
        0 <= i < c.candidate_only@.len() ==> keys_of(
            (#[trigger] c.candidate_only@[i]).evidence_ids@,
        ) == seq![d.discovery_evidence_id.view()]
    &&& keys_of(c.evidence_ids@) == sorted_texts(
        candidate_evidence(
            seed.profile.evidence_ids@,
            d.discovery_evidence_id.view(),
            c.seed_only@.len() > 0,
        ),
    )
}

/// A copy of a list of evidence identifiers.
fn copy_ids(ids: &Vec<EvidenceId>) -> (r: Vec<EvidenceId>)
    ensures
        keys_of(r@) == keys_of(ids@),
{
    let mut r: Vec<EvidenceId> = Vec::new();
    let mut i: usize = 0;
    while i < ids.len()
        invariant
            i <= ids@.len(),
            keys_of(r@) == keys_of(ids@.subrange(0, i as int)),
        decreases ids.len() - i,
    {
        let ghost prev = r@;
        let id = ids[i].copy();
        r.push(id);
        assert(keys_of(r@) =~= keys_of(prev).push(id.view()));
        assert(keys_of(ids@.subrange(0, i + 1)) =~= keys_of(ids@.subrange(0, i as int)).push(
            ids@[i as int].view(),
        ));
        i = i + 1;
    }
    assert(ids@.subrange(0, ids@.len() as int) =~= ids@);
    r
}

/// One differentiator per token, each citing `ids`.
fn differentiators_with(tokens: &Vec<String>, ids: &Vec<EvidenceId>) -> (r: Vec<Differentiator>)
    ensures
        keys_of(r@) == keys_of(tokens@),
        forall|i: int| 0 <= i < r@.len() ==> keys_of((#[trigger] r@[i]).evidence_ids@) == keys_of(ids@),
{
    let mut r: Vec<Differentiator> = Vec::new();
    let mut i: usize = 0;
    while i < tokens.len()
        invariant
            i <= tokens@.len(),
            keys_of(r@) == keys_of(tokens@.subrange(0, i as int)),
            forall|k: int| 0 <= k < r@.len() ==> keys_of((#[trigger] r@[k]).evidence_ids@) == keys_of(ids@),
        decreases tokens.len() - i,
    {
        let ghost prev = r@;
        let d = Differentiator { token: owned(tokens[i].as_str()), evidence_ids: copy_ids(ids) };
        r.push(d);
        assert(keys_of(r@) =~= keys_of(prev).push(d.token@));
        assert(keys_of(tokens@.subrange(0, i + 1)) =~= keys_of(tokens@.subrange(0, i as int)).push(
            tokens@[i as int]@,
        ));
        assert forall|k: int| 0 <= k < r@.len() implies keys_of((#[trigger] r@[k]).evidence_ids@) == keys_of(ids@) by {
            if k < prev.len() {
                assert(r@[k] == prev[k]);
            }
        }
        i = i + 1;
    }
    assert(tokens@.subrange(0, tokens@.len() as int) =~= tokens@);
    r
}

proof fn lemma_total_steps(
    policy: ComparisonPolicy,
    sf: Seq<Facet>,
    cf: Seq<Facet>,
    ns: Seq<Seq<char>>,
    i: int,
)
    requires
        0 <= i < ns.len(),
    ensures
        ({
            let pre = ns.subrange(0, i);
            let post = ns.subrange(0, i + 1);
            let sim = facet_similarity(sf, cf, ns[i]);
            let w = facet_weight_of(policy, ns[i]) as int;
            &&& weight_total(policy, sf, cf, post) == weight_total(policy, sf, cf, pre) + if sim is Some {
                w
            } else {
                0
            }
            &&& value_total(policy, sf, cf, post) == value_total(policy, sf, cf, pre) + match sim {
                Some(bp) => w * bp,
                None => 0,
            }
            &&& available_count(sf, cf, post) == available_count(sf, cf, pre) + if sim is Some {
                1int
            } else {
                0
            }
            &&& reasons_in(sf, cf, post) == match sim {
                Some(bp) => if bp > 0 {
                    reasons_in(sf, cf, pre).push(ns[i])
                } else {
                    reasons_in(sf, cf, pre)
                },
                None => reasons_in(sf, cf, pre),
            }
        }),
{
    let post = ns.subrange(0, i + 1);
    assert(post.drop_last() =~= ns.subrange(0, i));
    assert(post.last() == ns[i]);
}

/// Compares one candidate with the seed over the seed mode's canonical facets.
fn compare_candidate(seed: &SeedProject, d: &CandidateDescriptor, policy: &ComparisonPolicy) -> (c:
    Candidate)
    requires
        seed.profile.wf(),
        d.wf(),
    ensures
        compared(seed, d, *policy, &c),
{
    let mode = seed.profile.mode;
    let names = mode.ordered_facets();
    let ghost ns = ordered_facet_names(mode);
    let ghost sf = seed.profile.facets@;
    let ghost cf = d.facets@;
    let mut sims: Vec<FacetSimilarity> = Vec::new();
    let mut reasons: Vec<String> = Vec::new();
    let mut weight_sum: u64 = 0;
    let mut value_sum: u64 = 0;
    let mut available: u64 = 0;
    let mut i: usize = 0;
    assert(ns.len() <= 5);
    assert(names@.len() == ns.len());
    while i < names.len()
        invariant
            names@.map_values(|s: &str| s@) == ns,
            ns == ordered_facet_names(mode),
            ns.len() <= 5,
            sf == seed.profile.facets@,
            cf == d.facets@,
            seed.profile.wf(),
            d.wf(),
            i <= names@.len(),
            weight_sum == weight_total(*policy, sf, cf, ns.subrange(0, i as int)),
            value_sum == value_total(*policy, sf, cf, ns.subrange(0, i as int)),
            available == available_count(sf, cf, ns.subrange(0, i as int)),
            keys_of(reasons@) == reasons_in(sf, cf, ns.subrange(0, i as int)),
            sims@.len() == i,
            forall|k: int|
                0 <= k < i ==> (#[trigger] sims@[k]).facet@ == ns[k] && sims@[k].similarity_bp
                    == facet_similarity(sf, cf, ns[k]),
            weight_sum <= 30 * i,
            value_sum <= 10000 * weight_sum,
            available <= i,
        decreases names.len() - i,
    {
        let name = names[i];
        assert(name@ == ns[i as int]);
        let sim: Option<u32> = match find_facet(&seed.profile.facets, name) {
            Some(a) => match find_facet(&d.facets, name) {
                Some(b) => {
                    proof {
                        let ja = choose|j: int| 0 <= j < sf.len() && sf[j] == *a;
                        assert(sf[ja].wf());
                        let jb = choose|j: int| 0 <= j < cf.len() && cf[j] == *b;
                        assert(cf[jb].wf());
                    }
                    Some(jaccard_basis_points(a, b))
                },
                None => None,
            },
            None => None,
        };
        assert(sim == facet_similarity(sf, cf, ns[i as int]));
        proof {
            lemma_total_steps(*policy, sf, cf, ns, i as int);
        }
        let ghost old_reasons = reasons@;
        let ghost old_sims = sims@;
        match sim {
            Some(bp) => {
                let w = policy.facet_weight(name) as u64;
                available = available + 1;
                assert((w * bp as u64) <= 30 * 10000) by (nonlinear_arith)
                    requires
                        w <= 30,
                        bp <= 10000,
                ;
                assert(w * bp <= 10000 * w) by (nonlinear_arith)
                    requires
                        bp <= 10000,
                ;
                weight_sum = weight_sum + w;
                value_sum = value_sum + w * (bp as u64);
                if bp > 0 {
                    reasons.push(owned(name));
                    assert(keys_of(reasons@) =~= keys_of(old_reasons).push(name@));
                }
            },
            None => {},
        }
        sims.push(FacetSimilarity { facet: owned(name), similarity_bp: sim });
        assert forall|k: int|
            0 <= k < i + 1 implies (#[trigger] sims@[k]).facet@ == ns[k] && sims@[k].similarity_bp
            == facet_similarity(sf, cf, ns[k]) by {
            if k < i {
                assert(sims@[k] == old_sims[k]);
            }
        }
        i = i + 1;
    }
    assert(ns.subrange(0, ns.len() as int) =~= ns);
    let overall: Option<u32> = if weight_sum > 0 {
        let q = value_sum / weight_sum;
        assert(q <= 10000) by (nonlinear_arith)
            requires
                q == value_sum as int / weight_sum as int,
                value_sum <= 10000 * weight_sum,
                weight_sum > 0,
        ;
        Some(q as u32)
    } else {
        None
    };
    let n = names.len() as u64;
    assert(n > 0) by {
        assert(ns.len() > 0);
    }
    let conf = (available * 10000) / n;
    assert(conf <= 10000) by (nonlinear_arith)
        requires
            conf == (available * 10000) as int / n as int,
            available <= n,
            n > 0,
    ;
    let seed_tokens = canonical_token_list(mode, &seed.profile.facets);
    let cand_tokens = canonical_token_list(mode, &d.facets);
    let seed_only_tokens = tokens_missing_from(&seed_tokens, &cand_tokens);
    let cand_only_tokens = tokens_missing_from(&cand_tokens, &seed_tokens);
    let seed_only = differentiators_with(&seed_only_tokens, &seed.profile.evidence_ids);
    let mut discovery_ids: Vec<EvidenceId> = Vec::new();
    discovery_ids.push(d.discovery_evidence_id.copy());
    assert(keys_of(discovery_ids@) =~= seq![d.discovery_evidence_id.view()]);
    let candidate_only = differentiators_with(&cand_only_tokens, &discovery_ids);
    let mut ids: Vec<EvidenceId> = copy_ids(&discovery_ids);
    let cites_seed = seed_only.len() > 0;
    if cites_seed {
        let more = copy_ids(&seed.profile.evidence_ids);
        let ghost a = keys_of(ids@);
        let ghost b = keys_of(more@);
        let mut more = more;
        ids.append(&mut more);
        proof {
            assert(keys_of(ids@) =~= a + b);
            assert forall|x: Seq<char>| (a + b).to_set().contains(x) <==> keys_of(
                seed.profile.evidence_ids@,
            ).to_set().insert(d.discovery_evidence_id.view()).contains(x) by {
                if (a + b).contains(x) {
                    let j = choose|j: int| 0 <= j < (a + b).len() && (a + b)[j] == x;
                    if j >= 1 {
                        assert(b[j - 1] == x);
                    }
                }
                if b.contains(x) {
                    let j = choose|j: int| 0 <= j < b.len() && b[j] == x;
                    assert((a + b)[j + 1] == x);
                }
                if x == d.discovery_evidence_id.view() {
                    assert((a + b)[0] == x);
                }
            }
            assert((a + b).to_set() =~= candidate_evidence(
                seed.profile.evidence_ids@,
                d.discovery_evidence_id.view(),
                true,
            ));
        }
    } else {
        proof {
            assert(keys_of(ids@).to_set() =~= candidate_evidence(
                seed.profile.evidence_ids@,
                d.discovery_evidence_id.view(),
                false,
            )) by {
                assert(keys_of(ids@) =~= seq![d.discovery_evidence_id.view()]);
                assert(keys_of(ids@)[0] == d.discovery_evidence_id.view());
            }
        }
    }
    let evidence_ids = sorted_unique(ids);
    proof {
        lemma_sorted_texts(keys_of(seed_only_tokens@));
        lemma_sorted_texts(keys_of(cand_only_tokens@));
        lemma_sorted_texts(keys_of(evidence_ids@));
    }
    Candidate {
        source: d.source.copy(),
        revision: d.revision.copy(),
        stars: d.stars,
        discovery_evidence_id: d.discovery_evidence_id.copy(),
        overall_similarity_bp: overall,
        confidence_bp: conf as u32,
        selection_reasons: reasons,
        facet_similarities: sims,
        seed_only,
        candidate_only,
        evidence_ids,
    }
}


/// The canonical `provider/namespace/repository` identifier of a source, or
/// `local/<id>` for a local one.
pub open spec fn source_identifier(v: SourceView) -> Seq<char> {
    match v {
        SourceView::Hosted(p, n, r) => p + "/"@ + n + "/"@ + r,
        SourceView::Local(id) => "local/"@ + id,
    }
}

/// Builds the identifier of a source.
pub fn source_identifier_text(source: &RepositorySource) -> (r: String)
    ensures
        r@ == source_identifier(source.view()),
{
    match source.hosted_locator() {
        Some((p, n, q)) => {
            let mut s = owned(p);
            push_text(&mut s, "/");
            push_text(&mut s, n);
            push_text(&mut s, "/");
            push_text(&mut s, q);
            s
        },
        None => {
            match source.local_repository_id() {
                Some(id) => {
                    let mut s = owned("local/");
                    push_text(&mut s, id.as_str());
                    s
                },
                None => {
                    proof {
                        assert(false);
                    }
                    String::new()
                },
            }
        },
    }
}

/// The overall similarity as an ordering key; an absent similarity sorts last.
pub open spec fn similarity_key(bp: Option<u32>) -> int {
    match bp {
        Some(v) => v as int,
        None => -1,
    }
}

/// The star count as an ordering key; no stars count as zero.
pub open spec fn stars_key(stars: Option<u64>) -> int {
    match stars {
        Some(v) => v as int,
        None => 0,
    }
}

impl Candidate {
    /// Returns the canonical `provider/namespace/repository` identifier.
    pub fn identifier(&self) -> (r: String)
        ensures
            r@ == source_identifier(self.source.view()),
    {
        source_identifier_text(&self.source)
    }

    /// Returns the overall similarity in basis points, when compared.
    pub fn overall_similarity_bp(&self) -> (r: Option<u32>)
        ensures
            r == self.overall_similarity_bp,
    {
        self.overall_similarity_bp
    }
}

impl Ranked for Candidate {
    /// Higher similarity first, then more stars, then identifier order.
    open spec fn rank_before(&self, other: &Self) -> bool {
        let (oa, ob) = (similarity_key(self.overall_similarity_bp), similarity_key(other.overall_similarity_bp));
        let (sa, sb) = (stars_key(self.stars), stars_key(other.stars));
        oa > ob || (oa == ob && (sa > sb || (sa == sb && text_lt(
            source_identifier(self.source.view()),
            source_identifier(other.source.view()),
        ))))
    }

    proof fn lemma_rank_irreflexive(a: Self) {
        lemma_text_lt_irreflexive(source_identifier(a.source.view()));
    }

    proof fn lemma_rank_transitive(a: Self, b: Self, c: Self) {
        let (x, y, z) = (
            source_identifier(a.source.view()),
            source_identifier(b.source.view()),
            source_identifier(c.source.view()),
        );
        if text_lt(x, y) && text_lt(y, z) {
            lemma_text_lt_transitive(x, y, z);
        }
    }

    proof fn lemma_rank_tied(a: Self, b: Self, c: Self) {
        lemma_text_lt_total(source_identifier(a.source.view()), source_identifier(b.source.view()));
    }

    fn goes_before(&self, other: &Self) -> (r: bool) {
        let oa: i64 = match self.overall_similarity_bp {
            Some(v) => v as i64,
            None => -1,
        };
        let ob: i64 = match other.overall_similarity_bp {
            Some(v) => v as i64,
            None => -1,
        };
        if oa != ob {
            return oa > ob;
        }
        let sa: u64 = match self.stars {
            Some(v) => v,
            None => 0,
        };
        let sb: u64 = match other.stars {
            Some(v) => v,
            None => 0,
        };
        if sa != sb {
            return sa > sb;
        }
        let ia = self.identifier();
        let ib = other.identifier();
        match compare_text(ia.as_str(), ib.as_str()) {
            TextOrder::Less => true,
            _ => false,
        }
    }
}

/// A candidate that could not be compared, by reason code, citing its
/// discovery evidence.
#[derive(Debug)]
pub struct Limitation {
    pub code: String,
    pub evidence_id: EvidenceId,
}

impl Ranked for Limitation {
    /// Code order, then evidence order.
    open spec fn rank_before(&self, other: &Self) -> bool {
        text_lt(self.code@, other.code@) || (self.code@ == other.code@ && text_lt(
            self.evidence_id.view(),
            other.evidence_id.view(),
        ))
    }

    proof fn lemma_rank_irreflexive(a: Self) {
        lemma_text_lt_irreflexive(a.code@);
        lemma_text_lt_irreflexive(a.evidence_id.view());
    }

    proof fn lemma_rank_transitive(a: Self, b: Self, c: Self) {
        if text_lt(a.code@, b.code@) && text_lt(b.code@, c.code@) {
            lemma_text_lt_transitive(a.code@, b.code@, c.code@);
        }
        let (x, y, z) = (a.evidence_id.view(), b.evidence_id.view(), c.evidence_id.view());
        if text_lt(x, y) && text_lt(y, z) {
            lemma_text_lt_transitive(x, y, z);
        }
    }

    proof fn lemma_rank_tied(a: Self, b: Self, c: Self) {
        lemma_text_lt_total(a.code@, b.code@);
        lemma_text_lt_total(a.evidence_id.view(), b.evidence_id.view());
    }

    fn goes_before(&self, other: &Self) -> (r: bool) {
        match compare_text(self.code.as_str(), other.code.as_str()) {
            TextOrder::Less => true,
            TextOrder::Greater => false,
            TextOrder::Equal => match compare_text(
                self.evidence_id.as_str(),
                other.evidence_id.as_str(),
            ) {
                TextOrder::Less => true,
                _ => false,
            },
        }
    }
}


/// The weight of one canonical facet in the overall similarity.
#[derive(Debug)]
pub struct FacetWeight {
    pub facet: String,
    pub weight: u32,
}

/// The compiled one-depth cohort comparison.
#[derive(Debug)]
pub struct CohortComparison {
    pub mode: CohortMode,
    pub status: EvidenceStatus,
    pub seed_source: RepositorySource,
    pub seed_revision: RevisionId,
    pub facet_weights: Vec<FacetWeight>,
    pub detailed: Vec<Candidate>,
    pub additional: Vec<Candidate>,
    pub evidence_ids: Vec<EvidenceId>,
    pub limitations: Vec<Limitation>,
}

impl CohortComparison {
    /// Returns the discovery depth guarantee; always one depth.
    pub fn search_depth(&self) -> (r: SearchDepth)
        ensures
            r == SearchDepth::OneDepth,
    {
        SearchDepth::OneDepth
    }

    /// Returns comparison availability; unavailable is never a zero similarity.
    pub fn status(&self) -> (r: EvidenceStatus)
        ensures
            r == self.status,
    {
        self.status
    }

    /// Returns the detailed candidates, at most the policy detail limit.
    pub fn detailed_candidates(&self) -> (r: &[Candidate])
        ensures
            r@ == self.detailed@,
    {
        self.detailed.as_slice()
    }

    /// Returns the compact additional candidates beyond the detail limit.
    pub fn additional_candidates(&self) -> (r: &[Candidate])
        ensures
            r@ == self.additional@,
    {
        self.additional.as_slice()
    }
}

/// Whether the seed's mode admits candidate `d`: a curated-list comparison
/// admits curated lists only.
pub open spec fn admitted(mode: CohortMode, d: CandidateDescriptor) -> bool {
    !(mode == CohortMode::CuratedList && !d.curated)
}

/// Whether candidate `d` is admitted, compares on at least one facet and
/// earns at least one selection reason.
pub open spec fn kept(seed: SeedProject, policy: ComparisonPolicy, d: CandidateDescriptor) -> bool {
    let ns = ordered_facet_names(seed.profile.mode);
    &&& admitted(seed.profile.mode, d)
    &&& overall_similarity_of(policy, seed.profile.facets@, d.facets@, ns) is Some
    &&& reasons_in(seed.profile.facets@, d.facets@, ns).len() > 0
}

/// The kept candidates, in search order.
pub open spec fn kept_descriptors(
    seed: SeedProject,
    policy: ComparisonPolicy,
    ds: Seq<CandidateDescriptor>,
) -> Seq<CandidateDescriptor>
    decreases ds.len(),
{
    if ds.len() == 0 {
        Seq::empty()
    } else if kept(seed, policy, ds.last()) {
        kept_descriptors(seed, policy, ds.drop_last()).push(ds.last())
    } else {
        kept_descriptors(seed, policy, ds.drop_last())
    }
}

/// The reason code and discovery evidence of every candidate not kept, in
/// search order.
pub open spec fn limitation_entries(
    seed: SeedProject,
    policy: ComparisonPolicy,
    ds: Seq<CandidateDescriptor>,
) -> Seq<(Seq<char>, Seq<char>)>
    decreases ds.len(),
{
    if ds.len() == 0 {
        Seq::empty()
    } else {
        let prev = limitation_entries(seed, policy, ds.drop_last());
        let d = ds.last();
        if !admitted(seed.profile.mode, d) {
            prev.push(("non_curated_candidate_excluded"@, d.discovery_evidence_id.view()))
        } else if !kept(seed, policy, d) {
            prev.push(("candidate_similarity_insufficient"@, d.discovery_evidence_id.view()))
        } else {
            prev
        }
    }
}

/// The discovery evidence of the first `n` candidates.
pub open spec fn discovery_ids_upto(ds: Seq<CandidateDescriptor>, n: int) -> Set<Seq<char>> {
    Set::new(
        |x: Seq<char>|
            exists|i: int| 0 <= i < n && #[trigger] ds[i].discovery_evidence_id.view() == x,
    )
}

/// The facet weights of a mode, one per canonical facet in text order.
pub open spec fn weights_match(policy: ComparisonPolicy, mode: CohortMode, ws: Seq<FacetWeight>) -> bool {
    let ns = ordered_facet_names(mode);
    &&& ws.len() == ns.len()
    &&& forall|i: int|
        0 <= i < ns.len() ==> (#[trigger] ws[i]).facet@ == ns[i] && ws[i].weight == facet_weight_of(
            policy,
            ns[i],
        )
}

/// `c` is the cohort comparison of `seed` against the search outcome `o`.
///
/// An unusable search stays explicit: its status is kept and nothing is
/// compared. Otherwise every admitted candidate is compared; those with an
/// overall similarity and at least one selection reason are ranked (higher
/// similarity, then more stars, then identifier; ties in search order) and
/// the first `detailed_limit` are detailed, the rest compact; every other
/// candidate becomes a limitation. The status is insufficient without a
/// detailed candidate, complete when the search was complete and nothing was
/// dropped, and partial otherwise.
pub open spec fn cohort_compared(
    seed: &SeedProject,
    o: &CandidateSearchOutcome,
    policy: ComparisonPolicy,
    c: &CohortComparison,
) -> bool {
    let ds = o.candidates@;
    let kept_ds = kept_descriptors(*seed, policy, ds);
    let entries = limitation_entries(*seed, policy, ds);
    &&& c.mode == seed.profile.mode
    &&& c.seed_source.view() == seed.source.view()
    &&& c.seed_revision.view() == seed.revision.view()
    &&& weights_match(policy, seed.profile.mode, c.facet_weights@)
    &&& if !o.status.spec_is_usable() {
        &&& c.status == o.status
        &&& c.detailed@.len() == 0
        &&& c.additional@.len() == 0
        &&& c.limitations@.len() == 0
        &&& keys_of(c.evidence_ids@) == keys_of(seed.profile.evidence_ids@)
    } else {
        &&& exists|input: Seq<Candidate>|
            #[trigger] stable_rank(input, c.detailed@ + c.additional@) && input.len() == kept_ds.len()
                && forall|i: int| 0 <= i < input.len() ==> compared(seed, &kept_ds[i], policy, &#[trigger] input[i])
        &&& c.detailed@.len() == if kept_ds.len() < policy.spec_detailed_limit() {
            kept_ds.len() as int
        } else {
            policy.spec_detailed_limit() as int
        }
        &&& exists|lims: Seq<Limitation>|
            #[trigger] stable_rank(lims, c.limitations@) && lims.len() == entries.len() && forall|i: int|
                0 <= i < lims.len() ==> (#[trigger] lims[i]).code@ == entries[i].0
                    && lims[i].evidence_id.view() == entries[i].1
        &&& c.status == if c.detailed@.len() == 0 {
            EvidenceStatus::Insufficient
        } else if o.status == EvidenceStatus::Complete && entries.len() == 0 {
            EvidenceStatus::Complete
        } else {
            EvidenceStatus::Partial
        }
        &&& keys_of(c.evidence_ids@).to_set() == keys_of(seed.profile.evidence_ids@).to_set().union(
            discovery_ids_upto(ds, ds.len() as int),
        )
    }
    &&& strictly_sorted(keys_of(c.evidence_ids@))
    &&& keys_of(seed.profile.evidence_ids@).to_set().subset_of(keys_of(c.evidence_ids@).to_set())
}

/// The weights of the mode's canonical facets, in text order.
fn facet_weights_for(mode: CohortMode, policy: &ComparisonPolicy) -> (r: Vec<FacetWeight>)
    ensures
        weights_match(*policy, mode, r@),
{
    let names = mode.ordered_facets();
    let ghost ns = ordered_facet_names(mode);
    let mut r: Vec<FacetWeight> = Vec::new();
    let mut i: usize = 0;
    while i < names.len()
        invariant
            names@.map_values(|s: &str| s@) == ns,
            ns == ordered_facet_names(mode),
            i <= names@.len(),
            r@.len() == i,
            forall|k: int|
                0 <= k < i ==> (#[trigger] r@[k]).facet@ == ns[k] && r@[k].weight == facet_weight_of(
                    *policy,
                    ns[k],
                ),
        decreases names.len() - i,
    {
        let name = names[i];
        assert(name@ == ns[i as int]);
        let ghost prev = r@;
        r.push(FacetWeight { facet: owned(name), weight: policy.facet_weight(name) });
        assert forall|k: int|
            0 <= k < i + 1 implies (#[trigger] r@[k]).facet@ == ns[k] && r@[k].weight == facet_weight_of(
            *policy,
            ns[k],
        ) by {
            if k < i {
                assert(r@[k] == prev[k]);
            }
        }
        i = i + 1;
    }
    r
}

/// Compares every candidate of one search outcome with the seed and ranks
/// the cohort.
pub fn compare_cohort(seed: &SeedProject, o: &CandidateSearchOutcome, policy: &ComparisonPolicy) -> (c:
    CohortComparison)
    requires
        seed.profile.wf(),
        o.wf(),
    ensures
        cohort_compared(seed, o, *policy, &c),
{
    let mode = seed.profile.mode;
    let facet_weights = facet_weights_for(mode, policy);
    if !o.status.is_usable() {
        return CohortComparison {
            mode,
            status: o.status,
            seed_source: seed.source.copy(),
            seed_revision: seed.revision.copy(),
            facet_weights,
            detailed: Vec::new(),
            additional: Vec::new(),
            evidence_ids: copy_ids(&seed.profile.evidence_ids),
            limitations: Vec::new(),
        };
    }
    let ghost ds = o.candidates@;
    let mut ranked: Vec<Candidate> = Vec::new();
    let mut lims: Vec<Limitation> = Vec::new();
    let mut i: usize = 0;
    while i < o.candidates.len()
        invariant
            ds == o.candidates@,
            seed.profile.wf(),
            o.wf(),
            mode == seed.profile.mode,
            i <= ds.len(),
            ranked@.len() == kept_descriptors(*seed, *policy, ds.subrange(0, i as int)).len(),
            forall|k: int|
                0 <= k < ranked@.len() ==> compared(
                    seed,
                    &kept_descriptors(*seed, *policy, ds.subrange(0, i as int))[k],
                    *policy,
                    &#[trigger] ranked@[k],
                ),
            lims@.len() == limitation_entries(*seed, *policy, ds.subrange(0, i as int)).len(),
            forall|k: int|
                0 <= k < lims@.len() ==> (#[trigger] lims@[k]).code@ == limitation_entries(
                    *seed,
                    *policy,
                    ds.subrange(0, i as int),
                )[k].0 && lims@[k].evidence_id.view() == limitation_entries(
                    *seed,
                    *policy,
                    ds.subrange(0, i as int),
                )[k].1,
        decreases o.candidates.len() - i,
    {
        let d = &o.candidates[i];
        let ghost pre = ds.subrange(0, i as int);
        let ghost post = ds.subrange(0, i + 1);
        let ghost kpre = kept_descriptors(*seed, *policy, pre);
        let ghost epre = limitation_entries(*seed, *policy, pre);
        let ghost old_ranked = ranked@;
        let ghost old_lims = lims@;
        proof {
            assert(post.drop_last() =~= pre);
            assert(post.last() == *d);
            assert(d.wf());
        }
        if mode == CohortMode::CuratedList && !d.curated {
            let l = Limitation {
                code: owned("non_curated_candidate_excluded"),
                evidence_id: d.discovery_evidence_id.copy(),
            };
            lims.push(l);
            proof {
                assert(!admitted(mode, *d));
                assert(kept_descriptors(*seed, *policy, post) == kpre);
                assert forall|k: int|
                    0 <= k < lims@.len() implies (#[trigger] lims@[k]).code@ == limitation_entries(
                    *seed,
                    *policy,
                    post,
                )[k].0 && lims@[k].evidence_id.view() == limitation_entries(*seed, *policy, post)[k].1 by {
                    if k < old_lims.len() {
                        assert(lims@[k] == old_lims[k]);
                    }
                }
            }
        } else {
            let cand = compare_candidate(seed, d, policy);
            proof {
                assert(admitted(mode, *d));
                assert(keys_of(cand.selection_reasons@).len() == cand.selection_reasons@.len());
            }
            if cand.overall_similarity_bp.is_none() || cand.selection_reasons.len() == 0 {
                let l = Limitation {
                    code: owned("candidate_similarity_insufficient"),
                    evidence_id: d.discovery_evidence_id.copy(),
                };
                lims.push(l);
                proof {
                    assert(!kept(*seed, *policy, *d));
                    assert(kept_descriptors(*seed, *policy, post) == kpre);
                    assert forall|k: int|
                        0 <= k < lims@.len() implies (#[trigger] lims@[k]).code@ == limitation_entries(
                        *seed,
                        *policy,
                        post,
                    )[k].0 && lims@[k].evidence_id.view() == limitation_entries(*seed, *policy, post)[k].1 by {
                        if k < old_lims.len() {
                            assert(lims@[k] == old_lims[k]);
                        }
                    }
                }
            } else {
                ranked.push(cand);
                proof {
                    assert(kept(*seed, *policy, *d));
                    assert(kept_descriptors(*seed, *policy, post) == kpre.push(*d));
                    assert(limitation_entries(*seed, *policy, post) == epre);
                    assert forall|k: int|
                        0 <= k < ranked@.len() implies compared(
                        seed,
                        &kept_descriptors(*seed, *policy, post)[k],
                        *policy,
                        &#[trigger] ranked@[k],
                    ) by {
                        if k < old_ranked.len() {
                            assert(ranked@[k] == old_ranked[k]);
                        }
                    }
                }
            }
        }
        i = i + 1;
    }
    let ghost kept_all = kept_descriptors(*seed, *policy, ds);
    let ghost entries = limitation_entries(*seed, *policy, ds);
    assert(ds.subrange(0, ds.len() as int) =~= ds);
    let dropped = lims.len() > 0;
    let ghost input = ranked@;
    let mut ordered = rank_stably(ranked);
    let limit = policy.detailed_limit();
    let split = if ordered.len() < limit {
        ordered.len()
    } else {
        limit
    };
    let ghost all = ordered@;
    let additional = ordered.split_off(split);
    let detailed = ordered;
    assert(detailed@ + additional@ =~= all);
    let status = if detailed.len() == 0 {
        EvidenceStatus::Insufficient
    } else if o.status == EvidenceStatus::Complete && !dropped {
        EvidenceStatus::Complete
    } else {
        EvidenceStatus::Partial
    };
    let ghost lim_input = lims@;
    let limitations = rank_stably(lims);
    let mut ids = copy_ids(&seed.profile.evidence_ids);
    let ghost seed_ids = keys_of(seed.profile.evidence_ids@).to_set();
    let mut j: usize = 0;
    proof {
        assert(seed_ids.union(discovery_ids_upto(ds, 0)) =~= seed_ids);
    }
    while j < o.candidates.len()
        invariant
            ds == o.candidates@,
            j <= ds.len(),
            seed_ids == keys_of(seed.profile.evidence_ids@).to_set(),
            keys_of(ids@).to_set() == seed_ids.union(discovery_ids_upto(ds, j as int)),
        decreases o.candidates.len() - j,
    {
        let ghost prev = keys_of(ids@);
        let x = o.candidates[j].discovery_evidence_id.copy();
        ids.push(x);
        proof {
            assert(keys_of(ids@) =~= prev.push(x.view()));
            lemma_push_to_set(prev, x.view());
            assert forall|y: Seq<char>| discovery_ids_upto(ds, j + 1).contains(y) <==> discovery_ids_upto(
                ds,
                j as int,
            ).insert(x.view()).contains(y) by {
                if discovery_ids_upto(ds, j + 1).contains(y) {
                    let q = choose|q: int| 0 <= q < j + 1 && #[trigger] ds[q].discovery_evidence_id.view() == y;
                    if q < j {
                        assert(discovery_ids_upto(ds, j as int).contains(y));
                    }
                }
                if discovery_ids_upto(ds, j as int).contains(y) {
                    let q = choose|q: int| 0 <= q < j && #[trigger] ds[q].discovery_evidence_id.view() == y;
                    assert(ds[q].discovery_evidence_id.view() == y);
                }
                if y == x.view() {
                    assert(ds[j as int].discovery_evidence_id.view() == y);
                }
            }
            assert(keys_of(ids@).to_set() =~= seed_ids.union(discovery_ids_upto(ds, j + 1)));
        }
        j = j + 1;
    }
    let evidence_ids = sorted_unique(ids);
    proof {
        assert(stable_rank(input, detailed@ + additional@));
        assert(stable_rank(lim_input, limitations@));
        assert(input.len() == kept_all.len());
        assert(forall|k: int| 0 <= k < input.len() ==> compared(seed, &kept_all[k], *policy, &#[trigger] input[k]));
        assert(lim_input.len() == entries.len());
        assert(forall|k: int|
            0 <= k < lim_input.len() ==> (#[trigger] lim_input[k]).code@ == entries[k].0
                && lim_input[k].evidence_id.view() == entries[k].1);
        assert(dropped == (entries.len() > 0));
        assert(detailed@.len() == if kept_all.len() < policy.spec_detailed_limit() {
            kept_all.len() as int
        } else {
            policy.spec_detailed_limit() as int
        });
    }
    let c = CohortComparison {
        mode,
        status,
        seed_source: seed.source.copy(),
        seed_revision: seed.revision.copy(),
        facet_weights,
        detailed,
        additional,
        evidence_ids,
        limitations,
    };
    proof {
        assert(stable_rank(input, c.detailed@ + c.additional@));
        assert(stable_rank(lim_input, c.limitations@));
        assert(exists|inp: Seq<Candidate>|
            #[trigger] stable_rank(inp, c.detailed@ + c.additional@) && inp.len() == kept_all.len()
                && forall|k: int| 0 <= k < inp.len() ==> compared(seed, &kept_all[k], *policy, &#[trigger] inp[k]));
        assert(exists|ls: Seq<Limitation>|
            #[trigger] stable_rank(ls, c.limitations@) && ls.len() == entries.len() && forall|k: int|
                0 <= k < ls.len() ==> (#[trigger] ls[k]).code@ == entries[k].0
                    && ls[k].evidence_id.view() == entries[k].1);
        assert(keys_of(c.evidence_ids@).to_set() == keys_of(seed.profile.evidence_ids@).to_set().union(
            discovery_ids_upto(ds, ds.len() as int),
        ));
        assert(weights_match(*policy, seed.profile.mode, c.facet_weights@));
    }
    c
}

/// Discovers and compares a one-depth cohort for one seed project.
///
/// The search port is invoked exactly once, with the query derived from the
/// seed; discovered candidates are compared but never searched again. A
/// failed search, or one whose result does not hold validated candidates,
/// fails the discovery.
pub fn discover_cohort<S: CandidateSearch>(seed: &SeedProject, search: &S, policy: &ComparisonPolicy) -> (r:
    Result<CohortComparison, ComparisonError>)
    requires
        seed.profile.wf(),
    ensures
        r matches Err(e) ==> e.kind == ComparisonErrorKind::SearchFailed,
        r matches Ok(c) ==> exists|o: CandidateSearchOutcome| #[trigger]
            cohort_compared(seed, &o, *policy, &c) && o.wf(),
{
    let query = seed.query();
    let answer = search.search(&query);
    cohort_from_search(seed, answer, policy)
}

/// The cohort that one search answer gives: a failed search, or an outcome
/// that is not well formed, fails with `SearchFailed`; a well-formed outcome
/// is compared with the seed.
pub fn cohort_from_search(
    seed: &SeedProject,
    answer: Result<CandidateSearchOutcome, CandidateSearchError>,
    policy: &ComparisonPolicy,
) -> (r: Result<CohortComparison, ComparisonError>)
    requires
        seed.profile.wf(),
    ensures
        match answer {
            Err(_) => r matches Err(e) && e.kind == ComparisonErrorKind::SearchFailed,
            Ok(o) => if o.wf() {
                r matches Ok(c) && cohort_compared(seed, &o, *policy, &c)
            } else {
                r matches Err(e) && e.kind == ComparisonErrorKind::SearchFailed
            },
        },
{
    match answer {
        Err(_) => Err(ComparisonError::new(ComparisonErrorKind::SearchFailed)),
        Ok(o) => {
            if !o.is_well_formed() {
                return Err(ComparisonError::new(ComparisonErrorKind::SearchFailed));
            }
            let c = compare_cohort(seed, &o, policy);
            Ok(c)
        },
    }
}


proof fn lemma_kept_descriptors_kept(seed: SeedProject, policy: ComparisonPolicy, ds: Seq<CandidateDescriptor>)
    ensures
        forall|i: int|
            0 <= i < kept_descriptors(seed, policy, ds).len() ==> #[trigger] kept(
                seed,
                policy,
                kept_descriptors(seed, policy, ds)[i],
            ),
    decreases ds.len(),
{
    if ds.len() > 0 {
        lemma_kept_descriptors_kept(seed, policy, ds.drop_last());
        let prev = kept_descriptors(seed, policy, ds.drop_last());
        let all = kept_descriptors(seed, policy, ds);
        assert forall|i: int| 0 <= i < all.len() implies #[trigger] kept(seed, policy, all[i]) by {
            if i < prev.len() {
                assert(all[i] == prev[i]);
            }
        }
    }
}

/// Every detailed or additional candidate of a cohort has an overall
/// similarity and at least one selection reason: a candidate sharing no
/// positive facet is reported as a limitation, never as a zero-similarity
/// entry.
pub proof fn law_ranked_candidates_have_reasons(
    seed: SeedProject,
    o: CandidateSearchOutcome,
    policy: ComparisonPolicy,
    c: CohortComparison,
)
    requires
        cohort_compared(&seed, &o, policy, &c),
    ensures
        forall|i: int|
            0 <= i < (c.detailed@ + c.additional@).len() ==> (#[trigger] (c.detailed@
                + c.additional@)[i]).overall_similarity_bp is Some && (c.detailed@
                + c.additional@)[i].selection_reasons@.len() > 0,
{
    let all = c.detailed@ + c.additional@;
    if o.status.spec_is_usable() {
        let ds = o.candidates@;
        let kept_ds = kept_descriptors(seed, policy, ds);
        lemma_kept_descriptors_kept(seed, policy, ds);
        let input = choose|input: Seq<Candidate>|
            #[trigger] stable_rank(input, all) && input.len() == kept_ds.len() && forall|i: int|
                0 <= i < input.len() ==> compared(&seed, &kept_ds[i], policy, &#[trigger] input[i]);
        let perm = choose|perm: Seq<int>| #[trigger]
            crate::ranking::index_permutation(perm, input.len() as int) && all.len() == input.len()
                && (forall|i: int| 0 <= i < all.len() ==> all[i] == input[#[trigger] perm[i]])
                && (forall|i: int, j: int|
                0 <= i < j < all.len() ==> crate::ranking::ranked_pair(
                    #[trigger] all[i],
                    perm[i],
                    #[trigger] all[j],
                    perm[j],
                ));
        assert forall|i: int| 0 <= i < all.len() implies (#[trigger] all[i]).overall_similarity_bp is Some
            && all[i].selection_reasons@.len() > 0 by {
            let k = perm[i];
            assert(all[i] == input[k]);
            assert(compared(&seed, &kept_ds[k], policy, &input[k]));
            assert(kept(seed, policy, kept_ds[k]));
            assert(keys_of(input[k].selection_reasons@).len() == input[k].selection_reasons@.len());
        }
    }
}

/// Popularity never changes similarity: two candidates declaring the same
/// facets compare with the same facet similarities, overall similarity and
/// confidence, whatever their star counts.
pub proof fn law_popularity_never_changes_similarity(
    seed: SeedProject,
    a: CandidateDescriptor,
    b: CandidateDescriptor,
    policy: ComparisonPolicy,
    ca: Candidate,
    cb: Candidate,
)
    requires
        compared(&seed, &a, policy, &ca),
        compared(&seed, &b, policy, &cb),
        a.facets@ == b.facets@,
    ensures
        ca.overall_similarity_bp == cb.overall_similarity_bp,
        ca.confidence_bp == cb.confidence_bp,
        keys_of(ca.selection_reasons@) == keys_of(cb.selection_reasons@),
        forall|i: int|
            0 <= i < ca.facet_similarities@.len() ==> (#[trigger] ca.facet_similarities@[i]).similarity_bp
                == cb.facet_similarities@[i].similarity_bp,
{
}

/// Two search answers for the same candidate that differ at most in its star
/// count.
pub open spec fn differ_only_in_stars(a: CandidateDescriptor, b: CandidateDescriptor) -> bool {
    &&& a.source.view() == b.source.view()
    &&& a.revision.view() == b.revision.view()
    &&& a.curated == b.curated
    &&& a.facets@ == b.facets@
    &&& a.discovery_evidence_id.view() == b.discovery_evidence_id.view()
}

/// Two search outcomes with the same status and the same candidates in the
/// same order, differing at most in star counts.
pub open spec fn outcomes_differ_only_in_stars(a: CandidateSearchOutcome, b: CandidateSearchOutcome) -> bool {
    &&& a.status == b.status
    &&& a.candidates@.len() == b.candidates@.len()
    &&& forall|i: int|
        0 <= i < a.candidates@.len() ==> differ_only_in_stars(
            #[trigger] a.candidates@[i],
            b.candidates@[i],
        )
}

/// Two compared candidates name the same repository with the same overall
/// similarity, confidence and per-facet similarities.
pub open spec fn same_scores(a: Candidate, b: Candidate) -> bool {
    &&& a.source.view() == b.source.view()
    &&& a.overall_similarity_bp == b.overall_similarity_bp
    &&& a.confidence_bp == b.confidence_bp
    &&& a.facet_similarities@.len() == b.facet_similarities@.len()
    &&& forall|i: int|
        0 <= i < a.facet_similarities@.len() ==> (#[trigger] a.facet_similarities@[i]).facet@
            == b.facet_similarities@[i].facet@ && a.facet_similarities@[i].similarity_bp
            == b.facet_similarities@[i].similarity_bp
}

/// Some candidate of `s` has the same repository and scores as `a`.
pub open spec fn scored_alike_in(a: Candidate, s: Seq<Candidate>) -> bool {
    exists|k: int| 0 <= k < s.len() && #[trigger] same_scores(a, s[k])
}

/// Pairing search answers by a relation under which admission, keeping and
/// discovery evidence agree pairs the kept answers the same way and sets the
/// same answers aside for the same reasons.
proof fn lemma_alike_candidates_keep_alike(
    seed: SeedProject,
    policy: ComparisonPolicy,
    alike: spec_fn(CandidateDescriptor, CandidateDescriptor) -> bool,
    d1: Seq<CandidateDescriptor>,
    d2: Seq<CandidateDescriptor>,
)
    requires
        d1.len() == d2.len(),
        forall|i: int| 0 <= i < d1.len() ==> #[trigger] alike(d1[i], d2[i]),
        forall|a: CandidateDescriptor, b: CandidateDescriptor|
            #[trigger] alike(a, b) ==> admitted(seed.profile.mode, a) == admitted(seed.profile.mode, b)
                && kept(seed, policy, a) == kept(seed, policy, b) && a.discovery_evidence_id.view()
                == b.discovery_evidence_id.view(),
    ensures
        kept_descriptors(seed, policy, d1).len() == kept_descriptors(seed, policy, d2).len(),
        forall|i: int|
            0 <= i < kept_descriptors(seed, policy, d1).len() ==> #[trigger] alike(
                kept_descriptors(seed, policy, d1)[i],
                kept_descriptors(seed, policy, d2)[i],
            ),
        limitation_entries(seed, policy, d1) == limitation_entries(seed, policy, d2),
        discovery_ids_upto(d1, d1.len() as int) == discovery_ids_upto(d2, d2.len() as int),
    decreases d1.len(),
{
    if d1.len() > 0 {
        let p1 = d1.drop_last();
        let p2 = d2.drop_last();
        assert forall|i: int| 0 <= i < p1.len() implies #[trigger] alike(p1[i], p2[i]) by {
            assert(alike(d1[i], d2[i]));
        }
        lemma_alike_candidates_keep_alike(seed, policy, alike, p1, p2);
        assert(alike(d1[d1.len() - 1], d2[d2.len() - 1]));
        let k1 = kept_descriptors(seed, policy, d1);
        let k2 = kept_descriptors(seed, policy, d2);
        let q1 = kept_descriptors(seed, policy, p1);
        let q2 = kept_descriptors(seed, policy, p2);
        assert forall|i: int| 0 <= i < k1.len() implies #[trigger] alike(k1[i], k2[i]) by {
            if i < q1.len() {
                assert(alike(q1[i], q2[i]));
            }
        }
    }
    assert(discovery_ids_upto(d1, d1.len() as int) =~= discovery_ids_upto(d2, d2.len() as int)) by {
        assert forall|x: Seq<char>| discovery_ids_upto(d1, d1.len() as int).contains(x) implies discovery_ids_upto(
            d2,
            d2.len() as int,
        ).contains(x) by {
            let q = choose|q: int| 0 <= q < d1.len() && #[trigger] d1[q].discovery_evidence_id.view() == x;
            assert(alike(d1[q], d2[q]));
            assert(d2[q].discovery_evidence_id.view() == x);
        }
        assert forall|x: Seq<char>| discovery_ids_upto(d2, d2.len() as int).contains(x) implies discovery_ids_upto(
            d1,
            d1.len() as int,
        ).contains(x) by {
            let q = choose|q: int| 0 <= q < d2.len() && #[trigger] d2[q].discovery_evidence_id.view() == x;
            assert(alike(d1[q], d2[q]));
            assert(d1[q].discovery_evidence_id.view() == x);
        }
    }
}

/// Star counts decide nothing about which candidates are kept or why the
/// others are set aside.
proof fn lemma_stars_keep_the_same_candidates(
    seed: SeedProject,
    policy: ComparisonPolicy,
    d1: Seq<CandidateDescriptor>,
    d2: Seq<CandidateDescriptor>,
)
    requires
        d1.len() == d2.len(),
        forall|i: int| 0 <= i < d1.len() ==> differ_only_in_stars(#[trigger] d1[i], d2[i]),
    ensures
        kept_descriptors(seed, policy, d1).len() == kept_descriptors(seed, policy, d2).len(),
        forall|i: int|
            0 <= i < kept_descriptors(seed, policy, d1).len() ==> differ_only_in_stars(
                #[trigger] kept_descriptors(seed, policy, d1)[i],
                kept_descriptors(seed, policy, d2)[i],
            ),
        limitation_entries(seed, policy, d1) == limitation_entries(seed, policy, d2),
        discovery_ids_upto(d1, d1.len() as int) == discovery_ids_upto(d2, d2.len() as int),
{
    let alike = |a: CandidateDescriptor, b: CandidateDescriptor| differ_only_in_stars(a, b);
    assert forall|i: int| 0 <= i < d1.len() implies #[trigger] alike(d1[i], d2[i]) by {
        assert(differ_only_in_stars(d1[i], d2[i]));
    }
    lemma_alike_candidates_keep_alike(seed, policy, alike, d1, d2);
    let k1 = kept_descriptors(seed, policy, d1);
    let k2 = kept_descriptors(seed, policy, d2);
    assert forall|i: int| 0 <= i < k1.len() implies differ_only_in_stars(#[trigger] k1[i], k2[i]) by {
        assert(alike(k1[i], k2[i]));
    }
}

/// Each candidate ranked in the first comparison is ranked in the second
/// with the same scores, when the outcomes differ only in star counts.
proof fn lemma_ranked_candidates_match(
    seed: SeedProject,
    policy: ComparisonPolicy,
    o1: CandidateSearchOutcome,
    o2: CandidateSearchOutcome,
    c1: CohortComparison,
    c2: CohortComparison,
)
    requires
        cohort_compared(&seed, &o1, policy, &c1),
        cohort_compared(&seed, &o2, policy, &c2),
        outcomes_differ_only_in_stars(o1, o2),
    ensures
        forall|j: int|
            0 <= j < (c1.detailed@ + c1.additional@).len() ==> scored_alike_in(
                #[trigger] (c1.detailed@ + c1.additional@)[j],
                c2.detailed@ + c2.additional@,
            ),
{
    let r1 = c1.detailed@ + c1.additional@;
    let r2 = c2.detailed@ + c2.additional@;
    if o1.status.spec_is_usable() {
        let ds1 = o1.candidates@;
        let ds2 = o2.candidates@;
        lemma_stars_keep_the_same_candidates(seed, policy, ds1, ds2);
        let k1 = kept_descriptors(seed, policy, ds1);
        let k2 = kept_descriptors(seed, policy, ds2);
        let in1 = choose|input: Seq<Candidate>|
            #[trigger] stable_rank(input, r1) && input.len() == k1.len() && forall|i: int|
                0 <= i < input.len() ==> compared(&seed, &k1[i], policy, &#[trigger] input[i]);
        let in2 = choose|input: Seq<Candidate>|
            #[trigger] stable_rank(input, r2) && input.len() == k2.len() && forall|i: int|
                0 <= i < input.len() ==> compared(&seed, &k2[i], policy, &#[trigger] input[i]);
        lemma_stable_rank_members(in1, r1);
        lemma_stable_rank_members(in2, r2);
        assert forall|j: int| 0 <= j < r1.len() implies scored_alike_in(#[trigger] r1[j], r2) by {
            assert(in1.contains(r1[j]));
            let p = choose|p: int| 0 <= p < in1.len() && in1[p] == r1[j];
            assert(compared(&seed, &k1[p], policy, &in1[p]));
            assert(compared(&seed, &k2[p], policy, &in2[p]));
            assert(differ_only_in_stars(k1[p], k2[p]));
            assert(same_scores(in1[p], in2[p]));
            assert(r2.contains(in2[p]));
            let k = choose|k: int| 0 <= k < r2.len() && r2[k] == in2[p];
            assert(same_scores(r1[j], r2[k]));
        }
    }
}

/// Star counts only order candidates. Two comparisons of one seed under one
/// policy, over search outcomes that differ only in their candidates' star
/// counts, have the same status, evidence and number of detailed, additional
/// and set-aside candidates, and every candidate ranked in one is ranked in
/// the other with the same similarities and confidence.
pub proof fn law_stars_only_reorder_candidates(
    seed: SeedProject,
    policy: ComparisonPolicy,
    o1: CandidateSearchOutcome,
    o2: CandidateSearchOutcome,
    c1: CohortComparison,
    c2: CohortComparison,
)
    requires
        cohort_compared(&seed, &o1, policy, &c1),
        cohort_compared(&seed, &o2, policy, &c2),
        outcomes_differ_only_in_stars(o1, o2),
    ensures
        c1.status == c2.status,
        keys_of(c1.evidence_ids@) == keys_of(c2.evidence_ids@),
        c1.detailed@.len() == c2.detailed@.len(),
        c1.additional@.len() == c2.additional@.len(),
        c1.limitations@.len() == c2.limitations@.len(),
        forall|j: int|
            0 <= j < (c1.detailed@ + c1.additional@).len() ==> scored_alike_in(
                #[trigger] (c1.detailed@ + c1.additional@)[j],
                c2.detailed@ + c2.additional@,
            ),
        forall|k: int|
            0 <= k < (c2.detailed@ + c2.additional@).len() ==> scored_alike_in(
                #[trigger] (c2.detailed@ + c2.additional@)[k],
                c1.detailed@ + c1.additional@,
            ),
{
    let ds1 = o1.candidates@;
    let ds2 = o2.candidates@;
    lemma_stars_keep_the_same_candidates(seed, policy, ds1, ds2);
    assert(outcomes_differ_only_in_stars(o2, o1)) by {
        assert forall|i: int| 0 <= i < o2.candidates@.len() implies differ_only_in_stars(
            #[trigger] o2.candidates@[i],
            o1.candidates@[i],
        ) by {
            assert(differ_only_in_stars(o1.candidates@[i], o2.candidates@[i]));
        }
    }
    lemma_ranked_candidates_match(seed, policy, o1, o2, c1, c2);
    lemma_ranked_candidates_match(seed, policy, o2, o1, c2, c1);
    crate::sorted::lemma_strictly_sorted_unique(keys_of(c1.evidence_ids@), keys_of(c2.evidence_ids@));
    if o1.status.spec_is_usable() {
        let r1 = c1.detailed@ + c1.additional@;
        let r2 = c2.detailed@ + c2.additional@;
        let k1 = kept_descriptors(seed, policy, ds1);
        let k2 = kept_descriptors(seed, policy, ds2);
        let in1 = choose|input: Seq<Candidate>|
            #[trigger] stable_rank(input, r1) && input.len() == k1.len() && forall|i: int|
                0 <= i < input.len() ==> compared(&seed, &k1[i], policy, &#[trigger] input[i]);
        let in2 = choose|input: Seq<Candidate>|
            #[trigger] stable_rank(input, r2) && input.len() == k2.len() && forall|i: int|
                0 <= i < input.len() ==> compared(&seed, &k2[i], policy, &#[trigger] input[i]);
        lemma_stable_rank_members(in1, r1);
        lemma_stable_rank_members(in2, r2);
        let e = limitation_entries(seed, policy, ds1);
        let l1 = choose|lims: Seq<Limitation>|
            #[trigger] stable_rank(lims, c1.limitations@) && lims.len() == e.len() && forall|i: int|
                0 <= i < lims.len() ==> (#[trigger] lims[i]).code@ == e[i].0
                    && lims[i].evidence_id.view() == e[i].1;
        let l2 = choose|lims: Seq<Limitation>|
            #[trigger] stable_rank(lims, c2.limitations@) && lims.len() == e.len() && forall|i: int|
                0 <= i < lims.len() ==> (#[trigger] lims[i]).code@ == e[i].0
                    && lims[i].evidence_id.view() == e[i].1;
        lemma_stable_rank_members(l1, c1.limitations@);
        lemma_stable_rank_members(l2, c2.limitations@);
    }
}

/// One seed, one policy and one search outcome give one cohort: two
/// comparisons of them have the same status and evidence, and rank the same
/// candidates with the same scores.
pub proof fn law_comparison_is_determined_by_its_outcome(
    seed: SeedProject,
    policy: ComparisonPolicy,
    o: CandidateSearchOutcome,
    c1: CohortComparison,
    c2: CohortComparison,
)
    requires
        cohort_compared(&seed, &o, policy, &c1),
        cohort_compared(&seed, &o, policy, &c2),
    ensures
        c1.status == c2.status,
        keys_of(c1.evidence_ids@) == keys_of(c2.evidence_ids@),
        c1.detailed@.len() == c2.detailed@.len(),
        c1.additional@.len() == c2.additional@.len(),
        c1.limitations@.len() == c2.limitations@.len(),
        forall|j: int|
            0 <= j < (c1.detailed@ + c1.additional@).len() ==> scored_alike_in(
                #[trigger] (c1.detailed@ + c1.additional@)[j],
                c2.detailed@ + c2.additional@,
            ),
{
    assert(outcomes_differ_only_in_stars(o, o));
    law_stars_only_reorder_candidates(seed, policy, o, o, c1, c2);
}

/// The reason code a candidate that is not kept is set aside with.
pub open spec fn set_aside_code(mode: CohortMode, d: CandidateDescriptor) -> Seq<char> {
    if !admitted(mode, d) {
        "non_curated_candidate_excluded"@
    } else {
        "candidate_similarity_insufficient"@
    }
}

/// `c` is the ranked form of the search answer `d`.
pub open spec fn ranks_candidate(c: Candidate, d: CandidateDescriptor) -> bool {
    &&& c.source.view() == d.source.view()
    &&& c.discovery_evidence_id.view() == d.discovery_evidence_id.view()
}

/// Some candidate of `r` is the ranked form of `d`.
pub open spec fn ranked_in(d: CandidateDescriptor, r: Seq<Candidate>) -> bool {
    exists|j: int| 0 <= j < r.len() && #[trigger] ranks_candidate(r[j], d)
}

/// Some limitation of `ls` sets `d` aside with its reason code and discovery
/// evidence.
pub open spec fn set_aside_in(mode: CohortMode, d: CandidateDescriptor, ls: Seq<Limitation>) -> bool {
    exists|j: int|
        0 <= j < ls.len() && (#[trigger] ls[j]).code@ == set_aside_code(mode, d)
            && ls[j].evidence_id.view() == d.discovery_evidence_id.view()
}

/// Every candidate of a search is either kept or set aside, never both.
proof fn lemma_candidates_kept_or_set_aside(seed: SeedProject, policy: ComparisonPolicy, ds: Seq<CandidateDescriptor>)
    ensures
        kept_descriptors(seed, policy, ds).len() + limitation_entries(seed, policy, ds).len() == ds.len(),
        forall|i: int|
            0 <= i < ds.len() && kept(seed, policy, ds[i]) ==> kept_descriptors(seed, policy, ds).contains(
                #[trigger] ds[i],
            ),
        forall|i: int|
            0 <= i < ds.len() && !kept(seed, policy, ds[i]) ==> limitation_entries(seed, policy, ds).contains(
                (set_aside_code(seed.profile.mode, #[trigger] ds[i]), ds[i].discovery_evidence_id.view()),
            ),
    decreases ds.len(),
{
    if ds.len() > 0 {
        let p = ds.drop_last();
        lemma_candidates_kept_or_set_aside(seed, policy, p);
        let kp = kept_descriptors(seed, policy, p);
        let ep = limitation_entries(seed, policy, p);
        let k = kept_descriptors(seed, policy, ds);
        let e = limitation_entries(seed, policy, ds);
        let n = ds.len() - 1;
        assert forall|i: int| 0 <= i < ds.len() && kept(seed, policy, ds[i]) implies k.contains(
            #[trigger] ds[i],
        ) by {
            if i < n {
                assert(p[i] == ds[i]);
                assert(kp.contains(p[i]));
                let q = choose|q: int| 0 <= q < kp.len() && kp[q] == p[i];
                assert(k[q] == kp[q]);
            } else {
                assert(k[k.len() - 1] == ds[i]);
            }
        }
        assert forall|i: int| 0 <= i < ds.len() && !kept(seed, policy, ds[i]) implies e.contains(
            (set_aside_code(seed.profile.mode, #[trigger] ds[i]), ds[i].discovery_evidence_id.view()),
        ) by {
            let t = (set_aside_code(seed.profile.mode, ds[i]), ds[i].discovery_evidence_id.view());
            if i < n {
                assert(p[i] == ds[i]);
                assert(ep.contains(t));
                let q = choose|q: int| 0 <= q < ep.len() && ep[q] == t;
                assert(e[q] == ep[q]);
            } else {
                assert(e[e.len() - 1] == t);
            }
        }
    }
}

/// Every candidate of a usable search is placed once: it is ranked, as a
/// detailed or additional candidate naming its repository and discovery
/// evidence, when it is admitted and shares enough with the seed, and is
/// otherwise set aside as a limitation with its reason code and discovery
/// evidence; ranked candidates and limitations together number exactly the
/// search's candidates.
pub proof fn law_every_candidate_is_placed_once(
    seed: SeedProject,
    o: CandidateSearchOutcome,
    policy: ComparisonPolicy,
    c: CohortComparison,
)
    requires
        cohort_compared(&seed, &o, policy, &c),
        o.status.spec_is_usable(),
    ensures
        (c.detailed@ + c.additional@).len() + c.limitations@.len() == o.candidates@.len(),
        forall|i: int|
            0 <= i < o.candidates@.len() && kept(seed, policy, o.candidates@[i]) ==> ranked_in(
                #[trigger] o.candidates@[i],
                c.detailed@ + c.additional@,
            ),
        forall|i: int|
            0 <= i < o.candidates@.len() && !kept(seed, policy, o.candidates@[i]) ==> set_aside_in(
                seed.profile.mode,
                #[trigger] o.candidates@[i],
                c.limitations@,
            ),
{
    let ds = o.candidates@;
    let r = c.detailed@ + c.additional@;
    let kd = kept_descriptors(seed, policy, ds);
    let e = limitation_entries(seed, policy, ds);
    lemma_candidates_kept_or_set_aside(seed, policy, ds);
    let input = choose|input: Seq<Candidate>|
        #[trigger] stable_rank(input, r) && input.len() == kd.len() && forall|i: int|
            0 <= i < input.len() ==> compared(&seed, &kd[i], policy, &#[trigger] input[i]);
    let lims = choose|lims: Seq<Limitation>|
        #[trigger] stable_rank(lims, c.limitations@) && lims.len() == e.len() && forall|i: int|
            0 <= i < lims.len() ==> (#[trigger] lims[i]).code@ == e[i].0 && lims[i].evidence_id.view() == e[i].1;
    lemma_stable_rank_members(input, r);
    lemma_stable_rank_members(lims, c.limitations@);
    assert forall|i: int| 0 <= i < ds.len() && kept(seed, policy, ds[i]) implies ranked_in(#[trigger] ds[i], r) by {
        assert(kd.contains(ds[i]));
        let q = choose|q: int| 0 <= q < kd.len() && kd[q] == ds[i];
        assert(compared(&seed, &kd[q], policy, &input[q]));
        assert(r.contains(input[q]));
        let j = choose|j: int| 0 <= j < r.len() && r[j] == input[q];
        assert(ranks_candidate(r[j], ds[i]));
    }
    assert forall|i: int| 0 <= i < ds.len() && !kept(seed, policy, ds[i]) implies set_aside_in(
        seed.profile.mode,
        #[trigger] ds[i],
        c.limitations@,
    ) by {
        let t = (set_aside_code(seed.profile.mode, ds[i]), ds[i].discovery_evidence_id.view());
        assert(e.contains(t));
        let q = choose|q: int| 0 <= q < e.len() && e[q] == t;
        assert(lims[q].code@ == e[q].0);
        assert(c.limitations@.contains(lims[q]));
        let j = choose|j: int| 0 <= j < c.limitations@.len() && c.limitations@[j] == lims[q];
        assert(c.limitations@[j].code@ == set_aside_code(seed.profile.mode, ds[i]));
    }
}

/// Two answers for the same candidate that differ at most in facets outside
/// the mode's canonical set: each canonical facet declares the same tokens on
/// both sides, or is absent from both.
pub open spec fn differ_only_in_custom_facets(
    mode: CohortMode,
    a: CandidateDescriptor,
    b: CandidateDescriptor,
) -> bool {
    &&& a.source.view() == b.source.view()
    &&& a.revision.view() == b.revision.view()
    &&& a.curated == b.curated
    &&& a.stars == b.stars
    &&& a.discovery_evidence_id.view() == b.discovery_evidence_id.view()
    &&& forall|n: Seq<char>|
        canonical_facet_names(mode).contains(n) ==> #[trigger] tokens_of(a.facets@, n) == tokens_of(b.facets@, n)
}

/// Two search outcomes with the same status and the same candidates in the
/// same order, differing at most in facets outside the mode's canonical set.
pub open spec fn outcomes_differ_only_in_custom_facets(
    mode: CohortMode,
    a: CandidateSearchOutcome,
    b: CandidateSearchOutcome,
) -> bool {
    &&& a.status == b.status
    &&& a.candidates@.len() == b.candidates@.len()
    &&& forall|i: int|
        0 <= i < a.candidates@.len() ==> differ_only_in_custom_facets(
            mode,
            #[trigger] a.candidates@[i],
            b.candidates@[i],
        )
}

/// The totals over the facets `ns` depend only on the tokens each side
/// declares for those facets.
proof fn lemma_named_facets_decide_the_totals(
    policy: ComparisonPolicy,
    sf: Seq<Facet>,
    c1: Seq<Facet>,
    c2: Seq<Facet>,
    ns: Seq<Seq<char>>,
)
    requires
        forall|i: int| 0 <= i < ns.len() ==> tokens_of(c1, #[trigger] ns[i]) == tokens_of(c2, ns[i]),
    ensures
        weight_total(policy, sf, c1, ns) == weight_total(policy, sf, c2, ns),
        value_total(policy, sf, c1, ns) == value_total(policy, sf, c2, ns),
        available_count(sf, c1, ns) == available_count(sf, c2, ns),
        reasons_in(sf, c1, ns) == reasons_in(sf, c2, ns),
    decreases ns.len(),
{
    if ns.len() > 0 {
        let p = ns.drop_last();
        assert forall|i: int| 0 <= i < p.len() implies tokens_of(c1, #[trigger] p[i]) == tokens_of(c2, p[i]) by {
            assert(p[i] == ns[i]);
        }
        lemma_named_facets_decide_the_totals(policy, sf, c1, c2, p);
        assert(tokens_of(c1, ns[ns.len() - 1]) == tokens_of(c2, ns[ns.len() - 1]));
    }
}

/// Every canonical token of `f1` is a canonical token of `f2` when the two
/// declare the same tokens for every canonical facet.
proof fn lemma_canonical_tokens_included(mode: CohortMode, f1: Seq<Facet>, f2: Seq<Facet>)
    requires
        facets_wf(f1),
        forall|n: Seq<char>|
            canonical_facet_names(mode).contains(n) ==> #[trigger] tokens_of(f1, n) == tokens_of(f2, n),
    ensures
        canonical_tokens(mode, f1).subset_of(canonical_tokens(mode, f2)),
{
    assert forall|t: Seq<char>| canonical_tokens(mode, f1).contains(t) implies canonical_tokens(mode, f2).contains(
        t,
    ) by {
        let k = choose|k: int| 0 <= k < f1.len() && #[trigger] declares_token(mode, f1[k], t);
        let n = f1[k].name@;
        assert(f1[k].name@ == n);
        assert forall|q: int| 0 <= q < f1.len() && #[trigger] f1[q].name@ == n implies q == k by {
            lemma_sorted_key_position(f1, q, k);
        }
        assert(tokens_of(f1, n) == Some(f1[k].token_set()));
        assert(tokens_of(f2, n) == Some(f1[k].token_set()));
        assert(exists|j: int| 0 <= j < f2.len() && #[trigger] f2[j].name@ == n && f2[j].token_set() == f1[k].token_set());
        let j = choose|j: int| 0 <= j < f2.len() && #[trigger] f2[j].name@ == n && f2[j].token_set() == f1[k].token_set();
        assert(declares_token(mode, f2[j], t));
    }
}

/// Answers that differ only in custom facets stand alike: admitted and kept
/// together, and compared into the same candidate.
proof fn lemma_custom_facets_compare_alike(
    seed: SeedProject,
    policy: ComparisonPolicy,
    d1: CandidateDescriptor,
    d2: CandidateDescriptor,
)
    requires
        d1.wf(),
        d2.wf(),
        differ_only_in_custom_facets(seed.profile.mode, d1, d2),
    ensures
        admitted(seed.profile.mode, d1) == admitted(seed.profile.mode, d2),
        kept(seed, policy, d1) == kept(seed, policy, d2),
        forall|c: Candidate| #[trigger] compared(&seed, &d1, policy, &c) ==> compared(&seed, &d2, policy, &c),
{
    let mode = seed.profile.mode;
    let ns = ordered_facet_names(mode);
    let sf = seed.profile.facets@;
    let cf1 = d1.facets@;
    let cf2 = d2.facets@;
    crate::comparison::law_enumerated_facets_are_the_canonical_set(mode);
    assert forall|i: int| 0 <= i < ns.len() implies tokens_of(cf1, #[trigger] ns[i]) == tokens_of(cf2, ns[i]) by {
        assert(ns.to_set().contains(ns[i]));
        assert(canonical_facet_names(mode).to_set().contains(ns[i]));
        assert(canonical_facet_names(mode).contains(ns[i]));
    }
    lemma_named_facets_decide_the_totals(policy, sf, cf1, cf2, ns);
    assert forall|n: Seq<char>| canonical_facet_names(mode).contains(n) implies #[trigger] tokens_of(cf2, n)
        == tokens_of(cf1, n) by {
        assert(tokens_of(cf1, n) == tokens_of(cf2, n));
    }
    lemma_canonical_tokens_included(mode, cf1, cf2);
    lemma_canonical_tokens_included(mode, cf2, cf1);
    assert(canonical_tokens(mode, cf1) =~= canonical_tokens(mode, cf2));
    assert forall|c: Candidate| #[trigger] compared(&seed, &d1, policy, &c) implies compared(&seed, &d2, policy, &c) by {
        assert forall|i: int| 0 <= i < ns.len() implies (#[trigger] c.facet_similarities@[i]).facet@ == ns[i]
            && c.facet_similarities@[i].similarity_bp == facet_similarity(sf, cf2, ns[i]) by {
            assert(tokens_of(cf1, ns[i]) == tokens_of(cf2, ns[i]));
        }
    }
}

/// A comparison of one outcome is a comparison of any outcome that differs
/// from it only in custom facets.
proof fn lemma_custom_facet_comparison_carries_over(
    seed: SeedProject,
    policy: ComparisonPolicy,
    o1: CandidateSearchOutcome,
    o2: CandidateSearchOutcome,
    c: CohortComparison,
)
    requires
        o1.wf(),
        o2.wf(),
        outcomes_differ_only_in_custom_facets(seed.profile.mode, o1, o2),
        cohort_compared(&seed, &o1, policy, &c),
    ensures
        cohort_compared(&seed, &o2, policy, &c),
{
    if o1.status.spec_is_usable() {
        let mode = seed.profile.mode;
        let ds1 = o1.candidates@;
        let ds2 = o2.candidates@;
        let alike = |a: CandidateDescriptor, b: CandidateDescriptor|
            differ_only_in_custom_facets(mode, a, b) && a.wf() && b.wf();
        assert forall|a: CandidateDescriptor, b: CandidateDescriptor| #[trigger] alike(a, b) implies admitted(mode, a)
            == admitted(mode, b) && kept(seed, policy, a) == kept(seed, policy, b)
            && a.discovery_evidence_id.view() == b.discovery_evidence_id.view() by {
            lemma_custom_facets_compare_alike(seed, policy, a, b);
        }
        assert forall|i: int| 0 <= i < ds1.len() implies #[trigger] alike(ds1[i], ds2[i]) by {
            assert(differ_only_in_custom_facets(mode, ds1[i], ds2[i]));
            assert(ds1[i].wf());
            assert(ds2[i].wf());
        }
        lemma_alike_candidates_keep_alike(seed, policy, alike, ds1, ds2);
        let k1 = kept_descriptors(seed, policy, ds1);
        let k2 = kept_descriptors(seed, policy, ds2);
        let r = c.detailed@ + c.additional@;
        let input = choose|input: Seq<Candidate>|
            #[trigger] stable_rank(input, r) && input.len() == k1.len() && forall|i: int|
                0 <= i < input.len() ==> compared(&seed, &k1[i], policy, &#[trigger] input[i]);
        assert forall|i: int| 0 <= i < input.len() implies compared(&seed, &k2[i], policy, &#[trigger] input[i]) by {
            assert(alike(k1[i], k2[i]));
            lemma_custom_facets_compare_alike(seed, policy, k1[i], k2[i]);
            assert(compared(&seed, &k1[i], policy, &input[i]));
        }
        assert(stable_rank(input, r) && input.len() == k2.len());
    }
}

/// Facets outside the mode's canonical set never change a comparison: a
/// cohort is the comparison of one search outcome exactly when it is the
/// comparison of any outcome that differs from it only in such facets, so
/// custom facet names and tokens never reach a compared cohort.
pub proof fn law_custom_facets_never_change_a_comparison(
    seed: SeedProject,
    policy: ComparisonPolicy,
    o1: CandidateSearchOutcome,
    o2: CandidateSearchOutcome,
    c: CohortComparison,
)
    requires
        o1.wf(),
        o2.wf(),
        outcomes_differ_only_in_custom_facets(seed.profile.mode, o1, o2),
    ensures
        cohort_compared(&seed, &o1, policy, &c) <==> cohort_compared(&seed, &o2, policy, &c),
{
    let mode = seed.profile.mode;
    assert(outcomes_differ_only_in_custom_facets(mode, o2, o1)) by {
        assert forall|i: int| 0 <= i < o2.candidates@.len() implies differ_only_in_custom_facets(
            mode,
            #[trigger] o2.candidates@[i],
            o1.candidates@[i],
        ) by {
            let a = o1.candidates@[i];
            let b = o2.candidates@[i];
            assert(differ_only_in_custom_facets(mode, a, b));
            assert forall|n: Seq<char>| canonical_facet_names(mode).contains(n) implies #[trigger] tokens_of(
                b.facets@,
                n,
            ) == tokens_of(a.facets@, n) by {
                assert(tokens_of(a.facets@, n) == tokens_of(b.facets@, n));
            }
        }
    }
    if cohort_compared(&seed, &o1, policy, &c) {
        lemma_custom_facet_comparison_carries_over(seed, policy, o1, o2, c);
    }
    if cohort_compared(&seed, &o2, policy, &c) {
        lemma_custom_facet_comparison_carries_over(seed, policy, o2, o1, c);
    }
}

/// Two identical non-empty token sets are fully similar.
pub proof fn law_identical_tokens_are_fully_similar(a: Set<Seq<char>>)
    requires
        a.finite(),
        a.len() > 0,
    ensures
        jaccard_bp(a, a) == 10000,
{
    assert(a.union(a) =~= a);
    assert(a.intersect(a) =~= a);
    let n = a.len() as int;
    assert((n * 10000) / n == 10000) by (nonlinear_arith)
        requires
            n > 0,
    ;
}

/// Similarity never exceeds one: shared tokens are at most all tokens.
pub proof fn law_similarity_at_most_one(a: Set<Seq<char>>, b: Set<Seq<char>>)
    requires
        a.finite(),
        b.finite(),
    ensures
        0 <= jaccard_bp(a, b) <= 10000,
{
    vstd::set_lib::lemma_set_intersect_union_lens(a, b);
    vstd::set_lib::lemma_len_intersect(a, b);
    vstd::set_lib::lemma_len_intersect(b, a);
    assert(b.intersect(a) =~= a.intersect(b));
    let i = a.intersect(b).len() as int;
    let u = a.union(b).len() as int;
    if u > 0 {
        assert(i <= u);
        assert((i * 10000) / u <= 10000) by (nonlinear_arith)
            requires
                0 <= i <= u,
                u > 0,
        ;
        assert(0 <= (i * 10000) / u) by (nonlinear_arith)
            requires
                0 <= i,
                u > 0,
        ;
    }
}

/// Similarity does not depend on which side is the seed.
pub proof fn law_similarity_is_symmetric(a: Set<Seq<char>>, b: Set<Seq<char>>)
    ensures
        jaccard_bp(a, b) == jaccard_bp(b, a),
{
    assert(a.union(b) =~= b.union(a));
    assert(a.intersect(b) =~= b.intersect(a));
}

/// Two finite token sets are fully similar exactly when they are the same
/// non-empty set.
pub proof fn law_full_similarity_means_equal_sets(a: Set<Seq<char>>, b: Set<Seq<char>>)
    requires
        a.finite(),
        b.finite(),
    ensures
        jaccard_bp(a, b) == 10000 <==> (a == b && a.len() > 0),
{
    vstd::set_lib::lemma_set_intersect_union_lens(a, b);
    vstd::set_lib::lemma_len_union(a, b);
    let s = a.intersect(b);
    let u = a.union(b);
    vstd::set_lib::lemma_len_subset(s, u);
    if a == b && a.len() > 0 {
        law_identical_tokens_are_fully_similar(a);
    }
    if jaccard_bp(a, b) == 10000 {
        let i = s.len() as int;
        let n = u.len() as int;
        assert(n > 0);
        assert(i >= n) by (nonlinear_arith)
            requires
                (i * 10000) / n == 10000,
                n > 0,
                0 <= i,
        ;
        vstd::set_lib::lemma_subset_equality(s, u);
        assert(a =~= b) by {
            assert forall|x: Seq<char>| a.contains(x) implies b.contains(x) by {
                assert(u.contains(x));
            }
            assert forall|x: Seq<char>| b.contains(x) implies a.contains(x) by {
                assert(u.contains(x));
            }
        }
        assert(a.union(a) =~= a);
    }
}

proof fn lemma_no_shared_facet_totals(
    policy: ComparisonPolicy,
    sf: Seq<Facet>,
    cf: Seq<Facet>,
    ns: Seq<Seq<char>>,
)
    requires
        forall|i: int| 0 <= i < ns.len() ==> facet_similarity(sf, cf, #[trigger] ns[i]) is None,
    ensures
        weight_total(policy, sf, cf, ns) == 0,
        available_count(sf, cf, ns) == 0,
    decreases ns.len(),
{
    if ns.len() > 0 {
        assert(facet_similarity(sf, cf, ns[ns.len() - 1]) is None);
        lemma_no_shared_facet_totals(policy, sf, cf, ns.drop_last());
    }
}

/// A candidate that shares no canonical facet with the seed has no overall
/// similarity and zero confidence: the comparison is unavailable, not zero.
pub proof fn law_no_shared_facet_is_unavailable(
    seed: SeedProject,
    d: CandidateDescriptor,
    policy: ComparisonPolicy,
    c: Candidate,
)
    requires
        compared(&seed, &d, policy, &c),
        forall|i: int|
            0 <= i < ordered_facet_names(seed.profile.mode).len() ==> facet_similarity(
                seed.profile.facets@,
                d.facets@,
                #[trigger] ordered_facet_names(seed.profile.mode)[i],
            ) is None,
    ensures
        c.overall_similarity_bp is None,
        c.confidence_bp == 0,
{
    let ns = ordered_facet_names(seed.profile.mode);
    lemma_no_shared_facet_totals(policy, seed.profile.facets@, d.facets@, ns);
}

} // verus!
