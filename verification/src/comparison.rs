//! Deterministic one-depth cohort discovery and comparison.
//!
//! A seed project's cited facet tokens seed exactly one candidate search. Each
//! discovered candidate is compared against the seed over the mode's closed
//! canonical facet set with integer arithmetic; a facet without tokens on
//! either side is explicitly unavailable, never zero. A detailed candidate
//! always carries at least one selection reason. Star counts only break
//! ordering ties. A discovered candidate carries no profile, so it can never
//! seed another search.
use vstd::prelude::*;

use crate::domain::{
    EvidenceId, EvidenceStatus, RepositorySource, RevisionId, SourceView,
};
use crate::sorted::{Keyed, insert_or_replace, is_strictly_sorted, insert_unique, keys_of, sorted_unique, strictly_sorted,
    lemma_push_to_set, lemma_keys_contains};
use crate::text::{TextOrder, compare_text, owned, push_text, text_eq, text_lt, utf8,
    lemma_text_lt_transitive, lemma_text_lt_irreflexive, lemma_text_lt_asymmetric,
    lemma_text_lt_total};

verus! {

/// The cohort a project is compared within.
#[derive(Clone, Copy, Debug, PartialEq, Eq, Structural)]
pub enum CohortMode {
    /// Projects that address a similar problem with a similar approach.
    FunctionalCohort,
    /// Curated lists compared as artifacts against other curated lists.
    CuratedList,
}

/// The closed canonical facet set of a mode, in specification order.
pub open spec fn canonical_facet_names(mode: CohortMode) -> Seq<Seq<char>> {
    match mode {
        CohortMode::FunctionalCohort => seq![
            "problem_overlap"@,
            "feature_overlap"@,
            "technical_similarity"@,
            "structural_similarity"@,
        ],
        CohortMode::CuratedList => seq![
            "entry_overlap"@,
            "list_structure"@,
            "unique_coverage"@,
            "editorial_quality"@,
            "maintenance_evidence"@,
        ],
    }
}

/// The canonical facet set of a mode in text order, the order every facet
/// listing is published in.
pub open spec fn ordered_facet_names(mode: CohortMode) -> Seq<Seq<char>> {
    match mode {
        CohortMode::FunctionalCohort => seq![
            "feature_overlap"@,
            "problem_overlap"@,
            "structural_similarity"@,
            "technical_similarity"@,
        ],
        CohortMode::CuratedList => seq![
            "editorial_quality"@,
            "entry_overlap"@,
            "list_structure"@,
            "maintenance_evidence"@,
            "unique_coverage"@,
        ],
    }
}

impl CohortMode {
    /// Returns the stable machine code of the mode.
    pub fn code(self) -> (r: &'static str)
        ensures
            r@ == (match self {
                CohortMode::FunctionalCohort => "functional_cohort"@,
                CohortMode::CuratedList => "curated_list"@,
            }),
    {
        match self {
            CohortMode::FunctionalCohort => "functional_cohort",
            CohortMode::CuratedList => "curated_list",
        }
    }

    /// Returns the closed canonical facet set every comparison must enumerate.
    pub fn canonical_facets(self) -> (r: Vec<&'static str>)
        ensures
            r@.map_values(|s: &str| s@) == canonical_facet_names(self),
    {
        let r = match self {
            CohortMode::FunctionalCohort => vec![
                "problem_overlap",
                "feature_overlap",
                "technical_similarity",
                "structural_similarity",
            ],
            CohortMode::CuratedList => vec![
                "entry_overlap",
                "list_structure",
                "unique_coverage",
                "editorial_quality",
                "maintenance_evidence",
            ],
        };
        assert(r@.map_values(|s: &str| s@) =~= canonical_facet_names(self));
        r
    }

    /// Returns the canonical facets in text order.
    pub fn ordered_facets(self) -> (r: Vec<&'static str>)
        ensures
            r@.map_values(|s: &str| s@) == ordered_facet_names(self),
    {
        let r = match self {
            CohortMode::FunctionalCohort => vec![
                "feature_overlap",
                "problem_overlap",
                "structural_similarity",
                "technical_similarity",
            ],
            CohortMode::CuratedList => vec![
                "editorial_quality",
                "entry_overlap",
                "list_structure",
                "maintenance_evidence",
                "unique_coverage",
            ],
        };
        assert(r@.map_values(|s: &str| s@) =~= ordered_facet_names(self));
        r
    }

    /// Whether `facet` is one of the mode's canonical facets.
    pub fn is_canonical(self, facet: &str) -> (r: bool)
        ensures
            r == canonical_facet_names(self).contains(facet@),
    {
        let names = self.canonical_facets();
        let mut i: usize = 0;
        while i < names.len()
            invariant
                names@.map_values(|s: &str| s@) == canonical_facet_names(self),
                i <= names@.len(),
                forall|j: int| 0 <= j < i ==> canonical_facet_names(self)[j] != facet@,
            decreases names.len() - i,
        {
            if text_eq(names[i], facet) {
                assert(canonical_facet_names(self)[i as int] == facet@);
                return true;
            }
            i = i + 1;
        }
        false
    }
}

/// The facets a comparison enumerates, in publication order, are the
/// canonical facets of its mode, and as many.
pub proof fn law_enumerated_facets_are_the_canonical_set(mode: CohortMode)
    ensures
        ordered_facet_names(mode).to_set() == canonical_facet_names(mode).to_set(),
        ordered_facet_names(mode).len() == canonical_facet_names(mode).len(),
{
    let a = ordered_facet_names(mode);
    let b = canonical_facet_names(mode);
    assert forall|x: Seq<char>| a.contains(x) <==> b.contains(x) by {
        if a.contains(x) {
            let i = choose|i: int| 0 <= i < a.len() && a[i] == x;
            match mode {
                CohortMode::FunctionalCohort => {
                    if i == 0 { assert(b[1] == x); } else if i == 1 { assert(b[0] == x); }
                    else if i == 2 { assert(b[3] == x); } else { assert(b[2] == x); }
                },
                CohortMode::CuratedList => {
                    if i == 0 { assert(b[3] == x); } else if i == 1 { assert(b[0] == x); }
                    else if i == 2 { assert(b[1] == x); } else if i == 3 { assert(b[4] == x); }
                    else { assert(b[2] == x); }
                },
            }
        }
        if b.contains(x) {
            let i = choose|i: int| 0 <= i < b.len() && b[i] == x;
            match mode {
                CohortMode::FunctionalCohort => {
                    if i == 0 { assert(a[1] == x); } else if i == 1 { assert(a[0] == x); }
                    else if i == 2 { assert(a[3] == x); } else { assert(a[2] == x); }
                },
                CohortMode::CuratedList => {
                    if i == 0 { assert(a[1] == x); } else if i == 1 { assert(a[2] == x); }
                    else if i == 2 { assert(a[4] == x); } else if i == 3 { assert(a[0] == x); }
                    else { assert(a[3] == x); }
                },
            }
        }
    }
    assert(a.to_set() =~= b.to_set());
}

/// The one-depth discovery guarantee recorded on every comparison.
#[derive(Clone, Copy, Debug, PartialEq, Eq, Structural)]
pub enum SearchDepth {
    /// Exactly one search was issued and no candidate seeded another.
    OneDepth,
}

impl SearchDepth {
    pub fn code(self) -> (r: &'static str)
        ensures
            r@ == "one_depth"@,
    {
        "one_depth"
    }
}

/// Stable, redacted comparison failure category.
#[derive(Clone, Copy, Debug, PartialEq, Eq, Structural)]
pub enum ComparisonErrorKind {
    InvalidFacet,
    NonCanonicalFacet,
    InvalidToken,
    EmptyProfile,
    CandidateNotHosted,
    UncitedCandidate,
    CandidatesWithoutUsableSearch,
    SearchFailed,
}

/// A redacted comparison failure that never echoes source or path material.
#[derive(Clone, Copy, Debug, PartialEq, Eq, Structural)]
pub struct ComparisonError {
    pub kind: ComparisonErrorKind,
}

impl ComparisonError {
    pub fn new(kind: ComparisonErrorKind) -> (r: ComparisonError)
        ensures
            r.kind == kind,
    {
        ComparisonError { kind }
    }

    /// Returns the stable non-sensitive failure category.
    pub fn kind(&self) -> (r: ComparisonErrorKind)
        ensures
            r == self.kind,
    {
        self.kind
    }
}

/// A canonical snake_case machine code: 1 to 64 bytes of lowercase letters,
/// digits and single underscores, starting with a letter and not ending with
/// an underscore.
pub open spec fn machine_code_bytes(b: Seq<u8>) -> bool {
    &&& 0 < b.len() <= 64
    &&& 97 <= b[0] <= 122
    &&& forall|i: int|
        0 <= i < b.len() ==> (97 <= #[trigger] b[i] <= 122) || (48 <= b[i] <= 57) || b[i] == 95
    &&& forall|i: int| 0 <= i < b.len() - 1 ==> !(#[trigger] b[i] == 95 && b[i + 1] == 95)
    &&& b[b.len() - 1] != 95
}

pub open spec fn machine_code(s: Seq<char>) -> bool {
    machine_code_bytes(utf8(s))
}

/// Checks the machine-code grammar.
pub fn is_machine_code(value: &str) -> (r: bool)
    ensures
        r == machine_code(value@),
{
    let b = value.as_bytes();
    if b.len() == 0 || b.len() > 64 || !(97 <= b[0] && b[0] <= 122) {
        return false;
    }
    let mut previous_separator = false;
    let mut i: usize = 0;
    while i < b.len()
        invariant
            b@ == utf8(value@),
            0 < b@.len() <= 64,
            i <= b@.len(),
            forall|j: int|
                0 <= j < i ==> (97 <= #[trigger] b@[j] <= 122) || (48 <= b@[j] <= 57) || b@[j] == 95,
            forall|j: int| 0 <= j < i - 1 ==> !(#[trigger] b@[j] == 95 && b@[j + 1] == 95),
            i > 0 ==> (previous_separator == (b@[i - 1] == 95)),
            i == 0 ==> !previous_separator,
        decreases b.len() - i,
    {
        let c = b[i];
        if c == 95 {
            if previous_separator {
                assert(b@[i - 1] == 95 && b@[i as int] == 95);
                return false;
            }
            previous_separator = true;
        } else if (97 <= c && c <= 122) || (48 <= c && c <= 57) {
            previous_separator = false;
        } else {
            return false;
        }
        i = i + 1;
    }
    !previous_separator
}

/// One named facet with its distinct tokens in text order.
#[derive(Debug)]
pub struct Facet {
    pub name: String,
    pub tokens: Vec<String>,
}

impl Keyed for Facet {
    open spec fn key_view(&self) -> Seq<char> {
        self.name@
    }

    fn key(&self) -> (r: &str) {
        self.name.as_str()
    }
}

impl Facet {
    /// The distinct tokens of the facet.
    pub open spec fn token_set(&self) -> Set<Seq<char>> {
        keys_of(self.tokens@).to_set()
    }

    pub open spec fn wf(&self) -> bool {
        &&& strictly_sorted(keys_of(self.tokens@))
        &&& self.tokens@.len() > 0
    }
}

/// Facets sorted by name, each well formed.
pub open spec fn facets_wf(facets: Seq<Facet>) -> bool {
    &&& strictly_sorted(keys_of(facets))
    &&& forall|i: int| 0 <= i < facets.len() ==> (#[trigger] facets[i]).wf()
}

/// The first validation failure of declared facet tokens, in declaration
/// order: an invalid facet name, then an invalid token of that facet.
pub open spec fn facet_error(list: Seq<(String, Vec<String>)>) -> Option<ComparisonErrorKind>
    decreases list.len(),
{
    if list.len() == 0 {
        None
    } else if !machine_code(list[0].0@) {
        Some(ComparisonErrorKind::InvalidFacet)
    } else if exists|j: int|
        0 <= j < list[0].1@.len() && !machine_code(#[trigger] list[0].1@[j]@) {
        Some(ComparisonErrorKind::InvalidToken)
    } else {
        facet_error(list.drop_first())
    }
}

/// The tokens that the last non-empty declaration of facet `name` carries.
pub open spec fn declared_tokens(list: Seq<(String, Vec<String>)>, name: Seq<char>) -> Option<
    Set<Seq<char>>,
>
    decreases list.len(),
{
    if list.len() == 0 {
        None
    } else if list.last().0@ == name && list.last().1@.len() > 0 {
        Some(keys_of(list.last().1@).to_set())
    } else {
        declared_tokens(list.drop_last(), name)
    }
}

proof fn lemma_facet_error_prefix(list: Seq<(String, Vec<String>)>, k: int)
    requires
        0 <= k < list.len(),
        facet_error(list.subrange(0, k)) is None,
    ensures
        facet_error(list.subrange(0, k + 1)) == (if !machine_code(list[k].0@) {
            Some(ComparisonErrorKind::InvalidFacet)
        } else if exists|j: int|
            0 <= j < list[k].1@.len() && !machine_code(#[trigger] list[k].1@[j]@) {
            Some(ComparisonErrorKind::InvalidToken)
        } else {
            None::<ComparisonErrorKind>
        }),
    decreases k,
{
    let p = list.subrange(0, k);
    let q = list.subrange(0, k + 1);
    if k == 0 {
        assert(q.drop_first() =~= Seq::<(String, Vec<String>)>::empty());
        assert(q[0] == list[0]);
        assert(facet_error(q.drop_first()) is None);
    } else {
        assert(q[0] == list[0]);
        assert(p[0] == list[0]);
        assert(machine_code(list[0].0@));
        assert(!(exists|j: int| 0 <= j < list[0].1@.len() && !machine_code(#[trigger] list[0].1@[j]@)));
        assert(facet_error(q) == facet_error(q.drop_first()));
        assert(p.drop_first() =~= list.drop_first().subrange(0, k - 1));
        assert(q.drop_first() =~= list.drop_first().subrange(0, k));
        assert(list.drop_first()[k - 1] == list[k]);
        lemma_facet_error_prefix(list.drop_first(), k - 1);
    }
}

proof fn lemma_facet_error_prefix_err(list: Seq<(String, Vec<String>)>, k: int)
    requires
        0 <= k <= list.len(),
        facet_error(list.subrange(0, k)) is Some,
    ensures
        facet_error(list) == facet_error(list.subrange(0, k)),
    decreases k,
{
    let p = list.subrange(0, k);
    if k > 0 {
        assert(p[0] == list[0]);
        assert(p.drop_first() =~= list.drop_first().subrange(0, k - 1));
        if machine_code(list[0].0@) && !(exists|j: int|
            0 <= j < list[0].1@.len() && !machine_code(#[trigger] list[0].1@[j]@)) {
            lemma_facet_error_prefix_err(list.drop_first(), k - 1);
        }
    }
}

fn copy_string(s: &String) -> (r: String)
    ensures
        r@ == s@,
{
    owned(s.as_str())
}

/// Validates declared facets into sorted, de-duplicated token sets. Empty
/// token sets are dropped rather than compared as a zero; a later non-empty
/// declaration of the same facet replaces an earlier one.
pub fn validate_facets(facet_tokens: Vec<(String, Vec<String>)>) -> (r: Result<
    Vec<Facet>,
    ComparisonError,
>)
    ensures
        r matches Err(e) ==> facet_error(facet_tokens@) == Some(e.kind),
        r is Ok <==> facet_error(facet_tokens@) is None,
        r matches Ok(facets) ==> facets_wf(facets@) && (forall|n: Seq<char>| #[trigger]
            keys_of(facets@).contains(n) <==> declared_tokens(facet_tokens@, n) is Some) && (forall|
            i: int,
        |
            0 <= i < facets@.len() ==> declared_tokens(facet_tokens@, (#[trigger] facets@[i]).name@)
                == Some(facets@[i].token_set())),
{
    let mut facets: Vec<Facet> = Vec::new();
    let mut k: usize = 0;
    while k < facet_tokens.len()
        invariant
            k <= facet_tokens@.len(),
            facet_error(facet_tokens@.subrange(0, k as int)) is None,
            facets_wf(facets@),
            forall|n: Seq<char>| #[trigger]
                keys_of(facets@).contains(n) <==> declared_tokens(
                    facet_tokens@.subrange(0, k as int),
                    n,
                ) is Some,
            forall|i: int|
                0 <= i < facets@.len() ==> declared_tokens(
                    facet_tokens@.subrange(0, k as int),
                    (#[trigger] facets@[i]).name@,
                ) == Some(facets@[i].token_set()),
        decreases facet_tokens.len() - k,
    {
        let ghost list = facet_tokens@;
        let entry = &facet_tokens[k];
        if !is_machine_code(entry.0.as_str()) {
            proof {
                lemma_facet_error_prefix(list, k as int);
                lemma_facet_error_prefix_err(list, k + 1);
            }
            return Err(ComparisonError::new(ComparisonErrorKind::InvalidFacet));
        }
        let mut tokens: Vec<String> = Vec::new();
        let mut j: usize = 0;
        while j < entry.1.len()
            invariant
                list == facet_tokens@,
                k < list.len(),
                facet_error(list.subrange(0, k as int)) is None,
                entry == list[k as int],
                machine_code(entry.0@),
                j <= entry.1@.len(),
                strictly_sorted(keys_of(tokens@)),
                keys_of(tokens@).to_set() == keys_of(entry.1@.subrange(0, j as int)).to_set(),
                forall|q: int| 0 <= q < j ==> machine_code(#[trigger] entry.1@[q]@),
            decreases entry.1.len() - j,
        {
            if !is_machine_code(entry.1[j].as_str()) {
                proof {
                    assert(!machine_code(entry.1@[j as int]@));
                    assert(machine_code(entry.0@));
                    lemma_facet_error_prefix(list, k as int);
                    lemma_facet_error_prefix_err(list, k + 1);
                }
                return Err(ComparisonError::new(ComparisonErrorKind::InvalidToken));
            }
            let ghost before = keys_of(tokens@);
            insert_unique(&mut tokens, copy_string(&entry.1[j]));
            proof {
                let a = keys_of(entry.1@.subrange(0, j as int));
                let b = keys_of(entry.1@.subrange(0, j + 1));
                assert(b =~= a.push(entry.1@[j as int]@));
                lemma_push_to_set(a, entry.1@[j as int]@);
            }
            j = j + 1;
        }
        assert(entry.1@.subrange(0, entry.1@.len() as int) =~= entry.1@);
        proof {
            lemma_facet_error_prefix(list, k as int);
        }
        let ghost pre = list.subrange(0, k as int);
        let ghost post = list.subrange(0, k + 1);
        assert(post.drop_last() =~= pre);
        assert(post.last() == *entry);
        proof {
            assert forall|n: Seq<char>| #[trigger] declared_tokens(post, n) == (if entry.0@ == n
                && entry.1@.len() > 0 {
                Some(keys_of(entry.1@).to_set())
            } else {
                declared_tokens(pre, n)
            }) by {}
            if entry.1@.len() > 0 {
                lemma_keys_contains(entry.1@, 0);
                assert(keys_of(tokens@).to_set().contains(entry.1@[0]@));
            }
            if tokens@.len() > 0 {
                lemma_keys_contains(tokens@, 0);
                assert(keys_of(entry.1@).to_set().contains(tokens@[0]@));
            }
        }
        if tokens.len() > 0 {
            let ghost old_facets = facets@;
            let name = copy_string(&entry.0);
            let f = Facet { name, tokens };
            assert(f.token_set() == keys_of(entry.1@).to_set());
            insert_or_replace(&mut facets, f);
            proof {
                assert forall|i: int| 0 <= i < facets@.len() implies (#[trigger] facets@[i]).wf() by {
                    if facets@[i] != f {
                        let q = choose|q: int| 0 <= q < old_facets.len() && old_facets[q] == facets@[i];
                        assert(old_facets[q].wf());
                    }
                }
                assert forall|n: Seq<char>| #[trigger]
                    keys_of(facets@).contains(n) <==> declared_tokens(post, n) is Some by {
                    assert(keys_of(facets@).to_set().contains(n) == keys_of(facets@).contains(n));
                    assert(keys_of(old_facets).to_set().contains(n) == keys_of(old_facets).contains(n));
                    assert(declared_tokens(post, n) == (if entry.0@ == n && entry.1@.len() > 0 {
                        Some(keys_of(entry.1@).to_set())
                    } else {
                        declared_tokens(pre, n)
                    }));
                }
                assert forall|i: int|
                    0 <= i < facets@.len() implies declared_tokens(post, (#[trigger] facets@[i]).name@)
                    == Some(facets@[i].token_set()) by {
                    let n = facets@[i].name@;
                    assert(declared_tokens(post, n) == (if entry.0@ == n && entry.1@.len() > 0 {
                        Some(keys_of(entry.1@).to_set())
                    } else {
                        declared_tokens(pre, n)
                    }));
                    if facets@[i] != f {
                        let q = choose|q: int| 0 <= q < old_facets.len() && old_facets[q] == facets@[i];
                        assert(declared_tokens(pre, old_facets[q].name@) == Some(old_facets[q].token_set()));
                    }
                }
            }
        } else {
            proof {
                assert forall|n: Seq<char>| #[trigger]
                    keys_of(facets@).contains(n) <==> declared_tokens(post, n) is Some by {
                    assert(declared_tokens(post, n) == declared_tokens(pre, n));
                }
                assert forall|i: int|
                    0 <= i < facets@.len() implies declared_tokens(post, (#[trigger] facets@[i]).name@)
                    == Some(facets@[i].token_set()) by {
                    assert(declared_tokens(post, facets@[i].name@) == declared_tokens(pre, facets@[i].name@));
                }
            }
        }
        k = k + 1;
    }
    assert(facet_tokens@.subrange(0, facet_tokens@.len() as int) =~= facet_tokens@);
    Ok(facets)
}


/// Whether every facet name is canonical for the mode.
pub open spec fn all_canonical(mode: CohortMode, facets: Seq<Facet>) -> bool {
    forall|i: int| 0 <= i < facets.len() ==> canonical_facet_names(mode).contains(
        #[trigger] facets[i].name@,
    )
}

/// The seed project's cited facet token sets and comparison mode.
#[derive(Debug)]
pub struct ComparisonProfile {
    pub mode: CohortMode,
    pub facets: Vec<Facet>,
    pub evidence_ids: Vec<EvidenceId>,
}

/// Some listed facet, whatever its tokens, is outside the mode's canonical
/// set.
pub open spec fn lists_non_canonical(mode: CohortMode, facet_tokens: Seq<(String, Vec<String>)>) -> bool {
    exists|k: int| 0 <= k < facet_tokens.len() && !canonical_facet_names(mode).contains(#[trigger] facet_tokens[k].0@)
}

/// What a profile built from declared facets and citations is: invalid
/// facets or tokens first, then any non-canonical facet (custom facets are
/// rejected even with no tokens), then a profile with no non-empty facet or
/// no citation.
pub open spec fn profile_result(
    mode: CohortMode,
    facet_tokens: Seq<(String, Vec<String>)>,
    evidence_ids: Seq<EvidenceId>,
) -> Option<ComparisonErrorKind> {
    if facet_error(facet_tokens) is Some {
        facet_error(facet_tokens)
    } else if lists_non_canonical(mode, facet_tokens) {
        Some(ComparisonErrorKind::NonCanonicalFacet)
    } else if (forall|n: Seq<char>| declared_tokens(facet_tokens, n) is None) || evidence_ids.len()
        == 0 {
        Some(ComparisonErrorKind::EmptyProfile)
    } else {
        None
    }
}

/// Declarations that pass validation carry machine-code tokens only.
proof fn lemma_declared_tokens_are_machine_codes(list: Seq<(String, Vec<String>)>, n: Seq<char>)
    requires
        facet_error(list) is None,
    ensures
        declared_tokens(list, n) matches Some(ts) ==> forall|t: Seq<char>| #[trigger] ts.contains(t) ==> machine_code(t),
    decreases list.len(),
{
    if list.len() > 0 {
        let k = list.len() - 1;
        assert(list.subrange(0, list.len() as int) =~= list);
        if facet_error(list.subrange(0, k)) is Some {
            lemma_facet_error_prefix_err(list, k);
        }
        lemma_facet_error_prefix(list, k);
        assert(list.drop_last() =~= list.subrange(0, k));
        if list.last().0@ == n && list.last().1@.len() > 0 {
            assert forall|t: Seq<char>| #[trigger] keys_of(list.last().1@).to_set().contains(t) implies machine_code(t) by {
                let j = choose|j: int| 0 <= j < keys_of(list.last().1@).len() && keys_of(list.last().1@)[j] == t;
                assert(list[k].1@[j]@ == t);
            }
        } else {
            lemma_declared_tokens_are_machine_codes(list.drop_last(), n);
        }
    }
}

/// A facet that carries tokens was listed.
proof fn lemma_declared_is_listed(list: Seq<(String, Vec<String>)>, n: Seq<char>)
    requires
        declared_tokens(list, n) is Some,
    ensures
        exists|k: int| 0 <= k < list.len() && #[trigger] list[k].0@ == n,
    decreases list.len(),
{
    if !(list.last().0@ == n && list.last().1@.len() > 0) {
        lemma_declared_is_listed(list.drop_last(), n);
        let k = choose|k: int| 0 <= k < list.drop_last().len() && #[trigger] list.drop_last()[k].0@ == n;
        assert(list[k] == list.drop_last()[k]);
    } else {
        assert(list[list.len() - 1].0@ == n);
    }
}

impl ComparisonProfile {
    /// Sorted canonical facets, at least one of them, and sorted distinct
    /// citations.
    pub open spec fn wf(&self) -> bool {
        &&& facets_wf(self.facets@)
        &&& all_canonical(self.mode, self.facets@)
        &&& self.facets@.len() > 0
        &&& strictly_sorted(keys_of(self.evidence_ids@))
    }

    /// Validates the seed profile, requiring at least one non-empty facet.
    ///
    /// Facets are restricted to the mode's closed canonical set; custom
    /// facets are rejected, listed with tokens or without. Tokens are
    /// canonical snake_case machine codes. Empty token sets are dropped
    /// rather than compared as a zero.
    pub fn new(
        mode: CohortMode,
        facet_tokens: Vec<(String, Vec<String>)>,
        evidence_ids: Vec<EvidenceId>,
    ) -> (r: Result<ComparisonProfile, ComparisonError>)
        ensures
            r matches Err(e) ==> profile_result(mode, facet_tokens@, evidence_ids@) == Some(e.kind),
            r is Ok <==> profile_result(mode, facet_tokens@, evidence_ids@) is None,
            r matches Ok(p) ==> p.wf() && p.mode == mode && facets_wf(p.facets@) && all_canonical(
                mode,
                p.facets@,
            ) && p.facets@.len() > 0 && (forall|n: Seq<char>| #[trigger]
                keys_of(p.facets@).contains(n) <==> declared_tokens(facet_tokens@, n) is Some) && (
            forall|i: int|
                0 <= i < p.facets@.len() ==> declared_tokens(
                    facet_tokens@,
                    (#[trigger] p.facets@[i]).name@,
                ) == Some(p.facets@[i].token_set())) && (forall|i: int, t: Seq<char>|
                0 <= i < p.facets@.len() && #[trigger] p.facets@[i].token_set().contains(t) ==> machine_code(t))
                && strictly_sorted(keys_of(p.evidence_ids@))
                && keys_of(p.evidence_ids@).to_set() == keys_of(evidence_ids@).to_set(),
    {
        let ghost list = facet_tokens@;
        let mut non_canonical = false;
        let mut i: usize = 0;
        while i < facet_tokens.len()
            invariant
                list == facet_tokens@,
                i <= list.len(),
                non_canonical == exists|k: int|
                    0 <= k < i && !canonical_facet_names(mode).contains(#[trigger] list[k].0@),
            decreases facet_tokens.len() - i,
        {
            if !mode.is_canonical(facet_tokens[i].0.as_str()) {
                non_canonical = true;
            }
            i = i + 1;
        }
        let facets = match validate_facets(facet_tokens) {
            Ok(f) => f,
            Err(e) => {
                return Err(e);
            },
        };
        if non_canonical {
            return Err(ComparisonError::new(ComparisonErrorKind::NonCanonicalFacet));
        }
        proof {
            assert forall|n: Seq<char>|
                declared_tokens(list, n) is Some implies canonical_facet_names(mode).contains(n) by {
                lemma_declared_is_listed(list, n);
            }
            assert forall|j: int| 0 <= j < facets@.len() implies canonical_facet_names(mode).contains(
                #[trigger] facets@[j].name@,
            ) by {
                assert(declared_tokens(list, facets@[j].name@) == Some(facets@[j].token_set()));
            }
        }
        if facets.len() == 0 || evidence_ids.len() == 0 {
            proof {
                if facets@.len() == 0 {
                    assert forall|n: Seq<char>| declared_tokens(list, n) is None by {
                        if declared_tokens(list, n) is Some {
                            assert(keys_of(facets@).contains(n));
                        }
                    }
                }
            }
            return Err(ComparisonError::new(ComparisonErrorKind::EmptyProfile));
        }
        proof {
            lemma_keys_contains(facets@, 0);
            assert(declared_tokens(list, facets@[0].name@) is Some);
            assert forall|i: int, t: Seq<char>|
                0 <= i < facets@.len() && #[trigger] facets@[i].token_set().contains(t) implies machine_code(t) by {
                lemma_declared_tokens_are_machine_codes(list, facets@[i].name@);
                assert(declared_tokens(list, facets@[i].name@) == Some(facets@[i].token_set()));
                let ts = declared_tokens(list, facets@[i].name@)->0;
                assert(ts.contains(t));
            }
        }
        Ok(ComparisonProfile { mode, facets, evidence_ids: sorted_unique(evidence_ids) })
    }
}

/// One candidate returned by the search port, with its own declared tokens.
#[derive(Debug)]
pub struct CandidateDescriptor {
    pub source: RepositorySource,
    pub revision: RevisionId,
    pub curated: bool,
    pub facets: Vec<Facet>,
    pub stars: Option<u64>,
    pub discovery_evidence_id: EvidenceId,
}

impl CandidateDescriptor {
    /// A hosted candidate with sorted, well-formed facets.
    pub open spec fn wf(&self) -> bool {
        &&& self.source.view() is Hosted
        &&& facets_wf(self.facets@)
    }

    /// Checks the descriptor's well-formedness.
    pub fn is_well_formed(&self) -> (r: bool)
        ensures
            r == self.wf(),
    {
        if self.source.hosted_locator().is_none() || !is_strictly_sorted(self.facets.as_slice()) {
            return false;
        }
        let mut i: usize = 0;
        while i < self.facets.len()
            invariant
                i <= self.facets@.len(),
                forall|j: int| 0 <= j < i ==> (#[trigger] self.facets@[j]).wf(),
            decreases self.facets.len() - i,
        {
            let f = &self.facets[i];
            if f.tokens.len() == 0 || !is_strictly_sorted(f.tokens.as_slice()) {
                return false;
            }
            i = i + 1;
        }
        true
    }

    /// Validates one discovered candidate.
    ///
    /// A candidate must be a hosted repository and its facet tokens must be
    /// machine codes. `stars` is retained only as ordering context.
    pub fn new(
        source: RepositorySource,
        revision: RevisionId,
        curated: bool,
        facet_tokens: Vec<(String, Vec<String>)>,
        stars: Option<u64>,
        discovery_evidence_id: EvidenceId,
    ) -> (r: Result<CandidateDescriptor, ComparisonError>)
        ensures
            !(source.view() is Hosted) ==> (r matches Err(e) && e.kind
                == ComparisonErrorKind::CandidateNotHosted),
            source.view() is Hosted ==> (r is Ok <==> facet_error(facet_tokens@) is None),
            source.view() is Hosted && r is Err ==> r->Err_0.kind == facet_error(facet_tokens@)->0,
            r matches Ok(d) ==> d.wf() && d.source.view() == source.view() && d.revision.view()
                == revision.view() && d.curated == curated && d.stars == stars
                && d.discovery_evidence_id.view() == discovery_evidence_id.view() && facets_wf(
                d.facets@,
            ) && (forall|n: Seq<char>| #[trigger]
                keys_of(d.facets@).contains(n) <==> declared_tokens(facet_tokens@, n) is Some) && (
            forall|i: int|
                0 <= i < d.facets@.len() ==> declared_tokens(
                    facet_tokens@,
                    (#[trigger] d.facets@[i]).name@,
                ) == Some(d.facets@[i].token_set())),
    {
        if source.hosted_locator().is_none() {
            return Err(ComparisonError::new(ComparisonErrorKind::CandidateNotHosted));
        }
        let facets = match validate_facets(facet_tokens) {
            Ok(f) => f,
            Err(e) => {
                return Err(e);
            },
        };
        Ok(CandidateDescriptor { source, revision, curated, facets, stars, discovery_evidence_id })
    }
}

/// A usable-or-explicit search result from the candidate-search port.
#[derive(Debug)]
pub struct CandidateSearchOutcome {
    pub status: EvidenceStatus,
    pub candidates: Vec<CandidateDescriptor>,
}

impl CandidateSearchOutcome {
    /// Every candidate is well formed and cites its discovery, and only a
    /// usable search carries candidates.
    pub open spec fn wf(&self) -> bool {
        &&& forall|i: int|
            0 <= i < self.candidates@.len() ==> (#[trigger] self.candidates@[i]).wf()
                && self.candidates@[i].discovery_evidence_id.view().len() != 0
        &&& self.status.spec_is_usable() || self.candidates@.len() == 0
    }

    /// Checks the outcome's well-formedness.
    pub fn is_well_formed(&self) -> (r: bool)
        ensures
            r == self.wf(),
    {
        let mut i: usize = 0;
        while i < self.candidates.len()
            invariant
                i <= self.candidates@.len(),
                forall|j: int|
                    0 <= j < i ==> (#[trigger] self.candidates@[j]).wf()
                        && self.candidates@[j].discovery_evidence_id.view().len() != 0,
            decreases self.candidates.len() - i,
        {
            let c = &self.candidates[i];
            if !c.is_well_formed() || c.discovery_evidence_id.as_str().is_empty() {
                return false;
            }
            i = i + 1;
        }
        self.status.is_usable() || self.candidates.len() == 0
    }

    /// Builds a search outcome, binding candidate presence to a usable
    /// status: every candidate must cite its discovery, and an unusable
    /// search carries no candidates.
    pub fn new(status: EvidenceStatus, candidates: Vec<CandidateDescriptor>) -> (r: Result<
        CandidateSearchOutcome,
        ComparisonError,
    >)
        ensures
            r is Err <==> (exists|i: int|
                0 <= i < candidates@.len() && (#[trigger] candidates@[i]).discovery_evidence_id.view().len()
                    == 0) || (!status.spec_is_usable() && candidates@.len() > 0),
            r matches Err(e) ==> e.kind == if exists|i: int|
                0 <= i < candidates@.len() && (#[trigger] candidates@[i]).discovery_evidence_id.view().len()
                    == 0 {
                ComparisonErrorKind::UncitedCandidate
            } else {
                ComparisonErrorKind::CandidatesWithoutUsableSearch
            },
            r matches Ok(o) ==> o.status == status && o.candidates@ == candidates@,
    {
        let mut i: usize = 0;
        while i < candidates.len()
            invariant
                i <= candidates@.len(),
                forall|j: int|
                    0 <= j < i ==> (#[trigger] candidates@[j]).discovery_evidence_id.view().len() != 0,
            decreases candidates.len() - i,
        {
            if candidates[i].discovery_evidence_id.as_str().is_empty() {
                return Err(ComparisonError::new(ComparisonErrorKind::UncitedCandidate));
            }
            i = i + 1;
        }
        if !status.is_usable() && candidates.len() > 0 {
            return Err(ComparisonError::new(ComparisonErrorKind::CandidatesWithoutUsableSearch));
        }
        Ok(CandidateSearchOutcome { status, candidates })
    }
}

/// A stable, redacted candidate-search transport failure.
#[derive(Clone, Copy, Debug, PartialEq, Eq, Structural)]
pub struct CandidateSearchError;

/// A read-only query derived solely from the seed project.
#[derive(Debug)]
pub struct CohortQuery {
    pub(crate) mode: CohortMode,
    pub(crate) facets: Vec<Facet>,
}

impl CohortQuery {
    pub closed spec fn spec_mode(&self) -> CohortMode {
        self.mode
    }

    pub closed spec fn spec_facets(&self) -> Seq<Facet> {
        self.facets@
    }

    /// Returns the cohort mode the search must target.
    pub fn mode(&self) -> (r: CohortMode)
        ensures
            r == self.spec_mode(),
    {
        self.mode
    }

    /// Returns the seed facet token sets that seed the search, in facet order.
    pub fn facet_tokens(&self) -> (r: &[Facet])
        ensures
            r@ == self.spec_facets(),
    {
        self.facets.as_slice()
    }
}

/// The narrow, injectable candidate-search boundary.
///
/// The real implementation queries public repository search; deterministic
/// fakes implement it in tests. It is invoked once per analyzed project and
/// is never handed a query derived from a discovered candidate.
pub trait CandidateSearch {
    /// Returns candidates for exactly one seed query.
    fn search(&self, query: &CohortQuery) -> Result<CandidateSearchOutcome, CandidateSearchError>;
}

/// The analyzed project with its comparison profile.
#[derive(Debug)]
pub struct SeedProject {
    pub source: RepositorySource,
    pub revision: RevisionId,
    pub profile: ComparisonProfile,
}

fn copy_facet(f: &Facet) -> (r: Facet)
    ensures
        r.name@ == f.name@,
        keys_of(r.tokens@) == keys_of(f.tokens@),
{
    let mut tokens: Vec<String> = Vec::new();
    let mut i: usize = 0;
    while i < f.tokens.len()
        invariant
            i <= f.tokens@.len(),
            keys_of(tokens@) == keys_of(f.tokens@.subrange(0, i as int)),
        decreases f.tokens.len() - i,
    {
        let ghost prev = tokens@;
        let t = copy_string(&f.tokens[i]);
        tokens.push(t);
        assert(keys_of(tokens@) =~= keys_of(prev).push(t@));
        assert(keys_of(f.tokens@.subrange(0, i + 1)) =~= keys_of(f.tokens@.subrange(0, i as int)).push(
            f.tokens@[i as int]@,
        ));
        i = i + 1;
    }
    assert(f.tokens@.subrange(0, f.tokens@.len() as int) =~= f.tokens@);
    Facet { name: copy_string(&f.name), tokens }
}

/// Two facet lists with the same names and tokens, position by position.
pub open spec fn same_facets(a: Seq<Facet>, b: Seq<Facet>) -> bool {
    &&& a.len() == b.len()
    &&& forall|i: int|
        0 <= i < a.len() ==> (#[trigger] a[i]).name@ == b[i].name@ && keys_of(a[i].tokens@)
            == keys_of(b[i].tokens@)
}

fn copy_facets(fs: &Vec<Facet>) -> (r: Vec<Facet>)
    ensures
        same_facets(r@, fs@),
{
    let mut out: Vec<Facet> = Vec::new();
    let mut i: usize = 0;
    while i < fs.len()
        invariant
            i <= fs@.len(),
            same_facets(out@, fs@.subrange(0, i as int)),
        decreases fs.len() - i,
    {
        out.push(copy_facet(&fs[i]));
        i = i + 1;
    }
    assert(fs@.subrange(0, fs@.len() as int) =~= fs@);
    out
}

impl SeedProject {
    /// Binds the analyzed repository to its comparison profile.
    pub fn new(source: RepositorySource, revision: RevisionId, profile: ComparisonProfile) -> (r:
        SeedProject)
        ensures
            r.source == source,
            r.revision == revision,
            r.profile == profile,
    {
        SeedProject { source, revision, profile }
    }

    /// Builds the one and only cohort query, derived from the seed.
    pub fn query(&self) -> (r: CohortQuery)
        ensures
            r.spec_mode() == self.profile.mode,
            same_facets(r.spec_facets(), self.profile.facets@),
    {
        CohortQuery { mode: self.profile.mode, facets: copy_facets(&self.profile.facets) }
    }
}

/// Versioned facet weights and cohort-size policy.
#[derive(Clone, Copy, Debug)]
pub struct ComparisonPolicy {
    pub(crate) comparison_version: &'static str,
    pub(crate) detailed_limit: usize,
    pub(crate) default_facet_weight: u32,
}

/// The weight of a facet in the overall similarity.
pub open spec fn facet_weight_of(policy: ComparisonPolicy, facet: Seq<char>) -> u32 {
    if facet == "problem_overlap"@ || facet == "feature_overlap"@ || facet == "entry_overlap"@
        || facet == "list_structure"@ {
        30
    } else if facet == "technical_similarity"@ || facet == "structural_similarity"@ || facet
        == "unique_coverage"@ || facet == "editorial_quality"@ || facet == "maintenance_evidence"@ {
        20
    } else {
        policy.spec_default_weight()
    }
}

/// The canonical facets of each mode: a functional cohort compares problem
/// and feature overlap and technical and structural similarity; a curated
/// list compares entry overlap, list structure, unique coverage, editorial
/// quality and maintenance evidence; publication lists them in text order.
pub proof fn law_canonical_facets_table()
    ensures
        canonical_facet_names(CohortMode::FunctionalCohort) == seq![
            "problem_overlap"@,
            "feature_overlap"@,
            "technical_similarity"@,
            "structural_similarity"@,
        ],
        canonical_facet_names(CohortMode::CuratedList) == seq![
            "entry_overlap"@,
            "list_structure"@,
            "unique_coverage"@,
            "editorial_quality"@,
            "maintenance_evidence"@,
        ],
        ordered_facet_names(CohortMode::FunctionalCohort) == seq![
            "feature_overlap"@,
            "problem_overlap"@,
            "structural_similarity"@,
            "technical_similarity"@,
        ],
        ordered_facet_names(CohortMode::CuratedList) == seq![
            "editorial_quality"@,
            "entry_overlap"@,
            "list_structure"@,
            "maintenance_evidence"@,
            "unique_coverage"@,
        ],
{
}

/// The comparison policy's facet weights: problem, feature and entry overlap
/// and list structure weigh 30; technical and structural similarity, unique
/// coverage, editorial quality and maintenance evidence weigh 20; every other
/// facet weighs the policy's default.
pub proof fn law_facet_weight_table(policy: ComparisonPolicy)
    ensures
        facet_weight_of(policy, "problem_overlap"@) == 30,
        facet_weight_of(policy, "feature_overlap"@) == 30,
        facet_weight_of(policy, "entry_overlap"@) == 30,
        facet_weight_of(policy, "list_structure"@) == 30,
        facet_weight_of(policy, "technical_similarity"@) == 20,
        facet_weight_of(policy, "structural_similarity"@) == 20,
        facet_weight_of(policy, "unique_coverage"@) == 20,
        facet_weight_of(policy, "editorial_quality"@) == 20,
        facet_weight_of(policy, "maintenance_evidence"@) == 20,
        forall|f: Seq<char>|
            f != "problem_overlap"@ && f != "feature_overlap"@ && f != "entry_overlap"@ && f
                != "list_structure"@ && f != "technical_similarity"@ && f != "structural_similarity"@ && f
                != "unique_coverage"@ && f != "editorial_quality"@ && f != "maintenance_evidence"@
                ==> #[trigger] facet_weight_of(policy, f) == policy.spec_default_weight(),
{
    reveal_strlit("problem_overlap");
    reveal_strlit("feature_overlap");
    reveal_strlit("entry_overlap");
    reveal_strlit("list_structure");
    reveal_strlit("technical_similarity");
    reveal_strlit("structural_similarity");
    reveal_strlit("unique_coverage");
    reveal_strlit("editorial_quality");
    reveal_strlit("maintenance_evidence");
    assert("technical_similarity"@.len() == 20);
    assert("structural_similarity"@.len() == 21);
    assert("editorial_quality"@.len() == 17);
    assert("maintenance_evidence"@.len() == 20);
    assert("problem_overlap"@.len() == 15);
    assert("feature_overlap"@.len() == 15);
    assert("entry_overlap"@.len() == 13);
    assert("list_structure"@.len() == 14);
    assert("unique_coverage"@[0] != "problem_overlap"@[0]);
    assert("unique_coverage"@[0] != "feature_overlap"@[0]);
}

impl ComparisonPolicy {
    /// No facet weighs more than the heaviest named facet.
    #[verifier::type_invariant]
    closed spec fn weights_bounded(&self) -> bool {
        self.default_facet_weight <= 30
    }

    pub closed spec fn spec_version(&self) -> Seq<char> {
        self.comparison_version@
    }

    pub closed spec fn spec_detailed_limit(&self) -> usize {
        self.detailed_limit
    }

    pub closed spec fn spec_default_weight(&self) -> u32 {
        self.default_facet_weight
    }

    /// Returns the initial versioned comparison policy.
    pub fn v1() -> (r: ComparisonPolicy)
        ensures
            r.spec_version() == "project-comparison-1"@,
            r.spec_detailed_limit() == 5,
            r.spec_default_weight() == 10,
    {
        ComparisonPolicy {
            comparison_version: "project-comparison-1",
            detailed_limit: 5,
            default_facet_weight: 10,
        }
    }

    /// Returns how many candidates are detailed.
    pub fn detailed_limit(&self) -> (r: usize)
        ensures
            r == self.spec_detailed_limit(),
    {
        self.detailed_limit
    }

    /// Returns the weight of one facet.
    pub fn facet_weight(&self, facet: &str) -> (r: u32)
        ensures
            r == facet_weight_of(*self, facet@),
            r <= 30,
    {
        proof {
            use_type_invariant(self);
        }
        if text_eq(facet, "problem_overlap") || text_eq(facet, "feature_overlap") || text_eq(
            facet,
            "entry_overlap",
        ) || text_eq(facet, "list_structure") {
            30
        } else if text_eq(facet, "technical_similarity") || text_eq(facet, "structural_similarity")
            || text_eq(facet, "unique_coverage") || text_eq(facet, "editorial_quality") || text_eq(
            facet,
            "maintenance_evidence",
        ) {
            20
        } else {
            self.default_facet_weight
        }
    }
}

} // verus!
