use std::cell::{Cell, RefCell};

use assay_project_intelligence::cohort::{CohortComparison, cohort_from_search, discover_cohort};
use assay_project_intelligence::comparison::{
    CandidateDescriptor, CandidateSearch, CandidateSearchError, CandidateSearchOutcome, CohortMode, CohortQuery,
    ComparisonErrorKind, ComparisonPolicy, ComparisonProfile, SeedProject,
};
use assay_project_intelligence::domain::{ContentHash, EvidenceId, EvidenceStatus, RepositorySource, RevisionId};
use assay_project_intelligence::json::JsonValue;

fn evidence(value: &str) -> EvidenceId {
    EvidenceId::parse(value).unwrap()
}

fn revision() -> RevisionId {
    RevisionId::parse("0123456789abcdef0123456789abcdef01234567").unwrap()
}

fn hosted(namespace: &str, repository: &str) -> RepositorySource {
    RepositorySource::hosted("github", namespace, repository).unwrap()
}

fn owned_facets(facets: Vec<(&str, Vec<&str>)>) -> Vec<(String, Vec<String>)> {
    facets
        .into_iter()
        .map(|(facet, tokens)| (facet.to_owned(), tokens.into_iter().map(str::to_owned).collect()))
        .collect()
}

fn seed_profile() -> ComparisonProfile {
    ComparisonProfile::new(
        CohortMode::FunctionalCohort,
        owned_facets(vec![
            ("problem_overlap", vec!["dependency_analysis", "scoring"]),
            ("feature_overlap", vec!["cli", "json_output"]),
        ]),
        vec![evidence("evidence:repository:snapshot")],
    )
    .unwrap()
}

fn seed() -> SeedProject {
    SeedProject::new(hosted("example-org", "seed"), revision(), seed_profile())
}

/// A search port that answers one prepared outcome and counts its calls.
struct FakeSearch {
    outcome: RefCell<Option<CandidateSearchOutcome>>,
    calls: Cell<usize>,
}

impl FakeSearch {
    fn new(outcome: CandidateSearchOutcome) -> FakeSearch {
        FakeSearch { outcome: RefCell::new(Some(outcome)), calls: Cell::new(0) }
    }
}

impl CandidateSearch for FakeSearch {
    fn search(&self, _query: &CohortQuery) -> Result<CandidateSearchOutcome, CandidateSearchError> {
        self.calls.set(self.calls.get() + 1);
        self.outcome.borrow_mut().take().ok_or(CandidateSearchError)
    }
}

fn candidate(repository: &str, stars: Option<u64>, facet_tokens: Vec<(&str, Vec<&str>)>) -> CandidateDescriptor {
    CandidateDescriptor::new(
        hosted("other-org", repository),
        revision(),
        false,
        owned_facets(facet_tokens),
        stars,
        evidence(&format!("evidence:github:candidate-{repository}")),
    )
    .unwrap()
}

fn complete(candidates: Vec<CandidateDescriptor>) -> FakeSearch {
    FakeSearch::new(CandidateSearchOutcome::new(EvidenceStatus::Complete, candidates).unwrap())
}

fn discover(seed: &SeedProject, search: &FakeSearch) -> CohortComparison {
    discover_cohort(seed, search, &ComparisonPolicy::v1()).unwrap()
}

fn field<'a>(value: &'a JsonValue, key: &str) -> &'a JsonValue {
    value.get(key).unwrap_or_else(|| panic!("missing field {key}"))
}

fn item(value: &JsonValue, index: usize) -> &JsonValue {
    &value.as_array().unwrap()[index]
}

fn text(value: &JsonValue) -> String {
    value.as_str().unwrap().to_owned()
}

fn similarity(bp: Option<u32>) -> Option<f64> {
    bp.map(|bp| bp as f64 / 10000.0)
}

#[test]
fn comparison_the_search_port_is_invoked_exactly_once() {
    let search = complete(vec![candidate("a", Some(10), vec![("problem_overlap", vec!["scoring"])])]);
    discover_cohort(&seed(), &search, &ComparisonPolicy::v1()).unwrap();
    assert_eq!(search.calls.get(), 1, "discovery must stop at one depth");
}

#[test]
fn comparison_popularity_orders_ties_but_never_changes_similarity() {
    let facets = vec![
        ("problem_overlap", vec!["dependency_analysis", "scoring"]),
        ("feature_overlap", vec!["cli", "json_output"]),
    ];
    let search = complete(vec![
        candidate("low-stars", Some(1), facets.clone()),
        candidate("high-stars", Some(9_000), facets.clone()),
    ]);
    let comparison = discover(&seed(), &search);
    let detailed = comparison.detailed_candidates();
    assert_eq!(detailed.len(), 2);
    assert_eq!(
        similarity(detailed[0].overall_similarity_bp()),
        similarity(detailed[1].overall_similarity_bp()),
        "identical tokens must produce identical similarity regardless of stars"
    );
    assert_eq!(detailed[0].identifier(), "github/other-org/high-stars", "stars break the ordering tie only");
    assert_eq!(similarity(detailed[0].overall_similarity_bp()), Some(1.0));
}

#[test]
fn comparison_only_five_candidates_are_detailed_and_the_rest_are_compact() {
    let mut candidates = Vec::new();
    for index in 0..7 {
        candidates.push(candidate(&format!("repo{index}"), Some(index), vec![("problem_overlap", vec!["scoring"])]));
    }
    let comparison = discover(&seed(), &complete(candidates));
    assert_eq!(comparison.detailed_candidates().len(), 5);
    assert_eq!(comparison.additional_candidates().len(), 2);
}

#[test]
fn comparison_a_candidate_with_no_shared_facet_is_insufficient_not_zero() {
    let search = complete(vec![candidate("unrelated", Some(5), vec![("technical_similarity", vec!["rust"])])]);
    let comparison = discover(&seed(), &search);
    assert!(comparison.detailed_candidates().is_empty());
    assert_eq!(comparison.status(), EvidenceStatus::Insufficient);
}

#[test]
fn comparison_an_unavailable_search_stays_unavailable_without_fabricated_candidates() {
    let search = FakeSearch::new(CandidateSearchOutcome::new(EvidenceStatus::Unavailable, Vec::new()).unwrap());
    let comparison = discover(&seed(), &search);
    assert_eq!(comparison.status(), EvidenceStatus::Unavailable);
    assert!(comparison.detailed_candidates().is_empty());
}

#[test]
fn comparison_curated_mode_excludes_non_curated_candidates() {
    let curated_profile = ComparisonProfile::new(
        CohortMode::CuratedList,
        owned_facets(vec![("entry_overlap", vec!["rust", "wasm"])]),
        vec![evidence("evidence:repository:snapshot")],
    )
    .unwrap();
    let curated_seed = SeedProject::new(hosted("example-org", "awesome-seed"), revision(), curated_profile);
    let curated_candidate = CandidateDescriptor::new(
        hosted("other-org", "awesome-rust"),
        revision(),
        true,
        owned_facets(vec![("entry_overlap", vec!["rust"])]),
        Some(100),
        evidence("evidence:github:candidate-awesome"),
    )
    .unwrap();
    let library_candidate = candidate("a-library", Some(500), vec![("entry_overlap", vec!["rust"])]);
    let comparison = discover(&curated_seed, &complete(vec![curated_candidate, library_candidate]));
    assert_eq!(comparison.detailed_candidates().len(), 1);
    assert_eq!(comparison.detailed_candidates()[0].identifier(), "github/other-org/awesome-rust");
    assert_eq!(comparison.status(), EvidenceStatus::Partial);
}

#[test]
fn comparison_differentiators_separate_seed_only_and_candidate_only_tokens() {
    let search = complete(vec![candidate(
        "partial-overlap",
        Some(5),
        vec![("problem_overlap", vec!["scoring"]), ("feature_overlap", vec!["cli", "web_dashboard"])],
    )]);
    let value = discover(&seed(), &search).to_machine_value();
    let differentiators = field(item(field(&value, "detailed_candidates"), 0), "differentiators");
    let tokens = |side: &str| -> Vec<String> {
        field(differentiators, side).as_array().unwrap().iter().map(|d| text(field(d, "token"))).collect()
    };
    let seed_only = tokens("seed_only");
    let candidate_only = tokens("candidate_only");
    assert!(seed_only.contains(&"dependency_analysis".to_owned()));
    assert!(seed_only.contains(&"json_output".to_owned()));
    assert_eq!(candidate_only, vec!["web_dashboard".to_owned()]);
}

#[test]
fn comparison_discovery_is_byte_deterministic() {
    let build = || {
        let search = complete(vec![
            candidate("a", Some(3), vec![("problem_overlap", vec!["scoring"])]),
            candidate("b", Some(3), vec![("feature_overlap", vec!["cli"])]),
        ]);
        format!("{:?}", discover(&seed(), &search).to_machine_value())
    };
    assert_eq!(build(), build());
}

#[test]
fn comparison_a_local_candidate_is_rejected() {
    let local = RepositorySource::local(ContentHash::parse(&format!("sha256:{}", "a".repeat(64))).unwrap());
    assert_eq!(
        CandidateDescriptor::new(
            local,
            revision(),
            false,
            owned_facets(vec![("problem_overlap", vec!["scoring"])]),
            None,
            evidence("evidence:github:candidate-local"),
        )
        .unwrap_err()
        .kind(),
        ComparisonErrorKind::CandidateNotHosted
    );
}

#[test]
fn cohort_the_search_port_is_invoked_exactly_once() {
    let search = complete(vec![candidate("a", Some(10), vec![("problem_overlap", vec!["scoring"])])]);
    discover_cohort(&seed(), &search, &ComparisonPolicy::v1()).unwrap();
    assert_eq!(search.calls.get(), 1, "discovery must stop at one depth");
}

#[test]
fn cohort_popularity_orders_ties_but_never_changes_similarity() {
    let facets = vec![
        ("problem_overlap", vec!["dependency_analysis", "scoring"]),
        ("feature_overlap", vec!["cli", "json_output"]),
    ];
    let search = complete(vec![
        candidate("low-stars", Some(1), facets.clone()),
        candidate("high-stars", Some(9_000), facets.clone()),
    ]);
    let comparison = discover(&seed(), &search);
    let detailed = comparison.detailed_candidates();
    assert_eq!(detailed.len(), 2);
    assert_eq!(
        similarity(detailed[0].overall_similarity_bp()),
        similarity(detailed[1].overall_similarity_bp()),
        "identical tokens must produce identical similarity regardless of stars"
    );
    assert_eq!(detailed[0].identifier(), "github/other-org/high-stars", "stars break the ordering tie only");
    assert_eq!(similarity(detailed[0].overall_similarity_bp()), Some(1.0));
}

#[test]
fn cohort_only_five_candidates_are_detailed_and_the_rest_are_compact() {
    let mut candidates = Vec::new();
    for index in 0..7 {
        candidates.push(candidate(&format!("repo{index}"), Some(index), vec![("problem_overlap", vec!["scoring"])]));
    }
    let comparison = discover(&seed(), &complete(candidates));
    assert_eq!(comparison.detailed_candidates().len(), 5);
    assert_eq!(comparison.additional_candidates().len(), 2);
}

#[test]
fn cohort_a_candidate_with_no_shared_facet_is_insufficient_not_zero() {
    let search = complete(vec![candidate("unrelated", Some(5), vec![("technical_similarity", vec!["rust"])])]);
    let comparison = discover(&seed(), &search);
    assert!(comparison.detailed_candidates().is_empty());
    assert_eq!(comparison.status(), EvidenceStatus::Insufficient);
}

#[test]
fn cohort_an_unavailable_search_stays_unavailable_without_fabricated_candidates() {
    let search = FakeSearch::new(CandidateSearchOutcome::new(EvidenceStatus::Unavailable, Vec::new()).unwrap());
    let comparison = discover(&seed(), &search);
    assert_eq!(comparison.status(), EvidenceStatus::Unavailable);
    assert!(comparison.detailed_candidates().is_empty());
}

#[test]
fn cohort_curated_mode_excludes_non_curated_candidates() {
    let curated_profile = ComparisonProfile::new(
        CohortMode::CuratedList,
        owned_facets(vec![("entry_overlap", vec!["rust", "wasm"])]),
        vec![evidence("evidence:repository:snapshot")],
    )
    .unwrap();
    let curated_seed = SeedProject::new(hosted("example-org", "awesome-seed"), revision(), curated_profile);
    let curated_candidate = CandidateDescriptor::new(
        hosted("other-org", "awesome-rust"),
        revision(),
        true,
        owned_facets(vec![("entry_overlap", vec!["rust"])]),
        Some(100),
        evidence("evidence:github:candidate-awesome"),
    )
    .unwrap();
    let library_candidate = candidate("a-library", Some(500), vec![("entry_overlap", vec!["rust"])]);
    let comparison = discover(&curated_seed, &complete(vec![curated_candidate, library_candidate]));
    assert_eq!(comparison.detailed_candidates().len(), 1);
    assert_eq!(comparison.detailed_candidates()[0].identifier(), "github/other-org/awesome-rust");
    assert_eq!(comparison.status(), EvidenceStatus::Partial);
}

#[test]
fn cohort_differentiators_separate_seed_only_and_candidate_only_tokens() {
    let search = complete(vec![candidate(
        "partial-overlap",
        Some(5),
        vec![("problem_overlap", vec!["scoring"]), ("feature_overlap", vec!["cli", "web_dashboard"])],
    )]);
    let value = discover(&seed(), &search).to_machine_value();
    let differentiators = field(item(field(&value, "detailed_candidates"), 0), "differentiators");
    let tokens = |side: &str| -> Vec<String> {
        field(differentiators, side).as_array().unwrap().iter().map(|d| text(field(d, "token"))).collect()
    };
    let seed_only = tokens("seed_only");
    let candidate_only = tokens("candidate_only");
    assert!(seed_only.contains(&"dependency_analysis".to_owned()));
    assert!(seed_only.contains(&"json_output".to_owned()));
    assert_eq!(candidate_only, vec!["web_dashboard".to_owned()]);
}

#[test]
fn cohort_discovery_is_byte_deterministic() {
    let build = || {
        let search = complete(vec![
            candidate("a", Some(3), vec![("problem_overlap", vec!["scoring"])]),
            candidate("b", Some(3), vec![("feature_overlap", vec!["cli"])]),
        ]);
        format!("{:?}", discover(&seed(), &search).to_machine_value())
    };
    assert_eq!(build(), build());
}

#[test]
fn a_zero_overlap_candidate_is_demoted_rather_than_detailed_without_reasons() {
    let search = complete(vec![candidate("disjoint", Some(9_000), vec![("problem_overlap", vec!["image_processing"])])]);
    let comparison = discover(&seed(), &search);
    assert!(
        comparison.detailed_candidates().is_empty(),
        "a candidate without a cited selection reason must not be detailed"
    );
    assert_eq!(comparison.status(), EvidenceStatus::Insufficient);
    let value = comparison.to_machine_value();
    assert_eq!(text(field(item(field(&value, "limitations"), 0), "code")), "candidate_similarity_insufficient");
}

#[test]
fn every_canonical_facet_is_reported_with_explicit_unavailability() {
    let profile = ComparisonProfile::new(
        CohortMode::FunctionalCohort,
        owned_facets(vec![("problem_overlap", vec!["scoring"])]),
        vec![evidence("evidence:repository:snapshot")],
    )
    .unwrap();
    let narrow_seed = SeedProject::new(hosted("example-org", "seed"), revision(), profile);
    let search = complete(vec![candidate("a", Some(10), vec![("problem_overlap", vec!["scoring"])])]);
    let value = discover(&narrow_seed, &search).to_machine_value();
    let facets = field(item(field(&value, "detailed_candidates"), 0), "facets").as_array().unwrap();
    let names = facets.iter().map(|facet| text(field(facet, "facet"))).collect::<Vec<_>>();
    assert_eq!(
        names,
        ["feature_overlap", "problem_overlap", "structural_similarity", "technical_similarity"],
        "all four canonical facets must always be enumerated"
    );
    for facet in facets {
        if text(field(facet, "facet")) == "problem_overlap" {
            assert_eq!(text(field(facet, "status")), "complete");
        } else {
            assert_eq!(text(field(facet, "status")), "unavailable");
            assert!(field(facet, "value").is_null(), "an absent facet is never a zero");
        }
    }
    assert_eq!(field(&value, "facet_weights").as_array().unwrap().len(), 4, "weights cover the canonical facet set");
}

#[test]
fn a_non_canonical_profile_facet_is_rejected() {
    assert_eq!(
        ComparisonProfile::new(
            CohortMode::FunctionalCohort,
            owned_facets(vec![("custom_facet", vec!["token"])]),
            vec![evidence("evidence:repository:snapshot")],
        )
        .unwrap_err()
        .kind(),
        ComparisonErrorKind::NonCanonicalFacet
    );
    assert_eq!(
        ComparisonProfile::new(
            CohortMode::FunctionalCohort,
            owned_facets(vec![("entry_overlap", vec!["token"])]),
            vec![evidence("evidence:repository:snapshot")],
        )
        .unwrap_err()
        .kind(),
        ComparisonErrorKind::NonCanonicalFacet
    );
}

#[test]
fn curated_mode_enumerates_five_canonical_facets_including_maintenance_evidence() {
    let profile = ComparisonProfile::new(
        CohortMode::CuratedList,
        owned_facets(vec![("entry_overlap", vec!["rust"])]),
        vec![evidence("evidence:repository:snapshot")],
    )
    .unwrap();
    let curated_seed = SeedProject::new(hosted("example-org", "awesome-seed"), revision(), profile);
    let curated_candidate = CandidateDescriptor::new(
        hosted("other-org", "awesome-rust"),
        revision(),
        true,
        owned_facets(vec![("entry_overlap", vec!["rust"])]),
        Some(100),
        evidence("evidence:github:candidate-awesome"),
    )
    .unwrap();
    let value = discover(&curated_seed, &complete(vec![curated_candidate])).to_machine_value();
    let names = field(item(field(&value, "detailed_candidates"), 0), "facets")
        .as_array()
        .unwrap()
        .iter()
        .map(|facet| text(field(facet, "facet")))
        .collect::<Vec<_>>();
    assert_eq!(
        names,
        ["editorial_quality", "entry_overlap", "list_structure", "maintenance_evidence", "unique_coverage"],
        "curated comparisons enumerate all five curated criteria"
    );
    assert_eq!(field(&value, "facet_weights").as_array().unwrap().len(), 5);
    ComparisonProfile::new(
        CohortMode::CuratedList,
        owned_facets(vec![("maintenance_evidence", vec!["recent_updates"])]),
        vec![evidence("evidence:repository:snapshot")],
    )
    .unwrap();
}

#[test]
fn non_canonical_candidate_facet_tokens_never_reach_public_output() {
    let search = complete(vec![candidate(
        "leaky",
        Some(5),
        vec![("problem_overlap", vec!["scoring"]), ("custom_facet", vec!["leaked_token"])],
    )]);
    let value = discover(&seed(), &search).to_machine_value();
    let serialized = format!("{:?}", value);
    assert!(!serialized.contains("leaked_token"), "a non-canonical candidate facet token must not reach public output");
    assert!(!serialized.contains("custom_facet"), "a non-canonical candidate facet name must not reach public output");
    assert_eq!(
        field(item(field(&value, "detailed_candidates"), 0), "facets").as_array().unwrap().len(),
        4,
        "only canonical facets are enumerated"
    );
}

#[test]
fn profile_a_local_candidate_is_rejected() {
    let local = RepositorySource::local(ContentHash::parse(&format!("sha256:{}", "a".repeat(64))).unwrap());
    assert_eq!(
        CandidateDescriptor::new(
            local,
            revision(),
            false,
            owned_facets(vec![("problem_overlap", vec!["scoring"])]),
            None,
            evidence("evidence:github:candidate-local"),
        )
        .unwrap_err()
        .kind(),
        ComparisonErrorKind::CandidateNotHosted
    );
}

#[test]
fn an_unusable_search_outcome_cannot_carry_candidates() {
    for status in [EvidenceStatus::Unavailable, EvidenceStatus::Insufficient] {
        let cited = candidate("cited", Some(1), vec![("problem_overlap", vec!["scoring"])]);
        assert_eq!(
            CandidateSearchOutcome::new(status, vec![cited]).unwrap_err().kind(),
            ComparisonErrorKind::CandidatesWithoutUsableSearch
        );
        assert!(CandidateSearchOutcome::new(status, Vec::new()).is_ok());
    }
    let cited = candidate("cited", Some(1), vec![("problem_overlap", vec!["scoring"])]);
    assert!(CandidateSearchOutcome::new(EvidenceStatus::Partial, vec![cited]).is_ok());
}

#[test]
fn a_custom_facet_is_rejected_even_with_an_empty_token_list() {
    assert_eq!(
        ComparisonProfile::new(
            CohortMode::FunctionalCohort,
            owned_facets(vec![("problem_overlap", vec!["scoring"]), ("custom_facet", vec![])]),
            vec![evidence("evidence:repository:snapshot")],
        )
        .unwrap_err()
        .kind(),
        ComparisonErrorKind::NonCanonicalFacet
    );
    let profile = ComparisonProfile::new(
        CohortMode::FunctionalCohort,
        owned_facets(vec![("problem_overlap", vec!["scoring"]), ("feature_overlap", vec![])]),
        vec![evidence("evidence:repository:snapshot")],
    )
    .unwrap();
    assert_eq!(profile.facets.len(), 1, "an empty canonical facet is dropped after the check");
}

fn single_facet_seed(tokens: Vec<&str>) -> SeedProject {
    let profile = ComparisonProfile::new(
        CohortMode::FunctionalCohort,
        owned_facets(vec![("problem_overlap", tokens)]),
        vec![evidence("evidence:repository:snapshot")],
    )
    .unwrap();
    SeedProject::new(hosted("example-org", "seed"), revision(), profile)
}

fn problem_similarity(seed: &SeedProject, tokens: Vec<&str>) -> Option<u32> {
    let comparison = discover(seed, &complete(vec![candidate("cand", Some(1), vec![("problem_overlap", tokens)])]));
    let detailed = comparison.detailed_candidates();
    assert_eq!(detailed.len(), 1);
    detailed[0]
        .facet_similarities
        .iter()
        .find(|facet| facet.facet == "problem_overlap")
        .unwrap()
        .similarity_bp
}

#[test]
fn facet_similarity_is_symmetric_and_full_only_for_equal_sets() {
    let forward = problem_similarity(&single_facet_seed(vec!["a", "b"]), vec!["b", "c"]);
    let backward = problem_similarity(&single_facet_seed(vec!["b", "c"]), vec!["a", "b"]);
    assert_eq!(forward, Some(3333));
    assert_eq!(forward, backward);
    assert_eq!(problem_similarity(&single_facet_seed(vec!["a", "b"]), vec!["b", "a"]), Some(10000));
    assert_eq!(problem_similarity(&single_facet_seed(vec!["a", "b"]), vec!["a", "b", "c"]), Some(6666));
}

#[test]
fn star_counts_only_reorder_the_cohort() {
    let facets = vec![("problem_overlap", vec!["scoring"]), ("feature_overlap", vec!["cli"])];
    let other = vec![("problem_overlap", vec!["dependency_analysis", "scoring"])];
    let first = discover(
        &seed(),
        &complete(vec![candidate("x", Some(1), facets.clone()), candidate("y", Some(500), other.clone())]),
    );
    let second = discover(
        &seed(),
        &complete(vec![candidate("x", Some(900), facets.clone()), candidate("y", None, other.clone())]),
    );
    assert_eq!(first.status(), second.status());
    assert_eq!(format!("{:?}", first.evidence_ids), format!("{:?}", second.evidence_ids));
    let scores = |c: &CohortComparison| {
        let mut all = c
            .detailed_candidates()
            .iter()
            .map(|d| (d.identifier(), d.overall_similarity_bp(), d.confidence_bp))
            .collect::<Vec<_>>();
        all.sort();
        all
    };
    assert_eq!(scores(&first), scores(&second));
}

#[test]
fn custom_candidate_facets_never_change_a_comparison() {
    let plain = discover(&seed(), &complete(vec![candidate("c", Some(5), vec![("problem_overlap", vec!["scoring"])])]));
    let decorated = discover(
        &seed(),
        &complete(vec![candidate(
            "c",
            Some(5),
            vec![("problem_overlap", vec!["scoring"]), ("zz_custom", vec!["anything"])],
        )]),
    );
    assert_eq!(format!("{:?}", plain.to_machine_value()), format!("{:?}", decorated.to_machine_value()));
}

#[test]
fn every_candidate_is_placed_exactly_once() {
    let search = complete(vec![
        candidate("kept", Some(3), vec![("problem_overlap", vec!["scoring"])]),
        candidate("unrelated", Some(5), vec![("technical_similarity", vec!["rust"])]),
    ]);
    let comparison = discover(&seed(), &search);
    let ranked = comparison.detailed_candidates().len() + comparison.additional_candidates().len();
    assert_eq!(ranked + comparison.limitations.len(), 2);
    assert_eq!(comparison.detailed_candidates()[0].identifier(), "github/other-org/kept");
    assert_eq!(comparison.limitations.len(), 1);
    assert_eq!(comparison.limitations[0].code, "candidate_similarity_insufficient");
    assert_eq!(comparison.limitations[0].evidence_id.as_str(), "evidence:github:candidate-unrelated");
    assert_eq!(comparison.status(), EvidenceStatus::Partial);
}

#[test]
fn cohort_evidence_is_sorted_and_keeps_the_seed_evidence() {
    let search = complete(vec![
        candidate("b-cand", Some(3), vec![("problem_overlap", vec!["scoring"])]),
        candidate("a-cand", Some(4), vec![("problem_overlap", vec!["scoring"])]),
    ]);
    let comparison = discover(&seed(), &search);
    let ids = comparison.evidence_ids.iter().map(|id| id.as_str().to_owned()).collect::<Vec<_>>();
    let mut sorted = ids.clone();
    sorted.sort();
    sorted.dedup();
    assert_eq!(ids, sorted);
    assert!(ids.contains(&"evidence:repository:snapshot".to_owned()));
    assert_eq!(ids.len(), 3);
}

#[test]
fn a_search_answer_decides_the_cohort() {
    let policy = ComparisonPolicy::v1();
    let failed = cohort_from_search(&seed(), Err(CandidateSearchError), &policy);
    assert_eq!(failed.unwrap_err().kind(), ComparisonErrorKind::SearchFailed);
    let malformed = CandidateSearchOutcome {
        status: EvidenceStatus::Unavailable,
        candidates: vec![candidate("cited", Some(1), vec![("problem_overlap", vec!["scoring"])])],
    };
    assert_eq!(
        cohort_from_search(&seed(), Ok(malformed), &policy).unwrap_err().kind(),
        ComparisonErrorKind::SearchFailed
    );
    let outcome = CandidateSearchOutcome::new(
        EvidenceStatus::Complete,
        vec![candidate("cited", Some(1), vec![("problem_overlap", vec!["scoring"])])],
    )
    .unwrap();
    let comparison = cohort_from_search(&seed(), Ok(outcome), &policy).unwrap();
    assert_eq!(comparison.detailed_candidates()[0].identifier(), "github/other-org/cited");
    assert_eq!(comparison.status(), EvidenceStatus::Complete);
}
