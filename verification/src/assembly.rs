//! Assembly of one snapshot's raw facts and its bound file classifications
//! into a canonical project-evidence manifest.
use vstd::prelude::*;

use crate::domain::{AnalysisStatus, EvidenceId, EvidenceStatus, valid_evidence_id};
use crate::evidence::{ClassificationAvailabilityReason, EvidenceAssemblyError, EvidenceAssemblyErrorKind, RawEvidenceKind};
use crate::file_classification::{
    ClassificationEvidenceRecord, ClassificationPayload, ClassifiedSnapshotFile, binds_snapshot,
    classification_fact, classification_fact_id, entry_in_snapshot,
    law_classification_fact_ids_are_well_formed,
};
use crate::ranking::{Ranked, index_permutation, lemma_stable_rank_members, rank_stably, ranked_pair, stable_rank};
use crate::raw_facts::{
    EvidenceSourceRecord, RawEvidenceFact, RepositorySnapshot, entry_citation,
    entry_payload, opt_revision_view, opt_text_view, raw_fact_id, raw_facts, raw_facts_of,
    is_delta_fact, is_entry_fact, is_history_fact, is_snapshot_fact, law_raw_fact_ids_are_well_formed, raw_ids_valid,
};
use crate::sorted::{keys_of, sorted_unique, strictly_sorted};
use crate::text::{
    TextOrder, compare_bytes, compare_text, lemma_text_lt_irreflexive, lemma_text_lt_total,
    lemma_text_lt_transitive, text_eq, text_lt,
};

verus! {

impl Ranked for RawEvidenceFact {
    /// Identifier order.
    open spec fn rank_before(&self, other: &Self) -> bool {
        text_lt(self.id.view(), other.id.view())
    }

    proof fn lemma_rank_irreflexive(a: Self) {
        lemma_text_lt_irreflexive(a.id.view());
    }

    proof fn lemma_rank_transitive(a: Self, b: Self, c: Self) {
        lemma_text_lt_transitive(a.id.view(), b.id.view(), c.id.view());
    }

    proof fn lemma_rank_tied(a: Self, b: Self, c: Self) {
        lemma_text_lt_total(a.id.view(), b.id.view());
    }

    fn goes_before(&self, other: &Self) -> (r: bool) {
        match compare_text(self.id.as_str(), other.id.as_str()) {
            TextOrder::Less => true,
            _ => false,
        }
    }
}

impl Ranked for ClassificationEvidenceRecord {
    /// Identifier order.
    open spec fn rank_before(&self, other: &Self) -> bool {
        text_lt(self.id.view(), other.id.view())
    }

    proof fn lemma_rank_irreflexive(a: Self) {
        lemma_text_lt_irreflexive(a.id.view());
    }

    proof fn lemma_rank_transitive(a: Self, b: Self, c: Self) {
        lemma_text_lt_transitive(a.id.view(), b.id.view(), c.id.view());
    }

    proof fn lemma_rank_tied(a: Self, b: Self, c: Self) {
        lemma_text_lt_total(a.id.view(), b.id.view());
    }

    fn goes_before(&self, other: &Self) -> (r: bool) {
        match compare_text(self.id.as_str(), other.id.as_str()) {
            TextOrder::Less => true,
            _ => false,
        }
    }
}

/// A canonical typed project-evidence manifest with no scores or people.
#[derive(Debug)]
pub struct ProjectEvidenceManifest {
    pub status: AnalysisStatus,
    pub classification_policy_version: Option<String>,
    pub raw_facts: Vec<RawEvidenceFact>,
    pub classification_facts: Vec<ClassificationEvidenceRecord>,
}

impl ProjectEvidenceManifest {
    /// All identifiers, raw facts first, without merging the two lists.
    pub fn all_evidence_ids(&self) -> (r: Vec<&EvidenceId>)
        ensures
            r@.map_values(|id: &EvidenceId| id.view()) == manifest_ids(self.raw_facts@, self.classification_facts@),
    {
        let mut out: Vec<&EvidenceId> = Vec::new();
        let mut i: usize = 0;
        while i < self.raw_facts.len()
            invariant
                i <= self.raw_facts@.len(),
                out@.len() == i,
                out@.map_values(|id: &EvidenceId| id.view()) == self.raw_facts@.subrange(0, i as int).map_values(
                    |f: RawEvidenceFact| f.id.view(),
                ),
            decreases self.raw_facts.len() - i,
        {
            let ghost before = out@;
            out.push(&self.raw_facts[i].id);
            proof {
                let now = out@.map_values(|id: &EvidenceId| id.view());
                let want = self.raw_facts@.subrange(0, i + 1).map_values(|f: RawEvidenceFact| f.id.view());
                assert forall|k: int| 0 <= k < now.len() implies now[k] == want[k] by {
                    if k < i {
                        assert(before.map_values(|id: &EvidenceId| id.view())[k] == before[k].view());
                        assert(out@[k] == before[k]);
                    }
                }
                assert(now =~= want);
            }
            i = i + 1;
        }
        assert(self.raw_facts@.subrange(0, self.raw_facts@.len() as int) =~= self.raw_facts@);
        let ghost raws = self.raw_facts@.map_values(|f: RawEvidenceFact| f.id.view());
        let mut j: usize = 0;
        while j < self.classification_facts.len()
            invariant
                j <= self.classification_facts@.len(),
                out@.len() == self.raw_facts@.len() + j,
                raws == self.raw_facts@.map_values(|f: RawEvidenceFact| f.id.view()),
                out@.map_values(|id: &EvidenceId| id.view()) == raws + self.classification_facts@.subrange(
                    0,
                    j as int,
                ).map_values(|f: ClassificationEvidenceRecord| f.id.view()),
            decreases self.classification_facts.len() - j,
        {
            let ghost before = out@;
            out.push(&self.classification_facts[j].id);
            proof {
                let now = out@.map_values(|id: &EvidenceId| id.view());
                let want = raws + self.classification_facts@.subrange(0, j + 1).map_values(
                    |f: ClassificationEvidenceRecord| f.id.view(),
                );
                assert forall|k: int| 0 <= k < now.len() implies now[k] == want[k] by {
                    if k < before.len() {
                        assert(before.map_values(|id: &EvidenceId| id.view())[k] == before[k].view());
                        assert(out@[k] == before[k]);
                    }
                }
                assert(now =~= want);
            }
            j = j + 1;
        }
        assert(self.classification_facts@.subrange(0, self.classification_facts@.len() as int)
            =~= self.classification_facts@);
        out
    }

    /// Returns complete only when collection and every classification are complete.
    pub fn status(&self) -> (r: AnalysisStatus)
        ensures
            r == self.status,
    {
        self.status
    }

    /// Returns the one policy version used by all present classifications.
    pub fn classification_policy_version(&self) -> (r: Option<&str>)
        ensures
            match r {
                Some(t) => self.classification_policy_version matches Some(p) && t@ == p@,
                None => self.classification_policy_version is None,
            },
    {
        match &self.classification_policy_version {
            Some(p) => Some(p.as_str()),
            None => None,
        }
    }

    /// Returns raw facts in canonical evidence-ID order.
    pub fn raw_facts(&self) -> (r: &[RawEvidenceFact])
        ensures
            r@ == self.raw_facts@,
    {
        self.raw_facts.as_slice()
    }

    /// Returns classification facts in canonical evidence-ID order.
    pub fn classification_facts(&self) -> (r: &[ClassificationEvidenceRecord])
        ensures
            r@ == self.classification_facts@,
    {
        self.classification_facts.as_slice()
    }
}

/// Whether classification `c` names the path bytes and object of entry `i`.
pub open spec fn keys_entry(s: RepositorySnapshot, c: ClassifiedSnapshotFile, i: int) -> bool {
    c.path_bytes@ == s.entries@[i].path@ && c.object_id@ == s.entries@[i].object_id@
}

/// Whether entries `i` and `k` have the same path bytes and object.
pub open spec fn same_entry_key(s: RepositorySnapshot, i: int, k: int) -> bool {
    s.entries@[i].path@ == s.entries@[k].path@ && s.entries@[i].object_id@ == s.entries@[k].object_id@
}

/// The refusal owed to classification `i`, given that none before it was
/// refused: a foreign binding, a second policy version, or a repeat of an
/// earlier classification's path and object.
pub open spec fn binding_error_at(s: RepositorySnapshot, cls: Seq<ClassifiedSnapshotFile>, i: int) -> Option<
    EvidenceAssemblyErrorKind,
> {
    let c = cls[i];
    if !binds_snapshot(c, s) || !entry_in_snapshot(s, c.path_bytes@, c.object_id@) {
        Some(EvidenceAssemblyErrorKind::ClassificationSnapshotMismatch)
    } else if i > 0 && c.attempted_policy_version@ != cls[0].attempted_policy_version@ {
        Some(EvidenceAssemblyErrorKind::MixedClassificationPolicy)
    } else if exists|j: int|
        0 <= j < i && #[trigger] cls[j].path_bytes@ == c.path_bytes@ && cls[j].object_id@ == c.object_id@ {
        Some(EvidenceAssemblyErrorKind::DuplicateClassification)
    } else {
        None
    }
}

/// The first refusal among the first `n` classifications.
pub open spec fn binding_error(s: RepositorySnapshot, cls: Seq<ClassifiedSnapshotFile>, n: int) -> Option<
    EvidenceAssemblyErrorKind,
>
    decreases n,
{
    if n <= 0 {
        None
    } else if binding_error(s, cls, n - 1) is Some {
        binding_error(s, cls, n - 1)
    } else {
        binding_error_at(s, cls, n - 1)
    }
}

/// The identifier of the raw fact of entry `j`.
pub open spec fn entry_raw_id(s: RepositorySnapshot, j: int) -> Seq<char> {
    let e = s.entries@[j];
    raw_fact_id(s, RawEvidenceKind::TrackedFile, e.content.status, Some(e.path@), Some(e.object_id@), entry_payload(e))
}

/// The raw fact a classification of entry `i` cites: that of the last entry
/// with the same path and object.
pub open spec fn is_cited_entry(s: RepositorySnapshot, i: int, j: int) -> bool {
    &&& i <= j < s.entries@.len()
    &&& same_entry_key(s, i, j)
    &&& forall|k: int| j < k < s.entries@.len() ==> !same_entry_key(s, i, k)
}

/// The classification bound to entry `i`: the supplied one naming its path
/// and object, given to the first entry with that path and object only.
pub open spec fn bound_classification(s: RepositorySnapshot, cls: Seq<ClassifiedSnapshotFile>, i: int) -> Option<
    ClassifiedSnapshotFile,
> {
    if (forall|k: int| 0 <= k < i ==> !same_entry_key(s, k, i)) && exists|j: int| 0 <= j < cls.len() && keys_entry(s, #[trigger] cls[j], i) {
        Some(cls[choose|j: int| 0 <= j < cls.len() && keys_entry(s, #[trigger] cls[j], i)])
    } else {
        None
    }
}

/// The identifier inputs of a classification fact bound to `c`.
pub open spec fn class_inputs(c: Option<ClassifiedSnapshotFile>) -> (
    EvidenceStatus,
    Option<Seq<char>>,
    Option<ClassificationAvailabilityReason>,
    Option<ClassificationPayload>,
) {
    match c {
        Some(c) => (c.status, Some(c.attempted_policy_version@), c.reason, c.payload),
        None => (
            EvidenceStatus::Unavailable,
            None,
            Some(ClassificationAvailabilityReason::MissingClassification),
            None,
        ),
    }
}

/// `f` is the classification fact of entry `i`, citing the raw fact of entry `j`.
pub open spec fn is_class_fact(
    s: RepositorySnapshot,
    cls: Seq<ClassifiedSnapshotFile>,
    i: int,
    j: int,
    f: ClassificationEvidenceRecord,
) -> bool {
    let (status, policy, reason, payload) = class_inputs(bound_classification(s, cls, i));
    &&& is_cited_entry(s, i, j)
    &&& f.id.view() == classification_fact_id(entry_raw_id(s, j), status, policy, reason, payload)
    &&& f.status == status
    &&& f.source_evidence_id.view() == entry_raw_id(s, j)
    &&& entry_citation(s, s.entries@[i], f.source)
    &&& opt_text_view(f.attempted_policy_version) == policy
    &&& f.reason == reason
    &&& f.payload == payload
}

/// `f` is the classification fact of entry `i`.
pub open spec fn has_class_fact(
    s: RepositorySnapshot,
    cls: Seq<ClassifiedSnapshotFile>,
    i: int,
    f: ClassificationEvidenceRecord,
) -> bool {
    exists|j: int| #[trigger] is_class_fact(s, cls, i, j, f)
}

/// Whether the classification fact identifier of entry `i` is well formed.
pub open spec fn class_id_valid(s: RepositorySnapshot, cls: Seq<ClassifiedSnapshotFile>, i: int) -> bool {
    let (status, policy, reason, payload) = class_inputs(bound_classification(s, cls, i));
    forall|j: int| is_cited_entry(s, i, j) ==> valid_evidence_id(
        classification_fact_id(entry_raw_id(s, j), status, policy, reason, payload),
    )
}

/// Identifier generation never fails: every raw fact identifier of a
/// snapshot, and every classification fact identifier of each of its entries,
/// whatever classifications are supplied, is a well-formed identifier.
pub proof fn law_generated_ids_are_well_formed(s: RepositorySnapshot, cls: Seq<ClassifiedSnapshotFile>)
    ensures
        raw_ids_valid(s),
        forall|i: int| 0 <= i < s.entries@.len() ==> #[trigger] class_id_valid(s, cls, i),
{
    law_raw_fact_ids_are_well_formed(s);
    assert forall|i: int| 0 <= i < s.entries@.len() implies #[trigger] class_id_valid(s, cls, i) by {
        let (status, policy, reason, payload) = class_inputs(bound_classification(s, cls, i));
        assert forall|j: int| is_cited_entry(s, i, j) implies valid_evidence_id(
            classification_fact_id(entry_raw_id(s, j), status, policy, reason, payload),
        ) by {
            law_classification_fact_ids_are_well_formed(entry_raw_id(s, j), status, policy, reason, payload);
        }
    }
}

/// The identifiers of a manifest's facts, raw facts first.
pub open spec fn manifest_ids(raws: Seq<RawEvidenceFact>, cfs: Seq<ClassificationEvidenceRecord>) -> Seq<Seq<char>> {
    raws.map_values(|f: RawEvidenceFact| f.id.view()) + cfs.map_values(|f: ClassificationEvidenceRecord| f.id.view())
}

/// `m` is the manifest assembled from `s` and the supplied classifications:
/// every raw fact and one classification fact per entry, each list in
/// identifier order, no identifier twice; complete only when the snapshot
/// and every classification fact are complete.
pub open spec fn assembled(s: RepositorySnapshot, cls: Seq<ClassifiedSnapshotFile>, m: ProjectEvidenceManifest) -> bool {
    &&& exists|raws: Seq<RawEvidenceFact>, cfs: Seq<ClassificationEvidenceRecord>| #![trigger raw_facts_of(s, raws), stable_rank(cfs, m.classification_facts@)]
        raw_facts_of(s, raws) && stable_rank(raws, m.raw_facts@) && stable_rank(cfs, m.classification_facts@)
            && cfs.len() == s.entries@.len() && (forall|i: int| 0 <= i < cfs.len() ==> #[trigger] has_class_fact(s, cls, i, cfs[i]))
    &&& manifest_ids(m.raw_facts@, m.classification_facts@).no_duplicates()
    &&& m.status == if s.status == EvidenceStatus::Complete && forall|i: int|
        0 <= i < m.classification_facts@.len() ==> (#[trigger] m.classification_facts@[i]).status == EvidenceStatus::Complete {
        AnalysisStatus::Complete
    } else {
        AnalysisStatus::Partial
    }
    &&& opt_text_view(m.classification_policy_version) == if cls.len() > 0 {
        Some(cls[0].attempted_policy_version@)
    } else {
        None
    }
}


/// The manifest lists `mr` and `mc` order the facts assembled from `s` and
/// `cls` by identifier.
pub open spec fn lists_match(
    s: RepositorySnapshot,
    cls: Seq<ClassifiedSnapshotFile>,
    mr: Seq<RawEvidenceFact>,
    mc: Seq<ClassificationEvidenceRecord>,
) -> bool {
    exists|raws: Seq<RawEvidenceFact>, cfs: Seq<ClassificationEvidenceRecord>| #![trigger raw_facts_of(s, raws), stable_rank(cfs, mc)]
        raw_facts_of(s, raws) && stable_rank(raws, mr) && stable_rank(cfs, mc)
            && cfs.len() == s.entries@.len() && (forall|i: int| 0 <= i < cfs.len() ==> #[trigger] has_class_fact(s, cls, i, cfs[i]))
}

fn same_opt_revision(a: &Option<crate::domain::RevisionId>, b: &Option<crate::domain::RevisionId>) -> (r: bool)
    ensures
        r == (opt_revision_view(*a) == opt_revision_view(*b)),
{
    match (a, b) {
        (Some(x), Some(y)) => text_eq(x.as_str(), y.as_str()),
        (None, None) => true,
        _ => false,
    }
}

fn bytes_eq(a: &[u8], b: &[u8]) -> (r: bool)
    ensures
        r == (a@ == b@),
{
    match compare_bytes(a, b) {
        TextOrder::Equal => true,
        _ => false,
    }
}

proof fn lemma_binding_error_sticky(s: RepositorySnapshot, cls: Seq<ClassifiedSnapshotFile>, m: int, n: int)
    requires
        0 <= m <= n,
        binding_error(s, cls, m) is Some,
    ensures
        binding_error(s, cls, n) == binding_error(s, cls, m),
    decreases n - m,
{
    if n > m {
        lemma_binding_error_sticky(s, cls, m, n - 1);
    }
}

/// The first refusal owed to the supplied classifications.
fn check_bindings(s: &RepositorySnapshot, cls: &Vec<ClassifiedSnapshotFile>) -> (r: Option<EvidenceAssemblyErrorKind>)
    ensures
        r == binding_error(*s, cls@, cls@.len() as int),
{
    let mut i: usize = 0;
    while i < cls.len()
        invariant
            i <= cls@.len(),
            binding_error(*s, cls@, i as int) is None,
        decreases cls.len() - i,
    {
        let c = &cls[i];
        let ghost at = binding_error_at(*s, cls@, i as int);
        let bound = c.repository.same_as(&s.source_snapshot.source) && text_eq(
            c.revision.as_str(),
            s.source_snapshot.revision.as_str(),
        ) && same_opt_revision(&c.root_tree, &s.source_snapshot.root_tree);
        if !bound || !crate::file_classification::find_entry(s, c.path_bytes.as_slice(), c.object_id.as_str()) {
            assert(at == Some(EvidenceAssemblyErrorKind::ClassificationSnapshotMismatch));
            proof {
                lemma_binding_error_sticky(*s, cls@, i + 1, cls@.len() as int);
            }
            return Some(EvidenceAssemblyErrorKind::ClassificationSnapshotMismatch);
        }
        if i > 0 && !text_eq(c.attempted_policy_version.as_str(), cls[0].attempted_policy_version.as_str()) {
            assert(at == Some(EvidenceAssemblyErrorKind::MixedClassificationPolicy));
            proof {
                lemma_binding_error_sticky(*s, cls@, i + 1, cls@.len() as int);
            }
            return Some(EvidenceAssemblyErrorKind::MixedClassificationPolicy);
        }
        let mut j: usize = 0;
        while j < i
            invariant
                i < cls@.len(),
                j <= i,
                c == cls@[i as int],
                binds_snapshot(*c, *s),
                entry_in_snapshot(*s, c.path_bytes@, c.object_id@),
                !(i > 0 && c.attempted_policy_version@ != cls@[0].attempted_policy_version@),
                at == binding_error_at(*s, cls@, i as int),
                binding_error(*s, cls@, i as int) is None,
                forall|k: int| 0 <= k < j ==> !(#[trigger] cls@[k].path_bytes@ == c.path_bytes@ && cls@[k].object_id@ == c.object_id@),
            decreases i - j,
        {
            if bytes_eq(cls[j].path_bytes.as_slice(), c.path_bytes.as_slice()) && text_eq(
                cls[j].object_id.as_str(),
                c.object_id.as_str(),
            ) {
                assert(cls@[j as int].path_bytes@ == c.path_bytes@ && cls@[j as int].object_id@ == c.object_id@);
                assert(at == Some(EvidenceAssemblyErrorKind::DuplicateClassification));
                proof {
                    lemma_binding_error_sticky(*s, cls@, i + 1, cls@.len() as int);
                }
                return Some(EvidenceAssemblyErrorKind::DuplicateClassification);
            }
            j = j + 1;
        }
        assert(at is None);
        i = i + 1;
    }
    None
}

/// The last entry from `i` on with the same path and object as entry `i`.
fn cited_entry(s: &RepositorySnapshot, i: usize) -> (j: usize)
    requires
        i < s.entries@.len(),
    ensures
        is_cited_entry(*s, i as int, j as int),
{
    let n = s.entries.len();
    let mut k: usize = n - 1;
    while k > i
        invariant
            i <= k < n,
            n == s.entries@.len(),
            forall|q: int| k < q < n ==> !same_entry_key(*s, i as int, q),
        decreases k,
    {
        let e = &s.entries[k];
        if bytes_eq(e.path.as_slice(), s.entries[i].path.as_slice()) && text_eq(
            e.object_id.as_str(),
            s.entries[i].object_id.as_str(),
        ) {
            return k;
        }
        k = k - 1;
    }
    k
}

/// Whether an entry before `i` already claimed classification `c`.
pub open spec fn claimed_before(s: RepositorySnapshot, c: ClassifiedSnapshotFile, i: int) -> bool {
    exists|e: int| 0 <= e < i && #[trigger] keys_entry(s, c, e)
}

/// The slot of classification `k` once the entries before `i` took theirs.
pub open spec fn slot_after(s: RepositorySnapshot, cls: Seq<ClassifiedSnapshotFile>, k: int, i: int) -> Option<
    ClassifiedSnapshotFile,
> {
    if claimed_before(s, cls[k], i) {
        None
    } else {
        Some(cls[k])
    }
}

/// No two classifications name the same path and object.
pub open spec fn distinct_keys(cls: Seq<ClassifiedSnapshotFile>) -> bool {
    forall|j1: int, j2: int|
        0 <= j1 < cls.len() && 0 <= j2 < cls.len() && j1 != j2 ==> !(#[trigger] cls[j1].path_bytes@
            == #[trigger] cls[j2].path_bytes@ && cls[j1].object_id@ == cls[j2].object_id@)
}

proof fn lemma_claimed_step(s: RepositorySnapshot, c: ClassifiedSnapshotFile, i: int)
    requires
        0 <= i,
    ensures
        claimed_before(s, c, i + 1) == (claimed_before(s, c, i) || keys_entry(s, c, i)),
{
    if claimed_before(s, c, i + 1) && !keys_entry(s, c, i) {
        let e = choose|e: int| 0 <= e < i + 1 && #[trigger] keys_entry(s, c, e);
        assert(keys_entry(s, c, e));
    }
    if claimed_before(s, c, i) {
        let e = choose|e: int| 0 <= e < i && #[trigger] keys_entry(s, c, e);
        assert(keys_entry(s, c, e));
    }
}

/// Takes the classification naming entry `i` from its slot, if any.
fn take_bound(
    s: &RepositorySnapshot,
    slots: &mut Vec<Option<ClassifiedSnapshotFile>>,
    i: usize,
    Ghost(cls): Ghost<Seq<ClassifiedSnapshotFile>>,
) -> (r: Option<ClassifiedSnapshotFile>)
    requires
        i < s.entries@.len(),
        distinct_keys(cls),
        old(slots)@.len() == cls.len(),
        forall|k: int| 0 <= k < cls.len() ==> #[trigger] old(slots)@[k] == slot_after(*s, cls, k, i as int),
    ensures
        r == bound_classification(*s, cls, i as int),
        final(slots)@.len() == cls.len(),
        forall|k: int| 0 <= k < cls.len() ==> #[trigger] final(slots)@[k] == slot_after(*s, cls, k, i + 1),
{
    let ghost old_slots = slots@;
    proof {
        assert forall|k: int| 0 <= k < cls.len() implies claimed_before(*s, #[trigger] cls[k], i + 1) == (claimed_before(*s, cls[k], i as int) || keys_entry(*s, cls[k], i as int)) by {
            lemma_claimed_step(*s, cls[k], i as int);
        }
    }
    let mut k: usize = 0;
    while k < slots.len()
        invariant
            slots@ == old_slots,
            old_slots.len() == cls.len(),
            k <= cls.len(),
            i < s.entries@.len(),
            forall|q: int| 0 <= q < cls.len() ==> #[trigger] old_slots[q] == slot_after(*s, cls, q, i as int),
            forall|q: int| 0 <= q < k ==> old_slots[q] is None || !keys_entry(*s, #[trigger] cls[q], i as int),
            distinct_keys(cls),
            forall|q: int| 0 <= q < cls.len() ==> claimed_before(*s, #[trigger] cls[q], i + 1) == (claimed_before(*s, cls[q], i as int) || keys_entry(*s, cls[q], i as int)),
        decreases slots.len() - k,
    {
        let hit = match &slots[k] {
            Some(c) => bytes_eq(c.path_bytes.as_slice(), s.entries[i].path.as_slice()) && text_eq(
                c.object_id.as_str(),
                s.entries[i].object_id.as_str(),
            ),
            None => false,
        };
        if hit {
            let taken = slots.remove(k);
            slots.insert(k, None);
            proof {
                let kk = k as int;
                assert(old_slots[kk] == Some(cls[kk]));
                assert(keys_entry(*s, cls[kk], i as int));
                assert(!claimed_before(*s, cls[kk], i as int));
                assert forall|e: int| 0 <= e < i implies !same_entry_key(*s, e, i as int) by {
                    if same_entry_key(*s, e, i as int) {
                        assert(keys_entry(*s, cls[kk], e));
                    }
                }
                let jc = choose|jj: int| 0 <= jj < cls.len() && keys_entry(*s, #[trigger] cls[jj], i as int);
                if jc != kk {
                    assert(cls[jc].path_bytes@ == cls[kk].path_bytes@ && cls[jc].object_id@ == cls[kk].object_id@);
                }
                assert forall|q: int| 0 <= q < cls.len() implies #[trigger] slots@[q] == slot_after(*s, cls, q, i + 1) by {
                    if q != kk {
                        assert(slots@[q] == old_slots[q]);
                        if keys_entry(*s, cls[q], i as int) {
                            assert(cls[q].path_bytes@ == cls[kk].path_bytes@ && cls[q].object_id@ == cls[kk].object_id@);
                        }
                    }
                }
            }
            return taken;
        }
        k = k + 1;
    }
    proof {
        if (forall|e: int| 0 <= e < i ==> !same_entry_key(*s, e, i as int)) && exists|j: int| 0 <= j < cls.len() && keys_entry(*s, #[trigger] cls[j], i as int) {
            let j = choose|j: int| 0 <= j < cls.len() && keys_entry(*s, #[trigger] cls[j], i as int);
            if claimed_before(*s, cls[j], i as int) {
                let e = choose|e: int| 0 <= e < i && #[trigger] keys_entry(*s, cls[j], e);
                assert(same_entry_key(*s, e, i as int));
            }
            assert(old_slots[j] == Some(cls[j]));
        }
        assert forall|q: int| 0 <= q < cls.len() implies #[trigger] slots@[q] == slot_after(*s, cls, q, i + 1) by {
            assert(old_slots[q] == slot_after(*s, cls, q, i as int));
        }
    }
    None
}


proof fn lemma_no_binding_error_distinct(s: RepositorySnapshot, cls: Seq<ClassifiedSnapshotFile>, n: int)
    requires
        0 <= n <= cls.len(),
        binding_error(s, cls, n) is None,
    ensures
        forall|j1: int, j2: int|
            0 <= j1 < n && 0 <= j2 < n && j1 != j2 ==> !(#[trigger] cls[j1].path_bytes@
                == #[trigger] cls[j2].path_bytes@ && cls[j1].object_id@ == cls[j2].object_id@),
    decreases n,
{
    if n > 0 {
        lemma_no_binding_error_distinct(s, cls, n - 1);
        assert(binding_error_at(s, cls, n - 1) is None);
        assert forall|j1: int, j2: int|
            0 <= j1 < n && 0 <= j2 < n && j1 != j2 implies !(#[trigger] cls[j1].path_bytes@
                == #[trigger] cls[j2].path_bytes@ && cls[j1].object_id@ == cls[j2].object_id@) by {
            if j2 == n - 1 && j1 < n - 1 {
                if cls[j1].path_bytes@ == cls[j2].path_bytes@ && cls[j1].object_id@ == cls[j2].object_id@ {
                    assert(cls[j1].path_bytes@ == cls[n - 1].path_bytes@);
                }
            } else if j1 == n - 1 && j2 < n - 1 {
                if cls[j1].path_bytes@ == cls[j2].path_bytes@ && cls[j1].object_id@ == cls[j2].object_id@ {
                    assert(cls[j2].path_bytes@ == cls[n - 1].path_bytes@);
                }
            }
        }
    }
}

/// The identifier texts of a list of evidence identifiers have no repeat
/// exactly when sorting them with repeats removed keeps every one.
proof fn lemma_distinct_by_dedup(ids: Seq<Seq<char>>, u: Seq<Seq<char>>)
    requires
        strictly_sorted(u),
        u.to_set() == ids.to_set(),
    ensures
        ids.no_duplicates() <==> u.len() == ids.len(),
{
    crate::sorted::lemma_strictly_sorted_no_duplicates(u);
    u.unique_seq_to_set();
    if ids.no_duplicates() {
        ids.unique_seq_to_set();
    }
    if u.len() == ids.len() {
        ids.lemma_no_dup_set_cardinality();
    }
}

/// Builds the classification fact of entry `i`, taking its bound
/// classification from the slots.
#[verifier::rlimit(30)]
fn entry_class_fact(
    s: &RepositorySnapshot,
    raws: &Vec<RawEvidenceFact>,
    slots: &mut Vec<Option<ClassifiedSnapshotFile>>,
    i: usize,
    Ghost(cls): Ghost<Seq<ClassifiedSnapshotFile>>,
) -> (r: Result<ClassificationEvidenceRecord, EvidenceAssemblyError>)
    requires
        raw_facts_of(*s, raws@),
        distinct_keys(cls),
        i < s.entries@.len(),
        old(slots)@.len() == cls.len(),
        forall|k: int| 0 <= k < cls.len() ==> #[trigger] old(slots)@[k] == slot_after(*s, cls, k, i as int),
    ensures
        final(slots)@.len() == cls.len(),
        forall|k: int| 0 <= k < cls.len() ==> #[trigger] final(slots)@[k] == slot_after(*s, cls, k, i + 1),
        r is Ok <==> class_id_valid(*s, cls, i as int),
        r matches Ok(f) ==> has_class_fact(*s, cls, i as int, f),
        r matches Err(e) ==> e.kind == EvidenceAssemblyErrorKind::EvidenceIdGeneration,
{
    let j = cited_entry(s, i);
    let raw_count = raws.len();
    assert(raw_count == s.entries@.len() + 3);
    let raw_id = &raws[j + 1].id;
    proof {
        assert(crate::raw_facts::is_entry_fact(*s, s.entries@[j as int], raws@[j + 1]));
        assert(raw_id.view() == entry_raw_id(*s, j as int));
        assert forall|jj: int| is_cited_entry(*s, i as int, jj) implies jj == j by {
            if jj != j {
                if jj < j {
                    assert(same_entry_key(*s, i as int, j as int));
                } else {
                    assert(same_entry_key(*s, i as int, jj));
                }
            }
        }
    }
    let source = EvidenceSourceRecord::entry(s, &s.entries[i]);
    let bound = take_bound(s, slots, i, Ghost(cls));
    let r = classification_fact(raw_id, source, bound);
    proof {
        if r is Ok {
            assert(is_class_fact(*s, cls, i as int, j as int, r->Ok_0));
        }
    }
    r
}

/// Combines one immutable snapshot with the classifications bound to its
/// entries.
///
/// A missing classification becomes an explicit unavailable, citable record.
/// Foreign, repeated and mixed-policy classifications are refused, in the
/// order supplied; two facts with the same identifier fail the assembly.
/// Generated identifiers are always well formed, so identifier generation
/// itself never fails.
#[verifier::rlimit(50)]
pub fn assemble_project_evidence(s: &RepositorySnapshot, classifications: Vec<ClassifiedSnapshotFile>) -> (r: Result<
    ProjectEvidenceManifest,
    EvidenceAssemblyError,
>)
    requires
        s.wf(),
    ensures
        match binding_error(*s, classifications@, classifications@.len() as int) {
            Some(k) => (r matches Err(e) && e.kind == k),
            None => match r {
                Ok(m) => assembled(*s, classifications@, m),
                Err(e) => e.kind == EvidenceAssemblyErrorKind::EvidenceIdCollision && exists|
                    mr: Seq<RawEvidenceFact>,
                    mc: Seq<ClassificationEvidenceRecord>,
                | #[trigger] lists_match(*s, classifications@, mr, mc) && !manifest_ids(mr, mc).no_duplicates(),
            },
        },
{
    let ghost cls = classifications@;
    let raws = match raw_facts(s) {
        Ok(v) => v,
        Err(e) => {
            return Err(e);
        },
    };
    match check_bindings(s, &classifications) {
        Some(k) => {
            return Err(EvidenceAssemblyError::new(k));
        },
        None => {},
    }
    proof {
        lemma_no_binding_error_distinct(*s, cls, cls.len() as int);
    }
    let policy: Option<String> = if classifications.len() > 0 {
        Some(crate::text::owned(classifications[0].attempted_policy_version.as_str()))
    } else {
        None
    };
    // Align one slot with each classification, in order.
    let mut rest = classifications;
    let mut reversed: Vec<ClassifiedSnapshotFile> = Vec::new();
    while rest.len() > 0
        invariant
            rest@.len() + reversed@.len() == cls.len(),
            forall|k: int| 0 <= k < rest@.len() ==> #[trigger] rest@[k] == cls[k],
            forall|k: int| 0 <= k < reversed@.len() ==> #[trigger] reversed@[k] == cls[cls.len() - 1 - k],
        decreases rest.len(),
    {
        let c = rest.pop().unwrap();
        reversed.push(c);
    }
    let mut slots: Vec<Option<ClassifiedSnapshotFile>> = Vec::new();
    while reversed.len() > 0
        invariant
            slots@.len() + reversed@.len() == cls.len(),
            forall|k: int| 0 <= k < reversed@.len() ==> #[trigger] reversed@[k] == cls[cls.len() - 1 - k],
            forall|k: int| 0 <= k < slots@.len() ==> #[trigger] slots@[k] == Some(cls[k]),
        decreases reversed.len(),
    {
        let c = reversed.pop().unwrap();
        slots.push(Some(c));
    }
    proof {
        assert forall|k: int| 0 <= k < cls.len() implies #[trigger] slots@[k] == slot_after(*s, cls, k, 0) by {
            assert(!claimed_before(*s, cls[k], 0));
        }
    }
    let mut cfs: Vec<ClassificationEvidenceRecord> = Vec::new();
    let mut i: usize = 0;
    while i < s.entries.len()
        invariant
            s.wf(),
            raw_facts_of(*s, raws@),
            cls == classifications@,
            binding_error(*s, cls, cls.len() as int) is None,
            distinct_keys(cls),
            i <= s.entries@.len(),
            slots@.len() == cls.len(),
            forall|k: int| 0 <= k < cls.len() ==> #[trigger] slots@[k] == slot_after(*s, cls, k, i as int),
            cfs@.len() == i,
            forall|k: int| 0 <= k < i ==> #[trigger] has_class_fact(*s, cls, k, cfs@[k]),
            forall|k: int| 0 <= k < i ==> #[trigger] class_id_valid(*s, cls, k),
        decreases s.entries.len() - i,
    {
        let ghost old_cfs = cfs@;
        match entry_class_fact(s, &raws, &mut slots, i, Ghost(cls)) {
            Ok(f) => {
                cfs.push(f);
                proof {
                    assert forall|k: int| 0 <= k < i + 1 implies #[trigger] has_class_fact(*s, cls, k, cfs@[k]) by {
                        if k < i {
                            assert(cfs@[k] == old_cfs[k]);
                        }
                    }
                }
            },
            Err(e) => {
                proof {
                    law_generated_ids_are_well_formed(*s, cls);
                    assert(!class_id_valid(*s, cls, i as int));
                }
                return Err(e);
            },
        }
        i = i + 1;
    }
    let ghost raws_in = raws@;
    let ghost cfs_in = cfs@;
    let sorted_raws = rank_stably(raws);
    let sorted_cfs = rank_stably(cfs);
    proof {
        assert(lists_match(*s, cls, sorted_raws@, sorted_cfs@)) by {
            assert(raw_facts_of(*s, raws_in) && stable_rank(cfs_in, sorted_cfs@));
        }
    }
    // Every identifier, raw facts first.
    let mut ids: Vec<EvidenceId> = Vec::new();
    let mut k: usize = 0;
    while k < sorted_raws.len()
        invariant
            k <= sorted_raws@.len(),
            keys_of(ids@) == sorted_raws@.subrange(0, k as int).map_values(|f: RawEvidenceFact| f.id.view()),
        decreases sorted_raws.len() - k,
    {
        let ghost prev = keys_of(ids@);
        let id = sorted_raws[k].id.copy();
        ids.push(id);
        assert(keys_of(ids@) =~= prev.push(id.view()));
        assert(sorted_raws@.subrange(0, k + 1).map_values(|f: RawEvidenceFact| f.id.view()) =~= sorted_raws@.subrange(0, k as int).map_values(|f: RawEvidenceFact| f.id.view()).push(sorted_raws@[k as int].id.view()));
        k = k + 1;
    }
    assert(sorted_raws@.subrange(0, sorted_raws@.len() as int) =~= sorted_raws@);
    let ghost raw_part = keys_of(ids@);
    let mut q: usize = 0;
    while q < sorted_cfs.len()
        invariant
            q <= sorted_cfs@.len(),
            keys_of(ids@) == raw_part + sorted_cfs@.subrange(0, q as int).map_values(|f: ClassificationEvidenceRecord| f.id.view()),
        decreases sorted_cfs.len() - q,
    {
        let ghost prev = keys_of(ids@);
        let id = sorted_cfs[q].id.copy();
        ids.push(id);
        assert(keys_of(ids@) =~= prev.push(id.view()));
        assert(sorted_cfs@.subrange(0, q + 1).map_values(|f: ClassificationEvidenceRecord| f.id.view()) =~= sorted_cfs@.subrange(0, q as int).map_values(|f: ClassificationEvidenceRecord| f.id.view()).push(sorted_cfs@[q as int].id.view()));
        q = q + 1;
    }
    assert(sorted_cfs@.subrange(0, sorted_cfs@.len() as int) =~= sorted_cfs@);
    assert(keys_of(ids@) == manifest_ids(sorted_raws@, sorted_cfs@));
    let total = ids.len();
    let ghost all_ids = keys_of(ids@);
    let unique = sorted_unique(ids);
    proof {
        lemma_distinct_by_dedup(all_ids, keys_of(unique@));
    }
    if unique.len() != total {
        return Err(EvidenceAssemblyError::new(EvidenceAssemblyErrorKind::EvidenceIdCollision));
    }
    let mut complete = match s.status {
        EvidenceStatus::Complete => true,
        _ => false,
    };
    let mut c: usize = 0;
    while c < sorted_cfs.len()
        invariant
            c <= sorted_cfs@.len(),
            complete == (s.status == EvidenceStatus::Complete && forall|x: int| 0 <= x < c ==> (#[trigger] sorted_cfs@[x]).status == EvidenceStatus::Complete),
        decreases sorted_cfs.len() - c,
    {
        match sorted_cfs[c].status {
            EvidenceStatus::Complete => {},
            _ => {
                complete = false;
            },
        }
        c = c + 1;
    }
    let m = ProjectEvidenceManifest {
        status: if complete {
            AnalysisStatus::Complete
        } else {
            AnalysisStatus::Partial
        },
        classification_policy_version: policy,
        raw_facts: sorted_raws,
        classification_facts: sorted_cfs,
    };
    proof {
        assert(stable_rank(cfs_in, m.classification_facts@));
        assert(raw_facts_of(*s, raws_in));
    }
    Ok(m)
}


/// A tracked file that no supplied classification covers keeps an explicit
/// classification record in the manifest: unavailable, for a missing
/// classification, with no payload, rather than being left out.
pub proof fn law_unclassified_files_stay_explicit(
    s: RepositorySnapshot,
    cls: Seq<ClassifiedSnapshotFile>,
    m: ProjectEvidenceManifest,
    i: int,
)
    requires
        assembled(s, cls, m),
        0 <= i < s.entries@.len(),
        bound_classification(s, cls, i) is None,
    ensures
        exists|k: int|
            0 <= k < m.classification_facts@.len() && (#[trigger] m.classification_facts@[k]).status
                == EvidenceStatus::Unavailable && m.classification_facts@[k].reason == Some(
                ClassificationAvailabilityReason::MissingClassification,
            ) && m.classification_facts@[k].payload is None,
{
    let (raws, cfs) = choose|raws: Seq<RawEvidenceFact>, cfs: Seq<ClassificationEvidenceRecord>| #![trigger raw_facts_of(s, raws), stable_rank(cfs, m.classification_facts@)]
        raw_facts_of(s, raws) && stable_rank(raws, m.raw_facts@) && stable_rank(cfs, m.classification_facts@)
            && cfs.len() == s.entries@.len() && (forall|i: int| 0 <= i < cfs.len() ==> #[trigger] has_class_fact(s, cls, i, cfs[i]));
    assert(has_class_fact(s, cls, i, cfs[i]));
    let j = choose|j: int| #[trigger] is_class_fact(s, cls, i, j, cfs[i]);
    assert(is_class_fact(s, cls, i, j, cfs[i]));
    let out = m.classification_facts@;
    let perm = choose|perm: Seq<int>| #[trigger]
        index_permutation(perm, cfs.len() as int) && out.len() == cfs.len() && (forall|a: int|
            0 <= a < out.len() ==> out[a] == cfs[#[trigger] perm[a]]) && (forall|a: int, b: int|
            0 <= a < b < out.len() ==> ranked_pair(
                #[trigger] out[a],
                perm[a],
                #[trigger] out[b],
                perm[b],
            ));
    crate::ranking::lemma_permutation_onto(perm, cfs.len() as int, i);
    let k = choose|p: int| 0 <= p < cfs.len() && perm[p] == i;
    assert(out[k] == cfs[i]);
}

/// With no binding refused, every classification carries the first one's
/// policy version.
proof fn lemma_no_binding_error_one_policy(s: RepositorySnapshot, cls: Seq<ClassifiedSnapshotFile>, n: int)
    requires
        0 <= n <= cls.len(),
        binding_error(s, cls, n) is None,
    ensures
        forall|i: int|
            0 <= i < n ==> (#[trigger] cls[i]).attempted_policy_version@ == cls[0].attempted_policy_version@,
    decreases n,
{
    if n > 0 {
        assert(binding_error(s, cls, n - 1) is None);
        lemma_no_binding_error_one_policy(s, cls, n - 1);
        assert(binding_error_at(s, cls, n - 1) is None);
    }
}

/// The classification bound to an entry depends only on which
/// classifications are supplied, when no two share a path and object.
proof fn lemma_bound_classification_by_contents(
    s: RepositorySnapshot,
    c1: Seq<ClassifiedSnapshotFile>,
    c2: Seq<ClassifiedSnapshotFile>,
    i: int,
)
    requires
        distinct_keys(c1),
        distinct_keys(c2),
        forall|x: ClassifiedSnapshotFile| c1.contains(x) <==> c2.contains(x),
    ensures
        bound_classification(s, c1, i) == bound_classification(s, c2, i),
{
    if exists|j: int| 0 <= j < c1.len() && keys_entry(s, #[trigger] c1[j], i) {
        let j1 = choose|j: int| 0 <= j < c1.len() && keys_entry(s, #[trigger] c1[j], i);
        let x = c1[j1];
        assert(c1.contains(x));
        assert(c2.contains(x));
        let q = choose|q: int| 0 <= q < c2.len() && c2[q] == x;
        assert(keys_entry(s, c2[q], i));
        assert forall|p: int| 0 <= p < c1.len() && keys_entry(s, #[trigger] c1[p], i) implies c1[p] == x by {
            if p != j1 {
                assert(c1[p].path_bytes@ == c1[j1].path_bytes@);
            }
        }
        assert forall|p: int| 0 <= p < c2.len() && keys_entry(s, #[trigger] c2[p], i) implies c2[p] == x by {
            if p != q {
                assert(c2[p].path_bytes@ == c2[q].path_bytes@);
            }
        }
    } else {
        if exists|j: int| 0 <= j < c2.len() && keys_entry(s, #[trigger] c2[j], i) {
            let j2 = choose|j: int| 0 <= j < c2.len() && keys_entry(s, #[trigger] c2[j], i);
            assert(c2.contains(c2[j2]));
            assert(c1.contains(c2[j2]));
            let q = choose|q: int| 0 <= q < c1.len() && c1[q] == c2[j2];
            assert(keys_entry(s, c1[q], i));
        }
    }
}

/// Classification `i` names an entry of the snapshot and carries the first
/// classification's policy version.
pub open spec fn accepted_at(s: RepositorySnapshot, cls: Seq<ClassifiedSnapshotFile>, i: int) -> bool {
    &&& binds_snapshot(cls[i], s)
    &&& entry_in_snapshot(s, cls[i].path_bytes@, cls[i].object_id@)
    &&& cls[i].attempted_policy_version@ == cls[0].attempted_policy_version@
}

/// The first `n` classifications are accepted without a refusal exactly when
/// each names an entry of the snapshot it is bound to, all carry the first
/// one's policy version, and no two name the same path and object.
pub proof fn law_bindings_are_refused_only_for_a_fault(s: RepositorySnapshot, cls: Seq<ClassifiedSnapshotFile>, n: int)
    requires
        0 <= n <= cls.len(),
    ensures
        binding_error(s, cls, n) is None <==> (forall|i: int| 0 <= i < n ==> #[trigger] accepted_at(s, cls, i))
            && (forall|j1: int, j2: int|
            0 <= j1 < n && 0 <= j2 < n && j1 != j2 ==> !(#[trigger] cls[j1].path_bytes@
                == #[trigger] cls[j2].path_bytes@ && cls[j1].object_id@ == cls[j2].object_id@)),
    decreases n,
{
    if n > 0 {
        law_bindings_are_refused_only_for_a_fault(s, cls, n - 1);
        let k = n - 1;
        if binding_error(s, cls, n) is None {
            assert(binding_error(s, cls, k) is None);
            assert(binding_error_at(s, cls, k) is None);
            lemma_no_binding_error_distinct(s, cls, n);
            assert forall|i: int| 0 <= i < n implies #[trigger] accepted_at(s, cls, i) by {
                if i < k {
                    assert(accepted_at(s, cls, i));
                }
            }
        } else {
            if (forall|i: int| 0 <= i < n ==> #[trigger] accepted_at(s, cls, i)) && (forall|j1: int, j2: int|
                0 <= j1 < n && 0 <= j2 < n && j1 != j2 ==> !(#[trigger] cls[j1].path_bytes@
                    == #[trigger] cls[j2].path_bytes@ && cls[j1].object_id@ == cls[j2].object_id@)) {
                assert forall|i: int| 0 <= i < k implies #[trigger] accepted_at(s, cls, i) by {
                    assert(accepted_at(s, cls, i));
                }
                assert(binding_error(s, cls, k) is None);
                assert(accepted_at(s, cls, k));
                if exists|j: int|
                    0 <= j < k && #[trigger] cls[j].path_bytes@ == cls[k].path_bytes@ && cls[j].object_id@
                        == cls[k].object_id@ {
                    let j = choose|j: int|
                        0 <= j < k && #[trigger] cls[j].path_bytes@ == cls[k].path_bytes@ && cls[j].object_id@
                            == cls[k].object_id@;
                    assert(cls[j].path_bytes@ == cls[k].path_bytes@);
                }
                assert(binding_error_at(s, cls, k) is None);
            }
        }
    }
}

/// Whether a binding is refused does not depend on the order in which the
/// classifications are supplied.
proof fn lemma_acceptance_is_order_free(
    s: RepositorySnapshot,
    cls1: Seq<ClassifiedSnapshotFile>,
    cls2: Seq<ClassifiedSnapshotFile>,
)
    requires
        cls1.to_multiset() == cls2.to_multiset(),
        binding_error(s, cls1, cls1.len() as int) is None,
    ensures
        binding_error(s, cls2, cls2.len() as int) is None,
{
    vstd::seq_lib::to_multiset_len(cls1);
    vstd::seq_lib::to_multiset_len(cls2);
    law_bindings_are_refused_only_for_a_fault(s, cls1, cls1.len() as int);
    law_bindings_are_refused_only_for_a_fault(s, cls2, cls2.len() as int);
    assert forall|x: ClassifiedSnapshotFile| cls1.contains(x) <==> cls2.contains(x) by {
        vstd::seq_lib::to_multiset_contains(cls1, x);
        vstd::seq_lib::to_multiset_contains(cls2, x);
    }
    assert(cls1.no_duplicates()) by {
        assert forall|i: int, j: int| 0 <= i < cls1.len() && 0 <= j < cls1.len() && i != j implies cls1[i]
            != cls1[j] by {
            assert(!(cls1[i].path_bytes@ == cls1[j].path_bytes@ && cls1[i].object_id@ == cls1[j].object_id@));
        }
    }
    cls1.lemma_multiset_has_no_duplicates();
    cls2.lemma_multiset_has_no_duplicates_conv();
    if cls2.len() > 0 {
        assert(cls1.contains(cls2[0]));
        let q0 = choose|q: int| 0 <= q < cls1.len() && cls1[q] == cls2[0];
        assert(accepted_at(s, cls1, q0));
        assert forall|i: int| 0 <= i < cls2.len() implies #[trigger] accepted_at(s, cls2, i) by {
            assert(cls1.contains(cls2[i]));
            let q = choose|q: int| 0 <= q < cls1.len() && cls1[q] == cls2[i];
            assert(accepted_at(s, cls1, q));
        }
        assert forall|j1: int, j2: int|
            0 <= j1 < cls2.len() && 0 <= j2 < cls2.len() && j1 != j2 implies !(#[trigger] cls2[j1].path_bytes@
                == #[trigger] cls2[j2].path_bytes@ && cls2[j1].object_id@ == cls2[j2].object_id@) by {
            assert(cls2[j1] != cls2[j2]);
            assert(cls1.contains(cls2[j1]));
            assert(cls1.contains(cls2[j2]));
            let q1 = choose|q: int| 0 <= q < cls1.len() && cls1[q] == cls2[j1];
            let q2 = choose|q: int| 0 <= q < cls1.len() && cls1[q] == cls2[j2];
            assert(q1 != q2);
            assert(!(cls1[q1].path_bytes@ == cls1[q2].path_bytes@ && cls1[q1].object_id@ == cls1[q2].object_id@));
        }
    }
}

/// The order in which classifications are supplied is immaterial once they
/// are accepted: any reordering of classifications accepted without a
/// binding refusal is accepted too, and assembles exactly the same manifests
/// and manifest lists. (Which refusal is reported for a refused set follows
/// the supplied order.)
pub proof fn law_classification_order_is_immaterial(
    s: RepositorySnapshot,
    cls1: Seq<ClassifiedSnapshotFile>,
    cls2: Seq<ClassifiedSnapshotFile>,
    m: ProjectEvidenceManifest,
)
    requires
        cls1.to_multiset() == cls2.to_multiset(),
        binding_error(s, cls1, cls1.len() as int) is None,
    ensures
        binding_error(s, cls2, cls2.len() as int) is None,
        assembled(s, cls1, m) <==> assembled(s, cls2, m),
        forall|mr: Seq<RawEvidenceFact>, mc: Seq<ClassificationEvidenceRecord>|
            #[trigger] lists_match(s, cls1, mr, mc) <==> lists_match(s, cls2, mr, mc),
{
    lemma_acceptance_is_order_free(s, cls1, cls2);
    lemma_no_binding_error_distinct(s, cls1, cls1.len() as int);
    lemma_no_binding_error_distinct(s, cls2, cls2.len() as int);
    assert forall|x: ClassifiedSnapshotFile| cls1.contains(x) <==> cls2.contains(x) by {
        vstd::seq_lib::to_multiset_contains(cls1, x);
        vstd::seq_lib::to_multiset_contains(cls2, x);
    }
    assert forall|i: int, f: ClassificationEvidenceRecord| #[trigger] has_class_fact(s, cls1, i, f) <==> has_class_fact(
        s,
        cls2,
        i,
        f,
    ) by {
        lemma_bound_classification_by_contents(s, cls1, cls2, i);
        if has_class_fact(s, cls1, i, f) {
            let j = choose|j: int| #[trigger] is_class_fact(s, cls1, i, j, f);
            assert(is_class_fact(s, cls2, i, j, f));
        }
        if has_class_fact(s, cls2, i, f) {
            let j = choose|j: int| #[trigger] is_class_fact(s, cls2, i, j, f);
            assert(is_class_fact(s, cls1, i, j, f));
        }
    }
    vstd::seq_lib::to_multiset_len(cls1);
    vstd::seq_lib::to_multiset_len(cls2);
    assert forall|mr: Seq<RawEvidenceFact>, mc: Seq<ClassificationEvidenceRecord>|
        #[trigger] lists_match(s, cls1, mr, mc) <==> lists_match(s, cls2, mr, mc) by {
        if lists_match(s, cls1, mr, mc) {
            let (raws, cfs) = choose|raws: Seq<RawEvidenceFact>, cfs: Seq<ClassificationEvidenceRecord>| #![trigger raw_facts_of(s, raws), stable_rank(cfs, mc)]
                raw_facts_of(s, raws) && stable_rank(raws, mr) && stable_rank(cfs, mc)
                    && cfs.len() == s.entries@.len() && (forall|i: int| 0 <= i < cfs.len() ==> #[trigger] has_class_fact(s, cls1, i, cfs[i]));
            assert forall|i: int| 0 <= i < cfs.len() implies #[trigger] has_class_fact(s, cls2, i, cfs[i]) by {
                assert(has_class_fact(s, cls1, i, cfs[i]));
            }
        }
        if lists_match(s, cls2, mr, mc) {
            let (raws, cfs) = choose|raws: Seq<RawEvidenceFact>, cfs: Seq<ClassificationEvidenceRecord>| #![trigger raw_facts_of(s, raws), stable_rank(cfs, mc)]
                raw_facts_of(s, raws) && stable_rank(raws, mr) && stable_rank(cfs, mc)
                    && cfs.len() == s.entries@.len() && (forall|i: int| 0 <= i < cfs.len() ==> #[trigger] has_class_fact(s, cls2, i, cfs[i]));
            assert forall|i: int| 0 <= i < cfs.len() implies #[trigger] has_class_fact(s, cls1, i, cfs[i]) by {
                assert(has_class_fact(s, cls2, i, cfs[i]));
            }
        }
    }
    assert(lists_match(s, cls1, m.raw_facts@, m.classification_facts@) <==> lists_match(
        s,
        cls2,
        m.raw_facts@,
        m.classification_facts@,
    ));
    if cls1.len() > 0 {
        lemma_no_binding_error_one_policy(s, cls1, cls1.len() as int);
        lemma_no_binding_error_one_policy(s, cls2, cls2.len() as int);
        assert(cls1.contains(cls2[0]));
        let q = choose|q: int| 0 <= q < cls1.len() && cls1[q] == cls2[0];
        assert(cls1[q].attempted_policy_version@ == cls1[0].attempted_policy_version@);
    }
}

/// A stable ranking by identifier of facts whose identifiers are distinct is
/// strictly ascending by identifier.
proof fn lemma_ranked_ids_ascend(ids: Seq<Seq<char>>, ranked_before: spec_fn(int, int) -> bool, perm: Seq<int>)
    requires
        ids.no_duplicates(),
        forall|i: int, j: int|
            0 <= i < j < ids.len() ==> #[trigger] ranked_before(i, j),
        forall|i: int, j: int|
            0 <= i < ids.len() && 0 <= j < ids.len() && #[trigger] ranked_before(i, j) ==> text_lt(ids[i], ids[j])
                || (!text_lt(ids[j], ids[i]) && perm[i] < perm[j]),
    ensures
        forall|i: int, j: int| 0 <= i < j < ids.len() ==> text_lt(#[trigger] ids[i], #[trigger] ids[j]),
{
    assert forall|i: int, j: int| 0 <= i < j < ids.len() implies text_lt(#[trigger] ids[i], #[trigger] ids[j]) by {
        assert(ranked_before(i, j));
        lemma_text_lt_total(ids[i], ids[j]);
    }
}

/// Some fact of `facts` is the tracked-file fact of entry `e`.
pub open spec fn entry_fact_listed(s: RepositorySnapshot, e: int, facts: Seq<RawEvidenceFact>) -> bool {
    exists|k: int| 0 <= k < facts.len() && #[trigger] is_entry_fact(s, s.entries@[e], facts[k])
}

/// Some fact of `facts` is the classification fact of entry `e`.
pub open spec fn class_fact_listed(
    s: RepositorySnapshot,
    cls: Seq<ClassifiedSnapshotFile>,
    e: int,
    facts: Seq<ClassificationEvidenceRecord>,
) -> bool {
    exists|k: int| 0 <= k < facts.len() && #[trigger] has_class_fact(s, cls, e, facts[k])
}

/// An assembled manifest holds every fact of its snapshot once, each list
/// strictly ascending by identifier: the snapshot, history-scope and
/// parent-delta facts and one tracked-file fact per entry, n + 3 raw facts
/// for n entries, and one classification fact per entry.
pub proof fn law_manifest_holds_every_fact_in_order(
    s: RepositorySnapshot,
    cls: Seq<ClassifiedSnapshotFile>,
    m: ProjectEvidenceManifest,
)
    requires
        assembled(s, cls, m),
    ensures
        m.raw_facts@.len() == s.entries@.len() + 3,
        m.classification_facts@.len() == s.entries@.len(),
        forall|i: int, j: int|
            0 <= i < j < m.raw_facts@.len() ==> text_lt(
                (#[trigger] m.raw_facts@[i]).id.view(),
                (#[trigger] m.raw_facts@[j]).id.view(),
            ),
        forall|i: int, j: int|
            0 <= i < j < m.classification_facts@.len() ==> text_lt(
                (#[trigger] m.classification_facts@[i]).id.view(),
                (#[trigger] m.classification_facts@[j]).id.view(),
            ),
        exists|k: int| 0 <= k < m.raw_facts@.len() && #[trigger] is_snapshot_fact(s, m.raw_facts@[k]),
        exists|k: int| 0 <= k < m.raw_facts@.len() && #[trigger] is_history_fact(s, m.raw_facts@[k]),
        exists|k: int| 0 <= k < m.raw_facts@.len() && #[trigger] is_delta_fact(s, m.raw_facts@[k]),
        forall|e: int| 0 <= e < s.entries@.len() ==> #[trigger] entry_fact_listed(s, e, m.raw_facts@),
        forall|e: int| 0 <= e < s.entries@.len() ==> #[trigger] class_fact_listed(s, cls, e, m.classification_facts@),
{
    let (raws, cfs) = choose|raws: Seq<RawEvidenceFact>, cfs: Seq<ClassificationEvidenceRecord>| #![trigger raw_facts_of(s, raws), stable_rank(cfs, m.classification_facts@)]
        raw_facts_of(s, raws) && stable_rank(raws, m.raw_facts@) && stable_rank(cfs, m.classification_facts@)
            && cfs.len() == s.entries@.len() && (forall|i: int| 0 <= i < cfs.len() ==> #[trigger] has_class_fact(s, cls, i, cfs[i]));
    let mr = m.raw_facts@;
    let mc = m.classification_facts@;
    lemma_stable_rank_members(raws, mr);
    lemma_stable_rank_members(cfs, mc);
    let n = s.entries@.len() as int;
    let all = manifest_ids(mr, mc);
    let rid = mr.map_values(|f: RawEvidenceFact| f.id.view());
    let cid = mc.map_values(|f: ClassificationEvidenceRecord| f.id.view());
    assert(all == rid + cid);
    assert(rid.no_duplicates()) by {
        assert forall|i: int, j: int| 0 <= i < rid.len() && 0 <= j < rid.len() && i != j implies rid[i] != rid[j] by {
            assert(all[i] == rid[i] && all[j] == rid[j]);
        }
    }
    assert(cid.no_duplicates()) by {
        assert forall|i: int, j: int| 0 <= i < cid.len() && 0 <= j < cid.len() && i != j implies cid[i] != cid[j] by {
            assert(all[rid.len() + i] == cid[i] && all[rid.len() + j] == cid[j]);
        }
    }
    let rperm = choose|perm: Seq<int>| #[trigger]
        index_permutation(perm, raws.len() as int) && mr.len() == raws.len() && (forall|a: int|
            0 <= a < mr.len() ==> mr[a] == raws[#[trigger] perm[a]]) && (forall|a: int, b: int|
            0 <= a < b < mr.len() ==> ranked_pair(#[trigger] mr[a], perm[a], #[trigger] mr[b], perm[b]));
    let rb = |i: int, j: int| ranked_pair(mr[i], rperm[i], mr[j], rperm[j]);
    lemma_ranked_ids_ascend(rid, rb, rperm);
    let cperm = choose|perm: Seq<int>| #[trigger]
        index_permutation(perm, cfs.len() as int) && mc.len() == cfs.len() && (forall|a: int|
            0 <= a < mc.len() ==> mc[a] == cfs[#[trigger] perm[a]]) && (forall|a: int, b: int|
            0 <= a < b < mc.len() ==> ranked_pair(#[trigger] mc[a], perm[a], #[trigger] mc[b], perm[b]));
    let cb = |i: int, j: int| ranked_pair(mc[i], cperm[i], mc[j], cperm[j]);
    lemma_ranked_ids_ascend(cid, cb, cperm);
    assert(forall|i: int, j: int| 0 <= i < j < mr.len() ==> text_lt(#[trigger] rid[i], #[trigger] rid[j]));
    assert forall|i: int, j: int| 0 <= i < j < mr.len() implies text_lt(
        (#[trigger] mr[i]).id.view(),
        (#[trigger] mr[j]).id.view(),
    ) by {
        assert(text_lt(rid[i], rid[j]));
    }
    assert forall|i: int, j: int| 0 <= i < j < mc.len() implies text_lt(
        (#[trigger] mc[i]).id.view(),
        (#[trigger] mc[j]).id.view(),
    ) by {
        assert(text_lt(cid[i], cid[j]));
    }
    assert(mr.contains(raws[0]));
    assert(mr.contains(raws[n + 1]));
    assert(mr.contains(raws[n + 2]));
    assert forall|e: int| 0 <= e < n implies #[trigger] entry_fact_listed(s, e, mr) by {
        assert(is_entry_fact(s, s.entries@[e], raws[e + 1]));
        assert(mr.contains(raws[e + 1]));
    }
    assert forall|e: int| 0 <= e < n implies #[trigger] class_fact_listed(s, cls, e, mc) by {
        assert(has_class_fact(s, cls, e, cfs[e]));
        assert(mc.contains(cfs[e]));
    }
}

} // verus!
