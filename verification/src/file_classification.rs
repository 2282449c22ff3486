//! File classifications bound to the exact Git path bytes and object of one
//! snapshot entry, and the citable classification facts derived from them.
use vstd::prelude::*;

use crate::domain::{EvidenceId, EvidenceStatus, evidence_status_text};
use crate::evidence::{
    ClassificationAvailabilityReason, ClassificationCategoryRecord,
    ClassificationEvidenceKindRecord, ClassificationTagRecord, EvidenceAssemblyError,
    EvidenceAssemblyErrorKind, availability_reason_text, category_text, evidence_kind_rank,
    evidence_kind_text, tag_rank, tag_text,
};
use crate::evidence_id::{
    EvidenceIdBuilder, evidence_id_text, id_domain, id_kind_chars, lemma_evidence_id_text_valid, optional_parts,
};
use crate::ranking::{Ranked, rank_stably, stable_rank};
use crate::raw_facts::{
    EvidenceSourceRecord, PortableRepositoryPath, RepositorySnapshot, TrackedEntry, b,
    copy_opt_revision, opt_revision_view, portable_path_of,
};
use crate::text::{
    TextOrder, compare_text, decimal, decimal_text, lemma_text_lt_irreflexive,
    lemma_text_lt_total, lemma_text_lt_transitive, owned, text_eq, text_lt,
};

verus! {

/// One canonical rule or resolved-attribute provenance item.
#[derive(Debug)]
pub struct ClassificationEvidenceFact {
    pub kind: ClassificationEvidenceKindRecord,
    pub rule_id: String,
    pub attribute_name: Option<String>,
    pub attribute_value: Option<bool>,
}

/// The abstract value of a provenance item.
pub type EvidenceFactView = (ClassificationEvidenceKindRecord, Seq<char>, Option<Seq<char>>, Option<bool>);

pub open spec fn opt_name_view(n: Option<String>) -> Option<Seq<char>> {
    match n {
        Some(v) => Some(v@),
        None => None,
    }
}

/// `None` first, then names in text order.
pub open spec fn opt_name_lt(a: Option<Seq<char>>, b: Option<Seq<char>>) -> bool {
    match (a, b) {
        (None, Some(_)) => true,
        (Some(x), Some(y)) => text_lt(x, y),
        _ => false,
    }
}

/// `None`, then `false`, then `true`.
pub open spec fn opt_bool_rank(v: Option<bool>) -> int {
    match v {
        None => 0,
        Some(false) => 1,
        Some(true) => 2,
    }
}

impl ClassificationEvidenceFact {
    pub open spec fn view(&self) -> EvidenceFactView {
        (self.kind, self.rule_id@, opt_name_view(self.attribute_name), self.attribute_value)
    }

    /// Which kind of provenance the fact records.
    pub fn kind(&self) -> (r: ClassificationEvidenceKindRecord)
        ensures
            r == self.kind,
    {
        self.kind
    }

    /// The canonical rule the fact names.
    pub fn rule_id(&self) -> (r: &str)
        ensures
            r@ == self.rule_id@,
    {
        self.rule_id.as_str()
    }

    /// The Linguist attribute the fact is about, when it is about one.
    pub fn attribute_name(&self) -> (r: Option<&str>)
        ensures
            match r {
                Some(t) => opt_name_view(self.attribute_name) == Some(t@),
                None => self.attribute_name is None,
            },
    {
        match &self.attribute_name {
            Some(n) => Some(n.as_str()),
            None => None,
        }
    }

    /// The attribute's value, when it is about one.
    pub fn attribute_value(&self) -> (r: Option<bool>)
        ensures
            r == self.attribute_value,
    {
        self.attribute_value
    }

    pub fn copy(&self) -> (r: ClassificationEvidenceFact)
        ensures
            r.view() == self.view(),
    {
        ClassificationEvidenceFact {
            kind: self.kind,
            rule_id: owned(self.rule_id.as_str()),
            attribute_name: match &self.attribute_name {
                Some(n) => Some(owned(n.as_str())),
                None => None,
            },
            attribute_value: self.attribute_value,
        }
    }
}

/// The canonical order of provenance items: kind, then rule, then attribute
/// name, then attribute value.
pub open spec fn fact_lt(x: EvidenceFactView, y: EvidenceFactView) -> bool {
    let (ka, kb) = (evidence_kind_rank(x.0), evidence_kind_rank(y.0));
    ka < kb || (ka == kb && (text_lt(x.1, y.1) || (x.1 == y.1 && (opt_name_lt(x.2, y.2) || (x.2
        == y.2 && opt_bool_rank(x.3) < opt_bool_rank(y.3))))))
}

proof fn lemma_fact_lt_irreflexive(x: EvidenceFactView)
    ensures
        !fact_lt(x, x),
{
    lemma_text_lt_irreflexive(x.1);
    if let Some(n) = x.2 {
        lemma_text_lt_irreflexive(n);
    }
}

proof fn lemma_fact_lt_transitive(x: EvidenceFactView, y: EvidenceFactView, z: EvidenceFactView)
    requires
        fact_lt(x, y),
        fact_lt(y, z),
    ensures
        fact_lt(x, z),
{
    if text_lt(x.1, y.1) && text_lt(y.1, z.1) {
        lemma_text_lt_transitive(x.1, y.1, z.1);
    }
    if x.2 is Some && y.2 is Some && z.2 is Some {
        if text_lt(x.2->0, y.2->0) && text_lt(y.2->0, z.2->0) {
            lemma_text_lt_transitive(x.2->0, y.2->0, z.2->0);
        }
    }
}

/// Two items tie exactly when they are equal.
proof fn lemma_fact_tie_equal(x: EvidenceFactView, y: EvidenceFactView)
    requires
        !fact_lt(x, y),
        !fact_lt(y, x),
    ensures
        x == y,
{
    lemma_text_lt_total(x.1, y.1);
    if x.2 is Some && y.2 is Some {
        lemma_text_lt_total(x.2->0, y.2->0);
    }
    assert(x.0 == y.0);
}

impl Ranked for ClassificationEvidenceFact {
    open spec fn rank_before(&self, other: &Self) -> bool {
        fact_lt(self.view(), other.view())
    }

    proof fn lemma_rank_irreflexive(a: Self) {
        lemma_fact_lt_irreflexive(a.view());
    }

    proof fn lemma_rank_transitive(a: Self, b: Self, c: Self) {
        lemma_fact_lt_transitive(a.view(), b.view(), c.view());
    }

    proof fn lemma_rank_tied(a: Self, b: Self, c: Self) {
        lemma_fact_tie_equal(a.view(), b.view());
    }

    fn goes_before(&self, other: &Self) -> (r: bool) {
        let ka = self.kind.rank();
        let kb = other.kind.rank();
        if ka != kb {
            return ka < kb;
        }
        match compare_text(self.rule_id.as_str(), other.rule_id.as_str()) {
            TextOrder::Less => return true,
            TextOrder::Greater => return false,
            TextOrder::Equal => {},
        }
        match (&self.attribute_name, &other.attribute_name) {
            (None, Some(_)) => return true,
            (Some(_), None) => return false,
            (Some(x), Some(y)) => match compare_text(x.as_str(), y.as_str()) {
                TextOrder::Less => return true,
                TextOrder::Greater => return false,
                TextOrder::Equal => {},
            },
            (None, None) => {},
        }
        let va: u8 = match self.attribute_value {
            None => 0,
            Some(false) => 1,
            Some(true) => 2,
        };
        let vb: u8 = match other.attribute_value {
            None => 0,
            Some(false) => 1,
            Some(true) => 2,
        };
        va < vb
    }
}

/// The views of a list of provenance items.
pub open spec fn fact_views(items: Seq<ClassificationEvidenceFact>) -> Seq<EvidenceFactView> {
    items.map_values(|f: ClassificationEvidenceFact| f.view())
}

/// Views strictly ascending in canonical order.
pub open spec fn facts_ascending(v: Seq<EvidenceFactView>) -> bool {
    forall|p: int, q: int| #![trigger v[p], v[q]] 0 <= p < q < v.len() ==> fact_lt(v[p], v[q])
}

proof fn lemma_stable_rank_same_views(input: Seq<ClassificationEvidenceFact>, sorted: Seq<ClassificationEvidenceFact>)
    requires
        stable_rank(input, sorted),
    ensures
        fact_views(sorted).to_set() == fact_views(input).to_set(),
        forall|i: int| 1 <= i < sorted.len() ==> !fact_lt(#[trigger] fact_views(sorted)[i], fact_views(sorted)[i - 1]),
{
    let perm = choose|perm: Seq<int>| #[trigger]
        crate::ranking::index_permutation(perm, input.len() as int) && sorted.len() == input.len()
            && (forall|i: int| 0 <= i < sorted.len() ==> sorted[i] == input[#[trigger] perm[i]])
            && (forall|i: int, j: int|
            0 <= i < j < sorted.len() ==> crate::ranking::ranked_pair(
                #[trigger] sorted[i],
                perm[i],
                #[trigger] sorted[j],
                perm[j],
            ));
    let vs = fact_views(sorted);
    let vi = fact_views(input);
    assert forall|x: EvidenceFactView| vs.to_set().contains(x) <==> vi.to_set().contains(x) by {
        if vs.contains(x) {
            let p = choose|p: int| 0 <= p < vs.len() && vs[p] == x;
            assert(sorted[p] == input[perm[p]]);
            assert(vi[perm[p]] == x);
        }
        if vi.contains(x) {
            let j = choose|j: int| 0 <= j < vi.len() && vi[j] == x;
            crate::ranking::lemma_permutation_onto(perm, input.len() as int, j);
            let p = choose|p: int| 0 <= p < input.len() && perm[p] == j;
            assert(sorted[p] == input[j]);
            assert(vs[p] == x);
        }
    }
    assert(vs.to_set() =~= vi.to_set());
    assert forall|i: int| 1 <= i < sorted.len() implies !fact_lt(#[trigger] vs[i], vs[i - 1]) by {
        assert(crate::ranking::ranked_pair(sorted[i - 1], perm[i - 1], sorted[i], perm[i]));
        if fact_lt(vs[i], vs[i - 1]) {
            if fact_lt(vs[i - 1], vs[i]) {
                lemma_fact_lt_transitive(vs[i], vs[i - 1], vs[i]);
                lemma_fact_lt_irreflexive(vs[i]);
            }
        }
    }
}

/// The provenance items sorted in canonical order with repeats removed.
pub fn canonical_evidence(items: Vec<ClassificationEvidenceFact>) -> (r: Vec<ClassificationEvidenceFact>)
    ensures
        facts_ascending(fact_views(r@)),
        fact_views(r@).to_set() == fact_views(items@).to_set(),
{
    let ghost input = items@;
    let sorted = rank_stably(items);
    proof {
        lemma_stable_rank_same_views(input, sorted@);
    }
    let ghost vs = fact_views(sorted@);
    let mut out: Vec<ClassificationEvidenceFact> = Vec::new();
    let mut i: usize = 0;
    proof {
        assert(fact_views(out@).to_set() =~= vs.subrange(0, 0).to_set());
    }
    while i < sorted.len()
        invariant
            i <= sorted@.len(),
            vs == fact_views(sorted@),
            forall|k: int| 1 <= k < sorted@.len() ==> !fact_lt(#[trigger] vs[k], vs[k - 1]),
            facts_ascending(fact_views(out@)),
            fact_views(out@).to_set() == vs.subrange(0, i as int).to_set(),
            i > 0 ==> out@.len() > 0 && fact_views(out@).last() == vs[i - 1],
            out@.len() <= i,
        decreases sorted.len() - i,
    {
        let keep = if out.len() == 0 {
            true
        } else {
            let last = out.len() - 1;
            out[last].goes_before(&sorted[i])
        };
        let ghost old_views = fact_views(out@);
        let ghost x = vs[i as int];
        proof {
            assert(vs.subrange(0, i + 1) =~= vs.subrange(0, i as int).push(x));
            crate::sorted::lemma_push_to_set(vs.subrange(0, i as int), x);
        }
        if keep {
            let item = sorted[i].copy();
            out.push(item);
            proof {
                let nv = fact_views(out@);
                assert(nv =~= old_views.push(x));
                crate::sorted::lemma_push_to_set(old_views, x);
                assert forall|p: int, q: int| #![trigger nv[p], nv[q]] 0 <= p < q < nv.len() implies fact_lt(nv[p], nv[q]) by {
                    if q == old_views.len() {
                        let l = old_views.len() - 1;
                        assert(fact_lt(old_views[l], x));
                        if p < l {
                            assert(fact_lt(old_views[p], old_views[l]));
                            lemma_fact_lt_transitive(old_views[p], old_views[l], x);
                        }
                    } else {
                        assert(nv[p] == old_views[p] && nv[q] == old_views[q]);
                    }
                }
            }
        } else {
            proof {
                assert(i > 0);
                let prev = vs[i - 1];
                assert(old_views.last() == prev);
                assert(old_views.last() == out@[out@.len() - 1].view());
                assert(!fact_lt(prev, x));
                assert(!fact_lt(x, prev));
                lemma_fact_tie_equal(prev, x);
                assert(old_views.to_set().contains(x)) by {
                    assert(old_views[old_views.len() - 1] == x);
                }
                assert(vs.subrange(0, i as int).to_set().insert(x) =~= vs.subrange(0, i as int).to_set());
            }
        }
        i = i + 1;
    }
    assert(vs.subrange(0, vs.len() as int) =~= vs);
    out
}


/// The tag at a canonical position.
pub open spec fn tag_at(r: int) -> ClassificationTagRecord {
    if r == 0 {
        ClassificationTagRecord::DependencyManifest
    } else if r == 1 {
        ClassificationTagRecord::Lockfile
    } else if r == 2 {
        ClassificationTagRecord::LinguistGenerated
    } else if r == 3 {
        ClassificationTagRecord::LinguistVendored
    } else if r == 4 {
        ClassificationTagRecord::GeneratedSuppressed
    } else if r == 5 {
        ClassificationTagRecord::VendoredSuppressed
    } else if r == 6 {
        ClassificationTagRecord::AttributesUnavailable
    } else {
        ClassificationTagRecord::Minified
    }
}

fn tag_at_exec(r: u8) -> (t: ClassificationTagRecord)
    requires
        r < 8,
    ensures
        t == tag_at(r as int),
        tag_rank(t) == r,
{
    if r == 0 {
        ClassificationTagRecord::DependencyManifest
    } else if r == 1 {
        ClassificationTagRecord::Lockfile
    } else if r == 2 {
        ClassificationTagRecord::LinguistGenerated
    } else if r == 3 {
        ClassificationTagRecord::LinguistVendored
    } else if r == 4 {
        ClassificationTagRecord::GeneratedSuppressed
    } else if r == 5 {
        ClassificationTagRecord::VendoredSuppressed
    } else if r == 6 {
        ClassificationTagRecord::AttributesUnavailable
    } else {
        ClassificationTagRecord::Minified
    }
}

/// Tags in strictly ascending canonical order.
pub open spec fn tags_ascending(ts: Seq<ClassificationTagRecord>) -> bool {
    forall|p: int, q: int| #![trigger ts[p], ts[q]] 0 <= p < q < ts.len() ==> tag_rank(ts[p]) < tag_rank(ts[q])
}

fn has_tag(tags: &Vec<ClassificationTagRecord>, t: ClassificationTagRecord) -> (r: bool)
    ensures
        r == tags@.contains(t),
{
    let mut i: usize = 0;
    while i < tags.len()
        invariant
            i <= tags@.len(),
            forall|k: int| 0 <= k < i ==> tags@[k] != t,
        decreases tags.len() - i,
    {
        if tags[i] == t {
            return true;
        }
        i = i + 1;
    }
    false
}

/// The tags in canonical order, each once.
pub fn canonical_tags(tags: &Vec<ClassificationTagRecord>) -> (r: Vec<ClassificationTagRecord>)
    ensures
        tags_ascending(r@),
        r@.to_set() == tags@.to_set(),
{
    let mut out: Vec<ClassificationTagRecord> = Vec::new();
    let mut k: u8 = 0;
    while k < 8
        invariant
            k <= 8,
            tags_ascending(out@),
            forall|p: int| 0 <= p < out@.len() ==> tag_rank(#[trigger] out@[p]) < k,
            forall|t: ClassificationTagRecord| #[trigger] out@.contains(t) <==> (tags@.contains(t) && tag_rank(t) < k),
        decreases 8 - k,
    {
        let t = tag_at_exec(k);
        let ghost old_out = out@;
        if has_tag(tags, t) {
            out.push(t);
            proof {
                assert forall|u: ClassificationTagRecord| #[trigger] out@.contains(u) <==> (tags@.contains(u) && tag_rank(u) < k + 1) by {
                    if out@.contains(u) {
                        let p = choose|p: int| 0 <= p < out@.len() && out@[p] == u;
                        if p < old_out.len() {
                            assert(old_out.contains(u));
                        }
                    }
                    if tags@.contains(u) && tag_rank(u) < k + 1 {
                        if tag_rank(u) < k {
                            assert(old_out.contains(u));
                            let p = choose|p: int| 0 <= p < old_out.len() && old_out[p] == u;
                            assert(out@[p] == u);
                        } else {
                            assert(u == t);
                            assert(out@[old_out.len() as int] == u);
                        }
                    }
                }
            }
        } else {
            proof {
                assert forall|u: ClassificationTagRecord| #[trigger] out@.contains(u) <==> (tags@.contains(u) && tag_rank(u) < k + 1) by {
                    if tags@.contains(u) && tag_rank(u) == k {
                        assert(u == t);
                    }
                }
            }
        }
        k = k + 1;
    }
    assert(out@.to_set() =~= tags@.to_set());
    out
}

/// What the classifier decided for one entry, in plain values.
#[derive(Debug)]
pub struct FileClassificationResult {
    pub category: ClassificationCategoryRecord,
    pub tags: Vec<ClassificationTagRecord>,
    pub rule_id: String,
    pub confidence_basis_points: u16,
    pub evidence: Vec<ClassificationEvidenceFact>,
    pub attributes_unavailable: bool,
}

/// A produced classification in canonical form.
#[derive(Debug)]
pub struct ClassificationPayload {
    pub category: ClassificationCategoryRecord,
    pub tags: Vec<ClassificationTagRecord>,
    pub rule_id: String,
    pub confidence_basis_points: u16,
    pub evidence: Vec<ClassificationEvidenceFact>,
}

/// `p` is the canonical form of the classifier's result `d`: tags and
/// provenance sorted with repeats removed.
pub open spec fn canonical_payload_of(d: FileClassificationResult, p: ClassificationPayload) -> bool {
    &&& p.category == d.category
    &&& tags_ascending(p.tags@)
    &&& p.tags@.to_set() == d.tags@.to_set()
    &&& p.rule_id@ == d.rule_id@
    &&& p.confidence_basis_points == d.confidence_basis_points
    &&& facts_ascending(fact_views(p.evidence@))
    &&& fact_views(p.evidence@).to_set() == fact_views(d.evidence@).to_set()
}

/// Maps the classifier's result into canonical form.
pub fn map_classification(d: FileClassificationResult) -> (p: ClassificationPayload)
    ensures
        canonical_payload_of(d, p),
{
    let tags = canonical_tags(&d.tags);
    let ghost ev = d.evidence@;
    let evidence = canonical_evidence(d.evidence);
    ClassificationPayload {
        category: d.category,
        tags,
        rule_id: d.rule_id,
        confidence_basis_points: d.confidence_basis_points,
        evidence,
    }
}

/// A classification bound to the exact Git path bytes and object of one
/// snapshot entry, attempted under one classifier policy version.
#[derive(Debug)]
pub struct ClassifiedSnapshotFile {
    pub repository: crate::domain::RepositorySource,
    pub revision: crate::domain::RevisionId,
    pub root_tree: Option<crate::domain::RevisionId>,
    pub path_bytes: Vec<u8>,
    pub object_id: String,
    pub portable_path: PortableRepositoryPath,
    pub attempted_policy_version: String,
    pub status: EvidenceStatus,
    pub reason: Option<ClassificationAvailabilityReason>,
    pub payload: Option<ClassificationPayload>,
}

/// Whether some entry of `s` has exactly these path bytes and object.
pub open spec fn entry_in_snapshot(s: RepositorySnapshot, path: Seq<u8>, object_id: Seq<char>) -> bool {
    exists|i: int| 0 <= i < s.entries@.len() && #[trigger] s.entries@[i].path@ == path && s.entries@[i].object_id@ == object_id
}

/// Whether a classification is bound to the snapshot `s`.
pub open spec fn binds_snapshot(c: ClassifiedSnapshotFile, s: RepositorySnapshot) -> bool {
    &&& c.repository.view() == s.source_snapshot.source.view()
    &&& c.revision.view() == s.source_snapshot.revision.view()
    &&& opt_revision_view(c.root_tree) == opt_revision_view(s.source_snapshot.root_tree)
}

pub(crate) fn find_entry(s: &RepositorySnapshot, path: &[u8], object_id: &str) -> (r: bool)
    ensures
        r == entry_in_snapshot(*s, path@, object_id@),
{
    let mut i: usize = 0;
    while i < s.entries.len()
        invariant
            i <= s.entries@.len(),
            forall|k: int| 0 <= k < i ==> !(#[trigger] s.entries@[k].path@ == path@ && s.entries@[k].object_id@ == object_id@),
        decreases s.entries.len() - i,
    {
        let e = &s.entries[i];
        let same_path = match crate::text::compare_bytes(e.path.as_slice(), path) {
            TextOrder::Equal => true,
            _ => false,
        };
        if same_path && text_eq(e.object_id.as_str(), object_id) {
            return true;
        }
        i = i + 1;
    }
    false
}

impl ClassifiedSnapshotFile {
    /// Binds the classifier's result for one snapshot entry.
    ///
    /// `result` is what the classifier decided under `policy_version`;
    /// `None` means the path could not be handed to it (it is not portable
    /// UTF-8), which is recorded as unsupported. A result resolved without
    /// attribute facts is partial. An entry that is not in the snapshot is
    /// refused.
    pub fn classify(
        s: &RepositorySnapshot,
        entry: &TrackedEntry,
        policy_version: &str,
        result: Option<FileClassificationResult>,
    ) -> (r: Result<ClassifiedSnapshotFile, EvidenceAssemblyError>)
        ensures
            r is Err <==> !entry_in_snapshot(*s, entry.path@, entry.object_id@),
            r matches Err(e) ==> e.kind == EvidenceAssemblyErrorKind::ClassificationSnapshotMismatch,
            r matches Ok(c) ==> {
                &&& binds_snapshot(c, *s)
                &&& c.path_bytes@ == entry.path@
                &&& c.object_id@ == entry.object_id@
                &&& c.portable_path.view() == portable_path_of(*entry)
                &&& c.attempted_policy_version@ == policy_version@
                &&& match result {
                    None => c.status == EvidenceStatus::Unsupported && c.reason == Some(
                        ClassificationAvailabilityReason::NonPortablePath,
                    ) && c.payload is None,
                    Some(d) => {
                        &&& c.status == if d.attributes_unavailable {
                            EvidenceStatus::Partial
                        } else {
                            EvidenceStatus::Complete
                        }
                        &&& c.reason == if d.attributes_unavailable {
                            Some(ClassificationAvailabilityReason::AttributesUnavailable)
                        } else {
                            None
                        }
                        &&& c.payload matches Some(p) && canonical_payload_of(d, p)
                    },
                }
            },
    {
        if !find_entry(s, entry.path.as_slice(), entry.object_id.as_str()) {
            return Err(EvidenceAssemblyError::new(EvidenceAssemblyErrorKind::ClassificationSnapshotMismatch));
        }
        let mut path_bytes: Vec<u8> = Vec::new();
        crate::evidence_id::append_bytes(&mut path_bytes, entry.path.as_slice());
        assert(path_bytes@ =~= entry.path@);
        let (status, reason, payload) = match result {
            None => (EvidenceStatus::Unsupported, Some(ClassificationAvailabilityReason::NonPortablePath), None),
            Some(d) => {
                let partial = d.attributes_unavailable;
                let p = map_classification(d);
                (
                    if partial {
                        EvidenceStatus::Partial
                    } else {
                        EvidenceStatus::Complete
                    },
                    if partial {
                        Some(ClassificationAvailabilityReason::AttributesUnavailable)
                    } else {
                        None
                    },
                    Some(p),
                )
            },
        };
        Ok(ClassifiedSnapshotFile {
            repository: s.source_snapshot.source.copy(),
            revision: s.source_snapshot.revision.copy(),
            root_tree: copy_opt_revision(&s.source_snapshot.root_tree),
            path_bytes,
            object_id: owned(entry.object_id.as_str()),
            portable_path: PortableRepositoryPath::of_entry(entry),
            attempted_policy_version: owned(policy_version),
            status,
            reason,
            payload,
        })
    }
}


/// The identifier parts of classification tags, in order.
pub open spec fn tag_parts(ts: Seq<ClassificationTagRecord>) -> Seq<Seq<u8>>
    decreases ts.len(),
{
    if ts.len() == 0 {
        Seq::empty()
    } else {
        tag_parts(ts.drop_last()) + seq![b("tag"@), b(tag_text(ts.last()))]
    }
}

pub open spec fn opt_text_bytes(t: Option<Seq<char>>) -> Option<Seq<u8>> {
    match t {
        Some(v) => Some(b(v)),
        None => None,
    }
}

pub open spec fn opt_flag_bytes(v: Option<bool>) -> Option<Seq<u8>> {
    match v {
        Some(true) => Some(b("true"@)),
        Some(false) => Some(b("false"@)),
        None => None,
    }
}

/// The identifier parts of one provenance item.
pub open spec fn fact_parts(f: EvidenceFactView) -> Seq<Seq<u8>> {
    seq![b("evidence_kind"@), b(evidence_kind_text(f.0)), b("evidence_rule_id"@), b(f.1)]
        + optional_parts(b("attribute_name"@), opt_text_bytes(f.2)) + optional_parts(
        b("attribute_value"@),
        opt_flag_bytes(f.3),
    )
}

/// The identifier parts of provenance items, in order.
pub open spec fn facts_parts(fs: Seq<EvidenceFactView>) -> Seq<Seq<u8>>
    decreases fs.len(),
{
    if fs.len() == 0 {
        Seq::empty()
    } else {
        facts_parts(fs.drop_last()) + fact_parts(fs.last())
    }
}

/// The identifier parts of a produced classification.
pub open spec fn classification_payload_parts(p: ClassificationPayload) -> Seq<Seq<u8>> {
    seq![b("category"@), b(category_text(p.category))] + tag_parts(p.tags@) + seq![
        b("rule_id"@),
        b(p.rule_id@),
        b("confidence_basis_points"@),
        b(decimal(p.confidence_basis_points as nat)),
    ] + facts_parts(fact_views(p.evidence@))
}

pub open spec fn opt_reason_bytes(r: Option<ClassificationAvailabilityReason>) -> Option<Seq<u8>> {
    match r {
        Some(v) => Some(b(availability_reason_text(v))),
        None => None,
    }
}

/// Every identifier part of a classification fact.
pub open spec fn classification_fact_parts(
    raw_id: Seq<char>,
    status: EvidenceStatus,
    policy: Option<Seq<char>>,
    reason: Option<ClassificationAvailabilityReason>,
    payload: Option<ClassificationPayload>,
) -> Seq<Seq<u8>> {
    seq![id_domain(), b("file-classification"@)] + seq![
        b("raw_evidence_id"@),
        b(raw_id),
        b("status"@),
        b(evidence_status_text(status)),
    ] + optional_parts(b("attempted_policy_version"@), opt_text_bytes(policy)) + optional_parts(
        b("reason"@),
        opt_reason_bytes(reason),
    ) + match payload {
        Some(p) => classification_payload_parts(p),
        None => Seq::empty(),
    }
}

/// The identifier text of a classification fact.
#[verifier::opaque]
pub open spec fn classification_fact_id(
    raw_id: Seq<char>,
    status: EvidenceStatus,
    policy: Option<Seq<char>>,
    reason: Option<ClassificationAvailabilityReason>,
    payload: Option<ClassificationPayload>,
) -> Seq<char> {
    evidence_id_text(
        "file-classification"@,
        classification_fact_parts(raw_id, status, policy, reason, payload),
    )
}

/// Every classification fact identifier is well formed, whatever it hashes.
pub proof fn law_classification_fact_ids_are_well_formed(
    raw_id: Seq<char>,
    status: EvidenceStatus,
    policy: Option<Seq<char>>,
    reason: Option<ClassificationAvailabilityReason>,
    payload: Option<ClassificationPayload>,
)
    ensures
        crate::domain::valid_evidence_id(classification_fact_id(raw_id, status, policy, reason, payload)),
{
    reveal(classification_fact_id);
    reveal_strlit("file-classification");
    assert(id_kind_chars("file-classification"@));
    lemma_evidence_id_text_valid(
        "file-classification"@,
        classification_fact_parts(raw_id, status, policy, reason, payload),
    );
}

/// One derived classification fact citing exactly one raw tracked-file fact.
#[derive(Debug)]
pub struct ClassificationEvidenceRecord {
    pub id: EvidenceId,
    pub status: EvidenceStatus,
    pub source_evidence_id: EvidenceId,
    pub source: EvidenceSourceRecord,
    pub attempted_policy_version: Option<String>,
    pub reason: Option<ClassificationAvailabilityReason>,
    pub payload: Option<ClassificationPayload>,
}

impl ClassificationEvidenceRecord {
    /// Returns the cited raw file evidence ID.
    pub fn source_evidence_id(&self) -> (r: Option<&EvidenceId>)
        ensures
            r matches Some(id) && id.view() == self.source_evidence_id.view(),
    {
        Some(&self.source_evidence_id)
    }

    /// Returns the attempted policy; only a missing classification has none.
    pub fn policy_version(&self) -> (r: Option<&str>)
        ensures
            match r {
                Some(t) => self.attempted_policy_version matches Some(p) && t@ == p@,
                None => self.attempted_policy_version is None,
            },
    {
        match &self.attempted_policy_version {
            Some(p) => Some(p.as_str()),
            None => None,
        }
    }

    /// Returns the primary category only when classification was produced.
    pub fn category(&self) -> (r: Option<ClassificationCategoryRecord>)
        ensures
            r == match self.payload {
                Some(p) => Some(p.category),
                None => None,
            },
    {
        match &self.payload {
            Some(p) => Some(p.category),
            None => None,
        }
    }

    /// Returns canonical tags, empty when unavailable or none.
    pub fn tags(&self) -> (r: &[ClassificationTagRecord])
        ensures
            r@ == match self.payload {
                Some(p) => p.tags@,
                None => Seq::empty(),
            },
    {
        match &self.payload {
            Some(p) => p.tags.as_slice(),
            None => &[],
        }
    }

    /// Returns the primary rule identifier when classification was produced.
    pub fn rule_id(&self) -> (r: Option<&str>)
        ensures
            match r {
                Some(t) => self.payload matches Some(p) && t@ == p.rule_id@,
                None => self.payload is None,
            },
    {
        match &self.payload {
            Some(p) => Some(p.rule_id.as_str()),
            None => None,
        }
    }

    /// Returns integer policy confidence, not a project-quality score.
    pub fn confidence_basis_points(&self) -> (r: Option<u16>)
        ensures
            r == match self.payload {
                Some(p) => Some(p.confidence_basis_points),
                None => None,
            },
    {
        match &self.payload {
            Some(p) => Some(p.confidence_basis_points),
            None => None,
        }
    }

    /// Returns canonical rule and attribute provenance.
    pub fn classification_evidence(&self) -> (r: &[ClassificationEvidenceFact])
        ensures
            r@ == match self.payload {
                Some(p) => p.evidence@,
                None => Seq::empty(),
            },
    {
        match &self.payload {
            Some(p) => p.evidence.as_slice(),
            None => &[],
        }
    }
}

fn add_classification_payload(id: &mut EvidenceIdBuilder, p: &ClassificationPayload)
    requires
        old(id).wf(),
    ensures
        final(id).wf(),
        final(id).parts() == old(id).parts() + classification_payload_parts(*p),
{
    let ghost start = id.parts();
    id.field("category".as_bytes(), p.category.code().as_bytes());
    let ghost after_cat = id.parts();
    let mut i: usize = 0;
    while i < p.tags.len()
        invariant
            id.wf(),
            i <= p.tags@.len(),
            id.parts() == after_cat + tag_parts(p.tags@.subrange(0, i as int)),
        decreases p.tags.len() - i,
    {
        let ghost pre = id.parts();
        id.field("tag".as_bytes(), p.tags[i].code().as_bytes());
        proof {
            let sub = p.tags@.subrange(0, i + 1);
            assert(sub.drop_last() =~= p.tags@.subrange(0, i as int));
            assert(sub.last() == p.tags@[i as int]);
            assert(id.parts() =~= after_cat + tag_parts(sub));
        }
        i = i + 1;
    }
    assert(p.tags@.subrange(0, p.tags@.len() as int) =~= p.tags@);
    let conf = decimal_text(p.confidence_basis_points as u64);
    id.field("rule_id".as_bytes(), p.rule_id.as_str().as_bytes());
    id.field("confidence_basis_points".as_bytes(), conf.as_str().as_bytes());
    let ghost after_conf = id.parts();
    let ghost fvs = fact_views(p.evidence@);
    let mut j: usize = 0;
    while j < p.evidence.len()
        invariant
            id.wf(),
            j <= p.evidence@.len(),
            fvs == fact_views(p.evidence@),
            id.parts() == after_conf + facts_parts(fvs.subrange(0, j as int)),
        decreases p.evidence.len() - j,
    {
        let f = &p.evidence[j];
        let ghost pre = id.parts();
        id.field("evidence_kind".as_bytes(), f.kind.code().as_bytes());
        id.field("evidence_rule_id".as_bytes(), f.rule_id.as_str().as_bytes());
        match &f.attribute_name {
            Some(n) => id.optional_field("attribute_name".as_bytes(), Some(n.as_str().as_bytes())),
            None => id.optional_field("attribute_name".as_bytes(), None),
        }
        match f.attribute_value {
            Some(true) => id.optional_field("attribute_value".as_bytes(), Some("true".as_bytes())),
            Some(false) => id.optional_field("attribute_value".as_bytes(), Some("false".as_bytes())),
            None => id.optional_field("attribute_value".as_bytes(), None),
        }
        proof {
            let sub = fvs.subrange(0, j + 1);
            assert(sub.drop_last() =~= fvs.subrange(0, j as int));
            assert(sub.last() == f.view());
            assert(id.parts() =~= pre + fact_parts(f.view()));
            assert(id.parts() =~= after_conf + facts_parts(sub));
        }
        j = j + 1;
    }
    assert(fvs.subrange(0, fvs.len() as int) =~= fvs);
    assert(id.parts() =~= start + classification_payload_parts(*p));
}

/// Builds the classification fact for one raw tracked-file fact from the
/// bound classification, or an explicit unavailable record when none was
/// supplied.
#[verifier::rlimit(30)]
pub fn classification_fact(
    raw_id: &EvidenceId,
    source: EvidenceSourceRecord,
    classification: Option<ClassifiedSnapshotFile>,
) -> (r: Result<ClassificationEvidenceRecord, EvidenceAssemblyError>)
    ensures
        ({
            let (status, policy, reason, payload) = match classification {
                Some(c) => (c.status, Some(c.attempted_policy_version@), c.reason, c.payload),
                None => (
                    EvidenceStatus::Unavailable,
                    None,
                    Some(ClassificationAvailabilityReason::MissingClassification),
                    None,
                ),
            };
            let text = classification_fact_id(raw_id.view(), status, policy, reason, payload);
            &&& r is Ok <==> crate::domain::valid_evidence_id(text)
            &&& r matches Ok(f) ==> f.id.view() == text && f.status == status
                && f.source_evidence_id.view() == raw_id.view() && f.source == source
                && crate::raw_facts::opt_text_view(f.attempted_policy_version) == policy
                && f.reason == reason && f.payload == payload
            &&& r matches Err(e) ==> e.kind == EvidenceAssemblyErrorKind::EvidenceIdGeneration
        }),
{
    let (status, policy, reason, payload) = match classification {
        Some(c) => (c.status, Some(c.attempted_policy_version), c.reason, c.payload),
        None => (
            EvidenceStatus::Unavailable,
            None,
            Some(ClassificationAvailabilityReason::MissingClassification),
            None,
        ),
    };
    let ghost policy_view = crate::raw_facts::opt_text_view(policy);
    let mut id = EvidenceIdBuilder::new("file-classification");
    id.field("raw_evidence_id".as_bytes(), raw_id.as_str().as_bytes());
    id.field("status".as_bytes(), status.code().as_bytes());
    let ghost p1 = seq![id_domain(), b("file-classification"@)] + seq![
        b("raw_evidence_id"@),
        b(raw_id.view()),
        b("status"@),
        b(evidence_status_text(status)),
    ];
    assert(id.parts() =~= p1);
    match &policy {
        Some(p) => id.optional_field("attempted_policy_version".as_bytes(), Some(p.as_str().as_bytes())),
        None => id.optional_field("attempted_policy_version".as_bytes(), None),
    }
    let ghost p2 = p1 + optional_parts(b("attempted_policy_version"@), opt_text_bytes(policy_view));
    assert(id.parts() == p2);
    match reason {
        Some(x) => id.optional_field("reason".as_bytes(), Some(x.code().as_bytes())),
        None => id.optional_field("reason".as_bytes(), None),
    }
    let ghost p3 = p2 + optional_parts(b("reason"@), opt_reason_bytes(reason));
    assert(id.parts() == p3);
    match &payload {
        Some(p) => add_classification_payload(&mut id, p),
        None => {
            assert(id.parts() =~= p3 + Seq::<Seq<u8>>::empty());
        },
    }
    assert(id.parts() == classification_fact_parts(raw_id.view(), status, policy_view, reason, payload));
    proof {
        reveal(classification_fact_id);
    }
    match id.finish("file-classification") {
        Ok(eid) => Ok(ClassificationEvidenceRecord {
            id: eid,
            status,
            source_evidence_id: raw_id.copy(),
            source,
            attempted_policy_version: policy,
            reason,
            payload,
        }),
        Err(e) => Err(e),
    }
}

} // verus!
