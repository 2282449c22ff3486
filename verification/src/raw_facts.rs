//! Immutable repository snapshots and the raw facts collected from them: one
//! repository-snapshot fact, one fact per tracked file, one history-scope
//! fact and one first-parent-delta fact, each with a content-derived
//! identifier and a portable citation.
use vstd::prelude::*;

use crate::domain::{
    ContentHash, EvidenceId, EvidenceStatus, RepositorySource, RevisionId, SourceView,
    evidence_status_text,
};
use crate::evidence::{
    EntryMode, EvidenceAssemblyError, GitObjectFormatRecord, ObjectKind, ParentDeltaIssue,
    PortablePathEncoding, RawEvidenceIssue, RawEvidenceKind, delta_values_spec, entry_mode_text,
    object_format_text, object_kind_text, parent_delta_values, raw_issue_text, raw_kind_component,
};
use crate::evidence_id::{
    EvidenceIdBuilder, evidence_id_text, id_domain, id_kind_chars, lemma_evidence_id_text_valid, optional_parts,
};
use crate::hex::{decode_hex, hex_decoded, hex_text, lemma_decode_lower_hex, lower_hex};
use crate::text::{decimal, decimal_text, owned, utf8};

verus! {

/// Who collected a snapshot, and the repository's object format.
#[derive(Debug)]
pub struct GitEvidenceProvenance {
    pub adapter_id: String,
    pub git_version: String,
    pub object_format: GitObjectFormatRecord,
}

impl GitEvidenceProvenance {
    pub open spec fn same(&self, other: &GitEvidenceProvenance) -> bool {
        self.adapter_id@ == other.adapter_id@ && self.git_version@ == other.git_version@
            && self.object_format == other.object_format
    }

    /// The stable adapter implementation identity.
    pub fn adapter_id(&self) -> (r: &str)
        ensures
            r@ == self.adapter_id@,
    {
        self.adapter_id.as_str()
    }

    /// The sanitized installed Git version recorded by the adapter.
    pub fn git_version(&self) -> (r: &str)
        ensures
            r@ == self.git_version@,
    {
        self.git_version.as_str()
    }

    /// The repository-wide object identifier format.
    pub fn object_format(&self) -> (r: GitObjectFormatRecord)
        ensures
            r == self.object_format,
    {
        self.object_format
    }

    pub fn copy(&self) -> (r: GitEvidenceProvenance)
        ensures
            r.same(self),
    {
        GitEvidenceProvenance {
            adapter_id: owned(self.adapter_id.as_str()),
            git_version: owned(self.git_version.as_str()),
            object_format: self.object_format,
        }
    }
}

/// The repository, revision and root tree a snapshot was taken of.
#[derive(Debug)]
pub struct SourceSnapshot {
    pub source: RepositorySource,
    pub revision: RevisionId,
    pub root_tree: Option<RevisionId>,
}

/// The texts of an optional revision.
pub open spec fn opt_revision_view(r: Option<RevisionId>) -> Option<Seq<char>> {
    match r {
        Some(v) => Some(v.view()),
        None => None,
    }
}

pub fn copy_opt_revision(r: &Option<RevisionId>) -> (c: Option<RevisionId>)
    ensures
        opt_revision_view(c) == opt_revision_view(*r),
{
    match r {
        Some(v) => Some(v.copy()),
        None => None,
    }
}

/// What was read of one tracked object's content.
#[derive(Debug)]
pub struct ObjectContent {
    pub status: EvidenceStatus,
    pub size: Option<u64>,
    pub content_hash: Option<ContentHash>,
    pub issue: Option<RawEvidenceIssue>,
}

/// One tracked entry of a snapshot. `portable_text` holds the path as text
/// when its bytes are UTF-8 that the classifier accepts as a portable path.
#[derive(Debug)]
pub struct TrackedEntry {
    pub path: Vec<u8>,
    pub portable_text: Option<String>,
    pub object_id: String,
    pub mode: EntryMode,
    pub kind: ObjectKind,
    pub content: ObjectContent,
}

impl TrackedEntry {
    /// A portable text, when present, encodes exactly the path bytes.
    pub open spec fn wf(&self) -> bool {
        self.portable_text matches Some(t) ==> utf8(t@) == self.path@
    }
}

/// The bounded reachable history of a snapshot.
#[derive(Debug)]
pub struct HistorySummary {
    pub status: EvidenceStatus,
    pub reachable_commits: usize,
    pub truncated: bool,
    pub issue: Option<RawEvidenceIssue>,
}

/// The first-parent delta of a snapshot's revision.
#[derive(Debug)]
pub struct ParentDeltaSummary {
    pub status: EvidenceStatus,
    pub issue: Option<ParentDeltaIssue>,
    pub changed_entries: usize,
    pub renames: usize,
}

/// One immutable repository snapshot.
#[derive(Debug)]
pub struct RepositorySnapshot {
    pub source_snapshot: SourceSnapshot,
    pub provenance: GitEvidenceProvenance,
    pub status: EvidenceStatus,
    pub commit_time: Option<i64>,
    pub entries: Vec<TrackedEntry>,
    pub history: HistorySummary,
    pub parent_delta: ParentDeltaSummary,
}

impl RepositorySnapshot {
    pub open spec fn wf(&self) -> bool {
        forall|i: int| 0 <= i < self.entries@.len() ==> (#[trigger] self.entries@[i]).wf()
    }
}

/// A repository-relative path: the UTF-8 text when it is portable, else the
/// lowercase hexadecimal of the exact Git path bytes.
#[derive(Debug)]
pub struct PortableRepositoryPath {
    pub encoding: PortablePathEncoding,
    pub value: String,
}

/// The portable path of an entry.
pub open spec fn portable_path_of(e: TrackedEntry) -> (PortablePathEncoding, Seq<char>) {
    match e.portable_text {
        Some(t) => (PortablePathEncoding::Utf8, t@),
        None => (PortablePathEncoding::GitPathHex, hex_text(e.path@)),
    }
}

impl PortableRepositoryPath {
    pub open spec fn view(&self) -> (PortablePathEncoding, Seq<char>) {
        (self.encoding, self.value@)
    }

    /// The portable path of a tracked entry.
    pub fn of_entry(e: &TrackedEntry) -> (r: PortableRepositoryPath)
        ensures
            r.view() == portable_path_of(*e),
    {
        match &e.portable_text {
            Some(t) => PortableRepositoryPath {
                encoding: PortablePathEncoding::Utf8,
                value: owned(t.as_str()),
            },
            None => PortableRepositoryPath {
                encoding: PortablePathEncoding::GitPathHex,
                value: lower_hex(e.path.as_slice()),
            },
        }
    }

    /// Returns how `value` represents the exact Git path bytes.
    pub fn encoding(&self) -> (r: PortablePathEncoding)
        ensures
            r == self.encoding,
    {
        self.encoding
    }

    /// Returns a repository-relative UTF-8 path or lowercase exact byte hex.
    pub fn value(&self) -> (r: &str)
        ensures
            r@ == self.value@,
    {
        self.value.as_str()
    }

    pub fn copy(&self) -> (r: PortableRepositoryPath)
        ensures
            r.view() == self.view(),
    {
        PortableRepositoryPath { encoding: self.encoding, value: owned(self.value.as_str()) }
    }
}

/// The exact Git path bytes a portable path denotes, when it denotes any.
pub open spec fn path_bytes_of(p: (PortablePathEncoding, Seq<char>)) -> Option<Seq<u8>> {
    match p.0 {
        PortablePathEncoding::Utf8 => Some(utf8(p.1)),
        PortablePathEncoding::GitPathHex => hex_decoded(utf8(p.1)),
    }
}

/// Recovers the exact Git path bytes of a portable path.
pub fn portable_path_bytes(path: &PortableRepositoryPath) -> (r: Option<Vec<u8>>)
    ensures
        match r {
            Some(b) => path_bytes_of(path.view()) == Some(b@),
            None => path_bytes_of(path.view()) is None,
        },
{
    match path.encoding {
        PortablePathEncoding::Utf8 => {
            let b = path.value.as_str().as_bytes();
            let mut out: Vec<u8> = Vec::new();
            crate::evidence_id::append_bytes(&mut out, b);
            assert(out@ =~= b@);
            Some(out)
        },
        PortablePathEncoding::GitPathHex => decode_hex(path.value.as_str()),
    }
}

/// The portable path of an entry always recovers the entry's exact bytes.
pub proof fn law_portable_path_round_trip(e: TrackedEntry)
    requires
        e.wf(),
    ensures
        path_bytes_of(portable_path_of(e)) == Some(e.path@),
{
    if e.portable_text is None {
        lemma_decode_lower_hex(e.path@);
    }
}

/// Immutable, portable source locator sufficient for later citations.
#[derive(Debug)]
pub struct EvidenceSourceRecord {
    pub repository: RepositorySource,
    pub repository_revision: RevisionId,
    pub root_tree: Option<RevisionId>,
    pub path: Option<PortableRepositoryPath>,
    pub object_id: Option<String>,
    pub provenance: GitEvidenceProvenance,
}

/// The optional path of a citation.
pub open spec fn opt_path_view(p: Option<PortableRepositoryPath>) -> Option<(PortablePathEncoding, Seq<char>)> {
    match p {
        Some(v) => Some(v.view()),
        None => None,
    }
}

pub open spec fn opt_text_view(t: Option<String>) -> Option<Seq<char>> {
    match t {
        Some(v) => Some(v@),
        None => None,
    }
}

/// `rec` cites the snapshot's repository as a whole.
pub open spec fn cites_repository(s: RepositorySnapshot, rec: EvidenceSourceRecord) -> bool {
    &&& rec.repository.view() == s.source_snapshot.source.view()
    &&& rec.repository_revision.view() == s.source_snapshot.revision.view()
    &&& opt_revision_view(rec.root_tree) == opt_revision_view(s.source_snapshot.root_tree)
    &&& rec.provenance.same(&s.provenance)
}

/// `rec` cites the snapshot's repository without a path.
pub open spec fn repository_citation(s: RepositorySnapshot, rec: EvidenceSourceRecord) -> bool {
    &&& cites_repository(s, rec)
    &&& rec.path is None
    &&& rec.object_id is None
}

/// `rec` cites one tracked entry of the snapshot.
pub open spec fn entry_citation(s: RepositorySnapshot, e: TrackedEntry, rec: EvidenceSourceRecord) -> bool {
    &&& cites_repository(s, rec)
    &&& opt_path_view(rec.path) == Some(portable_path_of(e))
    &&& opt_text_view(rec.object_id) == Some(e.object_id@)
}

impl EvidenceSourceRecord {
    /// Cites the snapshot's repository.
    pub fn for_repository(s: &RepositorySnapshot) -> (r: EvidenceSourceRecord)
        ensures
            repository_citation(*s, r),
    {
        EvidenceSourceRecord {
            repository: s.source_snapshot.source.copy(),
            repository_revision: s.source_snapshot.revision.copy(),
            root_tree: copy_opt_revision(&s.source_snapshot.root_tree),
            path: None,
            object_id: None,
            provenance: s.provenance.copy(),
        }
    }

    /// Cites one tracked entry.
    pub fn entry(s: &RepositorySnapshot, e: &TrackedEntry) -> (r: EvidenceSourceRecord)
        ensures
            entry_citation(*s, *e, r),
    {
        EvidenceSourceRecord {
            repository: s.source_snapshot.source.copy(),
            repository_revision: s.source_snapshot.revision.copy(),
            root_tree: copy_opt_revision(&s.source_snapshot.root_tree),
            path: Some(PortableRepositoryPath::of_entry(e)),
            object_id: Some(owned(e.object_id.as_str())),
            provenance: s.provenance.copy(),
        }
    }
}

/// Typed raw payload of one fact.
#[derive(Debug)]
pub enum RawEvidencePayload {
    RepositorySnapshot,
    TrackedFile {
        mode: EntryMode,
        object_kind: ObjectKind,
        size_bytes: Option<u64>,
        content_hash: Option<ContentHash>,
        issue: Option<RawEvidenceIssue>,
    },
    HistoryScope { reachable_commits: Option<usize>, truncated: Option<bool>, issue: Option<RawEvidenceIssue> },
    ParentDelta { changed_entries: Option<usize>, renames: Option<usize>, issue: Option<RawEvidenceIssue> },
}

/// The texts of an optional content hash.
pub open spec fn opt_hash_view(h: Option<ContentHash>) -> Option<Seq<char>> {
    match h {
        Some(v) => Some(v.view()),
        None => None,
    }
}

/// The abstract value of a payload.
pub ghost enum PayloadView {
    RepositorySnapshot,
    TrackedFile(EntryMode, ObjectKind, Option<u64>, Option<Seq<char>>, Option<RawEvidenceIssue>),
    HistoryScope(Option<usize>, Option<bool>, Option<RawEvidenceIssue>),
    ParentDelta(Option<usize>, Option<usize>, Option<RawEvidenceIssue>),
}

impl RawEvidencePayload {
    pub open spec fn view(&self) -> PayloadView {
        match self {
            RawEvidencePayload::RepositorySnapshot => PayloadView::RepositorySnapshot,
            RawEvidencePayload::TrackedFile { mode, object_kind, size_bytes, content_hash, issue } =>
                PayloadView::TrackedFile(*mode, *object_kind, *size_bytes, opt_hash_view(*content_hash), *issue),
            RawEvidencePayload::HistoryScope { reachable_commits, truncated, issue } =>
                PayloadView::HistoryScope(*reachable_commits, *truncated, *issue),
            RawEvidencePayload::ParentDelta { changed_entries, renames, issue } =>
                PayloadView::ParentDelta(*changed_entries, *renames, *issue),
        }
    }
}

/// Read-only view of a tracked-file payload.
#[derive(Clone, Copy, Debug)]
pub struct TrackedFileEvidence<'a> {
    pub mode: EntryMode,
    pub object_kind: ObjectKind,
    pub size_bytes: Option<u64>,
    pub content_hash: Option<&'a ContentHash>,
    pub issue: Option<RawEvidenceIssue>,
}

impl<'a> TrackedFileEvidence<'a> {
    /// The tracked Git mode.
    pub fn mode(self) -> (r: EntryMode)
        ensures
            r == self.mode,
    {
        self.mode
    }

    /// The referenced Git object kind.
    pub fn object_kind(self) -> (r: ObjectKind)
        ensures
            r == self.object_kind,
    {
        self.object_kind
    }

    /// The object size, only when it was safely observed.
    pub fn size_bytes(self) -> (r: Option<u64>)
        ensures
            r == self.size_bytes,
    {
        self.size_bytes
    }

    /// The complete bounded content digest, when available.
    pub fn content_hash(self) -> (r: Option<&'a ContentHash>)
        ensures
            r == self.content_hash,
    {
        self.content_hash
    }

    /// The explicit incomplete-content reason.
    pub fn issue(self) -> (r: Option<RawEvidenceIssue>)
        ensures
            r == self.issue,
    {
        self.issue
    }
}

/// Read-only view of a history-scope payload.
#[derive(Clone, Copy, Debug)]
pub struct HistoryScopeEvidence {
    pub reachable_commits: Option<usize>,
    pub truncated: Option<bool>,
    pub issue: Option<RawEvidenceIssue>,
}

impl HistoryScopeEvidence {
    /// The bounded reachable count, only when it was observed.
    pub fn reachable_commits(self) -> (r: Option<usize>)
        ensures
            r == self.reachable_commits,
    {
        self.reachable_commits
    }

    /// Truncation, only when history evidence was usable.
    pub fn truncated(self) -> (r: Option<bool>)
        ensures
            r == self.truncated,
    {
        self.truncated
    }

    /// The explicit incomplete-history reason.
    pub fn issue(self) -> (r: Option<RawEvidenceIssue>)
        ensures
            r == self.issue,
    {
        self.issue
    }
}

/// Read-only view of a first-parent delta payload.
#[derive(Clone, Copy, Debug)]
pub struct ParentDeltaEvidence {
    pub changed_entries: Option<usize>,
    pub renames: Option<usize>,
    pub issue: Option<RawEvidenceIssue>,
}

impl ParentDeltaEvidence {
    /// Raw changed entries, only when they were observed.
    pub fn changed_entries(self) -> (r: Option<usize>)
        ensures
            r == self.changed_entries,
    {
        self.changed_entries
    }

    /// The exact rename count, only when rename analysis completed.
    pub fn renames(self) -> (r: Option<usize>)
        ensures
            r == self.renames,
    {
        self.renames
    }

    /// The explicit incomplete-delta reason.
    pub fn issue(self) -> (r: Option<RawEvidenceIssue>)
        ensures
            r == self.issue,
    {
        self.issue
    }
}

impl RawEvidencePayload {
    /// True only for the repository-snapshot payload.
    pub fn is_repository_snapshot(&self) -> (r: bool)
        ensures
            r == (self.view() is RepositorySnapshot),
    {
        match self {
            RawEvidencePayload::RepositorySnapshot => true,
            _ => false,
        }
    }

    /// A read-only tracked-file view, for that payload kind.
    pub fn as_tracked_file(&self) -> (r: Option<TrackedFileEvidence<'_>>)
        ensures
            r is Some <==> self.view() is TrackedFile,
            r matches Some(t) ==> self.view() == PayloadView::TrackedFile(
                t.mode,
                t.object_kind,
                t.size_bytes,
                match t.content_hash {
                    Some(h) => Some(h.view()),
                    None => None,
                },
                t.issue,
            ),
    {
        match self {
            RawEvidencePayload::TrackedFile { mode, object_kind, size_bytes, content_hash, issue } => Some(
                TrackedFileEvidence {
                    mode: *mode,
                    object_kind: *object_kind,
                    size_bytes: *size_bytes,
                    content_hash: match content_hash {
                        Some(h) => Some(h),
                        None => None,
                    },
                    issue: *issue,
                },
            ),
            _ => None,
        }
    }

    /// A read-only history-scope view, for that payload kind.
    pub fn as_history_scope(&self) -> (r: Option<HistoryScopeEvidence>)
        ensures
            r is Some <==> self.view() is HistoryScope,
            r matches Some(h) ==> self.view() == PayloadView::HistoryScope(h.reachable_commits, h.truncated, h.issue),
    {
        match self {
            RawEvidencePayload::HistoryScope { reachable_commits, truncated, issue } => Some(
                HistoryScopeEvidence { reachable_commits: *reachable_commits, truncated: *truncated, issue: *issue },
            ),
            _ => None,
        }
    }

    /// A read-only first-parent delta view, for that payload kind.
    pub fn as_parent_delta(&self) -> (r: Option<ParentDeltaEvidence>)
        ensures
            r is Some <==> self.view() is ParentDelta,
            r matches Some(d) ==> self.view() == PayloadView::ParentDelta(d.changed_entries, d.renames, d.issue),
    {
        match self {
            RawEvidencePayload::ParentDelta { changed_entries, renames, issue } => Some(
                ParentDeltaEvidence { changed_entries: *changed_entries, renames: *renames, issue: *issue },
            ),
            _ => None,
        }
    }
}

/// One immutable raw fact, kept separate from derived classification.
#[derive(Debug)]
pub struct RawEvidenceFact {
    pub id: EvidenceId,
    pub kind: RawEvidenceKind,
    pub status: EvidenceStatus,
    pub source: EvidenceSourceRecord,
    pub payload: RawEvidencePayload,
}

impl RawEvidenceFact {
    /// Returns a complete content digest only when one was collected.
    pub fn content_hash(&self) -> (r: Option<&ContentHash>)
        ensures
            r matches Some(h) ==> self.payload.view() matches PayloadView::TrackedFile(_, _, _, Some(t), _)
                && h.view() == t,
            r is None ==> !(self.payload.view() matches PayloadView::TrackedFile(_, _, _, Some(_), _)),
    {
        match &self.payload {
            RawEvidencePayload::TrackedFile { content_hash, .. } => match content_hash {
                Some(h) => Some(h),
                None => None,
            },
            _ => None,
        }
    }
}

/// The UTF-8 bytes of a text.
pub open spec fn b(t: Seq<char>) -> Seq<u8> {
    utf8(t)
}

/// The identifier parts naming a repository source.
pub open spec fn source_parts(v: SourceView) -> Seq<Seq<u8>> {
    match v {
        SourceView::Local(id) => seq![b("source_kind"@), b("local"@), b("repository_id"@), b(id)],
        SourceView::Hosted(p, n, r) => seq![
            b("source_kind"@),
            b("hosted"@),
            b("provider"@),
            b(p),
            b("namespace"@),
            b(n),
            b("repository"@),
            b(r),
        ],
    }
}

pub open spec fn opt_bytes(t: Option<Seq<char>>) -> Option<Seq<u8>> {
    match t {
        Some(v) => Some(b(v)),
        None => None,
    }
}

/// The identifier parts scoping a fact to its snapshot.
pub open spec fn snapshot_scope_parts(s: RepositorySnapshot) -> Seq<Seq<u8>> {
    source_parts(s.source_snapshot.source.view()) + seq![
        b("revision"@),
        b(s.source_snapshot.revision.view()),
    ] + optional_parts(b("root_tree"@), opt_bytes(opt_revision_view(s.source_snapshot.root_tree)))
        + seq![b("object_format"@), b(object_format_text(s.provenance.object_format))]
}

pub open spec fn opt_decimal(n: Option<nat>) -> Option<Seq<u8>> {
    match n {
        Some(v) => Some(b(decimal(v))),
        None => None,
    }
}

pub open spec fn opt_issue_bytes(i: Option<RawEvidenceIssue>) -> Option<Seq<u8>> {
    match i {
        Some(v) => Some(b(raw_issue_text(v))),
        None => None,
    }
}

pub open spec fn opt_bool_bytes(v: Option<bool>) -> Option<Seq<u8>> {
    match v {
        Some(true) => Some(b("true"@)),
        Some(false) => Some(b("false"@)),
        None => None,
    }
}

pub open spec fn opt_nat_u64(n: Option<u64>) -> Option<nat> {
    match n {
        Some(v) => Some(v as nat),
        None => None,
    }
}

pub open spec fn opt_nat_usize(n: Option<usize>) -> Option<nat> {
    match n {
        Some(v) => Some(v as nat),
        None => None,
    }
}

/// The identifier parts of a payload.
pub open spec fn payload_parts(p: PayloadView) -> Seq<Seq<u8>> {
    match p {
        PayloadView::RepositorySnapshot => seq![b("payload"@), b("repository_snapshot"@)],
        PayloadView::TrackedFile(mode, kind, size, hash, issue) => seq![
            b("payload"@),
            b("tracked_file"@),
            b("mode"@),
            b(entry_mode_text(mode)),
            b("object_kind"@),
            b(object_kind_text(kind)),
        ] + optional_parts(b("size_bytes"@), opt_decimal(opt_nat_u64(size))) + optional_parts(
            b("content_hash"@),
            opt_bytes(hash),
        ) + optional_parts(b("issue"@), opt_issue_bytes(issue)),
        PayloadView::HistoryScope(reachable, truncated, issue) => seq![
            b("payload"@),
            b("history_scope"@),
        ] + optional_parts(b("reachable_commits"@), opt_decimal(opt_nat_usize(reachable)))
            + optional_parts(b("truncated"@), opt_bool_bytes(truncated)) + optional_parts(
            b("issue"@),
            opt_issue_bytes(issue),
        ),
        PayloadView::ParentDelta(changed, renames, issue) => seq![b("payload"@), b("parent_delta"@)]
            + optional_parts(b("changed_entries"@), opt_decimal(opt_nat_usize(changed)))
            + optional_parts(b("renames"@), opt_decimal(opt_nat_usize(renames))) + optional_parts(
            b("issue"@),
            opt_issue_bytes(issue),
        ),
    }
}

/// Every identifier part of a raw fact.
pub open spec fn raw_fact_parts(
    s: RepositorySnapshot,
    kind: RawEvidenceKind,
    status: EvidenceStatus,
    path: Option<Seq<u8>>,
    object_id: Option<Seq<char>>,
    payload: PayloadView,
) -> Seq<Seq<u8>> {
    seq![id_domain(), b(raw_kind_component(kind))] + snapshot_scope_parts(s) + optional_parts(
        b("path_bytes"@),
        path,
    ) + optional_parts(b("object_id"@), opt_bytes(object_id)) + seq![
        b("status"@),
        b(evidence_status_text(status)),
    ] + payload_parts(payload)
}

/// The identifier text of a raw fact.
#[verifier::opaque]
pub open spec fn raw_fact_id(
    s: RepositorySnapshot,
    kind: RawEvidenceKind,
    status: EvidenceStatus,
    path: Option<Seq<u8>>,
    object_id: Option<Seq<char>>,
    payload: PayloadView,
) -> Seq<char> {
    evidence_id_text(raw_kind_component(kind), raw_fact_parts(s, kind, status, path, object_id, payload))
}


/// Adds the parts naming a repository source.
fn add_repository_source(id: &mut EvidenceIdBuilder, source: &RepositorySource)
    requires
        old(id).wf(),
    ensures
        final(id).wf(),
        final(id).parts() == old(id).parts() + source_parts(source.view()),
{
    let ghost start = id.parts();
    match source.local_repository_id() {
        Some(rid) => {
            id.field("source_kind".as_bytes(), "local".as_bytes());
            id.field("repository_id".as_bytes(), rid.as_str().as_bytes());
            assert(id.parts() =~= start + source_parts(source.view()));
        },
        None => {
            match source.hosted_locator() {
                Some((p, n, q)) => {
                    id.field("source_kind".as_bytes(), "hosted".as_bytes());
                    id.field("provider".as_bytes(), p.as_bytes());
                    id.field("namespace".as_bytes(), n.as_bytes());
                    id.field("repository".as_bytes(), q.as_bytes());
                    assert(id.parts() =~= start + source_parts(source.view()));
                },
                None => {},
            }
        },
    }
}

/// Adds the parts scoping a fact to its snapshot.
fn add_snapshot_scope(id: &mut EvidenceIdBuilder, s: &RepositorySnapshot)
    requires
        old(id).wf(),
    ensures
        final(id).wf(),
        final(id).parts() == old(id).parts() + snapshot_scope_parts(*s),
{
    let ghost start = id.parts();
    add_repository_source(id, &s.source_snapshot.source);
    id.field("revision".as_bytes(), s.source_snapshot.revision.as_str().as_bytes());
    match &s.source_snapshot.root_tree {
        Some(t) => id.optional_field("root_tree".as_bytes(), Some(t.as_str().as_bytes())),
        None => id.optional_field("root_tree".as_bytes(), None),
    }
    id.field("object_format".as_bytes(), s.provenance.object_format.code().as_bytes());
    assert(id.parts() =~= start + snapshot_scope_parts(*s));
}

/// Adds an optional decimal count.
fn add_optional_count(id: &mut EvidenceIdBuilder, name: &str, n: Option<u64>)
    requires
        old(id).wf(),
    ensures
        final(id).wf(),
        final(id).parts() == old(id).parts() + optional_parts(b(name@), opt_decimal(opt_nat_u64(n))),
{
    match n {
        Some(v) => {
            let t = decimal_text(v);
            id.optional_field(name.as_bytes(), Some(t.as_str().as_bytes()));
        },
        None => id.optional_field(name.as_bytes(), None),
    }
}

fn widen(n: Option<usize>) -> (r: Option<u64>)
    ensures
        opt_nat_u64(r) == opt_nat_usize(n),
{
    match n {
        Some(v) => Some(v as u64),
        None => None,
    }
}

/// Adds an optional issue code.
fn add_optional_issue(id: &mut EvidenceIdBuilder, issue: Option<RawEvidenceIssue>)
    requires
        old(id).wf(),
    ensures
        final(id).wf(),
        final(id).parts() == old(id).parts() + optional_parts(b("issue"@), opt_issue_bytes(issue)),
{
    match issue {
        Some(i) => id.optional_field("issue".as_bytes(), Some(i.code().as_bytes())),
        None => id.optional_field("issue".as_bytes(), None),
    }
}

/// Adds the parts of a payload.
#[verifier::rlimit(80)]
fn add_raw_payload(id: &mut EvidenceIdBuilder, payload: &RawEvidencePayload)
    requires
        old(id).wf(),
    ensures
        final(id).wf(),
        final(id).parts() == old(id).parts() + payload_parts(payload.view()),
{
    let ghost start = id.parts();
    match payload {
        RawEvidencePayload::RepositorySnapshot => {
            id.field("payload".as_bytes(), "repository_snapshot".as_bytes());
            assert(id.parts() =~= start + payload_parts(payload.view()));
        },
        RawEvidencePayload::TrackedFile { mode, object_kind, size_bytes, content_hash, issue } => {
            id.field("payload".as_bytes(), "tracked_file".as_bytes());
            id.field("mode".as_bytes(), mode.code().as_bytes());
            id.field("object_kind".as_bytes(), object_kind.code().as_bytes());
            let ghost mid = id.parts();
            add_optional_count(id, "size_bytes", *size_bytes);
            let ghost mid2 = id.parts();
            match content_hash {
                Some(h) => id.optional_field("content_hash".as_bytes(), Some(h.as_str().as_bytes())),
                None => id.optional_field("content_hash".as_bytes(), None),
            }
            let ghost mid3 = id.parts();
            add_optional_issue(id, *issue);
            assert(id.parts() =~= start + payload_parts(payload.view()));
        },
        RawEvidencePayload::HistoryScope { reachable_commits, truncated, issue } => {
            id.field("payload".as_bytes(), "history_scope".as_bytes());
            add_optional_count(id, "reachable_commits", widen(*reachable_commits));
            match truncated {
                Some(true) => id.optional_field("truncated".as_bytes(), Some("true".as_bytes())),
                Some(false) => id.optional_field("truncated".as_bytes(), Some("false".as_bytes())),
                None => id.optional_field("truncated".as_bytes(), None),
            }
            add_optional_issue(id, *issue);
            assert(id.parts() =~= start + payload_parts(payload.view()));
        },
        RawEvidencePayload::ParentDelta { changed_entries, renames, issue } => {
            id.field("payload".as_bytes(), "parent_delta".as_bytes());
            add_optional_count(id, "changed_entries", widen(*changed_entries));
            add_optional_count(id, "renames", widen(*renames));
            add_optional_issue(id, *issue);
            assert(id.parts() =~= start + payload_parts(payload.view()));
        },
    }
}

/// The exact path bytes a citation carries, when it carries a recoverable path.
pub open spec fn citation_path_bytes(rec: EvidenceSourceRecord) -> Option<Seq<u8>> {
    match opt_path_view(rec.path) {
        Some(p) => path_bytes_of(p),
        None => None,
    }
}

/// Builds one raw fact with its content-derived identifier.
#[verifier::rlimit(30)]
pub fn raw_fact(
    s: &RepositorySnapshot,
    kind: RawEvidenceKind,
    status: EvidenceStatus,
    source: EvidenceSourceRecord,
    payload: RawEvidencePayload,
) -> (r: Result<RawEvidenceFact, EvidenceAssemblyError>)
    ensures
        r is Ok <==> crate::domain::valid_evidence_id(
            raw_fact_id(
                *s,
                kind,
                status,
                citation_path_bytes(source),
                opt_text_view(source.object_id),
                payload.view(),
            ),
        ),
        r matches Ok(f) ==> f.id.view() == raw_fact_id(
            *s,
            kind,
            status,
            citation_path_bytes(source),
            opt_text_view(source.object_id),
            payload.view(),
        ) && f.kind == kind && f.status == status && f.source == source && f.payload == payload,
        r matches Err(e) ==> e.kind == crate::evidence::EvidenceAssemblyErrorKind::EvidenceIdGeneration,
{
    let component = kind.id_component();
    let mut id = EvidenceIdBuilder::new(component);
    let ghost path_spec = citation_path_bytes(source);
    let ghost oid_spec = opt_text_view(source.object_id);
    let ghost p1 = seq![id_domain(), b(raw_kind_component(kind))] + snapshot_scope_parts(*s);
    add_snapshot_scope(&mut id, s);
    assert(id.parts() == p1);
    let path_bytes: Option<Vec<u8>> = match &source.path {
        Some(p) => portable_path_bytes(p),
        None => None,
    };
    let ghost p2 = p1 + optional_parts(b("path_bytes"@), path_spec);
    match &path_bytes {
        Some(v) => {
            assert(path_spec == Some(v@));
            id.optional_field("path_bytes".as_bytes(), Some(v.as_slice()));
        },
        None => {
            assert(path_spec is None);
            id.optional_field("path_bytes".as_bytes(), None);
        },
    }
    assert(id.parts() == p2);
    let ghost p3 = p2 + optional_parts(b("object_id"@), opt_bytes(oid_spec));
    match &source.object_id {
        Some(o) => id.optional_field("object_id".as_bytes(), Some(o.as_str().as_bytes())),
        None => id.optional_field("object_id".as_bytes(), None),
    }
    assert(id.parts() == p3);
    let ghost p4 = p3 + seq![b("status"@), b(evidence_status_text(status))];
    id.field("status".as_bytes(), status.code().as_bytes());
    assert(id.parts() =~= p4);
    add_raw_payload(&mut id, &payload);
    assert(id.parts() == p4 + payload_parts(payload.view()));
    assert(id.parts() == raw_fact_parts(*s, kind, status, path_spec, oid_spec, payload.view()));
    proof {
        reveal(raw_fact_id);
    }
    match id.finish(component) {
        Ok(eid) => Ok(RawEvidenceFact { id: eid, kind, status, source, payload }),
        Err(e) => Err(e),
    }
}


/// The payload of a tracked entry's fact.
pub open spec fn entry_payload(e: TrackedEntry) -> PayloadView {
    PayloadView::TrackedFile(
        e.mode,
        e.kind,
        e.content.size,
        opt_hash_view(e.content.content_hash),
        e.content.issue,
    )
}

/// The payload of the history-scope fact: counts only when history is usable.
pub open spec fn history_payload(s: RepositorySnapshot) -> PayloadView {
    let usable = s.history.status.spec_is_usable();
    PayloadView::HistoryScope(
        if usable {
            Some(s.history.reachable_commits)
        } else {
            None
        },
        if usable {
            Some(s.history.truncated)
        } else {
            None
        },
        s.history.issue,
    )
}

/// The payload of the parent-delta fact: only observed counts.
pub open spec fn delta_payload(s: RepositorySnapshot) -> PayloadView {
    let d = s.parent_delta;
    let counts = delta_values_spec(d.status, d.issue, d.changed_entries, d.renames);
    PayloadView::ParentDelta(
        counts.0,
        counts.1,
        match d.issue {
            Some(i) => Some(i.spec_raw()),
            None => None,
        },
    )
}

/// `f` is the repository-snapshot fact of `s`.
pub open spec fn is_snapshot_fact(s: RepositorySnapshot, f: RawEvidenceFact) -> bool {
    &&& f.kind == RawEvidenceKind::RepositorySnapshot
    &&& f.status == s.status
    &&& repository_citation(s, f.source)
    &&& f.payload.view() == PayloadView::RepositorySnapshot
    &&& f.id.view() == raw_fact_id(s, f.kind, f.status, None, None, PayloadView::RepositorySnapshot)
}

/// `f` is the tracked-file fact of entry `e` of `s`.
pub open spec fn is_entry_fact(s: RepositorySnapshot, e: TrackedEntry, f: RawEvidenceFact) -> bool {
    &&& f.kind == RawEvidenceKind::TrackedFile
    &&& f.status == e.content.status
    &&& entry_citation(s, e, f.source)
    &&& f.payload.view() == entry_payload(e)
    &&& f.id.view() == raw_fact_id(
        s,
        f.kind,
        f.status,
        Some(e.path@),
        Some(e.object_id@),
        entry_payload(e),
    )
}

/// `f` is the history-scope fact of `s`.
pub open spec fn is_history_fact(s: RepositorySnapshot, f: RawEvidenceFact) -> bool {
    &&& f.kind == RawEvidenceKind::HistoryScope
    &&& f.status == s.history.status
    &&& repository_citation(s, f.source)
    &&& f.payload.view() == history_payload(s)
    &&& f.id.view() == raw_fact_id(s, f.kind, f.status, None, None, history_payload(s))
}

/// `f` is the parent-delta fact of `s`.
pub open spec fn is_delta_fact(s: RepositorySnapshot, f: RawEvidenceFact) -> bool {
    &&& f.kind == RawEvidenceKind::ParentDelta
    &&& f.status == s.parent_delta.status
    &&& repository_citation(s, f.source)
    &&& f.payload.view() == delta_payload(s)
    &&& f.id.view() == raw_fact_id(s, f.kind, f.status, None, None, delta_payload(s))
}

/// Whether every raw fact identifier of `s` is a well-formed identifier.
pub open spec fn raw_ids_valid(s: RepositorySnapshot) -> bool {
    let v = |t: Seq<char>| crate::domain::valid_evidence_id(t);
    &&& v(raw_fact_id(s, RawEvidenceKind::RepositorySnapshot, s.status, None, None, PayloadView::RepositorySnapshot))
    &&& forall|i: int|
        0 <= i < s.entries@.len() ==> crate::domain::valid_evidence_id(
            raw_fact_id(
                s,
                RawEvidenceKind::TrackedFile,
                (#[trigger] s.entries@[i]).content.status,
                Some(s.entries@[i].path@),
                Some(s.entries@[i].object_id@),
                entry_payload(s.entries@[i]),
            ),
        )
    &&& v(raw_fact_id(s, RawEvidenceKind::HistoryScope, s.history.status, None, None, history_payload(s)))
    &&& v(raw_fact_id(s, RawEvidenceKind::ParentDelta, s.parent_delta.status, None, None, delta_payload(s)))
}

/// Every raw fact identifier a snapshot can produce is well formed: each
/// raw-fact kind is a valid identifier segment, and so is any digest.
pub proof fn law_raw_fact_ids_are_well_formed(s: RepositorySnapshot)
    ensures
        raw_ids_valid(s),
{
    reveal(raw_fact_id);
    reveal_strlit("repository-snapshot");
    reveal_strlit("tracked-file");
    reveal_strlit("history-scope");
    reveal_strlit("parent-delta");
    assert(id_kind_chars(raw_kind_component(RawEvidenceKind::RepositorySnapshot)));
    assert(id_kind_chars(raw_kind_component(RawEvidenceKind::TrackedFile)));
    assert(id_kind_chars(raw_kind_component(RawEvidenceKind::HistoryScope)));
    assert(id_kind_chars(raw_kind_component(RawEvidenceKind::ParentDelta)));
    let snapshot = PayloadView::RepositorySnapshot;
    lemma_evidence_id_text_valid(
        raw_kind_component(RawEvidenceKind::RepositorySnapshot),
        raw_fact_parts(s, RawEvidenceKind::RepositorySnapshot, s.status, None, None, snapshot),
    );
    lemma_evidence_id_text_valid(
        raw_kind_component(RawEvidenceKind::HistoryScope),
        raw_fact_parts(s, RawEvidenceKind::HistoryScope, s.history.status, None, None, history_payload(s)),
    );
    lemma_evidence_id_text_valid(
        raw_kind_component(RawEvidenceKind::ParentDelta),
        raw_fact_parts(s, RawEvidenceKind::ParentDelta, s.parent_delta.status, None, None, delta_payload(s)),
    );
    assert forall|i: int| 0 <= i < s.entries@.len() implies crate::domain::valid_evidence_id(
        raw_fact_id(
            s,
            RawEvidenceKind::TrackedFile,
            (#[trigger] s.entries@[i]).content.status,
            Some(s.entries@[i].path@),
            Some(s.entries@[i].object_id@),
            entry_payload(s.entries@[i]),
        ),
    ) by {
        let e = s.entries@[i];
        lemma_evidence_id_text_valid(
            raw_kind_component(RawEvidenceKind::TrackedFile),
            raw_fact_parts(
                s,
                RawEvidenceKind::TrackedFile,
                e.content.status,
                Some(e.path@),
                Some(e.object_id@),
                entry_payload(e),
            ),
        );
    }
}

/// The raw facts of `s` in collection order: the snapshot, each tracked
/// entry in snapshot order, the history scope and the parent delta.
pub open spec fn raw_facts_of(s: RepositorySnapshot, facts: Seq<RawEvidenceFact>) -> bool {
    let n = s.entries@.len() as int;
    &&& facts.len() == n + 3
    &&& is_snapshot_fact(s, facts[0])
    &&& forall|i: int| 0 <= i < n ==> is_entry_fact(s, s.entries@[i], #[trigger] facts[i + 1])
    &&& is_history_fact(s, facts[n + 1])
    &&& is_delta_fact(s, facts[n + 2])
}

/// Collects the raw facts of a snapshot.
pub fn raw_facts(s: &RepositorySnapshot) -> (r: Result<Vec<RawEvidenceFact>, EvidenceAssemblyError>)
    requires
        s.wf(),
    ensures
        r is Ok,
        r matches Ok(facts) ==> raw_facts_of(*s, facts@),
{
    proof {
        law_raw_fact_ids_are_well_formed(*s);
    }
    let mut facts: Vec<RawEvidenceFact> = Vec::new();
    let first = match raw_fact(
        s,
        RawEvidenceKind::RepositorySnapshot,
        s.status,
        EvidenceSourceRecord::for_repository(s),
        RawEvidencePayload::RepositorySnapshot,
    ) {
        Ok(f) => f,
        Err(e) => return Err(e),
    };
    facts.push(first);
    let mut i: usize = 0;
    while i < s.entries.len()
        invariant
            s.wf(),
            i <= s.entries@.len(),
            facts@.len() == i + 1,
            is_snapshot_fact(*s, facts@[0]),
            forall|k: int| 0 <= k < i ==> is_entry_fact(*s, s.entries@[k], #[trigger] facts@[k + 1]),
            forall|k: int|
                0 <= k < i ==> crate::domain::valid_evidence_id(
                    raw_fact_id(
                        *s,
                        RawEvidenceKind::TrackedFile,
                        (#[trigger] s.entries@[k]).content.status,
                        Some(s.entries@[k].path@),
                        Some(s.entries@[k].object_id@),
                        entry_payload(s.entries@[k]),
                    ),
                ),
            crate::domain::valid_evidence_id(
                raw_fact_id(*s, RawEvidenceKind::RepositorySnapshot, s.status, None, None, PayloadView::RepositorySnapshot),
            ),
        decreases s.entries.len() - i,
    {
        let e = &s.entries[i];
        let source = EvidenceSourceRecord::entry(s, e);
        let payload = RawEvidencePayload::TrackedFile {
            mode: e.mode,
            object_kind: e.kind,
            size_bytes: e.content.size,
            content_hash: match &e.content.content_hash {
                Some(h) => Some(h.copy()),
                None => None,
            },
            issue: e.content.issue,
        };
        proof {
            assert(e.wf());
            law_portable_path_round_trip(*e);
            assert(citation_path_bytes(source) == Some(e.path@));
            assert(payload.view() == entry_payload(*e));
        }
        let ghost old_facts = facts@;
        match raw_fact(s, RawEvidenceKind::TrackedFile, e.content.status, source, payload) {
            Ok(f) => facts.push(f),
            Err(err) => {
                proof {
                    law_raw_fact_ids_are_well_formed(*s);
                    assert(s.entries@[i as int] == *e);
                }
                return Err(err);
            },
        }
        assert forall|k: int| 0 <= k < i + 1 implies is_entry_fact(*s, s.entries@[k], #[trigger] facts@[k + 1]) by {
            if k < i {
                assert(facts@[k + 1] == old_facts[k + 1]);
            }
        }
        i = i + 1;
    }
    let usable = s.history.status.is_usable();
    let history = RawEvidencePayload::HistoryScope {
        reachable_commits: if usable {
            Some(s.history.reachable_commits)
        } else {
            None
        },
        truncated: if usable {
            Some(s.history.truncated)
        } else {
            None
        },
        issue: s.history.issue,
    };
    match raw_fact(s, RawEvidenceKind::HistoryScope, s.history.status, EvidenceSourceRecord::for_repository(s), history) {
        Ok(f) => facts.push(f),
        Err(err) => {
            return Err(err);
        },
    }
    let d = &s.parent_delta;
    let (changed_entries, renames) = parent_delta_values(d.status, d.issue, d.changed_entries, d.renames);
    let delta = RawEvidencePayload::ParentDelta {
        changed_entries,
        renames,
        issue: match d.issue {
            Some(x) => Some(x.to_raw()),
            None => None,
        },
    };
    match raw_fact(s, RawEvidenceKind::ParentDelta, d.status, EvidenceSourceRecord::for_repository(s), delta) {
        Ok(f) => facts.push(f),
        Err(err) => {
            return Err(err);
        },
    }
    let ghost n = s.entries@.len() as int;
    assert forall|k: int| 0 <= k < n implies is_entry_fact(*s, s.entries@[k], #[trigger] facts@[k + 1]) by {
        assert(facts@[k + 1] == facts@.subrange(0, n + 1)[k + 1]);
    }
    Ok(facts)
}

} // verus!
