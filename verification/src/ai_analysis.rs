//! Public projection of a stored AI analysis: only judgments bound to the
//! stored evaluation, made over public evidence only, and each well formed,
//! are published, and always as an interpretation that is not a project
//! score.
use vstd::prelude::*;

use crate::sorted::keys_of;
use crate::text::{chars_of, owned, text_eq, utf8};

verus! {

pub const PROJECT_AI_ANALYSIS_CONTRACT: &'static str = "project-ai-analysis";

pub const PROJECT_AI_ANALYSIS_SCHEMA_VERSION: &'static str = "1.0.0";

/// A character allowed in a segment of an evidence identifier.
pub open spec fn id_char(c: char) -> bool {
    ('a' <= c && c <= 'z') || ('0' <= c && c <= '9') || c == '.' || c == '-' || c == '_'
}

/// An evidence identifier: `evidence` followed by at least two non-empty
/// `:`-separated segments of lowercase letters, digits, `.`, `-` and `_`.
pub open spec fn spec_valid_evidence_id(id: Seq<char>) -> bool {
    let rest = id.subrange(9, id.len() as int);
    &&& id.len() > 9
    &&& id.subrange(0, 9) == "evidence:"@
    &&& forall|k: int| 0 <= k < rest.len() ==> id_char(#[trigger] rest[k]) || rest[k] == ':'
    &&& exists|k: int| 0 <= k < rest.len() && #[trigger] rest[k] == ':'
    &&& rest[0] != ':'
    &&& rest.last() != ':'
    &&& forall|k: int| 0 <= k < rest.len() - 1 ==> !(#[trigger] rest[k] == ':' && rest[k + 1] == ':')
}

fn is_id_char(c: char) -> (r: bool)
    ensures
        r == id_char(c),
{
    ('a' <= c && c <= 'z') || ('0' <= c && c <= '9') || c == '.' || c == '-' || c == '_'
}

/// Whether a text is an evidence identifier.
pub fn valid_evidence_id(id: &str) -> (r: bool)
    ensures
        r == spec_valid_evidence_id(id@),
{
    let cs = chars_of(id);
    proof {
        reveal_strlit("evidence:");
    }
    let prefix = chars_of("evidence:");
    assert(prefix@.len() == 9);
    if cs.len() <= 9 {
        return false;
    }
    let mut i: usize = 0;
    while i < 9
        invariant
            i <= 9,
            cs@ == id@,
            prefix@ == "evidence:"@,
            prefix@.len() == 9,
            cs@.len() > 9,
            forall|k: int| 0 <= k < i ==> cs@[k] == prefix@[k],
        decreases 9 - i,
    {
        if cs[i] != prefix[i] {
            assert(id@.subrange(0, 9)[i as int] != "evidence:"@[i as int]);
            return false;
        }
        i = i + 1;
    }
    assert(id@.subrange(0, 9) =~= "evidence:"@);
    let ghost rest = id@.subrange(9, id@.len() as int);
    if cs[9] == ':' || cs[cs.len() - 1] == ':' {
        assert(rest[0] == cs@[9]);
        assert(rest.last() == cs@[cs@.len() - 1]);
        return false;
    }
    let mut seen_separator = false;
    let mut j: usize = 9;
    while j < cs.len()
        invariant
            9 <= j <= cs@.len(),
            cs@ == id@,
            rest == id@.subrange(9, id@.len() as int),
            forall|k: int| 0 <= k < j - 9 ==> id_char(#[trigger] rest[k]) || rest[k] == ':',
            forall|k: int| 0 <= k < j - 9 - 1 ==> !(#[trigger] rest[k] == ':' && rest[k + 1] == ':'),
            seen_separator == exists|k: int| 0 <= k < j - 9 && #[trigger] rest[k] == ':',
        decreases cs.len() - j,
    {
        let c = cs[j];
        assert(rest[j - 9] == c);
        if c == ':' {
            if cs[j - 1] == ':' && j > 9 {
                assert(rest[j - 10] == ':' && rest[j - 9] == ':');
                return false;
            }
            seen_separator = true;
        } else if !is_id_char(c) {
            return false;
        }
        proof {
            if j > 9 {
                assert(rest[j - 10] == cs@[j - 1]);
            }
        }
        j = j + 1;
    }
    seen_separator
}

/// Only digits.
pub open spec fn all_digits(s: Seq<char>) -> bool {
    forall|k: int| 0 <= k < s.len() ==> '0' <= #[trigger] s[k] && s[k] <= '9'
}

/// Only zeros.
pub open spec fn all_zeros(s: Seq<char>) -> bool {
    forall|k: int| 0 <= k < s.len() ==> #[trigger] s[k] == '0'
}

/// A numeral `w` or `w.f` with whole part `w` and a non-empty fraction `f`
/// for which `accept(w, f)` holds.
pub open spec fn numeral_with(t: Seq<char>, whole: char, fraction_ok: spec_fn(Seq<char>) -> bool) -> bool {
    ||| t == seq![whole]
    ||| (t.len() > 2 && t[0] == whole && t[1] == '.' && all_digits(t.subrange(2, t.len() as int))
        && fraction_ok(t.subrange(2, t.len() as int)))
}

/// The decimal text of a number from 0 to 1, inclusive: a confidence.
/// Zero may carry a minus sign, as negative zero is written.
pub open spec fn confidence_in_unit(t: Seq<char>) -> bool {
    ||| numeral_with(t, '0', |f: Seq<char>| true)
    ||| numeral_with(t, '1', |f: Seq<char>| all_zeros(f))
    ||| (t.len() > 1 && t[0] == '-' && numeral_with(t.subrange(1, t.len() as int), '0', |f: Seq<char>| all_zeros(f)))
}

/// Whether `cs[from..]` is `w` or `w.` followed by digits, all zeros when
/// `zeros`.
fn numeral_from(cs: &Vec<char>, from: usize, whole: char, zeros: bool) -> (r: bool)
    requires
        from <= cs@.len(),
    ensures
        r == numeral_with(
            cs@.subrange(from as int, cs@.len() as int),
            whole,
            if zeros {
                |f: Seq<char>| all_zeros(f)
            } else {
                |f: Seq<char>| true
            },
        ),
{
    let ghost t = cs@.subrange(from as int, cs@.len() as int);
    let n = cs.len() - from;
    if n == 0 || cs[from] != whole {
        assert(t.len() == 0 || t[0] != whole);
        return false;
    }
    if n == 1 {
        assert(t =~= seq![whole]);
        return true;
    }
    assert(t[0] == whole && t.len() >= 2);
    assert(t != seq![whole]);
    if n == 2 || cs[from + 1] != '.' {
        assert(t[1] == cs@[from + 1]);
        return false;
    }
    let ghost frac = t.subrange(2, t.len() as int);
    let mut k: usize = from + 2;
    while k < cs.len()
        invariant
            from + 2 <= k <= cs@.len(),
            t == cs@.subrange(from as int, cs@.len() as int),
            frac == t.subrange(2, t.len() as int),
            forall|i: int| 0 <= i < k - from - 2 ==> '0' <= #[trigger] frac[i] && frac[i] <= '9',
            zeros ==> forall|i: int| 0 <= i < k - from - 2 ==> #[trigger] frac[i] == '0',
        decreases cs.len() - k,
    {
        let c = cs[k];
        assert(frac[k - from - 2] == c);
        if !('0' <= c && c <= '9') || (zeros && c != '0') {
            return false;
        }
        k = k + 1;
    }
    true
}

/// Whether a decimal text is a confidence from 0 to 1.
pub fn is_unit_confidence(text: &str) -> (r: bool)
    ensures
        r == confidence_in_unit(text@),
{
    let cs = chars_of(text);
    assert(cs@.subrange(0, cs@.len() as int) =~= text@);
    let zero = numeral_from(&cs, 0, '0', false);
    let one = numeral_from(&cs, 0, '1', true);
    let negative_zero = if cs.len() > 1 && cs[0] == '-' {
        numeral_from(&cs, 1, '0', true)
    } else {
        false
    };
    proof {
        assert((|f: Seq<char>| true) =~= (|f: Seq<char>| true));
    }
    zero || one || negative_zero
}

/// One judgment of a stored analysis. `confidence` is the decimal text of
/// the judge's confidence, as Rust writes an `f64`.
#[derive(Debug)]
pub struct Judgment {
    pub criterion_id: String,
    pub applicability: String,
    pub rating: Option<u8>,
    pub rating_scale: u8,
    pub confidence: String,
    pub evidence_ids: Vec<String>,
    pub rationale: String,
}

/// The byte length of a text.
pub open spec fn byte_len(t: Seq<char>) -> int {
    utf8(t).len() as int
}

/// A judgment is publishable: bounded and well-formed fields, distinct
/// valid evidence identifiers, and a rating with citations exactly when the
/// criterion applies.
pub open spec fn spec_valid_judgment(j: Judgment) -> bool {
    let ids = keys_of(j.evidence_ids@);
    &&& ids.len() <= 32
    &&& j.rationale@.len() > 0
    &&& byte_len(j.rationale@) <= 1000
    &&& j.rating_scale == 4
    &&& (j.rating matches Some(r) ==> r <= 4)
    &&& confidence_in_unit(j.confidence@)
    &&& 3 <= byte_len(j.criterion_id@) <= 100
    &&& (j.applicability@ == "applicable"@ || j.applicability@ == "partially_applicable"@ || j.applicability@
        == "not_applicable"@)
    &&& forall|k: int| 0 <= k < ids.len() ==> spec_valid_evidence_id(#[trigger] ids[k])
    &&& ids.no_duplicates()
    &&& if j.applicability@ == "not_applicable"@ {
        j.rating is None && ids.len() == 0
    } else {
        j.rating is Some && ids.len() > 0
    }
}

fn distinct_texts(ts: &Vec<String>) -> (r: bool)
    ensures
        r == keys_of(ts@).no_duplicates(),
{
    let ghost ks = keys_of(ts@);
    let mut i: usize = 0;
    while i < ts.len()
        invariant
            i <= ts@.len(),
            ks == keys_of(ts@),
            forall|p: int, q: int| 0 <= p < q < ts@.len() && p < i ==> #[trigger] ks[p] != #[trigger] ks[q],
        decreases ts.len() - i,
    {
        let mut j: usize = i + 1;
        while j < ts.len()
            invariant
                i < j <= ts@.len(),
                ks == keys_of(ts@),
                forall|p: int, q: int| 0 <= p < q < ts@.len() && p < i ==> #[trigger] ks[p] != #[trigger] ks[q],
                forall|q: int| i < q < j ==> ks[i as int] != #[trigger] ks[q],
            decreases ts.len() - j,
        {
            if text_eq(ts[i].as_str(), ts[j].as_str()) {
                assert(ks[i as int] == ks[j as int]);
                return false;
            }
            j = j + 1;
        }
        i = i + 1;
    }
    assert forall|p: int, q: int| 0 <= p < ks.len() && 0 <= q < ks.len() && p != q implies ks[p] != ks[q] by {
        if p < q {
            assert(ks[p] != ks[q]);
        } else {
            assert(ks[q] != ks[p]);
        }
    }
    true
}

fn all_valid_ids(ts: &Vec<String>) -> (r: bool)
    ensures
        r == forall|k: int| 0 <= k < keys_of(ts@).len() ==> spec_valid_evidence_id(#[trigger] keys_of(ts@)[k]),
{
    let mut i: usize = 0;
    while i < ts.len()
        invariant
            i <= ts@.len(),
            forall|k: int| 0 <= k < i ==> spec_valid_evidence_id(#[trigger] keys_of(ts@)[k]),
        decreases ts.len() - i,
    {
        if !valid_evidence_id(ts[i].as_str()) {
            assert(keys_of(ts@)[i as int] == ts@[i as int]@);
            return false;
        }
        i = i + 1;
    }
    true
}

/// Whether a judgment is publishable.
pub fn valid_judgment(j: &Judgment) -> (r: bool)
    ensures
        r == spec_valid_judgment(*j),
{
    let rationale_bytes = j.rationale.as_str().as_bytes().len();
    let criterion_bytes = j.criterion_id.as_str().as_bytes().len();
    let not_applicable = text_eq(j.applicability.as_str(), "not_applicable");
    let known = text_eq(j.applicability.as_str(), "applicable") || text_eq(
        j.applicability.as_str(),
        "partially_applicable",
    ) || not_applicable;
    let rating_ok = match j.rating {
        Some(r) => r <= 4,
        None => true,
    };
    assert(keys_of(j.evidence_ids@).len() == j.evidence_ids@.len());
    if j.evidence_ids.len() > 32 || j.rationale.as_str().len() == 0 || rationale_bytes > 1000 || j.rating_scale != 4
        || !rating_ok || !is_unit_confidence(j.confidence.as_str()) || criterion_bytes < 3 || criterion_bytes > 100
        || !known || !all_valid_ids(&j.evidence_ids) {
        return false;
    }
    if !distinct_texts(&j.evidence_ids) {
        return false;
    }
    if not_applicable {
        j.rating.is_none() && j.evidence_ids.len() == 0
    } else {
        j.rating.is_some() && j.evidence_ids.len() > 0
    }
}

/// The privacy statement of a judgment document.
#[derive(Debug)]
pub struct JudgmentPrivacy {
    pub evidence_scope: String,
    pub external_transmission: String,
}

/// A stored judgment document, as its schema reads it.
#[derive(Debug)]
pub struct JudgmentDocument {
    pub schema_version: String,
    pub evaluation_version: String,
    pub rubric_version: String,
    pub status: String,
    pub evidence_bundle_hash: String,
    pub privacy: JudgmentPrivacy,
    pub judgments: Vec<Judgment>,
}

/// A stored analysis: what it was made of; its judgment document is read
/// separately.
#[derive(Debug)]
pub struct StoredProjectAiAnalysis {
    pub owner: String,
    pub repository: String,
    pub commit_sha: String,
    pub default_branch: String,
    pub evaluation_version: String,
    pub rubric_version: String,
    pub evidence_bundle_hash: String,
}

#[derive(Debug)]
pub struct Project {
    pub owner: String,
    pub repository: String,
}

#[derive(Debug)]
pub struct Revision {
    pub commit_sha: String,
    pub default_branch: String,
}

#[derive(Debug)]
pub struct Evaluation {
    pub evaluation_version: String,
    pub rubric_version: String,
    pub evidence_bundle_hash: String,
}

#[derive(Debug)]
pub struct Interpretation {
    pub kind: &'static str,
    pub not_a_project_score: bool,
}

/// The published analysis.
#[derive(Debug)]
pub struct ProjectAiAnalysis {
    pub project: Project,
    pub revision: Revision,
    pub evaluation: Evaluation,
    pub interpretation: Interpretation,
    pub judgments: Vec<Judgment>,
    pub limitations: Vec<String>,
}

/// The published analysis under its contract's name and schema version.
#[derive(Debug)]
pub struct ProjectAiAnalysisEnvelope {
    pub contract: &'static str,
    pub schema_version: &'static str,
    pub data: ProjectAiAnalysis,
}

/// The document may be published for the stored analysis: current schema,
/// a finished status, public evidence only and transmitted publicly if at
/// all, bound to the stored evaluation, and from one to 64 valid judgments.
pub open spec fn publishable(input: StoredProjectAiAnalysis, d: JudgmentDocument) -> bool {
    &&& d.schema_version@ == "1.0.0"@
    &&& (d.status@ == "complete"@ || d.status@ == "partial"@)
    &&& d.privacy.evidence_scope@ == "public_only"@
    &&& (d.privacy.external_transmission@ == "not_used"@ || d.privacy.external_transmission@ == "public_only"@)
    &&& d.evaluation_version@ == input.evaluation_version@
    &&& d.rubric_version@ == input.rubric_version@
    &&& d.evidence_bundle_hash@ == input.evidence_bundle_hash@
    &&& 0 < d.judgments@.len() <= 64
    &&& forall|k: int| 0 <= k < d.judgments@.len() ==> spec_valid_judgment(#[trigger] d.judgments@[k])
}

/// The two limitations every published analysis states.
pub open spec fn analysis_limitations() -> Seq<Seq<char>> {
    seq![
        "AI interpretation of cited public evidence only; it is not a project score."@,
        "Missing or insufficient evidence is not treated as a zero."@,
    ]
}

/// `e` publishes the document's judgments for the stored analysis.
pub open spec fn publishes(input: StoredProjectAiAnalysis, d: JudgmentDocument, e: ProjectAiAnalysisEnvelope) -> bool {
    &&& e.contract == PROJECT_AI_ANALYSIS_CONTRACT
    &&& e.schema_version == PROJECT_AI_ANALYSIS_SCHEMA_VERSION
    &&& e.data.project.owner@ == input.owner@
    &&& e.data.project.repository@ == input.repository@
    &&& e.data.revision.commit_sha@ == input.commit_sha@
    &&& e.data.revision.default_branch@ == input.default_branch@
    &&& e.data.evaluation.evaluation_version@ == input.evaluation_version@
    &&& e.data.evaluation.rubric_version@ == input.rubric_version@
    &&& e.data.evaluation.evidence_bundle_hash@ == input.evidence_bundle_hash@
    &&& e.data.interpretation.kind@ == "ai_interpretation"@
    &&& e.data.interpretation.not_a_project_score
    &&& e.data.judgments == d.judgments
    &&& keys_of(e.data.limitations@) == analysis_limitations()
}

fn all_valid(js: &Vec<Judgment>) -> (r: bool)
    ensures
        r == forall|k: int| 0 <= k < js@.len() ==> spec_valid_judgment(#[trigger] js@[k]),
{
    let mut i: usize = 0;
    while i < js.len()
        invariant
            i <= js@.len(),
            forall|k: int| 0 <= k < i ==> spec_valid_judgment(#[trigger] js@[k]),
        decreases js.len() - i,
    {
        if !valid_judgment(&js[i]) {
            return false;
        }
        i = i + 1;
    }
    true
}

impl ProjectAiAnalysisEnvelope {
    /// Publishes a stored analysis with its judgment document, or gives
    /// `None` when the document may not be published.
    pub fn from_stored(input: StoredProjectAiAnalysis, document: JudgmentDocument) -> (r: Option<ProjectAiAnalysisEnvelope>)
        ensures
            r is Some <==> publishable(input, document),
            r matches Some(e) ==> publishes(input, document, e),
    {
        let d = document;
        let accepted = text_eq(d.schema_version.as_str(), "1.0.0") && (text_eq(d.status.as_str(), "complete")
            || text_eq(d.status.as_str(), "partial")) && text_eq(d.privacy.evidence_scope.as_str(), "public_only")
            && (text_eq(d.privacy.external_transmission.as_str(), "not_used") || text_eq(
            d.privacy.external_transmission.as_str(),
            "public_only",
        )) && text_eq(d.evaluation_version.as_str(), input.evaluation_version.as_str()) && text_eq(
            d.rubric_version.as_str(),
            input.rubric_version.as_str(),
        ) && text_eq(d.evidence_bundle_hash.as_str(), input.evidence_bundle_hash.as_str()) && d.judgments.len() > 0
            && d.judgments.len() <= 64;
        if !accepted || !all_valid(&d.judgments) {
            return None;
        }
        let mut limitations: Vec<String> = Vec::new();
        limitations.push(owned("AI interpretation of cited public evidence only; it is not a project score."));
        limitations.push(owned("Missing or insufficient evidence is not treated as a zero."));
        assert(keys_of(limitations@) =~= analysis_limitations());
        Some(ProjectAiAnalysisEnvelope {
            contract: PROJECT_AI_ANALYSIS_CONTRACT,
            schema_version: PROJECT_AI_ANALYSIS_SCHEMA_VERSION,
            data: ProjectAiAnalysis {
                project: Project { owner: input.owner, repository: input.repository },
                revision: Revision { commit_sha: input.commit_sha, default_branch: input.default_branch },
                evaluation: Evaluation {
                    evaluation_version: input.evaluation_version,
                    rubric_version: input.rubric_version,
                    evidence_bundle_hash: input.evidence_bundle_hash,
                },
                interpretation: Interpretation { kind: "ai_interpretation", not_a_project_score: true },
                judgments: d.judgments,
                limitations,
            },
        })
    }
}

/// Every published analysis is marked as an interpretation that is not a
/// project score, and every judgment it publishes is well formed and cites
/// only distinct, valid evidence identifiers.
pub proof fn law_published_analyses_are_not_scores(
    input: StoredProjectAiAnalysis,
    d: JudgmentDocument,
    e: ProjectAiAnalysisEnvelope,
    k: int,
)
    requires
        publishable(input, d),
        publishes(input, d, e),
        0 <= k < e.data.judgments@.len(),
    ensures
        e.data.interpretation.not_a_project_score,
        spec_valid_judgment(e.data.judgments@[k]),
        keys_of(e.data.judgments@[k].evidence_ids@).no_duplicates(),
{
}

} // verus!
