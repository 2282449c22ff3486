# assay-project-intelligence

Deterministic project-level evidence for Assay, written in Verus. The
functions in `src/` carry contracts that Verus proves, with one exception:
the few small wrappers marked `#[verifier::external_body]` that call SHA-256
(`sha2`), UUID formatting (`uuid`), RFC 3339 formatting (`time`) and
`String::push`. Their contracts are trusted, not proved, and each
one's doc comment says what it claims of the outside call.

The library combines immutable Git snapshot facts with versioned file
classification facts, maps them onto public machine records, compares a
project with a cohort of similar projects, checks the cross-record
invariants of an analysis bundle, and drives the hosted collection and
evaluation workflow. It measures which facts were collected and how files
were classified; missing, partial and unsupported evidence stay explicit
availability states rather than numeric zeroes, and nothing here is a
project score.

## Layout

- `src/` — the verified library.
  - `text`, `sorted`, `hex`, `digest`, `json`, `ranking`: text order and
    utilities, key-sorted collections, hexadecimal, SHA-256 hash texts, the
    JSON document model, stable ranking.
  - `domain`, `evidence`, `evidence_id`, `raw_facts`, `file_classification`,
    `assembly`: evidence identifiers and records, raw snapshot facts,
    classification facts, and the assembled manifest.
  - `classification`: project type, maturity and rubric applicability.
  - `comparison`, `cohort`, `cohort_record`: one-depth cohort comparison and
    its public record.
  - `path_text`, `machine_records`, `features`, `machine`: public machine
    records and the project-analysis bundle.
  - `bundle_feature`, `contract`: repository features derived from a
    bundle's own records, and the bundle's cross-record invariants.
  - `hosted`, `hosted_workflow`, `ai_analysis`: hosted API contracts, the
    hosted workflow state machine, and the public projection of AI analyses.
- `app/` — the edges: `serde_json` conversion, serializable copies of the
  hosted contracts, the asynchronous ports of the hosted workflow and the loop
  that drives it, and the pipelines that serialize evidence between steps.
- `tests/` — tests of the library on concrete values.

Laws that relate several functions are public proof functions named
`law_*`.
