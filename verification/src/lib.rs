//! Deterministic project-level evidence assembly, classification, cohort
//! comparison and public record mapping for Assay.
use vstd::prelude::*;

pub mod text;
pub mod sorted;
pub mod hex;
pub mod digest;
pub mod domain;
pub mod classification;
pub mod comparison;
pub mod json;
pub mod ranking;
pub mod cohort;
pub mod cohort_record;
pub mod evidence;
pub mod evidence_id;
pub mod raw_facts;
pub mod file_classification;
pub mod assembly;
pub mod path_text;
pub mod machine_records;
pub mod features;
pub mod machine;
pub mod ai_analysis;
pub mod bundle_feature;
pub mod contract;
pub mod hosted;
pub mod hosted_workflow;

verus! {

} // verus!
