//! Builds a commit-history report: parses one-line-per-commit history text
//! into records, derives the time elapsed since each commit, and renders the
//! records as comma-separated text.
use vstd::prelude::*;

pub mod text;
pub mod elapsed;
pub mod record;
pub mod report;
pub mod query;

verus! {

} // verus!
