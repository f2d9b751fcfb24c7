use vstd::prelude::*;

pub mod brief;
pub mod cli;
pub mod detect;
pub mod diff;
pub mod doctor;
pub mod error;
pub mod git;
pub mod order;
pub mod report;
pub mod scan;
pub mod seq_facts;
pub mod snapshot;
pub mod text;
pub mod tools;

verus! {
} // verus!
