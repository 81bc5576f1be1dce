//! The raw shape of log assertions, as the document carries them.
use super::value_raw::ValueSubTree;
use vstd::prelude::*;

verus! {

/// One expected log entry, every field a value string or tree.
#[derive(Debug)]
pub struct CheckLogRaw {
    pub address: ValueSubTree,
    pub identifier: ValueSubTree,
    pub topics: Vec<ValueSubTree>,
    pub data: ValueSubTree,
}

/// Either the wildcard `"*"`, leaving logs unconstrained, or the exact list
/// of expected log entries.
#[derive(Debug)]
pub enum CheckLogsRaw {
    Star,
    List(Vec<CheckLogRaw>),
}

} // verus!
