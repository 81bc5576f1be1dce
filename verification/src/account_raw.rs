//! The raw shape of account state and account assertions.
use super::value_raw::ValueSubTree;
use vstd::prelude::*;

verus! {

/// Seeded account state, every field a value string or tree; storage maps
/// raw key strings to raw values.
#[derive(Debug)]
pub struct AccountRaw {
    pub comment: Option<ValueSubTree>,
    pub nonce: ValueSubTree,
    pub balance: ValueSubTree,
    pub storage: Vec<(String, ValueSubTree)>,
    pub code: Option<ValueSubTree>,
}

/// Either the wildcard `"*"`, leaving storage unconstrained, or a map from
/// raw key strings to expected values.
#[derive(Debug)]
pub enum CheckStorageRaw {
    Star,
    Equal(Vec<(String, ValueSubTree)>),
}

/// An account assertion; absent fields check as wildcards.
#[derive(Debug)]
pub struct CheckAccountRaw {
    pub comment: Option<ValueSubTree>,
    pub nonce: Option<ValueSubTree>,
    pub balance: Option<ValueSubTree>,
    pub storage: CheckStorageRaw,
    pub code: Option<ValueSubTree>,
    pub async_call_data: Option<ValueSubTree>,
}

/// The raw account assertions: a map from address strings to account
/// assertions. The reserved key `"+"` permits accounts beyond those listed,
/// whatever value stands beside it.
#[derive(Debug)]
pub struct CheckAccountsRaw {
    pub accounts: Vec<(String, CheckAccountRaw)>,
}

} // verus!
