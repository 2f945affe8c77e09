//! Central policy distribution: named, versioned org policy documents.

use vstd::prelude::*;

verus! {

/// A stored org policy document.
#[derive(Debug, Clone, PartialEq, Eq)]
pub struct PolicyDoc {
    pub name: String,
    pub content: String,
    pub version: i64,
    pub updated_at: String,
}

/// Policy metadata without the body (for listings).
#[derive(Debug, Clone, PartialEq, Eq)]
pub struct PolicySummary {
    pub name: String,
    pub version: i64,
    pub updated_at: String,
}

/// The version a policy write stores: one past the current version, so the
/// first write of a name is version 1 and every rewrite bumps it.
pub fn next_policy_version(current: Option<i64>) -> (v: i64)
    requires
        current matches Some(c) ==> c < i64::MAX,
    ensures
        v == match current {
            Some(c) => c + 1,
            None => 1,
        },
{
    match current {
        Some(c) => c + 1,
        None => 1,
    }
}

} // verus!
