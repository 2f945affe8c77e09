//! Plain read models shared by the storage backends.

use std::collections::BTreeMap;
use vstd::prelude::*;

verus! {

/// An organization (tenant).
#[derive(Debug, Clone, PartialEq, Eq)]
pub struct Org {
    pub id: String,
    pub name: String,
    pub created_at: String,
}

/// A repository within an org.
#[derive(Debug, Clone, PartialEq, Eq)]
pub struct Repo {
    pub id: String,
    pub org_id: String,
    pub name: String,
}

/// A repo plus its event count (for listings).
#[derive(Debug, Clone, PartialEq, Eq)]
pub struct RepoSummary {
    pub id: String,
    pub name: String,
    pub event_count: u64,
}

/// Org-level activity rollup aggregated across the org's repos.
#[derive(Debug, Clone)]
pub struct OrgReport {
    pub org_id: String,
    pub total_events: u64,
    pub distinct_sessions: u64,
    pub by_type: BTreeMap<String, u64>,
    pub by_actor: BTreeMap<String, u64>,
    pub repos: Vec<RepoSummary>,
}

/// A pending OIDC login transaction (CSRF `state` bound to PKCE and nonce).
#[derive(Debug, Clone, PartialEq, Eq)]
pub struct LoginTx {
    pub pkce_verifier: String,
    pub nonce: String,
    /// Secret tied to the initiating browser (matched against a login cookie on
    /// callback to prevent login CSRF and session fixation).
    pub browser_binding: String,
    pub created_at: String,
}

/// A per-repo role grant: a member's elevated role on a specific repo.
#[derive(Debug, Clone, PartialEq, Eq)]
pub struct RepoRoleGrant {
    pub member_id: String,
    pub role: String,
    pub updated_at: String,
}

} // verus!
