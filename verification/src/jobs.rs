//! The durable background-job queue: job records and their status lifecycle.

use vstd::prelude::*;
use crate::text::{chars_of, str_eq_chars};

verus! {

/// A durable background job (for example a large org export). A worker claims
/// `queued` jobs, runs them, and stores the result.
#[derive(Debug, Clone, PartialEq, Eq)]
pub struct Job {
    pub id: String,
    pub org_id: String,
    pub kind: String,
    /// `queued` | `running` | `completed` | `failed`.
    pub status: String,
    /// JSON result text (present when `completed`).
    pub result: Option<String>,
    pub error: Option<String>,
    /// Optional JSON parameters given at enqueue time.
    pub params: Option<String>,
    pub created_at: String,
    pub updated_at: String,
}

/// Where a job is in its lifecycle.
#[derive(Debug, Clone, Copy, PartialEq, Eq, Structural)]
pub enum JobStatus {
    Queued,
    Running,
    Completed,
    Failed,
}

/// The stored text of each status.
pub open spec fn job_status_text(s: JobStatus) -> Seq<char> {
    match s {
        JobStatus::Queued => "queued"@,
        JobStatus::Running => "running"@,
        JobStatus::Completed => "completed"@,
        JobStatus::Failed => "failed"@,
    }
}

impl JobStatus {
    /// The stored text of this status.
    pub fn as_str(&self) -> (s: &'static str)
        ensures
            s@ == job_status_text(*self),
    {
        match self {
            JobStatus::Queued => "queued",
            JobStatus::Running => "running",
            JobStatus::Completed => "completed",
            JobStatus::Failed => "failed",
        }
    }

    /// The status a stored text names, if any.
    pub fn parse(text: &str) -> (r: Option<JobStatus>)
        ensures
            match r {
                Some(s) => job_status_text(s) == text@,
                None => forall|s: JobStatus| job_status_text(s) != text@,
            },
    {
        if str_eq_chars(text, &chars_of("queued")) {
            Some(JobStatus::Queued)
        } else if str_eq_chars(text, &chars_of("running")) {
            Some(JobStatus::Running)
        } else if str_eq_chars(text, &chars_of("completed")) {
            Some(JobStatus::Completed)
        } else if str_eq_chars(text, &chars_of("failed")) {
            Some(JobStatus::Failed)
        } else {
            assert forall|s: JobStatus| job_status_text(s) != text@ by {
                match s {
                    JobStatus::Queued => {},
                    JobStatus::Running => {},
                    JobStatus::Completed => {},
                    JobStatus::Failed => {},
                }
            }
            None
        }
    }

    /// Completed and failed jobs are finished (and eligible for pruning).
    pub fn is_finished(&self) -> (r: bool)
        ensures
            r == (*self == JobStatus::Completed || *self == JobStatus::Failed),
    {
        match self {
            JobStatus::Completed | JobStatus::Failed => true,
            _ => false,
        }
    }
}

/// Distinct statuses are stored as distinct texts, so parsing the stored text
/// of a status gives that status back.
pub proof fn lemma_job_status_text_injective(a: JobStatus, b: JobStatus)
    requires
        job_status_text(a) == job_status_text(b),
    ensures
        a == b,
{
    reveal_strlit("queued");
    reveal_strlit("running");
    reveal_strlit("completed");
    reveal_strlit("failed");
    assert("queued"@.len() == 6 && "queued"@[0] == 'q');
    assert("running"@.len() == 7);
    assert("completed"@.len() == 9);
    assert("failed"@.len() == 6 && "failed"@[0] == 'f');
    assert(job_status_text(a).len() == job_status_text(b).len());
    assert(job_status_text(a)[0] == job_status_text(b)[0]);
}

impl Job {
    /// The job a worker holds after claiming the queued row
    /// `(id, org_id, kind, params, created_at)` at time `now`: running, with no
    /// result or error yet, updated at `now`.
    pub fn claimed(
        id: String,
        org_id: String,
        kind: String,
        params: Option<String>,
        created_at: String,
        now: String,
    ) -> (j: Job)
        ensures
            j.id == id,
            j.org_id == org_id,
            j.kind == kind,
            j.status@ == job_status_text(JobStatus::Running),
            j.result.is_none(),
            j.error.is_none(),
            j.params == params,
            j.created_at == created_at,
            j.updated_at == now,
    {
        Job {
            id,
            org_id,
            kind,
            status: JobStatus::Running.as_str().to_owned(),
            result: None,
            error: None,
            params,
            created_at,
            updated_at: now,
        }
    }
}

} // verus!
