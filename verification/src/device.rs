//! Device-authorization flow: the pending/approved/denied lifecycle of a
//! device login and what a poll delivers.

use vstd::prelude::*;
use crate::text::{chars_of, opt_text, str_eq_chars};

verus! {

/// The state of a device-authorization request.
#[derive(Debug, Clone, Copy, PartialEq, Eq, Structural)]
pub enum DeviceStatus {
    Pending,
    Approved,
    Denied,
}

/// The stored text of each device status.
pub open spec fn device_status_text(s: DeviceStatus) -> Seq<char> {
    match s {
        DeviceStatus::Pending => "pending"@,
        DeviceStatus::Approved => "approved"@,
        DeviceStatus::Denied => "denied"@,
    }
}

impl DeviceStatus {
    /// The stored text of this status.
    pub fn as_str(&self) -> (s: &'static str)
        ensures
            s@ == device_status_text(*self),
    {
        match self {
            DeviceStatus::Pending => "pending",
            DeviceStatus::Approved => "approved",
            DeviceStatus::Denied => "denied",
        }
    }

    /// The status a user's decision records: approved or denied.
    pub fn decided(approve: bool) -> (s: DeviceStatus)
        ensures
            s == (if approve { DeviceStatus::Approved } else { DeviceStatus::Denied }),
    {
        if approve { DeviceStatus::Approved } else { DeviceStatus::Denied }
    }
}

/// What a device poll reports to the polling CLI.
#[derive(Debug, Clone, PartialEq, Eq)]
pub enum DevicePoll {
    /// Unknown or expired device code.
    NotFound,
    /// The user has not decided yet.
    Pending,
    /// The user denied the request.
    Denied,
    /// The user approved; carries the approving member id.
    Approved(String),
}

/// The outcome of one poll and whether the request row is consumed.
pub struct PollDecision {
    pub outcome: DevicePoll,
    /// Delete the request row: it expired or reached a terminal outcome, so a
    /// token is delivered at most once.
    pub consume: bool,
}

/// Decide a device poll from the stored request `(status, member_id)` (or none)
/// and whether it has outlived its time-to-live. Unknown codes are not found;
/// expired ones are not found and removed; approved and denied requests are
/// reported once and removed; anything else is still pending and kept.
pub fn poll_decision(row: Option<(String, Option<String>)>, expired: bool) -> (d: PollDecision)
    ensures
        match row {
            None => d.outcome == DevicePoll::NotFound && !d.consume,
            Some((status, member_id)) => if expired {
                d.outcome == DevicePoll::NotFound && d.consume
            } else if status@ == device_status_text(DeviceStatus::Approved) {
                d.outcome is Approved && d.outcome->Approved_0@ == opt_text(member_id) && d.consume
            } else if status@ == device_status_text(DeviceStatus::Denied) {
                d.outcome == DevicePoll::Denied && d.consume
            } else {
                d.outcome == DevicePoll::Pending && !d.consume
            },
        },
{
    match row {
        None => PollDecision { outcome: DevicePoll::NotFound, consume: false },
        Some((status, member_id)) => {
            if expired {
                PollDecision { outcome: DevicePoll::NotFound, consume: true }
            } else if str_eq_chars(status.as_str(), &chars_of("approved")) {
                let m = match member_id {
                    Some(m) => m,
                    None => String::new(),
                };
                PollDecision { outcome: DevicePoll::Approved(m), consume: true }
            } else if str_eq_chars(status.as_str(), &chars_of("denied")) {
                PollDecision { outcome: DevicePoll::Denied, consume: true }
            } else {
                PollDecision { outcome: DevicePoll::Pending, consume: false }
            }
        },
    }
}

} // verus!
