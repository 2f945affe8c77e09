use tellur_storage::device::{poll_decision, DevicePoll, DeviceStatus};
use tellur_storage::jobs::{Job, JobStatus};
use tellur_storage::policy::next_policy_version;
use tellur_storage::scim::{admit_group_members, members_to_recompute};

fn s(v: &[&str]) -> Vec<String> {
    v.iter().map(|x| x.to_string()).collect()
}

#[test]
fn policy_versions_start_at_one_and_bump() {
    assert_eq!(next_policy_version(None), 1);
    assert_eq!(next_policy_version(Some(1)), 2);
    assert_eq!(next_policy_version(Some(41)), 42);
}

#[test]
fn job_status_text() {
    for st in [JobStatus::Queued, JobStatus::Running, JobStatus::Completed, JobStatus::Failed] {
        assert_eq!(JobStatus::parse(st.as_str()), Some(st));
    }
    assert_eq!(JobStatus::parse("done"), None);
    assert!(JobStatus::Completed.is_finished());
    assert!(JobStatus::Failed.is_finished());
    assert!(!JobStatus::Queued.is_finished());
    assert!(!JobStatus::Running.is_finished());
}

#[test]
fn claimed_job_is_running() {
    let j = Job::claimed(
        "job_1".into(),
        "org_1".into(),
        "export".into(),
        Some("{\"repo\":\"r\"}".into()),
        "2024-01-01T00:00:00Z".into(),
        "2024-01-02T00:00:00Z".into(),
    );
    assert_eq!(j.status, "running");
    assert_eq!(j.result, None);
    assert_eq!(j.error, None);
    assert_eq!(j.params.as_deref(), Some("{\"repo\":\"r\"}"));
    assert_eq!(j.created_at, "2024-01-01T00:00:00Z");
    assert_eq!(j.updated_at, "2024-01-02T00:00:00Z");
}

#[test]
fn device_decisions() {
    assert_eq!(DeviceStatus::decided(true), DeviceStatus::Approved);
    assert_eq!(DeviceStatus::decided(false), DeviceStatus::Denied);
    assert_eq!(DeviceStatus::Pending.as_str(), "pending");
    assert_eq!(DeviceStatus::Approved.as_str(), "approved");
    assert_eq!(DeviceStatus::Denied.as_str(), "denied");
}

#[test]
fn device_poll_outcomes() {
    let d = poll_decision(None, false);
    assert_eq!(d.outcome, DevicePoll::NotFound);
    assert!(!d.consume);

    let d = poll_decision(Some(("pending".into(), None)), false);
    assert_eq!(d.outcome, DevicePoll::Pending);
    assert!(!d.consume);

    let d = poll_decision(Some(("approved".into(), Some("mbr_1".into()))), false);
    assert_eq!(d.outcome, DevicePoll::Approved("mbr_1".into()));
    assert!(d.consume);

    let d = poll_decision(Some(("approved".into(), None)), false);
    assert_eq!(d.outcome, DevicePoll::Approved(String::new()));

    let d = poll_decision(Some(("denied".into(), None)), false);
    assert_eq!(d.outcome, DevicePoll::Denied);
    assert!(d.consume);
}

#[test]
fn expired_device_request_is_not_found_and_removed() {
    let d = poll_decision(Some(("approved".into(), Some("mbr_1".into()))), true);
    assert_eq!(d.outcome, DevicePoll::NotFound);
    assert!(d.consume);
}

#[test]
fn group_members_must_belong_to_org() {
    let m = s(&["mbr_a", "mbr_b"]);
    assert_eq!(admit_group_members(&m, &[true, true]), Ok(m.clone()));
    let e = admit_group_members(&s(&["mbr_a", "mbr_x", "mbr_y"]), &[true, false, false]).unwrap_err();
    assert_eq!(e.member_id, "mbr_x");
    assert_eq!(admit_group_members(&[], &[]), Ok(vec![]));
}

#[test]
fn membership_swap_recomputes_old_and_new_members() {
    let old = s(&["mbr_c", "mbr_a"]);
    let new = s(&["mbr_b", "mbr_a"]);
    assert_eq!(
        members_to_recompute(&old, Some(&new), false),
        s(&["mbr_a", "mbr_b", "mbr_c"])
    );
    assert_eq!(members_to_recompute(&old, Some(&[]), true), s(&["mbr_a", "mbr_c"]));
}

#[test]
fn rename_recomputes_current_members_only() {
    let old = s(&["mbr_a", "mbr_c"]);
    assert_eq!(members_to_recompute(&old, None, true), old);
    assert!(members_to_recompute(&old, None, false).is_empty());
}
