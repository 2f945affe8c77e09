use tellur_storage::role::{role_from_group_name, role_from_groups, Principal, Role};

#[test]
fn role_text_roundtrips() {
    for r in [Role::Viewer, Role::Contributor, Role::Admin] {
        assert_eq!(Role::parse(r.as_str()), Ok(r));
    }
    assert_eq!(Role::Admin.as_str(), "admin");
    assert_eq!(Role::Contributor.as_str(), "contributor");
    assert_eq!(Role::Viewer.as_str(), "viewer");
}

#[test]
fn unknown_role_text_is_rejected() {
    let e = Role::parse("Admin").unwrap_err();
    assert_eq!(e.text, "Admin");
    assert!(Role::parse("owner").is_err());
    assert!(Role::parse("").is_err());
}

#[test]
fn role_max_picks_more_privileged() {
    assert_eq!(Role::Viewer.max(Role::Admin), Role::Admin);
    assert_eq!(Role::Contributor.max(Role::Viewer), Role::Contributor);
    assert_eq!(Role::Viewer.max(Role::Viewer), Role::Viewer);
}

#[test]
fn group_names_map_to_roles_case_insensitively() {
    assert_eq!(role_from_group_name("tellur-admin"), Some(Role::Admin));
    assert_eq!(role_from_group_name("Tellur-Admin"), Some(Role::Admin));
    assert_eq!(role_from_group_name("TELLUR-CONTRIBUTOR"), Some(Role::Contributor));
    assert_eq!(role_from_group_name("tellur-viewer"), Some(Role::Viewer));
}

#[test]
fn other_group_names_grant_no_role() {
    assert_eq!(role_from_group_name("engineering"), None);
    assert_eq!(role_from_group_name("tellur-admins"), None);
    assert_eq!(role_from_group_name(" tellur-admin"), None);
    assert_eq!(role_from_group_name(""), None);
}

#[test]
fn member_role_is_highest_group_role_or_viewer() {
    assert_eq!(role_from_groups(&vec![]), Role::Viewer);
    assert_eq!(role_from_groups(&vec!["engineering".to_string()]), Role::Viewer);
    assert_eq!(
        role_from_groups(&vec!["engineering".to_string(), "Tellur-Contributor".to_string()]),
        Role::Contributor
    );
    assert_eq!(
        role_from_groups(&vec![
            "tellur-admin".to_string(),
            "tellur-viewer".to_string(),
            "tellur-contributor".to_string()
        ]),
        Role::Admin
    );
}

#[test]
fn leaving_the_admin_group_revokes_admin() {
    let before = vec!["tellur-admin".to_string(), "tellur-viewer".to_string()];
    let after = vec!["tellur-viewer".to_string()];
    assert_eq!(role_from_groups(&before), Role::Admin);
    assert_eq!(role_from_groups(&after), Role::Viewer);
}

#[test]
fn principal_from_row() {
    assert_eq!(Principal::from_row(None), Ok(None));
    let p = Principal::from_row(Some(("mbr_1".into(), "org_1".into(), "contributor".into())))
        .unwrap()
        .unwrap();
    assert_eq!(p.member_id, "mbr_1");
    assert_eq!(p.org_id, "org_1");
    assert_eq!(p.role, Role::Contributor);
    assert!(Principal::from_row(Some(("m".into(), "o".into(), "root".into()))).is_err());
}
