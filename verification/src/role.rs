//! Org roles: the three-level role model and its textual form.

use vstd::prelude::*;
use crate::text::{ascii_lowercase_eq, chars_of, lower_code, lowercase_eq, str_eq_chars};

verus! {

/// A member's role within an org. Roles are totally ordered by privilege:
/// `Viewer < Contributor < Admin`.
#[derive(Debug, Clone, Copy, PartialEq, Eq, Structural)]
pub enum Role {
    Viewer,
    Contributor,
    Admin,
}

impl Role {
    /// Privilege rank of a role (higher grants more).
    pub open spec fn rank(self) -> int {
        match self {
            Role::Viewer => 0,
            Role::Contributor => 1,
            Role::Admin => 2,
        }
    }

    /// The more privileged of two roles.
    pub open spec fn spec_max(self, other: Role) -> Role {
        if self.rank() >= other.rank() { self } else { other }
    }

    /// The more privileged of `self` and `other`.
    pub fn max(self, other: Role) -> (r: Role)
        ensures
            r == self.spec_max(other),
    {
        match (self, other) {
            (Role::Admin, _) => Role::Admin,
            (_, Role::Admin) => Role::Admin,
            (Role::Contributor, _) => Role::Contributor,
            (_, Role::Contributor) => Role::Contributor,
            _ => Role::Viewer,
        }
    }
}


/// The stored text of each role.
pub open spec fn role_text(r: Role) -> Seq<char> {
    match r {
        Role::Viewer => "viewer"@,
        Role::Contributor => "contributor"@,
        Role::Admin => "admin"@,
    }
}

/// A role text that names no role.
#[derive(Debug, Clone, PartialEq, Eq)]
pub struct UnknownRole {
    pub text: String,
}

impl Role {
    /// The stored text of this role (`admin`, `contributor` or `viewer`).
    pub fn as_str(&self) -> (s: &'static str)
        ensures
            s@ == role_text(*self),
    {
        match self {
            Role::Viewer => "viewer",
            Role::Contributor => "contributor",
            Role::Admin => "admin",
        }
    }

    /// Parse a stored role text; any other text is an error.
    pub fn parse(text: &str) -> (r: Result<Role, UnknownRole>)
        ensures
            match r {
                Ok(role) => role_text(role) == text@,
                Err(e) => e.text@ == text@ && forall|role: Role| role_text(role) != text@,
            },
    {
        if str_eq_chars(text, &chars_of("admin")) {
            Ok(Role::Admin)
        } else if str_eq_chars(text, &chars_of("contributor")) {
            Ok(Role::Contributor)
        } else if str_eq_chars(text, &chars_of("viewer")) {
            Ok(Role::Viewer)
        } else {
            assert forall|role: Role| role_text(role) != text@ by {
                match role {
                    Role::Viewer => {},
                    Role::Contributor => {},
                    Role::Admin => {},
                }
            }
            Err(UnknownRole { text: text.to_owned() })
        }
    }
}

/// Distinct roles are stored as distinct texts, so parsing the stored text of
/// a role gives that role back.
pub proof fn lemma_role_text_injective(a: Role, b: Role)
    requires
        role_text(a) == role_text(b),
    ensures
        a == b,
{
    reveal_strlit("viewer");
    reveal_strlit("contributor");
    reveal_strlit("admin");
    assert("viewer"@.len() == 6);
    assert("contributor"@.len() == 11);
    assert("admin"@.len() == 5);
    assert(role_text(a).len() == role_text(b).len());
}

/// The group display name that maps to the admin role.
pub open spec fn admin_group_name() -> Seq<char> {
    "tellur-admin"@
}

/// The group display name that maps to the contributor role.
pub open spec fn contributor_group_name() -> Seq<char> {
    "tellur-contributor"@
}

/// The group display name that maps to the viewer role.
pub open spec fn viewer_group_name() -> Seq<char> {
    "tellur-viewer"@
}

/// The role a SCIM group's display name grants, by convention and ignoring
/// ASCII case: `tellur-admin`, `tellur-contributor`, `tellur-viewer`; any other
/// name grants no role.
pub open spec fn group_role(name: Seq<char>) -> Option<Role> {
    if ascii_lowercase_eq(name, admin_group_name()) {
        Some(Role::Admin)
    } else if ascii_lowercase_eq(name, contributor_group_name()) {
        Some(Role::Contributor)
    } else if ascii_lowercase_eq(name, viewer_group_name()) {
        Some(Role::Viewer)
    } else {
        None
    }
}

/// Map a SCIM group's `displayName` to an org role by convention:
/// `tellur-admin` / `tellur-contributor` / `tellur-viewer` (case-insensitive).
/// Any other name grants no role (the group is informational only).
pub fn role_from_group_name(display_name: &str) -> (r: Option<Role>)
    ensures
        r == group_role(display_name@),
{
    let name = chars_of(display_name);
    if lowercase_eq(&name, &chars_of("tellur-admin")) {
        Some(Role::Admin)
    } else if lowercase_eq(&name, &chars_of("tellur-contributor")) {
        Some(Role::Contributor)
    } else if lowercase_eq(&name, &chars_of("tellur-viewer")) {
        Some(Role::Viewer)
    } else {
        None
    }
}

/// The mapping ignores ASCII case: two display names that agree once
/// lower-cased map to the same role.
pub proof fn lemma_group_role_ignores_ascii_case(a: Seq<char>, b: Seq<char>)
    requires
        a.len() == b.len(),
        forall|i: int| 0 <= i < a.len() ==> lower_code(#[trigger] a[i]) == lower_code(b[i]),
    ensures
        group_role(a) == group_role(b),
{
    assert forall|t: Seq<char>| ascii_lowercase_eq(a, t) <==> ascii_lowercase_eq(b, t) by {
        if ascii_lowercase_eq(a, t) {
            assert forall|i: int| 0 <= i < b.len() implies lower_code(#[trigger] b[i]) == (t[i] as u32) by {
                assert(lower_code(a[i]) == lower_code(b[i]));
            }
        }
        if ascii_lowercase_eq(b, t) {
            assert forall|i: int| 0 <= i < a.len() implies lower_code(#[trigger] a[i]) == (t[i] as u32) by {
                assert(lower_code(a[i]) == lower_code(b[i]));
            }
        }
    }
}

/// The role that group membership gives: the highest role among the mapped
/// groups in `names[..n]`, starting from the viewer baseline.
pub open spec fn groups_role(names: Seq<String>, n: int) -> Role
    decreases n,
{
    if n <= 0 {
        Role::Viewer
    } else {
        match group_role(names[n - 1]@) {
            Some(r) => groups_role(names, n - 1).spec_max(r),
            None => groups_role(names, n - 1),
        }
    }
}

/// A member's org role recomputed from the display names of the groups they
/// belong to: the highest mapped group role, or the viewer baseline when no
/// group maps to a role (so leaving the last admin group revokes admin).
pub fn role_from_groups(names: &Vec<String>) -> (r: Role)
    ensures
        r == groups_role(names@, names@.len() as int),
{
    let mut role = Role::Viewer;
    let n = names.len();
    for i in 0..n
        invariant
            n == names@.len(),
            role == groups_role(names@, i as int),
    {
        if let Some(r) = role_from_group_name(names[i].as_str()) {
            role = role.max(r);
        }
    }
    role
}

/// Membership owns the role: the recomputed role is at least every mapped
/// group's role, and it is one of them unless it is the viewer baseline.
pub proof fn lemma_groups_role_bounds(names: Seq<String>, n: int)
    requires
        0 <= n <= names.len(),
    ensures
        forall|i: int| 0 <= i < n ==> (#[trigger] group_role(names[i]@) matches Some(r) ==> r.rank() <= groups_role(names, n).rank()),
        groups_role(names, n) == Role::Viewer || exists|i: int| 0 <= i < n && group_role(names[i]@) == Some(groups_role(names, n)),
    decreases n,
{
    if n > 0 {
        lemma_groups_role_bounds(names, n - 1);
        let prev = groups_role(names, n - 1);
        if groups_role(names, n) != Role::Viewer && groups_role(names, n) != prev {
            assert(group_role(names[n - 1]@) == Some(groups_role(names, n)));
        }
    }
}

/// A resolved, tenant-scoped caller identity.
#[derive(Debug, Clone, PartialEq, Eq)]
pub struct Principal {
    pub org_id: String,
    pub member_id: String,
    pub role: Role,
}

impl Principal {
    /// Build a principal from an optional `(member_id, org_id, role)` row; a
    /// stored role text that names no role is an error.
    pub fn from_row(row: Option<(String, String, String)>) -> (r: Result<Option<Principal>, UnknownRole>)
        ensures
            match row {
                None => r == Ok::<Option<Principal>, UnknownRole>(None),
                Some((member_id, org_id, role)) => match r {
                    Ok(Some(p)) => p.member_id == member_id && p.org_id == org_id && role_text(p.role) == role@,
                    Ok(None) => false,
                    Err(e) => e.text@ == role@ && forall|x: Role| role_text(x) != role@,
                },
            },
    {
        match row {
            None => Ok(None),
            Some((member_id, org_id, role)) => {
                let role = Role::parse(role.as_str())?;
                Ok(Some(Principal { org_id, member_id, role }))
            },
        }
    }
}

} // verus!
