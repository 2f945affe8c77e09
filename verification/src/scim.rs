//! SCIM provisioning: users, groups, and the group-driven role sync.

use vstd::prelude::*;
use crate::role::Role;
use crate::text::{lemma_push_contains, strictly_sorted, texts_of, SortedTexts};

verus! {

/// A SCIM-managed group. Membership drives org roles via
/// [`crate::role::role_from_group_name`].
#[derive(Debug, Clone, PartialEq, Eq)]
pub struct ScimGroup {
    pub id: String,
    pub org_id: String,
    pub display_name: String,
    pub external_id: Option<String>,
    /// Member ids belonging to the group.
    pub members: Vec<String>,
}

/// A SCIM-managed user (read model mapping a member and its SSO identity).
#[derive(Debug, Clone, PartialEq, Eq)]
pub struct ScimUser {
    pub member_id: String,
    pub email: String,
    pub display_name: String,
    pub role: Role,
    pub active: bool,
    pub external_id: Option<String>,
}

/// A group member id that does not belong to the group's org.
#[derive(Debug, Clone, PartialEq, Eq)]
pub struct MemberNotInOrg {
    pub member_id: String,
}

/// Admit a group's new membership: every listed member must belong to the
/// org (`in_org[i]` says whether `members[i]` does). On success the members are
/// returned in the order given; otherwise the first member outside the org is
/// reported.
pub fn admit_group_members(members: &[String], in_org: &[bool]) -> (r: Result<Vec<String>, MemberNotInOrg>)
    requires
        members@.len() == in_org@.len(),
    ensures
        match r {
            Ok(set) => set@ == members@ && forall|i: int| 0 <= i < in_org@.len() ==> #[trigger] in_org@[i],
            Err(e) => exists|i: int| 0 <= i < in_org@.len() && !in_org@[i] && e.member_id == members@[i]
                && forall|j: int| 0 <= j < i ==> #[trigger] in_org@[j],
        },
{
    let mut set: Vec<String> = Vec::new();
    let n = members.len();
    for i in 0..n
        invariant
            n == members@.len(),
            n == in_org@.len(),
            set@ == members@.take(i as int),
            forall|j: int| 0 <= j < i ==> #[trigger] in_org@[j],
    {
        if !in_org[i] {
            return Err(MemberNotInOrg { member_id: members[i].clone() });
        }
        set.push(members[i].clone());
        assert(set@ =~= members@.take(i + 1));
    }
    assert(members@.take(n as int) =~= members@);
    Ok(set)
}

/// The members whose role a group update must recompute. When the membership
/// is replaced, that is every old and every new member (each once, sorted);
/// when only the name changes (which may change the group's role mapping), the
/// current members; otherwise nobody.
pub fn members_to_recompute(old: &[String], new_members: Option<&[String]>, renamed: bool) -> (v: Vec<String>)
    ensures
        match new_members {
            Some(new) => strictly_sorted(texts_of(v@))
                && forall|x: Seq<char>| #[trigger] texts_of(v@).contains(x)
                    <==> (texts_of(old@).contains(x) || texts_of(new@).contains(x)),
            None => if renamed { v@ == old@ } else { v@.len() == 0 },
        },
{
    match new_members {
        Some(new) => {
            let mut set = SortedTexts::new();
            let n = old.len();
            for i in 0..n
                invariant
                    n == old@.len(),
                    set.wf(),
                    forall|x: Seq<char>| #[trigger] set.texts().contains(x) <==> texts_of(old@.take(i as int)).contains(x),
            {
                proof {
                    assert(texts_of(old@.take(i + 1)) =~= texts_of(old@.take(i as int)).push(old@[i as int]@));
                    lemma_push_contains(texts_of(old@.take(i as int)), old@[i as int]@);
                }
                set.insert(old[i].clone());
            }
            assert(old@.take(n as int) =~= old@);
            let m = new.len();
            for i in 0..m
                invariant
                    m == new@.len(),
                    set.wf(),
                    forall|x: Seq<char>| #[trigger] set.texts().contains(x)
                        <==> (texts_of(old@).contains(x) || texts_of(new@.take(i as int)).contains(x)),
            {
                proof {
                    assert(texts_of(new@.take(i + 1)) =~= texts_of(new@.take(i as int)).push(new@[i as int]@));
                    lemma_push_contains(texts_of(new@.take(i as int)), new@[i as int]@);
                }
                set.insert(new[i].clone());
            }
            assert(new@.take(m as int) =~= new@);
            set.into_vec()
        },
        None => {
            if renamed {
                let mut v: Vec<String> = Vec::new();
                let n = old.len();
                for i in 0..n
                    invariant
                        n == old@.len(),
                        v@ == old@.take(i as int),
                {
                    v.push(old[i].clone());
                    assert(v@ =~= old@.take(i + 1));
                }
                assert(old@.take(n as int) =~= old@);
                v
            } else {
                Vec::new()
            }
        },
    }
}

} // verus!
