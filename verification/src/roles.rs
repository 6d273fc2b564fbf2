//! Who may broadcast: roles, their capabilities, and the verdict for one member.

use std::collections::HashMap;
use vstd::prelude::*;
use vstd::std_specs::hash::*;

verus! {

/// What the classifier needs to know of one role of a community.
#[derive(Clone, Copy, Debug, PartialEq, Eq, Structural)]
pub struct RoleDescriptor {
    /// The role carries the elevated permission to mention everyone.
    pub mention_everyone: bool,
    /// The role carries the administrator permission.
    pub administrator: bool,
    /// Ordinary members may mention the role.
    pub mentionable: bool,
}

impl RoleDescriptor {
    /// A role grants the broadcast capability when it carries the mention-everyone
    /// permission or the administrator permission.
    pub open spec fn grants_broadcast_spec(self) -> bool {
        self.mention_everyone || self.administrator
    }

    /// Whether the role lets its holders broadcast to everyone and to the online members.
    pub fn grants_broadcast(&self) -> (granted: bool)
        ensures
            granted == self.grants_broadcast_spec(),
    {
        self.mention_everyone || self.administrator
    }
}

/// The outcome of resolving a member's permissions.
#[derive(Clone, Copy, Debug, PartialEq, Eq, Structural)]
pub struct PermissionVerdict {
    /// The member may broadcast to everyone and to the members who are online.
    pub can_broadcast: bool,
}

/// The roles that count for a member: the assigned ones and the community's implicit
/// role, whose identifier is the community's own.
pub open spec fn effective_roles(member_roles: Seq<u64>, community_id: u64) -> Set<u64> {
    member_roles.to_set().insert(community_id)
}

/// Role `role_id` is defined in `community_roles` and grants the broadcast capability.
pub open spec fn role_grants_broadcast(
    community_roles: Map<u64, RoleDescriptor>,
    role_id: u64,
) -> bool {
    community_roles.contains_key(role_id) && community_roles[role_id].grants_broadcast_spec()
}

/// Some effective role of the member grants the broadcast capability. A role identifier
/// without a definition grants nothing.
pub open spec fn can_broadcast(
    member_roles: Seq<u64>,
    community_roles: Map<u64, RoleDescriptor>,
    community_id: u64,
) -> bool {
    exists|role_id: u64|
        effective_roles(member_roles, community_id).contains(role_id) && #[trigger] role_grants_broadcast(
            community_roles,
            role_id,
        )
}

/// Looks one role up and tells whether it grants the broadcast capability.
fn grants(community_roles: &HashMap<u64, RoleDescriptor>, role_id: u64) -> (granted: bool)
    ensures
        granted == role_grants_broadcast(community_roles@, role_id),
{
    broadcast use group_hash_axioms;

    match community_roles.get(&role_id) {
        Some(role) => role.grants_broadcast(),
        None => false,
    }
}

/// Decides whether a member may broadcast, from the member's assigned roles and the
/// community's role definitions.
pub fn resolve(
    member_roles: &Vec<u64>,
    community_roles: &HashMap<u64, RoleDescriptor>,
    community_id: u64,
) -> (verdict: PermissionVerdict)
    ensures
        verdict.can_broadcast == can_broadcast(member_roles@, community_roles@, community_id),
{
    if grants(community_roles, community_id) {
        assert(effective_roles(member_roles@, community_id).contains(community_id));
        return PermissionVerdict { can_broadcast: true };
    }
    let mut i: usize = 0;
    while i < member_roles.len()
        invariant
            i <= member_roles@.len(),
            !role_grants_broadcast(community_roles@, community_id),
            forall|k: int| 0 <= k < i ==> !role_grants_broadcast(community_roles@, member_roles@[k]),
        decreases member_roles@.len() - i,
    {
        if grants(community_roles, member_roles[i]) {
            assert(member_roles@.to_set().contains(member_roles@[i as int]));
            assert(effective_roles(member_roles@, community_id).contains(member_roles@[i as int]));
            return PermissionVerdict { can_broadcast: true };
        }
        i = i + 1;
    }
    assert(!can_broadcast(member_roles@, community_roles@, community_id)) by {
        assert forall|role_id: u64|
            effective_roles(member_roles@, community_id).contains(role_id) implies !role_grants_broadcast(
            community_roles@,
            role_id,
        ) by {
            if role_id != community_id {
                assert(member_roles@.to_set().contains(role_id));
                let k = choose|k: int| 0 <= k < member_roles@.len() && member_roles@[k] == role_id;
                assert(!role_grants_broadcast(community_roles@, member_roles@[k]));
            }
        }
    }
    PermissionVerdict { can_broadcast: false }
}

} // verus!
