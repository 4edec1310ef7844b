use vstd::prelude::*;
use crate::error::Rejection;

verus! {

/// Bit of a role's permission set that grants administrator standing.
pub const ADMINISTRATOR: u64 = 8;

/// A guild role as seen by the privilege check: its id and permission bits.
#[derive(Clone, Copy, Debug, PartialEq, Eq, Structural)]
pub struct RoleInfo {
    pub id: u64,
    pub permissions: u64,
}

/// What the privilege check reads of a guild: its owner and its roles.
pub struct GuildSnapshot {
    pub owner_id: u64,
    pub roles: Vec<RoleInfo>,
}

/// What the privilege check reads of a member: the user and the role ids held.
pub struct MemberSnapshot {
    pub user_id: u64,
    pub roles: Vec<u64>,
}

pub open spec fn grants_administrator(permissions: u64) -> bool {
    permissions & ADMINISTRATOR != 0
}

/// The member holds a role id that the guild defines with the administrator bit.
pub open spec fn holds_admin_role(guild_roles: Seq<RoleInfo>, member_roles: Seq<u64>) -> bool {
    exists|i: int, j: int|
        0 <= i < member_roles.len() && 0 <= j < guild_roles.len() && #[trigger] member_roles[i]
            == #[trigger] guild_roles[j].id && grants_administrator(guild_roles[j].permissions)
}

pub open spec fn is_admin_spec(owner_id: u64, guild_roles: Seq<RoleInfo>, member: u64, member_roles: Seq<u64>) -> bool {
    member == owner_id || holds_admin_role(guild_roles, member_roles)
}

/// Whether a permission set includes the administrator bit.
pub fn has_administrator(permissions: u64) -> (r: bool)
    ensures
        r == grants_administrator(permissions),
{
    permissions & ADMINISTRATOR != 0
}

/// Administrator standing of a member in a guild: the member owns the guild,
/// or holds a role whose permissions include the administrator bit.
pub fn is_admin(guild: &GuildSnapshot, member: &MemberSnapshot) -> (r: bool)
    ensures
        r == is_admin_spec(guild.owner_id, guild.roles@, member.user_id, member.roles@),
{
    if member.user_id == guild.owner_id {
        return true;
    }
    let mut i: usize = 0;
    while i < member.roles.len()
        invariant
            0 <= i <= member.roles@.len(),
            forall|a: int, b: int|
                0 <= a < i && 0 <= b < guild.roles@.len() && #[trigger] member.roles@[a]
                    == #[trigger] guild.roles@[b].id ==> !grants_administrator(guild.roles@[b].permissions),
        decreases member.roles@.len() - i,
    {
        let role_id = member.roles[i];
        let mut j: usize = 0;
        while j < guild.roles.len()
            invariant
                0 <= i < member.roles@.len(),
                role_id == member.roles@[i as int],
                0 <= j <= guild.roles@.len(),
                forall|b: int|
                    0 <= b < j && #[trigger] guild.roles@[b].id == role_id ==> !grants_administrator(guild.roles@[b].permissions),
            decreases guild.roles@.len() - j,
        {
            let role = guild.roles[j];
            if role.id == role_id && has_administrator(role.permissions) {
                assert(member.roles@[i as int] == guild.roles@[j as int].id);
                return true;
            }
            j += 1;
        }
        i += 1;
    }
    false
}

/// A requested greeting: the channel to post in and the text to post.
pub struct Update {
    pub channel_id: u64,
    pub message: String,
}

/// Lets a greeting update through only for an administrator of the guild.
pub fn authorize_update(guild: &GuildSnapshot, member: &MemberSnapshot) -> (r: Result<(), Rejection>)
    ensures
        r == if is_admin_spec(guild.owner_id, guild.roles@, member.user_id, member.roles@) {
            Ok::<(), Rejection>(())
        } else {
            Err(Rejection::NotAdministrator)
        },
{
    if is_admin(guild, member) {
        Ok(())
    } else {
        Err(Rejection::NotAdministrator)
    }
}

} // verus!
