use guild_greeter::error::Rejection;
use guild_greeter::privilege::{
    authorize_update, has_administrator, is_admin, GuildSnapshot, MemberSnapshot, RoleInfo, ADMINISTRATOR,
};

fn guild() -> GuildSnapshot {
    GuildSnapshot {
        owner_id: 1,
        roles: vec![
            RoleInfo { id: 10, permissions: 0 },
            RoleInfo { id: 11, permissions: ADMINISTRATOR | 2 },
            RoleInfo { id: 12, permissions: 0x7 },
        ],
    }
}

#[test]
fn owner_without_roles_is_admin() {
    assert!(is_admin(&guild(), &MemberSnapshot { user_id: 1, roles: vec![] }));
}

#[test]
fn admin_role_holder_is_admin() {
    assert!(is_admin(&guild(), &MemberSnapshot { user_id: 2, roles: vec![10, 11] }));
}

#[test]
fn other_members_are_not_admin() {
    assert!(!is_admin(&guild(), &MemberSnapshot { user_id: 2, roles: vec![10, 12] }));
    assert!(!is_admin(&guild(), &MemberSnapshot { user_id: 2, roles: vec![] }));
    assert!(!is_admin(&guild(), &MemberSnapshot { user_id: 2, roles: vec![99] }));
}

#[test]
fn administrator_bit() {
    assert_eq!(ADMINISTRATOR, 8);
    assert!(has_administrator(8));
    assert!(has_administrator(0xff));
    assert!(!has_administrator(0xf7));
    assert!(!has_administrator(0));
}

#[test]
fn update_needs_administrator() {
    assert_eq!(authorize_update(&guild(), &MemberSnapshot { user_id: 1, roles: vec![] }), Ok(()));
    assert_eq!(
        authorize_update(&guild(), &MemberSnapshot { user_id: 3, roles: vec![12] }),
        Err(Rejection::NotAdministrator)
    );
    assert_eq!(Rejection::NotAdministrator.status(), 400);
    assert_eq!(Rejection::NotAdministrator.message(), "You must be an administrator.");
}
