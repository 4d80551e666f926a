use starrocks_admin_backend::error::ApiError;
use starrocks_admin_backend::permissions::{
    check_username_available, role_changes, check_role_deletion, permissions_to_assign, plan_role_update, sort_unique, PermissionInfo,
    RoleChangeError, RoleUpdate,
};

fn perm(id: i64, kind: &str, parent: Option<i64>) -> PermissionInfo {
    PermissionInfo { id, kind: kind.to_string(), parent_id: parent }
}

fn catalogue() -> Vec<PermissionInfo> {
    vec![
        perm(1, "menu", None),
        perm(2, "menu", None),
        perm(10, "api", Some(1)),
        perm(11, "api", Some(1)),
        perm(20, "api", Some(2)),
        perm(30, "api", None),
    ]
}

#[test]
fn menus_bring_their_apis() {
    let all = catalogue();
    assert_eq!(permissions_to_assign(&all, &[1]), vec![1, 10, 11]);
    assert_eq!(permissions_to_assign(&all, &[2, 1]), vec![1, 2, 10, 11, 20]);
    // an API permission alone brings nothing else
    assert_eq!(permissions_to_assign(&all, &[30, 10]), vec![10, 30]);
    // repeats and already included APIs appear once
    assert_eq!(permissions_to_assign(&all, &[11, 1, 1]), vec![1, 10, 11]);
    // unknown ids are kept as asked
    assert_eq!(permissions_to_assign(&all, &[99]), vec![99]);
    assert!(permissions_to_assign(&all, &[]).is_empty());
}

#[test]
fn assigning_the_result_again_changes_nothing() {
    let all = catalogue();
    let once = permissions_to_assign(&all, &[2, 30]);
    assert_eq!(permissions_to_assign(&all, &once), once);
}

#[test]
fn ids_are_sorted_once() {
    assert_eq!(sort_unique(&vec![5, -1, 5, 3, -1]), vec![-1, 3, 5]);
}

#[test]
fn system_roles_are_protected() {
    assert_eq!(plan_role_update(true, true, false), Err(RoleChangeError::SystemRoleName));
    assert_eq!(plan_role_update(true, false, true), Ok(RoleUpdate::DescriptionOnly));
    assert_eq!(plan_role_update(false, true, true), Ok(RoleUpdate::NameAndDescription));
    assert_eq!(plan_role_update(false, true, false), Ok(RoleUpdate::NameOnly));
    assert_eq!(plan_role_update(false, false, false), Ok(RoleUpdate::Unchanged));
    assert_eq!(check_role_deletion(true), Err(RoleChangeError::DeleteSystemRole));
    assert_eq!(check_role_deletion(false), Ok(()));
    assert_eq!(RoleChangeError::SystemRoleName.message(), "Cannot modify system role name");
    assert_eq!(RoleChangeError::DeleteSystemRole.message(), "Cannot delete system role");
}

#[test]
fn user_roles_change_by_difference() {
    let (add, remove) = role_changes(&[3, 1, 3, 7], &[7, 2, 2, 5]);
    assert_eq!(add, vec![1, 3]);
    assert_eq!(remove, vec![2, 5]);
    let (add, remove) = role_changes(&[], &[4]);
    assert!(add.is_empty());
    assert_eq!(remove, vec![4]);
}

#[test]
fn user_names_must_be_free() {
    assert!(check_username_available(None, None).is_ok());
    assert!(check_username_available(Some(3), Some(3)).is_ok());
    for (existing, current) in [(Some(3), None), (Some(3), Some(4))] {
        match check_username_available(existing, current) {
            Err(ApiError::ValidationError(m)) => assert_eq!(m, "Username already exists"),
            _ => panic!("a taken name must be refused"),
        }
    }
}
