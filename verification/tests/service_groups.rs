use spout_core::entity::ProfileModel;
use spout_core::error::ErrorKind;
use spout_core::ids::{GroupId, ProfileId};
use spout_core::service::groups::{
    add_user, create_group, delete_group, get_group, is_admin, list_admins, list_groups,
    list_users, GroupsServiceError,
};
use spout_core::store::Store;

fn setup_test_service() -> Store {
    Store::new()
}

fn create_test_profile(db: &mut Store) -> ProfileId {
    let profile_id = ProfileId::new();
    db.insert_profile(ProfileModel {
        id: profile_id,
        name: format!("Test User {}", profile_id.to_string()),
        desc: "Test".to_string(),
        picture: None,
    })
    .unwrap();
    profile_id
}

#[test]
fn test_create_group() {
    let mut service = setup_test_service();
    let profile_id = create_test_profile(&mut service);

    let group = create_group(&mut service, profile_id).expect("Failed to create group");

    assert_eq!(group.profile_id, profile_id);
}

#[test]
fn test_create_group_makes_creator_admin() {
    let mut service = setup_test_service();
    let profile_id = create_test_profile(&mut service);

    let group = create_group(&mut service, profile_id).unwrap();

    let is_admin = is_admin(&service, group.id, profile_id).unwrap();
    assert!(is_admin, "Creator should be an admin");
}

#[test]
fn test_list_groups() {
    let mut service = setup_test_service();
    let profile_id = create_test_profile(&mut service);

    for _ in 0..3 {
        create_group(&mut service, profile_id).unwrap();
    }

    let groups = list_groups(&service, profile_id).unwrap();
    assert_eq!(groups.len(), 3, "Should have 3 groups");
}

#[test]
fn test_get_group() {
    let mut service = setup_test_service();
    let profile_id = create_test_profile(&mut service);

    let created = create_group(&mut service, profile_id).unwrap();
    let fetched = get_group(&service, created.id).unwrap();

    assert_eq!(created.id, fetched.id);
}

#[test]
fn test_delete_group_by_admin() {
    let mut service = setup_test_service();
    let profile_id = create_test_profile(&mut service);

    let group = create_group(&mut service, profile_id).unwrap();

    delete_group(&mut service, group.id, profile_id).expect("Admin should be able to delete group");

    let result = get_group(&service, group.id);
    assert!(result.is_err(), "Group should be deleted");
}

#[test]
fn test_delete_group_by_non_admin_fails() {
    let mut service = setup_test_service();
    let profile_id = create_test_profile(&mut service);
    let other_profile_id = create_test_profile(&mut service);

    let group = create_group(&mut service, profile_id).unwrap();

    let result = delete_group(&mut service, group.id, other_profile_id);
    assert!(result.is_err(), "Non-admin should not be able to delete");
}

#[test]
fn test_add_user_to_group() {
    let mut service = setup_test_service();
    let admin_profile = create_test_profile(&mut service);
    let user_profile = create_test_profile(&mut service);

    let group = create_group(&mut service, admin_profile).unwrap();

    let user = add_user(&mut service, group.id, user_profile).expect("Should add user to group");

    assert_eq!(user.group_id, group.id);
    assert_eq!(user.profile_id, user_profile);
}

#[test]
fn test_list_users() {
    let mut service = setup_test_service();
    let admin_profile = create_test_profile(&mut service);

    let group = create_group(&mut service, admin_profile).unwrap();

    for _ in 0..3 {
        let user_profile = create_test_profile(&mut service);
        add_user(&mut service, group.id, user_profile).unwrap();
    }

    let users = list_users(&service, group.id).unwrap();
    assert_eq!(users.len(), 3, "Should have 3 users");
}

#[test]
fn test_list_admins() {
    let mut service = setup_test_service();
    let profile_id = create_test_profile(&mut service);

    let group = create_group(&mut service, profile_id).unwrap();

    let admins = list_admins(&service, group.id).unwrap();
    assert_eq!(admins.len(), 1, "Should have 1 admin (creator)");
    assert_eq!(admins[0].identity_id, profile_id);
}

#[test]
fn test_cascade_delete_removes_users() {
    let mut service = setup_test_service();
    let admin_profile = create_test_profile(&mut service);
    let user_profile = create_test_profile(&mut service);

    let group = create_group(&mut service, admin_profile).unwrap();
    add_user(&mut service, group.id, user_profile).unwrap();

    delete_group(&mut service, group.id, admin_profile).unwrap();

    let users = list_users(&service, group.id).unwrap();
    assert_eq!(users.len(), 0, "Users should be cascade deleted");
}

#[test]
fn create_group_wants_a_stored_profile() {
    let mut service = setup_test_service();
    let nobody = ProfileId::new();

    let refused = create_group(&mut service, nobody);
    assert_eq!(refused, Err(GroupsServiceError::ProfileNotFound));
    assert_eq!(refused.unwrap_err().kind(), ErrorKind::NotFound);
    assert!(list_groups(&service, nobody).unwrap().is_empty());
}

#[test]
fn get_group_of_an_unknown_id_is_not_found() {
    let service = setup_test_service();
    let refused = get_group(&service, GroupId::new());
    assert_eq!(refused, Err(GroupsServiceError::GroupNotFound));
    assert_eq!(refused.unwrap_err().message(), "group not found");
}

#[test]
fn delete_group_by_a_non_admin_is_unauthorized_and_changes_nothing() {
    let mut service = setup_test_service();
    let owner = create_test_profile(&mut service);
    let other = create_test_profile(&mut service);
    let group = create_group(&mut service, owner).unwrap();
    add_user(&mut service, group.id, other).unwrap();

    let refused = delete_group(&mut service, group.id, other);
    assert_eq!(refused, Err(GroupsServiceError::Unauthorized));
    assert_eq!(refused.unwrap_err().kind(), ErrorKind::Unauthorized);
    assert_eq!(refused.unwrap_err().message(), "unauthorized: not a group admin");

    assert_eq!(get_group(&service, group.id), Ok(group));
    assert_eq!(list_users(&service, group.id).unwrap().len(), 1);
    assert_eq!(list_admins(&service, group.id).unwrap().len(), 1);

    // a group that does not exist has no admin either
    assert_eq!(
        delete_group(&mut service, GroupId::new(), owner),
        Err(GroupsServiceError::Unauthorized)
    );
}

#[test]
fn is_admin_never_fails() {
    let mut service = setup_test_service();
    let owner = create_test_profile(&mut service);
    let other = create_test_profile(&mut service);
    let group = create_group(&mut service, owner).unwrap();

    assert_eq!(is_admin(&service, group.id, owner), Ok(true));
    assert_eq!(is_admin(&service, group.id, other), Ok(false));
    assert_eq!(is_admin(&service, GroupId::new(), owner), Ok(false));
    assert_eq!(is_admin(&service, group.id, ProfileId::new()), Ok(false));
}

#[test]
fn add_user_looks_for_the_group_first_then_for_the_profile() {
    let mut service = setup_test_service();
    let owner = create_test_profile(&mut service);
    let group = create_group(&mut service, owner).unwrap();

    assert_eq!(
        add_user(&mut service, GroupId::new(), ProfileId::new()),
        Err(GroupsServiceError::GroupNotFound)
    );
    assert_eq!(
        add_user(&mut service, GroupId::new(), owner),
        Err(GroupsServiceError::GroupNotFound)
    );
    let refused = add_user(&mut service, group.id, ProfileId::new());
    assert_eq!(refused, Err(GroupsServiceError::ProfileNotFound));
    assert_eq!(refused.unwrap_err().message(), "profile not found");
    assert!(list_users(&service, group.id).unwrap().is_empty());
}

#[test]
fn a_profile_joins_a_group_at_most_once() {
    let mut service = setup_test_service();
    let owner = create_test_profile(&mut service);
    let group = create_group(&mut service, owner).unwrap();

    let first = add_user(&mut service, group.id, owner).unwrap();
    let again = add_user(&mut service, group.id, owner);
    assert!(matches!(again, Err(GroupsServiceError::DbError(_))));
    assert_eq!(again.unwrap_err().kind(), ErrorKind::Conflict);
    assert_eq!(again.unwrap_err().message(), "fatal database error");
    assert_eq!(list_users(&service, group.id).unwrap(), vec![first]);
}

#[test]
fn deleting_one_group_leaves_the_others() {
    let mut service = setup_test_service();
    let owner = create_test_profile(&mut service);
    let member = create_test_profile(&mut service);
    let doomed = create_group(&mut service, owner).unwrap();
    let kept = create_group(&mut service, owner).unwrap();
    add_user(&mut service, doomed.id, member).unwrap();
    let stays = add_user(&mut service, kept.id, member).unwrap();

    assert_eq!(delete_group(&mut service, doomed.id, owner), Ok(()));

    assert_eq!(list_groups(&service, owner).unwrap(), vec![kept]);
    assert_eq!(list_users(&service, kept.id).unwrap(), vec![stays]);
    assert_eq!(is_admin(&service, kept.id, owner), Ok(true));
    assert_eq!(is_admin(&service, doomed.id, owner), Ok(false));
    assert!(list_admins(&service, doomed.id).unwrap().is_empty());
    assert!(list_users(&service, doomed.id).unwrap().is_empty());
    // deleted is terminal: a second deletion finds no admin
    assert_eq!(delete_group(&mut service, doomed.id, owner), Err(GroupsServiceError::Unauthorized));
}
