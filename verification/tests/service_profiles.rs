use spout_core::entity::IdentityModel;
use spout_core::error::{DbErr, ErrorKind};
use spout_core::ids::{NodeId, ProfileId};
use spout_core::service::profiles::{
    create_profile, create_profile_as, ensure_default_profile, list_profiles,
    ProfilesServiceError,
};
use spout_core::store::Store;

fn setup_test_service() -> Store {
    Store::new()
}

fn test_node_id() -> NodeId {
    let a = ProfileId::new().as_u128().to_be_bytes();
    let b = ProfileId::new().as_u128().to_be_bytes();
    let mut bytes = [0u8; 32];
    bytes[..16].copy_from_slice(&a);
    bytes[16..].copy_from_slice(&b);
    NodeId::from_bytes(bytes)
}

#[test]
fn test_create_profile() {
    let mut service = setup_test_service();
    let node_id = test_node_id();

    let profile = create_profile(
        &mut service,
        node_id,
        "Test User".to_string(),
        "Test Description".to_string(),
        None,
    )
    .expect("Failed to create profile");

    assert_eq!(profile.name, "Test User");
    assert_eq!(profile.desc, "Test Description");
    assert_eq!(profile.picture, None);
}

#[test]
fn profiles_test_create_profile_with_picture() {
    let mut service = setup_test_service();
    let node_id = test_node_id();
    let picture_data = vec![1, 2, 3, 4, 5];

    let profile = create_profile(
        &mut service,
        node_id,
        "User with Picture".to_string(),
        "Has avatar".to_string(),
        Some(picture_data.clone()),
    )
    .expect("Failed to create profile");

    assert_eq!(profile.name, "User with Picture");
    assert_eq!(profile.picture, Some(picture_data));
}

#[test]
fn test_list_profiles_empty() {
    let service = setup_test_service();
    let node_id = test_node_id();

    let profiles = list_profiles(&service, node_id).expect("Failed to list profiles");

    assert_eq!(profiles.len(), 0, "New identity should have no profiles");
}

#[test]
fn test_list_profiles_single() {
    let mut service = setup_test_service();
    let node_id = test_node_id();

    let created = create_profile(
        &mut service,
        node_id,
        "Profile 1".to_string(),
        "First profile".to_string(),
        None,
    )
    .expect("Failed to create profile");

    let profiles = list_profiles(&service, node_id).expect("Failed to list profiles");

    assert_eq!(profiles.len(), 1);
    assert_eq!(profiles[0].id, created.id);
    assert_eq!(profiles[0].name, "Profile 1");
}

#[test]
fn test_list_profiles_multiple() {
    let mut service = setup_test_service();
    let node_id = test_node_id();

    for i in 0..3 {
        create_profile(
            &mut service,
            node_id,
            format!("Profile {}", i),
            format!("Description {}", i),
            None,
        )
        .expect("Failed to create profile");
    }

    let profiles = list_profiles(&service, node_id).expect("Failed to list profiles");

    assert_eq!(profiles.len(), 3, "Should have 3 profiles for this identity");

    let names: Vec<String> = profiles.iter().map(|p| p.name.clone()).collect();
    assert!(names.contains(&"Profile 0".to_string()));
    assert!(names.contains(&"Profile 1".to_string()));
    assert!(names.contains(&"Profile 2".to_string()));
}

#[test]
fn test_list_profiles_isolated_by_identity() {
    let mut service = setup_test_service();
    let node_id_1 = test_node_id();
    let node_id_2 = test_node_id();

    create_profile(
        &mut service,
        node_id_1,
        "Identity 1 Profile".to_string(),
        "Desc".to_string(),
        None,
    )
    .expect("Failed to create profile");

    create_profile(
        &mut service,
        node_id_2,
        "Identity 2 Profile".to_string(),
        "Desc".to_string(),
        None,
    )
    .expect("Failed to create profile");

    let profiles_1 = list_profiles(&service, node_id_1).expect("Failed to list profiles");
    let profiles_2 = list_profiles(&service, node_id_2).expect("Failed to list profiles");

    assert_eq!(profiles_1.len(), 1, "Identity 1 should have 1 profile");
    assert_eq!(profiles_2.len(), 1, "Identity 2 should have 1 profile");
    assert_eq!(profiles_1[0].name, "Identity 1 Profile");
    assert_eq!(profiles_2[0].name, "Identity 2 Profile");
}

#[test]
fn test_create_profile_creates_identity_link() {
    let mut service = setup_test_service();
    let node_id = test_node_id();

    let profile =
        create_profile(&mut service, node_id, "Test".to_string(), "Test".to_string(), None)
            .expect("Failed to create profile");

    let profiles = list_profiles(&service, node_id).expect("Failed to list profiles");

    assert_eq!(profiles.len(), 1);
    assert_eq!(profiles[0].id, profile.id);
}

#[test]
fn test_profile_unique_constraint_enforced() {
    let mut service = setup_test_service();
    let node_id_1 = test_node_id();
    let node_id_2 = test_node_id();

    let profile = create_profile(
        &mut service,
        node_id_1,
        "Shared Profile Attempt".to_string(),
        "Desc".to_string(),
        None,
    )
    .expect("Failed to create profile");

    let result =
        service.insert_identity(IdentityModel { node_id: node_id_2, profile_id: profile.id });

    assert!(result.is_err(), "Should fail: profile cannot belong to multiple identities");
}

#[test]
fn a_second_profile_of_the_same_name_is_a_conflict() {
    let mut service = setup_test_service();
    let first_owner = test_node_id();
    let second_owner = test_node_id();

    let first =
        create_profile(&mut service, first_owner, "Alice".to_string(), "one".to_string(), None)
            .unwrap();
    let refused = create_profile(
        &mut service,
        second_owner,
        "Alice".to_string(),
        "two".to_string(),
        Some(vec![9]),
    );

    assert_eq!(refused, Err(ProfilesServiceError::DbError(DbErr::UniqueViolation)));
    assert_eq!(refused.unwrap_err().kind(), ErrorKind::Conflict);
    assert_eq!(ProfilesServiceError::DbError(DbErr::UniqueViolation).message(), "fatal database error");
    assert_eq!(service.profile_named(&"Alice".to_string()), Some(&first));
    assert_eq!(list_profiles(&service, first_owner).unwrap(), vec![first]);
    assert!(list_profiles(&service, second_owner).unwrap().is_empty());
    assert_eq!(service.owner(ProfileId::from_u128(0)), None);
}

#[test]
fn a_profile_is_not_stored_without_its_link() {
    let mut service = setup_test_service();
    let squatter = test_node_id();
    let owner = test_node_id();
    let id = ProfileId::from_u128(77);
    // a link to an id under which no profile is stored yet
    service.insert_identity(IdentityModel { node_id: squatter, profile_id: id }).unwrap();

    let refused =
        create_profile_as(&mut service, id, owner, "Late".to_string(), "d".to_string(), None);

    assert_eq!(refused, Err(ProfilesServiceError::DbError(DbErr::UniqueViolation)));
    assert_eq!(service.profile(id), None);
    assert_eq!(service.profile_named(&"Late".to_string()), None);
    assert!(list_profiles(&service, owner).unwrap().is_empty());
}

#[test]
fn create_profile_as_refuses_an_id_that_is_taken() {
    let mut service = setup_test_service();
    let owner = test_node_id();
    let id = ProfileId::from_u128(5);
    let first =
        create_profile_as(&mut service, id, owner, "A".to_string(), "a".to_string(), None).unwrap();
    assert_eq!(first.id, id);
    let refused =
        create_profile_as(&mut service, id, owner, "B".to_string(), "b".to_string(), None);
    assert_eq!(refused, Err(ProfilesServiceError::DbError(DbErr::UniqueViolation)));
    assert_eq!(list_profiles(&service, owner).unwrap(), vec![first]);
}

#[test]
fn a_participant_without_a_profile_gets_the_default_one_once() {
    let mut service = setup_test_service();
    let node_id = test_node_id();

    ensure_default_profile(&mut service, node_id).unwrap();
    let owned = list_profiles(&service, node_id).unwrap();
    assert_eq!(owned.len(), 1);
    assert_eq!(owned[0].name, "Default");
    assert_eq!(owned[0].desc, "Default profile");
    assert_eq!(owned[0].picture, None);

    ensure_default_profile(&mut service, node_id).unwrap();
    assert_eq!(list_profiles(&service, node_id).unwrap(), owned);

    // the name is taken now, so a second participant cannot get it
    let other = test_node_id();
    assert_eq!(
        ensure_default_profile(&mut service, other),
        Err(ProfilesServiceError::DbError(DbErr::UniqueViolation))
    );
    assert!(list_profiles(&service, other).unwrap().is_empty());
}

#[test]
fn store_failures_that_are_no_conflict_are_failures_of_infrastructure() {
    assert_eq!(DbErr::UniqueViolation.kind(), ErrorKind::Conflict);
    assert_eq!(DbErr::ForeignKeyViolation.kind(), ErrorKind::Infra);
    assert_eq!(DbErr::Unavailable.kind(), ErrorKind::Infra);
    assert_eq!(DbErr::Decode.kind(), ErrorKind::Infra);
    assert_eq!(ProfilesServiceError::DbError(DbErr::Unavailable).kind(), ErrorKind::Infra);
}
