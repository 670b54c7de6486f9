use spout_core::entity::{
    GroupAdminModel, GroupModel, GroupPostModel, GroupTopicModel, GroupUserModel, IdentityModel,
    ProfileModel,
};
use spout_core::ids::{GroupId, NodeId, PostId, ProfileId, TopicId, UserId};
use spout_core::store::{PostFilter, Store, TopicFilter};
use spout_core::timestamp::Timestamp;

fn setup_test_db() -> Store {
    Store::new()
}

fn node(first: [u8; 8]) -> NodeId {
    let mut bytes = [0u8; 32];
    bytes[..8].copy_from_slice(&first);
    NodeId::from_bytes(bytes)
}

fn profile(id: ProfileId, name: &str, desc: &str) -> ProfileModel {
    ProfileModel { id, name: name.to_string(), desc: desc.to_string(), picture: None }
}

// 2024-01-01T00:00:00Z
const NEW_YEAR: i64 = 1_704_067_200;

fn all_posts_of(db: &Store, topic_id: TopicId) -> Vec<GroupPostModel> {
    db.select_posts(PostFilter::InTopic(topic_id), false, u64::MAX, 0)
}

#[test]
fn test_create_and_find_profile() {
    let mut db = setup_test_db();

    let profile_id = ProfileId::new();
    db.insert_profile(profile(profile_id, "Test User", "Test Description"))
        .expect("Failed to insert profile");

    let found = db.profile(profile_id);

    assert!(found.is_some());
    let found_profile = found.unwrap();
    assert_eq!(found_profile.id, profile_id);
    assert_eq!(found_profile.name, "Test User");
    assert_eq!(found_profile.desc, "Test Description");
}

#[test]
fn tests_test_create_profile_with_picture() {
    let mut db = setup_test_db();

    let profile_id = ProfileId::new();
    let picture_data = vec![1, 2, 3, 4, 5];

    let row = ProfileModel {
        id: profile_id,
        name: "User with Picture".to_string(),
        desc: "Has a picture".to_string(),
        picture: Some(picture_data.clone()),
    };

    db.insert_profile(row).unwrap();

    let found = db.profile(profile_id).unwrap();

    assert_eq!(found.picture, Some(picture_data));
}

#[test]
fn test_filter_profiles_by_name() {
    let mut db = setup_test_db();

    for i in 0..3 {
        db.insert_profile(profile(
            ProfileId::new(),
            &format!("User {}", i),
            &format!("Description {}", i),
        ))
        .unwrap();
    }

    let found = db.profile_named(&"User 1".to_string());

    assert!(found.is_some());
    assert_eq!(found.unwrap().name, "User 1");
}

#[test]
fn test_create_group_with_profile() {
    let mut db = setup_test_db();

    let profile_id = ProfileId::new();
    db.insert_profile(profile(profile_id, "Group Owner", "Desc")).unwrap();

    let group_id = GroupId::new();
    db.insert_group(GroupModel { id: group_id, profile_id }).unwrap();

    let found = db.group(group_id);

    assert!(found.is_some());
    assert_eq!(found.unwrap().profile_id, profile_id);
}

#[test]
fn test_group_admin_relationship() {
    let mut db = setup_test_db();

    let profile_id = ProfileId::new();
    db.insert_profile(profile(profile_id, "Admin User", "Desc")).unwrap();

    let group_id = GroupId::new();
    db.insert_group(GroupModel { id: group_id, profile_id }).unwrap();

    db.insert_admin(GroupAdminModel { group_id, identity_id: profile_id }).unwrap();

    let admins = db.admins_of(group_id);

    assert_eq!(admins.len(), 1);
    assert_eq!(admins[0].identity_id, profile_id);
}

#[test]
fn test_group_user_unique_constraint() {
    let mut db = setup_test_db();

    let profile_id = ProfileId::new();
    db.insert_profile(profile(profile_id, "User", "Desc")).unwrap();

    let group_id = GroupId::new();
    db.insert_group(GroupModel { id: group_id, profile_id }).unwrap();

    db.insert_user(GroupUserModel { id: UserId::new(), group_id, profile_id }).unwrap();

    let result = db.insert_user(GroupUserModel { id: UserId::new(), group_id, profile_id });
    assert!(result.is_err(), "Should fail due to unique constraint");
}

#[test]
fn test_cascade_delete_group() {
    let mut db = setup_test_db();

    let profile_id = ProfileId::new();
    db.insert_profile(profile(profile_id, "Owner", "Desc")).unwrap();

    let group_id = GroupId::new();
    db.insert_group(GroupModel { id: group_id, profile_id }).unwrap();

    db.insert_admin(GroupAdminModel { group_id, identity_id: profile_id }).unwrap();
    db.insert_user(GroupUserModel { id: UserId::new(), group_id, profile_id }).unwrap();

    db.delete_group(group_id);

    let admins = db.admins_of(group_id);
    assert_eq!(admins.len(), 0, "Admins should be cascade deleted");

    let users = db.users_of(group_id);
    assert_eq!(users.len(), 0, "Users should be cascade deleted");
}

#[test]
fn test_topic_and_posts() {
    let mut db = setup_test_db();

    let profile_id = ProfileId::new();
    db.insert_profile(profile(profile_id, "Poster", "Desc")).unwrap();

    let group_id = GroupId::new();
    db.insert_group(GroupModel { id: group_id, profile_id }).unwrap();

    let user_id = UserId::new();
    db.insert_user(GroupUserModel { id: user_id, group_id, profile_id }).unwrap();

    let topic_id = TopicId::new();
    db.insert_topic(GroupTopicModel {
        id: topic_id,
        group_id,
        profile_id,
        created_at: Timestamp::new(NEW_YEAR, 0),
    })
    .unwrap();

    let post_id = PostId::new();
    db.insert_post(GroupPostModel {
        id: post_id,
        user_id,
        topic_id,
        parent_post_id: None,
        title: "First Post".to_string(),
        body: "Hello, World!".to_string(),
        created_at: Timestamp::new(NEW_YEAR + 60, 0),
    })
    .unwrap();

    let posts = all_posts_of(&db, topic_id);

    assert_eq!(posts.len(), 1);
    assert_eq!(posts[0].title, "First Post");
    assert_eq!(posts[0].body, "Hello, World!");
}

#[test]
fn test_cascade_delete_topic_deletes_posts() {
    let mut db = setup_test_db();

    let profile_id = ProfileId::new();
    db.insert_profile(profile(profile_id, "User", "Desc")).unwrap();

    let group_id = GroupId::new();
    db.insert_group(GroupModel { id: group_id, profile_id }).unwrap();

    let user_id = UserId::new();
    db.insert_user(GroupUserModel { id: user_id, group_id, profile_id }).unwrap();

    let topic_id = TopicId::new();
    db.insert_topic(GroupTopicModel {
        id: topic_id,
        group_id,
        profile_id,
        created_at: Timestamp::new(NEW_YEAR, 0),
    })
    .unwrap();

    for i in 0..3 {
        db.insert_post(GroupPostModel {
            id: PostId::new(),
            user_id,
            topic_id,
            parent_post_id: None,
            title: format!("Post {}", i),
            body: format!("Body {}", i),
            created_at: Timestamp::new(NEW_YEAR, 0),
        })
        .unwrap();
    }

    let posts_before = all_posts_of(&db, topic_id);
    assert_eq!(posts_before.len(), 3);

    db.delete_topic(topic_id);

    let posts_after = all_posts_of(&db, topic_id);
    assert_eq!(posts_after.len(), 0, "Posts should be cascade deleted with topic");
}

#[test]
fn test_identity_composite_key() {
    let mut db = setup_test_db();

    let profile_id = ProfileId::new();
    db.insert_profile(profile(profile_id, "User", "Desc")).unwrap();

    let node_id = node([1, 2, 3, 4, 5, 6, 7, 8]);
    db.insert_identity(IdentityModel { node_id, profile_id }).unwrap();

    let found: Vec<IdentityModel> = db.owner(profile_id).into_iter().collect();

    assert_eq!(found.len(), 1);
    assert_eq!(found[0].node_id, node_id);
    assert_eq!(found[0].profile_id, profile_id);
}

#[test]
fn test_identity_with_multiple_profiles() {
    let mut db = setup_test_db();

    let node_id = node([1, 2, 3, 4, 5, 6, 7, 8]);

    for i in 0..3 {
        let profile_id = ProfileId::new();
        db.insert_profile(profile(profile_id, &format!("Profile {}", i), "Persona")).unwrap();
        db.insert_identity(IdentityModel { node_id, profile_id }).unwrap();
    }

    let identities = db.identities_of(node_id);

    assert_eq!(identities.len(), 3, "One identity should have 3 profiles");
}

#[test]
fn test_profile_cannot_belong_to_multiple_identities() {
    let mut db = setup_test_db();

    let profile_id = ProfileId::new();
    db.insert_profile(profile(profile_id, "Exclusive Profile", "Belongs to one identity only"))
        .unwrap();

    let node_id_1 = node([1, 2, 3, 4, 5, 6, 7, 8]);
    db.insert_identity(IdentityModel { node_id: node_id_1, profile_id }).unwrap();

    let node_id_2 = node([9, 10, 11, 12, 13, 14, 15, 16]);
    let result = db.insert_identity(IdentityModel { node_id: node_id_2, profile_id });
    assert!(
        result.is_err(),
        "Should fail: profile cannot belong to multiple identities (UNIQUE constraint)"
    );
}

#[test]
fn test_find_group_with_related_admins() {
    let mut db = setup_test_db();

    let profile_id = ProfileId::new();
    db.insert_profile(profile(profile_id, "Owner", "Desc")).unwrap();

    let group_id = GroupId::new();
    db.insert_group(GroupModel { id: group_id, profile_id }).unwrap();

    for i in 0..3 {
        let admin_profile_id = ProfileId::new();
        db.insert_profile(profile(admin_profile_id, &format!("Admin {}", i), "Admin")).unwrap();
        db.insert_admin(GroupAdminModel { group_id, identity_id: admin_profile_id }).unwrap();
    }

    let groups_with_admins: Vec<(GroupModel, Vec<GroupAdminModel>)> = db
        .group(group_id)
        .into_iter()
        .map(|g| (g, db.admins_of(g.id)))
        .collect();

    assert_eq!(groups_with_admins.len(), 1);
    let (group, admins) = &groups_with_admins[0];
    assert_eq!(group.id, group_id);
    assert_eq!(admins.len(), 3);
}

#[test]
fn test_find_group_with_related_users() {
    let mut db = setup_test_db();

    let profile_id = ProfileId::new();
    db.insert_profile(profile(profile_id, "Owner", "Desc")).unwrap();

    let group_id = GroupId::new();
    db.insert_group(GroupModel { id: group_id, profile_id }).unwrap();

    for i in 0..5 {
        let user_profile_id = ProfileId::new();
        db.insert_profile(profile(user_profile_id, &format!("User {}", i), "User")).unwrap();
        db.insert_user(GroupUserModel { id: UserId::new(), group_id, profile_id: user_profile_id })
            .unwrap();
    }

    let groups_with_users: Vec<(GroupModel, Vec<GroupUserModel>)> = db
        .group(group_id)
        .into_iter()
        .map(|g| (g, db.users_of(g.id)))
        .collect();

    assert_eq!(groups_with_users.len(), 1);
    let (group, users) = &groups_with_users[0];
    assert_eq!(group.id, group_id);
    assert_eq!(users.len(), 5);
}

#[test]
fn test_find_group_with_related_topics() {
    let mut db = setup_test_db();

    let profile_id = ProfileId::new();
    db.insert_profile(profile(profile_id, "Owner", "Desc")).unwrap();

    let group_id = GroupId::new();
    db.insert_group(GroupModel { id: group_id, profile_id }).unwrap();

    for i in 0..4 {
        db.insert_topic(GroupTopicModel {
            id: TopicId::new(),
            group_id,
            profile_id,
            created_at: Timestamp::new(NEW_YEAR + 86_400 * i, 0),
        })
        .unwrap();
    }

    let groups_with_topics: Vec<(GroupModel, Vec<GroupTopicModel>)> = db
        .group(group_id)
        .into_iter()
        .map(|g| (g, db.select_topics(TopicFilter::InGroup(g.id), false, u64::MAX, 0)))
        .collect();

    assert_eq!(groups_with_topics.len(), 1);
    let (group, topics) = &groups_with_topics[0];
    assert_eq!(group.id, group_id);
    assert_eq!(topics.len(), 4);
}

#[test]
fn test_find_topic_with_related_posts() {
    let mut db = setup_test_db();

    let profile_id = ProfileId::new();
    db.insert_profile(profile(profile_id, "User", "Desc")).unwrap();

    let group_id = GroupId::new();
    db.insert_group(GroupModel { id: group_id, profile_id }).unwrap();

    let user_id = UserId::new();
    db.insert_user(GroupUserModel { id: user_id, group_id, profile_id }).unwrap();

    let topic_id = TopicId::new();
    db.insert_topic(GroupTopicModel {
        id: topic_id,
        group_id,
        profile_id,
        created_at: Timestamp::new(NEW_YEAR, 0),
    })
    .unwrap();

    for i in 0..10 {
        db.insert_post(GroupPostModel {
            id: PostId::new(),
            user_id,
            topic_id,
            parent_post_id: None,
            title: format!("Post {}", i),
            body: format!("Body {}", i),
            created_at: Timestamp::new(NEW_YEAR, 0),
        })
        .unwrap();
    }

    let topics_with_posts: Vec<(GroupTopicModel, Vec<GroupPostModel>)> = db
        .topic(topic_id)
        .into_iter()
        .map(|t| (t, all_posts_of(&db, t.id)))
        .collect();

    assert_eq!(topics_with_posts.len(), 1);
    let (topic, posts) = &topics_with_posts[0];
    assert_eq!(topic.id, topic_id);
    assert_eq!(posts.len(), 10);
}

#[test]
fn test_relationship_empty_related_collection() {
    let mut db = setup_test_db();

    let profile_id = ProfileId::new();
    db.insert_profile(profile(profile_id, "Owner", "Desc")).unwrap();

    let group_id = GroupId::new();
    db.insert_group(GroupModel { id: group_id, profile_id }).unwrap();

    let groups_with_admins: Vec<(GroupModel, Vec<GroupAdminModel>)> = db
        .group(group_id)
        .into_iter()
        .map(|g| (g, db.admins_of(g.id)))
        .collect();

    assert_eq!(groups_with_admins.len(), 1);
    let (group, admins) = &groups_with_admins[0];
    assert_eq!(group.id, group_id);
    assert_eq!(admins.len(), 0, "Group should have no admins");
}
