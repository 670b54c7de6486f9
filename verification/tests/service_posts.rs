use spout_core::entity::{GroupModel, GroupTopicModel, GroupUserModel, ProfileModel};
use spout_core::error::{DbErr, ErrorKind};
use spout_core::ids::{GroupId, PostId, ProfileId, TopicId, UserId};
use spout_core::service::posts::{
    count_posts_by_user, count_posts_in_topic, count_replies, create_post, create_post_at,
    create_reply, create_reply_at, delete_post, get_post, list_posts_by_user,
    list_posts_for_topic, list_replies, list_top_level_posts, update_post, PostsServiceError,
};
use spout_core::store::Store;
use spout_core::timestamp::Timestamp;

fn setup_test_service() -> Store {
    Store::new()
}

fn create_test_profile(db: &mut Store, name: &str) -> ProfileId {
    let profile_id = ProfileId::new();
    db.insert_profile(ProfileModel {
        id: profile_id,
        name: name.to_string(),
        desc: "Test".to_string(),
        picture: None,
    })
    .unwrap();
    profile_id
}

fn create_test_group(db: &mut Store, profile_id: ProfileId) -> GroupId {
    let group_id = GroupId::new();
    db.insert_group(GroupModel { id: group_id, profile_id }).unwrap();
    group_id
}

fn create_test_user(db: &mut Store, group_id: GroupId, profile_id: ProfileId) -> UserId {
    let user_id = UserId::new();
    db.insert_user(GroupUserModel { id: user_id, group_id, profile_id }).unwrap();
    user_id
}

fn create_test_topic(db: &mut Store, group_id: GroupId, profile_id: ProfileId) -> TopicId {
    let topic_id = TopicId::new();
    db.insert_topic(GroupTopicModel {
        id: topic_id,
        group_id,
        profile_id,
        created_at: Timestamp::now(),
    })
    .unwrap();
    topic_id
}

/// A profile, a group, a membership of the profile and a topic.
fn forum(db: &mut Store) -> (UserId, TopicId) {
    let profile_id = create_test_profile(db, "Test User");
    let group_id = create_test_group(db, profile_id);
    let user_id = create_test_user(db, group_id, profile_id);
    let topic_id = create_test_topic(db, group_id, profile_id);
    (user_id, topic_id)
}

fn at(secs: i64) -> Timestamp {
    Timestamp::new(secs, 0)
}

#[test]
fn test_create_post() {
    let mut service = setup_test_service();
    let (user_id, topic_id) = forum(&mut service);

    let post = create_post(
        &mut service,
        user_id,
        topic_id,
        "Test Post".to_string(),
        "This is a test post body".to_string(),
    )
    .expect("Failed to create post");

    assert_eq!(post.user_id, user_id);
    assert_eq!(post.topic_id, topic_id);
    assert_eq!(post.title, "Test Post");
    assert_eq!(post.body, "This is a test post body");
}

#[test]
fn test_get_post() {
    let mut service = setup_test_service();
    let (user_id, topic_id) = forum(&mut service);

    let created =
        create_post(&mut service, user_id, topic_id, "Title".to_string(), "Body".to_string())
            .unwrap();

    let fetched = get_post(&service, created.id).unwrap();
    assert_eq!(created.id, fetched.id);
    assert_eq!(fetched.title, "Title");
}

#[test]
fn test_list_posts_for_topic() {
    let mut service = setup_test_service();
    let (user_id, topic_id) = forum(&mut service);

    for i in 0..5 {
        create_post(&mut service, user_id, topic_id, format!("Post {}", i), format!("Body {}", i))
            .unwrap();
    }

    let posts = list_posts_for_topic(&service, topic_id, 10, 0).unwrap();
    assert_eq!(posts.len(), 5);

    let page1 = list_posts_for_topic(&service, topic_id, 2, 0).unwrap();
    assert_eq!(page1.len(), 2);

    let page2 = list_posts_for_topic(&service, topic_id, 2, 2).unwrap();
    assert_eq!(page2.len(), 2);
}

#[test]
fn test_list_posts_by_user() {
    let mut service = setup_test_service();

    let profile_id = create_test_profile(&mut service, "Test User");
    let group_id = create_test_group(&mut service, profile_id);
    let user_id = create_test_user(&mut service, group_id, profile_id);

    let topic1 = create_test_topic(&mut service, group_id, profile_id);
    let topic2 = create_test_topic(&mut service, group_id, profile_id);

    create_post(&mut service, user_id, topic1, "Post 1".to_string(), "Body 1".to_string()).unwrap();
    create_post(&mut service, user_id, topic2, "Post 2".to_string(), "Body 2".to_string()).unwrap();

    let posts = list_posts_by_user(&service, user_id, 10, 0).unwrap();
    assert_eq!(posts.len(), 2);
}

#[test]
fn test_delete_post_by_author() {
    let mut service = setup_test_service();
    let (user_id, topic_id) = forum(&mut service);

    let post =
        create_post(&mut service, user_id, topic_id, "To Delete".to_string(), "Body".to_string())
            .unwrap();

    delete_post(&mut service, post.id, user_id).expect("Author should be able to delete");

    let result = get_post(&service, post.id);
    assert!(result.is_err(), "Post should be deleted");
}

#[test]
fn test_delete_post_by_non_author_fails() {
    let mut service = setup_test_service();

    let profile1 = create_test_profile(&mut service, "Author");
    let profile2 = create_test_profile(&mut service, "Other User");
    let group_id = create_test_group(&mut service, profile1);
    let user1 = create_test_user(&mut service, group_id, profile1);
    let user2 = create_test_user(&mut service, group_id, profile2);
    let topic_id = create_test_topic(&mut service, group_id, profile1);

    let post =
        create_post(&mut service, user1, topic_id, "Post".to_string(), "Body".to_string()).unwrap();

    let result = delete_post(&mut service, post.id, user2);
    assert!(result.is_err(), "Non-author should not be able to delete");
}

#[test]
fn test_update_post() {
    let mut service = setup_test_service();
    let (user_id, topic_id) = forum(&mut service);

    let post = create_post(
        &mut service,
        user_id,
        topic_id,
        "Original".to_string(),
        "Original Body".to_string(),
    )
    .unwrap();

    let updated = update_post(
        &mut service,
        post.id,
        user_id,
        Some("Updated Title".to_string()),
        Some("Updated Body".to_string()),
    )
    .unwrap();

    assert_eq!(updated.title, "Updated Title");
    assert_eq!(updated.body, "Updated Body");
}

#[test]
fn test_update_post_by_non_author_fails() {
    let mut service = setup_test_service();

    let profile1 = create_test_profile(&mut service, "Author");
    let profile2 = create_test_profile(&mut service, "Other");
    let group_id = create_test_group(&mut service, profile1);
    let user1 = create_test_user(&mut service, group_id, profile1);
    let user2 = create_test_user(&mut service, group_id, profile2);
    let topic_id = create_test_topic(&mut service, group_id, profile1);

    let post =
        create_post(&mut service, user1, topic_id, "Post".to_string(), "Body".to_string()).unwrap();

    let result = update_post(&mut service, post.id, user2, Some("Hacked".to_string()), None);

    assert!(result.is_err(), "Non-author should not be able to update");
}

#[test]
fn test_count_posts_in_topic() {
    let mut service = setup_test_service();
    let (user_id, topic_id) = forum(&mut service);

    for i in 0..7 {
        create_post(&mut service, user_id, topic_id, format!("Post {}", i), "Body".to_string())
            .unwrap();
    }

    let count = count_posts_in_topic(&service, topic_id).unwrap();
    assert_eq!(count, 7);
}

#[test]
fn test_count_posts_by_user() {
    let mut service = setup_test_service();
    let (user_id, topic_id) = forum(&mut service);

    for i in 0..3 {
        create_post(&mut service, user_id, topic_id, format!("Post {}", i), "Body".to_string())
            .unwrap();
    }

    let count = count_posts_by_user(&service, user_id).unwrap();
    assert_eq!(count, 3);
}

#[test]
fn test_create_reply() {
    let mut service = setup_test_service();
    let (user_id, topic_id) = forum(&mut service);

    let parent = create_post(
        &mut service,
        user_id,
        topic_id,
        "Parent Post".to_string(),
        "Parent body".to_string(),
    )
    .unwrap();

    let reply =
        create_reply(&mut service, parent.id, user_id, "Reply".to_string(), "Reply body".to_string())
            .unwrap();

    assert_eq!(reply.parent_post_id, Some(parent.id));
    assert_eq!(reply.topic_id, parent.topic_id);
    assert_eq!(reply.title, "Reply");
}

#[test]
fn test_nested_reply() {
    let mut service = setup_test_service();
    let (user_id, topic_id) = forum(&mut service);

    let parent =
        create_post(&mut service, user_id, topic_id, "Parent".to_string(), "Body".to_string())
            .unwrap();

    let reply1 =
        create_reply(&mut service, parent.id, user_id, "Reply 1".to_string(), "Body".to_string())
            .unwrap();

    let reply2 =
        create_reply(&mut service, reply1.id, user_id, "Reply 2".to_string(), "Body".to_string())
            .unwrap();

    assert_eq!(reply2.parent_post_id, Some(reply1.id));
    assert_eq!(reply2.topic_id, parent.topic_id);
}

#[test]
fn test_list_replies() {
    let mut service = setup_test_service();
    let (user_id, topic_id) = forum(&mut service);

    let parent =
        create_post(&mut service, user_id, topic_id, "Parent".to_string(), "Body".to_string())
            .unwrap();

    for i in 0..5 {
        create_reply(&mut service, parent.id, user_id, format!("Reply {}", i), "Body".to_string())
            .unwrap();
    }

    let replies = list_replies(&service, parent.id, 10, 0).unwrap();
    assert_eq!(replies.len(), 5);
}

#[test]
fn test_count_replies() {
    let mut service = setup_test_service();
    let (user_id, topic_id) = forum(&mut service);

    let parent =
        create_post(&mut service, user_id, topic_id, "Parent".to_string(), "Body".to_string())
            .unwrap();

    for i in 0..7 {
        create_reply(&mut service, parent.id, user_id, format!("Reply {}", i), "Body".to_string())
            .unwrap();
    }

    let count = count_replies(&service, parent.id).unwrap();
    assert_eq!(count, 7);
}

#[test]
fn test_list_top_level_posts() {
    let mut service = setup_test_service();
    let (user_id, topic_id) = forum(&mut service);

    let post1 =
        create_post(&mut service, user_id, topic_id, "Post 1".to_string(), "Body".to_string())
            .unwrap();
    let post2 =
        create_post(&mut service, user_id, topic_id, "Post 2".to_string(), "Body".to_string())
            .unwrap();

    create_reply(&mut service, post1.id, user_id, "Reply to 1".to_string(), "Body".to_string())
        .unwrap();
    create_reply(&mut service, post2.id, user_id, "Reply to 2".to_string(), "Body".to_string())
        .unwrap();

    let top_level = list_top_level_posts(&service, topic_id, 10, 0).unwrap();
    assert_eq!(top_level.len(), 2, "Should only return top-level posts");
    assert!(top_level.iter().all(|p| p.parent_post_id.is_none()));
}

#[test]
fn test_delete_post_cascades_to_replies() {
    let mut service = setup_test_service();
    let (user_id, topic_id) = forum(&mut service);

    let parent =
        create_post(&mut service, user_id, topic_id, "Parent".to_string(), "Body".to_string())
            .unwrap();

    for i in 0..3 {
        create_reply(&mut service, parent.id, user_id, format!("Reply {}", i), "Body".to_string())
            .unwrap();
    }

    let replies_before = list_replies(&service, parent.id, 10, 0).unwrap();
    assert_eq!(replies_before.len(), 3);

    delete_post(&mut service, parent.id, user_id).unwrap();

    let parent_result = get_post(&service, parent.id);
    assert!(parent_result.is_err());

    // the replies went with their parent
    assert!(list_replies(&service, parent.id, 10, 0).unwrap().is_empty());
    assert_eq!(count_posts_in_topic(&service, topic_id), Ok(0));
}

#[test]
fn create_post_looks_for_the_member_first_then_for_the_topic() {
    let mut service = setup_test_service();
    let (user_id, topic_id) = forum(&mut service);

    let no_member =
        create_post(&mut service, UserId::new(), TopicId::new(), "t".to_string(), "b".to_string());
    assert_eq!(no_member, Err(PostsServiceError::UserNotFound));
    assert_eq!(no_member.as_ref().unwrap_err().kind(), ErrorKind::NotFound);
    assert_eq!(no_member.unwrap_err().message(), "user not found");

    let no_member_either =
        create_post(&mut service, UserId::new(), topic_id, "t".to_string(), "b".to_string());
    assert_eq!(no_member_either, Err(PostsServiceError::UserNotFound));

    let no_topic =
        create_post(&mut service, user_id, TopicId::new(), "t".to_string(), "b".to_string());
    assert_eq!(no_topic, Err(PostsServiceError::TopicNotFound));
    assert_eq!(no_topic.as_ref().unwrap_err().kind(), ErrorKind::NotFound);
    assert_eq!(no_topic.unwrap_err().message(), "topic not found");

    assert_eq!(count_posts_in_topic(&service, topic_id), Ok(0));
    assert_eq!(count_posts_by_user(&service, user_id), Ok(0));
}

#[test]
fn create_reply_looks_for_the_parent_first_then_for_the_member() {
    let mut service = setup_test_service();
    let (user_id, topic_id) = forum(&mut service);
    let parent =
        create_post(&mut service, user_id, topic_id, "parent".to_string(), "b".to_string()).unwrap();

    let no_parent =
        create_reply(&mut service, PostId::new(), UserId::new(), "t".to_string(), "b".to_string());
    assert_eq!(no_parent, Err(PostsServiceError::PostNotFound));
    assert_eq!(no_parent.unwrap_err().message(), "post not found");

    let no_member =
        create_reply(&mut service, parent.id, UserId::new(), "t".to_string(), "b".to_string());
    assert_eq!(no_member, Err(PostsServiceError::UserNotFound));

    assert_eq!(count_replies(&service, parent.id), Ok(0));
    assert_eq!(count_posts_in_topic(&service, topic_id), Ok(1));
}

#[test]
fn a_post_id_that_is_taken_is_a_conflict() {
    let mut service = setup_test_service();
    let (user_id, topic_id) = forum(&mut service);
    let id = PostId::from_u128(1);
    let first =
        create_post_at(&mut service, id, at(10), user_id, topic_id, "a".to_string(), "b".to_string())
            .unwrap();
    let again =
        create_post_at(&mut service, id, at(11), user_id, topic_id, "c".to_string(), "d".to_string());
    assert_eq!(again, Err(PostsServiceError::DbError(DbErr::UniqueViolation)));
    assert_eq!(again.unwrap_err().kind(), ErrorKind::Conflict);
    let reply =
        create_reply_at(&mut service, id, at(12), id, user_id, "e".to_string(), "f".to_string());
    assert_eq!(reply, Err(PostsServiceError::DbError(DbErr::UniqueViolation)));
    assert_eq!(get_post(&service, id), Ok(first));
    assert_eq!(count_posts_in_topic(&service, topic_id), Ok(1));
}

#[test]
fn update_post_changes_only_what_is_given() {
    let mut service = setup_test_service();
    let (user_id, topic_id) = forum(&mut service);
    let post = create_post_at(
        &mut service,
        PostId::from_u128(1),
        at(100),
        user_id,
        topic_id,
        "Title".to_string(),
        "Body".to_string(),
    )
    .unwrap();

    let same = update_post(&mut service, post.id, user_id, None, None).unwrap();
    assert_eq!(same, post);

    let retitled =
        update_post(&mut service, post.id, user_id, Some("New".to_string()), None).unwrap();
    assert_eq!(retitled.title, "New");
    assert_eq!(retitled.body, "Body");
    assert_eq!(get_post(&service, post.id).unwrap(), retitled);

    let rewritten =
        update_post(&mut service, post.id, user_id, None, Some("Text".to_string())).unwrap();
    assert_eq!(rewritten.title, "New");
    assert_eq!(rewritten.body, "Text");
    assert_eq!(rewritten.id, post.id);
    assert_eq!(rewritten.user_id, user_id);
    assert_eq!(rewritten.topic_id, topic_id);
    assert_eq!(rewritten.parent_post_id, None);
    assert_eq!(rewritten.created_at, at(100));
    assert_eq!(get_post(&service, post.id).unwrap(), rewritten);
    assert_eq!(count_posts_in_topic(&service, topic_id), Ok(1));
}

#[test]
fn a_post_that_is_not_there_is_not_found_before_anyone_is_unauthorized() {
    let mut service = setup_test_service();
    let (user_id, _) = forum(&mut service);
    let nothing = PostId::new();

    assert_eq!(get_post(&service, nothing), Err(PostsServiceError::PostNotFound));
    assert_eq!(
        update_post(&mut service, nothing, user_id, Some("x".to_string()), None),
        Err(PostsServiceError::PostNotFound)
    );
    assert_eq!(delete_post(&mut service, nothing, user_id), Err(PostsServiceError::PostNotFound));
    assert_eq!(
        delete_post(&mut service, nothing, UserId::new()),
        Err(PostsServiceError::PostNotFound)
    );
}

#[test]
fn only_the_author_changes_or_deletes_and_the_post_stays_as_it_was() {
    let mut service = setup_test_service();
    let author_profile = create_test_profile(&mut service, "Author");
    let other_profile = create_test_profile(&mut service, "Other");
    let group_id = create_test_group(&mut service, author_profile);
    let author = create_test_user(&mut service, group_id, author_profile);
    let other = create_test_user(&mut service, group_id, other_profile);
    let topic_id = create_test_topic(&mut service, group_id, author_profile);
    let post =
        create_post(&mut service, author, topic_id, "Mine".to_string(), "Text".to_string())
            .unwrap();
    let reply =
        create_reply(&mut service, post.id, other, "Re".to_string(), "Yours".to_string()).unwrap();

    let update =
        update_post(&mut service, post.id, other, Some("Hacked".to_string()), Some("!".to_string()));
    assert_eq!(update, Err(PostsServiceError::Unauthorized));
    assert_eq!(update.as_ref().unwrap_err().kind(), ErrorKind::Unauthorized);
    assert_eq!(update.unwrap_err().message(), "unauthorized: not post author");
    let delete = delete_post(&mut service, post.id, other);
    assert_eq!(delete, Err(PostsServiceError::Unauthorized));
    // a membership that does not exist is no author either
    assert_eq!(
        delete_post(&mut service, post.id, UserId::new()),
        Err(PostsServiceError::Unauthorized)
    );

    assert_eq!(get_post(&service, post.id), Ok(post.clone()));
    assert_eq!(get_post(&service, reply.id), Ok(reply.clone()));
    assert_eq!(count_posts_in_topic(&service, topic_id), Ok(2));

    // the author of the reply may delete the reply, not the post
    assert_eq!(delete_post(&mut service, reply.id, author), Err(PostsServiceError::Unauthorized));
    assert_eq!(delete_post(&mut service, reply.id, other), Ok(()));
    assert_eq!(get_post(&service, post.id), Ok(post));
    assert_eq!(count_posts_in_topic(&service, topic_id), Ok(1));
}

#[test]
fn topic_listings_are_oldest_first_and_user_listings_newest_first() {
    let mut service = setup_test_service();
    let (user_id, topic_id) = forum(&mut service);
    // created out of order, two of them at the same time
    let times = [30, 10, 20, 10, 40];
    for (i, secs) in times.iter().enumerate() {
        create_post_at(
            &mut service,
            PostId::from_u128(i as u128 + 1),
            at(*secs),
            user_id,
            topic_id,
            format!("post {}", i),
            "b".to_string(),
        )
        .unwrap();
    }

    let titles = |rows: Vec<spout_core::entity::GroupPostModel>| -> Vec<String> {
        rows.into_iter().map(|p| p.title).collect()
    };

    let by_topic = list_posts_for_topic(&service, topic_id, 10, 0).unwrap();
    assert!(by_topic.windows(2).all(|w| w[0].created_at <= w[1].created_at));
    assert_eq!(titles(by_topic), vec!["post 1", "post 3", "post 2", "post 0", "post 4"]);

    let by_user = list_posts_by_user(&service, user_id, 10, 0).unwrap();
    assert!(by_user.windows(2).all(|w| w[0].created_at >= w[1].created_at));
    assert_eq!(titles(by_user), vec!["post 4", "post 0", "post 2", "post 1", "post 3"]);

    assert_eq!(titles(list_posts_for_topic(&service, topic_id, 2, 1).unwrap()), vec!["post 3", "post 2"]);
    assert_eq!(titles(list_posts_by_user(&service, user_id, 2, 3).unwrap()), vec!["post 1", "post 3"]);
    assert_eq!(titles(list_top_level_posts(&service, topic_id, 1, 4).unwrap()), vec!["post 4"]);
}

#[test]
fn the_nanoseconds_decide_between_posts_of_one_second() {
    let mut service = setup_test_service();
    let (user_id, topic_id) = forum(&mut service);
    let stamps = [(5, 900), (5, 100), (4, 999_999_999), (-1, 0)];
    for (i, (secs, nanos)) in stamps.iter().enumerate() {
        create_post_at(
            &mut service,
            PostId::from_u128(i as u128 + 1),
            Timestamp::new(*secs, *nanos),
            user_id,
            topic_id,
            format!("post {}", i),
            "b".to_string(),
        )
        .unwrap();
    }
    let listed: Vec<String> = list_posts_for_topic(&service, topic_id, 10, 0)
        .unwrap()
        .into_iter()
        .map(|p| p.title)
        .collect();
    assert_eq!(listed, vec!["post 3", "post 2", "post 1", "post 0"]);
}

#[test]
fn pages_beyond_the_end_are_empty() {
    let mut service = setup_test_service();
    let (user_id, topic_id) = forum(&mut service);
    for i in 0..3 {
        create_post(&mut service, user_id, topic_id, format!("Post {}", i), "b".to_string())
            .unwrap();
    }
    let parent = list_posts_for_topic(&service, topic_id, 1, 0).unwrap().remove(0);
    create_reply(&mut service, parent.id, user_id, "r".to_string(), "b".to_string()).unwrap();

    assert_eq!(list_posts_for_topic(&service, topic_id, 10, 4).unwrap().len(), 0);
    assert_eq!(list_posts_for_topic(&service, topic_id, 10, 5).unwrap().len(), 0);
    assert_eq!(list_posts_for_topic(&service, topic_id, 10, u64::MAX).unwrap().len(), 0);
    assert_eq!(list_posts_for_topic(&service, topic_id, u64::MAX, u64::MAX).unwrap().len(), 0);
    assert_eq!(list_posts_for_topic(&service, topic_id, u64::MAX, 1).unwrap().len(), 3);
    assert_eq!(list_posts_for_topic(&service, topic_id, 0, 0).unwrap().len(), 0);
    assert_eq!(list_posts_for_topic(&service, topic_id, 10, 3).unwrap().len(), 1);
    assert_eq!(list_top_level_posts(&service, topic_id, 10, 3).unwrap().len(), 0);
    assert_eq!(list_replies(&service, parent.id, 10, 1).unwrap().len(), 0);
    assert_eq!(list_posts_by_user(&service, user_id, 10, 4).unwrap().len(), 0);
    assert_eq!(list_posts_for_topic(&service, TopicId::new(), 10, 0).unwrap().len(), 0);
    assert_eq!(list_posts_by_user(&service, UserId::new(), 10, 0).unwrap().len(), 0);
    assert_eq!(list_replies(&service, PostId::new(), 10, 0).unwrap().len(), 0);
}

#[test]
fn list_replies_gives_the_direct_replies_only() {
    let mut service = setup_test_service();
    let (user_id, topic_id) = forum(&mut service);
    let root =
        create_post(&mut service, user_id, topic_id, "root".to_string(), "b".to_string()).unwrap();
    let child =
        create_reply(&mut service, root.id, user_id, "child".to_string(), "b".to_string()).unwrap();
    let grandchild =
        create_reply(&mut service, child.id, user_id, "grandchild".to_string(), "b".to_string())
            .unwrap();

    assert_eq!(list_replies(&service, root.id, 10, 0).unwrap(), vec![child.clone()]);
    assert_eq!(list_replies(&service, child.id, 10, 0).unwrap(), vec![grandchild.clone()]);
    assert!(list_replies(&service, grandchild.id, 10, 0).unwrap().is_empty());
    assert_eq!(count_replies(&service, root.id), Ok(1));
    assert_eq!(count_posts_in_topic(&service, topic_id), Ok(3));
    assert_eq!(list_posts_for_topic(&service, topic_id, 10, 0).unwrap().len(), 3);
    assert_eq!(list_top_level_posts(&service, topic_id, 10, 0).unwrap(), vec![root]);
}

#[test]
fn deleting_a_post_takes_the_whole_thread_below_it_and_nothing_else() {
    let mut service = setup_test_service();
    let (user_id, topic_id) = forum(&mut service);
    let mut post = |service: &mut Store, n: u128, parent: Option<PostId>| -> PostId {
        let id = PostId::from_u128(n);
        match parent {
            None => create_post_at(
                service,
                id,
                at(n as i64),
                user_id,
                topic_id,
                format!("post {}", n),
                "b".to_string(),
            ),
            Some(p) => create_reply_at(
                service,
                id,
                at(n as i64),
                p,
                user_id,
                format!("post {}", n),
                "b".to_string(),
            ),
        }
        .unwrap()
        .id
    };
    //  1            2
    //  |- 3         |- 6
    //  |  |- 4
    //  |  |  |- 7
    //  |- 5
    let one = post(&mut service, 1, None);
    let two = post(&mut service, 2, None);
    let three = post(&mut service, 3, Some(one));
    let four = post(&mut service, 4, Some(three));
    let five = post(&mut service, 5, Some(one));
    let six = post(&mut service, 6, Some(two));
    let seven = post(&mut service, 7, Some(four));

    assert_eq!(delete_post(&mut service, three, user_id), Ok(()));
    let left: Vec<PostId> =
        list_posts_for_topic(&service, topic_id, 10, 0).unwrap().iter().map(|p| p.id).collect();
    assert_eq!(left, vec![one, two, five, six]);
    assert_eq!(get_post(&service, four), Err(PostsServiceError::PostNotFound));
    assert_eq!(get_post(&service, seven), Err(PostsServiceError::PostNotFound));

    assert_eq!(delete_post(&mut service, one, user_id), Ok(()));
    let left: Vec<PostId> =
        list_posts_for_topic(&service, topic_id, 10, 0).unwrap().iter().map(|p| p.id).collect();
    assert_eq!(left, vec![two, six]);
}

#[test]
fn a_reply_may_be_written_by_another_member_in_the_topic_of_the_parent() {
    let mut service = setup_test_service();
    let a = create_test_profile(&mut service, "A");
    let b = create_test_profile(&mut service, "B");
    let group_a = create_test_group(&mut service, a);
    let group_b = create_test_group(&mut service, b);
    let user_a = create_test_user(&mut service, group_a, a);
    let user_b = create_test_user(&mut service, group_b, b);
    let topic_a = create_test_topic(&mut service, group_a, a);
    let topic_b = create_test_topic(&mut service, group_b, b);

    let root =
        create_post(&mut service, user_a, topic_a, "root".to_string(), "b".to_string()).unwrap();
    let reply =
        create_reply(&mut service, root.id, user_b, "re".to_string(), "b".to_string()).unwrap();
    let deeper =
        create_reply(&mut service, reply.id, user_a, "re re".to_string(), "b".to_string()).unwrap();

    assert_eq!(reply.topic_id, topic_a);
    assert_eq!(deeper.topic_id, topic_a);
    assert_eq!(deeper.parent_post_id, Some(reply.id));
    assert_eq!(count_posts_in_topic(&service, topic_b), Ok(0));
    assert_eq!(count_posts_in_topic(&service, topic_a), Ok(3));

    // the group of the replying member goes: its reply goes, and what hangs on the reply
    service.delete_group(group_b);
    assert_eq!(get_post(&service, root.id), Ok(root));
    assert_eq!(get_post(&service, reply.id), Err(PostsServiceError::PostNotFound));
    assert_eq!(get_post(&service, deeper.id), Err(PostsServiceError::PostNotFound));
    assert_eq!(count_posts_in_topic(&service, topic_a), Ok(1));
}
