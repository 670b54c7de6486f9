use spout_core::ids::NodeId;
use spout_core::models::group::topic::Topic;
use spout_core::service::groups::{add_user, create_group, delete_group, is_admin, list_admins, list_users};
use spout_core::service::posts::{create_post, create_reply, get_post, list_replies};
use spout_core::service::profiles::create_profile;
use spout_core::store::{PostFilter, Store, TopicFilter};

#[test]
fn alice_and_bob_from_the_first_profile_to_the_deleted_group() {
    let mut db = Store::new();
    let alice_node = NodeId::from_bytes([1u8; 32]);
    let bob_node = NodeId::from_bytes([2u8; 32]);

    let alice =
        create_profile(&mut db, alice_node, "Alice".to_string(), "first".to_string(), None).unwrap();
    let group = create_group(&mut db, alice.id).unwrap();
    assert_eq!(is_admin(&db, group.id, alice.id), Ok(true));

    let bob =
        create_profile(&mut db, bob_node, "Bob".to_string(), "second".to_string(), None).unwrap();
    let bob_user = add_user(&mut db, group.id, bob.id).unwrap();

    let topic = Topic::create(group.id, alice.id, &mut db).unwrap();

    let post =
        create_post(&mut db, bob_user.id, topic.id, "Hi".to_string(), "Hello".to_string()).unwrap();
    let reply =
        create_reply(&mut db, post.id, bob_user.id, "Re".to_string(), "Hi again".to_string())
            .unwrap();
    assert_eq!(reply.topic_id, topic.id);

    let replies = list_replies(&db, post.id, 10, 0).unwrap();
    assert_eq!(replies.len(), 1);
    assert_eq!(replies[0], reply);

    assert_eq!(delete_group(&mut db, group.id, alice.id), Ok(()));

    assert!(list_users(&db, group.id).unwrap().is_empty());
    assert!(list_admins(&db, group.id).unwrap().is_empty());
    assert!(db.select_topics(TopicFilter::InGroup(group.id), true, 10, 0).is_empty());
    assert_eq!(db.count_posts(PostFilter::InTopic(topic.id)), 0);
    assert!(get_post(&db, post.id).is_err());
    assert!(get_post(&db, reply.id).is_err());
    // the profiles outlive the group
    assert_eq!(db.profile(alice.id), Some(&alice));
    assert_eq!(db.profile(bob.id), Some(&bob));
}
