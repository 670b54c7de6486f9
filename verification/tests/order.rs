use spout_core::entity::{GroupPostModel, GroupTopicModel};
use spout_core::ids::{GroupId, PostId, ProfileId, TopicId, UserId};
use spout_core::order::{arrange, page_bounds, paged, stands_after};
use spout_core::relation::{copies_of_marked, keep_marked, marked_places, marks_of};
use spout_core::store::{PostFilter, TopicFilter};
use spout_core::timestamp::Timestamp;

fn at(secs: i64) -> Timestamp {
    Timestamp::new(secs, 0)
}

#[test]
fn page_bounds_clip_to_the_listing() {
    assert_eq!(page_bounds(10, 3, 0), (0, 3));
    assert_eq!(page_bounds(10, 3, 8), (8, 10));
    assert_eq!(page_bounds(10, 3, 7), (7, 10));
    assert_eq!(page_bounds(10, 0, 4), (4, 4));
    assert_eq!(page_bounds(10, 5, 10), (10, 10));
    assert_eq!(page_bounds(10, 5, 11), (10, 10));
    assert_eq!(page_bounds(0, 5, 0), (0, 0));
    assert_eq!(page_bounds(10, u64::MAX, 2), (2, 10));
    assert_eq!(page_bounds(10, u64::MAX, u64::MAX), (10, 10));
    assert_eq!(page_bounds(10, 1, u64::MAX), (10, 10));
}

#[test]
fn arrange_is_stable_in_both_directions() {
    let keys = vec![at(30), at(10), at(20), at(10), at(40)];
    assert_eq!(arrange(&keys, false), vec![1, 3, 2, 0, 4]);
    assert_eq!(arrange(&keys, true), vec![4, 0, 2, 1, 3]);
    assert_eq!(arrange(&Vec::new(), false), Vec::<usize>::new());
    assert_eq!(arrange(&vec![at(7)], true), vec![0]);
    let same = vec![at(5); 4];
    assert_eq!(arrange(&same, false), vec![0, 1, 2, 3]);
    assert_eq!(arrange(&same, true), vec![0, 1, 2, 3]);
}

#[test]
fn paged_lists_items_by_their_keys() {
    let items = vec!['a', 'b', 'c', 'd'];
    let keys = vec![at(4), at(1), at(3), at(2)];
    assert_eq!(paged(&items, &keys, false, 10, 0), vec!['b', 'd', 'c', 'a']);
    assert_eq!(paged(&items, &keys, true, 10, 0), vec!['a', 'c', 'd', 'b']);
    assert_eq!(paged(&items, &keys, false, 2, 1), vec!['d', 'c']);
    assert_eq!(paged(&items, &keys, true, 2, 3), vec!['b']);
    assert_eq!(paged(&items, &keys, true, 2, 4), Vec::<char>::new());
}

#[test]
fn timestamps_compare_by_seconds_then_by_nanoseconds() {
    let early = Timestamp::new(1, 999_999_999);
    let late = Timestamp::new(2, 0);
    assert!(early.is_before(&late));
    assert!(!late.is_before(&early));
    assert!(!early.is_before(&early));
    assert!(Timestamp::new(2, 1).is_before(&Timestamp::new(2, 2)));
    assert!(Timestamp::new(-5, 0).is_before(&Timestamp::new(-4, 0)));
    assert!(early < late);
    assert!(Timestamp::new(i64::MIN, 0).is_before(&Timestamp::new(i64::MAX, u32::MAX)));

    assert!(stands_after(&late, &early, false));
    assert!(!stands_after(&early, &late, false));
    assert!(stands_after(&early, &late, true));
    assert!(!stands_after(&early, &early, true));
    assert!(!stands_after(&early, &early, false));
}

#[test]
fn the_clock_reads_a_time_of_this_century() {
    let now = Timestamp::now();
    assert!(now.secs > 1_600_000_000);
    assert!(now.nanos < 2_000_000_000);
    let later = Timestamp::now();
    assert!(!later.is_before(&Timestamp::new(now.secs - 1, 0)));
}

#[test]
fn marking_and_picking() {
    let rows = vec![5u32, 8, 13, 2, 8];
    let marks = marks_of(&rows, |r: &u32| *r == 8);
    assert_eq!(marks, vec![false, true, false, false, true]);
    assert_eq!(marked_places(&marks), vec![1, 4]);
    assert_eq!(copies_of_marked(&rows, &vec![true, false, true, true, false]), vec![5, 13, 2]);
    let text = vec!["a".to_string(), "b".to_string(), "c".to_string()];
    assert_eq!(keep_marked(text, &vec![false, true, true]), vec!["b".to_string(), "c".to_string()]);
    assert_eq!(keep_marked(Vec::<String>::new(), &Vec::new()), Vec::<String>::new());
    assert_eq!(marked_places(&vec![false, false]), Vec::<usize>::new());
}

#[test]
fn post_filters_select_by_topic_parent_and_author() {
    let topic = TopicId::from_u128(1);
    let user = UserId::from_u128(2);
    let parent = PostId::from_u128(3);
    let top = GroupPostModel::top_level(
        parent,
        user,
        topic,
        "t".to_string(),
        "b".to_string(),
        Timestamp::new(0, 0),
    );
    let reply = GroupPostModel::reply_to(
        &top,
        PostId::from_u128(4),
        UserId::from_u128(9),
        "re".to_string(),
        "b".to_string(),
        Timestamp::new(1, 0),
    );
    assert!(top.is_top_level());
    assert!(!reply.is_top_level());
    assert!(top.is_by(user));
    assert!(!reply.is_by(user));
    assert_eq!(reply.topic_id, topic);
    assert_eq!(reply.parent_post_id, Some(parent));

    assert!(PostFilter::InTopic(topic).admits(&top));
    assert!(PostFilter::InTopic(topic).admits(&reply));
    assert!(!PostFilter::InTopic(TopicId::from_u128(7)).admits(&top));
    assert!(PostFilter::AtTopOf(topic).admits(&top));
    assert!(!PostFilter::AtTopOf(topic).admits(&reply));
    assert!(PostFilter::RepliesTo(parent).admits(&reply));
    assert!(!PostFilter::RepliesTo(parent).admits(&top));
    assert!(!PostFilter::RepliesTo(PostId::from_u128(4)).admits(&reply));
    assert!(PostFilter::WrittenBy(user).admits(&top));
    assert!(!PostFilter::WrittenBy(user).admits(&reply));
}

#[test]
fn topic_filters_select_by_group_and_starter() {
    let topic = GroupTopicModel {
        id: TopicId::from_u128(1),
        group_id: GroupId::from_u128(2),
        profile_id: ProfileId::from_u128(3),
        created_at: Timestamp::new(0, 0),
    };
    assert!(TopicFilter::InGroup(GroupId::from_u128(2)).admits(&topic));
    assert!(!TopicFilter::InGroup(GroupId::from_u128(3)).admits(&topic));
    assert!(TopicFilter::StartedBy(ProfileId::from_u128(3)).admits(&topic));
    assert!(!TopicFilter::StartedBy(ProfileId::from_u128(2)).admits(&topic));
}
