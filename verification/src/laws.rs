//! What holds of the operations taken together, proved from their
//! definitions.

use crate::db::{
    admin_inside, banned_inside, has_group, has_owner, has_parent, has_profile_named,
    lemma_delete_group_wf, lemma_insert_identity_wf, lemma_insert_profile_wf,
    lemma_select_posts, post_at_top_of, post_in_topic, post_replying_to, post_written_by,
    profile_owned_by, topic_inside, user_inside, Db,
};
use crate::entity::{GroupAdminModel, GroupPostView, IdentityModel, ProfileView};
use crate::error::{DbErr, ErrorKind};
use crate::ids::{GroupId, NodeId, PostId, ProfileId, TopicId, UserId};
use crate::relation::{
    lemma_filter_agree, lemma_filter_extremes, lemma_filter_push, lemma_kept, lemma_origin,
};
use crate::service::groups::{create_group_outcome, delete_group_outcome, GroupsServiceError};
use crate::service::posts::{
    create_reply_outcome, delete_post_outcome, newest_first, oldest_first, update_post_outcome,
    PostsServiceError,
};
use crate::service::profiles::{create_profile_outcome, ProfilesServiceError};
use crate::timestamp::Timestamp;
use vstd::prelude::*;

verus! {

/// Of two profiles created with one name the second is refused as a
/// conflict, whoever asks and whatever else it holds; the store stays as the
/// first creation left it, and the first profile is still found under the
/// name.
pub proof fn law_second_profile_of_a_name_conflicts(
    db: Db,
    name: Seq<char>,
    first: ProfileId,
    first_owner: NodeId,
    first_desc: Seq<char>,
    first_picture: Option<Seq<u8>>,
    second: ProfileId,
    second_owner: NodeId,
    second_desc: Seq<char>,
    second_picture: Option<Seq<u8>>,
)
    requires
        db.wf(),
        create_profile_outcome(db, first, first_owner, name, first_desc, first_picture).1 is Ok,
    ensures
        ({
            let (mid, created) = create_profile_outcome(
                db,
                first,
                first_owner,
                name,
                first_desc,
                first_picture,
            );
            let (last, refused) = create_profile_outcome(
                mid,
                second,
                second_owner,
                name,
                second_desc,
                second_picture,
            );
            &&& refused == Err::<ProfileView, ProfilesServiceError>(
                ProfilesServiceError::DbError(DbErr::UniqueViolation),
            )
            &&& refused->Err_0.spec_kind() == ErrorKind::Conflict
            &&& last == mid
            &&& mid.profile_named(name) == Some(created->Ok_0)
        }),
{
    let row = ProfileView { id: first, name, desc: first_desc, picture: first_picture };
    let (mid, created) = create_profile_outcome(
        db,
        first,
        first_owner,
        name,
        first_desc,
        first_picture,
    );
    let held = db.insert_profile(row)->Ok_0;
    lemma_insert_profile_wf(db, row);
    lemma_insert_identity_wf(held, IdentityModel { node_id: first_owner, profile_id: first });
    let at = db.profiles.len() as int;
    assert(mid.profiles[at] == row);
    assert(has_profile_named(mid.profiles, name));
    let found = choose|i: int| 0 <= i < mid.profiles.len() && mid.profiles[i].name == name;
    if found < at {
        assert(mid.profiles[found].name != mid.profiles[at].name);
    }
}

/// A new link to a profile that is not stored yet changes nothing about who
/// owns the stored profiles.
proof fn lemma_owned_as_before(db: Db, link: IdentityModel, n: NodeId)
    requires
        forall|i: int| 0 <= i < db.profiles.len() ==> (#[trigger] db.profiles[i]).id
            != link.profile_id,
    ensures
        forall|i: int|
            0 <= i < db.profiles.len() ==> profile_owned_by(db.identities.push(link), n)(
                #[trigger] db.profiles[i],
            ) == profile_owned_by(db.identities, n)(db.profiles[i]),
{
    let grown = db.identities.push(link);
    assert forall|i: int| 0 <= i < db.profiles.len() implies profile_owned_by(grown, n)(
        #[trigger] db.profiles[i],
    ) == profile_owned_by(db.identities, n)(db.profiles[i]) by {
        let wanted = IdentityModel { node_id: n, profile_id: db.profiles[i].id };
        assert(wanted != link);
        if db.identities.contains(wanted) {
            let k = choose|k: int| 0 <= k < db.identities.len() && db.identities[k] == wanted;
            assert(grown[k] == wanted);
        }
        if grown.contains(wanted) {
            let k = choose|k: int| 0 <= k < grown.len() && grown[k] == wanted;
            assert(db.identities[k] == wanted);
        }
    }
}

/// A profile that was created is listed for the participant it was created
/// for, after the profiles that were listed before; what is listed for
/// any other participant does not change.
pub proof fn law_created_profile_is_listed_for_its_owner(
    db: Db,
    id: ProfileId,
    node_id: NodeId,
    name: Seq<char>,
    desc: Seq<char>,
    picture: Option<Seq<u8>>,
    other: NodeId,
)
    requires
        db.wf(),
        create_profile_outcome(db, id, node_id, name, desc, picture).1 is Ok,
        other != node_id,
    ensures
        ({
            let (next, created) = create_profile_outcome(db, id, node_id, name, desc, picture);
            &&& next.profiles_of(node_id) == db.profiles_of(node_id).push(created->Ok_0)
            &&& next.profiles_of(other) == db.profiles_of(other)
        }),
{
    let row = ProfileView { id, name, desc, picture };
    let link = IdentityModel { node_id, profile_id: id };
    let (next, created) = create_profile_outcome(db, id, node_id, name, desc, picture);
    assert(next.profiles == db.profiles.push(row));
    assert(next.identities == db.identities.push(link));
    assert(next.identities[db.identities.len() as int] == link);
    assert(next.identities.contains(link));
    lemma_owned_as_before(db, link, node_id);
    lemma_owned_as_before(db, link, other);
    lemma_filter_agree(
        db.profiles,
        profile_owned_by(next.identities, node_id),
        profile_owned_by(db.identities, node_id),
    );
    lemma_filter_agree(
        db.profiles,
        profile_owned_by(next.identities, other),
        profile_owned_by(db.identities, other),
    );
    lemma_filter_push(db.profiles, row, profile_owned_by(next.identities, node_id));
    lemma_filter_push(db.profiles, row, profile_owned_by(next.identities, other));
    let foreign = IdentityModel { node_id: other, profile_id: id };
    if next.identities.contains(foreign) {
        let k = choose|k: int| 0 <= k < next.identities.len() && next.identities[k] == foreign;
        assert(db.identities[k].profile_id == id);
        assert(has_owner(db.identities, id));
    }
}

/// The profiles listed for a participant are the stored profiles that the
/// participant owns, no other and each of them; an empty store lists none.
pub proof fn law_listed_profiles_are_the_owned_ones(db: Db, node_id: NodeId, row: ProfileView)
    ensures
        db.profiles_of(node_id).contains(row) <==> db.profiles.contains(row) && db.owns(
            node_id,
            row.id,
        ),
        Db::empty().profiles_of(node_id).len() == 0,
{
    let keep = profile_owned_by(db.identities, node_id);
    let listed = db.profiles_of(node_id);
    if listed.contains(row) {
        let k = choose|k: int| 0 <= k < listed.len() && listed[k] == row;
        lemma_origin(db.profiles, keep, k);
    }
    if db.profiles.contains(row) && db.owns(node_id, row.id) {
        let i = choose|i: int| 0 <= i < db.profiles.len() && db.profiles[i] == row;
        lemma_kept(db.profiles, keep, i);
    }
    lemma_filter_extremes(Db::empty().profiles, profile_owned_by(Db::empty().identities, node_id));
}

/// A profile has at most one owner: two participants that own one profile
/// are one participant, and linking a profile that has an owner to any
/// participant is refused.
pub proof fn law_profile_has_one_owner(db: Db, profile_id: ProfileId, one: NodeId, other: NodeId)
    requires
        db.wf(),
        db.owns(one, profile_id),
    ensures
        db.owns(other, profile_id) ==> other == one,
        db.insert_identity(IdentityModel { node_id: other, profile_id }) == Err::<Db, DbErr>(
            DbErr::UniqueViolation,
        ),
        other != one ==> !db.profiles_of(other).contains(db.profile(profile_id)->Some_0)
            || db.profile(profile_id) is None,
{
    let mine = IdentityModel { node_id: one, profile_id };
    let i = choose|i: int| 0 <= i < db.identities.len() && db.identities[i] == mine;
    assert(db.identities[i].profile_id == profile_id);
    if db.owns(other, profile_id) {
        let theirs = IdentityModel { node_id: other, profile_id };
        let j = choose|j: int| 0 <= j < db.identities.len() && db.identities[j] == theirs;
        if i < j {
            assert(db.identities[i].profile_id != db.identities[j].profile_id);
        } else if j < i {
            assert(db.identities[j].profile_id != db.identities[i].profile_id);
        }
    }
    if other != one && db.profile(profile_id) is Some {
        let row = db.profile(profile_id)->Some_0;
        law_listed_profiles_are_the_owned_ones(db, other, row);
    }
}

/// Whoever creates a group is an admin of it from the moment it exists.
pub proof fn law_creator_is_admin(db: Db, id: GroupId, profile_id: ProfileId)
    requires
        db.wf(),
    ensures
        ({
            let (next, created) = create_group_outcome(db, id, profile_id);
            created matches Ok(group) ==> group.id == id && group.profile_id == profile_id
                && has_group(next.groups, id) && next.is_admin(group.id, profile_id)
        }),
{
    let (next, created) = create_group_outcome(db, id, profile_id);
    if created is Ok {
        let admin = GroupAdminModel { group_id: id, identity_id: profile_id };
        let held = db.groups.push(created->Ok_0);
        assert(held[db.groups.len() as int].id == id);
        if !db.admins.contains(admin) {
            assert(next.admins == db.admins.push(admin));
            assert(next.admins[db.admins.len() as int] == admin);
        }
    }
}

/// Only an admin deletes a group: for any other profile the deletion is
/// refused as unauthorized and the store stays as it was. After an admin has
/// deleted the group it has no members, admins, bans or topics, and it is
/// gone.
pub proof fn law_only_an_admin_deletes_a_group(db: Db, group_id: GroupId, profile_id: ProfileId)
    requires
        db.wf(),
    ensures
        ({
            let (next, done) = delete_group_outcome(db, group_id, profile_id);
            &&& !db.is_admin(group_id, profile_id) ==> done == Err::<(), GroupsServiceError>(
                GroupsServiceError::Unauthorized,
            ) && next == db
            &&& db.is_admin(group_id, profile_id) ==> {
                &&& done is Ok
                &&& next.wf()
                &&& !has_group(next.groups, group_id)
                &&& next.users.filter(user_inside(group_id)).len() == 0
                &&& next.admins.filter(admin_inside(group_id)).len() == 0
                &&& next.banned.filter(banned_inside(group_id)).len() == 0
                &&& next.topics.filter(topic_inside(group_id)).len() == 0
            }
        }),
{
    let (next, done) = delete_group_outcome(db, group_id, profile_id);
    if db.is_admin(group_id, profile_id) {
        lemma_delete_group_wf(db, group_id);
        assert forall|k: int| 0 <= k < next.users.len() implies !user_inside(group_id)(
            #[trigger] next.users[k],
        ) by {
            lemma_origin(db.users, crate::db::user_outside(group_id), k);
        }
        lemma_filter_extremes(next.users, user_inside(group_id));
        assert forall|k: int| 0 <= k < next.admins.len() implies !admin_inside(group_id)(
            #[trigger] next.admins[k],
        ) by {
            lemma_origin(db.admins, crate::db::admin_outside(group_id), k);
        }
        lemma_filter_extremes(next.admins, admin_inside(group_id));
        assert forall|k: int| 0 <= k < next.banned.len() implies !banned_inside(group_id)(
            #[trigger] next.banned[k],
        ) by {
            lemma_origin(db.banned, crate::db::banned_outside(group_id), k);
        }
        lemma_filter_extremes(next.banned, banned_inside(group_id));
        assert forall|k: int| 0 <= k < next.topics.len() implies !topic_inside(group_id)(
            #[trigger] next.topics[k],
        ) by {
            lemma_origin(db.topics, crate::db::topic_outside(group_id), k);
        }
        lemma_filter_extremes(next.topics, topic_inside(group_id));
    }
}

/// A reply lies in the topic of the post it replies to, and names that post
/// as its parent.
pub proof fn law_reply_lies_in_the_topic_of_its_parent(
    db: Db,
    id: PostId,
    now: Timestamp,
    parent_post_id: PostId,
    user_id: UserId,
    title: Seq<char>,
    body: Seq<char>,
)
    ensures
        create_reply_outcome(db, id, now, parent_post_id, user_id, title, body).1 matches Ok(reply)
            ==> db.post(parent_post_id) matches Some(parent) && reply.topic_id == parent.topic_id
            && reply.parent_post_id == Some(parent_post_id),
{
}

/// The place of the post at the top of the thread that holds the post at
/// place `i`: the post itself if it is no reply, else the top of the thread
/// of its parent.
pub open spec fn thread_top(posts: Seq<GroupPostView>, i: int) -> int
    decreases i,
{
    if 0 <= i < posts.len() && posts[i].parent_post_id is Some {
        let j = choose|j: int|
            0 <= j < i && posts[j].id == posts[i].parent_post_id->Some_0 && posts[j].topic_id
                == posts[i].topic_id;
        if 0 <= j < i {
            thread_top(posts, j)
        } else {
            i
        }
    } else {
        i
    }
}

/// Every post of a thread, however deep, lies in the topic of the post at
/// the top of the thread, which is no reply.
pub proof fn law_thread_lies_in_one_topic(db: Db, i: int)
    requires
        db.wf(),
        0 <= i < db.posts.len(),
    ensures
        0 <= thread_top(db.posts, i) <= i,
        db.posts[thread_top(db.posts, i)].parent_post_id is None,
        db.posts[thread_top(db.posts, i)].topic_id == db.posts[i].topic_id,
    decreases i,
{
    if db.posts[i].parent_post_id is Some {
        let parent = db.posts[i].parent_post_id->Some_0;
        assert(has_parent(db.posts, parent, db.posts[i].topic_id, i));
        let j = choose|j: int|
            0 <= j < i && db.posts[j].id == parent && db.posts[j].topic_id == db.posts[i].topic_id;
        law_thread_lies_in_one_topic(db, j);
    }
}

/// Only its author changes or deletes a post: for any other member both are
/// refused as unauthorized, and the store, the post included, stays as it
/// was.
pub proof fn law_only_the_author_changes_a_post(
    db: Db,
    post_id: PostId,
    user_id: UserId,
    title: Option<Seq<char>>,
    body: Option<Seq<char>>,
)
    requires
        db.post(post_id) matches Some(post) && post.user_id != user_id,
    ensures
        update_post_outcome(db, post_id, user_id, title, body) == (
            db,
            Err::<GroupPostView, PostsServiceError>(PostsServiceError::Unauthorized),
        ),
        delete_post_outcome(db, post_id, user_id) == (
            db,
            Err::<(), PostsServiceError>(PostsServiceError::Unauthorized),
        ),
        PostsServiceError::Unauthorized.spec_kind() == ErrorKind::Unauthorized,
{
}

/// Every page of the posts of a topic, of the top-level posts of a topic and
/// of the replies to a post runs from the oldest post to the newest; every
/// page of the posts of a member runs from the newest to the oldest.
pub proof fn law_listings_follow_creation_time(
    db: Db,
    topic_id: TopicId,
    post_id: PostId,
    user_id: UserId,
    limit: u64,
    offset: u64,
)
    ensures
        oldest_first(db.select_posts(post_in_topic(topic_id), false, limit, offset)),
        oldest_first(db.select_posts(post_at_top_of(topic_id), false, limit, offset)),
        oldest_first(db.select_posts(post_replying_to(post_id), false, limit, offset)),
        newest_first(db.select_posts(post_written_by(user_id), true, limit, offset)),
{
    lemma_select_posts(db, post_in_topic(topic_id), false, limit, offset);
    lemma_select_posts(db, post_at_top_of(topic_id), false, limit, offset);
    lemma_select_posts(db, post_replying_to(post_id), false, limit, offset);
    lemma_select_posts(db, post_written_by(user_id), true, limit, offset);
}

/// A page of the top-level posts of a topic holds no reply, and no post of
/// another topic; a page from an offset at or beyond the number of such
/// posts is empty.
pub proof fn law_top_level_listing_holds_no_reply(db: Db, topic_id: TopicId, limit: u64, offset: u64)
    ensures
        forall|k: int|
            0 <= k < db.select_posts(post_at_top_of(topic_id), false, limit, offset).len() ==> {
                let listed = #[trigger] db.select_posts(
                    post_at_top_of(topic_id),
                    false,
                    limit,
                    offset,
                )[k];
                listed.parent_post_id is None && listed.topic_id == topic_id
                    && db.posts.contains(listed)
            },
        offset >= db.posts.filter(post_at_top_of(topic_id)).len() ==> db.select_posts(
            post_at_top_of(topic_id),
            false,
            limit,
            offset,
        ).len() == 0,
{
    lemma_select_posts(db, post_at_top_of(topic_id), false, limit, offset);
}

} // verus!
