//! Posts and replies: threads of unbounded depth, each anchored in one
//! topic.

use crate::db::{
    has_topic, has_user, lemma_select_posts, lemma_update_post_reads,
    post_at_top_of, post_in_topic, post_replying_to, post_written_by, Db,
};
use crate::entity::group_post::text_view;
use crate::entity::{
    post_views, result_view, GroupPostModel, GroupPostView, GroupTopicModel,
    GroupUserModel,
};
use crate::error::{DbErr, ErrorKind};
use crate::ids::{PostId, TopicId, UserId};
use crate::outside::is_v7;
use crate::store::{PostFilter, Store};
use crate::timestamp::Timestamp;
use vstd::prelude::*;

verus! {

/// Why an operation on posts failed.
#[derive(Clone, Copy, Debug, PartialEq, Eq, Structural)]
pub enum PostsServiceError {
    /// The store refused the statement or failed.
    DbError(DbErr),
    PostNotFound,
    TopicNotFound,
    UserNotFound,
    /// The acting member is not the author of the post.
    Unauthorized,
}

impl PostsServiceError {
    pub open spec fn spec_kind(self) -> ErrorKind {
        match self {
            PostsServiceError::DbError(e) => e.spec_kind(),
            PostsServiceError::PostNotFound => ErrorKind::NotFound,
            PostsServiceError::TopicNotFound => ErrorKind::NotFound,
            PostsServiceError::UserNotFound => ErrorKind::NotFound,
            PostsServiceError::Unauthorized => ErrorKind::Unauthorized,
        }
    }

    /// What the failure means to the caller.
    #[verifier::when_used_as_spec(spec_kind)]
    pub fn kind(self) -> (r: ErrorKind)
        ensures
            r == self.spec_kind(),
    {
        match self {
            PostsServiceError::DbError(e) => e.kind(),
            PostsServiceError::PostNotFound => ErrorKind::NotFound,
            PostsServiceError::TopicNotFound => ErrorKind::NotFound,
            PostsServiceError::UserNotFound => ErrorKind::NotFound,
            PostsServiceError::Unauthorized => ErrorKind::Unauthorized,
        }
    }

    pub open spec fn text(self) -> Seq<char> {
        match self {
            PostsServiceError::DbError(_) => "fatal database error"@,
            PostsServiceError::PostNotFound => "post not found"@,
            PostsServiceError::TopicNotFound => "topic not found"@,
            PostsServiceError::UserNotFound => "user not found"@,
            PostsServiceError::Unauthorized => "unauthorized: not post author"@,
        }
    }

    /// The failure in words.
    pub fn message(&self) -> (r: String)
        ensures
            r@ == self.text(),
    {
        match self {
            PostsServiceError::DbError(_) => "fatal database error".to_owned(),
            PostsServiceError::PostNotFound => "post not found".to_owned(),
            PostsServiceError::TopicNotFound => "topic not found".to_owned(),
            PostsServiceError::UserNotFound => "user not found".to_owned(),
            PostsServiceError::Unauthorized => "unauthorized: not post author".to_owned(),
        }
    }
}

/// What creating a top-level post makes of a state: member and topic have
/// to exist, in this order of complaint.
pub open spec fn create_post_outcome(
    db: Db,
    id: PostId,
    now: Timestamp,
    user_id: UserId,
    topic_id: TopicId,
    title: Seq<char>,
    body: Seq<char>,
) -> (Db, Result<GroupPostView, PostsServiceError>) {
    let row = GroupPostView {
        id,
        user_id,
        topic_id,
        parent_post_id: None,
        title,
        body,
        created_at: now,
    };
    if !has_user(db.users, user_id) {
        (db, Err(PostsServiceError::UserNotFound))
    } else if !has_topic(db.topics, topic_id) {
        (db, Err(PostsServiceError::TopicNotFound))
    } else {
        match db.insert_post(row) {
            Ok(next) => (next, Ok(row)),
            Err(e) => (db, Err(PostsServiceError::DbError(e))),
        }
    }
}

/// What creating a reply makes of a state: parent and member have to
/// exist, in this order of complaint, and the reply lies in the topic of
/// its parent.
pub open spec fn create_reply_outcome(
    db: Db,
    id: PostId,
    now: Timestamp,
    parent_post_id: PostId,
    user_id: UserId,
    title: Seq<char>,
    body: Seq<char>,
) -> (Db, Result<GroupPostView, PostsServiceError>) {
    match db.post(parent_post_id) {
        None => (db, Err(PostsServiceError::PostNotFound)),
        Some(parent) => {
            let row = GroupPostView {
                id,
                user_id,
                topic_id: parent.topic_id,
                parent_post_id: Some(parent_post_id),
                title,
                body,
                created_at: now,
            };
            if !has_user(db.users, user_id) {
                (db, Err(PostsServiceError::UserNotFound))
            } else {
                match db.insert_post(row) {
                    Ok(next) => (next, Ok(row)),
                    Err(e) => (db, Err(PostsServiceError::DbError(e))),
                }
            }
        },
    }
}

/// What giving a post new text on behalf of a member makes of a state: the
/// post has to exist and the member has to be its author; a part that is
/// not given stays as it is.
pub open spec fn update_post_outcome(
    db: Db,
    post_id: PostId,
    user_id: UserId,
    title: Option<Seq<char>>,
    body: Option<Seq<char>>,
) -> (Db, Result<GroupPostView, PostsServiceError>) {
    match db.post(post_id) {
        None => (db, Err(PostsServiceError::PostNotFound)),
        Some(post) => if post.user_id != user_id {
            (db, Err(PostsServiceError::Unauthorized))
        } else {
            (db.update_post(post_id, title, body), Ok(post.revised(title, body)))
        },
    }
}

/// What deleting a post on behalf of a member makes of a state: the post
/// has to exist and the member has to be its author; the replies go with
/// the post.
pub open spec fn delete_post_outcome(db: Db, post_id: PostId, user_id: UserId) -> (
    Db,
    Result<(), PostsServiceError>,
) {
    match db.post(post_id) {
        None => (db, Err(PostsServiceError::PostNotFound)),
        Some(post) => if post.user_id != user_id {
            (db, Err(PostsServiceError::Unauthorized))
        } else {
            (db.delete_post(post_id), Ok(()))
        },
    }
}

/// Whether the creation times of the rows never step back.
pub open spec fn oldest_first(rows: Seq<GroupPostView>) -> bool {
    forall|a: int, b: int|
        0 <= a < b < rows.len() ==> (#[trigger] rows[a]).created_at.at_or_before(
            (#[trigger] rows[b]).created_at,
        )
}

/// Whether the creation times of the rows never step forward.
pub open spec fn newest_first(rows: Seq<GroupPostView>) -> bool {
    forall|a: int, b: int|
        0 <= a < b < rows.len() ==> (#[trigger] rows[b]).created_at.at_or_before(
            (#[trigger] rows[a]).created_at,
        )
}

/// The post that a member may write at the top of a topic, given what the
/// searches for the member and for the topic found. A missing member is
/// reported before a missing topic.
pub fn new_post(
    id: PostId,
    now: Timestamp,
    user: Option<GroupUserModel>,
    topic: Option<GroupTopicModel>,
    title: String,
    body: String,
) -> (r: Result<GroupPostModel, PostsServiceError>)
    ensures
        result_view(r) == match (user, topic) {
            (None, _) => Err::<GroupPostView, PostsServiceError>(PostsServiceError::UserNotFound),
            (Some(_), None) => Err::<GroupPostView, PostsServiceError>(
                PostsServiceError::TopicNotFound,
            ),
            (Some(u), Some(t)) => Ok::<GroupPostView, PostsServiceError>(
                GroupPostView {
                    id,
                    user_id: u.id,
                    topic_id: t.id,
                    parent_post_id: None,
                    title: title@,
                    body: body@,
                    created_at: now,
                },
            ),
        },
{
    match user {
        None => Err(PostsServiceError::UserNotFound),
        Some(u) => match topic {
            None => Err(PostsServiceError::TopicNotFound),
            Some(t) => Ok(GroupPostModel::top_level(id, u.id, t.id, title, body, now)),
        },
    }
}

/// The reply that a member may write to a post, given what the searches
/// for the post and for the member found. A missing post is reported
/// before a missing member; the reply lies in the topic of the post.
pub fn new_reply(
    id: PostId,
    now: Timestamp,
    parent: Option<&GroupPostModel>,
    user: Option<GroupUserModel>,
    title: String,
    body: String,
) -> (r: Result<GroupPostModel, PostsServiceError>)
    ensures
        result_view(r) == match (parent, user) {
            (None, _) => Err::<GroupPostView, PostsServiceError>(PostsServiceError::PostNotFound),
            (Some(_), None) => Err::<GroupPostView, PostsServiceError>(
                PostsServiceError::UserNotFound,
            ),
            (Some(p), Some(u)) => Ok::<GroupPostView, PostsServiceError>(
                GroupPostView {
                    id,
                    user_id: u.id,
                    topic_id: p.topic_id,
                    parent_post_id: Some(p.id),
                    title: title@,
                    body: body@,
                    created_at: now,
                },
            ),
        },
{
    match parent {
        None => Err(PostsServiceError::PostNotFound),
        Some(p) => match user {
            None => Err(PostsServiceError::UserNotFound),
            Some(u) => Ok(GroupPostModel::reply_to(p, id, u.id, title, body, now)),
        },
    }
}

/// The post that was asked for, given what a search for it found.
pub fn found_post(post: Option<&GroupPostModel>) -> (r: Result<GroupPostModel, PostsServiceError>)
    ensures
        result_view(r) == match post {
            Some(row) => Ok::<GroupPostView, PostsServiceError>(row@),
            None => Err::<GroupPostView, PostsServiceError>(PostsServiceError::PostNotFound),
        },
{
    match post {
        Some(row) => Ok(row.clone()),
        None => Err(PostsServiceError::PostNotFound),
    }
}

/// Whether a member may change or delete a post, given what a search for
/// the post found: the post has to exist, and the member has to be its
/// author. That the post is missing is reported before anything else.
pub fn authorize_author(post: Option<&GroupPostModel>, user_id: UserId) -> (r: Result<
    (),
    PostsServiceError,
>)
    ensures
        r == match post {
            None => Err::<(), PostsServiceError>(PostsServiceError::PostNotFound),
            Some(row) => if row.user_id == user_id {
                Ok::<(), PostsServiceError>(())
            } else {
                Err::<(), PostsServiceError>(PostsServiceError::Unauthorized)
            },
        },
{
    match post {
        None => Err(PostsServiceError::PostNotFound),
        Some(row) => if row.is_by(user_id) {
            Ok(())
        } else {
            Err(PostsServiceError::Unauthorized)
        },
    }
}

/// Creates a top-level post with the given id and creation time.
pub fn create_post_at(
    db: &mut Store,
    id: PostId,
    now: Timestamp,
    user_id: UserId,
    topic_id: TopicId,
    title: String,
    body: String,
) -> (r: Result<GroupPostModel, PostsServiceError>)
    requires
        old(db).wf(),
    ensures
        final(db).wf(),
        final(db)@ == create_post_outcome(old(db)@, id, now, user_id, topic_id, title@, body@).0,
        result_view(r) == create_post_outcome(
            old(db)@,
            id,
            now,
            user_id,
            topic_id,
            title@,
            body@,
        ).1,
{
    let row = match new_post(id, now, db.user(user_id), db.topic(topic_id), title, body) {
        Ok(row) => row,
        Err(e) => {
            return Err(e);
        },
    };
    let copy = row.clone();
    match db.insert_post(row) {
        Ok(()) => Ok(copy),
        Err(e) => Err(PostsServiceError::DbError(e)),
    }
}

/// Creates a top-level post in a topic, written by a member, under a fresh
/// id and with the current time.
pub fn create_post(db: &mut Store, user_id: UserId, topic_id: TopicId, title: String, body: String) -> (r:
    Result<GroupPostModel, PostsServiceError>)
    requires
        old(db).wf(),
    ensures
        final(db).wf(),
        exists|id: PostId, now: Timestamp|
            is_v7(id.0) && final(db)@ == (#[trigger] create_post_outcome(
                old(db)@,
                id,
                now,
                user_id,
                topic_id,
                title@,
                body@,
            )).0 && result_view(r) == create_post_outcome(
                old(db)@,
                id,
                now,
                user_id,
                topic_id,
                title@,
                body@,
            ).1,
{
    let id = PostId::new();
    let now = Timestamp::now();
    create_post_at(db, id, now, user_id, topic_id, title, body)
}

/// Creates a reply with the given id and creation time.
pub fn create_reply_at(
    db: &mut Store,
    id: PostId,
    now: Timestamp,
    parent_post_id: PostId,
    user_id: UserId,
    title: String,
    body: String,
) -> (r: Result<GroupPostModel, PostsServiceError>)
    requires
        old(db).wf(),
    ensures
        final(db).wf(),
        final(db)@ == create_reply_outcome(
            old(db)@,
            id,
            now,
            parent_post_id,
            user_id,
            title@,
            body@,
        ).0,
        result_view(r) == create_reply_outcome(
            old(db)@,
            id,
            now,
            parent_post_id,
            user_id,
            title@,
            body@,
        ).1,
{
    let row = match new_reply(id, now, db.post(parent_post_id), db.user(user_id), title, body) {
        Ok(row) => row,
        Err(e) => {
            return Err(e);
        },
    };
    let copy = row.clone();
    match db.insert_post(row) {
        Ok(()) => Ok(copy),
        Err(e) => Err(PostsServiceError::DbError(e)),
    }
}

/// Creates a reply to a post or to another reply, under a fresh id and with
/// the current time. The reply lies in the topic of its parent.
pub fn create_reply(
    db: &mut Store,
    parent_post_id: PostId,
    user_id: UserId,
    title: String,
    body: String,
) -> (r: Result<GroupPostModel, PostsServiceError>)
    requires
        old(db).wf(),
    ensures
        final(db).wf(),
        exists|id: PostId, now: Timestamp|
            is_v7(id.0) && final(db)@ == (#[trigger] create_reply_outcome(
                old(db)@,
                id,
                now,
                parent_post_id,
                user_id,
                title@,
                body@,
            )).0 && result_view(r) == create_reply_outcome(
                old(db)@,
                id,
                now,
                parent_post_id,
                user_id,
                title@,
                body@,
            ).1,
{
    let id = PostId::new();
    let now = Timestamp::now();
    create_reply_at(db, id, now, parent_post_id, user_id, title, body)
}

/// The post with the given id.
pub fn get_post(db: &Store, post_id: PostId) -> (r: Result<GroupPostModel, PostsServiceError>)
    requires
        db.wf(),
    ensures
        result_view(r) == match db@.post(post_id) {
            Some(row) => Ok::<GroupPostView, PostsServiceError>(row),
            None => Err::<GroupPostView, PostsServiceError>(PostsServiceError::PostNotFound),
        },
{
    found_post(db.post(post_id))
}

/// Gives a post a new title, a new body, both or neither, on behalf of a
/// member, who has to be its author.
pub fn update_post(
    db: &mut Store,
    post_id: PostId,
    user_id: UserId,
    title: Option<String>,
    body: Option<String>,
) -> (r: Result<GroupPostModel, PostsServiceError>)
    requires
        old(db).wf(),
    ensures
        final(db).wf(),
        final(db)@ == update_post_outcome(
            old(db)@,
            post_id,
            user_id,
            text_view(title),
            text_view(body),
        ).0,
        result_view(r) == update_post_outcome(
            old(db)@,
            post_id,
            user_id,
            text_view(title),
            text_view(body),
        ).1,
{
    match authorize_author(db.post(post_id), user_id) {
        Ok(()) => {},
        Err(e) => {
            return Err(e);
        },
    }
    proof {
        lemma_update_post_reads(db@, post_id, text_view(title), text_view(body));
    }
    db.update_post(post_id, title, body);
    found_post(db.post(post_id))
}

/// Deletes a post on behalf of a member, who has to be its author. The
/// replies to the post go with it.
pub fn delete_post(db: &mut Store, post_id: PostId, user_id: UserId) -> (r: Result<
    (),
    PostsServiceError,
>)
    requires
        old(db).wf(),
    ensures
        final(db).wf(),
        final(db)@ == delete_post_outcome(old(db)@, post_id, user_id).0,
        r == delete_post_outcome(old(db)@, post_id, user_id).1,
{
    match authorize_author(db.post(post_id), user_id) {
        Ok(()) => {
            db.delete_post(post_id);
            Ok(())
        },
        Err(e) => Err(e),
    }
}

/// A page of the posts of a topic, replies included, oldest first.
pub fn list_posts_for_topic(db: &Store, topic_id: TopicId, limit: u64, offset: u64) -> (r: Result<
    Vec<GroupPostModel>,
    PostsServiceError,
>)
    ensures
        r matches Ok(rows) && post_views(rows@) == db@.select_posts(
            post_in_topic(topic_id),
            false,
            limit,
            offset,
        ) && oldest_first(post_views(rows@)) && rows@.len() <= limit,
{
    proof {
        lemma_select_posts(db@, post_in_topic(topic_id), false, limit, offset);
    }
    Ok(db.select_posts(PostFilter::InTopic(topic_id), false, limit, offset))
}

/// A page of the posts of a topic that are no replies, oldest first.
pub fn list_top_level_posts(db: &Store, topic_id: TopicId, limit: u64, offset: u64) -> (r: Result<
    Vec<GroupPostModel>,
    PostsServiceError,
>)
    ensures
        r matches Ok(rows) && post_views(rows@) == db@.select_posts(
            post_at_top_of(topic_id),
            false,
            limit,
            offset,
        ) && oldest_first(post_views(rows@)) && rows@.len() <= limit && forall|k: int|
            0 <= k < rows@.len() ==> (#[trigger] rows@[k]).parent_post_id is None,
{
    proof {
        lemma_select_posts(db@, post_at_top_of(topic_id), false, limit, offset);
    }
    let rows = db.select_posts(PostFilter::AtTopOf(topic_id), false, limit, offset);
    proof {
        assert forall|k: int| 0 <= k < rows@.len() implies (#[trigger] rows@[k]).parent_post_id is None by {
            assert(post_views(rows@)[k] == rows@[k]@);
        }
    }
    Ok(rows)
}

/// A page of the direct replies to a post, oldest first.
pub fn list_replies(db: &Store, post_id: PostId, limit: u64, offset: u64) -> (r: Result<
    Vec<GroupPostModel>,
    PostsServiceError,
>)
    ensures
        r matches Ok(rows) && post_views(rows@) == db@.select_posts(
            post_replying_to(post_id),
            false,
            limit,
            offset,
        ) && oldest_first(post_views(rows@)) && rows@.len() <= limit,
{
    proof {
        lemma_select_posts(db@, post_replying_to(post_id), false, limit, offset);
    }
    Ok(db.select_posts(PostFilter::RepliesTo(post_id), false, limit, offset))
}

/// A page of the posts written under a membership, newest first.
pub fn list_posts_by_user(db: &Store, user_id: UserId, limit: u64, offset: u64) -> (r: Result<
    Vec<GroupPostModel>,
    PostsServiceError,
>)
    ensures
        r matches Ok(rows) && post_views(rows@) == db@.select_posts(
            post_written_by(user_id),
            true,
            limit,
            offset,
        ) && newest_first(post_views(rows@)) && rows@.len() <= limit,
{
    proof {
        lemma_select_posts(db@, post_written_by(user_id), true, limit, offset);
    }
    Ok(db.select_posts(PostFilter::WrittenBy(user_id), true, limit, offset))
}

/// How many posts a topic holds, replies included.
pub fn count_posts_in_topic(db: &Store, topic_id: TopicId) -> (r: Result<u64, PostsServiceError>)
    ensures
        r matches Ok(n) && n == db@.posts.filter(post_in_topic(topic_id)).len(),
{
    Ok(db.count_posts(PostFilter::InTopic(topic_id)) as u64)
}

/// How many posts were written under a membership.
pub fn count_posts_by_user(db: &Store, user_id: UserId) -> (r: Result<u64, PostsServiceError>)
    ensures
        r matches Ok(n) && n == db@.posts.filter(post_written_by(user_id)).len(),
{
    Ok(db.count_posts(PostFilter::WrittenBy(user_id)) as u64)
}

/// How many direct replies a post has.
pub fn count_replies(db: &Store, post_id: PostId) -> (r: Result<u64, PostsServiceError>)
    ensures
        r matches Ok(n) && n == db@.posts.filter(post_replying_to(post_id)).len(),
{
    Ok(db.count_posts(PostFilter::RepliesTo(post_id)) as u64)
}

} // verus!
