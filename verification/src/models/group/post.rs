use crate::db::{lemma_post_joins, lemma_select_posts, post_in_topic, post_written_by, Db};
use crate::entity::{post_views, result_view, view_of, GroupPostModel, GroupPostView};
use crate::error::DbErr;
use crate::ids::{PostId, TopicId, UserId};
use crate::outside::is_v7;
use crate::store::{PostFilter, Store};
use crate::timestamp::Timestamp;
use vstd::prelude::*;

verus! {

/// Why a statement on posts failed.
#[derive(Clone, Copy, Debug, PartialEq, Eq, Structural)]
pub enum PostError {
    DatabaseError(DbErr),
}

/// A post row.
pub type Post = GroupPostModel;

/// A post as it is read: the row, with the name of the profile that wrote
/// it and the name and the description of the profile that started its
/// topic.
#[derive(Debug, PartialEq, Eq)]
pub struct PostView {
    pub id: PostId,
    pub user_id: UserId,
    pub user_profile_name: String,
    pub topic_id: TopicId,
    pub topic_profile_name: String,
    pub topic_profile_desc: String,
    pub title: String,
    pub body: String,
    pub created_at: Timestamp,
}

/// A post as it is read, as a mathematical value.
pub struct JoinedPost {
    pub id: PostId,
    pub user_id: UserId,
    pub user_profile_name: Seq<char>,
    pub topic_id: TopicId,
    pub topic_profile_name: Seq<char>,
    pub topic_profile_desc: Seq<char>,
    pub title: Seq<char>,
    pub body: Seq<char>,
    pub created_at: Timestamp,
}

impl View for PostView {
    type V = JoinedPost;

    open spec fn view(&self) -> JoinedPost {
        JoinedPost {
            id: self.id,
            user_id: self.user_id,
            user_profile_name: self.user_profile_name@,
            topic_id: self.topic_id,
            topic_profile_name: self.topic_profile_name@,
            topic_profile_desc: self.topic_profile_desc@,
            title: self.title@,
            body: self.body@,
            created_at: self.created_at,
        }
    }
}

/// A post row joined with its author and with the starter of its topic;
/// `None` where one of the rows on the way is not stored, which the
/// constraints of the schema rule out for a stored post.
pub open spec fn joined_post(db: Db, row: GroupPostView) -> Option<JoinedPost> {
    match (db.user(row.user_id), db.topic(row.topic_id)) {
        (Some(user), Some(topic)) => match (
            db.profile(user.profile_id),
            db.profile(topic.profile_id),
        ) {
            (Some(author), Some(starter)) => Some(
                JoinedPost {
                    id: row.id,
                    user_id: row.user_id,
                    user_profile_name: author.name,
                    topic_id: row.topic_id,
                    topic_profile_name: starter.name,
                    topic_profile_desc: starter.desc,
                    title: row.title,
                    body: row.body,
                    created_at: row.created_at,
                },
            ),
            _ => None,
        },
        _ => None,
    }
}

/// The posts of the rows, each joined with its author and with the starter
/// of its topic.
pub open spec fn joined_posts(db: Db, rows: Seq<GroupPostView>) -> Seq<JoinedPost> {
    Seq::new(rows.len(), |i: int| joined_post(db, rows[i])->Some_0)
}

/// The views of posts as they are read.
pub open spec fn joined_views(posts: Seq<PostView>) -> Seq<JoinedPost> {
    Seq::new(posts.len(), |i: int| posts[i]@)
}

/// Whether the creation times of the posts never step against the
/// direction of the listing.
pub open spec fn posts_in_order(rows: Seq<JoinedPost>, newest_first: bool) -> bool {
    forall|a: int, b: int|
        0 <= a < b < rows.len() ==> if newest_first {
            (#[trigger] rows[b]).created_at.at_or_before((#[trigger] rows[a]).created_at)
        } else {
            rows[a].created_at.at_or_before(rows[b].created_at)
        }
}

/// What inserting a top-level post with the given id and creation time
/// makes of a state.
pub open spec fn post_create_outcome(
    db: Db,
    id: PostId,
    now: Timestamp,
    user_id: UserId,
    topic_id: TopicId,
    title: Seq<char>,
    body: Seq<char>,
) -> (Db, Result<GroupPostView, PostError>) {
    let row = GroupPostView {
        id,
        user_id,
        topic_id,
        parent_post_id: None,
        title,
        body,
        created_at: now,
    };
    match db.insert_post(row) {
        Ok(next) => (next, Ok(row)),
        Err(e) => (db, Err(PostError::DatabaseError(e))),
    }
}

impl Post {
    fn join(row: &GroupPostModel, conn: &Store) -> (r: Option<PostView>)
        requires
            conn.wf(),
        ensures
            view_of(r) == joined_post(conn@, row@),
    {
        let user = match conn.user(row.user_id) {
            Some(user) => user,
            None => {
                return None;
            },
        };
        let topic = match conn.topic(row.topic_id) {
            Some(topic) => topic,
            None => {
                return None;
            },
        };
        let author = match conn.profile(user.profile_id) {
            Some(author) => author,
            None => {
                return None;
            },
        };
        let starter = match conn.profile(topic.profile_id) {
            Some(starter) => starter,
            None => {
                return None;
            },
        };
        Some(
            PostView {
                id: row.id,
                user_id: row.user_id,
                user_profile_name: author.name.clone(),
                topic_id: row.topic_id,
                topic_profile_name: starter.name.clone(),
                topic_profile_desc: starter.desc.clone(),
                title: row.title.clone(),
                body: row.body.clone(),
                created_at: row.created_at,
            },
        )
    }

    fn list(filter: PostFilter, newest_first: bool, limit: u64, offset: u64, conn: &Store) -> (r:
        Vec<PostView>)
        requires
            conn.wf(),
        ensures
            joined_views(r@) == joined_posts(
                conn@,
                conn@.select_posts(filter.keeps(), newest_first, limit, offset),
            ),
            posts_in_order(joined_views(r@), newest_first),
            r@.len() <= limit,
    {
        let rows = conn.select_posts(filter, newest_first, limit, offset);
        let ghost wanted = conn@.select_posts(filter.keeps(), newest_first, limit, offset);
        proof {
            lemma_select_posts(conn@, filter.keeps(), newest_first, limit, offset);
        }
        let mut posts: Vec<PostView> = Vec::new();
        let mut i: usize = 0;
        while i < rows.len()
            invariant
                0 <= i <= rows@.len(),
                conn.wf(),
                post_views(rows@) == wanted,
                forall|k: int| 0 <= k < wanted.len() ==> conn@.posts.contains(#[trigger] wanted[k]),
                posts@.len() == i,
                forall|k: int|
                    0 <= k < i ==> Some(posts@[k]@) == joined_post(conn@, #[trigger] wanted[k]),
            decreases rows@.len() - i,
        {
            proof {
                assert(wanted[i as int] == rows@[i as int]@);
                lemma_post_joins(conn@, wanted[i as int]);
            }
            match Post::join(&rows[i], conn) {
                Some(post) => {
                    posts.push(post);
                },
                None => {},
            }
            i += 1;
        }
        proof {
            assert(joined_views(posts@) =~= joined_posts(conn@, wanted));
            assert forall|a: int, b: int| 0 <= a < b < posts@.len() implies if newest_first {
                (#[trigger] joined_views(posts@)[b]).created_at.at_or_before(
                    (#[trigger] joined_views(posts@)[a]).created_at,
                )
            } else {
                joined_views(posts@)[a].created_at.at_or_before(joined_views(posts@)[b].created_at)
            } by {
                assert(joined_views(posts@)[a].created_at == wanted[a].created_at);
                assert(joined_views(posts@)[b].created_at == wanted[b].created_at);
            }
        }
        posts
    }

    /// Inserts a top-level post with the given id and creation time.
    pub fn create_at(
        id: PostId,
        now: Timestamp,
        user_id: UserId,
        topic_id: TopicId,
        title: String,
        body: String,
        conn: &mut Store,
    ) -> (r: Result<Post, PostError>)
        requires
            old(conn).wf(),
        ensures
            final(conn).wf(),
            final(conn)@ == post_create_outcome(
                old(conn)@,
                id,
                now,
                user_id,
                topic_id,
                title@,
                body@,
            ).0,
            result_view(r) == post_create_outcome(
                old(conn)@,
                id,
                now,
                user_id,
                topic_id,
                title@,
                body@,
            ).1,
    {
        let row = GroupPostModel::top_level(id, user_id, topic_id, title, body, now);
        let copy = row.clone();
        match conn.insert_post(row) {
            Ok(()) => Ok(copy),
            Err(e) => Err(PostError::DatabaseError(e)),
        }
    }

    /// Inserts a top-level post under a fresh id and with the current time.
    pub fn create(user_id: UserId, topic_id: TopicId, title: String, body: String, conn: &mut Store) -> (r:
        Result<Post, PostError>)
        requires
            old(conn).wf(),
        ensures
            final(conn).wf(),
            exists|id: PostId, now: Timestamp|
                is_v7(id.0) && final(conn)@ == (#[trigger] post_create_outcome(
                    old(conn)@,
                    id,
                    now,
                    user_id,
                    topic_id,
                    title@,
                    body@,
                )).0 && result_view(r) == post_create_outcome(
                    old(conn)@,
                    id,
                    now,
                    user_id,
                    topic_id,
                    title@,
                    body@,
                ).1,
    {
        let id = PostId::new();
        let now = Timestamp::now();
        Post::create_at(id, now, user_id, topic_id, title, body, conn)
    }

    /// The post with the given id, joined with its author and with the
    /// starter of its topic, if there is one.
    pub fn by_id(id: &PostId, conn: &Store) -> (r: Result<Option<PostView>, PostError>)
        requires
            conn.wf(),
        ensures
            r matches Ok(found) && view_of(found) == match conn@.post(*id) {
                Some(row) => joined_post(conn@, row),
                None => None,
            },
    {
        match conn.post(*id) {
            Some(row) => Ok(Post::join(row, conn)),
            None => Ok(None),
        }
    }

    /// A page of the posts of a topic, oldest first.
    pub fn list_for_topic(topic_id: &TopicId, limit: u64, offset: u64, conn: &Store) -> (r: Result<
        Vec<PostView>,
        PostError,
    >)
        requires
            conn.wf(),
        ensures
            r matches Ok(posts) && joined_views(posts@) == joined_posts(
                conn@,
                conn@.select_posts(post_in_topic(*topic_id), false, limit, offset),
            ) && posts_in_order(joined_views(posts@), false) && posts@.len() <= limit,
    {
        Ok(Post::list(PostFilter::InTopic(*topic_id), false, limit, offset, conn))
    }

    /// A page of the posts written under a membership, newest first.
    pub fn list_for_user(user_id: &UserId, limit: u64, offset: u64, conn: &Store) -> (r: Result<
        Vec<PostView>,
        PostError,
    >)
        requires
            conn.wf(),
        ensures
            r matches Ok(posts) && joined_views(posts@) == joined_posts(
                conn@,
                conn@.select_posts(post_written_by(*user_id), true, limit, offset),
            ) && posts_in_order(joined_views(posts@), true) && posts@.len() <= limit,
    {
        Ok(Post::list(PostFilter::WrittenBy(*user_id), true, limit, offset, conn))
    }

    /// Deletes a post and the replies to it. Nothing changes if there is
    /// no such post.
    pub fn delete(id: &PostId, conn: &mut Store) -> (r: Result<(), PostError>)
        requires
            old(conn).wf(),
        ensures
            final(conn).wf(),
            r is Ok,
            final(conn)@ == old(conn)@.delete_post(*id),
    {
        conn.delete_post(*id);
        Ok(())
    }
}

} // verus!
