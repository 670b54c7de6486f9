use crate::db::{lemma_select_topics, lemma_topic_joins, topic_inside, topic_started_by, Db};
use crate::entity::{view_of, GroupTopicModel};
use crate::error::DbErr;
use crate::ids::{GroupId, ProfileId, TopicId};
use crate::outside::is_v7;
use crate::store::{Store, TopicFilter};
use crate::timestamp::Timestamp;
use vstd::prelude::*;

verus! {

/// Why a statement on topics failed.
#[derive(Clone, Copy, Debug, PartialEq, Eq, Structural)]
pub enum TopicError {
    DatabaseError(DbErr),
}

/// A topic row.
pub type Topic = GroupTopicModel;

/// A topic as it is read: the row, with the name and the description of
/// the profile that started it.
#[derive(Debug, PartialEq, Eq)]
pub struct TopicView {
    pub id: TopicId,
    pub group_id: GroupId,
    pub profile_id: ProfileId,
    pub profile_name: String,
    pub profile_desc: String,
    pub created_at: Timestamp,
}

/// A topic as it is read, as a mathematical value.
pub struct JoinedTopic {
    pub id: TopicId,
    pub group_id: GroupId,
    pub profile_id: ProfileId,
    pub profile_name: Seq<char>,
    pub profile_desc: Seq<char>,
    pub created_at: Timestamp,
}

impl View for TopicView {
    type V = JoinedTopic;

    open spec fn view(&self) -> JoinedTopic {
        JoinedTopic {
            id: self.id,
            group_id: self.group_id,
            profile_id: self.profile_id,
            profile_name: self.profile_name@,
            profile_desc: self.profile_desc@,
            created_at: self.created_at,
        }
    }
}

/// A topic row joined with the profile that started it; `None` where that
/// profile is not stored, which the constraints of the schema rule out for
/// a stored topic.
pub open spec fn joined_topic(db: Db, row: GroupTopicModel) -> Option<JoinedTopic> {
    match db.profile(row.profile_id) {
        Some(starter) => Some(
            JoinedTopic {
                id: row.id,
                group_id: row.group_id,
                profile_id: row.profile_id,
                profile_name: starter.name,
                profile_desc: starter.desc,
                created_at: row.created_at,
            },
        ),
        None => None,
    }
}

/// The topics of the rows, each joined with the profile that started it.
pub open spec fn joined_topics(db: Db, rows: Seq<GroupTopicModel>) -> Seq<JoinedTopic> {
    Seq::new(rows.len(), |i: int| joined_topic(db, rows[i])->Some_0)
}

/// The views of topics as they are read.
pub open spec fn topic_views(topics: Seq<TopicView>) -> Seq<JoinedTopic> {
    Seq::new(topics.len(), |i: int| topics[i]@)
}

/// Whether the creation times of the topics never step forward.
pub open spec fn newest_topics_first(rows: Seq<JoinedTopic>) -> bool {
    forall|a: int, b: int|
        0 <= a < b < rows.len() ==> (#[trigger] rows[b]).created_at.at_or_before(
            (#[trigger] rows[a]).created_at,
        )
}

/// What inserting a topic with the given id and creation time makes of a
/// state.
pub open spec fn topic_create_outcome(
    db: Db,
    id: TopicId,
    now: Timestamp,
    group_id: GroupId,
    profile_id: ProfileId,
) -> (Db, Result<Topic, TopicError>) {
    let row = GroupTopicModel { id, group_id, profile_id, created_at: now };
    match db.insert_topic(row) {
        Ok(next) => (next, Ok(row)),
        Err(e) => (db, Err(TopicError::DatabaseError(e))),
    }
}

impl Topic {
    fn join(row: &GroupTopicModel, conn: &Store) -> (r: Option<TopicView>)
        requires
            conn.wf(),
        ensures
            view_of(r) == joined_topic(conn@, *row),
    {
        match conn.profile(row.profile_id) {
            Some(starter) => Some(
                TopicView {
                    id: row.id,
                    group_id: row.group_id,
                    profile_id: row.profile_id,
                    profile_name: starter.name.clone(),
                    profile_desc: starter.desc.clone(),
                    created_at: row.created_at,
                },
            ),
            None => None,
        }
    }

    fn list(filter: TopicFilter, limit: u64, offset: u64, conn: &Store) -> (r: Vec<TopicView>)
        requires
            conn.wf(),
        ensures
            topic_views(r@) == joined_topics(
                conn@,
                conn@.select_topics(filter.keeps(), true, limit, offset),
            ),
            newest_topics_first(topic_views(r@)),
            r@.len() <= limit,
    {
        let rows = conn.select_topics(filter, true, limit, offset);
        proof {
            lemma_select_topics(conn@, filter.keeps(), true, limit, offset);
        }
        let mut topics: Vec<TopicView> = Vec::new();
        let mut i: usize = 0;
        while i < rows.len()
            invariant
                0 <= i <= rows@.len(),
                conn.wf(),
                forall|k: int| 0 <= k < rows@.len() ==> conn@.topics.contains(#[trigger] rows@[k]),
                topics@.len() == i,
                forall|k: int|
                    0 <= k < i ==> Some(topics@[k]@) == joined_topic(conn@, #[trigger] rows@[k]),
            decreases rows@.len() - i,
        {
            proof {
                lemma_topic_joins(conn@, rows@[i as int]);
            }
            match Topic::join(&rows[i], conn) {
                Some(topic) => {
                    topics.push(topic);
                },
                None => {},
            }
            i += 1;
        }
        proof {
            assert(topic_views(topics@) =~= joined_topics(conn@, rows@));
        }
        topics
    }

    /// Inserts a topic with the given id and creation time.
    pub fn create_at(
        id: TopicId,
        now: Timestamp,
        group_id: GroupId,
        profile_id: ProfileId,
        conn: &mut Store,
    ) -> (r: Result<Topic, TopicError>)
        requires
            old(conn).wf(),
        ensures
            final(conn).wf(),
            final(conn)@ == topic_create_outcome(old(conn)@, id, now, group_id, profile_id).0,
            r == topic_create_outcome(old(conn)@, id, now, group_id, profile_id).1,
    {
        let row = GroupTopicModel { id, group_id, profile_id, created_at: now };
        match conn.insert_topic(row) {
            Ok(()) => Ok(row),
            Err(e) => Err(TopicError::DatabaseError(e)),
        }
    }

    /// Starts a topic in a group, under a fresh id and with the current
    /// time.
    pub fn create(group_id: GroupId, profile_id: ProfileId, conn: &mut Store) -> (r: Result<
        Topic,
        TopicError,
    >)
        requires
            old(conn).wf(),
        ensures
            final(conn).wf(),
            exists|id: TopicId, now: Timestamp|
                is_v7(id.0) && final(conn)@ == (#[trigger] topic_create_outcome(
                    old(conn)@,
                    id,
                    now,
                    group_id,
                    profile_id,
                )).0 && r == topic_create_outcome(old(conn)@, id, now, group_id, profile_id).1,
    {
        let id = TopicId::new();
        let now = Timestamp::now();
        Topic::create_at(id, now, group_id, profile_id, conn)
    }

    /// The topic with the given id, joined with the profile that started
    /// it, if there is one.
    pub fn by_id(id: &TopicId, conn: &Store) -> (r: Result<Option<TopicView>, TopicError>)
        requires
            conn.wf(),
        ensures
            r matches Ok(found) && view_of(found) == match conn@.topic(*id) {
                Some(row) => joined_topic(conn@, row),
                None => None,
            },
    {
        match conn.topic(*id) {
            Some(row) => Ok(Topic::join(&row, conn)),
            None => Ok(None),
        }
    }

    /// A page of the topics of a group, newest first.
    pub fn list_for_group(group_id: &GroupId, limit: u64, offset: u64, conn: &Store) -> (r: Result<
        Vec<TopicView>,
        TopicError,
    >)
        requires
            conn.wf(),
        ensures
            r matches Ok(topics) && topic_views(topics@) == joined_topics(
                conn@,
                conn@.select_topics(topic_inside(*group_id), true, limit, offset),
            ) && newest_topics_first(topic_views(topics@)) && topics@.len() <= limit,
    {
        Ok(Topic::list(TopicFilter::InGroup(*group_id), limit, offset, conn))
    }

    /// The newest topics of a group, at most `limit` of them.
    pub fn latest_for_group(group_id: &GroupId, limit: u64, conn: &Store) -> (r: Result<
        Vec<TopicView>,
        TopicError,
    >)
        requires
            conn.wf(),
        ensures
            r matches Ok(topics) && topic_views(topics@) == joined_topics(
                conn@,
                conn@.select_topics(topic_inside(*group_id), true, limit, 0),
            ) && newest_topics_first(topic_views(topics@)) && topics@.len() <= limit,
    {
        Topic::list_for_group(group_id, limit, 0, conn)
    }

    /// A page of the topics that a profile started, newest first.
    pub fn list_for_profile(profile_id: &ProfileId, limit: u64, offset: u64, conn: &Store) -> (r:
        Result<Vec<TopicView>, TopicError>)
        requires
            conn.wf(),
        ensures
            r matches Ok(topics) && topic_views(topics@) == joined_topics(
                conn@,
                conn@.select_topics(topic_started_by(*profile_id), true, limit, offset),
            ) && newest_topics_first(topic_views(topics@)) && topics@.len() <= limit,
    {
        Ok(Topic::list(TopicFilter::StartedBy(*profile_id), limit, offset, conn))
    }

    /// Deletes a topic and its posts. Nothing changes if there is no such
    /// topic.
    pub fn delete(id: &TopicId, conn: &mut Store) -> (r: Result<(), TopicError>)
        requires
            old(conn).wf(),
        ensures
            final(conn).wf(),
            r is Ok,
            final(conn)@ == old(conn)@.delete_topic(*id),
    {
        conn.delete_topic(*id);
        Ok(())
    }
}

} // verus!
