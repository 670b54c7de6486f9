//! The relational state as a mathematical value: eight tables, the
//! constraints of the schema, and what each statement makes of a state.

use crate::entity::{
    GroupAdminModel, GroupBannedModel, GroupModel, GroupPostView, GroupTopicModel, GroupUserModel,
    IdentityModel, ProfileView,
};
use crate::error::DbErr;
use crate::ids::{GroupId, NodeId, PostId, ProfileId, TopicId, UserId};
use crate::order::{comes_after, lemma_arranged, listing, page};
use crate::relation::{lemma_kept, lemma_origin, lemma_origin_increases, lemma_rank_monotone, origin, rank};
use crate::timestamp::Timestamp;
use vstd::prelude::*;

verus! {

/// The eight tables. Each holds its rows in the order in which they were
/// inserted.
#[verifier::ext_equal]
pub struct Db {
    pub profiles: Seq<ProfileView>,
    pub identities: Seq<IdentityModel>,
    pub groups: Seq<GroupModel>,
    pub admins: Seq<GroupAdminModel>,
    pub banned: Seq<GroupBannedModel>,
    pub users: Seq<GroupUserModel>,
    pub topics: Seq<GroupTopicModel>,
    pub posts: Seq<GroupPostView>,
}

// ---------------------------------------------------------------- presence

pub open spec fn has_profile(profiles: Seq<ProfileView>, id: ProfileId) -> bool {
    exists|i: int| 0 <= i < profiles.len() && profiles[i].id == id
}

pub open spec fn has_profile_named(profiles: Seq<ProfileView>, name: Seq<char>) -> bool {
    exists|i: int| 0 <= i < profiles.len() && profiles[i].name == name
}

pub open spec fn has_owner(identities: Seq<IdentityModel>, profile_id: ProfileId) -> bool {
    exists|i: int| 0 <= i < identities.len() && identities[i].profile_id == profile_id
}

pub open spec fn has_group(groups: Seq<GroupModel>, id: GroupId) -> bool {
    exists|i: int| 0 <= i < groups.len() && groups[i].id == id
}

pub open spec fn has_user(users: Seq<GroupUserModel>, id: UserId) -> bool {
    exists|i: int| 0 <= i < users.len() && users[i].id == id
}

pub open spec fn has_member(
    users: Seq<GroupUserModel>,
    group_id: GroupId,
    profile_id: ProfileId,
) -> bool {
    exists|i: int|
        0 <= i < users.len() && users[i].group_id == group_id && users[i].profile_id == profile_id
}

pub open spec fn has_topic(topics: Seq<GroupTopicModel>, id: TopicId) -> bool {
    exists|i: int| 0 <= i < topics.len() && topics[i].id == id
}

pub open spec fn has_post(posts: Seq<GroupPostView>, id: PostId) -> bool {
    exists|i: int| 0 <= i < posts.len() && posts[i].id == id
}

/// Whether one of the first `before` posts has the given id and lies in the
/// given topic.
pub open spec fn has_parent(
    posts: Seq<GroupPostView>,
    id: PostId,
    topic_id: TopicId,
    before: int,
) -> bool {
    exists|j: int| 0 <= j < before && j < posts.len() && posts[j].id == id && posts[j].topic_id == topic_id
}

// ------------------------------------------------------------- constraints

/// No two profiles share an id or a name.
pub open spec fn profiles_ok(profiles: Seq<ProfileView>) -> bool {
    forall|i: int, j: int|
        0 <= i < j < profiles.len() ==> profiles[i].id != profiles[j].id && profiles[i].name
            != profiles[j].name
}

/// No profile has two owners.
pub open spec fn identities_ok(identities: Seq<IdentityModel>) -> bool {
    forall|i: int, j: int|
        0 <= i < j < identities.len() ==> identities[i].profile_id != identities[j].profile_id
}

/// No two groups share an id.
pub open spec fn groups_ok(groups: Seq<GroupModel>) -> bool {
    forall|i: int, j: int| 0 <= i < j < groups.len() ==> groups[i].id != groups[j].id
}

/// No admin row occurs twice, and each belongs to a group that exists.
pub open spec fn admins_ok(admins: Seq<GroupAdminModel>, groups: Seq<GroupModel>) -> bool {
    &&& forall|i: int, j: int| 0 <= i < j < admins.len() ==> admins[i] != admins[j]
    &&& forall|i: int| 0 <= i < admins.len() ==> has_group(groups, #[trigger] admins[i].group_id)
}

/// No ban occurs twice, and each belongs to a group that exists.
pub open spec fn banned_ok(banned: Seq<GroupBannedModel>, groups: Seq<GroupModel>) -> bool {
    &&& forall|i: int, j: int| 0 <= i < j < banned.len() ==> banned[i] != banned[j]
    &&& forall|i: int| 0 <= i < banned.len() ==> has_group(groups, #[trigger] banned[i].group_id)
}

/// No two memberships share an id, or both group and profile; each joins a
/// profile that exists to a group that exists.
pub open spec fn users_ok(
    users: Seq<GroupUserModel>,
    groups: Seq<GroupModel>,
    profiles: Seq<ProfileView>,
) -> bool {
    &&& forall|i: int, j: int|
        0 <= i < j < users.len() ==> users[i].id != users[j].id && !(users[i].group_id
            == users[j].group_id && users[i].profile_id == users[j].profile_id)
    &&& forall|i: int|
        0 <= i < users.len() ==> has_group(groups, #[trigger] users[i].group_id) && has_profile(
            profiles,
            users[i].profile_id,
        )
}

/// No two topics share an id; each lies in a group that exists and was
/// started by a profile that exists.
pub open spec fn topics_ok(
    topics: Seq<GroupTopicModel>,
    groups: Seq<GroupModel>,
    profiles: Seq<ProfileView>,
) -> bool {
    &&& forall|i: int, j: int| 0 <= i < j < topics.len() ==> topics[i].id != topics[j].id
    &&& forall|i: int|
        0 <= i < topics.len() ==> has_group(groups, #[trigger] topics[i].group_id) && has_profile(
            profiles,
            topics[i].profile_id,
        )
}

/// No two posts share an id; each was written by a member that exists, in a
/// topic that exists; and the parent of a reply is an earlier post of the
/// same topic.
pub open spec fn posts_ok(
    posts: Seq<GroupPostView>,
    users: Seq<GroupUserModel>,
    topics: Seq<GroupTopicModel>,
) -> bool {
    &&& forall|i: int, j: int| 0 <= i < j < posts.len() ==> posts[i].id != posts[j].id
    &&& forall|i: int|
        0 <= i < posts.len() ==> has_user(users, #[trigger] posts[i].user_id) && has_topic(
            topics,
            posts[i].topic_id,
        )
    &&& forall|i: int|
        0 <= i < posts.len() ==> ((#[trigger] posts[i]).parent_post_id matches Some(parent)
            ==> has_parent(posts, parent, posts[i].topic_id, i))
}

impl Db {
    pub open spec fn empty() -> Db {
        Db {
            profiles: Seq::empty(),
            identities: Seq::empty(),
            groups: Seq::empty(),
            admins: Seq::empty(),
            banned: Seq::empty(),
            users: Seq::empty(),
            topics: Seq::empty(),
            posts: Seq::empty(),
        }
    }

    /// The constraints of the schema: unique keys and columns, and references
    /// that hold.
    pub open spec fn wf(self) -> bool {
        &&& profiles_ok(self.profiles)
        &&& identities_ok(self.identities)
        &&& groups_ok(self.groups)
        &&& admins_ok(self.admins, self.groups)
        &&& banned_ok(self.banned, self.groups)
        &&& users_ok(self.users, self.groups, self.profiles)
        &&& topics_ok(self.topics, self.groups, self.profiles)
        &&& posts_ok(self.posts, self.users, self.topics)
    }

    // ----------------------------------------------------------- lookups

    pub open spec fn profile(self, id: ProfileId) -> Option<ProfileView> {
        if has_profile(self.profiles, id) {
            Some(self.profiles[choose|i: int| 0 <= i < self.profiles.len() && self.profiles[i].id == id])
        } else {
            None
        }
    }

    pub open spec fn profile_named(self, name: Seq<char>) -> Option<ProfileView> {
        if has_profile_named(self.profiles, name) {
            Some(
                self.profiles[choose|i: int|
                    0 <= i < self.profiles.len() && self.profiles[i].name == name],
            )
        } else {
            None
        }
    }

    /// The link of a profile to its owner.
    pub open spec fn owner(self, profile_id: ProfileId) -> Option<IdentityModel> {
        if has_owner(self.identities, profile_id) {
            Some(
                self.identities[choose|i: int|
                    0 <= i < self.identities.len() && self.identities[i].profile_id == profile_id],
            )
        } else {
            None
        }
    }

    pub open spec fn group(self, id: GroupId) -> Option<GroupModel> {
        if has_group(self.groups, id) {
            Some(self.groups[choose|i: int| 0 <= i < self.groups.len() && self.groups[i].id == id])
        } else {
            None
        }
    }

    pub open spec fn user(self, id: UserId) -> Option<GroupUserModel> {
        if has_user(self.users, id) {
            Some(self.users[choose|i: int| 0 <= i < self.users.len() && self.users[i].id == id])
        } else {
            None
        }
    }

    pub open spec fn topic(self, id: TopicId) -> Option<GroupTopicModel> {
        if has_topic(self.topics, id) {
            Some(self.topics[choose|i: int| 0 <= i < self.topics.len() && self.topics[i].id == id])
        } else {
            None
        }
    }

    pub open spec fn post(self, id: PostId) -> Option<GroupPostView> {
        if has_post(self.posts, id) {
            Some(self.posts[choose|i: int| 0 <= i < self.posts.len() && self.posts[i].id == id])
        } else {
            None
        }
    }

    /// Whether the profile is an admin of the group.
    pub open spec fn is_admin(self, group_id: GroupId, profile_id: ProfileId) -> bool {
        self.admins.contains(GroupAdminModel { group_id, identity_id: profile_id })
    }

    /// Whether the group has banned the profile.
    pub open spec fn is_banned(self, group_id: GroupId, profile_id: ProfileId) -> bool {
        self.banned.contains(GroupBannedModel { group_id, identity_id: profile_id })
    }

    /// Whether the participant owns the profile.
    pub open spec fn owns(self, node_id: NodeId, profile_id: ProfileId) -> bool {
        self.identities.contains(IdentityModel { node_id, profile_id })
    }

    // ------------------------------------------------------------ inserts

    /// Inserting a profile: refused if its id or its name is taken.
    pub open spec fn insert_profile(self, row: ProfileView) -> Result<Db, DbErr> {
        if has_profile(self.profiles, row.id) || has_profile_named(self.profiles, row.name) {
            Err(DbErr::UniqueViolation)
        } else {
            Ok(Db { profiles: self.profiles.push(row), ..self })
        }
    }

    /// Linking a profile to its owner: refused if the profile has one.
    pub open spec fn insert_identity(self, row: IdentityModel) -> Result<Db, DbErr> {
        if has_owner(self.identities, row.profile_id) {
            Err(DbErr::UniqueViolation)
        } else {
            Ok(Db { identities: self.identities.push(row), ..self })
        }
    }

    /// Inserting a group: refused if its id is taken.
    pub open spec fn insert_group(self, row: GroupModel) -> Result<Db, DbErr> {
        if has_group(self.groups, row.id) {
            Err(DbErr::UniqueViolation)
        } else {
            Ok(Db { groups: self.groups.push(row), ..self })
        }
    }

    /// Inserting a profile and a link to an owner in one step: both rows are
    /// stored, or, if either is refused, neither.
    pub open spec fn insert_profile_with_owner(self, row: ProfileView, link: IdentityModel) -> Result<
        Db,
        DbErr,
    > {
        match self.insert_profile(row) {
            Ok(next) => next.insert_identity(link),
            Err(e) => Err(e),
        }
    }

    /// Inserting a group and an admin row in one step: both rows are
    /// stored, or, if either is refused, neither.
    pub open spec fn insert_group_with_admin(self, row: GroupModel, admin: GroupAdminModel) -> Result<
        Db,
        DbErr,
    > {
        match self.insert_group(row) {
            Ok(next) => next.insert_admin(admin),
            Err(e) => Err(e),
        }
    }

    /// Making a profile an admin of a group. The admins of a group are a set:
    /// a pair that is there already stays, and nothing fails. The group has
    /// to exist.
    pub open spec fn insert_admin(self, row: GroupAdminModel) -> Result<Db, DbErr> {
        if self.admins.contains(row) {
            Ok(self)
        } else if !has_group(self.groups, row.group_id) {
            Err(DbErr::ForeignKeyViolation)
        } else {
            Ok(Db { admins: self.admins.push(row), ..self })
        }
    }

    /// Banning a profile from a group, with the set semantics of
    /// `insert_admin`.
    pub open spec fn insert_banned(self, row: GroupBannedModel) -> Result<Db, DbErr> {
        if self.banned.contains(row) {
            Ok(self)
        } else if !has_group(self.groups, row.group_id) {
            Err(DbErr::ForeignKeyViolation)
        } else {
            Ok(Db { banned: self.banned.push(row), ..self })
        }
    }

    /// Inserting a membership: refused if its id is taken or the profile is
    /// a member of the group already, then if the group or the profile is
    /// missing.
    pub open spec fn insert_user(self, row: GroupUserModel) -> Result<Db, DbErr> {
        if has_user(self.users, row.id) || has_member(self.users, row.group_id, row.profile_id) {
            Err(DbErr::UniqueViolation)
        } else if !has_group(self.groups, row.group_id) || !has_profile(
            self.profiles,
            row.profile_id,
        ) {
            Err(DbErr::ForeignKeyViolation)
        } else {
            Ok(Db { users: self.users.push(row), ..self })
        }
    }

    /// Inserting a topic: refused if its id is taken, then if the group or
    /// the profile is missing.
    pub open spec fn insert_topic(self, row: GroupTopicModel) -> Result<Db, DbErr> {
        if has_topic(self.topics, row.id) {
            Err(DbErr::UniqueViolation)
        } else if !has_group(self.groups, row.group_id) || !has_profile(
            self.profiles,
            row.profile_id,
        ) {
            Err(DbErr::ForeignKeyViolation)
        } else {
            Ok(Db { topics: self.topics.push(row), ..self })
        }
    }

    /// Inserting a post: refused if its id is taken, then if the member or
    /// the topic is missing, or the post is a reply and no post of its topic
    /// has the id of its parent.
    pub open spec fn insert_post(self, row: GroupPostView) -> Result<Db, DbErr> {
        if has_post(self.posts, row.id) {
            Err(DbErr::UniqueViolation)
        } else if !has_user(self.users, row.user_id) || !has_topic(self.topics, row.topic_id) || (
        row.parent_post_id matches Some(parent) && !has_parent(
            self.posts,
            parent,
            row.topic_id,
            self.posts.len() as int,
        )) {
            Err(DbErr::ForeignKeyViolation)
        } else {
            Ok(Db { posts: self.posts.push(row), ..self })
        }
    }
}

// ------------------------------------------------- inserts keep the schema

/// A table of profiles that grows keeps its profiles, and holds the new one.
pub proof fn lemma_profile_pushed(profiles: Seq<ProfileView>, row: ProfileView)
    ensures
        forall|id: ProfileId| #[trigger]
            has_profile(profiles, id) ==> has_profile(profiles.push(row), id),
        has_profile(profiles.push(row), row.id),
{
    assert forall|id: ProfileId| #[trigger] has_profile(profiles, id) implies has_profile(
        profiles.push(row),
        id,
    ) by {
        let i = choose|i: int| 0 <= i < profiles.len() && profiles[i].id == id;
        assert(profiles.push(row)[i].id == id);
    }
    assert(profiles.push(row)[profiles.len() as int].id == row.id);
}

/// A table of groups that grows keeps its groups, and holds the new one.
pub proof fn lemma_group_pushed(groups: Seq<GroupModel>, row: GroupModel)
    ensures
        forall|id: GroupId| #[trigger] has_group(groups, id) ==> has_group(groups.push(row), id),
        has_group(groups.push(row), row.id),
{
    assert forall|id: GroupId| #[trigger] has_group(groups, id) implies has_group(
        groups.push(row),
        id,
    ) by {
        let i = choose|i: int| 0 <= i < groups.len() && groups[i].id == id;
        assert(groups.push(row)[i].id == id);
    }
    assert(groups.push(row)[groups.len() as int].id == row.id);
}

/// A table of memberships that grows keeps its memberships, and holds the
/// new one.
pub proof fn lemma_user_pushed(users: Seq<GroupUserModel>, row: GroupUserModel)
    ensures
        forall|id: UserId| #[trigger] has_user(users, id) ==> has_user(users.push(row), id),
        has_user(users.push(row), row.id),
{
    assert forall|id: UserId| #[trigger] has_user(users, id) implies has_user(
        users.push(row),
        id,
    ) by {
        let i = choose|i: int| 0 <= i < users.len() && users[i].id == id;
        assert(users.push(row)[i].id == id);
    }
    assert(users.push(row)[users.len() as int].id == row.id);
}

/// A table of topics that grows keeps its topics, and holds the new one.
pub proof fn lemma_topic_pushed(topics: Seq<GroupTopicModel>, row: GroupTopicModel)
    ensures
        forall|id: TopicId| #[trigger] has_topic(topics, id) ==> has_topic(topics.push(row), id),
        has_topic(topics.push(row), row.id),
{
    assert forall|id: TopicId| #[trigger] has_topic(topics, id) implies has_topic(
        topics.push(row),
        id,
    ) by {
        let i = choose|i: int| 0 <= i < topics.len() && topics[i].id == id;
        assert(topics.push(row)[i].id == id);
    }
    assert(topics.push(row)[topics.len() as int].id == row.id);
}

/// A table of posts that grows keeps the parents of its replies.
pub proof fn lemma_post_pushed(posts: Seq<GroupPostView>, row: GroupPostView)
    ensures
        forall|id: PostId, t: TopicId, n: int| #[trigger]
            has_parent(posts, id, t, n) ==> has_parent(posts.push(row), id, t, n),
{
    assert forall|id: PostId, t: TopicId, n: int| #[trigger]
        has_parent(posts, id, t, n) implies has_parent(posts.push(row), id, t, n) by {
        let j = choose|j: int|
            0 <= j < n && j < posts.len() && posts[j].id == id && posts[j].topic_id == t;
        assert(posts.push(row)[j].id == id);
    }
}

/// Each insert that succeeds leaves the constraints of the schema in force.
pub proof fn lemma_insert_profile_wf(db: Db, row: ProfileView)
    requires
        db.wf(),
    ensures
        db.insert_profile(row) matches Ok(next) ==> next.wf(),
{
    if let Ok(next) = db.insert_profile(row) {
        lemma_profile_pushed(db.profiles, row);
    }
}

pub proof fn lemma_insert_identity_wf(db: Db, row: IdentityModel)
    requires
        db.wf(),
    ensures
        db.insert_identity(row) matches Ok(next) ==> next.wf(),
{
}

pub proof fn lemma_insert_group_wf(db: Db, row: GroupModel)
    requires
        db.wf(),
    ensures
        db.insert_group(row) matches Ok(next) ==> next.wf(),
{
    if let Ok(next) = db.insert_group(row) {
        lemma_group_pushed(db.groups, row);
    }
}

pub proof fn lemma_insert_admin_wf(db: Db, row: GroupAdminModel)
    requires
        db.wf(),
    ensures
        db.insert_admin(row) matches Ok(next) ==> next.wf(),
{
    if let Ok(next) = db.insert_admin(row) {
        if !db.admins.contains(row) {
            assert forall|i: int| 0 <= i < db.admins.len() implies db.admins[i] != row by {
                assert(db.admins.contains(db.admins[i]));
            }
        }
    }
}

pub proof fn lemma_insert_banned_wf(db: Db, row: GroupBannedModel)
    requires
        db.wf(),
    ensures
        db.insert_banned(row) matches Ok(next) ==> next.wf(),
{
    if let Ok(next) = db.insert_banned(row) {
        if !db.banned.contains(row) {
            assert forall|i: int| 0 <= i < db.banned.len() implies db.banned[i] != row by {
                assert(db.banned.contains(db.banned[i]));
            }
        }
    }
}

pub proof fn lemma_insert_user_wf(db: Db, row: GroupUserModel)
    requires
        db.wf(),
    ensures
        db.insert_user(row) matches Ok(next) ==> next.wf(),
{
    if let Ok(next) = db.insert_user(row) {
        lemma_user_pushed(db.users, row);
    }
}

pub proof fn lemma_insert_topic_wf(db: Db, row: GroupTopicModel)
    requires
        db.wf(),
    ensures
        db.insert_topic(row) matches Ok(next) ==> next.wf(),
{
    if let Ok(next) = db.insert_topic(row) {
        lemma_topic_pushed(db.topics, row);
    }
}

pub proof fn lemma_insert_post_wf(db: Db, row: GroupPostView)
    requires
        db.wf(),
    ensures
        db.insert_post(row) matches Ok(next) ==> next.wf(),
{
    if let Ok(next) = db.insert_post(row) {
        lemma_post_pushed(db.posts, row);
        assert forall|i: int| 0 <= i < next.posts.len() implies ((#[trigger] next.posts[i]).parent_post_id matches Some(
            parent,
        ) ==> has_parent(next.posts, parent, next.posts[i].topic_id, i)) by {
            if i < db.posts.len() {
                assert(next.posts[i] == db.posts[i]);
            }
        }
    }
}

// --------------------------------------------------------------- selections

pub open spec fn group_other_than(id: GroupId) -> spec_fn(GroupModel) -> bool {
    |g: GroupModel| g.id != id
}

pub open spec fn group_owned_by(profile_id: ProfileId) -> spec_fn(GroupModel) -> bool {
    |g: GroupModel| g.profile_id == profile_id
}

pub open spec fn admin_inside(group_id: GroupId) -> spec_fn(GroupAdminModel) -> bool {
    |a: GroupAdminModel| a.group_id == group_id
}

pub open spec fn admin_outside(group_id: GroupId) -> spec_fn(GroupAdminModel) -> bool {
    |a: GroupAdminModel| a.group_id != group_id
}

pub open spec fn admin_other_than(row: GroupAdminModel) -> spec_fn(GroupAdminModel) -> bool {
    |a: GroupAdminModel| a != row
}

pub open spec fn banned_inside(group_id: GroupId) -> spec_fn(GroupBannedModel) -> bool {
    |b: GroupBannedModel| b.group_id == group_id
}

pub open spec fn banned_outside(group_id: GroupId) -> spec_fn(GroupBannedModel) -> bool {
    |b: GroupBannedModel| b.group_id != group_id
}

pub open spec fn banned_other_than(row: GroupBannedModel) -> spec_fn(GroupBannedModel) -> bool {
    |b: GroupBannedModel| b != row
}

pub open spec fn user_inside(group_id: GroupId) -> spec_fn(GroupUserModel) -> bool {
    |u: GroupUserModel| u.group_id == group_id
}

pub open spec fn user_outside(group_id: GroupId) -> spec_fn(GroupUserModel) -> bool {
    |u: GroupUserModel| u.group_id != group_id
}

pub open spec fn user_of_profile(profile_id: ProfileId) -> spec_fn(GroupUserModel) -> bool {
    |u: GroupUserModel| u.profile_id == profile_id
}

pub open spec fn user_other_than(group_id: GroupId, profile_id: ProfileId) -> spec_fn(
    GroupUserModel,
) -> bool {
    |u: GroupUserModel| !(u.group_id == group_id && u.profile_id == profile_id)
}

pub open spec fn topic_inside(group_id: GroupId) -> spec_fn(GroupTopicModel) -> bool {
    |t: GroupTopicModel| t.group_id == group_id
}

pub open spec fn topic_outside(group_id: GroupId) -> spec_fn(GroupTopicModel) -> bool {
    |t: GroupTopicModel| t.group_id != group_id
}

pub open spec fn topic_started_by(profile_id: ProfileId) -> spec_fn(GroupTopicModel) -> bool {
    |t: GroupTopicModel| t.profile_id == profile_id
}

pub open spec fn topic_other_than(id: TopicId) -> spec_fn(GroupTopicModel) -> bool {
    |t: GroupTopicModel| t.id != id
}

pub open spec fn identity_of(node_id: NodeId) -> spec_fn(IdentityModel) -> bool {
    |l: IdentityModel| l.node_id == node_id
}

pub open spec fn post_in_topic(topic_id: TopicId) -> spec_fn(GroupPostView) -> bool {
    |p: GroupPostView| p.topic_id == topic_id
}

pub open spec fn post_at_top_of(topic_id: TopicId) -> spec_fn(GroupPostView) -> bool {
    |p: GroupPostView| p.topic_id == topic_id && p.parent_post_id is None
}

pub open spec fn post_replying_to(id: PostId) -> spec_fn(GroupPostView) -> bool {
    |p: GroupPostView| p.parent_post_id == Some(id)
}

pub open spec fn post_written_by(user_id: UserId) -> spec_fn(GroupPostView) -> bool {
    |p: GroupPostView| p.user_id == user_id
}

pub open spec fn profile_owned_by(identities: Seq<IdentityModel>, node_id: NodeId) -> spec_fn(
    ProfileView,
) -> bool {
    |p: ProfileView| identities.contains(IdentityModel { node_id, profile_id: p.id })
}

pub open spec fn group_administered_by(admins: Seq<GroupAdminModel>, profile_id: ProfileId) -> spec_fn(
    GroupModel,
) -> bool {
    |g: GroupModel| admins.contains(GroupAdminModel { group_id: g.id, identity_id: profile_id })
}

/// The creation times of posts, row by row.
pub open spec fn post_times(rows: Seq<GroupPostView>) -> Seq<Timestamp> {
    Seq::new(rows.len(), |i: int| rows[i].created_at)
}

/// The creation times of topics, row by row.
pub open spec fn topic_times(rows: Seq<GroupTopicModel>) -> Seq<Timestamp> {
    Seq::new(rows.len(), |i: int| rows[i].created_at)
}

impl Db {
    // ------------------------------------------------------------ queries

    /// A page of the posts that `keep` selects, listed by creation time.
    pub open spec fn select_posts(
        self,
        keep: spec_fn(GroupPostView) -> bool,
        newest_first: bool,
        limit: u64,
        offset: u64,
    ) -> Seq<GroupPostView> {
        let rows = self.posts.filter(keep);
        page(listing(rows, post_times(rows), newest_first), limit, offset)
    }

    /// A page of the topics that `keep` selects, listed by creation time.
    pub open spec fn select_topics(
        self,
        keep: spec_fn(GroupTopicModel) -> bool,
        newest_first: bool,
        limit: u64,
        offset: u64,
    ) -> Seq<GroupTopicModel> {
        let rows = self.topics.filter(keep);
        page(listing(rows, topic_times(rows), newest_first), limit, offset)
    }

    /// The profiles that a participant owns.
    pub open spec fn profiles_of(self, node_id: NodeId) -> Seq<ProfileView> {
        self.profiles.filter(profile_owned_by(self.identities, node_id))
    }

    /// The groups of which a profile is an admin.
    pub open spec fn groups_administered_by(self, profile_id: ProfileId) -> Seq<GroupModel> {
        self.groups.filter(group_administered_by(self.admins, profile_id))
    }
}

// ------------------------------------------------------------------ cascade

/// Whether the membership with the given id belongs to the group.
pub open spec fn user_in_group(users: Seq<GroupUserModel>, id: UserId, group_id: GroupId) -> bool {
    exists|i: int| 0 <= i < users.len() && users[i].id == id && users[i].group_id == group_id
}

/// Whether the membership with the given id joins the profile to the group.
pub open spec fn user_is_member(
    users: Seq<GroupUserModel>,
    id: UserId,
    group_id: GroupId,
    profile_id: ProfileId,
) -> bool {
    exists|i: int|
        0 <= i < users.len() && users[i].id == id && users[i].group_id == group_id
            && users[i].profile_id == profile_id
}

/// Whether the topic with the given id lies in the group.
pub open spec fn topic_in_group(
    topics: Seq<GroupTopicModel>,
    id: TopicId,
    group_id: GroupId,
) -> bool {
    exists|i: int| 0 <= i < topics.len() && topics[i].id == id && topics[i].group_id == group_id
}

/// The posts that lose their member or their topic when a group goes.
pub open spec fn seed_of_group(
    users: Seq<GroupUserModel>,
    topics: Seq<GroupTopicModel>,
    group_id: GroupId,
) -> spec_fn(GroupPostView) -> bool {
    |p: GroupPostView|
        user_in_group(users, p.user_id, group_id) || topic_in_group(topics, p.topic_id, group_id)
}

/// The posts that lose their member when a membership goes.
pub open spec fn seed_of_member(
    users: Seq<GroupUserModel>,
    group_id: GroupId,
    profile_id: ProfileId,
) -> spec_fn(GroupPostView) -> bool {
    |p: GroupPostView| user_is_member(users, p.user_id, group_id, profile_id)
}

/// The posts of a topic.
pub open spec fn seed_of_topic(topic_id: TopicId) -> spec_fn(GroupPostView) -> bool {
    |p: GroupPostView| p.topic_id == topic_id
}

/// The post with the given id.
pub open spec fn seed_of_post(id: PostId) -> spec_fn(GroupPostView) -> bool {
    |p: GroupPostView| p.id == id
}

/// Whether the post at place `i` goes when the posts that `seed` names go:
/// it is one of them, or it is a reply, however deep, to one of them.
pub open spec fn falls(posts: Seq<GroupPostView>, seed: spec_fn(GroupPostView) -> bool, i: int) -> bool
    decreases i,
{
    &&& 0 <= i < posts.len()
    &&& (seed(posts[i]) || (posts[i].parent_post_id matches Some(parent) && exists|j: int|
        0 <= j < i && (#[trigger] posts[j]).id == parent && falls(posts, seed, j)))
}

/// Whether a post with the given id goes when the posts that `seed` names go.
pub open spec fn falls_by_id(
    posts: Seq<GroupPostView>,
    seed: spec_fn(GroupPostView) -> bool,
    id: PostId,
) -> bool {
    exists|i: int| 0 <= i < posts.len() && posts[i].id == id && falls(posts, seed, i)
}

/// Whether one of the first `before` posts has the given id and goes when
/// the posts that `seed` names go.
pub open spec fn fell_before(
    posts: Seq<GroupPostView>,
    seed: spec_fn(GroupPostView) -> bool,
    id: PostId,
    before: int,
) -> bool {
    exists|j: int| 0 <= j < before && (#[trigger] posts[j]).id == id && falls(posts, seed, j)
}

/// The posts that stay when the posts that `seed` names go.
pub open spec fn survives(posts: Seq<GroupPostView>, seed: spec_fn(GroupPostView) -> bool) -> spec_fn(
    GroupPostView,
) -> bool {
    |p: GroupPostView| !falls_by_id(posts, seed, p.id)
}

/// The post of the given id with new text, every other post as it is.
pub open spec fn with_revision(
    posts: Seq<GroupPostView>,
    id: PostId,
    title: Option<Seq<char>>,
    body: Option<Seq<char>>,
) -> Seq<GroupPostView> {
    Seq::new(
        posts.len(),
        |i: int|
            if posts[i].id == id {
                posts[i].revised(title, body)
            } else {
                posts[i]
            },
    )
}

impl Db {
    // ------------------------------------------------------------ deletes

    /// Deleting a group takes its admins, bans, memberships and topics with
    /// it, the posts of those memberships and topics, and every reply to a
    /// post that goes.
    pub open spec fn delete_group(self, id: GroupId) -> Db {
        Db {
            groups: self.groups.filter(group_other_than(id)),
            admins: self.admins.filter(admin_outside(id)),
            banned: self.banned.filter(banned_outside(id)),
            users: self.users.filter(user_outside(id)),
            topics: self.topics.filter(topic_outside(id)),
            posts: self.posts.filter(survives(self.posts, seed_of_group(self.users, self.topics, id))),
            ..self
        }
    }

    /// Deleting a topic takes its posts with it.
    pub open spec fn delete_topic(self, id: TopicId) -> Db {
        Db {
            topics: self.topics.filter(topic_other_than(id)),
            posts: self.posts.filter(survives(self.posts, seed_of_topic(id))),
            ..self
        }
    }

    /// Deleting a post takes every reply to it with it, at any depth.
    pub open spec fn delete_post(self, id: PostId) -> Db {
        Db { posts: self.posts.filter(survives(self.posts, seed_of_post(id))), ..self }
    }

    /// Ending the membership of a profile in a group takes the posts written
    /// under it with it, and the replies to them.
    pub open spec fn delete_user(self, group_id: GroupId, profile_id: ProfileId) -> Db {
        Db {
            users: self.users.filter(user_other_than(group_id, profile_id)),
            posts: self.posts.filter(
                survives(self.posts, seed_of_member(self.users, group_id, profile_id)),
            ),
            ..self
        }
    }

    /// Taking a profile out of the admins of a group; nothing changes if it
    /// is not among them.
    pub open spec fn delete_admin(self, row: GroupAdminModel) -> Db {
        Db { admins: self.admins.filter(admin_other_than(row)), ..self }
    }

    /// Lifting a ban; nothing changes if there is none.
    pub open spec fn delete_banned(self, row: GroupBannedModel) -> Db {
        Db { banned: self.banned.filter(banned_other_than(row)), ..self }
    }

    /// Giving a post a new title, a new body, both or neither.
    pub open spec fn update_post(
        self,
        id: PostId,
        title: Option<Seq<char>>,
        body: Option<Seq<char>>,
    ) -> Db {
        Db { posts: with_revision(self.posts, id, title, body), ..self }
    }
}

// -------------------------------------------------- deletes keep the schema

/// What stays of the posts when some go keeps the constraints on posts, as
/// long as the members and topics of the posts that stay are still there.
pub proof fn lemma_sweep_keeps_posts_ok(
    posts: Seq<GroupPostView>,
    users: Seq<GroupUserModel>,
    topics: Seq<GroupTopicModel>,
    users_left: Seq<GroupUserModel>,
    topics_left: Seq<GroupTopicModel>,
    seed: spec_fn(GroupPostView) -> bool,
)
    requires
        posts_ok(posts, users, topics),
        forall|i: int|
            0 <= i < posts.len() && !seed(#[trigger] posts[i]) ==> has_user(
                users_left,
                posts[i].user_id,
            ) && has_topic(topics_left, posts[i].topic_id),
    ensures
        posts_ok(posts.filter(survives(posts, seed)), users_left, topics_left),
{
    let keep = survives(posts, seed);
    let left = posts.filter(keep);
    assert forall|a: int, b: int| 0 <= a < b < left.len() implies left[a].id != left[b].id by {
        lemma_origin(posts, keep, a);
        lemma_origin(posts, keep, b);
        lemma_origin_increases(posts, keep, a, b);
    }
    assert forall|k: int| 0 <= k < left.len() implies has_user(
        users_left,
        #[trigger] left[k].user_id,
    ) && has_topic(topics_left, left[k].topic_id) by {
        lemma_origin(posts, keep, k);
        let o = origin(posts, keep, k);
        assert(!falls_by_id(posts, seed, posts[o].id));
        assert(!falls(posts, seed, o));
        assert(!seed(posts[o]));
    }
    assert forall|k: int| 0 <= k < left.len() implies ((#[trigger] left[k]).parent_post_id matches Some(
        parent,
    ) ==> has_parent(left, parent, left[k].topic_id, k)) by {
        lemma_origin(posts, keep, k);
        let o = origin(posts, keep, k);
        if let Some(parent) = left[k].parent_post_id {
            assert(has_parent(posts, parent, posts[o].topic_id, o));
            let j = choose|j: int|
                0 <= j < o && j < posts.len() && posts[j].id == parent && posts[j].topic_id
                    == posts[o].topic_id;
            assert(!falls_by_id(posts, seed, posts[o].id));
            assert(!falls(posts, seed, o));
            if falls(posts, seed, j) {
                assert(posts[o].parent_post_id == Some(parent));
                assert(0 <= j < o && posts[j].id == parent && falls(posts, seed, j));
                assert(falls(posts, seed, o));
            }
            assert forall|i: int| 0 <= i < posts.len() && posts[i].id == parent implies !falls(
                posts,
                seed,
                i,
            ) by {
                if i != j {
                    if i < j {
                        assert(posts[i].id != posts[j].id);
                    } else {
                        assert(posts[j].id != posts[i].id);
                    }
                }
            }
            assert(keep(posts[j]));
            lemma_kept(posts, keep, j);
            lemma_rank_monotone(posts, keep, j + 1, o);
            assert(rank(posts, keep, j + 1) == rank(posts, keep, j) + 1);
            let r = rank(posts, keep, j);
            assert(0 <= r < k && r < left.len() && left[r].id == parent && left[r].topic_id
                == left[k].topic_id);
        }
    }
}

/// A group that a selection keeps is present in it.
pub proof fn lemma_group_stays(groups: Seq<GroupModel>, keep: spec_fn(GroupModel) -> bool, id: GroupId)
    requires
        has_group(groups, id),
        forall|i: int| 0 <= i < groups.len() && groups[i].id == id ==> keep(#[trigger] groups[i]),
    ensures
        has_group(groups.filter(keep), id),
{
    let i = choose|i: int| 0 <= i < groups.len() && groups[i].id == id;
    lemma_kept(groups, keep, i);
    assert(groups.filter(keep)[rank(groups, keep, i)].id == id);
}

/// A membership that a selection keeps is present in it.
pub proof fn lemma_user_stays(users: Seq<GroupUserModel>, keep: spec_fn(GroupUserModel) -> bool, id: UserId)
    requires
        has_user(users, id),
        forall|i: int| 0 <= i < users.len() && users[i].id == id ==> keep(#[trigger] users[i]),
    ensures
        has_user(users.filter(keep), id),
{
    let i = choose|i: int| 0 <= i < users.len() && users[i].id == id;
    lemma_kept(users, keep, i);
    assert(users.filter(keep)[rank(users, keep, i)].id == id);
}

/// A topic that a selection keeps is present in it.
pub proof fn lemma_topic_stays(topics: Seq<GroupTopicModel>, keep: spec_fn(GroupTopicModel) -> bool, id: TopicId)
    requires
        has_topic(topics, id),
        forall|i: int| 0 <= i < topics.len() && topics[i].id == id ==> keep(#[trigger] topics[i]),
    ensures
        has_topic(topics.filter(keep), id),
{
    let i = choose|i: int| 0 <= i < topics.len() && topics[i].id == id;
    lemma_kept(topics, keep, i);
    assert(topics.filter(keep)[rank(topics, keep, i)].id == id);
}

/// A selection of admins keeps the constraints on admins, as long as the
/// groups of the admins that stay are still there.
pub proof fn lemma_admins_left_ok(
    admins: Seq<GroupAdminModel>,
    groups: Seq<GroupModel>,
    groups_left: Seq<GroupModel>,
    keep: spec_fn(GroupAdminModel) -> bool,
)
    requires
        admins_ok(admins, groups),
        forall|i: int|
            0 <= i < admins.len() && keep(#[trigger] admins[i]) ==> has_group(
                groups_left,
                admins[i].group_id,
            ),
    ensures
        admins_ok(admins.filter(keep), groups_left),
{
    let left = admins.filter(keep);
    assert forall|a: int, b: int| 0 <= a < b < left.len() implies left[a] != left[b] by {
        lemma_origin(admins, keep, a);
        lemma_origin(admins, keep, b);
        lemma_origin_increases(admins, keep, a, b);
    }
    assert forall|k: int| 0 <= k < left.len() implies has_group(
        groups_left,
        #[trigger] left[k].group_id,
    ) by {
        lemma_origin(admins, keep, k);
    }
}

/// A selection of bans keeps the constraints on bans, as long as the groups
/// of the bans that stay are still there.
pub proof fn lemma_banned_left_ok(
    banned: Seq<GroupBannedModel>,
    groups: Seq<GroupModel>,
    groups_left: Seq<GroupModel>,
    keep: spec_fn(GroupBannedModel) -> bool,
)
    requires
        banned_ok(banned, groups),
        forall|i: int|
            0 <= i < banned.len() && keep(#[trigger] banned[i]) ==> has_group(
                groups_left,
                banned[i].group_id,
            ),
    ensures
        banned_ok(banned.filter(keep), groups_left),
{
    let left = banned.filter(keep);
    assert forall|a: int, b: int| 0 <= a < b < left.len() implies left[a] != left[b] by {
        lemma_origin(banned, keep, a);
        lemma_origin(banned, keep, b);
        lemma_origin_increases(banned, keep, a, b);
    }
    assert forall|k: int| 0 <= k < left.len() implies has_group(
        groups_left,
        #[trigger] left[k].group_id,
    ) by {
        lemma_origin(banned, keep, k);
    }
}

/// A selection of memberships keeps the constraints on memberships, as long
/// as the groups of the memberships that stay are still there.
pub proof fn lemma_users_left_ok(
    users: Seq<GroupUserModel>,
    groups: Seq<GroupModel>,
    groups_left: Seq<GroupModel>,
    profiles: Seq<ProfileView>,
    keep: spec_fn(GroupUserModel) -> bool,
)
    requires
        users_ok(users, groups, profiles),
        forall|i: int|
            0 <= i < users.len() && keep(#[trigger] users[i]) ==> has_group(
                groups_left,
                users[i].group_id,
            ),
    ensures
        users_ok(users.filter(keep), groups_left, profiles),
{
    let left = users.filter(keep);
    assert forall|a: int, b: int| 0 <= a < b < left.len() implies left[a].id != left[b].id && !(
    left[a].group_id == left[b].group_id && left[a].profile_id == left[b].profile_id) by {
        lemma_origin(users, keep, a);
        lemma_origin(users, keep, b);
        lemma_origin_increases(users, keep, a, b);
    }
    assert forall|k: int| 0 <= k < left.len() implies has_group(
        groups_left,
        #[trigger] left[k].group_id,
    ) && has_profile(profiles, left[k].profile_id) by {
        lemma_origin(users, keep, k);
    }
}

/// A selection of topics keeps the constraints on topics, as long as the
/// groups of the topics that stay are still there.
pub proof fn lemma_topics_left_ok(
    topics: Seq<GroupTopicModel>,
    groups: Seq<GroupModel>,
    groups_left: Seq<GroupModel>,
    profiles: Seq<ProfileView>,
    keep: spec_fn(GroupTopicModel) -> bool,
)
    requires
        topics_ok(topics, groups, profiles),
        forall|i: int|
            0 <= i < topics.len() && keep(#[trigger] topics[i]) ==> has_group(
                groups_left,
                topics[i].group_id,
            ),
    ensures
        topics_ok(topics.filter(keep), groups_left, profiles),
{
    let left = topics.filter(keep);
    assert forall|a: int, b: int| 0 <= a < b < left.len() implies left[a].id != left[b].id by {
        lemma_origin(topics, keep, a);
        lemma_origin(topics, keep, b);
        lemma_origin_increases(topics, keep, a, b);
    }
    assert forall|k: int| 0 <= k < left.len() implies has_group(
        groups_left,
        #[trigger] left[k].group_id,
    ) && has_profile(profiles, left[k].profile_id) by {
        lemma_origin(topics, keep, k);
    }
}

/// Deleting a group leaves the constraints of the schema in force, and
/// nothing of the group behind.
pub proof fn lemma_delete_group_wf(db: Db, id: GroupId)
    requires
        db.wf(),
    ensures
        db.delete_group(id).wf(),
        !has_group(db.delete_group(id).groups, id),
{
    let next = db.delete_group(id);
    let keep = group_other_than(id);
    assert forall|a: int, b: int| 0 <= a < b < next.groups.len() implies next.groups[a].id
        != next.groups[b].id by {
        lemma_origin(db.groups, keep, a);
        lemma_origin(db.groups, keep, b);
        lemma_origin_increases(db.groups, keep, a, b);
    }
    assert forall|k: int| 0 <= k < next.groups.len() implies next.groups[k].id != id by {
        lemma_origin(db.groups, keep, k);
    }
    assert forall|g: GroupId| g != id && has_group(db.groups, g) implies has_group(
        next.groups,
        g,
    ) by {
        lemma_group_stays(db.groups, keep, g);
    }
    lemma_admins_left_ok(db.admins, db.groups, next.groups, admin_outside(id));
    lemma_banned_left_ok(db.banned, db.groups, next.groups, banned_outside(id));
    lemma_users_left_ok(db.users, db.groups, next.groups, db.profiles, user_outside(id));
    lemma_topics_left_ok(db.topics, db.groups, next.groups, db.profiles, topic_outside(id));
    let seed = seed_of_group(db.users, db.topics, id);
    assert forall|i: int| 0 <= i < db.posts.len() && !seed(#[trigger] db.posts[i]) implies has_user(
        next.users,
        db.posts[i].user_id,
    ) && has_topic(next.topics, db.posts[i].topic_id) by {
        let p = db.posts[i];
        assert(!user_in_group(db.users, p.user_id, id));
        assert(!topic_in_group(db.topics, p.topic_id, id));
        lemma_user_stays(db.users, user_outside(id), p.user_id);
        lemma_topic_stays(db.topics, topic_outside(id), p.topic_id);
    }
    lemma_sweep_keeps_posts_ok(db.posts, db.users, db.topics, next.users, next.topics, seed);
}

/// Deleting a topic leaves the constraints of the schema in force.
pub proof fn lemma_delete_topic_wf(db: Db, id: TopicId)
    requires
        db.wf(),
    ensures
        db.delete_topic(id).wf(),
        !has_topic(db.delete_topic(id).topics, id),
{
    let next = db.delete_topic(id);
    let keep = topic_other_than(id);
    lemma_topics_left_ok(db.topics, db.groups, db.groups, db.profiles, keep);
    assert forall|k: int| 0 <= k < next.topics.len() implies next.topics[k].id != id by {
        lemma_origin(db.topics, keep, k);
    }
    let seed = seed_of_topic(id);
    assert forall|i: int| 0 <= i < db.posts.len() && !seed(#[trigger] db.posts[i]) implies has_user(
        next.users,
        db.posts[i].user_id,
    ) && has_topic(next.topics, db.posts[i].topic_id) by {
        assert(has_user(db.users, db.posts[i].user_id));
        lemma_topic_stays(db.topics, keep, db.posts[i].topic_id);
    }
    lemma_sweep_keeps_posts_ok(db.posts, db.users, db.topics, next.users, next.topics, seed);
}

/// Deleting a post leaves the constraints of the schema in force.
pub proof fn lemma_delete_post_wf(db: Db, id: PostId)
    requires
        db.wf(),
    ensures
        db.delete_post(id).wf(),
{
    lemma_sweep_keeps_posts_ok(db.posts, db.users, db.topics, db.users, db.topics, seed_of_post(id));
}

/// Ending a membership leaves the constraints of the schema in force.
pub proof fn lemma_delete_user_wf(db: Db, group_id: GroupId, profile_id: ProfileId)
    requires
        db.wf(),
    ensures
        db.delete_user(group_id, profile_id).wf(),
{
    let next = db.delete_user(group_id, profile_id);
    let keep = user_other_than(group_id, profile_id);
    lemma_users_left_ok(db.users, db.groups, db.groups, db.profiles, keep);
    let seed = seed_of_member(db.users, group_id, profile_id);
    assert forall|i: int| 0 <= i < db.posts.len() && !seed(#[trigger] db.posts[i]) implies has_user(
        next.users,
        db.posts[i].user_id,
    ) && has_topic(next.topics, db.posts[i].topic_id) by {
        assert(!user_is_member(db.users, db.posts[i].user_id, group_id, profile_id));
        lemma_user_stays(db.users, keep, db.posts[i].user_id);
    }
    lemma_sweep_keeps_posts_ok(db.posts, db.users, db.topics, next.users, next.topics, seed);
}

/// Taking an admin out leaves the constraints of the schema in force, and
/// the admin is gone.
pub proof fn lemma_delete_admin_wf(db: Db, row: GroupAdminModel)
    requires
        db.wf(),
    ensures
        db.delete_admin(row).wf(),
        !db.delete_admin(row).admins.contains(row),
{
    lemma_admins_left_ok(db.admins, db.groups, db.groups, admin_other_than(row));
    let left = db.admins.filter(admin_other_than(row));
    assert forall|k: int| 0 <= k < left.len() implies left[k] != row by {
        lemma_origin(db.admins, admin_other_than(row), k);
    }
}

/// Lifting a ban leaves the constraints of the schema in force, and the
/// ban is gone.
pub proof fn lemma_delete_banned_wf(db: Db, row: GroupBannedModel)
    requires
        db.wf(),
    ensures
        db.delete_banned(row).wf(),
        !db.delete_banned(row).banned.contains(row),
{
    lemma_banned_left_ok(db.banned, db.groups, db.groups, banned_other_than(row));
    let left = db.banned.filter(banned_other_than(row));
    assert forall|k: int| 0 <= k < left.len() implies left[k] != row by {
        lemma_origin(db.banned, banned_other_than(row), k);
    }
}

/// New text for a post leaves the constraints of the schema in force.
pub proof fn lemma_update_post_wf(
    db: Db,
    id: PostId,
    title: Option<Seq<char>>,
    body: Option<Seq<char>>,
)
    requires
        db.wf(),
    ensures
        db.update_post(id, title, body).wf(),
{
    let next = db.update_post(id, title, body);
    assert forall|i: int| 0 <= i < next.posts.len() implies ((#[trigger] next.posts[i]).parent_post_id matches Some(
        parent,
    ) ==> has_parent(next.posts, parent, next.posts[i].topic_id, i)) by {
        if let Some(parent) = next.posts[i].parent_post_id {
            assert(db.posts[i].parent_post_id == Some(parent));
            let j = choose|j: int|
                0 <= j < i && j < db.posts.len() && db.posts[j].id == parent
                    && db.posts[j].topic_id == db.posts[i].topic_id;
            assert(next.posts[j].id == parent);
        }
    }
    assert forall|i: int| 0 <= i < next.posts.len() implies has_user(
        db.users,
        #[trigger] next.posts[i].user_id,
    ) && has_topic(db.topics, next.posts[i].topic_id) by {
        assert(next.posts[i].user_id == db.posts[i].user_id);
    }
}

/// Under the constraints of the schema a post is found at every place that
/// holds its id.
pub proof fn lemma_post_found(db: Db, i: int)
    requires
        db.wf(),
        0 <= i < db.posts.len(),
    ensures
        db.post(db.posts[i].id) == Some(db.posts[i]),
{
    let id = db.posts[i].id;
    let at = choose|at: int| 0 <= at < db.posts.len() && db.posts[at].id == id;
    if at < i {
        assert(db.posts[at].id != db.posts[i].id);
    } else if i < at {
        assert(db.posts[i].id != db.posts[at].id);
    }
}

/// A post that was given new text is read back with it.
pub proof fn lemma_update_post_reads(
    db: Db,
    id: PostId,
    title: Option<Seq<char>>,
    body: Option<Seq<char>>,
)
    requires
        db.wf(),
        has_post(db.posts, id),
    ensures
        db.update_post(id, title, body).post(id) == Some(db.post(id)->Some_0.revised(title, body)),
{
    let next = db.update_post(id, title, body);
    let i = choose|i: int| 0 <= i < db.posts.len() && db.posts[i].id == id;
    lemma_update_post_wf(db, id, title, body);
    lemma_post_found(db, i);
    assert(next.posts[i].id == id);
    lemma_post_found(next, i);
}

/// What a listing of posts holds: at most `limit` posts, each selected by
/// `keep` and stored, in the order of their creation times; and nothing at
/// all from an offset at or beyond the number of selected posts.
pub proof fn lemma_select_posts(
    db: Db,
    keep: spec_fn(GroupPostView) -> bool,
    newest_first: bool,
    limit: u64,
    offset: u64,
)
    ensures
        db.select_posts(keep, newest_first, limit, offset).len() <= limit,
        offset >= db.posts.filter(keep).len() ==> db.select_posts(
            keep,
            newest_first,
            limit,
            offset,
        ).len() == 0,
        forall|k: int|
            0 <= k < db.select_posts(keep, newest_first, limit, offset).len() ==> keep(
                #[trigger] db.select_posts(keep, newest_first, limit, offset)[k],
            ) && db.posts.contains(db.select_posts(keep, newest_first, limit, offset)[k]),
        forall|a: int, b: int|
            0 <= a < b < db.select_posts(keep, newest_first, limit, offset).len() ==> !comes_after(
                (#[trigger] db.select_posts(keep, newest_first, limit, offset)[a]).created_at,
                (#[trigger] db.select_posts(keep, newest_first, limit, offset)[b]).created_at,
                newest_first,
            ),
{
    let rows = db.posts.filter(keep);
    let keys = post_times(rows);
    let listed = listing(rows, keys, newest_first);
    let r = db.select_posts(keep, newest_first, limit, offset);
    let lo = if offset <= listed.len() {
        offset as int
    } else {
        listed.len() as int
    };
    lemma_arranged(keys, newest_first);
    let order = crate::order::arranged(keys, newest_first);
    assert forall|k: int| 0 <= k < r.len() implies keep(#[trigger] r[k]) && db.posts.contains(
        r[k],
    ) by {
        let x = order[lo + k];
        assert(r[k] == rows[x]);
        lemma_origin(db.posts, keep, x);
    }
    assert forall|a: int, b: int| 0 <= a < b < r.len() implies !comes_after(
        (#[trigger] r[a]).created_at,
        (#[trigger] r[b]).created_at,
        newest_first,
    ) by {
        let x = order[lo + a];
        let y = order[lo + b];
        assert(r[a] == rows[x]);
        assert(r[b] == rows[y]);
        assert(keys[x] == rows[x].created_at);
        assert(keys[y] == rows[y].created_at);
    }
}

/// What a listing of topics holds: at most `limit` topics, each selected by
/// `keep` and stored, in the order of their creation times.
pub proof fn lemma_select_topics(
    db: Db,
    keep: spec_fn(GroupTopicModel) -> bool,
    newest_first: bool,
    limit: u64,
    offset: u64,
)
    ensures
        db.select_topics(keep, newest_first, limit, offset).len() <= limit,
        offset >= db.topics.filter(keep).len() ==> db.select_topics(
            keep,
            newest_first,
            limit,
            offset,
        ).len() == 0,
        forall|k: int|
            0 <= k < db.select_topics(keep, newest_first, limit, offset).len() ==> keep(
                #[trigger] db.select_topics(keep, newest_first, limit, offset)[k],
            ) && db.topics.contains(db.select_topics(keep, newest_first, limit, offset)[k]),
        forall|a: int, b: int|
            0 <= a < b < db.select_topics(keep, newest_first, limit, offset).len() ==> !comes_after(
                (#[trigger] db.select_topics(keep, newest_first, limit, offset)[a]).created_at,
                (#[trigger] db.select_topics(keep, newest_first, limit, offset)[b]).created_at,
                newest_first,
            ),
{
    let rows = db.topics.filter(keep);
    let keys = topic_times(rows);
    let listed = listing(rows, keys, newest_first);
    let r = db.select_topics(keep, newest_first, limit, offset);
    let lo = if offset <= listed.len() {
        offset as int
    } else {
        listed.len() as int
    };
    lemma_arranged(keys, newest_first);
    let order = crate::order::arranged(keys, newest_first);
    assert forall|k: int| 0 <= k < r.len() implies keep(#[trigger] r[k]) && db.topics.contains(
        r[k],
    ) by {
        let x = order[lo + k];
        assert(r[k] == rows[x]);
        lemma_origin(db.topics, keep, x);
    }
    assert forall|a: int, b: int| 0 <= a < b < r.len() implies !comes_after(
        (#[trigger] r[a]).created_at,
        (#[trigger] r[b]).created_at,
        newest_first,
    ) by {
        let x = order[lo + a];
        let y = order[lo + b];
        assert(r[a] == rows[x]);
        assert(r[b] == rows[y]);
        assert(keys[x] == rows[x].created_at);
        assert(keys[y] == rows[y].created_at);
    }
}

/// Under the constraints of the schema a stored topic was started by a
/// stored profile.
pub proof fn lemma_topic_joins(db: Db, topic: GroupTopicModel)
    requires
        db.wf(),
        db.topics.contains(topic),
    ensures
        db.profile(topic.profile_id) is Some,
        db.topic(topic.id) == Some(topic),
{
    let i = choose|i: int| 0 <= i < db.topics.len() && db.topics[i] == topic;
    assert(has_group(db.groups, db.topics[i].group_id));
    assert(has_profile(db.profiles, db.topics[i].profile_id));
    let at = choose|at: int| 0 <= at < db.topics.len() && db.topics[at].id == topic.id;
    if at < i {
        assert(db.topics[at].id != db.topics[i].id);
    } else if i < at {
        assert(db.topics[i].id != db.topics[at].id);
    }
}

/// Under the constraints of the schema a stored post was written by a
/// stored member, who is a stored profile, in a stored topic, which was
/// started by a stored profile.
pub proof fn lemma_post_joins(db: Db, post: GroupPostView)
    requires
        db.wf(),
        db.posts.contains(post),
    ensures
        db.user(post.user_id) matches Some(user) && db.profile(user.profile_id) is Some,
        db.topic(post.topic_id) matches Some(topic) && db.profile(topic.profile_id) is Some,
{
    let i = choose|i: int| 0 <= i < db.posts.len() && db.posts[i] == post;
    assert(has_user(db.users, db.posts[i].user_id));
    assert(has_topic(db.topics, db.posts[i].topic_id));
    let u = choose|u: int| 0 <= u < db.users.len() && db.users[u].id == post.user_id;
    assert(has_group(db.groups, db.users[u].group_id));
    assert(has_profile(db.profiles, db.users[u].profile_id));
    let t = choose|t: int| 0 <= t < db.topics.len() && db.topics[t].id == post.topic_id;
    assert(has_group(db.groups, db.topics[t].group_id));
    assert(has_profile(db.profiles, db.topics[t].profile_id));
}

} // verus!
