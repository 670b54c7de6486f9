//! The store: the eight tables in memory, behind statements that keep the
//! constraints of the schema. Every statement says what it makes of the
//! state as `db` defines it.

use crate::db::{
    admin_inside, admin_other_than, admin_outside, banned_inside, banned_other_than,
    banned_outside, falls, falls_by_id, fell_before, group_administered_by, group_other_than,
    group_owned_by, identity_of, lemma_delete_group_wf, lemma_delete_admin_wf, lemma_delete_banned_wf,
    lemma_delete_post_wf, lemma_delete_topic_wf, lemma_delete_user_wf, lemma_update_post_wf,
    post_at_top_of, post_in_topic, post_replying_to, post_times, post_written_by,
    profile_owned_by, seed_of_group, seed_of_member, seed_of_post, seed_of_topic, survives,
    topic_in_group, topic_inside, topic_other_than, topic_outside, topic_started_by, topic_times,
    user_in_group, user_inside, user_is_member, user_of_profile, user_other_than, user_outside,
    with_revision,
    has_group, has_member, has_owner, has_parent, has_post, has_profile, has_profile_named,
    has_topic, has_user, lemma_insert_admin_wf, lemma_insert_banned_wf, lemma_insert_group_wf,
    lemma_insert_identity_wf, lemma_insert_post_wf, lemma_insert_profile_wf,
    lemma_insert_topic_wf, lemma_insert_user_wf, Db,
};
use crate::entity::group_post::text_view;
use crate::entity::{
    post_views, profile_views, view_of, GroupPostView, GroupAdminModel, GroupBannedModel, GroupModel,
    GroupPostModel, GroupTopicModel, GroupUserModel, IdentityModel, ProfileModel,
};
use crate::error::DbErr;
use crate::ids::{GroupId, NodeId, PostId, ProfileId, TopicId, UserId};
use crate::order::{listing, page, paged};
use crate::relation::{
    copies_of_marked, keep_marked, lemma_picked_is_filter, lemma_places_bounds, marked_places,
    marks_of, picked, places,
};
use crate::timestamp::Timestamp;
use vstd::prelude::*;

verus! {

/// The tables. A store is made empty and changes only through its
/// statements, each of which keeps the constraints of the schema.
pub struct Store {
    profiles: Vec<ProfileModel>,
    identities: Vec<IdentityModel>,
    groups: Vec<GroupModel>,
    admins: Vec<GroupAdminModel>,
    banned: Vec<GroupBannedModel>,
    users: Vec<GroupUserModel>,
    topics: Vec<GroupTopicModel>,
    posts: Vec<GroupPostModel>,
}

impl View for Store {
    type V = Db;

    closed spec fn view(&self) -> Db {
        Db {
            profiles: profile_views(self.profiles@),
            identities: self.identities@,
            groups: self.groups@,
            admins: self.admins@,
            banned: self.banned@,
            users: self.users@,
            topics: self.topics@,
            posts: post_views(self.posts@),
        }
    }
}

/// How a statement that may be refused leaves the store: as the outcome
/// says if it was carried out, and as it was if not.
pub open spec fn settled(before: Db, outcome: Result<Db, DbErr>, after: Db, r: Result<(), DbErr>) -> bool {
    match outcome {
        Ok(next) => r is Ok && after == next,
        Err(e) => r == Err::<(), DbErr>(e) && after == before,
    }
}

impl Store {
    /// The constraints of the schema hold.
    pub open spec fn wf(&self) -> bool {
        self@.wf()
    }

    /// A store without rows.
    pub fn new() -> (r: Store)
        ensures
            r@ == Db::empty(),
            r.wf(),
    {
        let r = Store {
            profiles: Vec::new(),
            identities: Vec::new(),
            groups: Vec::new(),
            admins: Vec::new(),
            banned: Vec::new(),
            users: Vec::new(),
            topics: Vec::new(),
            posts: Vec::new(),
        };
        assert(r@ =~= Db::empty());
        r
    }

    // ------------------------------------------------------------ search

    fn find_profile(&self, id: ProfileId) -> (r: Option<usize>)
        ensures
            r is None <==> !has_profile(self@.profiles, id),
            r matches Some(i) ==> i < self.profiles@.len() && self.profiles@[i as int].id == id,
    {
        let mut i: usize = 0;
        while i < self.profiles.len()
            invariant
                0 <= i <= self.profiles@.len(),
                forall|k: int| 0 <= k < i ==> self.profiles@[k].id != id,
            decreases self.profiles@.len() - i,
        {
            if self.profiles[i].id == id {
                assert(self@.profiles[i as int].id == id);
                return Some(i);
            }
            i += 1;
        }
        assert forall|k: int| 0 <= k < self@.profiles.len() implies self@.profiles[k].id != id by {
            assert(self@.profiles[k] == self.profiles@[k]@);
        }
        None
    }

    fn find_profile_named(&self, name: &String) -> (r: Option<usize>)
        ensures
            r is None <==> !has_profile_named(self@.profiles, name@),
            r matches Some(i) ==> i < self.profiles@.len() && self.profiles@[i as int].name@
                == name@,
    {
        let mut i: usize = 0;
        while i < self.profiles.len()
            invariant
                0 <= i <= self.profiles@.len(),
                forall|k: int| 0 <= k < i ==> self.profiles@[k].name@ != name@,
            decreases self.profiles@.len() - i,
        {
            if self.profiles[i].name == *name {
                assert(self@.profiles[i as int].name == name@);
                return Some(i);
            }
            i += 1;
        }
        assert forall|k: int| 0 <= k < self@.profiles.len() implies self@.profiles[k].name
            != name@ by {
            assert(self@.profiles[k] == self.profiles@[k]@);
        }
        None
    }

    fn find_owner(&self, profile_id: ProfileId) -> (r: Option<usize>)
        ensures
            r is None <==> !has_owner(self@.identities, profile_id),
            r matches Some(i) ==> i < self.identities@.len() && self.identities@[i as int].profile_id
                == profile_id,
    {
        let mut i: usize = 0;
        while i < self.identities.len()
            invariant
                0 <= i <= self.identities@.len(),
                forall|k: int| 0 <= k < i ==> self.identities@[k].profile_id != profile_id,
            decreases self.identities@.len() - i,
        {
            if self.identities[i].profile_id == profile_id {
                return Some(i);
            }
            i += 1;
        }
        None
    }

    fn find_group(&self, id: GroupId) -> (r: Option<usize>)
        ensures
            r is None <==> !has_group(self@.groups, id),
            r matches Some(i) ==> i < self.groups@.len() && self.groups@[i as int].id == id,
    {
        let mut i: usize = 0;
        while i < self.groups.len()
            invariant
                0 <= i <= self.groups@.len(),
                forall|k: int| 0 <= k < i ==> self.groups@[k].id != id,
            decreases self.groups@.len() - i,
        {
            if self.groups[i].id == id {
                return Some(i);
            }
            i += 1;
        }
        None
    }

    fn find_admin(&self, row: GroupAdminModel) -> (r: Option<usize>)
        ensures
            r is None <==> !self@.admins.contains(row),
            r matches Some(i) ==> i < self.admins@.len() && self.admins@[i as int] == row,
    {
        let mut i: usize = 0;
        while i < self.admins.len()
            invariant
                0 <= i <= self.admins@.len(),
                forall|k: int| 0 <= k < i ==> self.admins@[k] != row,
            decreases self.admins@.len() - i,
        {
            if self.admins[i].group_id == row.group_id && self.admins[i].identity_id
                == row.identity_id {
                return Some(i);
            }
            i += 1;
        }
        None
    }

    fn find_banned(&self, row: GroupBannedModel) -> (r: Option<usize>)
        ensures
            r is None <==> !self@.banned.contains(row),
            r matches Some(i) ==> i < self.banned@.len() && self.banned@[i as int] == row,
    {
        let mut i: usize = 0;
        while i < self.banned.len()
            invariant
                0 <= i <= self.banned@.len(),
                forall|k: int| 0 <= k < i ==> self.banned@[k] != row,
            decreases self.banned@.len() - i,
        {
            if self.banned[i].group_id == row.group_id && self.banned[i].identity_id
                == row.identity_id {
                return Some(i);
            }
            i += 1;
        }
        None
    }

    fn find_user(&self, id: UserId) -> (r: Option<usize>)
        ensures
            r is None <==> !has_user(self@.users, id),
            r matches Some(i) ==> i < self.users@.len() && self.users@[i as int].id == id,
    {
        let mut i: usize = 0;
        while i < self.users.len()
            invariant
                0 <= i <= self.users@.len(),
                forall|k: int| 0 <= k < i ==> self.users@[k].id != id,
            decreases self.users@.len() - i,
        {
            if self.users[i].id == id {
                return Some(i);
            }
            i += 1;
        }
        None
    }

    fn find_member(&self, group_id: GroupId, profile_id: ProfileId) -> (r: Option<usize>)
        ensures
            r is None <==> !has_member(self@.users, group_id, profile_id),
            r matches Some(i) ==> i < self.users@.len() && self.users@[i as int].group_id
                == group_id && self.users@[i as int].profile_id == profile_id,
    {
        let mut i: usize = 0;
        while i < self.users.len()
            invariant
                0 <= i <= self.users@.len(),
                forall|k: int|
                    0 <= k < i ==> !(self.users@[k].group_id == group_id
                        && self.users@[k].profile_id == profile_id),
            decreases self.users@.len() - i,
        {
            if self.users[i].group_id == group_id && self.users[i].profile_id == profile_id {
                return Some(i);
            }
            i += 1;
        }
        None
    }

    fn find_topic(&self, id: TopicId) -> (r: Option<usize>)
        ensures
            r is None <==> !has_topic(self@.topics, id),
            r matches Some(i) ==> i < self.topics@.len() && self.topics@[i as int].id == id,
    {
        let mut i: usize = 0;
        while i < self.topics.len()
            invariant
                0 <= i <= self.topics@.len(),
                forall|k: int| 0 <= k < i ==> self.topics@[k].id != id,
            decreases self.topics@.len() - i,
        {
            if self.topics[i].id == id {
                return Some(i);
            }
            i += 1;
        }
        None
    }

    fn find_post(&self, id: PostId) -> (r: Option<usize>)
        ensures
            r is None <==> !has_post(self@.posts, id),
            r matches Some(i) ==> i < self.posts@.len() && self.posts@[i as int].id == id,
    {
        let mut i: usize = 0;
        while i < self.posts.len()
            invariant
                0 <= i <= self.posts@.len(),
                forall|k: int| 0 <= k < i ==> self.posts@[k].id != id,
            decreases self.posts@.len() - i,
        {
            if self.posts[i].id == id {
                assert(self@.posts[i as int].id == id);
                return Some(i);
            }
            i += 1;
        }
        assert forall|k: int| 0 <= k < self@.posts.len() implies self@.posts[k].id != id by {
            assert(self@.posts[k] == self.posts@[k]@);
        }
        None
    }

    // ----------------------------------------------------------- lookups

    /// The profile with the given id.
    pub fn profile(&self, id: ProfileId) -> (r: Option<&ProfileModel>)
        requires
            self.wf(),
        ensures
            view_of(r) == self@.profile(id),
    {
        match self.find_profile(id) {
            Some(i) => {
                assert(self@.profiles[i as int] == self.profiles@[i as int]@);
                Some(&self.profiles[i])
            },
            None => None,
        }
    }

    /// The profile with the given name.
    pub fn profile_named(&self, name: &String) -> (r: Option<&ProfileModel>)
        requires
            self.wf(),
        ensures
            view_of(r) == self@.profile_named(name@),
    {
        match self.find_profile_named(name) {
            Some(i) => {
                assert(self@.profiles[i as int] == self.profiles@[i as int]@);
                Some(&self.profiles[i])
            },
            None => None,
        }
    }

    /// The link of a profile to its owner.
    pub fn owner(&self, profile_id: ProfileId) -> (r: Option<IdentityModel>)
        requires
            self.wf(),
        ensures
            r == self@.owner(profile_id),
    {
        match self.find_owner(profile_id) {
            Some(i) => Some(self.identities[i]),
            None => None,
        }
    }

    /// The group with the given id.
    pub fn group(&self, id: GroupId) -> (r: Option<GroupModel>)
        requires
            self.wf(),
        ensures
            r == self@.group(id),
    {
        match self.find_group(id) {
            Some(i) => Some(self.groups[i]),
            None => None,
        }
    }

    /// The membership with the given id.
    pub fn user(&self, id: UserId) -> (r: Option<GroupUserModel>)
        requires
            self.wf(),
        ensures
            r == self@.user(id),
    {
        match self.find_user(id) {
            Some(i) => Some(self.users[i]),
            None => None,
        }
    }

    /// The topic with the given id.
    pub fn topic(&self, id: TopicId) -> (r: Option<GroupTopicModel>)
        requires
            self.wf(),
        ensures
            r == self@.topic(id),
    {
        match self.find_topic(id) {
            Some(i) => Some(self.topics[i]),
            None => None,
        }
    }

    /// The post with the given id.
    pub fn post(&self, id: PostId) -> (r: Option<&GroupPostModel>)
        requires
            self.wf(),
        ensures
            view_of(r) == self@.post(id),
    {
        match self.find_post(id) {
            Some(i) => {
                assert(self@.posts[i as int] == self.posts@[i as int]@);
                Some(&self.posts[i])
            },
            None => None,
        }
    }

    /// The row that makes the profile an admin of the group.
    pub fn admin(&self, group_id: GroupId, profile_id: ProfileId) -> (r: Option<GroupAdminModel>)
        ensures
            r == if self@.is_admin(group_id, profile_id) {
                Some(GroupAdminModel { group_id, identity_id: profile_id })
            } else {
                None
            },
    {
        match self.find_admin(GroupAdminModel { group_id, identity_id: profile_id }) {
            Some(i) => Some(self.admins[i]),
            None => None,
        }
    }

    /// Whether the profile is an admin of the group.
    pub fn is_admin(&self, group_id: GroupId, profile_id: ProfileId) -> (r: bool)
        ensures
            r == self@.is_admin(group_id, profile_id),
    {
        self.find_admin(GroupAdminModel { group_id, identity_id: profile_id }).is_some()
    }

    /// Whether the group has banned the profile.
    pub fn is_banned(&self, group_id: GroupId, profile_id: ProfileId) -> (r: bool)
        ensures
            r == self@.is_banned(group_id, profile_id),
    {
        self.find_banned(GroupBannedModel { group_id, identity_id: profile_id }).is_some()
    }

    // ----------------------------------------------------------- inserts

    /// Inserts a profile.
    pub fn insert_profile(&mut self, row: ProfileModel) -> (r: Result<(), DbErr>)
        requires
            old(self).wf(),
        ensures
            final(self).wf(),
            settled(old(self)@, old(self)@.insert_profile(row@), final(self)@, r),
    {
        if self.find_profile(row.id).is_some() || self.find_profile_named(&row.name).is_some() {
            return Err(DbErr::UniqueViolation);
        }
        proof {
            lemma_insert_profile_wf(self@, row@);
        }
        self.profiles.push(row);
        proof {
            assert(self@.profiles =~= old(self)@.profiles.push(row@));
            assert(self@ =~= old(self)@.insert_profile(row@)->Ok_0);
        }
        Ok(())
    }

    /// Links a profile to its owner.
    pub fn insert_identity(&mut self, row: IdentityModel) -> (r: Result<(), DbErr>)
        requires
            old(self).wf(),
        ensures
            final(self).wf(),
            settled(old(self)@, old(self)@.insert_identity(row), final(self)@, r),
    {
        if self.find_owner(row.profile_id).is_some() {
            return Err(DbErr::UniqueViolation);
        }
        proof {
            lemma_insert_identity_wf(self@, row);
        }
        self.identities.push(row);
        proof {
            assert(self@ =~= old(self)@.insert_identity(row)->Ok_0);
        }
        Ok(())
    }

    /// Inserts a profile and a link to an owner in one step: both or
    /// neither.
    pub fn insert_profile_with_owner(&mut self, row: ProfileModel, link: IdentityModel) -> (r:
        Result<(), DbErr>)
        requires
            old(self).wf(),
        ensures
            final(self).wf(),
            settled(
                old(self)@,
                old(self)@.insert_profile_with_owner(row@, link),
                final(self)@,
                r,
            ),
    {
        if self.find_profile(row.id).is_some() || self.find_profile_named(&row.name).is_some()
            || self.find_owner(link.profile_id).is_some() {
            return Err(DbErr::UniqueViolation);
        }
        proof {
            lemma_insert_profile_wf(self@, row@);
            lemma_insert_identity_wf(self@.insert_profile(row@)->Ok_0, link);
        }
        self.profiles.push(row);
        self.identities.push(link);
        proof {
            assert(self@.profiles =~= old(self)@.profiles.push(row@));
            assert(self@ =~= old(self)@.insert_profile_with_owner(row@, link)->Ok_0);
        }
        Ok(())
    }

    /// Inserts a group.
    pub fn insert_group(&mut self, row: GroupModel) -> (r: Result<(), DbErr>)
        requires
            old(self).wf(),
        ensures
            final(self).wf(),
            settled(old(self)@, old(self)@.insert_group(row), final(self)@, r),
    {
        if self.find_group(row.id).is_some() {
            return Err(DbErr::UniqueViolation);
        }
        proof {
            lemma_insert_group_wf(self@, row);
        }
        self.groups.push(row);
        proof {
            assert(self@ =~= old(self)@.insert_group(row)->Ok_0);
        }
        Ok(())
    }

    /// Inserts a group and an admin row in one step: both or neither.
    pub fn insert_group_with_admin(&mut self, row: GroupModel, admin: GroupAdminModel) -> (r: Result<
        (),
        DbErr,
    >)
        requires
            old(self).wf(),
        ensures
            final(self).wf(),
            settled(old(self)@, old(self)@.insert_group_with_admin(row, admin), final(self)@, r),
    {
        if self.find_group(row.id).is_some() {
            return Err(DbErr::UniqueViolation);
        }
        let ghost mid = self@.insert_group(row)->Ok_0;
        proof {
            lemma_insert_group_wf(self@, row);
            lemma_insert_admin_wf(mid, admin);
            assert(mid.groups[self@.groups.len() as int].id == row.id);
            if has_group(self@.groups, admin.group_id) {
                let i = choose|i: int|
                    0 <= i < self@.groups.len() && self@.groups[i].id == admin.group_id;
                assert(mid.groups[i].id == admin.group_id);
            }
            if has_group(mid.groups, admin.group_id) && admin.group_id != row.id {
                let i = choose|i: int| 0 <= i < mid.groups.len() && mid.groups[i].id == admin.group_id;
                assert(self@.groups[i].id == admin.group_id);
            }
        }
        let known = self.find_admin(admin).is_some();
        if !known && admin.group_id != row.id && self.find_group(admin.group_id).is_none() {
            return Err(DbErr::ForeignKeyViolation);
        }
        self.groups.push(row);
        if !known {
            self.admins.push(admin);
        }
        proof {
            assert(self@ =~= old(self)@.insert_group_with_admin(row, admin)->Ok_0);
        }
        Ok(())
    }

    /// Makes a profile an admin of a group; it stays one if it is one.
    pub fn insert_admin(&mut self, row: GroupAdminModel) -> (r: Result<(), DbErr>)
        requires
            old(self).wf(),
        ensures
            final(self).wf(),
            settled(old(self)@, old(self)@.insert_admin(row), final(self)@, r),
    {
        if self.find_admin(row).is_some() {
            return Ok(());
        }
        if self.find_group(row.group_id).is_none() {
            return Err(DbErr::ForeignKeyViolation);
        }
        proof {
            lemma_insert_admin_wf(self@, row);
        }
        self.admins.push(row);
        proof {
            assert(self@ =~= old(self)@.insert_admin(row)->Ok_0);
        }
        Ok(())
    }

    /// Bans a profile from a group; it stays banned if it is.
    pub fn insert_banned(&mut self, row: GroupBannedModel) -> (r: Result<(), DbErr>)
        requires
            old(self).wf(),
        ensures
            final(self).wf(),
            settled(old(self)@, old(self)@.insert_banned(row), final(self)@, r),
    {
        if self.find_banned(row).is_some() {
            return Ok(());
        }
        if self.find_group(row.group_id).is_none() {
            return Err(DbErr::ForeignKeyViolation);
        }
        proof {
            lemma_insert_banned_wf(self@, row);
        }
        self.banned.push(row);
        proof {
            assert(self@ =~= old(self)@.insert_banned(row)->Ok_0);
        }
        Ok(())
    }

    /// Inserts a membership.
    pub fn insert_user(&mut self, row: GroupUserModel) -> (r: Result<(), DbErr>)
        requires
            old(self).wf(),
        ensures
            final(self).wf(),
            settled(old(self)@, old(self)@.insert_user(row), final(self)@, r),
    {
        if self.find_user(row.id).is_some() || self.find_member(
            row.group_id,
            row.profile_id,
        ).is_some() {
            return Err(DbErr::UniqueViolation);
        }
        if self.find_group(row.group_id).is_none() || self.find_profile(row.profile_id).is_none() {
            return Err(DbErr::ForeignKeyViolation);
        }
        proof {
            lemma_insert_user_wf(self@, row);
        }
        self.users.push(row);
        proof {
            assert(self@ =~= old(self)@.insert_user(row)->Ok_0);
        }
        Ok(())
    }

    /// Inserts a topic.
    pub fn insert_topic(&mut self, row: GroupTopicModel) -> (r: Result<(), DbErr>)
        requires
            old(self).wf(),
        ensures
            final(self).wf(),
            settled(old(self)@, old(self)@.insert_topic(row), final(self)@, r),
    {
        if self.find_topic(row.id).is_some() {
            return Err(DbErr::UniqueViolation);
        }
        if self.find_group(row.group_id).is_none() || self.find_profile(row.profile_id).is_none() {
            return Err(DbErr::ForeignKeyViolation);
        }
        proof {
            lemma_insert_topic_wf(self@, row);
        }
        self.topics.push(row);
        proof {
            assert(self@ =~= old(self)@.insert_topic(row)->Ok_0);
        }
        Ok(())
    }

    /// Inserts a post.
    pub fn insert_post(&mut self, row: GroupPostModel) -> (r: Result<(), DbErr>)
        requires
            old(self).wf(),
        ensures
            final(self).wf(),
            settled(old(self)@, old(self)@.insert_post(row@), final(self)@, r),
    {
        if self.find_post(row.id).is_some() {
            return Err(DbErr::UniqueViolation);
        }
        if self.find_user(row.user_id).is_none() || self.find_topic(row.topic_id).is_none() {
            return Err(DbErr::ForeignKeyViolation);
        }
        match row.parent_post_id {
            Some(parent) => {
                match self.find_post(parent) {
                    Some(j) => {
                        if self.posts[j].topic_id != row.topic_id {
                            proof {
                                assert(self@.posts[j as int] == self.posts@[j as int]@);
                                assert forall|k: int|
                                    0 <= k < self@.posts.len() && self@.posts[k].id
                                        == parent implies self@.posts[k].topic_id
                                    != row.topic_id by {
                                    if k != j {
                                        if k < j {
                                            assert(self@.posts[k].id != self@.posts[j as int].id);
                                        } else {
                                            assert(self@.posts[j as int].id != self@.posts[k].id);
                                        }
                                    }
                                }
                            }
                            return Err(DbErr::ForeignKeyViolation);
                        }
                        proof {
                            assert(self@.posts[j as int] == self.posts@[j as int]@);
                            assert(has_parent(
                                self@.posts,
                                parent,
                                row.topic_id,
                                self@.posts.len() as int,
                            ));
                        }
                    },
                    None => {
                        return Err(DbErr::ForeignKeyViolation);
                    },
                }
            },
            None => {},
        }
        proof {
            lemma_insert_post_wf(self@, row@);
        }
        self.posts.push(row);
        proof {
            assert(self@.posts =~= old(self)@.posts.push(row@));
            assert(self@ =~= old(self)@.insert_post(row@)->Ok_0);
        }
        Ok(())
    }
}

/// Which posts a listing or a count is about.
#[derive(Clone, Copy, Debug, PartialEq, Eq)]
pub enum PostFilter {
    /// The posts of a topic, replies included.
    InTopic(TopicId),
    /// The posts of a topic that are no replies.
    AtTopOf(TopicId),
    /// The direct replies to a post.
    RepliesTo(PostId),
    /// The posts written under a membership.
    WrittenBy(UserId),
}

impl PostFilter {
    pub open spec fn keeps(self) -> spec_fn(GroupPostView) -> bool {
        match self {
            PostFilter::InTopic(t) => post_in_topic(t),
            PostFilter::AtTopOf(t) => post_at_top_of(t),
            PostFilter::RepliesTo(p) => post_replying_to(p),
            PostFilter::WrittenBy(u) => post_written_by(u),
        }
    }

    /// Whether the filter selects the post.
    pub fn admits(&self, row: &GroupPostModel) -> (r: bool)
        ensures
            r == (self.keeps())(row@),
    {
        match self {
            PostFilter::InTopic(t) => row.topic_id == *t,
            PostFilter::AtTopOf(t) => row.topic_id == *t && row.is_top_level(),
            PostFilter::RepliesTo(p) => match row.parent_post_id {
                Some(q) => q == *p,
                None => false,
            },
            PostFilter::WrittenBy(u) => row.user_id == *u,
        }
    }
}

/// Which topics a listing is about.
#[derive(Clone, Copy, Debug, PartialEq, Eq)]
pub enum TopicFilter {
    /// The topics of a group.
    InGroup(GroupId),
    /// The topics that a profile started.
    StartedBy(ProfileId),
}

impl TopicFilter {
    pub open spec fn keeps(self) -> spec_fn(GroupTopicModel) -> bool {
        match self {
            TopicFilter::InGroup(g) => topic_inside(g),
            TopicFilter::StartedBy(p) => topic_started_by(p),
        }
    }

    /// Whether the filter selects the topic.
    pub fn admits(&self, row: &GroupTopicModel) -> (r: bool)
        ensures
            r == (self.keeps())(*row),
    {
        match self {
            TopicFilter::InGroup(g) => row.group_id == *g,
            TopicFilter::StartedBy(p) => row.profile_id == *p,
        }
    }
}

fn id_among(ids: &Vec<PostId>, id: PostId) -> (r: bool)
    ensures
        r == ids@.contains(id),
{
    let mut i: usize = 0;
    while i < ids.len()
        invariant
            0 <= i <= ids@.len(),
            forall|k: int| 0 <= k < i ==> ids@[k] != id,
        decreases ids@.len() - i,
    {
        if ids[i] == id {
            return true;
        }
        i += 1;
    }
    false
}

fn member_in_group(users: &Vec<GroupUserModel>, id: UserId, group_id: GroupId) -> (r: bool)
    ensures
        r == user_in_group(users@, id, group_id),
{
    let mut i: usize = 0;
    while i < users.len()
        invariant
            0 <= i <= users@.len(),
            forall|k: int| 0 <= k < i ==> !(users@[k].id == id && users@[k].group_id == group_id),
        decreases users@.len() - i,
    {
        if users[i].id == id && users[i].group_id == group_id {
            return true;
        }
        i += 1;
    }
    false
}

fn member_is(users: &Vec<GroupUserModel>, id: UserId, group_id: GroupId, profile_id: ProfileId) -> (r:
    bool)
    ensures
        r == user_is_member(users@, id, group_id, profile_id),
{
    let mut i: usize = 0;
    while i < users.len()
        invariant
            0 <= i <= users@.len(),
            forall|k: int|
                0 <= k < i ==> !(users@[k].id == id && users@[k].group_id == group_id
                    && users@[k].profile_id == profile_id),
        decreases users@.len() - i,
    {
        if users[i].id == id && users[i].group_id == group_id && users[i].profile_id
            == profile_id {
            return true;
        }
        i += 1;
    }
    false
}

fn topic_lies_in(topics: &Vec<GroupTopicModel>, id: TopicId, group_id: GroupId) -> (r: bool)
    ensures
        r == topic_in_group(topics@, id, group_id),
{
    let mut i: usize = 0;
    while i < topics.len()
        invariant
            0 <= i <= topics@.len(),
            forall|k: int| 0 <= k < i ==> !(topics@[k].id == id && topics@[k].group_id == group_id),
        decreases topics@.len() - i,
    {
        if topics[i].id == id && topics[i].group_id == group_id {
            return true;
        }
        i += 1;
    }
    false
}

/// Which posts stay when the seeded ones go: one pass in the order of the
/// table, in which every parent stands before its replies.
fn staying(
    posts: &Vec<GroupPostModel>,
    seeded: &Vec<bool>,
    Ghost(seed): Ghost<spec_fn(GroupPostView) -> bool>,
) -> (r: Vec<bool>)
    requires
        seeded@.len() == posts@.len(),
        forall|i: int| 0 <= i < posts@.len() ==> seeded@[i] == seed(#[trigger] posts@[i]@),
        forall|i: int, j: int| 0 <= i < j < posts@.len() ==> posts@[i].id != posts@[j].id,
    ensures
        r@.len() == posts@.len(),
        forall|i: int|
            0 <= i < posts@.len() ==> r@[i] == survives(post_views(posts@), seed)(
                #[trigger] post_views(posts@)[i],
            ),
{
    let ghost views = post_views(posts@);
    let mut marks: Vec<bool> = Vec::new();
    let mut gone: Vec<PostId> = Vec::new();
    let mut i: usize = 0;
    while i < posts.len()
        invariant
            0 <= i <= posts@.len(),
            views == post_views(posts@),
            seeded@.len() == posts@.len(),
            forall|k: int| 0 <= k < posts@.len() ==> seeded@[k] == seed(#[trigger] posts@[k]@),
            marks@.len() == i,
            forall|k: int| 0 <= k < i ==> marks@[k] == !falls(views, seed, k),
            forall|id: PostId| #[trigger] gone@.contains(id) ==> fell_before(views, seed, id, i as int),
            forall|k: int| 0 <= k < i && falls(views, seed, k) ==> gone@.contains(#[trigger] views[k].id),
        decreases posts@.len() - i,
    {
        let under_fallen = match posts[i].parent_post_id {
            Some(parent) => id_among(&gone, parent),
            None => false,
        };
        let goes = seeded[i] || under_fallen;
        proof {
            assert(views[i as int] == posts@[i as int]@);
            if under_fallen {
                let parent = posts@[i as int].parent_post_id->Some_0;
                assert(fell_before(views, seed, parent, i as int));
            }
            if falls(views, seed, i as int) && !seeded@[i as int] {
                let parent = views[i as int].parent_post_id->Some_0;
                let j = choose|j: int|
                    0 <= j < i && (#[trigger] views[j]).id == parent && falls(views, seed, j);
                assert(gone@.contains(views[j].id));
            }
            assert(goes == falls(views, seed, i as int));
        }
        let ghost before = gone@;
        if goes {
            gone.push(posts[i].id);
        }
        marks.push(!goes);
        proof {
            assert forall|id: PostId| #[trigger] gone@.contains(id) implies fell_before(
                views,
                seed,
                id,
                i as int + 1,
            ) by {
                if before.contains(id) {
                    assert(fell_before(views, seed, id, i as int));
                    let j = choose|j: int|
                        0 <= j < i && (#[trigger] views[j]).id == id && falls(views, seed, j);
                    assert(0 <= j < i + 1 && views[j].id == id && falls(views, seed, j));
                } else {
                    let k = choose|k: int| 0 <= k < gone@.len() && gone@[k] == id;
                    assert(k == before.len());
                    assert(views[i as int].id == id && falls(views, seed, i as int));
                }
            }
            assert forall|k: int| 0 <= k < i + 1 && falls(views, seed, k) implies gone@.contains(
                #[trigger] views[k].id,
            ) by {
                if k < i {
                    let at = choose|at: int| 0 <= at < before.len() && before[at] == views[k].id;
                    assert(gone@[at] == views[k].id);
                } else {
                    assert(gone@[before.len() as int] == views[k].id);
                }
            }
        }
        i += 1;
    }
    proof {
        assert forall|k: int| 0 <= k < posts@.len() implies marks@[k] == survives(views, seed)(
            #[trigger] views[k],
        ) by {
            if falls_by_id(views, seed, views[k].id) {
                let o = choose|o: int|
                    0 <= o < views.len() && views[o].id == views[k].id && falls(views, seed, o);
                assert(views[o] == posts@[o]@);
                assert(views[k] == posts@[k]@);
                assert(o == k);
            }
        }
    }
    marks
}

impl Store {
    // -------------------------------------------------------- selections

    /// The links of a participant to the profiles it owns.
    pub fn identities_of(&self, node_id: NodeId) -> (r: Vec<IdentityModel>)
        ensures
            r@ == self@.identities.filter(identity_of(node_id)),
    {
        let test = |l: &IdentityModel| -> (b: bool)
            ensures
                b == (l.node_id == node_id),
            {
                l.node_id.same(&node_id)
            };
        let marks = marks_of(&self.identities, test);
        proof {
            lemma_picked_is_filter(self.identities@, marks@, identity_of(node_id));
        }
        copies_of_marked(&self.identities, &marks)
    }

    /// The profiles that a participant owns.
    pub fn profiles_of(&self, node_id: NodeId) -> (r: Vec<ProfileModel>)
        ensures
            profile_views(r@) == self@.profiles_of(node_id),
    {
        let links = &self.identities;
        let test = |p: &ProfileModel| -> (b: bool)
            ensures
                b == profile_owned_by(links@, node_id)(p@),
            {
                Self::owned(links, node_id, p.id)
            };
        let marks = marks_of(&self.profiles, test);
        let at = marked_places(&marks);
        let mut out: Vec<ProfileModel> = Vec::new();
        let mut k: usize = 0;
        while k < at.len()
            invariant
                0 <= k <= at@.len(),
                marks@.len() == self.profiles@.len(),
                at@.len() == places(marks@).len(),
                forall|j: int| 0 <= j < at@.len() ==> at@[j] as int == places(marks@)[j],
                forall|j: int| 0 <= j < at@.len() ==> (#[trigger] at@[j]) < marks@.len(),
                out@.len() == k,
                forall|j: int| 0 <= j < k ==> out@[j]@ == self.profiles@[places(marks@)[j]]@,
            decreases at@.len() - k,
        {
            out.push(self.profiles[at[k]].clone());
            k += 1;
        }
        proof {
            lemma_places_bounds(marks@);
            lemma_picked_is_filter(
                self@.profiles,
                marks@,
                profile_owned_by(self@.identities, node_id),
            );
            assert(profile_views(out@) =~= picked(self@.profiles, marks@));
        }
        out
    }

    fn owned(links: &Vec<IdentityModel>, node_id: NodeId, profile_id: ProfileId) -> (r: bool)
        ensures
            r == links@.contains(IdentityModel { node_id, profile_id }),
    {
        let mut i: usize = 0;
        while i < links.len()
            invariant
                0 <= i <= links@.len(),
                forall|k: int| 0 <= k < i ==> links@[k] != (IdentityModel { node_id, profile_id }),
            decreases links@.len() - i,
        {
            if links[i].profile_id == profile_id && links[i].node_id.same(&node_id) {
                assert(links@[i as int] == (IdentityModel { node_id, profile_id }));
                return true;
            }
            i += 1;
        }
        false
    }

    /// The groups that a profile created.
    pub fn groups_owned_by(&self, profile_id: ProfileId) -> (r: Vec<GroupModel>)
        ensures
            r@ == self@.groups.filter(group_owned_by(profile_id)),
    {
        let test = |g: &GroupModel| -> (b: bool)
            ensures
                b == (g.profile_id == profile_id),
            {
                g.profile_id == profile_id
            };
        let marks = marks_of(&self.groups, test);
        proof {
            lemma_picked_is_filter(self.groups@, marks@, group_owned_by(profile_id));
        }
        copies_of_marked(&self.groups, &marks)
    }

    /// The groups of which a profile is an admin.
    pub fn groups_administered_by(&self, profile_id: ProfileId) -> (r: Vec<GroupModel>)
        ensures
            r@ == self@.groups_administered_by(profile_id),
    {
        let test = |g: &GroupModel| -> (b: bool)
            ensures
                b == self@.is_admin(g.id, profile_id),
            {
                self.is_admin(g.id, profile_id)
            };
        let marks = marks_of(&self.groups, test);
        proof {
            lemma_picked_is_filter(
                self.groups@,
                marks@,
                group_administered_by(self@.admins, profile_id),
            );
        }
        copies_of_marked(&self.groups, &marks)
    }

    /// The admins of a group.
    pub fn admins_of(&self, group_id: GroupId) -> (r: Vec<GroupAdminModel>)
        ensures
            r@ == self@.admins.filter(admin_inside(group_id)),
    {
        let test = |a: &GroupAdminModel| -> (b: bool)
            ensures
                b == (a.group_id == group_id),
            {
                a.group_id == group_id
            };
        let marks = marks_of(&self.admins, test);
        proof {
            lemma_picked_is_filter(self.admins@, marks@, admin_inside(group_id));
        }
        copies_of_marked(&self.admins, &marks)
    }

    /// The bans of a group.
    pub fn banned_of(&self, group_id: GroupId) -> (r: Vec<GroupBannedModel>)
        ensures
            r@ == self@.banned.filter(banned_inside(group_id)),
    {
        let test = |a: &GroupBannedModel| -> (b: bool)
            ensures
                b == (a.group_id == group_id),
            {
                a.group_id == group_id
            };
        let marks = marks_of(&self.banned, test);
        proof {
            lemma_picked_is_filter(self.banned@, marks@, banned_inside(group_id));
        }
        copies_of_marked(&self.banned, &marks)
    }

    /// The memberships of a group.
    pub fn users_of(&self, group_id: GroupId) -> (r: Vec<GroupUserModel>)
        ensures
            r@ == self@.users.filter(user_inside(group_id)),
    {
        let test = |u: &GroupUserModel| -> (b: bool)
            ensures
                b == (u.group_id == group_id),
            {
                u.group_id == group_id
            };
        let marks = marks_of(&self.users, test);
        proof {
            lemma_picked_is_filter(self.users@, marks@, user_inside(group_id));
        }
        copies_of_marked(&self.users, &marks)
    }

    /// The memberships of a profile.
    pub fn users_of_profile(&self, profile_id: ProfileId) -> (r: Vec<GroupUserModel>)
        ensures
            r@ == self@.users.filter(user_of_profile(profile_id)),
    {
        let test = |u: &GroupUserModel| -> (b: bool)
            ensures
                b == (u.profile_id == profile_id),
            {
                u.profile_id == profile_id
            };
        let marks = marks_of(&self.users, test);
        proof {
            lemma_picked_is_filter(self.users@, marks@, user_of_profile(profile_id));
        }
        copies_of_marked(&self.users, &marks)
    }

    /// A page of the topics that the filter selects, listed by creation
    /// time.
    pub fn select_topics(&self, filter: TopicFilter, newest_first: bool, limit: u64, offset: u64) -> (r:
        Vec<GroupTopicModel>)
        ensures
            r@ == self@.select_topics(filter.keeps(), newest_first, limit, offset),
    {
        let test = |t: &GroupTopicModel| -> (b: bool)
            ensures
                b == (filter.keeps())(*t),
            {
                filter.admits(t)
            };
        let marks = marks_of(&self.topics, test);
        proof {
            lemma_picked_is_filter(self.topics@, marks@, filter.keeps());
        }
        let rows = copies_of_marked(&self.topics, &marks);
        let mut keys: Vec<Timestamp> = Vec::new();
        let mut k: usize = 0;
        while k < rows.len()
            invariant
                0 <= k <= rows@.len(),
                keys@.len() == k,
                forall|j: int| 0 <= j < k ==> keys@[j] == rows@[j].created_at,
            decreases rows@.len() - k,
        {
            keys.push(rows[k].created_at);
            k += 1;
        }
        proof {
            assert(keys@ =~= topic_times(rows@));
        }
        paged(&rows, &keys, newest_first, limit, offset)
    }

    /// A page of the posts that the filter selects, listed by creation time.
    pub fn select_posts(&self, filter: PostFilter, newest_first: bool, limit: u64, offset: u64) -> (r:
        Vec<GroupPostModel>)
        ensures
            post_views(r@) == self@.select_posts(filter.keeps(), newest_first, limit, offset),
    {
        let test = |p: &GroupPostModel| -> (b: bool)
            ensures
                b == (filter.keeps())(p@),
            {
                filter.admits(p)
            };
        let marks = marks_of(&self.posts, test);
        let at = marked_places(&marks);
        let ghost rows = self@.posts.filter(filter.keeps());
        proof {
            lemma_places_bounds(marks@);
            lemma_picked_is_filter(self@.posts, marks@, filter.keeps());
        }
        let mut keys: Vec<Timestamp> = Vec::new();
        let mut k: usize = 0;
        while k < at.len()
            invariant
                0 <= k <= at@.len(),
                marks@.len() == self.posts@.len(),
                forall|j: int| 0 <= j < at@.len() ==> (#[trigger] at@[j]) < marks@.len(),
                keys@.len() == k,
                forall|j: int| 0 <= j < k ==> keys@[j] == self.posts@[at@[j] as int].created_at,
            decreases at@.len() - k,
        {
            keys.push(self.posts[at[k]].created_at);
            k += 1;
        }
        proof {
            assert(keys@ =~= post_times(rows));
        }
        let chosen = paged(&at, &keys, newest_first, limit, offset);
        let ghost wanted = page(listing(rows, post_times(rows), newest_first), limit, offset);
        let ghost listed = listing(at@, keys@, newest_first);
        proof {
            crate::order::lemma_arranged(keys@, newest_first);
            assert(wanted.len() == chosen@.len());
            assert forall|q: int| 0 <= q < chosen@.len() implies (#[trigger] chosen@[q])
                < self.posts@.len() && self.posts@[chosen@[q] as int]@ == wanted[q] by {
                let lo = if offset <= listed.len() {
                    offset as int
                } else {
                    listed.len() as int
                };
                let a = crate::order::arranged(keys@, newest_first)[lo + q];
                assert(chosen@[q] == listed[lo + q]);
                assert(listed[lo + q] == at@[a]);
                assert(rows[a] == self@.posts[places(marks@)[a]]);
            }
        }
        let mut out: Vec<GroupPostModel> = Vec::new();
        let mut q: usize = 0;
        while q < chosen.len()
            invariant
                0 <= q <= chosen@.len(),
                wanted.len() == chosen@.len(),
                forall|j: int|
                    0 <= j < chosen@.len() ==> (#[trigger] chosen@[j]) < self.posts@.len()
                        && self.posts@[chosen@[j] as int]@ == wanted[j],
                out@.len() == q,
                forall|j: int| 0 <= j < q ==> out@[j]@ == wanted[j],
            decreases chosen@.len() - q,
        {
            out.push(self.posts[chosen[q]].clone());
            q += 1;
        }
        proof {
            assert(post_views(out@) =~= wanted);
        }
        out
    }

    /// How many posts the filter selects.
    pub fn count_posts(&self, filter: PostFilter) -> (r: usize)
        ensures
            r == self@.posts.filter(filter.keeps()).len(),
    {
        let test = |p: &GroupPostModel| -> (b: bool)
            ensures
                b == (filter.keeps())(p@),
            {
                filter.admits(p)
            };
        let marks = marks_of(&self.posts, test);
        let at = marked_places(&marks);
        proof {
            lemma_picked_is_filter(self@.posts, marks@, filter.keeps());
        }
        at.len()
    }
}

impl Store {
    // ------------------------------------------------------------ deletes

    /// Drops the posts that `seed` names and every reply to a post that is
    /// dropped.
    fn sweep_posts(&mut self, seeded: &Vec<bool>, Ghost(seed): Ghost<spec_fn(GroupPostView) -> bool>)
        requires
            old(self).wf(),
            seeded@.len() == old(self)@.posts.len(),
            forall|i: int|
                0 <= i < old(self)@.posts.len() ==> seeded@[i] == seed(#[trigger] old(self)@.posts[i]),
        ensures
            final(self)@ == (Db {
                posts: old(self)@.posts.filter(survives(old(self)@.posts, seed)),
                ..old(self)@
            }),
    {
        proof {
            assert forall|i: int| 0 <= i < self.posts@.len() implies seeded@[i] == seed(
                #[trigger] self.posts@[i]@,
            ) by {
                assert(self@.posts[i] == self.posts@[i]@);
            }
            assert forall|i: int, j: int| 0 <= i < j < self.posts@.len() implies self.posts@[i].id
                != self.posts@[j].id by {
                assert(self@.posts[i] == self.posts@[i]@);
                assert(self@.posts[j] == self.posts@[j]@);
            }
        }
        let marks = staying(&self.posts, seeded, Ghost(seed));
        let mut taken: Vec<GroupPostModel> = Vec::new();
        core::mem::swap(&mut self.posts, &mut taken);
        let kept = keep_marked(taken, &marks);
        self.posts = kept;
        proof {
            let views = old(self)@.posts;
            lemma_places_bounds(marks@);
            lemma_picked_is_filter(views, marks@, survives(views, seed));
            assert(self@.posts =~= picked(views, marks@));
            assert(self@ =~= (Db { posts: views.filter(survives(views, seed)), ..old(self)@ }));
        }
    }

    /// Deletes a group and all that hangs on it. Nothing changes if there is
    /// no such group.
    pub fn delete_group(&mut self, id: GroupId)
        requires
            old(self).wf(),
        ensures
            final(self).wf(),
            final(self)@ == old(self)@.delete_group(id),
    {
        let ghost seed = seed_of_group(self@.users, self@.topics, id);
        let users = &self.users;
        let topics = &self.topics;
        let test = |p: &GroupPostModel| -> (b: bool)
            ensures
                b == seed_of_group(users@, topics@, id)(p@),
            {
                member_in_group(users, p.user_id, id) || topic_lies_in(topics, p.topic_id, id)
            };
        let seeded = marks_of(&self.posts, test);
        proof {
            lemma_delete_group_wf(self@, id);
            assert forall|i: int| 0 <= i < self@.posts.len() implies seeded@[i] == seed(
                #[trigger] self@.posts[i],
            ) by {
                assert(self@.posts[i] == self.posts@[i]@);
            }
        }
        self.sweep_posts(&seeded, Ghost(seed));
        let test = |g: &GroupModel| -> (b: bool)
            ensures
                b == (g.id != id),
            {
                g.id != id
            };
        let marks = marks_of(&self.groups, test);
        proof {
            lemma_picked_is_filter(self.groups@, marks@, group_other_than(id));
        }
        self.groups = copies_of_marked(&self.groups, &marks);
        let test = |a: &GroupAdminModel| -> (b: bool)
            ensures
                b == (a.group_id != id),
            {
                a.group_id != id
            };
        let marks = marks_of(&self.admins, test);
        proof {
            lemma_picked_is_filter(self.admins@, marks@, admin_outside(id));
        }
        self.admins = copies_of_marked(&self.admins, &marks);
        let test = |a: &GroupBannedModel| -> (b: bool)
            ensures
                b == (a.group_id != id),
            {
                a.group_id != id
            };
        let marks = marks_of(&self.banned, test);
        proof {
            lemma_picked_is_filter(self.banned@, marks@, banned_outside(id));
        }
        self.banned = copies_of_marked(&self.banned, &marks);
        let test = |u: &GroupUserModel| -> (b: bool)
            ensures
                b == (u.group_id != id),
            {
                u.group_id != id
            };
        let marks = marks_of(&self.users, test);
        proof {
            lemma_picked_is_filter(self.users@, marks@, user_outside(id));
        }
        self.users = copies_of_marked(&self.users, &marks);
        let test = |t: &GroupTopicModel| -> (b: bool)
            ensures
                b == (t.group_id != id),
            {
                t.group_id != id
            };
        let marks = marks_of(&self.topics, test);
        proof {
            lemma_picked_is_filter(self.topics@, marks@, topic_outside(id));
        }
        self.topics = copies_of_marked(&self.topics, &marks);
        proof {
            assert(self@ =~= old(self)@.delete_group(id));
        }
    }

    /// Deletes a topic and its posts. Nothing changes if there is no such
    /// topic.
    pub fn delete_topic(&mut self, id: TopicId)
        requires
            old(self).wf(),
        ensures
            final(self).wf(),
            final(self)@ == old(self)@.delete_topic(id),
    {
        let ghost seed = seed_of_topic(id);
        let test = |p: &GroupPostModel| -> (b: bool)
            ensures
                b == seed_of_topic(id)(p@),
            {
                p.topic_id == id
            };
        let seeded = marks_of(&self.posts, test);
        proof {
            lemma_delete_topic_wf(self@, id);
            assert forall|i: int| 0 <= i < self@.posts.len() implies seeded@[i] == seed(
                #[trigger] self@.posts[i],
            ) by {
                assert(self@.posts[i] == self.posts@[i]@);
            }
        }
        self.sweep_posts(&seeded, Ghost(seed));
        let test = |t: &GroupTopicModel| -> (b: bool)
            ensures
                b == (t.id != id),
            {
                t.id != id
            };
        let marks = marks_of(&self.topics, test);
        proof {
            lemma_picked_is_filter(self.topics@, marks@, topic_other_than(id));
        }
        self.topics = copies_of_marked(&self.topics, &marks);
        proof {
            assert(self@ =~= old(self)@.delete_topic(id));
        }
    }

    /// Deletes a post and the replies to it, at any depth. Nothing changes
    /// if there is no such post.
    pub fn delete_post(&mut self, id: PostId)
        requires
            old(self).wf(),
        ensures
            final(self).wf(),
            final(self)@ == old(self)@.delete_post(id),
    {
        let ghost seed = seed_of_post(id);
        let test = |p: &GroupPostModel| -> (b: bool)
            ensures
                b == seed_of_post(id)(p@),
            {
                p.id == id
            };
        let seeded = marks_of(&self.posts, test);
        proof {
            lemma_delete_post_wf(self@, id);
            assert forall|i: int| 0 <= i < self@.posts.len() implies seeded@[i] == seed(
                #[trigger] self@.posts[i],
            ) by {
                assert(self@.posts[i] == self.posts@[i]@);
            }
        }
        self.sweep_posts(&seeded, Ghost(seed));
        proof {
            assert(self@ =~= old(self)@.delete_post(id));
        }
    }

    /// Ends the membership of a profile in a group, and drops the posts
    /// written under it. Nothing changes if there is no such membership.
    pub fn delete_user(&mut self, group_id: GroupId, profile_id: ProfileId)
        requires
            old(self).wf(),
        ensures
            final(self).wf(),
            final(self)@ == old(self)@.delete_user(group_id, profile_id),
    {
        let ghost seed = seed_of_member(self@.users, group_id, profile_id);
        let users = &self.users;
        let test = |p: &GroupPostModel| -> (b: bool)
            ensures
                b == seed_of_member(users@, group_id, profile_id)(p@),
            {
                member_is(users, p.user_id, group_id, profile_id)
            };
        let seeded = marks_of(&self.posts, test);
        proof {
            lemma_delete_user_wf(self@, group_id, profile_id);
            assert forall|i: int| 0 <= i < self@.posts.len() implies seeded@[i] == seed(
                #[trigger] self@.posts[i],
            ) by {
                assert(self@.posts[i] == self.posts@[i]@);
            }
        }
        self.sweep_posts(&seeded, Ghost(seed));
        let test = |u: &GroupUserModel| -> (b: bool)
            ensures
                b == !(u.group_id == group_id && u.profile_id == profile_id),
            {
                !(u.group_id == group_id && u.profile_id == profile_id)
            };
        let marks = marks_of(&self.users, test);
        proof {
            lemma_picked_is_filter(self.users@, marks@, user_other_than(group_id, profile_id));
        }
        self.users = copies_of_marked(&self.users, &marks);
        proof {
            assert(self@ =~= old(self)@.delete_user(group_id, profile_id));
        }
    }

    /// Takes a profile out of the admins of a group. Nothing changes if it
    /// is not among them.
    pub fn delete_admin(&mut self, row: GroupAdminModel)
        requires
            old(self).wf(),
        ensures
            final(self).wf(),
            final(self)@ == old(self)@.delete_admin(row),
    {
        let test = |a: &GroupAdminModel| -> (b: bool)
            ensures
                b == (*a != row),
            {
                !(a.group_id == row.group_id && a.identity_id == row.identity_id)
            };
        let marks = marks_of(&self.admins, test);
        proof {
            lemma_delete_admin_wf(self@, row);
            lemma_picked_is_filter(self.admins@, marks@, admin_other_than(row));
        }
        self.admins = copies_of_marked(&self.admins, &marks);
        proof {
            assert(self@ =~= old(self)@.delete_admin(row));
        }
    }

    /// Lifts a ban. Nothing changes if there is none.
    pub fn delete_banned(&mut self, row: GroupBannedModel)
        requires
            old(self).wf(),
        ensures
            final(self).wf(),
            final(self)@ == old(self)@.delete_banned(row),
    {
        let test = |a: &GroupBannedModel| -> (b: bool)
            ensures
                b == (*a != row),
            {
                !(a.group_id == row.group_id && a.identity_id == row.identity_id)
            };
        let marks = marks_of(&self.banned, test);
        proof {
            lemma_delete_banned_wf(self@, row);
            lemma_picked_is_filter(self.banned@, marks@, banned_other_than(row));
        }
        self.banned = copies_of_marked(&self.banned, &marks);
        proof {
            assert(self@ =~= old(self)@.delete_banned(row));
        }
    }

    /// Gives a post a new title, a new body, both or neither, and says
    /// whether there is such a post.
    pub fn update_post(&mut self, id: PostId, title: Option<String>, body: Option<String>) -> (r:
        bool)
        requires
            old(self).wf(),
        ensures
            final(self).wf(),
            final(self)@ == old(self)@.update_post(id, text_view(title), text_view(body)),
            r == has_post(old(self)@.posts, id),
    {
        proof {
            lemma_update_post_wf(self@, id, text_view(title), text_view(body));
        }
        match self.find_post(id) {
            Some(i) => {
                let revised = self.posts[i].clone().revised(title, body);
                proof {
                    assert forall|k: int| 0 <= k < self@.posts.len() && k != i implies self@.posts[k].id
                        != id by {
                        assert(self@.posts[i as int] == self.posts@[i as int]@);
                        if k < i {
                            assert(self@.posts[k].id != self@.posts[i as int].id);
                        } else {
                            assert(self@.posts[i as int].id != self@.posts[k].id);
                        }
                    }
                }
                self.posts.set(i, revised);
                proof {
                    assert(self@.posts =~= with_revision(
                        old(self)@.posts,
                        id,
                        text_view(title),
                        text_view(body),
                    ));
                    assert(self@ =~= old(self)@.update_post(id, text_view(title), text_view(body)));
                }
                true
            },
            None => {
                proof {
                    assert(self@.posts =~= with_revision(
                        self@.posts,
                        id,
                        text_view(title),
                        text_view(body),
                    ));
                    assert(self@ =~= old(self)@.update_post(id, text_view(title), text_view(body)));
                }
                false
            },
        }
    }
}

} // verus!
