pub mod post;
pub mod topic;
pub mod user;

use crate::db::{admin_inside, banned_inside, user_inside, Db};
use crate::entity::{
    view_of, GroupAdminModel, GroupBannedModel, GroupModel, GroupUserModel,
};
use crate::error::DbErr;
use crate::ids::{GroupId, ProfileId};
use crate::models::group::user::User;
use crate::outside::is_v7;
use crate::store::Store;
use vstd::prelude::*;

verus! {

/// Why a statement on groups failed.
#[derive(Clone, Copy, Debug, PartialEq, Eq, Structural)]
pub enum GroupError {
    DatabaseError(DbErr),
}

/// A group as it is read: the row, the profiles that are its admins, the
/// profiles it has banned, and its members.
#[derive(Debug, PartialEq, Eq)]
pub struct Group {
    pub id: GroupId,
    pub profile_id: ProfileId,
    pub admin_identities: Vec<ProfileId>,
    pub banned_identities: Vec<ProfileId>,
    pub users: Vec<User>,
}

/// A group as it is read, as a mathematical value.
pub struct GroupDetail {
    pub id: GroupId,
    pub profile_id: ProfileId,
    pub admin_identities: Seq<ProfileId>,
    pub banned_identities: Seq<ProfileId>,
    pub users: Seq<GroupUserModel>,
}

impl View for Group {
    type V = GroupDetail;

    open spec fn view(&self) -> GroupDetail {
        GroupDetail {
            id: self.id,
            profile_id: self.profile_id,
            admin_identities: self.admin_identities@,
            banned_identities: self.banned_identities@,
            users: self.users@,
        }
    }
}

/// The profiles that admin rows name.
pub open spec fn admin_ids(rows: Seq<GroupAdminModel>) -> Seq<ProfileId> {
    Seq::new(rows.len(), |i: int| rows[i].identity_id)
}

/// The profiles that ban rows name.
pub open spec fn banned_ids(rows: Seq<GroupBannedModel>) -> Seq<ProfileId> {
    Seq::new(rows.len(), |i: int| rows[i].identity_id)
}

/// A group row with what hangs on it.
pub open spec fn group_detail(db: Db, row: GroupModel) -> GroupDetail {
    GroupDetail {
        id: row.id,
        profile_id: row.profile_id,
        admin_identities: admin_ids(db.admins.filter(admin_inside(row.id))),
        banned_identities: banned_ids(db.banned.filter(banned_inside(row.id))),
        users: db.users.filter(user_inside(row.id)),
    }
}

/// The groups of the rows, each with what hangs on it.
pub open spec fn group_details(db: Db, rows: Seq<GroupModel>) -> Seq<GroupDetail> {
    Seq::new(rows.len(), |i: int| group_detail(db, rows[i]))
}

/// The views of groups as they are read.
pub open spec fn group_views(groups: Seq<Group>) -> Seq<GroupDetail> {
    Seq::new(groups.len(), |i: int| groups[i]@)
}

/// What inserting a group under the given id makes of a state. The group
/// has no admin yet, not even its creator.
pub open spec fn group_create_outcome(db: Db, id: GroupId, profile_id: ProfileId) -> (
    Db,
    Result<GroupDetail, GroupError>,
) {
    match db.insert_group(GroupModel { id, profile_id }) {
        Ok(next) => (
            next,
            Ok(
                GroupDetail {
                    id,
                    profile_id,
                    admin_identities: Seq::empty(),
                    banned_identities: Seq::empty(),
                    users: Seq::empty(),
                },
            ),
        ),
        Err(e) => (db, Err(GroupError::DatabaseError(e))),
    }
}

/// How a statement on admins or bans that may be refused leaves the store.
pub open spec fn group_settled(before: Db, outcome: Result<Db, DbErr>, after: Db, r: Result<(), GroupError>) -> bool {
    match outcome {
        Ok(next) => r is Ok && after == next,
        Err(e) => r == Err::<(), GroupError>(GroupError::DatabaseError(e)) && after == before,
    }
}

impl Group {
    fn load(row: GroupModel, conn: &Store) -> (r: Group)
        ensures
            r@ == group_detail(conn@, row),
    {
        let admins = conn.admins_of(row.id);
        let mut admin_identities: Vec<ProfileId> = Vec::new();
        let mut i: usize = 0;
        while i < admins.len()
            invariant
                0 <= i <= admins@.len(),
                admin_identities@.len() == i,
                forall|k: int| 0 <= k < i ==> admin_identities@[k] == admins@[k].identity_id,
            decreases admins@.len() - i,
        {
            admin_identities.push(admins[i].identity_id);
            i += 1;
        }
        let banned = conn.banned_of(row.id);
        let mut banned_identities: Vec<ProfileId> = Vec::new();
        let mut j: usize = 0;
        while j < banned.len()
            invariant
                0 <= j <= banned@.len(),
                banned_identities@.len() == j,
                forall|k: int| 0 <= k < j ==> banned_identities@[k] == banned@[k].identity_id,
            decreases banned@.len() - j,
        {
            banned_identities.push(banned[j].identity_id);
            j += 1;
        }
        let users = conn.users_of(row.id);
        proof {
            assert(admin_identities@ =~= admin_ids(admins@));
            assert(banned_identities@ =~= banned_ids(banned@));
        }
        Group { id: row.id, profile_id: row.profile_id, admin_identities, banned_identities, users }
    }

    /// Inserts a group under the given id.
    pub fn create_as(id: GroupId, profile_id: ProfileId, conn: &mut Store) -> (r: Result<
        Group,
        GroupError,
    >)
        requires
            old(conn).wf(),
        ensures
            final(conn).wf(),
            final(conn)@ == group_create_outcome(old(conn)@, id, profile_id).0,
            crate::entity::result_view(r) == group_create_outcome(old(conn)@, id, profile_id).1,
    {
        match conn.insert_group(GroupModel { id, profile_id }) {
            Ok(()) => Ok(
                Group {
                    id,
                    profile_id,
                    admin_identities: Vec::new(),
                    banned_identities: Vec::new(),
                    users: Vec::new(),
                },
            ),
            Err(e) => Err(GroupError::DatabaseError(e)),
        }
    }

    /// Inserts a group under a fresh id.
    pub fn create(profile_id: ProfileId, conn: &mut Store) -> (r: Result<Group, GroupError>)
        requires
            old(conn).wf(),
        ensures
            final(conn).wf(),
            exists|id: GroupId|
                is_v7(id.0) && final(conn)@ == (#[trigger] group_create_outcome(
                    old(conn)@,
                    id,
                    profile_id,
                )).0 && crate::entity::result_view(r) == group_create_outcome(
                    old(conn)@,
                    id,
                    profile_id,
                ).1,
    {
        let id = GroupId::new();
        Group::create_as(id, profile_id, conn)
    }

    /// The group with the given id, with its admins, bans and members, if
    /// there is one.
    pub fn by_id(id: &GroupId, conn: &Store) -> (r: Result<Option<Group>, GroupError>)
        requires
            conn.wf(),
        ensures
            r matches Ok(found) && view_of(found) == match conn@.group(*id) {
                Some(row) => Some(group_detail(conn@, row)),
                None => None,
            },
    {
        match conn.group(*id) {
            Some(row) => Ok(Some(Group::load(row, conn))),
            None => Ok(None),
        }
    }

    /// Makes a profile an admin of a group. A profile that is one stays
    /// one; a group that does not exist gets none.
    pub fn add_admin(group_id: GroupId, identity_id: ProfileId, conn: &mut Store) -> (r: Result<
        (),
        GroupError,
    >)
        requires
            old(conn).wf(),
        ensures
            final(conn).wf(),
            group_settled(
                old(conn)@,
                old(conn)@.insert_admin(GroupAdminModel { group_id, identity_id }),
                final(conn)@,
                r,
            ),
    {
        match conn.insert_admin(GroupAdminModel { group_id, identity_id }) {
            Ok(()) => Ok(()),
            Err(e) => Err(GroupError::DatabaseError(e)),
        }
    }

    /// Takes a profile out of the admins of a group, the last one
    /// included. Nothing changes if it is not among them.
    pub fn remove_admin(group_id: GroupId, identity_id: ProfileId, conn: &mut Store) -> (r: Result<
        (),
        GroupError,
    >)
        requires
            old(conn).wf(),
        ensures
            final(conn).wf(),
            r is Ok,
            final(conn)@ == old(conn)@.delete_admin(GroupAdminModel { group_id, identity_id }),
    {
        conn.delete_admin(GroupAdminModel { group_id, identity_id });
        Ok(())
    }

    /// Bans a profile from a group. A profile that is banned stays banned.
    pub fn add_banned(group_id: GroupId, identity_id: ProfileId, conn: &mut Store) -> (r: Result<
        (),
        GroupError,
    >)
        requires
            old(conn).wf(),
        ensures
            final(conn).wf(),
            group_settled(
                old(conn)@,
                old(conn)@.insert_banned(GroupBannedModel { group_id, identity_id }),
                final(conn)@,
                r,
            ),
    {
        match conn.insert_banned(GroupBannedModel { group_id, identity_id }) {
            Ok(()) => Ok(()),
            Err(e) => Err(GroupError::DatabaseError(e)),
        }
    }

    /// Lifts the ban of a profile from a group. Nothing changes if there
    /// is none.
    pub fn remove_banned(group_id: GroupId, identity_id: ProfileId, conn: &mut Store) -> (r:
        Result<(), GroupError>)
        requires
            old(conn).wf(),
        ensures
            final(conn).wf(),
            r is Ok,
            final(conn)@ == old(conn)@.delete_banned(GroupBannedModel { group_id, identity_id }),
    {
        conn.delete_banned(GroupBannedModel { group_id, identity_id });
        Ok(())
    }

    /// The groups of which the profile is an admin, each with its admins,
    /// bans and members.
    pub fn list_for_identity(identity_id: &ProfileId, conn: &Store) -> (r: Result<
        Vec<Group>,
        GroupError,
    >)
        ensures
            r matches Ok(groups) && group_views(groups@) == group_details(
                conn@,
                conn@.groups_administered_by(*identity_id),
            ),
    {
        let rows = conn.groups_administered_by(*identity_id);
        let mut groups: Vec<Group> = Vec::new();
        let mut i: usize = 0;
        while i < rows.len()
            invariant
                0 <= i <= rows@.len(),
                groups@.len() == i,
                forall|k: int| 0 <= k < i ==> groups@[k]@ == group_detail(conn@, rows@[k]),
            decreases rows@.len() - i,
        {
            groups.push(Group::load(rows[i], conn));
            i += 1;
        }
        proof {
            assert(group_views(groups@) =~= group_details(conn@, rows@));
        }
        Ok(groups)
    }
}

} // verus!
