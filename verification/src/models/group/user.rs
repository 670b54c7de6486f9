use crate::db::{user_inside, user_of_profile, Db};
use crate::entity::GroupUserModel;
use crate::error::DbErr;
use crate::ids::{GroupId, ProfileId, UserId};
use crate::outside::is_v7;
use crate::store::Store;
use vstd::prelude::*;

verus! {

/// Why a statement on memberships failed.
#[derive(Clone, Copy, Debug, PartialEq, Eq, Structural)]
pub enum UserError {
    DatabaseError(DbErr),
}

/// A membership row.
pub type User = GroupUserModel;

/// What inserting a membership under the given id makes of a state.
pub open spec fn user_add_outcome(db: Db, id: UserId, group_id: GroupId, profile_id: ProfileId) -> (
    Db,
    Result<User, UserError>,
) {
    let row = GroupUserModel { id, group_id, profile_id };
    match db.insert_user(row) {
        Ok(next) => (next, Ok(row)),
        Err(e) => (db, Err(UserError::DatabaseError(e))),
    }
}

impl User {
    /// Makes the profile a member of the group, under the given id.
    pub fn add_as(id: UserId, group_id: GroupId, profile_id: ProfileId, conn: &mut Store) -> (r:
        Result<User, UserError>)
        requires
            old(conn).wf(),
        ensures
            final(conn).wf(),
            final(conn)@ == user_add_outcome(old(conn)@, id, group_id, profile_id).0,
            r == user_add_outcome(old(conn)@, id, group_id, profile_id).1,
    {
        let row = GroupUserModel { id, group_id, profile_id };
        match conn.insert_user(row) {
            Ok(()) => Ok(row),
            Err(e) => Err(UserError::DatabaseError(e)),
        }
    }

    /// Makes the profile a member of the group, under a fresh id.
    pub fn add(group_id: GroupId, profile_id: ProfileId, conn: &mut Store) -> (r: Result<
        User,
        UserError,
    >)
        requires
            old(conn).wf(),
        ensures
            final(conn).wf(),
            exists|id: UserId|
                is_v7(id.0) && final(conn)@ == (#[trigger] user_add_outcome(
                    old(conn)@,
                    id,
                    group_id,
                    profile_id,
                )).0 && r == user_add_outcome(old(conn)@, id, group_id, profile_id).1,
    {
        let id = UserId::new();
        User::add_as(id, group_id, profile_id, conn)
    }

    /// Ends the membership of the profile in the group; the posts written
    /// under it go with it. Nothing changes if the profile is no member.
    pub fn remove(group_id: GroupId, profile_id: ProfileId, conn: &mut Store) -> (r: Result<
        (),
        UserError,
    >)
        requires
            old(conn).wf(),
        ensures
            final(conn).wf(),
            r is Ok,
            final(conn)@ == old(conn)@.delete_user(group_id, profile_id),
    {
        conn.delete_user(group_id, profile_id);
        Ok(())
    }

    /// The members of the group.
    pub fn list_for_group(group_id: &GroupId, conn: &Store) -> (r: Result<Vec<User>, UserError>)
        ensures
            r matches Ok(rows) && rows@ == conn@.users.filter(user_inside(*group_id)),
    {
        Ok(conn.users_of(*group_id))
    }

    /// The memberships of the profile.
    pub fn list_for_profile(profile_id: &ProfileId, conn: &Store) -> (r: Result<
        Vec<User>,
        UserError,
    >)
        ensures
            r matches Ok(rows) && rows@ == conn@.users.filter(user_of_profile(*profile_id)),
    {
        Ok(conn.users_of_profile(*profile_id))
    }
}

} // verus!
