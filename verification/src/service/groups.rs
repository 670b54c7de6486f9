//! Groups, their admins and their members.

use crate::db::{admin_inside, group_owned_by, has_group, has_profile, user_inside, Db};
use crate::entity::{GroupAdminModel, GroupModel, GroupUserModel, ProfileModel};
use crate::error::{DbErr, ErrorKind};
use crate::ids::{GroupId, ProfileId, UserId};
use crate::outside::is_v7;
use crate::store::Store;
use vstd::prelude::*;

verus! {

/// Why an operation on groups failed.
#[derive(Clone, Copy, Debug, PartialEq, Eq, Structural)]
pub enum GroupsServiceError {
    /// The store refused the statement or failed.
    DbError(DbErr),
    GroupNotFound,
    ProfileNotFound,
    /// The acting profile is no admin of the group.
    Unauthorized,
}

impl GroupsServiceError {
    pub open spec fn spec_kind(self) -> ErrorKind {
        match self {
            GroupsServiceError::DbError(e) => e.spec_kind(),
            GroupsServiceError::GroupNotFound => ErrorKind::NotFound,
            GroupsServiceError::ProfileNotFound => ErrorKind::NotFound,
            GroupsServiceError::Unauthorized => ErrorKind::Unauthorized,
        }
    }

    /// What the failure means to the caller.
    #[verifier::when_used_as_spec(spec_kind)]
    pub fn kind(self) -> (r: ErrorKind)
        ensures
            r == self.spec_kind(),
    {
        match self {
            GroupsServiceError::DbError(e) => e.kind(),
            GroupsServiceError::GroupNotFound => ErrorKind::NotFound,
            GroupsServiceError::ProfileNotFound => ErrorKind::NotFound,
            GroupsServiceError::Unauthorized => ErrorKind::Unauthorized,
        }
    }

    pub open spec fn text(self) -> Seq<char> {
        match self {
            GroupsServiceError::DbError(_) => "fatal database error"@,
            GroupsServiceError::GroupNotFound => "group not found"@,
            GroupsServiceError::ProfileNotFound => "profile not found"@,
            GroupsServiceError::Unauthorized => "unauthorized: not a group admin"@,
        }
    }

    /// The failure in words.
    pub fn message(&self) -> (r: String)
        ensures
            r@ == self.text(),
    {
        match self {
            GroupsServiceError::DbError(_) => "fatal database error".to_owned(),
            GroupsServiceError::GroupNotFound => "group not found".to_owned(),
            GroupsServiceError::ProfileNotFound => "profile not found".to_owned(),
            GroupsServiceError::Unauthorized => "unauthorized: not a group admin".to_owned(),
        }
    }
}

/// What creating a group under the given id makes of a state: the creator
/// has to exist; the group and its first admin, the creator, are stored
/// together.
pub open spec fn create_group_outcome(db: Db, id: GroupId, profile_id: ProfileId) -> (
    Db,
    Result<GroupModel, GroupsServiceError>,
) {
    let row = GroupModel { id, profile_id };
    if !has_profile(db.profiles, profile_id) {
        (db, Err(GroupsServiceError::ProfileNotFound))
    } else {
        match db.insert_group_with_admin(
            row,
            GroupAdminModel { group_id: id, identity_id: profile_id },
        ) {
            Ok(next) => (next, Ok(row)),
            Err(e) => (db, Err(GroupsServiceError::DbError(e))),
        }
    }
}

/// What deleting a group on behalf of a profile makes of a state: nothing,
/// unless the profile is an admin of the group.
pub open spec fn delete_group_outcome(db: Db, group_id: GroupId, profile_id: ProfileId) -> (
    Db,
    Result<(), GroupsServiceError>,
) {
    if !db.is_admin(group_id, profile_id) {
        (db, Err(GroupsServiceError::Unauthorized))
    } else {
        (db.delete_group(group_id), Ok(()))
    }
}

/// What adding a profile to a group under the given membership id makes of
/// a state: group and profile have to exist, and the profile must not be a
/// member already.
pub open spec fn add_user_outcome(db: Db, id: UserId, group_id: GroupId, profile_id: ProfileId) -> (
    Db,
    Result<GroupUserModel, GroupsServiceError>,
) {
    let row = GroupUserModel { id, group_id, profile_id };
    if !has_group(db.groups, group_id) {
        (db, Err(GroupsServiceError::GroupNotFound))
    } else if !has_profile(db.profiles, profile_id) {
        (db, Err(GroupsServiceError::ProfileNotFound))
    } else {
        match db.insert_user(row) {
            Ok(next) => (next, Ok(row)),
            Err(e) => (db, Err(GroupsServiceError::DbError(e))),
        }
    }
}

/// The group that a profile may create under the given id, given what a
/// search for the profile found.
pub fn new_group(id: GroupId, creator: Option<&ProfileModel>) -> (r: Result<
    GroupModel,
    GroupsServiceError,
>)
    ensures
        r == match creator {
            Some(profile) => Ok::<GroupModel, GroupsServiceError>(
                GroupModel { id, profile_id: profile.id },
            ),
            None => Err::<GroupModel, GroupsServiceError>(GroupsServiceError::ProfileNotFound),
        },
{
    match creator {
        Some(profile) => Ok(GroupModel { id, profile_id: profile.id }),
        None => Err(GroupsServiceError::ProfileNotFound),
    }
}

/// The admin row that is stored together with a new group: it names the
/// creator.
pub fn first_admin(group: &GroupModel) -> (r: GroupAdminModel)
    ensures
        r == (GroupAdminModel { group_id: group.id, identity_id: group.profile_id }),
{
    GroupAdminModel { group_id: group.id, identity_id: group.profile_id }
}

/// Whether a profile may delete a group, given what a search for its admin
/// row found.
pub fn authorize_admin(admin: Option<GroupAdminModel>) -> (r: Result<(), GroupsServiceError>)
    ensures
        r == match admin {
            Some(_) => Ok::<(), GroupsServiceError>(()),
            None => Err::<(), GroupsServiceError>(GroupsServiceError::Unauthorized),
        },
{
    match admin {
        Some(_) => Ok(()),
        None => Err(GroupsServiceError::Unauthorized),
    }
}

/// The group that was asked for, given what a search for it found.
pub fn found_group(group: Option<GroupModel>) -> (r: Result<GroupModel, GroupsServiceError>)
    ensures
        r == match group {
            Some(row) => Ok::<GroupModel, GroupsServiceError>(row),
            None => Err::<GroupModel, GroupsServiceError>(GroupsServiceError::GroupNotFound),
        },
{
    match group {
        Some(row) => Ok(row),
        None => Err(GroupsServiceError::GroupNotFound),
    }
}

/// The membership that joins a profile to a group under the given id,
/// given what the searches for the group and for the profile found. A
/// missing group is reported before a missing profile.
pub fn new_member(id: UserId, group: Option<GroupModel>, profile: Option<&ProfileModel>) -> (r:
    Result<GroupUserModel, GroupsServiceError>)
    ensures
        r == match (group, profile) {
            (None, _) => Err::<GroupUserModel, GroupsServiceError>(
                GroupsServiceError::GroupNotFound,
            ),
            (Some(_), None) => Err::<GroupUserModel, GroupsServiceError>(
                GroupsServiceError::ProfileNotFound,
            ),
            (Some(g), Some(p)) => Ok::<GroupUserModel, GroupsServiceError>(
                GroupUserModel { id, group_id: g.id, profile_id: p.id },
            ),
        },
{
    match group {
        None => Err(GroupsServiceError::GroupNotFound),
        Some(g) => match profile {
            None => Err(GroupsServiceError::ProfileNotFound),
            Some(p) => Ok(GroupUserModel { id, group_id: g.id, profile_id: p.id }),
        },
    }
}

/// Creates a group under the given id, owned by the profile, with the
/// profile as its only admin.
pub fn create_group_as(db: &mut Store, id: GroupId, profile_id: ProfileId) -> (r: Result<
    GroupModel,
    GroupsServiceError,
>)
    requires
        old(db).wf(),
    ensures
        final(db).wf(),
        final(db)@ == create_group_outcome(old(db)@, id, profile_id).0,
        r == create_group_outcome(old(db)@, id, profile_id).1,
{
    let row = match new_group(id, db.profile(profile_id)) {
        Ok(row) => row,
        Err(e) => {
            return Err(e);
        },
    };
    match db.insert_group_with_admin(row, first_admin(&row)) {
        Ok(()) => Ok(row),
        Err(e) => Err(GroupsServiceError::DbError(e)),
    }
}

/// Creates a group under a fresh id, owned by the profile, with the profile
/// as its only admin.
pub fn create_group(db: &mut Store, profile_id: ProfileId) -> (r: Result<
    GroupModel,
    GroupsServiceError,
>)
    requires
        old(db).wf(),
    ensures
        final(db).wf(),
        !has_profile(old(db)@.profiles, profile_id) ==> r == Err::<
            GroupModel,
            GroupsServiceError,
        >(GroupsServiceError::ProfileNotFound),
        exists|id: GroupId|
            is_v7(id.0) && final(db)@ == (#[trigger] create_group_outcome(
                old(db)@,
                id,
                profile_id,
            )).0 && r == create_group_outcome(old(db)@, id, profile_id).1,
{
    let id = GroupId::new();
    create_group_as(db, id, profile_id)
}

/// The groups that the profile created.
pub fn list_groups(db: &Store, profile_id: ProfileId) -> (r: Result<
    Vec<GroupModel>,
    GroupsServiceError,
>)
    ensures
        r matches Ok(rows) && rows@ == db@.groups.filter(group_owned_by(profile_id)),
{
    Ok(db.groups_owned_by(profile_id))
}

/// The group with the given id.
pub fn get_group(db: &Store, group_id: GroupId) -> (r: Result<GroupModel, GroupsServiceError>)
    requires
        db.wf(),
    ensures
        r == match db@.group(group_id) {
            Some(row) => Ok::<GroupModel, GroupsServiceError>(row),
            None => Err::<GroupModel, GroupsServiceError>(GroupsServiceError::GroupNotFound),
        },
{
    found_group(db.group(group_id))
}

/// Deletes a group on behalf of a profile, which has to be one of its
/// admins. With the group go its admins, bans, members and topics, and
/// their posts.
pub fn delete_group(db: &mut Store, group_id: GroupId, profile_id: ProfileId) -> (r: Result<
    (),
    GroupsServiceError,
>)
    requires
        old(db).wf(),
    ensures
        final(db).wf(),
        final(db)@ == delete_group_outcome(old(db)@, group_id, profile_id).0,
        r == delete_group_outcome(old(db)@, group_id, profile_id).1,
{
    match authorize_admin(db.admin(group_id, profile_id)) {
        Ok(()) => {
            db.delete_group(group_id);
            Ok(())
        },
        Err(e) => Err(e),
    }
}

/// Whether the profile is an admin of the group. A profile that is none,
/// or a group that does not exist, gives `false`, never a failure.
pub fn is_admin(db: &Store, group_id: GroupId, profile_id: ProfileId) -> (r: Result<
    bool,
    GroupsServiceError,
>)
    ensures
        r == Ok::<bool, GroupsServiceError>(db@.is_admin(group_id, profile_id)),
{
    Ok(db.is_admin(group_id, profile_id))
}

/// The admins of the group.
pub fn list_admins(db: &Store, group_id: GroupId) -> (r: Result<
    Vec<GroupAdminModel>,
    GroupsServiceError,
>)
    ensures
        r matches Ok(rows) && rows@ == db@.admins.filter(admin_inside(group_id)),
{
    Ok(db.admins_of(group_id))
}

/// Makes the profile a member of the group, under the given membership id.
pub fn add_user_as(db: &mut Store, id: UserId, group_id: GroupId, profile_id: ProfileId) -> (r:
    Result<GroupUserModel, GroupsServiceError>)
    requires
        old(db).wf(),
    ensures
        final(db).wf(),
        final(db)@ == add_user_outcome(old(db)@, id, group_id, profile_id).0,
        r == add_user_outcome(old(db)@, id, group_id, profile_id).1,
{
    let row = match new_member(id, db.group(group_id), db.profile(profile_id)) {
        Ok(row) => row,
        Err(e) => {
            return Err(e);
        },
    };
    match db.insert_user(row) {
        Ok(()) => Ok(row),
        Err(e) => Err(GroupsServiceError::DbError(e)),
    }
}

/// Makes the profile a member of the group, under a fresh membership id.
pub fn add_user(db: &mut Store, group_id: GroupId, profile_id: ProfileId) -> (r: Result<
    GroupUserModel,
    GroupsServiceError,
>)
    requires
        old(db).wf(),
    ensures
        final(db).wf(),
        exists|id: UserId|
            is_v7(id.0) && final(db)@ == (#[trigger] add_user_outcome(
                old(db)@,
                id,
                group_id,
                profile_id,
            )).0 && r == add_user_outcome(old(db)@, id, group_id, profile_id).1,
{
    let id = UserId::new();
    add_user_as(db, id, group_id, profile_id)
}

/// The members of the group.
pub fn list_users(db: &Store, group_id: GroupId) -> (r: Result<
    Vec<GroupUserModel>,
    GroupsServiceError,
>)
    ensures
        r matches Ok(rows) && rows@ == db@.users.filter(user_inside(group_id)),
{
    Ok(db.users_of(group_id))
}

} // verus!
