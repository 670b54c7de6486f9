//! Profiles and their owners.

use crate::db::Db;
use crate::entity::{
    bytes_view, profile_views, result_view, IdentityModel, ProfileModel, ProfileView,
};
use crate::error::{DbErr, ErrorKind};
use crate::ids::{NodeId, ProfileId};
use crate::outside::is_v7;
use crate::store::Store;
use vstd::prelude::*;

verus! {

/// Why an operation on profiles failed.
#[derive(Clone, Copy, Debug, PartialEq, Eq, Structural)]
pub enum ProfilesServiceError {
    /// The store refused the statement or failed.
    DbError(DbErr),
}

impl ProfilesServiceError {
    pub open spec fn spec_kind(self) -> ErrorKind {
        match self {
            ProfilesServiceError::DbError(e) => e.spec_kind(),
        }
    }

    /// What the failure means to the caller.
    #[verifier::when_used_as_spec(spec_kind)]
    pub fn kind(self) -> (r: ErrorKind)
        ensures
            r == self.spec_kind(),
    {
        match self {
            ProfilesServiceError::DbError(e) => e.kind(),
        }
    }

    pub open spec fn text(self) -> Seq<char> {
        "fatal database error"@
    }

    /// The failure in words.
    pub fn message(&self) -> (r: String)
        ensures
            r@ == self.text(),
    {
        "fatal database error".to_owned()
    }
}

/// What creating a profile under the given id makes of a state: the
/// profile and the link to its owner are stored together, or, if the id or
/// the name is taken or the id is linked already, nothing is.
pub open spec fn create_profile_outcome(
    db: Db,
    id: ProfileId,
    node_id: NodeId,
    name: Seq<char>,
    desc: Seq<char>,
    picture: Option<Seq<u8>>,
) -> (Db, Result<ProfileView, ProfilesServiceError>) {
    let row = ProfileView { id, name, desc, picture };
    match db.insert_profile_with_owner(row, IdentityModel { node_id, profile_id: id }) {
        Ok(next) => (next, Ok(row)),
        Err(e) => (db, Err(ProfilesServiceError::DbError(e))),
    }
}

/// The profile row for a new persona.
pub fn new_profile(id: ProfileId, name: String, desc: String, picture: Option<Vec<u8>>) -> (r:
    ProfileModel)
    ensures
        r@ == (ProfileView { id, name: name@, desc: desc@, picture: bytes_view(picture) }),
{
    ProfileModel { id, name, desc, picture }
}

/// The link that is stored together with a new profile: it names the
/// participant that created the profile as its owner.
pub fn owner_link(node_id: NodeId, profile: &ProfileModel) -> (r: IdentityModel)
    ensures
        r == (IdentityModel { node_id, profile_id: profile.id }),
{
    IdentityModel { node_id, profile_id: profile.id }
}

/// Whether a participant that owns the given profiles still needs the
/// default one.
pub fn needs_default_profile(owned: &Vec<ProfileModel>) -> (r: bool)
    ensures
        r == (owned@.len() == 0),
{
    owned.len() == 0
}

/// Creates a profile under the given id and makes the participant its owner.
pub fn create_profile_as(
    db: &mut Store,
    id: ProfileId,
    node_id: NodeId,
    name: String,
    desc: String,
    picture: Option<Vec<u8>>,
) -> (r: Result<ProfileModel, ProfilesServiceError>)
    requires
        old(db).wf(),
    ensures
        final(db).wf(),
        final(db)@ == create_profile_outcome(
            old(db)@,
            id,
            node_id,
            name@,
            desc@,
            bytes_view(picture),
        ).0,
        result_view(r) == create_profile_outcome(
            old(db)@,
            id,
            node_id,
            name@,
            desc@,
            bytes_view(picture),
        ).1,
{
    let row = new_profile(id, name, desc, picture);
    let copy = row.clone();
    let link = owner_link(node_id, &row);
    match db.insert_profile_with_owner(row, link) {
        Ok(()) => Ok(copy),
        Err(e) => Err(ProfilesServiceError::DbError(e)),
    }
}

/// Creates a profile under a fresh id and makes the participant its owner.
/// A name that is taken gives a conflict, and the store stays as it was.
pub fn create_profile(
    db: &mut Store,
    node_id: NodeId,
    name: String,
    desc: String,
    picture: Option<Vec<u8>>,
) -> (r: Result<ProfileModel, ProfilesServiceError>)
    requires
        old(db).wf(),
    ensures
        final(db).wf(),
        exists|id: ProfileId|
            is_v7(id.0) && final(db)@ == (#[trigger] create_profile_outcome(
                old(db)@,
                id,
                node_id,
                name@,
                desc@,
                bytes_view(picture),
            )).0 && result_view(r) == create_profile_outcome(
                old(db)@,
                id,
                node_id,
                name@,
                desc@,
                bytes_view(picture),
            ).1,
{
    let id = ProfileId::new();
    create_profile_as(db, id, node_id, name, desc, picture)
}

/// The profiles that the participant owns; none is a valid answer.
pub fn list_profiles(db: &Store, node_id: NodeId) -> (r: Result<
    Vec<ProfileModel>,
    ProfilesServiceError,
>)
    ensures
        r matches Ok(rows) && profile_views(rows@) == db@.profiles_of(node_id),
{
    Ok(db.profiles_of(node_id))
}

/// What making sure that a participant has a profile makes of a state: a
/// participant that owns none gets one named "Default", under the given
/// id; for one that owns a profile nothing changes.
pub open spec fn ensure_default_profile_outcome(db: Db, id: ProfileId, node_id: NodeId) -> (
    Db,
    Result<(), ProfilesServiceError>,
) {
    if db.profiles_of(node_id).len() > 0 {
        (db, Ok(()))
    } else {
        let made = create_profile_outcome(
            db,
            id,
            node_id,
            "Default"@,
            "Default profile"@,
            None,
        );
        match made.1 {
            Ok(_) => (made.0, Ok(())),
            Err(e) => (db, Err(e)),
        }
    }
}

/// Gives a participant that owns no profile one named "Default", under the
/// given id.
pub fn ensure_default_profile_as(db: &mut Store, id: ProfileId, node_id: NodeId) -> (r: Result<
    (),
    ProfilesServiceError,
>)
    requires
        old(db).wf(),
    ensures
        final(db).wf(),
        final(db)@ == ensure_default_profile_outcome(old(db)@, id, node_id).0,
        r == ensure_default_profile_outcome(old(db)@, id, node_id).1,
{
    let owned = db.profiles_of(node_id);
    if !needs_default_profile(&owned) {
        return Ok(());
    }
    match create_profile_as(db, id, node_id, "Default".to_owned(), "Default profile".to_owned(), None) {
        Ok(_) => Ok(()),
        Err(e) => Err(e),
    }
}

/// Gives a participant that owns no profile one named "Default", under a
/// fresh id.
pub fn ensure_default_profile(db: &mut Store, node_id: NodeId) -> (r: Result<
    (),
    ProfilesServiceError,
>)
    requires
        old(db).wf(),
    ensures
        final(db).wf(),
        old(db)@.profiles_of(node_id).len() > 0 ==> r is Ok && final(db)@ == old(db)@,
        exists|id: ProfileId|
            is_v7(id.0) && final(db)@ == (#[trigger] ensure_default_profile_outcome(
                old(db)@,
                id,
                node_id,
            )).0 && r == ensure_default_profile_outcome(old(db)@, id, node_id).1,
{
    let id = ProfileId::new();
    ensure_default_profile_as(db, id, node_id)
}

} // verus!
