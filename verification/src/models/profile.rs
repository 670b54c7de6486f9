use crate::db::Db;
use crate::entity::{bytes_view, view_of, ProfileModel, ProfileView};
use crate::error::DbErr;
use crate::ids::ProfileId;
use crate::outside::is_v7;
use crate::store::Store;
use vstd::prelude::*;

verus! {

/// Why a statement on profiles failed.
#[derive(Clone, Copy, Debug, PartialEq, Eq, Structural)]
pub enum ProfileError {
    DatabaseError(DbErr),
}

/// A profile row.
pub type Profile = ProfileModel;

/// What inserting a profile under the given id makes of a state. No owner
/// is linked.
pub open spec fn profile_create_outcome(
    db: Db,
    id: ProfileId,
    name: Seq<char>,
    desc: Seq<char>,
    picture: Option<Seq<u8>>,
) -> (Db, Result<ProfileView, ProfileError>) {
    let row = ProfileView { id, name, desc, picture };
    match db.insert_profile(row) {
        Ok(next) => (next, Ok(row)),
        Err(e) => (db, Err(ProfileError::DatabaseError(e))),
    }
}

impl Profile {
    /// Inserts a profile under the given id.
    pub fn create_as(
        id: ProfileId,
        name: String,
        desc: String,
        picture: Option<Vec<u8>>,
        conn: &mut Store,
    ) -> (r: Result<Profile, ProfileError>)
        requires
            old(conn).wf(),
        ensures
            final(conn).wf(),
            final(conn)@ == profile_create_outcome(
                old(conn)@,
                id,
                name@,
                desc@,
                bytes_view(picture),
            ).0,
            crate::entity::result_view(r) == profile_create_outcome(
                old(conn)@,
                id,
                name@,
                desc@,
                bytes_view(picture),
            ).1,
    {
        let row = ProfileModel { id, name, desc, picture };
        let copy = row.clone();
        match conn.insert_profile(row) {
            Ok(()) => Ok(copy),
            Err(e) => Err(ProfileError::DatabaseError(e)),
        }
    }

    /// Inserts a profile under a fresh id.
    pub fn create(name: String, desc: String, picture: Option<Vec<u8>>, conn: &mut Store) -> (r:
        Result<Profile, ProfileError>)
        requires
            old(conn).wf(),
        ensures
            final(conn).wf(),
            exists|id: ProfileId|
                is_v7(id.0) && final(conn)@ == (#[trigger] profile_create_outcome(
                    old(conn)@,
                    id,
                    name@,
                    desc@,
                    bytes_view(picture),
                )).0 && crate::entity::result_view(r) == profile_create_outcome(
                    old(conn)@,
                    id,
                    name@,
                    desc@,
                    bytes_view(picture),
                ).1,
    {
        let id = ProfileId::new();
        Profile::create_as(id, name, desc, picture, conn)
    }

    /// The profile with the given id, if there is one.
    pub fn by_id(id: &ProfileId, conn: &Store) -> (r: Result<Option<Profile>, ProfileError>)
        requires
            conn.wf(),
        ensures
            r matches Ok(found) && view_of(found) == conn@.profile(*id),
    {
        match conn.profile(*id) {
            Some(row) => Ok(Some(row.clone())),
            None => Ok(None),
        }
    }

    /// The profile with the given name, if there is one.
    pub fn by_name(name: &str, conn: &Store) -> (r: Result<Option<Profile>, ProfileError>)
        requires
            conn.wf(),
        ensures
            r matches Ok(found) && view_of(found) == conn@.profile_named(name@),
    {
        let wanted = name.to_owned();
        match conn.profile_named(&wanted) {
            Some(row) => Ok(Some(row.clone())),
            None => Ok(None),
        }
    }
}

} // verus!
