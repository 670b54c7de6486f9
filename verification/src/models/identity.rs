use crate::db::{identity_of, Db};
use crate::entity::IdentityModel;
use crate::error::DbErr;
use crate::ids::{NodeId, ProfileId};
use crate::store::Store;
use vstd::prelude::*;

verus! {

/// Why a statement on identities failed.
#[derive(Clone, Copy, Debug, PartialEq, Eq, Structural)]
pub enum IdentityError {
    DatabaseError(DbErr),
}

/// The link of a participant to a profile it owns.
pub type Identity = IdentityModel;

/// What linking a profile to a participant makes of a state: refused if the
/// profile has an owner, whoever it is.
pub open spec fn identity_create_outcome(db: Db, node_id: NodeId, profile_id: ProfileId) -> (
    Db,
    Result<Identity, IdentityError>,
) {
    let row = IdentityModel { node_id, profile_id };
    match db.insert_identity(row) {
        Ok(next) => (next, Ok(row)),
        Err(e) => (db, Err(IdentityError::DatabaseError(e))),
    }
}

impl Identity {
    /// Makes the participant the owner of the profile.
    pub fn create(node_id: NodeId, profile_id: ProfileId, conn: &mut Store) -> (r: Result<
        Identity,
        IdentityError,
    >)
        requires
            old(conn).wf(),
        ensures
            final(conn).wf(),
            final(conn)@ == identity_create_outcome(old(conn)@, node_id, profile_id).0,
            r == identity_create_outcome(old(conn)@, node_id, profile_id).1,
    {
        let row = IdentityModel { node_id, profile_id };
        match conn.insert_identity(row) {
            Ok(()) => Ok(row),
            Err(e) => Err(IdentityError::DatabaseError(e)),
        }
    }

    /// The links of the participant, one for each profile it owns.
    pub fn list_for_node_id(node_id: &NodeId, conn: &Store) -> (r: Result<
        Vec<Identity>,
        IdentityError,
    >)
        ensures
            r matches Ok(rows) && rows@ == conn@.identities.filter(identity_of(*node_id)),
    {
        Ok(conn.identities_of(*node_id))
    }
}

} // verus!
