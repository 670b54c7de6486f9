use crate::ids::{GroupId, ProfileId, UserId};
use vstd::prelude::*;

verus! {

/// The membership of one profile in one group. A profile joins a group at
/// most once.
#[derive(Clone, Copy, Debug, PartialEq, Eq, Structural)]
pub struct Model {
    pub id: UserId,
    pub group_id: GroupId,
    pub profile_id: ProfileId,
}

} // verus!
