use crate::ids::{GroupId, ProfileId};
use vstd::prelude::*;

verus! {

/// A profile that may carry out destructive operations on a group.
#[derive(Clone, Copy, Debug, PartialEq, Eq, Structural)]
pub struct Model {
    pub group_id: GroupId,
    pub identity_id: ProfileId,
}

} // verus!
