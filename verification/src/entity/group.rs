use crate::ids::{GroupId, ProfileId};
use vstd::prelude::*;

verus! {

/// A group, and the profile that created it.
#[derive(Clone, Copy, Debug, PartialEq, Eq, Structural)]
pub struct Model {
    pub id: GroupId,
    pub profile_id: ProfileId,
}

} // verus!
