use crate::ids::{NodeId, ProfileId};
use vstd::prelude::*;

verus! {

/// The link that makes a network participant the owner of a profile. A
/// participant may own many profiles; a profile has at most one owner.
#[derive(Clone, Copy, Debug, PartialEq, Eq)]
pub struct Model {
    pub node_id: NodeId,
    pub profile_id: ProfileId,
}

} // verus!
