use crate::ids::{GroupId, ProfileId, TopicId};
use crate::timestamp::Timestamp;
use vstd::prelude::*;

verus! {

/// A discussion thread container within a group, and the profile that
/// started it.
#[derive(Clone, Copy, Debug, PartialEq, Eq, Structural)]
pub struct Model {
    pub id: TopicId,
    pub group_id: GroupId,
    pub profile_id: ProfileId,
    pub created_at: Timestamp,
}

} // verus!
