use crate::ids::{GroupId, ProfileId};
use vstd::prelude::*;

verus! {

/// A profile that a group has banned. The table records bans; nothing in
/// this library consults it to refuse an operation.
#[derive(Clone, Copy, Debug, PartialEq, Eq, Structural)]
pub struct Model {
    pub group_id: GroupId,
    pub identity_id: ProfileId,
}

} // verus!
