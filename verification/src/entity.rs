//! The rows of the eight tables. A row that owns text or bytes has a view, the
//! same row with sequences in their place; contracts speak of views.

pub mod group;
pub mod group_admin;
pub mod group_banned;
pub mod group_post;
pub mod group_topic;
pub mod group_user;
pub mod identity;
pub mod profile;

pub use group::Model as GroupModel;
pub use group_admin::Model as GroupAdminModel;
pub use group_banned::Model as GroupBannedModel;
pub use group_post::Model as GroupPostModel;
pub use group_post::ModelView as GroupPostView;
pub use group_topic::Model as GroupTopicModel;
pub use group_user::Model as GroupUserModel;
pub use identity::Model as IdentityModel;
pub use profile::Model as ProfileModel;
pub use profile::ModelView as ProfileView;

use vstd::prelude::*;

verus! {

/// The view of an optional row.
pub open spec fn view_of<T: View>(row: Option<T>) -> Option<T::V> {
    match row {
        Some(r) => Some(r@),
        None => None,
    }
}

/// The view of what an operation returned: of the row, where it returned
/// one.
pub open spec fn result_view<T: View, E>(r: Result<T, E>) -> Result<T::V, E> {
    match r {
        Ok(row) => Ok(row@),
        Err(e) => Err(e),
    }
}

/// The view of an optional run of bytes.
pub open spec fn bytes_view(bytes: Option<Vec<u8>>) -> Option<Seq<u8>> {
    match bytes {
        Some(b) => Some(b@),
        None => None,
    }
}

/// The views of the rows of a table of profiles.
pub open spec fn profile_views(rows: Seq<ProfileModel>) -> Seq<ProfileView> {
    Seq::new(rows.len(), |i: int| rows[i]@)
}

/// The views of the rows of a table of posts.
pub open spec fn post_views(rows: Seq<GroupPostModel>) -> Seq<GroupPostView> {
    Seq::new(rows.len(), |i: int| rows[i]@)
}

} // verus!
