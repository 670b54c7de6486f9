//! The operations offered to callers: each looks up the rows it refers to,
//! checks that the caller may do what it asks, and changes the store in one
//! step or not at all.

pub mod groups;
pub mod posts;
pub mod profiles;
