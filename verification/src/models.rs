//! Table-level access: one type for each kind of row with the statements
//! that create, find, list and delete rows of that kind, and the joined
//! forms in which topics and posts are read.

pub mod group;
pub mod identity;
pub mod profile;
