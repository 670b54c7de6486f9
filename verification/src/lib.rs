//! Membership and content consistency layer of a forum whose participants own
//! several personas: the relational tables, their constraints, and the
//! operations that create, authorize and change rows without breaking them.
//!
//! From the bottom up:
//! - `ids`, `timestamp`, `entity`, `error`: identifiers, points in time, the
//!   rows of the eight tables and the kinds of failure;
//! - `db`: the relational state as a mathematical value, the constraints of
//!   the schema, and what each statement makes of a state;
//! - `relation`, `order`: selections from a table, and listings by creation
//!   time with limit and offset;
//! - `store`: the tables in memory, behind statements that are proved to do
//!   what `db` says and to keep the constraints;
//! - `models`: table-level access, one type for each kind of row;
//! - `service`: the operations offered to callers, and the decisions they
//!   rest on as functions of rows;
//! - `laws`: what holds of the operations taken together;
//! - `outside`: the calls into other crates, whose contracts are taken on
//!   trust.

pub mod db;
pub mod entity;
pub mod error;
pub mod ids;
pub mod laws;
pub mod models;
pub mod order;
pub mod outside;
pub mod relation;
pub mod service;
pub mod store;
pub mod timestamp;
