//! A document store over SQLite.
//!
//! A collection is a table of JSON documents keyed by a string id. Declared fields
//! of the documents are indexed and can be queried by value. Every SQL statement is
//! built from validated identifiers alone; ids, documents and query values are bound.

pub mod answers;
pub mod collections;
pub mod consistency;
pub mod database;
pub mod fields;
pub mod grammar;
pub mod identifier;
pub mod json;
pub mod laws;
pub mod model;
pub mod opening;
pub mod outcomes;
pub mod persistence;
pub mod plan;
pub mod rows;
pub mod runs;
pub mod sql;
pub mod sqlite;
pub mod store;
pub mod text;
pub mod views;
pub mod wording;

pub use crate::store::SqliteStore;
