//! A schema-driven data-access layer for SQLite: it discovers table structure
//! and relationships from naming conventions, then offers generic,
//! relationship-aware CRUD operations over one safe, parameterized
//! SQL-building path.
//!
//! The heart of the crate is the relationship resolver ([`resolve`]): from
//! column names and types alone it infers which tables are parents and
//! children (a child holds a column named `<parent>_<parent's primary key>`
//! of the matching type) and which are peers (two tables named together by
//! a junction table `rel_<a>_<b>`), refusing ambiguous or malformed
//! schemas. The resolved [`family::SchemaFamily`] is an immutable snapshot;
//! every read and write ([`read`], [`add`], [`update`], [`delete`],
//! [`peer`]) validates its inputs against it ([`verify`]) and assembles its
//! statement through the one parameterized condition-building path
//! ([`sql`], [`basics`]). The database itself is reached only through the
//! trusted boundary in [`db`]; everything the store computes around it is
//! verified, and the crate-wide laws are stated and proved in [`laws`].

pub mod add;
pub mod assoc;
pub mod basics;
pub mod db;
pub mod delete;
pub mod error;
pub mod family;
pub mod laws;
pub mod peer;
pub mod read;
pub mod resolve;
pub mod schema;
pub mod sql;
pub mod strutil;
pub mod update;
pub mod value;
pub mod verify;
