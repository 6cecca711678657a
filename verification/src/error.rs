//! The error taxonomy of the store. Every failure is returned to the caller
//! with the names and types involved; nothing is swallowed or retried.

use vstd::prelude::*;

use crate::value::DbType;

verus! {

/// Why an operation was refused or failed.
///
/// The schema variants come out of schema discovery; the write variants out
/// of payload verification; the relationship variants out of the
/// parent/child and peer checks; the query variants out of the one
/// unparameterized SQL-text path; `Db` carries an error reported by the
/// database driver itself.
#[derive(Debug, Clone, PartialEq)]
pub enum StoreError {
    /// The named table is not part of the schema family.
    TableNotFound { table: String },
    /// A column was named that the table's schema does not declare.
    UnknownColumn { table: String, column: String },
    /// A column's declared type does not map to a usable primitive type.
    InvalidColumnType { table: String, column: String, declared: String },
    /// A value's type differs from the column's declared type.
    TypeMismatch { table: String, column: String, expected: DbType, actual: DbType },
    /// A required column holds an empty value.
    RequiredFieldMissing { table: String, column: String },
    /// An update payload tried to rewrite the primary key.
    PkNotUpdatable { table: String, pk: String },
    /// The first table is not a child of the second.
    NotChildOf { child: String, parent: String },
    /// The first table is not a peer of the second.
    NotPeerOf { table: String, other: String },
    /// The table takes part in no peer relationship.
    NoPeerLinkTable { table: String },
    /// A peer operation was given a number of table groups other than two.
    PeerGroupCount { found: usize },
    /// A junction table's name does not split into exactly two peer names.
    BadPeerTableName { table: String },
    /// A table named by a junction table does not exist.
    MissingPeerTable { table: String, junction: String },
    /// A junction table lacks the foreign-key column for one of its peers.
    MissingFkColumn { junction: String, column: String },
    /// A foreign-key column's type differs from the referenced primary key's.
    FkTypeMismatch { child: String, parent: String, column: String, expected: DbType, actual: DbType },
    /// A table name was empty where one was required.
    EmptyTableName,
    /// A where clause was empty where a non-empty one was required.
    EmptyWhereClause,
    /// A search was asked over a column that is not a text column.
    NotTextColumn { table: String, column: String },
    /// An order-by or group-by fragment held characters that are refused on
    /// the unparameterized SQL-text path.
    IllegalByChars { clause: String },
    /// The database driver reported an error.
    Db { message: String },
}

} // verus!
