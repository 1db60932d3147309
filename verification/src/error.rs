//! The error type of this crate.
use vstd::prelude::*;

verus! {

/// Everything that can go wrong while building SQL or diffing schemas.
#[derive(Debug)]
pub enum DbCoreError {
    SnapshotRead(String),
    SnapshotWrite(String),
    MigrationWrite(String),
    RowMapping(String),
    Connection(String),
    /// SQLite has no `ALTER TABLE` for a virtual table.
    VirtualTableChange { table: String, reason: String },
    /// An FTS5 function asked for on a dialect that has none.
    Fts5UnsupportedDialect { function: String, dialect: &'static str },
    Fts5InvalidArgument { function: String, reason: String },
    /// `vec0` has no quoting, so a name outside `[A-Za-z][A-Za-z0-9_]*` cannot
    /// be rendered at all.
    InvalidVec0Identifier { context: &'static str, ident: String },
    Vec0BitDistanceMetric { column: String },
    VectorDimension { expected: u32, actual: usize },
    Vec0UnsupportedDialect { feature: String, dialect: &'static str },
    Vec0InvalidArgument { feature: String, reason: String },
    PgFtsUnsupportedDialect { function: String, dialect: &'static str },
    PgFtsInvalidArgument { function: String, reason: String },
    PgVectorUnsupportedDialect { feature: String, dialect: &'static str },
    PgVectorInvalidArgument { feature: String, reason: String },
    JournalRead(String),
    JournalWrite(String),
    /// A scalar function name that is not a bare identifier.
    InvalidScalarFunction { name: String },
    /// A table-valued function name that is not a bare identifier.
    InvalidTableFunction { name: String },
    /// A row-security policy Postgres would refuse.
    PolicyInvalid { table: String, policy: String, reason: String },
    /// An FTS5 synchronization declaration that cannot become triggers.
    Fts5SyncInvalid { table: String, reason: String },
}

} // verus!
