//! Schema-first SQL building blocks: dialects, identifiers, column types,
//! expression trees with dialect-aware parameter numbering, table references,
//! and schema diffing for migrations.
pub mod text;
pub mod keyed;
pub mod value;
pub mod alias;
pub mod dialect;
pub mod error;
pub mod column;
pub mod query_column;
pub mod expr;
pub mod fts5;
pub mod schema;
pub mod snapshot;
pub mod rename;
pub mod diff;
