//! Schema diffing for migration generation.
pub mod operation;
pub mod column;
pub mod indexes;
pub mod fk;
pub mod enums;
pub mod engine;
pub mod policy;
pub mod virtual_tables;
pub mod fts5_sync;

pub use operation::{ColumnChange, Operation};
pub use engine::{diff, diff_with_resolver};
pub use enums::diff_enums;
pub use fk::diff_foreign_keys;
pub use policy::diff_row_security;
