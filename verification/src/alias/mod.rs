//! Table aliases and alias-aware column references.
pub mod quoting;
pub mod qualified;
pub mod aliased_column;
pub mod compare;
pub mod table_ref;

pub use quoting::quote_ident;
pub use qualified::QualifiedColumn;
pub use aliased_column::AliasedColumn;
pub use table_ref::TableRef;
