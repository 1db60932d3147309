//! SQLite FTS5: the module name, the synchronization declaration of an
//! external-content index, and the argument checks the `MATCH` operator needs.
use vstd::prelude::*;
use crate::dialect::{Dialect, dialect_name};
use crate::error::DbCoreError;
use crate::alias::quoting::{quote_ident, quoted};
use crate::expr::function_name::{is_valid_function_name, valid_function_name};
use crate::text::{strings_view, copy_strings, strings_eq};

verus! {

/// The module name of an FTS5 virtual table.
pub const FTS5_MODULE: &'static str = "fts5";

/// Refuses every dialect but SQLite for the FTS5 feature `function`.
pub fn require_sqlite(function: &str, dialect: Dialect) -> (r: Result<(), DbCoreError>)
    ensures
        dialect == Dialect::Sqlite <==> r is Ok,
        r matches Err(e) ==> e matches DbCoreError::Fts5UnsupportedDialect { function: f, dialect: dn }
            && f@ == function@ && dn@ == dialect_name(dialect),
{
    match dialect {
        Dialect::Sqlite => Ok(()),
        _ => Err(DbCoreError::Fts5UnsupportedDialect {
            function: function.to_string(),
            dialect: dialect.as_str(),
        }),
    }
}

/// The reason an FTS5 table argument is refused.
pub open spec fn plain_table_reason() -> Seq<char> {
    "the table must be a plain identifier: ASCII letters, digits and underscores, not starting with a digit"@
}

/// `table` quoted, once it is known to be a plain identifier; FTS5 takes no
/// alias in a `MATCH` target.
pub fn quoted_table(function: &str, table: &str) -> (r: Result<String, DbCoreError>)
    ensures
        valid_function_name(table@) <==> r is Ok,
        r matches Ok(s) ==> s@ == quoted(table@),
        r matches Err(e) ==> e matches DbCoreError::Fts5InvalidArgument { function: f, reason }
            && f@ == function@ && reason@ == plain_table_reason(),
{
    if !is_valid_function_name(table) {
        return Err(DbCoreError::Fts5InvalidArgument {
            function: function.to_string(),
            reason: "the table must be a plain identifier: ASCII letters, digits and underscores, not starting with a digit".to_string(),
        });
    }
    Ok(quote_ident(table))
}

/// An FTS5 index kept in step with an ordinary content table by three
/// generated triggers.
#[derive(Debug)]
pub struct Fts5Sync {
    /// The ordinary table the index reads.
    pub content_table: String,
    /// The content table's rowid column.
    pub content_rowid: String,
    /// The content columns the index mirrors.
    pub columns: Vec<String>,
}

/// What an [`Fts5Sync`] declares.
pub struct Fts5SyncView {
    pub content_table: Seq<char>,
    pub content_rowid: Seq<char>,
    pub columns: Seq<Seq<char>>,
}

impl View for Fts5Sync {
    type V = Fts5SyncView;

    open spec fn view(&self) -> Fts5SyncView {
        Fts5SyncView {
            content_table: self.content_table@,
            content_rowid: self.content_rowid@,
            columns: strings_view(self.columns@),
        }
    }
}

impl Fts5Sync {
    /// A copy of this declaration.
    pub fn duplicate(&self) -> (r: Fts5Sync)
        ensures
            r@ == self@,
    {
        Fts5Sync {
            content_table: self.content_table.clone(),
            content_rowid: self.content_rowid.clone(),
            columns: copy_strings(&self.columns),
        }
    }

    /// Whether two declarations say the same thing.
    pub fn same_as(&self, other: &Fts5Sync) -> (r: bool)
        ensures
            r == (self@ == other@),
    {
        let a = crate::text::str_eq(self.content_table.as_str(), other.content_table.as_str());
        let b = crate::text::str_eq(self.content_rowid.as_str(), other.content_rowid.as_str());
        let c = strings_eq(&self.columns, &other.columns);
        a && b && c
    }
}

} // verus!
