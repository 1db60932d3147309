//! [`TableRef`] — what a `FROM` / `JOIN` slot names, optionally inside a
//! database and optionally under an alias.
use vstd::prelude::*;
use crate::dialect::Dialect;
use crate::error::DbCoreError;
use crate::value::{Value, ValueView, values_view, copy_values};
use crate::query_column::Column;
use crate::expr::function_name::{is_valid_function_name, valid_function_name};
use crate::expr::render::{param_run, render_param_run};
use crate::text::{opt_view, copy_opt_string};
use super::quoting::{quote_ident, quoted};
use super::aliased_column::AliasedColumn;

verus! {

/// What a `FROM` / `JOIN` slot names: a relation (a table or a common table
/// expression), or a table-valued function call and the values it binds.
pub enum TableSource {
    Relation,
    Function(Vec<Value>),
}

/// A source named in a `FROM` or `JOIN` slot, with an optional alias.
///
/// Keeping the alias out of the name is what makes a self-join expressible:
/// `TableRef::aliased("memories", "old")` renders `"memories" AS "old"`.
pub struct TableRef {
    database: Option<String>,
    table: String,
    alias: Option<String>,
    source: TableSource,
}

/// What a [`TableRef`] names.
pub struct TableRefView {
    pub database: Option<Seq<char>>,
    pub table: Seq<char>,
    pub alias: Option<Seq<char>>,
    /// `Some(args)` for a table-valued function call.
    pub function_args: Option<Seq<ValueView>>,
}

impl View for TableRef {
    type V = TableRefView;

    closed spec fn view(&self) -> TableRefView {
        TableRefView {
            database: opt_view(self.database),
            table: self.table@,
            alias: opt_view(self.alias),
            function_args: match self.source {
                TableSource::Relation => None,
                TableSource::Function(args) => Some(values_view(args@)),
            },
        }
    }
}

/// What columns of a source are qualified by: the alias, else the name.
pub open spec fn qualifier_of(t: TableRefView) -> Seq<char> {
    match t.alias {
        Some(a) => a,
        None => t.table,
    }
}

/// `name(?N, ?N+1, …)` numbering from `start`, with the values in bind order.
pub open spec fn call_sql(name: Seq<char>, n: nat, start: nat, d: Dialect) -> Seq<char> {
    name + "("@ + param_run(d, start, n) + ")"@
}

/// `[<"database">.]<base>[ AS <"alias">]` with placeholders from `start`, and
/// the values it binds.
pub open spec fn table_fragment(t: TableRefView, start: nat, d: Dialect) -> (Seq<char>, Seq<ValueView>) {
    let name = match t.function_args {
        None => quoted(t.table),
        Some(args) => call_sql(t.table, args.len(), start, d),
    };
    let params = match t.function_args {
        None => seq![],
        Some(args) => args,
    };
    let base = match t.database {
        Some(db) => quoted(db) + "."@ + name,
        None => name,
    };
    match t.alias {
        Some(a) => (base + " AS "@ + quoted(a), params),
        None => (base, params),
    }
}

/// `name(?N, …)` numbering from `start`, with the values in bind order. The
/// name is not quoted: it is SQL syntax, already validated.
fn render_call(name: &str, args: &Vec<Value>, start: usize, dialect: Dialect) -> (r: (String, Vec<Value>))
    ensures
        r.0@ == call_sql(name@, args@.len(), start as nat, dialect),
        values_view(r.1@) == values_view(args@),
{
    let mut s = name.to_string();
    s.append("(");
    let run = render_param_run(dialect, start, args.len());
    s.append(run.as_str());
    s.append(")");
    (s, copy_values(args))
}

impl TableRef {
    /// The relation under its own name — a table, or a CTE.
    pub fn new(table: &str) -> (r: TableRef)
        ensures
            r@ == (TableRefView { database: None, table: table@, alias: None, function_args: None }),
    {
        TableRef { database: None, table: table.to_string(), alias: None, source: TableSource::Relation }
    }

    /// The relation under `alias`, which is what its columns are qualified by.
    pub fn aliased(table: &str, alias: &str) -> (r: TableRef)
        ensures
            r@ == (TableRefView { database: None, table: table@, alias: Some(alias@), function_args: None }),
    {
        TableRef {
            database: None,
            table: table.to_string(),
            alias: Some(alias.to_string()),
            source: TableSource::Relation,
        }
    }

    /// A table-valued function call: `json_each(?1)`, `pragma_table_info(?1)`.
    ///
    /// Arguments are bound, never interpolated; the name is validated
    /// instead and refused with `InvalidTableFunction` unless it is
    /// `[A-Za-z_][A-Za-z0-9_]*`.
    pub fn function(name: &str, args: Vec<Value>) -> (r: Result<TableRef, DbCoreError>)
        ensures
            r is Ok <==> valid_function_name(name@),
            r matches Ok(t) ==> t@ == (TableRefView {
                database: None,
                table: name@,
                alias: None,
                function_args: Some(values_view(args@)),
            }),
            r matches Err(e) ==> (e matches DbCoreError::InvalidTableFunction { name: n } && n@ == name@),
    {
        if !is_valid_function_name(name) {
            return Err(DbCoreError::InvalidTableFunction { name: name.to_string() });
        }
        Ok(TableRef { database: None, table: name.to_string(), alias: None, source: TableSource::Function(args) })
    }

    /// The same source under `alias`, which its columns are then qualified by.
    pub fn with_alias(self, alias: &str) -> (r: TableRef)
        ensures
            r@ == (TableRefView { alias: Some(alias@), ..self@ }),
    {
        let TableRef { database, table, alias: _, source } = self;
        TableRef { database, table, alias: Some(alias.to_string()), source }
    }

    /// The same source resolved inside `database`: `"old"."indexed_files"`.
    /// A later call replaces an earlier one; nothing is translated between
    /// SQLite attachments and Postgres schemas.
    pub fn in_database(self, database: &str) -> (r: TableRef)
        ensures
            r@ == (TableRefView { database: Some(database@), ..self@ }),
    {
        let TableRef { database: _, table, alias, source } = self;
        TableRef { database: Some(database.to_string()), table, alias, source }
    }

    /// The base name, never the alias — the table, the CTE, or the function.
    pub fn table(&self) -> (r: &str)
        ensures
            r@ == self@.table,
    {
        self.table.as_str()
    }

    /// The database or schema this source is resolved in, when there is one.
    pub fn database(&self) -> (r: Option<&str>)
        ensures
            match r {
                Some(s) => self@.database == Some(s@),
                None => self@.database is None,
            },
    {
        match &self.database {
            Some(d) => Some(d.as_str()),
            None => None,
        }
    }

    /// The alias, when there is one.
    pub fn alias(&self) -> (r: Option<&str>)
        ensures
            match r {
                Some(s) => self@.alias == Some(s@),
                None => self@.alias is None,
            },
    {
        match &self.alias {
            Some(a) => Some(a.as_str()),
            None => None,
        }
    }

    /// What columns of this source are qualified by: the alias, else the
    /// name. The database is never part of it.
    pub fn qualifier(&self) -> (r: &str)
        ensures
            r@ == qualifier_of(self@),
    {
        match &self.alias {
            Some(a) => a.as_str(),
            None => self.table.as_str(),
        }
    }

    /// The source and the values its arguments bind, first placeholder at
    /// `start`. A relation binds nothing; a function binds its arguments in
    /// order. Each part is quoted on its own, so a dot never ends up inside an
    /// identifier.
    pub fn to_sql_fragment_for(&self, start: usize, dialect: Dialect) -> (r: (String, Vec<Value>))
        ensures
            r.0@ == table_fragment(self@, start as nat, dialect).0,
            values_view(r.1@) == table_fragment(self@, start as nat, dialect).1,
    {
        let (name, params) = match &self.source {
            TableSource::Relation => {
                let v: Vec<Value> = Vec::new();
                assert(values_view(v@) =~= Seq::<ValueView>::empty());
                (quote_ident(self.table.as_str()), v)
            },
            TableSource::Function(args) => render_call(self.table.as_str(), args, start, dialect),
        };
        let base = match &self.database {
            Some(database) => {
                let mut b = quote_ident(database.as_str());
                b.append(".");
                b.append(name.as_str());
                b
            },
            None => name,
        };
        match &self.alias {
            Some(alias) => {
                let mut s = base;
                s.append(" AS ");
                let a = quote_ident(alias.as_str());
                s.append(a.as_str());
                (s, params)
            },
            None => (base, params),
        }
    }

    /// [`Self::to_sql_fragment_for`] at `start = 1` against
    /// [`Dialect::CURRENT`], dropping the values.
    pub fn to_sql(&self) -> (r: String)
        ensures
            r@ == table_fragment(self@, 1, Dialect::CURRENT).0,
    {
        self.to_sql_fragment_for(1, Dialect::CURRENT).0
    }

    /// `column` of this source, qualified by [`TableRef::qualifier`]; the
    /// marker type rides along.
    pub fn column<T>(&self, column: &Column<T>) -> (r: AliasedColumn<T>)
        ensures
            r.qualifier_view() == qualifier_of(self@),
            r.name_view() == column.name@,
    {
        AliasedColumn::new(self.qualifier(), column.name)
    }
}

/// The relation under its own name.
impl From<String> for TableRef {
    fn from(table: String) -> (r: TableRef) {
        TableRef { database: None, table, alias: None, source: TableSource::Relation }
    }
}

impl vstd::std_specs::convert::FromSpecImpl<String> for TableRef {
    open spec fn obeys_from_spec() -> bool {
        true
    }

    closed spec fn from_spec(table: String) -> TableRef {
        TableRef { database: None, table, alias: None, source: TableSource::Relation }
    }
}

/// A `TableRef` made from a name is the relation under that name.
pub proof fn lemma_from_string_names_the_relation(table: String)
    ensures
        (<TableRef as vstd::std_specs::convert::FromSpec<String>>::from_spec(table))@ == (TableRefView {
            database: None,
            table: table@,
            alias: None,
            function_args: None,
        }),
{
}

impl Clone for TableRef {
    fn clone(&self) -> (r: Self)
        ensures
            r@ == self@,
    {
        TableRef {
            database: copy_opt_string(&self.database),
            table: self.table.clone(),
            alias: copy_opt_string(&self.alias),
            source: match &self.source {
                TableSource::Relation => TableSource::Relation,
                TableSource::Function(args) => TableSource::Function(copy_values(args)),
            },
        }
    }
}

} // verus!
