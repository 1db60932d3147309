//! [`Expr`] constructors, combinators and standalone rendering.
use vstd::prelude::*;
use crate::dialect::{Dialect, dialect_name};
use crate::error::DbCoreError;
use crate::value::{Value, values_view};
use crate::query_column::{Column, qualified_name};
use crate::alias::quoting::quoted;
use crate::expr::function_name::valid_function_name;
use crate::fts5::{require_sqlite, quoted_table, plain_table_reason};
use super::binding::{BindSource, BoundParams, ListSource};
use super::nodes::{Expr, ExprKind, Scalar, SelectSource};
use super::render::{expr_render, expr_fragment, render_expr, render_expr_fragment};

verus! {

/// The SQL an FTS5 `MATCH` names itself by in errors.
pub open spec fn table_match_name() -> Seq<char> {
    "MATCH"@
}

/// A JSON access fragment usable inside expressions.
pub struct JsonExpr {
    pub fragment: String,
}

/// `json_extract(<column>, '<path>')`.
pub open spec fn json_extract_sql(column: Seq<char>, path: Seq<char>) -> Seq<char> {
    "json_extract("@ + column + ", '"@ + path + "')"@
}

impl Expr {
    /// `<column> <op> ?N`, binding `value`.
    pub fn comparison(column: String, op: &'static str, value: BindSource) -> (r: Expr)
        ensures
            r.kind == (ExprKind::Comparison { column, op, value }),
    {
        Expr { kind: ExprKind::Comparison { column, op, value } }
    }

    /// `<column> [NOT ]IN (…)` over `values`.
    pub fn in_list(column: String, values: ListSource, negated: bool) -> (r: Expr)
        ensures
            r.kind == (ExprKind::InList { column, values, negated }),
    {
        Expr { kind: ExprKind::InList { column, values, negated } }
    }

    /// `<column> IS [NOT ]NULL`.
    pub fn is_null(column: String, negated: bool) -> (r: Expr)
        ensures
            r.kind == (ExprKind::IsNull { column, negated }),
    {
        Expr { kind: ExprKind::IsNull { column, negated } }
    }

    /// `<column> BETWEEN ?N AND ?M`.
    pub fn between(column: String, low: Value, high: Value) -> (r: Expr)
        ensures
            r.kind == (ExprKind::Between { column, low, high }),
    {
        Expr { kind: ExprKind::Between { column, low, high } }
    }

    /// `<left> <op> <right>` between two scalars.
    pub fn compare(left: Scalar, op: &'static str, right: Scalar) -> (r: Expr)
        ensures
            r.kind == (ExprKind::Compare { left, op, right }),
    {
        Expr { kind: ExprKind::Compare { left, op, right } }
    }

    /// An `Expr` around a node built elsewhere.
    pub fn from_kind(kind: ExprKind) -> (r: Expr)
        ensures
            r.kind == kind,
    {
        Expr { kind }
    }

    /// `<left> LIKE <pattern> [ESCAPE ?N]`.
    pub fn like_node(left: Scalar, pattern: Scalar, escape: Option<char>) -> (r: Expr)
        ensures
            r.kind == (ExprKind::Like { left, pattern, escape }),
    {
        Expr { kind: ExprKind::Like { left, pattern, escape } }
    }

    /// SQL text whose placeholders bind `params`, renumbered for the position
    /// the node ends up in: a bare `?` takes the next free index and `?N`
    /// addresses this fragment's own `N`-th value.
    pub fn raw(sql: &str, params: Vec<Value>) -> (r: Expr)
        ensures
            r.kind matches ExprKind::Raw { sql: s, params: p } && s@ == sql@ && p == params,
    {
        Expr { kind: ExprKind::Raw { sql: sql.to_string(), params } }
    }

    /// `(self AND other)`.
    pub fn and(self, other: Expr) -> (r: Expr)
        ensures
            r.kind == ExprKind::And(Box::new(self), Box::new(other)),
    {
        Expr { kind: ExprKind::And(Box::new(self), Box::new(other)) }
    }

    /// `(self OR other)`.
    pub fn or(self, other: Expr) -> (r: Expr)
        ensures
            r.kind == ExprKind::Or(Box::new(self), Box::new(other)),
    {
        Expr { kind: ExprKind::Or(Box::new(self), Box::new(other)) }
    }

    /// Renders into `params`, appending what it binds and sharing the buffer's
    /// binding ledger — so a shared handle used here and elsewhere in the same
    /// statement takes one placeholder. Numbers from the buffer's next index.
    pub fn render_into(&self, params: &mut BoundParams, dialect: Dialect) -> (r: String)
        ensures
            (r@, final(params)@) == expr_render(self.kind, old(params)@, dialect),
    {
        render_expr(&self.kind, params, dialect)
    }

    /// The SQL fragment with dialect-specific positional parameters starting
    /// at `start`, and the values it binds in placeholder order.
    pub fn to_sql_fragment_for(&self, start: usize, dialect: Dialect) -> (r: (String, Vec<Value>))
        ensures
            r.0@ == expr_fragment(self.kind, start as nat, dialect).0,
            values_view(r.1@) == expr_fragment(self.kind, start as nat, dialect).1,
    {
        render_expr_fragment(&self.kind, start, dialect)
    }

    /// [`Expr::to_sql_fragment_for`] against [`Dialect::CURRENT`].
    pub fn to_sql_fragment(&self, start: usize) -> (r: (String, Vec<Value>))
        ensures
            r.0@ == expr_fragment(self.kind, start as nat, Dialect::CURRENT).0,
            values_view(r.1@) == expr_fragment(self.kind, start as nat, Dialect::CURRENT).1,
    {
        self.to_sql_fragment_for(start, Dialect::CURRENT)
    }

    /// `json_extract("table"."column", '<path>')`, to compare with
    /// [`JsonExpr::eq`] or [`JsonExpr::like`].
    pub fn json_extract<T>(col: &Column<T>, path: &str) -> (r: JsonExpr)
        ensures
            r.fragment@ == json_extract_sql(qualified_name(col.table@, col.name@), path@),
    {
        let mut fragment = "json_extract(".to_string();
        let q = col.qualified();
        fragment.append(q.as_str());
        fragment.append(", '");
        fragment.append(path);
        fragment.append("')");
        JsonExpr { fragment }
    }

    /// An FTS5 `<target> MATCH ?N` node.
    pub fn match_target(target: String, pattern: Value) -> (r: Expr)
        ensures
            r.kind == (ExprKind::Match { target, pattern }),
    {
        Expr { kind: ExprKind::Match { target, pattern } }
    }

    /// A Postgres `document @@ query_fn(config, $N)` node. Callers must
    /// already have refused non-Postgres dialects and validated `config`.
    pub fn ts_match_target(document: String, query_fn: &'static str, config: String, pattern: Value) -> (r: Expr)
        ensures
            r.kind == (ExprKind::TsMatch { document, query_fn, config, pattern }),
    {
        Expr { kind: ExprKind::TsMatch { document, query_fn, config, pattern } }
    }

    /// `<table> MATCH ?` for an explicit dialect — the whole-table form, which
    /// searches every indexed column. The pattern is bound, not interpolated.
    ///
    /// Refused with `Fts5UnsupportedDialect` on every dialect but SQLite, and
    /// with `Fts5InvalidArgument` when `table` is not a plain identifier.
    pub fn table_match_for(dialect: Dialect, table: &str, pattern: Value) -> (r: Result<Expr, DbCoreError>)
        ensures
            r is Ok <==> (dialect == Dialect::Sqlite && valid_function_name(table@)),
            r matches Ok(e) ==> e.kind matches ExprKind::Match { target, pattern: p }
                && target@ == quoted(table@) && p == pattern,
            dialect != Dialect::Sqlite ==> (r matches Err(DbCoreError::Fts5UnsupportedDialect { function, dialect: dn })
                && function@ == table_match_name() && dn@ == dialect_name(dialect)),
            dialect == Dialect::Sqlite && !valid_function_name(table@) ==> (r matches Err(
                DbCoreError::Fts5InvalidArgument { function, reason },
            ) && function@ == table_match_name() && reason@ == plain_table_reason()),
    {
        require_sqlite("MATCH", dialect)?;
        let target = quoted_table("MATCH", table)?;
        Ok(Expr::match_target(target, pattern))
    }

    /// [`Expr::table_match_for`] against [`Dialect::CURRENT`].
    pub fn table_match(table: &str, pattern: Value) -> (r: Result<Expr, DbCoreError>)
        ensures
            r is Ok <==> (Dialect::CURRENT == Dialect::Sqlite && valid_function_name(table@)),
            r matches Ok(e) ==> e.kind matches ExprKind::Match { target, pattern: p }
                && target@ == quoted(table@) && p == pattern,
    {
        Expr::table_match_for(Dialect::CURRENT, table, pattern)
    }

    /// `EXISTS (<query>)` — true when the subquery returns at least one row.
    ///
    /// Correlate it by naming an outer column inside `query`.
    pub fn exists_select(query: Box<dyn SelectSource>) -> (r: Expr)
        ensures
            r.kind == (ExprKind::Exists { query, negated: false }),
    {
        Expr { kind: ExprKind::Exists { query, negated: false } }
    }

    /// `NOT EXISTS (<query>)` — the NULL-safe complement of an `IN` test: a
    /// correlated `NOT EXISTS` keeps a row whose key is NULL.
    pub fn not_exists(query: Box<dyn SelectSource>) -> (r: Expr)
        ensures
            r.kind == (ExprKind::Exists { query, negated: true }),
    {
        Expr { kind: ExprKind::Exists { query, negated: true } }
    }
}

impl JsonExpr {
    /// `<fragment> = ?N`.
    pub fn eq(self, val: Value) -> (r: Expr)
        ensures
            r.kind == (ExprKind::Comparison { column: self.fragment, op: "=", value: BindSource::Owned(val) }),
    {
        Expr::comparison(self.fragment, "=", BindSource::Owned(val))
    }

    /// `<fragment> LIKE ?N`.
    pub fn like(self, val: Value) -> (r: Expr)
        ensures
            r.kind == (ExprKind::Comparison { column: self.fragment, op: "LIKE", value: BindSource::Owned(val) }),
    {
        Expr::comparison(self.fragment, "LIKE", BindSource::Owned(val))
    }
}

} // verus!
