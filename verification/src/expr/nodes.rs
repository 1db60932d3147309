//! The expression tree: predicates ([`Expr`]) and value-producing scalars
//! ([`Scalar`]), plus the statement source a subquery node holds.
use vstd::prelude::*;
use crate::dialect::Dialect;
use crate::value::{Value, ValueView, values_view};
use super::binding::{BindSource, ListSource};

verus! {

/// A complete `SELECT` statement whose first placeholder takes a
/// caller-chosen index.
///
/// The returned SQL carries no surrounding parentheses, so each caller adds
/// what its own position needs. Implemented by the crate that builds `SELECT`
/// statements; a subquery node renders whatever its implementation returns,
/// spliced at the index its siblings have reached.
pub trait SelectSource {
    /// The statement and the values it binds, first placeholder at `start`.
    spec fn select_sql(&self, start: nat, dialect: Dialect) -> (Seq<char>, Seq<ValueView>);

    /// The statement and the values it binds, first placeholder at `start`.
    fn to_select_sql_for(&self, start: usize, dialect: Dialect) -> (r: (String, Vec<Value>))
        ensures
            r.0@ == self.select_sql(start as nat, dialect).0,
            values_view(r.1@) == self.select_sql(start as nat, dialect).1,
    ;
}

/// A WHERE-clause expression tree; render with [`Expr::to_sql_fragment_for`].
pub struct Expr {
    pub kind: ExprKind,
}

/// Predicate node kinds.
pub enum ExprKind {
    /// `<column> <op> ?N`.
    Comparison { column: String, op: &'static str, value: BindSource },
    /// `<column> [NOT ]IN (?N, …)`; an empty list renders a constant.
    InList { column: String, values: ListSource, negated: bool },
    /// `<column> IS [NOT ]NULL`.
    IsNull { column: String, negated: bool },
    /// `<column> BETWEEN ?N AND ?M`.
    Between { column: String, low: Value, high: Value },
    /// FTS5 `<target> MATCH ?N`.
    Match { target: String, pattern: Value },
    /// Postgres `document @@ query_fn(config, $N)`.
    TsMatch { document: String, query_fn: &'static str, config: String, pattern: Value },
    /// `<left> <op> <right>` between two scalars.
    Compare { left: Scalar, op: &'static str, right: Scalar },
    /// `<left> LIKE <pattern> [ESCAPE ?N]`.
    Like { left: Scalar, pattern: Scalar, escape: Option<char> },
    /// `[NOT ]EXISTS (<statement>)`.
    Exists { query: Box<dyn SelectSource>, negated: bool },
    /// `<left> [NOT ]IN (<statement>)`.
    InSubquery { left: Scalar, query: Box<dyn SelectSource>, negated: bool },
    And(Box<Expr>, Box<Expr>),
    Or(Box<Expr>, Box<Expr>),
    /// SQL text whose `?` placeholders bind `params`.
    Raw { sql: String, params: Vec<Value> },
}

/// A value-producing SQL expression.
pub struct Scalar {
    pub kind: ScalarKind,
}

/// Scalar node kinds.
pub enum ScalarKind {
    /// Pre-rendered SQL text plus the values its `?` placeholders bind.
    Raw { sql: String, params: Vec<Value> },
    /// One bound value — its own, or a shared handle's.
    Bind(BindSource),
    /// `name(arg, ...)` with a validated function name.
    Func { name: String, args: Vec<Scalar> },
    /// `(left <op> right)` for arithmetic and `||` concatenation.
    Arith { left: Box<Scalar>, op: &'static str, right: Box<Scalar> },
    /// `CASE WHEN <predicate> THEN <value> ... [ELSE <value>] END`.
    Case { branches: Vec<(Expr, Scalar)>, otherwise: Option<Box<Scalar>> },
    /// `FUNC(*)`, `FUNC(<arg>)` or `FUNC(DISTINCT <arg>)`.
    Aggregate { func: &'static str, arg: AggregateArg },
    /// `(SELECT …)` — a whole statement read as one value.
    Subquery(Box<dyn SelectSource>),
}

/// What sits between an aggregate's parentheses.
pub enum AggregateArg {
    /// `*` — count rows rather than values.
    Star,
    /// A plain argument.
    All(Box<Scalar>),
    /// `DISTINCT <arg>`.
    Distinct(Box<Scalar>),
}

} // verus!
