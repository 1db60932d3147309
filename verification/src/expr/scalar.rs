//! [`Scalar`] constructors: columns, bound values, calls, arithmetic,
//! aggregates, comparisons and subqueries.
use vstd::prelude::*;
use crate::dialect::Dialect;
use crate::error::DbCoreError;
use crate::value::{Value, values_view};
use crate::query_column::{Column, qualified_name};
use crate::alias::quoting::{escape_quotes, push_escaped};
use crate::text::{chars_of, string_from_chars};
use super::binding::{BindSource, BoundParams, SharedBind};
use super::nodes::{AggregateArg, Expr, ExprKind, Scalar, ScalarKind, SelectSource};
use super::function_name::{is_valid_function_name, valid_function_name};
use super::render::{scalar_render, scalar_fragment, render_scalar, render_scalar_fragment};

verus! {

/// `"excluded"."<name>"` with the name's double quotes doubled.
pub open spec fn excluded_sql(name: Seq<char>) -> Seq<char> {
    "\"excluded\".\""@ + escape_quotes(name) + seq!['"']
}

/// Whether `s` is pre-rendered SQL that binds nothing.
pub open spec fn is_plain_sql(s: Scalar, sql: Seq<char>) -> bool {
    s.kind matches ScalarKind::Raw { sql: t, params } && t@ == sql && params@.len() == 0
}

impl Scalar {
    /// A `Scalar` around a node built elsewhere.
    pub fn from_kind(kind: ScalarKind) -> (r: Scalar)
        ensures
            r.kind == kind,
    {
        Scalar { kind }
    }

    /// The column itself, qualified as `"table"."name"`.
    pub fn col<T>(column: &Column<T>) -> (r: Scalar)
        ensures
            is_plain_sql(r, qualified_name(column.table@, column.name@)),
    {
        Scalar::sql(column.qualified().as_str())
    }

    /// One bound value.
    pub fn bind(value: Value) -> (r: Scalar)
        ensures
            r.kind == ScalarKind::Bind(BindSource::Owned(value)),
    {
        Scalar { kind: ScalarKind::Bind(BindSource::Owned(value)) }
    }

    /// A shared handle in value position: every scalar built from one handle
    /// renders the same placeholder.
    pub fn shared(bind: &SharedBind) -> (r: Scalar)
        ensures
            r.kind matches ScalarKind::Bind(BindSource::Shared(h)) && h@ == bind@
                && h.binding_id() == bind.binding_id(),
    {
        Scalar { kind: ScalarKind::Bind(BindSource::Shared(bind.clone())) }
    }

    /// SQL text that binds nothing — an identifier, a literal, or a call this
    /// crate already rendered. It still goes through placeholder renumbering.
    pub fn sql(sql: &str) -> (r: Scalar)
        ensures
            is_plain_sql(r, sql@),
    {
        Scalar::raw(sql, Vec::new())
    }

    /// SQL text whose placeholders bind `params`, renumbered for the position
    /// this node ends up in.
    pub fn raw(sql: &str, params: Vec<Value>) -> (r: Scalar)
        ensures
            r.kind matches ScalarKind::Raw { sql: s, params: p } && s@ == sql@ && p == params,
    {
        Scalar { kind: ScalarKind::Raw { sql: sql.to_string(), params } }
    }

    /// Renders into `params`, sharing its binding ledger.
    pub fn render_into(&self, params: &mut BoundParams, dialect: Dialect) -> (r: String)
        ensures
            (r@, final(params)@) == scalar_render(self.kind, old(params)@, dialect),
    {
        render_scalar(&self.kind, params, dialect)
    }

    /// Renders with placeholders starting at `start`, returning the SQL and
    /// the values it binds, in emission order.
    pub fn to_sql_fragment_for(&self, start: usize, dialect: Dialect) -> (r: (String, Vec<Value>))
        ensures
            r.0@ == scalar_fragment(self.kind, start as nat, dialect).0,
            values_view(r.1@) == scalar_fragment(self.kind, start as nat, dialect).1,
    {
        render_scalar_fragment(&self.kind, start, dialect)
    }

    /// [`Scalar::to_sql_fragment_for`] against [`Dialect::CURRENT`].
    pub fn to_sql_fragment(&self, start: usize) -> (r: (String, Vec<Value>))
        ensures
            r.0@ == scalar_fragment(self.kind, start as nat, Dialect::CURRENT).0,
            values_view(r.1@) == scalar_fragment(self.kind, start as nat, Dialect::CURRENT).1,
    {
        self.to_sql_fragment_for(start, Dialect::CURRENT)
    }

    /// A function call with a validated name. Arguments are scalars, so they
    /// carry their own binds. Refused with `InvalidScalarFunction` when the
    /// name is not `[A-Za-z_][A-Za-z0-9_]*`.
    pub fn func(name: &str, args: Vec<Scalar>) -> (r: Result<Scalar, DbCoreError>)
        ensures
            r is Ok <==> valid_function_name(name@),
            r matches Ok(s) ==> (s.kind matches ScalarKind::Func { name: n, args: a } && n@ == name@ && a == args),
            r matches Err(e) ==> (e matches DbCoreError::InvalidScalarFunction { name: n } && n@ == name@),
    {
        if !is_valid_function_name(name) {
            return Err(DbCoreError::InvalidScalarFunction { name: name.to_string() });
        }
        Ok(Scalar { kind: ScalarKind::Func { name: name.to_string(), args } })
    }

    /// The value the conflicting `INSERT` proposed for `column`:
    /// `"excluded"."<name>"`. Only in scope inside `ON CONFLICT … DO UPDATE`.
    pub fn excluded<T>(column: &Column<T>) -> (r: Scalar)
        ensures
            is_plain_sql(r, excluded_sql(column.name@)),
    {
        let mut out = chars_of("\"excluded\".\"");
        let name = chars_of(column.name);
        let ghost head = out@;
        push_escaped(&mut out, &name);
        out.push('"');
        assert(out@ == head + escape_quotes(column.name@) + seq!['"']);
        let s = string_from_chars(&out);
        assert(s@ == excluded_sql(column.name@));
        Scalar::sql(s.as_str())
    }

    fn arith(self, op: &'static str, rhs: Scalar) -> (r: Scalar)
        ensures
            r.kind == (ScalarKind::Arith { left: Box::new(self), op, right: Box::new(rhs) }),
    {
        Scalar { kind: ScalarKind::Arith { left: Box::new(self), op, right: Box::new(rhs) } }
    }

    /// `(self || rhs)` — string concatenation.
    pub fn concat(self, rhs: Scalar) -> (r: Scalar)
        ensures
            r.kind == (ScalarKind::Arith { left: Box::new(self), op: "||", right: Box::new(rhs) }),
    {
        self.arith("||", rhs)
    }

    fn aggregate(func: &'static str, arg: AggregateArg) -> (r: Scalar)
        ensures
            r.kind == (ScalarKind::Aggregate { func, arg }),
    {
        Scalar { kind: ScalarKind::Aggregate { func, arg } }
    }

    /// `COUNT(*)` — every row in the group.
    pub fn count_star() -> (r: Scalar)
        ensures
            r.kind == (ScalarKind::Aggregate { func: "COUNT", arg: AggregateArg::Star }),
    {
        Scalar::aggregate("COUNT", AggregateArg::Star)
    }

    /// `COUNT(<arg>)` — the rows where `arg` is not NULL.
    pub fn count(arg: Scalar) -> (r: Scalar)
        ensures
            r.kind == (ScalarKind::Aggregate { func: "COUNT", arg: AggregateArg::All(Box::new(arg)) }),
    {
        Scalar::aggregate("COUNT", AggregateArg::All(Box::new(arg)))
    }

    /// `COUNT(DISTINCT <arg>)`.
    pub fn count_distinct(arg: Scalar) -> (r: Scalar)
        ensures
            r.kind == (ScalarKind::Aggregate { func: "COUNT", arg: AggregateArg::Distinct(Box::new(arg)) }),
    {
        Scalar::aggregate("COUNT", AggregateArg::Distinct(Box::new(arg)))
    }

    /// `SUM(<arg>)`; NULL over an empty group.
    pub fn sum(arg: Scalar) -> (r: Scalar)
        ensures
            r.kind == (ScalarKind::Aggregate { func: "SUM", arg: AggregateArg::All(Box::new(arg)) }),
    {
        Scalar::aggregate("SUM", AggregateArg::All(Box::new(arg)))
    }

    /// `MAX(<arg>)`; NULL over an empty group.
    pub fn max(arg: Scalar) -> (r: Scalar)
        ensures
            r.kind == (ScalarKind::Aggregate { func: "MAX", arg: AggregateArg::All(Box::new(arg)) }),
    {
        Scalar::aggregate("MAX", AggregateArg::All(Box::new(arg)))
    }

    /// `MIN(<arg>)`; NULL over an empty group.
    pub fn min(arg: Scalar) -> (r: Scalar)
        ensures
            r.kind == (ScalarKind::Aggregate { func: "MIN", arg: AggregateArg::All(Box::new(arg)) }),
    {
        Scalar::aggregate("MIN", AggregateArg::All(Box::new(arg)))
    }

    /// `AVG(<arg>)`; NULL over an empty group.
    pub fn avg(arg: Scalar) -> (r: Scalar)
        ensures
            r.kind == (ScalarKind::Aggregate { func: "AVG", arg: AggregateArg::All(Box::new(arg)) }),
    {
        Scalar::aggregate("AVG", AggregateArg::All(Box::new(arg)))
    }

    /// `self = other`.
    pub fn eq(self, other: Scalar) -> (r: Expr)
        ensures
            r.kind == (ExprKind::Compare { left: self, op: "=", right: other }),
    {
        Expr::compare(self, "=", other)
    }

    /// `self != other`.
    pub fn ne(self, other: Scalar) -> (r: Expr)
        ensures
            r.kind == (ExprKind::Compare { left: self, op: "!=", right: other }),
    {
        Expr::compare(self, "!=", other)
    }

    /// `self > other`.
    pub fn gt(self, other: Scalar) -> (r: Expr)
        ensures
            r.kind == (ExprKind::Compare { left: self, op: ">", right: other }),
    {
        Expr::compare(self, ">", other)
    }

    /// `self >= other`.
    pub fn gte(self, other: Scalar) -> (r: Expr)
        ensures
            r.kind == (ExprKind::Compare { left: self, op: ">=", right: other }),
    {
        Expr::compare(self, ">=", other)
    }

    /// `self < other`.
    pub fn lt(self, other: Scalar) -> (r: Expr)
        ensures
            r.kind == (ExprKind::Compare { left: self, op: "<", right: other }),
    {
        Expr::compare(self, "<", other)
    }

    /// `self <= other`.
    pub fn lte(self, other: Scalar) -> (r: Expr)
        ensures
            r.kind == (ExprKind::Compare { left: self, op: "<=", right: other }),
    {
        Expr::compare(self, "<=", other)
    }

    /// `self LIKE pattern`, with `%` and `_` in `pattern` acting as wildcards.
    pub fn like(self, pattern: Scalar) -> (r: Expr)
        ensures
            r.kind == (ExprKind::Like { left: self, pattern, escape: None }),
    {
        Expr::like_node(self, pattern, None)
    }

    /// `self LIKE pattern ESCAPE ?`; the escape character is bound.
    pub fn like_escape(self, pattern: Scalar, escape: char) -> (r: Expr)
        ensures
            r.kind == (ExprKind::Like { left: self, pattern, escape: Some(escape) }),
    {
        Expr::like_node(self, pattern, Some(escape))
    }

    /// `<self> IN (<query>)` — membership tested database-side.
    pub fn in_subquery(self, query: Box<dyn SelectSource>) -> (r: Expr)
        ensures
            r.kind == (ExprKind::InSubquery { left: self, query, negated: false }),
    {
        Expr::from_kind(ExprKind::InSubquery { left: self, query, negated: false })
    }

    /// `<self> NOT IN (<query>)`; returns no rows when the set holds a NULL.
    pub fn not_in_subquery(self, query: Box<dyn SelectSource>) -> (r: Expr)
        ensures
            r.kind == (ExprKind::InSubquery { left: self, query, negated: true }),
    {
        Expr::from_kind(ExprKind::InSubquery { left: self, query, negated: true })
    }

    /// `(SELECT …)` in value position.
    pub fn subquery(query: Box<dyn SelectSource>) -> (r: Scalar)
        ensures
            r.kind == ScalarKind::Subquery(query),
    {
        Scalar { kind: ScalarKind::Subquery(query) }
    }
}

/// `(self + rhs)`.
impl vstd::std_specs::ops::AddSpecImpl for Scalar {
    open spec fn obeys_add_spec() -> bool {
        true
    }

    open spec fn add_req(self, rhs: Scalar) -> bool {
        true
    }

    open spec fn add_spec(self, rhs: Scalar) -> Scalar {
        Scalar { kind: ScalarKind::Arith { left: Box::new(self), op: "+", right: Box::new(rhs) } }
    }
}

impl core::ops::Add for Scalar {
    type Output = Scalar;

    fn add(self, rhs: Scalar) -> (r: Scalar)
        ensures
            r.kind == (ScalarKind::Arith { left: Box::new(self), op: "+", right: Box::new(rhs) }),
    {
        self.arith("+", rhs)
    }
}

/// `(self - rhs)`.
impl vstd::std_specs::ops::SubSpecImpl for Scalar {
    open spec fn obeys_sub_spec() -> bool {
        true
    }

    open spec fn sub_req(self, rhs: Scalar) -> bool {
        true
    }

    open spec fn sub_spec(self, rhs: Scalar) -> Scalar {
        Scalar { kind: ScalarKind::Arith { left: Box::new(self), op: "-", right: Box::new(rhs) } }
    }
}

impl core::ops::Sub for Scalar {
    type Output = Scalar;

    fn sub(self, rhs: Scalar) -> (r: Scalar)
        ensures
            r.kind == (ScalarKind::Arith { left: Box::new(self), op: "-", right: Box::new(rhs) }),
    {
        self.arith("-", rhs)
    }
}

/// `(self * rhs)`.
impl vstd::std_specs::ops::MulSpecImpl for Scalar {
    open spec fn obeys_mul_spec() -> bool {
        true
    }

    open spec fn mul_req(self, rhs: Scalar) -> bool {
        true
    }

    open spec fn mul_spec(self, rhs: Scalar) -> Scalar {
        Scalar { kind: ScalarKind::Arith { left: Box::new(self), op: "*", right: Box::new(rhs) } }
    }
}

impl core::ops::Mul for Scalar {
    type Output = Scalar;

    fn mul(self, rhs: Scalar) -> (r: Scalar)
        ensures
            r.kind == (ScalarKind::Arith { left: Box::new(self), op: "*", right: Box::new(rhs) }),
    {
        self.arith("*", rhs)
    }
}

/// `(self / rhs)`; division by zero is left to the engine.
impl vstd::std_specs::ops::DivSpecImpl for Scalar {
    open spec fn obeys_div_spec() -> bool {
        true
    }

    open spec fn div_req(self, rhs: Scalar) -> bool {
        true
    }

    open spec fn div_spec(self, rhs: Scalar) -> Scalar {
        Scalar { kind: ScalarKind::Arith { left: Box::new(self), op: "/", right: Box::new(rhs) } }
    }
}

impl core::ops::Div for Scalar {
    type Output = Scalar;

    fn div(self, rhs: Scalar) -> (r: Scalar)
        ensures
            r.kind == (ScalarKind::Arith { left: Box::new(self), op: "/", right: Box::new(rhs) }),
    {
        self.arith("/", rhs)
    }
}

} // verus!
