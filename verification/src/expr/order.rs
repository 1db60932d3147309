//! `ORDER BY` terms, `JOIN … ON` predicates, and `CASE` expressions.
use vstd::prelude::*;
use crate::dialect::Dialect;
use crate::value::{Value, ValueView, values_view};
use super::nodes::{Expr, ExprKind, Scalar, ScalarKind};
use super::render::{expr_fragment, scalar_fragment};

verus! {

/// One `ORDER BY` term: a scalar and a direction.
pub struct OrderBy {
    pub term: Scalar,
    pub direction: &'static str,
}

/// The term and its direction rendered at `start`, and the values it binds.
pub open spec fn order_fragment(o: OrderBy, start: nat, d: Dialect) -> (Seq<char>, Seq<ValueView>) {
    let f = scalar_fragment(o.term.kind, start, d);
    (f.0 + " "@ + o.direction@, f.1)
}

/// `"<alias>"`, the alias wrapped in double quotes as written.
pub open spec fn alias_term_sql(alias: Seq<char>) -> Seq<char> {
    seq!['"'] + alias + seq!['"']
}

impl OrderBy {
    /// The term and its direction, with placeholders numbered from `start`
    /// and the values the term binds returned alongside.
    pub fn to_sql_fragment_for(&self, start: usize, dialect: Dialect) -> (r: (String, Vec<Value>))
        ensures
            r.0@ == order_fragment(*self, start as nat, dialect).0,
            values_view(r.1@) == order_fragment(*self, start as nat, dialect).1,
    {
        let (mut sql, params) = self.term.to_sql_fragment_for(start, dialect);
        sql.append(" ");
        sql.append(self.direction);
        (sql, params)
    }

    /// The parameter-free rendering: placeholders numbered from 1 against
    /// [`Dialect::CURRENT`], values dropped. For a term that binds nothing.
    pub fn to_sql(&self) -> (r: String)
        ensures
            r@ == order_fragment(*self, 1, Dialect::CURRENT).0,
    {
        self.to_sql_fragment_for(1, Dialect::CURRENT).0
    }

    /// `ORDER BY "<alias>" ASC` — order by a computed output.
    pub fn alias_asc(alias: &str) -> (r: OrderBy)
        ensures
            super::scalar::is_plain_sql(r.term, alias_term_sql(alias@)),
            r.direction@ == "ASC"@,
    {
        let s = quote_plain(alias);
        OrderBy::raw_asc(s.as_str())
    }

    /// `ORDER BY "<alias>" DESC`.
    pub fn alias_desc(alias: &str) -> (r: OrderBy)
        ensures
            super::scalar::is_plain_sql(r.term, alias_term_sql(alias@)),
            r.direction@ == "DESC"@,
    {
        let s = quote_plain(alias);
        OrderBy::raw_desc(s.as_str())
    }

    /// A term and its direction.
    pub fn from_term(term: Scalar, direction: &'static str) -> (r: OrderBy)
        ensures
            r.term == term,
            r.direction == direction,
    {
        OrderBy { term, direction }
    }

    /// Pre-rendered SQL, ascending.
    pub fn raw_asc(sql: &str) -> (r: OrderBy)
        ensures
            super::scalar::is_plain_sql(r.term, sql@),
            r.direction@ == "ASC"@,
    {
        OrderBy::from_term(Scalar::sql(sql), "ASC")
    }

    /// Pre-rendered SQL, descending.
    pub fn raw_desc(sql: &str) -> (r: OrderBy)
        ensures
            super::scalar::is_plain_sql(r.term, sql@),
            r.direction@ == "DESC"@,
    {
        OrderBy::from_term(Scalar::sql(sql), "DESC")
    }
}

/// `"` + `s` + `"` with nothing escaped.
fn quote_plain(s: &str) -> (r: String)
    ensures
        r@ == alias_term_sql(s@),
{
    let mut out = crate::text::chars_of(s);
    let mut q: Vec<char> = Vec::new();
    q.push('"');
    crate::text::push_chars(&mut q, &out);
    q.push('"');
    assert(q@ =~= alias_term_sql(s@));
    crate::text::string_from_chars(&q)
}

impl Scalar {
    /// `ORDER BY <self> ASC`.
    pub fn asc(self) -> (r: OrderBy)
        ensures
            r.term == self,
            r.direction@ == "ASC"@,
    {
        OrderBy::from_term(self, "ASC")
    }

    /// `ORDER BY <self> DESC`.
    pub fn desc(self) -> (r: OrderBy)
        ensures
            r.term == self,
            r.direction@ == "DESC"@,
    {
        OrderBy::from_term(self, "DESC")
    }
}

/// The predicate a `JOIN ... ON` renders: an [`Expr`] in a different coat.
pub struct JoinCondition {
    pub expr: Expr,
}

impl JoinCondition {
    /// Uses `expr` as an `ON` predicate.
    pub fn on(expr: Expr) -> (r: JoinCondition)
        ensures
            r.expr == expr,
    {
        JoinCondition { expr }
    }

    /// `(self AND other)`.
    pub fn and(self, other: JoinCondition) -> (r: JoinCondition)
        ensures
            r.expr.kind == ExprKind::And(Box::new(self.expr), Box::new(other.expr)),
    {
        JoinCondition { expr: self.expr.and(other.expr) }
    }

    /// `(self OR other)`.
    pub fn or(self, other: JoinCondition) -> (r: JoinCondition)
        ensures
            r.expr.kind == ExprKind::Or(Box::new(self.expr), Box::new(other.expr)),
    {
        JoinCondition { expr: self.expr.or(other.expr) }
    }

    /// SQL with placeholders from `start`, plus the values they bind.
    pub fn to_sql_fragment_for(&self, start: usize, dialect: Dialect) -> (r: (String, Vec<Value>))
        ensures
            r.0@ == expr_fragment(self.expr.kind, start as nat, dialect).0,
            values_view(r.1@) == expr_fragment(self.expr.kind, start as nat, dialect).1,
    {
        self.expr.to_sql_fragment_for(start, dialect)
    }

    /// [`JoinCondition::to_sql_fragment_for`] against [`Dialect::CURRENT`].
    pub fn to_sql_fragment(&self, start: usize) -> (r: (String, Vec<Value>))
        ensures
            r.0@ == expr_fragment(self.expr.kind, start as nat, Dialect::CURRENT).0,
            values_view(r.1@) == expr_fragment(self.expr.kind, start as nat, Dialect::CURRENT).1,
    {
        self.to_sql_fragment_for(start, Dialect::CURRENT)
    }

    /// The parameter-free rendering: placeholders numbered from 1 against
    /// [`Dialect::CURRENT`], values dropped. For a condition that binds
    /// nothing, such as one column equal to another.
    pub fn to_sql(&self) -> (r: String)
        ensures
            r@ == expr_fragment(self.expr.kind, 1, Dialect::CURRENT).0,
    {
        self.to_sql_fragment_for(1, Dialect::CURRENT).0
    }
}

impl From<Expr> for JoinCondition {
    fn from(expr: Expr) -> (r: JoinCondition) {
        JoinCondition { expr }
    }
}

impl vstd::std_specs::convert::FromSpecImpl<Expr> for JoinCondition {
    open spec fn obeys_from_spec() -> bool {
        true
    }

    open spec fn from_spec(expr: Expr) -> JoinCondition {
        JoinCondition { expr }
    }
}

impl From<JoinCondition> for Expr {
    fn from(condition: JoinCondition) -> (r: Expr) {
        condition.expr
    }
}

impl vstd::std_specs::convert::FromSpecImpl<JoinCondition> for Expr {
    open spec fn obeys_from_spec() -> bool {
        true
    }

    open spec fn from_spec(condition: JoinCondition) -> Expr {
        condition.expr
    }
}

/// A `CASE` under construction; it always holds at least one `WHEN` branch,
/// so `CASE END` — which is not valid SQL — cannot be built.
pub struct CaseBuilder {
    branches: Vec<(Expr, Scalar)>,
}

impl CaseBuilder {
    #[verifier::type_invariant]
    spec fn has_a_branch(self) -> bool {
        self.branches@.len() >= 1
    }

    /// The branches so far, in the order they are tested.
    pub closed spec fn branch_seq(self) -> Seq<(Expr, Scalar)> {
        self.branches@
    }

    /// Another `WHEN <predicate> THEN <then>` branch, tested after the ones
    /// already added.
    pub fn when(self, predicate: Expr, then: Scalar) -> (r: CaseBuilder)
        ensures
            r.branch_seq() == self.branch_seq().push((predicate, then)),
    {
        proof {
            use_type_invariant(&self);
        }
        let CaseBuilder { mut branches } = self;
        branches.push((predicate, then));
        CaseBuilder { branches }
    }

    /// Close the `CASE` with `ELSE <value> END`.
    pub fn otherwise(self, value: Scalar) -> (r: Scalar)
        ensures
            r.kind matches ScalarKind::Case { branches, otherwise } && branches@ == self.branch_seq()
                && branches@.len() >= 1 && otherwise == Some(Box::new(value)),
    {
        proof {
            use_type_invariant(&self);
        }
        let CaseBuilder { branches } = self;
        Scalar { kind: ScalarKind::Case { branches, otherwise: Some(Box::new(value)) } }
    }

    /// Close the `CASE` without an `ELSE`; SQL then yields `NULL` when no
    /// branch matches.
    pub fn end(self) -> (r: Scalar)
        ensures
            r.kind matches ScalarKind::Case { branches, otherwise } && branches@ == self.branch_seq()
                && branches@.len() >= 1 && otherwise is None,
    {
        proof {
            use_type_invariant(&self);
        }
        let CaseBuilder { branches } = self;
        Scalar { kind: ScalarKind::Case { branches, otherwise: None } }
    }
}

impl Scalar {
    /// Open a `CASE` with its first `WHEN <predicate> THEN <then>` branch.
    pub fn case_when(predicate: Expr, then: Scalar) -> (r: CaseBuilder)
        ensures
            r.branch_seq() == seq![(predicate, then)],
    {
        let mut branches: Vec<(Expr, Scalar)> = Vec::new();
        branches.push((predicate, then));
        CaseBuilder { branches }
    }
}

} // verus!
