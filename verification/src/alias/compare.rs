//! Column-to-column predicates: `"a"."x" <op> "b"."y"`, binding nothing.
use vstd::prelude::*;
use crate::query_column::Column;
use crate::expr::nodes::{Expr, ExprKind};
use crate::expr::order::JoinCondition;
use crate::expr::scalar::is_plain_sql;
use super::aliased_column::AliasedColumn;
use super::qualified::QualifiedColumn;

verus! {

/// `left <op> right` between two pre-rendered column references.
pub open spec fn is_column_compare(j: JoinCondition, left: Seq<char>, op: Seq<char>, right: Seq<char>) -> bool {
    j.expr.kind matches ExprKind::Compare { left: l, op: o, right: r } && is_plain_sql(l, left)
        && o@ == op && is_plain_sql(r, right)
}

/// `left <op> right` as a join predicate.
pub fn compare<L: QualifiedColumn, R: QualifiedColumn>(left: &L, op: &'static str, right: &R) -> (r: JoinCondition)
    ensures
        is_column_compare(r, left.qualified_sql(), op@, right.qualified_sql()),
{
    let l = crate::expr::nodes::Scalar::sql(left.qualified().as_str());
    let rr = crate::expr::nodes::Scalar::sql(right.qualified().as_str());
    JoinCondition::on(Expr::compare(l, op, rr))
}

impl<T> Column<T> {
    /// `self = other`.
    pub fn equals<C: QualifiedColumn>(&self, other: &C) -> (r: JoinCondition)
        ensures
            is_column_compare(r, self.qualified_sql(), "="@, other.qualified_sql()),
    {
        compare(self, "=", other)
    }

    /// `self != other`.
    pub fn not_equals<C: QualifiedColumn>(&self, other: &C) -> (r: JoinCondition)
        ensures
            is_column_compare(r, self.qualified_sql(), "!="@, other.qualified_sql()),
    {
        compare(self, "!=", other)
    }

    /// `self < other`.
    pub fn less_than<C: QualifiedColumn>(&self, other: &C) -> (r: JoinCondition)
        ensures
            is_column_compare(r, self.qualified_sql(), "<"@, other.qualified_sql()),
    {
        compare(self, "<", other)
    }

    /// `self <= other`.
    pub fn less_or_equal<C: QualifiedColumn>(&self, other: &C) -> (r: JoinCondition)
        ensures
            is_column_compare(r, self.qualified_sql(), "<="@, other.qualified_sql()),
    {
        compare(self, "<=", other)
    }

    /// `self > other`.
    pub fn greater_than<C: QualifiedColumn>(&self, other: &C) -> (r: JoinCondition)
        ensures
            is_column_compare(r, self.qualified_sql(), ">"@, other.qualified_sql()),
    {
        compare(self, ">", other)
    }

    /// `self >= other`.
    pub fn greater_or_equal<C: QualifiedColumn>(&self, other: &C) -> (r: JoinCondition)
        ensures
            is_column_compare(r, self.qualified_sql(), ">="@, other.qualified_sql()),
    {
        compare(self, ">=", other)
    }
}

impl<T> AliasedColumn<T> {
    /// `self = other`.
    pub fn equals<C: QualifiedColumn>(&self, other: &C) -> (r: JoinCondition)
        ensures
            is_column_compare(r, self.qualified_sql(), "="@, other.qualified_sql()),
    {
        compare(self, "=", other)
    }

    /// `self != other`.
    pub fn not_equals<C: QualifiedColumn>(&self, other: &C) -> (r: JoinCondition)
        ensures
            is_column_compare(r, self.qualified_sql(), "!="@, other.qualified_sql()),
    {
        compare(self, "!=", other)
    }

    /// `self < other`.
    pub fn less_than<C: QualifiedColumn>(&self, other: &C) -> (r: JoinCondition)
        ensures
            is_column_compare(r, self.qualified_sql(), "<"@, other.qualified_sql()),
    {
        compare(self, "<", other)
    }

    /// `self <= other`.
    pub fn less_or_equal<C: QualifiedColumn>(&self, other: &C) -> (r: JoinCondition)
        ensures
            is_column_compare(r, self.qualified_sql(), "<="@, other.qualified_sql()),
    {
        compare(self, "<=", other)
    }

    /// `self > other`.
    pub fn greater_than<C: QualifiedColumn>(&self, other: &C) -> (r: JoinCondition)
        ensures
            is_column_compare(r, self.qualified_sql(), ">"@, other.qualified_sql()),
    {
        compare(self, ">", other)
    }

    /// `self >= other`.
    pub fn greater_or_equal<C: QualifiedColumn>(&self, other: &C) -> (r: JoinCondition)
        ensures
            is_column_compare(r, self.qualified_sql(), ">="@, other.qualified_sql()),
    {
        compare(self, ">=", other)
    }
}

} // verus!
