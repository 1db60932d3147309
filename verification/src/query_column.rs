//! Typed column references: `"table"."column"` with a marker type.
use vstd::prelude::*;
use core::marker::PhantomData;
use crate::alias::quoting::{quote_ident, quoted};
use crate::alias::qualified::QualifiedColumn;
use crate::alias::aliased_column::AliasedColumn;
use crate::column::{BigInt, Date, Integer, Real, SmallInt, Text, Time, Timestamp, Uuid, Varchar};
use crate::value::{Value, ValueView, values_view, copy_slice};
use crate::expr::binding::{BindSource, ListSource, SharedBind, SharedBindList};
use crate::expr::nodes::{Expr, ExprKind, Scalar, ScalarKind};
use crate::expr::scalar::is_plain_sql;

verus! {

/// `"qualifier"."name"`, both parts quoted.
pub open spec fn qualified_name(qualifier: Seq<char>, name: Seq<char>) -> Seq<char> {
    quoted(qualifier) + "."@ + quoted(name)
}

/// Renders `"qualifier"."name"`.
pub fn qualify(qualifier: &str, name: &str) -> (r: String)
    ensures
        r@ == qualified_name(qualifier@, name@),
{
    let mut s = quote_ident(qualifier);
    s.append(".");
    let n = quote_ident(name);
    s.append(n.as_str());
    s
}

/// A column of a table, carrying the marker type `T` of its SQL type.
pub struct Column<T> {
    /// The table the column belongs to.
    pub table: &'static str,
    /// The column's name.
    pub name: &'static str,
    pub marker: PhantomData<T>,
}

impl<T> Column<T> {
    /// The column `name` of `table`.
    pub fn new(table: &'static str, name: &'static str) -> (r: Self)
        ensures
            r.table@ == table@,
            r.name@ == name@,
    {
        Column { table, name, marker: PhantomData }
    }

    /// `"table"."name"`, both parts quoted.
    pub fn qualified(&self) -> (r: String)
        ensures
            r@ == qualified_name(self.table@, self.name@),
    {
        qualify(self.table, self.name)
    }
}

impl<T> QualifiedColumn for Column<T> {
    open spec fn qualified_sql(&self) -> Seq<char> {
        qualified_name(self.table@, self.name@)
    }

    fn qualified(&self) -> (r: String) {
        Column::qualified(self)
    }
}

} // verus!

verus! {

/// `<column> <op> ?N` over an owned value, with `column` the qualified name.
pub open spec fn is_comparison(e: Expr, column: Seq<char>, op: Seq<char>, val: Value) -> bool {
    e.kind matches ExprKind::Comparison { column: c, op: o, value } && c@ == column && o@ == op
        && value == BindSource::Owned(val)
}

/// `<column> [NOT ]IN (…)` over owned values.
pub open spec fn is_in_list(e: Expr, column: Seq<char>, vals: Seq<ValueView>, negated: bool) -> bool {
    e.kind matches ExprKind::InList { column: c, values: ListSource::Owned(v), negated: n } && c@ == column
        && values_view(v@) == vals && n == negated
}

/// Comparison predicates every column has; each binds its value.
pub trait CommonOps: QualifiedColumn {
    /// `column = ?`.
    fn eq(&self, val: Value) -> (r: Expr)
        ensures
            is_comparison(r, self.qualified_sql(), "="@, val),
    {
        Expr::comparison(self.qualified(), "=", BindSource::Owned(val))
    }

    /// `column != ?`.
    fn ne(&self, val: Value) -> (r: Expr)
        ensures
            is_comparison(r, self.qualified_sql(), "!="@, val),
    {
        Expr::comparison(self.qualified(), "!=", BindSource::Owned(val))
    }

    /// `column IN (?, …)`; an empty list renders `1 = 0`.
    fn in_list(&self, values: &[Value]) -> (r: Expr)
        ensures
            is_in_list(r, self.qualified_sql(), values_view(values@), false),
    {
        Expr::in_list(self.qualified(), ListSource::Owned(copy_slice(values)), false)
    }

    /// `column NOT IN (?, …)`; an empty list renders `1 = 1`.
    fn not_in(&self, values: &[Value]) -> (r: Expr)
        ensures
            is_in_list(r, self.qualified_sql(), values_view(values@), true),
    {
        Expr::in_list(self.qualified(), ListSource::Owned(copy_slice(values)), true)
    }

    /// `column IS NULL`.
    fn is_null(&self) -> (r: Expr)
        ensures
            r.kind matches ExprKind::IsNull { column, negated } && column@ == self.qualified_sql() && !negated,
    {
        Expr::is_null(self.qualified(), false)
    }

    /// `column IS NOT NULL`.
    fn is_not_null(&self) -> (r: Expr)
        ensures
            r.kind matches ExprKind::IsNull { column, negated } && column@ == self.qualified_sql() && negated,
    {
        Expr::is_null(self.qualified(), true)
    }
}

/// `LIKE` on text-like columns.
pub trait TextOps: QualifiedColumn {
    /// `column LIKE ?`.
    fn like(&self, val: Value) -> (r: Expr)
        ensures
            is_comparison(r, self.qualified_sql(), "LIKE"@, val),
    {
        Expr::comparison(self.qualified(), "LIKE", BindSource::Owned(val))
    }

    /// `column LIKE ? ESCAPE ?`, the escape character bound.
    fn like_escape(&self, val: Value, escape: char) -> (r: Expr)
        ensures
            r.kind matches ExprKind::Like { left, pattern, escape: e }
                && is_plain_sql(left, self.qualified_sql())
                && pattern.kind == ScalarKind::Bind(BindSource::Owned(val)) && e == Some(escape),
    {
        Scalar::sql(self.qualified().as_str()).like_escape(Scalar::bind(val), escape)
    }
}

/// Ordering comparisons on numeric and temporal columns.
pub trait NumericOps: QualifiedColumn {
    /// `column > ?`.
    fn gt(&self, val: Value) -> (r: Expr)
        ensures
            is_comparison(r, self.qualified_sql(), ">"@, val),
    {
        Expr::comparison(self.qualified(), ">", BindSource::Owned(val))
    }

    /// `column < ?`.
    fn lt(&self, val: Value) -> (r: Expr)
        ensures
            is_comparison(r, self.qualified_sql(), "<"@, val),
    {
        Expr::comparison(self.qualified(), "<", BindSource::Owned(val))
    }

    /// `column >= ?`.
    fn gte(&self, val: Value) -> (r: Expr)
        ensures
            is_comparison(r, self.qualified_sql(), ">="@, val),
    {
        Expr::comparison(self.qualified(), ">=", BindSource::Owned(val))
    }

    /// `column <= ?`.
    fn lte(&self, val: Value) -> (r: Expr)
        ensures
            is_comparison(r, self.qualified_sql(), "<="@, val),
    {
        Expr::comparison(self.qualified(), "<=", BindSource::Owned(val))
    }

    /// `column BETWEEN ? AND ?`.
    fn between(&self, low: Value, high: Value) -> (r: Expr)
        ensures
            r.kind matches ExprKind::Between { column, low: l, high: h } && column@ == self.qualified_sql()
                && l == low && h == high,
    {
        Expr::between(self.qualified(), low, high)
    }
}

/// Predicates over a reusable handle: every occurrence of one handle in a
/// statement shares its placeholder.
pub trait SharedOps: QualifiedColumn {
    /// `column = ?N`, `N` shared by every use of `bind`.
    fn eq_shared(&self, bind: &SharedBind) -> (r: Expr)
        ensures
            r.kind matches ExprKind::Comparison { column, op, value: BindSource::Shared(h) }
                && column@ == self.qualified_sql() && op@ == "="@ && h@ == bind@
                && h.binding_id() == bind.binding_id(),
    {
        Expr::comparison(self.qualified(), "=", BindSource::Shared(bind.clone()))
    }

    /// `column IN (…)`, the run shared by every use of `list`.
    fn in_shared(&self, list: &SharedBindList) -> (r: Expr)
        ensures
            r.kind matches ExprKind::InList { column, values: ListSource::Shared(h), negated }
                && column@ == self.qualified_sql() && !negated && h@ == list@
                && h.binding_id() == list.binding_id(),
    {
        Expr::in_list(self.qualified(), ListSource::Shared(list.clone()), false)
    }
}

/// Marker types whose columns compare as numbers.
pub trait NumericMarker {}

/// Marker types whose columns match text patterns.
pub trait TextMarker {}

impl NumericMarker for Integer {}
impl NumericMarker for Real {}
impl NumericMarker for BigInt {}
impl NumericMarker for SmallInt {}
impl NumericMarker for Timestamp {}
impl NumericMarker for Date {}
impl NumericMarker for Time {}

impl TextMarker for Text {}
impl TextMarker for Uuid {}
impl TextMarker for Date {}
impl TextMarker for Time {}
impl<const N: u32> TextMarker for Varchar<N> {}

impl<T> CommonOps for Column<T> {}
impl<T> SharedOps for Column<T> {}
impl<T: TextMarker> TextOps for Column<T> {}
impl<T: NumericMarker> NumericOps for Column<T> {}

impl<T> CommonOps for AliasedColumn<T> {}
impl<T> SharedOps for AliasedColumn<T> {}
impl<T: TextMarker> TextOps for AliasedColumn<T> {}
impl<T: NumericMarker> NumericOps for AliasedColumn<T> {}

} // verus!
