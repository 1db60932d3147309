//! [`AliasedColumn`] — a column carrying the qualifier of an aliased table.
use vstd::prelude::*;
use core::marker::PhantomData;
use crate::query_column::{qualify, qualified_name};
use crate::expr::nodes::Scalar;
use crate::expr::order::OrderBy;
use crate::expr::scalar::is_plain_sql;
use super::qualified::QualifiedColumn;

verus! {

/// A column of a table named under an alias. It carries the same marker `T`
/// as the column it came from, so the typed predicates come along.
#[derive(Debug)]
pub struct AliasedColumn<T> {
    qualifier: String,
    name: String,
    marker: PhantomData<T>,
}

impl<T> AliasedColumn<T> {
    /// The alias (or table) this column is addressed through.
    pub closed spec fn qualifier_view(&self) -> Seq<char> {
        self.qualifier@
    }

    /// The column name on the underlying table.
    pub closed spec fn name_view(&self) -> Seq<char> {
        self.name@
    }

    /// `qualifier` is the alias (or table) the column is addressed through.
    pub fn new(qualifier: &str, name: &str) -> (r: Self)
        ensures
            r.qualifier_view() == qualifier@,
            r.name_view() == name@,
    {
        AliasedColumn { qualifier: qualifier.to_string(), name: name.to_string(), marker: PhantomData }
    }

    /// The alias (or table) this column is addressed through.
    pub fn qualifier(&self) -> (r: &str)
        ensures
            r@ == self.qualifier_view(),
    {
        self.qualifier.as_str()
    }

    /// The column name on the underlying table.
    pub fn name(&self) -> (r: &str)
        ensures
            r@ == self.name_view(),
    {
        self.name.as_str()
    }

    /// `"qualifier"."name"`, both parts quoted.
    pub fn qualified(&self) -> (r: String)
        ensures
            r@ == qualified_name(self.qualifier_view(), self.name_view()),
    {
        qualify(self.qualifier.as_str(), self.name.as_str())
    }

    /// The column as a [`Scalar`], for a projection or a computed term.
    pub fn scalar(&self) -> (r: Scalar)
        ensures
            is_plain_sql(r, qualified_name(self.qualifier_view(), self.name_view())),
    {
        Scalar::sql(self.qualified().as_str())
    }

    /// `ORDER BY "qualifier"."name" ASC`.
    pub fn asc(&self) -> (r: OrderBy)
        ensures
            is_plain_sql(r.term, qualified_name(self.qualifier_view(), self.name_view())),
            r.direction@ == "ASC"@,
    {
        self.scalar().asc()
    }

    /// `ORDER BY "qualifier"."name" DESC`.
    pub fn desc(&self) -> (r: OrderBy)
        ensures
            is_plain_sql(r.term, qualified_name(self.qualifier_view(), self.name_view())),
            r.direction@ == "DESC"@,
    {
        self.scalar().desc()
    }
}

/// Written out rather than derived: a derive's `T: Clone` bound would leave
/// `AliasedColumn<Text>` uncloneable, the markers being bare unit structs.
impl<T> Clone for AliasedColumn<T> {
    fn clone(&self) -> (r: Self)
        ensures
            r.qualifier_view() == self.qualifier_view(),
            r.name_view() == self.name_view(),
    {
        AliasedColumn { qualifier: self.qualifier.clone(), name: self.name.clone(), marker: PhantomData }
    }
}

impl<T> QualifiedColumn for AliasedColumn<T> {
    open spec fn qualified_sql(&self) -> Seq<char> {
        qualified_name(self.qualifier_view(), self.name_view())
    }

    fn qualified(&self) -> (r: String) {
        AliasedColumn::qualified(self)
    }
}

} // verus!
