//! [`QualifiedColumn`] — what a `Column<T>` and an `AliasedColumn<T>` share.
use vstd::prelude::*;

verus! {

/// A column reference that renders qualified by its table or alias.
pub trait QualifiedColumn {
    /// `"qualifier"."name"`, both parts quoted.
    spec fn qualified_sql(&self) -> Seq<char>;

    /// `"qualifier"."name"`, both parts quoted.
    fn qualified(&self) -> (r: String)
        ensures
            r@ == self.qualified_sql(),
    ;
}

} // verus!
