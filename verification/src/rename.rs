//! Deciding which added and removed names of one diff are renames.
use vstd::prelude::*;
use crate::text::strings_view;

verus! {

/// The `(old, new)` names of a list of renames.
pub open spec fn pairs_view(v: Seq<(String, String)>) -> Seq<(Seq<char>, Seq<char>)> {
    v.map_values(|p: (String, String)| (p.0@, p.1@))
}

/// Picks, from the names one diff adds and removes, the pairs that are
/// renames. Every pair it returns is `(old name, new name)`. What a resolver
/// picks is its own business (it may ask a person), so by default nothing is
/// promised of its answers: the diff takes them as they come. A resolver that
/// restricts its answers says so by overriding the two relations below, and is
/// then held to them.
pub trait RenameResolver {
    /// Whether `picked` is an answer this resolver may give to the table
    /// question: the table names the diff adds and those it removes.
    open spec fn may_pick_tables(
        &self,
        added: Seq<Seq<char>>,
        removed: Seq<Seq<char>>,
        picked: Seq<(Seq<char>, Seq<char>)>,
    ) -> bool {
        true
    }

    /// Whether `picked` is an answer this resolver may give to the column
    /// question about `table`: the column names the diff adds and removes.
    open spec fn may_pick_columns(
        &self,
        table: Seq<char>,
        added: Seq<Seq<char>>,
        removed: Seq<Seq<char>>,
        picked: Seq<(Seq<char>, Seq<char>)>,
    ) -> bool {
        true
    }

    /// The table renames, given the table names the diff adds and removes.
    fn resolve_tables(&self, added: &[String], removed: &[String]) -> (r: Vec<(String, String)>)
        ensures
            self.may_pick_tables(strings_view(added@), strings_view(removed@), pairs_view(r@)),
    ;

    /// The column renames of `table`, given the column names the diff adds
    /// and removes.
    fn resolve_columns(&self, table: &str, added: &[String], removed: &[String]) -> (r: Vec<(String, String)>)
        ensures
            self.may_pick_columns(table@, strings_view(added@), strings_view(removed@), pairs_view(r@)),
    ;
}

/// The resolver that sees no renames: every added name is a creation, every
/// removed name a drop.
pub struct NoRenames;

impl RenameResolver for NoRenames {
    open spec fn may_pick_tables(
        &self,
        added: Seq<Seq<char>>,
        removed: Seq<Seq<char>>,
        picked: Seq<(Seq<char>, Seq<char>)>,
    ) -> bool {
        picked.len() == 0
    }

    open spec fn may_pick_columns(
        &self,
        table: Seq<char>,
        added: Seq<Seq<char>>,
        removed: Seq<Seq<char>>,
        picked: Seq<(Seq<char>, Seq<char>)>,
    ) -> bool {
        picked.len() == 0
    }

    fn resolve_tables(&self, added: &[String], removed: &[String]) -> (r: Vec<(String, String)>) {
        Vec::new()
    }

    fn resolve_columns(&self, table: &str, added: &[String], removed: &[String]) -> (r: Vec<(String, String)>) {
        Vec::new()
    }
}

} // verus!
