//! Column-level diff detection between old and new column definitions.
use vstd::prelude::*;
use crate::column::{ColumnDef, ColumnDefView};
use crate::text::{copy_opt_string, opt_str_eq};
use super::operation::{ColumnChange, ColumnChangeView, changes_view};

verus! {

/// A type change, when the type differs.
pub open spec fn type_change(name: Seq<char>, old: ColumnDefView, new: ColumnDefView) -> Seq<ColumnChangeView> {
    if old.column_type != new.column_type {
        seq![ColumnChangeView::Type { column: name, old: old.column_type, new: new.column_type }]
    } else {
        seq![]
    }
}

/// A default change, when the default differs.
pub open spec fn default_change(name: Seq<char>, old: ColumnDefView, new: ColumnDefView) -> Seq<ColumnChangeView> {
    if old.default != new.default {
        seq![ColumnChangeView::Default { column: name, old: old.default, new: new.default }]
    } else {
        seq![]
    }
}

/// A nullability change, when `NOT NULL` differs; it reports whether the
/// column is nullable.
pub open spec fn nullable_change(name: Seq<char>, old: ColumnDefView, new: ColumnDefView) -> Seq<ColumnChangeView> {
    if old.not_null != new.not_null {
        seq![ColumnChangeView::Nullable { column: name, old: !old.not_null, new: !new.not_null }]
    } else {
        seq![]
    }
}

/// A uniqueness change, when `UNIQUE` differs.
pub open spec fn unique_change(name: Seq<char>, old: ColumnDefView, new: ColumnDefView) -> Seq<ColumnChangeView> {
    if old.unique != new.unique {
        seq![ColumnChangeView::Unique { column: name, old: old.unique, new: new.unique }]
    } else {
        seq![]
    }
}

/// A primary-key change, when the column-level flag differs.
pub open spec fn primary_key_change(name: Seq<char>, old: ColumnDefView, new: ColumnDefView) -> Seq<ColumnChangeView> {
    if old.primary_key != new.primary_key {
        seq![ColumnChangeView::PrimaryKey { column: name, old: old.primary_key, new: new.primary_key }]
    } else {
        seq![]
    }
}

/// An autoincrement change, when the flag differs.
pub open spec fn autoincrement_change(name: Seq<char>, old: ColumnDefView, new: ColumnDefView) -> Seq<ColumnChangeView> {
    if old.autoincrement != new.autoincrement {
        seq![ColumnChangeView::Autoincrement { column: name, old: old.autoincrement, new: new.autoincrement }]
    } else {
        seq![]
    }
}

/// The changes that take column `name` from `old` to `new`, in the order:
/// type, default, nullability, uniqueness, primary key, autoincrement.
pub open spec fn column_changes(name: Seq<char>, old: ColumnDefView, new: ColumnDefView) -> Seq<ColumnChangeView> {
    type_change(name, old, new) + default_change(name, old, new) + nullable_change(name, old, new)
        + unique_change(name, old, new) + primary_key_change(name, old, new) + autoincrement_change(
        name,
        old,
        new,
    )
}

/// Appends `c` to `changes`.
fn push_change(changes: &mut Vec<ColumnChange>, c: ColumnChange)
    ensures
        changes_view(final(changes)@) == changes_view(old(changes)@).push(c@),
{
    changes.push(c);
    assert(changes_view(changes@) =~= changes_view(old(changes)@).push(c@));
}

/// Appends the type change of `name`, if any.
fn push_type_change(changes: &mut Vec<ColumnChange>, name: &str, before: &ColumnDef, after: &ColumnDef)
    ensures
        changes_view(final(changes)@) == changes_view(old(changes)@) + type_change(name@, before@, after@),
{
    if before.column_type != after.column_type {
        push_change(
            changes,
            ColumnChange::Type {
                column: name.to_string(),
                old: before.column_type.clone(),
                new: after.column_type.clone(),
            },
        );
    }
    assert(changes_view(changes@) =~= changes_view(old(changes)@) + type_change(name@, before@, after@));
}

/// Appends the default change of `name`, if any.
fn push_default_change(changes: &mut Vec<ColumnChange>, name: &str, before: &ColumnDef, after: &ColumnDef)
    ensures
        changes_view(final(changes)@) == changes_view(old(changes)@) + default_change(name@, before@, after@),
{
    if !opt_str_eq(&before.default, &after.default) {
        push_change(
            changes,
            ColumnChange::Default {
                column: name.to_string(),
                old: copy_opt_string(&before.default),
                new: copy_opt_string(&after.default),
            },
        );
    }
    assert(changes_view(changes@) =~= changes_view(old(changes)@) + default_change(name@, before@, after@));
}

/// Appends the nullability, uniqueness, primary-key and autoincrement
/// changes of `name`, each if any.
fn push_flag_changes(changes: &mut Vec<ColumnChange>, name: &str, before: &ColumnDef, after: &ColumnDef)
    ensures
        changes_view(final(changes)@) == changes_view(old(changes)@) + nullable_change(name@, before@, after@)
            + unique_change(name@, before@, after@) + primary_key_change(name@, before@, after@)
            + autoincrement_change(name@, before@, after@),
{
    let ghost c0 = changes_view(changes@);
    if before.not_null != after.not_null {
        push_change(
            changes,
            ColumnChange::Nullable { column: name.to_string(), old: !before.not_null, new: !after.not_null },
        );
    }
    let ghost c1 = changes_view(changes@);
    assert(c1 =~= c0 + nullable_change(name@, before@, after@));
    if before.unique != after.unique {
        push_change(
            changes,
            ColumnChange::Unique { column: name.to_string(), old: before.unique, new: after.unique },
        );
    }
    let ghost c2 = changes_view(changes@);
    assert(c2 =~= c1 + unique_change(name@, before@, after@));
    if before.primary_key != after.primary_key {
        push_change(
            changes,
            ColumnChange::PrimaryKey {
                column: name.to_string(),
                old: before.primary_key,
                new: after.primary_key,
            },
        );
    }
    let ghost c3 = changes_view(changes@);
    assert(c3 =~= c2 + primary_key_change(name@, before@, after@));
    if before.autoincrement != after.autoincrement {
        push_change(
            changes,
            ColumnChange::Autoincrement {
                column: name.to_string(),
                old: before.autoincrement,
                new: after.autoincrement,
            },
        );
    }
    assert(changes_view(changes@) =~= c3 + autoincrement_change(name@, before@, after@));
}

/// The changes that take column `name` from `old` to `new`.
pub fn compute_column_changes(name: &str, old: &ColumnDef, new: &ColumnDef) -> (r: Vec<ColumnChange>)
    ensures
        changes_view(r@) == column_changes(name@, old@, new@),
{
    let mut changes: Vec<ColumnChange> = Vec::new();
    assert(changes_view(changes@) =~= Seq::<ColumnChangeView>::empty());
    push_type_change(&mut changes, name, old, new);
    push_default_change(&mut changes, name, old, new);
    push_flag_changes(&mut changes, name, old, new);
    assert(changes_view(changes@) =~= column_changes(name@, old@, new@));
    changes
}

/// A column compared with itself has no changes.
pub proof fn lemma_column_changes_identity(name: Seq<char>, c: ColumnDefView)
    ensures
        column_changes(name, c, c).len() == 0,
{
}

} // verus!
