//! The schema diff: comparing a snapshot with a registry to produce the
//! migration operations between them.
use vstd::prelude::*;
use crate::column::{ColumnDef, ColumnDefView};
use crate::keyed::{Named, lookup, find_key, keys_of, strictly_sorted, names_not_in, names_of,
    strings_not_in, contains_str, lookup_entry, lemma_lookup_map, lemma_keys_map, lemma_find_key,
    lemma_find_key_sorted, lemma_names_not_in_self};
use crate::rename::{RenameResolver, NoRenames, pairs_view};
use crate::schema::{IndexDefView, ForeignKeyDefView, EnumDefView, TableDef, TableDefView, SchemaRegistry, columns_view,
    tables_view, enums_view};
use crate::snapshot::{Snapshot, SnapshotView, SnapshotTable, registry_snapshot, table_well_formed,
    snapshot_well_formed,
    lemma_registry_snapshot_well_formed};
use crate::text::strings_view;
use super::column::{column_changes, compute_column_changes, lemma_column_changes_identity};
use super::enums::{enum_ops, diff_enums, lemma_enum_ops_identity};
use super::fk::{fk_ops, check_ops, diff_foreign_keys_inner, diff_check_constraints_inner,
    lemma_fk_ops_identity, lemma_check_ops_identity};
use super::indexes::{index_ops, diff_indexes_inner, lemma_index_ops_identity};
use super::operation::{Operation, OperationView, ops_view, concat_ops, push_op, lemma_concat_ops_step,
    lemma_concat_ops_empty};

verus! {

/// The old names of a list of renames.
pub open spec fn firsts(p: Seq<(Seq<char>, Seq<char>)>) -> Seq<Seq<char>> {
    p.map_values(|x: (Seq<char>, Seq<char>)| x.0)
}

/// The new names of a list of renames.
pub open spec fn seconds(p: Seq<(Seq<char>, Seq<char>)>) -> Seq<Seq<char>> {
    p.map_values(|x: (Seq<char>, Seq<char>)| x.1)
}

/// The old names of `renames`.
fn pair_firsts(renames: &Vec<(String, String)>) -> (r: Vec<String>)
    ensures
        strings_view(r@) == firsts(pairs_view(renames@)),
{
    let mut out: Vec<String> = Vec::new();
    let mut i: usize = 0;
    while i < renames.len()
        invariant
            i <= renames.len(),
            strings_view(out@) == firsts(pairs_view(renames@.take(i as int))),
        decreases renames.len() - i,
    {
        let ghost prev = out@;
        out.push(renames[i].0.clone());
        i = i + 1;
        assert(firsts(pairs_view(renames@.take(i as int))) =~= firsts(pairs_view(renames@.take((i - 1) as int))).push(
            renames@[i - 1].0@,
        ));
        assert(strings_view(out@) =~= strings_view(prev).push(renames@[i - 1].0@));
    }
    assert(renames@.take(i as int) =~= renames@);
    out
}

/// The new names of `renames`.
fn pair_seconds(renames: &Vec<(String, String)>) -> (r: Vec<String>)
    ensures
        strings_view(r@) == seconds(pairs_view(renames@)),
{
    let mut out: Vec<String> = Vec::new();
    let mut i: usize = 0;
    while i < renames.len()
        invariant
            i <= renames.len(),
            strings_view(out@) == seconds(pairs_view(renames@.take(i as int))),
        decreases renames.len() - i,
    {
        let ghost prev = out@;
        out.push(renames[i].1.clone());
        i = i + 1;
        assert(seconds(pairs_view(renames@.take(i as int))) =~= seconds(pairs_view(renames@.take((i - 1) as int))).push(
            renames@[i - 1].1@,
        ));
        assert(strings_view(out@) =~= strings_view(prev).push(renames@[i - 1].1@));
    }
    assert(renames@.take(i as int) =~= renames@);
    out
}

// ---------------------------------------------------------------------------
// Columns

/// What one removed column becomes: dropped unless it was renamed.
pub open spec fn column_drop_ops(table: Seq<char>, renamed_old: Seq<Seq<char>>, name: Seq<char>) -> Seq<OperationView> {
    if renamed_old.contains(name) {
        seq![]
    } else {
        seq![OperationView::DropColumn { table, column: name }]
    }
}

/// What one added column becomes: added, with its new definition, unless it
/// is the new name of a rename.
pub open spec fn column_add_ops(table: Seq<char>, renamed_new: Seq<Seq<char>>, new: Seq<ColumnDefView>, name: Seq<char>) -> Seq<OperationView> {
    if renamed_new.contains(name) {
        seq![]
    } else {
        match lookup(new, name) {
            Some(c) => seq![OperationView::AddColumn { table, column: c }],
            None => seq![],
        }
    }
}

/// What one column of the new list becomes: altered, carrying the whole new
/// table, when the old list has it and it changed.
pub open spec fn column_alter_ops(
    table: Seq<char>,
    old: Seq<ColumnDefView>,
    new: Seq<ColumnDefView>,
    def: TableDefView,
    c: ColumnDefView,
) -> Seq<OperationView> {
    match (lookup(old, c.name), lookup(new, c.name)) {
        (Some(o), Some(n)) => {
            let ch = column_changes(c.name, o, n);
            if ch.len() > 0 {
                seq![OperationView::AlterColumn { table, changes: ch, table_def: def }]
            } else {
                seq![]
            }
        },
        _ => seq![],
    }
}

/// The column operations that take `table` from `old` to `new`, given the
/// renames picked for it: the renames, the drops of removed columns that
/// were not renamed, the additions of added ones that are no rename's new
/// name, then the alterations.
pub open spec fn column_ops(
    table: Seq<char>,
    old: Seq<ColumnDefView>,
    new: Seq<ColumnDefView>,
    def: TableDefView,
    renames: Seq<(Seq<char>, Seq<char>)>,
) -> Seq<OperationView> {
    let added = names_not_in(keys_of(new), keys_of(old));
    let removed = names_not_in(keys_of(old), keys_of(new));
    concat_ops(
        renames,
        |p: (Seq<char>, Seq<char>)| seq![OperationView::RenameColumn { table, old: p.0, new: p.1 }],
    ) + concat_ops(removed, |n: Seq<char>| column_drop_ops(table, firsts(renames), n)) + concat_ops(
        added,
        |n: Seq<char>| column_add_ops(table, seconds(renames), new, n),
    ) + concat_ops(new, |c: ColumnDefView| column_alter_ops(table, old, new, def, c))
}

/// Appends a `RenameColumn` for each rename.
fn push_rename_column_ops(ops: &mut Vec<Operation>, table_name: &str, renames: &Vec<(String, String)>)
    ensures
        ops_view(final(ops)@) == ops_view(old(ops)@) + concat_ops(
            pairs_view(renames@),
            |p: (Seq<char>, Seq<char>)| seq![OperationView::RenameColumn { table: table_name@, old: p.0, new: p.1 }],
        ),
{
    let ghost pv = pairs_view(renames@);
    let ghost t = table_name@;
    let ghost f = |p: (Seq<char>, Seq<char>)| seq![OperationView::RenameColumn { table: t, old: p.0, new: p.1 }];
    let ghost start = ops_view(ops@);
    assert(pv.take(0) =~= Seq::<(Seq<char>, Seq<char>)>::empty());
    let mut i: usize = 0;
    while i < renames.len()
        invariant
            i <= renames.len(),
            pv == pairs_view(renames@),
            t == table_name@,
            f == (|p: (Seq<char>, Seq<char>)| seq![OperationView::RenameColumn { table: t, old: p.0, new: p.1 }]),
            ops_view(ops@) == start + concat_ops(pv.take(i as int), f),
        decreases renames.len() - i,
    {
        proof {
            lemma_concat_ops_step(pv, f, i as int);
        }
        push_op(
            ops,
            Operation::RenameColumn {
                table: table_name.to_string(),
                old: renames[i].0.clone(),
                new: renames[i].1.clone(),
            },
        );
        i = i + 1;
        assert(ops_view(ops@) =~= start + concat_ops(pv.take(i as int), f));
    }
    assert(pv.take(i as int) =~= pv);
}

/// Appends a `DropColumn` for each removed column that was not renamed.
fn push_drop_column_ops(
    ops: &mut Vec<Operation>,
    table_name: &str,
    removed: &Vec<String>,
    renamed_old: &Vec<String>,
)
    ensures
        ops_view(final(ops)@) == ops_view(old(ops)@) + concat_ops(
            strings_view(removed@),
            |n: Seq<char>| column_drop_ops(table_name@, strings_view(renamed_old@), n),
        ),
{
    let ghost rv = strings_view(removed@);
    let ghost t = table_name@;
    let ghost ro = strings_view(renamed_old@);
    let ghost f = |n: Seq<char>| column_drop_ops(t, ro, n);
    let ghost start = ops_view(ops@);
    assert(rv.take(0) =~= Seq::<Seq<char>>::empty());
    let mut i: usize = 0;
    while i < removed.len()
        invariant
            i <= removed.len(),
            rv == strings_view(removed@),
            ro == strings_view(renamed_old@),
            t == table_name@,
            f == (|n: Seq<char>| column_drop_ops(t, ro, n)),
            ops_view(ops@) == start + concat_ops(rv.take(i as int), f),
        decreases removed.len() - i,
    {
        proof {
            lemma_concat_ops_step(rv, f, i as int);
        }
        if !contains_str(renamed_old, removed[i].as_str()) {
            push_op(ops, Operation::DropColumn { table: table_name.to_string(), column: removed[i].clone() });
        }
        i = i + 1;
        assert(ops_view(ops@) =~= start + concat_ops(rv.take(i as int), f));
    }
    assert(rv.take(i as int) =~= rv);
}

/// Appends an `AddColumn` for each added column that is not a rename's new
/// name.
fn push_add_column_ops(
    ops: &mut Vec<Operation>,
    table_name: &str,
    added: &Vec<String>,
    renamed_new: &Vec<String>,
    new_cols: &Vec<ColumnDef>,
)
    ensures
        ops_view(final(ops)@) == ops_view(old(ops)@) + concat_ops(
            strings_view(added@),
            |n: Seq<char>| column_add_ops(table_name@, strings_view(renamed_new@), columns_view(new_cols@), n),
        ),
{
    let ghost av = strings_view(added@);
    let ghost t = table_name@;
    let ghost rn = strings_view(renamed_new@);
    let ghost nv = columns_view(new_cols@);
    let ghost f = |n: Seq<char>| column_add_ops(t, rn, nv, n);
    let ghost start = ops_view(ops@);
    assert(av.take(0) =~= Seq::<Seq<char>>::empty());
    let mut i: usize = 0;
    while i < added.len()
        invariant
            i <= added.len(),
            av == strings_view(added@),
            rn == strings_view(renamed_new@),
            nv == columns_view(new_cols@),
            t == table_name@,
            f == (|n: Seq<char>| column_add_ops(t, rn, nv, n)),
            ops_view(ops@) == start + concat_ops(av.take(i as int), f),
        decreases added.len() - i,
    {
        proof {
            lemma_concat_ops_step(av, f, i as int);
            lemma_lookup_map(new_cols@, |x: ColumnDef| x@, added@[i as int]@);
            assert(new_cols@.map_values(|x: ColumnDef| x@) =~= nv);
        }
        if !contains_str(renamed_new, added[i].as_str()) {
            match lookup_entry(new_cols, added[i].as_str()) {
                Some(col) => {
                    push_op(ops, Operation::AddColumn { table: table_name.to_string(), column: col.duplicate() });
                },
                None => {},
            }
        }
        i = i + 1;
        assert(ops_view(ops@) =~= start + concat_ops(av.take(i as int), f));
    }
    assert(av.take(i as int) =~= av);
}

/// Appends an `AlterColumn` for each column of `new_cols` that `old_cols`
/// has and that changed.
fn push_alter_column_ops(
    ops: &mut Vec<Operation>,
    table_name: &str,
    old_cols: &Vec<ColumnDef>,
    new_cols: &Vec<ColumnDef>,
    new_table_def: &TableDef,
)
    ensures
        ops_view(final(ops)@) == ops_view(old(ops)@) + concat_ops(
            columns_view(new_cols@),
            |c: ColumnDefView| column_alter_ops(
                table_name@,
                columns_view(old_cols@),
                columns_view(new_cols@),
                new_table_def@,
                c,
            ),
        ),
{
    let ghost t = table_name@;
    let ghost ov = columns_view(old_cols@);
    let ghost nv = columns_view(new_cols@);
    let ghost d = new_table_def@;
    let ghost f = |c: ColumnDefView| column_alter_ops(t, ov, nv, d, c);
    let ghost start = ops_view(ops@);
    assert(nv.take(0) =~= Seq::<ColumnDefView>::empty());
    let mut i: usize = 0;
    while i < new_cols.len()
        invariant
            i <= new_cols.len(),
            ov == columns_view(old_cols@),
            nv == columns_view(new_cols@),
            t == table_name@,
            d == new_table_def@,
            f == (|c: ColumnDefView| column_alter_ops(t, ov, nv, d, c)),
            ops_view(ops@) == start + concat_ops(nv.take(i as int), f),
        decreases new_cols.len() - i,
    {
        let name = new_cols[i].name.as_str();
        proof {
            lemma_concat_ops_step(nv, f, i as int);
            lemma_lookup_map(old_cols@, |x: ColumnDef| x@, name@);
            lemma_lookup_map(new_cols@, |x: ColumnDef| x@, name@);
            assert(old_cols@.map_values(|x: ColumnDef| x@) =~= ov);
            assert(new_cols@.map_values(|x: ColumnDef| x@) =~= nv);
            assert(nv[i as int].name == name@);
        }
        match (lookup_entry(old_cols, name), lookup_entry(new_cols, name)) {
            (Some(old_col), Some(new_col)) => {
                let changes = compute_column_changes(name, old_col, new_col);
                if changes.len() > 0 {
                    push_op(
                        ops,
                        Operation::AlterColumn {
                            table: table_name.to_string(),
                            changes,
                            table_def: new_table_def.duplicate(),
                        },
                    );
                }
            },
            _ => {},
        }
        i = i + 1;
        assert(ops_view(ops@) =~= start + concat_ops(nv.take(i as int), f));
    }
    assert(nv.take(i as int) =~= nv);
}

/// The column names `new_cols` adds to `old_cols`, and those it removes,
/// each in list order.
fn added_and_removed_columns(old_cols: &Vec<ColumnDef>, new_cols: &Vec<ColumnDef>) -> (r: (Vec<String>, Vec<String>))
    ensures
        strings_view(r.0@) == names_not_in(keys_of(columns_view(new_cols@)), keys_of(columns_view(old_cols@))),
        strings_view(r.1@) == names_not_in(keys_of(columns_view(old_cols@)), keys_of(columns_view(new_cols@))),
{
    proof {
        lemma_keys_map(old_cols@, |x: ColumnDef| x@);
        lemma_keys_map(new_cols@, |x: ColumnDef| x@);
        assert(old_cols@.map_values(|x: ColumnDef| x@) =~= columns_view(old_cols@));
        assert(new_cols@.map_values(|x: ColumnDef| x@) =~= columns_view(new_cols@));
    }
    let old_names = names_of(old_cols);
    let new_names = names_of(new_cols);
    (strings_not_in(&new_names, &old_names), strings_not_in(&old_names, &new_names))
}

/// Appends to `ops` the column operations that take `table_name` from
/// `old_cols` to `new_cols`, given the renames picked for it.
pub fn diff_columns_for_table(
    ops: &mut Vec<Operation>,
    table_name: &str,
    old_cols: &Vec<ColumnDef>,
    new_cols: &Vec<ColumnDef>,
    new_table_def: &TableDef,
    renames: &Vec<(String, String)>,
)
    ensures
        ops_view(final(ops)@) == ops_view(old(ops)@) + column_ops(
            table_name@,
            columns_view(old_cols@),
            columns_view(new_cols@),
            new_table_def@,
            pairs_view(renames@),
        ),
{
    let ghost ov = columns_view(old_cols@);
    let ghost nv = columns_view(new_cols@);
    let (added, removed) = added_and_removed_columns(old_cols, new_cols);
    let renamed_old = pair_firsts(renames);
    let renamed_new = pair_seconds(renames);
    let ghost s0 = ops_view(ops@);
    push_rename_column_ops(ops, table_name, renames);
    let ghost s1 = ops_view(ops@);
    push_drop_column_ops(ops, table_name, &removed, &renamed_old);
    let ghost s2 = ops_view(ops@);
    push_add_column_ops(ops, table_name, &added, &renamed_new, new_cols);
    let ghost s3 = ops_view(ops@);
    push_alter_column_ops(ops, table_name, old_cols, new_cols, new_table_def);
    assert(ops_view(ops@) =~= s0 + column_ops(table_name@, ov, nv, new_table_def@, pairs_view(renames@)));
}

// ---------------------------------------------------------------------------
// Tables

/// The name `name` had before this diff: the old name of the last rename
/// whose new name it is, or `name` itself.
pub open spec fn renamed_from(renames: Seq<(Seq<char>, Seq<char>)>, name: Seq<char>) -> Seq<char>
    decreases renames.len(),
{
    if renames.len() == 0 {
        name
    } else if renames.last().1 == name {
        renames.last().0
    } else {
        renamed_from(renames.drop_last(), name)
    }
}

/// The name `name` had before this diff.
fn previous_table_name<'a>(renames: &'a Vec<(String, String)>, name: &'a str) -> (r: &'a str)
    ensures
        r@ == renamed_from(pairs_view(renames@), name@),
{
    let ghost pv = pairs_view(renames@);
    let mut i: usize = renames.len();
    assert(pv.take(i as int) =~= pv);
    while i > 0
        invariant
            i <= renames.len(),
            pv == pairs_view(renames@),
            renamed_from(pv, name@) == renamed_from(pv.take(i as int), name@),
        decreases i,
    {
        assert(pv.take(i as int).drop_last() =~= pv.take(i - 1));
        assert(pv.take(i as int).last() == (renames@[i - 1].0@, renames@[i - 1].1@));
        if crate::text::str_eq(renames[i - 1].1.as_str(), name) {
            return renames[i - 1].0.as_str();
        }
        i = i - 1;
    }
    assert(pv.take(0) =~= Seq::<(Seq<char>, Seq<char>)>::empty());
    name
}

/// What a table this diff creates becomes: the table, then each of its
/// indexes.
pub open spec fn created_table_ops(t: TableDefView) -> Seq<OperationView> {
    seq![OperationView::CreateTable { table: t }] + concat_ops(
        t.indexes,
        |i: IndexDefView| seq![OperationView::CreateIndex { table: t.name, index: i }],
    )
}

/// The renames picked for the columns of the `i`-th table; none past the
/// end of the list.
pub open spec fn renames_at(cr: Seq<Seq<(Seq<char>, Seq<char>)>>, i: int) -> Seq<(Seq<char>, Seq<char>)> {
    if 0 <= i < cr.len() {
        cr[i]
    } else {
        seq![]
    }
}

/// The views of per-table column renames.
pub open spec fn renames_view(cr: Seq<Vec<(String, String)>>) -> Seq<Seq<(Seq<char>, Seq<char>)>> {
    cr.map_values(|v: Vec<(String, String)>| pairs_view(v@))
}

/// What a table both sides have becomes: its column, index, foreign-key and
/// CHECK operations, the old side found under the name it had before.
pub open spec fn kept_table_ops(
    old: SnapshotView,
    new: SnapshotView,
    renames: Seq<(Seq<char>, Seq<char>)>,
    column_renames: Seq<(Seq<char>, Seq<char>)>,
    t: TableDefView,
) -> Seq<OperationView> {
    match (lookup(old.tables, renamed_from(renames, t.name)), lookup(new.tables, t.name)) {
        (Some(os), Some(ns)) => column_ops(t.name, os.columns, ns.columns, t, column_renames) + index_ops(
            t.name,
            os.indexes,
            ns.indexes,
        ) + fk_ops(t.name, os.foreign_keys, ns.foreign_keys) + check_ops(
            t.name,
            os.check_constraints,
            ns.check_constraints,
        ),
        _ => seq![],
    }
}

/// What one table of the registry, with the column renames picked for it,
/// becomes.
pub open spec fn schema_table_ops(
    old: SnapshotView,
    new: SnapshotView,
    renames: Seq<(Seq<char>, Seq<char>)>,
    added: Seq<Seq<char>>,
    entry: (TableDefView, Seq<(Seq<char>, Seq<char>)>),
) -> Seq<OperationView> {
    if added.contains(entry.0.name) {
        created_table_ops(entry.0)
    } else {
        kept_table_ops(old, new, renames, entry.1, entry.0)
    }
}

/// Each declared table beside the column renames picked for it.
pub open spec fn with_renames(tables: Seq<TableDefView>, cr: Seq<Seq<(Seq<char>, Seq<char>)>>) -> Seq<
    (TableDefView, Seq<(Seq<char>, Seq<char>)>),
> {
    Seq::new(tables.len(), |i: int| (tables[i], renames_at(cr, i)))
}

/// The table names `new` has and `old` lacks, in `new`'s order.
pub open spec fn added_tables(old: SnapshotView, new: SnapshotView) -> Seq<Seq<char>> {
    names_not_in(keys_of(new.tables), keys_of(old.tables))
}

/// The table names `old` has and `new` lacks, in `old`'s order.
pub open spec fn removed_tables(old: SnapshotView, new: SnapshotView) -> Seq<Seq<char>> {
    names_not_in(keys_of(old.tables), keys_of(new.tables))
}

/// The table operations that take `old` to `new`, whose tables are
/// declared as `tables`, given the table renames and each table's column
/// renames: the renames, the drops of removed tables that were not renamed,
/// then what each declared table becomes, in declaration order.
pub open spec fn table_ops(
    old: SnapshotView,
    new: SnapshotView,
    tables: Seq<TableDefView>,
    renames: Seq<(Seq<char>, Seq<char>)>,
    column_renames: Seq<Seq<(Seq<char>, Seq<char>)>>,
) -> Seq<OperationView> {
    let pure_added = names_not_in(added_tables(old, new), seconds(renames));
    let pure_removed = names_not_in(removed_tables(old, new), firsts(renames));
    concat_ops(renames, |p: (Seq<char>, Seq<char>)| seq![OperationView::RenameTable { old: p.0, new: p.1 }])
        + concat_ops(pure_removed, |n: Seq<char>| seq![OperationView::DropTable { name: n }])
        + concat_ops(
        with_renames(tables, column_renames),
        |e: (TableDefView, Seq<(Seq<char>, Seq<char>)>)| schema_table_ops(old, new, renames, pure_added, e),
    )
}

/// Every operation of a diff from `old` to the registry of `tables` and
/// `enums`, given the renames: the enum operations, then the table
/// operations.
pub open spec fn diff_ops(
    old: SnapshotView,
    tables: Seq<TableDefView>,
    enums: Seq<EnumDefView>,
    renames: Seq<(Seq<char>, Seq<char>)>,
    column_renames: Seq<Seq<(Seq<char>, Seq<char>)>>,
) -> Seq<OperationView> {
    let new = registry_snapshot(tables, enums);
    enum_ops(old.enums, new.enums) + table_ops(old, new, tables, renames, column_renames)
}

/// Appends `CreateTable` and a `CreateIndex` for each of its indexes.
fn push_created_table_ops(ops: &mut Vec<Operation>, table: &TableDef)
    ensures
        ops_view(final(ops)@) == ops_view(old(ops)@) + created_table_ops(table@),
{
    let ghost t = table@;
    let ghost f = |i: IndexDefView| seq![OperationView::CreateIndex { table: t.name, index: i }];
    let ghost start = ops_view(ops@);
    push_op(ops, Operation::CreateTable { table: table.duplicate() });
    let ghost mid = ops_view(ops@);
    assert(t.indexes.take(0) =~= Seq::<IndexDefView>::empty());
    let mut i: usize = 0;
    while i < table.indexes.len()
        invariant
            i <= table.indexes.len(),
            t == table@,
            f == (|i: IndexDefView| seq![OperationView::CreateIndex { table: t.name, index: i }]),
            ops_view(ops@) == mid + concat_ops(t.indexes.take(i as int), f),
        decreases table.indexes.len() - i,
    {
        proof {
            lemma_concat_ops_step(t.indexes, f, i as int);
        }
        push_op(ops, Operation::CreateIndex { table: table.name.clone(), index: table.indexes[i].duplicate() });
        i = i + 1;
        assert(ops_view(ops@) =~= mid + concat_ops(t.indexes.take(i as int), f));
    }
    assert(t.indexes.take(i as int) =~= t.indexes);
    assert(ops_view(ops@) =~= start + created_table_ops(t));
}

/// Appends the column, index, foreign-key and CHECK operations of a table
/// both sides have.
fn push_kept_table_ops(
    ops: &mut Vec<Operation>,
    old_snapshot: &Snapshot,
    new_snap: &Snapshot,
    renames: &Vec<(String, String)>,
    column_renames: &Vec<(String, String)>,
    table: &TableDef,
)
    ensures
        ops_view(final(ops)@) == ops_view(old(ops)@) + kept_table_ops(
            old_snapshot@,
            new_snap@,
            pairs_view(renames@),
            pairs_view(column_renames@),
            table@,
        ),
{
    let old_name = previous_table_name(renames, table.name.as_str());
    proof {
        lemma_lookup_map(old_snapshot.tables@, |x: SnapshotTable| x@, old_name@);
        lemma_lookup_map(new_snap.tables@, |x: SnapshotTable| x@, table.name@);
        assert(old_snapshot.tables@.map_values(|x: SnapshotTable| x@) =~= old_snapshot@.tables);
        assert(new_snap.tables@.map_values(|x: SnapshotTable| x@) =~= new_snap@.tables);
    }
    let ghost start = ops_view(ops@);
    match (lookup_entry(&old_snapshot.tables, old_name), lookup_entry(&new_snap.tables, table.name.as_str())) {
        (Some(old_st), Some(new_st)) => {
            diff_columns_for_table(
                ops,
                table.name.as_str(),
                &old_st.columns,
                &new_st.columns,
                table,
                column_renames,
            );
            let ghost s1 = ops_view(ops@);
            diff_indexes_inner(ops, table.name.as_str(), &old_st.indexes, &new_st.indexes);
            let ghost s2 = ops_view(ops@);
            diff_foreign_keys_inner(ops, table.name.as_str(), &old_st.foreign_keys, &new_st.foreign_keys);
            let ghost s3 = ops_view(ops@);
            diff_check_constraints_inner(
                ops,
                table.name.as_str(),
                &old_st.check_constraints,
                &new_st.check_constraints,
            );
            assert(ops_view(ops@) =~= start + kept_table_ops(
                old_snapshot@,
                new_snap@,
                pairs_view(renames@),
                pairs_view(column_renames@),
                table@,
            ));
        },
        _ => {
            assert(ops_view(ops@) =~= start + kept_table_ops(
                old_snapshot@,
                new_snap@,
                pairs_view(renames@),
                pairs_view(column_renames@),
                table@,
            ));
        },
    }
}

/// Appends a `RenameTable` for each rename.
fn push_rename_table_ops(ops: &mut Vec<Operation>, renames: &Vec<(String, String)>)
    ensures
        ops_view(final(ops)@) == ops_view(old(ops)@) + concat_ops(
            pairs_view(renames@),
            |p: (Seq<char>, Seq<char>)| seq![OperationView::RenameTable { old: p.0, new: p.1 }],
        ),
{
    let ghost pv = pairs_view(renames@);
    let ghost f = |p: (Seq<char>, Seq<char>)| seq![OperationView::RenameTable { old: p.0, new: p.1 }];
    let ghost start = ops_view(ops@);
    assert(pv.take(0) =~= Seq::<(Seq<char>, Seq<char>)>::empty());
    let mut i: usize = 0;
    while i < renames.len()
        invariant
            i <= renames.len(),
            pv == pairs_view(renames@),
            f == (|p: (Seq<char>, Seq<char>)| seq![OperationView::RenameTable { old: p.0, new: p.1 }]),
            ops_view(ops@) == start + concat_ops(pv.take(i as int), f),
        decreases renames.len() - i,
    {
        proof {
            lemma_concat_ops_step(pv, f, i as int);
        }
        push_op(ops, Operation::RenameTable { old: renames[i].0.clone(), new: renames[i].1.clone() });
        i = i + 1;
        assert(ops_view(ops@) =~= start + concat_ops(pv.take(i as int), f));
    }
    assert(pv.take(i as int) =~= pv);
}

/// Appends a `DropTable` for each name.
fn push_drop_table_ops(ops: &mut Vec<Operation>, names: &Vec<String>)
    ensures
        ops_view(final(ops)@) == ops_view(old(ops)@) + concat_ops(
            strings_view(names@),
            |n: Seq<char>| seq![OperationView::DropTable { name: n }],
        ),
{
    let ghost nv = strings_view(names@);
    let ghost f = |n: Seq<char>| seq![OperationView::DropTable { name: n }];
    let ghost start = ops_view(ops@);
    assert(nv.take(0) =~= Seq::<Seq<char>>::empty());
    let mut i: usize = 0;
    while i < names.len()
        invariant
            i <= names.len(),
            nv == strings_view(names@),
            f == (|n: Seq<char>| seq![OperationView::DropTable { name: n }]),
            ops_view(ops@) == start + concat_ops(nv.take(i as int), f),
        decreases names.len() - i,
    {
        proof {
            lemma_concat_ops_step(nv, f, i as int);
        }
        push_op(ops, Operation::DropTable { name: names[i].clone() });
        i = i + 1;
        assert(ops_view(ops@) =~= start + concat_ops(nv.take(i as int), f));
    }
    assert(nv.take(i as int) =~= nv);
}

/// The table names `new_snap` adds to `old_snapshot`, and those it removes:
/// what the table question to a rename resolver is made of.
pub fn added_and_removed_tables(old_snapshot: &Snapshot, new_snap: &Snapshot) -> (r: (Vec<String>, Vec<String>))
    ensures
        strings_view(r.0@) == added_tables(old_snapshot@, new_snap@),
        strings_view(r.1@) == removed_tables(old_snapshot@, new_snap@),
{
    proof {
        lemma_keys_map(old_snapshot.tables@, |x: SnapshotTable| x@);
        lemma_keys_map(new_snap.tables@, |x: SnapshotTable| x@);
        assert(old_snapshot.tables@.map_values(|x: SnapshotTable| x@) =~= old_snapshot@.tables);
        assert(new_snap.tables@.map_values(|x: SnapshotTable| x@) =~= new_snap@.tables);
    }
    let old_names = names_of(&old_snapshot.tables);
    let new_names = names_of(&new_snap.tables);
    (strings_not_in(&new_names, &old_names), strings_not_in(&old_names, &new_names))
}

/// The table operations that take `old_snapshot` to `new_snap`, the
/// snapshot of `new_schema`, given the table renames and, for the `i`-th
/// declared table, the column renames `column_renames[i]` (none past the end
/// of the list).
pub fn diff_tables(
    old_snapshot: &Snapshot,
    new_snap: &Snapshot,
    new_schema: &SchemaRegistry,
    renames: &Vec<(String, String)>,
    column_renames: &Vec<Vec<(String, String)>>,
) -> (r: Vec<Operation>)
    requires
        snapshot_well_formed(old_snapshot@),
        snapshot_well_formed(new_snap@),
    ensures
        ops_view(r@) == table_ops(
            old_snapshot@,
            new_snap@,
            tables_view(new_schema.tables@),
            pairs_view(renames@),
            renames_view(column_renames@),
        ),
{
    let mut ops: Vec<Operation> = Vec::new();
    assert(ops_view(ops@) =~= Seq::<OperationView>::empty());
    let (added, removed) = added_and_removed_tables(old_snapshot, new_snap);
    push_rename_table_ops(&mut ops, renames);
    let renamed_old = pair_firsts(renames);
    let renamed_new = pair_seconds(renames);
    let pure_added = strings_not_in(&added, &renamed_new);
    let pure_removed = strings_not_in(&removed, &renamed_old);
    push_drop_table_ops(&mut ops, &pure_removed);
    let ghost mid = ops_view(ops@);
    let ghost tv = tables_view(new_schema.tables@);
    let ghost cv = renames_view(column_renames@);
    let ghost ents = with_renames(tv, cv);
    let ghost rv = pairs_view(renames@);
    let ghost pa = strings_view(pure_added@);
    let ghost f = |e: (TableDefView, Seq<(Seq<char>, Seq<char>)>)| schema_table_ops(old_snapshot@, new_snap@, rv, pa, e);
    let empty: Vec<(String, String)> = Vec::new();
    assert(pairs_view(empty@) =~= Seq::<(Seq<char>, Seq<char>)>::empty());
    assert(ents.take(0) =~= Seq::<(TableDefView, Seq<(Seq<char>, Seq<char>)>)>::empty());
    let mut i: usize = 0;
    while i < new_schema.tables.len()
        invariant
            i <= new_schema.tables.len(),
            tv == tables_view(new_schema.tables@),
            cv == renames_view(column_renames@),
            ents == with_renames(tv, cv),
            rv == pairs_view(renames@),
            pa == strings_view(pure_added@),
            pairs_view(empty@) == Seq::<(Seq<char>, Seq<char>)>::empty(),
            f == (|e: (TableDefView, Seq<(Seq<char>, Seq<char>)>)| schema_table_ops(old_snapshot@, new_snap@, rv, pa, e)),
            ops_view(ops@) == mid + concat_ops(ents.take(i as int), f),
        decreases new_schema.tables.len() - i,
    {
        let table = &new_schema.tables[i];
        let cols = if i < column_renames.len() {
            &column_renames[i]
        } else {
            &empty
        };
        proof {
            lemma_concat_ops_step(ents, f, i as int);
            assert(ents[i as int] == (table@, pairs_view(cols@)));
        }
        if contains_str(&pure_added, table.name.as_str()) {
            push_created_table_ops(&mut ops, table);
        } else {
            push_kept_table_ops(&mut ops, old_snapshot, new_snap, renames, cols, table);
        }
        i = i + 1;
        assert(ops_view(ops@) =~= mid + concat_ops(ents.take(i as int), f));
    }
    assert(ents.take(i as int) =~= ents);
    ops
}

/// The tables the diff creates: those `new` adds to `old`, less the new
/// names of `renames`.
pub open spec fn pure_added_tables(old: SnapshotView, new: SnapshotView, renames: Seq<(Seq<char>, Seq<char>)>) -> Seq<Seq<char>> {
    names_not_in(added_tables(old, new), seconds(renames))
}

/// The column question a diff puts to the resolver about declared table
/// `t`, given the table renames: `(table, added columns, removed columns)`
/// when the diff keeps the table and both sides record it (the old side
/// under the name it had before); none otherwise.
pub open spec fn column_question(
    old: SnapshotView,
    new: SnapshotView,
    renames: Seq<(Seq<char>, Seq<char>)>,
    t: TableDefView,
) -> Option<(Seq<char>, Seq<Seq<char>>, Seq<Seq<char>>)> {
    if pure_added_tables(old, new, renames).contains(t.name) {
        None
    } else {
        match (lookup(old.tables, renamed_from(renames, t.name)), lookup(new.tables, t.name)) {
            (Some(os), Some(ns)) => Some(
                (
                    t.name,
                    names_not_in(keys_of(ns.columns), keys_of(os.columns)),
                    names_not_in(keys_of(os.columns), keys_of(ns.columns)),
                ),
            ),
            _ => None,
        }
    }
}

/// The view of a column question.
pub open spec fn question_view(q: Option<(String, Vec<String>, Vec<String>)>) -> Option<
    (Seq<char>, Seq<Seq<char>>, Seq<Seq<char>>),
> {
    match q {
        Some(x) => Some((x.0@, strings_view(x.1@), strings_view(x.2@))),
        None => None,
    }
}

/// The column questions a diff from `old_snapshot` to `new_snap`, the
/// snapshot of `new_schema`, puts to the resolver, one per declared table,
/// given the table renames it picked.
pub fn column_rename_requests(
    old_snapshot: &Snapshot,
    new_snap: &Snapshot,
    new_schema: &SchemaRegistry,
    renames: &Vec<(String, String)>,
) -> (r: Vec<Option<(String, Vec<String>, Vec<String>)>>)
    requires
        snapshot_well_formed(old_snapshot@),
        snapshot_well_formed(new_snap@),
    ensures
        r@.len() == new_schema.tables@.len(),
        forall|i: int|
            0 <= i < r@.len() ==> #[trigger] question_view(r@[i]) == column_question(
                old_snapshot@,
                new_snap@,
                pairs_view(renames@),
                tables_view(new_schema.tables@)[i],
            ),
{
    let (added, _removed) = added_and_removed_tables(old_snapshot, new_snap);
    let renamed_new = pair_seconds(renames);
    let pure_added = strings_not_in(&added, &renamed_new);
    let ghost tv = tables_view(new_schema.tables@);
    let ghost rv = pairs_view(renames@);
    let mut out: Vec<Option<(String, Vec<String>, Vec<String>)>> = Vec::new();
    let mut i: usize = 0;
    while i < new_schema.tables.len()
        invariant
            i <= new_schema.tables.len(),
            out@.len() == i,
            tv == tables_view(new_schema.tables@),
            rv == pairs_view(renames@),
            strings_view(pure_added@) == pure_added_tables(old_snapshot@, new_snap@, rv),
            forall|k: int|
                0 <= k < i ==> #[trigger] question_view(out@[k]) == column_question(
                    old_snapshot@,
                    new_snap@,
                    rv,
                    tv[k],
                ),
        decreases new_schema.tables.len() - i,
    {
        let table = &new_schema.tables[i];
        assert(tv[i as int] == table@);
        let q = if contains_str(&pure_added, table.name.as_str()) {
            None
        } else {
            let old_name = previous_table_name(renames, table.name.as_str());
            proof {
                lemma_lookup_map(old_snapshot.tables@, |x: SnapshotTable| x@, old_name@);
                lemma_lookup_map(new_snap.tables@, |x: SnapshotTable| x@, table.name@);
                assert(old_snapshot.tables@.map_values(|x: SnapshotTable| x@) =~= old_snapshot@.tables);
                assert(new_snap.tables@.map_values(|x: SnapshotTable| x@) =~= new_snap@.tables);
            }
            match (lookup_entry(&old_snapshot.tables, old_name), lookup_entry(&new_snap.tables, table.name.as_str())) {
                (Some(old_st), Some(new_st)) => {
                    let (a, r) = added_and_removed_columns(&old_st.columns, &new_st.columns);
                    Some((table.name.clone(), a, r))
                },
                _ => None,
            }
        };
        assert(question_view(q) == column_question(old_snapshot@, new_snap@, rv, tv[i as int]));
        out.push(q);
        i = i + 1;
    }
    out
}

/// Whether `picked` is what `resolver` may answer to the column question
/// `q`: an answer it may give where there is a question, nothing where there
/// is none (the resolver is not asked).
pub open spec fn column_answer<R: RenameResolver>(
    resolver: &R,
    q: Option<(Seq<char>, Seq<Seq<char>>, Seq<Seq<char>>)>,
    picked: Seq<(Seq<char>, Seq<char>)>,
) -> bool {
    match q {
        Some(x) => resolver.may_pick_columns(x.0, x.1, x.2, picked),
        None => picked.len() == 0,
    }
}

/// Whether table renames `tr` and per-table column renames `cr` are answers
/// `resolver` may give, asked about a diff from `old` to the registry of
/// `tables` and `enums`: `tr` to the table question (the names the diff adds
/// and removes), and for each declared table its column renames to the
/// column question that `tr` leads to.
pub open spec fn resolver_answers<R: RenameResolver>(
    resolver: &R,
    old: SnapshotView,
    tables: Seq<TableDefView>,
    enums: Seq<EnumDefView>,
    tr: Seq<(Seq<char>, Seq<char>)>,
    cr: Seq<Seq<(Seq<char>, Seq<char>)>>,
) -> bool {
    let new = registry_snapshot(tables, enums);
    &&& resolver.may_pick_tables(added_tables(old, new), removed_tables(old, new), tr)
    &&& cr.len() == tables.len()
    &&& forall|i: int| 0 <= i < cr.len() ==> column_answer(resolver, column_question(old, new, tr, tables[i]), #[trigger] cr[i])
}

/// The renames `resolver` picks for a diff from `old_snapshot` to
/// `new_snap`, the snapshot of `new_schema`: first the table renames, the
/// resolver handed the table names the diff adds and removes (as
/// [`added_and_removed_tables`] gives them); then, for each declared table,
/// the column renames, the resolver handed the question
/// [`column_rename_requests`] builds from the table renames it returned —
/// none where there is no question. Both answers are handed back as given.
pub fn resolve_renames<R: RenameResolver>(
    resolver: &R,
    old_snapshot: &Snapshot,
    new_snap: &Snapshot,
    new_schema: &SchemaRegistry,
) -> (r: (Vec<(String, String)>, Vec<Vec<(String, String)>>))
    requires
        snapshot_well_formed(old_snapshot@),
        snapshot_well_formed(new_snap@),
    ensures
        resolver.may_pick_tables(
            added_tables(old_snapshot@, new_snap@),
            removed_tables(old_snapshot@, new_snap@),
            pairs_view(r.0@),
        ),
        r.1@.len() == new_schema.tables@.len(),
        forall|i: int|
            0 <= i < r.1@.len() ==> column_answer(
                resolver,
                column_question(old_snapshot@, new_snap@, pairs_view(r.0@), tables_view(new_schema.tables@)[i]),
                pairs_view((#[trigger] r.1@[i])@),
            ),
{
    let (added, removed) = added_and_removed_tables(old_snapshot, new_snap);
    let renames = resolver.resolve_tables(added.as_slice(), removed.as_slice());
    let questions = column_rename_requests(old_snapshot, new_snap, new_schema, &renames);
    let mut columns: Vec<Vec<(String, String)>> = Vec::new();
    let mut i: usize = 0;
    while i < questions.len()
        invariant
            i <= questions.len(),
            questions@.len() == new_schema.tables@.len(),
            columns@.len() == i,
            forall|k: int|
                0 <= k < i ==> column_answer(resolver, question_view(questions@[k]), pairs_view((#[trigger] columns@[k])@)),
        decreases questions.len() - i,
    {
        let picked = match &questions[i] {
            Some(q) => resolver.resolve_columns(q.0.as_str(), q.1.as_slice(), q.2.as_slice()),
            None => Vec::new(),
        };
        assert(column_answer(resolver, question_view(questions@[i as int]), pairs_view(picked@)));
        columns.push(picked);
        i = i + 1;
    }
    proof {
        assert forall|k: int| 0 <= k < columns@.len() implies column_answer(
            resolver,
            column_question(old_snapshot@, new_snap@, pairs_view(renames@), tables_view(new_schema.tables@)[k]),
            pairs_view((#[trigger] columns@[k])@),
        ) by {
            assert(question_view(questions@[k]) == column_question(
                old_snapshot@,
                new_snap@,
                pairs_view(renames@),
                tables_view(new_schema.tables@)[k],
            ));
        }
    }
    (renames, columns)
}

/// The migration operations that take `old_snapshot` to `new_schema`, given
/// the table renames and each declared table's column renames.
pub fn diff_with_renames(
    old_snapshot: &Snapshot,
    new_schema: &SchemaRegistry,
    renames: &Vec<(String, String)>,
    column_renames: &Vec<Vec<(String, String)>>,
) -> (r: Vec<Operation>)
    requires
        snapshot_well_formed(old_snapshot@),
    ensures
        ops_view(r@) == diff_ops(
            old_snapshot@,
            tables_view(new_schema.tables@),
            enums_view(new_schema.enums@),
            pairs_view(renames@),
            renames_view(column_renames@),
        ),
{
    let new_snap = Snapshot::from_registry(new_schema);
    let mut ops = diff_enums(old_snapshot, &new_snap);
    let mut rest = diff_tables(old_snapshot, &new_snap, new_schema, renames, column_renames);
    let ghost a = ops@;
    let ghost b = rest@;
    ops.append(&mut rest);
    assert(ops_view(ops@) =~= ops_view(a) + ops_view(b));
    ops
}

/// Column renames that are all empty say the same as none at all.
proof fn lemma_no_column_renames(
    old: SnapshotView,
    tables: Seq<TableDefView>,
    enums: Seq<EnumDefView>,
    cr: Seq<Seq<(Seq<char>, Seq<char>)>>,
)
    requires
        forall|i: int| 0 <= i < cr.len() ==> (#[trigger] cr[i]).len() == 0,
    ensures
        diff_ops(old, tables, enums, seq![], cr) == diff_ops(old, tables, enums, seq![], seq![]),
{
    let empty: Seq<Seq<(Seq<char>, Seq<char>)>> = seq![];
    assert forall|i: int| 0 <= i < tables.len() implies #[trigger] renames_at(cr, i) == renames_at(empty, i) by {
        if 0 <= i < cr.len() {
            assert(cr[i] =~= Seq::<(Seq<char>, Seq<char>)>::empty());
        }
    }
    assert(with_renames(tables, cr) =~= with_renames(tables, empty));
}

/// The migration operations that take `old_snapshot` to `new_schema`, with
/// renames as `resolver` picks them: the resolver is asked as
/// [`resolve_renames`] says, and the operations are [`diff_with_renames`]
/// given exactly the renames it answered. From [`NoRenames`], that is the
/// plain [`diff`].
pub fn diff_with_resolver<R: RenameResolver>(
    old_snapshot: &Snapshot,
    new_schema: &SchemaRegistry,
    resolver: &R,
) -> (r: Vec<Operation>)
    requires
        snapshot_well_formed(old_snapshot@),
    ensures
        exists|tr: Seq<(Seq<char>, Seq<char>)>, cr: Seq<Seq<(Seq<char>, Seq<char>)>>|
            {
                &&& resolver_answers(
                    resolver,
                    old_snapshot@,
                    tables_view(new_schema.tables@),
                    enums_view(new_schema.enums@),
                    tr,
                    cr,
                )
                &&& ops_view(r@) == #[trigger] diff_ops(
                    old_snapshot@,
                    tables_view(new_schema.tables@),
                    enums_view(new_schema.enums@),
                    tr,
                    cr,
                )
            },
        ({
            let e = enum_ops(
                old_snapshot@.enums,
                registry_snapshot(tables_view(new_schema.tables@), enums_view(new_schema.enums@)).enums,
            );
            &&& e.len() <= r@.len()
            &&& ops_view(r@).take(e.len() as int) == e
            &&& forall|i: int| e.len() <= i < r@.len() ==> !is_enum_op(#[trigger] ops_view(r@)[i])
        }),
{
    let new_snap = Snapshot::from_registry(new_schema);
    let (renames, column_renames) = resolve_renames(resolver, old_snapshot, &new_snap, new_schema);
    let r = diff_with_renames(old_snapshot, new_schema, &renames, &column_renames);
    let ghost tr = pairs_view(renames@);
    let ghost cr = renames_view(column_renames@);
    assert forall|i: int| 0 <= i < cr.len() implies column_answer(
        resolver,
        column_question(
            old_snapshot@,
            registry_snapshot(tables_view(new_schema.tables@), enums_view(new_schema.enums@)),
            tr,
            tables_view(new_schema.tables@)[i],
        ),
        #[trigger] cr[i],
    ) by {
        assert(cr[i] == pairs_view(column_renames@[i]@));
    }
    assert(resolver_answers(
        resolver,
        old_snapshot@,
        tables_view(new_schema.tables@),
        enums_view(new_schema.enums@),
        tr,
        cr,
    ));
    proof {
        lemma_diff_enum_ops_lead(old_snapshot@, tables_view(new_schema.tables@), enums_view(new_schema.enums@), tr, cr);
    }
    r
}

/// The migration operations that take `old_snapshot` to `new_schema`, with
/// no renames: every added name is a creation, every removed name a drop.
/// It is [`diff_with_resolver`] with [`NoRenames`].
pub fn diff(old_snapshot: &Snapshot, new_schema: &SchemaRegistry) -> (r: Vec<Operation>)
    requires
        snapshot_well_formed(old_snapshot@),
    ensures
        ops_view(r@) == diff_ops(
            old_snapshot@,
            tables_view(new_schema.tables@),
            enums_view(new_schema.enums@),
            seq![],
            seq![],
        ),
{
    let r = diff_with_resolver(old_snapshot, new_schema, &NoRenames);
    proof {
        let tv = tables_view(new_schema.tables@);
        let ev = enums_view(new_schema.enums@);
        lemma_diff_is_diff_with_no_renames(
            old_snapshot@,
            tv,
            ev,
            diff_ops(old_snapshot@, tv, ev, seq![], seq![]),
            ops_view(r@),
        );
    }
    r
}

// ---------------------------------------------------------------------------
// Laws

/// A column list filed strictly by name, compared with itself and with no
/// renames, gives no operation.
pub proof fn lemma_column_ops_identity(table: Seq<char>, m: Seq<ColumnDefView>, def: TableDefView)
    requires
        strictly_sorted(keys_of(m)),
    ensures
        column_ops(table, m, m, def, seq![]).len() == 0,
{
    lemma_names_not_in_self(keys_of(m));
    let renames: Seq<(Seq<char>, Seq<char>)> = seq![];
    let fr = |p: (Seq<char>, Seq<char>)| seq![OperationView::RenameColumn { table, old: p.0, new: p.1 }];
    let fd = |n: Seq<char>| column_drop_ops(table, firsts(renames), n);
    let fa = |n: Seq<char>| column_add_ops(table, seconds(renames), m, n);
    let fc = |c: ColumnDefView| column_alter_ops(table, m, m, def, c);
    assert forall|i: int| 0 <= i < m.len() implies fc(#[trigger] m[i]).len() == 0 by {
        lemma_find_key_sorted(m, i);
        lemma_column_changes_identity(m[i].name, m[i]);
    }
    lemma_concat_ops_empty(m, fc);
    let empty: Seq<Seq<char>> = seq![];
    assert(names_not_in(keys_of(m), keys_of(m)) =~= empty);
    lemma_concat_ops_empty(empty, fd);
    lemma_concat_ops_empty(empty, fa);
    lemma_concat_ops_empty(renames, fr);
}

/// An entry found by name is one of the sequence's entries.
pub proof fn lemma_lookup_member<T: Named>(s: Seq<T>, k: Seq<char>)
    ensures
        lookup(s, k) matches Some(x) ==> exists|i: int| 0 <= i < s.len() && s[i] == x,
{
    lemma_find_key(s, k);
    if let Some(x) = lookup(s, k) {
        let i: int = find_key(s, k)->0;
        assert(s[i] == x);
    }
}

/// Diffing a registry against its own snapshot, with no renames, gives no
/// operation: generating a migration right after the last one records
/// nothing.
pub proof fn lemma_diff_against_own_snapshot_is_empty(tables: Seq<TableDefView>, enums: Seq<EnumDefView>)
    ensures
        diff_ops(registry_snapshot(tables, enums), tables, enums, seq![], seq![]).len() == 0,
{
    let s = registry_snapshot(tables, enums);
    lemma_registry_snapshot_well_formed(tables, enums);
    lemma_enum_ops_identity(s.enums);
    lemma_names_not_in_self(keys_of(s.tables));
    let empty: Seq<Seq<char>> = seq![];
    assert(added_tables(s, s) =~= empty);
    assert(removed_tables(s, s) =~= empty);
    let renames: Seq<(Seq<char>, Seq<char>)> = seq![];
    let cr: Seq<Seq<(Seq<char>, Seq<char>)>> = seq![];
    let pure_added = names_not_in(empty, seconds(renames));
    assert(pure_added =~= empty);
    let fr = |p: (Seq<char>, Seq<char>)| seq![OperationView::RenameTable { old: p.0, new: p.1 }];
    let fd = |n: Seq<char>| seq![OperationView::DropTable { name: n }];
    let ents = with_renames(tables, cr);
    let ft = |e: (TableDefView, Seq<(Seq<char>, Seq<char>)>)| schema_table_ops(s, s, renames, pure_added, e);
    lemma_concat_ops_empty(renames, fr);
    lemma_concat_ops_empty(names_not_in(empty, firsts(renames)), fd);
    assert forall|i: int| 0 <= i < ents.len() implies ft(#[trigger] ents[i]).len() == 0 by {
        let t = tables[i];
        assert(ents[i] == (t, renames));
        assert(!pure_added.contains(t.name));
        assert(renamed_from(renames, t.name) == t.name);
        lemma_lookup_member(s.tables, t.name);
        if let Some(os) = lookup(s.tables, t.name) {
            let j: int = choose|j: int| 0 <= j < s.tables.len() && s.tables[j] == os;
            assert(table_well_formed(s.tables[j]));
            lemma_column_ops_identity(t.name, os.columns, t);
            lemma_index_ops_identity(t.name, os.indexes);
            lemma_fk_ops_identity(t.name, os.foreign_keys);
            lemma_check_ops_identity(t.name, os.check_constraints);
        }
    }
    lemma_concat_ops_empty(ents, ft);
}

/// Whether `o` creates, alters or drops an enum.
pub open spec fn is_enum_op(o: OperationView) -> bool {
    ||| o is CreateEnum
    ||| o is AlterEnum
    ||| o is DropEnum
}

/// No operation of `s` creates, alters or drops an enum.
pub open spec fn touches_no_enum(s: Seq<OperationView>) -> bool {
    forall|i: int| 0 <= i < s.len() ==> !is_enum_op(#[trigger] s[i])
}

proof fn lemma_no_enum_add(a: Seq<OperationView>, b: Seq<OperationView>)
    requires
        touches_no_enum(a),
        touches_no_enum(b),
    ensures
        touches_no_enum(a + b),
{
    assert forall|i: int| 0 <= i < (a + b).len() implies !is_enum_op(#[trigger] (a + b)[i]) by {
        if i < a.len() {
            assert((a + b)[i] == a[i]);
        } else {
            assert((a + b)[i] == b[i - a.len()]);
        }
    }
}

proof fn lemma_concat_no_enum<A>(s: Seq<A>, f: spec_fn(A) -> Seq<OperationView>)
    requires
        forall|x: A| touches_no_enum(#[trigger] f(x)),
    ensures
        touches_no_enum(concat_ops(s, f)),
    decreases s.len(),
{
    if s.len() > 0 {
        lemma_concat_no_enum(s.drop_last(), f);
        lemma_no_enum_add(concat_ops(s.drop_last(), f), f(s.last()));
    }
}

proof fn lemma_column_ops_no_enum(
    table: Seq<char>,
    old: Seq<ColumnDefView>,
    new: Seq<ColumnDefView>,
    def: TableDefView,
    renames: Seq<(Seq<char>, Seq<char>)>,
)
    ensures
        touches_no_enum(column_ops(table, old, new, def, renames)),
{
    let added = names_not_in(keys_of(new), keys_of(old));
    let removed = names_not_in(keys_of(old), keys_of(new));
    let fr = |p: (Seq<char>, Seq<char>)| seq![OperationView::RenameColumn { table, old: p.0, new: p.1 }];
    let fd = |n: Seq<char>| column_drop_ops(table, firsts(renames), n);
    let fa = |n: Seq<char>| column_add_ops(table, seconds(renames), new, n);
    let fc = |c: ColumnDefView| column_alter_ops(table, old, new, def, c);
    assert forall|x: (Seq<char>, Seq<char>)| touches_no_enum(#[trigger] fr(x)) by {}
    assert forall|x: Seq<char>| touches_no_enum(#[trigger] fd(x)) by {}
    assert forall|x: Seq<char>| touches_no_enum(#[trigger] fa(x)) by {}
    assert forall|x: ColumnDefView| touches_no_enum(#[trigger] fc(x)) by {}
    lemma_concat_no_enum(renames, fr);
    lemma_concat_no_enum(removed, fd);
    lemma_concat_no_enum(added, fa);
    lemma_concat_no_enum(new, fc);
    lemma_no_enum_add(concat_ops(renames, fr), concat_ops(removed, fd));
    lemma_no_enum_add(concat_ops(renames, fr) + concat_ops(removed, fd), concat_ops(added, fa));
    lemma_no_enum_add(
        concat_ops(renames, fr) + concat_ops(removed, fd) + concat_ops(added, fa),
        concat_ops(new, fc),
    );
}

proof fn lemma_kept_table_ops_no_enum(
    old: SnapshotView,
    new: SnapshotView,
    renames: Seq<(Seq<char>, Seq<char>)>,
    column_renames: Seq<(Seq<char>, Seq<char>)>,
    t: TableDefView,
)
    ensures
        touches_no_enum(kept_table_ops(old, new, renames, column_renames, t)),
{
    match (lookup(old.tables, renamed_from(renames, t.name)), lookup(new.tables, t.name)) {
        (Some(os), Some(ns)) => {
            let name = t.name;
            lemma_column_ops_no_enum(name, os.columns, ns.columns, t, column_renames);
            let (oi, ni) = (os.indexes, ns.indexes);
            let fid = |o: IndexDefView| super::indexes::index_drop_ops(name, ni, o);
            let fia = |n: IndexDefView| super::indexes::index_add_ops(name, oi, n);
            assert forall|x: IndexDefView| touches_no_enum(#[trigger] fid(x)) by {}
            assert forall|x: IndexDefView| touches_no_enum(#[trigger] fia(x)) by {}
            lemma_concat_no_enum(oi, fid);
            lemma_concat_no_enum(ni, fia);
            lemma_no_enum_add(concat_ops(oi, fid), concat_ops(ni, fia));
            assert(index_ops(name, oi, ni) == concat_ops(oi, fid) + concat_ops(ni, fia));
            let (of, nf) = (os.foreign_keys, ns.foreign_keys);
            let ffd = |o: ForeignKeyDefView| super::fk::fk_drop_ops(name, nf, o);
            let ffa = |n: ForeignKeyDefView| super::fk::fk_add_ops(name, of, n);
            assert forall|x: ForeignKeyDefView| touches_no_enum(#[trigger] ffd(x)) by {}
            assert forall|x: ForeignKeyDefView| touches_no_enum(#[trigger] ffa(x)) by {}
            lemma_concat_no_enum(of, ffd);
            lemma_concat_no_enum(nf, ffa);
            lemma_no_enum_add(concat_ops(of, ffd), concat_ops(nf, ffa));
            assert(fk_ops(name, of, nf) == concat_ops(of, ffd) + concat_ops(nf, ffa));
            let (oc, nc) = (os.check_constraints, ns.check_constraints);
            let fcd = |o: (Seq<char>, Seq<char>)| super::fk::check_drop_ops(name, nc, o);
            let fca = |n: (Seq<char>, Seq<char>)| super::fk::check_add_ops(name, oc, n);
            assert forall|x: (Seq<char>, Seq<char>)| touches_no_enum(#[trigger] fcd(x)) by {}
            assert forall|x: (Seq<char>, Seq<char>)| touches_no_enum(#[trigger] fca(x)) by {}
            lemma_concat_no_enum(oc, fcd);
            lemma_concat_no_enum(nc, fca);
            lemma_no_enum_add(concat_ops(oc, fcd), concat_ops(nc, fca));
            assert(check_ops(name, oc, nc) == concat_ops(oc, fcd) + concat_ops(nc, fca));
            let c = column_ops(name, os.columns, ns.columns, t, column_renames);
            lemma_no_enum_add(c, index_ops(name, oi, ni));
            lemma_no_enum_add(c + index_ops(name, oi, ni), fk_ops(name, of, nf));
            lemma_no_enum_add(c + index_ops(name, oi, ni) + fk_ops(name, of, nf), check_ops(name, oc, nc));
        },
        _ => {},
    }
}

proof fn lemma_table_ops_no_enum(
    old: SnapshotView,
    new: SnapshotView,
    tables: Seq<TableDefView>,
    renames: Seq<(Seq<char>, Seq<char>)>,
    column_renames: Seq<Seq<(Seq<char>, Seq<char>)>>,
)
    ensures
        touches_no_enum(table_ops(old, new, tables, renames, column_renames)),
{
    let pure_added = names_not_in(added_tables(old, new), seconds(renames));
    let pure_removed = names_not_in(removed_tables(old, new), firsts(renames));
    let fr = |p: (Seq<char>, Seq<char>)| seq![OperationView::RenameTable { old: p.0, new: p.1 }];
    let fd = |n: Seq<char>| seq![OperationView::DropTable { name: n }];
    let ft = |e: (TableDefView, Seq<(Seq<char>, Seq<char>)>)| schema_table_ops(old, new, renames, pure_added, e);
    assert forall|x: (Seq<char>, Seq<char>)| touches_no_enum(#[trigger] fr(x)) by {}
    assert forall|x: Seq<char>| touches_no_enum(#[trigger] fd(x)) by {}
    assert forall|e: (TableDefView, Seq<(Seq<char>, Seq<char>)>)| touches_no_enum(#[trigger] ft(e)) by {
        if pure_added.contains(e.0.name) {
            let t = e.0;
            let fi = |i: IndexDefView| seq![OperationView::CreateIndex { table: t.name, index: i }];
            assert forall|x: IndexDefView| touches_no_enum(#[trigger] fi(x)) by {}
            lemma_concat_no_enum(t.indexes, fi);
            let head: Seq<OperationView> = seq![OperationView::CreateTable { table: t }];
            assert(touches_no_enum(head));
            lemma_no_enum_add(head, concat_ops(t.indexes, fi));
        } else {
            lemma_kept_table_ops_no_enum(old, new, renames, e.1, e.0);
        }
    }
    let ents = with_renames(tables, column_renames);
    lemma_concat_no_enum(renames, fr);
    lemma_concat_no_enum(pure_removed, fd);
    lemma_concat_no_enum(ents, ft);
    lemma_no_enum_add(concat_ops(renames, fr), concat_ops(pure_removed, fd));
    lemma_no_enum_add(concat_ops(renames, fr) + concat_ops(pure_removed, fd), concat_ops(ents, ft));
}

/// A diff's enum operations come first and no later operation touches an
/// enum: whatever the renames, the operations open with exactly the enum
/// operations from `old` to the registry, and every operation after them
/// concerns tables.
pub proof fn lemma_diff_enum_ops_lead(
    old: SnapshotView,
    tables: Seq<TableDefView>,
    enums: Seq<EnumDefView>,
    renames: Seq<(Seq<char>, Seq<char>)>,
    column_renames: Seq<Seq<(Seq<char>, Seq<char>)>>,
)
    ensures
        ({
            let e = enum_ops(old.enums, registry_snapshot(tables, enums).enums);
            let d = diff_ops(old, tables, enums, renames, column_renames);
            &&& e.len() <= d.len()
            &&& d.take(e.len() as int) == e
            &&& forall|i: int| e.len() <= i < d.len() ==> !is_enum_op(#[trigger] d[i])
        }),
{
    let new = registry_snapshot(tables, enums);
    let e = enum_ops(old.enums, new.enums);
    let t = table_ops(old, new, tables, renames, column_renames);
    let d = diff_ops(old, tables, enums, renames, column_renames);
    lemma_table_ops_no_enum(old, new, tables, renames, column_renames);
    assert(d == e + t);
    assert(d.take(e.len() as int) =~= e);
    assert forall|i: int| e.len() <= i < d.len() implies !is_enum_op(#[trigger] d[i]) by {
        assert(d[i] == t[i - e.len()]);
    }
}

/// `diff` and `diff_with_resolver` with [`NoRenames`] give the same
/// operations: whatever `diff`'s contract allows (`plain`) equals whatever
/// `diff_with_resolver`'s contract allows with `NoRenames` (`resolved`, the
/// diff for some renames `NoRenames` may answer).
pub proof fn lemma_diff_is_diff_with_no_renames(
    old: SnapshotView,
    tables: Seq<TableDefView>,
    enums: Seq<EnumDefView>,
    plain: Seq<OperationView>,
    resolved: Seq<OperationView>,
)
    requires
        plain == diff_ops(old, tables, enums, seq![], seq![]),
        exists|tr: Seq<(Seq<char>, Seq<char>)>, cr: Seq<Seq<(Seq<char>, Seq<char>)>>|
            {
                &&& resolver_answers(&NoRenames, old, tables, enums, tr, cr)
                &&& resolved == #[trigger] diff_ops(old, tables, enums, tr, cr)
            },
    ensures
        plain == resolved,
{
    let (tr, cr) = choose|tr: Seq<(Seq<char>, Seq<char>)>, cr: Seq<Seq<(Seq<char>, Seq<char>)>>|
        {
            &&& resolver_answers(&NoRenames, old, tables, enums, tr, cr)
            &&& resolved == #[trigger] diff_ops(old, tables, enums, tr, cr)
        };
    assert(tr =~= Seq::<(Seq<char>, Seq<char>)>::empty());
    assert forall|i: int| 0 <= i < cr.len() implies (#[trigger] cr[i]).len() == 0 by {
        assert(column_answer(
            &NoRenames,
            column_question(old, registry_snapshot(tables, enums), tr, tables[i]),
            cr[i],
        ));
    }
    lemma_no_column_renames(old, tables, enums, cr);
}

} // verus!
