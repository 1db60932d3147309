//! Foreign-key and CHECK-constraint diff between two schema versions.
use vstd::prelude::*;
use crate::keyed::{lookup, has_key, lookup_entry, contains_key, keys_of, strictly_sorted,
    lemma_lookup_map, lemma_find_key_sorted, lemma_has_key};
use crate::schema::{ForeignKeyDef, ForeignKeyDefView, fks_view, checks_view};
use crate::snapshot::{Snapshot, SnapshotView, SnapshotTable, snapshot_well_formed};
use super::operation::{Operation, OperationView, ops_view, concat_ops, push_op,
    lemma_concat_ops_step, lemma_concat_ops_empty, lemma_concat_ops_index};

verus! {

/// What one old foreign key becomes: dropped when the new list lacks its
/// name, dropped and added again when the new one differs.
pub open spec fn fk_drop_ops(table: Seq<char>, new: Seq<ForeignKeyDefView>, old_fk: ForeignKeyDefView) -> Seq<OperationView> {
    match lookup(new, old_fk.name) {
        None => seq![OperationView::DropForeignKey { table, name: old_fk.name }],
        Some(n) => if n != old_fk {
            seq![
                OperationView::DropForeignKey { table, name: old_fk.name },
                OperationView::AddForeignKey { table, fk: n },
            ]
        } else {
            seq![]
        },
    }
}

/// What one new foreign key becomes: added when the old list lacks its name.
pub open spec fn fk_add_ops(table: Seq<char>, old: Seq<ForeignKeyDefView>, new_fk: ForeignKeyDefView) -> Seq<OperationView> {
    if has_key(old, new_fk.name) {
        seq![]
    } else {
        seq![OperationView::AddForeignKey { table, fk: new_fk }]
    }
}

/// The foreign-key operations that take `table` from `old` to `new`: the
/// drops and re-additions in the old list's order, then the additions in
/// the new list's order.
pub open spec fn fk_ops(table: Seq<char>, old: Seq<ForeignKeyDefView>, new: Seq<ForeignKeyDefView>) -> Seq<OperationView> {
    concat_ops(old, |o: ForeignKeyDefView| fk_drop_ops(table, new, o)) + concat_ops(
        new,
        |n: ForeignKeyDefView| fk_add_ops(table, old, n),
    )
}

/// The foreign keys a snapshot records for `table`; none when it has no
/// such table.
pub open spec fn snapshot_fks(s: SnapshotView, table: Seq<char>) -> Seq<ForeignKeyDefView> {
    match lookup(s.tables, table) {
        Some(t) => t.foreign_keys,
        None => seq![],
    }
}

/// The foreign-key operations that take `table_name` from its declaration in
/// `old` to the one in `new`.
pub fn diff_foreign_keys(table_name: &str, old: &Snapshot, new: &Snapshot) -> (r: Vec<Operation>)
    requires
        snapshot_well_formed(old@),
        snapshot_well_formed(new@),
    ensures
        ops_view(r@) == fk_ops(table_name@, snapshot_fks(old@, table_name@), snapshot_fks(new@, table_name@)),
{
    let mut ops: Vec<Operation> = Vec::new();
    let empty: Vec<ForeignKeyDef> = Vec::new();
    let empty2: Vec<ForeignKeyDef> = Vec::new();
    proof {
        lemma_lookup_map(old.tables@, |x: SnapshotTable| x@, table_name@);
        lemma_lookup_map(new.tables@, |x: SnapshotTable| x@, table_name@);
        assert(old.tables@.map_values(|x: SnapshotTable| x@) =~= old@.tables);
        assert(new.tables@.map_values(|x: SnapshotTable| x@) =~= new@.tables);
        assert(fks_view(empty@) =~= Seq::<ForeignKeyDefView>::empty());
        assert(ops_view(ops@) =~= Seq::<OperationView>::empty());
    }
    let old_fks = match lookup_entry(&old.tables, table_name) {
        Some(t) => &t.foreign_keys,
        None => &empty,
    };
    let new_fks = match lookup_entry(&new.tables, table_name) {
        Some(t) => &t.foreign_keys,
        None => &empty2,
    };
    diff_foreign_keys_inner(&mut ops, table_name, old_fks, new_fks);
    assert(ops_view(ops@) =~= fk_ops(table_name@, snapshot_fks(old@, table_name@), snapshot_fks(new@, table_name@)));
    ops
}

/// Appends to `ops` the foreign-key operations that take `table_name` from
/// `old_fks` to `new_fks`.
pub fn diff_foreign_keys_inner(
    ops: &mut Vec<Operation>,
    table_name: &str,
    old_fks: &Vec<ForeignKeyDef>,
    new_fks: &Vec<ForeignKeyDef>,
)
    ensures
        ops_view(final(ops)@) == ops_view(old(ops)@) + fk_ops(table_name@, fks_view(old_fks@), fks_view(new_fks@)),
{
    let ghost ov = fks_view(old_fks@);
    let ghost nv = fks_view(new_fks@);
    let ghost t = table_name@;
    let ghost start = ops_view(ops@);
    let ghost fd = |o: ForeignKeyDefView| fk_drop_ops(t, nv, o);
    let ghost fa = |n: ForeignKeyDefView| fk_add_ops(t, ov, n);
    proof {
        assert(ov.take(0) =~= Seq::<ForeignKeyDefView>::empty());
    }
    let mut i: usize = 0;
    while i < old_fks.len()
        invariant
            i <= old_fks.len(),
            ov == fks_view(old_fks@),
            nv == fks_view(new_fks@),
            t == table_name@,
            fd == (|o: ForeignKeyDefView| fk_drop_ops(t, nv, o)),
            ops_view(ops@) == start + concat_ops(ov.take(i as int), fd),
        decreases old_fks.len() - i,
    {
        let old_fk = &old_fks[i];
        proof {
            lemma_lookup_map(new_fks@, |x: ForeignKeyDef| x@, old_fk.name@);
            assert(new_fks@.map_values(|x: ForeignKeyDef| x@) =~= nv);
            lemma_concat_ops_step(ov, fd, i as int);
            assert(ov[i as int] == old_fk@);
        }
        match lookup_entry(new_fks, old_fk.name.as_str()) {
            None => {
                push_op(ops, Operation::DropForeignKey { table: table_name.to_string(), name: old_fk.name.clone() });
            },
            Some(new_fk) => {
                if !new_fk.same_as(old_fk) {
                    push_op(
                        ops,
                        Operation::DropForeignKey { table: table_name.to_string(), name: old_fk.name.clone() },
                    );
                    push_op(ops, Operation::AddForeignKey { table: table_name.to_string(), fk: new_fk.duplicate() });
                }
            },
        }
        i = i + 1;
        assert(ops_view(ops@) =~= start + concat_ops(ov.take(i as int), fd));
    }
    assert(ov.take(i as int) =~= ov);
    let ghost mid = ops_view(ops@);
    proof {
        assert(nv.take(0) =~= Seq::<ForeignKeyDefView>::empty());
    }
    let mut j: usize = 0;
    while j < new_fks.len()
        invariant
            j <= new_fks.len(),
            ov == fks_view(old_fks@),
            nv == fks_view(new_fks@),
            t == table_name@,
            fa == (|n: ForeignKeyDefView| fk_add_ops(t, ov, n)),
            ops_view(ops@) == mid + concat_ops(nv.take(j as int), fa),
        decreases new_fks.len() - j,
    {
        let new_fk = &new_fks[j];
        proof {
            lemma_lookup_map(old_fks@, |x: ForeignKeyDef| x@, new_fk.name@);
            assert(old_fks@.map_values(|x: ForeignKeyDef| x@) =~= ov);
            lemma_concat_ops_step(nv, fa, j as int);
            assert(nv[j as int] == new_fk@);
        }
        if !contains_key(old_fks, new_fk.name.as_str()) {
            push_op(ops, Operation::AddForeignKey { table: table_name.to_string(), fk: new_fk.duplicate() });
        }
        j = j + 1;
        assert(ops_view(ops@) =~= mid + concat_ops(nv.take(j as int), fa));
    }
    assert(nv.take(j as int) =~= nv);
}

/// What one old CHECK constraint becomes: dropped when the new list lacks
/// its name, dropped and added again when its expression changed.
pub open spec fn check_drop_ops(table: Seq<char>, new: Seq<(Seq<char>, Seq<char>)>, old_check: (Seq<char>, Seq<char>)) -> Seq<OperationView> {
    match lookup(new, old_check.0) {
        None => seq![OperationView::DropCheckConstraint { table, name: old_check.0 }],
        Some(n) => if n.1 != old_check.1 {
            seq![
                OperationView::DropCheckConstraint { table, name: old_check.0 },
                OperationView::AddCheckConstraint { table, name: old_check.0, expr: n.1 },
            ]
        } else {
            seq![]
        },
    }
}

/// What one new CHECK constraint becomes: added when the old list lacks its
/// name.
pub open spec fn check_add_ops(table: Seq<char>, old: Seq<(Seq<char>, Seq<char>)>, new_check: (Seq<char>, Seq<char>)) -> Seq<OperationView> {
    if has_key(old, new_check.0) {
        seq![]
    } else {
        seq![OperationView::AddCheckConstraint { table, name: new_check.0, expr: new_check.1 }]
    }
}

/// The CHECK-constraint operations that take `table` from `old` to `new`.
pub open spec fn check_ops(table: Seq<char>, old: Seq<(Seq<char>, Seq<char>)>, new: Seq<(Seq<char>, Seq<char>)>) -> Seq<OperationView> {
    concat_ops(old, |o: (Seq<char>, Seq<char>)| check_drop_ops(table, new, o)) + concat_ops(
        new,
        |n: (Seq<char>, Seq<char>)| check_add_ops(table, old, n),
    )
}

/// Appends to `ops` the CHECK-constraint operations that take `table_name`
/// from `old_checks` to `new_checks`.
pub fn diff_check_constraints_inner(
    ops: &mut Vec<Operation>,
    table_name: &str,
    old_checks: &Vec<(String, String)>,
    new_checks: &Vec<(String, String)>,
)
    ensures
        ops_view(final(ops)@) == ops_view(old(ops)@) + check_ops(
            table_name@,
            checks_view(old_checks@),
            checks_view(new_checks@),
        ),
{
    let ghost ov = checks_view(old_checks@);
    let ghost nv = checks_view(new_checks@);
    let ghost t = table_name@;
    let ghost start = ops_view(ops@);
    let ghost fd = |o: (Seq<char>, Seq<char>)| check_drop_ops(t, nv, o);
    let ghost fa = |n: (Seq<char>, Seq<char>)| check_add_ops(t, ov, n);
    proof {
        assert(ov.take(0) =~= Seq::<(Seq<char>, Seq<char>)>::empty());
    }
    let mut i: usize = 0;
    while i < old_checks.len()
        invariant
            i <= old_checks.len(),
            ov == checks_view(old_checks@),
            nv == checks_view(new_checks@),
            t == table_name@,
            fd == (|o: (Seq<char>, Seq<char>)| check_drop_ops(t, nv, o)),
            ops_view(ops@) == start + concat_ops(ov.take(i as int), fd),
        decreases old_checks.len() - i,
    {
        let old_check = &old_checks[i];
        proof {
            lemma_lookup_map(new_checks@, |x: (String, String)| (x.0@, x.1@), old_check.0@);
            assert(new_checks@.map_values(|x: (String, String)| (x.0@, x.1@)) =~= nv);
            lemma_concat_ops_step(ov, fd, i as int);
            assert(ov[i as int] == (old_check.0@, old_check.1@));
        }
        match lookup_entry(new_checks, old_check.0.as_str()) {
            None => {
                push_op(
                    ops,
                    Operation::DropCheckConstraint { table: table_name.to_string(), name: old_check.0.clone() },
                );
            },
            Some(new_check) => {
                if !crate::text::str_eq(new_check.1.as_str(), old_check.1.as_str()) {
                    push_op(
                        ops,
                        Operation::DropCheckConstraint { table: table_name.to_string(), name: old_check.0.clone() },
                    );
                    push_op(
                        ops,
                        Operation::AddCheckConstraint {
                            table: table_name.to_string(),
                            name: old_check.0.clone(),
                            expr: new_check.1.clone(),
                        },
                    );
                }
            },
        }
        i = i + 1;
        assert(ops_view(ops@) =~= start + concat_ops(ov.take(i as int), fd));
    }
    assert(ov.take(i as int) =~= ov);
    let ghost mid = ops_view(ops@);
    proof {
        assert(nv.take(0) =~= Seq::<(Seq<char>, Seq<char>)>::empty());
    }
    let mut j: usize = 0;
    while j < new_checks.len()
        invariant
            j <= new_checks.len(),
            ov == checks_view(old_checks@),
            nv == checks_view(new_checks@),
            t == table_name@,
            fa == (|n: (Seq<char>, Seq<char>)| check_add_ops(t, ov, n)),
            ops_view(ops@) == mid + concat_ops(nv.take(j as int), fa),
        decreases new_checks.len() - j,
    {
        let new_check = &new_checks[j];
        proof {
            lemma_lookup_map(old_checks@, |x: (String, String)| (x.0@, x.1@), new_check.0@);
            assert(old_checks@.map_values(|x: (String, String)| (x.0@, x.1@)) =~= ov);
            lemma_concat_ops_step(nv, fa, j as int);
            assert(nv[j as int] == (new_check.0@, new_check.1@));
        }
        if !contains_key(old_checks, new_check.0.as_str()) {
            push_op(
                ops,
                Operation::AddCheckConstraint {
                    table: table_name.to_string(),
                    name: new_check.0.clone(),
                    expr: new_check.1.clone(),
                },
            );
        }
        j = j + 1;
        assert(ops_view(ops@) =~= mid + concat_ops(nv.take(j as int), fa));
    }
    assert(nv.take(j as int) =~= nv);
}

/// A foreign-key list filed strictly by name, compared with itself, gives no
/// operation.
pub proof fn lemma_fk_ops_identity(table: Seq<char>, m: Seq<ForeignKeyDefView>)
    requires
        strictly_sorted(keys_of(m)),
    ensures
        fk_ops(table, m, m).len() == 0,
{
    let fd = |o: ForeignKeyDefView| fk_drop_ops(table, m, o);
    let fa = |n: ForeignKeyDefView| fk_add_ops(table, m, n);
    assert forall|i: int| 0 <= i < m.len() implies fd(#[trigger] m[i]).len() == 0 && fa(m[i]).len() == 0 by {
        lemma_find_key_sorted(m, i);
    }
    lemma_concat_ops_empty(m, fd);
    lemma_concat_ops_empty(m, fa);
}

/// A CHECK-constraint list filed strictly by name, compared with itself,
/// gives no operation.
pub proof fn lemma_check_ops_identity(table: Seq<char>, m: Seq<(Seq<char>, Seq<char>)>)
    requires
        strictly_sorted(keys_of(m)),
    ensures
        check_ops(table, m, m).len() == 0,
{
    let fd = |o: (Seq<char>, Seq<char>)| check_drop_ops(table, m, o);
    let fa = |n: (Seq<char>, Seq<char>)| check_add_ops(table, m, n);
    assert forall|i: int| 0 <= i < m.len() implies fd(#[trigger] m[i]).len() == 0 && fa(m[i]).len() == 0 by {
        lemma_find_key_sorted(m, i);
    }
    lemma_concat_ops_empty(m, fd);
    lemma_concat_ops_empty(m, fa);
}

/// A foreign key the old list has and the new list lacks by name is dropped.
pub proof fn lemma_fk_ops_drops_vanished(table: Seq<char>, old: Seq<ForeignKeyDefView>, new: Seq<ForeignKeyDefView>, j: int)
    requires
        0 <= j < old.len(),
        forall|k: int| 0 <= k < new.len() ==> (#[trigger] new[k]).name != old[j].name,
    ensures
        exists|m: int|
            0 <= m < fk_ops(table, old, new).len() && #[trigger] fk_ops(table, old, new)[m]
                == (OperationView::DropForeignKey { table, name: old[j].name }),
{
    lemma_has_key(new, old[j].name);
    assert(!keys_of(new).contains(old[j].name)) by {
        if keys_of(new).contains(old[j].name) {
            let k: int = choose|k: int| 0 <= k < keys_of(new).len() && keys_of(new)[k] == old[j].name;
            assert(new[k].name == old[j].name);
        }
    }
    let fd = |o: ForeignKeyDefView| fk_drop_ops(table, new, o);
    let fa = |n: ForeignKeyDefView| fk_add_ops(table, old, n);
    assert(fd(old[j])[0] == (OperationView::DropForeignKey { table, name: old[j].name }));
    let m = lemma_concat_ops_index(old, fd, j, 0);
    let ops = fk_ops(table, old, new);
    assert(ops == concat_ops(old, fd) + concat_ops(new, fa));
    assert(ops[m] == concat_ops(old, fd)[m]);
}

/// A foreign key the new list has and the old list lacks by name is added.
pub proof fn lemma_fk_ops_adds_new(table: Seq<char>, old: Seq<ForeignKeyDefView>, new: Seq<ForeignKeyDefView>, j: int)
    requires
        0 <= j < new.len(),
        forall|k: int| 0 <= k < old.len() ==> (#[trigger] old[k]).name != new[j].name,
    ensures
        exists|m: int|
            0 <= m < fk_ops(table, old, new).len() && #[trigger] fk_ops(table, old, new)[m]
                == (OperationView::AddForeignKey { table, fk: new[j] }),
{
    lemma_has_key(old, new[j].name);
    assert(!keys_of(old).contains(new[j].name)) by {
        if keys_of(old).contains(new[j].name) {
            let k: int = choose|k: int| 0 <= k < keys_of(old).len() && keys_of(old)[k] == new[j].name;
            assert(old[k].name == new[j].name);
        }
    }
    let fd = |o: ForeignKeyDefView| fk_drop_ops(table, new, o);
    let fa = |n: ForeignKeyDefView| fk_add_ops(table, old, n);
    assert(fa(new[j])[0] == (OperationView::AddForeignKey { table, fk: new[j] }));
    let m = lemma_concat_ops_index(new, fa, j, 0);
    let ops = fk_ops(table, old, new);
    let a = concat_ops(old, fd);
    assert(ops == a + concat_ops(new, fa));
    assert(ops[a.len() + m] == concat_ops(new, fa)[m]);
}

/// A CHECK constraint the old list has and the new list lacks by name is dropped.
pub proof fn lemma_check_ops_drops_vanished(table: Seq<char>, old: Seq<(Seq<char>, Seq<char>)>, new: Seq<(Seq<char>, Seq<char>)>, j: int)
    requires
        0 <= j < old.len(),
        forall|k: int| 0 <= k < new.len() ==> (#[trigger] new[k]).0 != old[j].0,
    ensures
        exists|m: int|
            0 <= m < check_ops(table, old, new).len() && #[trigger] check_ops(table, old, new)[m]
                == (OperationView::DropCheckConstraint { table, name: old[j].0 }),
{
    lemma_has_key(new, old[j].0);
    assert(!keys_of(new).contains(old[j].0)) by {
        if keys_of(new).contains(old[j].0) {
            let k: int = choose|k: int| 0 <= k < keys_of(new).len() && keys_of(new)[k] == old[j].0;
            assert(new[k].0 == old[j].0);
        }
    }
    let fd = |o: (Seq<char>, Seq<char>)| check_drop_ops(table, new, o);
    let fa = |n: (Seq<char>, Seq<char>)| check_add_ops(table, old, n);
    assert(fd(old[j])[0] == (OperationView::DropCheckConstraint { table, name: old[j].0 }));
    let m = lemma_concat_ops_index(old, fd, j, 0);
    let ops = check_ops(table, old, new);
    assert(ops == concat_ops(old, fd) + concat_ops(new, fa));
    assert(ops[m] == concat_ops(old, fd)[m]);
}

/// A CHECK constraint the new list has and the old list lacks by name is added.
pub proof fn lemma_check_ops_adds_new(table: Seq<char>, old: Seq<(Seq<char>, Seq<char>)>, new: Seq<(Seq<char>, Seq<char>)>, j: int)
    requires
        0 <= j < new.len(),
        forall|k: int| 0 <= k < old.len() ==> (#[trigger] old[k]).0 != new[j].0,
    ensures
        exists|m: int|
            0 <= m < check_ops(table, old, new).len() && #[trigger] check_ops(table, old, new)[m]
                == (OperationView::AddCheckConstraint { table, name: new[j].0, expr: new[j].1 }),
{
    lemma_has_key(old, new[j].0);
    assert(!keys_of(old).contains(new[j].0)) by {
        if keys_of(old).contains(new[j].0) {
            let k: int = choose|k: int| 0 <= k < keys_of(old).len() && keys_of(old)[k] == new[j].0;
            assert(old[k].0 == new[j].0);
        }
    }
    let fd = |o: (Seq<char>, Seq<char>)| check_drop_ops(table, new, o);
    let fa = |n: (Seq<char>, Seq<char>)| check_add_ops(table, old, n);
    assert(fa(new[j])[0] == (OperationView::AddCheckConstraint { table, name: new[j].0, expr: new[j].1 }));
    let m = lemma_concat_ops_index(new, fa, j, 0);
    let ops = check_ops(table, old, new);
    let a = concat_ops(old, fd);
    assert(ops == a + concat_ops(new, fa));
    assert(ops[a.len() + m] == concat_ops(new, fa)[m]);
}

} // verus!
