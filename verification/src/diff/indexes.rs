//! Index-level diff between two filed index lists.
use vstd::prelude::*;
use crate::keyed::{lookup, has_key, lookup_entry, contains_key, keys_of, strictly_sorted,
    lemma_lookup_map, lemma_find_key_sorted, lemma_has_key};
use crate::schema::{IndexDef, IndexDefView, indexes_view};
use super::operation::{Operation, OperationView, ops_view, concat_ops, push_op,
    lemma_concat_ops_step, lemma_concat_ops_empty, lemma_concat_ops_index, lemma_concat_ops_all};

verus! {

/// What one old index becomes: dropped when the new list lacks its name,
/// dropped and created again when the new one differs.
pub open spec fn index_drop_ops(table: Seq<char>, new: Seq<IndexDefView>, old_idx: IndexDefView) -> Seq<OperationView> {
    match lookup(new, old_idx.name) {
        None => seq![OperationView::DropIndex { name: old_idx.name }],
        Some(n) => if n != old_idx {
            seq![
                OperationView::DropIndex { name: old_idx.name },
                OperationView::CreateIndex { table, index: n },
            ]
        } else {
            seq![]
        },
    }
}

/// What one new index becomes: created when the old list lacks its name.
pub open spec fn index_add_ops(table: Seq<char>, old: Seq<IndexDefView>, new_idx: IndexDefView) -> Seq<OperationView> {
    if has_key(old, new_idx.name) {
        seq![]
    } else {
        seq![OperationView::CreateIndex { table, index: new_idx }]
    }
}

/// The index operations that take `table` from `old` to `new`: first, in
/// the old list's order, the drops and re-creations; then, in the new
/// list's order, the creations.
pub open spec fn index_ops(table: Seq<char>, old: Seq<IndexDefView>, new: Seq<IndexDefView>) -> Seq<OperationView> {
    concat_ops(old, |o: IndexDefView| index_drop_ops(table, new, o)) + concat_ops(
        new,
        |n: IndexDefView| index_add_ops(table, old, n),
    )
}

/// Appends to `ops` the index operations that take `table_name` from
/// `old_indexes` to `new_indexes`.
pub fn diff_indexes_inner(
    ops: &mut Vec<Operation>,
    table_name: &str,
    old_indexes: &Vec<IndexDef>,
    new_indexes: &Vec<IndexDef>,
)
    ensures
        ops_view(final(ops)@) == ops_view(old(ops)@) + index_ops(
            table_name@,
            indexes_view(old_indexes@),
            indexes_view(new_indexes@),
        ),
{
    let ghost ov = indexes_view(old_indexes@);
    let ghost nv = indexes_view(new_indexes@);
    let ghost t = table_name@;
    let ghost start = ops_view(ops@);
    let ghost fd = |o: IndexDefView| index_drop_ops(t, nv, o);
    let ghost fa = |n: IndexDefView| index_add_ops(t, ov, n);
    proof {
        assert(ov.take(0) =~= Seq::<IndexDefView>::empty());
    }
    let mut i: usize = 0;
    while i < old_indexes.len()
        invariant
            i <= old_indexes.len(),
            ov == indexes_view(old_indexes@),
            nv == indexes_view(new_indexes@),
            t == table_name@,
            fd == (|o: IndexDefView| index_drop_ops(t, nv, o)),
            ops_view(ops@) == start + concat_ops(ov.take(i as int), fd),
        decreases old_indexes.len() - i,
    {
        let old_idx = &old_indexes[i];
        proof {
            lemma_lookup_map(new_indexes@, |x: IndexDef| x@, old_idx.name@);
            assert(new_indexes@.map_values(|x: IndexDef| x@) =~= nv);
            lemma_concat_ops_step(ov, fd, i as int);
            assert(ov[i as int] == old_idx@);
        }
        match lookup_entry(new_indexes, old_idx.name.as_str()) {
            None => {
                push_op(ops, Operation::DropIndex { name: old_idx.name.clone() });
            },
            Some(new_idx) => {
                if !new_idx.same_as(old_idx) {
                    push_op(ops, Operation::DropIndex { name: old_idx.name.clone() });
                    push_op(
                        ops,
                        Operation::CreateIndex { table: table_name.to_string(), index: new_idx.duplicate() },
                    );
                }
            },
        }
        i = i + 1;
        assert(ops_view(ops@) =~= start + concat_ops(ov.take(i as int), fd));
    }
    assert(ov.take(i as int) =~= ov);
    let ghost mid = ops_view(ops@);
    proof {
        assert(nv.take(0) =~= Seq::<IndexDefView>::empty());
    }
    let mut j: usize = 0;
    while j < new_indexes.len()
        invariant
            j <= new_indexes.len(),
            ov == indexes_view(old_indexes@),
            nv == indexes_view(new_indexes@),
            t == table_name@,
            fa == (|n: IndexDefView| index_add_ops(t, ov, n)),
            ops_view(ops@) == mid + concat_ops(nv.take(j as int), fa),
        decreases new_indexes.len() - j,
    {
        let new_idx = &new_indexes[j];
        proof {
            lemma_lookup_map(old_indexes@, |x: IndexDef| x@, new_idx.name@);
            assert(old_indexes@.map_values(|x: IndexDef| x@) =~= ov);
            lemma_concat_ops_step(nv, fa, j as int);
            assert(nv[j as int] == new_idx@);
        }
        if !contains_key(old_indexes, new_idx.name.as_str()) {
            push_op(ops, Operation::CreateIndex { table: table_name.to_string(), index: new_idx.duplicate() });
        }
        j = j + 1;
        assert(ops_view(ops@) =~= mid + concat_ops(nv.take(j as int), fa));
    }
    assert(nv.take(j as int) =~= nv);
}

/// An index list filed strictly by name, compared with itself, gives no
/// operation.
pub proof fn lemma_index_ops_identity(table: Seq<char>, m: Seq<IndexDefView>)
    requires
        strictly_sorted(keys_of(m)),
    ensures
        index_ops(table, m, m).len() == 0,
{
    let fd = |o: IndexDefView| index_drop_ops(table, m, o);
    let fa = |n: IndexDefView| index_add_ops(table, m, n);
    assert forall|i: int| 0 <= i < m.len() implies fd(#[trigger] m[i]).len() == 0 && fa(m[i]).len() == 0 by {
        lemma_find_key_sorted(m, i);
    }
    lemma_concat_ops_empty(m, fd);
    lemma_concat_ops_empty(m, fa);
}

/// An index the old list has and the new list lacks by name is dropped:
/// the index operations hold `DropIndex` with its name.
pub proof fn lemma_index_ops_drops_vanished(table: Seq<char>, old: Seq<IndexDefView>, new: Seq<IndexDefView>, j: int)
    requires
        0 <= j < old.len(),
        forall|k: int| 0 <= k < new.len() ==> (#[trigger] new[k]).name != old[j].name,
    ensures
        exists|m: int|
            0 <= m < index_ops(table, old, new).len() && #[trigger] index_ops(table, old, new)[m]
                == (OperationView::DropIndex { name: old[j].name }),
{
    lemma_has_key(new, old[j].name);
    assert(!keys_of(new).contains(old[j].name)) by {
        if keys_of(new).contains(old[j].name) {
            let k: int = choose|k: int| 0 <= k < keys_of(new).len() && keys_of(new)[k] == old[j].name;
            assert(new[k].name == old[j].name);
        }
    }
    let fd = |o: IndexDefView| index_drop_ops(table, new, o);
    let fa = |n: IndexDefView| index_add_ops(table, old, n);
    assert(fd(old[j]) == seq![OperationView::DropIndex { name: old[j].name }]);
    let m = lemma_concat_ops_index(old, fd, j, 0);
    let ops = index_ops(table, old, new);
    assert(ops == concat_ops(old, fd) + concat_ops(new, fa));
    assert(ops[m] == concat_ops(old, fd)[m]);
}

/// An index is dropped only when the old list has it and the new list lacks
/// it by name or holds a different definition under that name.
pub proof fn lemma_index_ops_drops_only_gone_or_changed(table: Seq<char>, old: Seq<IndexDefView>, new: Seq<IndexDefView>)
    ensures
        forall|m: int|
            0 <= m < index_ops(table, old, new).len() ==> (#[trigger] index_ops(table, old, new)[m] matches OperationView::DropIndex { name }
                ==> exists|j: int| 0 <= j < old.len() && old[j].name == name && lookup(new, name) != Some(old[j])),
{
    let fd = |o: IndexDefView| index_drop_ops(table, new, o);
    let fa = |n: IndexDefView| index_add_ops(table, old, n);
    let p = |op: OperationView|
        op matches OperationView::DropIndex { name } ==> exists|j: int|
            0 <= j < old.len() && old[j].name == name && lookup(new, name) != Some(old[j]);
    assert forall|i: int, k: int| 0 <= i < old.len() && 0 <= k < fd(old[i]).len() implies p(#[trigger] fd(old[i])[k]) by {
        assert(old[i].name == old[i].name);
    }
    assert forall|i: int, k: int| 0 <= i < new.len() && 0 <= k < fa(new[i]).len() implies p(#[trigger] fa(new[i])[k]) by {}
    lemma_concat_ops_all(old, fd, p);
    lemma_concat_ops_all(new, fa, p);
    let a = concat_ops(old, fd);
    let b = concat_ops(new, fa);
    assert(index_ops(table, old, new) == a + b);
    assert forall|m: int| 0 <= m < (a + b).len() implies p(#[trigger] (a + b)[m]) by {
        if m < a.len() {
            assert((a + b)[m] == a[m]);
        } else {
            assert((a + b)[m] == b[m - a.len()]);
        }
    }
}

/// An index the new list has and the old list lacks by name is added.
pub proof fn lemma_index_ops_adds_new(table: Seq<char>, old: Seq<IndexDefView>, new: Seq<IndexDefView>, j: int)
    requires
        0 <= j < new.len(),
        forall|k: int| 0 <= k < old.len() ==> (#[trigger] old[k]).name != new[j].name,
    ensures
        exists|m: int|
            0 <= m < index_ops(table, old, new).len() && #[trigger] index_ops(table, old, new)[m]
                == (OperationView::CreateIndex { table, index: new[j] }),
{
    lemma_has_key(old, new[j].name);
    assert(!keys_of(old).contains(new[j].name)) by {
        if keys_of(old).contains(new[j].name) {
            let k: int = choose|k: int| 0 <= k < keys_of(old).len() && keys_of(old)[k] == new[j].name;
            assert(old[k].name == new[j].name);
        }
    }
    let fd = |o: IndexDefView| index_drop_ops(table, new, o);
    let fa = |n: IndexDefView| index_add_ops(table, old, n);
    assert(fa(new[j])[0] == (OperationView::CreateIndex { table, index: new[j] }));
    let m = lemma_concat_ops_index(new, fa, j, 0);
    let ops = index_ops(table, old, new);
    let a = concat_ops(old, fd);
    assert(ops == a + concat_ops(new, fa));
    assert(ops[a.len() + m] == concat_ops(new, fa)[m]);
}

} // verus!
