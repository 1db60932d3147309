//! Enum-type diff between two snapshots.
use vstd::prelude::*;
use crate::keyed::{lookup, has_key, lookup_entry, contains_key, keys_of, strictly_sorted, keyed_from,
    build_keyed, lemma_lookup_map, lemma_find_key_sorted, lemma_keyed_from_map, names_not_in,
    strings_not_in, lemma_names_not_in_empty};
use crate::schema::{EnumDef, EnumDefView, enums_view};
use crate::snapshot::{Snapshot, lemma_keyed_from_members, snapshot_well_formed};
use crate::text::{strings_view, copy_strings};
use super::operation::{Operation, OperationView, ops_view, concat_ops, push_op,
    lemma_concat_ops_step, lemma_concat_ops_empty};

verus! {

/// The variants as a set walks them: sorted, each once.
pub open spec fn variant_set(v: Seq<Seq<char>>) -> Seq<Seq<char>> {
    keyed_from(v)
}

/// The variants of `v` as a set walks them.
fn sorted_variants(v: &Vec<String>) -> (r: Vec<String>)
    ensures
        strings_view(r@) == variant_set(strings_view(v@)),
{
    let c = copy_strings(v);
    let ghost gc = c@;
    let r = build_keyed(c);
    proof {
        let f = |s: String| s@;
        lemma_keyed_from_map(gc, f);
        assert(gc.map_values(f) =~= strings_view(gc));
        assert(strings_view(r@) =~= keyed_from(gc).map_values(f));
    }
    r
}

/// What one old enum becomes: dropped when the new snapshot lacks it.
pub open spec fn enum_drop_ops(new: Seq<EnumDefView>, e: EnumDefView) -> Seq<OperationView> {
    if has_key(new, e.name) {
        seq![]
    } else {
        seq![OperationView::DropEnum { name: e.name }]
    }
}

/// What one new enum becomes: created when the old snapshot lacks it,
/// altered when its variant set gained or lost a variant.
pub open spec fn enum_alter_ops(old: Seq<EnumDefView>, e: EnumDefView) -> Seq<OperationView> {
    match lookup(old, e.name) {
        None => seq![OperationView::CreateEnum { name: e.name, variants: e.variants }],
        Some(o) => {
            let added = names_not_in(variant_set(e.variants), o.variants);
            let removed = names_not_in(variant_set(o.variants), e.variants);
            if added.len() > 0 || removed.len() > 0 {
                seq![OperationView::AlterEnum { name: e.name, added, removed }]
            } else {
                seq![]
            }
        },
    }
}

/// The enum operations that take `old` to `new`: drops in the old order,
/// then creations and alterations in the new order.
pub open spec fn enum_ops(old: Seq<EnumDefView>, new: Seq<EnumDefView>) -> Seq<OperationView> {
    concat_ops(old, |e: EnumDefView| enum_drop_ops(new, e)) + concat_ops(
        new,
        |e: EnumDefView| enum_alter_ops(old, e),
    )
}

/// The enum operations that take `old` to `new`.
pub fn diff_enums(old: &Snapshot, new: &Snapshot) -> (r: Vec<Operation>)
    requires
        snapshot_well_formed(old@),
        snapshot_well_formed(new@),
    ensures
        ops_view(r@) == enum_ops(old@.enums, new@.enums),
{
    let mut ops: Vec<Operation> = Vec::new();
    let ghost ov = old@.enums;
    let ghost nv = new@.enums;
    let ghost fd = |e: EnumDefView| enum_drop_ops(nv, e);
    let ghost fa = |e: EnumDefView| enum_alter_ops(ov, e);
    assert(ops_view(ops@) =~= Seq::<OperationView>::empty());
    assert(ov.take(0) =~= Seq::<EnumDefView>::empty());
    let mut i: usize = 0;
    while i < old.enums.len()
        invariant
            i <= old.enums.len(),
            ov == enums_view(old.enums@),
            nv == enums_view(new.enums@),
            fd == (|e: EnumDefView| enum_drop_ops(nv, e)),
            ops_view(ops@) == concat_ops(ov.take(i as int), fd),
        decreases old.enums.len() - i,
    {
        let e = &old.enums[i];
        proof {
            lemma_lookup_map(new.enums@, |x: EnumDef| x@, e.name@);
            assert(new.enums@.map_values(|x: EnumDef| x@) =~= nv);
            lemma_concat_ops_step(ov, fd, i as int);
            assert(ov[i as int] == e@);
        }
        if !contains_key(&new.enums, e.name.as_str()) {
            push_op(&mut ops, Operation::DropEnum { name: e.name.clone() });
        }
        i = i + 1;
        assert(ops_view(ops@) =~= concat_ops(ov.take(i as int), fd));
    }
    assert(ov.take(i as int) =~= ov);
    let ghost mid = ops_view(ops@);
    assert(nv.take(0) =~= Seq::<EnumDefView>::empty());
    let mut j: usize = 0;
    while j < new.enums.len()
        invariant
            j <= new.enums.len(),
            ov == enums_view(old.enums@),
            nv == enums_view(new.enums@),
            fa == (|e: EnumDefView| enum_alter_ops(ov, e)),
            ops_view(ops@) == mid + concat_ops(nv.take(j as int), fa),
        decreases new.enums.len() - j,
    {
        let e = &new.enums[j];
        proof {
            lemma_lookup_map(old.enums@, |x: EnumDef| x@, e.name@);
            assert(old.enums@.map_values(|x: EnumDef| x@) =~= ov);
            lemma_concat_ops_step(nv, fa, j as int);
            assert(nv[j as int] == e@);
        }
        match lookup_entry(&old.enums, e.name.as_str()) {
            None => {
                push_op(&mut ops, Operation::CreateEnum { name: e.name.clone(), variants: copy_strings(&e.variants) });
            },
            Some(o) => {
                let new_v = sorted_variants(&e.variants);
                let old_v = sorted_variants(&o.variants);
                let added = strings_not_in(&new_v, &o.variants);
                let removed = strings_not_in(&old_v, &e.variants);
                if added.len() > 0 || removed.len() > 0 {
                    push_op(&mut ops, Operation::AlterEnum { name: e.name.clone(), added, removed });
                }
            },
        }
        j = j + 1;
        assert(ops_view(ops@) =~= mid + concat_ops(nv.take(j as int), fa));
    }
    assert(nv.take(j as int) =~= nv);
    ops
}

/// An enum list filed strictly by name, compared with itself, gives no
/// operation.
pub proof fn lemma_enum_ops_identity(m: Seq<EnumDefView>)
    requires
        strictly_sorted(keys_of(m)),
    ensures
        enum_ops(m, m).len() == 0,
{
    let fd = |e: EnumDefView| enum_drop_ops(m, e);
    let fa = |e: EnumDefView| enum_alter_ops(m, e);
    assert forall|i: int| 0 <= i < m.len() implies fd(#[trigger] m[i]).len() == 0 && fa(m[i]).len() == 0 by {
        lemma_find_key_sorted(m, i);
        let v = m[i].variants;
        lemma_keyed_from_members(v);
        assert forall|k: int| 0 <= k < variant_set(v).len() implies v.contains(#[trigger] variant_set(v)[k]) by {
            let j: int = choose|j: int| 0 <= j < v.len() && v[j] == keyed_from(v)[k];
        }
        lemma_names_not_in_empty(variant_set(v), v);
    }
    lemma_concat_ops_empty(m, fd);
    lemma_concat_ops_empty(m, fa);
}

} // verus!
