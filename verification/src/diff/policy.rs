//! Validating row-security declarations, and diffing them between two
//! schema versions.
//!
//! A table's row security is diffed as one unit: the two flags become one
//! `AlterRowLevelSecurity` whenever either changed, and each policy is keyed
//! by name — added ones are created, removed ones dropped, and a changed one
//! is dropped and created again, the same shape the index and CHECK diffs use.
use vstd::prelude::*;
use crate::error::DbCoreError;
use crate::keyed::{lookup, lookup_entry, contains_str, keyed_from, keys_of, strictly_sorted,
    build_keyed, lemma_lookup_map, lemma_keyed_from_map, lemma_keyed_from_sorted, lemma_find_key_sorted};
use crate::schema::{PolicyCommand, PolicyDef, PolicyDefView, RowSecurity, RowSecurityView, TableDef,
    TableDefView, SchemaRegistry, kind_module, policy_command_sql, policies_view, copy_policies,
    tables_view};
use crate::snapshot::{Snapshot, SnapshotView, SnapshotTable, snapshot_well_formed};
use crate::text::strings_view;
use super::operation::{Operation, OperationView, ops_view, concat_ops, push_op, lemma_concat_ops_step,
    lemma_concat_ops_empty, lemma_concat_ops_all};

verus! {

/// Why a table that is virtual cannot carry row security.
pub open spec fn virtual_security_reason() -> Seq<char> {
    "a virtual table cannot carry row security"@
}

/// Why Postgres would reject `policy` on `table`, given the names of the
/// table's earlier policies; `None` when it would not.
pub open spec fn policy_invalid_reason(table: TableDefView, policy: PolicyDefView, seen: Seq<Seq<char>>) -> Option<Seq<char>> {
    if kind_module(table.kind) is Some {
        Some(virtual_security_reason())
    } else if policy.name.len() == 0 {
        Some("the policy has no name"@)
    } else if seen.contains(policy.name) {
        Some("another policy on this table already has that name"@)
    } else if policy.using is None && policy.with_check is None {
        Some("it has neither a USING nor a WITH CHECK expression"@)
    } else if policy.using is Some && policy.command == PolicyCommand::Insert {
        Some("a FOR "@ + policy_command_sql(policy.command) + " policy cannot have a USING expression"@)
    } else if policy.with_check is Some && (policy.command == PolicyCommand::Select || policy.command
        == PolicyCommand::Delete) {
        Some("a FOR "@ + policy_command_sql(policy.command) + " policy cannot have a WITH CHECK expression"@)
    } else {
        None
    }
}

/// The names of a sequence of policies.
pub open spec fn policy_names(p: Seq<PolicyDefView>) -> Seq<Seq<char>> {
    p.map_values(|x: PolicyDefView| x.name)
}

/// The first refused policy of `p` from position `k` on, with its reason:
/// each is judged against the names of the policies before it.
pub open spec fn first_policy_problem(table: TableDefView, p: Seq<PolicyDefView>, k: int) -> Option<(Seq<char>, Seq<char>)>
    decreases p.len() - k,
{
    if k < 0 || k >= p.len() {
        None
    } else {
        match policy_invalid_reason(table, p[k], policy_names(p.take(k))) {
            Some(reason) => Some((p[k].name, reason)),
            None => first_policy_problem(table, p, k + 1),
        }
    }
}

/// What is wrong with `table`'s row security, as (policy name, reason):
/// its first refused policy, or, for a virtual table that declares row
/// security with no policy at all, the table itself (an empty policy name).
pub open spec fn table_policy_problem(table: TableDefView) -> Option<(Seq<char>, Seq<char>)> {
    match table.row_security {
        None => None,
        Some(sec) => match first_policy_problem(table, sec.policies, 0) {
            Some(e) => Some(e),
            None => if sec.policies.len() == 0 && kind_module(table.kind) is Some {
                Some((seq![], virtual_security_reason()))
            } else {
                None
            },
        },
    }
}

/// The first table of `tables` from position `k` on whose row security is
/// refused, as (table name, policy name, reason).
pub open spec fn schema_policy_problem(tables: Seq<TableDefView>, k: int) -> Option<(Seq<char>, Seq<char>, Seq<char>)>
    decreases tables.len() - k,
{
    if k < 0 || k >= tables.len() {
        None
    } else {
        match table_policy_problem(tables[k]) {
            Some(e) => Some((tables[k].name, e.0, e.1)),
            None => schema_policy_problem(tables, k + 1),
        }
    }
}

/// Why Postgres would reject `policy` on `table`, given the names of the
/// table's earlier policies; `None` when it would not.
pub fn invalid_reason(table: &TableDef, policy: &PolicyDef, seen: &Vec<String>) -> (r: Option<String>)
    ensures
        opt_string_view(r) == policy_invalid_reason(table@, policy@, strings_view(seen@)),
{
    if table.is_virtual() {
        return Some("a virtual table cannot carry row security".to_string());
    }
    if policy.name.as_str().is_empty() {
        return Some("the policy has no name".to_string());
    }
    if contains_str(seen, policy.name.as_str()) {
        return Some("another policy on this table already has that name".to_string());
    }
    if policy.using.is_none() && policy.with_check.is_none() {
        return Some("it has neither a USING nor a WITH CHECK expression".to_string());
    }
    if policy.using.is_some() && !policy.command.accepts_using() {
        let mut s = "a FOR ".to_string();
        s.append(policy.command.as_sql());
        s.append(" policy cannot have a USING expression");
        return Some(s);
    }
    if policy.with_check.is_some() && !policy.command.accepts_with_check() {
        let mut s = "a FOR ".to_string();
        s.append(policy.command.as_sql());
        s.append(" policy cannot have a WITH CHECK expression");
        return Some(s);
    }
    None
}

/// The characters of an optional owned string.
pub open spec fn opt_string_view(s: Option<String>) -> Option<Seq<char>> {
    match s {
        Some(x) => Some(x@),
        None => None,
    }
}

/// The first refused policy of `table`, as (policy name, reason).
fn table_problem(table: &TableDef) -> (r: Option<(String, String)>)
    ensures
        match r {
            Some(e) => table_policy_problem(table@) == Some((e.0@, e.1@)),
            None => table_policy_problem(table@) is None,
        },
{
    let security = match &table.row_security {
        None => return None,
        Some(sec) => sec,
    };
    let ghost tv = table@;
    let ghost pv = policies_view(security.policies@);
    assert(tv.row_security == Some(security@));
    let mut seen: Vec<String> = Vec::new();
    let mut i: usize = 0;
    assert(policy_names(pv.take(0)) =~= Seq::<Seq<char>>::empty());
    while i < security.policies.len()
        invariant
            i <= security.policies.len(),
            tv == table@,
            tv.row_security == Some(security@),
            pv == policies_view(security.policies@),
            strings_view(seen@) == policy_names(pv.take(i as int)),
            first_policy_problem(tv, pv, 0) == first_policy_problem(tv, pv, i as int),
        decreases security.policies.len() - i,
    {
        let policy = &security.policies[i];
        assert(pv[i as int] == policy@);
        match invalid_reason(table, policy, &seen) {
            Some(reason) => {
                assert(policy_invalid_reason(tv, pv[i as int], policy_names(pv.take(i as int))) == Some(reason@));
                assert(first_policy_problem(tv, pv, i as int) == Some((policy.name@, reason@)));
                assert(security@.policies == pv);
                return Some((policy.name.clone(), reason));
            },
            None => {},
        }
        let ghost prev = seen@;
        seen.push(policy.name.clone());
        assert(pv.take(i + 1) =~= pv.take(i as int).push(pv[i as int]));
        assert(strings_view(seen@) =~= strings_view(prev).push(policy.name@));
        assert(policy_names(pv.take(i + 1)) =~= policy_names(pv.take(i as int)).push(policy.name@));
        i = i + 1;
    }
    if security.policies.len() == 0 && table.is_virtual() {
        return Some((String::new(), "a virtual table cannot carry row security".to_string()));
    }
    None
}

/// Rejects every declaration Postgres would refuse, before any operation is
/// produced — so a schema with a bad policy writes no migration at all.
///
/// # Errors
///
/// [`DbCoreError::PolicyInvalid`] naming the table, the policy and the reason
/// of the first refused declaration, tables in declaration order.
pub fn validate(schema: &SchemaRegistry) -> (r: Result<(), DbCoreError>)
    ensures
        r is Ok <==> schema_policy_problem(tables_view(schema.tables@), 0) is None,
        r matches Err(e) ==> e matches DbCoreError::PolicyInvalid { table, policy, reason }
            && schema_policy_problem(tables_view(schema.tables@), 0) == Some((table@, policy@, reason@)),
{
    let ghost tv = tables_view(schema.tables@);
    let mut i: usize = 0;
    while i < schema.tables.len()
        invariant
            i <= schema.tables.len(),
            tv == tables_view(schema.tables@),
            schema_policy_problem(tv, 0) == schema_policy_problem(tv, i as int),
        decreases schema.tables.len() - i,
    {
        let table = &schema.tables[i];
        assert(tv[i as int] == table@);
        match table_problem(table) {
            Some((policy, reason)) => {
                return Err(DbCoreError::PolicyInvalid { table: table.name.clone(), policy, reason });
            },
            None => {},
        }
        i = i + 1;
    }
    Ok(())
}

// ---------------------------------------------------------------------------
// Diff

/// The policies of a declaration as a by-name map walks them; none for an
/// absent declaration.
pub open spec fn policies_by_name(sec: Option<RowSecurityView>) -> Seq<PolicyDefView> {
    match sec {
        Some(rs) => keyed_from(rs.policies),
        None => seq![],
    }
}

/// The `force` flag of a declaration, `None` when there is none.
pub open spec fn force_flag(sec: Option<RowSecurityView>) -> Option<bool> {
    match sec {
        Some(rs) => Some(rs.force),
        None => None,
    }
}

/// The flag operation: one `AlterRowLevelSecurity` whenever the declaration
/// appeared, vanished or changed its `force` flag.
pub open spec fn security_flag_ops(table: Seq<char>, old: Option<RowSecurityView>, new: Option<RowSecurityView>) -> Seq<OperationView> {
    if force_flag(old) != force_flag(new) {
        seq![
            OperationView::AlterRowLevelSecurity {
                table,
                enabled: new is Some,
                force: new matches Some(rs) && rs.force,
            },
        ]
    } else {
        seq![]
    }
}

/// What one old policy becomes: dropped when the new declaration lacks it or
/// changed it.
pub open spec fn policy_drop_ops(table: Seq<char>, new: Seq<PolicyDefView>, p: PolicyDefView) -> Seq<OperationView> {
    match lookup(new, p.name) {
        Some(n) => if n != p {
            seq![OperationView::DropPolicy { table, name: p.name }]
        } else {
            seq![]
        },
        None => seq![OperationView::DropPolicy { table, name: p.name }],
    }
}

/// What one new policy becomes: created unless the old declaration has it
/// unchanged.
pub open spec fn policy_create_ops(table: Seq<char>, old: Seq<PolicyDefView>, p: PolicyDefView) -> Seq<OperationView> {
    if lookup(old, p.name) == Some(p) {
        seq![]
    } else {
        seq![OperationView::CreatePolicy { table, policy: p }]
    }
}

/// The row-security operations that take `table` from `old` to `new`: the
/// flag operation, the policy drops by name, then the policy creations by
/// name.
pub open spec fn security_ops(table: Seq<char>, old: Option<RowSecurityView>, new: Option<RowSecurityView>) -> Seq<OperationView> {
    let op = policies_by_name(old);
    let np = policies_by_name(new);
    security_flag_ops(table, old, new) + concat_ops(op, |p: PolicyDefView| policy_drop_ops(table, np, p))
        + concat_ops(np, |p: PolicyDefView| policy_create_ops(table, op, p))
}

/// The row security a snapshot records for `table`.
pub open spec fn snapshot_security(s: SnapshotView, table: Seq<char>) -> Option<RowSecurityView> {
    match lookup(s.tables, table) {
        Some(t) => t.row_security,
        None => None,
    }
}

/// The policies of a declaration by name; empty for an absent one.
fn by_name(security: Option<&RowSecurity>) -> (r: Vec<PolicyDef>)
    ensures
        policies_view(r@) == policies_by_name(match security {
            Some(rs) => Some(rs@),
            None => None,
        }),
{
    match security {
        Some(rs) => {
            let c = copy_policies(&rs.policies);
            let ghost gc = c@;
            let r = build_keyed(c);
            proof {
                let f = |x: PolicyDef| x@;
                lemma_keyed_from_map(gc, f);
                assert(gc.map_values(f) =~= policies_view(gc));
                assert(policies_view(r@) =~= keyed_from(gc).map_values(f));
            }
            r
        },
        None => {
            let r: Vec<PolicyDef> = Vec::new();
            assert(policies_view(r@) =~= Seq::<PolicyDefView>::empty());
            r
        },
    }
}

/// Appends the policy drops.
fn push_policy_drops(ops: &mut Vec<Operation>, table_name: &str, old_p: &Vec<PolicyDef>, new_p: &Vec<PolicyDef>)
    ensures
        ops_view(final(ops)@) == ops_view(old(ops)@) + concat_ops(
            policies_view(old_p@),
            |p: PolicyDefView| policy_drop_ops(table_name@, policies_view(new_p@), p),
        ),
{
    let ghost ov = policies_view(old_p@);
    let ghost nv = policies_view(new_p@);
    let ghost t = table_name@;
    let ghost f = |p: PolicyDefView| policy_drop_ops(t, nv, p);
    let ghost start = ops_view(ops@);
    assert(ov.take(0) =~= Seq::<PolicyDefView>::empty());
    let mut i: usize = 0;
    while i < old_p.len()
        invariant
            i <= old_p.len(),
            ov == policies_view(old_p@),
            nv == policies_view(new_p@),
            t == table_name@,
            f == (|p: PolicyDefView| policy_drop_ops(t, nv, p)),
            ops_view(ops@) == start + concat_ops(ov.take(i as int), f),
        decreases old_p.len() - i,
    {
        let p = &old_p[i];
        proof {
            lemma_concat_ops_step(ov, f, i as int);
            lemma_lookup_map(new_p@, |x: PolicyDef| x@, p.name@);
            assert(new_p@.map_values(|x: PolicyDef| x@) =~= nv);
            assert(ov[i as int] == p@);
        }
        let drop = match lookup_entry(new_p, p.name.as_str()) {
            Some(n) => !n.same_as(p),
            None => true,
        };
        if drop {
            push_op(ops, Operation::DropPolicy { table: table_name.to_string(), name: p.name.clone() });
        }
        i = i + 1;
        assert(ops_view(ops@) =~= start + concat_ops(ov.take(i as int), f));
    }
    assert(ov.take(i as int) =~= ov);
}

/// Appends the policy creations.
fn push_policy_creates(ops: &mut Vec<Operation>, table_name: &str, old_p: &Vec<PolicyDef>, new_p: &Vec<PolicyDef>)
    ensures
        ops_view(final(ops)@) == ops_view(old(ops)@) + concat_ops(
            policies_view(new_p@),
            |p: PolicyDefView| policy_create_ops(table_name@, policies_view(old_p@), p),
        ),
{
    let ghost ov = policies_view(old_p@);
    let ghost nv = policies_view(new_p@);
    let ghost t = table_name@;
    let ghost f = |p: PolicyDefView| policy_create_ops(t, ov, p);
    let ghost start = ops_view(ops@);
    assert(nv.take(0) =~= Seq::<PolicyDefView>::empty());
    let mut i: usize = 0;
    while i < new_p.len()
        invariant
            i <= new_p.len(),
            ov == policies_view(old_p@),
            nv == policies_view(new_p@),
            t == table_name@,
            f == (|p: PolicyDefView| policy_create_ops(t, ov, p)),
            ops_view(ops@) == start + concat_ops(nv.take(i as int), f),
        decreases new_p.len() - i,
    {
        let p = &new_p[i];
        proof {
            lemma_concat_ops_step(nv, f, i as int);
            lemma_lookup_map(old_p@, |x: PolicyDef| x@, p.name@);
            assert(old_p@.map_values(|x: PolicyDef| x@) =~= ov);
            assert(nv[i as int] == p@);
        }
        let unchanged = match lookup_entry(old_p, p.name.as_str()) {
            Some(o) => o.same_as(p),
            None => false,
        };
        if !unchanged {
            push_op(ops, Operation::CreatePolicy { table: table_name.to_string(), policy: p.duplicate() });
        }
        i = i + 1;
        assert(ops_view(ops@) =~= start + concat_ops(nv.take(i as int), f));
    }
    assert(nv.take(i as int) =~= nv);
}

/// Appends to `ops` the row-security operations that take `table_name` from
/// `old` to `new`.
pub fn diff_row_security_inner(
    ops: &mut Vec<Operation>,
    table_name: &str,
    old_rs: Option<&RowSecurity>,
    new_rs: Option<&RowSecurity>,
)
    ensures
        ops_view(final(ops)@) == ops_view(old(ops)@) + security_ops(
            table_name@,
            match old_rs {
                Some(rs) => Some(rs@),
                None => None,
            },
            match new_rs {
                Some(rs) => Some(rs@),
                None => None,
            },
        ),
{
    let ghost ov = match old_rs {
        Some(rs) => Some(rs@),
        None => None,
    };
    let ghost nv = match new_rs {
        Some(rs) => Some(rs@),
        None => None,
    };
    let ghost start = ops_view(ops@);
    let old_flags: Option<bool> = match old_rs {
        Some(rs) => Some(rs.force),
        None => None,
    };
    let new_flags: Option<bool> = match new_rs {
        Some(rs) => Some(rs.force),
        None => None,
    };
    if old_flags != new_flags {
        let force = match new_rs {
            Some(rs) => rs.force,
            None => false,
        };
        push_op(
            ops,
            Operation::AlterRowLevelSecurity {
                table: table_name.to_string(),
                enabled: new_rs.is_some(),
                force,
            },
        );
    }
    assert(ops_view(ops@) =~= start + security_flag_ops(table_name@, ov, nv));
    let ghost s1 = ops_view(ops@);
    let old_policies = by_name(old_rs);
    let new_policies = by_name(new_rs);
    push_policy_drops(ops, table_name, &old_policies, &new_policies);
    push_policy_creates(ops, table_name, &old_policies, &new_policies);
    assert(ops_view(ops@) =~= start + security_ops(table_name@, ov, nv));
}

/// The row-security operations that take `table_name` from its declaration
/// in `old` to the one in `new`.
pub fn diff_row_security(table_name: &str, old: &Snapshot, new: &Snapshot) -> (r: Vec<Operation>)
    requires
        snapshot_well_formed(old@),
        snapshot_well_formed(new@),
    ensures
        ops_view(r@) == security_ops(table_name@, snapshot_security(old@, table_name@), snapshot_security(new@, table_name@)),
{
    let mut ops: Vec<Operation> = Vec::new();
    proof {
        lemma_lookup_map(old.tables@, |x: SnapshotTable| x@, table_name@);
        lemma_lookup_map(new.tables@, |x: SnapshotTable| x@, table_name@);
        assert(old.tables@.map_values(|x: SnapshotTable| x@) =~= old@.tables);
        assert(new.tables@.map_values(|x: SnapshotTable| x@) =~= new@.tables);
        assert(ops_view(ops@) =~= Seq::<OperationView>::empty());
    }
    let old_rs = match lookup_entry(&old.tables, table_name) {
        Some(t) => t.row_security.as_ref(),
        None => None,
    };
    let new_rs = match lookup_entry(&new.tables, table_name) {
        Some(t) => t.row_security.as_ref(),
        None => None,
    };
    diff_row_security_inner(&mut ops, table_name, old_rs, new_rs);
    assert(ops_view(ops@) =~= security_ops(table_name@, snapshot_security(old@, table_name@), snapshot_security(new@, table_name@)));
    ops
}

/// A row-security declaration compared with itself gives no operation.
pub proof fn lemma_security_ops_identity(table: Seq<char>, sec: Option<RowSecurityView>)
    ensures
        security_ops(table, sec, sec).len() == 0,
{
    let m = policies_by_name(sec);
    if let Some(rs) = sec {
        lemma_keyed_from_sorted(rs.policies);
    }
    assert(strictly_sorted(keys_of(m)));
    let fd = |p: PolicyDefView| policy_drop_ops(table, m, p);
    let fc = |p: PolicyDefView| policy_create_ops(table, m, p);
    assert forall|i: int| 0 <= i < m.len() implies fd(#[trigger] m[i]).len() == 0 && fc(m[i]).len() == 0 by {
        lemma_find_key_sorted(m, i);
    }
    lemma_concat_ops_empty(m, fd);
    lemma_concat_ops_empty(m, fc);
}

/// Row security is switched on or off as the new schema says: every
/// `AlterRowLevelSecurity` of a table's row-security operations names that
/// table, is enabled exactly when the new schema declares row security for
/// it (whatever its `force` flag), and forces exactly when that declaration
/// forces. One comes first whenever the declaration appeared, vanished or
/// changed its `force` flag, and none otherwise.
pub proof fn lemma_security_ops_switch_follows_new(
    table: Seq<char>,
    old: Option<RowSecurityView>,
    new: Option<RowSecurityView>,
)
    ensures
        forall|m: int|
            0 <= m < security_ops(table, old, new).len() ==> (#[trigger] security_ops(table, old, new)[m] matches OperationView::AlterRowLevelSecurity {
                table: t,
                enabled,
                force,
            } ==> t == table && enabled == (new is Some) && force == (new matches Some(rs) && rs.force)),
        force_flag(old) != force_flag(new) <==> (security_ops(table, old, new).len() > 0 && security_ops(
            table,
            old,
            new,
        )[0] is AlterRowLevelSecurity),
{
    let op = policies_by_name(old);
    let np = policies_by_name(new);
    let fd = |p: PolicyDefView| policy_drop_ops(table, np, p);
    let fc = |p: PolicyDefView| policy_create_ops(table, op, p);
    let q = |o: OperationView| !(o is AlterRowLevelSecurity);
    assert forall|i: int, k: int| 0 <= i < op.len() && 0 <= k < fd(op[i]).len() implies q(#[trigger] fd(op[i])[k]) by {}
    assert forall|i: int, k: int| 0 <= i < np.len() && 0 <= k < fc(np[i]).len() implies q(#[trigger] fc(np[i])[k]) by {}
    lemma_concat_ops_all(op, fd, q);
    lemma_concat_ops_all(np, fc, q);
    let f = security_flag_ops(table, old, new);
    let a = concat_ops(op, fd);
    let b = concat_ops(np, fc);
    let all = security_ops(table, old, new);
    assert(all == f + a + b);
    assert forall|m: int| 0 <= m < all.len() && !(m < f.len()) implies q(#[trigger] all[m]) by {
        if m < f.len() + a.len() {
            assert(all[m] == a[m - f.len()]);
        } else {
            assert(all[m] == b[m - f.len() - a.len()]);
        }
    }
    assert forall|m: int| 0 <= m < all.len() && m < f.len() implies all[m] == #[trigger] f[m] by {}
    if force_flag(old) == force_flag(new) && all.len() > 0 {
        assert(q(all[0]));
    }
}

} // verus!
