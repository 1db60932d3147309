//! Validating FTS5 synchronization declarations, and planning the trigger
//! operations one diff needs.
//!
//! The rules overlap — a diff can recreate an FTS table *and* rebuild its
//! content table — so planning resolves per FTS table rather than per rule:
//! each contributes at most one `DropFts5SyncTriggers` and at most one
//! `CreateFts5SyncTriggers`.
use vstd::prelude::*;
use crate::error::DbCoreError;
use crate::fts5::{Fts5Sync, Fts5SyncView, FTS5_MODULE};
use crate::keyed::{Named, Keyed, lookup, has_key, keyed_from, build_keyed, lookup_entry, contains_key,
    keys_of, strictly_sorted, str_lt, lemma_str_lt_irreflexive, lemma_keyed_from_sorted, lemma_has_key,
    contains_str, lemma_lookup_map, lemma_keyed_from_map};
use crate::schema::{TableDef, TableDefView, SchemaRegistry, kind_module, tables_view};
use crate::snapshot::{Snapshot, SnapshotView, SnapshotTableView, snapshot_well_formed};
use crate::rename::pairs_view;
use crate::text::{strings_view, str_eq};
use super::operation::{Operation, OperationView, ops_view, concat_ops, push_op, lemma_concat_ops_step, lemma_concat_ops_index,
    lemma_concat_ops_all, lemma_concat_ops_sources};
use super::virtual_tables::{content_reason, content_table_reason};

verus! {

/// Why `table`'s synchronization declaration `sync` cannot become triggers
/// in the registry of `tables`; `None` when it can.
pub open spec fn sync_invalid_reason(table: TableDefView, sync: Fts5SyncView, tables: Seq<TableDefView>) -> Option<Seq<char>> {
    if kind_module(table.kind) != Some("fts5"@) {
        Some("only an fts5 virtual table can synchronize a content table"@)
    } else if sync.columns.len() == 0 {
        Some("it declares no columns, so there is nothing to synchronize"@)
    } else if sync.content_table.len() == 0 {
        Some("it sets no content table; a contentless index stores its own rows and needs no triggers"@)
    } else if sync.content_rowid.len() == 0 {
        Some("it sets no content_rowid; the update trigger has to name that column to watch it"@)
    } else {
        content_reason(tables, sync.content_table, sync.columns, Some(sync.content_rowid))
    }
}

/// Why this declaration cannot be synchronized, or `None` when it can.
pub fn invalid_reason(table: &TableDef, sync: &Fts5Sync, schema: &SchemaRegistry) -> (r: Option<String>)
    ensures
        match r {
            Some(s) => sync_invalid_reason(table@, sync@, tables_view(schema.tables@)) == Some(s@),
            None => sync_invalid_reason(table@, sync@, tables_view(schema.tables@)) is None,
        },
{
    let is_fts5 = match table.kind.module() {
        Some(m) => str_eq(m, FTS5_MODULE),
        None => false,
    };
    proof {
        reveal_strlit("fts5");
    }
    if !is_fts5 {
        return Some("only an fts5 virtual table can synchronize a content table".to_string());
    }
    if sync.columns.len() == 0 {
        return Some("it declares no columns, so there is nothing to synchronize".to_string());
    }
    if sync.content_table.as_str().is_empty() {
        return Some(
            "it sets no content table; a contentless index stores its own rows and needs no triggers".to_string(),
        );
    }
    if sync.content_rowid.as_str().is_empty() {
        return Some("it sets no content_rowid; the update trigger has to name that column to watch it".to_string());
    }
    content_table_reason(schema, sync.content_table.as_str(), &sync.columns, Some(&sync.content_rowid))
}

/// The first table of `tables` from position `k` on whose declaration cannot
/// be synchronized, as (table name, reason).
pub open spec fn schema_sync_problem(tables: Seq<TableDefView>, k: int) -> Option<(Seq<char>, Seq<char>)>
    decreases tables.len() - k,
{
    if k < 0 || k >= tables.len() {
        None
    } else {
        match tables[k].fts5_sync {
            Some(sync) => match sync_invalid_reason(tables[k], sync, tables) {
                Some(reason) => Some((tables[k].name, reason)),
                None => schema_sync_problem(tables, k + 1),
            },
            None => schema_sync_problem(tables, k + 1),
        }
    }
}

/// Rejects every declaration the generator cannot turn into triggers,
/// before any operation is produced — so a schema that cannot be
/// synchronized writes no migration at all.
///
/// # Errors
///
/// [`DbCoreError::Fts5SyncInvalid`] naming the first such table, in
/// declaration order, and the reason.
pub fn validate(schema: &SchemaRegistry) -> (r: Result<(), DbCoreError>)
    ensures
        r is Ok <==> schema_sync_problem(tables_view(schema.tables@), 0) is None,
        r matches Err(e) ==> e matches DbCoreError::Fts5SyncInvalid { table, reason }
            && schema_sync_problem(tables_view(schema.tables@), 0) == Some((table@, reason@)),
{
    let ghost tv = tables_view(schema.tables@);
    let mut i: usize = 0;
    while i < schema.tables.len()
        invariant
            i <= schema.tables.len(),
            tv == tables_view(schema.tables@),
            schema_sync_problem(tv, 0) == schema_sync_problem(tv, i as int),
        decreases schema.tables.len() - i,
    {
        let table = &schema.tables[i];
        assert(tv[i as int] == table@);
        match &table.fts5_sync {
            Some(sync) => match invalid_reason(table, sync, schema) {
                Some(reason) => {
                    return Err(DbCoreError::Fts5SyncInvalid { table: table.name.clone(), reason });
                },
                None => {},
            },
            None => {},
        }
        i = i + 1;
    }
    Ok(())
}

// ---------------------------------------------------------------------------
// Planning triggers

/// A synchronization declaration filed under its FTS table's name.
pub struct SyncEntry {
    pub table: String,
    pub sync: Fts5Sync,
}

/// What a [`SyncEntry`] says.
pub struct SyncEntryView {
    pub table: Seq<char>,
    pub sync: Fts5SyncView,
}

impl View for SyncEntry {
    type V = SyncEntryView;

    open spec fn view(&self) -> SyncEntryView {
        SyncEntryView { table: self.table@, sync: self.sync@ }
    }
}

impl Named for SyncEntry {
    open spec fn key_of(&self) -> Seq<char> {
        self.table@
    }
}

impl Keyed for SyncEntry {
    fn key(&self) -> (r: &str) {
        self.table.as_str()
    }
}

impl Named for SyncEntryView {
    open spec fn key_of(&self) -> Seq<char> {
        self.table
    }
}

/// The views of a sequence of entries.
pub open spec fn entries_view(s: Seq<SyncEntry>) -> Seq<SyncEntryView> {
    s.map_values(|x: SyncEntry| x@)
}

/// The declarations a snapshot's tables record, in their order.
pub open spec fn snapshot_sync_entries(t: Seq<SnapshotTableView>) -> Seq<SyncEntryView>
    decreases t.len(),
{
    if t.len() == 0 {
        seq![]
    } else {
        let rest = snapshot_sync_entries(t.drop_last());
        match t.last().fts5_sync {
            Some(s) => rest.push(SyncEntryView { table: t.last().name, sync: s }),
            None => rest,
        }
    }
}

/// The declarations a registry's tables hold, in declaration order.
pub open spec fn schema_sync_entries(t: Seq<TableDefView>) -> Seq<SyncEntryView>
    decreases t.len(),
{
    if t.len() == 0 {
        seq![]
    } else {
        let rest = schema_sync_entries(t.drop_last());
        match t.last().fts5_sync {
            Some(s) => rest.push(SyncEntryView { table: t.last().name, sync: s }),
            None => rest,
        }
    }
}

/// The declarations the old snapshot recorded, by the name they had then.
pub open spec fn old_sync_specs(s: SnapshotView) -> Seq<SyncEntryView> {
    keyed_from(snapshot_sync_entries(s.tables))
}

/// The declarations the registry now holds, by table name.
pub open spec fn new_sync_specs(tables: Seq<TableDefView>) -> Seq<SyncEntryView> {
    keyed_from(schema_sync_entries(tables))
}

/// The declarations the old snapshot recorded, by the name they had then.
pub fn old_specs(snapshot: &Snapshot) -> (r: Vec<SyncEntry>)
    requires
        snapshot_well_formed(snapshot@),
    ensures
        entries_view(r@) == old_sync_specs(snapshot@),
{
    let ghost tv = snapshot@.tables;
    let mut entries: Vec<SyncEntry> = Vec::new();
    let mut i: usize = 0;
    assert(tv.take(0) =~= Seq::<SnapshotTableView>::empty());
    while i < snapshot.tables.len()
        invariant
            i <= snapshot.tables.len(),
            tv == snapshot@.tables,
            entries_view(entries@) == snapshot_sync_entries(tv.take(i as int)),
        decreases snapshot.tables.len() - i,
    {
        let t = &snapshot.tables[i];
        assert(tv[i as int] == t@);
        assert(tv.take(i + 1).drop_last() =~= tv.take(i as int));
        match &t.fts5_sync {
            Some(s) => {
                let ghost prev = entries@;
                entries.push(SyncEntry { table: t.name.clone(), sync: s.duplicate() });
                assert(entries_view(entries@) =~= entries_view(prev).push(
                    SyncEntryView { table: t.name@, sync: s@ },
                ));
            },
            None => {},
        }
        i = i + 1;
    }
    assert(tv.take(i as int) =~= tv);
    let ghost ge = entries@;
    let r = build_keyed(entries);
    proof {
        let f = |x: SyncEntry| x@;
        lemma_keyed_from_map(ge, f);
        assert(ge.map_values(f) =~= entries_view(ge));
        assert(entries_view(r@) =~= keyed_from(ge).map_values(f));
    }
    r
}

/// The declarations the registry now holds.
pub fn new_specs(schema: &SchemaRegistry) -> (r: Vec<SyncEntry>)
    ensures
        entries_view(r@) == new_sync_specs(tables_view(schema.tables@)),
{
    let ghost tv = tables_view(schema.tables@);
    let mut entries: Vec<SyncEntry> = Vec::new();
    let mut i: usize = 0;
    assert(tv.take(0) =~= Seq::<TableDefView>::empty());
    while i < schema.tables.len()
        invariant
            i <= schema.tables.len(),
            tv == tables_view(schema.tables@),
            entries_view(entries@) == schema_sync_entries(tv.take(i as int)),
        decreases schema.tables.len() - i,
    {
        let t = &schema.tables[i];
        assert(tv[i as int] == t@);
        assert(tv.take(i + 1).drop_last() =~= tv.take(i as int));
        match &t.fts5_sync {
            Some(s) => {
                let ghost prev = entries@;
                entries.push(SyncEntry { table: t.name.clone(), sync: s.duplicate() });
                assert(entries_view(entries@) =~= entries_view(prev).push(
                    SyncEntryView { table: t.name@, sync: s@ },
                ));
            },
            None => {},
        }
        i = i + 1;
    }
    assert(tv.take(i as int) =~= tv);
    let ghost ge = entries@;
    let r = build_keyed(entries);
    proof {
        let f = |x: SyncEntry| x@;
        lemma_keyed_from_map(ge, f);
        assert(ge.map_values(f) =~= entries_view(ge));
        assert(entries_view(r@) =~= keyed_from(ge).map_values(f));
    }
    r
}

/// The old name of the first rename whose new name is `name`, or `name`:
/// what `name` was called before this diff, which is also the name its
/// triggers still carry (a rename renames the table, never its triggers).
pub open spec fn name_before(renames: Seq<(Seq<char>, Seq<char>)>, name: Seq<char>) -> Seq<char>
    decreases renames.len(),
{
    if renames.len() == 0 {
        name
    } else if renames[0].1 == name {
        renames[0].0
    } else {
        name_before(renames.drop_first(), name)
    }
}

/// The new name of the first rename whose old name is `name`, or `name`:
/// what `name` is called after this diff.
pub open spec fn name_after(renames: Seq<(Seq<char>, Seq<char>)>, name: Seq<char>) -> Seq<char>
    decreases renames.len(),
{
    if renames.len() == 0 {
        name
    } else if renames[0].0 == name {
        renames[0].1
    } else {
        name_after(renames.drop_first(), name)
    }
}

/// What `name` was called before this diff.
pub fn previous_name<'a>(renames: &'a Vec<(String, String)>, name: &'a str) -> (r: &'a str)
    ensures
        r@ == name_before(pairs_view(renames@), name@),
{
    let ghost pv = pairs_view(renames@);
    let mut i: usize = 0;
    assert(pv.skip(0) =~= pv);
    while i < renames.len()
        invariant
            i <= renames.len(),
            pv == pairs_view(renames@),
            name_before(pv, name@) == name_before(pv.skip(i as int), name@),
        decreases renames.len() - i,
    {
        assert(pv.skip(i as int)[0] == (renames@[i as int].0@, renames@[i as int].1@));
        assert(pv.skip(i as int).drop_first() =~= pv.skip(i + 1));
        if str_eq(renames[i].1.as_str(), name) {
            return renames[i].0.as_str();
        }
        i = i + 1;
    }
    assert(pv.skip(i as int) =~= Seq::<(Seq<char>, Seq<char>)>::empty());
    name
}

/// What `name` is called after this diff.
pub fn current_name<'a>(renames: &'a Vec<(String, String)>, name: &'a str) -> (r: &'a str)
    ensures
        r@ == name_after(pairs_view(renames@), name@),
{
    let ghost pv = pairs_view(renames@);
    let mut i: usize = 0;
    assert(pv.skip(0) =~= pv);
    while i < renames.len()
        invariant
            i <= renames.len(),
            pv == pairs_view(renames@),
            name_after(pv, name@) == name_after(pv.skip(i as int), name@),
        decreases renames.len() - i,
    {
        assert(pv.skip(i as int)[0] == (renames@[i as int].0@, renames@[i as int].1@));
        assert(pv.skip(i as int).drop_first() =~= pv.skip(i + 1));
        if str_eq(renames[i].0.as_str(), name) {
            return renames[i].1.as_str();
        }
        i = i + 1;
    }
    assert(pv.skip(i as int) =~= Seq::<(Seq<char>, Seq<char>)>::empty());
    name
}

/// The FTS tables the operations drop and recreate; their triggers go with
/// them.
pub open spec fn recreated_names(ops: Seq<OperationView>) -> Seq<Seq<char>>
    decreases ops.len(),
{
    if ops.len() == 0 {
        seq![]
    } else {
        let rest = recreated_names(ops.drop_last());
        match ops.last() {
            OperationView::RecreateFts5FromContent { table } => rest.push(table.name),
            _ => rest,
        }
    }
}

/// The tables an `AlterColumn` touches. On SQLite that is exactly the set
/// the generator rebuilds, and a rebuild's `DROP TABLE` takes every trigger
/// attached to the table with it.
pub open spec fn rebuilt_names(ops: Seq<OperationView>) -> Seq<Seq<char>>
    decreases ops.len(),
{
    if ops.len() == 0 {
        seq![]
    } else {
        let rest = rebuilt_names(ops.drop_last());
        match ops.last() {
            OperationView::AlterColumn { table, .. } => rest.push(table),
            _ => rest,
        }
    }
}

/// FTS tables this diff drops and recreates.
pub fn recreated_fts_tables(ops: &Vec<Operation>) -> (r: Vec<String>)
    ensures
        strings_view(r@) == recreated_names(ops_view(ops@)),
{
    let ghost ov = ops_view(ops@);
    let mut out: Vec<String> = Vec::new();
    let mut i: usize = 0;
    assert(ov.take(0) =~= Seq::<OperationView>::empty());
    while i < ops.len()
        invariant
            i <= ops.len(),
            ov == ops_view(ops@),
            strings_view(out@) == recreated_names(ov.take(i as int)),
        decreases ops.len() - i,
    {
        assert(ov.take(i + 1).drop_last() =~= ov.take(i as int));
        assert(ov[i as int] == ops@[i as int]@);
        match &ops[i] {
            Operation::RecreateFts5FromContent { table } => {
                let ghost prev = out@;
                out.push(table.name.clone());
                assert(strings_view(out@) =~= strings_view(prev).push(table.name@));
            },
            _ => {},
        }
        i = i + 1;
    }
    assert(ov.take(i as int) =~= ov);
    out
}

/// Tables an `AlterColumn` touches.
pub fn rebuilt_tables(ops: &Vec<Operation>) -> (r: Vec<String>)
    ensures
        strings_view(r@) == rebuilt_names(ops_view(ops@)),
{
    let ghost ov = ops_view(ops@);
    let mut out: Vec<String> = Vec::new();
    let mut i: usize = 0;
    assert(ov.take(0) =~= Seq::<OperationView>::empty());
    while i < ops.len()
        invariant
            i <= ops.len(),
            ov == ops_view(ops@),
            strings_view(out@) == rebuilt_names(ov.take(i as int)),
        decreases ops.len() - i,
    {
        assert(ov.take(i + 1).drop_last() =~= ov.take(i as int));
        assert(ov[i as int] == ops@[i as int]@);
        match &ops[i] {
            Operation::AlterColumn { table, .. } => {
                let ghost prev = out@;
                out.push(table.clone());
                assert(strings_view(out@) =~= strings_view(prev).push(table@));
            },
            _ => {},
        }
        i = i + 1;
    }
    assert(ov.take(i as int) =~= ov);
    out
}

/// Whether the declaration of `e` needs no new triggers: the old snapshot
/// recorded the same declaration under the same name, and this diff neither
/// recreates the FTS table nor rebuilds its content table.
pub open spec fn sync_unchanged(
    old_specs: Seq<SyncEntryView>,
    renames: Seq<(Seq<char>, Seq<char>)>,
    recreated: Seq<Seq<char>>,
    rebuilt: Seq<Seq<char>>,
    e: SyncEntryView,
) -> bool {
    let old_name = name_before(renames, e.table);
    &&& lookup(old_specs, old_name) matches Some(o) && o.sync == e.sync
    &&& old_name == e.table
    &&& !recreated.contains(e.table)
    &&& !rebuilt.contains(e.sync.content_table)
}

/// The drop one new declaration calls for: its old triggers, under the name
/// they still carry, when it changed and the old snapshot had some — unless
/// this diff creates the table.
pub open spec fn new_sync_drop_ops(
    old_specs: Seq<SyncEntryView>,
    renames: Seq<(Seq<char>, Seq<char>)>,
    recreated: Seq<Seq<char>>,
    rebuilt: Seq<Seq<char>>,
    added: Seq<Seq<char>>,
    e: SyncEntryView,
) -> Seq<OperationView> {
    let old_name = name_before(renames, e.table);
    if !sync_unchanged(old_specs, renames, recreated, rebuilt, e) && has_key(old_specs, old_name)
        && !added.contains(e.table) {
        seq![OperationView::DropFts5SyncTriggers { table: old_name }]
    } else {
        seq![]
    }
}

/// The creation one new declaration calls for: whenever it changed.
pub open spec fn new_sync_create_ops(
    old_specs: Seq<SyncEntryView>,
    renames: Seq<(Seq<char>, Seq<char>)>,
    recreated: Seq<Seq<char>>,
    rebuilt: Seq<Seq<char>>,
    e: SyncEntryView,
) -> Seq<OperationView> {
    if sync_unchanged(old_specs, renames, recreated, rebuilt, e) {
        seq![]
    } else {
        seq![OperationView::CreateFts5SyncTriggers { table: e.table, sync: e.sync }]
    }
}

/// The drop one old declaration calls for: when the registry no longer
/// declares the table under its current name.
pub open spec fn old_sync_drop_ops(
    new_specs: Seq<SyncEntryView>,
    renames: Seq<(Seq<char>, Seq<char>)>,
    e: SyncEntryView,
) -> Seq<OperationView> {
    if has_key(new_specs, name_after(renames, e.table)) {
        seq![]
    } else {
        seq![OperationView::DropFts5SyncTriggers { table: e.table }]
    }
}

/// The trigger operations of a diff: every drop — those the new
/// declarations call for, by name, then those of vanished old ones, by
/// name — then every creation, by name.
pub open spec fn trigger_ops(
    old_snapshot: SnapshotView,
    tables: Seq<TableDefView>,
    renames: Seq<(Seq<char>, Seq<char>)>,
    ops: Seq<OperationView>,
    added: Seq<Seq<char>>,
) -> Seq<OperationView> {
    let os = old_sync_specs(old_snapshot);
    let ns = new_sync_specs(tables);
    let rc = recreated_names(ops);
    let rb = rebuilt_names(ops);
    concat_ops(ns, |e: SyncEntryView| new_sync_drop_ops(os, renames, rc, rb, added, e)) + concat_ops(
        os,
        |e: SyncEntryView| old_sync_drop_ops(ns, renames, e),
    ) + concat_ops(ns, |e: SyncEntryView| new_sync_create_ops(os, renames, rc, rb, e))
}

/// Whether a new declaration needs no new triggers.
fn is_unchanged(
    old_specs: &Vec<SyncEntry>,
    renames: &Vec<(String, String)>,
    recreated: &Vec<String>,
    rebuilt: &Vec<String>,
    e: &SyncEntry,
) -> (r: bool)
    ensures
        r == sync_unchanged(
            entries_view(old_specs@),
            pairs_view(renames@),
            strings_view(recreated@),
            strings_view(rebuilt@),
            e@,
        ),
{
    let old_name = previous_name(renames, e.table.as_str());
    proof {
        lemma_lookup_map(old_specs@, |x: SyncEntry| x@, old_name@);
        assert(old_specs@.map_values(|x: SyncEntry| x@) =~= entries_view(old_specs@));
    }
    let same_spec = match lookup_entry(old_specs, old_name) {
        Some(o) => o.sync.same_as(&e.sync),
        None => false,
    };
    same_spec && str_eq(old_name, e.table.as_str()) && !contains_str(recreated, e.table.as_str())
        && !contains_str(rebuilt, e.sync.content_table.as_str())
}

/// Appends the drops the new declarations call for.
fn push_new_sync_drops(
    out: &mut Vec<Operation>,
    old_specs: &Vec<SyncEntry>,
    new_specs: &Vec<SyncEntry>,
    renames: &Vec<(String, String)>,
    recreated: &Vec<String>,
    rebuilt: &Vec<String>,
    added: &Vec<String>,
)
    ensures
        ops_view(final(out)@) == ops_view(old(out)@) + concat_ops(
            entries_view(new_specs@),
            |e: SyncEntryView| new_sync_drop_ops(
                entries_view(old_specs@),
                pairs_view(renames@),
                strings_view(recreated@),
                strings_view(rebuilt@),
                strings_view(added@),
                e,
            ),
        ),
{
    let ghost os = entries_view(old_specs@);
    let ghost ns = entries_view(new_specs@);
    let ghost rv = pairs_view(renames@);
    let ghost rc = strings_view(recreated@);
    let ghost rb = strings_view(rebuilt@);
    let ghost ad = strings_view(added@);
    let ghost f = |e: SyncEntryView| new_sync_drop_ops(os, rv, rc, rb, ad, e);
    let ghost start = ops_view(out@);
    assert(ns.take(0) =~= Seq::<SyncEntryView>::empty());
    let mut i: usize = 0;
    while i < new_specs.len()
        invariant
            i <= new_specs.len(),
            os == entries_view(old_specs@),
            ns == entries_view(new_specs@),
            rv == pairs_view(renames@),
            rc == strings_view(recreated@),
            rb == strings_view(rebuilt@),
            ad == strings_view(added@),
            f == (|e: SyncEntryView| new_sync_drop_ops(os, rv, rc, rb, ad, e)),
            ops_view(out@) == start + concat_ops(ns.take(i as int), f),
        decreases new_specs.len() - i,
    {
        let e = &new_specs[i];
        proof {
            lemma_concat_ops_step(ns, f, i as int);
            assert(ns[i as int] == e@);
        }
        let unchanged = is_unchanged(old_specs, renames, recreated, rebuilt, e);
        let old_name = previous_name(renames, e.table.as_str());
        proof {
            lemma_lookup_map(old_specs@, |x: SyncEntry| x@, old_name@);
            assert(old_specs@.map_values(|x: SyncEntry| x@) =~= os);
        }
        if !unchanged && contains_key(old_specs, old_name) && !contains_str(added, e.table.as_str()) {
            push_op(out, Operation::DropFts5SyncTriggers { table: old_name.to_string() });
        }
        i = i + 1;
        assert(ops_view(out@) =~= start + concat_ops(ns.take(i as int), f));
    }
    assert(ns.take(i as int) =~= ns);
}

/// Appends the drops of vanished old declarations.
fn push_old_sync_drops(
    out: &mut Vec<Operation>,
    old_specs: &Vec<SyncEntry>,
    new_specs: &Vec<SyncEntry>,
    renames: &Vec<(String, String)>,
)
    ensures
        ops_view(final(out)@) == ops_view(old(out)@) + concat_ops(
            entries_view(old_specs@),
            |e: SyncEntryView| old_sync_drop_ops(entries_view(new_specs@), pairs_view(renames@), e),
        ),
{
    let ghost os = entries_view(old_specs@);
    let ghost ns = entries_view(new_specs@);
    let ghost rv = pairs_view(renames@);
    let ghost f = |e: SyncEntryView| old_sync_drop_ops(ns, rv, e);
    let ghost start = ops_view(out@);
    assert(os.take(0) =~= Seq::<SyncEntryView>::empty());
    let mut i: usize = 0;
    while i < old_specs.len()
        invariant
            i <= old_specs.len(),
            os == entries_view(old_specs@),
            ns == entries_view(new_specs@),
            rv == pairs_view(renames@),
            f == (|e: SyncEntryView| old_sync_drop_ops(ns, rv, e)),
            ops_view(out@) == start + concat_ops(os.take(i as int), f),
        decreases old_specs.len() - i,
    {
        let e = &old_specs[i];
        let now = current_name(renames, e.table.as_str());
        proof {
            lemma_concat_ops_step(os, f, i as int);
            assert(os[i as int] == e@);
            lemma_lookup_map(new_specs@, |x: SyncEntry| x@, now@);
            assert(new_specs@.map_values(|x: SyncEntry| x@) =~= ns);
        }
        if !contains_key(new_specs, now) {
            push_op(out, Operation::DropFts5SyncTriggers { table: e.table.clone() });
        }
        i = i + 1;
        assert(ops_view(out@) =~= start + concat_ops(os.take(i as int), f));
    }
    assert(os.take(i as int) =~= os);
}

/// Appends the creations the new declarations call for.
fn push_new_sync_creates(
    out: &mut Vec<Operation>,
    old_specs: &Vec<SyncEntry>,
    new_specs: &Vec<SyncEntry>,
    renames: &Vec<(String, String)>,
    recreated: &Vec<String>,
    rebuilt: &Vec<String>,
)
    ensures
        ops_view(final(out)@) == ops_view(old(out)@) + concat_ops(
            entries_view(new_specs@),
            |e: SyncEntryView| new_sync_create_ops(
                entries_view(old_specs@),
                pairs_view(renames@),
                strings_view(recreated@),
                strings_view(rebuilt@),
                e,
            ),
        ),
{
    let ghost os = entries_view(old_specs@);
    let ghost ns = entries_view(new_specs@);
    let ghost rv = pairs_view(renames@);
    let ghost rc = strings_view(recreated@);
    let ghost rb = strings_view(rebuilt@);
    let ghost f = |e: SyncEntryView| new_sync_create_ops(os, rv, rc, rb, e);
    let ghost start = ops_view(out@);
    assert(ns.take(0) =~= Seq::<SyncEntryView>::empty());
    let mut i: usize = 0;
    while i < new_specs.len()
        invariant
            i <= new_specs.len(),
            os == entries_view(old_specs@),
            ns == entries_view(new_specs@),
            rv == pairs_view(renames@),
            rc == strings_view(recreated@),
            rb == strings_view(rebuilt@),
            f == (|e: SyncEntryView| new_sync_create_ops(os, rv, rc, rb, e)),
            ops_view(out@) == start + concat_ops(ns.take(i as int), f),
        decreases new_specs.len() - i,
    {
        let e = &new_specs[i];
        proof {
            lemma_concat_ops_step(ns, f, i as int);
            assert(ns[i as int] == e@);
        }
        if !is_unchanged(old_specs, renames, recreated, rebuilt, e) {
            push_op(out, Operation::CreateFts5SyncTriggers { table: e.table.clone(), sync: e.sync.duplicate() });
        }
        i = i + 1;
        assert(ops_view(out@) =~= start + concat_ops(ns.take(i as int), f));
    }
    assert(ns.take(i as int) =~= ns);
}

/// The trigger operations this diff needs, given the operations it has
/// already produced and the tables it creates.
pub fn trigger_operations(
    old_snapshot: &Snapshot,
    schema: &SchemaRegistry,
    renames: &Vec<(String, String)>,
    ops: &Vec<Operation>,
    added: &Vec<String>,
) -> (r: Vec<Operation>)
    requires
        snapshot_well_formed(old_snapshot@),
    ensures
        ops_view(r@) == trigger_ops(
            old_snapshot@,
            tables_view(schema.tables@),
            pairs_view(renames@),
            ops_view(ops@),
            strings_view(added@),
        ),
{
    let old_s = old_specs(old_snapshot);
    let new_s = new_specs(schema);
    let recreated = recreated_fts_tables(ops);
    let rebuilt = rebuilt_tables(ops);
    let mut out: Vec<Operation> = Vec::new();
    assert(ops_view(out@) =~= Seq::<OperationView>::empty());
    push_new_sync_drops(&mut out, &old_s, &new_s, renames, &recreated, &rebuilt, added);
    push_old_sync_drops(&mut out, &old_s, &new_s, renames);
    push_new_sync_creates(&mut out, &old_s, &new_s, renames, &recreated, &rebuilt);
    out
}

/// The table a trigger creation names; `None` for any other operation.
pub open spec fn created_trigger_table(op: OperationView) -> Option<Seq<char>> {
    match op {
        OperationView::CreateFts5SyncTriggers { table, .. } => Some(table),
        _ => None,
    }
}

/// The creations of a walk over declarations filed strictly by name name
/// tables of those declarations, each strictly after the one before.
proof fn lemma_creations_sorted(
    ns: Seq<SyncEntryView>,
    f: spec_fn(SyncEntryView) -> Seq<OperationView>,
)
    requires
        strictly_sorted(keys_of(ns)),
        forall|e: SyncEntryView| #[trigger] f(e).len() <= 1,
        forall|e: SyncEntryView|
            f(e).len() == 1 ==> #[trigger] created_trigger_table(f(e)[0]) == Some(e.table),
    ensures
        forall|k: int|
            0 <= k < concat_ops(ns, f).len() ==> (#[trigger] created_trigger_table(concat_ops(ns, f)[k]) matches Some(t)
                && keys_of(ns).contains(t)),
        forall|i: int, j: int|
            0 <= i < j < concat_ops(ns, f).len() ==> str_lt(
                (#[trigger] created_trigger_table(concat_ops(ns, f)[i]))->0,
                (#[trigger] created_trigger_table(concat_ops(ns, f)[j]))->0,
            ),
    decreases ns.len(),
{
    if ns.len() > 0 {
        let t = ns.drop_last();
        let last = ns.last();
        assert(keys_of(t) =~= keys_of(ns).drop_last());
        assert(strictly_sorted(keys_of(t)));
        lemma_creations_sorted(t, f);
        let c = concat_ops(ns, f);
        let ct = concat_ops(t, f);
        assert(f(last).len() <= 1);
        assert(keys_of(ns)[ns.len() - 1] == last.table);
        assert forall|k: int| 0 <= k < c.len() implies (#[trigger] created_trigger_table(c[k]) matches Some(n)
            && keys_of(ns).contains(n)) by {
            if k < ct.len() {
                assert(c[k] == ct[k]);
                let n = created_trigger_table(ct[k])->0;
                let p: int = choose|p: int| 0 <= p < keys_of(t).len() && keys_of(t)[p] == n;
                assert(keys_of(ns)[p] == n);
            } else {
                assert(c[k] == f(last)[0]);
            }
        }
        assert forall|i: int, j: int| 0 <= i < j < c.len() implies str_lt(
            (#[trigger] created_trigger_table(c[i]))->0,
            (#[trigger] created_trigger_table(c[j]))->0,
        ) by {
            if j < ct.len() {
                assert(c[i] == ct[i]);
                assert(c[j] == ct[j]);
            } else {
                assert(c[j] == f(last)[0]);
                assert(c[i] == ct[i]);
                let n = created_trigger_table(ct[i])->0;
                let p: int = choose|p: int| 0 <= p < keys_of(t).len() && keys_of(t)[p] == n;
                assert(keys_of(ns)[p] == n);
                assert(str_lt(keys_of(ns)[p], keys_of(ns)[ns.len() - 1]));
            }
        }
    }
}

/// A diff's trigger plan creates the triggers of each FTS table at most once.
pub proof fn lemma_one_trigger_creation_per_table(
    old_snapshot: SnapshotView,
    tables: Seq<TableDefView>,
    renames: Seq<(Seq<char>, Seq<char>)>,
    ops: Seq<OperationView>,
    added: Seq<Seq<char>>,
)
    ensures
        forall|i: int, j: int|
            0 <= i < j < trigger_ops(old_snapshot, tables, renames, ops, added).len()
                && (#[trigger] created_trigger_table(trigger_ops(old_snapshot, tables, renames, ops, added)[i])) is Some
                && (#[trigger] created_trigger_table(trigger_ops(old_snapshot, tables, renames, ops, added)[j])) is Some
                ==> created_trigger_table(trigger_ops(old_snapshot, tables, renames, ops, added)[i])
                != created_trigger_table(trigger_ops(old_snapshot, tables, renames, ops, added)[j]),
{
    let os = old_sync_specs(old_snapshot);
    let ns = new_sync_specs(tables);
    let rc = recreated_names(ops);
    let rb = rebuilt_names(ops);
    let fd = |e: SyncEntryView| new_sync_drop_ops(os, renames, rc, rb, added, e);
    let fo = |e: SyncEntryView| old_sync_drop_ops(ns, renames, e);
    let fc = |e: SyncEntryView| new_sync_create_ops(os, renames, rc, rb, e);
    let not_create = |op: OperationView| created_trigger_table(op) is None;
    lemma_concat_ops_all(ns, fd, not_create);
    lemma_concat_ops_all(os, fo, not_create);
    lemma_keyed_from_sorted(schema_sync_entries(tables));
    lemma_creations_sorted(ns, fc);
    let a = concat_ops(ns, fd) + concat_ops(os, fo);
    let c = concat_ops(ns, fc);
    let r = trigger_ops(old_snapshot, tables, renames, ops, added);
    assert(r == a + c);
    assert forall|i: int, j: int|
        0 <= i < j < r.len() && (#[trigger] created_trigger_table(r[i])) is Some
            && (#[trigger] created_trigger_table(r[j])) is Some implies created_trigger_table(r[i])
        != created_trigger_table(r[j]) by {
        let d1 = concat_ops(ns, fd);
        if i < a.len() {
            if i < d1.len() {
                assert(r[i] == d1[i]);
            } else {
                assert(r[i] == concat_ops(os, fo)[i - d1.len()]);
            }
        } else {
            if j < a.len() {
            } else {
                assert(r[i] == c[i - a.len()]);
                assert(r[j] == c[j - a.len()]);
                let x = created_trigger_table(c[i - a.len()])->0;
                assert(str_lt(x, created_trigger_table(c[j - a.len()])->0));
                lemma_str_lt_irreflexive(x);
            }
        }
    }
}

/// The table a trigger drop names; `None` for any other operation.
pub open spec fn dropped_trigger_table(op: OperationView) -> Option<Seq<char>> {
    match op {
        OperationView::DropFts5SyncTriggers { table } => Some(table),
        _ => None,
    }
}

/// Renames pair names one to one: no old name twice, no new name twice.
pub open spec fn renames_one_to_one(r: Seq<(Seq<char>, Seq<char>)>) -> bool {
    forall|i: int, j: int| 0 <= i < j < r.len() ==> (#[trigger] r[i]).0 != (#[trigger] r[j]).0 && r[i].1 != r[j].1
}

/// Under one-to-one renames, a rename's new name was called its old name,
/// and its old name is now called its new name.
proof fn lemma_rename_at(r: Seq<(Seq<char>, Seq<char>)>, i: int)
    requires
        renames_one_to_one(r),
        0 <= i < r.len(),
    ensures
        name_before(r, r[i].1) == r[i].0,
        name_after(r, r[i].0) == r[i].1,
    decreases i,
{
    if i > 0 {
        let t = r.drop_first();
        assert(r[0].0 != r[i].0 && r[0].1 != r[i].1);
        assert forall|a: int, b: int| 0 <= a < b < t.len() implies (#[trigger] t[a]).0 != (#[trigger] t[b]).0
            && t[a].1 != t[b].1 by {
            assert(t[a] == r[a + 1]);
            assert(t[b] == r[b + 1]);
        }
        assert(t[i - 1] == r[i]);
        lemma_rename_at(t, i - 1);
    }
}

/// A name no rename gives is not renamed from anything.
proof fn lemma_name_before_unrenamed(r: Seq<(Seq<char>, Seq<char>)>, a: Seq<char>)
    requires
        forall|i: int| 0 <= i < r.len() ==> (#[trigger] r[i]).1 != a,
    ensures
        name_before(r, a) == a,
    decreases r.len(),
{
    if r.len() > 0 {
        assert(r[0].1 != a);
        assert forall|i: int| 0 <= i < r.drop_first().len() implies (#[trigger] r.drop_first()[i]).1 != a by {
            assert(r.drop_first()[i] == r[i + 1]);
        }
        lemma_name_before_unrenamed(r.drop_first(), a);
    }
}

/// A name no rename takes away keeps its name.
proof fn lemma_name_after_unrenamed(r: Seq<(Seq<char>, Seq<char>)>, a: Seq<char>)
    requires
        forall|i: int| 0 <= i < r.len() ==> (#[trigger] r[i]).0 != a,
    ensures
        name_after(r, a) == a,
    decreases r.len(),
{
    if r.len() > 0 {
        assert(r[0].0 != a);
        assert forall|i: int| 0 <= i < r.drop_first().len() implies (#[trigger] r.drop_first()[i]).0 != a by {
            assert(r.drop_first()[i] == r[i + 1]);
        }
        lemma_name_after_unrenamed(r.drop_first(), a);
    }
}

/// No rename takes away a name that `names` holds.
pub open spec fn renames_keep(r: Seq<(Seq<char>, Seq<char>)>, names: Seq<Seq<char>>) -> bool {
    forall|i: int| 0 <= i < r.len() ==> !names.contains(#[trigger] r[i].0)
}

/// Under one-to-one renames that take no declared name away, two declared
/// names were called by two names, and each declared name is what its old
/// name is now called.
proof fn lemma_names_before(r: Seq<(Seq<char>, Seq<char>)>, names: Seq<Seq<char>>, a: Seq<char>, b: Seq<char>)
    requires
        renames_one_to_one(r),
        renames_keep(r, names),
        names.contains(a),
        names.contains(b),
    ensures
        a != b ==> name_before(r, a) != name_before(r, b),
        name_after(r, name_before(r, a)) == a,
{
    if exists|i: int| 0 <= i < r.len() && (#[trigger] r[i]).1 == a {
        let i: int = choose|i: int| 0 <= i < r.len() && (#[trigger] r[i]).1 == a;
        lemma_rename_at(r, i);
        if exists|j: int| 0 <= j < r.len() && (#[trigger] r[j]).1 == b {
            let j: int = choose|j: int| 0 <= j < r.len() && (#[trigger] r[j]).1 == b;
            lemma_rename_at(r, j);
            if a != b {
                assert(i != j);
                if i < j {
                    assert(r[i].0 != r[j].0);
                } else {
                    assert(r[j].0 != r[i].0);
                }
            }
        } else {
            lemma_name_before_unrenamed(r, b);
            assert(!names.contains(r[i].0));
        }
    } else {
        lemma_name_before_unrenamed(r, a);
        assert forall|k: int| 0 <= k < r.len() implies (#[trigger] r[k]).0 != a by {
            assert(!names.contains(r[k].0));
        }
        lemma_name_after_unrenamed(r, a);
        if exists|j: int| 0 <= j < r.len() && (#[trigger] r[j]).1 == b {
            let j: int = choose|j: int| 0 <= j < r.len() && (#[trigger] r[j]).1 == b;
            lemma_rename_at(r, j);
            assert(!names.contains(r[j].0));
        } else {
            lemma_name_before_unrenamed(r, b);
        }
    }
}

/// A diff's trigger plan drops the triggers of each FTS table at most once,
/// given renames that pair names one to one and take no declared FTS table's
/// name away (as a rename of a removed table to an added one does).
pub proof fn lemma_one_trigger_drop_per_table(
    old_snapshot: SnapshotView,
    tables: Seq<TableDefView>,
    renames: Seq<(Seq<char>, Seq<char>)>,
    ops: Seq<OperationView>,
    added: Seq<Seq<char>>,
)
    requires
        renames_one_to_one(renames),
        renames_keep(renames, keys_of(new_sync_specs(tables))),
    ensures
        forall|i: int, j: int|
            0 <= i < j < trigger_ops(old_snapshot, tables, renames, ops, added).len()
                && (#[trigger] dropped_trigger_table(trigger_ops(old_snapshot, tables, renames, ops, added)[i])) is Some
                && (#[trigger] dropped_trigger_table(trigger_ops(old_snapshot, tables, renames, ops, added)[j])) is Some
                ==> dropped_trigger_table(trigger_ops(old_snapshot, tables, renames, ops, added)[i])
                != dropped_trigger_table(trigger_ops(old_snapshot, tables, renames, ops, added)[j]),
{
    let os = old_sync_specs(old_snapshot);
    let ns = new_sync_specs(tables);
    let rc = recreated_names(ops);
    let rb = rebuilt_names(ops);
    let ks = keys_of(ns);
    let fd = |e: SyncEntryView| new_sync_drop_ops(os, renames, rc, rb, added, e);
    let fo = |e: SyncEntryView| old_sync_drop_ops(ns, renames, e);
    let fc = |e: SyncEntryView| new_sync_create_ops(os, renames, rc, rb, e);
    let not_drop = |op: OperationView| dropped_trigger_table(op) is None;
    lemma_concat_ops_all(ns, fc, not_drop);
    lemma_keyed_from_sorted(schema_sync_entries(tables));
    lemma_keyed_from_sorted(snapshot_sync_entries(old_snapshot.tables));
    lemma_concat_ops_sources(ns, fd);
    lemma_concat_ops_sources(os, fo);
    let d1 = concat_ops(ns, fd);
    let d2 = concat_ops(os, fo);
    let c = concat_ops(ns, fc);
    let r = trigger_ops(old_snapshot, tables, renames, ops, added);
    assert(r == d1 + d2 + c);
    assert forall|i: int, j: int|
        0 <= i < j < r.len() && (#[trigger] dropped_trigger_table(r[i])) is Some
            && (#[trigger] dropped_trigger_table(r[j])) is Some implies dropped_trigger_table(r[i])
        != dropped_trigger_table(r[j]) by {
        if j >= d1.len() + d2.len() {
            assert(r[j] == c[j - d1.len() - d2.len()]);
        } else if i >= d1.len() + d2.len() {
        } else if j < d1.len() {
            assert(r[i] == d1[i]);
            assert(r[j] == d1[j]);
            let (a, b): (int, int) = choose|a: int, b: int|
                0 <= a < b < ns.len() && fd(ns[a]).len() == 1 && fd(ns[b]).len() == 1 && d1[i] == fd(ns[a])[0]
                    && d1[j] == fd(ns[b])[0];
            assert(str_lt(ks[a], ks[b]));
            lemma_str_lt_irreflexive(ks[a]);
            assert(ks.contains(ks[a]) && ks.contains(ks[b]));
            lemma_names_before(renames, ks, ns[a].table, ns[b].table);
        } else if i >= d1.len() {
            assert(r[i] == d2[i - d1.len()]);
            assert(r[j] == d2[j - d1.len()]);
            let (a, b): (int, int) = choose|a: int, b: int|
                0 <= a < b < os.len() && fo(os[a]).len() == 1 && fo(os[b]).len() == 1 && d2[i - d1.len()]
                    == fo(os[a])[0] && d2[j - d1.len()] == fo(os[b])[0];
            assert(str_lt(keys_of(os)[a], keys_of(os)[b]));
            lemma_str_lt_irreflexive(keys_of(os)[a]);
        } else {
            assert(r[i] == d1[i]);
            assert(r[j] == d2[j - d1.len()]);
            let a: int = choose|a: int| 0 <= a < ns.len() && fd(ns[a]).len() == 1 && d1[i] == fd(ns[a])[0];
            let b: int = choose|b: int| 0 <= b < os.len() && fo(os[b]).len() == 1 && d2[j - d1.len()] == fo(os[b])[0];
            assert(ks[a] == ns[a].table);
            assert(ks.contains(ns[a].table));
            lemma_names_before(renames, ks, ns[a].table, ns[a].table);
            if name_before(renames, ns[a].table) == os[b].table {
                lemma_has_key(ns, ns[a].table);
            }
        }
    }
}

proof fn lemma_rebuilt_names_has(ops: Seq<OperationView>, i: int)
    requires
        0 <= i < ops.len(),
        ops[i] is AlterColumn,
    ensures
        rebuilt_names(ops).contains(ops[i]->AlterColumn_table),
    decreases ops.len(),
{
    let rest = rebuilt_names(ops.drop_last());
    if i == ops.len() - 1 {
        assert(rebuilt_names(ops) == rest.push(ops[i]->AlterColumn_table));
        assert(rebuilt_names(ops)[rest.len() as int] == ops[i]->AlterColumn_table);
    } else {
        assert(ops.drop_last()[i] == ops[i]);
        lemma_rebuilt_names_has(ops.drop_last(), i);
        let k: int = choose|k: int| 0 <= k < rest.len() && rest[k] == ops[i]->AlterColumn_table;
        match ops.last() {
            OperationView::AlterColumn { table, .. } => {
                assert(rebuilt_names(ops)[k] == rest[k]);
            },
            _ => {},
        }
    }
}

/// A content table the diff alters is rebuilt, and the rebuild's `DROP TABLE`
/// takes the synchronization triggers with it: whenever some operation of
/// the diff alters the content table of a declared synchronization, the
/// trigger plan creates that FTS table's triggers again, whatever else
/// changed or stayed.
pub proof fn lemma_rebuilt_content_table_gets_triggers(
    old_snapshot: SnapshotView,
    tables: Seq<TableDefView>,
    renames: Seq<(Seq<char>, Seq<char>)>,
    ops: Seq<OperationView>,
    added: Seq<Seq<char>>,
    j: int,
    i: int,
)
    requires
        0 <= j < new_sync_specs(tables).len(),
        0 <= i < ops.len(),
        ops[i] matches OperationView::AlterColumn { table, .. } && table == new_sync_specs(tables)[j].sync.content_table,
    ensures
        exists|m: int|
            0 <= m < trigger_ops(old_snapshot, tables, renames, ops, added).len() && #[trigger] trigger_ops(
                old_snapshot,
                tables,
                renames,
                ops,
                added,
            )[m] == (OperationView::CreateFts5SyncTriggers {
                table: new_sync_specs(tables)[j].table,
                sync: new_sync_specs(tables)[j].sync,
            }),
{
    let os = old_sync_specs(old_snapshot);
    let ns = new_sync_specs(tables);
    let rc = recreated_names(ops);
    let rb = rebuilt_names(ops);
    let e = ns[j];
    lemma_rebuilt_names_has(ops, i);
    assert(!sync_unchanged(os, renames, rc, rb, e));
    let fd = |e: SyncEntryView| new_sync_drop_ops(os, renames, rc, rb, added, e);
    let fo = |e: SyncEntryView| old_sync_drop_ops(ns, renames, e);
    let fc = |e: SyncEntryView| new_sync_create_ops(os, renames, rc, rb, e);
    assert(fc(e) == seq![OperationView::CreateFts5SyncTriggers { table: e.table, sync: e.sync }]);
    let m0 = lemma_concat_ops_index(ns, fc, j, 0);
    let a = concat_ops(ns, fd) + concat_ops(os, fo);
    let all = trigger_ops(old_snapshot, tables, renames, ops, added);
    assert(all == a + concat_ops(ns, fc));
    assert(all[a.len() + m0] == concat_ops(ns, fc)[m0]);
}

} // verus!
