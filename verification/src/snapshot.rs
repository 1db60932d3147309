//! The schema as a migration last saw it: every table and enum filed by
//! name, each table's columns, indexes, foreign keys and CHECK constraints
//! filed by name too, the way the diff walks them.
use vstd::prelude::*;
use crate::column::{ColumnDef, ColumnDefView};
use crate::fts5::{Fts5Sync, Fts5SyncView};
use crate::keyed::{Named, Keyed, keyed_from, keys_of, strictly_sorted, build_keyed, is_strictly_sorted,
    lemma_keyed_from_map, lemma_keyed_from_sorted, lemma_keys_map};
use crate::schema::{
    IndexDef, IndexDefView, ForeignKeyDef, ForeignKeyDefView, EnumDef, EnumDefView, TableKind,
    TableKindView, RowSecurity, RowSecurityView, TableDef, TableDefView, SchemaRegistry,
    columns_view, indexes_view, fks_view, checks_view, opt_rs_view, opt_sync_view, tables_view,
    enums_view, copy_columns, copy_indexes, copy_fks, copy_checks,
};
use crate::text::strings_view;

verus! {

/// One table as the snapshot records it.
#[derive(Debug)]
pub struct SnapshotTable {
    pub name: String,
    /// Filed by column name.
    pub columns: Vec<ColumnDef>,
    /// The column names in declaration order.
    pub column_order: Vec<String>,
    /// Filed by index name.
    pub indexes: Vec<IndexDef>,
    /// Filed by constraint name.
    pub foreign_keys: Vec<ForeignKeyDef>,
    /// `(name, expression)`, filed by name.
    pub check_constraints: Vec<(String, String)>,
    pub kind: TableKind,
    pub row_security: Option<RowSecurity>,
    pub fts5_sync: Option<Fts5Sync>,
}

/// What a [`SnapshotTable`] records.
pub struct SnapshotTableView {
    pub name: Seq<char>,
    pub columns: Seq<ColumnDefView>,
    pub column_order: Seq<Seq<char>>,
    pub indexes: Seq<IndexDefView>,
    pub foreign_keys: Seq<ForeignKeyDefView>,
    pub check_constraints: Seq<(Seq<char>, Seq<char>)>,
    pub kind: TableKindView,
    pub row_security: Option<RowSecurityView>,
    pub fts5_sync: Option<Fts5SyncView>,
}

impl View for SnapshotTable {
    type V = SnapshotTableView;

    open spec fn view(&self) -> SnapshotTableView {
        SnapshotTableView {
            name: self.name@,
            columns: columns_view(self.columns@),
            column_order: strings_view(self.column_order@),
            indexes: indexes_view(self.indexes@),
            foreign_keys: fks_view(self.foreign_keys@),
            check_constraints: checks_view(self.check_constraints@),
            kind: self.kind@,
            row_security: opt_rs_view(self.row_security),
            fts5_sync: opt_sync_view(self.fts5_sync),
        }
    }
}

impl Named for SnapshotTable {
    open spec fn key_of(&self) -> Seq<char> {
        self.name@
    }
}

impl Keyed for SnapshotTable {
    fn key(&self) -> (r: &str) {
        self.name.as_str()
    }
}

impl Named for SnapshotTableView {
    open spec fn key_of(&self) -> Seq<char> {
        self.name
    }
}

/// Every collection of the table is filed strictly by name.
pub open spec fn table_well_formed(t: SnapshotTableView) -> bool {
    &&& strictly_sorted(keys_of(t.columns))
    &&& strictly_sorted(keys_of(t.indexes))
    &&& strictly_sorted(keys_of(t.foreign_keys))
    &&& strictly_sorted(keys_of(t.check_constraints))
}

/// What a table of the schema is recorded as.
pub open spec fn table_snapshot(t: TableDefView) -> SnapshotTableView {
    SnapshotTableView {
        name: t.name,
        columns: keyed_from(t.columns),
        column_order: t.columns.map_values(|c: ColumnDefView| c.name),
        indexes: keyed_from(t.indexes),
        foreign_keys: keyed_from(t.foreign_keys),
        check_constraints: keyed_from(t.check_constraints),
        kind: t.kind,
        row_security: t.row_security,
        fts5_sync: t.fts5_sync,
    }
}

/// The views of a sequence of snapshot tables.
pub open spec fn snapshot_tables_view(s: Seq<SnapshotTable>) -> Seq<SnapshotTableView> {
    s.map_values(|x: SnapshotTable| x@)
}

/// Every table and enum the schema had, filed by name.
#[derive(Debug)]
pub struct Snapshot {
    pub tables: Vec<SnapshotTable>,
    pub enums: Vec<EnumDef>,
}

/// What a [`Snapshot`] records.
pub struct SnapshotView {
    pub tables: Seq<SnapshotTableView>,
    pub enums: Seq<EnumDefView>,
}

impl View for Snapshot {
    type V = SnapshotView;

    open spec fn view(&self) -> SnapshotView {
        SnapshotView {
            tables: snapshot_tables_view(self.tables@),
            enums: enums_view(self.enums@),
        }
    }
}

/// Tables and enums are filed strictly by name, and so is every table's
/// content.
pub open spec fn snapshot_well_formed(s: SnapshotView) -> bool {
    &&& strictly_sorted(keys_of(s.tables))
    &&& strictly_sorted(keys_of(s.enums))
    &&& forall|i: int| 0 <= i < s.tables.len() ==> table_well_formed(#[trigger] s.tables[i])
}

/// What a registry of `tables` and `enums` is recorded as; of two tables or
/// enums of one name the later one stays.
pub open spec fn registry_snapshot(tables: Seq<TableDefView>, enums: Seq<EnumDefView>) -> SnapshotView {
    SnapshotView {
        tables: keyed_from(tables.map_values(|t: TableDefView| table_snapshot(t))),
        enums: keyed_from(enums),
    }
}

/// A recorded table is well formed.
pub proof fn lemma_table_snapshot_well_formed(t: TableDefView)
    ensures
        table_well_formed(table_snapshot(t)),
{
    lemma_keyed_from_sorted(t.columns);
    lemma_keyed_from_sorted(t.indexes);
    lemma_keyed_from_sorted(t.foreign_keys);
    lemma_keyed_from_sorted(t.check_constraints);
}

/// What a registry is recorded as is well formed.
pub proof fn lemma_registry_snapshot_well_formed(tables: Seq<TableDefView>, enums: Seq<EnumDefView>)
    ensures
        snapshot_well_formed(registry_snapshot(tables, enums)),
{
    let s = registry_snapshot(tables, enums);
    let mapped = tables.map_values(|t: TableDefView| table_snapshot(t));
    lemma_keyed_from_sorted(mapped);
    lemma_keyed_from_sorted(enums);
    lemma_keyed_from_members(mapped);
    assert forall|i: int| 0 <= i < s.tables.len() implies table_well_formed(#[trigger] s.tables[i]) by {
        let j: int = choose|j: int| 0 <= j < mapped.len() && mapped[j] == s.tables[i];
        lemma_table_snapshot_well_formed(tables[j]);
    }
}

/// Every entry filed from `s` is an entry of `s`.
pub proof fn lemma_keyed_from_members<T: Named>(s: Seq<T>)
    ensures
        forall|i: int|
            0 <= i < keyed_from(s).len() ==> exists|j: int|
                0 <= j < s.len() && s[j] == #[trigger] keyed_from(s)[i],
    decreases s.len(),
{
    if s.len() > 0 {
        lemma_keyed_from_members(s.drop_last());
        lemma_sorted_insert_members(keyed_from(s.drop_last()), s.last());
        assert forall|i: int| 0 <= i < keyed_from(s).len() implies exists|j: int|
            0 <= j < s.len() && s[j] == #[trigger] keyed_from(s)[i] by {
            let e = keyed_from(s)[i];
            if e != s.last() {
                let p: int = choose|p: int| 0 <= p < keyed_from(s.drop_last()).len() && keyed_from(s.drop_last())[p] == e;
                let j: int = choose|j: int| 0 <= j < s.drop_last().len() && s.drop_last()[j] == keyed_from(s.drop_last())[p];
                assert(s[j] == e);
            } else {
                assert(s[s.len() - 1] == e);
            }
        }
    }
}

/// Every entry after filing is the new one or an old one.
pub proof fn lemma_sorted_insert_members<T: Named>(s: Seq<T>, x: T)
    ensures
        forall|i: int|
            0 <= i < crate::keyed::sorted_insert(s, x).len() ==> (#[trigger] crate::keyed::sorted_insert(s, x)[i] == x
                || exists|p: int| 0 <= p < s.len() && s[p] == crate::keyed::sorted_insert(s, x)[i]),
    decreases s.len(),
{
    let r = crate::keyed::sorted_insert(s, x);
    if s.len() > 0 {
        lemma_sorted_insert_members(s.drop_first(), x);
        assert forall|i: int| 0 <= i < r.len() implies (#[trigger] r[i] == x || exists|p: int|
            0 <= p < s.len() && s[p] == r[i]) by {
            if r[i] != x {
                if s[0].key_of() == x.key_of() {
                    assert(s[i] == r[i]);
                } else if crate::keyed::str_lt(x.key_of(), s[0].key_of()) {
                    assert(s[i - 1] == r[i]);
                } else if i == 0 {
                    assert(s[0] == r[0]);
                } else {
                    let rt = crate::keyed::sorted_insert(s.drop_first(), x);
                    assert(r[i] == rt[i - 1]);
                    let p: int = choose|p: int| 0 <= p < s.drop_first().len() && s.drop_first()[p] == rt[i - 1];
                    assert(s[p + 1] == r[i]);
                }
            }
        }
    }
}

impl SnapshotTable {
    /// How `table` is recorded.
    pub fn from_table(table: &TableDef) -> (r: SnapshotTable)
        ensures
            r@ == table_snapshot(table@),
    {
        let cc = copy_columns(&table.columns);
        let ci = copy_indexes(&table.indexes);
        let cf = copy_fks(&table.foreign_keys);
        let ck = copy_checks(&table.check_constraints);
        let ghost (gc, gi, gf, gk) = (cc@, ci@, cf@, ck@);
        let columns = build_keyed(cc);
        let indexes = build_keyed(ci);
        let foreign_keys = build_keyed(cf);
        let check_constraints = build_keyed(ck);
        let mut order: Vec<String> = Vec::new();
        let mut i: usize = 0;
        while i < table.columns.len()
            invariant
                i <= table.columns.len(),
                strings_view(order@) == table@.columns.take(i as int).map_values(
                    |c: ColumnDefView| c.name,
                ),
            decreases table.columns.len() - i,
        {
            let ghost prev = order@;
            order.push(table.columns[i].name.clone());
            assert(table@.columns[i as int].name == table.columns@[i as int].name@);
            assert(strings_view(order@) =~= strings_view(prev).push(table.columns@[i as int].name@));
            assert(table@.columns.take(i + 1) =~= table@.columns.take(i as int).push(table@.columns[i as int]));
            i = i + 1;
            assert(strings_view(order@) =~= table@.columns.take(i as int).map_values(
                |c: ColumnDefView| c.name,
            ));
        }
        assert(table@.columns.take(i as int) =~= table@.columns);
        proof {
            let fc = |x: ColumnDef| x@;
            let fi = |x: IndexDef| x@;
            let ff = |x: ForeignKeyDef| x@;
            let fk = |x: (String, String)| (x.0@, x.1@);
            lemma_keyed_from_map(gc, fc);
            lemma_keyed_from_map(gi, fi);
            lemma_keyed_from_map(gf, ff);
            lemma_keyed_from_map(gk, fk);
            assert(gc.map_values(fc) =~= columns_view(gc));
            assert(gi.map_values(fi) =~= indexes_view(gi));
            assert(gf.map_values(ff) =~= fks_view(gf));
            assert(gk.map_values(fk) =~= checks_view(gk));
            assert(columns_view(columns@) =~= keyed_from(gc).map_values(fc));
            assert(indexes_view(indexes@) =~= keyed_from(gi).map_values(fi));
            assert(fks_view(foreign_keys@) =~= keyed_from(gf).map_values(ff));
            assert(checks_view(check_constraints@) =~= keyed_from(gk).map_values(fk));
        }
        let r = SnapshotTable {
            name: table.name.clone(),
            columns,
            column_order: order,
            indexes,
            foreign_keys,
            check_constraints,
            kind: table.kind.duplicate(),
            row_security: match &table.row_security {
                Some(rs) => Some(rs.duplicate()),
                None => None,
            },
            fts5_sync: match &table.fts5_sync {
                Some(s) => Some(s.duplicate()),
                None => None,
            },
        };
        assert(r@.columns =~= table_snapshot(table@).columns);
        assert(r@.indexes =~= table_snapshot(table@).indexes);
        assert(r@.foreign_keys =~= table_snapshot(table@).foreign_keys);
        assert(r@.check_constraints =~= table_snapshot(table@).check_constraints);
        r
    }
}

impl SnapshotTable {
    /// Whether every collection of this table is filed strictly by name, as
    /// a by-name map keeps it. A table read from elsewhere is checked here
    /// before a diff relies on it.
    pub fn is_well_formed(&self) -> (r: bool)
        ensures
            r == table_well_formed(self@),
    {
        proof {
            lemma_keys_map(self.columns@, |x: ColumnDef| x@);
            lemma_keys_map(self.indexes@, |x: IndexDef| x@);
            lemma_keys_map(self.foreign_keys@, |x: ForeignKeyDef| x@);
            lemma_keys_map(self.check_constraints@, |x: (String, String)| (x.0@, x.1@));
        }
        is_strictly_sorted(&self.columns) && is_strictly_sorted(&self.indexes) && is_strictly_sorted(
            &self.foreign_keys,
        ) && is_strictly_sorted(&self.check_constraints)
    }
}

impl Snapshot {
    /// Whether tables and enums are filed strictly by name and so is every
    /// table's content: what the diff requires of a snapshot. A snapshot read
    /// from elsewhere (from disk, say) is checked here before it is diffed.
    pub fn is_well_formed(&self) -> (r: bool)
        ensures
            r == snapshot_well_formed(self@),
    {
        proof {
            lemma_keys_map(self.tables@, |x: SnapshotTable| x@);
            lemma_keys_map(self.enums@, |x: EnumDef| x@);
        }
        if !is_strictly_sorted(&self.tables) || !is_strictly_sorted(&self.enums) {
            return false;
        }
        let mut i: usize = 0;
        while i < self.tables.len()
            invariant
                i <= self.tables@.len(),
                forall|k: int| 0 <= k < i ==> table_well_formed(#[trigger] self@.tables[k]),
            decreases self.tables.len() - i,
        {
            if !self.tables[i].is_well_formed() {
                assert(!table_well_formed(self@.tables[i as int]));
                return false;
            }
            i = i + 1;
        }
        true
    }

    /// A snapshot of nothing: the state before the first migration.
    pub fn empty() -> (r: Snapshot)
        ensures
            r@.tables.len() == 0,
            r@.enums.len() == 0,
            snapshot_well_formed(r@),
    {
        let r = Snapshot { tables: Vec::new(), enums: Vec::new() };
        assert(keys_of(r@.tables) =~= Seq::<Seq<char>>::empty());
        assert(keys_of(r@.enums) =~= Seq::<Seq<char>>::empty());
        r
    }

    /// How `schema` is recorded: every table and enum filed by name, a later
    /// one replacing an earlier one of the same name.
    pub fn from_registry(schema: &SchemaRegistry) -> (r: Snapshot)
        ensures
            r@ == registry_snapshot(tables_view(schema.tables@), enums_view(schema.enums@)),
            snapshot_well_formed(r@),
    {
        proof {
            lemma_registry_snapshot_well_formed(tables_view(schema.tables@), enums_view(schema.enums@));
        }
        let ghost tv = tables_view(schema.tables@);
        let mut tabs: Vec<SnapshotTable> = Vec::new();
        let mut i: usize = 0;
        while i < schema.tables.len()
            invariant
                i <= schema.tables.len(),
                tv == tables_view(schema.tables@),
                snapshot_tables_view(tabs@) == tv.take(i as int).map_values(|t: TableDefView| table_snapshot(t)),
            decreases schema.tables.len() - i,
        {
            let ghost prev = tabs@;
            tabs.push(SnapshotTable::from_table(&schema.tables[i]));
            assert(tv[i as int] == schema.tables@[i as int]@);
            assert(tv.take(i + 1) =~= tv.take(i as int).push(tv[i as int]));
            assert(snapshot_tables_view(tabs@) =~= snapshot_tables_view(prev).push(
                table_snapshot(tv[i as int]),
            ));
            i = i + 1;
            assert(snapshot_tables_view(tabs@) =~= tv.take(i as int).map_values(|t: TableDefView| table_snapshot(t)));
        }
        assert(tv.take(i as int) =~= tv);
        let mut ens: Vec<EnumDef> = Vec::new();
        let mut j: usize = 0;
        while j < schema.enums.len()
            invariant
                j <= schema.enums.len(),
                enums_view(ens@) == enums_view(schema.enums@.take(j as int)),
            decreases schema.enums.len() - j,
        {
            let ghost prev = ens@;
            ens.push(schema.enums[j].duplicate());
            j = j + 1;
            assert(enums_view(schema.enums@.take(j as int)) =~= enums_view(
                schema.enums@.take((j - 1) as int),
            ).push(schema.enums@[j - 1]@));
            assert(enums_view(ens@) =~= enums_view(prev).push(schema.enums@[j - 1]@));
        }
        assert(schema.enums@.take(j as int) =~= schema.enums@);
        let ghost (gt, ge) = (tabs@, ens@);
        let tables = build_keyed(tabs);
        let enums = build_keyed(ens);
        proof {
            let ft = |x: SnapshotTable| x@;
            let fe = |x: EnumDef| x@;
            lemma_keyed_from_map(gt, ft);
            lemma_keyed_from_map(ge, fe);
            assert(gt.map_values(ft) =~= snapshot_tables_view(gt));
            assert(ge.map_values(fe) =~= enums_view(ge));
            assert(snapshot_tables_view(tables@) =~= keyed_from(gt).map_values(ft));
            assert(enums_view(enums@) =~= keyed_from(ge).map_values(fe));
            assert(tv.map_values(|t: TableDefView| table_snapshot(t)) =~= tables_view(schema.tables@).map_values(
                |t: TableDefView| table_snapshot(t),
            ));
        }
        Snapshot { tables, enums }
    }
}

} // verus!
