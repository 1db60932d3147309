//! The migration steps a diff produces, before any dialect renders them.
use vstd::prelude::*;
use crate::column::{ColumnDef, ColumnDefView, ColumnType};
use crate::fts5::{Fts5Sync, Fts5SyncView};
use crate::schema::{IndexDef, IndexDefView, ForeignKeyDef, ForeignKeyDefView, PolicyDef, PolicyDefView,
    TableDef, TableDefView};
use crate::text::{opt_view, strings_view};

verus! {

/// One column-level difference between two schema versions.
#[derive(Debug)]
#[non_exhaustive]
pub enum ColumnChange {
    Type { column: String, old: ColumnType, new: ColumnType },
    Default { column: String, old: Option<String>, new: Option<String> },
    Nullable { column: String, old: bool, new: bool },
    Unique { column: String, old: bool, new: bool },
    /// Column-level `primary_key` flag flipped; SQLite must recreate the table.
    PrimaryKey { column: String, old: bool, new: bool },
    /// `autoincrement` flag flipped; SQLite must recreate the table.
    Autoincrement { column: String, old: bool, new: bool },
    /// Table-level composite primary key column list changed.
    CompositePrimaryKey { old: Vec<String>, new: Vec<String> },
}

/// What a [`ColumnChange`] says.
pub enum ColumnChangeView {
    Type { column: Seq<char>, old: ColumnType, new: ColumnType },
    Default { column: Seq<char>, old: Option<Seq<char>>, new: Option<Seq<char>> },
    Nullable { column: Seq<char>, old: bool, new: bool },
    Unique { column: Seq<char>, old: bool, new: bool },
    PrimaryKey { column: Seq<char>, old: bool, new: bool },
    Autoincrement { column: Seq<char>, old: bool, new: bool },
    CompositePrimaryKey { old: Seq<Seq<char>>, new: Seq<Seq<char>> },
}

impl View for ColumnChange {
    type V = ColumnChangeView;

    open spec fn view(&self) -> ColumnChangeView {
        match self {
            ColumnChange::Type { column, old, new } => ColumnChangeView::Type {
                column: column@,
                old: *old,
                new: *new,
            },
            ColumnChange::Default { column, old, new } => ColumnChangeView::Default {
                column: column@,
                old: opt_view(*old),
                new: opt_view(*new),
            },
            ColumnChange::Nullable { column, old, new } => ColumnChangeView::Nullable {
                column: column@,
                old: *old,
                new: *new,
            },
            ColumnChange::Unique { column, old, new } => ColumnChangeView::Unique {
                column: column@,
                old: *old,
                new: *new,
            },
            ColumnChange::PrimaryKey { column, old, new } => ColumnChangeView::PrimaryKey {
                column: column@,
                old: *old,
                new: *new,
            },
            ColumnChange::Autoincrement { column, old, new } => ColumnChangeView::Autoincrement {
                column: column@,
                old: *old,
                new: *new,
            },
            ColumnChange::CompositePrimaryKey { old, new } => ColumnChangeView::CompositePrimaryKey {
                old: strings_view(old@),
                new: strings_view(new@),
            },
        }
    }
}

/// The views of a sequence of column changes.
pub open spec fn changes_view(c: Seq<ColumnChange>) -> Seq<ColumnChangeView> {
    c.map_values(|x: ColumnChange| x@)
}

/// One migration step, before any dialect renders it.
#[derive(Debug)]
#[non_exhaustive]
pub enum Operation {
    CreateEnum { name: String, variants: Vec<String> },
    AlterEnum { name: String, added: Vec<String>, removed: Vec<String> },
    DropEnum { name: String },
    CreateTable { table: TableDef },
    DropTable { name: String },
    RenameTable { old: String, new: String },
    AddColumn { table: String, column: ColumnDef },
    DropColumn { table: String, column: String },
    RenameColumn { table: String, old: String, new: String },
    AlterColumn { table: String, changes: Vec<ColumnChange>, table_def: TableDef },
    CreateIndex { table: String, index: IndexDef },
    DropIndex { name: String },
    AddForeignKey { table: String, fk: ForeignKeyDef },
    DropForeignKey { table: String, name: String },
    AddCheckConstraint { table: String, name: String, expr: String },
    DropCheckConstraint { table: String, name: String },
    /// Drop + recreate an FTS5 virtual table and rebuild it from its external
    /// content table (`INSERT INTO fts(fts) VALUES('rebuild')`).
    ///
    /// When the table declares [`Fts5Sync`], the rebuild moves into
    /// [`Self::CreateFts5SyncTriggers`] so the index is filled after its
    /// triggers exist rather than before.
    RecreateFts5FromContent { table: TableDef },
    /// Drop the three generated synchronization triggers for an FTS5 table.
    DropFts5SyncTriggers { table: String },
    /// Create the three generated synchronization triggers for an FTS5 table
    /// and rebuild its index.
    CreateFts5SyncTriggers { table: String, sync: Fts5Sync },
    /// Turn row security on or off for a table, and set whether it binds the
    /// table's owner too.
    AlterRowLevelSecurity { table: String, enabled: bool, force: bool },
    CreatePolicy { table: String, policy: PolicyDef },
    DropPolicy { table: String, name: String },
}

/// What an [`Operation`] says.
pub enum OperationView {
    CreateEnum { name: Seq<char>, variants: Seq<Seq<char>> },
    AlterEnum { name: Seq<char>, added: Seq<Seq<char>>, removed: Seq<Seq<char>> },
    DropEnum { name: Seq<char> },
    CreateTable { table: TableDefView },
    DropTable { name: Seq<char> },
    RenameTable { old: Seq<char>, new: Seq<char> },
    AddColumn { table: Seq<char>, column: ColumnDefView },
    DropColumn { table: Seq<char>, column: Seq<char> },
    RenameColumn { table: Seq<char>, old: Seq<char>, new: Seq<char> },
    AlterColumn { table: Seq<char>, changes: Seq<ColumnChangeView>, table_def: TableDefView },
    CreateIndex { table: Seq<char>, index: IndexDefView },
    DropIndex { name: Seq<char> },
    AddForeignKey { table: Seq<char>, fk: ForeignKeyDefView },
    DropForeignKey { table: Seq<char>, name: Seq<char> },
    AddCheckConstraint { table: Seq<char>, name: Seq<char>, expr: Seq<char> },
    DropCheckConstraint { table: Seq<char>, name: Seq<char> },
    RecreateFts5FromContent { table: TableDefView },
    DropFts5SyncTriggers { table: Seq<char> },
    CreateFts5SyncTriggers { table: Seq<char>, sync: Fts5SyncView },
    AlterRowLevelSecurity { table: Seq<char>, enabled: bool, force: bool },
    CreatePolicy { table: Seq<char>, policy: PolicyDefView },
    DropPolicy { table: Seq<char>, name: Seq<char> },
}

impl View for Operation {
    type V = OperationView;

    open spec fn view(&self) -> OperationView {
        match self {
            Operation::CreateEnum { name, variants } => OperationView::CreateEnum {
                name: name@,
                variants: strings_view(variants@),
            },
            Operation::AlterEnum { name, added, removed } => OperationView::AlterEnum {
                name: name@,
                added: strings_view(added@),
                removed: strings_view(removed@),
            },
            Operation::DropEnum { name } => OperationView::DropEnum { name: name@ },
            Operation::CreateTable { table } => OperationView::CreateTable { table: table@ },
            Operation::DropTable { name } => OperationView::DropTable { name: name@ },
            Operation::RenameTable { old, new } => OperationView::RenameTable { old: old@, new: new@ },
            Operation::AddColumn { table, column } => OperationView::AddColumn {
                table: table@,
                column: column@,
            },
            Operation::DropColumn { table, column } => OperationView::DropColumn {
                table: table@,
                column: column@,
            },
            Operation::RenameColumn { table, old, new } => OperationView::RenameColumn {
                table: table@,
                old: old@,
                new: new@,
            },
            Operation::AlterColumn { table, changes, table_def } => OperationView::AlterColumn {
                table: table@,
                changes: changes_view(changes@),
                table_def: table_def@,
            },
            Operation::CreateIndex { table, index } => OperationView::CreateIndex {
                table: table@,
                index: index@,
            },
            Operation::DropIndex { name } => OperationView::DropIndex { name: name@ },
            Operation::AddForeignKey { table, fk } => OperationView::AddForeignKey {
                table: table@,
                fk: fk@,
            },
            Operation::DropForeignKey { table, name } => OperationView::DropForeignKey {
                table: table@,
                name: name@,
            },
            Operation::AddCheckConstraint { table, name, expr } => OperationView::AddCheckConstraint {
                table: table@,
                name: name@,
                expr: expr@,
            },
            Operation::DropCheckConstraint { table, name } => OperationView::DropCheckConstraint {
                table: table@,
                name: name@,
            },
            Operation::RecreateFts5FromContent { table } => OperationView::RecreateFts5FromContent {
                table: table@,
            },
            Operation::DropFts5SyncTriggers { table } => OperationView::DropFts5SyncTriggers {
                table: table@,
            },
            Operation::CreateFts5SyncTriggers { table, sync } => OperationView::CreateFts5SyncTriggers {
                table: table@,
                sync: sync@,
            },
            Operation::AlterRowLevelSecurity { table, enabled, force } =>
                OperationView::AlterRowLevelSecurity { table: table@, enabled: *enabled, force: *force },
            Operation::CreatePolicy { table, policy } => OperationView::CreatePolicy {
                table: table@,
                policy: policy@,
            },
            Operation::DropPolicy { table, name } => OperationView::DropPolicy {
                table: table@,
                name: name@,
            },
        }
    }
}

/// The views of a sequence of operations.
pub open spec fn ops_view(o: Seq<Operation>) -> Seq<OperationView> {
    o.map_values(|x: Operation| x@)
}

/// The operations `f` gives for each element of `s`, one after another.
pub open spec fn concat_ops<A>(s: Seq<A>, f: spec_fn(A) -> Seq<OperationView>) -> Seq<OperationView>
    decreases s.len(),
{
    if s.len() == 0 {
        seq![]
    } else {
        concat_ops(s.drop_last(), f) + f(s.last())
    }
}

/// Adding one more element to the walk appends its operations.
pub proof fn lemma_concat_ops_step<A>(s: Seq<A>, f: spec_fn(A) -> Seq<OperationView>, i: int)
    requires
        0 <= i < s.len(),
    ensures
        concat_ops(s.take(i + 1), f) == concat_ops(s.take(i), f) + f(s[i]),
{
    assert(s.take(i + 1).drop_last() =~= s.take(i));
}

/// Operations that give nothing for every element give nothing together.
pub proof fn lemma_concat_ops_empty<A>(s: Seq<A>, f: spec_fn(A) -> Seq<OperationView>)
    requires
        forall|i: int| 0 <= i < s.len() ==> f(#[trigger] s[i]).len() == 0,
    ensures
        concat_ops(s, f).len() == 0,
    decreases s.len(),
{
    if s.len() > 0 {
        lemma_concat_ops_empty(s.drop_last(), f);
        assert(f(s[s.len() - 1]).len() == 0);
    }
}

/// Appends `op` to `ops`.
pub fn push_op(ops: &mut Vec<Operation>, op: Operation)
    ensures
        ops_view(final(ops)@) == ops_view(old(ops)@).push(op@),
{
    ops.push(op);
    assert(ops_view(ops@) =~= ops_view(old(ops)@).push(op@));
}

/// Every operation an element gives appears in the walk: the position it
/// takes there.
pub proof fn lemma_concat_ops_index<A>(s: Seq<A>, f: spec_fn(A) -> Seq<OperationView>, j: int, k: int) -> (m: int)
    requires
        0 <= j < s.len(),
        0 <= k < f(s[j]).len(),
    ensures
        0 <= m < concat_ops(s, f).len(),
        concat_ops(s, f)[m] == f(s[j])[k],
    decreases s.len(),
{
    let t = s.drop_last();
    if j == s.len() - 1 {
        concat_ops(t, f).len() + k
    } else {
        assert(t[j] == s[j]);
        lemma_concat_ops_index(t, f, j, k)
    }
}

/// What every element's operations satisfy, every operation of the walk
/// satisfies.
pub proof fn lemma_concat_ops_all<A>(
    s: Seq<A>,
    f: spec_fn(A) -> Seq<OperationView>,
    p: spec_fn(OperationView) -> bool,
)
    requires
        forall|i: int, k: int| 0 <= i < s.len() && 0 <= k < f(s[i]).len() ==> p(#[trigger] f(s[i])[k]),
    ensures
        forall|k: int| 0 <= k < concat_ops(s, f).len() ==> p(#[trigger] concat_ops(s, f)[k]),
    decreases s.len(),
{
    if s.len() > 0 {
        let t = s.drop_last();
        assert forall|i: int, k: int| 0 <= i < t.len() && 0 <= k < f(t[i]).len() implies p(#[trigger] f(t[i])[k]) by {
            assert(t[i] == s[i]);
        }
        lemma_concat_ops_all(t, f, p);
        let c = concat_ops(s, f);
        let ct = concat_ops(t, f);
        assert forall|k: int| 0 <= k < c.len() implies p(#[trigger] c[k]) by {
            if k < ct.len() {
                assert(c[k] == ct[k]);
            } else {
                assert(c[k] == f(s[s.len() - 1])[k - ct.len()]);
            }
        }
    }
}

/// When each element gives at most one operation, every operation of the
/// walk is the one some element gave, and of two operations the earlier
/// comes from the earlier element.
pub proof fn lemma_concat_ops_sources<A>(s: Seq<A>, f: spec_fn(A) -> Seq<OperationView>)
    requires
        forall|x: A| #[trigger] f(x).len() <= 1,
    ensures
        forall|i: int|
            0 <= i < concat_ops(s, f).len() ==> exists|a: int|
                0 <= a < s.len() && f(s[a]).len() == 1 && #[trigger] concat_ops(s, f)[i] == f(s[a])[0],
        forall|i: int, j: int|
            0 <= i < j < concat_ops(s, f).len() ==> exists|a: int, b: int|
                0 <= a < b < s.len() && f(s[a]).len() == 1 && f(s[b]).len() == 1 && #[trigger] concat_ops(s, f)[i]
                    == f(s[a])[0] && #[trigger] concat_ops(s, f)[j] == f(s[b])[0],
    decreases s.len(),
{
    if s.len() > 0 {
        let t = s.drop_last();
        lemma_concat_ops_sources(t, f);
        let c = concat_ops(s, f);
        let ct = concat_ops(t, f);
        let last = s.len() - 1;
        assert(f(s[last]).len() <= 1);
        assert forall|i: int| 0 <= i < c.len() implies exists|a: int|
            0 <= a < s.len() && f(s[a]).len() == 1 && #[trigger] c[i] == f(s[a])[0] by {
            if i < ct.len() {
                assert(c[i] == ct[i]);
                let a: int = choose|a: int| 0 <= a < t.len() && f(t[a]).len() == 1 && ct[i] == f(t[a])[0];
                assert(t[a] == s[a]);
            } else {
                assert(c[i] == f(s[last])[0]);
            }
        }
        assert forall|i: int, j: int| 0 <= i < j < c.len() implies exists|a: int, b: int|
            0 <= a < b < s.len() && f(s[a]).len() == 1 && f(s[b]).len() == 1 && #[trigger] c[i] == f(s[a])[0]
                && #[trigger] c[j] == f(s[b])[0] by {
            if j < ct.len() {
                assert(c[i] == ct[i]);
                assert(c[j] == ct[j]);
                let (a, b): (int, int) = choose|a: int, b: int|
                    0 <= a < b < t.len() && f(t[a]).len() == 1 && f(t[b]).len() == 1 && ct[i] == f(t[a])[0]
                        && ct[j] == f(t[b])[0];
                assert(t[a] == s[a]);
                assert(t[b] == s[b]);
            } else {
                assert(c[j] == f(s[last])[0]);
                assert(c[i] == ct[i]);
                let a: int = choose|a: int| 0 <= a < t.len() && f(t[a]).len() == 1 && ct[i] == f(t[a])[0];
                assert(t[a] == s[a]);
            }
        }
    }
}

} // verus!
