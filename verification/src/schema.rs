//! The schema model a migration is generated from: tables, their columns,
//! indexes, foreign keys, CHECK constraints, virtual-table modules and
//! row-security policies, and the registry that holds them.
use vstd::prelude::*;
use crate::column::{ColumnDef, ColumnDefView, ForeignKeyAction};
use crate::fts5::{Fts5Sync, Fts5SyncView};
use crate::text::{opt_view, copy_opt_string, opt_str_eq, strings_view, copy_strings, strings_eq, str_eq};
use crate::keyed::{Named, Keyed};

verus! {

/// A secondary index on a table.
#[derive(Debug)]
pub struct IndexDef {
    pub name: String,
    pub columns: Vec<String>,
    pub unique: bool,
}

/// What an [`IndexDef`] declares.
pub struct IndexDefView {
    pub name: Seq<char>,
    pub columns: Seq<Seq<char>>,
    pub unique: bool,
}

impl View for IndexDef {
    type V = IndexDefView;

    open spec fn view(&self) -> IndexDefView {
        IndexDefView { name: self.name@, columns: strings_view(self.columns@), unique: self.unique }
    }
}

impl IndexDef {
    /// A copy of this index.
    pub fn duplicate(&self) -> (r: IndexDef)
        ensures
            r@ == self@,
    {
        IndexDef { name: self.name.clone(), columns: copy_strings(&self.columns), unique: self.unique }
    }

    /// Whether two indexes declare the same thing.
    pub fn same_as(&self, other: &IndexDef) -> (r: bool)
        ensures
            r == (self@ == other@),
    {
        let a = str_eq(self.name.as_str(), other.name.as_str());
        let b = strings_eq(&self.columns, &other.columns);
        a && b && self.unique == other.unique
    }
}

/// A (possibly composite) foreign key.
#[derive(Debug)]
pub struct ForeignKeyDef {
    pub name: String,
    pub columns: Vec<String>,
    pub ref_table: String,
    pub ref_columns: Vec<String>,
    pub on_delete: Option<ForeignKeyAction>,
    pub on_update: Option<ForeignKeyAction>,
}

/// What a [`ForeignKeyDef`] declares.
pub struct ForeignKeyDefView {
    pub name: Seq<char>,
    pub columns: Seq<Seq<char>>,
    pub ref_table: Seq<char>,
    pub ref_columns: Seq<Seq<char>>,
    pub on_delete: Option<ForeignKeyAction>,
    pub on_update: Option<ForeignKeyAction>,
}

impl View for ForeignKeyDef {
    type V = ForeignKeyDefView;

    open spec fn view(&self) -> ForeignKeyDefView {
        ForeignKeyDefView {
            name: self.name@,
            columns: strings_view(self.columns@),
            ref_table: self.ref_table@,
            ref_columns: strings_view(self.ref_columns@),
            on_delete: self.on_delete,
            on_update: self.on_update,
        }
    }
}

impl ForeignKeyDef {
    /// A copy of this foreign key.
    pub fn duplicate(&self) -> (r: ForeignKeyDef)
        ensures
            r@ == self@,
    {
        ForeignKeyDef {
            name: self.name.clone(),
            columns: copy_strings(&self.columns),
            ref_table: self.ref_table.clone(),
            ref_columns: copy_strings(&self.ref_columns),
            on_delete: self.on_delete,
            on_update: self.on_update,
        }
    }

    /// Whether two foreign keys declare the same thing.
    pub fn same_as(&self, other: &ForeignKeyDef) -> (r: bool)
        ensures
            r == (self@ == other@),
    {
        let a = str_eq(self.name.as_str(), other.name.as_str());
        let b = strings_eq(&self.columns, &other.columns);
        let c = str_eq(self.ref_table.as_str(), other.ref_table.as_str());
        let d = strings_eq(&self.ref_columns, &other.ref_columns);
        a && b && c && d && self.on_delete == other.on_delete && self.on_update == other.on_update
    }
}

/// A named enum type and its variants (a Postgres `CREATE TYPE … AS ENUM`).
#[derive(Debug)]
pub struct EnumDef {
    pub name: String,
    pub variants: Vec<String>,
}

/// What an [`EnumDef`] declares.
pub struct EnumDefView {
    pub name: Seq<char>,
    pub variants: Seq<Seq<char>>,
}

impl View for EnumDef {
    type V = EnumDefView;

    open spec fn view(&self) -> EnumDefView {
        EnumDefView { name: self.name@, variants: strings_view(self.variants@) }
    }
}

impl EnumDef {
    /// A copy of this enum.
    pub fn duplicate(&self) -> (r: EnumDef)
        ensures
            r@ == self@,
    {
        EnumDef { name: self.name.clone(), variants: copy_strings(&self.variants) }
    }
}

/// Whether a table is ordinary or a virtual table with a module.
#[derive(Debug)]
pub enum TableKind {
    Ordinary,
    /// `CREATE VIRTUAL TABLE … USING <module>(<args>)`.
    Virtual { module: String, args: Vec<String> },
}

/// What a [`TableKind`] declares.
pub enum TableKindView {
    Ordinary,
    Virtual { module: Seq<char>, args: Seq<Seq<char>> },
}

impl View for TableKind {
    type V = TableKindView;

    open spec fn view(&self) -> TableKindView {
        match self {
            TableKind::Ordinary => TableKindView::Ordinary,
            TableKind::Virtual { module, args } => TableKindView::Virtual {
                module: module@,
                args: strings_view(args@),
            },
        }
    }
}

/// The module of a virtual table, `None` for an ordinary one.
pub open spec fn kind_module(k: TableKindView) -> Option<Seq<char>> {
    match k {
        TableKindView::Ordinary => None,
        TableKindView::Virtual { module, .. } => Some(module),
    }
}

/// The module arguments of a virtual table, empty for an ordinary one.
pub open spec fn kind_args(k: TableKindView) -> Seq<Seq<char>> {
    match k {
        TableKindView::Ordinary => seq![],
        TableKindView::Virtual { args, .. } => args,
    }
}

impl TableKind {
    /// A virtual table using `module` with `args`.
    pub fn virtual_table(module: &str, args: Vec<String>) -> (r: TableKind)
        ensures
            r@ == (TableKindView::Virtual { module: module@, args: strings_view(args@) }),
    {
        TableKind::Virtual { module: module.to_string(), args }
    }

    /// The module, `None` for an ordinary table.
    pub fn module(&self) -> (r: Option<&str>)
        ensures
            match r {
                Some(m) => kind_module(self@) == Some(m@),
                None => kind_module(self@) is None,
            },
    {
        match self {
            TableKind::Ordinary => None,
            TableKind::Virtual { module, .. } => Some(module.as_str()),
        }
    }

    /// The module arguments, empty for an ordinary table.
    pub fn args(&self) -> (r: Vec<String>)
        ensures
            strings_view(r@) == kind_args(self@),
    {
        match self {
            TableKind::Ordinary => {
                let v: Vec<String> = Vec::new();
                assert(strings_view(v@) =~= Seq::<Seq<char>>::empty());
                v
            },
            TableKind::Virtual { args, .. } => copy_strings(args),
        }
    }

    /// A copy of this kind.
    pub fn duplicate(&self) -> (r: TableKind)
        ensures
            r@ == self@,
    {
        match self {
            TableKind::Ordinary => TableKind::Ordinary,
            TableKind::Virtual { module, args } => TableKind::Virtual {
                module: module.clone(),
                args: copy_strings(args),
            },
        }
    }

    /// Whether two kinds say the same thing.
    pub fn same_as(&self, other: &TableKind) -> (r: bool)
        ensures
            r == (self@ == other@),
    {
        match (self, other) {
            (TableKind::Ordinary, TableKind::Ordinary) => true,
            (TableKind::Virtual { module: m1, args: a1 }, TableKind::Virtual { module: m2, args: a2 }) => {
                str_eq(m1.as_str(), m2.as_str()) && strings_eq(a1, a2)
            },
            _ => false,
        }
    }
}

/// The statement kinds a row-security policy applies to.
#[derive(Debug, Clone, Copy, PartialEq, Eq, Structural)]
pub enum PolicyCommand {
    All,
    Select,
    Insert,
    Update,
    Delete,
}

/// The SQL keyword of a policy command.
pub open spec fn policy_command_sql(c: PolicyCommand) -> Seq<char> {
    match c {
        PolicyCommand::All => "ALL"@,
        PolicyCommand::Select => "SELECT"@,
        PolicyCommand::Insert => "INSERT"@,
        PolicyCommand::Update => "UPDATE"@,
        PolicyCommand::Delete => "DELETE"@,
    }
}

impl PolicyCommand {
    /// The SQL keyword, as in `FOR SELECT`.
    pub fn as_sql(self) -> (r: &'static str)
        ensures
            r@ == policy_command_sql(self),
    {
        match self {
            PolicyCommand::All => "ALL",
            PolicyCommand::Select => "SELECT",
            PolicyCommand::Insert => "INSERT",
            PolicyCommand::Update => "UPDATE",
            PolicyCommand::Delete => "DELETE",
        }
    }

    /// Whether Postgres accepts a `USING` expression for this command: every
    /// command but `INSERT`.
    pub fn accepts_using(self) -> (r: bool)
        ensures
            r == (self != PolicyCommand::Insert),
    {
        !matches!(self, PolicyCommand::Insert)
    }

    /// Whether Postgres accepts a `WITH CHECK` expression for this command:
    /// every command but `SELECT` and `DELETE`.
    pub fn accepts_with_check(self) -> (r: bool)
        ensures
            r == (self != PolicyCommand::Select && self != PolicyCommand::Delete),
    {
        !matches!(self, PolicyCommand::Select | PolicyCommand::Delete)
    }
}

/// One row-security policy.
#[derive(Debug)]
pub struct PolicyDef {
    pub name: String,
    pub command: PolicyCommand,
    pub using: Option<String>,
    pub with_check: Option<String>,
}

/// What a [`PolicyDef`] declares.
pub struct PolicyDefView {
    pub name: Seq<char>,
    pub command: PolicyCommand,
    pub using: Option<Seq<char>>,
    pub with_check: Option<Seq<char>>,
}

impl View for PolicyDef {
    type V = PolicyDefView;

    open spec fn view(&self) -> PolicyDefView {
        PolicyDefView {
            name: self.name@,
            command: self.command,
            using: opt_view(self.using),
            with_check: opt_view(self.with_check),
        }
    }
}

impl PolicyDef {
    /// A copy of this policy.
    pub fn duplicate(&self) -> (r: PolicyDef)
        ensures
            r@ == self@,
    {
        PolicyDef {
            name: self.name.clone(),
            command: self.command,
            using: copy_opt_string(&self.using),
            with_check: copy_opt_string(&self.with_check),
        }
    }

    /// Whether two policies declare the same thing.
    pub fn same_as(&self, other: &PolicyDef) -> (r: bool)
        ensures
            r == (self@ == other@),
    {
        let a = str_eq(self.name.as_str(), other.name.as_str());
        let b = opt_str_eq(&self.using, &other.using);
        let c = opt_str_eq(&self.with_check, &other.with_check);
        a && self.command == other.command && b && c
    }
}

/// A table's row security: enabled whenever present, `force` to apply it to
/// the table's owner too, and its policies.
#[derive(Debug)]
pub struct RowSecurity {
    pub force: bool,
    pub policies: Vec<PolicyDef>,
}

/// The views of a sequence of policies.
pub open spec fn policies_view(p: Seq<PolicyDef>) -> Seq<PolicyDefView> {
    p.map_values(|x: PolicyDef| x@)
}

/// What a [`RowSecurity`] declares.
pub struct RowSecurityView {
    pub force: bool,
    pub policies: Seq<PolicyDefView>,
}

impl View for RowSecurity {
    type V = RowSecurityView;

    open spec fn view(&self) -> RowSecurityView {
        RowSecurityView { force: self.force, policies: policies_view(self.policies@) }
    }
}

/// A copy of every element, by its own `duplicate`.
pub fn copy_policies(v: &Vec<PolicyDef>) -> (r: Vec<PolicyDef>)
    ensures
        policies_view(r@) == policies_view(v@),
{
    let mut out: Vec<PolicyDef> = Vec::new();
    let mut i: usize = 0;
    while i < v.len()
        invariant
            i <= v.len(),
            policies_view(out@) == policies_view(v@.take(i as int)),
        decreases v.len() - i,
    {
        let ghost prev = out@;
        out.push(v[i].duplicate());
        i = i + 1;
        assert(policies_view(v@.take(i as int)) =~= policies_view(v@.take((i - 1) as int)).push(v@[i - 1]@));
        assert(policies_view(out@) =~= policies_view(prev).push(v@[i - 1]@));
    }
    assert(v@.take(v.len() as int) == v@);
    out
}

impl RowSecurity {
    /// A copy of this declaration.
    pub fn duplicate(&self) -> (r: RowSecurity)
        ensures
            r@ == self@,
    {
        RowSecurity { force: self.force, policies: copy_policies(&self.policies) }
    }
}

/// The views of a sequence of columns.
pub open spec fn columns_view(c: Seq<ColumnDef>) -> Seq<ColumnDefView> {
    c.map_values(|x: ColumnDef| x@)
}

/// The views of a sequence of indexes.
pub open spec fn indexes_view(c: Seq<IndexDef>) -> Seq<IndexDefView> {
    c.map_values(|x: IndexDef| x@)
}

/// The views of a sequence of foreign keys.
pub open spec fn fks_view(c: Seq<ForeignKeyDef>) -> Seq<ForeignKeyDefView> {
    c.map_values(|x: ForeignKeyDef| x@)
}

/// The views of a sequence of named CHECK constraints.
pub open spec fn checks_view(c: Seq<(String, String)>) -> Seq<(Seq<char>, Seq<char>)> {
    c.map_values(|x: (String, String)| (x.0@, x.1@))
}

/// The view of an optional row-security declaration.
pub open spec fn opt_rs_view(r: Option<RowSecurity>) -> Option<RowSecurityView> {
    match r {
        Some(x) => Some(x@),
        None => None,
    }
}

/// The view of an optional FTS5 synchronization declaration.
pub open spec fn opt_sync_view(r: Option<Fts5Sync>) -> Option<Fts5SyncView> {
    match r {
        Some(x) => Some(x@),
        None => None,
    }
}

/// One table of the schema.
#[derive(Debug)]
pub struct TableDef {
    pub name: String,
    pub columns: Vec<ColumnDef>,
    pub indexes: Vec<IndexDef>,
    pub foreign_keys: Vec<ForeignKeyDef>,
    /// Named table-level CHECK constraints: (name, expression).
    pub check_constraints: Vec<(String, String)>,
    pub kind: TableKind,
    pub row_security: Option<RowSecurity>,
    pub fts5_sync: Option<Fts5Sync>,
}

/// What a [`TableDef`] declares.
pub struct TableDefView {
    pub name: Seq<char>,
    pub columns: Seq<ColumnDefView>,
    pub indexes: Seq<IndexDefView>,
    pub foreign_keys: Seq<ForeignKeyDefView>,
    pub check_constraints: Seq<(Seq<char>, Seq<char>)>,
    pub kind: TableKindView,
    pub row_security: Option<RowSecurityView>,
    pub fts5_sync: Option<Fts5SyncView>,
}

impl View for TableDef {
    type V = TableDefView;

    open spec fn view(&self) -> TableDefView {
        TableDefView {
            name: self.name@,
            columns: columns_view(self.columns@),
            indexes: indexes_view(self.indexes@),
            foreign_keys: fks_view(self.foreign_keys@),
            check_constraints: checks_view(self.check_constraints@),
            kind: self.kind@,
            row_security: opt_rs_view(self.row_security),
            fts5_sync: opt_sync_view(self.fts5_sync),
        }
    }
}

/// A copy of a column list.
pub fn copy_columns(v: &Vec<ColumnDef>) -> (r: Vec<ColumnDef>)
    ensures
        columns_view(r@) == columns_view(v@),
{
    let mut out: Vec<ColumnDef> = Vec::new();
    let mut i: usize = 0;
    while i < v.len()
        invariant
            i <= v.len(),
            columns_view(out@) == columns_view(v@.take(i as int)),
        decreases v.len() - i,
    {
        let ghost prev = out@;
        out.push(v[i].duplicate());
        i = i + 1;
        assert(columns_view(v@.take(i as int)) =~= columns_view(v@.take((i - 1) as int)).push(v@[i - 1]@));
        assert(columns_view(out@) =~= columns_view(prev).push(v@[i - 1]@));
    }
    assert(v@.take(v.len() as int) == v@);
    out
}

/// A copy of an index list.
pub fn copy_indexes(v: &Vec<IndexDef>) -> (r: Vec<IndexDef>)
    ensures
        indexes_view(r@) == indexes_view(v@),
{
    let mut out: Vec<IndexDef> = Vec::new();
    let mut i: usize = 0;
    while i < v.len()
        invariant
            i <= v.len(),
            indexes_view(out@) == indexes_view(v@.take(i as int)),
        decreases v.len() - i,
    {
        let ghost prev = out@;
        out.push(v[i].duplicate());
        i = i + 1;
        assert(indexes_view(v@.take(i as int)) =~= indexes_view(v@.take((i - 1) as int)).push(v@[i - 1]@));
        assert(indexes_view(out@) =~= indexes_view(prev).push(v@[i - 1]@));
    }
    assert(v@.take(v.len() as int) == v@);
    out
}

/// A copy of a foreign-key list.
pub fn copy_fks(v: &Vec<ForeignKeyDef>) -> (r: Vec<ForeignKeyDef>)
    ensures
        fks_view(r@) == fks_view(v@),
{
    let mut out: Vec<ForeignKeyDef> = Vec::new();
    let mut i: usize = 0;
    while i < v.len()
        invariant
            i <= v.len(),
            fks_view(out@) == fks_view(v@.take(i as int)),
        decreases v.len() - i,
    {
        let ghost prev = out@;
        out.push(v[i].duplicate());
        i = i + 1;
        assert(fks_view(v@.take(i as int)) =~= fks_view(v@.take((i - 1) as int)).push(v@[i - 1]@));
        assert(fks_view(out@) =~= fks_view(prev).push(v@[i - 1]@));
    }
    assert(v@.take(v.len() as int) == v@);
    out
}

/// A copy of a CHECK-constraint list.
pub fn copy_checks(v: &Vec<(String, String)>) -> (r: Vec<(String, String)>)
    ensures
        checks_view(r@) == checks_view(v@),
{
    let mut out: Vec<(String, String)> = Vec::new();
    let mut i: usize = 0;
    while i < v.len()
        invariant
            i <= v.len(),
            checks_view(out@) == checks_view(v@.take(i as int)),
        decreases v.len() - i,
    {
        let ghost prev = out@;
        out.push((v[i].0.clone(), v[i].1.clone()));
        i = i + 1;
        assert(checks_view(v@.take(i as int)) =~= checks_view(v@.take((i - 1) as int)).push(
            (v@[i - 1].0@, v@[i - 1].1@),
        ));
        assert(checks_view(out@) =~= checks_view(prev).push((v@[i - 1].0@, v@[i - 1].1@)));
    }
    assert(v@.take(v.len() as int) == v@);
    out
}

impl TableDef {
    /// An ordinary table named `name` with `columns` and nothing else.
    pub fn new(name: &str, columns: Vec<ColumnDef>) -> (r: TableDef)
        ensures
            r@ == (TableDefView {
                name: name@,
                columns: columns_view(columns@),
                indexes: seq![],
                foreign_keys: seq![],
                check_constraints: seq![],
                kind: TableKindView::Ordinary,
                row_security: None,
                fts5_sync: None,
            }),
    {
        let r = TableDef {
            name: name.to_string(),
            columns,
            indexes: Vec::new(),
            foreign_keys: Vec::new(),
            check_constraints: Vec::new(),
            kind: TableKind::Ordinary,
            row_security: None,
            fts5_sync: None,
        };
        assert(r@.indexes =~= Seq::<IndexDefView>::empty());
        assert(r@.foreign_keys =~= Seq::<ForeignKeyDefView>::empty());
        assert(r@.check_constraints =~= Seq::<(Seq<char>, Seq<char>)>::empty());
        r
    }

    /// Whether this is a virtual table.
    pub fn is_virtual(&self) -> (r: bool)
        ensures
            r == (kind_module(self@.kind) is Some),
    {
        match self.kind {
            TableKind::Ordinary => false,
            TableKind::Virtual { .. } => true,
        }
    }

    /// A copy of this table.
    pub fn duplicate(&self) -> (r: TableDef)
        ensures
            r@ == self@,
    {
        TableDef {
            name: self.name.clone(),
            columns: copy_columns(&self.columns),
            indexes: copy_indexes(&self.indexes),
            foreign_keys: copy_fks(&self.foreign_keys),
            check_constraints: copy_checks(&self.check_constraints),
            kind: self.kind.duplicate(),
            row_security: match &self.row_security {
                Some(rs) => Some(rs.duplicate()),
                None => None,
            },
            fts5_sync: match &self.fts5_sync {
                Some(s) => Some(s.duplicate()),
                None => None,
            },
        }
    }
}

/// The views of a sequence of tables.
pub open spec fn tables_view(c: Seq<TableDef>) -> Seq<TableDefView> {
    c.map_values(|x: TableDef| x@)
}

/// The views of a sequence of enums.
pub open spec fn enums_view(c: Seq<EnumDef>) -> Seq<EnumDefView> {
    c.map_values(|x: EnumDef| x@)
}

/// Every table and enum of the schema, in declaration order.
pub struct SchemaRegistry {
    pub tables: Vec<TableDef>,
    pub enums: Vec<EnumDef>,
}

impl SchemaRegistry {
    /// A registry of `tables` and no enums.
    pub fn from_tables(tables: Vec<TableDef>) -> (r: SchemaRegistry)
        ensures
            r.tables == tables,
            r.enums@.len() == 0,
    {
        SchemaRegistry { tables, enums: Vec::new() }
    }

    /// The tables, in declaration order.
    pub fn tables(&self) -> (r: &Vec<TableDef>)
        ensures
            r == &self.tables,
    {
        &self.tables
    }
}

impl Named for ColumnDef {
    open spec fn key_of(&self) -> Seq<char> {
        self.name@
    }
}

impl Keyed for ColumnDef {
    fn key(&self) -> (r: &str) {
        self.name.as_str()
    }
}

impl Named for ColumnDefView {
    open spec fn key_of(&self) -> Seq<char> {
        self.name
    }
}

impl Named for IndexDef {
    open spec fn key_of(&self) -> Seq<char> {
        self.name@
    }
}

impl Keyed for IndexDef {
    fn key(&self) -> (r: &str) {
        self.name.as_str()
    }
}

impl Named for IndexDefView {
    open spec fn key_of(&self) -> Seq<char> {
        self.name
    }
}

impl Named for ForeignKeyDef {
    open spec fn key_of(&self) -> Seq<char> {
        self.name@
    }
}

impl Keyed for ForeignKeyDef {
    fn key(&self) -> (r: &str) {
        self.name.as_str()
    }
}

impl Named for ForeignKeyDefView {
    open spec fn key_of(&self) -> Seq<char> {
        self.name
    }
}

impl Named for (String, String) {
    open spec fn key_of(&self) -> Seq<char> {
        self.0@
    }
}

impl Keyed for (String, String) {
    fn key(&self) -> (r: &str) {
        self.0.as_str()
    }
}

impl Named for (Seq<char>, Seq<char>) {
    open spec fn key_of(&self) -> Seq<char> {
        self.0
    }
}

impl Named for EnumDef {
    open spec fn key_of(&self) -> Seq<char> {
        self.name@
    }
}

impl Keyed for EnumDef {
    fn key(&self) -> (r: &str) {
        self.name.as_str()
    }
}

impl Named for EnumDefView {
    open spec fn key_of(&self) -> Seq<char> {
        self.name
    }
}

impl Named for PolicyDef {
    open spec fn key_of(&self) -> Seq<char> {
        self.name@
    }
}

impl Keyed for PolicyDef {
    fn key(&self) -> (r: &str) {
        self.name.as_str()
    }
}

impl Named for PolicyDefView {
    open spec fn key_of(&self) -> Seq<char> {
        self.name
    }
}

impl Named for TableDef {
    open spec fn key_of(&self) -> Seq<char> {
        self.name@
    }
}

impl Keyed for TableDef {
    fn key(&self) -> (r: &str) {
        self.name.as_str()
    }
}

impl Named for TableDefView {
    open spec fn key_of(&self) -> Seq<char> {
        self.name
    }
}

} // verus!
