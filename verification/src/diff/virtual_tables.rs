//! Virtual-table diff: create/drop/rename stay ordinary; in-place changes
//! either rebuild from FTS5 external content or refuse.
//!
//! SQLite has no `ALTER TABLE` for a virtual table. When the new FTS5
//! definition names a non-empty ordinary `content` table that covers every
//! FTS column (and `content_rowid` when set), the diff emits
//! `RecreateFts5FromContent`. Everything else that would mutate a virtual
//! table in place is refused — including rename+change in the same
//! generate — because repopulation needs source data the schema does not
//! safely provide.
use vstd::prelude::*;
use crate::column::{ColumnDef, ColumnDefView};
use crate::error::DbCoreError;
use crate::fts5::FTS5_MODULE;
use crate::keyed::{lookup, lookup_entry, contains_str, lemma_lookup_map};
use crate::schema::{TableDef, TableDefView, SchemaRegistry, kind_module, kind_args, columns_view, tables_view};
use crate::snapshot::{SnapshotTable, SnapshotTableView};
use crate::text::{strings_view, chars_of, string_from_chars, str_eq, strings_eq};
use super::operation::{Operation, OperationView};

verus! {

/// Why a virtual table may not declare indexes.
pub open spec fn no_indexes_reason() -> Seq<char> {
    "virtual tables cannot declare indexes"@
}

/// The refusal of an in-place change to virtual table `table`.
pub fn refuse(table: &str, reason: &str) -> (e: DbCoreError)
    ensures
        e matches DbCoreError::VirtualTableChange { table: t, reason: r } && t@ == table@ && r@ == reason@,
{
    DbCoreError::VirtualTableChange { table: table.to_string(), reason: reason.to_string() }
}

/// Checked before emitting `CreateTable` for a table the snapshot has not
/// seen: a virtual table may not declare indexes.
pub fn check_new_virtual_table(table: &TableDef) -> (r: Result<(), DbCoreError>)
    ensures
        r is Err <==> (kind_module(table@.kind) is Some && table@.indexes.len() > 0),
        r matches Err(e) ==> e matches DbCoreError::VirtualTableChange { table: t, reason }
            && t@ == table@.name && reason@ == no_indexes_reason(),
{
    if table.is_virtual() && table.indexes.len() > 0 {
        return Err(refuse(table.name.as_str(), "virtual tables cannot declare indexes"));
    }
    Ok(())
}

// ---------------------------------------------------------------------------
// Reading FTS5 options

/// `s` with every `''` read as one `'`, left to right.
pub open spec fn collapse_quotes(s: Seq<char>) -> Seq<char>
    decreases s.len(),
{
    if s.len() >= 2 && s[0] == '\'' && s[1] == '\'' {
        seq!['\''] + collapse_quotes(s.skip(2))
    } else if s.len() == 0 {
        seq![]
    } else {
        seq![s[0]] + collapse_quotes(s.drop_first())
    }
}

/// `s` with every `'` doubled, as a single-quoted SQL string holds it.
pub open spec fn double_quotes(s: Seq<char>) -> Seq<char>
    decreases s.len(),
{
    if s.len() == 0 {
        seq![]
    } else if s[0] == '\'' {
        seq!['\'', '\''] + double_quotes(s.drop_first())
    } else {
        seq![s[0]] + double_quotes(s.drop_first())
    }
}

/// Reading back a doubled string gives the string.
pub proof fn lemma_collapse_double(s: Seq<char>)
    ensures
        collapse_quotes(double_quotes(s)) == s,
    decreases s.len(),
{
    if s.len() > 0 {
        lemma_collapse_double(s.drop_first());
        let d = double_quotes(s);
        if s[0] == '\'' {
            assert(d.skip(2) =~= double_quotes(s.drop_first()));
        } else {
            assert(d.drop_first() =~= double_quotes(s.drop_first()));
        }
        assert(s =~= seq![s[0]] + s.drop_first());
    }
}

/// The text of `key = '…'` in `arg`, when `arg` has that form.
pub open spec fn option_in(arg: Seq<char>, key: Seq<char>) -> Option<Seq<char>> {
    let prefix = key + " = '"@;
    if arg.len() > prefix.len() && arg.take(prefix.len() as int) == prefix && arg.last() == '\'' {
        Some(collapse_quotes(arg.subrange(prefix.len() as int, arg.len() - 1)))
    } else {
        None
    }
}

/// The value of option `key` in FTS5 module arguments: the first argument of
/// the form `key = '…'`, its doubled quotes read as single ones.
pub open spec fn option_arg(args: Seq<Seq<char>>, key: Seq<char>) -> Option<Seq<char>>
    decreases args.len(),
{
    if args.len() == 0 {
        None
    } else {
        match option_in(args[0], key) {
            Some(v) => Some(v),
            None => option_arg(args.drop_first(), key),
        }
    }
}

/// `s` with every `''` read as one `'`.
fn collapse_quotes_exec(s: &Vec<char>) -> (r: Vec<char>)
    ensures
        r@ == collapse_quotes(s@),
{
    let mut out: Vec<char> = Vec::new();
    let mut i: usize = 0;
    assert(s@.skip(0) =~= s@);
    while i < s.len()
        invariant
            i <= s.len(),
            collapse_quotes(s@) == out@ + collapse_quotes(s@.skip(i as int)),
        decreases s.len() - i,
    {
        let ghost rest = s@.skip(i as int);
        if i + 1 < s.len() && s[i] == '\'' && s[i + 1] == '\'' {
            assert(rest.skip(2) =~= s@.skip(i + 2));
            out.push('\'');
            i = i + 2;
        } else {
            assert(rest.drop_first() =~= s@.skip(i + 1));
            out.push(s[i]);
            i = i + 1;
        }
    }
    assert(s@.skip(i as int) =~= Seq::<char>::empty());
    assert(out@ + Seq::<char>::empty() =~= out@);
    out
}

/// The value of `key = '…'` in `arg`, when `arg` has that form.
fn option_in_exec(arg: &str, key: &str) -> (r: Option<Vec<char>>)
    ensures
        match r {
            Some(v) => option_in(arg@, key@) == Some(v@),
            None => option_in(arg@, key@) is None,
        },
{
    let a = chars_of(arg);
    let mut prefix = chars_of(key);
    let tail = chars_of(" = '");
    crate::text::push_chars(&mut prefix, &tail);
    proof {
        assert(prefix@ == key@ + " = '"@);
    }
    if a.len() <= prefix.len() {
        return None;
    }
    let mut i: usize = 0;
    while i < prefix.len()
        invariant
            i <= prefix.len(),
            prefix.len() < a.len(),
            a@ == arg@,
            prefix@ == key@ + " = '"@,
            forall|j: int| 0 <= j < i ==> a@[j] == prefix@[j],
        decreases prefix.len() - i,
    {
        if a[i] != prefix[i] {
            assert(a@.take(prefix.len() as int)[i as int] != prefix@[i as int]);
            return None;
        }
        i = i + 1;
    }
    assert(a@.take(prefix.len() as int) =~= prefix@);
    if a[a.len() - 1] != '\'' {
        return None;
    }
    let mut middle: Vec<char> = Vec::new();
    let mut k: usize = prefix.len();
    while k < a.len() - 1
        invariant
            prefix.len() <= k <= a.len() - 1,
            a@ == arg@,
            prefix@ == key@ + " = '"@,
            middle@ == a@.subrange(prefix.len() as int, k as int),
        decreases a.len() - 1 - k,
    {
        middle.push(a[k]);
        k = k + 1;
        assert(middle@ =~= a@.subrange(prefix.len() as int, k as int));
    }
    Some(collapse_quotes_exec(&middle))
}

/// Reads `key = 'value'` from FTS5 module arguments (the form the options
/// render to): the first argument of that form, its doubled quotes read as
/// single ones.
pub fn option_value(args: &Vec<String>, key: &str) -> (r: Option<String>)
    ensures
        match r {
            Some(v) => option_arg(strings_view(args@), key@) == Some(v@),
            None => option_arg(strings_view(args@), key@) is None,
        },
{
    let ghost av = strings_view(args@);
    let mut i: usize = 0;
    assert(av.skip(0) =~= av);
    while i < args.len()
        invariant
            i <= args.len(),
            av == strings_view(args@),
            option_arg(av, key@) == option_arg(av.skip(i as int), key@),
        decreases args.len() - i,
    {
        assert(av.skip(i as int)[0] == args@[i as int]@);
        assert(av.skip(i as int).drop_first() =~= av.skip(i + 1));
        match option_in_exec(args[i].as_str(), key) {
            Some(v) => {
                return Some(string_from_chars(&v));
            },
            None => {},
        }
        i = i + 1;
    }
    assert(av.skip(i as int) =~= Seq::<Seq<char>>::empty());
    None
}

/// Reading option `key` back from the argument it renders to gives its value.
pub proof fn lemma_option_value_reads_rendered(key: Seq<char>, value: Seq<char>)
    ensures
        option_arg(seq![key + " = '"@ + double_quotes(value) + "'"@], key) == Some(value),
{
    let prefix = key + " = '"@;
    let arg = prefix + double_quotes(value) + "'"@;
    reveal_strlit(" = '");
    reveal_strlit("'");
    assert(arg.take(prefix.len() as int) =~= prefix);
    assert(arg.subrange(prefix.len() as int, arg.len() - 1) =~= double_quotes(value));
    lemma_collapse_double(value);
    assert(seq![arg].drop_first() =~= Seq::<Seq<char>>::empty());
}

// ---------------------------------------------------------------------------
// The content table

/// The first name of `cols`, from position `k` on, that `have` lacks.
pub open spec fn first_missing(cols: Seq<Seq<char>>, have: Seq<Seq<char>>, k: int) -> Option<Seq<char>>
    decreases cols.len() - k,
{
    if k < 0 || k >= cols.len() {
        None
    } else if !have.contains(cols[k]) {
        Some(cols[k])
    } else {
        first_missing(cols, have, k + 1)
    }
}

/// The column names of a table.
pub open spec fn column_names(t: TableDefView) -> Seq<Seq<char>> {
    t.columns.map_values(|c: ColumnDefView| c.name)
}

/// `"its content table \"<content>\""`.
pub open spec fn content_prefix(content: Seq<char>) -> Seq<char> {
    "its content table \""@ + content + "\""@
}

/// Why `content` cannot feed an FTS5 index over `cols` (and `rowid`, when
/// set): it is not in the registry of `tables`, it is not an ordinary
/// table, or it lacks one of the columns; `None` when it can.
pub open spec fn content_reason(
    tables: Seq<TableDefView>,
    content: Seq<char>,
    cols: Seq<Seq<char>>,
    rowid: Option<Seq<char>>,
) -> Option<Seq<char>> {
    match lookup(tables, content) {
        None => Some(content_prefix(content) + " is not in the schema"@),
        Some(t) => if kind_module(t.kind) is Some {
            Some(content_prefix(content) + " is not an ordinary table"@)
        } else {
            match first_missing(cols, column_names(t), 0) {
                Some(c) => Some(content_prefix(content) + " is missing column \""@ + c + "\""@),
                None => match rowid {
                    Some(r) => if column_names(t).contains(r) {
                        None
                    } else {
                        Some(content_prefix(content) + " is missing content_rowid column \""@ + r + "\""@)
                    },
                    None => None,
                },
            }
        },
    }
}

/// The column names of `table`.
fn table_column_names(table: &TableDef) -> (r: Vec<String>)
    ensures
        strings_view(r@) == column_names(table@),
{
    let mut out: Vec<String> = Vec::new();
    let mut i: usize = 0;
    while i < table.columns.len()
        invariant
            i <= table.columns.len(),
            strings_view(out@) == column_names(table@).take(i as int),
        decreases table.columns.len() - i,
    {
        let ghost prev = out@;
        out.push(table.columns[i].name.clone());
        assert(column_names(table@)[i as int] == table.columns@[i as int].name@);
        assert(strings_view(out@) =~= strings_view(prev).push(table.columns@[i as int].name@));
        assert(column_names(table@).take(i + 1) =~= column_names(table@).take(i as int).push(
            column_names(table@)[i as int],
        ));
        i = i + 1;
    }
    assert(column_names(table@).take(i as int) =~= column_names(table@));
    out
}

/// `"its content table \"<content>\"<rest>"`.
fn content_message(content: &str, rest: &str) -> (r: String)
    ensures
        r@ == content_prefix(content@) + rest@,
{
    let mut s = "its content table \"".to_string();
    s.append(content);
    s.append("\"");
    s.append(rest);
    s
}

/// `"its content table \"<content>\"<rest>\"<name>\""`.
fn content_message_named(content: &str, rest: &str, name: &str) -> (r: String)
    ensures
        r@ == content_prefix(content@) + rest@ + name@ + "\""@,
{
    let mut s = content_message(content, rest);
    s.append(name);
    s.append("\"");
    s
}

/// Why `content_table` cannot feed an FTS5 index over `columns` (and
/// `rowid`, when set); `None` when it can.
pub fn content_table_reason(
    schema: &SchemaRegistry,
    content_table: &str,
    columns: &Vec<String>,
    rowid: Option<&String>,
) -> (r: Option<String>)
    ensures
        match r {
            Some(s) => content_reason(
                tables_view(schema.tables@),
                content_table@,
                strings_view(columns@),
                match rowid {
                    Some(x) => Some(x@),
                    None => None,
                },
            ) == Some(s@),
            None => content_reason(
                tables_view(schema.tables@),
                content_table@,
                strings_view(columns@),
                match rowid {
                    Some(x) => Some(x@),
                    None => None,
                },
            ) is None,
        },
{
    proof {
        lemma_lookup_map(schema.tables@, |x: TableDef| x@, content_table@);
        assert(schema.tables@.map_values(|x: TableDef| x@) =~= tables_view(schema.tables@));
    }
    let content = match lookup_entry(&schema.tables, content_table) {
        None => return Some(content_message(content_table, " is not in the schema")),
        Some(t) => t,
    };
    if content.is_virtual() {
        return Some(content_message(content_table, " is not an ordinary table"));
    }
    let content_cols = table_column_names(content);
    let ghost cv = strings_view(columns@);
    let ghost have = column_names(content@);
    let mut i: usize = 0;
    while i < columns.len()
        invariant
            i <= columns.len(),
            cv == strings_view(columns@),
            have == strings_view(content_cols@),
            have == column_names(content@),
            lookup(tables_view(schema.tables@), content_table@) == Some(content@),
            kind_module(content@.kind) is None,
            first_missing(cv, have, 0) == first_missing(cv, have, i as int),
        decreases columns.len() - i,
    {
        assert(cv[i as int] == columns@[i as int]@);
        if !contains_str(&content_cols, columns[i].as_str()) {
            return Some(content_message_named(content_table, " is missing column \"", columns[i].as_str()));
        }
        i = i + 1;
    }
    match rowid {
        Some(r) => {
            if !contains_str(&content_cols, r.as_str()) {
                return Some(content_message_named(content_table, " is missing content_rowid column \"", r.as_str()));
            }
        },
        None => {},
    }
    None
}

// ---------------------------------------------------------------------------
// A table both sides have

/// The outcome of comparing a table present on both sides of the diff.
pub enum PairOutcome {
    /// Neither side is virtual; run the ordinary diffs.
    Ordinary,
    /// Virtual and unchanged; skip the ordinary diffs.
    Unchanged,
    /// Emit this operation in place of the ordinary diffs.
    Recreate(OperationView),
    /// Refuse, for this reason.
    Refused(Seq<char>),
}

/// What rebuilding FTS5 table `new_table` from its external content
/// decides: `Ok(None)` when it names no (non-empty) content table,
/// `Err(reason)` when the content table cannot feed it, else the rebuild.
pub open spec fn recreate_outcome(new_table: TableDefView, tables: Seq<TableDefView>) -> Result<Option<OperationView>, Seq<char>> {
    let args = kind_args(new_table.kind);
    match option_arg(args, "content"@) {
        None => Ok(None),
        Some(content) => if content.len() == 0 {
            Ok(None)
        } else {
            match content_reason(tables, content, column_names(new_table), option_arg(args, "content_rowid"@)) {
                Some(reason) => Err(reason),
                None => Ok(Some(OperationView::RecreateFts5FromContent { table: new_table })),
            }
        },
    }
}

/// What comparing `old` and `new`, both recorded for one table, decides.
pub open spec fn pair_outcome(
    old: SnapshotTableView,
    new: SnapshotTableView,
    new_table: TableDefView,
    tables: Seq<TableDefView>,
    renamed: bool,
) -> PairOutcome {
    match (kind_module(old.kind), kind_module(new.kind)) {
        (None, None) => PairOutcome::Ordinary,
        (None, Some(m)) => PairOutcome::Refused("it became a virtual table using "@ + m),
        (Some(m), None) => PairOutcome::Refused("it is no longer a virtual table using "@ + m),
        (Some(om), Some(nm)) => if om != nm {
            PairOutcome::Refused("its module changed from "@ + om + " to "@ + nm)
        } else {
            let columns_changed = old.column_order != new.column_order || old.columns != new.columns;
            let args_changed = kind_args(old.kind) != kind_args(new.kind);
            let change_reason = if columns_changed {
                "its columns changed"@
            } else {
                "its module arguments changed"@
            };
            if new.indexes.len() > 0 {
                PairOutcome::Refused(no_indexes_reason())
            } else if !columns_changed && !args_changed {
                PairOutcome::Unchanged
            } else if renamed {
                PairOutcome::Refused(change_reason)
            } else if nm == "fts5"@ {
                match recreate_outcome(new_table, tables) {
                    Err(reason) => PairOutcome::Refused(reason),
                    Ok(Some(op)) => PairOutcome::Recreate(op),
                    Ok(None) => PairOutcome::Refused(change_reason),
                }
            } else {
                PairOutcome::Refused(change_reason)
            }
        },
    }
}

/// Result of comparing a table present on both sides of the diff.
pub enum VirtualPairCheck {
    /// Neither side is virtual; run ordinary column / index / FK diffs.
    Ordinary,
    /// Virtual and unchanged; skip ordinary diffs.
    Unchanged,
    /// Emit this op instead of ordinary diffs or a refuse error.
    Recreate(Operation),
}

/// Whether two column lists hold the same definitions in the same order.
fn columns_same(a: &Vec<ColumnDef>, b: &Vec<ColumnDef>) -> (r: bool)
    ensures
        r == (columns_view(a@) == columns_view(b@)),
{
    if a.len() != b.len() {
        assert(columns_view(a@).len() != columns_view(b@).len());
        return false;
    }
    let mut i: usize = 0;
    while i < a.len()
        invariant
            i <= a.len(),
            a.len() == b.len(),
            forall|j: int| 0 <= j < i ==> a@[j]@ == b@[j]@,
        decreases a.len() - i,
    {
        if !a[i].same_as(&b[i]) {
            assert(columns_view(a@)[i as int] != columns_view(b@)[i as int]);
            return false;
        }
        i = i + 1;
    }
    assert(columns_view(a@) =~= columns_view(b@));
    true
}

/// Rebuilds FTS5 table `new_table` from its external content, when it
/// names a non-empty content table that can feed it.
///
/// # Errors
///
/// `VirtualTableChange` naming `name`, when the content table is missing,
/// not ordinary, or lacks a column.
pub fn try_recreate_from_content(name: &str, new_table: &TableDef, schema: &SchemaRegistry) -> (r: Result<
    Option<Operation>,
    DbCoreError,
>)
    ensures
        match (r, recreate_outcome(new_table@, tables_view(schema.tables@))) {
            (Ok(None), Ok(None)) => true,
            (Ok(Some(op)), Ok(Some(v))) => op@ == v,
            (Err(e), Err(reason)) => e matches DbCoreError::VirtualTableChange { table: t, reason: rs }
                && t@ == name@ && rs@ == reason,
            _ => false,
        },
{
    let args = new_table.kind.args();
    let content_name = match option_value(&args, "content") {
        None => return Ok(None),
        Some(c) => c,
    };
    if content_name.as_str().is_empty() {
        return Ok(None);
    }
    let cols = table_column_names(new_table);
    let rowid = option_value(&args, "content_rowid");
    let reason = content_table_reason(schema, content_name.as_str(), &cols, rowid.as_ref());
    match reason {
        Some(reason) => Err(refuse(name, reason.as_str())),
        None => Ok(Some(Operation::RecreateFts5FromContent { table: new_table.duplicate() })),
    }
}

/// Compares a table that exists on both sides.
///
/// `renamed` is true when this generate also renamed the table; a rename
/// combined with a shape change always refuses (never auto-rebuilds).
///
/// # Errors
///
/// `VirtualTableChange` naming `name` and the reason, whenever the change
/// would alter a virtual table in place and cannot be rebuilt.
pub fn check_virtual_pair(
    name: &str,
    old: &SnapshotTable,
    new: &SnapshotTable,
    new_table: &TableDef,
    schema: &SchemaRegistry,
    renamed: bool,
) -> (r: Result<VirtualPairCheck, DbCoreError>)
    ensures
        match (r, pair_outcome(old@, new@, new_table@, tables_view(schema.tables@), renamed)) {
            (Ok(VirtualPairCheck::Ordinary), PairOutcome::Ordinary) => true,
            (Ok(VirtualPairCheck::Unchanged), PairOutcome::Unchanged) => true,
            (Ok(VirtualPairCheck::Recreate(op)), PairOutcome::Recreate(v)) => op@ == v,
            (Err(e), PairOutcome::Refused(reason)) => e matches DbCoreError::VirtualTableChange {
                table: t,
                reason: rs,
            } && t@ == name@ && rs@ == reason,
            _ => false,
        },
{
    let (old_module, new_module) = match (old.kind.module(), new.kind.module()) {
        (None, None) => return Ok(VirtualPairCheck::Ordinary),
        (None, Some(module)) => {
            let mut s = "it became a virtual table using ".to_string();
            s.append(module);
            return Err(refuse(name, s.as_str()));
        },
        (Some(module), None) => {
            let mut s = "it is no longer a virtual table using ".to_string();
            s.append(module);
            return Err(refuse(name, s.as_str()));
        },
        (Some(om), Some(nm)) => (om, nm),
    };
    if !str_eq(old_module, new_module) {
        let mut s = "its module changed from ".to_string();
        s.append(old_module);
        s.append(" to ");
        s.append(new_module);
        return Err(refuse(name, s.as_str()));
    }
    let columns_changed = !strings_eq(&old.column_order, &new.column_order) || !columns_same(
        &old.columns,
        &new.columns,
    );
    let old_args = old.kind.args();
    let new_args = new.kind.args();
    let args_changed = !strings_eq(&old_args, &new_args);
    if !columns_changed && !args_changed {
        if new.indexes.len() > 0 {
            return Err(refuse(name, "virtual tables cannot declare indexes"));
        }
        return Ok(VirtualPairCheck::Unchanged);
    }
    if new.indexes.len() > 0 {
        return Err(refuse(name, "virtual tables cannot declare indexes"));
    }
    let change_reason = if columns_changed {
        "its columns changed"
    } else {
        "its module arguments changed"
    };
    if renamed {
        return Err(refuse(name, change_reason));
    }
    if str_eq(new_module, FTS5_MODULE) {
        proof {
            reveal_strlit("fts5");
        }
        match try_recreate_from_content(name, new_table, schema) {
            Err(e) => return Err(e),
            Ok(Some(op)) => return Ok(VirtualPairCheck::Recreate(op)),
            Ok(None) => {},
        }
    }
    Err(refuse(name, change_reason))
}

/// Renaming a virtual table in the same diff that changes its columns or
/// module arguments is always refused, never rebuilt.
pub proof fn lemma_renamed_change_refuses(
    old: SnapshotTableView,
    new: SnapshotTableView,
    new_table: TableDefView,
    tables: Seq<TableDefView>,
)
    requires
        kind_module(old.kind) is Some || kind_module(new.kind) is Some,
        old.column_order != new.column_order || old.columns != new.columns || kind_args(old.kind) != kind_args(
            new.kind,
        ),
    ensures
        pair_outcome(old, new, new_table, tables, true) is Refused,
{
}

/// A virtual table whose recorded shape did not change, and that declares
/// no index, needs nothing: it is left alone.
pub proof fn lemma_unchanged_virtual_table_is_left_alone(
    t: SnapshotTableView,
    new_table: TableDefView,
    tables: Seq<TableDefView>,
    renamed: bool,
)
    requires
        kind_module(t.kind) is Some,
        t.indexes.len() == 0,
    ensures
        pair_outcome(t, t, new_table, tables, renamed) is Unchanged,
{
}

} // verus!
