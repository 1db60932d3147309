use toolu_orm_core::column::{ColumnDef, ColumnType, ForeignKeyAction};
use toolu_orm_core::diff::column::compute_column_changes;
use toolu_orm_core::diff::fk::diff_check_constraints_inner;
use toolu_orm_core::diff::{diff, diff_enums, diff_foreign_keys, diff_with_resolver, ColumnChange, Operation};
use toolu_orm_core::diff::engine::{added_and_removed_tables, column_rename_requests, resolve_renames};
use toolu_orm_core::rename::{NoRenames, RenameResolver};
use toolu_orm_core::schema::{EnumDef, ForeignKeyDef, IndexDef, SchemaRegistry, TableDef};
use toolu_orm_core::snapshot::Snapshot;

fn users() -> TableDef {
    let mut id = ColumnDef::new("id", ColumnType::Integer);
    id.primary_key = true;
    let mut t = TableDef::new("users", vec![id, ColumnDef::new("name", ColumnType::Text)]);
    t.indexes.push(IndexDef { name: "idx_users_name".to_string(), columns: vec!["name".to_string()], unique: false });
    t
}

fn posts() -> TableDef {
    TableDef::new("posts", vec![ColumnDef::new("id", ColumnType::Integer), ColumnDef::new("author", ColumnType::Integer)])
}

fn registry(tables: Vec<TableDef>) -> SchemaRegistry {
    SchemaRegistry { tables, enums: Vec::new() }
}

#[test]
fn diff_from_nothing_creates_each_table_then_its_indexes() {
    let schema = registry(vec![users(), posts()]);
    let ops = diff(&Snapshot::empty(), &schema);
    assert_eq!(ops.len(), 3);
    assert!(matches!(&ops[0], Operation::CreateTable { table } if table.name == "users"));
    assert!(matches!(&ops[1], Operation::CreateIndex { table, index } if table == "users" && index.name == "idx_users_name"));
    assert!(matches!(&ops[2], Operation::CreateTable { table } if table.name == "posts"));
}

#[test]
fn diff_against_own_snapshot_is_empty() {
    let mut schema = registry(vec![users(), posts()]);
    schema.enums.push(EnumDef { name: "mood".to_string(), variants: vec!["sad".to_string(), "happy".to_string()] });
    let snap = Snapshot::from_registry(&schema);
    assert!(diff(&snap, &schema).is_empty());
}

#[test]
fn snapshot_files_tables_by_name() {
    let schema = registry(vec![users(), posts()]);
    let snap = Snapshot::from_registry(&schema);
    assert_eq!(snap.tables.len(), 2);
    assert_eq!(snap.tables[0].name, "posts");
    assert_eq!(snap.tables[1].name, "users");
    let cols: Vec<&str> = snap.tables[1].columns.iter().map(|c| c.name.as_str()).collect();
    assert_eq!(cols, vec!["id", "name"]);
    assert_eq!(snap.tables[1].column_order, vec!["id".to_string(), "name".to_string()]);
}

#[test]
fn dropped_table_and_added_column() {
    let old = Snapshot::from_registry(&registry(vec![users(), posts()]));
    let mut u = users();
    u.columns.push(ColumnDef::new("email", ColumnType::Text));
    let ops = diff(&old, &registry(vec![u]));
    assert_eq!(ops.len(), 2);
    assert!(matches!(&ops[0], Operation::DropTable { name } if name == "posts"));
    assert!(matches!(&ops[1], Operation::AddColumn { table, column } if table == "users" && column.name == "email"));
}

#[test]
fn changed_column_becomes_one_alter_with_every_change() {
    let old = Snapshot::from_registry(&registry(vec![users()]));
    let mut u = users();
    u.columns[1].column_type = ColumnType::Varchar(64);
    u.columns[1].not_null = true;
    let ops = diff(&old, &registry(vec![u]));
    assert_eq!(ops.len(), 1);
    match &ops[0] {
        Operation::AlterColumn { table, changes, table_def } => {
            assert_eq!(table, "users");
            assert_eq!(table_def.name, "users");
            assert_eq!(changes.len(), 2);
            assert!(matches!(&changes[0], ColumnChange::Type { column, old: ColumnType::Text, new: ColumnType::Varchar(64) } if column == "name"));
            assert!(matches!(&changes[1], ColumnChange::Nullable { column, old: true, new: false } if column == "name"));
        },
        other => panic!("unexpected {other:?}"),
    }
}

#[test]
fn column_changes_come_in_fixed_order() {
    let a = ColumnDef::new("n", ColumnType::Integer);
    let mut b = ColumnDef::new("n", ColumnType::BigInt);
    b.default = Some("0".to_string());
    b.unique = true;
    b.primary_key = true;
    b.autoincrement = true;
    let changes = compute_column_changes("n", &a, &b);
    assert_eq!(changes.len(), 5);
    assert!(matches!(&changes[0], ColumnChange::Type { .. }));
    assert!(matches!(&changes[1], ColumnChange::Default { old: None, new: Some(d), .. } if d == "0"));
    assert!(matches!(&changes[2], ColumnChange::Unique { old: false, new: true, .. }));
    assert!(matches!(&changes[3], ColumnChange::PrimaryKey { old: false, new: true, .. }));
    assert!(matches!(&changes[4], ColumnChange::Autoincrement { old: false, new: true, .. }));
    assert!(compute_column_changes("n", &a, &a).is_empty());
}

#[test]
fn changed_index_is_dropped_and_created_again() {
    let old = Snapshot::from_registry(&registry(vec![users()]));
    let mut u = users();
    u.indexes[0].unique = true;
    u.indexes.push(IndexDef { name: "idx_a".to_string(), columns: vec!["id".to_string()], unique: false });
    let ops = diff(&old, &registry(vec![u]));
    assert_eq!(ops.len(), 3);
    assert!(matches!(&ops[0], Operation::DropIndex { name } if name == "idx_users_name"));
    assert!(matches!(&ops[1], Operation::CreateIndex { index, .. } if index.name == "idx_users_name" && index.unique));
    assert!(matches!(&ops[2], Operation::CreateIndex { index, .. } if index.name == "idx_a"));
}

#[test]
fn enums_are_created_altered_and_dropped() {
    let mut old_schema = registry(Vec::new());
    old_schema.enums.push(EnumDef { name: "mood".to_string(), variants: vec!["sad".to_string(), "ok".to_string()] });
    old_schema.enums.push(EnumDef { name: "gone".to_string(), variants: vec!["x".to_string()] });
    let old = Snapshot::from_registry(&old_schema);
    let mut new_schema = registry(Vec::new());
    new_schema.enums.push(EnumDef {
        name: "mood".to_string(),
        variants: vec!["ok".to_string(), "happy".to_string(), "glad".to_string()],
    });
    new_schema.enums.push(EnumDef { name: "color".to_string(), variants: vec!["red".to_string()] });
    let new = Snapshot::from_registry(&new_schema);
    let ops = diff_enums(&old, &new);
    assert_eq!(ops.len(), 3);
    assert!(matches!(&ops[0], Operation::DropEnum { name } if name == "gone"));
    assert!(matches!(&ops[1], Operation::CreateEnum { name, variants } if name == "color" && variants == &vec!["red".to_string()]));
    match &ops[2] {
        Operation::AlterEnum { name, added, removed } => {
            assert_eq!(name, "mood");
            assert_eq!(added, &vec!["glad".to_string(), "happy".to_string()]);
            assert_eq!(removed, &vec!["sad".to_string()]);
        },
        other => panic!("unexpected {other:?}"),
    }
}

fn fk(name: &str, on_delete: Option<ForeignKeyAction>) -> ForeignKeyDef {
    ForeignKeyDef {
        name: name.to_string(),
        columns: vec!["author".to_string()],
        ref_table: "users".to_string(),
        ref_columns: vec!["id".to_string()],
        on_delete,
        on_update: None,
    }
}

#[test]
fn foreign_keys_are_dropped_readded_and_added() {
    let mut p = posts();
    p.foreign_keys.push(fk("fk_author", None));
    p.foreign_keys.push(fk("fk_old", None));
    let old = Snapshot::from_registry(&registry(vec![p]));
    let mut q = posts();
    q.foreign_keys.push(fk("fk_author", Some(ForeignKeyAction::Cascade)));
    q.foreign_keys.push(fk("fk_new", None));
    let new = Snapshot::from_registry(&registry(vec![q]));
    let ops = diff_foreign_keys("posts", &old, &new);
    assert_eq!(ops.len(), 4);
    assert!(matches!(&ops[0], Operation::DropForeignKey { name, .. } if name == "fk_author"));
    assert!(matches!(&ops[1], Operation::AddForeignKey { fk, .. } if fk.name == "fk_author" && fk.on_delete == Some(ForeignKeyAction::Cascade)));
    assert!(matches!(&ops[2], Operation::DropForeignKey { name, .. } if name == "fk_old"));
    assert!(matches!(&ops[3], Operation::AddForeignKey { fk, .. } if fk.name == "fk_new"));
    assert!(diff_foreign_keys("nowhere", &old, &new).is_empty());
}

#[test]
fn changed_check_is_dropped_and_added_again() {
    let mut ops = Vec::new();
    let old = vec![("ck_a".to_string(), "a > 0".to_string()), ("ck_b".to_string(), "b > 0".to_string())];
    let new = vec![("ck_a".to_string(), "a > 1".to_string()), ("ck_b".to_string(), "b > 0".to_string())];
    diff_check_constraints_inner(&mut ops, "t", &old, &new);
    assert_eq!(ops.len(), 2);
    assert!(matches!(&ops[0], Operation::DropCheckConstraint { table, name } if table == "t" && name == "ck_a"));
    assert!(matches!(&ops[1], Operation::AddCheckConstraint { name, expr, .. } if name == "ck_a" && expr == "a > 1"));
}

struct Renamer;

impl RenameResolver for Renamer {
    fn resolve_tables(&self, added: &[String], removed: &[String]) -> Vec<(String, String)> {
        if added.len() == 1 && removed.len() == 1 {
            vec![(removed[0].clone(), added[0].clone())]
        } else {
            Vec::new()
        }
    }

    fn resolve_columns(&self, _table: &str, added: &[String], removed: &[String]) -> Vec<(String, String)> {
        if added.len() == 1 && removed.len() == 1 {
            vec![(removed[0].clone(), added[0].clone())]
        } else {
            Vec::new()
        }
    }
}

#[test]
fn resolver_turns_drop_and_create_into_renames() {
    let old = Snapshot::from_registry(&registry(vec![posts()]));
    let mut articles = TableDef::new(
        "articles",
        vec![ColumnDef::new("id", ColumnType::Integer), ColumnDef::new("writer", ColumnType::Integer)],
    );
    articles.indexes.clear();
    let schema = registry(vec![articles]);
    let ops = diff_with_resolver(&old, &schema, &Renamer);
    assert_eq!(ops.len(), 2);
    assert!(matches!(&ops[0], Operation::RenameTable { old, new } if old == "posts" && new == "articles"));
    assert!(matches!(&ops[1], Operation::RenameColumn { table, old, new } if table == "articles" && old == "author" && new == "writer"));
    let plain = diff_with_resolver(&old, &schema, &NoRenames);
    assert!(matches!(&plain[0], Operation::DropTable { name } if name == "posts"));
    assert!(matches!(&plain[1], Operation::CreateTable { table } if table.name == "articles"));
}

fn articles() -> TableDef {
    let mut a = TableDef::new(
        "articles",
        vec![ColumnDef::new("id", ColumnType::Integer), ColumnDef::new("writer", ColumnType::Integer)],
    );
    a.indexes.clear();
    a
}

#[test]
fn column_question_follows_the_table_rename() {
    let old = Snapshot::from_registry(&registry(vec![posts()]));
    let schema = registry(vec![articles()]);
    let new = Snapshot::from_registry(&schema);
    let (added, removed) = added_and_removed_tables(&old, &new);
    assert_eq!(added, vec!["articles".to_string()]);
    assert_eq!(removed, vec!["posts".to_string()]);
    let renamed = column_rename_requests(&old, &new, &schema, &vec![("posts".to_string(), "articles".to_string())]);
    assert_eq!(
        renamed,
        vec![Some(("articles".to_string(), vec!["writer".to_string()], vec!["author".to_string()]))]
    );
    let unrenamed = column_rename_requests(&old, &new, &schema, &Vec::new());
    assert_eq!(unrenamed, vec![None]);
}

#[test]
fn column_question_of_a_kept_table_lists_its_new_and_gone_columns() {
    let old = Snapshot::from_registry(&registry(vec![users()]));
    let mut u = users();
    u.columns.push(ColumnDef::new("email", ColumnType::Text));
    let schema = registry(vec![u]);
    let new = Snapshot::from_registry(&schema);
    let questions = column_rename_requests(&old, &new, &schema, &Vec::new());
    assert_eq!(questions, vec![Some(("users".to_string(), vec!["email".to_string()], Vec::new()))]);
}

#[test]
fn resolver_answers_are_handed_back_as_given() {
    let old = Snapshot::from_registry(&registry(vec![posts()]));
    let schema = registry(vec![articles()]);
    let new = Snapshot::from_registry(&schema);
    let (tables, columns) = resolve_renames(&Renamer, &old, &new, &schema);
    assert_eq!(tables, vec![("posts".to_string(), "articles".to_string())]);
    assert_eq!(columns, vec![vec![("author".to_string(), "writer".to_string())]]);
    let (tables, columns) = resolve_renames(&NoRenames, &old, &new, &schema);
    assert!(tables.is_empty());
    assert_eq!(columns, vec![Vec::<(String, String)>::new()]);
}

#[test]
fn diff_is_diff_with_resolver_that_picks_no_renames() {
    let cases = vec![
        (Snapshot::empty(), registry(vec![users(), posts()])),
        (Snapshot::from_registry(&registry(vec![posts()])), registry(vec![articles()])),
        (Snapshot::from_registry(&registry(vec![users(), posts()])), registry(vec![users()])),
    ];
    for (old, schema) in &cases {
        let plain = format!("{:?}", diff(old, schema));
        let resolved = format!("{:?}", diff_with_resolver(old, schema, &NoRenames));
        assert_eq!(plain, resolved);
    }
}

#[test]
fn snapshot_well_formedness_is_checked() {
    let mut schema = registry(vec![users(), posts()]);
    schema.enums.push(EnumDef { name: "mood".to_string(), variants: vec!["sad".to_string()] });
    assert!(Snapshot::empty().is_well_formed());
    assert!(Snapshot::from_registry(&schema).is_well_formed());
    let mut swapped = Snapshot::from_registry(&schema);
    swapped.tables.swap(0, 1);
    assert!(!swapped.is_well_formed());
    let mut columns_out_of_order = Snapshot::from_registry(&schema);
    columns_out_of_order.tables[1].columns.swap(0, 1);
    assert!(!columns_out_of_order.tables[1].is_well_formed());
    assert!(!columns_out_of_order.is_well_formed());
    let mut twice = Snapshot::from_registry(&schema);
    twice.enums.push(EnumDef { name: "mood".to_string(), variants: Vec::new() });
    assert!(!twice.is_well_formed());
}

#[test]
fn enum_operations_lead_the_diff() {
    let mut old_schema = registry(vec![posts()]);
    old_schema.enums.push(EnumDef { name: "gone".to_string(), variants: vec!["x".to_string()] });
    let old = Snapshot::from_registry(&old_schema);
    let mut new_schema = registry(vec![articles(), users()]);
    new_schema.enums.push(EnumDef { name: "color".to_string(), variants: vec!["red".to_string()] });
    let enums = diff_enums(&old, &Snapshot::from_registry(&new_schema));
    let ops = diff_with_resolver(&old, &new_schema, &Renamer);
    assert_eq!(enums.len(), 2);
    assert_eq!(format!("{:?}", &ops[..2]), format!("{:?}", enums));
    assert!(ops.len() > 2);
    for op in &ops[2..] {
        assert!(!matches!(op, Operation::CreateEnum { .. } | Operation::AlterEnum { .. } | Operation::DropEnum { .. }));
    }
}
