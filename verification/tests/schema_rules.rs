use toolu_orm_core::column::{ColumnDef, ColumnType};
use toolu_orm_core::diff::fts5_sync::{trigger_operations, validate as validate_sync};
use toolu_orm_core::diff::policy::{diff_row_security, validate as validate_policies};
use toolu_orm_core::diff::virtual_tables::{
    check_new_virtual_table, check_virtual_pair, content_table_reason, option_value, try_recreate_from_content,
    VirtualPairCheck,
};
use toolu_orm_core::diff::Operation;
use toolu_orm_core::error::DbCoreError;
use toolu_orm_core::fts5::Fts5Sync;
use toolu_orm_core::schema::{IndexDef, PolicyCommand, PolicyDef, RowSecurity, SchemaRegistry, TableDef, TableKind};
use toolu_orm_core::snapshot::{Snapshot, SnapshotTable};

fn registry(tables: Vec<TableDef>) -> SchemaRegistry {
    SchemaRegistry { tables, enums: Vec::new() }
}

fn policy(name: &str, command: PolicyCommand, using: Option<&str>, with_check: Option<&str>) -> PolicyDef {
    PolicyDef {
        name: name.to_string(),
        command,
        using: using.map(|s| s.to_string()),
        with_check: with_check.map(|s| s.to_string()),
    }
}

fn secured(policies: Vec<PolicyDef>, force: bool) -> TableDef {
    let mut t = TableDef::new("docs", vec![ColumnDef::new("id", ColumnType::Integer)]);
    t.row_security = Some(RowSecurity { force, policies });
    t
}

fn policy_error(t: TableDef) -> (String, String, String) {
    match validate_policies(&registry(vec![t])) {
        Err(DbCoreError::PolicyInvalid { table, policy, reason }) => (table, policy, reason),
        other => panic!("expected a refusal, got {other:?}"),
    }
}

#[test]
fn valid_policies_pass() {
    let t = secured(vec![policy("owner", PolicyCommand::Select, Some("owner = current_user"), None)], false);
    assert!(validate_policies(&registry(vec![t])).is_ok());
}

#[test]
fn policies_postgres_would_refuse_are_named() {
    let (table, p, reason) = policy_error(secured(vec![policy("", PolicyCommand::All, Some("true"), None)], false));
    assert_eq!((table.as_str(), p.as_str(), reason.as_str()), ("docs", "", "the policy has no name"));
    let (_, p, reason) = policy_error(secured(
        vec![policy("a", PolicyCommand::All, Some("true"), None), policy("a", PolicyCommand::All, Some("true"), None)],
        false,
    ));
    assert_eq!((p.as_str(), reason.as_str()), ("a", "another policy on this table already has that name"));
    let (_, _, reason) = policy_error(secured(vec![policy("a", PolicyCommand::All, None, None)], false));
    assert_eq!(reason, "it has neither a USING nor a WITH CHECK expression");
    let (_, _, reason) = policy_error(secured(vec![policy("a", PolicyCommand::Insert, Some("x"), None)], false));
    assert_eq!(reason, "a FOR INSERT policy cannot have a USING expression");
    let (_, _, reason) = policy_error(secured(vec![policy("a", PolicyCommand::Delete, Some("x"), Some("y"))], false));
    assert_eq!(reason, "a FOR DELETE policy cannot have a WITH CHECK expression");
}

#[test]
fn virtual_table_cannot_carry_row_security() {
    let mut t = secured(Vec::new(), false);
    t.kind = TableKind::Virtual { module: "fts5".to_string(), args: Vec::new() };
    let (table, p, reason) = policy_error(t);
    assert_eq!((table.as_str(), p.as_str(), reason.as_str()), ("docs", "", "a virtual table cannot carry row security"));
}

#[test]
fn row_security_changes_become_flag_and_policy_operations() {
    let old = Snapshot::from_registry(&registry(vec![secured(
        vec![policy("keep", PolicyCommand::Select, Some("true"), None), policy("edit", PolicyCommand::Update, Some("a"), None)],
        false,
    )]));
    let new = Snapshot::from_registry(&registry(vec![secured(
        vec![policy("keep", PolicyCommand::Select, Some("true"), None), policy("edit", PolicyCommand::Update, Some("b"), None)],
        true,
    )]));
    let ops = diff_row_security("docs", &old, &new);
    assert_eq!(ops.len(), 3);
    assert!(matches!(&ops[0], Operation::AlterRowLevelSecurity { table, enabled: true, force: true } if table == "docs"));
    assert!(matches!(&ops[1], Operation::DropPolicy { name, .. } if name == "edit"));
    assert!(matches!(&ops[2], Operation::CreatePolicy { policy, .. } if policy.name == "edit" && policy.using.as_deref() == Some("b")));
    assert!(diff_row_security("docs", &new, &new).is_empty());
}

#[test]
fn disabling_row_security_drops_every_policy() {
    let old = Snapshot::from_registry(&registry(vec![secured(vec![policy("p", PolicyCommand::All, Some("true"), None)], false)]));
    let new = Snapshot::from_registry(&registry(vec![TableDef::new("docs", vec![ColumnDef::new("id", ColumnType::Integer)])]));
    let ops = diff_row_security("docs", &old, &new);
    assert_eq!(ops.len(), 2);
    assert!(matches!(&ops[0], Operation::AlterRowLevelSecurity { enabled: false, force: false, .. }));
    assert!(matches!(&ops[1], Operation::DropPolicy { name, .. } if name == "p"));
}

fn fts(args: Vec<&str>, columns: Vec<&str>) -> TableDef {
    let mut t = TableDef::new("docs_fts", columns.iter().map(|c| ColumnDef::new(c, ColumnType::Text)).collect());
    t.kind = TableKind::Virtual { module: "fts5".to_string(), args: args.iter().map(|a| a.to_string()).collect() };
    t
}

fn content() -> TableDef {
    TableDef::new(
        "docs",
        vec![ColumnDef::new("id", ColumnType::Integer), ColumnDef::new("title", ColumnType::Text), ColumnDef::new("body", ColumnType::Text)],
    )
}

#[test]
fn option_value_reads_quoted_values() {
    let args = vec!["tokenize = 'porter'".to_string(), "content = 'it''s'".to_string()];
    assert_eq!(option_value(&args, "content"), Some("it's".to_string()));
    assert_eq!(option_value(&args, "tokenize"), Some("porter".to_string()));
    assert_eq!(option_value(&args, "content_rowid"), None);
    assert_eq!(option_value(&vec!["content = 'open".to_string()], "content"), None);
    assert_eq!(option_value(&vec!["content = '".to_string()], "content"), None);
}

#[test]
fn new_virtual_table_may_not_declare_indexes() {
    let mut t = fts(Vec::new(), vec!["title"]);
    assert!(check_new_virtual_table(&t).is_ok());
    t.indexes.push(IndexDef { name: "i".to_string(), columns: vec!["title".to_string()], unique: false });
    assert!(matches!(
        check_new_virtual_table(&t),
        Err(DbCoreError::VirtualTableChange { table, reason }) if table == "docs_fts" && reason == "virtual tables cannot declare indexes"
    ));
}

fn pair(old: &TableDef, new: &TableDef, schema: &SchemaRegistry, renamed: bool) -> Result<VirtualPairCheck, DbCoreError> {
    check_virtual_pair(
        new.name.as_str(),
        &SnapshotTable::from_table(old),
        &SnapshotTable::from_table(new),
        new,
        schema,
        renamed,
    )
}

fn refusal(r: Result<VirtualPairCheck, DbCoreError>) -> String {
    match r {
        Err(DbCoreError::VirtualTableChange { reason, .. }) => reason,
        Err(other) => panic!("unexpected error {other:?}"),
        Ok(_) => panic!("expected a refusal"),
    }
}

#[test]
fn virtual_pairs_refuse_in_place_changes() {
    let plain = content();
    let schema = registry(vec![content()]);
    assert!(matches!(pair(&plain, &plain, &schema, false), Ok(VirtualPairCheck::Ordinary)));
    let v = fts(vec!["content = 'docs'"], vec!["title"]);
    assert!(matches!(pair(&v, &v, &schema, false), Ok(VirtualPairCheck::Unchanged)));
    let mut became = v.duplicate();
    became.name = "docs".to_string();
    assert_eq!(refusal(pair(&plain, &became, &schema, false)), "it became a virtual table using fts5");
    let mut other_module = fts(Vec::new(), vec!["title"]);
    other_module.kind = TableKind::Virtual { module: "vec0".to_string(), args: Vec::new() };
    assert_eq!(refusal(pair(&v, &other_module, &schema, false)), "its module changed from fts5 to vec0");
    let wider = fts(vec!["content = 'docs'"], vec!["title", "body"]);
    assert_eq!(refusal(pair(&v, &wider, &schema, true)), "its columns changed");
}

#[test]
fn fts5_change_with_content_table_is_rebuilt() {
    let schema = registry(vec![content()]);
    let v = fts(vec!["content = 'docs'"], vec!["title"]);
    let wider = fts(vec!["content = 'docs'", "content_rowid = 'id'"], vec!["title", "body"]);
    match pair(&v, &wider, &schema, false) {
        Ok(VirtualPairCheck::Recreate(Operation::RecreateFts5FromContent { table })) => assert_eq!(table.name, "docs_fts"),
        _ => panic!("expected a rebuild"),
    }
    let missing = fts(vec!["content = 'docs'"], vec!["title", "summary"]);
    assert_eq!(refusal(pair(&v, &missing, &schema, false)), r#"its content table "docs" is missing column "summary""#);
    let no_content = fts(vec!["content = 'nowhere'"], vec!["title"]);
    assert_eq!(refusal(pair(&v, &no_content, &schema, false)), r#"its content table "nowhere" is not in the schema"#);
    let contentless = fts(vec!["tokenize = 'porter'"], vec!["title"]);
    assert_eq!(refusal(pair(&v, &contentless, &schema, false)), "its module arguments changed");
    assert!(matches!(try_recreate_from_content("docs_fts", &contentless, &schema), Ok(None)));
}

#[test]
fn content_table_reason_checks_the_rowid_column() {
    let schema = registry(vec![content()]);
    let cols = vec!["title".to_string()];
    assert_eq!(content_table_reason(&schema, "docs", &cols, Some(&"id".to_string())), None);
    assert_eq!(
        content_table_reason(&schema, "docs", &cols, Some(&"rid".to_string())),
        Some(r#"its content table "docs" is missing content_rowid column "rid""#.to_string())
    );
    let schema2 = registry(vec![fts(Vec::new(), vec!["title"])]);
    assert_eq!(
        content_table_reason(&schema2, "docs_fts", &cols, None),
        Some(r#"its content table "docs_fts" is not an ordinary table"#.to_string())
    );
}

fn synced(columns: Vec<&str>) -> TableDef {
    let mut t = fts(vec!["content = 'docs'"], columns.clone());
    t.fts5_sync = Some(Fts5Sync {
        content_table: "docs".to_string(),
        content_rowid: "id".to_string(),
        columns: columns.iter().map(|c| c.to_string()).collect(),
    });
    t
}

#[test]
fn sync_declarations_are_validated() {
    assert!(validate_sync(&registry(vec![content(), synced(vec!["title"])])).is_ok());
    let mut plain = content();
    plain.fts5_sync = synced(vec!["title"]).fts5_sync;
    assert!(matches!(
        validate_sync(&registry(vec![plain])),
        Err(DbCoreError::Fts5SyncInvalid { table, reason }) if table == "docs" && reason == "only an fts5 virtual table can synchronize a content table"
    ));
    let empty = synced(Vec::new());
    assert!(matches!(
        validate_sync(&registry(vec![content(), empty])),
        Err(DbCoreError::Fts5SyncInvalid { reason, .. }) if reason == "it declares no columns, so there is nothing to synchronize"
    ));
    assert!(matches!(
        validate_sync(&registry(vec![synced(vec!["title"])])),
        Err(DbCoreError::Fts5SyncInvalid { reason, .. }) if reason == r#"its content table "docs" is not in the schema"#
    ));
}

#[test]
fn trigger_plan_creates_changes_and_drops() {
    let schema = registry(vec![content(), synced(vec!["title"])]);
    let added = vec!["docs_fts".to_string()];
    let ops = trigger_operations(&Snapshot::empty(), &schema, &Vec::new(), &Vec::new(), &added);
    assert_eq!(ops.len(), 1);
    assert!(matches!(&ops[0], Operation::CreateFts5SyncTriggers { table, .. } if table == "docs_fts"));

    let old = Snapshot::from_registry(&schema);
    assert!(trigger_operations(&old, &schema, &Vec::new(), &Vec::new(), &Vec::new()).is_empty());

    let wider = registry(vec![content(), synced(vec!["title", "body"])]);
    let ops = trigger_operations(&old, &wider, &Vec::new(), &Vec::new(), &Vec::new());
    assert_eq!(ops.len(), 2);
    assert!(matches!(&ops[0], Operation::DropFts5SyncTriggers { table } if table == "docs_fts"));
    assert!(matches!(&ops[1], Operation::CreateFts5SyncTriggers { table, .. } if table == "docs_fts"));

    let gone = registry(vec![content()]);
    let ops = trigger_operations(&old, &gone, &Vec::new(), &Vec::new(), &Vec::new());
    assert_eq!(ops.len(), 1);
    assert!(matches!(&ops[0], Operation::DropFts5SyncTriggers { table } if table == "docs_fts"));
}
