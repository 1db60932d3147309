use toolu_orm_core::alias::{quote_ident, TableRef};
use toolu_orm_core::column::{Integer, Text};
use toolu_orm_core::dialect::Dialect;
use toolu_orm_core::error::DbCoreError;
use toolu_orm_core::expr::binding::{BindSource, ListSource};
use toolu_orm_core::expr::raw_params::number_raw_params;
use toolu_orm_core::expr::{like_pattern_literal, BoundParams, Expr, JoinCondition, Scalar, SharedBind, SharedBindList};
use toolu_orm_core::query_column::{Column, CommonOps, NumericOps, SharedOps, TextOps};
use toolu_orm_core::value::Value;

#[test]
fn join_condition_mixes_column_equality_and_bound_comparison() {
    let f_repo: Column<Text> = Column::new("feedback", "repo");
    let c_repo: Column<Text> = Column::new("symbols", "repo");
    let f_live: Column<Integer> = Column::new("feedback", "live");
    let (sql, params) = f_repo
        .equals(&c_repo)
        .and(JoinCondition::on(f_live.eq(Value::Integer(1))))
        .to_sql_fragment_for(1, Dialect::Sqlite);
    assert_eq!(sql, r#"("feedback"."repo" = "symbols"."repo" AND "feedback"."live" = ?1)"#);
    assert_eq!(params.len(), 1);
}

#[test]
fn shared_bind_renders_one_placeholder_for_every_use() {
    let src: Column<Text> = Column::new("edges", "src_id");
    let dst: Column<Text> = Column::new("edges", "dst_id");
    let node = SharedBind::new(Value::Text("file:a.rs".to_string()));
    let (sql, params) = src.eq_shared(&node).or(dst.eq_shared(&node)).to_sql_fragment_for(1, Dialect::Sqlite);
    assert_eq!(sql, r#"("edges"."src_id" = ?1 OR "edges"."dst_id" = ?1)"#);
    assert_eq!(params.len(), 1);
}

#[test]
fn two_shared_handles_of_equal_values_bind_separately() {
    let src: Column<Text> = Column::new("edges", "src_id");
    let a = SharedBind::new(Value::Text("x".to_string()));
    let b = SharedBind::new(Value::Text("x".to_string()));
    let (sql, params) = src.eq_shared(&a).or(src.eq_shared(&b)).to_sql_fragment_for(1, Dialect::Sqlite);
    assert_eq!(sql, r#"("edges"."src_id" = ?1 OR "edges"."src_id" = ?2)"#);
    assert_eq!(params.len(), 2);
}

#[test]
fn shared_bind_list_renders_one_run_for_every_use() {
    let src: Column<Text> = Column::new("edges", "src_id");
    let dst: Column<Text> = Column::new("edges", "dst_id");
    let files = SharedBindList::new(vec![Value::Text("a.rs".to_string()), Value::Text("b.rs".to_string())]);
    let (sql, params) = src.in_shared(&files).or(dst.in_shared(&files)).to_sql_fragment_for(1, Dialect::Sqlite);
    assert_eq!(sql, r#"("edges"."src_id" IN (?1, ?2) OR "edges"."dst_id" IN (?1, ?2))"#);
    assert_eq!(params.len(), 2);
}

#[test]
fn empty_in_list_renders_constant_and_binds_nothing() {
    let id: Column<Integer> = Column::new("t", "id");
    let (sql, params) = id.in_list(&[]).to_sql_fragment_for(1, Dialect::Sqlite);
    assert_eq!(sql, "1 = 0");
    assert!(params.is_empty());
    let (sql, params) = id.not_in(&[]).to_sql_fragment_for(1, Dialect::Sqlite);
    assert_eq!(sql, "1 = 1");
    assert!(params.is_empty());
}

#[test]
fn in_list_numbers_from_start_on_postgres() {
    let id: Column<Integer> = Column::new("t", "id");
    let (sql, params) = id
        .in_list(&[Value::Integer(1), Value::Integer(2), Value::Integer(3)])
        .to_sql_fragment_for(4, Dialect::Postgres);
    assert_eq!(sql, r#""t"."id" IN ($4, $5, $6)"#);
    assert_eq!(params.len(), 3);
}

#[test]
fn scalar_function_renders_with_dialect_placeholder() {
    let cutoff = Scalar::func("datetime", vec![Scalar::bind(Value::Text("2026-09-18T10:00:00Z".to_string()))]).unwrap();
    let (sql, params) = cutoff.to_sql_fragment_for(2, Dialect::Postgres);
    assert_eq!(sql, "datetime($2)");
    assert_eq!(params.len(), 1);
}

#[test]
fn scalar_function_refuses_a_name_that_is_not_an_identifier() {
    let r = Scalar::func("drop table t; --", Vec::new());
    assert!(matches!(r, Err(DbCoreError::InvalidScalarFunction { ref name }) if name == "drop table t; --"));
    assert!(Scalar::func("1abc", Vec::new()).is_err());
    assert!(Scalar::func("", Vec::new()).is_err());
    assert!(Scalar::func("_ok9", Vec::new()).is_ok());
}

#[test]
fn case_when_numbers_predicate_then_and_else_in_order() {
    let hits: Column<Integer> = Column::new("memories", "access_count");
    let label = Scalar::case_when(hits.gt(Value::Integer(0)), Scalar::bind(Value::Text("hot".to_string())))
        .otherwise(Scalar::bind(Value::Text("cold".to_string())));
    let (sql, params) = label.to_sql_fragment_for(1, Dialect::Sqlite);
    assert_eq!(sql, r#"CASE WHEN "memories"."access_count" > ?1 THEN ?2 ELSE ?3 END"#);
    assert_eq!(params.len(), 3);
}

#[test]
fn excluded_names_the_proposed_row() {
    let workspace: Column<Text> = Column::new("bindings", "workspace_id");
    let keep = Scalar::func("coalesce", vec![Scalar::col(&workspace), Scalar::excluded(&workspace)]).unwrap();
    let (sql, params) = keep.to_sql_fragment_for(1, Dialect::Sqlite);
    assert_eq!(sql, r#"coalesce("bindings"."workspace_id", "excluded"."workspace_id")"#);
    assert!(params.is_empty());
}

#[test]
fn arithmetic_parenthesises_and_binds() {
    let hits: Column<Integer> = Column::new("pages", "hits");
    let bumped = Scalar::col(&hits) + Scalar::bind(Value::Integer(1));
    let (sql, params) = bumped.to_sql_fragment_for(1, Dialect::Sqlite);
    assert_eq!(sql, r#"("pages"."hits" + ?1)"#);
    assert_eq!(params.len(), 1);
    assert!(matches!(params[0], Value::Integer(1)));
}

#[test]
fn like_pattern_literal_escapes_wildcards_and_the_escape() {
    assert_eq!(like_pattern_literal("100%", '\\'), r"100\%");
    assert_eq!(like_pattern_literal("a_b", '\\'), r"a\_b");
    assert_eq!(like_pattern_literal(r"back\slash", '\\'), r"back\\slash");
    assert_eq!(like_pattern_literal("", '\\'), "");
}

#[test]
fn like_escape_renders_the_escape_clause() {
    let name: Column<Text> = Column::new("users", "name");
    let (sql, params) = name
        .like_escape(Value::Text(like_pattern_literal("50%", '!')), '!')
        .to_sql_fragment_for(1, Dialect::Sqlite);
    assert_eq!(sql, r#""users"."name" LIKE ?1 ESCAPE ?2"#);
    assert_eq!(params.len(), 2);
    assert!(matches!(&params[0], Value::Text(t) if t == "50!%"));
    assert!(matches!(&params[1], Value::Text(t) if t == "!"));
}

#[test]
fn table_function_binds_its_arguments() {
    let seeds = TableRef::function("json_each", vec![Value::Text("[1]".to_owned())]).unwrap().with_alias("seeds");
    let (sql, params) = seeds.to_sql_fragment_for(1, Dialect::Sqlite);
    assert_eq!(sql, r#"json_each(?1) AS "seeds""#);
    assert_eq!(params.len(), 1);
    assert!(matches!(
        TableRef::function("drop table t; --", Vec::new()),
        Err(DbCoreError::InvalidTableFunction { .. })
    ));
}

#[test]
fn table_in_database_qualifies_by_table_not_database() {
    let old = TableRef::new("indexed_files").in_database("old");
    assert_eq!(old.to_sql_fragment_for(1, Dialect::Sqlite).0, r#""old"."indexed_files""#);
    assert_eq!(old.qualifier(), "indexed_files");
    assert_eq!(old.table(), "indexed_files");
    assert_eq!(old.database(), Some("old"));
}

#[test]
fn aliased_table_is_qualified_by_its_alias() {
    let t = TableRef::aliased("users", "u");
    assert_eq!(t.qualifier(), "u");
    assert_eq!(t.alias(), Some("u"));
    assert_eq!(t.to_sql(), r#""users" AS "u""#);
}

#[test]
fn quote_ident_doubles_embedded_quotes() {
    assert_eq!(quote_ident("users"), r#""users""#);
    assert_eq!(quote_ident(r#"we"ird"#), r#""we""ird""#);
    assert_eq!(Dialect::Postgres.quote_ident("a"), r#""a""#);
}

#[test]
fn raw_sql_placeholders_are_renumbered_from_start() {
    assert_eq!(number_raw_params("a = ?1 AND b = ?2", 3, Dialect::Sqlite), "a = ?3 AND b = ?4");
    assert_eq!(number_raw_params("a = ?1 AND b = ?1", 5, Dialect::Postgres), "a = $5 AND b = $5");
    let e = Expr::raw("x > ?1", vec![Value::Integer(7)]);
    let (sql, params) = e.to_sql_fragment_for(2, Dialect::Postgres);
    assert_eq!(sql, "x > $2");
    assert_eq!(params.len(), 1);
}

#[test]
fn between_and_null_checks_render() {
    let age: Column<Integer> = Column::new("p", "age");
    let (sql, params) = age.between(Value::Integer(1), Value::Integer(9)).to_sql_fragment_for(1, Dialect::Sqlite);
    assert_eq!(sql, r#""p"."age" BETWEEN ?1 AND ?2"#);
    assert_eq!(params.len(), 2);
    assert_eq!(age.is_null().to_sql_fragment_for(1, Dialect::Sqlite).0, r#""p"."age" IS NULL"#);
    assert_eq!(age.is_not_null().to_sql_fragment_for(1, Dialect::Sqlite).0, r#""p"."age" IS NOT NULL"#);
}

#[test]
fn bound_params_reuse_index_of_a_shared_handle() {
    let mut params = BoundParams::new();
    assert!(params.is_empty());
    assert_eq!(params.next_index(), 1);
    assert_eq!(params.push(Value::Integer(5)), 1);
    assert_eq!(params.next_index(), 2);
    assert_eq!(params.len(), 1);
    let values = params.into_values();
    assert_eq!(values.len(), 1);
}

#[test]
fn order_by_directions_render() {
    let hits: Column<Integer> = Column::new("pages", "hits");
    assert_eq!(Scalar::col(&hits).desc().to_sql(), r#""pages"."hits" DESC"#);
    assert_eq!(toolu_orm_core::expr::OrderBy::alias_asc("total").to_sql(), r#""total" ASC"#);
}

#[test]
fn aggregates_render() {
    let hits: Column<Integer> = Column::new("pages", "hits");
    assert_eq!(Scalar::count_star().to_sql_fragment(1).0, "COUNT(*)");
    assert_eq!(Scalar::count_distinct(Scalar::col(&hits)).to_sql_fragment(1).0, r#"COUNT(DISTINCT "pages"."hits")"#);
    assert_eq!(Scalar::sum(Scalar::col(&hits)).to_sql_fragment(1).0, r#"SUM("pages"."hits")"#);
}

#[test]
fn nested_statement_numbers_after_the_outer_values() {
    let mut params = BoundParams::new();
    assert_eq!(params.push(Value::Integer(1)), 1);
    let inner = params.nested(2, |child| child.push(Value::Integer(2)));
    assert_eq!(inner, 2);
    assert_eq!(params.len(), 2);
    let values = params.into_values();
    assert!(matches!(values[0], Value::Integer(1)));
    assert!(matches!(values[1], Value::Integer(2)));
}

#[test]
fn shared_handles_print_their_value() {
    let node = SharedBind::new(Value::Integer(3));
    assert!(format!("{node:?}").contains("Integer(3)"));
}

#[test]
fn conversions_build_owned_and_shared_sources() {
    let t = TableRef::from("users".to_string());
    assert_eq!(t.to_sql(), r#""users""#);
    let owned = Expr::comparison(r#""t"."a""#.to_string(), "=", BindSource::from(Value::Integer(4)));
    let (sql, params) = owned.to_sql_fragment_for(1, Dialect::Sqlite);
    assert_eq!(sql, r#""t"."a" = ?1"#);
    assert_eq!(params.len(), 1);
    let handle = SharedBind::new(Value::Integer(5));
    let shared = Expr::comparison("x".to_string(), "=", BindSource::from(&handle))
        .or(Expr::comparison("y".to_string(), "=", BindSource::from(&handle)));
    assert_eq!(shared.to_sql_fragment_for(1, Dialect::Sqlite).0, "(x = ?1 OR y = ?1)");
    let list = Expr::in_list("z".to_string(), ListSource::from(vec![Value::Integer(1)]), false);
    assert_eq!(list.to_sql_fragment_for(3, Dialect::Postgres).0, "z IN ($3)");
    let many = SharedBindList::new(vec![Value::Integer(1), Value::Integer(2)]);
    let both = Expr::in_list("a".to_string(), ListSource::from(&many), true);
    assert_eq!(both.to_sql_fragment_for(1, Dialect::Sqlite).0, "a NOT IN (?1, ?2)");
}

#[test]
fn and_numbers_its_right_operand_after_its_left() {
    let left = || {
        Scalar::func("lower", vec![Scalar::bind(Value::Integer(1)), Scalar::bind(Value::Integer(2))])
            .unwrap()
            .eq(Scalar::bind(Value::Integer(3)))
    };
    let right = || Scalar::bind(Value::Integer(4)).lt(Scalar::raw("x + ?1", vec![Value::Integer(5)]));
    let start = 3;
    let (l, pl) = left().to_sql_fragment_for(start, Dialect::Postgres);
    let (r, pr) = right().to_sql_fragment_for(start + pl.len(), Dialect::Postgres);
    let (sql, params) = left().and(right()).to_sql_fragment_for(start, Dialect::Postgres);
    assert_eq!(sql, format!("({l} AND {r})"));
    assert_eq!(sql, "(lower($3, $4) = $5 AND $6 < x + $7)");
    assert_eq!(pl.len(), 3);
    assert_eq!(pr.len(), 2);
    assert_eq!(
        format!("{:?}", params),
        format!("{:?}", vec![Value::Integer(1), Value::Integer(2), Value::Integer(3), Value::Integer(4), Value::Integer(5)])
    );
}

#[test]
fn like_escape_binds_the_escape_after_both_operands() {
    let left = || Scalar::func("lower", vec![Scalar::bind(Value::Text("A".to_owned()))]).unwrap();
    let pattern = || Scalar::bind(Value::Text("a!%".to_owned()));
    let (l, pl) = left().to_sql_fragment_for(2, Dialect::Postgres);
    let (p, pp) = pattern().to_sql_fragment_for(2 + pl.len(), Dialect::Postgres);
    let (sql, params) = left().like_escape(pattern(), '!').to_sql_fragment_for(2, Dialect::Postgres);
    assert_eq!(sql, format!("{l} LIKE {p} ESCAPE ${}", 2 + pl.len() + pp.len()));
    assert_eq!(sql, "lower($2) LIKE $3 ESCAPE $4");
    assert_eq!(
        format!("{:?}", params),
        format!("{:?}", vec![Value::Text("A".to_owned()), Value::Text("a!%".to_owned()), Value::Text("!".to_owned())])
    );
}

#[test]
fn join_condition_to_sql_renders_without_values() {
    let f_repo: Column<Text> = Column::new("feedback", "repo");
    let c_repo: Column<Text> = Column::new("symbols", "repo");
    assert_eq!(f_repo.equals(&c_repo).to_sql(), r#""feedback"."repo" = "symbols"."repo""#);
}
