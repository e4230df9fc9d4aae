use schema_drift::audit::{compare_columns, schema, table_target, unwrap_to_default_namespace, Issue, Syntax};
use schema_drift::columns::{Column, ColumnDef, Diff};
use schema_drift::equivalence::{are_equivalent_types, EquivalenceGroup};
use schema_drift::matcher::{build_diff, build_diffs, struct_added, struct_missing, zip_by_name};

fn db(name: &str, ty: &str, null: bool) -> ColumnDef {
    ColumnDef { name: name.to_string(), ty: ty.to_string(), null }
}

fn field(name: &str, ty: &str, nullable: bool) -> Column {
    Column { name: name.to_string(), rust_type: ty.to_string(), nullable }
}

fn group(types: &[&str]) -> EquivalenceGroup {
    EquivalenceGroup { types: types.iter().map(|t| t.to_string()).collect() }
}

fn s(text: &str) -> String {
    text.to_string()
}

fn sample_table() -> Vec<ColumnDef> {
    vec![db("id", "INT4", false), db("name", "TEXT", true)]
}

#[test]
fn scenario_added_and_missing_columns() {
    let table = sample_table();
    let model = vec![field("id", "i32", false), field("email", "string", true)];
    let groups = vec![group(&["INT4", "i32"])];
    let ns = Some(s("public"));
    let issues = compare_columns(&ns, &s("users"), &table, &model, &groups);
    assert_eq!(
        issues,
        vec![
            Issue::ColumnAddedInModel {
                namespace: ns.clone(),
                tablename: s("users"),
                column: field("email", "string", true),
            },
            Issue::ColumnMissingInModel { namespace: ns.clone(), tablename: s("users"), column: db("name", "TEXT", true) },
        ]
    );
}

#[test]
fn scenario_changed_types_and_nullability() {
    let table = sample_table();
    let model = vec![field("id", "i64", false), field("name", "string", false)];
    let groups = vec![group(&["INT4", "i32"])];
    let diffs = build_diffs(&groups, &table, &model);
    assert_eq!(
        diffs,
        vec![
            Diff {
                column: s("id"),
                db_type: s("INT4"),
                db_nullable: false,
                model_type: s("i64"),
                model_nullable: false,
                type_changed: true,
            },
            Diff {
                column: s("name"),
                db_type: s("TEXT"),
                db_nullable: true,
                model_type: s("string"),
                model_nullable: false,
                type_changed: true,
            },
        ]
    );
    assert!(struct_added(&table, &model).is_empty());
    assert!(struct_missing(&table, &model).is_empty());
}

#[test]
fn scenario_default_namespace_reaches_lookup() {
    let identifier = vec![s("users")];
    assert_eq!(table_target(&identifier, Syntax::Mssql), (Some(s("dbo")), s("users")));
    assert_eq!(table_target(&identifier, Syntax::Postgres), (Some(s("public")), s("users")));
    assert_eq!(table_target(&identifier, Syntax::Mysql), (None, s("users")));
    assert_eq!(table_target(&identifier, Syntax::Sqlite), (None, s("users")));
}

#[test]
fn declared_namespace_is_kept() {
    let identifier = vec![s("db"), s("sales"), s("orders")];
    assert_eq!(table_target(&identifier, Syntax::Postgres), (Some(s("sales")), s("orders")));
    assert_eq!(table_target(&identifier, Syntax::Mysql), (Some(s("sales")), s("orders")));
    assert_eq!(unwrap_to_default_namespace(Some(s("hr")), Syntax::Mssql), Some(s("hr")));
    assert_eq!(unwrap_to_default_namespace(None, Syntax::Mssql), Some(s("dbo")));
}

#[test]
fn no_shared_names_means_all_added_and_missing() {
    let table = vec![db("a", "INT4", false), db("b", "TEXT", true)];
    let model = vec![field("c", "i32", false), field("d", "string", true), field("e", "bool", false)];
    assert_eq!(struct_added(&table, &model), model);
    assert_eq!(struct_missing(&table, &model), table);
    assert!(build_diffs(&[], &table, &model).is_empty());
    assert!(zip_by_name(&table, &model).is_empty());
}

#[test]
fn identical_columns_have_no_changes() {
    let table = vec![db("id", "INT4", false), db("name", "TEXT", true)];
    let model = vec![field("name", "TEXT", true), field("id", "INT4", false)];
    assert!(build_diffs(&[], &table, &model).is_empty());
    assert!(compare_columns(&None, &s("t"), &table, &model, &[]).is_empty());
}

#[test]
fn equivalence_is_reflexive_and_symmetric() {
    let groups = vec![group(&["TEXT", "VARCHAR", "NVARCHAR"]), group(&["INT4", "INT", "SERIAL"])];
    assert!(are_equivalent_types(&groups, &s("UNKNOWN"), &s("UNKNOWN")));
    assert!(are_equivalent_types(&[], &s("TEXT"), &s("TEXT")));
    assert!(are_equivalent_types(&groups, &s("VARCHAR"), &s("NVARCHAR")));
    assert!(are_equivalent_types(&groups, &s("NVARCHAR"), &s("VARCHAR")));
    assert!(!are_equivalent_types(&groups, &s("TEXT"), &s("INT4")));
    assert!(!are_equivalent_types(&groups, &s("INT4"), &s("TEXT")));
    assert!(!are_equivalent_types(&groups, &s("text"), &s("TEXT")));
}

#[test]
fn missing_table_is_the_only_issue() {
    let model = vec![field("id", "i32", false), field("email", "string", true)];
    let r: Result<Vec<Issue>, String> = schema(Some(s("public")), s("users"), Ok(None), &model, &[]);
    assert_eq!(r, Ok(vec![Issue::MissingTable { namespace: Some(s("public")), tablename: s("users") }]));
    let r: Result<Vec<Issue>, String> = schema(None, s("users"), Ok(None), &[], &[]);
    assert_eq!(r, Ok(vec![Issue::MissingTable { namespace: None, tablename: s("users") }]));
}

#[test]
fn catalog_failure_is_passed_on() {
    let model = vec![field("id", "i32", false)];
    let r: Result<Vec<Issue>, String> = schema(None, s("users"), Err(s("connection refused")), &model, &[]);
    assert_eq!(r, Err(s("connection refused")));
}

#[test]
fn issues_come_added_then_changed_then_missing() {
    let table = vec![db("gone", "TEXT", true), db("id", "INT4", false), db("old", "INT4", true)];
    let model = vec![field("id", "i64", false), field("fresh", "string", true)];
    let r: Result<Vec<Issue>, String> = schema(None, s("t"), Ok(Some(table)), &model, &[]);
    let issues = r.unwrap();
    assert_eq!(issues.len(), 4);
    assert!(matches!(&issues[0], Issue::ColumnAddedInModel { column, .. } if column.name == "fresh"));
    assert!(matches!(&issues[1], Issue::ColumnChanged { diff, .. } if diff.column == "id" && diff.type_changed));
    assert!(matches!(&issues[2], Issue::ColumnMissingInModel { column, .. } if column.name == "gone"));
    assert!(matches!(&issues[3], Issue::ColumnMissingInModel { column, .. } if column.name == "old"));
}

#[test]
fn audit_twice_gives_the_same_issues() {
    let model = vec![field("id", "i64", false), field("email", "string", true)];
    let groups = vec![group(&["TEXT", "string"])];
    let first: Result<Vec<Issue>, String> = schema(Some(s("public")), s("users"), Ok(Some(sample_table())), &model, &groups);
    let second: Result<Vec<Issue>, String> = schema(Some(s("public")), s("users"), Ok(Some(sample_table())), &model, &groups);
    assert_eq!(first, second);
    assert_eq!(first.unwrap().len(), 3);
}

#[test]
fn nullability_alone_is_a_change_without_type_change() {
    let groups = vec![group(&["INT4", "i32"])];
    let d = build_diff(&groups, &db("id", "INT4", true), &field("id", "i32", false));
    assert_eq!(
        d,
        Some(Diff {
            column: s("id"),
            db_type: s("INT4"),
            db_nullable: true,
            model_type: s("i32"),
            model_nullable: false,
            type_changed: false,
        })
    );
    assert_eq!(build_diff(&groups, &db("id", "INT4", false), &field("id", "i32", false)), None);
}

#[test]
fn empty_inputs_give_no_issues() {
    assert!(struct_added(&[], &[]).is_empty());
    assert!(struct_missing(&[], &[]).is_empty());
    assert!(build_diffs(&[], &[], &[]).is_empty());
    let r: Result<Vec<Issue>, String> = schema(None, s("t"), Ok(Some(vec![])), &[], &[]);
    assert_eq!(r, Ok(vec![]));
}

#[test]
fn duplicate_model_names_each_meet_the_first_table_column() {
    let table = vec![db("id", "INT4", false)];
    let model = vec![field("id", "INT4", false), field("id", "TEXT", true)];
    assert_eq!(
        zip_by_name(&table, &model),
        vec![(db("id", "INT4", false), field("id", "INT4", false)), (db("id", "INT4", false), field("id", "TEXT", true))]
    );
    assert_eq!(
        build_diffs(&[], &table, &model),
        vec![Diff {
            column: s("id"),
            db_type: s("INT4"),
            db_nullable: false,
            model_type: s("TEXT"),
            model_nullable: true,
            type_changed: true,
        }]
    );
    let r: Result<Vec<Issue>, String> = schema(None, s("t"), Ok(Some(table)), &model, &[]);
    assert_eq!(r.unwrap().len(), 1);
}

#[test]
fn duplicate_table_names_match_only_the_first() {
    let table = vec![db("id", "INT4", false), db("id", "TEXT", true)];
    let model = vec![field("id", "INT4", false)];
    assert_eq!(zip_by_name(&table, &model), vec![(db("id", "INT4", false), field("id", "INT4", false))]);
    assert!(build_diffs(&[], &table, &model).is_empty());
    assert!(struct_missing(&table, &model).is_empty());
    assert!(struct_added(&table, &model).is_empty());
}

#[test]
fn matching_is_exact_on_names() {
    let table = vec![db("Id", "INT4", false)];
    let model = vec![field("id ", "INT4", false)];
    assert_eq!(struct_added(&table, &model), model);
    assert_eq!(struct_missing(&table, &model), table);
}
