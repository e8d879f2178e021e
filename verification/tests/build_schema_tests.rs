use supawatch::parsing::build_schema;
use supawatch::sql_ast::{
    SqlAlterOperation, SqlAlterTable, SqlColumnDef, SqlColumnOption, SqlCreateEnum, SqlCreateFunction,
    SqlCreatePolicy, SqlCreateTable, SqlCreateTrigger, SqlFunctionArg, SqlFunctionBody,
    SqlPolicyCommand, SqlStatement, SqlTableConstraint,
};

fn col(name: &str, ty: &str, options: Vec<SqlColumnOption>) -> SqlColumnDef {
    SqlColumnDef { name: name.to_string(), data_type: ty.to_string(), options }
}

#[test]
fn statements_build_a_schema() {
    let stmts = vec![
        SqlStatement::CreateEnumType(SqlCreateEnum {
            name: "mood".to_string(),
            labels: vec!["a".to_string(), "b".to_string()],
        }),
        SqlStatement::CreateTable(SqlCreateTable {
            name: "public.t".to_string(),
            columns: vec![
                col("id", "uuid", vec![SqlColumnOption::NotNull]),
                col("n", "int", vec![SqlColumnOption::Default("0".to_string())]),
            ],
            constraints: vec![SqlTableConstraint::PrimaryKey(vec!["id".to_string()])],
        }),
        SqlStatement::CreateFunction(SqlCreateFunction {
            name: "f".to_string(),
            args: Some(vec![SqlFunctionArg {
                name: Some("x".to_string()),
                data_type: "INT".to_string(),
                default_expr: None,
            }]),
            return_type: Some("TRIGGER".to_string()),
            language: Some("plpgsql".to_string()),
            body: SqlFunctionBody::DollarQuoted("\n BEGIN END; \n".to_string()),
        }),
        SqlStatement::CreateTrigger(SqlCreateTrigger {
            name: "tr".to_string(),
            table_name: "public.t".to_string(),
            period: Some("AFTER".to_string()),
            events: vec!["INSERT".to_string()],
            trigger_object: Some("ROW".to_string()),
            function_name: Some("f".to_string()),
        }),
        SqlStatement::CreatePolicy(SqlCreatePolicy {
            name: "p".to_string(),
            table_name: "t".to_string(),
            command: Some(SqlPolicyCommand::Select),
            to: None,
            using: Some("true".to_string()),
            with_check: None,
        }),
        SqlStatement::AlterTable(SqlAlterTable {
            name: "t".to_string(),
            operations: vec![SqlAlterOperation::EnableRowLevelSecurity],
        }),
        SqlStatement::Other,
    ];
    let s = build_schema(&stmts);
    assert_eq!(s.enums.get("mood").unwrap().values, vec!["a", "b"]);
    let t = s.tables.get("t").expect("table");
    assert!(t.rls_enabled);
    let id = t.columns.get("id").unwrap();
    assert!(id.is_primary_key);
    assert!(!id.is_nullable);
    assert_eq!(t.columns.get("n").unwrap().column_default.as_deref(), Some("0"));
    assert_eq!(t.triggers.len(), 1);
    assert_eq!(t.triggers[0].timing, "AFTER");
    assert_eq!(t.triggers[0].orientation, "ROW");
    assert_eq!(t.policies[0].cmd, "SELECT");
    let f = s.functions.get("f").unwrap();
    assert_eq!(f.return_type, "trigger");
    assert_eq!(f.definition, "BEGIN END;");
    assert_eq!(f.args[0].name, "x");
}
