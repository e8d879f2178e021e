use supawatch::introspection::{
    introspect, parse_function_args, parse_pg_array, parse_pg_oid_array, parse_policy_cmd, BulkData,
    Catalog, ColumnRow, EnumRow, FunctionRow, Introspector, PgArray, PolicyRow, RlsRow, TriggerRow,
};
use supawatch::supabase_api::SupabaseApi;

fn bulk(table_names: &[&str]) -> BulkData {
    BulkData {
        table_names: table_names.iter().map(|s| s.to_string()).collect(),
        columns: vec![],
        foreign_keys: vec![],
        indexes: vec![],
        triggers: vec![],
        policies: vec![],
        rls: vec![],
    }
}

#[test]
fn test_parse_bulk_response_array_type() {
    let api = SupabaseApi::new("token".to_string());
    let introspector = Introspector::new(&api, "project".to_string());

    let mut data = bulk(&["test_table"]);
    data.columns.push(ColumnRow {
        table_name: "test_table".to_string(),
        column_name: "tags".to_string(),
        data_type: "ARRAY".to_string(),
        is_nullable: "NO".to_string(),
        column_default: None,
        udt_name: "_text".to_string(),
        is_identity: "NO".to_string(),
        is_primary_key: false,
        is_unique: false,
    });

    let result = introspector.parse_bulk_response(&data).unwrap();
    let table = result.get("test_table").unwrap();
    let col = table.columns.get("tags").unwrap();

    assert_eq!(col.data_type, "text[]");
}

#[test]
fn test_parse_bulk_response_pg_trigger() {
    let api = SupabaseApi::new("token".to_string());
    let introspector = Introspector::new(&api, "project".to_string());

    let mut data = bulk(&["test_table"]);
    data.triggers.push(TriggerRow {
        table_name: "test_table".to_string(),
        trigger_name: "test_trigger".to_string(),
        tgtype: 21,
        function_name: "test_func".to_string(),
    });

    let result = introspector.parse_bulk_response(&data).unwrap();
    let table = result.get("test_table").unwrap();
    let trigger = &table.triggers[0];

    assert_eq!(trigger.name, "test_trigger");
    assert_eq!(trigger.orientation, "ROW");
    assert_eq!(trigger.timing, "AFTER");
    assert!(trigger.events.contains(&"UPDATE".to_string()));
    assert!(trigger.events.contains(&"INSERT".to_string()));
    assert_eq!(trigger.function_name, "test_func");
}

#[test]
fn policy_commands_are_spelled_out() {
    assert_eq!(parse_policy_cmd("r"), "SELECT");
    assert_eq!(parse_policy_cmd("a"), "INSERT");
    assert_eq!(parse_policy_cmd("w"), "UPDATE");
    assert_eq!(parse_policy_cmd("d"), "DELETE");
    assert_eq!(parse_policy_cmd("*"), "ALL");
    assert_eq!(parse_policy_cmd("x"), "x");
}

#[test]
fn pg_arrays_read_from_json_and_text() {
    let a = PgArray::Array(vec![Some("a".to_string()), None, Some("b".to_string())]);
    assert_eq!(parse_pg_array(&a), vec!["a", "", "b"]);
    let t = PgArray::Text("{x, y,,z}".to_string());
    assert_eq!(parse_pg_array(&t), vec!["x", "y", "z"]);
    assert!(parse_pg_array(&PgArray::Other).is_empty());
}

#[test]
fn policy_roles_read_from_oid_arrays() {
    assert_eq!(parse_pg_oid_array("\"{0}\""), vec!["public"]);
    assert_eq!(parse_pg_oid_array("[16384]"), vec!["authenticated"]);
}

#[test]
fn function_arguments_are_split() {
    assert!(parse_function_args("").is_empty());
    let args = parse_function_args("a integer, b text DEFAULT 'x', uuid");
    assert_eq!(args.len(), 3);
    assert_eq!(args[0].name, "a");
    assert_eq!(args[0].type_, "integer");
    assert_eq!(args[1].name, "b");
    assert_eq!(args[1].type_, "text DEFAULT 'x'");
    assert_eq!(args[2].name, "");
    assert_eq!(args[2].type_, "uuid");
}

#[test]
fn catalog_becomes_a_schema() {
    let mut data = bulk(&["t"]);
    data.policies.push(PolicyRow {
        table_name: "t".to_string(),
        name: "p".to_string(),
        cmd: "r".to_string(),
        roles: "\"{0}\"".to_string(),
        qual: Some("true".to_string()),
        with_check: None,
    });
    data.rls.push(RlsRow { table_name: "t".to_string(), rls_enabled: true });
    let catalog = Catalog {
        bulk: data,
        enums: vec![EnumRow {
            name: "mood".to_string(),
            values: PgArray::Array(vec![Some("ok".to_string())]),
        }],
        functions: vec![FunctionRow {
            name: "f".to_string(),
            return_type: "void".to_string(),
            args: "x int".to_string(),
            language: "sql".to_string(),
            definition: "select 1".to_string(),
        }],
    };
    let s = introspect(&catalog);
    let t = s.tables.get("t").unwrap();
    assert!(t.rls_enabled);
    assert_eq!(t.policies[0].cmd, "SELECT");
    assert_eq!(t.policies[0].roles, vec!["public"]);
    assert_eq!(s.enums.get("mood").unwrap().values, vec!["ok"]);
    assert_eq!(s.functions.get("f").unwrap().args[0].name, "x");
}
