use supawatch::diff::{compute_diff, SchemaDiff, TableDiff};
use supawatch::generator::generate_sql;
use supawatch::name_map::NameMap;
use supawatch::schema::{ColumnInfo, DbSchema, FunctionArg, FunctionInfo, IndexInfo, PolicyInfo, TableInfo, TriggerInfo};

#[test]
fn test_generate_sql_full() {
    let mut diff = SchemaDiff {
        tables_to_create: vec![],
        tables_to_drop: vec![],
        table_changes: NameMap::new(),
        enum_changes: vec![],
        functions_to_create: vec![],
        functions_to_drop: vec!["old_func".to_string()],
        functions_to_update: vec![],
    };

    diff.functions_to_create.push(FunctionInfo {
        name: "new_func".to_string(),
        args: vec![FunctionArg { name: "a".to_string(), type_: "int".to_string() }],
        return_type: "void".to_string(),
        language: "plpgsql".to_string(),
        definition: "BEGIN END;".to_string(),
    });

    let mut table_diff = TableDiff {
        columns_to_add: vec![],
        columns_to_drop: vec![],
        columns_to_modify: vec![],
        rls_change: Some(true),
        policies_to_create: vec![],
        policies_to_drop: vec![],
        triggers_to_create: vec![],
        triggers_to_drop: vec![],
        indexes_to_create: vec![],
        indexes_to_drop: vec![],
    };

    table_diff.policies_to_create.push(PolicyInfo {
        name: "p1".to_string(),
        cmd: "SELECT".to_string(),
        roles: vec!["public".to_string()],
        qual: Some("true".to_string()),
        with_check: None,
    });

    table_diff.policies_to_drop.push(PolicyInfo {
        name: "p2 drop".to_string(),
        cmd: "".to_string(),
        roles: vec![],
        qual: None,
        with_check: None,
    });

    table_diff.triggers_to_create.push(TriggerInfo {
        name: "t1".to_string(),
        events: vec!["INSERT".to_string(), "UPDATE".to_string()],
        timing: "BEFORE".to_string(),
        orientation: "ROW".to_string(),
        function_name: "new_func".to_string(),
    });

    table_diff.indexes_to_create.push(IndexInfo {
        index_name: "idx_users_email".to_string(),
        columns: vec!["email".to_string()],
        is_unique: true,
        is_primary: false,
        owning_constraint: None,
    });

    table_diff.indexes_to_drop.push(IndexInfo {
        index_name: "idx_users_old".to_string(),
        columns: vec![],
        is_unique: false,
        is_primary: false,
        owning_constraint: None,
    });

    diff.table_changes.insert("users".to_string(), table_diff);

    let schema = DbSchema::new();
    let sql = generate_sql(&diff, &schema);

    assert!(sql.contains("CREATE OR REPLACE FUNCTION new_func(a int) RETURNS void LANGUAGE plpgsql AS $$BEGIN END;$$;"));
    assert!(sql.contains("ALTER TABLE users ENABLE ROW LEVEL SECURITY;"));
    assert!(sql.contains("CREATE POLICY \"p1\" ON users FOR SELECT TO public USING (true);"));
    assert!(sql.contains("DROP POLICY \"p2 drop\" ON users;"));
    assert!(sql.contains("CREATE TRIGGER t1 BEFORE INSERT OR UPDATE ON users FOR EACH ROW EXECUTE FUNCTION new_func();"));
    assert!(sql.contains("CREATE UNIQUE INDEX idx_users_email ON users (email);"));
    assert!(sql.contains("DROP INDEX idx_users_old;"));
    assert!(sql.contains("DROP FUNCTION old_func;"));
}

fn column(name: &str, data_type: &str, nullable: bool, pk: bool) -> ColumnInfo {
    ColumnInfo {
        column_name: name.to_string(),
        data_type: data_type.to_string(),
        is_nullable: nullable,
        column_default: None,
        udt_name: data_type.to_string(),
        is_primary_key: pk,
        is_unique: false,
        is_identity: false,
        enum_name: None,
        is_array: false,
    }
}

#[test]
fn empty_diff_generates_nothing() {
    let diff = SchemaDiff {
        tables_to_create: vec![],
        tables_to_drop: vec![],
        table_changes: NameMap::new(),
        enum_changes: vec![],
        functions_to_create: vec![],
        functions_to_drop: vec![],
        functions_to_update: vec![],
    };
    assert_eq!(generate_sql(&diff, &DbSchema::new()), "");
}

#[test]
fn new_table_is_created_with_its_primary_key() {
    let mut local = DbSchema::new();
    let mut t = TableInfo {
        table_name: "items".to_string(),
        columns: NameMap::new(),
        foreign_keys: vec![],
        indexes: vec![],
        triggers: vec![],
        rls_enabled: false,
        policies: vec![],
    };
    t.columns.insert("id".to_string(), column("id", "uuid", false, true));
    local.tables.insert("items".to_string(), t);
    let diff = compute_diff(&DbSchema::new(), &local);
    let sql = generate_sql(&diff, &local);
    assert!(sql.contains("CREATE TABLE items"));
    assert!(sql.contains("id uuid NOT NULL"));
    assert!(sql.contains("PRIMARY KEY (id)"));
}

#[test]
fn dropped_table_is_dropped() {
    let mut remote = DbSchema::new();
    remote.tables.insert(
        "old".to_string(),
        TableInfo {
            table_name: "old".to_string(),
            columns: NameMap::new(),
            foreign_keys: vec![],
            indexes: vec![],
            triggers: vec![],
            rls_enabled: false,
            policies: vec![],
        },
    );
    let local = DbSchema::new();
    let diff = compute_diff(&remote, &local);
    assert_eq!(generate_sql(&diff, &local), "DROP TABLE old;");
}
