use supawatch::diff::{
    compute_diff, compute_table_diff, ColumnChangeDetail, ColumnModification, SchemaDiff, TableDiff,
};
use supawatch::name_map::NameMap;
use supawatch::schema::{ColumnInfo, DbSchema, FunctionInfo, IndexInfo, PolicyInfo, TableInfo, TriggerInfo};

fn empty_table(name: &str) -> TableInfo {
    TableInfo {
        table_name: name.to_string(),
        columns: NameMap::new(),
        foreign_keys: vec![],
        indexes: vec![],
        triggers: vec![],
        rls_enabled: false,
        policies: vec![],
    }
}

fn column(name: &str, data_type: &str, nullable: bool) -> ColumnInfo {
    ColumnInfo {
        column_name: name.to_string(),
        data_type: data_type.to_string(),
        is_nullable: nullable,
        column_default: None,
        udt_name: data_type.to_string(),
        is_primary_key: false,
        is_unique: false,
        is_identity: false,
        enum_name: None,
        is_array: false,
    }
}

fn empty_table_diff() -> TableDiff {
    TableDiff {
        columns_to_add: vec![],
        columns_to_drop: vec![],
        columns_to_modify: vec![],
        rls_change: None,
        policies_to_create: vec![],
        policies_to_drop: vec![],
        triggers_to_create: vec![],
        triggers_to_drop: vec![],
        indexes_to_create: vec![],
        indexes_to_drop: vec![],
    }
}

#[test]
fn test_summarize() {
    let mut diff = SchemaDiff {
        tables_to_create: vec!["users".to_string()],
        tables_to_drop: vec!["posts".to_string()],
        table_changes: NameMap::new(),
        enum_changes: vec![],
        functions_to_create: vec![],
        functions_to_drop: vec![],
        functions_to_update: vec![],
    };

    let table_diff = TableDiff {
        columns_to_add: vec!["created_at".to_string()],
        columns_to_drop: vec![],
        columns_to_modify: vec![ColumnModification {
            column_name: "name".to_string(),
            changes: ColumnChangeDetail {
                type_change: Some(("text".to_string(), "varchar".to_string())),
                nullable_change: None,
            },
        }],
        rls_change: None,
        policies_to_create: vec![],
        policies_to_drop: vec![],
        triggers_to_create: vec![],
        triggers_to_drop: vec![],
        indexes_to_create: vec![],
        indexes_to_drop: vec![],
    };
    diff.table_changes.insert("profiles".to_string(), table_diff);

    let summary = diff.summarize();
    assert!(summary.contains("+ Table 'users'"));
    assert!(summary.contains("- Table 'posts'"));
    assert!(summary.contains("+ Column 'profiles.created_at'"));
    assert!(summary.contains("~ Column 'profiles.name' (type: text -> varchar)"));
}

#[test]
fn test_compute_diff_full() {
    let mut local = DbSchema::new();

    let mut table = TableInfo {
        table_name: "users".to_string(),
        columns: NameMap::new(),
        foreign_keys: vec![],
        indexes: vec![],
        triggers: vec![],
        rls_enabled: true,
        policies: vec![],
    };
    table.policies.push(PolicyInfo {
        name: "policy1".to_string(),
        cmd: "SELECT".to_string(),
        roles: vec!["public".to_string()],
        qual: Some("true".to_string()),
        with_check: None,
    });
    table.triggers.push(TriggerInfo {
        name: "trigger1".to_string(),
        events: vec!["INSERT".to_string()],
        timing: "BEFORE".to_string(),
        orientation: "ROW".to_string(),
        function_name: "my_func".to_string(),
    });
    local.tables.insert("users".to_string(), table);

    local.functions.insert(
        "my_func".to_string(),
        FunctionInfo {
            name: "my_func".to_string(),
            args: vec![],
            return_type: "trigger".to_string(),
            language: "plpgsql".to_string(),
            definition: "BEGIN RETURN NEW; END;".to_string(),
        },
    );

    let remote = DbSchema::new();
    let diff = compute_diff(&remote, &local);

    assert_eq!(diff.tables_to_create, vec!["users"]);
    assert_eq!(diff.functions_to_create.len(), 1);
    assert_eq!(diff.functions_to_create[0].name, "my_func");

    let mut remote2 = DbSchema::new();
    remote2.tables.insert(
        "users".to_string(),
        TableInfo {
            table_name: "users".to_string(),
            columns: NameMap::new(),
            foreign_keys: vec![],
            indexes: vec![],
            triggers: vec![],
            rls_enabled: false,
            policies: vec![],
        },
    );

    let diff2 = compute_diff(&remote2, &local);
    assert!(diff2.tables_to_create.is_empty());

    let table_diff = diff2.table_changes.get("users").unwrap();
    assert_eq!(table_diff.rls_change, Some(true));
    assert_eq!(table_diff.policies_to_create.len(), 1);
    assert_eq!(table_diff.policies_to_create[0].name, "policy1");
    assert_eq!(table_diff.triggers_to_create.len(), 1);
    assert_eq!(table_diff.triggers_to_create[0].name, "trigger1");
}

#[test]
fn schema_against_itself_has_no_changes() {
    let mut s = DbSchema::new();
    let mut t = empty_table("users");
    t.columns.insert("id".to_string(), column("id", "uuid", false));
    t.columns.insert("name".to_string(), column("name", "text", true));
    t.policies.push(PolicyInfo {
        name: "p".to_string(),
        cmd: "SELECT".to_string(),
        roles: vec!["public".to_string()],
        qual: Some("true".to_string()),
        with_check: None,
    });
    t.indexes.push(IndexInfo {
        index_name: "idx".to_string(),
        columns: vec!["name".to_string()],
        is_unique: true,
        is_primary: false,
        owning_constraint: None,
    });
    s.tables.insert("users".to_string(), t);
    let diff = compute_diff(&s, &s);
    assert!(diff.tables_to_create.is_empty());
    assert!(diff.tables_to_drop.is_empty());
    assert_eq!(diff.table_changes.len(), 0);
    assert_eq!(diff.summarize(), "No changes detected");
    assert_eq!(supawatch::generator::generate_sql(&diff, &s), "");
}

#[test]
fn duplicate_policy_names_show_a_change_against_itself() {
    let mut s = DbSchema::new();
    let mut t = empty_table("users");
    for q in ["true", "false"] {
        t.policies.push(PolicyInfo {
            name: "p".to_string(),
            cmd: "SELECT".to_string(),
            roles: vec![],
            qual: Some(q.to_string()),
            with_check: None,
        });
    }
    s.tables.insert("users".to_string(), t);
    let diff = compute_diff(&s, &s);
    assert_eq!(diff.table_changes.len(), 1);
}

#[test]
fn create_and_drop_swap_sides() {
    let mut a = DbSchema::new();
    a.tables.insert("a_only".to_string(), empty_table("a_only"));
    let mut b = DbSchema::new();
    b.tables.insert("b_only".to_string(), empty_table("b_only"));
    let ab = compute_diff(&a, &b);
    let ba = compute_diff(&b, &a);
    assert_eq!(ab.tables_to_create, ba.tables_to_drop);
    assert_eq!(ab.tables_to_drop, ba.tables_to_create);
    assert_eq!(ab.tables_to_create, vec!["b_only"]);
}

#[test]
fn column_type_change_ignores_case() {
    let mut remote = empty_table("t");
    remote.columns.insert("c".to_string(), column("c", "TEXT", true));
    let mut local = empty_table("t");
    local.columns.insert("c".to_string(), column("c", "text", false));
    let d = compute_table_diff(&remote, &local);
    assert_eq!(d.columns_to_modify.len(), 1);
    assert_eq!(d.columns_to_modify[0].changes.type_change, None);
    assert_eq!(d.columns_to_modify[0].changes.nullable_change, Some((true, false)));
    assert!(!d.is_empty());
}

#[test]
fn table_diff_emptiness() {
    assert!(empty_table_diff().is_empty());
    let mut d = empty_table_diff();
    d.rls_change = Some(false);
    assert!(!d.is_empty());
}

#[test]
fn changed_policy_is_dropped_and_recreated() {
    let mut remote = empty_table("t");
    remote.policies.push(PolicyInfo {
        name: "p".to_string(),
        cmd: "SELECT".to_string(),
        roles: vec![],
        qual: Some("a".to_string()),
        with_check: None,
    });
    let mut local = empty_table("t");
    local.policies.push(PolicyInfo {
        name: "p".to_string(),
        cmd: "SELECT".to_string(),
        roles: vec![],
        qual: Some("b".to_string()),
        with_check: None,
    });
    let d = compute_table_diff(&remote, &local);
    assert_eq!(d.policies_to_create.len(), 1);
    assert_eq!(d.policies_to_create[0].qual.as_deref(), Some("b"));
    assert_eq!(d.policies_to_drop.len(), 1);
    assert_eq!(d.policies_to_drop[0].qual.as_deref(), Some("a"));
}

#[test]
fn summary_lines_are_sorted() {
    let diff = SchemaDiff {
        tables_to_create: vec!["zeta".to_string(), "alpha".to_string()],
        tables_to_drop: vec![],
        table_changes: NameMap::new(),
        enum_changes: vec![],
        functions_to_create: vec![],
        functions_to_drop: vec!["f".to_string()],
        functions_to_update: vec![],
    };
    assert_eq!(diff.summarize(), "+ Table 'alpha'\n+ Table 'zeta'\n- Function 'f'");
}

#[test]
fn only_changed_tables_are_listed() {
    let mut remote = DbSchema::new();
    let mut local = DbSchema::new();
    let mut same = empty_table("same");
    same.columns.insert("id".to_string(), column("id", "uuid", false));
    remote.tables.insert("same".to_string(), same);
    let mut same2 = empty_table("same");
    same2.columns.insert("id".to_string(), column("id", "uuid", false));
    local.tables.insert("same".to_string(), same2);
    remote.tables.insert("grown".to_string(), empty_table("grown"));
    let mut grown = empty_table("grown");
    grown.columns.insert("extra".to_string(), column("extra", "text", true));
    local.tables.insert("grown".to_string(), grown);
    let diff = compute_diff(&remote, &local);
    assert_eq!(diff.table_changes.len(), 1);
    let d = diff.table_changes.get("grown").unwrap();
    assert_eq!(d.columns_to_add, vec!["extra"]);
    assert!(diff.table_changes.get("same").is_none());
}

#[test]
fn diff_takes_remote_tables_to_local_ones() {
    let mut remote = DbSchema::new();
    remote.tables.insert("a".to_string(), empty_table("a"));
    remote.tables.insert("shared".to_string(), empty_table("shared"));
    let mut local = DbSchema::new();
    local.tables.insert("b".to_string(), empty_table("b"));
    local.tables.insert("shared".to_string(), empty_table("shared"));
    let diff = compute_diff(&remote, &local);
    let mut names: Vec<String> = vec!["a".to_string(), "shared".to_string()]
        .into_iter()
        .filter(|n| !diff.tables_to_drop.contains(n))
        .collect();
    names.extend(diff.tables_to_create.iter().cloned());
    names.sort();
    assert_eq!(names, vec!["b", "shared"]);
}

#[test]
fn summary_ignores_the_order_of_its_parts() {
    let a = SchemaDiff {
        tables_to_create: vec!["b".to_string(), "a".to_string()],
        tables_to_drop: vec!["z".to_string(), "y".to_string()],
        table_changes: NameMap::new(),
        enum_changes: vec![],
        functions_to_create: vec![],
        functions_to_drop: vec!["g".to_string(), "f".to_string()],
        functions_to_update: vec![],
    };
    let b = SchemaDiff {
        tables_to_create: vec!["a".to_string(), "b".to_string()],
        tables_to_drop: vec!["y".to_string(), "z".to_string()],
        table_changes: NameMap::new(),
        enum_changes: vec![],
        functions_to_create: vec![],
        functions_to_drop: vec!["f".to_string(), "g".to_string()],
        functions_to_update: vec![],
    };
    assert_eq!(a.summarize(), b.summarize());
    let mut t1 = empty_table_diff();
    t1.columns_to_add = vec!["x".to_string(), "w".to_string()];
    let mut t2 = empty_table_diff();
    t2.columns_to_add = vec!["w".to_string(), "x".to_string()];
    let mut c = SchemaDiff { table_changes: NameMap::new(), ..b };
    c.table_changes.insert("t".to_string(), t1);
    let mut d = SchemaDiff {
        tables_to_create: vec![],
        tables_to_drop: vec![],
        table_changes: NameMap::new(),
        enum_changes: vec![],
        functions_to_create: vec![],
        functions_to_drop: vec![],
        functions_to_update: vec![],
    };
    d.table_changes.insert("t".to_string(), t2);
    let e = SchemaDiff { tables_to_create: c.tables_to_create.clone(), tables_to_drop: c.tables_to_drop.clone(), functions_to_drop: c.functions_to_drop.clone(), ..d };
    assert_eq!(c.summarize(), e.summarize());
}

#[test]
fn summary_splits_into_its_sorted_lines() {
    let diff = SchemaDiff {
        tables_to_create: vec!["b".to_string(), "a".to_string()],
        tables_to_drop: vec!["c".to_string()],
        table_changes: NameMap::new(),
        enum_changes: vec![],
        functions_to_create: vec![],
        functions_to_drop: vec![],
        functions_to_update: vec![],
    };
    let s = diff.summarize();
    let lines: Vec<&str> = s.split('\n').collect();
    let mut expected = vec!["+ Table 'b'", "+ Table 'a'", "- Table 'c'"];
    expected.sort();
    assert_eq!(lines, expected);
}
