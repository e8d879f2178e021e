use supawatch::parsing::{normalize_table_name, parse_schema_sql};

#[test]
fn test_parse_full_schema() {
    let sql = r#"
CREATE OR REPLACE FUNCTION update_player_last_played() RETURNS trigger LANGUAGE plpgsql AS $$
BEGIN
  RETURN NEW;
END;
$$;

CREATE TABLE players (
    id uuid NOT NULL
);

CREATE TRIGGER update_player_timestamp BEFORE UPDATE ON players FOR EACH ROW EXECUTE FUNCTION update_player_last_played();

CREATE POLICY "public_read" ON players FOR SELECT USING (true);

ALTER TABLE players ENABLE ROW LEVEL SECURITY;
        "#;

    let schema = parse_schema_sql(sql).expect("Failed to parse SQL");

    let func = schema.functions.get("update_player_last_played").expect("Function not found");
    assert_eq!(func.language, "plpgsql");
    assert_eq!(func.return_type, "trigger");

    let table = schema.tables.get("players").expect("Table not found");
    assert!(table.rls_enabled);

    assert_eq!(table.triggers.len(), 1);
    let trigger = &table.triggers[0];
    assert_eq!(trigger.name, "update_player_timestamp");
    assert_eq!(trigger.timing, "BEFORE");
    assert_eq!(trigger.orientation, "ROW");
    assert_eq!(trigger.function_name, "update_player_last_played");

    assert_eq!(table.policies.len(), 1);
    let policy = &table.policies[0];
    assert_eq!(policy.name, "public_read");
    assert_eq!(policy.cmd, "SELECT");
}

#[test]
fn test_parse_schema_mismatch() {
    let sql = r#"
CREATE TABLE players (
    id uuid NOT NULL
);

CREATE TRIGGER update_player_timestamp BEFORE UPDATE ON public.players FOR EACH ROW EXECUTE FUNCTION update_player_last_played();
        "#;

    let schema = parse_schema_sql(sql).expect("Failed to parse SQL");
    let table = schema.tables.get("players").expect("Table not found");

    assert_eq!(table.triggers.len(), 1);
    let trigger = &table.triggers[0];
    assert_eq!(trigger.name, "update_player_timestamp");
}

#[test]
fn test_parse_function_defaults() {
    let sql = "CREATE FUNCTION generate_world(seed integer DEFAULT 0) RETURNS void LANGUAGE plpgsql AS $$BEGIN END;$$;";
    let parsed = parse_schema_sql(sql).unwrap();

    let func = parsed.functions.get("generate_world").expect("Function not found");
    assert_eq!(func.name, "generate_world");
    assert_eq!(func.args.len(), 1);
    assert_eq!(func.args[0].name, "seed");
    assert_eq!(func.args[0].type_, "integer DEFAULT 0");
}

#[test]
fn test_function_body_trimming() {
    let sql = "CREATE FUNCTION test_trim() RETURNS void LANGUAGE plpgsql AS $$\n  BEGIN\n    RETURN;\n  END;\n$$;";
    let parsed = parse_schema_sql(sql).unwrap();
    let func = parsed.functions.get("test_trim").expect("Function not found");

    assert_eq!(func.definition, "BEGIN\n    RETURN;\n  END;");
}

#[test]
fn test_function_return_type_normalization() {
    let sql = "CREATE FUNCTION test_ret() RETURNS TRIGGER LANGUAGE plpgsql AS $$BEGIN RETURN NEW; END;$$;";
    let parsed = parse_schema_sql(sql).unwrap();
    let func = parsed.functions.get("test_ret").expect("Function not found");
    assert_eq!(func.return_type, "trigger");
}

#[test]
fn test_parse_indexes_and_constraints() {
    let sql = r#"
CREATE TABLE users ( id uuid );
CREATE UNIQUE INDEX idx_email ON users (email);
ALTER TABLE users ADD CONSTRAINT fk_role FOREIGN KEY (role_id) REFERENCES roles(id);
ALTER TABLE users ADD CONSTRAINT unique_username UNIQUE (username);
"#;
    let schema = parse_schema_sql(sql).expect("Failed to parse SQL");
    let table = schema.tables.get("users").expect("Table not found");

    assert!(table.indexes.iter().any(|i| i.index_name == "idx_email" && i.is_unique));
    assert!(table.foreign_keys.iter().any(|fk| fk.constraint_name == "fk_role"));
    assert!(table
        .indexes
        .iter()
        .any(|i| i.index_name == "unique_username" && i.owning_constraint.as_deref() == Some("unique_username")));
}

#[test]
fn unparsable_sql_is_an_error() {
    assert!(parse_schema_sql("CREATE TABLE (").is_err());
}

#[test]
fn table_names_lose_the_public_prefix() {
    assert_eq!(normalize_table_name("public.users"), "users");
    assert_eq!(normalize_table_name("public.public.users"), "users");
    assert_eq!(normalize_table_name("users"), "users");
    assert_eq!(normalize_table_name(&normalize_table_name("public.x")), normalize_table_name("public.x"));
}

#[test]
fn enum_types_and_foreign_keys_are_read() {
    let sql = r#"
CREATE TYPE mood AS ENUM ('happy', 'sad');
CREATE TABLE roles ( id uuid PRIMARY KEY );
CREATE TABLE people (
    id uuid PRIMARY KEY,
    role_id uuid REFERENCES roles(id) ON DELETE CASCADE,
    feeling mood
);
"#;
    let schema = parse_schema_sql(sql).expect("Failed to parse SQL");
    let e = schema.enums.get("mood").expect("enum");
    assert_eq!(e.values, vec!["happy", "sad"]);
    let people = schema.tables.get("people").expect("table");
    let id = people.columns.get("id").unwrap();
    assert!(id.is_unique);
    assert!(!id.is_primary_key);
    let keyed = parse_schema_sql("CREATE TABLE k (id uuid, PRIMARY KEY (id));").unwrap();
    let kid = keyed.tables.get("k").unwrap().columns.get("id").unwrap();
    assert!(kid.is_primary_key);
    assert!(!kid.is_nullable);
    assert_eq!(people.foreign_keys.len(), 0);
}

#[test]
fn parsed_keys_are_the_items_names() {
    let sql = "CREATE TABLE public.items (id uuid, name text); CREATE TYPE kind AS ENUM ('a'); CREATE FUNCTION f() RETURNS void LANGUAGE sql AS $$select 1$$;";
    let s = parse_schema_sql(sql).expect("parsed");
    let t = s.tables.get("items").expect("table under its name");
    assert_eq!(t.table_name, "items");
    assert!(s.tables.get("public.items").is_none());
    assert_eq!(t.columns.get("name").unwrap().column_name, "name");
    assert_eq!(s.enums.get("kind").unwrap().name, "kind");
    assert_eq!(s.functions.get("f").unwrap().name, "f");
}
