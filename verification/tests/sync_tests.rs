use supawatch::introspection::{BulkData, Catalog};
use supawatch::models::{LogLevel, LogSource, Project};
use supawatch::state::StateError;
use supawatch::supabase_api::{Organization, SupabaseApi};
use supawatch::sync::{
    bundle_output_name, choose_organization, create_mode, new_project, CreateMode, deployed_texts, entrypoint_of, is_bundle_content_type,
    linked_project_id, pull_sql, push_begin, push_finish, push_local_file, push_plan, push_remote,
    synced_message, unpack_notice, PushMode, PushNext,
};

fn empty_catalog() -> Catalog {
    Catalog {
        bulk: BulkData {
            table_names: vec![],
            columns: vec![],
            foreign_keys: vec![],
            indexes: vec![],
            triggers: vec![],
            policies: vec![],
            rls: vec![],
        },
        enums: vec![],
        functions: vec![],
    }
}

fn linked(id_ref: &str) -> Project {
    Project::with_remote("p".to_string(), "/work/p".to_string(), "id".to_string(), id_ref.to_string())
}

#[test]
fn push_begins_for_a_linked_project() {
    let p = linked("abc");
    let step = push_begin(PushMode::Manual, p.id, Ok(p), Ok(SupabaseApi::new("t".to_string())));
    assert_eq!(step.logs.len(), 1);
    assert_eq!(step.logs[0].message, "Pushing schema changes...");
    assert_eq!(step.logs[0].source, LogSource::System);
    match step.next {
        PushNext::Continue(t) => {
            assert_eq!(t.project_ref, "abc");
            assert_eq!(t.local_path, "/work/p");
        },
        PushNext::Finish(r) => panic!("finished: {:?}", r),
    }
}

#[test]
fn unlinked_project_is_skipped_or_refused() {
    let p = Project::new("p".to_string(), "/p".to_string());
    let id = p.id;
    let auto = push_begin(PushMode::Auto, id, Ok(p.clone()), Err(StateError::NoAccessToken));
    assert_eq!(auto.logs[0].level, LogLevel::Warning);
    assert_eq!(auto.logs[0].message, "Auto-push skipped: project not linked to Supabase");
    assert!(matches!(auto.next, PushNext::Finish(Ok(ref s)) if s.is_empty()));
    let manual = push_begin(PushMode::Manual, id, Ok(p), Err(StateError::NoAccessToken));
    assert!(manual.logs.is_empty());
    assert!(matches!(manual.next, PushNext::Finish(Err(ref e)) if e == "Project not linked to Supabase"));
}

#[test]
fn missing_token_ends_the_push() {
    let p = linked("abc");
    let step = push_begin(PushMode::Auto, p.id, Ok(p), Err(StateError::NoAccessToken));
    assert!(step.logs.is_empty());
    assert!(matches!(step.next, PushNext::Finish(Err(ref e)) if e == "Access token not configured"));
}

#[test]
fn failed_introspection_is_logged_by_an_automatic_push() {
    let step = push_remote(PushMode::Auto, 5, Err("boom".to_string()));
    assert_eq!(step.logs[0].message, "Introspection failed: boom");
    assert!(matches!(step.next, PushNext::Finish(Err(ref e)) if e == "boom"));
    let manual = push_remote(PushMode::Manual, 5, Err("boom".to_string()));
    assert!(manual.logs.is_empty());
    let ok = push_remote(PushMode::Manual, 5, Ok(empty_catalog()));
    assert!(matches!(ok.next, PushNext::Continue(_)));
}

#[test]
fn missing_schema_file_ends_the_push() {
    let auto = push_local_file(PushMode::Auto, 5, None);
    assert_eq!(
        auto.logs[0].message,
        "Schema file not found (checked supabase/schemas/schema.sql and supabase/schema.sql)"
    );
    assert!(matches!(auto.next, PushNext::Finish(Err(ref e)) if e == "Schema file not found"));
    let manual = push_local_file(PushMode::Manual, 5, None);
    assert!(manual.logs.is_empty());
    let read = push_local_file(PushMode::Manual, 5, Some(Ok("select 1".to_string())));
    assert!(matches!(read.next, PushNext::Continue(ref s) if s == "select 1"));
}

#[test]
fn unchanged_schema_pushes_nothing() {
    let remote = supawatch::introspection::introspect(&empty_catalog());
    let step = push_plan(PushMode::Auto, 5, &remote, "");
    assert_eq!(step.logs.len(), 1);
    assert_eq!(step.logs[0].message, "No schema changes detected.");
    assert_eq!(step.logs[0].level, LogLevel::Success);
    assert!(matches!(step.next, PushNext::Finish(Ok(ref s)) if s.is_empty()));
    let manual = push_plan(PushMode::Manual, 5, &remote, "");
    assert_eq!(manual.logs[0].message, "Diff Summary:\nNo changes detected");
    assert!(matches!(manual.next, PushNext::Finish(Ok(ref s)) if s == "No changes"));
}

#[test]
fn changed_schema_is_planned() {
    let remote = supawatch::introspection::introspect(&empty_catalog());
    let step = push_plan(PushMode::Manual, 5, &remote, "CREATE TABLE t (id int);");
    assert_eq!(step.logs.len(), 2);
    assert_eq!(step.logs[0].message, "Diff Summary:\n+ Table 't'");
    assert!(step.logs[1].message.starts_with("Applying changes:\nCREATE TABLE t"));
    match step.next {
        PushNext::Continue(sql) => assert!(sql.starts_with("CREATE TABLE t")),
        PushNext::Finish(r) => panic!("finished: {:?}", r),
    }
    let auto = push_plan(PushMode::Auto, 5, &remote, "CREATE TABLE t (id int);");
    assert_eq!(auto.logs[0].message, "Applying changes:\n+ Table 't'");
}

#[test]
fn unparsable_local_schema_ends_the_push() {
    let remote = supawatch::introspection::introspect(&empty_catalog());
    let step = push_plan(PushMode::Auto, 5, &remote, "CREATE TABLE (");
    assert!(step.logs[0].message.starts_with("Failed to parse schema: "));
    assert!(matches!(step.next, PushNext::Finish(Err(_))));
}

#[test]
fn migration_outcomes() {
    let (logs, r) = push_finish(PushMode::Manual, 5, "SQL".to_string(), Ok(None));
    assert_eq!(logs[0].message, "Schema changes pushed successfully.");
    assert_eq!(r, Ok("SQL".to_string()));
    let (logs, r) = push_finish(PushMode::Auto, 5, "SQL".to_string(), Ok(Some("bad".to_string())));
    assert_eq!(logs[0].message, "Migration failed: bad");
    assert_eq!(logs[0].source, LogSource::Schema);
    assert_eq!(r, Err("bad".to_string()));
    let (logs, r) = push_finish(PushMode::Auto, 5, "SQL".to_string(), Err("net".to_string()));
    assert!(logs.is_empty());
    assert_eq!(r, Err("net".to_string()));
}

#[test]
fn pull_of_an_empty_database_is_empty() {
    assert_eq!(pull_sql(&empty_catalog()), "");
}

#[test]
fn bundles_and_their_modules() {
    assert!(is_bundle_content_type("application/vnd.denoland.eszip"));
    assert!(is_bundle_content_type("application/octet-stream"));
    assert!(!is_bundle_content_type("text/plain"));
    assert_eq!(bundle_output_name("file:///src/index.ts").as_deref(), Some("index.ts"));
    assert_eq!(bundle_output_name("file:///index.ts").as_deref(), Some("index.ts"));
    assert_eq!(bundle_output_name("file:///src/utils/helper.ts").as_deref(), Some("helper.ts"));
    assert_eq!(bundle_output_name("file:///node_modules/x/y.js"), None);
    assert_eq!(bundle_output_name("https://deno.land/x.ts"), None);
    assert_eq!(
        unpack_notice("hello"),
        "// The source code for function 'hello' could not be unpacked.\n// The deployed bundle has been downloaded as 'function.eszip'."
    );
    assert_eq!(synced_message(3), "Synced 3 edge functions");
    assert_eq!(synced_message(12), "Synced 12 edge functions");
}

#[test]
fn deployment_names_and_messages() {
    assert_eq!(entrypoint_of("supabase/functions/hello/main.ts"), "main.ts");
    assert_eq!(entrypoint_of(".."), "index.ts");
    let (log, done) = deployed_texts("hello", 7);
    assert_eq!(log, "Deployed hello (v7)");
    assert_eq!(done, "Successfully deployed hello version 7");
    assert_eq!(deployed_texts("x", -3).0, "Deployed x (v-3)");
}

#[test]
fn organizations_are_chosen() {
    let orgs = vec![
        Organization { id: "o1".to_string(), name: "One".to_string() },
        Organization { id: "o2".to_string(), name: "Two".to_string() },
    ];
    assert_eq!(choose_organization(&orgs, Some("o2")), Ok(1));
    assert_eq!(choose_organization(&orgs, None), Ok(0));
    assert_eq!(
        choose_organization(&orgs, Some("o3")),
        Err("Selected organization not found.".to_string())
    );
    assert_eq!(
        choose_organization(&vec![], None),
        Err("No organizations found. Please create one in Supabase dashboard.".to_string())
    );
}

#[test]
fn linked_ids_fall_back_to_the_reference() {
    assert_eq!(linked_project_id(Some("g".to_string()), Some("f".to_string()), "r"), "g");
    assert_eq!(linked_project_id(None, Some("f".to_string()), "r"), "f");
    assert_eq!(linked_project_id(None, None, "r"), "r");
}

#[test]
fn projects_are_linked_created_or_local() {
    assert!(matches!(create_mode(Some("r".to_string()), false), CreateMode::Link(ref r) if r == "r"));
    assert!(matches!(create_mode(None, true), CreateMode::CreateRemote));
    assert!(matches!(create_mode(None, false), CreateMode::LocalOnly));
    let linked = new_project("n".to_string(), "/p".to_string(), Some("i".to_string()), Some("r".to_string()));
    assert_eq!(linked.supabase_project_ref.as_deref(), Some("r"));
    let local = new_project("n".to_string(), "/p".to_string(), Some("i".to_string()), None);
    assert!(local.supabase_project_id.is_none());
    assert!(local.supabase_project_ref.is_none());
}
