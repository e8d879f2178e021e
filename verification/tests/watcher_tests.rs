use supawatch::models::{FileChangeType, LogSource};
use supawatch::watcher::{classify_file_change, get_relative_path, handle_file_event, PushDebounce};

#[test]
fn relative_paths_drop_the_base_and_leading_slashes() {
    assert_eq!(get_relative_path("/p/supabase/schema.sql", "/p"), "supabase/schema.sql");
    assert_eq!(get_relative_path("/p//x", "/p"), "x");
    assert_eq!(get_relative_path("/other/x", "/p"), "other/x");
    assert!(!get_relative_path("////", "").starts_with('/'));
}

#[test]
fn files_are_classified_by_folder_and_extension() {
    let base = "/proj";
    assert_eq!(classify_file_change("/proj/supabase/schemas/schema.sql", base), FileChangeType::Schema);
    assert_eq!(classify_file_change("/proj/supabase/Schema.SQL", base), FileChangeType::Schema);
    assert_eq!(classify_file_change("/proj/schema/a.sql", base), FileChangeType::Schema);
    assert_eq!(
        classify_file_change("/proj/supabase/functions/hello/index.ts", base),
        FileChangeType::EdgeFunction
    );
    assert_eq!(classify_file_change("/proj/functions/a.js", base), FileChangeType::EdgeFunction);
    assert_eq!(
        classify_file_change("/proj/supabase/migrations/001.sql", base),
        FileChangeType::Migration
    );
    assert_eq!(classify_file_change("/proj/README.md", base), FileChangeType::Other);
    assert_eq!(classify_file_change("/proj/supabase/functions/a.md", base), FileChangeType::Other);
}

#[test]
fn schema_change_is_logged_and_pushed() {
    let plan = handle_file_event(9, "/p/supabase/schema.sql".to_string(), "/p").unwrap();
    assert_eq!(plan.change.change_type, FileChangeType::Schema);
    assert_eq!(plan.log.message, "Schema file changed: supabase/schema.sql");
    assert_eq!(plan.log.source, LogSource::Schema);
    assert_eq!(plan.log.project_id, Some(9));
    assert!(plan.auto_push);
}

#[test]
fn other_changes_are_logged_without_push_or_ignored() {
    let f = handle_file_event(1, "/p/functions/x/index.ts".to_string(), "/p").unwrap();
    assert_eq!(f.log.message, "Edge function changed: functions/x/index.ts");
    assert_eq!(f.log.source, LogSource::EdgeFunction);
    assert!(!f.auto_push);
    let m = handle_file_event(1, "/p/migrations/1.sql".to_string(), "/p").unwrap();
    assert_eq!(m.log.message, "Migration file changed: migrations/1.sql");
    assert_eq!(m.log.source, LogSource::Schema);
    assert!(handle_file_event(1, "/p/notes.txt".to_string(), "/p").is_none());
}

#[test]
fn pushes_are_two_seconds_apart() {
    let mut d = PushDebounce::new();
    assert!(d.try_begin(1, 10_000));
    assert!(!d.try_begin(1, 11_999));
    assert!(d.try_begin(2, 11_999));
    assert!(d.try_begin(1, 12_000));
    assert!(!d.try_begin(1, 11_000));
}
