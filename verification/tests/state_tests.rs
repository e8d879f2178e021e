use supawatch::models::{AppData, LogEntry, LogLevel, LogSource, Project};
use supawatch::state::{AppState, StateError};

fn state() -> AppState {
    AppState::new(AppData::default())
}

fn log(project: Option<u128>, msg: &str) -> LogEntry {
    LogEntry::info(project, LogSource::System, msg.to_string())
}

#[test]
fn default_data_is_empty_with_version() {
    let d = AppData::default();
    assert!(d.projects.is_empty());
    assert!(d.access_token.is_none());
    assert_eq!(d.version, "1.0.0");
}

#[test]
fn added_project_is_found() {
    let mut s = state();
    let p = Project::new("demo".to_string(), "/tmp/demo".to_string());
    let id = p.id;
    let copy = s.add_project(p);
    assert_eq!(copy.id, id);
    let found = s.get_project(id).unwrap();
    assert_eq!(found.name, "demo");
    assert_eq!(found.local_path, "/tmp/demo");
    assert!(!found.is_watching);
    assert_eq!(s.get_projects().len(), 1);
}

#[test]
fn missing_project_is_an_error() {
    let s = state();
    match s.get_project(42) {
        Err(StateError::ProjectNotFound(id)) => assert_eq!(id, 42),
        other => panic!("unexpected {:?}", other),
    }
    assert_eq!(
        StateError::ProjectNotFound(42).message(),
        "Project not found: 00000000-0000-0000-0000-00000000002a"
    );
}

#[test]
fn updated_project_is_found_in_its_new_form() {
    let mut s = state();
    let p = Project::new("a".to_string(), "/a".to_string());
    let id = p.id;
    s.add_project(p);
    let mut q = s.get_project(id).unwrap();
    q.name = "b".to_string();
    let r = s.update_project(q).unwrap();
    assert_eq!(r.name, "b");
    assert_eq!(s.get_project(id).unwrap().name, "b");
    let stranger = Project::new("c".to_string(), "/c".to_string());
    assert!(matches!(s.update_project(stranger), Err(StateError::ProjectNotFound(_))));
}

#[test]
fn deleted_project_is_gone_and_unwatched() {
    let mut s = state();
    let p = Project::new("a".to_string(), "/a".to_string());
    let id = p.id;
    s.add_project(p);
    s.add_watcher(id);
    assert!(s.is_watching(id));
    s.delete_project(id).unwrap();
    assert!(s.get_project(id).is_err());
    assert!(!s.is_watching(id));
    assert!(matches!(s.delete_project(id), Err(StateError::ProjectNotFound(_))));
}

#[test]
fn watching_flag_is_set() {
    let mut s = state();
    let p = Project::new("a".to_string(), "/a".to_string());
    let id = p.id;
    s.add_project(p);
    s.set_project_watching(id, true).unwrap();
    assert!(s.get_project(id).unwrap().is_watching);
    s.set_project_watching(id, false).unwrap();
    assert!(!s.get_project(id).unwrap().is_watching);
    assert!(s.set_project_watching(7, true).is_err());
}

#[test]
fn watchers_are_a_set() {
    let mut s = state();
    s.add_watcher(1);
    s.add_watcher(1);
    s.add_watcher(2);
    assert_eq!(s.watchers.len(), 2);
    s.stop_watcher(1);
    assert!(!s.is_watching(1));
    assert!(s.is_watching(2));
}

#[test]
fn log_keeps_the_last_thousand() {
    let mut s = state();
    for i in 0..1005 {
        s.add_log(log(None, &format!("m{}", i)));
    }
    assert_eq!(s.logs.len(), 1000);
    assert_eq!(s.logs[0].message, "m5");
    assert_eq!(s.logs[999].message, "m1004");
}

#[test]
fn logs_come_newest_first_filtered_and_limited() {
    let mut s = state();
    s.add_log(log(Some(1), "a"));
    s.add_log(log(Some(2), "b"));
    s.add_log(log(Some(1), "c"));
    s.add_log(log(None, "d"));
    let mine = s.get_logs(Some(1), 100);
    assert_eq!(mine.iter().map(|l| l.message.as_str()).collect::<Vec<_>>(), vec!["c", "a"]);
    let all = s.get_logs(None, 2);
    assert_eq!(all.iter().map(|l| l.message.as_str()).collect::<Vec<_>>(), vec!["d", "c"]);
    assert!(s.get_logs(Some(3), 10).is_empty());
}

#[test]
fn clearing_one_project_keeps_the_others() {
    let mut s = state();
    s.add_log(log(Some(1), "a"));
    s.add_log(log(Some(2), "b"));
    s.add_log(log(None, "c"));
    s.clear_logs(Some(1));
    let left: Vec<_> = s.logs.iter().map(|l| l.message.clone()).collect();
    assert_eq!(left, vec!["b", "c"]);
    s.clear_logs(None);
    assert!(s.logs.is_empty());
}

#[test]
fn access_token_round_trip() {
    let mut s = state();
    assert!(!s.has_access_token());
    assert!(matches!(s.get_api_client(), Err(StateError::NoAccessToken)));
    assert_eq!(StateError::NoAccessToken.message(), "Access token not configured");
    s.set_access_token("sbp_x".to_string());
    assert!(s.has_access_token());
    assert_eq!(s.get_access_token().as_deref(), Some("sbp_x"));
    let api = s.get_api_client().unwrap();
    assert_eq!(api.auth_header(), "Bearer sbp_x");
    s.clear_access_token();
    assert!(s.get_access_token().is_none());
}

#[test]
fn log_entries_and_projects_are_built_as_asked() {
    let e = LogEntry::error(Some(3), LogSource::Watcher, "x".to_string()).with_details("d".to_string());
    assert_eq!(e.level, LogLevel::Error);
    assert_eq!(e.source, LogSource::Watcher);
    assert_eq!(e.details.as_deref(), Some("d"));
    let p = Project::with_remote("n".to_string(), "/p".to_string(), "id".to_string(), "ref".to_string());
    assert_eq!(p.supabase_project_ref.as_deref(), Some("ref"));
    assert_eq!(p.supabase_project_id.as_deref(), Some("id"));
    assert_eq!(p.created_at, p.updated_at);
    assert_eq!(
        StateError::ReadError("boom".to_string()).message(),
        "Failed to read data file: boom"
    );
}

#[test]
fn storage_error_messages() {
    assert_eq!(StateError::WriteError("disk".to_string()).message(), "Failed to write data file: disk");
    assert_eq!(StateError::ParseError("json".to_string()).message(), "Failed to parse data: json");
}

#[test]
fn delete_undoes_add() {
    let mut s = state();
    let first = Project::new("keep".to_string(), "/k".to_string());
    s.add_project(first);
    let p = Project::new("temp".to_string(), "/t".to_string());
    let id = p.id;
    s.add_project(p);
    s.delete_project(id).unwrap();
    let names: Vec<String> = s.get_projects().into_iter().map(|p| p.name).collect();
    assert_eq!(names, vec!["keep"]);
}

#[test]
fn token_is_read_back_across_other_calls_until_cleared() {
    let mut s = state();
    s.set_access_token("tok".to_string());
    let p = Project::new("a".to_string(), "/a".to_string());
    let id = p.id;
    s.add_project(p);
    s.set_project_watching(id, true).unwrap();
    s.add_log(log(Some(id), "x"));
    s.add_watcher(id);
    s.clear_logs(None);
    s.delete_project(id).unwrap();
    assert_eq!(s.get_access_token().as_deref(), Some("tok"));
    assert!(s.has_access_token());
    assert_eq!(s.get_api_client().unwrap().auth_header(), "Bearer tok");
    s.clear_access_token();
    assert!(s.get_access_token().is_none());
    assert!(!s.has_access_token());
}
