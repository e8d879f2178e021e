use supawatch::models::Timestamp;
use supawatch::supabase_api::{
    auth_logs_sql, check_query_body, deploy_url, edge_logs_sql, function_body_url, function_url,
    functions_list_error, functions_url, logs_url, organizations_url, postgres_logs_sql, project_url,
    projects_url, query_url, recent_logs_url, ApiError, QueryBody, QueryResult, SupabaseApi,
};

#[test]
fn auth_header_carries_the_token() {
    assert_eq!(SupabaseApi::new("abc".to_string()).auth_header(), "Bearer abc");
}

#[test]
fn urls_of_the_management_api() {
    assert_eq!(projects_url(), "https://api.supabase.com/v1/projects");
    assert_eq!(organizations_url(), "https://api.supabase.com/v1/organizations");
    assert_eq!(project_url("r1"), "https://api.supabase.com/v1/projects/r1");
    assert_eq!(query_url("r1"), "https://api.supabase.com/v1/projects/r1/database/query");
    assert_eq!(functions_url("r1"), "https://api.supabase.com/v1/projects/r1/functions");
    assert_eq!(
        deploy_url("r1", "hello"),
        "https://api.supabase.com/v1/projects/r1/functions/deploy?slug=hello"
    );
    assert_eq!(function_url("r1", "hello"), "https://api.supabase.com/v1/projects/r1/functions/hello");
    assert_eq!(
        function_body_url("r1", "hello"),
        "https://api.supabase.com/v1/projects/r1/functions/hello/body"
    );
}

#[test]
fn logs_url_encodes_its_parameters() {
    let base = "https://api.supabase.com/v1/projects/r/analytics/endpoints/logs.all/query";
    assert_eq!(logs_url("r", None, None, None), base);
    assert_eq!(
        logs_url("r", Some("select 1"), None, Some("2024-01-01T00:00:00+00:00")),
        format!("{}?sql=select%201&iso_timestamp_end=2024-01-01T00%3A00%3A00%2B00%3A00", base)
    );
}

#[test]
fn recent_logs_cover_the_window() {
    let now = Timestamp { secs: 1_704_067_200, nanos: 0 };
    let url = recent_logs_url("r", "q", now, 60).unwrap();
    assert!(url.contains("sql=q"));
    assert!(url.contains("iso_timestamp_start=2023-12-31T23%3A00%3A00%2B00%3A00"));
    assert!(url.contains("iso_timestamp_end=2024-01-01T00%3A00%3A00%2B00%3A00"));
}

#[test]
fn logs_queries() {
    assert!(edge_logs_sql(Some("fn1")).contains("where metadata->>'function_id' = 'fn1'"));
    assert!(!edge_logs_sql(None).contains("where"));
    assert!(postgres_logs_sql().contains("from postgres_logs"));
    assert!(auth_logs_sql().contains("from auth_logs"));
}

#[test]
fn query_answers_are_judged() {
    assert!(matches!(check_query_body(&QueryBody::Array, "[]"), Ok(None)));
    let reply = QueryBody::Reply { result: None, error: Some("oops".to_string()) };
    assert_eq!(check_query_body(&reply, "{}").unwrap(), Some("oops".to_string()));
    let ok = QueryBody::Reply { result: Some(QueryResult::Array), error: None };
    assert_eq!(check_query_body(&ok, "{}").unwrap(), None);
    let bad = QueryBody::Reply { result: Some(QueryResult::NotArray("Number(1)".to_string())), error: None };
    match check_query_body(&bad, "{\"result\":1}") {
        Err(ApiError::ApiError { status, message }) => {
            assert_eq!(status, 200);
            assert_eq!(message, "Query 'result' is not an array: Number(1). Body: {\"result\":1}");
        },
        other => panic!("unexpected {:?}", other),
    }
    let long = "x".repeat(300);
    match check_query_body(&QueryBody::Other, &long) {
        Err(ApiError::ApiError { message, .. }) => {
            assert_eq!(
                message,
                format!(
                    "Unexpected response format. Not an array and not a result/error object. Body: {}",
                    "x".repeat(200)
                )
            );
        },
        other => panic!("unexpected {:?}", other),
    }
    match check_query_body(&QueryBody::NotJson("expected value".to_string()), "nope") {
        Err(e) => assert_eq!(e.message(), "API error: 200 - Failed to parse JSON: expected value. Body: nope"),
        other => panic!("unexpected {:?}", other),
    }
}

#[test]
fn error_messages() {
    assert_eq!(ApiError::MissingToken.message(), "Missing access token");
    assert_eq!(ApiError::MissingProjectRef.message(), "Missing project reference");
    assert_eq!(ApiError::FileReadError("x".to_string()).message(), "File read error: x");
    assert_eq!(ApiError::RequestFailed("t".to_string()).message(), "HTTP request failed: t");
    assert_eq!(
        ApiError::ApiError { status: 404, message: "nf".to_string() }.message(),
        "API error: 404 - nf"
    );
    assert_eq!(
        functions_list_error("bad", "body").message(),
        "API error: 200 - Failed to parse functions list: bad. Body: body"
    );
}

#[test]
fn logs_url_encodes_non_ascii_text_by_its_utf8_bytes() {
    let base = "https://api.supabase.com/v1/projects/r/analytics/endpoints/logs.all/query";
    assert_eq!(logs_url("r", Some("é~"), None, None), format!("{}?sql=%C3%A9~", base));
}
