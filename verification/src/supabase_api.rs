//! The requests to the Supabase management API as plain values: their URLs
//! and SQL, the reading of a query's answer and the errors. The application
//! sends the requests.
use vstd::prelude::*;
use vstd::string::*;

use crate::models::Timestamp;
use crate::text::{concat2, concat3, decimal, decimal_text, join, join_texts};

verus! {

// ---------------------------------------------------------------------------
// Errors.
// ---------------------------------------------------------------------------

/// What can go wrong with a request.
#[derive(Debug)]
pub enum ApiError {
    /// The request could not be made or its answer read.
    RequestFailed(String),
    /// The API answered with an error status, or with an answer that does
    /// not read.
    ApiError { status: u16, message: String },
    MissingToken,
    MissingProjectRef,
    FileReadError(String),
}

pub open spec fn api_error_text(e: ApiError) -> Seq<char> {
    match e {
        ApiError::RequestFailed(m) => "HTTP request failed: "@ + m@,
        ApiError::ApiError { status, message } => "API error: "@ + decimal_text(status as nat)
            + " - "@ + message@,
        ApiError::MissingToken => "Missing access token"@,
        ApiError::MissingProjectRef => "Missing project reference"@,
        ApiError::FileReadError(m) => "File read error: "@ + m@,
    }
}

impl ApiError {
    /// The error's message.
    pub fn message(&self) -> (r: String)
        ensures
            r@ == api_error_text(*self),
    {
        match self {
            ApiError::RequestFailed(m) => concat2("HTTP request failed: ", m),
            ApiError::ApiError { status, message } => {
                let s = decimal(*status as u64);
                let head = concat3("API error: ", &s, " - ");
                concat2(&head, message)
            },
            ApiError::MissingToken => "Missing access token".to_string(),
            ApiError::MissingProjectRef => "Missing project reference".to_string(),
            ApiError::FileReadError(m) => concat2("File read error: ", m),
        }
    }
}

// ---------------------------------------------------------------------------
// The client and what the API returns.
// ---------------------------------------------------------------------------

/// The credentials of a client of the Supabase management API.
#[derive(Debug)]
pub struct SupabaseApi {
    pub access_token: String,
}

impl SupabaseApi {
    pub fn new(access_token: String) -> (r: Self)
        ensures
            r.access_token@ == access_token@,
    {
        SupabaseApi { access_token }
    }

    /// The value of the `Authorization` header.
    pub fn auth_header(&self) -> (r: String)
        ensures
            r@ == "Bearer "@ + self.access_token@,
    {
        concat2("Bearer ", &self.access_token)
    }
}

/// An organization of the account.
#[derive(Debug)]
pub struct Organization {
    pub id: String,
    pub name: String,
}

/// What a deployment of an edge function returns.
#[derive(Debug)]
pub struct DeployResponse {
    pub id: String,
    pub slug: String,
    pub name: String,
    pub version: i32,
}

/// The deployed code of an edge function and its content type.
#[derive(Debug)]
pub struct FunctionBody {
    pub content_type: String,
    pub data: Vec<u8>,
}

// ---------------------------------------------------------------------------
// URLs.
// ---------------------------------------------------------------------------

/// An address of the management API.
pub open spec fn api_url(path: Seq<char>) -> Seq<char> {
    "https://api.supabase.com"@ + path
}

/// The address of a project's resource: `/v1/projects/{ref}` then `rest`.
pub open spec fn project_api_url(project_ref: Seq<char>, rest: Seq<char>) -> Seq<char> {
    api_url("/v1/projects/"@ + project_ref + rest)
}

fn project_url_with(project_ref: &str, rest: &str) -> (r: String)
    ensures
        r@ == project_api_url(project_ref@, rest@),
{
    let tail = concat3("/v1/projects/", project_ref, rest);
    let r = concat2("https://api.supabase.com", &tail);
    proof {
        assert(r@ =~= project_api_url(project_ref@, rest@));
    }
    r
}

/// The list of projects.
pub fn projects_url() -> (r: String)
    ensures
        r@ == api_url("/v1/projects"@),
{
    concat2("https://api.supabase.com", "/v1/projects")
}

/// The list of organizations.
pub fn organizations_url() -> (r: String)
    ensures
        r@ == api_url("/v1/organizations"@),
{
    concat2("https://api.supabase.com", "/v1/organizations")
}

/// One project.
pub fn project_url(project_ref: &str) -> (r: String)
    ensures
        r@ == project_api_url(project_ref@, Seq::empty()),
{
    let r = project_url_with(project_ref, "");
    proof {
        reveal_strlit("");
    }
    r
}

/// The SQL endpoint of a project's database.
pub fn query_url(project_ref: &str) -> (r: String)
    ensures
        r@ == project_api_url(project_ref@, "/database/query"@),
{
    project_url_with(project_ref, "/database/query")
}

/// A project's edge functions.
pub fn functions_url(project_ref: &str) -> (r: String)
    ensures
        r@ == project_api_url(project_ref@, "/functions"@),
{
    project_url_with(project_ref, "/functions")
}

/// The deployment of an edge function.
pub fn deploy_url(project_ref: &str, slug: &str) -> (r: String)
    ensures
        r@ == project_api_url(project_ref@, "/functions/deploy?slug="@ + slug@),
{
    let rest = concat2("/functions/deploy?slug=", slug);
    project_url_with(project_ref, &rest)
}

/// One edge function.
pub fn function_url(project_ref: &str, slug: &str) -> (r: String)
    ensures
        r@ == project_api_url(project_ref@, "/functions/"@ + slug@),
{
    let rest = concat2("/functions/", slug);
    project_url_with(project_ref, &rest)
}

/// The deployed code of an edge function.
pub fn function_body_url(project_ref: &str, slug: &str) -> (r: String)
    ensures
        r@ == project_api_url(project_ref@, "/functions/"@ + slug@ + "/body"@),
{
    let rest = concat3("/functions/", slug, "/body");
    project_url_with(project_ref, &rest)
}

// ---------------------------------------------------------------------------
// The logs endpoint.
// ---------------------------------------------------------------------------

/// Whether a character is left as it is by percent-encoding: an ASCII
/// letter or digit, `-`, `.`, `_` or `~`.
pub open spec fn url_safe(c: char) -> bool {
    ('0' <= c && c <= '9') || ('A' <= c && c <= 'Z') || ('a' <= c && c <= 'z') || c == '-' || c
        == '.' || c == '_' || c == '~'
}

/// The uppercase hexadecimal digit of `n` (below 16).
pub open spec fn upper_hex(n: int) -> char {
    if n < 10 {
        (('0' as int) + n) as char
    } else {
        (('A' as int) + n - 10) as char
    }
}

/// The bytes of a character's UTF-8 form.
pub open spec fn utf8_bytes(c: char) -> Seq<int> {
    let n = c as int;
    if n < 0x80 {
        seq![n]
    } else if n < 0x800 {
        seq![0xC0 + n / 64, 0x80 + n % 64]
    } else if n < 0x10000 {
        seq![0xE0 + n / 4096, 0x80 + (n / 64) % 64, 0x80 + n % 64]
    } else {
        seq![0xF0 + n / 262144, 0x80 + (n / 4096) % 64, 0x80 + (n / 64) % 64, 0x80 + n % 64]
    }
}

/// One byte percent-encoded: kept as its character when it is an ASCII
/// letter or digit or one of `-._~`, else `%` and two uppercase hexadecimal
/// digits.
pub open spec fn encoded_byte(b: int) -> Seq<char> {
    if b < 128 && url_safe(b as char) {
        seq![b as char]
    } else {
        seq!['%', upper_hex(b / 16), upper_hex(b % 16)]
    }
}

pub open spec fn encoded_bytes(bs: Seq<int>) -> Seq<char>
    decreases bs.len(),
{
    if bs.len() == 0 {
        Seq::empty()
    } else {
        encoded_bytes(bs.drop_last()) + encoded_byte(bs.last())
    }
}

/// What `urlencoding::encode` returns for a text: each byte of its UTF-8
/// form percent-encoded.
pub open spec fn url_encoded(s: Seq<char>) -> Seq<char>
    decreases s.len(),
{
    if s.len() == 0 {
        Seq::empty()
    } else {
        url_encoded(s.drop_last()) + encoded_bytes(utf8_bytes(s.last()))
    }
}

/// `urlencoding::encode`: each byte of the text's UTF-8 form kept when it
/// is an ASCII letter or digit or one of `-._~`, else written as `%` and two
/// uppercase hexadecimal digits.
#[verifier::external_body]
fn url_encode(s: &str) -> (r: String)
    ensures
        r@ == url_encoded(s@),
{
    urlencoding::encode(s).into_owned()
}

pub open spec fn opt_text(o: Option<&str>) -> Option<Seq<char>> {
    match o {
        Some(s) => Some(s@),
        None => None,
    }
}

/// A query parameter, when it has a value.
pub open spec fn opt_param(name: Seq<char>, value: Option<Seq<char>>) -> Seq<Seq<char>> {
    match value {
        Some(v) => seq![name + "="@ + url_encoded(v)],
        None => Seq::empty(),
    }
}

/// The address of a logs query: the endpoint, then the given parameters.
pub open spec fn logs_url_text(
    project_ref: Seq<char>,
    sql: Option<Seq<char>>,
    start: Option<Seq<char>>,
    end: Option<Seq<char>>,
) -> Seq<char> {
    let base = project_api_url(project_ref, "/analytics/endpoints/logs.all/query"@);
    let params = opt_param("sql"@, sql) + opt_param("iso_timestamp_start"@, start) + opt_param(
        "iso_timestamp_end"@,
        end,
    );
    if params.len() == 0 {
        base
    } else {
        base + "?"@ + join(params, "&"@)
    }
}

fn push_param(params: &mut Vec<String>, name: &str, value: Option<&str>)
    ensures
        final(params).deep_view() == old(params).deep_view() + opt_param(name@, opt_text(value)),
{
    match value {
        Some(v) => {
            let enc = url_encode(v);
            let p = concat3(name, "=", &enc);
            let ghost before = params.deep_view();
            params.push(p);
            proof {
                assert(params.deep_view() =~= before + opt_param(name@, opt_text(value)));
            }
        },
        None => {
            proof {
                assert(params.deep_view() =~= params.deep_view() + Seq::<Seq<char>>::empty());
            }
        },
    }
}

/// The address of a query of the project's logs (`query_logs`).
pub fn logs_url(
    project_ref: &str,
    sql: Option<&str>,
    iso_timestamp_start: Option<&str>,
    iso_timestamp_end: Option<&str>,
) -> (r: String)
    ensures
        r@ == logs_url_text(
            project_ref@,
            opt_text(sql),
            opt_text(iso_timestamp_start),
            opt_text(iso_timestamp_end),
        ),
{
    let url = project_url_with(project_ref, "/analytics/endpoints/logs.all/query");
    let mut params: Vec<String> = Vec::new();
    proof {
        assert(params.deep_view() =~= Seq::<Seq<char>>::empty());
    }
    push_param(&mut params, "sql", sql);
    push_param(&mut params, "iso_timestamp_start", iso_timestamp_start);
    push_param(&mut params, "iso_timestamp_end", iso_timestamp_end);
    proof {
        assert(params.deep_view() =~= opt_param("sql"@, opt_text(sql)) + opt_param(
            "iso_timestamp_start"@,
            opt_text(iso_timestamp_start),
        ) + opt_param("iso_timestamp_end"@, opt_text(iso_timestamp_end)));
    }
    if params.len() == 0 {
        url
    } else {
        let joined = join_texts(&params, "&");
        concat3(&url, "?", &joined)
    }
}

/// The query of an edge function's logs (or of all edge logs), newest
/// first, at most 100 rows.
pub open spec fn edge_logs_sql_text(function_name: Option<Seq<char>>) -> Seq<char> {
    match function_name {
        Some(n) => "select id, timestamp, event_message, metadata, request\n                   from edge_logs\n                   where metadata->>'function_id' = '"@
            + n + "'\n                   order by timestamp desc\n                   limit 100"@,
        None => "select id, timestamp, event_message, metadata, request\n               from edge_logs\n               order by timestamp desc\n               limit 100"@,
    }
}

pub fn edge_logs_sql(function_name: Option<&str>) -> (r: String)
    ensures
        r@ == edge_logs_sql_text(opt_text(function_name)),
{
    match function_name {
        Some(n) => concat3(
            "select id, timestamp, event_message, metadata, request\n                   from edge_logs\n                   where metadata->>'function_id' = '",
            n,
            "'\n                   order by timestamp desc\n                   limit 100",
        ),
        None => "select id, timestamp, event_message, metadata, request\n               from edge_logs\n               order by timestamp desc\n               limit 100".to_string(),
    }
}

/// The query of the database's logs, newest first, at most 100 rows.
pub fn postgres_logs_sql() -> (r: String)
    ensures
        r@ == "select id, timestamp, event_message, error_severity, user_name, query\n                     from postgres_logs\n                     order by timestamp desc\n                     limit 100"@,
{
    "select id, timestamp, event_message, error_severity, user_name, query\n                     from postgres_logs\n                     order by timestamp desc\n                     limit 100".to_string()
}

/// The query of the authentication logs, newest first, at most 100 rows.
pub fn auth_logs_sql() -> (r: String)
    ensures
        r@ == "select id, timestamp, event_message, level, path, status\n                     from auth_logs\n                     order by timestamp desc\n                     limit 100"@,
{
    "select id, timestamp, event_message, level, path, status\n                     from auth_logs\n                     order by timestamp desc\n                     limit 100".to_string()
}

/// The beginning of the window of the last `minutes` minutes before `now`.
pub fn log_window_start(now: Timestamp, minutes: u32) -> (r: Timestamp)
    requires
        now.secs - 60 * minutes >= i64::MIN,
    ensures
        r.secs == now.secs - 60 * minutes,
        r.nanos == now.nanos,
{
    let back: i64 = 60 * (minutes as i64);
    Timestamp { secs: now.secs - back, nanos: now.nanos }
}

/// What `chrono::DateTime::to_rfc3339` writes for the UTC time of these
/// seconds and nanoseconds since the epoch, or none when
/// `DateTime::from_timestamp` refuses them (out of range).
pub uninterp spec fn rfc3339_text(secs: i64, nanos: u32) -> Option<Seq<char>>;

/// `chrono::DateTime::<Utc>::from_timestamp` then `to_rfc3339`.
#[verifier::external_body]
fn rfc3339(t: Timestamp) -> (r: Option<String>)
    ensures
        r.deep_view() == rfc3339_text(t.secs, t.nanos),
{
    match chrono::DateTime::<chrono::Utc>::from_timestamp(t.secs, t.nanos) {
        Some(d) => Some(d.to_rfc3339()),
        None => None,
    }
}

/// The address of a logs query with this SQL over the last `minutes` minutes
/// before `now` (`get_edge_function_logs`, `get_postgres_logs`,
/// `get_auth_logs`); none when a bound of the window has no date.
pub fn recent_logs_url(project_ref: &str, sql: &str, now: Timestamp, minutes: u32) -> (r: Option<
    String,
>)
    requires
        now.secs - 60 * minutes >= i64::MIN,
    ensures
        ({
            let start = rfc3339_text((now.secs - 60 * minutes) as i64, now.nanos);
            let end = rfc3339_text(now.secs, now.nanos);
            match (start, end) {
                (Some(s), Some(e)) => r.deep_view() == Some(
                    logs_url_text(project_ref@, Some(sql@), Some(s), Some(e)),
                ),
                _ => r is None,
            }
        }),
{
    let start = log_window_start(now, minutes);
    let start_text = rfc3339(start);
    let end_text = rfc3339(now);
    match (start_text, end_text) {
        (Some(s), Some(e)) => Some(logs_url(project_ref, Some(sql), Some(s.as_str()), Some(e.as_str()))),
        _ => None,
    }
}

// ---------------------------------------------------------------------------
// Reading the answer of a SQL query.
// ---------------------------------------------------------------------------

/// The `result` of a query answer: an array, or something else with its
/// debug text.
#[derive(Debug)]
pub enum QueryResult {
    Array,
    NotArray(String),
}

/// The shape of the text a SQL query answered with.
#[derive(Debug)]
pub enum QueryBody {
    /// Not JSON; the parser's message.
    NotJson(String),
    /// A JSON array: the rows.
    Array,
    /// An object with a `result` or an `error` key that reads as an answer:
    /// its result, if any, and its error, if any.
    Reply { result: Option<QueryResult>, error: Option<String> },
    /// Any other JSON value.
    Other,
}

/// The first 200 characters of an answer, quoted in errors.
pub open spec fn snippet(body: Seq<char>) -> Seq<char> {
    body.take(
        if body.len() < 200 {
            body.len() as int
        } else {
            200
        },
    )
}

/// How a query's answer is judged: rows (an array, or an answer whose
/// result is an array or absent) give the answer's error, if any; anything
/// else is refused with this message, as an API error with status 200.
pub open spec fn query_verdict(body: QueryBody, text: Seq<char>) -> Result<
    Option<Seq<char>>,
    Seq<char>,
> {
    match body {
        QueryBody::NotJson(e) => Err("Failed to parse JSON: "@ + e@ + ". Body: "@ + snippet(text)),
        QueryBody::Array => Ok(None),
        QueryBody::Reply { result, error } => match result {
            Some(QueryResult::NotArray(d)) => Err(
                "Query 'result' is not an array: "@ + d@ + ". Body: "@ + text,
            ),
            _ => Ok(error.deep_view()),
        },
        QueryBody::Other => Err(
            "Unexpected response format. Not an array and not a result/error object. Body: "@
                + snippet(text),
        ),
    }
}

/// The first 200 characters of a text.
fn snippet_of(text: &str) -> (r: String)
    ensures
        r@ == snippet(text@),
{
    let n = text.unicode_len();
    let k = if n < 200 {
        n
    } else {
        200
    };
    let r = text.substring_char(0, k).to_owned();
    proof {
        assert(r@ =~= snippet(text@));
    }
    r
}

fn refusal(message: String) -> (r: ApiError)
    ensures
        r matches ApiError::ApiError { status, message: m } && status == 200 && m@ == message@,
{
    ApiError::ApiError { status: 200, message }
}

/// Judges the answer of a SQL query (`run_query`) from its shape and its
/// text: the answer's error when it holds rows, else the API error.
pub fn check_query_body(body: &QueryBody, text: &str) -> (r: Result<Option<String>, ApiError>)
    ensures
        match query_verdict(*body, text@) {
            Ok(e) => (r matches Ok(x) && x.deep_view() == e),
            Err(m) => (r matches Err(ApiError::ApiError { status, message }) && status == 200
                && message@ == m),
        },
{
    match body {
        QueryBody::NotJson(e) => {
            let snip = snippet_of(text);
            let head = concat3("Failed to parse JSON: ", e, ". Body: ");
            Err(refusal(concat2(&head, &snip)))
        },
        QueryBody::Array => Ok(None),
        QueryBody::Reply { result, error } => match result {
            Some(QueryResult::NotArray(d)) => {
                let head = concat3("Query 'result' is not an array: ", d, ". Body: ");
                Err(refusal(concat2(&head, text)))
            },
            _ => Ok(crate::schema::clone_opt_text(error)),
        },
        QueryBody::Other => {
            let snip = snippet_of(text);
            Err(
                refusal(
                    concat2(
                        "Unexpected response format. Not an array and not a result/error object. Body: ",
                        &snip,
                    ),
                ),
            )
        },
    }
}

/// The error of a list of functions that does not read (`list_functions`).
pub fn functions_list_error(parse_error: &str, text: &str) -> (r: ApiError)
    ensures
        r matches ApiError::ApiError { status, message } && status == 200 && message@
            == "Failed to parse functions list: "@ + parse_error@ + ". Body: "@ + snippet(text@),
{
    let snip = snippet_of(text);
    let head = concat3("Failed to parse functions list: ", parse_error, ". Body: ");
    refusal(concat2(&head, &snip))
}

} // verus!
