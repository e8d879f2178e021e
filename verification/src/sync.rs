//! The decisions of pushing a local schema to a remote project, of pulling
//! a remote schema, of saving edge functions and of creating a project. The
//! application performs each outside step (a lookup, a catalogue query, a
//! file read, running the migration) and hands its result to the next
//! function here, which says what to log and what comes next.
use vstd::prelude::*;
use vstd::string::*;

use crate::diff::{compute_diff, schema_diff_of, summary_text, SchemaDiffView};
use crate::generator::{generate_sql, migration_sql};
use crate::introspection::{catalog_schema, introspect, Catalog};
use crate::models::{LogEntry, LogEntryView, LogLevel, LogSource, Project};
use crate::parsing::{parse_schema_sql, schema_of_statements};
use crate::schema::{DbSchema, DbSchemaView};
use crate::sql_ast::parsed_statements;
use crate::state::{state_error_text, StateError};
use crate::supabase_api::{Organization, SupabaseApi};
use crate::text::{
    concat2, concat3, contains_seq, decimal, decimal_text, ends_with, owned, signed_decimal,
    signed_decimal_text, starts_with, strip_all_prefix, strip_all_prefix_text, text_contains,
    text_ends_with, text_eq, text_starts_with, trim, trim_ws,
};

verus! {

// ---------------------------------------------------------------------------
// Log lines.
// ---------------------------------------------------------------------------

/// What a log entry says: its project, level, source and message.
pub type LogLine = (Option<u128>, LogLevel, LogSource, Seq<char>);

pub open spec fn log_line(e: LogEntryView) -> LogLine {
    (e.project_id, e.level, e.source, e.message)
}

pub open spec fn log_lines(v: Seq<LogEntryView>) -> Seq<LogLine> {
    v.map_values(|e: LogEntryView| log_line(e))
}

fn push_log(logs: &mut Vec<LogEntry>, e: LogEntry)
    requires
        e.details is None,
    ensures
        log_lines(final(logs).deep_view()) == log_lines(old(logs).deep_view()).push(log_line(e@)),
{
    let ghost before = logs.deep_view();
    let ghost ev = e@;
    logs.push(e);
    proof {
        assert(logs.deep_view() =~= before.push(ev));
        assert(log_lines(logs.deep_view()) =~= log_lines(before).push(log_line(ev)));
    }
}

// ---------------------------------------------------------------------------
// Pushing.
// ---------------------------------------------------------------------------

/// An automatic push follows a change to the schema file; a manual one is
/// asked for.
#[derive(Clone, Copy, Debug, PartialEq, Eq, Structural)]
pub enum PushMode {
    Auto,
    Manual,
}

/// The source under which a push logs.
pub open spec fn push_source(mode: PushMode) -> LogSource {
    match mode {
        PushMode::Auto => LogSource::Schema,
        PushMode::Manual => LogSource::System,
    }
}

fn source_of(mode: PushMode) -> (r: LogSource)
    ensures
        r == push_source(mode),
{
    match mode {
        PushMode::Auto => LogSource::Schema,
        PushMode::Manual => LogSource::System,
    }
}

/// What comes after a step of a push: the next step's input, or the end of
/// the push with its result. An automatic push that succeeds ends with an
/// empty text; a manual one with the SQL it ran, or `No changes`.
#[derive(Debug)]
pub enum PushNext<T> {
    Continue(T),
    Finish(Result<String, String>),
}

pub enum PushNextView<V> {
    Continue(V),
    Finish(Result<Seq<char>, Seq<char>>),
}

impl<T: View> View for PushNext<T> {
    type V = PushNextView<T::V>;

    open spec fn view(&self) -> PushNextView<T::V> {
        match self {
            PushNext::Continue(t) => PushNextView::Continue(t@),
            PushNext::Finish(r) => PushNextView::Finish(finish_text(*r)),
        }
    }
}

/// A step's entries to log, in order, and what comes next.
#[derive(Debug)]
pub struct PushStep<T> {
    pub logs: Vec<LogEntry>,
    pub next: PushNext<T>,
}

/// Where a push goes: the remote project's reference and the local folder.
#[derive(Debug)]
pub struct PushTarget {
    pub project_ref: String,
    pub local_path: String,
}

impl View for PushTarget {
    type V = (Seq<char>, Seq<char>);

    open spec fn view(&self) -> (Seq<char>, Seq<char>) {
        (self.project_ref@, self.local_path@)
    }
}

pub open spec fn finish_err<V>(e: Seq<char>) -> PushNextView<V> {
    PushNextView::Finish(Err(e))
}

pub open spec fn finish_ok<V>(t: Seq<char>) -> PushNextView<V> {
    PushNextView::Finish(Ok(t))
}

/// The lines and the next step at the beginning of a push.
pub open spec fn begin_outcome(
    mode: PushMode,
    project_id: u128,
    project: Result<Project, StateError>,
    api: Result<SupabaseApi, StateError>,
) -> (Seq<LogLine>, PushNextView<(Seq<char>, Seq<char>)>) {
    match project {
        Err(e) => (Seq::empty(), finish_err(state_error_text(e))),
        Ok(p) => match p.supabase_project_ref {
            None => match mode {
                PushMode::Auto => (
                    seq![
                        (
                            Some(project_id),
                            LogLevel::Warning,
                            LogSource::Schema,
                            "Auto-push skipped: project not linked to Supabase"@,
                        ),
                    ],
                    finish_ok(Seq::empty()),
                ),
                PushMode::Manual => (Seq::empty(), finish_err("Project not linked to Supabase"@)),
            },
            Some(project_ref) => match api {
                Err(e) => (Seq::empty(), finish_err(state_error_text(e))),
                Ok(_) => (
                    seq![
                        (
                            Some(project_id),
                            LogLevel::Info,
                            push_source(mode),
                            if mode == PushMode::Auto {
                                "Auto-pushing schema changes..."@
                            } else {
                                "Pushing schema changes..."@
                            },
                        ),
                    ],
                    PushNextView::Continue((project_ref@, p.local_path@)),
                ),
            },
        },
    }
}

/// The lines and the next step once the remote catalogue was queried.
pub open spec fn remote_outcome(mode: PushMode, project_id: u128, remote: Result<Catalog, String>) -> (
    Seq<LogLine>,
    PushNextView<DbSchemaView>,
) {
    match remote {
        Ok(c) => (Seq::empty(), PushNextView::Continue(catalog_schema(c))),
        Err(e) => (
            if mode == PushMode::Auto {
                seq![
                    (
                        Some(project_id),
                        LogLevel::Error,
                        LogSource::Schema,
                        "Introspection failed: "@ + e@,
                    ),
                ]
            } else {
                Seq::empty()
            },
            finish_err(e@),
        ),
    }
}

/// The lines and the next step once the local schema file was looked for.
pub open spec fn local_file_outcome(
    mode: PushMode,
    project_id: u128,
    contents: Option<Result<String, String>>,
) -> (Seq<LogLine>, PushNextView<Seq<char>>) {
    match contents {
        Some(Ok(sql)) => (Seq::empty(), PushNextView::Continue(sql@)),
        Some(Err(e)) => (Seq::empty(), finish_err(e@)),
        None => match mode {
            PushMode::Auto => (
                seq![(Some(project_id), LogLevel::Error, LogSource::Schema, schema_missing_text())],
                finish_err("Schema file not found"@),
            ),
            PushMode::Manual => (Seq::empty(), finish_err(schema_missing_text())),
        },
    }
}

pub open spec fn finish_text(r: Result<String, String>) -> Result<Seq<char>, Seq<char>> {
    match r {
        Ok(s) => Ok(s@),
        Err(e) => Err(e@),
    }
}

/// The beginning of a push of project `project_id`, given the project (or
/// why it was not found) and the API client (or why there is none).
///
/// A project not linked to a remote one ends an automatic push with a
/// warning and a manual one with an error; a missing project or token ends
/// the push with its error.
pub fn push_begin(
    mode: PushMode,
    project_id: u128,
    project: Result<Project, StateError>,
    api: Result<SupabaseApi, StateError>,
) -> (r: PushStep<PushTarget>)
    ensures
        (log_lines(r.logs.deep_view()), r.next@) == begin_outcome(mode, project_id, project, api),
{
    let mut logs: Vec<LogEntry> = Vec::new();
    proof {
        assert(log_lines(logs.deep_view()) =~= Seq::<LogLine>::empty());
    }
    let p = match project {
        Err(e) => {
            return PushStep { logs, next: PushNext::Finish(Err(e.message())) };
        },
        Ok(p) => p,
    };
    let project_ref = match p.supabase_project_ref {
        Some(r) => r,
        None => {
            match mode {
                PushMode::Auto => {
                    push_log(
                        &mut logs,
                        LogEntry::warning(
                            Some(project_id),
                            LogSource::Schema,
                            "Auto-push skipped: project not linked to Supabase".to_string(),
                        ),
                    );
                    return PushStep { logs, next: PushNext::Finish(Ok(String::new())) };
                },
                PushMode::Manual => {
                    return PushStep {
                        logs,
                        next: PushNext::Finish(Err("Project not linked to Supabase".to_string())),
                    };
                },
            }
        },
    };
    if let Err(e) = api {
        return PushStep { logs, next: PushNext::Finish(Err(e.message())) };
    }
    let message = match mode {
        PushMode::Auto => "Auto-pushing schema changes...".to_string(),
        PushMode::Manual => "Pushing schema changes...".to_string(),
    };
    push_log(&mut logs, LogEntry::info(Some(project_id), source_of(mode), message));
    PushStep {
        logs,
        next: PushNext::Continue(PushTarget { project_ref, local_path: p.local_path }),
    }
}

/// The step after the remote catalogue was queried: its schema, or the end
/// of the push with the query's error (logged by an automatic push).
pub fn push_remote(mode: PushMode, project_id: u128, remote: Result<Catalog, String>) -> (r: PushStep<
    DbSchema,
>)
    ensures
        (log_lines(r.logs.deep_view()), r.next@) == remote_outcome(mode, project_id, remote),
        r.next matches PushNext::Continue(schema) ==> schema.wf(),
{
    let mut logs: Vec<LogEntry> = Vec::new();
    proof {
        assert(log_lines(logs.deep_view()) =~= Seq::<LogLine>::empty());
    }
    match remote {
        Ok(c) => PushStep { logs, next: PushNext::Continue(introspect(&c)) },
        Err(e) => {
            if mode == PushMode::Auto {
                push_log(
                    &mut logs,
                    LogEntry::error(
                        Some(project_id),
                        LogSource::Schema,
                        concat2("Introspection failed: ", &e),
                    ),
                );
            }
            PushStep { logs, next: PushNext::Finish(Err(e)) }
        },
    }
}

/// The message of a push that found no schema file.
pub open spec fn schema_missing_text() -> Seq<char> {
    "Schema file not found (checked supabase/schemas/schema.sql and supabase/schema.sql)"@
}

/// The step after the local schema file was looked for: its text; or, when
/// no candidate file exists or the read fails, the end of the push.
pub fn push_local_file(mode: PushMode, project_id: u128, contents: Option<Result<String, String>>) -> (r:
    PushStep<String>)
    ensures
        (log_lines(r.logs.deep_view()), r.next@) == local_file_outcome(mode, project_id, contents),
{
    let mut logs: Vec<LogEntry> = Vec::new();
    proof {
        assert(log_lines(logs.deep_view()) =~= Seq::<LogLine>::empty());
    }
    match contents {
        Some(Ok(sql)) => PushStep { logs, next: PushNext::Continue(sql) },
        Some(Err(e)) => PushStep { logs, next: PushNext::Finish(Err(e)) },
        None => {
            let long = "Schema file not found (checked supabase/schemas/schema.sql and supabase/schema.sql)".to_string();
            match mode {
                PushMode::Auto => {
                    push_log(&mut logs, LogEntry::error(Some(project_id), LogSource::Schema, long));
                    PushStep { logs, next: PushNext::Finish(Err("Schema file not found".to_string())) }
                },
                PushMode::Manual => PushStep { logs, next: PushNext::Finish(Err(long)) },
            }
        },
    }
}

/// The lines logged once the migration of `d` is known to be `sql`: a
/// manual push shows the diff's summary first; then either there is nothing
/// to apply, or the changes are announced (a manual push shows the SQL, an
/// automatic one the summary).
pub open spec fn plan_lines(mode: PushMode, project_id: u128, d: SchemaDiffView, sql: Seq<char>) -> Seq<
    LogLine,
> {
    (if mode == PushMode::Manual {
        seq![
            (
                Some(project_id),
                LogLevel::Info,
                LogSource::System,
                "Diff Summary:\n"@ + summary_text(d),
            ),
        ]
    } else {
        Seq::empty()
    }) + if trim_ws(sql).len() == 0 {
        seq![
            (
                Some(project_id),
                LogLevel::Success,
                push_source(mode),
                "No schema changes detected."@,
            ),
        ]
    } else {
        seq![
            (
                Some(project_id),
                LogLevel::Info,
                push_source(mode),
                "Applying changes:\n"@ + if mode == PushMode::Manual {
                    sql
                } else {
                    summary_text(d)
                },
            ),
        ]
    }
}

/// The text a push ends with when there is nothing to apply.
pub open spec fn no_change_text(mode: PushMode) -> Seq<char> {
    if mode == PushMode::Manual {
        "No changes"@
    } else {
        Seq::empty()
    }
}

/// The lines and the next step once the local schema SQL is read and the
/// migration from the remote schema to it is planned.
pub open spec fn plan_outcome(
    mode: PushMode,
    project_id: u128,
    remote: DbSchemaView,
    local_sql: Seq<char>,
) -> (Seq<LogLine>, PushNextView<Seq<char>>) {
    match parsed_statements(local_sql) {
        Err(e) => (
            if mode == PushMode::Auto {
                seq![
                    (
                        Some(project_id),
                        LogLevel::Error,
                        LogSource::Schema,
                        "Failed to parse schema: "@ + e,
                    ),
                ]
            } else {
                Seq::empty()
            },
            finish_err(e),
        ),
        Ok(stmts) => {
            let local = schema_of_statements(stmts);
            let d = schema_diff_of(remote, local);
            let sql = migration_sql(d, local);
            (
                plan_lines(mode, project_id, d, sql),
                if trim_ws(sql).len() == 0 {
                    finish_ok(no_change_text(mode))
                } else {
                    PushNextView::Continue(sql)
                },
            )
        },
    }
}

/// The step that reads the local schema SQL and plans the migration from the
/// remote schema to it: the migration SQL to run, or the end of the push
/// (when the SQL does not parse, or when there is nothing to apply).
pub fn push_plan(mode: PushMode, project_id: u128, remote: &DbSchema, local_sql: &str) -> (r: PushStep<
    String,
>)
    requires
        remote.wf(),
    ensures
        (log_lines(r.logs.deep_view()), r.next@) == plan_outcome(mode, project_id, remote@, local_sql@),
{
    let mut logs: Vec<LogEntry> = Vec::new();
    proof {
        assert(log_lines(logs.deep_view()) =~= Seq::<LogLine>::empty());
    }
    let local = match parse_schema_sql(local_sql) {
        Ok(s) => s,
        Err(e) => {
            if mode == PushMode::Auto {
                push_log(
                    &mut logs,
                    LogEntry::error(
                        Some(project_id),
                        LogSource::Schema,
                        concat2("Failed to parse schema: ", &e),
                    ),
                );
            }
            return PushStep { logs, next: PushNext::Finish(Err(e)) };
        },
    };
    let diff = compute_diff(remote, &local);
    let sql = generate_sql(&diff, &local);
    let summary = diff.summarize();
    let ghost head = log_lines(logs.deep_view());
    if mode == PushMode::Manual {
        push_log(
            &mut logs,
            LogEntry::info(Some(project_id), LogSource::System, concat2("Diff Summary:\n", &summary)),
        );
    }
    let trimmed = trim(&sql);
    if trimmed.as_str().unicode_len() == 0 {
        push_log(
            &mut logs,
            LogEntry::success(
                Some(project_id),
                source_of(mode),
                "No schema changes detected.".to_string(),
            ),
        );
        let done = match mode {
            PushMode::Manual => "No changes".to_string(),
            PushMode::Auto => String::new(),
        };
        return PushStep { logs, next: PushNext::Finish(Ok(done)) };
    }
    let shown = match mode {
        PushMode::Manual => owned(&sql),
        PushMode::Auto => owned(&summary),
    };
    push_log(
        &mut logs,
        LogEntry::info(Some(project_id), source_of(mode), concat2("Applying changes:\n", &shown)),
    );
    PushStep { logs, next: PushNext::Continue(sql) }
}

/// The lines and the result once the migration ran.
pub open spec fn finish_outcome(
    mode: PushMode,
    project_id: u128,
    sql: Seq<char>,
    outcome: Result<Option<String>, String>,
) -> (Seq<LogLine>, Result<Seq<char>, Seq<char>>) {
    match outcome {
        Err(e) => (Seq::empty(), Err(e@)),
        Ok(Some(err)) => (
            seq![
                (
                    Some(project_id),
                    LogLevel::Error,
                    push_source(mode),
                    "Migration failed: "@ + err@,
                ),
            ],
            Err(err@),
        ),
        Ok(None) => (
            seq![
                (
                    Some(project_id),
                    LogLevel::Success,
                    push_source(mode),
                    "Schema changes pushed successfully."@,
                ),
            ],
            Ok(
                if mode == PushMode::Manual {
                    sql
                } else {
                    Seq::empty()
                },
            ),
        ),
    }
}

/// The end of a push once the migration ran: the API's failure, the
/// database's error (logged), or success (logged).
pub fn push_finish(
    mode: PushMode,
    project_id: u128,
    sql: String,
    outcome: Result<Option<String>, String>,
) -> (r: (Vec<LogEntry>, Result<String, String>))
    ensures
        (log_lines(r.0.deep_view()), finish_text(r.1)) == finish_outcome(mode, project_id, sql@, outcome),
{
    let mut logs: Vec<LogEntry> = Vec::new();
    proof {
        assert(log_lines(logs.deep_view()) =~= Seq::<LogLine>::empty());
    }
    match outcome {
        Err(e) => (logs, Err(e)),
        Ok(Some(err)) => {
            push_log(
                &mut logs,
                LogEntry::error(Some(project_id), source_of(mode), concat2("Migration failed: ", &err)),
            );
            (logs, Err(err))
        },
        Ok(None) => {
            push_log(
                &mut logs,
                LogEntry::success(
                    Some(project_id),
                    source_of(mode),
                    "Schema changes pushed successfully.".to_string(),
                ),
            );
            let done = match mode {
                PushMode::Manual => sql,
                PushMode::Auto => String::new(),
            };
            (logs, Ok(done))
        },
    }
}

// ---------------------------------------------------------------------------
// Pulling.
// ---------------------------------------------------------------------------

/// The empty schema's view.
pub open spec fn empty_schema() -> DbSchemaView {
    DbSchemaView { tables: Seq::empty(), enums: Seq::empty(), functions: Seq::empty() }
}

/// The SQL that creates the whole remote schema: the migration from an
/// empty schema to it.
pub open spec fn pull_sql_text(remote: DbSchemaView) -> Seq<char> {
    migration_sql(schema_diff_of(empty_schema(), remote), remote)
}

/// The SQL file a pull writes for the schema that the catalogue describes.
pub fn pull_sql(catalog: &Catalog) -> (r: String)
    ensures
        r@ == pull_sql_text(catalog_schema(*catalog)),
{
    let remote = introspect(catalog);
    let empty = DbSchema::new();
    proof {
        assert(empty@ == empty_schema()) by {
            assert(empty@.tables =~= Seq::empty());
            assert(empty@.enums =~= Seq::empty());
            assert(empty@.functions =~= Seq::empty());
        }
    }
    let diff = compute_diff(&empty, &remote);
    generate_sql(&diff, &remote)
}


// ---------------------------------------------------------------------------
// Edge functions.
// ---------------------------------------------------------------------------

/// Whether deployed code of this content type is a bundle (an eszip
/// archive) rather than plain source.
pub open spec fn is_bundle(content_type: Seq<char>) -> bool {
    content_type == "application/vnd.denoland.eszip"@ || content_type == "application/octet-stream"@
}

pub fn is_bundle_content_type(content_type: &str) -> (b: bool)
    ensures
        b == is_bundle(content_type@),
{
    text_eq(content_type, "application/vnd.denoland.eszip") || text_eq(
        content_type,
        "application/octet-stream",
    )
}

/// What `Path::file_name` gives for a path, as text: its last component, or
/// none when the path ends in `..` or has no component.
pub uninterp spec fn path_file_name(path: Seq<char>) -> Option<Seq<char>>;

/// The text after the last `c` in `s`, or all of `s` when `c` is absent.
pub open spec fn after_last(s: Seq<char>, c: char) -> Seq<char>
    decreases s.len(),
{
    if s.len() == 0 {
        s
    } else if s.last() == c {
        Seq::empty()
    } else {
        after_last(s.drop_last(), c).push(s.last())
    }
}

/// `std::path::Path::file_name`, as text. Its result is the named
/// `path_file_name`; for a non-empty path that ends in neither `/` nor `.`
/// it is the text after the last `/` (on Unix, where `/` is the one
/// separator).
#[verifier::external_body]
fn file_name(path: &str) -> (r: Option<String>)
    ensures
        r.deep_view() == path_file_name(path@),
        path@.len() > 0 && path@.last() != '/' && path@.last() != '.' ==> r.deep_view() == Some(
            after_last(path@, '/'),
        ),
{
    match std::path::Path::new(path).file_name() {
        Some(n) => match n.to_str() {
            Some(s) => Some(s.to_string()),
            None => None,
        },
        None => None,
    }
}

/// The file that a module of a bundle is written to: local modules only
/// (`file:///…`); an `index.ts` anywhere as `index.ts`; others by their file
/// name, except dependencies (under `node_modules` or `deno_dir`).
pub open spec fn bundle_output(specifier: Seq<char>) -> Option<Seq<char>> {
    if !starts_with(specifier, "file:///"@) {
        None
    } else {
        let p = strip_all_prefix(specifier, "file:///"@);
        if ends_with(p, "/index.ts"@) || p == "index.ts"@ {
            Some("index.ts"@)
        } else if !contains_seq(p, "node_modules"@) && !contains_seq(p, "deno_dir"@) {
            path_file_name(p)
        } else {
            None
        }
    }
}

pub fn bundle_output_name(specifier: &str) -> (r: Option<String>)
    ensures
        r.deep_view() == bundle_output(specifier@),
{
    if !text_starts_with(specifier, "file:///") {
        return None;
    }
    let p = strip_all_prefix_text(specifier, "file:///");
    if text_ends_with(&p, "/index.ts") || text_eq(&p, "index.ts") {
        Some("index.ts".to_string())
    } else if !text_contains(&p, "node_modules") && !text_contains(&p, "deno_dir") {
        file_name(&p)
    } else {
        None
    }
}

/// The text put in place of a function's source when its bundle could not
/// be unpacked.
pub fn unpack_notice(slug: &str) -> (r: String)
    ensures
        r@ == "// The source code for function '"@ + slug@
            + "' could not be unpacked.\n// The deployed bundle has been downloaded as 'function.eszip'."@,
{
    concat3(
        "// The source code for function '",
        slug,
        "' could not be unpacked.\n// The deployed bundle has been downloaded as 'function.eszip'.",
    )
}

/// The message after edge functions were saved.
pub fn synced_message(count: u64) -> (r: String)
    ensures
        r@ == "Synced "@ + decimal_text(count as nat) + " edge functions"@,
{
    let n = decimal(count);
    concat3("Synced ", &n, " edge functions")
}

/// The entry file of a function deployed from this path: its file name, or
/// `index.ts`.
pub fn entrypoint_of(function_path: &str) -> (r: String)
    ensures
        r@ == match path_file_name(function_path@) {
            Some(n) => n,
            None => "index.ts"@,
        },
{
    match file_name(function_path) {
        Some(n) => n,
        None => "index.ts".to_string(),
    }
}

/// The log message and the result of a deployment that returned this name
/// and version.
pub fn deployed_texts(name: &str, version: i32) -> (r: (String, String))
    ensures
        r.0@ == "Deployed "@ + name@ + " (v"@ + signed_decimal_text(version as int) + ")"@,
        r.1@ == "Successfully deployed "@ + name@ + " version "@ + signed_decimal_text(
            version as int,
        ),
{
    let v = signed_decimal(version as i64);
    let a = concat3("Deployed ", name, " (v");
    let log = concat3(&a, &v, ")");
    let b = concat3("Successfully deployed ", name, " version ");
    let done = concat2(&b, &v);
    (log, done)
}

// ---------------------------------------------------------------------------
// Creating a project.
// ---------------------------------------------------------------------------

/// The organization a new remote project goes to: the one asked for, or
/// the first. The errors are the messages shown when there is none.
pub fn choose_organization(orgs: &Vec<Organization>, organization_id: Option<&str>) -> (r: Result<
    usize,
    String,
>)
    ensures
        match organization_id {
            Some(oid) => match r {
                Ok(i) => i < orgs.len() && orgs[i as int].id@ == oid@ && forall|j: int|
                    0 <= j < i ==> (#[trigger] orgs@[j]).id@ != oid@,
                Err(m) => m@ == "Selected organization not found."@ && forall|j: int|
                    0 <= j < orgs.len() ==> (#[trigger] orgs@[j]).id@ != oid@,
            },
            None => match r {
                Ok(i) => i == 0 && orgs.len() > 0,
                Err(m) => m@ == "No organizations found. Please create one in Supabase dashboard."@
                    && orgs.len() == 0,
            },
        },
{
    match organization_id {
        Some(oid) => {
            let mut i: usize = 0;
            while i < orgs.len()
                invariant
                    i <= orgs.len(),
                    organization_id == Some(oid),
                    forall|j: int| 0 <= j < i ==> (#[trigger] orgs@[j]).id@ != oid@,
                decreases orgs.len() - i,
            {
                let id: &str = orgs[i].id.as_str();
                if text_eq(id, oid) {
                    return Ok(i);
                }
                i = i + 1;
            }
            Err("Selected organization not found.".to_string())
        },
        None => {
            if orgs.len() > 0 {
                Ok(0)
            } else {
                Err("No organizations found. Please create one in Supabase dashboard.".to_string())
            }
        },
    }
}

/// The id recorded for a project linked to the remote project `project_ref`:
/// the one given, else the one the API reported, else the reference itself.
pub fn linked_project_id(given: Option<String>, fetched: Option<String>, project_ref: &str) -> (r:
    String)
    ensures
        r@ == match given {
            Some(g) => g@,
            None => match fetched {
                Some(f) => f@,
                None => project_ref@,
            },
        },
{
    match given {
        Some(g) => g,
        None => match fetched {
            Some(f) => f,
            None => owned(project_ref),
        },
    }
}


/// How a new project is set up: linked to an existing remote project, with
/// a new remote project (when a token is stored), or local only.
#[derive(Debug)]
pub enum CreateMode {
    Link(String),
    CreateRemote,
    LocalOnly,
}

pub fn create_mode(supabase_project_ref: Option<String>, has_token: bool) -> (r: CreateMode)
    ensures
        match supabase_project_ref {
            Some(refer) => r matches CreateMode::Link(x) && x@ == refer@,
            None => if has_token {
                r is CreateRemote
            } else {
                r is LocalOnly
            },
        },
{
    match supabase_project_ref {
        Some(refer) => CreateMode::Link(refer),
        None => if has_token {
            CreateMode::CreateRemote
        } else {
            CreateMode::LocalOnly
        },
    }
}

/// The new project: linked when both the remote id and reference are known,
/// else local.
pub fn new_project(
    name: String,
    local_path: String,
    project_id: Option<String>,
    project_ref: Option<String>,
) -> (p: Project)
    ensures
        p.name@ == name@,
        p.local_path@ == local_path@,
        match (project_id, project_ref) {
            (Some(i), Some(r)) => p.supabase_project_id == Some(i) && p.supabase_project_ref == Some(r),
            _ => p.supabase_project_id is None && p.supabase_project_ref is None,
        },
        p.created_at == p.updated_at,
        !p.is_watching,
{
    match (project_id, project_ref) {
        (Some(pid), Some(pref)) => Project::with_remote(name, local_path, pid, pref),
        _ => Project::new(name, local_path),
    }
}

} // verus!
