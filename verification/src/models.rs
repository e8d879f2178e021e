use vstd::prelude::*;

use crate::schema::clone_opt_text;

verus! {

// ---------------------------------------------------------------------------
// Identifiers and times.
// ---------------------------------------------------------------------------

/// A point in time: whole seconds since the Unix epoch and the nanoseconds
/// past that second.
#[derive(Clone, Copy, Debug, PartialEq, Eq, Structural)]
pub struct Timestamp {
    pub secs: i64,
    pub nanos: u32,
}

/// The lowercase hexadecimal digit of `n` (below 16).
pub open spec fn hex_digit(n: int) -> char {
    if n < 10 {
        (('0' as int) + n) as char
    } else {
        (('a' as int) + n - 10) as char
    }
}

/// The `k`-th of the 32 hexadecimal digits of `id`, most significant first.
pub open spec fn id_digit(id: u128, k: int) -> char {
    hex_digit((id as int / vstd::arithmetic::power::pow(16, (31 - k) as nat)) % 16)
}

/// The hyphenated lowercase form of an identifier: its 32 hexadecimal digits
/// in groups of 8, 4, 4, 4 and 12, joined by `-`.
pub open spec fn uuid_text(id: u128) -> Seq<char> {
    Seq::new(
        36,
        |i: int|
            if i == 8 || i == 13 || i == 18 || i == 23 {
                '-'
            } else {
                id_digit(
                    id,
                    i - (if i < 8 {
                        0int
                    } else if i < 13 {
                        1int
                    } else if i < 18 {
                        2int
                    } else if i < 23 {
                        3int
                    } else {
                        4int
                    }),
                )
            },
    )
}

/// A fresh random identifier: `uuid::Uuid::new_v4`, as its 128-bit value.
/// Nothing is stated of the value, which is random.
#[verifier::external_body]
pub(crate) fn new_id() -> (id: u128) {
    uuid::Uuid::new_v4().as_u128()
}

/// The text of an identifier: `uuid::Uuid::from_u128` then `to_string`,
/// which writes the hyphenated lowercase form.
#[verifier::external_body]
pub(crate) fn id_string(id: u128) -> (r: String)
    ensures
        r@ == uuid_text(id),
{
    uuid::Uuid::from_u128(id).to_string()
}

/// The current time: `chrono::Utc::now`, as seconds and nanoseconds since
/// the epoch. Nothing is stated of the value, which is the clock's.
#[verifier::external_body]
pub(crate) fn now() -> (t: Timestamp) {
    let n = chrono::Utc::now();
    Timestamp { secs: n.timestamp(), nanos: n.timestamp_subsec_nanos() }
}

// ---------------------------------------------------------------------------
// Projects.
// ---------------------------------------------------------------------------

pub struct ProjectView {
    pub id: u128,
    pub name: Seq<char>,
    pub local_path: Seq<char>,
    pub supabase_project_id: Option<Seq<char>>,
    pub supabase_project_ref: Option<Seq<char>>,
    pub created_at: Timestamp,
    pub updated_at: Timestamp,
    pub is_watching: bool,
}

/// A local project folder, possibly linked to a remote Supabase project.
#[derive(Debug)]
pub struct Project {
    pub id: u128,
    pub name: String,
    pub local_path: String,
    pub supabase_project_id: Option<String>,
    pub supabase_project_ref: Option<String>,
    pub created_at: Timestamp,
    pub updated_at: Timestamp,
    pub is_watching: bool,
}

impl View for Project {
    type V = ProjectView;

    open spec fn view(&self) -> ProjectView {
        ProjectView {
            id: self.id,
            name: self.name@,
            local_path: self.local_path@,
            supabase_project_id: self.supabase_project_id.deep_view(),
            supabase_project_ref: self.supabase_project_ref.deep_view(),
            created_at: self.created_at,
            updated_at: self.updated_at,
            is_watching: self.is_watching,
        }
    }
}

impl DeepView for Project {
    type V = ProjectView;

    open spec fn deep_view(&self) -> ProjectView {
        self@
    }
}

impl Clone for Project {
    fn clone(&self) -> (r: Self)
        ensures
            r@ == self@,
    {
        Project {
            id: self.id,
            name: self.name.clone(),
            local_path: self.local_path.clone(),
            supabase_project_id: clone_opt_text(&self.supabase_project_id),
            supabase_project_ref: clone_opt_text(&self.supabase_project_ref),
            created_at: self.created_at,
            updated_at: self.updated_at,
            is_watching: self.is_watching,
        }
    }
}

impl Project {
    /// A new unlinked project with a fresh identifier, created and updated
    /// now, not watched.
    pub fn new(name: String, local_path: String) -> (p: Self)
        ensures
            p.name@ == name@,
            p.local_path@ == local_path@,
            p.supabase_project_id is None,
            p.supabase_project_ref is None,
            p.created_at == p.updated_at,
            !p.is_watching,
    {
        let now = now();
        Project {
            id: new_id(),
            name,
            local_path,
            supabase_project_id: None,
            supabase_project_ref: None,
            created_at: now,
            updated_at: now,
            is_watching: false,
        }
    }

    /// A new project linked to the remote project with this id and reference.
    pub fn with_remote(name: String, local_path: String, project_id: String, project_ref: String) -> (p:
        Self)
        ensures
            p.name@ == name@,
            p.local_path@ == local_path@,
            p.supabase_project_id == Some(project_id),
            p.supabase_project_ref == Some(project_ref),
            p.created_at == p.updated_at,
            !p.is_watching,
    {
        let mut project = Self::new(name, local_path);
        project.supabase_project_id = Some(project_id);
        project.supabase_project_ref = Some(project_ref);
        project
    }
}

// ---------------------------------------------------------------------------
// Log entries.
// ---------------------------------------------------------------------------

#[derive(Clone, Copy, Debug, PartialEq, Eq, Structural)]
pub enum LogLevel {
    Info,
    Warning,
    Error,
    Success,
}

#[derive(Clone, Copy, Debug, PartialEq, Eq, Structural)]
pub enum LogSource {
    Schema,
    EdgeFunction,
    Watcher,
    System,
}

pub struct LogEntryView {
    pub id: u128,
    pub project_id: Option<u128>,
    pub level: LogLevel,
    pub source: LogSource,
    pub message: Seq<char>,
    pub details: Option<Seq<char>>,
    pub timestamp: Timestamp,
}

/// One line of the activity log.
#[derive(Debug)]
pub struct LogEntry {
    pub id: u128,
    pub project_id: Option<u128>,
    pub level: LogLevel,
    pub source: LogSource,
    pub message: String,
    pub details: Option<String>,
    pub timestamp: Timestamp,
}

impl View for LogEntry {
    type V = LogEntryView;

    open spec fn view(&self) -> LogEntryView {
        LogEntryView {
            id: self.id,
            project_id: self.project_id,
            level: self.level,
            source: self.source,
            message: self.message@,
            details: self.details.deep_view(),
            timestamp: self.timestamp,
        }
    }
}

impl DeepView for LogEntry {
    type V = LogEntryView;

    open spec fn deep_view(&self) -> LogEntryView {
        self@
    }
}

impl Clone for LogEntry {
    fn clone(&self) -> (r: Self)
        ensures
            r@ == self@,
    {
        LogEntry {
            id: self.id,
            project_id: self.project_id,
            level: self.level,
            source: self.source,
            message: self.message.clone(),
            details: clone_opt_text(&self.details),
            timestamp: self.timestamp,
        }
    }
}

impl LogEntry {
    /// A new entry with a fresh identifier, stamped now, without details.
    pub fn new(project_id: Option<u128>, level: LogLevel, source: LogSource, message: String) -> (e:
        Self)
        ensures
            e.project_id == project_id,
            e.level == level,
            e.source == source,
            e.message@ == message@,
            e.details is None,
    {
        LogEntry {
            id: new_id(),
            project_id,
            level,
            source,
            message,
            details: None,
            timestamp: now(),
        }
    }

    /// The same entry with these details.
    pub fn with_details(self, details: String) -> (e: Self)
        ensures
            e@ == (LogEntryView { details: Some(details@), ..self@ }),
    {
        let mut e = self;
        e.details = Some(details);
        e
    }

    pub fn info(project_id: Option<u128>, source: LogSource, message: String) -> (e: Self)
        ensures
            e.project_id == project_id,
            e.level == LogLevel::Info,
            e.source == source,
            e.message@ == message@,
            e.details is None,
    {
        Self::new(project_id, LogLevel::Info, source, message)
    }

    pub fn warning(project_id: Option<u128>, source: LogSource, message: String) -> (e: Self)
        ensures
            e.project_id == project_id,
            e.level == LogLevel::Warning,
            e.source == source,
            e.message@ == message@,
            e.details is None,
    {
        Self::new(project_id, LogLevel::Warning, source, message)
    }

    pub fn error(project_id: Option<u128>, source: LogSource, message: String) -> (e: Self)
        ensures
            e.project_id == project_id,
            e.level == LogLevel::Error,
            e.source == source,
            e.message@ == message@,
            e.details is None,
    {
        Self::new(project_id, LogLevel::Error, source, message)
    }

    pub fn success(project_id: Option<u128>, source: LogSource, message: String) -> (e: Self)
        ensures
            e.project_id == project_id,
            e.level == LogLevel::Success,
            e.source == source,
            e.message@ == message@,
            e.details is None,
    {
        Self::new(project_id, LogLevel::Success, source, message)
    }
}

// ---------------------------------------------------------------------------
// File changes.
// ---------------------------------------------------------------------------

#[derive(Clone, Copy, Debug, PartialEq, Eq, Structural)]
pub enum FileChangeType {
    Schema,
    EdgeFunction,
    Migration,
    Other,
}

/// A change to a file under a watched project.
#[derive(Debug)]
pub struct FileChange {
    pub path: String,
    pub change_type: FileChangeType,
    pub project_id: u128,
    pub timestamp: Timestamp,
}

impl FileChange {
    /// A change stamped now.
    pub fn new(path: String, change_type: FileChangeType, project_id: u128) -> (c: Self)
        ensures
            c.path@ == path@,
            c.change_type == change_type,
            c.project_id == project_id,
    {
        FileChange { path, change_type, project_id, timestamp: now() }
    }
}

// ---------------------------------------------------------------------------
// Stored application data.
// ---------------------------------------------------------------------------

pub struct AppDataView {
    pub projects: Seq<ProjectView>,
    pub access_token: Option<Seq<char>>,
    pub version: Seq<char>,
}

/// What the application keeps between runs.
#[derive(Debug)]
pub struct AppData {
    pub projects: Vec<Project>,
    /// The Supabase personal access token.
    pub access_token: Option<String>,
    pub version: String,
}

impl View for AppData {
    type V = AppDataView;

    open spec fn view(&self) -> AppDataView {
        AppDataView {
            projects: self.projects.deep_view(),
            access_token: self.access_token.deep_view(),
            version: self.version@,
        }
    }
}

impl Default for AppData {
    fn default() -> (d: Self)
        ensures
            d@.projects.len() == 0,
            d@.access_token is None,
            d@.version == "1.0.0"@,
    {
        let d = AppData { projects: Vec::new(), access_token: None, version: "1.0.0".to_string() };
        assert(d@.projects =~= Seq::<ProjectView>::empty());
        d
    }
}

/// A remote Supabase project as the management API lists it.
#[derive(Debug)]
pub struct RemoteProject {
    pub id: String,
    pub name: String,
    pub organization_id: String,
    pub region: String,
    pub created_at: String,
}

} // verus!
