use vstd::prelude::*;

use crate::models::{
    id_string, now, uuid_text, AppData, AppDataView, LogEntry, LogEntryView, Project, ProjectView,
};
use crate::supabase_api::SupabaseApi;
use crate::text::concat2;

verus! {

// ---------------------------------------------------------------------------
// Errors.
// ---------------------------------------------------------------------------

/// What can go wrong with the stored state.
#[derive(Debug)]
pub enum StateError {
    ProjectNotFound(u128),
    ReadError(String),
    WriteError(String),
    ParseError(String),
    NoAccessToken,
}

/// The message of an error.
pub open spec fn state_error_text(e: StateError) -> Seq<char> {
    match e {
        StateError::ProjectNotFound(id) => "Project not found: "@ + uuid_text(id),
        StateError::ReadError(m) => "Failed to read data file: "@ + m@,
        StateError::WriteError(m) => "Failed to write data file: "@ + m@,
        StateError::ParseError(m) => "Failed to parse data: "@ + m@,
        StateError::NoAccessToken => "Access token not configured"@,
    }
}

impl StateError {
    /// The error's message.
    pub fn message(&self) -> (r: String)
        ensures
            r@ == state_error_text(*self),
    {
        match self {
            StateError::ProjectNotFound(id) => {
                let t = id_string(*id);
                concat2("Project not found: ", &t)
            },
            StateError::ReadError(m) => concat2("Failed to read data file: ", m),
            StateError::WriteError(m) => concat2("Failed to write data file: ", m),
            StateError::ParseError(m) => concat2("Failed to parse data: ", m),
            StateError::NoAccessToken => "Access token not configured".to_string(),
        }
    }
}

// ---------------------------------------------------------------------------
// Looking projects up.
// ---------------------------------------------------------------------------

/// Where the first project with this id stands.
pub open spec fn project_position(s: Seq<ProjectView>, id: u128) -> Option<int>
    decreases s.len(),
{
    if s.len() == 0 {
        None
    } else if s[0].id == id {
        Some(0)
    } else {
        match project_position(s.drop_first(), id) {
            Some(i) => Some(i + 1),
            None => None,
        }
    }
}

/// The first project with this id.
pub open spec fn lookup_project(s: Seq<ProjectView>, id: u128) -> Option<ProjectView> {
    match project_position(s, id) {
        Some(i) => Some(s[i]),
        None => None,
    }
}

/// No two projects share an id.
pub open spec fn unique_ids(s: Seq<ProjectView>) -> bool {
    forall|i: int, j: int|
        0 <= i < s.len() && 0 <= j < s.len() && i != j ==> #[trigger] s[i].id != #[trigger] s[j].id
}

pub proof fn lemma_project_position(s: Seq<ProjectView>, id: u128)
    ensures
        match project_position(s, id) {
            Some(i) => 0 <= i < s.len() && s[i].id == id && forall|j: int|
                0 <= j < i ==> #[trigger] s[j].id != id,
            None => forall|j: int| 0 <= j < s.len() ==> #[trigger] s[j].id != id,
        },
    decreases s.len(),
{
    if s.len() > 0 {
        lemma_project_position(s.drop_first(), id);
        if s[0].id != id {
            assert forall|j: int| 0 < j < s.len() implies s[j].id == s.drop_first()[j - 1].id by {}
        }
    }
}

/// The position found by a front-to-back search is the first with the id.
proof fn lemma_first_position(s: Seq<ProjectView>, id: u128, i: int)
    requires
        0 <= i < s.len(),
        s[i].id == id,
        forall|j: int| 0 <= j < i ==> #[trigger] s[j].id != id,
    ensures
        project_position(s, id) == Some(i),
{
    lemma_project_position(s, id);
    match project_position(s, id) {
        Some(k) => {
            if k < i {
                assert(s[k].id != id);
            }
            if k > i {
                assert(s[i].id != id);
            }
        },
        None => {
            assert(s[i].id != id);
        },
    }
}

/// The position of the first project with this id, searching from the front.
fn find_project(v: &Vec<Project>, id: u128) -> (r: Option<usize>)
    ensures
        match r {
            Some(i) => i < v.len() && project_position(v.deep_view(), id) == Some(i as int),
            None => project_position(v.deep_view(), id) is None,
        },
{
    let ghost s = v.deep_view();
    let mut i: usize = 0;
    while i < v.len()
        invariant
            i <= v.len(),
            s == v.deep_view(),
            forall|j: int| 0 <= j < i ==> #[trigger] s[j].id != id,
        decreases v.len() - i,
    {
        assert(s[i as int] == v@[i as int]@);
        if v[i].id == id {
            proof {
                lemma_first_position(s, id, i as int);
            }
            return Some(i);
        }
        i = i + 1;
    }
    proof {
        lemma_project_position(s, id);
        match project_position(s, id) {
            Some(k) => {
                assert(s[k].id != id);
            },
            None => {},
        }
    }
    None
}

// ---------------------------------------------------------------------------
// Watched projects.
// ---------------------------------------------------------------------------

/// The ids kept when the project stops being watched: every other one.
pub open spec fn unwatched_pred(project_id: u128) -> spec_fn(u128) -> bool {
    |x: u128| x != project_id
}

/// Filtering a list without repetitions leaves one without repetitions.
proof fn lemma_filter_unique<T>(s: Seq<T>, p: spec_fn(T) -> bool)
    requires
        s.no_duplicates(),
    ensures
        s.filter(p).no_duplicates(),
    decreases s.len(),
{
    if s.len() > 0 {
        let init = s.drop_last();
        assert forall|a: int, b: int| 0 <= a < init.len() && 0 <= b < init.len() && a != b implies init[a]
            != init[b] by {
            assert(init[a] == s[a] && init[b] == s[b]);
        }
        lemma_filter_unique(init, p);
        assert(s =~= init.push(s.last()));
        init.lemma_filter_push(s.last(), p);
        if p(s.last()) {
            let f = init.filter(p);
            broadcast use vstd::seq_lib::group_filter_ensures;

            if f.contains(s.last()) {
                init.lemma_filter_contains_rev(p, s.last());
                let j = choose|j: int| 0 <= j < init.len() && init[j] == s.last();
                assert(s[j] == s[s.len() - 1]);
            }
            assert forall|a: int, b: int|
                0 <= a < f.push(s.last()).len() && 0 <= b < f.push(s.last()).len() && a != b implies f.push(
                s.last(),
            )[a] != f.push(s.last())[b] by {
                if a == f.len() {
                    assert(f[b] != s.last());
                } else if b == f.len() {
                    assert(f[a] != s.last());
                }
            }
        }
    }
}

// ---------------------------------------------------------------------------
// The log.
// ---------------------------------------------------------------------------

/// The most log entries kept.
pub const MAX_LOGS: usize = 1000;

/// The log after `add_log`: the entry appended, then the oldest entries
/// dropped beyond the last `MAX_LOGS`.
pub open spec fn logs_after_add(s: Seq<LogEntryView>, e: LogEntryView) -> Seq<LogEntryView> {
    let t = s.push(e);
    if t.len() > MAX_LOGS {
        t.subrange(t.len() - MAX_LOGS, t.len() as int)
    } else {
        t
    }
}

/// Whether an entry belongs to the selection: every entry when no project
/// is given, else the entries of that project.
pub open spec fn log_selected(project_id: Option<u128>, e: LogEntryView) -> bool {
    project_id is None || e.project_id == project_id
}

pub open spec fn selected_pred(project_id: Option<u128>) -> spec_fn(LogEntryView) -> bool {
    |e: LogEntryView| log_selected(project_id, e)
}

/// What `get_logs` returns: the selected entries, newest first, at most
/// `limit` of them.
pub open spec fn logs_view(s: Seq<LogEntryView>, project_id: Option<u128>, limit: int) -> Seq<
    LogEntryView,
> {
    let newest_first = s.filter(selected_pred(project_id)).reverse();
    newest_first.take(if limit < newest_first.len() {
        limit
    } else {
        newest_first.len() as int
    })
}

pub open spec fn kept_pred(project_id: u128) -> spec_fn(LogEntryView) -> bool {
    |e: LogEntryView| e.project_id != Some(project_id)
}

/// The log after `clear_logs`: without the entries of the project, or empty
/// when no project is given.
pub open spec fn logs_after_clear(s: Seq<LogEntryView>, project_id: Option<u128>) -> Seq<
    LogEntryView,
> {
    match project_id {
        Some(p) => s.filter(kept_pred(p)),
        None => Seq::empty(),
    }
}

// ---------------------------------------------------------------------------
// What each call does to the stored data.
// ---------------------------------------------------------------------------

/// A call on the state, as far as the stored data goes: the calls on the
/// log and on watched projects are `Other`.
pub enum DataCall {
    AddProject(ProjectView),
    UpdateProject(ProjectView),
    DeleteProject(u128),
    SetProjectWatching(u128, bool),
    SetAccessToken(Seq<char>),
    ClearAccessToken,
    Other,
}

/// Whether `e` is the stored data after `c` on `d` (a project marked as
/// watched or not is stamped with a time that is left open).
pub open spec fn data_step(d: AppDataView, c: DataCall, e: AppDataView) -> bool {
    match c {
        DataCall::AddProject(p) => e == AppDataView { projects: d.projects.push(p), ..d },
        DataCall::UpdateProject(p) => e == match project_position(d.projects, p.id) {
            Some(i) => AppDataView { projects: d.projects.update(i, p), ..d },
            None => d,
        },
        DataCall::DeleteProject(id) => e == match project_position(d.projects, id) {
            Some(i) => AppDataView { projects: d.projects.remove(i), ..d },
            None => d,
        },
        DataCall::SetProjectWatching(id, w) => match project_position(d.projects, id) {
            Some(i) => {
                &&& e.projects.len() == d.projects.len()
                &&& forall|j: int|
                    0 <= j < d.projects.len() && j != i ==> #[trigger] e.projects[j] == d.projects[j]
                &&& e.projects[i] == (ProjectView {
                    is_watching: w,
                    updated_at: e.projects[i].updated_at,
                    ..d.projects[i]
                })
                &&& e.access_token == d.access_token
                &&& e.version == d.version
            },
            None => e == d,
        },
        DataCall::SetAccessToken(t) => e == AppDataView { access_token: Some(t), ..d },
        DataCall::ClearAccessToken => e == AppDataView { access_token: None, ..d },
        DataCall::Other => e == d,
    }
}

// ---------------------------------------------------------------------------
// The application state.
// ---------------------------------------------------------------------------

/// The application's state: its stored data, the activity log and the
/// projects whose folders are being watched.
#[derive(Debug)]
pub struct AppState {
    pub data: AppData,
    pub logs: Vec<LogEntry>,
    pub watchers: Vec<u128>,
}

impl AppState {
    /// No project is watched twice.
    pub open spec fn wf(&self) -> bool {
        self.watchers@.no_duplicates()
    }

    /// A state over the stored data, with an empty log and nothing watched.
    pub fn new(data: AppData) -> (r: Self)
        ensures
            r.data@ == data@,
            r.logs@.len() == 0,
            r.watchers@.len() == 0,
            r.wf(),
    {
        AppState { data, logs: Vec::new(), watchers: Vec::new() }
    }

    // Projects.

    /// Appends a project and returns a copy of it.
    pub fn add_project(&mut self, project: Project) -> (r: Project)
        ensures
            data_step(old(self).data@, DataCall::AddProject(project@), final(self).data@),
            final(self).data@ == (AppDataView {
                projects: old(self).data@.projects.push(project@),
                ..old(self).data@
            }),
            final(self).logs@ == old(self).logs@,
            final(self).watchers@ == old(self).watchers@,
            r@ == project@,
    {
        let copy = project.clone();
        self.data.projects.push(project);
        proof {
            assert(self.data.projects.deep_view() =~= old(self).data.projects.deep_view().push(
                project@,
            ));
        }
        copy
    }

    /// Copies of all projects, in order.
    pub fn get_projects(&self) -> (r: Vec<Project>)
        ensures
            r.deep_view() == self.data@.projects,
    {
        let mut r: Vec<Project> = Vec::new();
        let mut i: usize = 0;
        while i < self.data.projects.len()
            invariant
                i <= self.data.projects.len(),
                r.deep_view() == self.data.projects.deep_view().take(i as int),
            decreases self.data.projects.len() - i,
        {
            let c = self.data.projects[i].clone();
            let ghost before = r.deep_view();
            r.push(c);
            assert(r.deep_view() =~= before.push(self.data.projects@[i as int]@));
            assert(self.data.projects.deep_view().take(i + 1) =~= self.data.projects.deep_view().take(
                i as int,
            ).push(self.data.projects@[i as int]@));
            i = i + 1;
        }
        assert(self.data.projects.deep_view().take(i as int) =~= self.data.projects.deep_view());
        r
    }

    /// A copy of the first project with this id.
    pub fn get_project(&self, id: u128) -> (r: Result<Project, StateError>)
        ensures
            match r {
                Ok(p) => lookup_project(self.data@.projects, id) == Some(p@),
                Err(e) => lookup_project(self.data@.projects, id) is None && e
                    == StateError::ProjectNotFound(id),
            },
    {
        match find_project(&self.data.projects, id) {
            Some(i) => {
                let p = self.data.projects[i].clone();
                Ok(p)
            },
            None => Err(StateError::ProjectNotFound(id)),
        }
    }

    /// Replaces the first project with the same id and returns the project.
    pub fn update_project(&mut self, project: Project) -> (r: Result<Project, StateError>)
        ensures
            data_step(old(self).data@, DataCall::UpdateProject(project@), final(self).data@),
            match project_position(old(self).data@.projects, project.id) {
                Some(i) => {
                    &&& r matches Ok(p) && p@ == project@
                    &&& final(self).data@ == (AppDataView {
                        projects: old(self).data@.projects.update(i, project@),
                        ..old(self).data@
                    })
                },
                None => {
                    &&& r matches Err(e) && e == StateError::ProjectNotFound(project.id)
                    &&& final(self).data@ == old(self).data@
                },
            },
            final(self).logs@ == old(self).logs@,
            final(self).watchers@ == old(self).watchers@,
    {
        match find_project(&self.data.projects, project.id) {
            Some(i) => {
                let copy = project.clone();
                let ghost before = self.data.projects.deep_view();
                self.data.projects.set(i, project);
                proof {
                    assert(self.data.projects.deep_view() =~= before.update(i as int, copy@));
                }
                Ok(copy)
            },
            None => Err(StateError::ProjectNotFound(project.id)),
        }
    }

    /// Stops watching the project, then removes the first project with this
    /// id.
    pub fn delete_project(&mut self, id: u128) -> (r: Result<(), StateError>)
        ensures
            data_step(old(self).data@, DataCall::DeleteProject(id), final(self).data@),
            old(self).wf() ==> final(self).wf(),
            final(self).watchers@ == old(self).watchers@.filter(unwatched_pred(id)),
            match project_position(old(self).data@.projects, id) {
                Some(i) => {
                    &&& r is Ok
                    &&& final(self).data@ == (AppDataView {
                        projects: old(self).data@.projects.remove(i),
                        ..old(self).data@
                    })
                },
                None => {
                    &&& r matches Err(e) && e == StateError::ProjectNotFound(id)
                    &&& final(self).data@ == old(self).data@
                },
            },
            final(self).logs@ == old(self).logs@,
    {
        self.stop_watcher(id);
        match find_project(&self.data.projects, id) {
            Some(i) => {
                let ghost before = self.data.projects.deep_view();
                let _gone = self.data.projects.remove(i);
                proof {
                    assert(self.data.projects.deep_view() =~= before.remove(i as int));
                }
                Ok(())
            },
            None => Err(StateError::ProjectNotFound(id)),
        }
    }

    /// Marks the first project with this id as watched or not, and stamps it
    /// as updated now.
    pub fn set_project_watching(&mut self, id: u128, watching: bool) -> (r: Result<(), StateError>)
        ensures
            data_step(old(self).data@, DataCall::SetProjectWatching(id, watching), final(self).data@),
            match project_position(old(self).data@.projects, id) {
                Some(i) => {
                    let p = final(self).data@.projects[i];
                    &&& r is Ok
                    &&& final(self).data@.projects.len() == old(self).data@.projects.len()
                    &&& forall|j: int|
                        0 <= j < old(self).data@.projects.len() && j != i
                            ==> #[trigger] final(self).data@.projects[j]
                            == old(self).data@.projects[j]
                    &&& p == (ProjectView {
                        is_watching: watching,
                        updated_at: p.updated_at,
                        ..old(self).data@.projects[i]
                    })
                    &&& final(self).data@.access_token == old(self).data@.access_token
                    &&& final(self).data@.version == old(self).data@.version
                },
                None => {
                    &&& r matches Err(e) && e == StateError::ProjectNotFound(id)
                    &&& final(self).data@ == old(self).data@
                },
            },
            final(self).logs@ == old(self).logs@,
            final(self).watchers@ == old(self).watchers@,
    {
        match find_project(&self.data.projects, id) {
            Some(i) => {
                let mut p = self.data.projects[i].clone();
                p.is_watching = watching;
                p.updated_at = now();
                let ghost before = self.data.projects.deep_view();
                let ghost pv = p@;
                self.data.projects.set(i, p);
                proof {
                    assert(self.data.projects.deep_view() =~= before.update(i as int, pv));
                }
                Ok(())
            },
            None => Err(StateError::ProjectNotFound(id)),
        }
    }

    // Watchers.

    /// Records that the project's folder is being watched.
    pub fn add_watcher(&mut self, project_id: u128)
        ensures
            data_step(old(self).data@, DataCall::Other, final(self).data@),
            old(self).wf() ==> final(self).wf(),
            final(self).watchers@.to_set() == old(self).watchers@.to_set().insert(project_id),
            final(self).data@ == old(self).data@,
            final(self).logs@ == old(self).logs@,
    {
        if !self.is_watching(project_id) {
            let ghost before = self.watchers@;
            self.watchers.push(project_id);
            proof {
                assert(self.watchers@ == before.push(project_id));
                assert(self.watchers@.to_set() =~= before.to_set().insert(project_id)) by {
                    assert forall|x: u128| self.watchers@.contains(x) <==> (before.contains(x) || x
                        == project_id) by {
                        if x == project_id {
                            assert(self.watchers@[before.len() as int] == x);
                        }
                        if before.contains(x) {
                            let k = choose|k: int| 0 <= k < before.len() && before[k] == x;
                            assert(self.watchers@[k] == x);
                        }
                    }
                }
            }
        } else {
            proof {
                assert(self.watchers@.to_set() =~= self.watchers@.to_set().insert(project_id));
            }
        }
    }

    /// Records that the project's folder is no longer watched.
    pub fn stop_watcher(&mut self, project_id: u128)
        ensures
            data_step(old(self).data@, DataCall::Other, final(self).data@),
            final(self).watchers@ == old(self).watchers@.filter(unwatched_pred(project_id)),
            !final(self).watchers@.contains(project_id),
            old(self).wf() ==> final(self).wf(),
            final(self).data@ == old(self).data@,
            final(self).logs@ == old(self).logs@,
    {
        let ghost s = self.watchers@;
        let ghost p = unwatched_pred(project_id);
        let mut kept: Vec<u128> = Vec::new();
        let mut i: usize = 0;
        while i < self.watchers.len()
            invariant
                i <= self.watchers.len(),
                s == self.watchers@,
                p == unwatched_pred(project_id),
                kept@ == s.take(i as int).filter(p),
            decreases self.watchers.len() - i,
        {
            proof {
                assert(s.take(i + 1) =~= s.take(i as int).push(s[i as int]));
                s.take(i as int).lemma_filter_push(s[i as int], p);
            }
            let w = self.watchers[i];
            if w != project_id {
                kept.push(w);
            }
            i = i + 1;
        }
        assert(s.take(i as int) =~= s);
        self.watchers = kept;
        proof {
            broadcast use vstd::seq_lib::group_filter_ensures;

            if self.watchers@.contains(project_id) {
                let k = choose|k: int| 0 <= k < self.watchers@.len() && self.watchers@[k] == project_id;
                assert(p(self.watchers@[k]));
            }
            if s.no_duplicates() {
                lemma_filter_unique(s, p);
            }
        }
    }

    /// Whether the project's folder is being watched.
    pub fn is_watching(&self, project_id: u128) -> (b: bool)
        ensures
            b == self.watchers@.contains(project_id),
    {
        let mut i: usize = 0;
        while i < self.watchers.len()
            invariant
                i <= self.watchers.len(),
                forall|j: int| 0 <= j < i ==> #[trigger] self.watchers@[j] != project_id,
            decreases self.watchers.len() - i,
        {
            if self.watchers[i] == project_id {
                return true;
            }
            i = i + 1;
        }
        false
    }

    // The log.

    /// Appends an entry, keeping only the last `MAX_LOGS` entries.
    pub fn add_log(&mut self, log: LogEntry)
        ensures
            data_step(old(self).data@, DataCall::Other, final(self).data@),
            final(self).logs.deep_view() == logs_after_add(old(self).logs.deep_view(), log@),
            final(self).data@ == old(self).data@,
            final(self).watchers@ == old(self).watchers@,
    {
        let ghost before = self.logs.deep_view();
        let ghost lv = log@;
        self.logs.push(log);
        proof {
            assert(self.logs.deep_view() =~= before.push(lv));
        }
        if self.logs.len() > MAX_LOGS {
            let drain_count = self.logs.len() - MAX_LOGS;
            let ghost pushed = self.logs@;
            let kept = self.logs.split_off(drain_count);
            self.logs = kept;
            proof {
                assert(self.logs@ == pushed.subrange(drain_count as int, pushed.len() as int));
                assert(self.logs.deep_view() =~= before.push(lv).subrange(
                    drain_count as int,
                    before.push(lv).len() as int,
                ));
            }
        }
    }

    /// The selected entries (all, or those of one project), newest first, at
    /// most `limit` of them.
    pub fn get_logs(&self, project_id: Option<u128>, limit: usize) -> (r: Vec<LogEntry>)
        ensures
            r.deep_view() == logs_view(self.logs.deep_view(), project_id, limit as int),
    {
        let ghost s = self.logs.deep_view();
        let ghost p = selected_pred(project_id);
        let mut filtered: Vec<LogEntry> = Vec::new();
        let mut i: usize = 0;
        while i < self.logs.len()
            invariant
                i <= self.logs.len(),
                s == self.logs.deep_view(),
                p == selected_pred(project_id),
                filtered.deep_view() == s.take(i as int).filter(p),
            decreases self.logs.len() - i,
        {
            let ghost before = filtered.deep_view();
            proof {
                assert(s.take(i + 1) =~= s.take(i as int).push(s[i as int]));
                s.take(i as int).lemma_filter_push(s[i as int], p);
            }
            let selected = match project_id {
                None => true,
                Some(pid) => match self.logs[i].project_id {
                    Some(q) => q == pid,
                    None => false,
                },
            };
            if selected {
                let c = self.logs[i].clone();
                filtered.push(c);
                assert(filtered.deep_view() =~= before.push(s[i as int]));
            }
            i = i + 1;
        }
        assert(s.take(i as int) =~= s);
        let n = filtered.len();
        let k = if limit < n {
            limit
        } else {
            n
        };
        let ghost rev = s.filter(p).reverse();
        let mut r: Vec<LogEntry> = Vec::new();
        let mut j: usize = 0;
        while j < k
            invariant
                j <= k <= n,
                n == filtered.len(),
                filtered.deep_view() == s.filter(p),
                rev == s.filter(p).reverse(),
                r.deep_view() == rev.take(j as int),
            decreases k - j,
        {
            let c = filtered[n - 1 - j].clone();
            let ghost before = r.deep_view();
            r.push(c);
            proof {
                assert(rev.len() == n);
                assert(rev[j as int] == s.filter(p)[n - 1 - j]);
                assert(r.deep_view() =~= rev.take(j as int).push(rev[j as int]));
                assert(rev.take(j + 1) =~= rev.take(j as int).push(rev[j as int]));
            }
            j = j + 1;
        }
        r
    }

    /// Removes the entries of one project, or every entry when no project is
    /// given.
    pub fn clear_logs(&mut self, project_id: Option<u128>)
        ensures
            data_step(old(self).data@, DataCall::Other, final(self).data@),
            final(self).logs.deep_view() == logs_after_clear(old(self).logs.deep_view(), project_id),
            final(self).data@ == old(self).data@,
            final(self).watchers@ == old(self).watchers@,
    {
        match project_id {
            Some(pid) => {
                let ghost s = self.logs.deep_view();
                let ghost p = kept_pred(pid);
                let mut kept: Vec<LogEntry> = Vec::new();
                let mut i: usize = 0;
                while i < self.logs.len()
                    invariant
                        i <= self.logs.len(),
                        s == self.logs.deep_view(),
                        p == kept_pred(pid),
                        kept.deep_view() == s.take(i as int).filter(p),
                    decreases self.logs.len() - i,
                {
                    let ghost before = kept.deep_view();
                    proof {
                        assert(s.take(i + 1) =~= s.take(i as int).push(s[i as int]));
                        s.take(i as int).lemma_filter_push(s[i as int], p);
                    }
                    let keep = match self.logs[i].project_id {
                        Some(q) => q != pid,
                        None => true,
                    };
                    if keep {
                        let c = self.logs[i].clone();
                        kept.push(c);
                        assert(kept.deep_view() =~= before.push(s[i as int]));
                    }
                    i = i + 1;
                }
                assert(s.take(i as int) =~= s);
                self.logs = kept;
            },
            None => {
                self.logs.clear();
                assert(self.logs.deep_view() =~= Seq::<LogEntryView>::empty());
            },
        }
    }

    // The access token.

    pub fn set_access_token(&mut self, token: String)
        ensures
            data_step(old(self).data@, DataCall::SetAccessToken(token@), final(self).data@),
            final(self).data@ == (AppDataView { access_token: Some(token@), ..old(self).data@ }),
            final(self).logs@ == old(self).logs@,
            final(self).watchers@ == old(self).watchers@,
    {
        self.data.access_token = Some(token);
    }

    pub fn get_access_token(&self) -> (r: Option<String>)
        ensures
            r.deep_view() == self.data@.access_token,
    {
        crate::schema::clone_opt_text(&self.data.access_token)
    }

    pub fn clear_access_token(&mut self)
        ensures
            data_step(old(self).data@, DataCall::ClearAccessToken, final(self).data@),
            final(self).data@ == (AppDataView { access_token: None, ..old(self).data@ }),
            final(self).logs@ == old(self).logs@,
            final(self).watchers@ == old(self).watchers@,
    {
        self.data.access_token = None;
    }

    pub fn has_access_token(&self) -> (b: bool)
        ensures
            b == self.data@.access_token is Some,
    {
        self.data.access_token.is_some()
    }

    /// A client for the management API with the stored token.
    pub fn get_api_client(&self) -> (r: Result<SupabaseApi, StateError>)
        ensures
            match self.data@.access_token {
                Some(t) => r matches Ok(api) && api.access_token@ == t,
                None => r matches Err(e) && e == StateError::NoAccessToken,
            },
    {
        match &self.data.access_token {
            Some(t) => Ok(SupabaseApi::new(t.clone())),
            None => Err(StateError::NoAccessToken),
        }
    }
}


// ---------------------------------------------------------------------------
// Laws of the state.
// ---------------------------------------------------------------------------

/// A project added under a new id is what a lookup of that id finds.
pub proof fn law_get_after_add(s: Seq<ProjectView>, p: ProjectView)
    requires
        lookup_project(s, p.id) is None,
    ensures
        lookup_project(s.push(p), p.id) == Some(p),
{
    lemma_project_position(s, p.id);
    let t = s.push(p);
    assert forall|j: int| 0 <= j < s.len() implies #[trigger] t[j].id != p.id by {
        assert(t[j] == s[j]);
    }
    lemma_first_position(t, p.id, s.len() as int);
}

/// After a project is updated, a lookup of its id finds the new version.
pub proof fn law_get_after_update(s: Seq<ProjectView>, p: ProjectView)
    requires
        project_position(s, p.id) is Some,
    ensures
        lookup_project(s.update(project_position(s, p.id).unwrap(), p), p.id) == Some(p),
{
    lemma_project_position(s, p.id);
    let i = project_position(s, p.id).unwrap();
    let t = s.update(i, p);
    assert forall|j: int| 0 <= j < i implies #[trigger] t[j].id != p.id by {
        assert(t[j] == s[j]);
    }
    lemma_first_position(t, p.id, i);
}

/// After a project is deleted, no project with its id is left, when ids
/// are unique.
pub proof fn law_get_after_delete(s: Seq<ProjectView>, id: u128)
    requires
        unique_ids(s),
        project_position(s, id) is Some,
    ensures
        lookup_project(s.remove(project_position(s, id).unwrap()), id) is None,
{
    lemma_project_position(s, id);
    let i = project_position(s, id).unwrap();
    let t = s.remove(i);
    lemma_project_position(t, id);
    match project_position(t, id) {
        Some(k) => {
            if k < i {
                assert(t[k] == s[k]);
            } else {
                assert(t[k] == s[k + 1]);
                assert(s[k + 1].id != s[i].id);
            }
        },
        None => {},
    }
}

/// The log never holds more than `MAX_LOGS` entries after an addition, and
/// its newest entry is the one added.
pub proof fn law_log_cap(s: Seq<LogEntryView>, e: LogEntryView)
    ensures
        logs_after_add(s, e).len() <= MAX_LOGS,
        logs_after_add(s, e).last() == e,
        s.len() < MAX_LOGS ==> logs_after_add(s, e) == s.push(e),
{
}

/// What `get_logs` returns holds at most `limit` entries, only selected
/// ones, the newest selected entry first.
pub proof fn law_logs_view(s: Seq<LogEntryView>, project_id: Option<u128>, limit: int)
    requires
        0 <= limit,
    ensures
        logs_view(s, project_id, limit).len() <= limit,
        forall|k: int|
            0 <= k < logs_view(s, project_id, limit).len() ==> log_selected(
                project_id,
                #[trigger] logs_view(s, project_id, limit)[k],
            ),
        0 < limit && 0 < s.len() && log_selected(project_id, s.last()) ==> logs_view(
            s,
            project_id,
            limit,
        )[0] == s.last(),
{
    let p = selected_pred(project_id);
    let f = s.filter(p);
    let r = logs_view(s, project_id, limit);
    broadcast use vstd::seq_lib::group_filter_ensures;

    assert forall|k: int| 0 <= k < r.len() implies log_selected(project_id, #[trigger] r[k]) by {
        assert(r[k] == f[f.len() - 1 - k]);
        assert(p(f[f.len() - 1 - k]));
    }
    if 0 < limit && 0 < s.len() && log_selected(project_id, s.last()) {
        assert(s =~= s.drop_last().push(s.last()));
        s.drop_last().lemma_filter_push(s.last(), p);
        assert(f.last() == s.last());
        assert(r[0] == f[f.len() - 1]);
    }
}

/// Clearing one project's entries removes all of them and leaves every other
/// project's entries as they were.
pub proof fn law_clear_logs_keeps_others(s: Seq<LogEntryView>, p: u128, q: u128)
    requires
        p != q,
    ensures
        logs_after_clear(s, Some(p)).filter(selected_pred(Some(p))).len() == 0,
        logs_after_clear(s, Some(p)).filter(selected_pred(Some(q))) == s.filter(
            selected_pred(Some(q)),
        ),
    decreases s.len(),
{
    if s.len() > 0 {
        let init = s.drop_last();
        let e = s.last();
        law_clear_logs_keeps_others(init, p, q);
        assert(s =~= init.push(e));
        init.lemma_filter_push(e, kept_pred(p));
        init.lemma_filter_push(e, selected_pred(Some(q)));
        let kept = init.filter(kept_pred(p));
        if e.project_id != Some(p) {
            kept.lemma_filter_push(e, selected_pred(Some(p)));
            kept.lemma_filter_push(e, selected_pred(Some(q)));
        }
    } else {
        reveal(Seq::filter);
    }
}


/// Deleting a project just added under a new id gives back the projects as
/// they were.
pub proof fn law_delete_undoes_add(s: Seq<ProjectView>, p: ProjectView)
    requires
        lookup_project(s, p.id) is None,
    ensures
        project_position(s.push(p), p.id) == Some(s.len() as int),
        s.push(p).remove(s.len() as int) == s,
{
    law_get_after_add(s, p);
    lemma_project_position(s.push(p), p.id);
    lemma_project_position(s, p.id);
    let t = s.push(p);
    match project_position(t, p.id) {
        Some(k) => {
            if k < s.len() {
                assert(t[k] == s[k]);
            }
        },
        None => {},
    }
    assert(s.push(p).remove(s.len() as int) =~= s);
}


/// Whether a call leaves the access token alone.
pub open spec fn keeps_token(c: DataCall) -> bool {
    !(c is SetAccessToken) && !(c is ClearAccessToken)
}

/// The stored data after each call of `calls` from `ds[0]` is `ds[i + 1]`.
pub open spec fn data_run(ds: Seq<AppDataView>, calls: Seq<DataCall>) -> bool {
    &&& ds.len() == calls.len() + 1
    &&& forall|i: int| 0 <= i < calls.len() ==> data_step(ds[i], #[trigger] calls[i], ds[i + 1])
}

/// A token set is read back after any calls that neither set nor clear it
/// (so `get_access_token` returns it, `has_access_token` holds and
/// `get_api_client` succeeds with it); once cleared, none is stored.
pub proof fn law_token_read_back(ds: Seq<AppDataView>, calls: Seq<DataCall>, t: Seq<char>)
    requires
        data_run(ds, calls),
        calls.len() >= 1,
        calls[0] == DataCall::SetAccessToken(t),
        forall|i: int| 1 <= i < calls.len() ==> keeps_token(#[trigger] calls[i]),
    ensures
        forall|i: int| 1 <= i < ds.len() ==> (#[trigger] ds[i]).access_token == Some(t),
        forall|e: AppDataView|
            data_step(ds.last(), DataCall::ClearAccessToken, e) ==> e.access_token is None,
    decreases calls.len(),
{
    if calls.len() == 1 {
        assert(data_step(ds[0], calls[0], ds[1]));
    } else {
        let n = calls.len() - 1;
        let ds0 = ds.drop_last();
        let calls0 = calls.drop_last();
        assert forall|i: int| 0 <= i < calls0.len() implies data_step(
            ds0[i],
            #[trigger] calls0[i],
            ds0[i + 1],
        ) by {
            assert(data_step(ds[i], calls[i], ds[i + 1]));
        }
        assert forall|i: int| 1 <= i < calls0.len() implies keeps_token(#[trigger] calls0[i]) by {
            assert(keeps_token(calls[i]));
        }
        law_token_read_back(ds0, calls0, t);
        assert(ds0[n].access_token == Some(t));
        assert(data_step(ds[n], calls[n], ds[n + 1]));
        assert(keeps_token(calls[n]));
        assert(ds[n + 1].access_token == ds[n].access_token);
        assert forall|i: int| 1 <= i < ds.len() implies (#[trigger] ds[i]).access_token == Some(t) by {
            if i < ds.len() - 1 {
                assert(ds[i] == ds0[i]);
            }
        }
    }
}

} // verus!
