use vstd::prelude::*;

use crate::models::{FileChange, FileChangeType, LogEntry, LogLevel, LogSource};
use crate::text::{
    concat2, contains_seq, ends_with, lowercase, starts_with, strip_all_leading,
    strip_all_leading_char, strip_prefix_or_keep, text_contains, text_ends_with, text_starts_with,
    to_lower,
};

verus! {

// ---------------------------------------------------------------------------
// Paths and kinds of change.
// ---------------------------------------------------------------------------

/// A path relative to the project folder: the folder's path removed from
/// its front when it is there, then every leading `/`.
pub open spec fn relative_path(path: Seq<char>, base: Seq<char>) -> Seq<char> {
    strip_all_leading(
        if starts_with(path, base) {
            path.subrange(base.len() as int, path.len() as int)
        } else {
            path
        },
        '/',
    )
}

proof fn lemma_no_leading(s: Seq<char>, c: char)
    ensures
        strip_all_leading(s, c).len() == 0 || strip_all_leading(s, c)[0] != c,
    decreases s.len(),
{
    if s.len() > 0 && s[0] == c {
        lemma_no_leading(s.drop_first(), c);
    }
}

/// The path of a file relative to the project folder.
pub fn get_relative_path(path: &str, base_path: &str) -> (r: String)
    ensures
        r@ == relative_path(path@, base_path@),
        r@.len() == 0 || r@[0] != '/',
{
    let stripped = strip_prefix_or_keep(path, base_path);
    let r = strip_all_leading_char(&stripped, '/');
    proof {
        lemma_no_leading(stripped@, '/');
    }
    r
}

/// What kind of file a path names, judged on its relative path in lower
/// case: a `.sql` file under a `schema…` folder is the schema, a `.ts` or
/// `.js` file under `functions/` an edge function, a `.sql` file under
/// `migrations/` a migration.
pub open spec fn change_kind(path: Seq<char>, base: Seq<char>) -> FileChangeType {
    let l = lowercase(relative_path(path, base));
    if (contains_seq(l, "/schema"@) || starts_with(l, "schema"@)) && ends_with(l, ".sql"@) {
        FileChangeType::Schema
    } else if (contains_seq(l, "/functions/"@) || starts_with(l, "functions/"@)) && (ends_with(
        l,
        ".ts"@,
    ) || ends_with(l, ".js"@)) {
        FileChangeType::EdgeFunction
    } else if (contains_seq(l, "/migrations/"@) || starts_with(l, "migrations/"@)) && ends_with(
        l,
        ".sql"@,
    ) {
        FileChangeType::Migration
    } else {
        FileChangeType::Other
    }
}

/// Classifies a changed path under the project folder.
pub fn classify_file_change(path: &str, base_path: &str) -> (r: FileChangeType)
    ensures
        r == change_kind(path@, base_path@),
{
    let relative = get_relative_path(path, base_path);
    let l = to_lower(&relative);
    if (text_contains(&l, "/schema") || text_starts_with(&l, "schema")) && text_ends_with(
        &l,
        ".sql",
    ) {
        return FileChangeType::Schema;
    }
    if (text_contains(&l, "/functions/") || text_starts_with(&l, "functions/")) && (text_ends_with(
        &l,
        ".ts",
    ) || text_ends_with(&l, ".js")) {
        return FileChangeType::EdgeFunction;
    }
    if (text_contains(&l, "/migrations/") || text_starts_with(&l, "migrations/")) && text_ends_with(
        &l,
        ".sql",
    ) {
        return FileChangeType::Migration;
    }
    FileChangeType::Other
}

// ---------------------------------------------------------------------------
// Reacting to a change.
// ---------------------------------------------------------------------------

/// The source and message of the log entry for a change of this kind to the
/// file at this relative path; none for other files.
pub open spec fn change_log(kind: FileChangeType, rel: Seq<char>) -> Option<(LogSource, Seq<char>)> {
    match kind {
        FileChangeType::Schema => Some((LogSource::Schema, "Schema file changed: "@ + rel)),
        FileChangeType::EdgeFunction => Some(
            (LogSource::EdgeFunction, "Edge function changed: "@ + rel),
        ),
        FileChangeType::Migration => Some((LogSource::Schema, "Migration file changed: "@ + rel)),
        FileChangeType::Other => None,
    }
}

/// What to do about a changed file of interest.
#[derive(Debug)]
pub struct FileEventPlan {
    /// The change, to announce.
    pub change: FileChange,
    /// The entry to log.
    pub log: LogEntry,
    /// Whether to push the local schema to the remote project.
    pub auto_push: bool,
}

/// Decides what a change to `path` in the watched folder `base_path` of
/// project `project_id` calls for: nothing for files of no interest, else an
/// informative log entry and, for the schema, an automatic push.
pub fn handle_file_event(project_id: u128, path: String, base_path: &str) -> (r: Option<
    FileEventPlan,
>)
    ensures
        match change_log(change_kind(path@, base_path@), relative_path(path@, base_path@)) {
            None => r is None,
            Some((source, message)) => r matches Some(plan) && {
                &&& plan.change.path@ == path@
                &&& plan.change.change_type == change_kind(path@, base_path@)
                &&& plan.change.project_id == project_id
                &&& plan.log.project_id == Some(project_id)
                &&& plan.log.level == LogLevel::Info
                &&& plan.log.source == source
                &&& plan.log.message@ == message
                &&& plan.log.details is None
                &&& plan.auto_push == (change_kind(path@, base_path@) == FileChangeType::Schema)
            },
        },
{
    let kind = classify_file_change(&path, base_path);
    let rel = get_relative_path(&path, base_path);
    let log = match kind {
        FileChangeType::Schema => LogEntry::info(
            Some(project_id),
            LogSource::Schema,
            concat2("Schema file changed: ", &rel),
        ),
        FileChangeType::EdgeFunction => LogEntry::info(
            Some(project_id),
            LogSource::EdgeFunction,
            concat2("Edge function changed: ", &rel),
        ),
        FileChangeType::Migration => LogEntry::info(
            Some(project_id),
            LogSource::Schema,
            concat2("Migration file changed: ", &rel),
        ),
        FileChangeType::Other => {
            return None;
        },
    };
    let auto_push = match kind {
        FileChangeType::Schema => true,
        _ => false,
    };
    Some(FileEventPlan { change: FileChange::new(path, kind, project_id), log, auto_push })
}

// ---------------------------------------------------------------------------
// Spacing automatic pushes.
// ---------------------------------------------------------------------------

/// The least time between two automatic pushes of one project, in
/// milliseconds.
pub const PUSH_DEBOUNCE_MS: u64 = 2000;

/// When each project was last pushed automatically, in milliseconds of a
/// monotonic clock: one entry per project.
#[derive(Debug)]
pub struct PushDebounce {
    last: Vec<(u128, u64)>,
}

impl View for PushDebounce {
    type V = Seq<(u128, u64)>;

    closed spec fn view(&self) -> Seq<(u128, u64)> {
        self.last@
    }
}

/// The time of the last push of a project, if any.
pub open spec fn last_push(s: Seq<(u128, u64)>, id: u128) -> Option<u64>
    decreases s.len(),
{
    if s.len() == 0 {
        None
    } else if s.last().0 == id {
        Some(s.last().1)
    } else {
        last_push(s.drop_last(), id)
    }
}

/// Where the entry that `last_push` reads stands.
pub open spec fn last_push_index(s: Seq<(u128, u64)>, id: u128) -> Option<int>
    decreases s.len(),
{
    if s.len() == 0 {
        None
    } else if s.last().0 == id {
        Some(s.len() - 1)
    } else {
        last_push_index(s.drop_last(), id)
    }
}

/// The record after a push of `id` at `t`: the project's entry set to `t`
/// in place, or a new entry when it has none.
pub open spec fn after_push(s: Seq<(u128, u64)>, id: u128, t: u64) -> Seq<(u128, u64)> {
    match last_push_index(s, id) {
        Some(i) => s.update(i, (id, t)),
        None => s.push((id, t)),
    }
}

/// Whether a push at `now` comes too soon after one at `last`; a clock read
/// before `last` counts as no time elapsed.
pub open spec fn too_soon(last: u64, now: u64) -> bool {
    now < last || now - last < PUSH_DEBOUNCE_MS
}

proof fn lemma_last_push_index(s: Seq<(u128, u64)>, id: u128)
    ensures
        match last_push_index(s, id) {
            Some(i) => 0 <= i < s.len() && s[i].0 == id && last_push(s, id) == Some(s[i].1)
                && forall|j: int| i < j < s.len() ==> #[trigger] s[j].0 != id,
            None => last_push(s, id) is None && forall|j: int|
                0 <= j < s.len() ==> #[trigger] s[j].0 != id,
        },
    decreases s.len(),
{
    if s.len() > 0 {
        let d = s.drop_last();
        lemma_last_push_index(d, id);
        assert forall|j: int| 0 <= j < d.len() implies d[j] == s[j] by {}
    }
}

/// Setting an entry of `id` leaves the other projects' last pushes alone.
proof fn lemma_update_keeps_others(s: Seq<(u128, u64)>, i: int, id: u128, t: u64, q: u128)
    requires
        0 <= i < s.len(),
        s[i].0 == id,
        q != id,
    ensures
        last_push(s.update(i, (id, t)), q) == last_push(s, q),
    decreases s.len(),
{
    let u = s.update(i, (id, t));
    if i == s.len() - 1 {
        assert(u.drop_last() =~= s.drop_last());
    } else {
        assert(u.drop_last() =~= s.drop_last().update(i, (id, t)));
        lemma_update_keeps_others(s.drop_last(), i, id, t, q);
    }
}

/// The project's entry after the push holds the push's time, and the
/// record grows only for a project it did not hold.
proof fn lemma_after_push(s: Seq<(u128, u64)>, id: u128, t: u64)
    ensures
        last_push(after_push(s, id, t), id) == Some(t),
        last_push_index(s, id) is Some ==> after_push(s, id, t).len() == s.len(),
        last_push_index(s, id) is None ==> after_push(s, id, t).len() == s.len() + 1,
{
    lemma_last_push_index(s, id);
    match last_push_index(s, id) {
        Some(i) => {
            let u = s.update(i, (id, t));
            assert forall|j: int| i < j < u.len() implies #[trigger] u[j].0 != id by {
                assert(u[j] == s[j]);
            }
            lemma_last_push_index(u, id);
            match last_push_index(u, id) {
                Some(k) => {
                    if k > i {
                        assert(u[k].0 != id);
                    }
                    if k < i {
                        assert(u[i].0 == id);
                    }
                },
                None => {
                    assert(u[i].0 == id);
                },
            }
        },
        None => {
            assert(s.push((id, t)).drop_last() =~= s);
        },
    }
}

/// The push of one project leaves the others' last pushes alone.
proof fn lemma_after_push_other(s: Seq<(u128, u64)>, id: u128, t: u64, q: u128)
    requires
        q != id,
    ensures
        last_push(after_push(s, id, t), q) == last_push(s, q),
{
    lemma_last_push_index(s, id);
    match last_push_index(s, id) {
        Some(i) => {
            lemma_update_keeps_others(s, i, id, t, q);
        },
        None => {
            assert(s.push((id, t)).drop_last() =~= s);
        },
    }
}

impl PushDebounce {
    pub fn new() -> (r: Self)
        ensures
            r@.len() == 0,
    {
        PushDebounce { last: Vec::new() }
    }

    /// Whether an automatic push of the project may begin at `now`: not when
    /// the last one began less than `PUSH_DEBOUNCE_MS` before. When it may,
    /// `now` is recorded as the project's last push, in place of the one
    /// before.
    pub fn try_begin(&mut self, project_id: u128, now: u64) -> (go: bool)
        ensures
            go == match last_push(old(self)@, project_id) {
                Some(t) => !too_soon(t, now),
                None => true,
            },
            go ==> final(self)@ == after_push(old(self)@, project_id, now),
            !go ==> final(self)@ == old(self)@,
            last_push(final(self)@, project_id) == if go {
                Some(now)
            } else {
                last_push(old(self)@, project_id)
            },
            forall|q: u128| q != project_id ==> last_push(final(self)@, q) == last_push(
                old(self)@,
                q,
            ),
            final(self)@.len() <= old(self)@.len() + 1,
            last_push(old(self)@, project_id) is Some ==> final(self)@.len() == old(self)@.len(),
    {
        let ghost s = self.last@;
        proof {
            lemma_last_push_index(s, project_id);
        }
        let mut i: usize = self.last.len();
        let mut found: Option<usize> = None;
        assert(s.take(i as int) =~= s);
        while i > 0 && found.is_none()
            invariant
                i <= self.last.len(),
                s == self.last@,
                match found {
                    Some(k) => last_push_index(s, project_id) == Some(k as int),
                    None => last_push_index(s, project_id) == last_push_index(
                        s.take(i as int),
                        project_id,
                    ),
                },
            decreases i + if found is None {
                1int
            } else {
                0int
            },
        {
            proof {
                assert(s.take(i as int).drop_last() =~= s.take(i - 1));
            }
            let q = self.last[i - 1].0;
            if q == project_id {
                found = Some(i - 1);
            } else {
                i = i - 1;
            }
        }
        proof {
            assert forall|q: u128| q != project_id implies last_push(
                after_push(s, project_id, now),
                q,
            ) == last_push(s, q) by {
                lemma_after_push_other(s, project_id, now, q);
            }
            lemma_after_push(s, project_id, now);
        }
        match found {
            Some(k) => {
                let t = self.last[k].1;
                if now < t || now - t < PUSH_DEBOUNCE_MS {
                    return false;
                }
                self.last.set(k, (project_id, now));
            },
            None => {
                assert(s.take(i as int) =~= Seq::<(u128, u64)>::empty());
                self.last.push((project_id, now));
            },
        }
        true
    }
}

/// Once a push of a project begins at `t`, another push of it is refused
/// until two seconds have passed, and allowed from then on; other projects
/// are not held back; and each project keeps one entry.
pub proof fn law_debounce(s: Seq<(u128, u64)>, project_id: u128, t: u64, now: u64, other: u128)
    requires
        other != project_id,
    ensures
        last_push(after_push(s, project_id, t), project_id) == Some(t),
        t <= now ==> (too_soon(t, now) <==> now - t < PUSH_DEBOUNCE_MS),
        last_push(after_push(s, project_id, t), other) == last_push(s, other),
        last_push(s, project_id) is Some ==> after_push(s, project_id, t).len() == s.len(),
{
    lemma_last_push_index(s, project_id);
    lemma_after_push(s, project_id, t);
    lemma_after_push_other(s, project_id, t, other);
}

} // verus!
