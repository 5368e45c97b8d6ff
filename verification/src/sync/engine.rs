//! The decisions of a sync run with a CalDAV server: what the remote
//! changes do to the local tasks, what is pushed back, how outcomes are
//! recorded, and which conflicts the user is shown. The network requests
//! themselves are made by the caller, which hands their results back.

use std::collections::HashMap;
use vstd::prelude::*;

use crate::dates::DateTime;
use crate::ids::Uuid;
use crate::model::items::{CalendarEvent, EventView};
use crate::model::task::{keyword_of, opt_str, state_is_done, strs, Task, TaskView};
use crate::sync::caldav::{ics_href, vtodo_href, RemoteVtodo, RemoteVtodoView, SyncChange, SyncChangeView};
use crate::sync::id_index::{id_index, id_index_ok, last_with_id_in};
use crate::sync::hash::{content_hash, lemma_hash_ignores_sync_data, task_content_hash};
use crate::sync::merge::{lemma_sorted_union_again, lemma_union_self, lemma_union_twice, merge_pulled, no_repeats, pull_merge, sorted_union, tag_union, time_sorted, union_list};
use crate::sync::multistatus::{change_views, remote_views};
use crate::sync::vtodo::{task_to_vcalendar_at, vcalendar_text};
use crate::sync::vtodo_parse::{scan_of, task_from_scan, vcalendar_ok, vcalendar_to_task};
use crate::text::{chars_of, find_sub, find_sub_from, push_str, str_eq, string_of};

verus! {

/// A disagreement between the local and the remote copy that the user
/// settles.
#[derive(Debug, Clone)]
pub enum SyncConflict {
    StateMismatch {
        task_id: Uuid,
        title: String,
        href: String,
        local_state: String,
        remote_state: String,
    },
    RemoteOnly { task: Task, href: String },
    LocalOnly { task_id: Uuid, title: String, local_state: String, href: String },
}

pub enum ConflictView {
    StateMismatch {
        task_id: Uuid,
        title: Seq<char>,
        href: Seq<char>,
        local_state: Seq<char>,
        remote_state: Seq<char>,
    },
    RemoteOnly { task: TaskView, href: Seq<char> },
    LocalOnly { task_id: Uuid, title: Seq<char>, local_state: Seq<char>, href: Seq<char> },
}

impl View for SyncConflict {
    type V = ConflictView;

    open spec fn view(&self) -> ConflictView {
        match self {
            SyncConflict::StateMismatch { task_id, title, href, local_state, remote_state } =>
                ConflictView::StateMismatch {
                task_id: *task_id,
                title: title@,
                href: href@,
                local_state: local_state@,
                remote_state: remote_state@,
            },
            SyncConflict::RemoteOnly { task, href } => ConflictView::RemoteOnly {
                task: task@,
                href: href@,
            },
            SyncConflict::LocalOnly { task_id, title, local_state, href } =>
                ConflictView::LocalOnly {
                task_id: *task_id,
                title: title@,
                local_state: local_state@,
                href: href@,
            },
        }
    }
}

pub open spec fn conflict_views(v: Seq<SyncConflict>) -> Seq<ConflictView> {
    v.map_values(|c: SyncConflict| c@)
}

/// The sync state the interface shows.
#[derive(Debug, Clone, PartialEq, Eq)]
pub enum SyncStatus {
    Idle,
    Syncing,
    Error(String),
    /// The time of the last sync, formatted.
    LastSynced(String),
}

impl Default for SyncStatus {
    fn default() -> (r: Self)
        ensures
            r is Idle,
    {
        SyncStatus::Idle
    }
}

/// What a sync run did.
#[derive(Debug, Clone)]
pub struct SyncResult {
    /// Tasks pulled from the server (new or updated).
    pub pulled: Vec<Task>,
    /// Number of tasks pushed.
    pub pushed: usize,
    /// Tasks deleted on the server.
    pub deleted_local: Vec<Uuid>,
    /// Number of field-level merges.
    pub merged: usize,
    /// Events pulled from the server.
    pub pulled_events: Vec<CalendarEvent>,
    /// Number of events pushed.
    pub pushed_events: usize,
    /// Events deleted on the server.
    pub deleted_events: Vec<Uuid>,
    /// New sync tokens: calendar href and token.
    pub new_sync_tokens: Vec<(String, String)>,
    /// Errors that did not stop the run.
    pub errors: Vec<String>,
    /// Conflicts for the user.
    pub conflicts: Vec<SyncConflict>,
}

pub open spec fn task_views(v: Seq<Task>) -> Seq<TaskView> {
    v.map_values(|t: Task| t@)
}

pub open spec fn pair_views(v: Seq<(String, String)>) -> Seq<(Seq<char>, Seq<char>)> {
    v.map_values(|p: (String, String)| (p.0@, p.1@))
}

pub open spec fn is_empty_result(r: &SyncResult) -> bool {
    &&& r.pulled@.len() == 0
    &&& r.pushed == 0
    &&& r.deleted_local@.len() == 0
    &&& r.merged == 0
    &&& r.pulled_events@.len() == 0
    &&& r.pushed_events == 0
    &&& r.deleted_events@.len() == 0
    &&& r.new_sync_tokens@.len() == 0
    &&& r.errors@.len() == 0
    &&& r.conflicts@.len() == 0
}

/// A result with nothing in it.
pub fn new_sync_result() -> (r: SyncResult)
    ensures
        is_empty_result(&r),
{
    SyncResult {
        pulled: Vec::new(),
        pushed: 0,
        deleted_local: Vec::new(),
        merged: 0,
        pulled_events: Vec::new(),
        pushed_events: 0,
        deleted_events: Vec::new(),
        new_sync_tokens: Vec::new(),
        errors: Vec::new(),
        conflicts: Vec::new(),
    }
}

// ---------------------------------------------------------------------------
// Remote changes
// ---------------------------------------------------------------------------

/// The last task of the list with the identifier (later entries replace
/// earlier ones in a map keyed by identifier).
pub open spec fn last_with_id(ts: Seq<TaskView>, id: Uuid) -> Option<TaskView>
    decreases ts.len(),
{
    if ts.len() == 0 {
        None
    } else if ts.last().id == id {
        Some(ts.last())
    } else {
        last_with_id(ts.drop_last(), id)
    }
}

/// Whether the local copy was edited since its last sync.
pub open spec fn locally_changed(t: TaskView) -> bool {
    t.sync_hash matches Some(h) && h != content_hash(t)
}

/// Whether the task is as it was at its last sync (its stored hash is the
/// hash of its content).
pub open spec fn settled(t: TaskView) -> bool {
    t.sync_hash == Some(content_hash(t))
}

/// The identifiers of the tasks whose href is `href` and that were not
/// edited since their last sync, in order: those a remote deletion takes.
pub open spec fn ids_with_href(ts: Seq<TaskView>, href: Seq<char>) -> Seq<Uuid>
    decreases ts.len(),
{
    if ts.len() == 0 {
        seq![]
    } else {
        let rest = ids_with_href(ts.drop_last(), href);
        if ts.last().sync_href == Some(href) && !locally_changed(ts.last()) {
            rest.push(ts.last().id)
        } else {
            rest
        }
    }
}

/// The conflict of a task edited locally whose remote object was deleted.
pub open spec fn deleted_conflict(t: TaskView, href: Seq<char>) -> ConflictView {
    ConflictView::LocalOnly {
        task_id: t.id,
        title: t.title,
        local_state: keyword_of(t.state),
        href,
    }
}

/// The conflicts of the tasks whose href is `href` and that were edited
/// since their last sync, in order: a remote deletion leaves them to the
/// user.
pub open spec fn kept_conflicts(ts: Seq<TaskView>, href: Seq<char>) -> Seq<ConflictView>
    decreases ts.len(),
{
    if ts.len() == 0 {
        seq![]
    } else {
        let rest = kept_conflicts(ts.drop_last(), href);
        if ts.last().sync_href == Some(href) && locally_changed(ts.last()) {
            rest.push(deleted_conflict(ts.last(), href))
        } else {
            rest
        }
    }
}

/// A task as pulled from `href` with the object's `etag`: href and etag
/// set, then the hash of that (the hash is taken of what is stored).
pub open spec fn as_pulled(t: TaskView, href: Seq<char>, etag: Seq<char>) -> TaskView {
    let h = TaskView { sync_href: Some(href), sync_etag: Some(etag), ..t };
    TaskView { sync_hash: Some(content_hash(h)), ..h }
}

/// The task a changed remote object gives when the local copy (if any) did
/// not change: the pull merge with the local copy, or the remote task.
pub open spec fn pulled_task(local: Option<TaskView>, p: TaskView, href: Seq<char>, etag: Seq<char>) -> TaskView {
    match local {
        Some(l) => as_pulled(pull_merge(l, p), href, etag),
        None => as_pulled(p, href, etag),
    }
}

/// The conflict of a task changed on both sides.
pub open spec fn mismatch_conflict(l: TaskView, p: TaskView, href: Seq<char>) -> ConflictView {
    ConflictView::StateMismatch {
        task_id: l.id,
        title: l.title,
        href,
        local_state: keyword_of(l.state),
        remote_state: keyword_of(p.state),
    }
}

/// What the remote changes have done so far.
pub struct RemoteState {
    pub pulled: Seq<TaskView>,
    pub deleted: Seq<Uuid>,
    pub merged: nat,
    pub seen: Seq<Seq<char>>,
    pub conflicts: Seq<ConflictView>,
}

/// One remote change. A changed object is taken in (merged with the local
/// copy, if any) unless the local copy was edited too, which is a conflict;
/// a deleted object deletes the local copies that were not edited and
/// leaves the edited ones to the user. Done remote tasks are not taken in.
pub open spec fn change_step(
    st: RemoteState,
    tasks: Seq<TaskView>,
    c: SyncChangeView,
    p: Option<TaskView>,
) -> RemoteState {
    match c {
        SyncChangeView::Changed(rv) => {
            let st1 = RemoteState { seen: st.seen.push(rv.href), ..st };
            match p {
                Some(t) => if state_is_done(t.state) {
                    st1
                } else {
                    let local = last_with_id(tasks, t.id);
                    if local matches Some(l) && locally_changed(l) {
                        RemoteState {
                            conflicts: st1.conflicts.push(mismatch_conflict(local->0, t, rv.href)),
                            ..st1
                        }
                    } else {
                        RemoteState {
                            pulled: st1.pulled.push(pulled_task(local, t, rv.href, rv.etag)),
                            merged: if local is Some {
                                st1.merged + 1
                            } else {
                                st1.merged
                            },
                            ..st1
                        }
                    }
                },
                None => st1,
            }
        },
        SyncChangeView::Deleted(h) => RemoteState {
            seen: st.seen.push(h),
            deleted: st.deleted + ids_with_href(tasks, h),
            conflicts: st.conflicts + kept_conflicts(tasks, h),
            ..st
        },
    }
}

/// The effect of the first `k` changes, each with its parsed task.
pub open spec fn apply_changes(
    tasks: Seq<TaskView>,
    cs: Seq<SyncChangeView>,
    ps: Seq<Option<TaskView>>,
    k: int,
) -> RemoteState
    decreases k,
{
    if k <= 0 {
        RemoteState { pulled: seq![], deleted: seq![], merged: 0, seen: seq![], conflicts: seq![] }
    } else {
        change_step(apply_changes(tasks, cs, ps, k - 1), tasks, cs[k - 1], ps[k - 1])
    }
}

pub open spec fn opt_task_views(v: Seq<Option<Task>>) -> Seq<Option<TaskView>> {
    v.map_values(|o: Option<Task>| match o {
        Some(t) => Some(t@),
        None => None,
    })
}

/// The task parsed from a change, as `vcalendar_to_task` gives it.
pub open spec fn parsed_from(c: SyncChangeView, p: Option<TaskView>) -> bool {
    match c {
        SyncChangeView::Changed(rv) => match p {
            Some(t) => scan_of(rv.ical_body).summary.len() > 0 && task_from_scan(
                t,
                scan_of(rv.ical_body),
            ),
            None => scan_of(rv.ical_body).summary.len() == 0,
        },
        SyncChangeView::Deleted(_) => p is None,
    }
}

pub open spec fn change_ok(c: SyncChangeView) -> bool {
    c matches SyncChangeView::Changed(rv) ==> vcalendar_ok(rv.ical_body)
}

/// Parses the object of each change (deletions give `None`).
pub fn parse_changes(changes: &[SyncChange]) -> (r: Vec<Option<Task>>)
    requires
        forall|i: int| 0 <= i < changes@.len() ==> change_ok(#[trigger] changes@[i]@),
    ensures
        r@.len() == changes@.len(),
        forall|i: int|
            0 <= i < changes@.len() ==> parsed_from(#[trigger] changes@[i]@, opt_task_views(r@)[i]),
{
    let mut r: Vec<Option<Task>> = Vec::new();
    let mut i: usize = 0;
    while i < changes.len()
        invariant
            i <= changes.len(),
            r@.len() == i,
            forall|j: int| 0 <= j < changes@.len() ==> change_ok(#[trigger] changes@[j]@),
            forall|j: int| 0 <= j < i ==> parsed_from(#[trigger] changes@[j]@, opt_task_views(r@)[j]),
        decreases changes.len() - i,
    {
        assert(change_ok(changes@[i as int]@));
        let p = match &changes[i] {
            SyncChange::Changed(rv) => vcalendar_to_task(rv.ical_body.as_str()),
            SyncChange::Deleted(_) => None,
        };
        let ghost before = r@;
        r.push(p);
        assert forall|j: int| 0 <= j < i + 1 implies parsed_from(
            #[trigger] changes@[j]@,
            opt_task_views(r@)[j],
        ) by {
            if j < i {
                assert(opt_task_views(r@)[j] == opt_task_views(before)[j]);
            }
        }
        i = i + 1;
    }
    r
}

/// What the remote changes do: tasks to take in, tasks deleted, merges,
/// the hrefs the changes named, and the conflicts left to the user.
pub struct RemoteApplied {
    pub pulled: Vec<Task>,
    pub deleted_local: Vec<Uuid>,
    pub merged: usize,
    pub seen_hrefs: Vec<String>,
    pub conflicts: Vec<SyncConflict>,
}

fn is_locally_changed(t: &Task) -> (r: bool)
    ensures
        r == locally_changed(t@),
{
    match t.sync_hash {
        Some(h) => h != task_content_hash(t),
        None => false,
    }
}

fn with_href(t: &Task, href: &String, etag: &String) -> (r: Task)
    ensures
        r@ == as_pulled(t@, href@, etag@),
{
    let mut p = t.duplicate();
    p.sync_href = Some(href.clone());
    p.sync_etag = Some(etag.clone());
    let h = task_content_hash(&p);
    p.sync_hash = Some(h);
    p
}

fn pull_task(local: Option<&Task>, p: &Task, href: &String, etag: &String) -> (r: Task)
    ensures
        r@ == pulled_task(
            match local {
                Some(l) => Some(l@),
                None => None,
            },
            p@,
            href@,
            etag@,
        ),
{
    match local {
        Some(l) => {
            let m = merge_pulled(l, p);
            with_href(&m, href, etag)
        },
        None => with_href(p, href, etag),
    }
}

fn deleted_exec(tasks: &[Task], href: &String, out: &mut Vec<Uuid>, conflicts: &mut Vec<SyncConflict>)
    ensures
        final(out)@ == old(out)@ + ids_with_href(task_views(tasks@), href@),
        conflict_views(final(conflicts)@) == conflict_views(old(conflicts)@) + kept_conflicts(
            task_views(tasks@),
            href@,
        ),
{
    let ghost tv = task_views(tasks@);
    let ghost start = out@;
    let ghost cstart = conflict_views(conflicts@);
    let mut i: usize = 0;
    assert(tv.take(0) =~= Seq::<TaskView>::empty());
    assert(cstart + kept_conflicts(tv.take(0), href@) =~= cstart);
    assert(start + ids_with_href(tv.take(0), href@) =~= start);
    while i < tasks.len()
        invariant
            i <= tasks@.len(),
            tv == task_views(tasks@),
            out@ == start + ids_with_href(tv.take(i as int), href@),
            conflict_views(conflicts@) == cstart + kept_conflicts(tv.take(i as int), href@),
        decreases tasks.len() - i,
    {
        assert(tv.take(i + 1).drop_last() =~= tv.take(i as int));
        assert(tv.take(i + 1).last() == tasks@[i as int]@);
        let hit = match &tasks[i].sync_href {
            Some(h) => str_eq(h.as_str(), href.as_str()),
            None => false,
        };
        if hit {
            if is_locally_changed(&tasks[i]) {
                let c = SyncConflict::LocalOnly {
                    task_id: tasks[i].id,
                    title: tasks[i].title.clone(),
                    local_state: keyword_string(tasks[i].state),
                    href: href.clone(),
                };
                let ghost before = conflicts@;
                conflicts.push(c);
                assert(conflict_views(conflicts@) =~= conflict_views(before).push(c@));
            } else {
                let ghost before = out@;
                out.push(tasks[i].id);
                assert(out@ =~= before.push(tasks@[i as int].id));
            }
        }
        i = i + 1;
    }
    assert(tv.take(tasks.len() as int) =~= tv);
}

pub open spec fn applied_view(a: &RemoteApplied) -> RemoteState {
    RemoteState {
        pulled: task_views(a.pulled@),
        deleted: a.deleted_local@,
        merged: a.merged as nat,
        seen: strs(a.seen_hrefs@),
        conflicts: conflict_views(a.conflicts@),
    }
}

fn apply_one(acc: &mut RemoteApplied, tasks: &[Task], idx: &HashMap<u128, usize>, c: &SyncChange, p: &Option<Task>)
    requires
        id_index_ok(idx@, task_views(tasks@)),
        old(acc).merged < usize::MAX,
    ensures
        applied_view(final(acc)) == change_step(
            applied_view(old(acc)),
            task_views(tasks@),
            c@,
            match p {
                Some(t) => Some(t@),
                None => None,
            },
        ),
        final(acc).merged <= old(acc).merged + 1,
{
    let ghost pulled0 = acc.pulled@;
    let ghost seen0 = acc.seen_hrefs@;
    let ghost conf0 = acc.conflicts@;
    match c {
        SyncChange::Changed(rv) => {
            acc.seen_hrefs.push(rv.href.clone());
            assert(strs(acc.seen_hrefs@) =~= strs(seen0).push(rv.href@));
            match p {
                Some(t) => {
                    if !t.state.is_done() {
                        let li = last_with_id_in(idx, tasks, t.id);
                        let local = match li {
                            Some(i) => Some(&tasks[i]),
                            None => None,
                        };
                        let changed = match local {
                            Some(l) => is_locally_changed(l),
                            None => false,
                        };
                        if changed {
                            let l = &tasks[li.unwrap()];
                            let cf = SyncConflict::StateMismatch {
                                task_id: l.id,
                                title: l.title.clone(),
                                href: rv.href.clone(),
                                local_state: keyword_string(l.state),
                                remote_state: keyword_string(t.state),
                            };
                            acc.conflicts.push(cf);
                            assert(conflict_views(acc.conflicts@) =~= conflict_views(conf0).push(cf@));
                        } else {
                            let q = pull_task(local, t, &rv.href, &rv.etag);
                            acc.pulled.push(q);
                            assert(task_views(acc.pulled@) =~= task_views(pulled0).push(q@));
                            if local.is_some() {
                                acc.merged = acc.merged + 1;
                            }
                        }
                    }
                },
                None => {},
            }
        },
        SyncChange::Deleted(h) => {
            acc.seen_hrefs.push(h.clone());
            assert(strs(acc.seen_hrefs@) =~= strs(seen0).push(h@));
            deleted_exec(tasks, h, &mut acc.deleted_local, &mut acc.conflicts);
        },
    }
}

/// Applies the remote changes, each with the task parsed from it.
pub fn apply_remote_changes(tasks: &[Task], changes: &[SyncChange], parsed: &[Option<Task>]) -> (r:
    RemoteApplied)
    requires
        parsed@.len() == changes@.len(),
    ensures
        applied_view(&r) == apply_changes(
            task_views(tasks@),
            change_views(changes@),
            opt_task_views(parsed@),
            changes@.len() as int,
        ),
{
    let ghost tv = task_views(tasks@);
    let ghost cv = change_views(changes@);
    let ghost pv = opt_task_views(parsed@);
    let mut acc = RemoteApplied {
        pulled: Vec::new(),
        deleted_local: Vec::new(),
        merged: 0,
        seen_hrefs: Vec::new(),
        conflicts: Vec::new(),
    };
    assert(applied_view(&acc) =~= apply_changes(tv, cv, pv, 0)) by {
        assert(task_views(acc.pulled@) =~= Seq::<TaskView>::empty());
        assert(conflict_views(acc.conflicts@) =~= Seq::<ConflictView>::empty());
        assert(strs(acc.seen_hrefs@) =~= Seq::<Seq<char>>::empty());
    }
    let idx = id_index(tasks);
    let mut k: usize = 0;
    while k < changes.len()
        invariant
            k <= changes@.len(),
            parsed@.len() == changes@.len(),
            tv == task_views(tasks@),
            id_index_ok(idx@, tv),
            cv == change_views(changes@),
            pv == opt_task_views(parsed@),
            acc.merged <= k,
            applied_view(&acc) == apply_changes(tv, cv, pv, k as int),
        decreases changes.len() - k,
    {
        assert(cv[k as int] == changes@[k as int]@);
        apply_one(&mut acc, tasks, &idx, &changes[k], &parsed[k]);
        k = k + 1;
    }
    acc
}

// ---------------------------------------------------------------------------
// Pushing local changes
// ---------------------------------------------------------------------------

/// What a push does on the server.
#[derive(Debug, Clone, Copy, PartialEq, Eq, Structural)]
pub enum PushKind {
    /// DELETE the href: the task is done locally.
    Delete,
    /// PUT without precondition: the task changed locally.
    Update,
    /// PUT `If-None-Match: *`: the task is new.
    Create,
    /// PUT without precondition: the task is missing on the server.
    Overwrite,
}

/// One request to make for a task of the list.
pub struct PushAction {
    pub kind: PushKind,
    /// The task's place in the list.
    pub index: usize,
    pub href: String,
    /// The VCALENDAR text to PUT (empty for a DELETE).
    pub ical: String,
}

pub struct PushView {
    pub kind: PushKind,
    pub index: int,
    pub href: Seq<char>,
    pub ical: Seq<char>,
}

impl View for PushAction {
    type V = PushView;

    open spec fn view(&self) -> PushView {
        PushView { kind: self.kind, index: self.index as int, href: self.href@, ical: self.ical@ }
    }
}

pub open spec fn push_views(v: Seq<PushAction>) -> Seq<PushView> {
    v.map_values(|a: PushAction| a@)
}

/// The request for task `t` at place `i`, given the hrefs the remote
/// changes named (those are left alone) and the time of the run.
pub open spec fn push_for(
    t: TaskView,
    i: int,
    seen: Seq<Seq<char>>,
    cal: Seq<char>,
    now: DateTime,
) -> Option<PushView> {
    if state_is_done(t.state) {
        match t.sync_href {
            Some(h) => if !seen.contains(h) && !settled(t) {
                Some(PushView { kind: PushKind::Delete, index: i, href: h, ical: seq![] })
            } else {
                None
            },
            None => None,
        }
    } else {
        match t.sync_href {
            Some(h) => if !seen.contains(h) && locally_changed(t) {
                Some(PushView { kind: PushKind::Update, index: i, href: h, ical: vcalendar_text(t, now) })
            } else {
                None
            },
            None => Some(
                PushView {
                    kind: PushKind::Create,
                    index: i,
                    href: ics_href(cal, t.id.value),
                    ical: vcalendar_text(t, now),
                },
            ),
        }
    }
}

pub open spec fn push_plan(
    ts: Seq<TaskView>,
    seen: Seq<Seq<char>>,
    cal: Seq<char>,
    now: DateTime,
    k: int,
) -> Seq<PushView>
    decreases k,
{
    if k <= 0 {
        seq![]
    } else {
        let rest = push_plan(ts, seen, cal, now, k - 1);
        match push_for(ts[k - 1], k - 1, seen, cal, now) {
            Some(a) => rest.push(a),
            None => rest,
        }
    }
}

fn seen_contains(seen: &[String], h: &String) -> (r: bool)
    ensures
        r == strs(seen@).contains(h@),
{
    let mut i: usize = 0;
    while i < seen.len()
        invariant
            i <= seen@.len(),
            forall|j: int| 0 <= j < i ==> strs(seen@)[j] != h@,
        decreases seen.len() - i,
    {
        if str_eq(seen[i].as_str(), h.as_str()) {
            assert(strs(seen@)[i as int] == h@);
            return true;
        }
        i = i + 1;
    }
    false
}

fn push_for_exec(t: &Task, i: usize, seen: &[String], cal: &str, now: DateTime) -> (r: Option<
    PushAction,
>)
    ensures
        match r {
            Some(a) => push_for(t@, i as int, strs(seen@), cal@, now) == Some(a@),
            None => push_for(t@, i as int, strs(seen@), cal@, now) is None,
        },
{
    if t.state.is_done() {
        match &t.sync_href {
            Some(h) => {
                let is_settled = match t.sync_hash {
                    Some(x) => x == task_content_hash(t),
                    None => false,
                };
                if !seen_contains(seen, h) && !is_settled {
                    Some(PushAction { kind: PushKind::Delete, index: i, href: h.clone(), ical: String::new() })
                } else {
                    None
                }
            },
            None => None,
        }
    } else {
        match &t.sync_href {
            Some(h) => {
                let lh = task_content_hash(t);
                let changed = match t.sync_hash {
                    Some(x) => x != lh,
                    None => false,
                };
                if !seen_contains(seen, h) && changed {
                    Some(PushAction { kind: PushKind::Update, index: i, href: h.clone(), ical: task_to_vcalendar_at(t, now) })
                } else {
                    None
                }
            },
            None => Some(
                PushAction {
                    kind: PushKind::Create,
                    index: i,
                    href: vtodo_href(cal, &t.id),
                    ical: task_to_vcalendar_at(t, now),
                },
            ),
        }
    }
}

/// The requests that push the local changes after the remote changes
/// named `seen_hrefs`: tasks that became done since their last sync are
/// deleted, changed ones updated, new ones created, in the order of the
/// tasks.
pub fn plan_push(tasks: &[Task], seen_hrefs: &[String], calendar_href: &str, now: DateTime) -> (r:
    Vec<PushAction>)
    ensures
        push_views(r@) == push_plan(task_views(tasks@), strs(seen_hrefs@), calendar_href@, now, tasks@.len() as int),
{
    let ghost tv = task_views(tasks@);
    let mut r: Vec<PushAction> = Vec::new();
    let mut i: usize = 0;
    while i < tasks.len()
        invariant
            i <= tasks@.len(),
            tv == task_views(tasks@),
            push_views(r@) == push_plan(tv, strs(seen_hrefs@), calendar_href@, now, i as int),
        decreases tasks.len() - i,
    {
        assert(tv[i as int] == tasks@[i as int]@);
        match push_for_exec(&tasks[i], i, seen_hrefs, calendar_href, now) {
            Some(a) => {
                let ghost before = r@;
                r.push(a);
                assert(push_views(r@) =~= push_views(before).push(a@));
            },
            None => {},
        }
        i = i + 1;
    }
    r
}

/// A failed create is retried as an overwrite when the server says the
/// object exists (412 or 403).
pub fn should_retry_create(kind: PushKind, err: &str) -> (r: bool)
    ensures
        r == (kind == PushKind::Create && (find_sub(err@, "412"@, 0) is Some || find_sub(
            err@,
            "403"@,
            0,
        ) is Some)),
{
    if kind != PushKind::Create {
        return false;
    }
    let e = chars_of(err);
    find_sub_from(&e, &chars_of("412"), 0).is_some() || find_sub_from(&e, &chars_of("403"), 0).is_some()
}

/// The task as recorded after a successful push with the response's
/// `etag`: the hash of its content, the etag and (for a new object) the
/// href; after a DELETE, no sync data at all (the object is gone).
pub open spec fn pushed_task(kind: PushKind, t: TaskView, href: Seq<char>, etag: Option<Seq<char>>) -> TaskView {
    if kind == PushKind::Delete {
        TaskView { sync_href: None, sync_hash: None, sync_etag: None, ..t }
    } else if kind == PushKind::Update {
        TaskView { sync_hash: Some(content_hash(t)), sync_etag: etag, ..t }
    } else {
        TaskView { sync_href: Some(href), sync_hash: Some(content_hash(t)), sync_etag: etag, ..t }
    }
}

/// Records a push that succeeded, with the ETag of the response (if it
/// gave one): the task with its new sync data is taken in, and a PUT is
/// counted.
pub fn record_push_ok(result: &mut SyncResult, tasks: &[Task], a: &PushAction, etag: Option<String>)
    requires
        a.index < tasks@.len(),
        old(result).pushed < usize::MAX,
    ensures
        task_views(final(result).pulled@) == task_views(old(result).pulled@).push(
            pushed_task(a.kind, tasks@[a.index as int]@, a.href@, opt_str(etag)),
        ),
        a.kind == PushKind::Delete ==> final(result).pushed == old(result).pushed,
        a.kind != PushKind::Delete ==> final(result).pushed == old(result).pushed + 1,
        final(result).errors@ == old(result).errors@,
        final(result).conflicts@ == old(result).conflicts@,
        final(result).deleted_local@ == old(result).deleted_local@,
        final(result).merged == old(result).merged,
{
    let t = &tasks[a.index];
    let mut u = t.duplicate();
    if a.kind == PushKind::Delete {
        u.sync_href = None;
        u.sync_hash = None;
        u.sync_etag = None;
    } else {
        let h = task_content_hash(t);
        if a.kind != PushKind::Update {
            u.sync_href = Some(a.href.clone());
        }
        u.sync_hash = Some(h);
        u.sync_etag = etag;
    }
    let ghost before = result.pulled@;
    result.pulled.push(u);
    assert(task_views(result.pulled@) =~= task_views(before).push(u@));
    if a.kind != PushKind::Delete {
        result.pushed = result.pushed + 1;
    }
}

/// The error text of a failed push (`retried`: the overwrite after a
/// refused create).
pub open spec fn push_error(kind: PushKind, retried: bool, title: Seq<char>, e: Seq<char>) -> Seq<char> {
    if kind == PushKind::Delete {
        "Failed to delete done task: "@ + e
    } else if kind == PushKind::Create && retried {
        "Failed to update "@ + title + ": "@ + e
    } else if kind == PushKind::Create {
        "Failed to create "@ + title + ": "@ + e
    } else {
        "Failed to push "@ + title + ": "@ + e
    }
}

/// Records a push that failed.
pub fn record_push_err(result: &mut SyncResult, tasks: &[Task], a: &PushAction, err: &str, retried: bool)
    requires
        a.index < tasks@.len(),
    ensures
        strs(final(result).errors@) == strs(old(result).errors@).push(
            push_error(a.kind, retried, tasks@[a.index as int].title@, err@),
        ),
        final(result).pulled@ == old(result).pulled@,
        final(result).pushed == old(result).pushed,
        final(result).conflicts@ == old(result).conflicts@,
{
    let title = tasks[a.index].title.as_str();
    let mut v: Vec<char> = Vec::new();
    if a.kind == PushKind::Delete {
        push_str(&mut v, "Failed to delete done task: ");
    } else {
        if a.kind == PushKind::Create && retried {
            push_str(&mut v, "Failed to update ");
        } else if a.kind == PushKind::Create {
            push_str(&mut v, "Failed to create ");
        } else {
            push_str(&mut v, "Failed to push ");
        }
        push_str(&mut v, title);
        push_str(&mut v, ": ");
    }
    push_str(&mut v, err);
    let m = string_of(v.as_slice());
    let ghost before = result.errors@;
    result.errors.push(m);
    assert(strs(result.errors@) =~= strs(before).push(m@));
}

// ---------------------------------------------------------------------------
// Full listing (the sync token expired)
// ---------------------------------------------------------------------------

/// What reconciling a full listing has done so far.
pub struct FullState {
    pub pulled: Seq<TaskView>,
    pub matched: Seq<Uuid>,
}

/// A remote object of a full listing: an open task is taken in when it is
/// new, or when the local copy was not edited since its last sync and its
/// content differs from (or was never synced with) the remote one; it is
/// then merged with the local copy. A local copy edited since its last sync
/// is never overwritten. Every parsed task counts as matched.
pub open spec fn full_step(st: FullState, tasks: Seq<TaskView>, rv: RemoteVtodoView, p: Option<TaskView>) -> FullState {
    match p {
        None => st,
        Some(t) => {
            let st1 = FullState { matched: st.matched.push(t.id), ..st };
            if state_is_done(t.state) {
                st1
            } else {
                match last_with_id(tasks, t.id) {
                    Some(l) => if !locally_changed(l) && (l.sync_hash is None || content_hash(l)
                        != content_hash(t)) {
                        FullState {
                            pulled: st1.pulled.push(pulled_task(Some(l), t, rv.href, rv.etag)),
                            ..st1
                        }
                    } else {
                        st1
                    },
                    None => FullState { pulled: st1.pulled.push(as_pulled(t, rv.href, rv.etag)), ..st1 },
                }
            }
        },
    }
}

pub open spec fn full_pull(
    tasks: Seq<TaskView>,
    rs: Seq<RemoteVtodoView>,
    ps: Seq<Option<TaskView>>,
    k: int,
) -> FullState
    decreases k,
{
    if k <= 0 {
        FullState { pulled: seq![], matched: seq![] }
    } else {
        full_step(full_pull(tasks, rs, ps, k - 1), tasks, rs[k - 1], ps[k - 1])
    }
}

/// The overwrite of each open local task the listing did not hold.
pub open spec fn full_push(
    ts: Seq<TaskView>,
    matched: Seq<Uuid>,
    cal: Seq<char>,
    now: DateTime,
    k: int,
) -> Seq<PushView>
    decreases k,
{
    if k <= 0 {
        seq![]
    } else {
        let rest = full_push(ts, matched, cal, now, k - 1);
        let t = ts[k - 1];
        if !state_is_done(t.state) && !matched.contains(t.id) {
            rest.push(
                PushView {
                    kind: PushKind::Overwrite,
                    index: k - 1,
                    href: match t.sync_href {
                        Some(h) => h,
                        None => ics_href(cal, t.id.value),
                    },
                    ical: vcalendar_text(t, now),
                },
            )
        } else {
            rest
        }
    }
}

/// Parses the object of each listed remote.
pub fn parse_remotes(remote: &[RemoteVtodo]) -> (r: Vec<Option<Task>>)
    requires
        forall|i: int| 0 <= i < remote@.len() ==> vcalendar_ok(#[trigger] remote@[i].ical_body@),
    ensures
        r@.len() == remote@.len(),
        forall|i: int|
            0 <= i < remote@.len() ==> parsed_from(
                SyncChangeView::Changed(#[trigger] remote@[i]@),
                opt_task_views(r@)[i],
            ),
{
    let mut r: Vec<Option<Task>> = Vec::new();
    let mut i: usize = 0;
    while i < remote.len()
        invariant
            i <= remote.len(),
            r@.len() == i,
            forall|j: int| 0 <= j < remote@.len() ==> vcalendar_ok(#[trigger] remote@[j].ical_body@),
            forall|j: int|
                0 <= j < i ==> parsed_from(
                    SyncChangeView::Changed(#[trigger] remote@[j]@),
                    opt_task_views(r@)[j],
                ),
        decreases remote.len() - i,
    {
        assert(vcalendar_ok(remote@[i as int].ical_body@));
        let p = vcalendar_to_task(remote[i].ical_body.as_str());
        let ghost before = r@;
        r.push(p);
        assert forall|j: int| 0 <= j < i + 1 implies parsed_from(
            SyncChangeView::Changed(#[trigger] remote@[j]@),
            opt_task_views(r@)[j],
        ) by {
            if j < i {
                assert(opt_task_views(r@)[j] == opt_task_views(before)[j]);
            }
        }
        i = i + 1;
    }
    r
}

fn full_one(pulled: &mut Vec<Task>, matched: &mut Vec<Uuid>, tasks: &[Task], idx: &HashMap<u128, usize>, rv: &RemoteVtodo, p: &Option<Task>)
    requires
        id_index_ok(idx@, task_views(tasks@)),
    ensures
        ({
            let st = full_step(
                FullState { pulled: task_views(old(pulled)@), matched: old(matched)@ },
                task_views(tasks@),
                rv@,
                match p {
                    Some(t) => Some(t@),
                    None => None,
                },
            );
            task_views(final(pulled)@) == st.pulled && final(matched)@ == st.matched
        }),
{
    let ghost p0 = pulled@;
    match p {
        None => {},
        Some(t) => {
            matched.push(t.id);
            if !t.state.is_done() {
                match last_with_id_in(idx, tasks, t.id) {
                    Some(i) => {
                        let l = &tasks[i];
                        if !is_locally_changed(l) && (l.sync_hash.is_none() || task_content_hash(l)
                            != task_content_hash(t)) {
                            let q = pull_task(Some(l), t, &rv.href, &rv.etag);
                            pulled.push(q);
                            assert(task_views(pulled@) =~= task_views(p0).push(q@));
                        }
                    },
                    None => {
                        let q = with_href(t, &rv.href, &rv.etag);
                        pulled.push(q);
                        assert(task_views(pulled@) =~= task_views(p0).push(q@));
                    },
                }
            }
        },
    }
}

fn id_in(ids: &Vec<Uuid>, id: Uuid) -> (r: bool)
    ensures
        r == ids@.contains(id),
{
    let mut i: usize = 0;
    while i < ids.len()
        invariant
            i <= ids@.len(),
            forall|j: int| 0 <= j < i ==> ids@[j] != id,
        decreases ids.len() - i,
    {
        if ids[i] == id {
            assert(ids@[i as int] == id);
            return true;
        }
        i = i + 1;
    }
    false
}

/// Reconciles a full listing (each object with its parsed task): the
/// tasks to take in, and the overwrites that put the open local tasks the
/// listing lacks on the server.
pub fn plan_full_sync(
    tasks: &[Task],
    remote: &[RemoteVtodo],
    parsed: &[Option<Task>],
    calendar_href: &str,
    now: DateTime,
) -> (r: (Vec<Task>, Vec<PushAction>))
    requires
        parsed@.len() == remote@.len(),
    ensures
        ({
            let st = full_pull(
                task_views(tasks@),
                remote_views(remote@),
                opt_task_views(parsed@),
                remote@.len() as int,
            );
            &&& task_views(r.0@) == st.pulled
            &&& push_views(r.1@) == full_push(
                task_views(tasks@),
                st.matched,
                calendar_href@,
                now,
                tasks@.len() as int,
            )
        }),
{
    let ghost tv = task_views(tasks@);
    let ghost rv = remote_views(remote@);
    let ghost pv = opt_task_views(parsed@);
    let mut pulled: Vec<Task> = Vec::new();
    let mut matched: Vec<Uuid> = Vec::new();
    let idx = id_index(tasks);
    let mut k: usize = 0;
    assert(task_views(pulled@) =~= Seq::<TaskView>::empty());
    while k < remote.len()
        invariant
            k <= remote@.len(),
            parsed@.len() == remote@.len(),
            tv == task_views(tasks@),
            id_index_ok(idx@, tv),
            rv == remote_views(remote@),
            pv == opt_task_views(parsed@),
            task_views(pulled@) == full_pull(tv, rv, pv, k as int).pulled,
            matched@ == full_pull(tv, rv, pv, k as int).matched,
        decreases remote.len() - k,
    {
        assert(rv[k as int] == remote@[k as int]@);
        full_one(&mut pulled, &mut matched, tasks, &idx, &remote[k], &parsed[k]);
        k = k + 1;
    }
    let ghost m = matched@;
    let mut acts: Vec<PushAction> = Vec::new();
    let mut i: usize = 0;
    while i < tasks.len()
        invariant
            i <= tasks@.len(),
            tv == task_views(tasks@),
            m == matched@,
            push_views(acts@) == full_push(tv, m, calendar_href@, now, i as int),
        decreases tasks.len() - i,
    {
        assert(tv[i as int] == tasks@[i as int]@);
        let t = &tasks[i];
        if !t.state.is_done() && !id_in(&matched, t.id) {
            let href = match &t.sync_href {
                Some(h) => h.clone(),
                None => vtodo_href(calendar_href, &t.id),
            };
            let a = PushAction { kind: PushKind::Overwrite, index: i, href, ical: task_to_vcalendar_at(t, now) };
            let ghost before = acts@;
            acts.push(a);
            assert(push_views(acts@) =~= push_views(before).push(a@));
        }
        i = i + 1;
    }
    (pulled, acts)
}

// ---------------------------------------------------------------------------
// After the task sync: the tasks as they now stand, and the conflicts
// ---------------------------------------------------------------------------

/// The tasks without those with the identifier.
pub open spec fn without_id(ts: Seq<TaskView>, id: Uuid) -> Seq<TaskView>
    decreases ts.len(),
{
    if ts.len() == 0 {
        seq![]
    } else {
        let rest = without_id(ts.drop_last(), id);
        if ts.last().id == id {
            rest
        } else {
            rest.push(ts.last())
        }
    }
}

pub open spec fn drop_deleted(ts: Seq<TaskView>, ds: Seq<Uuid>, k: int) -> Seq<TaskView>
    decreases k,
{
    if k <= 0 {
        ts
    } else {
        without_id(drop_deleted(ts, ds, k - 1), ds[k - 1])
    }
}

pub open spec fn put_pulled(ts: Seq<TaskView>, ps: Seq<TaskView>, k: int) -> Seq<TaskView>
    decreases k,
{
    if k <= 0 {
        ts
    } else {
        without_id(put_pulled(ts, ps, k - 1), ps[k - 1].id).push(ps[k - 1])
    }
}

/// The tasks after a sync: the deleted ones removed, each pulled one put
/// in place of the copies with its identifier, at the end.
pub open spec fn effective_spec(ts: Seq<TaskView>, ds: Seq<Uuid>, ps: Seq<TaskView>) -> Seq<TaskView> {
    put_pulled(drop_deleted(ts, ds, ds.len() as int), ps, ps.len() as int)
}

fn retain_other_ids(v: &mut Vec<Task>, id: Uuid)
    ensures
        task_views(final(v)@) == without_id(task_views(old(v)@), id),
{
    let ghost ov = task_views(v@);
    let mut out: Vec<Task> = Vec::new();
    let mut i: usize = 0;
    while i < v.len()
        invariant
            i <= v@.len(),
            ov == task_views(v@),
            task_views(out@) == without_id(ov.take(i as int), id),
        decreases v.len() - i,
    {
        assert(ov.take(i + 1).drop_last() =~= ov.take(i as int));
        assert(ov.take(i + 1).last() == v@[i as int]@);
        if v[i].id != id {
            let ghost before = out@;
            out.push(v[i].duplicate());
            assert(task_views(out@) =~= task_views(before).push(v@[i as int]@));
        }
        i = i + 1;
    }
    assert(ov.take(v@.len() as int) =~= ov);
    *v = out;
}

/// The tasks as they stand after the sync.
pub fn effective_tasks(tasks: &[Task], deleted: &[Uuid], pulled: &[Task]) -> (r: Vec<Task>)
    ensures
        task_views(r@) == effective_spec(task_views(tasks@), deleted@, task_views(pulled@)),
{
    let mut v: Vec<Task> = Vec::new();
    let mut i: usize = 0;
    while i < tasks.len()
        invariant
            i <= tasks@.len(),
            task_views(v@) == task_views(tasks@).take(i as int),
        decreases tasks.len() - i,
    {
        let ghost before = v@;
        v.push(tasks[i].duplicate());
        assert(task_views(v@) =~= task_views(before).push(tasks@[i as int]@));
        assert(task_views(v@) =~= task_views(tasks@).take(i + 1));
        i = i + 1;
    }
    assert(task_views(tasks@).take(tasks@.len() as int) =~= task_views(tasks@));
    let ghost tv = task_views(tasks@);
    let ghost pv = task_views(pulled@);
    let mut k: usize = 0;
    while k < deleted.len()
        invariant
            k <= deleted@.len(),
            task_views(v@) == drop_deleted(tv, deleted@, k as int),
        decreases deleted.len() - k,
    {
        retain_other_ids(&mut v, deleted[k]);
        k = k + 1;
    }
    let mut j: usize = 0;
    while j < pulled.len()
        invariant
            j <= pulled@.len(),
            pv == task_views(pulled@),
            task_views(v@) == put_pulled(drop_deleted(tv, deleted@, deleted@.len() as int), pv, j as int),
        decreases pulled.len() - j,
    {
        retain_other_ids(&mut v, pulled[j].id);
        let ghost before = v@;
        v.push(pulled[j].duplicate());
        assert(task_views(v@) =~= task_views(before).push(pv[j as int]));
        j = j + 1;
    }
    v
}

/// A task synced with an href inside the calendar `cal`.
pub open spec fn in_calendar(t: TaskView, cal: Seq<char>) -> bool {
    t.sync_href matches Some(h) && find_sub(h, cal, 0) is Some
}

/// The local task of the calendar whose href is `href` (the last such).
pub open spec fn local_for_href(ts: Seq<TaskView>, cal: Seq<char>, href: Seq<char>) -> Option<TaskView>
    decreases ts.len(),
{
    if ts.len() == 0 {
        None
    } else if in_calendar(ts.last(), cal) && ts.last().sync_href == Some(href) {
        Some(ts.last())
    } else {
        local_for_href(ts.drop_last(), cal, href)
    }
}

/// The conflict a listed remote object shows, if any.
pub open spec fn remote_conflict(
    ts: Seq<TaskView>,
    cal: Seq<char>,
    href: Seq<char>,
    p: Option<TaskView>,
) -> Option<ConflictView> {
    match p {
        None => None,
        Some(t) => if state_is_done(t.state) {
            None
        } else {
            match local_for_href(ts, cal, href) {
                Some(l) => if keyword_of(l.state) != keyword_of(t.state) {
                    Some(
                        ConflictView::StateMismatch {
                            task_id: l.id,
                            title: l.title,
                            href,
                            local_state: keyword_of(l.state),
                            remote_state: keyword_of(t.state),
                        },
                    )
                } else {
                    None
                },
                None => Some(
                    ConflictView::RemoteOnly { task: TaskView { sync_href: Some(href), ..t }, href },
                ),
            }
        },
    }
}

pub open spec fn remote_conflicts(
    ts: Seq<TaskView>,
    cal: Seq<char>,
    rs: Seq<RemoteVtodoView>,
    ps: Seq<Option<TaskView>>,
    k: int,
) -> Seq<ConflictView>
    decreases k,
{
    if k <= 0 {
        seq![]
    } else {
        let rest = remote_conflicts(ts, cal, rs, ps, k - 1);
        match remote_conflict(ts, cal, rs[k - 1].href, ps[k - 1]) {
            Some(c) => rest.push(c),
            None => rest,
        }
    }
}

/// Whether a task after place `i` has the href.
pub open spec fn later_has_href(ts: Seq<TaskView>, i: int, h: Seq<char>) -> bool {
    exists|j: int| i < j < ts.len() && #[trigger] ts[j].sync_href == Some(h)
}

/// Open local tasks of the calendar, edited since their last sync, whose
/// href the listing lacks (each href once, by its last task), in the order
/// of the tasks.
pub open spec fn local_conflicts(
    ts: Seq<TaskView>,
    cal: Seq<char>,
    hrefs: Seq<Seq<char>>,
    k: int,
) -> Seq<ConflictView>
    decreases k,
{
    if k <= 0 {
        seq![]
    } else {
        let rest = local_conflicts(ts, cal, hrefs, k - 1);
        let t = ts[k - 1];
        match t.sync_href {
            Some(h) => if in_calendar(t, cal) && !later_has_href(ts, k - 1, h) && !hrefs.contains(h)
                && !state_is_done(t.state) && locally_changed(t) {
                rest.push(
                    ConflictView::LocalOnly {
                        task_id: t.id,
                        title: t.title,
                        local_state: keyword_of(t.state),
                        href: h,
                    },
                )
            } else {
                rest
            },
            None => rest,
        }
    }
}

pub open spec fn remote_hrefs(rs: Seq<RemoteVtodoView>) -> Seq<Seq<char>> {
    rs.map_values(|r: RemoteVtodoView| r.href)
}

fn in_calendar_exec(t: &Task, cal: &str) -> (r: bool)
    ensures
        r == in_calendar(t@, cal@),
{
    match &t.sync_href {
        Some(h) => find_sub_from(&chars_of(h.as_str()), &chars_of(cal), 0).is_some(),
        None => false,
    }
}

fn local_for_href_exec(ts: &[Task], cal: &str, href: &String) -> (r: Option<usize>)
    ensures
        match r {
            Some(i) => i < ts@.len() && local_for_href(task_views(ts@), cal@, href@) == Some(ts@[i as int]@),
            None => local_for_href(task_views(ts@), cal@, href@) is None,
        },
{
    let ghost tv = task_views(ts@);
    let mut i = ts.len();
    assert(tv.take(i as int) =~= tv);
    while i > 0
        invariant
            i <= ts@.len(),
            tv == task_views(ts@),
            local_for_href(tv.take(i as int), cal@, href@) == local_for_href(tv, cal@, href@),
        decreases i,
    {
        assert(tv.take(i as int).drop_last() =~= tv.take(i - 1));
        assert(tv.take(i as int).last() == ts@[i - 1]@);
        let same = match &ts[i - 1].sync_href {
            Some(h) => str_eq(h.as_str(), href.as_str()),
            None => false,
        };
        if in_calendar_exec(&ts[i - 1], cal) && same {
            return Some(i - 1);
        }
        i = i - 1;
    }
    None
}

fn keyword_string(s: crate::model::task::TaskState) -> (r: String)
    ensures
        r@ == keyword_of(s),
{
    string_of(chars_of(s.as_keyword()).as_slice())
}

fn remote_conflict_exec(ts: &[Task], cal: &str, href: &String, p: &Option<Task>) -> (r: Option<SyncConflict>)
    ensures
        match r {
            Some(c) => remote_conflict(task_views(ts@), cal@, href@, match p {
                Some(t) => Some(t@),
                None => None,
            }) == Some(c@),
            None => remote_conflict(task_views(ts@), cal@, href@, match p {
                Some(t) => Some(t@),
                None => None,
            }) is None,
        },
{
    match p {
        None => None,
        Some(t) => {
            if t.state.is_done() {
                return None;
            }
            match local_for_href_exec(ts, cal, href) {
                Some(i) => {
                    let l = &ts[i];
                    let lk = keyword_string(l.state);
                    let rk = keyword_string(t.state);
                    if !str_eq(lk.as_str(), rk.as_str()) {
                        Some(SyncConflict::StateMismatch {
                            task_id: l.id,
                            title: l.title.clone(),
                            href: href.clone(),
                            local_state: lk,
                            remote_state: rk,
                        })
                    } else {
                        None
                    }
                },
                None => {
                    let mut q = t.duplicate();
                    q.sync_href = Some(href.clone());
                    Some(SyncConflict::RemoteOnly { task: q, href: href.clone() })
                },
            }
        },
    }
}

fn later_has_href_exec(ts: &[Task], i: usize, h: &String) -> (r: bool)
    requires
        i < ts@.len(),
    ensures
        r == later_has_href(task_views(ts@), i as int, h@),
{
    let ghost tv = task_views(ts@);
    let n = ts.len();
    let mut j = i + 1;
    while j < ts.len()
        invariant
            i < j <= ts@.len(),
            tv == task_views(ts@),
            forall|m: int| i < m < j ==> tv[m].sync_href != Some(h@),
        decreases ts.len() - j,
    {
        assert(tv[j as int] == ts@[j as int]@);
        let same = match &ts[j].sync_href {
            Some(x) => str_eq(x.as_str(), h.as_str()),
            None => false,
        };
        if same {
            assert(tv[j as int].sync_href == Some(h@));
            return true;
        }
        j = j + 1;
    }
    false
}

/// The conflicts between the tasks as they stand after the sync and a
/// listing of the calendar `cal_href` (each object with its parsed task):
/// state mismatches and remote-only objects in listing order, then
/// local-only tasks.
pub fn detect_conflicts(
    effective: &[Task],
    cal_href: &str,
    remote: &[RemoteVtodo],
    parsed: &[Option<Task>],
) -> (r: Vec<SyncConflict>)
    requires
        parsed@.len() == remote@.len(),
    ensures
        conflict_views(r@) == remote_conflicts(
            task_views(effective@),
            cal_href@,
            remote_views(remote@),
            opt_task_views(parsed@),
            remote@.len() as int,
        ) + local_conflicts(
            task_views(effective@),
            cal_href@,
            remote_hrefs(remote_views(remote@)),
            effective@.len() as int,
        ),
{
    let ghost tv = task_views(effective@);
    let ghost rv = remote_views(remote@);
    let ghost pv = opt_task_views(parsed@);
    let mut out: Vec<SyncConflict> = Vec::new();
    let mut hrefs: Vec<String> = Vec::new();
    let mut k: usize = 0;
    while k < remote.len()
        invariant
            k <= remote@.len(),
            parsed@.len() == remote@.len(),
            tv == task_views(effective@),
            rv == remote_views(remote@),
            pv == opt_task_views(parsed@),
            conflict_views(out@) == remote_conflicts(tv, cal_href@, rv, pv, k as int),
            strs(hrefs@) == remote_hrefs(rv).take(k as int),
        decreases remote.len() - k,
    {
        assert(rv[k as int] == remote@[k as int]@);
        let ghost h0 = hrefs@;
        hrefs.push(remote[k].href.clone());
        assert(strs(hrefs@) =~= remote_hrefs(rv).take(k + 1)) by {
            assert(strs(hrefs@) =~= strs(h0).push(remote@[k as int].href@));
        }
        match remote_conflict_exec(effective, cal_href, &remote[k].href, &parsed[k]) {
            Some(c) => {
                let ghost before = out@;
                out.push(c);
                assert(conflict_views(out@) =~= conflict_views(before).push(c@));
            },
            None => {},
        }
        k = k + 1;
    }
    assert(remote_hrefs(rv).take(remote@.len() as int) =~= remote_hrefs(rv));
    let ghost hv = remote_hrefs(rv);
    let ghost head = conflict_views(out@);
    let mut i: usize = 0;
    while i < effective.len()
        invariant
            i <= effective@.len(),
            tv == task_views(effective@),
            strs(hrefs@) == hv,
            conflict_views(out@) == head + local_conflicts(tv, cal_href@, hv, i as int),
        decreases effective.len() - i,
    {
        assert(tv[i as int] == effective@[i as int]@);
        let t = &effective[i];
        match &t.sync_href {
            Some(h) => {
                if in_calendar_exec(t, cal_href) && !later_has_href_exec(effective, i, h)
                    && !seen_contains(hrefs.as_slice(), h) && !t.state.is_done()
                    && is_locally_changed(t) {
                    let c = SyncConflict::LocalOnly {
                        task_id: t.id,
                        title: t.title.clone(),
                        local_state: keyword_string(t.state),
                        href: h.clone(),
                    };
                    let ghost before = out@;
                    out.push(c);
                    assert(conflict_views(out@) =~= conflict_views(before).push(c@));
                }
            },
            None => {},
        }
        i = i + 1;
    }
    out
}

// ---------------------------------------------------------------------------
// The whole run
// ---------------------------------------------------------------------------

/// The token stored for a calendar: the first pair with its href.
pub open spec fn token_for(ts: Seq<(Seq<char>, Seq<char>)>, cal: Seq<char>, i: int) -> Option<Seq<char>>
    decreases ts.len() - i,
{
    if i < 0 || i >= ts.len() {
        None
    } else if ts[i].0 == cal {
        Some(ts[i].1)
    } else {
        token_for(ts, cal, i + 1)
    }
}

/// The sync token stored for a calendar.
pub fn find_token(sync_tokens: &[(String, String)], cal_href: &str) -> (r: Option<String>)
    ensures
        opt_str(r) == token_for(pair_views(sync_tokens@), cal_href@, 0),
{
    let ghost pv = pair_views(sync_tokens@);
    let mut i: usize = 0;
    while i < sync_tokens.len()
        invariant
            i <= sync_tokens@.len(),
            pv == pair_views(sync_tokens@),
            token_for(pv, cal_href@, i as int) == token_for(pv, cal_href@, 0),
        decreases sync_tokens.len() - i,
    {
        assert(pv[i as int] == (sync_tokens@[i as int].0@, sync_tokens@[i as int].1@));
        if str_eq(sync_tokens[i].0.as_str(), cal_href) {
            return Some(sync_tokens[i].1.clone());
        }
        i = i + 1;
    }
    None
}

/// Adds the outcome of one calendar's task sync to the run's result.
pub fn absorb_task_result(acc: &mut SyncResult, res: SyncResult)
    requires
        old(acc).pushed + res.pushed <= usize::MAX,
        old(acc).merged + res.merged <= usize::MAX,
    ensures
        final(acc).pulled@ == old(acc).pulled@ + res.pulled@,
        final(acc).pushed == old(acc).pushed + res.pushed,
        final(acc).deleted_local@ == old(acc).deleted_local@ + res.deleted_local@,
        final(acc).merged == old(acc).merged + res.merged,
        final(acc).new_sync_tokens@ == old(acc).new_sync_tokens@ + res.new_sync_tokens@,
        final(acc).errors@ == old(acc).errors@ + res.errors@,
        final(acc).pulled_events@ == old(acc).pulled_events@,
        final(acc).pushed_events == old(acc).pushed_events,
        final(acc).deleted_events@ == old(acc).deleted_events@,
        final(acc).conflicts@ == old(acc).conflicts@,
{
    let mut res = res;
    acc.pulled.append(&mut res.pulled);
    acc.pushed = acc.pushed + res.pushed;
    acc.deleted_local.append(&mut res.deleted_local);
    acc.merged = acc.merged + res.merged;
    acc.new_sync_tokens.append(&mut res.new_sync_tokens);
    acc.errors.append(&mut res.errors);
}

/// Adds the outcome of one calendar's event sync to the run's result.
pub fn absorb_event_result(acc: &mut SyncResult, res: SyncResult)
    requires
        old(acc).pushed_events + res.pushed_events <= usize::MAX,
    ensures
        final(acc).pulled_events@ == old(acc).pulled_events@ + res.pulled_events@,
        final(acc).pushed_events == old(acc).pushed_events + res.pushed_events,
        final(acc).deleted_events@ == old(acc).deleted_events@ + res.deleted_events@,
        final(acc).new_sync_tokens@ == old(acc).new_sync_tokens@ + res.new_sync_tokens@,
        final(acc).errors@ == old(acc).errors@ + res.errors@,
        final(acc).pulled@ == old(acc).pulled@,
        final(acc).pushed == old(acc).pushed,
        final(acc).deleted_local@ == old(acc).deleted_local@,
        final(acc).merged == old(acc).merged,
        final(acc).conflicts@ == old(acc).conflicts@,
{
    let mut res = res;
    acc.pulled_events.append(&mut res.pulled_events);
    acc.pushed_events = acc.pushed_events + res.pushed_events;
    acc.deleted_events.append(&mut res.deleted_events);
    acc.new_sync_tokens.append(&mut res.new_sync_tokens);
    acc.errors.append(&mut res.errors);
}

// ---------------------------------------------------------------------------
// Events
// ---------------------------------------------------------------------------

/// The content hash of an event, as `event_content_hash` computes it.
pub open spec fn ev_hash(e: EventView) -> u64 {
    crate::sync::vevent::default_hash_fields(
        e.title,
        crate::dates::chrono_display(e.start),
        crate::dates::chrono_display(e.end),
        e.all_day,
        e.location,
        e.description,
        crate::sync::vevent::status_debug(e.status),
    )
}

pub open spec fn ev_views(v: Seq<CalendarEvent>) -> Seq<EventView> {
    v.map_values(|e: CalendarEvent| e@)
}

/// The local events of the calendar `cal`, with their places in the list.
pub open spec fn events_of_cal(es: Seq<EventView>, cal: Seq<char>, k: int) -> Seq<(int, EventView)>
    decreases k,
{
    if k <= 0 {
        seq![]
    } else {
        let rest = events_of_cal(es, cal, k - 1);
        if es[k - 1].calendar_href == cal {
            rest.push((k - 1, es[k - 1]))
        } else {
            rest
        }
    }
}

/// The last local event of the calendar with the identifier.
pub open spec fn last_event_with_id(ls: Seq<(int, EventView)>, id: Uuid) -> Option<EventView>
    decreases ls.len(),
{
    if ls.len() == 0 {
        None
    } else if ls.last().1.id == id {
        Some(ls.last().1)
    } else {
        last_event_with_id(ls.drop_last(), id)
    }
}

/// A remote instance as taken in: in the calendar, with the object's href
/// when it has one, and its hash.
pub open spec fn as_pulled_event(e: EventView, cal: Seq<char>, href: Seq<char>) -> EventView {
    let e1 = EventView {
        calendar_href: cal,
        sync_href: if e.sync_href is None {
            None
        } else {
            Some(href)
        },
        ..e
    };
    EventView { sync_hash: Some(ev_hash(e1)), ..e1 }
}

pub struct EventPullState {
    pub pulled: Seq<EventView>,
    pub matched: Seq<Uuid>,
}

/// An instance of a listed object: taken in when new, or when its content
/// differs from (or was never synced with) the local copy, whose calendar
/// name it keeps.
pub open spec fn event_pull_step(
    st: EventPullState,
    local: Seq<(int, EventView)>,
    cal: Seq<char>,
    href: Seq<char>,
    e: EventView,
) -> EventPullState {
    let p = as_pulled_event(e, cal, href);
    let st1 = EventPullState { matched: st.matched.push(p.id), ..st };
    match last_event_with_id(local, p.id) {
        Some(l) => if l.sync_hash is None || ev_hash(l) != ev_hash(p) {
            EventPullState { pulled: st1.pulled.push(EventView { calendar_name: l.calendar_name, ..p }), ..st1 }
        } else {
            st1
        },
        None => EventPullState { pulled: st1.pulled.push(p), ..st1 },
    }
}

pub open spec fn event_pull_list(
    st: EventPullState,
    local: Seq<(int, EventView)>,
    cal: Seq<char>,
    href: Seq<char>,
    es: Seq<EventView>,
) -> EventPullState
    decreases es.len(),
{
    if es.len() == 0 {
        st
    } else {
        event_pull_step(event_pull_list(st, local, cal, href, es.drop_last()), local, cal, href, es.last())
    }
}

pub open spec fn event_pull(
    local: Seq<(int, EventView)>,
    cal: Seq<char>,
    rs: Seq<RemoteVtodoView>,
    inst: Seq<Seq<EventView>>,
    k: int,
) -> EventPullState
    decreases k,
{
    if k <= 0 {
        EventPullState { pulled: seq![], matched: seq![] }
    } else {
        event_pull_list(event_pull(local, cal, rs, inst, k - 1), local, cal, rs[k - 1].href, inst[k - 1])
    }
}

/// A PUT of a local event: its place in the list, href and text.
pub struct EventPush {
    pub index: usize,
    pub href: String,
    pub ical: String,
}

pub struct EventPushView {
    pub index: int,
    pub href: Seq<char>,
    pub ical: Seq<char>,
}

impl View for EventPush {
    type V = EventPushView;

    open spec fn view(&self) -> EventPushView {
        EventPushView { index: self.index as int, href: self.href@, ical: self.ical@ }
    }
}

pub open spec fn event_push_views(v: Seq<EventPush>) -> Seq<EventPushView> {
    v.map_values(|a: EventPush| a@)
}

/// The local events of the calendar the listing lacked, new or changed
/// since their last sync, put to the server.
pub open spec fn event_push(
    local: Seq<(int, EventView)>,
    matched: Seq<Uuid>,
    cal: Seq<char>,
    now: DateTime,
    k: int,
) -> Seq<EventPushView>
    decreases k,
{
    if k <= 0 {
        seq![]
    } else {
        let rest = event_push(local, matched, cal, now, k - 1);
        let (i, e) = local[k - 1];
        let changed = e.sync_hash matches Some(h) && h != ev_hash(e);
        if !matched.contains(e.id) && (e.sync_href is None || changed) {
            rest.push(
                EventPushView {
                    index: i,
                    href: match e.sync_href {
                        Some(h) => h,
                        None => ics_href(cal, e.id.value),
                    },
                    ical: crate::sync::vevent::vevent_text(e, now),
                },
            )
        } else {
            rest
        }
    }
}

fn events_of_cal_exec(es: &[CalendarEvent], cal: &str) -> (r: Vec<usize>)
    ensures
        r@.len() == events_of_cal(ev_views(es@), cal@, es@.len() as int).len(),
        forall|j: int| 0 <= j < r@.len() ==> (#[trigger] r@[j]) < es@.len() && events_of_cal(ev_views(es@), cal@, es@.len() as int)[j] == (r@[j] as int, es@[r@[j] as int]@),
{
    let ghost ev = ev_views(es@);
    let mut r: Vec<usize> = Vec::new();
    let mut i: usize = 0;
    while i < es.len()
        invariant
            i <= es@.len(),
            ev == ev_views(es@),
            r@.len() == events_of_cal(ev, cal@, i as int).len(),
            forall|j: int| 0 <= j < r@.len() ==> (#[trigger] r@[j]) < i && events_of_cal(ev, cal@, i as int)[j] == (r@[j] as int, es@[r@[j] as int]@),
        decreases es.len() - i,
    {
        assert(ev[i as int] == es@[i as int]@);
        if str_eq(es[i].calendar_href.as_str(), cal) {
            r.push(i);
        }
        i = i + 1;
    }
    r
}

pub open spec fn picked(es: Seq<CalendarEvent>, idx: Seq<usize>) -> Seq<(int, EventView)> {
    idx.map_values(|i: usize| (i as int, es[i as int]@))
}

fn last_event_exec(es: &[CalendarEvent], idx: &Vec<usize>, id: Uuid) -> (r: Option<usize>)
    requires
        forall|j: int| 0 <= j < idx@.len() ==> (#[trigger] idx@[j]) < es@.len(),
    ensures
        match r {
            Some(i) => i < es@.len() && last_event_with_id(picked(es@, idx@), id) == Some(es@[i as int]@),
            None => last_event_with_id(picked(es@, idx@), id) is None,
        },
{
    let ghost pv = picked(es@, idx@);
    let mut k = idx.len();
    assert(pv.take(k as int) =~= pv);
    while k > 0
        invariant
            k <= idx@.len(),
            pv == picked(es@, idx@),
            forall|j: int| 0 <= j < idx@.len() ==> (#[trigger] idx@[j]) < es@.len(),
            last_event_with_id(pv.take(k as int), id) == last_event_with_id(pv, id),
        decreases k,
    {
        assert(pv.take(k as int).drop_last() =~= pv.take(k - 1));
        let i = idx[k - 1];
        assert(pv.take(k as int).last() == (i as int, es@[i as int]@));
        if es[i].id == id {
            return Some(i);
        }
        k = k - 1;
    }
    None
}

fn pull_event_one(
    pulled: &mut Vec<CalendarEvent>,
    matched: &mut Vec<Uuid>,
    es: &[CalendarEvent],
    idx: &Vec<usize>,
    cal: &str,
    href: &String,
    e: &CalendarEvent,
)
    requires
        forall|j: int| 0 <= j < idx@.len() ==> (#[trigger] idx@[j]) < es@.len(),
    ensures
        ({
            let st = event_pull_step(
                EventPullState { pulled: ev_views(old(pulled)@), matched: old(matched)@ },
                picked(es@, idx@),
                cal@,
                href@,
                e@,
            );
            ev_views(final(pulled)@) == st.pulled && final(matched)@ == st.matched
        }),
{
    let mut p = e.duplicate();
    p.calendar_href = string_of(chars_of(cal).as_slice());
    if p.sync_href.is_some() {
        p.sync_href = Some(href.clone());
    }
    let h = crate::sync::vevent::event_content_hash(&p);
    p.sync_hash = Some(h);
    assert(p@ == as_pulled_event(e@, cal@, href@));
    matched.push(p.id);
    let ghost p0 = pulled@;
    match last_event_exec(es, idx, p.id) {
        Some(i) => {
            let l = &es[i];
            if l.sync_hash.is_none() || crate::sync::vevent::event_content_hash(l) != h {
                p.calendar_name = l.calendar_name.clone();
                pulled.push(p);
                assert(ev_views(pulled@) =~= ev_views(p0).push(pulled@.last()@));
            }
        },
        None => {
            pulled.push(p);
            assert(ev_views(pulled@) =~= ev_views(p0).push(pulled@.last()@));
        },
    }
}

/// Reconciles the events of one calendar with a listing of its objects,
/// each with the instances read from it: the events to take in, and the
/// PUTs of local events the listing lacked that are new or changed.
pub fn plan_event_sync(
    local_events: &[CalendarEvent],
    cal_href: &str,
    remote: &[RemoteVtodo],
    instances: &[Vec<CalendarEvent>],
    now: DateTime,
) -> (r: (Vec<CalendarEvent>, Vec<EventPush>))
    requires
        instances@.len() == remote@.len(),
    ensures
        ({
            let local = events_of_cal(ev_views(local_events@), cal_href@, local_events@.len() as int);
            let st = event_pull(
                local,
                cal_href@,
                remote_views(remote@),
                instances@.map_values(|v: Vec<CalendarEvent>| ev_views(v@)),
                remote@.len() as int,
            );
            &&& ev_views(r.0@) == st.pulled
            &&& event_push_views(r.1@) == event_push(local, st.matched, cal_href@, now, local.len() as int)
        }),
{
    let idx = events_of_cal_exec(local_events, cal_href);
    let ghost local = events_of_cal(ev_views(local_events@), cal_href@, local_events@.len() as int);
    assert(picked(local_events@, idx@) =~= local);
    let ghost rv = remote_views(remote@);
    let ghost iv = instances@.map_values(|v: Vec<CalendarEvent>| ev_views(v@));
    let mut pulled: Vec<CalendarEvent> = Vec::new();
    let mut matched: Vec<Uuid> = Vec::new();
    assert(ev_views(pulled@) =~= Seq::<EventView>::empty());
    let mut k: usize = 0;
    while k < remote.len()
        invariant
            k <= remote@.len(),
            instances@.len() == remote@.len(),
            rv == remote_views(remote@),
            iv == instances@.map_values(|v: Vec<CalendarEvent>| ev_views(v@)),
            forall|j: int| 0 <= j < idx@.len() ==> (#[trigger] idx@[j]) < local_events@.len(),
            picked(local_events@, idx@) == local,
            ev_views(pulled@) == event_pull(local, cal_href@, rv, iv, k as int).pulled,
            matched@ == event_pull(local, cal_href@, rv, iv, k as int).matched,
        decreases remote.len() - k,
    {
        assert(rv[k as int] == remote@[k as int]@);
        assert(iv[k as int] == ev_views(instances@[k as int]@));
        let list = &instances[k];
        let ghost lv = ev_views(list@);
        let ghost st0 = event_pull(local, cal_href@, rv, iv, k as int);
        let mut j: usize = 0;
        while j < list.len()
            invariant
                j <= list@.len(),
                k < remote@.len(),
                lv == ev_views(list@),
                forall|m: int| 0 <= m < idx@.len() ==> (#[trigger] idx@[m]) < local_events@.len(),
                picked(local_events@, idx@) == local,
                ev_views(pulled@) == event_pull_list(st0, local, cal_href@, remote@[k as int].href@, lv.take(j as int)).pulled,
                matched@ == event_pull_list(st0, local, cal_href@, remote@[k as int].href@, lv.take(j as int)).matched,
            decreases list.len() - j,
        {
            assert(lv.take(j + 1).drop_last() =~= lv.take(j as int));
            assert(lv.take(j + 1).last() == list@[j as int]@);
            pull_event_one(&mut pulled, &mut matched, local_events, &idx, cal_href, &remote[k].href, &list[j]);
            j = j + 1;
        }
        assert(lv.take(list@.len() as int) =~= lv);
        k = k + 1;
    }
    let ghost m = matched@;
    let mut acts: Vec<EventPush> = Vec::new();
    let mut q: usize = 0;
    while q < idx.len()
        invariant
            q <= idx@.len(),
            m == matched@,
            forall|j: int| 0 <= j < idx@.len() ==> (#[trigger] idx@[j]) < local_events@.len(),
            picked(local_events@, idx@) == local,
            event_push_views(acts@) == event_push(local, m, cal_href@, now, q as int),
        decreases idx.len() - q,
    {
        let i = idx[q];
        assert(local[q as int] == (i as int, local_events@[i as int]@));
        let e = &local_events[i];
        let lh = crate::sync::vevent::event_content_hash(e);
        let changed = match e.sync_hash {
            Some(h) => h != lh,
            None => false,
        };
        if !id_in(&matched, e.id) && (e.sync_href.is_none() || changed) {
            let href = match &e.sync_href {
                Some(h) => h.clone(),
                None => crate::sync::caldav::vevent_href(cal_href, &e.id),
            };
            let a = EventPush { index: i, href, ical: crate::sync::vevent::event_to_vcalendar_at(e, now) };
            let ghost before = acts@;
            acts.push(a);
            assert(event_push_views(acts@) =~= event_push_views(before).push(a@));
        }
        q = q + 1;
    }
    (pulled, acts)
}

/// Records a PUT of a local event that succeeded: the event with its href
/// and hash is taken in and counted.
pub fn record_event_push_ok(result: &mut SyncResult, events: &[CalendarEvent], a: &EventPush)
    requires
        a.index < events@.len(),
        old(result).pushed_events < usize::MAX,
    ensures
        ev_views(final(result).pulled_events@) == ev_views(old(result).pulled_events@).push(
            EventView {
                sync_href: Some(a.href@),
                sync_hash: Some(ev_hash(events@[a.index as int]@)),
                ..events@[a.index as int]@
            },
        ),
        final(result).pushed_events == old(result).pushed_events + 1,
        final(result).errors@ == old(result).errors@,
{
    let e = &events[a.index];
    let h = crate::sync::vevent::event_content_hash(e);
    let mut u = e.duplicate();
    u.sync_href = Some(a.href.clone());
    u.sync_hash = Some(h);
    let ghost before = result.pulled_events@;
    result.pulled_events.push(u);
    assert(ev_views(result.pulled_events@) =~= ev_views(before).push(u@));
    result.pushed_events = result.pushed_events + 1;
}

/// Records a PUT of a local event that failed.
pub fn record_event_push_err(result: &mut SyncResult, events: &[CalendarEvent], a: &EventPush, err: &str)
    requires
        a.index < events@.len(),
    ensures
        strs(final(result).errors@) == strs(old(result).errors@).push(
            "Failed to push event "@ + events@[a.index as int].title@ + ": "@ + err@,
        ),
        final(result).pulled_events@ == old(result).pulled_events@,
        final(result).pushed_events == old(result).pushed_events,
{
    let mut v = chars_of("Failed to push event ");
    push_str(&mut v, events[a.index].title.as_str());
    push_str(&mut v, ": ");
    push_str(&mut v, err);
    let m = string_of(v.as_slice());
    let ghost before = result.errors@;
    result.errors.push(m);
    assert(strs(result.errors@) =~= strs(before).push(m@));
}

/// The events are those of the text, read on some day with some fresh
/// identifier.
pub open spec fn read_from(body: Seq<char>, es: Seq<EventView>) -> bool {
    exists|today: crate::dates::Date, fresh: Uuid| #[trigger] crate::sync::vevent::events_spec(body, today.num(), fresh) == Some(es)
}

/// Reads the instances of each listed object seen from `today`, objects
/// without UID getting fresh identifiers; `None` when one of them cannot
/// be read.
pub fn parse_remote_events(remote: &[RemoteVtodo]) -> (r: Option<Vec<Vec<CalendarEvent>>>)
    ensures
        r matches Some(v) ==> v@.len() == remote@.len() && forall|i: int|
            0 <= i < remote@.len() ==> #[trigger] read_from(remote@[i].ical_body@, ev_views(v@[i]@)),
{
    let today = crate::dates::Date::today();
    let fresh = Uuid::new_v4();
    let mut out: Vec<Vec<CalendarEvent>> = Vec::new();
    let mut i: usize = 0;
    while i < remote.len()
        invariant
            i <= remote@.len(),
            out@.len() == i,
            forall|j: int| 0 <= j < i ==> #[trigger] read_from(remote@[j].ical_body@, ev_views(out@[j]@)),
        decreases remote.len() - i,
    {
        match crate::sync::vevent::vcalendar_to_events_with(remote[i].ical_body.as_str(), today, fresh) {
            Some(v) => {
                let ghost before = out@;
                out.push(v);
                assert(forall|j: int| 0 <= j < i ==> out@[j] == before[j]);
            },
            None => {
                return None;
            },
        }
        i = i + 1;
    }
    Some(out)
}


// ---------------------------------------------------------------------------
// Laws of a sync run
// ---------------------------------------------------------------------------

/// Convergence of a push: after a successful request the task as
/// recorded asks for no further request in the next plan.
pub proof fn lemma_pushed_is_settled(
    kind: PushKind,
    t: TaskView,
    href: Seq<char>,
    etag: Option<Seq<char>>,
    i: int,
    seen: Seq<Seq<char>>,
    cal: Seq<char>,
    now: DateTime,
)
    requires
        kind == PushKind::Delete <==> state_is_done(t.state),
        kind == PushKind::Update ==> t.sync_href is Some,
    ensures
        push_for(pushed_task(kind, t, href, etag), i, seen, cal, now) is None,
{
    let q = pushed_task(kind, t, href, etag);
    lemma_hash_ignores_sync_data(t, q.sync_href, q.sync_hash, q.sync_uid, q.sync_etag);
    assert(q == TaskView { sync_href: q.sync_href, sync_hash: q.sync_hash, sync_uid: q.sync_uid, sync_etag: q.sync_etag, ..t });
}

/// Hash after merge: a task taken in from the server stores the hash of
/// exactly what is stored, so the next run sees it unchanged.
pub proof fn lemma_pulled_is_settled(local: Option<TaskView>, p: TaskView, href: Seq<char>, etag: Seq<char>)
    ensures
        settled(pulled_task(local, p, href, etag)),
        !locally_changed(pulled_task(local, p, href, etag)),
        pulled_task(local, p, href, etag).sync_href == Some(href),
{
    let base = match local {
        Some(l) => pull_merge(l, p),
        None => p,
    };
    lemma_as_pulled_settled(base, href, etag);
}

proof fn lemma_as_pulled_settled(base: TaskView, href: Seq<char>, etag: Seq<char>)
    ensures
        settled(as_pulled(base, href, etag)),
{
    let h = TaskView { sync_href: Some(href), sync_etag: Some(etag), ..base };
    lemma_hash_ignores_sync_data(h, h.sync_href, Some(content_hash(h)), h.sync_uid, h.sync_etag);
    assert(as_pulled(base, href, etag) == TaskView { sync_hash: Some(content_hash(h)), ..h });
}

/// Convergence of a pull: a task taken in from the server asks for no
/// request in the next push plan.
pub proof fn lemma_pulled_needs_no_push(
    local: Option<TaskView>,
    p: TaskView,
    href: Seq<char>,
    etag: Seq<char>,
    i: int,
    seen: Seq<Seq<char>>,
    cal: Seq<char>,
    now: DateTime,
)
    requires
        !state_is_done(p.state),
    ensures
        push_for(pulled_task(local, p, href, etag), i, seen, cal, now) is None,
{
    lemma_pulled_is_settled(local, p, href, etag);
}

/// Hash after merge, for a whole run of remote changes: every task the run
/// takes in stores the hash of its own content.
pub proof fn lemma_pulled_all_settled(
    tasks: Seq<TaskView>,
    cs: Seq<SyncChangeView>,
    ps: Seq<Option<TaskView>>,
    k: int,
)
    requires
        0 <= k <= cs.len(),
        ps.len() == cs.len(),
    ensures
        forall|j: int|
            0 <= j < apply_changes(tasks, cs, ps, k).pulled.len() ==> settled(
                #[trigger] apply_changes(tasks, cs, ps, k).pulled[j],
            ),
    decreases k,
{
    if k > 0 {
        lemma_pulled_all_settled(tasks, cs, ps, k - 1);
        let st = apply_changes(tasks, cs, ps, k - 1);
        match cs[k - 1] {
            SyncChangeView::Changed(rv) => match ps[k - 1] {
                Some(t) => {
                    lemma_pulled_is_settled(last_with_id(tasks, t.id), t, rv.href, rv.etag);
                },
                None => {},
            },
            SyncChangeView::Deleted(_) => {},
        }
        let st2 = apply_changes(tasks, cs, ps, k);
        assert forall|j: int| 0 <= j < st2.pulled.len() implies settled(#[trigger] st2.pulled[j]) by {
            if j < st.pulled.len() {
                assert(st2.pulled[j] == st.pulled[j]);
            }
        }
    }
}

/// No silent data loss: a remote change never deletes or overwrites a
/// local task edited since its last sync. A deletion takes only tasks that
/// were not edited and gives each edited one with that href a local-only
/// conflict; a change to an object whose local copy was edited takes
/// nothing in and gives a conflict.
pub proof fn lemma_no_silent_loss(
    st: RemoteState,
    tasks: Seq<TaskView>,
    c: SyncChangeView,
    p: Option<TaskView>,
)
    ensures
        c is Deleted ==> {
            let h = c->Deleted_0;
            let st2 = change_step(st, tasks, c, p);
            &&& forall|x: TaskView|
                #[trigger] tasks.contains(x) && x.sync_href == Some(h) && locally_changed(x)
                    ==> st2.conflicts.contains(deleted_conflict(x, h))
            &&& forall|id: Uuid|
                #[trigger] st2.deleted.contains(id) && !st.deleted.contains(id) ==> exists|i: int|
                    0 <= i < tasks.len() && (#[trigger] tasks[i]).id == id && tasks[i].sync_href
                        == Some(h) && !locally_changed(tasks[i])
        },
        (c is Changed && p is Some && !state_is_done(p->0.state) && last_with_id(tasks, p->0.id) is Some
            && locally_changed(last_with_id(tasks, p->0.id)->0)) ==> {
            let st2 = change_step(st, tasks, c, p);
            &&& st2.pulled == st.pulled
            &&& st2.deleted == st.deleted
            &&& st2.conflicts == st.conflicts.push(
                mismatch_conflict(last_with_id(tasks, p->0.id)->0, p->0, c->Changed_0.href),
            )
        },
{
    if c is Deleted {
        lemma_deletion_keeps_edits(st, tasks, c->Deleted_0, p);
    }
}

proof fn lemma_deletion_keeps_edits(st: RemoteState, tasks: Seq<TaskView>, h: Seq<char>, p: Option<TaskView>)
    ensures
        ({
            let st2 = change_step(st, tasks, SyncChangeView::Deleted(h), p);
            &&& forall|x: TaskView|
                #[trigger] tasks.contains(x) && x.sync_href == Some(h) && locally_changed(x)
                    ==> st2.conflicts.contains(deleted_conflict(x, h))
            &&& forall|id: Uuid|
                #[trigger] st2.deleted.contains(id) && !st.deleted.contains(id) ==> exists|i: int|
                    0 <= i < tasks.len() && (#[trigger] tasks[i]).id == id && tasks[i].sync_href
                        == Some(h) && !locally_changed(tasks[i])
        }),
{
    lemma_kept_conflicts(tasks, h);
    let st2 = change_step(st, tasks, SyncChangeView::Deleted(h), p);
    let kc = kept_conflicts(tasks, h);
    let ids = ids_with_href(tasks, h);
    assert(st2.conflicts == st.conflicts + kc);
    assert(st2.deleted == st.deleted + ids);
    assert forall|x: TaskView|
        #[trigger] tasks.contains(x) && x.sync_href == Some(h) && locally_changed(x)
            implies st2.conflicts.contains(deleted_conflict(x, h)) by {
        assert(kc.contains(deleted_conflict(x, h)));
        let i = choose|i: int| 0 <= i < kc.len() && kc[i] == deleted_conflict(x, h);
        assert(st2.conflicts[st.conflicts.len() + i] == deleted_conflict(x, h));
    }
    assert forall|id: Uuid| #[trigger] st2.deleted.contains(id) && !st.deleted.contains(id) implies exists|i: int|
        0 <= i < tasks.len() && (#[trigger] tasks[i]).id == id && tasks[i].sync_href == Some(h)
            && !locally_changed(tasks[i]) by {
        let i = choose|i: int| 0 <= i < st2.deleted.len() && st2.deleted[i] == id;
        if i < st.deleted.len() {
            assert(st.deleted[i] == id);
        } else {
            assert(ids[i - st.deleted.len()] == id);
            assert(ids.contains(id));
            lemma_ids_with_href(tasks, h, id);
        }
    }
}

proof fn lemma_kept_conflicts(ts: Seq<TaskView>, h: Seq<char>)
    ensures
        forall|x: TaskView|
            #[trigger] ts.contains(x) && x.sync_href == Some(h) && locally_changed(x) ==> kept_conflicts(
                ts,
                h,
            ).contains(deleted_conflict(x, h)),
    decreases ts.len(),
{
    if ts.len() > 0 {
        let t = ts.drop_last();
        lemma_kept_conflicts(t, h);
        let rest = kept_conflicts(t, h);
        assert forall|x: TaskView|
            #[trigger] ts.contains(x) && x.sync_href == Some(h) && locally_changed(x) implies kept_conflicts(
                ts,
                h,
            ).contains(deleted_conflict(x, h)) by {
            let i = choose|i: int| 0 <= i < ts.len() && ts[i] == x;
            if i == ts.len() - 1 {
                assert(rest.push(deleted_conflict(x, h))[rest.len() as int] == deleted_conflict(x, h));
            } else {
                assert(t[i] == x);
                assert(t.contains(x));
                let j = choose|j: int| 0 <= j < rest.len() && rest[j] == deleted_conflict(x, h);
                if ts.last().sync_href == Some(h) && locally_changed(ts.last()) {
                    assert(rest.push(deleted_conflict(ts.last(), h))[j] == deleted_conflict(x, h));
                }
            }
        }
    }
}

proof fn lemma_ids_with_href(ts: Seq<TaskView>, h: Seq<char>, id: Uuid)
    requires
        ids_with_href(ts, h).contains(id),
    ensures
        exists|i: int|
            0 <= i < ts.len() && (#[trigger] ts[i]).id == id && ts[i].sync_href == Some(h)
                && !locally_changed(ts[i]),
    decreases ts.len(),
{
    let t = ts.drop_last();
    let rest = ids_with_href(t, h);
    if rest.contains(id) {
        lemma_ids_with_href(t, h, id);
        let i = choose|i: int|
            0 <= i < t.len() && (#[trigger] t[i]).id == id && t[i].sync_href == Some(h)
                && !locally_changed(t[i]);
        assert(ts[i] == t[i]);
    } else {
        let k = choose|k: int| 0 <= k < ids_with_href(ts, h).len() && ids_with_href(ts, h)[k] == id;
        assert(ts.last().sync_href == Some(h) && !locally_changed(ts.last()));
        if k < rest.len() {
            assert(rest[k] == id);
        }
        assert(ts[ts.len() - 1] == ts.last());
    }
}

/// Idempotent pull: pulling the same remote object a second time, over
/// the task the first pull gave, changes nothing (for a new task, when the
/// remote object lists its logbook in time order and no clock entry or tag
/// twice).
pub proof fn lemma_pull_idempotent(local: Option<TaskView>, p: TaskView, href: Seq<char>, etag: Seq<char>)
    requires
        local is None ==> time_sorted(p.logbook_entries) && no_repeats(p.clock_entries) && no_repeats(
            p.extra_tags,
        ),
    ensures
        pulled_task(Some(pulled_task(local, p, href, etag)), p, href, etag) == pulled_task(local, p, href, etag),
{
    let base = match local {
        Some(l) => pull_merge(l, p),
        None => p,
    };
    match local {
        Some(l) => {
            lemma_sorted_union_again(p.logbook_entries, l.logbook_entries);
            lemma_union_twice(p.clock_entries, l.clock_entries);
            lemma_union_twice(p.extra_tags, l.extra_tags);
        },
        None => {
            lemma_sorted_union_again(p.logbook_entries, p.logbook_entries);
            lemma_union_self(p.clock_entries);
            lemma_union_self(p.extra_tags);
        },
    }
    lemma_merge_fixed(base, p);
    lemma_merge_ignores_sync(as_pulled(base, href, etag), base, p);
}

proof fn lemma_merge_fixed(base: TaskView, p: TaskView)
    requires
        base == (TaskView {
            id: base.id,
            project: base.project,
            extra_tags: base.extra_tags,
            logbook_entries: base.logbook_entries,
            clock_entries: base.clock_entries,
            ..p
        }),
        p.project is Some ==> base.project == p.project,
        sorted_union(p.logbook_entries, base.logbook_entries) == base.logbook_entries,
        union_list(p.clock_entries, base.clock_entries) == base.clock_entries,
        tag_union(p.extra_tags, base.extra_tags) == base.extra_tags,
    ensures
        pull_merge(base, p) == base,
{
}

proof fn lemma_merge_ignores_sync(a: TaskView, b: TaskView, p: TaskView)
    requires
        a.id == b.id,
        a.project == b.project,
        a.extra_tags == b.extra_tags,
        a.logbook_entries == b.logbook_entries,
        a.clock_entries == b.clock_entries,
    ensures
        pull_merge(a, p) == pull_merge(b, p),
{
}

proof fn lemma_without_id_sub(ts: Seq<TaskView>, id: Uuid, x: TaskView)
    requires
        without_id(ts, id).contains(x),
    ensures
        ts.contains(x),
        x.id != id,
    decreases ts.len(),
{
    if ts.len() > 0 {
        let rest = without_id(ts.drop_last(), id);
        if ts.last().id != id && x == ts.last() {
            assert(ts[ts.len() - 1] == x);
        } else {
            if ts.last().id != id {
                let rp = rest.push(ts.last());
                let i = choose|i: int| 0 <= i < rp.len() && rp[i] == x;
                assert(i < rest.len());
                assert(rest[i] == x);
            }
            assert(rest.contains(x));
            lemma_without_id_sub(ts.drop_last(), id, x);
            let j = choose|j: int| 0 <= j < ts.drop_last().len() && ts.drop_last()[j] == x;
            assert(ts[j] == x);
        }
    }
}

proof fn lemma_without_id_keeps(ts: Seq<TaskView>, id: Uuid, x: TaskView)
    requires
        ts.contains(x),
        x.id != id,
    ensures
        without_id(ts, id).contains(x),
    decreases ts.len(),
{
    let rest = without_id(ts.drop_last(), id);
    if x == ts.last() {
        assert(rest.push(x)[rest.len() as int] == x);
    } else {
        let i = choose|i: int| 0 <= i < ts.len() && ts[i] == x;
        assert(i < ts.len() - 1);
        assert(ts.drop_last()[i] == x);
        lemma_without_id_keeps(ts.drop_last(), id, x);
        if ts.last().id != id {
            let j = choose|j: int| 0 <= j < rest.len() && rest[j] == x;
            assert(rest.push(ts.last())[j] == x);
        }
    }
}

proof fn lemma_drop_deleted_sub(ts: Seq<TaskView>, ds: Seq<Uuid>, k: int, x: TaskView)
    requires
        0 <= k <= ds.len(),
        drop_deleted(ts, ds, k).contains(x),
    ensures
        ts.contains(x),
        !ds.take(k).contains(x.id),
    decreases k,
{
    if k > 0 {
        lemma_without_id_sub(drop_deleted(ts, ds, k - 1), ds[k - 1], x);
        lemma_drop_deleted_sub(ts, ds, k - 1, x);
        assert(ds.take(k) =~= ds.take(k - 1).push(ds[k - 1]));
    } else {
        assert(ds.take(0) =~= Seq::<Uuid>::empty());
    }
}

proof fn lemma_put_pulled_sub(base: Seq<TaskView>, ps: Seq<TaskView>, k: int, x: TaskView)
    requires
        0 <= k <= ps.len(),
        put_pulled(base, ps, k).contains(x),
    ensures
        base.contains(x) || ps.contains(x),
    decreases k,
{
    if k > 0 {
        let w = without_id(put_pulled(base, ps, k - 1), ps[k - 1].id);
        if x == ps[k - 1] {
        } else {
            let wp = w.push(ps[k - 1]);
            let i = choose|i: int| 0 <= i < wp.len() && wp[i] == x;
            assert(i < w.len() && w[i] == x);
            lemma_without_id_sub(put_pulled(base, ps, k - 1), ps[k - 1].id, x);
            lemma_put_pulled_sub(base, ps, k - 1, x);
        }
    }
}

proof fn lemma_put_pulled_has(base: Seq<TaskView>, ps: Seq<TaskView>, k: int, j: int)
    requires
        0 <= j < k <= ps.len(),
        forall|i: int| j < i < k ==> (#[trigger] ps[i]).id != ps[j].id,
    ensures
        put_pulled(base, ps, k).contains(ps[j]),
    decreases k,
{
    let w = without_id(put_pulled(base, ps, k - 1), ps[k - 1].id);
    if k - 1 == j {
        assert(w.push(ps[j])[w.len() as int] == ps[j]);
    } else {
        lemma_put_pulled_has(base, ps, k - 1, j);
        assert(ps[k - 1].id != ps[j].id);
        lemma_without_id_keeps(put_pulled(base, ps, k - 1), ps[k - 1].id, ps[j]);
        let i = choose|i: int| 0 <= i < w.len() && w[i] == ps[j];
        assert(w.push(ps[k - 1])[i] == ps[j]);
    }
}

/// The tasks after a sync: each one was pulled, or stood in the list and
/// was not deleted on the server; and each pulled task stands in the list
/// unless a later pulled one has its identifier.
pub proof fn lemma_effective_tasks(ts: Seq<TaskView>, ds: Seq<Uuid>, ps: Seq<TaskView>)
    ensures
        forall|x: TaskView|
            #[trigger] effective_spec(ts, ds, ps).contains(x) ==> ps.contains(x) || (ts.contains(x)
                && !ds.contains(x.id)),
        forall|j: int|
            0 <= j < ps.len() && (forall|i: int| j < i < ps.len() ==> (#[trigger] ps[i]).id != ps[j].id)
                ==> effective_spec(ts, ds, ps).contains(#[trigger] ps[j]),
{
    let base = drop_deleted(ts, ds, ds.len() as int);
    assert forall|x: TaskView| #[trigger] effective_spec(ts, ds, ps).contains(x) implies ps.contains(x) || (
    ts.contains(x) && !ds.contains(x.id)) by {
        lemma_put_pulled_sub(base, ps, ps.len() as int, x);
        if !ps.contains(x) {
            lemma_drop_deleted_sub(ts, ds, ds.len() as int, x);
            assert(ds.take(ds.len() as int) =~= ds);
        }
    }
    assert forall|j: int|
        0 <= j < ps.len() && (forall|i: int| j < i < ps.len() ==> (#[trigger] ps[i]).id != ps[j].id)
            implies effective_spec(ts, ds, ps).contains(#[trigger] ps[j]) by {
        lemma_put_pulled_has(base, ps, ps.len() as int, j);
    }
}

/// Quiescence: when every task has been synced and has not changed since
/// (open or done), the push plan is empty.
pub proof fn lemma_push_quiescent(
    ts: Seq<TaskView>,
    seen: Seq<Seq<char>>,
    cal: Seq<char>,
    now: DateTime,
    k: int,
)
    requires
        k <= ts.len(),
        forall|i: int| 0 <= i < ts.len() ==> (#[trigger] ts[i]).sync_href is Some && settled(ts[i]),
    ensures
        push_plan(ts, seen, cal, now, k) == Seq::<PushView>::empty(),
    decreases k,
{
    if k > 0 {
        lemma_push_quiescent(ts, seen, cal, now, k - 1);
        assert(push_for(ts[k - 1], k - 1, seen, cal, now) is None);
    }
}

/// Quiescence of a pull: with no remote change, a run takes nothing in,
/// deletes nothing and raises no conflict.
pub proof fn lemma_pull_quiescent(tasks: Seq<TaskView>, cs: Seq<SyncChangeView>, ps: Seq<Option<TaskView>>)
    requires
        cs.len() == 0,
    ensures
        apply_changes(tasks, cs, ps, cs.len() as int) == (RemoteState {
            pulled: seq![],
            deleted: seq![],
            merged: 0,
            seen: seq![],
            conflicts: seq![],
        }),
{
}

} // verus!
