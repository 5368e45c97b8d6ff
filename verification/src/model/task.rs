//! Tasks: their GTD state, their priority and their fields.

use vstd::prelude::*;

use crate::model::recurrence::Recurrence;
use crate::dates::{Date, DateTime};
use crate::ids::Uuid;
use crate::text::{chars_eq_str, chars_of, str_eq};

verus! {

/// The GTD state of a task.
#[derive(Debug, Clone, Copy, PartialEq, Eq, Structural)]
pub enum TaskState {
    Todo,
    Next,
    Waiting,
    Someday,
    Done,
    Cancelled,
}

/// The org keyword of a state.
pub open spec fn keyword_of(s: TaskState) -> Seq<char> {
    match s {
        TaskState::Todo => seq!['T', 'O', 'D', 'O'],
        TaskState::Next => seq!['N', 'E', 'X', 'T'],
        TaskState::Waiting => seq!['W', 'A', 'I', 'T', 'I', 'N', 'G'],
        TaskState::Someday => seq!['S', 'O', 'M', 'E', 'D', 'A', 'Y'],
        TaskState::Done => seq!['D', 'O', 'N', 'E'],
        TaskState::Cancelled => seq!['C', 'A', 'N', 'C', 'E', 'L', 'L', 'E', 'D'],
    }
}

/// The state whose keyword is `s`, if any.
pub open spec fn state_of_keyword(s: Seq<char>) -> Option<TaskState> {
    if s == keyword_of(TaskState::Todo) {
        Some(TaskState::Todo)
    } else if s == keyword_of(TaskState::Next) {
        Some(TaskState::Next)
    } else if s == keyword_of(TaskState::Waiting) {
        Some(TaskState::Waiting)
    } else if s == keyword_of(TaskState::Someday) {
        Some(TaskState::Someday)
    } else if s == keyword_of(TaskState::Done) {
        Some(TaskState::Done)
    } else if s == keyword_of(TaskState::Cancelled) {
        Some(TaskState::Cancelled)
    } else {
        None
    }
}

/// Done and Cancelled are the finished states.
pub open spec fn state_is_done(s: TaskState) -> bool {
    s == TaskState::Done || s == TaskState::Cancelled
}

impl TaskState {
    pub fn as_keyword(&self) -> (r: &'static str)
        ensures
            r@ == keyword_of(*self),
    {
        proof {
            reveal_strlit("TODO");
            reveal_strlit("NEXT");
            reveal_strlit("WAITING");
            reveal_strlit("SOMEDAY");
            reveal_strlit("DONE");
            reveal_strlit("CANCELLED");
        }
        match self {
            TaskState::Todo => "TODO",
            TaskState::Next => "NEXT",
            TaskState::Waiting => "WAITING",
            TaskState::Someday => "SOMEDAY",
            TaskState::Done => "DONE",
            TaskState::Cancelled => "CANCELLED",
        }
    }

    pub fn from_keyword(s: &str) -> (r: Option<TaskState>)
        ensures
            r == state_of_keyword(s@),
    {
        let v = chars_of(s);
        Self::from_keyword_chars(&v)
    }

    pub fn from_keyword_chars(v: &Vec<char>) -> (r: Option<TaskState>)
        ensures
            r == state_of_keyword(v@),
    {
        proof {
            reveal_strlit("TODO");
            reveal_strlit("NEXT");
            reveal_strlit("WAITING");
            reveal_strlit("SOMEDAY");
            reveal_strlit("DONE");
            reveal_strlit("CANCELLED");
        }
        assert("TODO"@ =~= keyword_of(TaskState::Todo));
        assert("NEXT"@ =~= keyword_of(TaskState::Next));
        assert("WAITING"@ =~= keyword_of(TaskState::Waiting));
        assert("SOMEDAY"@ =~= keyword_of(TaskState::Someday));
        assert("DONE"@ =~= keyword_of(TaskState::Done));
        assert("CANCELLED"@ =~= keyword_of(TaskState::Cancelled));
        if chars_eq_str(v, "TODO") {
            Some(TaskState::Todo)
        } else if chars_eq_str(v, "NEXT") {
            Some(TaskState::Next)
        } else if chars_eq_str(v, "WAITING") {
            Some(TaskState::Waiting)
        } else if chars_eq_str(v, "SOMEDAY") {
            Some(TaskState::Someday)
        } else if chars_eq_str(v, "DONE") {
            Some(TaskState::Done)
        } else if chars_eq_str(v, "CANCELLED") {
            Some(TaskState::Cancelled)
        } else {
            None
        }
    }

    pub fn is_done(&self) -> (r: bool)
        ensures
            r == state_is_done(*self),
    {
        matches!(self, TaskState::Done | TaskState::Cancelled)
    }

    pub fn is_active(&self) -> (r: bool)
        ensures
            r == !state_is_done(*self),
    {
        !self.is_done()
    }
}

/// Reading a state's keyword back gives the state.
pub proof fn lemma_keyword_roundtrip(s: TaskState)
    ensures
        state_of_keyword(keyword_of(s)) == Some(s),
{
    assert(keyword_of(TaskState::Todo) != keyword_of(TaskState::Next));
    match s {
        TaskState::Todo => {},
        TaskState::Next => {
            assert(keyword_of(TaskState::Next)[0] != keyword_of(TaskState::Todo)[0]);
        },
        TaskState::Waiting => {
            assert(keyword_of(TaskState::Waiting)[0] != keyword_of(TaskState::Todo)[0]);
            assert(keyword_of(TaskState::Waiting)[0] != keyword_of(TaskState::Next)[0]);
        },
        TaskState::Someday => {
            assert(keyword_of(TaskState::Someday)[0] != keyword_of(TaskState::Todo)[0]);
            assert(keyword_of(TaskState::Someday)[0] != keyword_of(TaskState::Next)[0]);
            assert(keyword_of(TaskState::Someday)[0] != keyword_of(TaskState::Waiting)[0]);
        },
        TaskState::Done => {
            assert(keyword_of(TaskState::Done)[0] != keyword_of(TaskState::Todo)[0]);
            assert(keyword_of(TaskState::Done)[0] != keyword_of(TaskState::Next)[0]);
            assert(keyword_of(TaskState::Done)[0] != keyword_of(TaskState::Waiting)[0]);
            assert(keyword_of(TaskState::Done)[0] != keyword_of(TaskState::Someday)[0]);
        },
        TaskState::Cancelled => {
            assert(keyword_of(TaskState::Cancelled)[0] != keyword_of(TaskState::Todo)[0]);
            assert(keyword_of(TaskState::Cancelled)[0] != keyword_of(TaskState::Next)[0]);
            assert(keyword_of(TaskState::Cancelled)[0] != keyword_of(TaskState::Waiting)[0]);
            assert(keyword_of(TaskState::Cancelled)[0] != keyword_of(TaskState::Someday)[0]);
            assert(keyword_of(TaskState::Cancelled)[0] != keyword_of(TaskState::Done)[0]);
        },
    }
}

/// Task priority, A highest.
#[derive(Debug, Clone, Copy, PartialEq, Eq, Structural)]
pub enum Priority {
    A,
    B,
    C,
}

/// The org cookie of a priority: `[#A]`, `[#B]`, `[#C]`.
pub open spec fn priority_cookie(p: Priority) -> Seq<char> {
    seq!['[', '#', priority_letter(p), ']']
}

pub open spec fn priority_letter(p: Priority) -> char {
    match p {
        Priority::A => 'A',
        Priority::B => 'B',
        Priority::C => 'C',
    }
}

/// The priority named by `s`: its letter, `#` and the letter, or its cookie.
pub open spec fn priority_of_text(s: Seq<char>) -> Option<Priority> {
    if s == seq!['A'] || s == seq!['#', 'A'] || s == priority_cookie(Priority::A) {
        Some(Priority::A)
    } else if s == seq!['B'] || s == seq!['#', 'B'] || s == priority_cookie(Priority::B) {
        Some(Priority::B)
    } else if s == seq!['C'] || s == seq!['#', 'C'] || s == priority_cookie(Priority::C) {
        Some(Priority::C)
    } else {
        None
    }
}

impl Priority {
    pub fn as_org(&self) -> (r: &'static str)
        ensures
            r@ == priority_cookie(*self),
    {
        proof {
            reveal_strlit("[#A]");
            reveal_strlit("[#B]");
            reveal_strlit("[#C]");
        }
        match self {
            Priority::A => "[#A]",
            Priority::B => "[#B]",
            Priority::C => "[#C]",
        }
    }

    pub fn from_org(s: &str) -> (r: Option<Priority>)
        ensures
            r == priority_of_text(s@),
    {
        let v = chars_of(s);
        proof {
            reveal_strlit("A");
            reveal_strlit("#A");
            reveal_strlit("[#A]");
            reveal_strlit("B");
            reveal_strlit("#B");
            reveal_strlit("[#B]");
            reveal_strlit("C");
            reveal_strlit("#C");
            reveal_strlit("[#C]");
        }
        assert("A"@ =~= seq!['A']);
        assert("#A"@ =~= seq!['#', 'A']);
        assert("[#A]"@ =~= priority_cookie(Priority::A));
        assert("B"@ =~= seq!['B']);
        assert("#B"@ =~= seq!['#', 'B']);
        assert("[#B]"@ =~= priority_cookie(Priority::B));
        assert("C"@ =~= seq!['C']);
        assert("#C"@ =~= seq!['#', 'C']);
        assert("[#C]"@ =~= priority_cookie(Priority::C));
        if chars_eq_str(&v, "A") || chars_eq_str(&v, "#A") || chars_eq_str(&v, "[#A]") {
            Some(Priority::A)
        } else if chars_eq_str(&v, "B") || chars_eq_str(&v, "#B") || chars_eq_str(&v, "[#B]") {
            Some(Priority::B)
        } else if chars_eq_str(&v, "C") || chars_eq_str(&v, "#C") || chars_eq_str(&v, "[#C]") {
            Some(Priority::C)
        } else {
            None
        }
    }
}

/// Reading a priority's cookie back gives the priority.
pub proof fn lemma_priority_roundtrip(p: Priority)
    ensures
        priority_of_text(priority_cookie(p)) == Some(p),
{
    let a = priority_cookie(Priority::A);
    let b = priority_cookie(Priority::B);
    assert(a[2] != b[2]);
    assert(priority_cookie(Priority::C)[2] != a[2]);
    assert(priority_cookie(Priority::C)[2] != b[2]);
}

/// A task.
#[derive(Debug, Clone)]
pub struct Task {
    pub id: Uuid,
    pub title: String,
    pub state: TaskState,
    pub priority: Option<Priority>,
    pub contexts: Vec<String>,
    pub scheduled: Option<Date>,
    pub deadline: Option<Date>,
    pub recurrence: Option<Recurrence>,
    pub notes: String,
    pub created: DateTime,
    pub completed: Option<DateTime>,
    pub project: Option<String>,
    pub waiting_for: Option<String>,
    pub esc: Option<u32>,
    pub delegated: Option<Date>,
    pub follow_up: Option<Date>,
    /// Tags that are not contexts (no leading `@`), kept for the org round trip.
    pub extra_tags: Vec<String>,
    /// Raw time text of the SCHEDULED timestamp (e.g. `10:00` or `10:00-11:00`).
    pub scheduled_time: Option<String>,
    /// Raw time text of the DEADLINE timestamp.
    pub deadline_time: Option<String>,
    /// The day plan date of the task.
    pub dayplan_date: Option<Date>,
    /// The spoon budget of that day plan.
    pub dayplan_budget: Option<u32>,
    /// Times of DONE transitions (habit completions).
    pub logbook_entries: Vec<DateTime>,
    /// Work sessions: start and end.
    pub clock_entries: Vec<(DateTime, DateTime)>,
    pub sync_href: Option<String>,
    pub sync_hash: Option<u64>,
    /// The CalDAV UID as the server wrote it.
    pub sync_uid: Option<String>,
    /// The CalDAV etag for conditional writes.
    pub sync_etag: Option<String>,
}

/// A task with its texts taken by their characters.
pub struct TaskView {
    pub id: Uuid,
    pub title: Seq<char>,
    pub state: TaskState,
    pub priority: Option<Priority>,
    pub contexts: Seq<Seq<char>>,
    pub scheduled: Option<Date>,
    pub deadline: Option<Date>,
    pub recurrence: Option<Recurrence>,
    pub notes: Seq<char>,
    pub created: DateTime,
    pub completed: Option<DateTime>,
    pub project: Option<Seq<char>>,
    pub waiting_for: Option<Seq<char>>,
    pub esc: Option<u32>,
    pub delegated: Option<Date>,
    pub follow_up: Option<Date>,
    pub extra_tags: Seq<Seq<char>>,
    pub scheduled_time: Option<Seq<char>>,
    pub deadline_time: Option<Seq<char>>,
    pub dayplan_date: Option<Date>,
    pub dayplan_budget: Option<u32>,
    pub logbook_entries: Seq<DateTime>,
    pub clock_entries: Seq<(DateTime, DateTime)>,
    pub sync_href: Option<Seq<char>>,
    pub sync_hash: Option<u64>,
    pub sync_uid: Option<Seq<char>>,
    pub sync_etag: Option<Seq<char>>,
}

/// The task moved to state `s` at time `now` on day `today`.
pub open spec fn state_changed(t: TaskView, s: TaskState, now: DateTime, today: Date) -> TaskView {
    let done_now = state_is_done(s) && !state_is_done(t.state);
    let reopened = !state_is_done(s) && state_is_done(t.state);
    let to_wait = s == TaskState::Waiting && t.state != TaskState::Waiting;
    let from_wait = s != TaskState::Waiting && t.state == TaskState::Waiting;
    TaskView {
        state: s,
        completed: if done_now {
            Some(now)
        } else if reopened {
            None
        } else {
            t.completed
        },
        delegated: if to_wait && t.delegated is None {
            Some(today)
        } else if from_wait {
            None
        } else {
            t.delegated
        },
        follow_up: if from_wait {
            None
        } else {
            t.follow_up
        },
        ..t
    }
}

/// The characters of an optional string.
pub open spec fn opt_str(o: Option<String>) -> Option<Seq<char>> {
    match o {
        Some(s) => Some(s@),
        None => None,
    }
}

/// The characters of each string of a list.
pub open spec fn strs(v: Seq<String>) -> Seq<Seq<char>> {
    v.map_values(|s: String| s@)
}

impl View for Task {
    type V = TaskView;

    open spec fn view(&self) -> TaskView {
        TaskView {
            id: self.id,
            title: self.title@,
            state: self.state,
            priority: self.priority,
            contexts: strs(self.contexts@),
            scheduled: self.scheduled,
            deadline: self.deadline,
            recurrence: self.recurrence,
            notes: self.notes@,
            created: self.created,
            completed: self.completed,
            project: opt_str(self.project),
            waiting_for: opt_str(self.waiting_for),
            esc: self.esc,
            delegated: self.delegated,
            follow_up: self.follow_up,
            extra_tags: strs(self.extra_tags@),
            scheduled_time: opt_str(self.scheduled_time),
            deadline_time: opt_str(self.deadline_time),
            dayplan_date: self.dayplan_date,
            dayplan_budget: self.dayplan_budget,
            logbook_entries: self.logbook_entries@,
            clock_entries: self.clock_entries@,
            sync_href: opt_str(self.sync_href),
            sync_hash: self.sync_hash,
            sync_uid: opt_str(self.sync_uid),
            sync_etag: opt_str(self.sync_etag),
        }
    }
}

/// A fresh task's fields other than its identifier and creation time.
pub open spec fn is_fresh(t: TaskView, title: Seq<char>) -> bool {
    &&& t.title == title
    &&& t.state == TaskState::Todo
    &&& t.priority is None
    &&& t.contexts.len() == 0
    &&& t.scheduled is None
    &&& t.deadline is None
    &&& t.recurrence is None
    &&& t.notes.len() == 0
    &&& t.completed is None
    &&& t.project is None
    &&& t.waiting_for is None
    &&& t.esc is None
    &&& t.delegated is None
    &&& t.follow_up is None
    &&& t.extra_tags.len() == 0
    &&& t.scheduled_time is None
    &&& t.deadline_time is None
    &&& t.dayplan_date is None
    &&& t.dayplan_budget is None
    &&& t.logbook_entries.len() == 0
    &&& t.clock_entries.len() == 0
    &&& t.sync_href is None
    &&& t.sync_hash is None
    &&& t.sync_uid is None
    &&& t.sync_etag is None
}

/// Whether `t` belongs in the "today" view on `today`: it is not finished,
/// and it is scheduled on or before `today`, or due within the next 7 days.
pub open spec fn is_today_spec(t: TaskView, today: Date) -> bool {
    !state_is_done(t.state) && ((t.scheduled matches Some(s) && s.num() <= today.num()) || (
    t.deadline matches Some(d) && 0 <= d.num() - today.num() <= 7))
}

impl Task {
    /// A new TODO task with the given title, a fresh random identifier and
    /// the current time as its creation time.
    pub fn new(title: &str) -> (r: Task)
        ensures
            is_fresh(r@, title@),
    {
        Task::with_identity(title, Uuid::new_v4(), DateTime::now())
    }

    /// A new TODO task with the given title, identifier and creation time.
    pub fn with_identity(title: &str, id: Uuid, created: DateTime) -> (r: Task)
        ensures
            is_fresh(r@, title@),
            r.id == id,
            r.created == created,
    {
        let r = Task {
            id,
            title: title.to_owned(),
            state: TaskState::Todo,
            priority: None,
            contexts: Vec::new(),
            scheduled: None,
            deadline: None,
            recurrence: None,
            notes: String::new(),
            created,
            completed: None,
            project: None,
            waiting_for: None,
            esc: None,
            delegated: None,
            follow_up: None,
            extra_tags: Vec::new(),
            scheduled_time: None,
            deadline_time: None,
            dayplan_date: None,
            dayplan_budget: None,
            logbook_entries: Vec::new(),
            clock_entries: Vec::new(),
            sync_href: None,
            sync_hash: None,
            sync_uid: None,
            sync_etag: None,
        };
        assert(r@.contexts =~= Seq::<Seq<char>>::empty());
        assert(r@.extra_tags =~= Seq::<Seq<char>>::empty());
        r
    }

    /// Marks the task done, completed now.
    pub fn complete(&mut self)
        ensures
            final(self)@ == (TaskView {
                state: TaskState::Done,
                completed: final(self)@.completed,
                ..old(self)@
            }),
            final(self)@.completed is Some,
    {
        self.state = TaskState::Done;
        self.completed = Some(DateTime::now());
    }

    /// Moves the task to `state` at time `now` (on day `today`): becoming
    /// done records the completion time and leaving done clears it;
    /// becoming WAITING records the delegation day unless one is set, and
    /// leaving WAITING clears the delegation and follow-up days.
    pub fn set_state(&mut self, state: TaskState, now: DateTime, today: Date)
        ensures
            final(self)@ == state_changed(old(self)@, state, now, today),
    {
        let old_state = self.state;
        self.state = state;
        if state.is_done() && !old_state.is_done() {
            self.completed = Some(now);
        }
        if !state.is_done() && old_state.is_done() {
            self.completed = None;
        }
        if state == TaskState::Waiting && old_state != TaskState::Waiting {
            if self.delegated.is_none() {
                self.delegated = Some(today);
            }
        }
        if state != TaskState::Waiting && old_state == TaskState::Waiting {
            self.delegated = None;
            self.follow_up = None;
        }
    }

    /// Marks the task cancelled, completed now.
    pub fn cancel(&mut self)
        ensures
            final(self)@ == (TaskView {
                state: TaskState::Cancelled,
                completed: final(self)@.completed,
                ..old(self)@
            }),
            final(self)@.completed is Some,
    {
        self.state = TaskState::Cancelled;
        self.completed = Some(DateTime::now());
    }

    /// Whether the task belongs in the "today" view.
    pub fn is_today(&self, today: Date) -> (r: bool)
        ensures
            r == is_today_spec(self@, today),
    {
        if self.state.is_done() {
            return false;
        }
        if let Some(scheduled) = self.scheduled {
            if !today.is_before(&scheduled) {
                return true;
            }
        }
        if let Some(deadline) = self.deadline {
            let days_until = deadline.days_since(&today);
            if days_until <= 7 && days_until >= 0 {
                return true;
            }
        }
        false
    }

    /// Whether one of the task's contexts is `ctx`.
    pub fn has_context(&self, ctx: &str) -> (r: bool)
        ensures
            r == self@.contexts.contains(ctx@),
    {
        let mut i: usize = 0;
        while i < self.contexts.len()
            invariant
                i <= self.contexts.len(),
                forall|k: int| 0 <= k < i ==> self.contexts@[k]@ != ctx@,
            decreases self.contexts.len() - i,
        {
            if str_eq(self.contexts[i].as_str(), ctx) {
                assert(self@.contexts[i as int] == ctx@);
                return true;
            }
            i = i + 1;
        }
        assert(!self@.contexts.contains(ctx@)) by {
            if self@.contexts.contains(ctx@) {
                let k = choose|k: int| 0 <= k < self@.contexts.len() && self@.contexts[k] == ctx@;
                assert(self.contexts@[k]@ == ctx@);
            }
        }
        false
    }
}

/// A copy of an optional string.
pub fn copy_opt_string(o: &Option<String>) -> (r: Option<String>)
    ensures
        opt_str(r) == opt_str(*o),
{
    match o {
        Some(x) => Some(x.clone()),
        None => None,
    }
}

/// A copy of a list of strings.
pub fn copy_strings(v: &Vec<String>) -> (r: Vec<String>)
    ensures
        strs(r@) == strs(v@),
{
    let mut r: Vec<String> = Vec::new();
    let mut i: usize = 0;
    while i < v.len()
        invariant
            i <= v.len(),
            strs(r@) =~= strs(v@).take(i as int),
        decreases v.len() - i,
    {
        let ghost before = r@;
        r.push(v[i].clone());
        assert(strs(r@) =~= strs(before).push(v@[i as int]@));
        i = i + 1;
    }
    assert(strs(v@).take(v.len() as int) =~= strs(v@));
    r
}

/// A copy of a list of plain values.
pub fn copy_vec<T: Copy>(v: &Vec<T>) -> (r: Vec<T>)
    ensures
        r@ == v@,
{
    let mut r: Vec<T> = Vec::new();
    let mut i: usize = 0;
    while i < v.len()
        invariant
            i <= v.len(),
            r@ == v@.take(i as int),
        decreases v.len() - i,
    {
        r.push(v[i]);
        assert(r@ =~= v@.take(i + 1));
        i = i + 1;
    }
    assert(v@.take(v.len() as int) =~= v@);
    r
}

impl Task {
    /// A copy of the task.
    pub fn duplicate(&self) -> (r: Task)
        ensures
            r@ == self@,
    {
        Task {
            id: self.id,
            title: self.title.clone(),
            state: self.state,
            priority: self.priority,
            contexts: copy_strings(&self.contexts),
            scheduled: self.scheduled,
            deadline: self.deadline,
            recurrence: self.recurrence,
            notes: self.notes.clone(),
            created: self.created,
            completed: self.completed,
            project: copy_opt_string(&self.project),
            waiting_for: copy_opt_string(&self.waiting_for),
            esc: self.esc,
            delegated: self.delegated,
            follow_up: self.follow_up,
            extra_tags: copy_strings(&self.extra_tags),
            scheduled_time: copy_opt_string(&self.scheduled_time),
            deadline_time: copy_opt_string(&self.deadline_time),
            dayplan_date: self.dayplan_date,
            dayplan_budget: self.dayplan_budget,
            logbook_entries: copy_vec(&self.logbook_entries),
            clock_entries: copy_vec(&self.clock_entries),
            sync_href: copy_opt_string(&self.sync_href),
            sync_hash: self.sync_hash,
            sync_uid: copy_opt_string(&self.sync_uid),
            sync_etag: copy_opt_string(&self.sync_etag),
        }
    }
}

} // verus!
