//! The "when" views: which open tasks are overdue, scheduled or due in a
//! range of days, and which habits are still due today.

use vstd::prelude::*;

use crate::dates::{max_day, Date};
use crate::model::habit::{completion_days, Habit, HabitView};
use crate::model::task::{state_is_done, Task, TaskView};

verus! {

/// The range of days a temporal view covers.
#[derive(Debug, Clone, Copy, PartialEq, Eq, Structural)]
pub enum DateRange {
    Today,
    Tomorrow,
    ThisWeek,
    Upcoming,
}

/// The list of a view a task lands in.
#[derive(Debug, Clone, Copy, PartialEq, Eq, Structural)]
pub enum Bucket {
    Overdue,
    Scheduled,
    Deadlined,
}

/// Where a task goes in the view of `range` seen from day `today`
/// (`Upcoming` does not sort into buckets).
pub open spec fn bucket_of(range: DateRange, t: TaskView, today: int) -> Option<Bucket> {
    if state_is_done(t.state) {
        None
    } else {
        match range {
            DateRange::Today => {
                if t.scheduled matches Some(s) && s.num() < today {
                    Some(Bucket::Overdue)
                } else if t.scheduled matches Some(s) && s.num() == today {
                    Some(Bucket::Scheduled)
                } else {
                    match t.deadline {
                        Some(d) => if d.num() - today < 0 {
                            Some(Bucket::Overdue)
                        } else if d.num() - today <= 7 {
                            Some(Bucket::Deadlined)
                        } else {
                            None
                        },
                        None => None,
                    }
                }
            },
            DateRange::Tomorrow => {
                let tomorrow = if today < max_day() {
                    today + 1
                } else {
                    today
                };
                if t.scheduled matches Some(s) && s.num() == tomorrow {
                    Some(Bucket::Scheduled)
                } else if t.deadline matches Some(d) && d.num() == tomorrow {
                    Some(Bucket::Deadlined)
                } else {
                    None
                }
            },
            DateRange::ThisWeek => {
                let week_end = today + 7;
                if t.scheduled matches Some(s) && s.num() < today {
                    Some(Bucket::Overdue)
                } else if t.scheduled matches Some(s) && today <= s.num() < week_end {
                    Some(Bucket::Scheduled)
                } else {
                    match t.deadline {
                        Some(d) => if d.num() < today {
                            Some(Bucket::Overdue)
                        } else if d.num() < week_end {
                            Some(Bucket::Deadlined)
                        } else {
                            None
                        },
                        None => None,
                    }
                }
            },
            DateRange::Upcoming => None,
        }
    }
}

/// The tasks of `ts` that land in bucket `b`, in their order.
pub open spec fn pick(ts: Seq<TaskView>, range: DateRange, today: int, b: Bucket) -> Seq<TaskView>
    decreases ts.len(),
{
    if ts.len() == 0 {
        seq![]
    } else {
        let rest = pick(ts.drop_last(), range, today, b);
        if bucket_of(range, ts.last(), today) == Some(b) {
            rest.push(ts.last())
        } else {
            rest
        }
    }
}

/// An open task with a scheduled date or a deadline.
pub open spec fn is_upcoming(t: TaskView) -> bool {
    !state_is_done(t.state) && (t.scheduled is Some || t.deadline is Some)
}

/// The open tasks with a date, in their order.
pub open spec fn upcoming_tasks(ts: Seq<TaskView>) -> Seq<TaskView>
    decreases ts.len(),
{
    if ts.len() == 0 {
        seq![]
    } else {
        let rest = upcoming_tasks(ts.drop_last());
        if is_upcoming(ts.last()) {
            rest.push(ts.last())
        } else {
            rest
        }
    }
}

/// A task's first date: the earlier of its scheduled date and its
/// deadline, a missing one counting as the last representable day.
pub open spec fn first_date(t: TaskView) -> int {
    let s = match t.scheduled {
        Some(d) => d.num(),
        None => max_day(),
    };
    let d = match t.deadline {
        Some(d) => d.num(),
        None => max_day(),
    };
    if s <= d {
        s
    } else {
        d
    }
}

/// `x` put into the sorted `s` after every task whose first date is not
/// later than its own.
pub open spec fn insert_by_date(s: Seq<TaskView>, x: TaskView) -> Seq<TaskView>
    decreases s.len(),
{
    if s.len() == 0 {
        seq![x]
    } else if first_date(s.last()) <= first_date(x) {
        s.push(x)
    } else {
        insert_by_date(s.drop_last(), x).push(s.last())
    }
}

/// The tasks stably sorted by first date: tasks with the same first date
/// keep their order.
pub open spec fn sort_by_date(s: Seq<TaskView>) -> Seq<TaskView>
    decreases s.len(),
{
    if s.len() == 0 {
        seq![]
    } else {
        insert_by_date(sort_by_date(s.drop_last()), s.last())
    }
}

/// Whether the tasks are in order of first date.
pub open spec fn sorted_by_date(s: Seq<TaskView>) -> bool {
    forall|i: int, j: int| 0 <= i < j < s.len() ==> first_date(s[i]) <= first_date(s[j])
}

/// The habits of `hs` with no completion on `today`, in their order.
pub open spec fn due_habits(hs: Seq<HabitView>, today: int) -> Seq<HabitView>
    decreases hs.len(),
{
    if hs.len() == 0 {
        seq![]
    } else {
        let rest = due_habits(hs.drop_last(), today);
        if !completion_days(hs.last().completions).contains(today) {
            rest.push(hs.last())
        } else {
            rest
        }
    }
}

pub open spec fn task_views(ts: Seq<Task>) -> Seq<TaskView> {
    ts.map_values(|t: Task| t@)
}

pub open spec fn habit_views(hs: Seq<Habit>) -> Seq<HabitView> {
    hs.map_values(|h: Habit| h@)
}

/// The tasks and habits a "when" page shows.
pub struct TemporalView {
    pub overdue: Vec<Task>,
    pub scheduled: Vec<Task>,
    pub deadlined: Vec<Task>,
    pub habits_due: Vec<Habit>,
}

/// What the view of `range` on `today` holds.
pub open spec fn view_matches(
    r: &TemporalView,
    ts: Seq<TaskView>,
    hs: Seq<HabitView>,
    today: int,
    range: DateRange,
) -> bool {
    if range == DateRange::Upcoming {
        &&& task_views(r.overdue@).len() == 0
        &&& task_views(r.scheduled@) == sort_by_date(upcoming_tasks(ts))
        &&& task_views(r.deadlined@).len() == 0
        &&& r.habits_due@.len() == 0
    } else {
        &&& task_views(r.overdue@) == pick(ts, range, today, Bucket::Overdue)
        &&& task_views(r.scheduled@) == pick(ts, range, today, Bucket::Scheduled)
        &&& task_views(r.deadlined@) == pick(ts, range, today, Bucket::Deadlined)
        &&& habit_views(r.habits_due@) == (if range == DateRange::Today {
            due_habits(hs, today)
        } else {
            seq![]
        })
    }
}

proof fn lemma_insert_at(s: Seq<TaskView>, x: TaskView, j: int)
    requires
        0 <= j <= s.len(),
        forall|i: int| j <= i < s.len() ==> first_date(#[trigger] s[i]) > first_date(x),
        j > 0 ==> first_date(s[j - 1]) <= first_date(x),
    ensures
        insert_by_date(s, x) == s.insert(j, x),
    decreases s.len(),
{
    if s.len() == 0 {
        assert(s.insert(j, x) =~= seq![x]);
    } else if j == s.len() {
        assert(s.insert(j, x) =~= s.push(x));
    } else {
        let t = s.drop_last();
        assert(first_date(s[s.len() - 1]) > first_date(x));
        assert forall|i: int| j <= i < t.len() implies first_date(#[trigger] t[i]) > first_date(x) by {
            assert(t[i] == s[i]);
        }
        if j > 0 {
            assert(t[j - 1] == s[j - 1]);
        }
        lemma_insert_at(t, x, j);
        assert(t.insert(j, x).push(s.last()) =~= s.insert(j, x));
    }
}

proof fn lemma_insert_sorted(s: Seq<TaskView>, x: TaskView)
    requires
        sorted_by_date(s),
    ensures
        sorted_by_date(insert_by_date(s, x)),
        insert_by_date(s, x).len() == s.len() + 1,
    decreases s.len(),
{
    if s.len() > 0 && first_date(s.last()) > first_date(x) {
        let t = s.drop_last();
        lemma_insert_sorted(t, x);
        let u = insert_by_date(t, x);
        assert forall|i: int| 0 <= i < u.len() implies first_date(#[trigger] u[i]) <= first_date(
            s.last(),
        ) by {
            lemma_insert_members(t, x, i);
        }
    }
}

proof fn lemma_insert_members(s: Seq<TaskView>, x: TaskView, i: int)
    requires
        sorted_by_date(s),
        0 <= i < s.len() + 1,
    ensures
        insert_by_date(s, x).len() == s.len() + 1,
        insert_by_date(s, x)[i] == x || exists|k: int| 0 <= k < s.len() && #[trigger] s[k] == insert_by_date(s, x)[i],
    decreases s.len(),
{
    if s.len() == 0 {
    } else if first_date(s.last()) <= first_date(x) {
        if i < s.len() {
            assert(s[i] == insert_by_date(s, x)[i]);
        }
    } else {
        let t = s.drop_last();
        if i < s.len() {
            lemma_insert_members(t, x, i);
            if insert_by_date(s, x)[i] != x {
                let k = choose|k: int| 0 <= k < t.len() && #[trigger] t[k] == insert_by_date(t, x)[i];
                assert(s[k] == t[k]);
            }
        } else {
            lemma_insert_members(t, x, 0);
            assert(s[s.len() - 1] == insert_by_date(s, x)[i]);
        }
    }
}

/// The upcoming view is in order of first date.
pub proof fn lemma_sort_by_date_sorted(s: Seq<TaskView>)
    ensures
        sorted_by_date(sort_by_date(s)),
        sort_by_date(s).len() == s.len(),
    decreases s.len(),
{
    if s.len() > 0 {
        lemma_sort_by_date_sorted(s.drop_last());
        lemma_insert_sorted(sort_by_date(s.drop_last()), s.last());
    }
}

fn deadline_bucket_today(t: &Task, today: &Date) -> (r: Option<Bucket>)
    ensures
        r == (match t@.deadline {
            Some(d) => if d.num() - today.num() < 0 {
                Some(Bucket::Overdue)
            } else if d.num() - today.num() <= 7 {
                Some(Bucket::Deadlined)
            } else {
                None
            },
            None => None,
        }),
{
    match t.deadline {
        Some(d) => {
            let days_until = d.days_since(today);
            if days_until < 0 {
                Some(Bucket::Overdue)
            } else if days_until <= 7 {
                Some(Bucket::Deadlined)
            } else {
                None
            }
        },
        None => None,
    }
}

fn deadline_bucket_week(t: &Task, today: &Date) -> (r: Option<Bucket>)
    ensures
        r == (match t@.deadline {
            Some(d) => if d.num() < today.num() {
                Some(Bucket::Overdue)
            } else if d.num() < today.num() + 7 {
                Some(Bucket::Deadlined)
            } else {
                None
            },
            None => None,
        }),
{
    match t.deadline {
        Some(d) => {
            let ahead = d.days_since(today);
            if ahead < 0 {
                Some(Bucket::Overdue)
            } else if ahead < 7 {
                Some(Bucket::Deadlined)
            } else {
                None
            }
        },
        None => None,
    }
}

fn bucket_exec(range: DateRange, t: &Task, today: &Date) -> (r: Option<Bucket>)
    requires
        range == DateRange::ThisWeek ==> today.num() + 7 <= max_day(),
        range != DateRange::Upcoming,
    ensures
        r == bucket_of(range, t@, today.num()),
{
    if t.state.is_done() {
        None
    } else if range == DateRange::Today {
        let sched = match t.scheduled {
            Some(s) => {
                if s.is_before(today) {
                    Some(Bucket::Overdue)
                } else if s.is_same(today) {
                    Some(Bucket::Scheduled)
                } else {
                    None
                }
            },
            None => None,
        };
        let r = match sched {
            Some(b) => Some(b),
            None => deadline_bucket_today(t, today),
        };
        r
    } else if range == DateRange::Tomorrow {
        let tomorrow = today.succ_or_self();
        let on_sched = match t.scheduled {
            Some(s) => s.is_same(&tomorrow),
            None => false,
        };
        let on_deadline = match t.deadline {
            Some(d) => d.is_same(&tomorrow),
            None => false,
        };
        let r = if on_sched {
            Some(Bucket::Scheduled)
        } else if on_deadline {
            Some(Bucket::Deadlined)
        } else {
            None
        };
        r
    } else {
        let sched = match t.scheduled {
            Some(s) => {
                let ahead = s.days_since(today);
                if ahead < 0 {
                    Some(Bucket::Overdue)
                } else if ahead < 7 {
                    Some(Bucket::Scheduled)
                } else {
                    None
                }
            },
            None => None,
        };
        let r = match sched {
            Some(b) => Some(b),
            None => deadline_bucket_week(t, today),
        };
        r
    }
}

fn first_date_exec(t: &Task) -> (r: i64)
    ensures
        r == first_date(t@),
{
    let max = Date::max_value();
    let s = match t.scheduled {
        Some(d) => d.day_number() as i64,
        None => max.day_number() as i64,
    };
    let d = match t.deadline {
        Some(d) => d.day_number() as i64,
        None => max.day_number() as i64,
    };
    if s <= d {
        s
    } else {
        d
    }
}

impl TemporalView {
    /// The view of `range` on `today`. For `ThisWeek` the day a week on
    /// must be representable.
    pub fn build(tasks: &[Task], habits: &[Habit], today: Date, range: DateRange) -> (r: Self)
        requires
            range == DateRange::ThisWeek ==> today.num() + 7 <= max_day(),
        ensures
            view_matches(&r, task_views(tasks@), habit_views(habits@), today.num(), range),
    {
        match range {
            DateRange::Upcoming => Self::build_upcoming(tasks),
            _ => {
                let overdue = Self::collect(tasks, &today, range, Bucket::Overdue);
                let scheduled = Self::collect(tasks, &today, range, Bucket::Scheduled);
                let deadlined = Self::collect(tasks, &today, range, Bucket::Deadlined);
                let habits_due = if range == DateRange::Today {
                    Self::collect_habits(habits, &today)
                } else {
                    let v: Vec<Habit> = Vec::new();
                    assert(habit_views(v@) =~= Seq::<HabitView>::empty());
                    v
                };
                TemporalView { overdue, scheduled, deadlined, habits_due }
            },
        }
    }

    fn collect(tasks: &[Task], today: &Date, range: DateRange, b: Bucket) -> (r: Vec<Task>)
        requires
            range == DateRange::ThisWeek ==> today.num() + 7 <= max_day(),
            range != DateRange::Upcoming,
        ensures
            task_views(r@) == pick(task_views(tasks@), range, today.num(), b),
    {
        let ghost tv = task_views(tasks@);
        let mut r: Vec<Task> = Vec::new();
        let mut i: usize = 0;
        while i < tasks.len()
            invariant
                i <= tasks.len(),
                tv == task_views(tasks@),
                range == DateRange::ThisWeek ==> today.num() + 7 <= max_day(),
                range != DateRange::Upcoming,
                task_views(r@) == pick(tv.take(i as int), range, today.num(), b),
            decreases tasks.len() - i,
        {
            assert(tv.take(i + 1).drop_last() =~= tv.take(i as int));
            assert(tv.take(i + 1).last() == tasks@[i as int]@);
            let got = bucket_exec(range, &tasks[i], today);
            let hit = match got {
                Some(g) => g == b,
                None => false,
            };
            if hit {
                let ghost before = r@;
                r.push(tasks[i].duplicate());
                assert(task_views(r@) =~= task_views(before).push(tasks@[i as int]@));
            }
            i = i + 1;
        }
        assert(tv.take(tasks.len() as int) =~= tv);
        r
    }

    fn collect_habits(habits: &[Habit], today: &Date) -> (r: Vec<Habit>)
        ensures
            habit_views(r@) == due_habits(habit_views(habits@), today.num()),
    {
        let ghost hv = habit_views(habits@);
        let mut r: Vec<Habit> = Vec::new();
        let mut i: usize = 0;
        while i < habits.len()
            invariant
                i <= habits.len(),
                hv == habit_views(habits@),
                habit_views(r@) == due_habits(hv.take(i as int), today.num()),
            decreases habits.len() - i,
        {
            assert(hv.take(i + 1).drop_last() =~= hv.take(i as int));
            assert(hv.take(i + 1).last() == habits@[i as int]@);
            if habits[i].is_due(*today) {
                let ghost before = r@;
                r.push(habits[i].duplicate());
                assert(habit_views(r@) =~= habit_views(before).push(habits@[i as int]@));
            }
            i = i + 1;
        }
        assert(hv.take(habits.len() as int) =~= hv);
        r
    }

    fn build_upcoming(tasks: &[Task]) -> (r: Self)
        ensures
            view_matches(&r, task_views(tasks@), seq![], 0, DateRange::Upcoming),
    {
        let ghost tv = task_views(tasks@);
        let mut sorted: Vec<Task> = Vec::new();
        let mut i: usize = 0;
        while i < tasks.len()
            invariant
                i <= tasks.len(),
                tv == task_views(tasks@),
                task_views(sorted@) == sort_by_date(upcoming_tasks(tv.take(i as int))),
            decreases tasks.len() - i,
        {
            assert(tv.take(i + 1).drop_last() =~= tv.take(i as int));
            assert(tv.take(i + 1).last() == tasks@[i as int]@);
            let t = &tasks[i];
            if !t.state.is_done() && (t.scheduled.is_some() || t.deadline.is_some()) {
                let ghost u = upcoming_tasks(tv.take(i as int));
                assert(upcoming_tasks(tv.take(i + 1)) == u.push(t@));
                proof {
                    lemma_sort_by_date_sorted(u);
                }
                let x = t.duplicate();
                Self::insert_sorted(&mut sorted, x);
                assert(sort_by_date(u.push(t@)) == insert_by_date(sort_by_date(u), t@)) by {
                    let w = u.push(t@);
                    assert(w.drop_last() =~= u);
                    assert(w.last() == t@);
                    assert(w.len() > 0);
                }
            } else {
                assert(upcoming_tasks(tv.take(i + 1)) == upcoming_tasks(tv.take(i as int)));
            }
            i = i + 1;
        }
        assert(tv.take(tasks.len() as int) =~= tv);
        let r = TemporalView {
            overdue: Vec::new(),
            scheduled: sorted,
            deadlined: Vec::new(),
            habits_due: Vec::new(),
        };
        r
    }

    /// Puts `x` after every task whose first date is not later than its own.
    fn insert_sorted(v: &mut Vec<Task>, x: Task)
        requires
            sorted_by_date(task_views(old(v)@)),
        ensures
            task_views(final(v)@) == insert_by_date(task_views(old(v)@), x@),
            sorted_by_date(task_views(final(v)@)),
    {
        let ghost s = task_views(v@);
        let key = first_date_exec(&x);
        let mut j: usize = v.len();
        while j > 0 && first_date_exec(&v[j - 1]) > key
            invariant
                j <= v.len(),
                s == task_views(v@),
                key == first_date(x@),
                forall|i: int| j <= i < s.len() ==> first_date(#[trigger] s[i]) > first_date(x@),
            decreases j,
        {
            j = j - 1;
        }
        proof {
            lemma_insert_at(s, x@, j as int);
            lemma_insert_sorted(s, x@);
        }
        v.insert(j, x);
        assert(task_views(v@) =~= s.insert(j as int, x@));
    }

    /// The number of entries over all lists.
    pub fn total_count(&self) -> (r: usize)
        requires
            self.overdue@.len() + self.scheduled@.len() + self.deadlined@.len()
                + self.habits_due@.len() <= usize::MAX,
        ensures
            r == self.overdue@.len() + self.scheduled@.len() + self.deadlined@.len()
                + self.habits_due@.len(),
    {
        self.overdue.len() + self.scheduled.len() + self.deadlined.len() + self.habits_due.len()
    }
}

/// A task of the list lands in the bucket list of its bucket.
proof fn lemma_pick_has(ts: Seq<TaskView>, range: DateRange, today: int, b: Bucket, i: int)
    requires
        0 <= i < ts.len(),
        bucket_of(range, ts[i], today) == Some(b),
    ensures
        pick(ts, range, today, b).contains(ts[i]),
    decreases ts.len(),
{
    let rest = pick(ts.drop_last(), range, today, b);
    if i == ts.len() - 1 {
        assert(pick(ts, range, today, b) == rest.push(ts.last()));
        assert(rest.push(ts.last())[rest.len() as int] == ts[i]);
    } else {
        assert(ts.drop_last()[i] == ts[i]);
        lemma_pick_has(ts.drop_last(), range, today, b, i);
        let k = choose|k: int| 0 <= k < rest.len() && rest[k] == ts[i];
        if bucket_of(range, ts.last(), today) == Some(b) {
            assert(rest.push(ts.last())[k] == ts[i]);
        }
    }
}

/// Every task of a bucket list is one of the list's tasks in that bucket.
proof fn lemma_pick_only(ts: Seq<TaskView>, range: DateRange, today: int, b: Bucket, k: int)
    requires
        0 <= k < pick(ts, range, today, b).len(),
    ensures
        bucket_of(range, pick(ts, range, today, b)[k], today) == Some(b),
        ts.contains(pick(ts, range, today, b)[k]),
    decreases ts.len(),
{
    let rest = pick(ts.drop_last(), range, today, b);
    if k < rest.len() {
        if bucket_of(range, ts.last(), today) == Some(b) {
            assert(pick(ts, range, today, b)[k] == rest[k]);
        }
        lemma_pick_only(ts.drop_last(), range, today, b, k);
        let j = choose|j: int| 0 <= j < ts.drop_last().len() && ts.drop_last()[j] == rest[k];
        assert(ts[j] == rest[k]);
    } else {
        assert(pick(ts, range, today, b)[k] == ts.last());
        assert(ts[ts.len() - 1] == ts.last());
    }
}

/// In the views of today and of this week, every open task scheduled
/// before today is listed as overdue, and neither as scheduled nor as
/// due.
pub proof fn lemma_past_scheduled_is_overdue(
    r: &TemporalView,
    ts: Seq<TaskView>,
    hs: Seq<HabitView>,
    today: int,
    range: DateRange,
    i: int,
)
    requires
        range == DateRange::Today || range == DateRange::ThisWeek,
        view_matches(r, ts, hs, today, range),
        0 <= i < ts.len(),
        !state_is_done(ts[i].state),
        ts[i].scheduled is Some,
        ts[i].scheduled->0.num() < today,
    ensures
        task_views(r.overdue@).contains(ts[i]),
        !task_views(r.scheduled@).contains(ts[i]),
        !task_views(r.deadlined@).contains(ts[i]),
{
    assert(bucket_of(range, ts[i], today) == Some(Bucket::Overdue));
    lemma_pick_has(ts, range, today, Bucket::Overdue, i);
    if task_views(r.scheduled@).contains(ts[i]) {
        let k = choose|k: int| 0 <= k < task_views(r.scheduled@).len() && task_views(r.scheduled@)[k] == ts[i];
        lemma_pick_only(ts, range, today, Bucket::Scheduled, k);
    }
    if task_views(r.deadlined@).contains(ts[i]) {
        let k = choose|k: int| 0 <= k < task_views(r.deadlined@).len() && task_views(r.deadlined@)[k] == ts[i];
        lemma_pick_only(ts, range, today, Bucket::Deadlined, k);
    }
}

proof fn lemma_in_bucket(r: &TemporalView, ts: Seq<TaskView>, hs: Seq<HabitView>, today: int, range: DateRange, i: int)
    requires
        range != DateRange::Upcoming,
        view_matches(r, ts, hs, today, range),
        0 <= i < ts.len(),
    ensures
        bucket_of(range, ts[i], today) == Some(Bucket::Overdue) ==> task_views(r.overdue@).contains(ts[i]),
        bucket_of(range, ts[i], today) == Some(Bucket::Scheduled) ==> task_views(r.scheduled@).contains(ts[i]),
        bucket_of(range, ts[i], today) == Some(Bucket::Deadlined) ==> task_views(r.deadlined@).contains(ts[i]),
{
    if let Some(b) = bucket_of(range, ts[i], today) {
        lemma_pick_has(ts, range, today, b, i);
    }
}

/// The week view sorts each open task by its dates: scheduled before
/// today, overdue; scheduled within the seven days from today,
/// scheduled; otherwise a deadline before today makes it overdue and one
/// within the seven days lists it as due.
pub proof fn lemma_week_view_buckets(r: &TemporalView, ts: Seq<TaskView>, hs: Seq<HabitView>, today: int, i: int)
    requires
        view_matches(r, ts, hs, today, DateRange::ThisWeek),
        0 <= i < ts.len(),
        !state_is_done(ts[i].state),
    ensures
        ({
            let t = ts[i];
            let sched_in_week = t.scheduled is Some && t.scheduled->0.num() < today + 7;
            &&& t.scheduled is Some && t.scheduled->0.num() < today ==> task_views(r.overdue@).contains(t)
            &&& t.scheduled is Some && today <= t.scheduled->0.num() < today + 7 ==> task_views(r.scheduled@).contains(t)
            &&& !sched_in_week && t.deadline is Some && t.deadline->0.num() < today ==> task_views(r.overdue@).contains(t)
            &&& !sched_in_week && t.deadline is Some && today <= t.deadline->0.num() < today + 7 ==> task_views(
                r.deadlined@,
            ).contains(t)
        }),
{
    lemma_in_bucket(r, ts, hs, today, DateRange::ThisWeek, i);
}

/// The day view: scheduled before today, overdue; scheduled today,
/// scheduled; otherwise a deadline before today makes it overdue and one
/// within seven days lists it as due.
pub proof fn lemma_day_view_buckets(r: &TemporalView, ts: Seq<TaskView>, hs: Seq<HabitView>, today: int, i: int)
    requires
        view_matches(r, ts, hs, today, DateRange::Today),
        0 <= i < ts.len(),
        !state_is_done(ts[i].state),
    ensures
        ({
            let t = ts[i];
            let sched_by_today = t.scheduled is Some && t.scheduled->0.num() <= today;
            &&& t.scheduled is Some && t.scheduled->0.num() < today ==> task_views(r.overdue@).contains(t)
            &&& t.scheduled is Some && t.scheduled->0.num() == today ==> task_views(r.scheduled@).contains(t)
            &&& !sched_by_today && t.deadline is Some && t.deadline->0.num() < today ==> task_views(r.overdue@).contains(t)
            &&& !sched_by_today && t.deadline is Some && today <= t.deadline->0.num() <= today + 7 ==> task_views(
                r.deadlined@,
            ).contains(t)
        }),
{
    lemma_in_bucket(r, ts, hs, today, DateRange::Today, i);
}

/// A done task is in no list of a view.
pub proof fn lemma_done_not_listed(r: &TemporalView, ts: Seq<TaskView>, hs: Seq<HabitView>, today: int, range: DateRange, x: TaskView)
    requires
        range != DateRange::Upcoming,
        view_matches(r, ts, hs, today, range),
        state_is_done(x.state),
    ensures
        !task_views(r.overdue@).contains(x),
        !task_views(r.scheduled@).contains(x),
        !task_views(r.deadlined@).contains(x),
{
    if task_views(r.overdue@).contains(x) {
        let k = choose|k: int| 0 <= k < task_views(r.overdue@).len() && task_views(r.overdue@)[k] == x;
        lemma_pick_only(ts, range, today, Bucket::Overdue, k);
    }
    if task_views(r.scheduled@).contains(x) {
        let k = choose|k: int| 0 <= k < task_views(r.scheduled@).len() && task_views(r.scheduled@)[k] == x;
        lemma_pick_only(ts, range, today, Bucket::Scheduled, k);
    }
    if task_views(r.deadlined@).contains(x) {
        let k = choose|k: int| 0 <= k < task_views(r.deadlined@).len() && task_views(r.deadlined@)[k] == x;
        lemma_pick_only(ts, range, today, Bucket::Deadlined, k);
    }
}

} // verus!
