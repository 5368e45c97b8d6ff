//! Habits: a task with completion times and streaks.

use vstd::prelude::*;

use crate::dates::{min_day, max_day, Date, DateTime};
use crate::model::task::{copy_vec, Task, TaskView};

verus! {

/// A habit.
#[derive(Debug, Clone)]
pub struct Habit {
    pub task: Task,
    pub completions: Vec<DateTime>,
    pub streak: u32,
    pub best_streak: u32,
}

/// A habit with its task and completions taken by value.
pub struct HabitView {
    pub task: TaskView,
    pub completions: Seq<DateTime>,
    pub streak: u32,
    pub best_streak: u32,
}

impl View for Habit {
    type V = HabitView;

    open spec fn view(&self) -> HabitView {
        HabitView {
            task: self.task@,
            completions: self.completions@,
            streak: self.streak,
            best_streak: self.best_streak,
        }
    }
}

/// The day numbers of the completions.
pub open spec fn completion_days(cs: Seq<DateTime>) -> Seq<int> {
    cs.map_values(|d: DateTime| d.spec_date().num())
}

/// The length of the run of consecutive completed days ending on day `c`
/// (counting back no further than the first representable day).
pub open spec fn run_ending(ds: Seq<int>, c: int) -> nat
    decreases c - min_day(),
{
    if ds.contains(c) {
        if c > min_day() {
            1 + run_ending(ds, c - 1)
        } else {
            1
        }
    } else {
        0
    }
}

/// The day a current streak is counted back from: today when it is
/// completed, else the day before.
pub open spec fn streak_start(ds: Seq<int>, today: int) -> int {
    if ds.contains(today) || today <= min_day() {
        today
    } else {
        today - 1
    }
}

/// `b` is the length of the longest run of consecutive completed days.
pub open spec fn is_longest_run(ds: Seq<int>, b: nat) -> bool {
    &&& exists|i: int| 0 <= i < ds.len() && run_ending(ds, ds[i]) == b
    &&& forall|i: int| 0 <= i < ds.len() ==> run_ending(ds, #[trigger] ds[i]) <= b
}

proof fn lemma_run_bound(ds: Seq<int>, c: int)
    requires
        min_day() <= c <= max_day(),
    ensures
        run_ending(ds, c) <= c - min_day() + 1,
    decreases c - min_day(),
{
    if ds.contains(c) && c > min_day() {
        lemma_run_bound(ds, c - 1);
    }
}

fn days_of(cs: &Vec<DateTime>) -> (r: Vec<i32>)
    ensures
        r@.len() == cs@.len(),
        forall|i: int| 0 <= i < r@.len() ==> r@[i] == completion_days(cs@)[i],
        forall|i: int| 0 <= i < r@.len() ==> min_day() <= #[trigger] r@[i] <= max_day(),
{
    let mut r: Vec<i32> = Vec::new();
    let mut i: usize = 0;
    while i < cs.len()
        invariant
            i <= cs.len(),
            r@.len() == i,
            forall|k: int| 0 <= k < i ==> r@[k] == completion_days(cs@)[k],
            forall|k: int| 0 <= k < i ==> min_day() <= #[trigger] r@[k] <= max_day(),
        decreases cs.len() - i,
    {
        let d = cs[i].date();
        r.push(d.day_number());
        i = i + 1;
    }
    r
}

fn contains_day(ds: &Vec<i32>, c: i32) -> (r: bool)
    ensures
        r == ds@.map_values(|x: i32| x as int).contains(c as int),
{
    let ghost s = ds@.map_values(|x: i32| x as int);
    let mut i: usize = 0;
    while i < ds.len()
        invariant
            i <= ds.len(),
            s == ds@.map_values(|x: i32| x as int),
            forall|k: int| 0 <= k < i ==> s[k] != c,
        decreases ds.len() - i,
    {
        if ds[i] == c {
            assert(s[i as int] == c);
            return true;
        }
        i = i + 1;
    }
    false
}

/// `run_ending` computed by counting back.
fn run_length(ds: &Vec<i32>, c: i32) -> (r: u32)
    requires
        min_day() <= c <= max_day(),
    ensures
        r == run_ending(ds@.map_values(|x: i32| x as int), c as int),
{
    let ghost s = ds@.map_values(|x: i32| x as int);
    let mut check: i32 = c;
    let mut n: u32 = 0;
    loop
        invariant
            s == ds@.map_values(|x: i32| x as int),
            min_day() <= check <= c <= max_day(),
            n == c - check,
            n + run_ending(s, check as int) == run_ending(s, c as int),
        decreases check - min_day(),
    {
        if !contains_day(ds, check) {
            return n;
        }
        if check > -95746129 {
            check = check - 1;
            n = n + 1;
        } else {
            return n + 1;
        }
    }
}

impl Habit {
    pub fn new(task: Task) -> (r: Habit)
        ensures
            r.task@ == task@,
            r.completions@.len() == 0,
            r.streak == 0,
            r.best_streak == 0,
    {
        Habit { task, completions: Vec::new(), streak: 0, best_streak: 0 }
    }

    /// Recomputes the current streak (consecutive completed days ending
    /// today, or yesterday when today is not yet completed) and the best
    /// streak (the longest run of consecutive completed days).
    pub fn recalculate_streak(&mut self, today: Date)
        ensures
            final(self).task@ == old(self).task@,
            final(self).completions@ == old(self).completions@,
            old(self).completions@.len() == 0 ==> final(self).streak == 0 && final(self).best_streak
                == old(self).best_streak,
            old(self).completions@.len() > 0 ==> {
                let ds = completion_days(old(self).completions@);
                &&& final(self).streak == run_ending(ds, streak_start(ds, today.num()))
                &&& is_longest_run(ds, final(self).best_streak as nat)
            },
    {
        if self.completions.len() == 0 {
            self.streak = 0;
            return;
        }
        let ds = days_of(&self.completions);
        let ghost cd = completion_days(self.completions@);
        assert(ds@.map_values(|x: i32| x as int) =~= cd);
        let t = today.day_number();
        let start: i32 = if contains_day(&ds, t) || t <= -95746129 {
            t
        } else {
            t - 1
        };
        let streak = run_length(&ds, start);
        let mut best: u32 = 0;
        let mut bi: usize = 0;
        let mut i: usize = 0;
        while i < ds.len()
            invariant
                cd == ds@.map_values(|x: i32| x as int),
                i <= ds.len(),
                ds@.len() == cd.len(),
                cd.len() > 0,
                forall|k: int| 0 <= k < ds@.len() ==> min_day() <= #[trigger] ds@[k] <= max_day(),
                bi < ds.len(),
                i > 0 ==> bi < i,
                i > 0 ==> run_ending(cd, cd[bi as int]) == best,
                forall|k: int| 0 <= k < i ==> run_ending(cd, #[trigger] cd[k]) <= best,
            decreases ds.len() - i,
        {
            let r = run_length(&ds, ds[i]);
            if i == 0 || r > best {
                best = r;
                bi = i;
            }
            i = i + 1;
        }
        self.streak = streak;
        self.best_streak = best;
        assert(cd[bi as int] == cd[bi as int]);
    }

    /// A copy of the habit.
    pub fn duplicate(&self) -> (r: Habit)
        ensures
            r@ == self@,
    {
        Habit {
            task: self.task.duplicate(),
            completions: copy_vec(&self.completions),
            streak: self.streak,
            best_streak: self.best_streak,
        }
    }

    /// Whether the habit has no completion on `today`.
    pub fn is_due(&self, today: Date) -> (r: bool)
        ensures
            r == !completion_days(self.completions@).contains(today.num()),
    {
        let ghost cd = completion_days(self.completions@);
        let mut i: usize = 0;
        while i < self.completions.len()
            invariant
                i <= self.completions.len(),
                cd == completion_days(self.completions@),
                forall|k: int| 0 <= k < i ==> cd[k] != today.num(),
            decreases self.completions.len() - i,
        {
            let d = self.completions[i].date();
            if d.is_same(&today) {
                assert(cd[i as int] == today.num());
                return false;
            }
            i = i + 1;
        }
        true
    }
}

} // verus!
