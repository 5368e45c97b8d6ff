//! The day plan in a push: the tasks confirmed for the day carry its date,
//! and one of them carries its spoon budget.

use vstd::prelude::*;

use crate::dates::Date;
use crate::ids::Uuid;
use crate::model::day_plan::DayPlan;
use crate::model::task::{Task, TaskView};
use crate::sync::engine::{settled, task_views};
use crate::sync::hash::task_content_hash;

verus! {

fn uuid_listed(ids: &Vec<Uuid>, id: Uuid) -> (r: bool)
    ensures
        r == ids@.contains(id),
{
    let mut i: usize = 0;
    while i < ids.len()
        invariant
            i <= ids@.len(),
            forall|j: int| 0 <= j < i ==> ids@[j] != id,
        decreases ids.len() - i,
    {
        if ids[i] == id {
            assert(ids@[i as int] == id);
            return true;
        }
        i = i + 1;
    }
    false
}


/// A task marked for the day plan: a confirmed task carries the plan's
/// date, any other none.
pub open spec fn plan_marked(t: TaskView, date: Date, confirmed: Seq<Uuid>) -> TaskView {
    TaskView {
        dayplan_date: if confirmed.contains(t.id) {
            Some(date)
        } else {
            None
        },
        ..t
    }
}

/// Every task marked for the day plan.
pub open spec fn marked_all(ts: Seq<TaskView>, date: Date, confirmed: Seq<Uuid>) -> Seq<TaskView> {
    ts.map_values(|t: TaskView| plan_marked(t, date, confirmed))
}

/// Whether the task is planned for `date` and waits to be pushed.
pub open spec fn budget_carrier(t: TaskView, date: Date) -> bool {
    t.dayplan_date == Some(date) && !settled(t)
}

/// The first task from place `i` on that carries the budget.
pub open spec fn first_carrier(ts: Seq<TaskView>, date: Date, i: int) -> Option<int>
    decreases ts.len() - i,
{
    if i < 0 || i >= ts.len() {
        None
    } else if budget_carrier(ts[i], date) {
        Some(i)
    } else {
        first_carrier(ts, date, i + 1)
    }
}

/// A task carrying the budget (`carries`) or none.
pub open spec fn budget_stamped(t: TaskView, carries: bool, budget: u32) -> TaskView {
    TaskView {
        dayplan_budget: if carries {
            Some(budget)
        } else {
            None
        },
        ..t
    }
}

fn is_settled(t: &Task) -> (r: bool)
    ensures
        r == settled(t@),
{
    match t.sync_hash {
        Some(x) => x == task_content_hash(t),
        None => false,
    }
}

/// Marks the tasks for the day plan and stamps its spoon budget before a
/// push: each task is marked for the plan, and the budget is carried once,
/// by the first planned task that waits to be pushed (every other task
/// carries none).
pub fn stamp_day_plan(tasks: &[Task], plan: &DayPlan) -> (r: Vec<Task>)
    ensures
        r@.len() == tasks@.len(),
        forall|i: int|
            0 <= i < r@.len() ==> (#[trigger] r@[i])@ == budget_stamped(
                plan_marked(tasks@[i]@, plan.date, plan.confirmed_task_ids@),
                first_carrier(marked_all(task_views(tasks@), plan.date, plan.confirmed_task_ids@), plan.date, 0)
                    == Some(i),
                plan.spoon_budget,
            ),
{
    let ghost tv = task_views(tasks@);
    let ghost m = marked_all(tv, plan.date, plan.confirmed_task_ids@);
    let mut marked: Vec<Task> = Vec::new();
    let mut i: usize = 0;
    while i < tasks.len()
        invariant
            i <= tasks@.len(),
            tv == task_views(tasks@),
            m == marked_all(tv, plan.date, plan.confirmed_task_ids@),
            marked@.len() == i,
            forall|j: int| 0 <= j < i ==> #[trigger] marked@[j]@ == m[j],
        decreases tasks.len() - i,
    {
        let mut t = tasks[i].duplicate();
        if uuid_listed(&plan.confirmed_task_ids, t.id) {
            t.dayplan_date = Some(plan.date);
        } else {
            t.dayplan_date = None;
        }
        assert(t@ == m[i as int]);
        marked.push(t);
        i = i + 1;
    }
    let ghost mv = task_views(marked@);
    assert(mv =~= m);
    let mut carrier: Option<usize> = None;
    let mut k: usize = marked.len();
    assert(first_carrier(m, plan.date, k as int) is None);
    while k > 0
        invariant
            k <= marked@.len(),
            mv == task_views(marked@),
            mv == m,
            tv == task_views(tasks@),
            m == marked_all(tv, plan.date, plan.confirmed_task_ids@),
            marked@.len() == tasks@.len(),
            match carrier {
                Some(c) => Some(c as int) == first_carrier(m, plan.date, k as int),
                None => first_carrier(m, plan.date, k as int) is None,
            },
        decreases k,
    {
        k = k - 1;
        if marked[k].dayplan_date == Some(plan.date) && !is_settled(&marked[k]) {
            carrier = Some(k);
        }
    }
    let mut out: Vec<Task> = Vec::new();
    let mut j: usize = 0;
    while j < marked.len()
        invariant
            j <= marked@.len(),
            mv == task_views(marked@),
            mv == m,
            tv == task_views(tasks@),
            m == marked_all(tv, plan.date, plan.confirmed_task_ids@),
            marked@.len() == tasks@.len(),
            match carrier {
                Some(c) => Some(c as int) == first_carrier(m, plan.date, 0),
                None => first_carrier(m, plan.date, 0) is None,
            },
            out@.len() == j,
            forall|x: int|
                0 <= x < j ==> (#[trigger] out@[x])@ == budget_stamped(
                    plan_marked(tasks@[x]@, plan.date, plan.confirmed_task_ids@),
                    first_carrier(m, plan.date, 0) == Some(x),
                    plan.spoon_budget,
                ),
        decreases marked.len() - j,
    {
        let mut t = marked[j].duplicate();
        t.dayplan_budget = if carrier == Some(j) {
            Some(plan.spoon_budget)
        } else {
            None
        };
        assert(marked@[j as int]@ == m[j as int]);
        assert((carrier == Some(j)) == (first_carrier(m, plan.date, 0) == Some(j as int)));
        assert(t@ == budget_stamped(m[j as int], carrier == Some(j), plan.spoon_budget));
        assert(m[j as int] == plan_marked(tasks@[j as int]@, plan.date, plan.confirmed_task_ids@));
        let ghost before = out@;
        out.push(t);
        assert forall|x: int| 0 <= x < j + 1 implies (#[trigger] out@[x])@ == budget_stamped(
            plan_marked(tasks@[x]@, plan.date, plan.confirmed_task_ids@),
            first_carrier(m, plan.date, 0) == Some(x),
            plan.spoon_budget,
        ) by {
            if x < j {
                assert(out@[x] == before[x]);
            } else {
                assert(out@[x] == t);
            }
        }
        j = j + 1;
    }
    out
}

} // verus!
