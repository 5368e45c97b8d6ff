//! The day plan: today's spoon budget, contexts and confirmed tasks.

use vstd::prelude::*;

use crate::dates::Date;
use crate::ids::Uuid;

verus! {

/// A task completed during the day.
#[derive(Debug, Clone)]
pub struct CompletedTask {
    pub id: Uuid,
    pub title: String,
    pub esc: Option<u32>,
}

/// The plan of one day.
#[derive(Debug, Clone)]
pub struct DayPlan {
    pub date: Date,
    pub spoon_budget: u32,
    pub active_contexts: Vec<String>,
    pub confirmed_task_ids: Vec<Uuid>,
    pub completed_tasks: Vec<CompletedTask>,
    pub spent_spoons: u32,
    pub picked_media_ids: Vec<Uuid>,
    pub picked_shopping_ids: Vec<Uuid>,
}

pub open spec fn completed_view(c: CompletedTask) -> (Uuid, Seq<char>, Option<u32>) {
    (c.id, c.title@, c.esc)
}

pub open spec fn completed_views(cs: Seq<CompletedTask>) -> Seq<(Uuid, Seq<char>, Option<u32>)> {
    cs.map_values(|c: CompletedTask| completed_view(c))
}

/// The index of the first completed task with identifier `id`.
pub open spec fn first_completed(cs: Seq<CompletedTask>, id: Uuid) -> Option<int> {
    if exists|i: int| 0 <= i < cs.len() && cs[i].id == id {
        Some(
            choose|i: int|
                0 <= i < cs.len() && cs[i].id == id && forall|j: int| 0 <= j < i ==> cs[j].id != id,
        )
    } else {
        None
    }
}

/// Undoing a completion restores the plan: after `complete_task` for a task
/// with no completed entry yet, `uncomplete_task` finds the entry just
/// added, takes it out again, and gives back exactly the spoons spent.
pub proof fn lemma_uncomplete_after_complete(cs: Seq<CompletedTask>, c: CompletedTask, spent: int)
    requires
        first_completed(cs, c.id) is None,
        spent >= 0,
    ensures
        first_completed(cs.push(c), c.id) == Some(cs.len() as int),
        cs.push(c).remove(cs.len() as int) == cs,
        esc_spoons(cs.push(c)[cs.len() as int].esc) == esc_spoons(c.esc),
        (if spent + esc_spoons(c.esc) >= esc_spoons(c.esc) {
            spent + esc_spoons(c.esc) - esc_spoons(c.esc)
        } else {
            0
        }) == spent,
{
    let t = cs.push(c);
    let n = cs.len() as int;
    assert(t[n].id == c.id);
    assert forall|j: int| 0 <= j < n implies t[j].id != c.id by {
        assert(t[j] == cs[j]);
    }
    let k = choose|i: int| 0 <= i < t.len() && t[i].id == c.id && forall|j: int| 0 <= j < i ==> t[j].id != c.id;
    assert(0 <= n < t.len() && t[n].id == c.id && forall|j: int| 0 <= j < n ==> t[j].id != c.id);
    assert(k == n);
    assert(t.remove(n) =~= cs);
}

pub open spec fn esc_spoons(esc: Option<u32>) -> int {
    match esc {
        Some(e) => e as int,
        None => 0,
    }
}

impl DayPlan {
    /// An empty plan for `date` with the default budget of 50 spoons.
    pub fn new(date: Date) -> (r: DayPlan)
        ensures
            r.date == date,
            r.spoon_budget == 50,
            r.spent_spoons == 0,
            r.active_contexts@.len() == 0,
            r.confirmed_task_ids@.len() == 0,
            r.completed_tasks@.len() == 0,
            r.picked_media_ids@.len() == 0,
            r.picked_shopping_ids@.len() == 0,
    {
        DayPlan {
            date,
            spoon_budget: 50,
            active_contexts: Vec::new(),
            confirmed_task_ids: Vec::new(),
            completed_tasks: Vec::new(),
            spent_spoons: 0,
            picked_media_ids: Vec::new(),
            picked_shopping_ids: Vec::new(),
        }
    }

    /// Whether the plan is for another day than `today`.
    pub fn is_stale(&self, today: Date) -> (r: bool)
        ensures
            r == (self.date.num() != today.num()),
    {
        !self.date.is_same(&today)
    }

    /// Spoons left, never below zero.
    pub fn remaining_budget(&self) -> (r: u32)
        ensures
            r == if self.spent_spoons <= self.spoon_budget {
                self.spoon_budget - self.spent_spoons
            } else {
                0
            },
    {
        self.spoon_budget.saturating_sub(self.spent_spoons)
    }

    /// Moves a task from the confirmed list to the completed list and
    /// spends its spoons.
    pub fn complete_task(&mut self, task_id: Uuid, title: String, esc: Option<u32>)
        requires
            old(self).spent_spoons + esc_spoons(esc) <= u32::MAX,
        ensures
            final(self).confirmed_task_ids@ == old(self).confirmed_task_ids@.filter(
                |id: Uuid| id != task_id,
            ),
            completed_views(final(self).completed_tasks@) == completed_views(
                old(self).completed_tasks@,
            ).push((task_id, title@, esc)),
            final(self).spent_spoons == old(self).spent_spoons + esc_spoons(esc),
            final(self).date == old(self).date,
            final(self).spoon_budget == old(self).spoon_budget,
            final(self).active_contexts@ == old(self).active_contexts@,
            final(self).picked_media_ids@ == old(self).picked_media_ids@,
            final(self).picked_shopping_ids@ == old(self).picked_shopping_ids@,
    {
        let ghost ids = self.confirmed_task_ids@;
        let mut kept: Vec<Uuid> = Vec::new();
        let mut i: usize = 0;
        while i < self.confirmed_task_ids.len()
            invariant
                i <= self.confirmed_task_ids.len(),
                ids == self.confirmed_task_ids@,
                kept@ == ids.take(i as int).filter(|id: Uuid| id != task_id),
            decreases self.confirmed_task_ids.len() - i,
        {
            let id = self.confirmed_task_ids[i];
            proof {
                reveal(Seq::filter);
                assert(ids.take(i + 1).drop_last() =~= ids.take(i as int));
            }
            if id != task_id {
                kept.push(id);
            }
            i = i + 1;
        }
        assert(ids.take(ids.len() as int) =~= ids);
        self.confirmed_task_ids = kept;
        let ghost before = self.completed_tasks@;
        self.completed_tasks.push(CompletedTask { id: task_id, title, esc });
        assert(completed_views(self.completed_tasks@) =~= completed_views(before).push(
            (task_id, title@, esc),
        ));
        let spoons = match esc {
            Some(e) => e,
            None => 0,
        };
        self.spent_spoons = self.spent_spoons + spoons;
    }

    /// Undoes a completion: the first completed entry for the task leaves
    /// the completed list, its spoons are given back (never below zero),
    /// and the task is confirmed again. Nothing changes when the task was
    /// not completed.
    pub fn uncomplete_task(&mut self, task_id: Uuid)
        ensures
            final(self).date == old(self).date,
            final(self).spoon_budget == old(self).spoon_budget,
            final(self).active_contexts@ == old(self).active_contexts@,
            final(self).picked_media_ids@ == old(self).picked_media_ids@,
            final(self).picked_shopping_ids@ == old(self).picked_shopping_ids@,
            match first_completed(old(self).completed_tasks@, task_id) {
                Some(p) => {
                    let e = esc_spoons(old(self).completed_tasks@[p].esc);
                    &&& completed_views(final(self).completed_tasks@) == completed_views(
                        old(self).completed_tasks@.remove(p),
                    )
                    &&& final(self).spent_spoons == if old(self).spent_spoons >= e {
                        old(self).spent_spoons - e
                    } else {
                        0
                    }
                    &&& final(self).confirmed_task_ids@ == old(self).confirmed_task_ids@.push(
                        task_id,
                    )
                },
                None => {
                    &&& completed_views(final(self).completed_tasks@) == completed_views(
                        old(self).completed_tasks@,
                    )
                    &&& final(self).spent_spoons == old(self).spent_spoons
                    &&& final(self).confirmed_task_ids@ == old(self).confirmed_task_ids@
                },
            },
    {
        let ghost cs = self.completed_tasks@;
        let mut i: usize = 0;
        while i < self.completed_tasks.len()
            invariant
                i <= self.completed_tasks.len(),
                cs == self.completed_tasks@,
                cs == old(self).completed_tasks@,
                self.date == old(self).date,
                self.spoon_budget == old(self).spoon_budget,
                self.spent_spoons == old(self).spent_spoons,
                self.active_contexts@ == old(self).active_contexts@,
                self.confirmed_task_ids@ == old(self).confirmed_task_ids@,
                self.picked_media_ids@ == old(self).picked_media_ids@,
                self.picked_shopping_ids@ == old(self).picked_shopping_ids@,
                forall|j: int| 0 <= j < i ==> cs[j].id != task_id,
            decreases self.completed_tasks.len() - i,
        {
            if self.completed_tasks[i].id == task_id {
                assert(first_completed(cs, task_id) == Some(i as int)) by {
                    assert(0 <= i < cs.len() && cs[i as int].id == task_id);
                    let c = choose|k: int|
                        0 <= k < cs.len() && cs[k].id == task_id && forall|j: int|
                            0 <= j < k ==> cs[j].id != task_id;
                    assert(c == i);
                }
                let ct = self.completed_tasks.remove(i);
                assert(completed_views(self.completed_tasks@) =~= completed_views(cs.remove(i as int)));
                let spoons = match ct.esc {
                    Some(e) => e,
                    None => 0,
                };
                self.spent_spoons = self.spent_spoons.saturating_sub(spoons);
                self.confirmed_task_ids.push(task_id);
                return;
            }
            i = i + 1;
        }
        assert(first_completed(cs, task_id) is None);
    }
}

} // verus!
