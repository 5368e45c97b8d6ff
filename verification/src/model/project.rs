//! Projects: a named outcome with its tasks.

use vstd::prelude::*;

use crate::ids::Uuid;
use crate::model::task::{state_is_done, Task, TaskState};

verus! {

#[derive(Debug, Clone)]
pub struct Project {
    pub id: Uuid,
    pub name: String,
    pub tasks: Vec<Task>,
    pub purpose: String,
    pub outcome: String,
    pub brainstorm: String,
}

/// The index of the first task in state `s`.
pub open spec fn first_in_state(ts: Seq<Task>, s: TaskState) -> Option<int> {
    if exists|i: int| 0 <= i < ts.len() && ts[i].state == s {
        Some(
            choose|i: int|
                0 <= i < ts.len() && ts[i].state == s && forall|j: int|
                    0 <= j < i ==> ts[j].state != s,
        )
    } else {
        None
    }
}

/// The next action: the first NEXT task, else the first TODO task.
pub open spec fn next_action_index(ts: Seq<Task>) -> Option<int> {
    match first_in_state(ts, TaskState::Next) {
        Some(i) => Some(i),
        None => first_in_state(ts, TaskState::Todo),
    }
}

pub open spec fn done_count(ts: Seq<Task>) -> nat {
    ts.filter(|t: Task| state_is_done(t.state)).len()
}

fn find_state(ts: &Vec<Task>, s: TaskState) -> (r: Option<usize>)
    ensures
        match r {
            Some(i) => first_in_state(ts@, s) == Some(i as int),
            None => first_in_state(ts@, s) is None,
        },
        r matches Some(i) ==> i < ts.len(),
{
    let mut i: usize = 0;
    while i < ts.len()
        invariant
            i <= ts.len(),
            forall|j: int| 0 <= j < i ==> ts@[j].state != s,
        decreases ts.len() - i,
    {
        if ts[i].state == s {
            assert(first_in_state(ts@, s) == Some(i as int)) by {
                assert(0 <= i < ts@.len() && ts@[i as int].state == s);
                let c = choose|k: int|
                    0 <= k < ts@.len() && ts@[k].state == s && forall|j: int|
                        0 <= j < k ==> ts@[j].state != s;
                assert(c == i);
            }
            return Some(i);
        }
        i = i + 1;
    }
    None
}

impl Project {
    /// A new empty project with a fresh random identifier.
    pub fn new(name: &str) -> (r: Project)
        ensures
            r.name@ == name@,
            r.tasks@.len() == 0,
            r.purpose@.len() == 0,
            r.outcome@.len() == 0,
            r.brainstorm@.len() == 0,
    {
        Project {
            id: Uuid::new_v4(),
            name: name.to_owned(),
            tasks: Vec::new(),
            purpose: String::new(),
            outcome: String::new(),
            brainstorm: String::new(),
        }
    }

    /// The first NEXT task, else the first TODO task.
    pub fn next_action(&self) -> (r: Option<&Task>)
        ensures
            match next_action_index(self.tasks@) {
                Some(i) => r == Some(&self.tasks@[i]),
                None => r is None,
            },
    {
        match find_state(&self.tasks, TaskState::Next) {
            Some(i) => Some(&self.tasks[i]),
            None => match find_state(&self.tasks, TaskState::Todo) {
                Some(i) => Some(&self.tasks[i]),
                None => None,
            },
        }
    }

    /// A project is stuck when it has an unfinished task but no next action.
    pub fn is_stuck(&self) -> (r: bool)
        ensures
            r == ((exists|i: int|
                0 <= i < self.tasks@.len() && !state_is_done(#[trigger] self.tasks@[i].state))
                && next_action_index(self.tasks@) is None),
    {
        let mut any_active = false;
        let mut i: usize = 0;
        while i < self.tasks.len()
            invariant
                i <= self.tasks.len(),
                any_active == exists|j: int|
                    0 <= j < i && !state_is_done(#[trigger] self.tasks@[j].state),
            decreases self.tasks.len() - i,
        {
            if self.tasks[i].state.is_active() {
                any_active = true;
            }
            i = i + 1;
        }
        any_active && self.next_action().is_none()
    }

    /// (finished tasks, all tasks).
    pub fn completion_ratio(&self) -> (r: (usize, usize))
        ensures
            r.0 == done_count(self.tasks@),
            r.1 == self.tasks@.len(),
    {
        let ghost ts = self.tasks@;
        let mut done: usize = 0;
        let mut i: usize = 0;
        while i < self.tasks.len()
            invariant
                i <= self.tasks.len(),
                ts == self.tasks@,
                done == ts.take(i as int).filter(|t: Task| state_is_done(t.state)).len(),
                done <= i,
            decreases self.tasks.len() - i,
        {
            proof {
                reveal(Seq::filter);
                assert(ts.take(i + 1).drop_last() =~= ts.take(i as int));
            }
            if self.tasks[i].state.is_done() {
                done = done + 1;
            }
            i = i + 1;
        }
        assert(ts.take(ts.len() as int) =~= ts);
        (done, self.tasks.len())
    }
}

} // verus!
