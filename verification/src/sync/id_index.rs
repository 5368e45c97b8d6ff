//! The tasks of a list by identifier: a hash map from an identifier's
//! value to the place of the last task that has it.

use std::collections::HashMap;
use vstd::prelude::*;

use crate::ids::Uuid;
use crate::model::task::{Task, TaskView};
use crate::sync::engine::{last_with_id, task_views};

verus! {

broadcast use vstd::std_specs::hash::group_hash_axioms;

/// `m` maps each identifier value of the list to the place of the last
/// task with it, and holds no other key.
pub open spec fn id_index_ok(m: Map<u128, usize>, tv: Seq<TaskView>) -> bool {
    &&& forall|k: u128| #[trigger] m.contains_key(k) ==> {
        &&& m[k] < tv.len()
        &&& tv[m[k] as int].id.value == k
        &&& forall|j: int| m[k] < j < tv.len() ==> tv[j].id.value != k
    }
    &&& forall|j: int| 0 <= j < tv.len() ==> m.contains_key(#[trigger] tv[j].id.value)
}

proof fn lemma_last_with_id_at(tv: Seq<TaskView>, id: Uuid, i: int)
    requires
        0 <= i < tv.len(),
        tv[i].id == id,
        forall|j: int| i < j < tv.len() ==> tv[j].id != id,
    ensures
        last_with_id(tv, id) == Some(tv[i]),
    decreases tv.len(),
{
    if i < tv.len() - 1 {
        assert(tv.last().id != id);
        let init = tv.drop_last();
        assert forall|j: int| i < j < init.len() implies init[j].id != id by {
            assert(init[j] == tv[j]);
        }
        lemma_last_with_id_at(init, id, i);
        assert(init[i] == tv[i]);
    }
}

proof fn lemma_last_with_id_none(tv: Seq<TaskView>, id: Uuid)
    requires
        forall|j: int| 0 <= j < tv.len() ==> tv[j].id != id,
    ensures
        last_with_id(tv, id) is None,
    decreases tv.len(),
{
    if tv.len() > 0 {
        let init = tv.drop_last();
        assert(tv.last() == tv[tv.len() - 1]);
        assert forall|j: int| 0 <= j < init.len() implies init[j].id != id by {
            assert(init[j] == tv[j]);
        }
        lemma_last_with_id_none(init, id);
    }
}

/// The index of a list of tasks.
pub fn id_index(tasks: &[Task]) -> (m: HashMap<u128, usize>)
    ensures
        id_index_ok(m@, task_views(tasks@)),
{
    let ghost tv = task_views(tasks@);
    let mut m: HashMap<u128, usize> = HashMap::new();
    let mut i: usize = 0;
    assert(tv.take(0).len() == 0);
    while i < tasks.len()
        invariant
            i <= tasks@.len(),
            tv == task_views(tasks@),
            id_index_ok(m@, tv.take(i as int)),
        decreases tasks.len() - i,
    {
        let ghost m0 = m@;
        let ghost t0 = tv.take(i as int);
        let ghost t1 = tv.take(i + 1);
        let key = tasks[i].id.value;
        assert(tv[i as int] == tasks@[i as int]@);
        m.insert(key, i);
        proof {
            assert forall|k: u128| #[trigger] m@.contains_key(k) implies {
                &&& m@[k] < t1.len()
                &&& t1[m@[k] as int].id.value == k
                &&& forall|j: int| m@[k] < j < t1.len() ==> t1[j].id.value != k
            } by {
                if k == key {
                    assert(t1[i as int] == tv[i as int]);
                } else {
                    assert(m0.contains_key(k));
                    assert(t1[m0[k] as int] == t0[m0[k] as int]);
                    assert forall|j: int| m@[k] < j < t1.len() implies t1[j].id.value != k by {
                        if j < i {
                            assert(t1[j] == t0[j]);
                        } else {
                            assert(t1[j] == tv[i as int]);
                        }
                    }
                }
            }
            assert forall|j: int| 0 <= j < t1.len() implies m@.contains_key(#[trigger] t1[j].id.value) by {
                if j < i {
                    assert(t1[j] == t0[j]);
                } else {
                    assert(t1[j] == tv[i as int]);
                }
            }
        }
        i = i + 1;
    }
    assert(tv.take(tasks.len() as int) =~= tv);
    m
}

/// The place of the last task with the identifier, found in the index.
pub fn last_with_id_in(idx: &HashMap<u128, usize>, tasks: &[Task], id: Uuid) -> (r: Option<usize>)
    requires
        id_index_ok(idx@, task_views(tasks@)),
    ensures
        match r {
            Some(i) => i < tasks@.len() && last_with_id(task_views(tasks@), id) == Some(tasks@[i as int]@),
            None => last_with_id(task_views(tasks@), id) is None,
        },
{
    let ghost tv = task_views(tasks@);
    match idx.get(&id.value) {
        Some(i) => {
            let i = *i;
            proof {
                assert(idx@.contains_key(id.value));
                assert(tv[i as int].id == id);
                assert forall|j: int| i < j < tv.len() implies tv[j].id != id by {
                    assert(tv[j].id.value != id.value);
                }
                lemma_last_with_id_at(tv, id, i as int);
            }
            Some(i)
        },
        None => {
            proof {
                assert forall|j: int| 0 <= j < tv.len() implies tv[j].id != id by {
                    assert(idx@.contains_key(tv[j].id.value));
                }
                lemma_last_with_id_none(tv, id);
            }
            None
        },
    }
}

} // verus!
