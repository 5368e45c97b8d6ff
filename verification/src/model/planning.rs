//! Daily planning: which open tasks are suggested for the day, and in what
//! order (urgent ones first, then by priority, then by spoon cost).

use vstd::prelude::*;

use crate::dates::Date;
use crate::ids::Uuid;
use crate::model::task::{state_is_done, strs, Priority, Task, TaskState, TaskView};
use crate::org::convert::contains_str;
use crate::text::{decimal, push_decimal, str_eq, string_of};

verus! {

/// The rank of a priority: A first, no priority last.
pub open spec fn rank_of(p: Option<Priority>) -> u8 {
    match p {
        Some(Priority::A) => 0,
        Some(Priority::B) => 1,
        Some(Priority::C) => 2,
        None => 3,
    }
}

/// The rank of a priority: A first, no priority last.
pub fn priority_rank(p: Option<Priority>) -> (r: u8)
    ensures
        r == rank_of(p),
{
    match p {
        Some(Priority::A) => 0,
        Some(Priority::B) => 1,
        Some(Priority::C) => 2,
        None => 3,
    }
}

/// Whether the date is set and not after `today`.
pub open spec fn due_by(d: Option<Date>, today: Date) -> bool {
    d matches Some(x) && x.num() <= today.num()
}

/// Whether the task is urgent on `today`: scheduled or due by then.
pub open spec fn urgent(t: TaskView, today: Date) -> bool {
    due_by(t.scheduled, today) || due_by(t.deadline, today)
}

/// Whether the task may be suggested: open and eligible (next action, or
/// scheduled or due by today), neither confirmed nor rejected, without
/// contexts or sharing one with the active ones, and costing no more
/// spoons than remain.
pub open spec fn suggestible(
    t: TaskView,
    confirmed: Seq<Uuid>,
    rejected: Seq<Uuid>,
    active: Seq<Seq<char>>,
    budget: u32,
    today: Date,
) -> bool {
    &&& (t.state == TaskState::Next || urgent(t, today))
    &&& !state_is_done(t.state)
    &&& !confirmed.contains(t.id)
    &&& !rejected.contains(t.id)
    &&& (t.contexts.len() == 0 || exists|i: int|
        0 <= i < t.contexts.len() && active.contains(#[trigger] t.contexts[i]))
    &&& (t.esc matches Some(e) ==> e <= budget)
}

/// The order of suggestions, as one number: urgent first, then the
/// priority rank, then the spoon cost (none counts as 0).
pub open spec fn sugg_key(t: TaskView, today: Date) -> int {
    (if urgent(t, today) {
        0int
    } else {
        1int
    }) * 0x4_0000_0000 + rank_of(t.priority) * 0x1_0000_0000 + match t.esc {
        Some(e) => e as int,
        None => 0int,
    }
}

/// `x` put into `s` after every task whose key is not greater.
pub open spec fn insert_by_key(s: Seq<TaskView>, x: TaskView, today: Date) -> Seq<TaskView>
    decreases s.len(),
{
    if s.len() == 0 {
        seq![x]
    } else if sugg_key(s.last(), today) <= sugg_key(x, today) {
        s.push(x)
    } else {
        insert_by_key(s.drop_last(), x, today).push(s.last())
    }
}

/// The tasks stably sorted by key.
pub open spec fn sort_by_key(s: Seq<TaskView>, today: Date) -> Seq<TaskView>
    decreases s.len(),
{
    if s.len() == 0 {
        seq![]
    } else {
        insert_by_key(sort_by_key(s.drop_last(), today), s.last(), today)
    }
}

/// The suggestible tasks, in their order.
pub open spec fn candidates(
    ts: Seq<TaskView>,
    confirmed: Seq<Uuid>,
    rejected: Seq<Uuid>,
    active: Seq<Seq<char>>,
    budget: u32,
    today: Date,
) -> Seq<TaskView>
    decreases ts.len(),
{
    if ts.len() == 0 {
        seq![]
    } else {
        let rest = candidates(ts.drop_last(), confirmed, rejected, active, budget, today);
        if suggestible(ts.last(), confirmed, rejected, active, budget, today) {
            rest.push(ts.last())
        } else {
            rest
        }
    }
}

pub open spec fn task_views(ts: Seq<Task>) -> Seq<TaskView> {
    ts.map_values(|t: Task| t@)
}

/// Whether the tasks are in suggestion order.
pub open spec fn sorted_by_key(s: Seq<TaskView>, today: Date) -> bool {
    forall|i: int, j: int| 0 <= i < j < s.len() ==> sugg_key(s[i], today) <= sugg_key(s[j], today)
}

fn uuid_in(ids: &[Uuid], id: Uuid) -> (r: bool)
    ensures
        r == ids@.contains(id),
{
    let mut i: usize = 0;
    while i < ids.len()
        invariant
            i <= ids.len(),
            forall|j: int| 0 <= j < i ==> ids@[j] != id,
        decreases ids.len() - i,
    {
        if ids[i] == id {
            return true;
        }
        i = i + 1;
    }
    false
}

fn str_in(v: &[String], s: &String) -> (r: bool)
    ensures
        r == strs(v@).contains(s@),
{
    let mut i: usize = 0;
    while i < v.len()
        invariant
            i <= v.len(),
            forall|j: int| 0 <= j < i ==> strs(v@)[j] != s@,
        decreases v.len() - i,
    {
        if str_eq(v[i].as_str(), s.as_str()) {
            assert(strs(v@)[i as int] == s@);
            return true;
        }
        i = i + 1;
    }
    false
}

fn shares_context(t: &Task, active: &[String]) -> (r: bool)
    ensures
        r == exists|i: int| 0 <= i < t@.contexts.len() && strs(active@).contains(#[trigger] t@.contexts[i]),
{
    let mut i: usize = 0;
    while i < t.contexts.len()
        invariant
            i <= t.contexts.len(),
            forall|j: int| 0 <= j < i ==> !strs(active@).contains(#[trigger] t@.contexts[j]),
        decreases t.contexts.len() - i,
    {
        if str_in(active, &t.contexts[i]) {
            assert(strs(active@).contains(t@.contexts[i as int]));
            return true;
        }
        i = i + 1;
    }
    false
}

fn due_by_exec(d: Option<Date>, today: &Date) -> (r: bool)
    ensures
        r == due_by(d, *today),
{
    match d {
        Some(x) => !today.is_before(&x),
        None => false,
    }
}

fn suggestible_exec(
    t: &Task,
    confirmed: &[Uuid],
    rejected: &[Uuid],
    active: &[String],
    budget: u32,
    today: &Date,
) -> (r: bool)
    ensures
        r == suggestible(t@, confirmed@, rejected@, strs(active@), budget, *today),
{
    let eligible = t.state == TaskState::Next || due_by_exec(t.scheduled, today) || due_by_exec(
        t.deadline,
        today,
    );
    if !eligible || t.state.is_done() {
        return false;
    }
    if uuid_in(confirmed, t.id) || uuid_in(rejected, t.id) {
        return false;
    }
    if t.contexts.len() > 0 {
        if !shares_context(t, active) {
            return false;
        }
    }
    match t.esc {
        Some(e) => e <= budget,
        None => true,
    }
}

fn key_exec(t: &Task, today: &Date) -> (r: u64)
    ensures
        r == sugg_key(t@, *today),
{
    let u: u64 = if due_by_exec(t.scheduled, today) || due_by_exec(t.deadline, today) {
        0
    } else {
        1
    };
    let rank = priority_rank(t.priority) as u64;
    let e: u64 = match t.esc {
        Some(x) => x as u64,
        None => 0,
    };
    u * 0x4_0000_0000 + rank * 0x1_0000_0000 + e
}

proof fn lemma_insert_at(s: Seq<TaskView>, x: TaskView, j: int, today: Date)
    requires
        0 <= j <= s.len(),
        forall|i: int| j <= i < s.len() ==> sugg_key(#[trigger] s[i], today) > sugg_key(x, today),
        j > 0 ==> sugg_key(s[j - 1], today) <= sugg_key(x, today),
    ensures
        insert_by_key(s, x, today) == s.insert(j, x),
    decreases s.len(),
{
    if s.len() == 0 {
        assert(s.insert(j, x) =~= seq![x]);
    } else if j == s.len() {
        assert(s.insert(j, x) =~= s.push(x));
    } else {
        let t = s.drop_last();
        assert(sugg_key(s[s.len() - 1], today) > sugg_key(x, today));
        assert forall|i: int| j <= i < t.len() implies sugg_key(#[trigger] t[i], today) > sugg_key(x, today) by {
            assert(t[i] == s[i]);
        }
        if j > 0 {
            assert(t[j - 1] == s[j - 1]);
        }
        lemma_insert_at(t, x, j, today);
        assert(t.insert(j, x).push(s.last()) =~= s.insert(j, x));
    }
}

proof fn lemma_insert_members(s: Seq<TaskView>, x: TaskView, i: int, today: Date)
    requires
        0 <= i < s.len() + 1,
    ensures
        insert_by_key(s, x, today).len() == s.len() + 1,
        insert_by_key(s, x, today)[i] == x || exists|k: int|
            0 <= k < s.len() && #[trigger] s[k] == insert_by_key(s, x, today)[i],
    decreases s.len(),
{
    if s.len() == 0 {
    } else if sugg_key(s.last(), today) <= sugg_key(x, today) {
        if i < s.len() {
            assert(s[i] == insert_by_key(s, x, today)[i]);
        }
    } else {
        let t = s.drop_last();
        if i < s.len() {
            lemma_insert_members(t, x, i, today);
            if insert_by_key(s, x, today)[i] != x {
                let k = choose|k: int| 0 <= k < t.len() && #[trigger] t[k] == insert_by_key(t, x, today)[i];
                assert(s[k] == t[k]);
            }
        } else {
            lemma_insert_members(t, x, 0, today);
            assert(s[s.len() - 1] == insert_by_key(s, x, today)[i]);
        }
    }
}

proof fn lemma_insert_sorted(s: Seq<TaskView>, x: TaskView, today: Date)
    requires
        sorted_by_key(s, today),
    ensures
        sorted_by_key(insert_by_key(s, x, today), today),
        insert_by_key(s, x, today).len() == s.len() + 1,
    decreases s.len(),
{
    if s.len() > 0 && sugg_key(s.last(), today) > sugg_key(x, today) {
        let t = s.drop_last();
        lemma_insert_sorted(t, x, today);
        let u = insert_by_key(t, x, today);
        assert forall|i: int| 0 <= i < u.len() implies sugg_key(#[trigger] u[i], today) <= sugg_key(
            s.last(),
            today,
        ) by {
            lemma_insert_members(t, x, i, today);
        }
    }
}

/// The suggestions are in order: urgent tasks first, then by priority,
/// then by spoon cost.
pub proof fn lemma_suggestions_sorted(s: Seq<TaskView>, today: Date)
    ensures
        sorted_by_key(sort_by_key(s, today), today),
        sort_by_key(s, today).len() == s.len(),
    decreases s.len(),
{
    if s.len() > 0 {
        lemma_suggestions_sorted(s.drop_last(), today);
        lemma_insert_sorted(sort_by_key(s.drop_last(), today), s.last(), today);
    }
}

fn insert_sorted(v: &mut Vec<Task>, x: Task, today: &Date)
    requires
        sorted_by_key(task_views(old(v)@), *today),
    ensures
        task_views(final(v)@) == insert_by_key(task_views(old(v)@), x@, *today),
        sorted_by_key(task_views(final(v)@), *today),
{
    let ghost s = task_views(v@);
    let key = key_exec(&x, today);
    let mut j: usize = v.len();
    while j > 0 && key_exec(&v[j - 1], today) > key
        invariant
            j <= v.len(),
            s == task_views(v@),
            key == sugg_key(x@, *today),
            forall|i: int| j <= i < s.len() ==> sugg_key(#[trigger] s[i], *today) > sugg_key(x@, *today),
        decreases j,
    {
        j = j - 1;
    }
    proof {
        lemma_insert_at(s, x@, j as int, *today);
        lemma_insert_sorted(s, x@, *today);
    }
    v.insert(j, x);
    assert(task_views(v@) =~= s.insert(j as int, x@));
}

/// The tasks suggested for the day: the suggestible ones, stably sorted
/// with urgent tasks first, then by priority (A, B, C, none), then by
/// spoon cost.
pub fn build_suggestions(
    all_tasks: &[Task],
    confirmed_ids: &[Uuid],
    rejected: &[Uuid],
    active_contexts: &[String],
    remaining_budget: u32,
    today: Date,
) -> (r: Vec<Task>)
    ensures
        task_views(r@) == sort_by_key(
            candidates(
                task_views(all_tasks@),
                confirmed_ids@,
                rejected@,
                strs(active_contexts@),
                remaining_budget,
                today,
            ),
            today,
        ),
{
    let ghost tv = task_views(all_tasks@);
    let ghost act = strs(active_contexts@);
    let mut r: Vec<Task> = Vec::new();
    let mut i: usize = 0;
    while i < all_tasks.len()
        invariant
            i <= all_tasks@.len(),
            tv == task_views(all_tasks@),
            act == strs(active_contexts@),
            task_views(r@) == sort_by_key(
                candidates(tv.take(i as int), confirmed_ids@, rejected@, act, remaining_budget, today),
                today,
            ),
            sorted_by_key(task_views(r@), today),
        decreases all_tasks.len() - i,
    {
        assert(tv.take(i + 1).drop_last() =~= tv.take(i as int));
        assert(tv.take(i + 1).last() == all_tasks@[i as int]@);
        let ghost c0 = candidates(tv.take(i as int), confirmed_ids@, rejected@, act, remaining_budget, today);
        if suggestible_exec(&all_tasks[i], confirmed_ids, rejected, active_contexts, remaining_budget, &today) {
            assert(c0.push(tv[i as int]).drop_last() =~= c0);
            insert_sorted(&mut r, all_tasks[i].duplicate(), &today);
        }
        i = i + 1;
    }
    assert(tv.take(all_tasks.len() as int) =~= tv);
    r
}


/// Whether a task belongs in the inbox: a TODO of no project that is not a
/// habit (neither tagged `habit` nor repeating).
pub fn is_inbox_task(task: &Task) -> (r: bool)
    ensures
        r == (task@.state == TaskState::Todo && task@.project is None && !task@.extra_tags.contains(
            "habit"@,
        ) && task@.recurrence is None),
{
    proof {
        reveal_strlit("habit");
    }
    task.state == TaskState::Todo && task.project.is_none() && !contains_str(&task.extra_tags, "habit")
        && task.recurrence.is_none()
}

/// Whether the weekly review counts a task as unprocessed: a TODO of no
/// project.
pub fn is_unprocessed(task: &Task) -> (r: bool)
    ensures
        r == (task@.state == TaskState::Todo && task@.project is None),
{
    task.state == TaskState::Todo && task.project.is_none()
}

/// An integer in decimal, with a minus sign when negative.
pub open spec fn signed_decimal(x: int) -> Seq<char> {
    if x < 0 {
        seq!['-'] + decimal((-x) as nat)
    } else {
        decimal(x as nat)
    }
}

/// An integer in decimal, zero-padded to two characters.
pub open spec fn two_digits(x: int) -> Seq<char> {
    if 0 <= x < 10 {
        seq!['0'] + decimal(x as nat)
    } else {
        signed_decimal(x)
    }
}

/// Quotient and remainder as Rust's `/` and `%` compute them (rounding
/// toward zero).
pub open spec fn tdiv(a: int, b: int) -> int {
    if a >= 0 {
        a / b
    } else {
        -((-a) / b)
    }
}

pub open spec fn trem(a: int, b: int) -> int {
    a - tdiv(a, b) * b
}

/// A timer's elapsed seconds as `Hh MMm` from an hour on, else `Mm SSs`.
pub open spec fn duration_text(secs: int) -> Seq<char> {
    let h = tdiv(secs, 3600);
    let m = tdiv(trem(secs, 3600), 60);
    let s = trem(secs, 60);
    if h > 0 {
        signed_decimal(h) + seq!['h', ' '] + two_digits(m) + seq!['m']
    } else {
        signed_decimal(m) + seq!['m', ' '] + two_digits(s) + seq!['s']
    }
}

fn push_signed(v: &mut Vec<char>, x: i64)
    ensures
        final(v)@ == old(v)@ + signed_decimal(x as int),
{
    if x < 0 {
        v.push('-');
        let ghost mid = v@;
        let n: u64 = if x == i64::MIN {
            0x8000_0000_0000_0000u64
        } else {
            (-x) as u64
        };
        push_decimal(v, n);
        assert(v@ =~= old(v)@ + signed_decimal(x as int));
    } else {
        push_decimal(v, x as u64);
    }
}

fn push_two(v: &mut Vec<char>, x: i64)
    ensures
        final(v)@ == old(v)@ + two_digits(x as int),
{
    if 0 <= x && x < 10 {
        v.push('0');
        push_decimal(v, x as u64);
        assert(v@ =~= old(v)@ + two_digits(x as int));
    } else {
        push_signed(v, x);
    }
}

/// The elapsed time of the work timer.
pub fn format_duration(secs: i64) -> (r: String)
    ensures
        r@ == duration_text(secs as int),
{
    let h = secs / 3600;
    let m = (secs % 3600) / 60;
    let s = secs % 60;
    let mut v: Vec<char> = Vec::new();
    if h > 0 {
        push_signed(&mut v, h);
        v.push('h');
        v.push(' ');
        push_two(&mut v, m);
        v.push('m');
    } else {
        push_signed(&mut v, m);
        v.push('m');
        v.push(' ');
        push_two(&mut v, s);
        v.push('s');
    }
    assert(v@ =~= duration_text(secs as int));
    string_of(v.as_slice())
}

proof fn lemma_sort_members(s: Seq<TaskView>, today: Date, i: int)
    requires
        0 <= i < sort_by_key(s, today).len(),
    ensures
        s.contains(sort_by_key(s, today)[i]),
    decreases s.len(),
{
    lemma_suggestions_sorted(s, today);
    let t = s.drop_last();
    lemma_suggestions_sorted(t, today);
    let st = sort_by_key(t, today);
    lemma_insert_members(st, s.last(), i, today);
    let x = sort_by_key(s, today)[i];
    if x == s.last() {
        assert(s[s.len() - 1] == x);
    } else {
        let k = choose|k: int| 0 <= k < st.len() && #[trigger] st[k] == x;
        lemma_sort_members(t, today, k);
        let j = choose|j: int| 0 <= j < t.len() && t[j] == x;
        assert(s[j] == x);
    }
}

proof fn lemma_candidates_only(
    ts: Seq<TaskView>,
    confirmed: Seq<Uuid>,
    rejected: Seq<Uuid>,
    active: Seq<Seq<char>>,
    budget: u32,
    today: Date,
    x: TaskView,
)
    requires
        candidates(ts, confirmed, rejected, active, budget, today).contains(x),
    ensures
        suggestible(x, confirmed, rejected, active, budget, today),
        ts.contains(x),
    decreases ts.len(),
{
    let rest = candidates(ts.drop_last(), confirmed, rejected, active, budget, today);
    let c = candidates(ts, confirmed, rejected, active, budget, today);
    let k = choose|k: int| 0 <= k < c.len() && c[k] == x;
    if k < rest.len() {
        if suggestible(ts.last(), confirmed, rejected, active, budget, today) {
            assert(c[k] == rest[k]);
        }
        assert(rest.contains(x));
        lemma_candidates_only(ts.drop_last(), confirmed, rejected, active, budget, today, x);
        let j = choose|j: int| 0 <= j < ts.drop_last().len() && ts.drop_last()[j] == x;
        assert(ts[j] == x);
    } else {
        assert(x == ts.last());
        assert(ts[ts.len() - 1] == x);
    }
}

/// Every suggestion is an open task of the list that the user has
/// neither confirmed nor rejected today, that is next or urgent, and that
/// costs no more spoons than remain.
pub proof fn lemma_suggestions_respect_choices(
    ts: Seq<TaskView>,
    confirmed: Seq<Uuid>,
    rejected: Seq<Uuid>,
    active: Seq<Seq<char>>,
    budget: u32,
    today: Date,
    k: int,
)
    requires
        0 <= k < sort_by_key(candidates(ts, confirmed, rejected, active, budget, today), today).len(),
    ensures
        ({
            let x = sort_by_key(candidates(ts, confirmed, rejected, active, budget, today), today)[k];
            &&& ts.contains(x)
            &&& !rejected.contains(x.id)
            &&& !confirmed.contains(x.id)
            &&& !state_is_done(x.state)
            &&& (x.state == TaskState::Next || urgent(x, today))
            &&& (x.esc matches Some(e) ==> e <= budget)
        }),
{
    let c = candidates(ts, confirmed, rejected, active, budget, today);
    lemma_sort_members(c, today, k);
    let x = sort_by_key(c, today)[k];
    lemma_candidates_only(ts, confirmed, rejected, active, budget, today, x);
}

proof fn lemma_insert_keeps(s: Seq<TaskView>, x: TaskView, today: Date)
    ensures
        insert_by_key(s, x, today).contains(x),
        forall|y: TaskView| s.contains(y) ==> insert_by_key(s, x, today).contains(y),
    decreases s.len(),
{
    let u = insert_by_key(s, x, today);
    if s.len() == 0 {
        assert(u[0] == x);
    } else if sugg_key(s.last(), today) <= sugg_key(x, today) {
        assert(u[s.len() as int] == x);
        assert forall|y: TaskView| s.contains(y) implies u.contains(y) by {
            let k = choose|k: int| 0 <= k < s.len() && s[k] == y;
            assert(u[k] == y);
        }
    } else {
        let t = s.drop_last();
        lemma_insert_keeps(t, x, today);
        let v = insert_by_key(t, x, today);
        assert(u == v.push(s.last()));
        let kx = choose|k: int| 0 <= k < v.len() && v[k] == x;
        assert(u[kx] == x);
        assert forall|y: TaskView| s.contains(y) implies u.contains(y) by {
            let k = choose|k: int| 0 <= k < s.len() && s[k] == y;
            if k == s.len() - 1 {
                assert(u[v.len() as int] == y);
            } else {
                assert(t[k] == y);
                assert(t.contains(y));
                let kk = choose|kk: int| 0 <= kk < v.len() && v[kk] == y;
                assert(u[kk] == y);
            }
        }
    }
}

proof fn lemma_sort_keeps(s: Seq<TaskView>, today: Date, x: TaskView)
    requires
        s.contains(x),
    ensures
        sort_by_key(s, today).contains(x),
    decreases s.len(),
{
    let t = s.drop_last();
    lemma_insert_keeps(sort_by_key(t, today), s.last(), today);
    if x != s.last() {
        let k = choose|k: int| 0 <= k < s.len() && s[k] == x;
        assert(t[k] == x);
        lemma_sort_keeps(t, today, x);
    }
}

proof fn lemma_candidates_has(
    ts: Seq<TaskView>,
    confirmed: Seq<Uuid>,
    rejected: Seq<Uuid>,
    active: Seq<Seq<char>>,
    budget: u32,
    today: Date,
    i: int,
)
    requires
        0 <= i < ts.len(),
        suggestible(ts[i], confirmed, rejected, active, budget, today),
    ensures
        candidates(ts, confirmed, rejected, active, budget, today).contains(ts[i]),
    decreases ts.len(),
{
    let rest = candidates(ts.drop_last(), confirmed, rejected, active, budget, today);
    if i == ts.len() - 1 {
        assert(rest.push(ts.last())[rest.len() as int] == ts[i]);
    } else {
        assert(ts.drop_last()[i] == ts[i]);
        lemma_candidates_has(ts.drop_last(), confirmed, rejected, active, budget, today, i);
        let k = choose|k: int| 0 <= k < rest.len() && rest[k] == ts[i];
        if suggestible(ts.last(), confirmed, rejected, active, budget, today) {
            assert(rest.push(ts.last())[k] == ts[i]);
        }
    }
}

/// An open next action of the list that the user has neither confirmed
/// nor rejected, with no contexts and no spoon cost, is always suggested.
pub proof fn lemma_free_next_action_suggested(
    ts: Seq<TaskView>,
    confirmed: Seq<Uuid>,
    rejected: Seq<Uuid>,
    active: Seq<Seq<char>>,
    budget: u32,
    today: Date,
    i: int,
)
    requires
        0 <= i < ts.len(),
        ts[i].state == TaskState::Next,
        !confirmed.contains(ts[i].id),
        !rejected.contains(ts[i].id),
        ts[i].contexts.len() == 0,
        ts[i].esc is None,
    ensures
        sort_by_key(candidates(ts, confirmed, rejected, active, budget, today), today).contains(ts[i]),
{
    lemma_candidates_has(ts, confirmed, rejected, active, budget, today, i);
    lemma_sort_keeps(candidates(ts, confirmed, rejected, active, budget, today), today, ts[i]);
}

} // verus!
