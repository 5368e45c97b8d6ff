//! Merging the local and the remote copy of a task.
//!
//! Field by field: a field the remote side changed (compared with the
//! common base) takes the remote value; otherwise the local value stays.
//! So a change made on one side only is kept, and when both sides changed
//! a field the remote value wins. The work records are never lost: the
//! logbook is the union of both sides in time order, the clock entries are
//! the union of both sides, and so are the extra tags when the remote side
//! has any.

use vstd::prelude::*;

use crate::dates::{dt_lt, lemma_dt_lt_order, Date, DateTime};
use crate::model::task::{copy_opt_string, copy_strings, opt_str, strs, Task, TaskView};
use crate::text::str_eq;

verus! {

/// The merged value of one field.
pub open spec fn pick<A>(local: A, remote: A, base: A) -> A {
    if remote != base {
        remote
    } else {
        local
    }
}

/// The entries of `s` in order, each repeat after its first occurrence
/// left out.
pub open spec fn dedup<A>(s: Seq<A>) -> Seq<A>
    decreases s.len(),
{
    if s.len() == 0 {
        seq![]
    } else {
        let d = dedup(s.drop_last());
        if d.contains(s.last()) {
            d
        } else {
            d.push(s.last())
        }
    }
}

/// The union of two lists: the remote entries, then the local ones that are
/// not among them, without repeats.
pub open spec fn union_list<A>(r: Seq<A>, l: Seq<A>) -> Seq<A> {
    dedup(r + l)
}

/// The times in strictly increasing order (so none twice).
pub open spec fn time_sorted(s: Seq<DateTime>) -> bool {
    forall|i: int, j: int| 0 <= i < j < s.len() ==> dt_lt(s[i], s[j])
}

/// `u` is the sorted union of `r` and `l`: in time order, without repeats,
/// holding exactly the times of both.
pub open spec fn is_sorted_union(u: Seq<DateTime>, r: Seq<DateTime>, l: Seq<DateTime>) -> bool {
    &&& time_sorted(u)
    &&& forall|x: DateTime| #[trigger] u.contains(x) <==> (r.contains(x) || l.contains(x))
}

/// The sorted union of two lists of times (there is exactly one).
pub open spec fn sorted_union(r: Seq<DateTime>, l: Seq<DateTime>) -> Seq<DateTime> {
    choose|u: Seq<DateTime>| is_sorted_union(u, r, l)
}

/// The extra tags of a merge: the local ones when the remote side has
/// none, otherwise the union.
pub open spec fn tag_union(r: Seq<Seq<char>>, l: Seq<Seq<char>>) -> Seq<Seq<char>> {
    if r.len() == 0 {
        l
    } else {
        union_list(r, l)
    }
}

/// The merge of `local` and `remote` against `base`: the merged fields
/// follow `pick`; the logbook is the sorted union, clock entries and extra
/// tags are unions; every other field is the local one.
pub open spec fn merge_spec(l: TaskView, r: TaskView, b: TaskView) -> TaskView {
    TaskView {
        logbook_entries: sorted_union(r.logbook_entries, l.logbook_entries),
        clock_entries: union_list(r.clock_entries, l.clock_entries),
        extra_tags: tag_union(r.extra_tags, l.extra_tags),
        title: pick(l.title, r.title, b.title),
        state: pick(l.state, r.state, b.state),
        priority: pick(l.priority, r.priority, b.priority),
        contexts: pick(l.contexts, r.contexts, b.contexts),
        scheduled: pick(l.scheduled, r.scheduled, b.scheduled),
        deadline: pick(l.deadline, r.deadline, b.deadline),
        notes: pick(l.notes, r.notes, b.notes),
        project: pick(l.project, r.project, b.project),
        waiting_for: pick(l.waiting_for, r.waiting_for, b.waiting_for),
        esc: pick(l.esc, r.esc, b.esc),
        delegated: pick(l.delegated, r.delegated, b.delegated),
        follow_up: pick(l.follow_up, r.follow_up, b.follow_up),
        completed: pick(l.completed, r.completed, b.completed),
        recurrence: pick(l.recurrence, r.recurrence, b.recurrence),
        ..l
    }
}

fn strings_eq(a: &Vec<String>, b: &Vec<String>) -> (r: bool)
    ensures
        r == (strs(a@) == strs(b@)),
{
    if a.len() != b.len() {
        assert(strs(a@).len() != strs(b@).len());
        return false;
    }
    let mut i: usize = 0;
    while i < a.len()
        invariant
            i <= a.len(),
            a.len() == b.len(),
            forall|k: int| 0 <= k < i ==> a@[k]@ == b@[k]@,
        decreases a.len() - i,
    {
        if !str_eq(a[i].as_str(), b[i].as_str()) {
            assert(strs(a@)[i as int] != strs(b@)[i as int]);
            return false;
        }
        i = i + 1;
    }
    assert(strs(a@) =~= strs(b@));
    true
}

fn opt_string_eq(a: &Option<String>, b: &Option<String>) -> (r: bool)
    ensures
        r == (opt_str(*a) == opt_str(*b)),
{
    match (a, b) {
        (Some(x), Some(y)) => str_eq(x.as_str(), y.as_str()),
        (None, None) => true,
        _ => false,
    }
}

fn opt_date_eq(a: Option<Date>, b: Option<Date>) -> (r: bool)
    ensures
        r == (a == b),
{
    match (a, b) {
        (Some(x), Some(y)) => x.is_same(&y),
        (None, None) => true,
        _ => false,
    }
}

fn opt_dt_eq(a: Option<DateTime>, b: Option<DateTime>) -> (r: bool)
    ensures
        r == (a == b),
{
    match (a, b) {
        (Some(x), Some(y)) => x.is_same(&y),
        (None, None) => true,
        _ => false,
    }
}

/// Merges one optional date field.
pub fn merge_option_date(
    target: &mut Option<Date>,
    local: Option<Date>,
    remote: Option<Date>,
    base: Option<Date>,
)
    ensures
        *final(target) == if remote != base && !(local != base && local == remote) {
            remote
        } else {
            *old(target)
        },
{
    if !opt_date_eq(local, base) && !opt_date_eq(remote, base) {
        if !opt_date_eq(local, remote) {
            *target = remote;
        }
    } else if !opt_date_eq(remote, base) {
        *target = remote;
    }
}

/// Merges one optional text field.
pub fn merge_option_string(
    target: &mut Option<String>,
    local: &Option<String>,
    remote: &Option<String>,
    base: &Option<String>,
)
    ensures
        opt_str(*final(target)) == if opt_str(*remote) != opt_str(*base) && !(opt_str(*local) != opt_str(
            *base,
        ) && opt_str(*local) == opt_str(*remote)) {
            opt_str(*remote)
        } else {
            opt_str(*old(target))
        },
{
    if !opt_string_eq(local, base) && !opt_string_eq(remote, base) {
        if !opt_string_eq(local, remote) {
            *target = copy_opt_string(remote);
        }
    } else if !opt_string_eq(remote, base) {
        *target = copy_opt_string(remote);
    }
}

/// Merges a task changed locally with its remote version, against the
/// version of the last sync.
pub fn merge_tasks(local: &Task, remote: &Task, base: &Task) -> (r: Task)
    ensures
        r@ == merge_spec(local@, remote@, base@),
{
    let mut merged = local.duplicate();
    let ghost l = local@;
    if !str_eq(remote.title.as_str(), base.title.as_str()) {
        merged.title = remote.title.clone();
    }
    if remote.state != base.state {
        merged.state = remote.state;
    }
    if remote.priority != base.priority {
        merged.priority = remote.priority;
    }
    if !strings_eq(&remote.contexts, &base.contexts) {
        merged.contexts = copy_strings(&remote.contexts);
    }
    merge_option_date(&mut merged.scheduled, local.scheduled, remote.scheduled, base.scheduled);
    merge_option_date(&mut merged.deadline, local.deadline, remote.deadline, base.deadline);
    if !str_eq(remote.notes.as_str(), base.notes.as_str()) {
        merged.notes = remote.notes.clone();
    }
    merge_option_string(&mut merged.project, &local.project, &remote.project, &base.project);
    merge_option_string(
        &mut merged.waiting_for,
        &local.waiting_for,
        &remote.waiting_for,
        &base.waiting_for,
    );
    if remote.esc != base.esc {
        merged.esc = remote.esc;
    }
    merge_option_date(&mut merged.delegated, local.delegated, remote.delegated, base.delegated);
    merge_option_date(&mut merged.follow_up, local.follow_up, remote.follow_up, base.follow_up);
    if !opt_dt_eq(remote.completed, base.completed) {
        merged.completed = remote.completed;
    }
    if remote.recurrence != base.recurrence {
        merged.recurrence = remote.recurrence;
    }
    merged.logbook_entries = union_datetimes(&remote.logbook_entries, &local.logbook_entries);
    merged.clock_entries = union_clock(&remote.clock_entries, &local.clock_entries);
    if remote.extra_tags.len() > 0 {
        merged.extra_tags = union_strings(&remote.extra_tags, &local.extra_tags);
    }
    merged
}

fn has_datetime(v: &Vec<DateTime>, x: DateTime) -> (b: bool)
    ensures
        b == v@.contains(x),
{
    let mut i: usize = 0;
    while i < v.len()
        invariant
            i <= v.len(),
            forall|j: int| 0 <= j < i ==> v@[j] != x,
        decreases v.len() - i,
    {
        if v[i].is_same(&x) {
            return true;
        }
        i = i + 1;
    }
    false
}

/// Puts `x` into the sorted list `u` at its place, unless it is there.
fn insert_time(u: &mut Vec<DateTime>, x: DateTime)
    requires
        time_sorted(old(u)@),
    ensures
        time_sorted(final(u)@),
        forall|y: DateTime| #[trigger] final(u)@.contains(y) <==> (old(u)@.contains(y) || y == x),
{
    if has_datetime(u, x) {
        return;
    }
    let ghost u0 = u@;
    let mut k: usize = 0;
    while k < u.len() && u[k].is_before(&x)
        invariant
            u@ == u0,
            k <= u@.len(),
            forall|j: int| 0 <= j < k ==> dt_lt(#[trigger] u@[j], x),
        decreases u.len() - k,
    {
        k = k + 1;
    }
    proof {
        if k < u@.len() {
            lemma_dt_lt_order(u@[k as int], x, x);
            assert(u@[k as int] != x);
        }
    }
    u.insert(k, x);
    proof {
        let v = u@;
        assert(v =~= u0.insert(k as int, x));
        assert forall|i: int, j: int| 0 <= i < j < v.len() implies dt_lt(v[i], v[j]) by {
            if j < k {
                assert(v[i] == u0[i] && v[j] == u0[j]);
            } else if j == k {
                assert(v[i] == u0[i]);
            } else if i == k {
                assert(v[j] == u0[j - 1]);
                if j - 1 > k {
                    lemma_dt_lt_order(x, u0[k as int], u0[j - 1]);
                }
            } else if i < k {
                assert(v[i] == u0[i] && v[j] == u0[j - 1]);
            } else {
                assert(v[i] == u0[i - 1] && v[j] == u0[j - 1]);
            }
        }
        assert forall|y: DateTime| #[trigger] v.contains(y) <==> (u0.contains(y) || y == x) by {
            if v.contains(y) {
                let i = choose|i: int| 0 <= i < v.len() && v[i] == y;
                if i < k {
                    assert(u0[i] == y);
                } else if i > k {
                    assert(u0[i - 1] == y);
                }
            }
            if u0.contains(y) {
                let i = choose|i: int| 0 <= i < u0.len() && u0[i] == y;
                if i < k {
                    assert(v[i] == y);
                } else {
                    assert(v[i + 1] == y);
                }
            }
            if y == x {
                assert(v[k as int] == x);
            }
        }
    }
}

/// The sorted union of two lists of times.
pub fn union_datetimes(r: &Vec<DateTime>, l: &Vec<DateTime>) -> (u: Vec<DateTime>)
    ensures
        u@ == sorted_union(r@, l@),
{
    let mut u: Vec<DateTime> = Vec::new();
    let mut i: usize = 0;
    while i < r.len()
        invariant
            i <= r@.len(),
            time_sorted(u@),
            forall|y: DateTime| #[trigger] u@.contains(y) <==> r@.take(i as int).contains(y),
        decreases r.len() - i,
    {
        proof {
            assert forall|y: DateTime| #[trigger] r@.take(i + 1).contains(y) <==> (r@.take(i as int).contains(y) || y == r@[i as int]) by {
                lemma_take_push(r@, i as int, y);
            }
        }
        insert_time(&mut u, r[i]);
        i = i + 1;
    }
    let mut j: usize = 0;
    while j < l.len()
        invariant
            j <= l@.len(),
            time_sorted(u@),
            forall|y: DateTime| #[trigger] u@.contains(y) <==> (r@.take(r@.len() as int).contains(y) || l@.take(j as int).contains(y)),
        decreases l.len() - j,
    {
        proof {
            assert forall|y: DateTime| #[trigger] l@.take(j + 1).contains(y) <==> (l@.take(j as int).contains(y) || y == l@[j as int]) by {
                lemma_take_push(l@, j as int, y);
            }
        }
        insert_time(&mut u, l[j]);
        j = j + 1;
    }
    assert(r@.take(r@.len() as int) =~= r@);
    assert(l@.take(l@.len() as int) =~= l@);
    proof {
        lemma_is_sorted_union(u@, r@, l@);
    }
    u
}

proof fn lemma_take_push<A>(s: Seq<A>, i: int, y: A)
    requires
        0 <= i < s.len(),
    ensures
        s.take(i + 1).contains(y) <==> (s.take(i).contains(y) || y == s[i]),
{
    let a = s.take(i + 1);
    let b = s.take(i);
    assert(a =~= b.push(s[i]));
    if a.contains(y) && y != s[i] {
        let k = choose|k: int| 0 <= k < a.len() && a[k] == y;
        assert(b[k] == y);
    }
    if b.contains(y) {
        let k = choose|k: int| 0 <= k < b.len() && b[k] == y;
        assert(a[k] == y);
    }
    if y == s[i] {
        assert(a[i] == y);
    }
}

/// Two time-sorted lists with the same times are equal.
pub proof fn lemma_sorted_unique(u: Seq<DateTime>, v: Seq<DateTime>)
    requires
        time_sorted(u),
        time_sorted(v),
        forall|x: DateTime| #[trigger] u.contains(x) <==> v.contains(x),
    ensures
        u == v,
    decreases u.len(),
{
    if u.len() == 0 {
        if v.len() > 0 {
            assert(v[0] == v[0]);
            assert(v.contains(v[0]));
            assert(u.contains(v[0]));
        }
        assert(u =~= v);
    } else {
        assert(u[u.len() - 1] == u.last());
        assert(u.contains(u.last()));
        assert(v.contains(u.last()));
        assert(v.len() > 0);
        assert(v[v.len() - 1] == v.last());
        assert(v.contains(v.last()));
        assert(u.contains(v.last()));
        let a = u.last();
        let b = v.last();
        if a != b {
            let i = choose|i: int| 0 <= i < v.len() && v[i] == a;
            let j = choose|j: int| 0 <= j < u.len() && u[j] == b;
            assert(i < v.len() - 1);
            assert(j < u.len() - 1);
            assert(dt_lt(v[i], v[v.len() - 1]));
            assert(dt_lt(u[j], u[u.len() - 1]));
            lemma_dt_lt_order(a, b, a);
        }
        let u1 = u.drop_last();
        let v1 = v.drop_last();
        assert forall|x: DateTime| #[trigger] u1.contains(x) <==> v1.contains(x) by {
            if u1.contains(x) {
                let i = choose|i: int| 0 <= i < u1.len() && u1[i] == x;
                assert(u[i] == x);
                assert(dt_lt(u[i], u[u.len() - 1]));
                lemma_dt_lt_order(x, a, x);
                assert(u.contains(x));
                assert(v.contains(x));
                let k = choose|k: int| 0 <= k < v.len() && v[k] == x;
                assert(k < v.len() - 1);
                assert(v1[k] == x);
            }
            if v1.contains(x) {
                let i = choose|i: int| 0 <= i < v1.len() && v1[i] == x;
                assert(v[i] == x);
                assert(dt_lt(v[i], v[v.len() - 1]));
                lemma_dt_lt_order(x, b, x);
                assert(v.contains(x));
                assert(u.contains(x));
                let k = choose|k: int| 0 <= k < u.len() && u[k] == x;
                assert(k < u.len() - 1);
                assert(u1[k] == x);
            }
        }
        lemma_sorted_unique(u1, v1);
        assert(u =~= u1.push(a));
        assert(v =~= v1.push(b));
    }
}

proof fn lemma_sorted_insert(u: Seq<DateTime>, x: DateTime) -> (v: Seq<DateTime>)
    requires
        time_sorted(u),
    ensures
        time_sorted(v),
        forall|y: DateTime| #[trigger] v.contains(y) <==> (u.contains(y) || y == x),
    decreases u.len(),
{
    if u.contains(x) {
        u
    } else if u.len() == 0 {
        let v = seq![x];
        assert forall|y: DateTime| #[trigger] v.contains(y) <==> (u.contains(y) || y == x) by {
            if y == x {
                assert(v[0] == x);
            }
        }
        v
    } else if dt_lt(u.last(), x) {
        let v = u.push(x);
        assert forall|i: int, j: int| 0 <= i < j < v.len() implies dt_lt(v[i], v[j]) by {
            if j == u.len() && i < u.len() - 1 {
                lemma_dt_lt_order(u[i], u.last(), x);
            }
        }
        assert forall|y: DateTime| #[trigger] v.contains(y) <==> (u.contains(y) || y == x) by {
            if v.contains(y) && y != x {
                let i = choose|i: int| 0 <= i < v.len() && v[i] == y;
                assert(u[i] == y);
            }
            if u.contains(y) {
                let i = choose|i: int| 0 <= i < u.len() && u[i] == y;
                assert(v[i] == y);
            }
            if y == x {
                assert(v[u.len() as int] == x);
            }
        }
        v
    } else {
        let a = u.last();
        assert(u[u.len() - 1] == a);
        if a == x {
            assert(u.contains(x));
        }
        lemma_dt_lt_order(a, x, a);
        assert(dt_lt(x, a));
        let u1 = u.drop_last();
        assert(time_sorted(u1)) by {
            assert forall|i: int, j: int| 0 <= i < j < u1.len() implies dt_lt(u1[i], u1[j]) by {
                assert(u1[i] == u[i] && u1[j] == u[j]);
            }
        }
        let w = lemma_sorted_insert(u1, x);
        let v = w.push(a);
        assert forall|i: int, j: int| 0 <= i < j < v.len() implies dt_lt(v[i], v[j]) by {
            if j == w.len() {
                assert(v[i] == w[i]);
                assert(w.contains(w[i]));
                if w[i] != x {
                    assert(u1.contains(w[i]));
                    let k = choose|k: int| 0 <= k < u1.len() && u1[k] == w[i];
                    assert(u[k] == w[i]);
                }
            } else {
                assert(v[i] == w[i] && v[j] == w[j]);
            }
        }
        assert forall|y: DateTime| #[trigger] v.contains(y) <==> (u.contains(y) || y == x) by {
            if v.contains(y) && y != a {
                let i = choose|i: int| 0 <= i < v.len() && v[i] == y;
                assert(w[i] == y);
                assert(w.contains(y));
                if y != x {
                    assert(u1.contains(y));
                    let k = choose|k: int| 0 <= k < u1.len() && u1[k] == y;
                    assert(u[k] == y);
                }
            }
            if u.contains(y) && y != a {
                let i = choose|i: int| 0 <= i < u.len() && u[i] == y;
                assert(i < u.len() - 1);
                assert(u1[i] == y);
                assert(u1.contains(y));
                assert(w.contains(y));
                let k = choose|k: int| 0 <= k < w.len() && w[k] == y;
                assert(v[k] == y);
            }
            if y == a {
                assert(v[w.len() as int] == a);
            }
            if y == x {
                assert(w.contains(x));
                let k = choose|k: int| 0 <= k < w.len() && w[k] == x;
                assert(v[k] == x);
            }
        }
        v
    }
}

proof fn lemma_sorted_exists(s: Seq<DateTime>) -> (u: Seq<DateTime>)
    ensures
        time_sorted(u),
        forall|y: DateTime| #[trigger] u.contains(y) <==> s.contains(y),
    decreases s.len(),
{
    if s.len() == 0 {
        let u = Seq::<DateTime>::empty();
        u
    } else {
        let w = lemma_sorted_exists(s.drop_last());
        let v = lemma_sorted_insert(w, s.last());
        assert forall|y: DateTime| #[trigger] v.contains(y) <==> s.contains(y) by {
            lemma_take_push(s, s.len() - 1, y);
            assert(s.take(s.len() - 1) =~= s.drop_last());
            assert(s.take(s.len() as int) =~= s);
        }
        v
    }
}

/// The sorted union of two lists exists, is in time order and holds
/// exactly their times; any list with those properties is it.
pub proof fn lemma_is_sorted_union(u: Seq<DateTime>, r: Seq<DateTime>, l: Seq<DateTime>)
    ensures
        is_sorted_union(sorted_union(r, l), r, l),
        is_sorted_union(u, r, l) ==> u == sorted_union(r, l),
{
    let w = lemma_sorted_exists(r + l);
    lemma_concat_contains(r, l);
    assert(is_sorted_union(w, r, l));
    let c = sorted_union(r, l);
    assert(is_sorted_union(c, r, l));
    if is_sorted_union(u, r, l) {
        lemma_sorted_unique(u, c);
    }
}

/// A second sorted union with the same remote list changes nothing, and the
/// sorted union of a sorted list with itself is that list.
pub proof fn lemma_sorted_union_again(r: Seq<DateTime>, l: Seq<DateTime>)
    ensures
        sorted_union(r, sorted_union(r, l)) == sorted_union(r, l),
        time_sorted(r) ==> sorted_union(r, r) == r,
{
    let s = sorted_union(r, l);
    lemma_is_sorted_union(s, r, l);
    lemma_is_sorted_union(s, r, s);
    if time_sorted(r) {
        lemma_is_sorted_union(r, r, r);
    }
}

fn has_span(v: &Vec<(DateTime, DateTime)>, x: (DateTime, DateTime)) -> (b: bool)
    ensures
        b == v@.contains(x),
{
    let mut i: usize = 0;
    while i < v.len()
        invariant
            i <= v.len(),
            forall|j: int| 0 <= j < i ==> v@[j] != x,
        decreases v.len() - i,
    {
        if v[i].0.is_same(&x.0) && v[i].1.is_same(&x.1) {
            return true;
        }
        i = i + 1;
    }
    false
}

/// The union of two lists of clock entries, as `union_list`.
pub fn union_clock(r: &Vec<(DateTime, DateTime)>, l: &Vec<(DateTime, DateTime)>) -> (u: Vec<
    (DateTime, DateTime),
>)
    ensures
        u@ == union_list(r@, l@),
{
    let ghost s = r@ + l@;
    let mut u: Vec<(DateTime, DateTime)> = Vec::new();
    assert(s.take(0) =~= Seq::<(DateTime, DateTime)>::empty());
    let mut i: usize = 0;
    while i < r.len()
        invariant
            s == r@ + l@,
            i <= r@.len(),
            u@ == dedup(s.take(i as int)),
        decreases r.len() - i,
    {
        let x = r[i];
        assert(x == s[i as int]);
        assert(s.take(i + 1).drop_last() =~= s.take(i as int));
        if !has_span(&u, x) {
            u.push(x);
        }
        i = i + 1;
    }
    let mut j: usize = 0;
    while j < l.len()
        invariant
            s == r@ + l@,
            j <= l@.len(),
            u@ == dedup(s.take(r@.len() + j)),
        decreases l.len() - j,
    {
        let x = l[j];
        assert(x == s[r@.len() + j]);
        assert(s.take(r@.len() + j + 1).drop_last() =~= s.take(r@.len() + j));
        if !has_span(&u, x) {
            u.push(x);
        }
        j = j + 1;
    }
    assert(s.take(s.len() as int) =~= s);
    u
}

fn has_string(v: &Vec<String>, x: &String) -> (b: bool)
    ensures
        b == strs(v@).contains(x@),
{
    let mut i: usize = 0;
    while i < v.len()
        invariant
            i <= v.len(),
            forall|j: int| 0 <= j < i ==> strs(v@)[j] != x@,
        decreases v.len() - i,
    {
        if str_eq(v[i].as_str(), x.as_str()) {
            assert(strs(v@)[i as int] == x@);
            return true;
        }
        i = i + 1;
    }
    false
}

/// The union of two lists of tags, as `union_list`.
pub fn union_strings(r: &Vec<String>, l: &Vec<String>) -> (u: Vec<String>)
    ensures
        strs(u@) == union_list(strs(r@), strs(l@)),
{
    let ghost s = strs(r@) + strs(l@);
    let mut u: Vec<String> = Vec::new();
    assert(s.take(0) =~= Seq::<Seq<char>>::empty());
    assert(strs(u@) =~= Seq::<Seq<char>>::empty());
    let mut i: usize = 0;
    while i < r.len()
        invariant
            s == strs(r@) + strs(l@),
            i <= r@.len(),
            strs(u@) == dedup(s.take(i as int)),
        decreases r.len() - i,
    {
        let x = &r[i];
        assert(x@ == s[i as int]);
        assert(s.take(i + 1).drop_last() =~= s.take(i as int));
        if !has_string(&u, x) {
            let ghost before = u@;
            u.push(x.clone());
            assert(strs(u@) =~= strs(before).push(x@));
        }
        i = i + 1;
    }
    let mut j: usize = 0;
    while j < l.len()
        invariant
            s == strs(r@) + strs(l@),
            j <= l@.len(),
            strs(u@) == dedup(s.take(r@.len() + j)),
        decreases l.len() - j,
    {
        let x = &l[j];
        assert(x@ == s[r@.len() + j]);
        assert(s.take(r@.len() + j + 1).drop_last() =~= s.take(r@.len() + j));
        if !has_string(&u, x) {
            let ghost before = u@;
            u.push(x.clone());
            assert(strs(u@) =~= strs(before).push(x@));
        }
        j = j + 1;
    }
    assert(s.take(s.len() as int) =~= s);
    u
}

/// The task a pull takes in when the local copy did not change: the remote
/// task (the server decides the content) with the local identifier, the
/// remote project or else the local one, the sorted union of the logbooks
/// and the unions of the clock entries and tags.
pub open spec fn pull_merge(l: TaskView, r: TaskView) -> TaskView {
    TaskView {
        id: l.id,
        project: if r.project is Some {
            r.project
        } else {
            l.project
        },
        extra_tags: tag_union(r.extra_tags, l.extra_tags),
        logbook_entries: sorted_union(r.logbook_entries, l.logbook_entries),
        clock_entries: union_list(r.clock_entries, l.clock_entries),
        ..r
    }
}

/// The merge of a pull, as `pull_merge`.
pub fn merge_pulled(l: &Task, r: &Task) -> (m: Task)
    ensures
        m@ == pull_merge(l@, r@),
{
    let mut m = r.duplicate();
    m.id = l.id;
    if m.project.is_none() {
        m.project = copy_opt_string(&l.project);
    }
    if r.extra_tags.len() > 0 {
        m.extra_tags = union_strings(&r.extra_tags, &l.extra_tags);
    } else {
        m.extra_tags = copy_strings(&l.extra_tags);
    }
    m.logbook_entries = union_datetimes(&r.logbook_entries, &l.logbook_entries);
    m.clock_entries = union_clock(&r.clock_entries, &l.clock_entries);
    m
}

/// `d` with the entries of `t` added in order, each only if not there yet.
pub open spec fn extend_new<A>(d: Seq<A>, t: Seq<A>) -> Seq<A>
    decreases t.len(),
{
    if t.len() == 0 {
        d
    } else {
        let e = extend_new(d, t.drop_last());
        if e.contains(t.last()) {
            e
        } else {
            e.push(t.last())
        }
    }
}

pub open spec fn no_repeats<A>(s: Seq<A>) -> bool {
    forall|i: int, j: int| 0 <= i < j < s.len() ==> s[i] != s[j]
}

proof fn lemma_dedup_concat<A>(s: Seq<A>, t: Seq<A>)
    ensures
        dedup(s + t) == extend_new(dedup(s), t),
    decreases t.len(),
{
    if t.len() == 0 {
        assert(s + t =~= s);
    } else {
        lemma_dedup_concat(s, t.drop_last());
        assert((s + t).drop_last() =~= s + t.drop_last());
        assert((s + t).last() == t.last());
    }
}

proof fn lemma_extend_covered<A>(d: Seq<A>, t: Seq<A>)
    requires
        forall|i: int| 0 <= i < t.len() ==> d.contains(#[trigger] t[i]),
    ensures
        extend_new(d, t) == d,
    decreases t.len(),
{
    if t.len() > 0 {
        assert forall|i: int| 0 <= i < t.drop_last().len() implies d.contains(#[trigger] t.drop_last()[i]) by {
            assert(t.drop_last()[i] == t[i]);
        }
        lemma_extend_covered(d, t.drop_last());
        assert(d.contains(t[t.len() - 1]));
    }
}

proof fn lemma_extend_fresh<A>(d: Seq<A>, t: Seq<A>)
    requires
        no_repeats(t),
        forall|i: int| 0 <= i < t.len() ==> !d.contains(#[trigger] t[i]),
    ensures
        extend_new(d, t) == d + t,
    decreases t.len(),
{
    if t.len() > 0 {
        let u = t.drop_last();
        assert forall|i: int| 0 <= i < u.len() implies !d.contains(#[trigger] u[i]) by {
            assert(u[i] == t[i]);
        }
        lemma_extend_fresh(d, u);
        assert(!(d + u).contains(t.last())) by {
            if (d + u).contains(t.last()) {
                let k = choose|k: int| 0 <= k < (d + u).len() && (d + u)[k] == t.last();
                if k < d.len() {
                    assert(d[k] == t[t.len() - 1]);
                } else {
                    assert(t[k - d.len()] == t[t.len() - 1]);
                }
            }
        }
        assert((d + u).push(t.last()) =~= d + t);
    }
}

proof fn lemma_extend_prefix<A>(d: Seq<A>, t: Seq<A>)
    ensures
        extend_new(d, t).len() >= d.len(),
        extend_new(d, t).take(d.len() as int) == d,
    decreases t.len(),
{
    if t.len() > 0 {
        lemma_extend_prefix(d, t.drop_last());
        let e = extend_new(d, t.drop_last());
        assert(e.push(t.last()).take(d.len() as int) =~= e.take(d.len() as int));
    }
}

/// A second union with the same remote list changes nothing.
pub proof fn lemma_union_twice<A>(r: Seq<A>, l: Seq<A>)
    ensures
        union_list(r, union_list(r, l)) == union_list(r, l),
{
    let d = dedup(r);
    let x = dedup(r + l);
    lemma_dedup_concat(r, l);
    lemma_extend_prefix(d, l);
    lemma_dedup(r + l);
    lemma_dedup(r);
    let q = x.skip(d.len() as int);
    assert(x =~= d + q);
    lemma_dedup_concat(r, x);
    lemma_concat_contains(d, q);
    assert forall|i: int| 0 <= i < d.len() implies d.contains(#[trigger] d[i]) by {}
    lemma_extend_covered(d, d);
    lemma_extend_concat(d, d, q);
    assert forall|i: int| 0 <= i < q.len() implies !d.contains(#[trigger] q[i]) by {
        if d.contains(q[i]) {
            let k = choose|k: int| 0 <= k < d.len() && d[k] == q[i];
            assert(x[k] == x[d.len() + i]);
        }
    }
    assert(no_repeats(q)) by {
        assert forall|i: int, j: int| 0 <= i < j < q.len() implies q[i] != q[j] by {
            assert(x[d.len() + i] == q[i] && x[d.len() + j] == q[j]);
        }
    }
    lemma_extend_fresh(d, q);
}

proof fn lemma_extend_concat<A>(d: Seq<A>, a: Seq<A>, b: Seq<A>)
    ensures
        extend_new(d, a + b) == extend_new(extend_new(d, a), b),
    decreases b.len(),
{
    if b.len() == 0 {
        assert(a + b =~= a);
    } else {
        lemma_extend_concat(d, a, b.drop_last());
        assert((a + b).drop_last() =~= a + b.drop_last());
        assert((a + b).last() == b.last());
    }
}

/// The union of a list without repeats with itself is that list.
pub proof fn lemma_union_self<A>(r: Seq<A>)
    requires
        no_repeats(r),
    ensures
        union_list(r, r) == r,
{
    let e = Seq::<A>::empty();
    assert forall|i: int| 0 <= i < r.len() implies !e.contains(#[trigger] r[i]) by {}
    lemma_extend_fresh(e, r);
    assert(e + r =~= r);
    lemma_dedup_concat(e, r);
    assert(dedup(e) =~= e);
    lemma_dedup_concat(r, r);
    assert forall|i: int| 0 <= i < r.len() implies r.contains(#[trigger] r[i]) by {}
    lemma_extend_covered(r, r);
}

/// The entries of a list without repeats are those of the list, none twice.
pub proof fn lemma_dedup<A>(s: Seq<A>)
    ensures
        forall|x: A| #[trigger] dedup(s).contains(x) <==> s.contains(x),
        forall|i: int, j: int| 0 <= i < j < dedup(s).len() ==> dedup(s)[i] != dedup(s)[j],
    decreases s.len(),
{
    if s.len() > 0 {
        lemma_dedup(s.drop_last());
        let d = dedup(s.drop_last());
        let t = s.drop_last();
        let e = s.last();
        assert(s[s.len() - 1] == e);
        assert forall|x: A| #[trigger] dedup(s).contains(x) <==> s.contains(x) by {
            if dedup(s).contains(x) {
                if d.contains(x) {
                    assert(t.contains(x));
                    let i = choose|i: int| 0 <= i < t.len() && t[i] == x;
                    assert(s[i] == x);
                } else {
                    let i = choose|i: int| 0 <= i < dedup(s).len() && dedup(s)[i] == x;
                    assert(!d.contains(e));
                    if i < d.len() {
                        assert(d[i] == x);
                    }
                    assert(x == e);
                }
            }
            if s.contains(x) {
                let i = choose|i: int| 0 <= i < s.len() && s[i] == x;
                if i < s.len() - 1 {
                    assert(t[i] == x);
                    assert(t.contains(x));
                    assert(d.contains(x));
                    let k = choose|k: int| 0 <= k < d.len() && d[k] == x;
                    if !d.contains(e) {
                        assert(d.push(e)[k] == x);
                    }
                } else {
                    if !d.contains(e) {
                        assert(d.push(e)[d.len() as int] == e);
                    }
                }
            }
        }
    }
}

/// A merge loses no work record: its logbook holds exactly the times of
/// either side in time order, its clock entries exactly those of either
/// side, and its extra tags hold every tag of
/// both sides when the remote side has any, else the local ones.
pub proof fn lemma_merge_keeps_records(l: TaskView, r: TaskView, b: TaskView)
    ensures
        ({
            let m = merge_spec(l, r, b);
            &&& forall|x: DateTime|
                #[trigger] m.logbook_entries.contains(x) <==> (l.logbook_entries.contains(x)
                    || r.logbook_entries.contains(x))
            &&& time_sorted(m.logbook_entries)
            &&& forall|x: (DateTime, DateTime)|
                #[trigger] m.clock_entries.contains(x) <==> (l.clock_entries.contains(x)
                    || r.clock_entries.contains(x))
            &&& r.extra_tags.len() > 0 ==> forall|x: Seq<char>|
                #[trigger] m.extra_tags.contains(x) <==> (l.extra_tags.contains(x)
                    || r.extra_tags.contains(x))
            &&& r.extra_tags.len() == 0 ==> m.extra_tags == l.extra_tags
        }),
{
    lemma_is_sorted_union(r.logbook_entries, r.logbook_entries, l.logbook_entries);
    lemma_dedup(r.clock_entries + l.clock_entries);
    lemma_dedup(r.extra_tags + l.extra_tags);
    lemma_concat_contains(r.logbook_entries, l.logbook_entries);
    lemma_concat_contains(r.clock_entries, l.clock_entries);
    lemma_concat_contains(r.extra_tags, l.extra_tags);
}

/// A pull loses no work record: the task taken in holds exactly the
/// logbook times of both copies in time order and their clock entries
/// none twice, and every tag of
/// both when the remote copy has any, else the local tags.
pub proof fn lemma_pull_keeps_records(l: TaskView, r: TaskView)
    ensures
        ({
            let m = pull_merge(l, r);
            &&& forall|x: DateTime|
                #[trigger] m.logbook_entries.contains(x) <==> (l.logbook_entries.contains(x)
                    || r.logbook_entries.contains(x))
            &&& forall|x: (DateTime, DateTime)|
                #[trigger] m.clock_entries.contains(x) <==> (l.clock_entries.contains(x)
                    || r.clock_entries.contains(x))
            &&& time_sorted(m.logbook_entries) && no_repeats(m.clock_entries)
            &&& r.extra_tags.len() > 0 ==> forall|x: Seq<char>|
                #[trigger] m.extra_tags.contains(x) <==> (l.extra_tags.contains(x)
                    || r.extra_tags.contains(x))
            &&& r.extra_tags.len() == 0 ==> m.extra_tags == l.extra_tags
        }),
{
    lemma_is_sorted_union(r.logbook_entries, r.logbook_entries, l.logbook_entries);
    lemma_dedup(r.clock_entries + l.clock_entries);
    lemma_dedup(r.extra_tags + l.extra_tags);
    lemma_concat_contains(r.logbook_entries, l.logbook_entries);
    lemma_concat_contains(r.clock_entries, l.clock_entries);
    lemma_concat_contains(r.extra_tags, l.extra_tags);
}

pub proof fn lemma_concat_contains<A>(a: Seq<A>, b: Seq<A>)
    ensures
        forall|x: A| #[trigger] (a + b).contains(x) <==> (a.contains(x) || b.contains(x)),
{
    assert forall|x: A| #[trigger] (a + b).contains(x) <==> (a.contains(x) || b.contains(x)) by {
        if (a + b).contains(x) {
            let i = choose|i: int| 0 <= i < (a + b).len() && (a + b)[i] == x;
            if i >= a.len() {
                assert(b[i - a.len()] == x);
            }
        }
        if a.contains(x) {
            let i = choose|i: int| 0 <= i < a.len() && a[i] == x;
            assert((a + b)[i] == x);
        }
        if b.contains(x) {
            let i = choose|i: int| 0 <= i < b.len() && b[i] == x;
            assert((a + b)[a.len() + i] == x);
        }
    }
}

/// Merging with an unchanged remote side keeps every merged field of the
/// local task.
pub proof fn lemma_merge_remote_unchanged(l: TaskView, b: TaskView)
    ensures
        ({
            let m = merge_spec(l, b, b);
            &&& m.title == l.title && m.state == l.state && m.priority == l.priority
            &&& m.contexts == l.contexts && m.scheduled == l.scheduled && m.deadline == l.deadline
            &&& m.notes == l.notes && m.project == l.project && m.waiting_for == l.waiting_for
            &&& m.esc == l.esc && m.delegated == l.delegated && m.follow_up == l.follow_up
            &&& m.completed == l.completed && m.recurrence == l.recurrence
        }),
{
}

/// Merging a local side that did not change with a changed remote side
/// takes every merged field from the remote side.
pub proof fn lemma_merge_local_unchanged(b: TaskView, r: TaskView)
    ensures
        ({
            let m = merge_spec(b, r, b);
            &&& m.title == r.title && m.state == r.state && m.priority == r.priority
            &&& m.contexts == r.contexts && m.scheduled == r.scheduled && m.deadline == r.deadline
            &&& m.notes == r.notes && m.project == r.project && m.waiting_for == r.waiting_for
            &&& m.esc == r.esc && m.delegated == r.delegated && m.follow_up == r.follow_up
            &&& m.completed == r.completed && m.recurrence == r.recurrence
        }),
{
}


/// The three-way rule for one field, case by case: changed on both sides,
/// the remote value; changed on one side only, that side's value;
/// changed on neither, the base value.
pub open spec fn three_way_field<A>(m: A, l: A, r: A, b: A) -> bool {
    &&& (l != b && r != b ==> m == r)
    &&& (l != b && r == b ==> m == l)
    &&& (l == b && r != b ==> m == r)
    &&& (l == b && r == b ==> m == b)
}

/// The fields of a merged task follow the three-way rule: where both
/// sides changed a field from the base, the remote value wins; where only
/// one side changed it, that change is kept; an unchanged field keeps the
/// base value.
pub proof fn lemma_merge_three_way(l: TaskView, r: TaskView, b: TaskView)
    ensures
        ({
            let m = merge_spec(l, r, b);
            &&& three_way_field(m.title, l.title, r.title, b.title)
            &&& three_way_field(m.state, l.state, r.state, b.state)
            &&& three_way_field(m.priority, l.priority, r.priority, b.priority)
            &&& three_way_field(m.contexts, l.contexts, r.contexts, b.contexts)
            &&& three_way_field(m.scheduled, l.scheduled, r.scheduled, b.scheduled)
            &&& three_way_field(m.deadline, l.deadline, r.deadline, b.deadline)
            &&& three_way_field(m.notes, l.notes, r.notes, b.notes)
            &&& three_way_field(m.project, l.project, r.project, b.project)
            &&& three_way_field(m.waiting_for, l.waiting_for, r.waiting_for, b.waiting_for)
            &&& three_way_field(m.esc, l.esc, r.esc, b.esc)
            &&& three_way_field(m.delegated, l.delegated, r.delegated, b.delegated)
            &&& three_way_field(m.follow_up, l.follow_up, r.follow_up, b.follow_up)
            &&& three_way_field(m.completed, l.completed, r.completed, b.completed)
            &&& three_way_field(m.recurrence, l.recurrence, r.recurrence, b.recurrence)
        }),
{
}

/// The state of a task changed on both sides to different values is the
/// remote state after the merge, whatever the local one.
pub proof fn lemma_merge_state_conflict(l: TaskView, r: TaskView, b: TaskView)
    requires
        l.state != b.state,
        r.state != b.state,
    ensures
        merge_spec(l, r, b).state == r.state,
{
}

} // verus!
