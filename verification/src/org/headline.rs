//! The headline grammar of org files.
//!
//! A headline is one or more `*`, whitespace, optionally a state keyword and
//! whitespace, optionally a priority cookie (`[#A]`, `[#B]`, `[#C]`) and
//! whitespace, a non-empty title, and optionally whitespace and a tag list
//! `:a:b:`. Where several readings exist, the one taken is the one a
//! backtracking matcher of
//! `^(\*+)\s+(?:(STATE)\s+)?(?:\[#([ABC])\]\s+)?(.+?)(?:\s+:([^:]+(?::[^:]+)*):)?$`
//! reports: the longest whitespace runs, the state and the priority when they
//! can be read, and the shortest title.

use vstd::prelude::*;

use crate::model::task::{keyword_of, Priority, TaskState};
use crate::text::{
    is_ws, is_ws_char, lemma_skip_ws_from, skip_ws, skip_ws_from, slice_chars, split_chars,
    split_on, starts_with_str_at, has_prefix_at, views,
};

verus! {

/// One past the last `*` of the run that starts at `i`.
pub open spec fn stars_from(s: Seq<char>, i: int) -> int
    decreases s.len() - i,
{
    if 0 <= i < s.len() && s[i] == '*' {
        stars_from(s, i + 1)
    } else {
        i
    }
}

/// The state whose keyword is written at `p`.
pub open spec fn keyword_at(s: Seq<char>, p: int) -> Option<TaskState> {
    if has_prefix_at(s, p, keyword_of(TaskState::Todo)) {
        Some(TaskState::Todo)
    } else if has_prefix_at(s, p, keyword_of(TaskState::Next)) {
        Some(TaskState::Next)
    } else if has_prefix_at(s, p, keyword_of(TaskState::Waiting)) {
        Some(TaskState::Waiting)
    } else if has_prefix_at(s, p, keyword_of(TaskState::Someday)) {
        Some(TaskState::Someday)
    } else if has_prefix_at(s, p, keyword_of(TaskState::Done)) {
        Some(TaskState::Done)
    } else if has_prefix_at(s, p, keyword_of(TaskState::Cancelled)) {
        Some(TaskState::Cancelled)
    } else {
        None
    }
}

/// The priority whose cookie `[#X]` is written at `p`.
pub open spec fn cookie_at(s: Seq<char>, p: int) -> Option<Priority> {
    if 0 <= p && p + 4 <= s.len() && s[p] == '[' && s[p + 1] == '#' && s[p + 3] == ']' {
        if s[p + 2] == 'A' {
            Some(Priority::A)
        } else if s[p + 2] == 'B' {
            Some(Priority::B)
        } else if s[p + 2] == 'C' {
            Some(Priority::C)
        } else {
            None
        }
    } else {
        None
    }
}

/// A tag list: non-empty pieces of non-colon characters joined by colons.
pub open spec fn is_tag_list(x: Seq<char>) -> bool {
    &&& x.len() > 0
    &&& x[0] != ':'
    &&& x.last() != ':'
    &&& forall|i: int| 0 <= i < x.len() - 1 && #[trigger] x[i] == ':' ==> x[i + 1] != ':'
}

/// `s[e..]` is whitespace, `:`, a tag list and `:`.
pub open spec fn tag_suffix_at(s: Seq<char>, e: int) -> bool {
    let j = skip_ws_from(s, e);
    &&& 0 <= e
    &&& j > e
    &&& j + 3 <= s.len()
    &&& s[j] == ':'
    &&& s.last() == ':'
    &&& is_tag_list(s.subrange(j + 1, s.len() - 1))
}

/// The first `e >= start` where the rest is empty or a tag suffix.
pub open spec fn title_end_from(s: Seq<char>, e: int) -> int
    decreases s.len() - e,
{
    if e >= s.len() {
        s.len() as int
    } else if tag_suffix_at(s, e) {
        e
    } else {
        title_end_from(s, e + 1)
    }
}

/// The title starting at `q` (the shortest one) and the tags after it.
pub open spec fn title_at(s: Seq<char>, q: int) -> (Seq<char>, Seq<Seq<char>>) {
    let e = title_end_from(s, q + 1);
    let tags = if e < s.len() {
        let j = skip_ws_from(s, e);
        split_on(s.subrange(j + 1, s.len() - 1), ':')
    } else {
        seq![]
    };
    (s.subrange(q, e), tags)
}

/// After the state (or where it would be): the priority and where the title
/// starts.
pub open spec fn after_state(s: Seq<char>, pos: int) -> (Option<Priority>, int) {
    match cookie_at(s, pos) {
        Some(pr) => {
            let p3 = skip_ws_from(s, pos + 4);
            if p3 > pos + 4 && p3 < s.len() {
                (Some(pr), p3)
            } else if p3 - pos >= 6 {
                (Some(pr), s.len() - 1)
            } else {
                (None, pos)
            }
        },
        None => (None, pos),
    }
}

/// A parsed headline.
pub struct HeadlineSpec {
    pub level: int,
    pub state: Option<TaskState>,
    pub priority: Option<Priority>,
    pub title: Seq<char>,
    pub tags: Seq<Seq<char>>,
}

pub open spec fn headline_with(
    s: Seq<char>,
    level: int,
    state: Option<TaskState>,
    pos: int,
) -> HeadlineSpec {
    let (priority, q) = after_state(s, pos);
    let (title, tags) = title_at(s, q);
    HeadlineSpec { level, state, priority, title, tags }
}

/// The headline read from the line `s`, if it is one.
pub open spec fn headline(s: Seq<char>) -> Option<HeadlineSpec> {
    let n = stars_from(s, 0);
    let p = skip_ws_from(s, n);
    if n == 0 || p == n {
        None
    } else if p == s.len() {
        if p - n >= 2 {
            Some(headline_with(s, n, None, s.len() - 1))
        } else {
            None
        }
    } else {
        match keyword_at(s, p) {
            Some(st) => {
                let k = p + keyword_of(st).len();
                let p2 = skip_ws_from(s, k);
                if p2 > k && p2 < s.len() {
                    Some(headline_with(s, n, Some(st), p2))
                } else if p2 - k >= 2 {
                    Some(headline_with(s, n, Some(st), s.len() - 1))
                } else {
                    Some(headline_with(s, n, None, p))
                }
            },
            None => Some(headline_with(s, n, None, p)),
        }
    }
}

/// A headline read from a line.
pub struct Headline {
    pub level: usize,
    pub state: Option<TaskState>,
    pub priority: Option<Priority>,
    pub title: Vec<char>,
    pub tags: Vec<Vec<char>>,
}

pub open spec fn headline_view(h: Headline) -> HeadlineSpec {
    HeadlineSpec {
        level: h.level as int,
        state: h.state,
        priority: h.priority,
        title: h.title@,
        tags: views(h.tags@),
    }
}

fn count_stars(v: &Vec<char>) -> (r: usize)
    ensures
        r == stars_from(v@, 0),
        r <= v.len(),
{
    let mut k: usize = 0;
    while k < v.len() && v[k] == '*'
        invariant
            k <= v.len(),
            stars_from(v@, k as int) == stars_from(v@, 0),
        decreases v.len() - k,
    {
        k = k + 1;
    }
    k
}

fn keyword_at_exec(v: &Vec<char>, p: usize) -> (r: Option<TaskState>)
    requires
        p <= v.len(),
    ensures
        r == keyword_at(v@, p as int),
{
    proof {
        reveal_strlit("TODO");
        reveal_strlit("NEXT");
        reveal_strlit("WAITING");
        reveal_strlit("SOMEDAY");
        reveal_strlit("DONE");
        reveal_strlit("CANCELLED");
    }
    assert("TODO"@ =~= keyword_of(TaskState::Todo));
    assert("NEXT"@ =~= keyword_of(TaskState::Next));
    assert("WAITING"@ =~= keyword_of(TaskState::Waiting));
    assert("SOMEDAY"@ =~= keyword_of(TaskState::Someday));
    assert("DONE"@ =~= keyword_of(TaskState::Done));
    assert("CANCELLED"@ =~= keyword_of(TaskState::Cancelled));
    if starts_with_str_at(v, p, "TODO") {
        Some(TaskState::Todo)
    } else if starts_with_str_at(v, p, "NEXT") {
        Some(TaskState::Next)
    } else if starts_with_str_at(v, p, "WAITING") {
        Some(TaskState::Waiting)
    } else if starts_with_str_at(v, p, "SOMEDAY") {
        Some(TaskState::Someday)
    } else if starts_with_str_at(v, p, "DONE") {
        Some(TaskState::Done)
    } else if starts_with_str_at(v, p, "CANCELLED") {
        Some(TaskState::Cancelled)
    } else {
        None
    }
}

fn cookie_at_exec(v: &Vec<char>, p: usize) -> (r: Option<Priority>)
    ensures
        r == cookie_at(v@, p as int),
{
    if p <= v.len() && v.len() - p >= 4 && v[p] == '[' && v[p + 1] == '#' && v[p + 3] == ']' {
        let c = v[p + 2];
        if c == 'A' {
            Some(Priority::A)
        } else if c == 'B' {
            Some(Priority::B)
        } else if c == 'C' {
            Some(Priority::C)
        } else {
            None
        }
    } else {
        None
    }
}

fn is_tag_list_range(v: &Vec<char>, from: usize, to: usize) -> (r: bool)
    requires
        from <= to <= v.len(),
    ensures
        r == is_tag_list(v@.subrange(from as int, to as int)),
{
    let ghost x = v@.subrange(from as int, to as int);
    if from == to || v[from] == ':' || v[to - 1] == ':' {
        return false;
    }
    let mut i = from;
    while i + 1 < to
        invariant
            from <= i < to <= v.len(),
            x == v@.subrange(from as int, to as int),
            forall|k: int| 0 <= k < i - from && #[trigger] x[k] == ':' ==> x[k + 1] != ':',
        decreases to - i,
    {
        if v[i] == ':' && v[i + 1] == ':' {
            assert(x[i - from] == ':' && x[i - from + 1] == ':');
            return false;
        }
        i = i + 1;
    }
    true
}

fn tag_suffix_at_exec(v: &Vec<char>, e: usize) -> (r: bool)
    requires
        e <= v.len(),
    ensures
        r == tag_suffix_at(v@, e as int),
{
    let j = skip_ws(v, e);
    if j > e && j < v.len() && v.len() - j >= 3 && v[j] == ':' && v[v.len() - 1] == ':' {
        is_tag_list_range(v, j + 1, v.len() - 1)
    } else {
        false
    }
}

proof fn lemma_title_end(s: Seq<char>, e0: int)
    requires
        0 <= e0 <= s.len(),
    ensures
        e0 <= title_end_from(s, e0) <= s.len(),
        title_end_from(s, e0) < s.len() ==> tag_suffix_at(s, title_end_from(s, e0)),
    decreases s.len() - e0,
{
    if e0 < s.len() && !tag_suffix_at(s, e0) {
        lemma_title_end(s, e0 + 1);
    }
}

fn title_end_exec(v: &Vec<char>, q: usize) -> (r: usize)
    requires
        q < v.len(),
    ensures
        r == title_end_from(v@, q + 1),
        q < r <= v.len(),
{
    let mut e = q + 1;
    while e < v.len() && !tag_suffix_at_exec(v, e)
        invariant
            q < e <= v.len(),
            title_end_from(v@, e as int) == title_end_from(v@, q + 1),
        decreases v.len() - e,
    {
        e = e + 1;
    }
    e
}

fn title_at_exec(v: &Vec<char>, q: usize) -> (r: (Vec<char>, Vec<Vec<char>>))
    requires
        q < v.len(),
    ensures
        r.0@ == title_at(v@, q as int).0,
        views(r.1@) == title_at(v@, q as int).1,
{
    let e = title_end_exec(v, q);
    proof {
        lemma_title_end(v@, q + 1);
    }
    let title = slice_chars(v, q, e);
    if e < v.len() {
        let j = skip_ws(v, e);
        proof {
            lemma_skip_ws_from(v@, e as int);
        }
        let inner = slice_chars(v, j + 1, v.len() - 1);
        let tags = split_chars(&inner, ':');
        (title, tags)
    } else {
        let tags: Vec<Vec<char>> = Vec::new();
        assert(views(tags@) =~= Seq::<Seq<char>>::empty());
        (title, tags)
    }
}

fn after_state_exec(v: &Vec<char>, pos: usize) -> (r: (Option<Priority>, usize))
    requires
        pos < v.len(),
    ensures
        r.0 == after_state(v@, pos as int).0,
        r.1 == after_state(v@, pos as int).1,
        r.1 < v.len(),
{
    match cookie_at_exec(v, pos) {
        Some(pr) => {
            let p3 = skip_ws(v, pos + 4);
            if p3 > pos + 4 && p3 < v.len() {
                (Some(pr), p3)
            } else if p3 - pos >= 6 {
                (Some(pr), v.len() - 1)
            } else {
                (None, pos)
            }
        },
        None => (None, pos),
    }
}

fn headline_with_exec(v: &Vec<char>, level: usize, state: Option<TaskState>, pos: usize) -> (r:
    Headline)
    requires
        pos < v.len(),
    ensures
        headline_view(r) == headline_with(v@, level as int, state, pos as int),
{
    let (priority, q) = after_state_exec(v, pos);
    let (title, tags) = title_at_exec(v, q);
    Headline { level, state, priority, title, tags }
}

/// Reads the line `v` as a headline.
pub fn parse_headline(v: &Vec<char>) -> (r: Option<Headline>)
    ensures
        match r {
            Some(h) => headline(v@) == Some(headline_view(h)),
            None => headline(v@) is None,
        },
{
    let n = count_stars(v);
    let p = skip_ws(v, n);
    if n == 0 || p == n {
        return None;
    }
    if p == v.len() {
        if p - n >= 2 {
            return Some(headline_with_exec(v, n, None, v.len() - 1));
        } else {
            return None;
        }
    }
    match keyword_at_exec(v, p) {
        Some(st) => {
            let kw = st.as_keyword();
            let klen = kw.unicode_len();
            assert(klen == keyword_of(st).len());
            assert(p + klen <= v.len()) by {
                assert(has_prefix_at(v@, p as int, keyword_of(st)));
            }
            let k = p + klen;
            let p2 = skip_ws(v, k);
            if p2 > k && p2 < v.len() {
                Some(headline_with_exec(v, n, Some(st), p2))
            } else if p2 - k >= 2 {
                Some(headline_with_exec(v, n, Some(st), v.len() - 1))
            } else {
                Some(headline_with_exec(v, n, None, p))
            }
        },
        None => Some(headline_with_exec(v, n, None, p)),
    }
}

} // verus!
