//! Reading org files into headings.
//!
//! A heading is a headline, then optionally a planning line (`SCHEDULED:` or
//! `DEADLINE:`), a `:PROPERTIES:` drawer, a `:LOGBOOK:` drawer, and body
//! lines up to the next line that starts with `*`. Lines before the first
//! headline, and lines that are not headlines where a headline is expected,
//! are skipped.

use vstd::prelude::*;

use crate::dates::{Date, DateTime, DateTimeParts, dt_parts, opt_num, parse_iso_date_spec, parse_org_datetime_spec, opt_dt_parts};
use crate::model::recurrence::{Recurrence, parse_recurrence_spec, recurrence_parse_ok, repeater_prefix};
use crate::model::task::{Priority, TaskState, strs};
use crate::org::headline::{headline, parse_headline, Headline, HeadlineSpec, headline_view};
use crate::org::lines::{
    property_of, parse_property, logbook_from, find_logbook_entry, stamp_from, stamp_at, find_stamp,
    date_pattern_at, lemma_stamp_from,
};
use crate::text::{
    trim, trim_start, has_prefix_at, chars_of, split_lines, lines, trim_chars, trim_start_chars,
    starts_with_str_at, chars_eq_str, string_of, push_all, lemma_trim_no_ws, is_ws, views,
};

verus! {

/// A heading as read from an org file.
#[derive(Debug, Clone)]
pub struct ParsedHeading {
    pub level: usize,
    pub state: Option<TaskState>,
    pub priority: Option<Priority>,
    pub title: String,
    pub tags: Vec<String>,
    pub scheduled: Option<Date>,
    pub deadline: Option<Date>,
    pub recurrence: Option<Recurrence>,
    pub properties: Vec<(String, String)>,
    pub logbook_entries: Vec<DateTime>,
    pub notes: String,
}

/// A heading with its texts as characters and its dates as day numbers.
pub struct HeadingSpec {
    pub level: int,
    pub state: Option<TaskState>,
    pub priority: Option<Priority>,
    pub title: Seq<char>,
    pub tags: Seq<Seq<char>>,
    pub scheduled: Option<int>,
    pub deadline: Option<int>,
    pub recurrence: Option<Recurrence>,
    pub properties: Seq<(Seq<char>, Seq<char>)>,
    pub logbook_entries: Seq<DateTimeParts>,
    pub notes: Seq<char>,
}

/// The views of a list of headings.
pub open spec fn heading_views(hs: Seq<ParsedHeading>) -> Seq<HeadingSpec> {
    hs.map_values(|h: ParsedHeading| h@)
}

pub open spec fn props_view(ps: Seq<(String, String)>) -> Seq<(Seq<char>, Seq<char>)> {
    ps.map_values(|p: (String, String)| (p.0@, p.1@))
}

impl View for ParsedHeading {
    type V = HeadingSpec;

    open spec fn view(&self) -> HeadingSpec {
        HeadingSpec {
            level: self.level as int,
            state: self.state,
            priority: self.priority,
            title: self.title@,
            tags: strs(self.tags@),
            scheduled: opt_num(self.scheduled),
            deadline: opt_num(self.deadline),
            recurrence: self.recurrence,
            properties: props_view(self.properties@),
            logbook_entries: self.logbook_entries@.map_values(|d: DateTime| dt_parts(d)),
            notes: self.notes@,
        }
    }
}

// ---------------------------------------------------------------------------
// The layout under a headline
// ---------------------------------------------------------------------------

pub open spec fn scheduled_kw() -> Seq<char> {
    seq!['S', 'C', 'H', 'E', 'D', 'U', 'L', 'E', 'D', ':']
}

pub open spec fn deadline_kw() -> Seq<char> {
    seq!['D', 'E', 'A', 'D', 'L', 'I', 'N', 'E', ':']
}

pub open spec fn properties_marker() -> Seq<char> {
    seq![':', 'P', 'R', 'O', 'P', 'E', 'R', 'T', 'I', 'E', 'S', ':']
}

pub open spec fn logbook_marker() -> Seq<char> {
    seq![':', 'L', 'O', 'G', 'B', 'O', 'O', 'K', ':']
}

pub open spec fn end_marker() -> Seq<char> {
    seq![':', 'E', 'N', 'D', ':']
}

pub open spec fn closed_kw() -> Seq<char> {
    seq!['C', 'L', 'O', 'S', 'E', 'D', ':']
}

/// The `CLOSED:` line a completed task carries under its headline.
pub open spec fn is_closed_line(l: Seq<char>) -> bool {
    has_prefix_at(trim_start(l), 0, closed_kw())
}

/// The line after a headline at `i`, past its `CLOSED:` line if it has one.
pub open spec fn after_closed(ls: Seq<Seq<char>>, i: int) -> int {
    if i + 1 < ls.len() && is_closed_line(ls[i + 1]) {
        i + 2
    } else {
        i + 1
    }
}

pub open spec fn is_planning_line(l: Seq<char>) -> bool {
    has_prefix_at(trim_start(l), 0, scheduled_kw()) || has_prefix_at(trim_start(l), 0, deadline_kw())
}

/// The first line at or after `k` whose trimmed text is `:END:`.
pub open spec fn block_end(ls: Seq<Seq<char>>, k: int) -> int
    decreases ls.len() - k,
{
    if k < 0 || k >= ls.len() {
        ls.len() as int
    } else if trim(ls[k]) == end_marker() {
        k
    } else {
        block_end(ls, k + 1)
    }
}

/// A drawer named `name` at line `j`: its first content line, one past its
/// last content line, and the line after the drawer. `(j, j, j)` when line
/// `j` does not open such a drawer.
pub open spec fn drawer_at(ls: Seq<Seq<char>>, j: int, name: Seq<char>) -> (int, int, int) {
    if 0 <= j < ls.len() && trim(ls[j]) == name {
        let e = block_end(ls, j + 1);
        (j + 1, e, if e < ls.len() { e + 1 } else { ls.len() as int })
    } else {
        (j, j, j)
    }
}

/// The property lines among lines `a..b`, in order.
pub open spec fn props_in(ls: Seq<Seq<char>>, a: int, b: int) -> Seq<(Seq<char>, Seq<char>)>
    decreases b - a,
{
    if b <= a {
        seq![]
    } else {
        let rest = props_in(ls, a, b - 1);
        match property_of(ls[b - 1]) {
            Some(p) => rest.push(p),
            None => rest,
        }
    }
}

/// The logbook entries among lines `a..b` whose timestamps parse.
pub open spec fn logbook_in(ls: Seq<Seq<char>>, a: int, b: int) -> Seq<DateTimeParts>
    decreases b - a,
{
    if b <= a {
        seq![]
    } else {
        let rest = logbook_in(ls, a, b - 1);
        match logbook_from(ls[b - 1], 0) {
            Some(t) => match parse_org_datetime_spec(t) {
                Some(d) => rest.push(d),
                None => rest,
            },
            None => rest,
        }
    }
}

/// The first line at or after `k` that starts with `*`.
pub open spec fn notes_end(ls: Seq<Seq<char>>, k: int) -> int
    decreases ls.len() - k,
{
    if k < 0 || k >= ls.len() {
        ls.len() as int
    } else if ls[k].len() > 0 && ls[k][0] == '*' {
        k
    } else {
        notes_end(ls, k + 1)
    }
}

/// Lines `a..b` appended one after the other, a newline before each line
/// that follows a non-empty text.
pub open spec fn notes_acc(ls: Seq<Seq<char>>, a: int, b: int) -> Seq<char>
    decreases b - a,
{
    if b <= a {
        seq![]
    } else {
        let prev = notes_acc(ls, a, b - 1);
        if prev.len() == 0 {
            ls[b - 1]
        } else {
            prev + seq!['\n'] + ls[b - 1]
        }
    }
}

/// The repeater read from an optional repeater text.
pub open spec fn stamp_recurrence(r: Option<Seq<char>>) -> Option<Recurrence> {
    match r {
        Some(t) => parse_recurrence_spec(t),
        None => None,
    }
}

/// Scheduled date, deadline and repeater of a planning line. The repeater
/// of the SCHEDULED timestamp wins; the DEADLINE one is used when that
/// gives none.
pub open spec fn planning_of(pl: Seq<char>) -> (Option<int>, Option<int>, Option<Recurrence>) {
    let (sched, rec1) = match stamp_from(pl, 0, scheduled_kw()) {
        Some((d, r)) => (parse_iso_date_spec(d), stamp_recurrence(r)),
        None => (None, None),
    };
    match stamp_from(pl, 0, deadline_kw()) {
        Some((d, r)) => (
            sched,
            parse_iso_date_spec(d),
            if rec1 is None {
                stamp_recurrence(r)
            } else {
                rec1
            },
        ),
        None => (sched, None, rec1),
    }
}

/// The heading whose headline `h` is line `i`, and the line after it.
pub open spec fn heading_at(ls: Seq<Seq<char>>, i: int, h: HeadlineSpec) -> (HeadingSpec, int) {
    let j1 = after_closed(ls, i);
    let j2 = if j1 < ls.len() && is_planning_line(ls[j1]) {
        j1 + 1
    } else {
        j1
    };
    let (sched, dl, rec) = if j2 > j1 {
        planning_of(ls[j1])
    } else {
        (None, None, None)
    };
    let (pa, pb, j3) = drawer_at(ls, j2, properties_marker());
    let (la, lb, j4) = drawer_at(ls, j3, logbook_marker());
    let j5 = notes_end(ls, j4);
    (
        HeadingSpec {
            level: h.level,
            state: h.state,
            priority: h.priority,
            title: h.title,
            tags: h.tags,
            scheduled: sched,
            deadline: dl,
            recurrence: rec,
            properties: props_in(ls, pa, pb),
            logbook_entries: logbook_in(ls, la, lb),
            notes: trim(notes_acc(ls, j4, j5)),
        },
        j5,
    )
}

pub proof fn lemma_block_end(ls: Seq<Seq<char>>, k: int)
    requires
        0 <= k,
    ensures
        k <= block_end(ls, k) || k > ls.len(),
        block_end(ls, k) <= ls.len(),
        block_end(ls, k) < ls.len() ==> trim(ls[block_end(ls, k)]) == end_marker(),
        forall|x: int| k <= x < block_end(ls, k) ==> trim(#[trigger] ls[x]) != end_marker(),
    decreases ls.len() - k,
{
    if k < ls.len() && trim(ls[k]) != end_marker() {
        lemma_block_end(ls, k + 1);
    }
}

pub proof fn lemma_notes_end(ls: Seq<Seq<char>>, k: int)
    requires
        0 <= k <= ls.len(),
    ensures
        k <= notes_end(ls, k) <= ls.len(),
        notes_end(ls, k) < ls.len() ==> ls[notes_end(ls, k)].len() > 0 && ls[notes_end(
            ls,
            k,
        )][0] == '*',
        forall|x: int|
            k <= x < notes_end(ls, k) ==> !(#[trigger] ls[x].len() > 0 && ls[x][0] == '*'),
    decreases ls.len() - k,
{
    if k < ls.len() && !(ls[k].len() > 0 && ls[k][0] == '*') {
        lemma_notes_end(ls, k + 1);
    }
}

pub proof fn lemma_heading_next(ls: Seq<Seq<char>>, i: int, h: HeadlineSpec)
    requires
        0 <= i < ls.len(),
    ensures
        i < heading_at(ls, i, h).1 <= ls.len(),
{
    let j1 = after_closed(ls, i);
    let j2 = if j1 < ls.len() && is_planning_line(ls[j1]) {
        j1 + 1
    } else {
        j1
    };
    lemma_block_end(ls, j2 + 1);
    let j3 = drawer_at(ls, j2, properties_marker()).2;
    lemma_block_end(ls, j3 + 1);
    let j4 = drawer_at(ls, j3, logbook_marker()).2;
    lemma_notes_end(ls, j4);
}

/// The headings of the lines from line `i` on.
pub open spec fn headings_from(ls: Seq<Seq<char>>, i: int) -> Seq<HeadingSpec>
    decreases ls.len() - i,
{
    if i < 0 || i >= ls.len() {
        seq![]
    } else {
        match headline(ls[i]) {
            None => headings_from(ls, i + 1),
            Some(h) => {
                proof {
                    lemma_heading_next(ls, i, h);
                }
                seq![heading_at(ls, i, h).0] + headings_from(ls, heading_at(ls, i, h).1)
            },
        }
    }
}

/// The headings of an org text.
pub open spec fn parse_org(s: Seq<char>) -> Seq<HeadingSpec> {
    headings_from(lines(s), 0)
}

/// The first property whose key is `key`.
pub open spec fn property_value(props: Seq<(Seq<char>, Seq<char>)>, key: Seq<char>) -> Option<
    Seq<char>,
>
    decreases props.len(),
{
    if props.len() == 0 {
        None
    } else if props[0].0 == key {
        Some(props[0].1)
    } else {
        property_value(props.drop_first(), key)
    }
}

// ---------------------------------------------------------------------------
// Reading
// ---------------------------------------------------------------------------

pub struct OrgParser;

fn is_planning_line_exec(l: &Vec<char>) -> (r: bool)
    ensures
        r == is_planning_line(l@),
{
    let t = trim_start_chars(l);
    proof {
        reveal_strlit("SCHEDULED:");
        reveal_strlit("DEADLINE:");
    }
    assert("SCHEDULED:"@ =~= scheduled_kw());
    assert("DEADLINE:"@ =~= deadline_kw());
    starts_with_str_at(&t, 0, "SCHEDULED:") || starts_with_str_at(&t, 0, "DEADLINE:")
}

fn is_closed_line_exec(l: &Vec<char>) -> (r: bool)
    ensures
        r == is_closed_line(l@),
{
    let t = trim_start_chars(l);
    proof {
        reveal_strlit("CLOSED:");
    }
    assert("CLOSED:"@ =~= closed_kw());
    starts_with_str_at(&t, 0, "CLOSED:")
}

fn trimmed_is(l: &Vec<char>, marker: &str) -> (r: bool)
    ensures
        r == (trim(l@) == marker@),
{
    let t = trim_chars(l);
    chars_eq_str(&t, marker)
}

fn block_end_exec(ls: &Vec<Vec<char>>, k: usize) -> (r: usize)
    requires
        k <= ls.len(),
    ensures
        r == block_end(views(ls@), k as int),
        k <= r <= ls.len(),
{
    proof {
        reveal_strlit(":END:");
    }
    assert(":END:"@ =~= end_marker());
    let ghost lv = views(ls@);
    let mut j = k;
    while j < ls.len() && !trimmed_is(&ls[j], ":END:")
        invariant
            k <= j <= ls.len(),
            lv == views(ls@),
            lv.len() == ls.len(),
            ":END:"@ == end_marker(),
            block_end(lv, j as int) == block_end(lv, k as int),
        decreases ls.len() - j,
    {
        assert(lv[j as int] == ls@[j as int]@);
        j = j + 1;
    }
    if j < ls.len() {
        assert(lv[j as int] == ls@[j as int]@);
    }
    j
}

fn drawer_at_exec(ls: &Vec<Vec<char>>, j: usize, name: &str) -> (r: (usize, usize, usize))
    requires
        j <= ls.len(),
    ensures
        (r.0 as int, r.1 as int, r.2 as int) == drawer_at(views(ls@), j as int, name@),
        r.0 <= r.1 <= ls.len(),
        j <= r.2 <= ls.len(),
{
    let ghost lv = views(ls@);
    if j < ls.len() && trimmed_is(&ls[j], name) {
        assert(lv[j as int] == ls@[j as int]@);
        let e = block_end_exec(ls, j + 1);
        if e < ls.len() {
            (j + 1, e, e + 1)
        } else {
            (j + 1, e, ls.len())
        }
    } else {
        proof {
            if j < ls.len() {
                assert(lv[j as int] == ls@[j as int]@);
            }
        }
        (j, j, j)
    }
}

fn props_in_exec(ls: &Vec<Vec<char>>, a: usize, b: usize) -> (r: Vec<(String, String)>)
    requires
        a <= b <= ls.len(),
    ensures
        props_view(r@) == props_in(views(ls@), a as int, b as int),
{
    let ghost lv = views(ls@);
    let mut r: Vec<(String, String)> = Vec::new();
    let mut k = a;
    assert(props_view(r@) =~= props_in(lv, a as int, a as int));
    while k < b
        invariant
            a <= k <= b <= ls.len(),
            lv == views(ls@),
            props_view(r@) == props_in(lv, a as int, k as int),
        decreases b - k,
    {
        assert(lv[k as int] == ls@[k as int]@);
        match parse_property(&ls[k]) {
            Some(p) => {
                let ghost before = r@;
                r.push((string_of(p.0.as_slice()), string_of(p.1.as_slice())));
                assert(props_view(r@) =~= props_view(before).push((p.0@, p.1@)));
            },
            None => {},
        }
        k = k + 1;
    }
    r
}

fn logbook_in_exec(ls: &Vec<Vec<char>>, a: usize, b: usize) -> (r: Vec<DateTime>)
    requires
        a <= b <= ls.len(),
    ensures
        r@.map_values(|d: DateTime| dt_parts(d)) == logbook_in(views(ls@), a as int, b as int),
{
    let ghost lv = views(ls@);
    let mut r: Vec<DateTime> = Vec::new();
    let mut k = a;
    assert(r@.map_values(|d: DateTime| dt_parts(d)) =~= logbook_in(lv, a as int, a as int));
    while k < b
        invariant
            a <= k <= b <= ls.len(),
            lv == views(ls@),
            r@.map_values(|d: DateTime| dt_parts(d)) == logbook_in(lv, a as int, k as int),
        decreases b - k,
    {
        assert(lv[k as int] == ls@[k as int]@);
        match find_logbook_entry(&ls[k]) {
            Some(t) => {
                match DateTime::parse_org_chars(&t) {
                    Some(d) => {
                        let ghost before = r@;
                        r.push(d);
                        assert(r@.map_values(|d: DateTime| dt_parts(d)) =~= before.map_values(
                            |d: DateTime| dt_parts(d),
                        ).push(dt_parts(d)));
                    },
                    None => {},
                }
            },
            None => {},
        }
        k = k + 1;
    }
    r
}

fn notes_end_exec(ls: &Vec<Vec<char>>, k: usize) -> (r: usize)
    requires
        k <= ls.len(),
    ensures
        r == notes_end(views(ls@), k as int),
        k <= r <= ls.len(),
{
    let ghost lv = views(ls@);
    let mut j = k;
    while j < ls.len() && !(ls[j].len() > 0 && ls[j][0] == '*')
        invariant
            k <= j <= ls.len(),
            lv == views(ls@),
            notes_end(lv, j as int) == notes_end(lv, k as int),
        decreases ls.len() - j,
    {
        assert(lv[j as int] == ls@[j as int]@);
        j = j + 1;
    }
    if j < ls.len() {
        assert(lv[j as int] == ls@[j as int]@);
    }
    j
}

fn notes_exec(ls: &Vec<Vec<char>>, a: usize, b: usize) -> (r: String)
    requires
        a <= b <= ls.len(),
    ensures
        r@ == trim(notes_acc(views(ls@), a as int, b as int)),
{
    let ghost lv = views(ls@);
    let mut acc: Vec<char> = Vec::new();
    let mut k = a;
    while k < b
        invariant
            a <= k <= b <= ls.len(),
            lv == views(ls@),
            acc@ == notes_acc(lv, a as int, k as int),
        decreases b - k,
    {
        assert(lv[k as int] == ls@[k as int]@);
        let ghost before = acc@;
        if acc.len() > 0 {
            acc.push('\n');
        }
        push_all(&mut acc, &ls[k]);
        assert(acc@ =~= if before.len() == 0 {
            lv[k as int]
        } else {
            before + seq!['\n'] + lv[k as int]
        });
        assert(notes_acc(lv, a as int, k + 1) == if notes_acc(lv, a as int, k as int).len() == 0 {
            lv[k as int]
        } else {
            notes_acc(lv, a as int, k as int) + seq!['\n'] + lv[k as int]
        });
        k = k + 1;
    }
    let t = trim_chars(&acc);
    string_of(t.as_slice())
}

fn stamp_recurrence_exec(r: &Option<Vec<char>>) -> (out: Option<Recurrence>)
    requires
        r matches Some(t) ==> recurrence_parse_ok(t@),
    ensures
        out == stamp_recurrence(
            match r {
                Some(t) => Some(t@),
                None => None,
            },
        ),
{
    match r {
        Some(t) => Recurrence::parse_chars(t),
        None => None,
    }
}

fn planning_exec(pl: &Vec<char>) -> (r: (Option<Date>, Option<Date>, Option<Recurrence>))
    ensures
        (opt_num(r.0), opt_num(r.1), r.2) == planning_of(pl@),
{
    proof {
        reveal_strlit("SCHEDULED:");
        reveal_strlit("DEADLINE:");
    }
    let skw = chars_of("SCHEDULED:");
    let dkw = chars_of("DEADLINE:");
    assert(skw@ =~= scheduled_kw());
    assert(dkw@ =~= deadline_kw());
    let (sched, rec1) = match find_stamp(pl, &skw) {
        Some((d, r)) => {
            proof {
                lemma_stamp_from(pl@, 0, scheduled_kw());
            }
            (Date::parse_iso_chars(&d), stamp_recurrence_exec(&r))
        },
        None => (None, None),
    };
    match find_stamp(pl, &dkw) {
        Some((d, r)) => {
            proof {
                lemma_stamp_from(pl@, 0, deadline_kw());
            }
            let dl = Date::parse_iso_chars(&d);
            if rec1.is_none() {
                (sched, dl, stamp_recurrence_exec(&r))
            } else {
                (sched, dl, rec1)
            }
        },
        None => (sched, None, rec1),
    }
}

fn heading_at_exec(ls: &Vec<Vec<char>>, i: usize, h: Headline) -> (r: (ParsedHeading, usize))
    requires
        i < ls.len(),
    ensures
        r.0@ == heading_at(views(ls@), i as int, headline_view(h)).0,
        r.1 as int == heading_at(views(ls@), i as int, headline_view(h)).1,
        i < r.1 <= ls.len(),
{
    let ghost lv = views(ls@);
    let j0 = i + 1;
    if j0 < ls.len() {
        assert(lv[j0 as int] == ls@[j0 as int]@);
    }
    let j1 = if j0 < ls.len() && is_closed_line_exec(&ls[j0]) {
        j0 + 1
    } else {
        j0
    };
    assert(j1 == after_closed(lv, i as int));
    let mut j2 = j1;
    let mut sched: Option<Date> = None;
    let mut dl: Option<Date> = None;
    let mut rec: Option<Recurrence> = None;
    if j1 < ls.len() && is_planning_line_exec(&ls[j1]) {
        assert(lv[j1 as int] == ls@[j1 as int]@);
        let p = planning_exec(&ls[j1]);
        sched = p.0;
        dl = p.1;
        rec = p.2;
        j2 = j1 + 1;
    } else {
        proof {
            if j1 < ls.len() {
                assert(lv[j1 as int] == ls@[j1 as int]@);
            }
        }
    }
    proof {
        reveal_strlit(":PROPERTIES:");
        reveal_strlit(":LOGBOOK:");
    }
    assert(":PROPERTIES:"@ =~= properties_marker());
    assert(":LOGBOOK:"@ =~= logbook_marker());
    let (pa, pb, j3) = drawer_at_exec(ls, j2, ":PROPERTIES:");
    let (la, lb, j4) = drawer_at_exec(ls, j3, ":LOGBOOK:");
    let j5 = notes_end_exec(ls, j4);
    let properties = props_in_exec(ls, pa, pb);
    let logbook_entries = logbook_in_exec(ls, la, lb);
    let notes = notes_exec(ls, j4, j5);
    proof {
        lemma_heading_next(lv, i as int, headline_view(h));
    }
    let title = string_of(h.title.as_slice());
    let tags = crate::text::strings_of(&h.tags);
    let ph = ParsedHeading {
        level: h.level,
        state: h.state,
        priority: h.priority,
        title,
        tags,
        scheduled: sched,
        deadline: dl,
        recurrence: rec,
        properties,
        logbook_entries,
        notes,
    };
    (ph, j5)
}

impl OrgParser {
    /// Reads an org text into its headings.
    pub fn parse(input: &str) -> (r: Vec<ParsedHeading>)
        ensures
            r@.map_values(|h: ParsedHeading| h@) == parse_org(input@),
    {
        let v = chars_of(input);
        let ls = split_lines(&v);
        let ghost lv = views(ls@);
        assert(lv =~= lines(v@));
        let mut out: Vec<ParsedHeading> = Vec::new();
        let mut i: usize = 0;
        while i < ls.len()
            invariant
                i <= ls.len(),
                lv == views(ls@),
                out@.map_values(|h: ParsedHeading| h@) + headings_from(lv, i as int)
                    == headings_from(lv, 0),
            decreases ls.len() - i,
        {
            assert(lv[i as int] == ls@[i as int]@);
            match parse_headline(&ls[i]) {
                Some(h) => {
                    let (ph, next) = heading_at_exec(&ls, i, h);
                    let ghost before = out@;
                    out.push(ph);
                    assert(out@.map_values(|h: ParsedHeading| h@) =~= before.map_values(
                        |h: ParsedHeading| h@,
                    ).push(ph@));
                    i = next;
                },
                None => {
                    i = i + 1;
                },
            }
        }
        assert(out@.map_values(|h: ParsedHeading| h@) =~= headings_from(lv, 0));
        out
    }

    /// The value of the first property named `key`.
    pub fn get_property<'a>(props: &'a Vec<(String, String)>, key: &str) -> (r: Option<&'a str>)
        ensures
            match r {
                Some(v) => property_value(props_view(props@), key@) == Some(v@),
                None => property_value(props_view(props@), key@) is None,
            },
    {
        let ghost pv = props_view(props@);
        let mut i: usize = 0;
        assert(pv.skip(0) =~= pv);
        while i < props.len()
            invariant
                i <= props.len(),
                pv == props_view(props@),
                property_value(pv, key@) == property_value(pv.skip(i as int), key@),
            decreases props.len() - i,
        {
            assert(pv.skip(i as int)[0] == pv[i as int]);
            assert(pv.skip(i as int).drop_first() =~= pv.skip(i + 1));
            if crate::text::str_eq(props[i].0.as_str(), key) {
                return Some(props[i].1.as_str());
            }
            i = i + 1;
        }
        assert(pv.skip(i as int).len() == 0);
        None
    }
}

} // verus!
