//! Reading a task from the VTODO of a VCALENDAR text.

use vstd::prelude::*;

use crate::dates::{opt_dt_parts, opt_num, Date, DateTime, DateTimeParts, dt_parts};
use crate::ids::{uuid_parse_spec, uuid_v5, Uuid};
use crate::model::recurrence::{parse_recurrence_spec, recurrence_parse_ok, Recurrence};
use crate::model::task::{opt_str, state_of_keyword, strs, Priority, Task, TaskState, TaskView};
use crate::sync::ical::{
    date_cut_ok, date_cut_ok_exec, ical_date_spec, ical_datetime_spec, ical_line_spec, parse_ical_date,
    parse_ical_datetime, parse_ical_line_chars, unescape_chars, unescape_spec, unfold_chars,
    unfold_spec, caldav_uuid_namespace, CALDAV_UUID_NAMESPACE_VALUE,
};
use crate::text::{
    chars_eq_str, chars_of, find_from, find_char_from, has_prefix_at, lemma_find_from, lines,
    parse_i32_spec, parse_u32, parse_u32_spec, slice_chars, split_chars, split_lines, split_on,
    string_of, trim, trim_chars, trim_end, trim_end_chars, views, starts_with_str_at,
};

verus! {

/// What the scan of the VTODO lines has read so far.
pub struct VtodoScan {
    pub in_vtodo: bool,
    pub done: bool,
    pub uid_raw: Option<Seq<char>>,
    pub summary: Seq<char>,
    pub status: Option<Seq<char>>,
    pub priority_val: Option<i32>,
    pub categories: Seq<Seq<char>>,
    pub dtstart: Option<int>,
    pub due: Option<int>,
    pub description: Seq<char>,
    pub created: Option<DateTimeParts>,
    pub completed: Option<DateTimeParts>,
    pub lamp_state: Option<Seq<char>>,
    pub lamp_project: Option<Seq<char>>,
    pub lamp_waiting_for: Option<Seq<char>>,
    pub lamp_esc: Option<u32>,
    pub lamp_delegated: Option<int>,
    pub lamp_follow_up: Option<int>,
    pub lamp_recurrence: Option<Seq<char>>,
    pub lamp_logbook: Option<Seq<char>>,
    pub lamp_clock: Option<Seq<char>>,
    pub lamp_tags: Option<Seq<char>>,
    pub lamp_dayplan: Option<int>,
    pub lamp_dayplan_budget: Option<u32>,
}

pub open spec fn scan_start() -> VtodoScan {
    VtodoScan {
        in_vtodo: false,
        done: false,
        uid_raw: None,
        summary: seq![],
        status: None,
        priority_val: None,
        categories: seq![],
        dtstart: None,
        due: None,
        description: seq![],
        created: None,
        completed: None,
        lamp_state: None,
        lamp_project: None,
        lamp_waiting_for: None,
        lamp_esc: None,
        lamp_delegated: None,
        lamp_follow_up: None,
        lamp_recurrence: None,
        lamp_logbook: None,
        lamp_clock: None,
        lamp_tags: None,
        lamp_dayplan: None,
        lamp_dayplan_budget: None,
    }
}

/// `X-LAMP-DAYPLAN`: `YYYYMMDD` or `YYYYMMDD;BUDGET=n`.
pub open spec fn dayplan_apply(st: VtodoScan, v: Seq<char>) -> VtodoScan {
    match find_from(v, ';', 0) {
        Some(k) => {
            let date_part = v.take(k);
            let params = v.skip(k + 1);
            VtodoScan {
                lamp_dayplan: ical_date_spec(date_part),
                lamp_dayplan_budget: if has_prefix_at(params, 0, "BUDGET="@) {
                    parse_u32_spec(params.skip(7))
                } else {
                    st.lamp_dayplan_budget
                },
                ..st
            }
        },
        None => VtodoScan { lamp_dayplan: ical_date_spec(v), ..st },
    }
}

/// The field a `key:value` line of the VTODO sets.
pub open spec fn field_apply(st: VtodoScan, k: Seq<char>, v: Seq<char>) -> VtodoScan {
    if k == "UID"@ {
        VtodoScan { uid_raw: Some(v), ..st }
    } else if k == "SUMMARY"@ {
        VtodoScan { summary: unescape_spec(v), ..st }
    } else if k == "STATUS"@ {
        VtodoScan { status: Some(v), ..st }
    } else if k == "PRIORITY"@ {
        VtodoScan { priority_val: parse_i32_spec(v), ..st }
    } else if k == "CATEGORIES"@ {
        VtodoScan { categories: split_on(v, ',').map_values(|x: Seq<char>| trim(x)), ..st }
    } else if k == "DTSTART"@ {
        VtodoScan { dtstart: ical_date_spec(v), ..st }
    } else if k == "DUE"@ {
        VtodoScan { due: ical_date_spec(v), ..st }
    } else if k == "DESCRIPTION"@ {
        VtodoScan { description: unescape_spec(v), ..st }
    } else if k == "CREATED"@ {
        VtodoScan { created: ical_datetime_spec(v), ..st }
    } else if k == "COMPLETED"@ {
        VtodoScan { completed: ical_datetime_spec(v), ..st }
    } else if k == "X-LAMP-STATE"@ {
        VtodoScan { lamp_state: Some(v), ..st }
    } else if k == "X-LAMP-PROJECT"@ {
        VtodoScan { lamp_project: Some(unescape_spec(v)), ..st }
    } else if k == "X-LAMP-WAITING-FOR"@ {
        VtodoScan { lamp_waiting_for: Some(unescape_spec(v)), ..st }
    } else if k == "X-LAMP-ESC"@ {
        VtodoScan { lamp_esc: parse_u32_spec(v), ..st }
    } else if k == "X-LAMP-DELEGATED"@ {
        VtodoScan { lamp_delegated: ical_date_spec(v), ..st }
    } else if k == "X-LAMP-FOLLOW-UP"@ {
        VtodoScan { lamp_follow_up: ical_date_spec(v), ..st }
    } else if k == "X-LAMP-RECURRENCE"@ {
        VtodoScan { lamp_recurrence: Some(v), ..st }
    } else if k == "X-LAMP-LOGBOOK"@ {
        VtodoScan { lamp_logbook: Some(v), ..st }
    } else if k == "X-LAMP-CLOCK"@ {
        VtodoScan { lamp_clock: Some(v), ..st }
    } else if k == "X-LAMP-TAGS"@ {
        VtodoScan { lamp_tags: Some(v), ..st }
    } else if k == "X-LAMP-DAYPLAN"@ {
        dayplan_apply(st, v)
    } else {
        st
    }
}

/// One line of the unfolded text: `BEGIN:VTODO` starts the component,
/// `END:VTODO` ends the scan, content lines inside set fields.
pub open spec fn scan_step(st: VtodoScan, raw: Seq<char>) -> VtodoScan {
    let line = trim_end(raw);
    if st.done {
        st
    } else if line == "BEGIN:VTODO"@ {
        VtodoScan { in_vtodo: true, ..st }
    } else if line == "END:VTODO"@ {
        VtodoScan { done: true, ..st }
    } else if !st.in_vtodo {
        st
    } else {
        match ical_line_spec(line) {
            Some((k, v)) => field_apply(st, k, v),
            None => st,
        }
    }
}

pub open spec fn scan_lines(ls: Seq<Seq<char>>, n: int) -> VtodoScan
    decreases n,
{
    if n <= 0 {
        scan_start()
    } else {
        scan_step(scan_lines(ls, n - 1), ls[n - 1])
    }
}

/// The scan of a VCALENDAR text.
pub open spec fn scan_of(ical: Seq<char>) -> VtodoScan {
    let ls = lines(unfold_spec(ical));
    scan_lines(ls, ls.len() as int)
}

/// Whether the date cut a content line makes (if any) falls between
/// characters.
pub open spec fn field_cut_ok(k: Seq<char>, v: Seq<char>) -> bool {
    if k == "DTSTART"@ || k == "DUE"@ || k == "X-LAMP-DELEGATED"@ || k == "X-LAMP-FOLLOW-UP"@ {
        date_cut_ok(v)
    } else if k == "X-LAMP-DAYPLAN"@ {
        dayplan_cut_ok(v)
    } else {
        true
    }
}

/// Whether the date cut of an `X-LAMP-DAYPLAN` value is safe.
pub open spec fn dayplan_cut_ok(v: Seq<char>) -> bool {
    match find_from(v, ';', 0) {
        Some(k) => date_cut_ok(v.take(k)),
        None => date_cut_ok(v),
    }
}

/// Whether scanning the line `raw` from `st` cuts dates safely.
pub open spec fn step_ok(st: VtodoScan, raw: Seq<char>) -> bool {
    let line = trim_end(raw);
    if st.done || line == "BEGIN:VTODO"@ || line == "END:VTODO"@ || !st.in_vtodo {
        true
    } else {
        match ical_line_spec(line) {
            Some((k, v)) => field_cut_ok(k, v),
            None => true,
        }
    }
}

/// The inputs on which `vcalendar_to_task` does not panic: every date it
/// cuts is cut between characters, and the repeater text is one
/// `Recurrence::parse` accepts.
pub open spec fn vcalendar_ok(ical: Seq<char>) -> bool {
    let ls = lines(unfold_spec(ical));
    &&& forall|n: int| 0 <= n < ls.len() ==> step_ok(#[trigger] scan_lines(ls, n), ls[n])
    &&& (scan_of(ical).lamp_recurrence matches Some(r) ==> recurrence_parse_ok(r))
}

pub open spec fn state_from_scan(st: VtodoScan) -> TaskState {
    match st.lamp_state {
        Some(s) if state_of_keyword(s) is Some => state_of_keyword(s)->0,
        _ => if st.status == Some("COMPLETED"@) {
            TaskState::Done
        } else if st.status == Some("CANCELLED"@) {
            TaskState::Cancelled
        } else {
            TaskState::Todo
        },
    }
}

/// PRIORITY 1 is A, 2 to 5 B, 6 to 9 C; anything else none.
pub open spec fn priority_from_number(p: Option<i32>) -> Option<Priority> {
    match p {
        Some(n) => if n == 1 {
            Some(Priority::A)
        } else if 2 <= n <= 5 {
            Some(Priority::B)
        } else if 6 <= n <= 9 {
            Some(Priority::C)
        } else {
            None
        },
        None => None,
    }
}

/// The identifier of a UID: the UUID it spells, else its name-based UUID.
pub open spec fn uid_to_uuid(u: Seq<char>) -> Uuid {
    match uuid_parse_spec(u) {
        Some(v) => Uuid { value: v },
        None => Uuid { value: uuid_v5(CALDAV_UUID_NAMESPACE_VALUE, u) },
    }
}

pub open spec fn nonempty(o: Option<Seq<char>>) -> Option<Seq<char>> {
    match o {
        Some(s) => if s.len() > 0 {
            Some(s)
        } else {
            None
        },
        None => None,
    }
}

/// The logbook times that parse among the comma-separated items.
pub open spec fn logbook_from_items(items: Seq<Seq<char>>) -> Seq<DateTimeParts>
    decreases items.len(),
{
    if items.len() == 0 {
        seq![]
    } else {
        let rest = logbook_from_items(items.drop_last());
        match ical_datetime_spec(trim(items.last())) {
            Some(d) => rest.push(d),
            None => rest,
        }
    }
}

/// A clock item `start/end` (both parsing).
pub open spec fn clock_item(item: Seq<char>) -> Option<(DateTimeParts, DateTimeParts)> {
    let t = trim(item);
    match find_from(t, '/', 0) {
        Some(k) => match (ical_datetime_spec(t.take(k)), ical_datetime_spec(t.skip(k + 1))) {
            (Some(a), Some(b)) => Some((a, b)),
            _ => None,
        },
        None => None,
    }
}

pub open spec fn clock_from_items(items: Seq<Seq<char>>) -> Seq<(DateTimeParts, DateTimeParts)>
    decreases items.len(),
{
    if items.len() == 0 {
        seq![]
    } else {
        let rest = clock_from_items(items.drop_last());
        match clock_item(items.last()) {
            Some(p) => rest.push(p),
            None => rest,
        }
    }
}

/// `t` is the task read from the scan `st` (summary not empty).
pub open spec fn task_from_scan(t: TaskView, st: VtodoScan) -> bool {
    &&& (st.uid_raw matches Some(u) ==> t.id == uid_to_uuid(u))
    &&& t.title == st.summary
    &&& t.state == state_from_scan(st)
    &&& t.priority == priority_from_number(st.priority_val)
    &&& t.contexts == st.categories
    &&& opt_num(t.scheduled) == st.dtstart
    &&& opt_num(t.deadline) == st.due
    &&& t.recurrence == (match st.lamp_recurrence {
        Some(r) => parse_recurrence_spec(r),
        None => None,
    })
    &&& t.notes == st.description
    &&& (st.created matches Some(c) ==> dt_parts(t.created) == c)
    &&& opt_dt_parts(t.completed) == st.completed
    &&& t.project == nonempty(st.lamp_project)
    &&& t.waiting_for == nonempty(st.lamp_waiting_for)
    &&& t.esc == st.lamp_esc
    &&& opt_num(t.delegated) == st.lamp_delegated
    &&& opt_num(t.follow_up) == st.lamp_follow_up
    &&& t.extra_tags == (match st.lamp_tags {
        Some(s) => split_on(s, ',').map_values(|x: Seq<char>| unescape_spec(trim(x))),
        None => seq![],
    })
    &&& t.scheduled_time is None
    &&& t.deadline_time is None
    &&& opt_num(t.dayplan_date) == st.lamp_dayplan
    &&& t.dayplan_budget == st.lamp_dayplan_budget
    &&& t.logbook_entries.map_values(|d: DateTime| dt_parts(d)) == (match st.lamp_logbook {
        Some(s) => logbook_from_items(split_on(s, ',')),
        None => seq![],
    })
    &&& t.clock_entries.map_values(|p: (DateTime, DateTime)| (dt_parts(p.0), dt_parts(p.1))) == (
    match st.lamp_clock {
        Some(s) => clock_from_items(split_on(s, ',')),
        None => seq![],
    })
    &&& t.sync_href is None
    &&& t.sync_hash is None
    &&& t.sync_uid == st.uid_raw
    &&& t.sync_etag is None
}

// ---------------------------------------------------------------------------
// The scan, executed
// ---------------------------------------------------------------------------

pub struct Scan {
    pub in_vtodo: bool,
    pub done: bool,
    pub uid_raw: Option<Vec<char>>,
    pub summary: Vec<char>,
    pub status: Option<Vec<char>>,
    pub priority_val: Option<i32>,
    pub categories: Vec<Vec<char>>,
    pub dtstart: Option<Date>,
    pub due: Option<Date>,
    pub description: Vec<char>,
    pub created: Option<DateTime>,
    pub completed: Option<DateTime>,
    pub lamp_state: Option<Vec<char>>,
    pub lamp_project: Option<Vec<char>>,
    pub lamp_waiting_for: Option<Vec<char>>,
    pub lamp_esc: Option<u32>,
    pub lamp_delegated: Option<Date>,
    pub lamp_follow_up: Option<Date>,
    pub lamp_recurrence: Option<Vec<char>>,
    pub lamp_logbook: Option<Vec<char>>,
    pub lamp_clock: Option<Vec<char>>,
    pub lamp_tags: Option<Vec<char>>,
    pub lamp_dayplan: Option<Date>,
    pub lamp_dayplan_budget: Option<u32>,
}

pub open spec fn ov(o: Option<Vec<char>>) -> Option<Seq<char>> {
    match o {
        Some(v) => Some(v@),
        None => None,
    }
}

impl View for Scan {
    type V = VtodoScan;

    open spec fn view(&self) -> VtodoScan {
        VtodoScan {
            in_vtodo: self.in_vtodo,
            done: self.done,
            uid_raw: ov(self.uid_raw),
            summary: self.summary@,
            status: ov(self.status),
            priority_val: self.priority_val,
            categories: views(self.categories@),
            dtstart: opt_num(self.dtstart),
            due: opt_num(self.due),
            description: self.description@,
            created: opt_dt_parts(self.created),
            completed: opt_dt_parts(self.completed),
            lamp_state: ov(self.lamp_state),
            lamp_project: ov(self.lamp_project),
            lamp_waiting_for: ov(self.lamp_waiting_for),
            lamp_esc: self.lamp_esc,
            lamp_delegated: opt_num(self.lamp_delegated),
            lamp_follow_up: opt_num(self.lamp_follow_up),
            lamp_recurrence: ov(self.lamp_recurrence),
            lamp_logbook: ov(self.lamp_logbook),
            lamp_clock: ov(self.lamp_clock),
            lamp_tags: ov(self.lamp_tags),
            lamp_dayplan: opt_num(self.lamp_dayplan),
            lamp_dayplan_budget: self.lamp_dayplan_budget,
        }
    }
}

fn date_of(v: &Vec<char>) -> (r: Option<Date>)
    requires
        date_cut_ok(v@),
    ensures
        opt_num(r) == ical_date_spec(v@),
{
    let s = string_of(v.as_slice());
    parse_ical_date(s.as_str())
}

fn datetime_of(v: &Vec<char>) -> (r: Option<DateTime>)
    ensures
        opt_dt_parts(r) == ical_datetime_spec(v@),
{
    let s = string_of(v.as_slice());
    parse_ical_datetime(s.as_str())
}

fn parse_i32_chars(v: &Vec<char>) -> (r: Option<i32>)
    ensures
        r == parse_i32_spec(v@),
{
    let neg = v.len() > 0 && v[0] == '-';
    let start: usize = if v.len() > 0 && (v[0] == '+' || v[0] == '-') {
        1
    } else {
        0
    };
    let ghost d = v@.subrange(start as int, v.len() as int);
    proof {
        if start == 1 {
            assert(d =~= v@.drop_first());
        } else {
            assert(d =~= v@);
        }
    }
    let digits = crate::text::parse_digits_u32(v, start, v.len());
    match digits {
        Some(x) => {
            if neg && x <= 0x8000_0000 {
                let y: i64 = 0 - (x as i64);
                assert(i32::MIN <= y <= 0);
                Some(y as i32)
            } else if !neg && x <= 0x7fff_ffff {
                Some(x as i32)
            } else {
                None
            }
        },
        None => None,
    }
}

/// Applies one content line of the VTODO. `cut_ok` says whether, should
/// the line cut a date, the cut falls between characters; without it the
/// cut is not made and the scan is marked not ok.
fn apply_field(st: &mut Scan, k: &Vec<char>, v: &Vec<char>)
    requires
        field_cut_ok(k@, v@),
    ensures
        final(st)@ == field_apply(old(st)@, k@, v@),
{
    if chars_eq_str(k, "UID") {
        st.uid_raw = Some(copy_chars(v));
    } else if chars_eq_str(k, "SUMMARY") {
        st.summary = unescape_chars(v);
    } else if chars_eq_str(k, "STATUS") {
        st.status = Some(copy_chars(v));
    } else if chars_eq_str(k, "PRIORITY") {
        st.priority_val = parse_i32_chars(v);
    } else if chars_eq_str(k, "CATEGORIES") {
        let parts = split_chars(v, ',');
        let mut cats: Vec<Vec<char>> = Vec::new();
        let mut i: usize = 0;
        while i < parts.len()
            invariant
                i <= parts.len(),
                views(cats@) =~= views(parts@).map_values(|x: Seq<char>| trim(x)).take(i as int),
            decreases parts.len() - i,
        {
            let ghost before = cats@;
            cats.push(trim_chars(&parts[i]));
            assert(views(cats@) =~= views(before).push(trim(parts@[i as int]@)));
            i = i + 1;
        }
        assert(views(parts@).map_values(|x: Seq<char>| trim(x)).take(parts.len() as int)
            =~= views(parts@).map_values(|x: Seq<char>| trim(x)));
        st.categories = cats;
    } else if chars_eq_str(k, "DTSTART") {
        st.dtstart = date_of(v);
    } else if chars_eq_str(k, "DUE") {
        st.due = date_of(v);
    } else if chars_eq_str(k, "DESCRIPTION") {
        st.description = unescape_chars(v);
    } else if chars_eq_str(k, "CREATED") {
        st.created = datetime_of(v);
    } else if chars_eq_str(k, "COMPLETED") {
        st.completed = datetime_of(v);
    } else if chars_eq_str(k, "X-LAMP-STATE") {
        st.lamp_state = Some(copy_chars(v));
    } else if chars_eq_str(k, "X-LAMP-PROJECT") {
        st.lamp_project = Some(unescape_chars(v));
    } else if chars_eq_str(k, "X-LAMP-WAITING-FOR") {
        st.lamp_waiting_for = Some(unescape_chars(v));
    } else if chars_eq_str(k, "X-LAMP-ESC") {
        st.lamp_esc = parse_u32(v);
    } else if chars_eq_str(k, "X-LAMP-DELEGATED") {
        st.lamp_delegated = date_of(v);
    } else if chars_eq_str(k, "X-LAMP-FOLLOW-UP") {
        st.lamp_follow_up = date_of(v);
    } else if chars_eq_str(k, "X-LAMP-RECURRENCE") {
        st.lamp_recurrence = Some(copy_chars(v));
    } else if chars_eq_str(k, "X-LAMP-LOGBOOK") {
        st.lamp_logbook = Some(copy_chars(v));
    } else if chars_eq_str(k, "X-LAMP-CLOCK") {
        st.lamp_clock = Some(copy_chars(v));
    } else if chars_eq_str(k, "X-LAMP-TAGS") {
        st.lamp_tags = Some(copy_chars(v));
    } else if chars_eq_str(k, "X-LAMP-DAYPLAN") {
        apply_dayplan(st, v);
    }
}

fn copy_chars(v: &Vec<char>) -> (r: Vec<char>)
    ensures
        r@ == v@,
{
    slice_chars(v, 0, v.len())
}

fn apply_dayplan(st: &mut Scan, v: &Vec<char>)
    requires
        dayplan_cut_ok(v@),
    ensures
        final(st)@ == dayplan_apply(old(st)@, v@),
{
    proof {
        lemma_find_from(v@, ';', 0);
    }
    match find_char_from(v, ';', 0) {
        Some(k) => {
            let date_part = slice_chars(v, 0, k);
            assert(date_part@ =~= v@.take(k as int));
            let params = slice_chars(v, k + 1, v.len());
            assert(params@ =~= v@.skip(k + 1));
            st.lamp_dayplan = date_of(&date_part);
            proof {
                reveal_strlit("BUDGET=");
            }
            if starts_with_str_at(&params, 0, "BUDGET=") {
                let rest = slice_chars(&params, 7, params.len());
                assert(rest@ =~= params@.skip(7));
                st.lamp_dayplan_budget = parse_u32(&rest);
            }
        },
        None => {
            st.lamp_dayplan = date_of(v);
        },
    }
}

fn new_scan() -> (r: Scan)
    ensures
        r@ == scan_start(),
{
    let r = Scan {
        in_vtodo: false,
        done: false,
        uid_raw: None,
        summary: Vec::new(),
        status: None,
        priority_val: None,
        categories: Vec::new(),
        dtstart: None,
        due: None,
        description: Vec::new(),
        created: None,
        completed: None,
        lamp_state: None,
        lamp_project: None,
        lamp_waiting_for: None,
        lamp_esc: None,
        lamp_delegated: None,
        lamp_follow_up: None,
        lamp_recurrence: None,
        lamp_logbook: None,
        lamp_clock: None,
        lamp_tags: None,
        lamp_dayplan: None,
        lamp_dayplan_budget: None,
    };
    assert(r@.summary =~= Seq::<char>::empty());
    assert(r@.categories =~= Seq::<Seq<char>>::empty());
    assert(r@.description =~= Seq::<char>::empty());
    r
}

fn scan_line(st: &mut Scan, raw: &Vec<char>)
    requires
        step_ok(old(st)@, raw@),
    ensures
        final(st)@ == scan_step(old(st)@, raw@),
{
    if st.done {
        return;
    }
    let line = trim_end_chars(raw);
    if chars_eq_str(&line, "BEGIN:VTODO") {
        st.in_vtodo = true;
    } else if chars_eq_str(&line, "END:VTODO") {
        st.done = true;
    } else if st.in_vtodo {
        match parse_ical_line_chars(&line) {
            Some((k, v)) => {
                apply_field(st, &k, &v);
            },
            None => {},
        }
    }
}

fn logbook_exec(s: &Vec<char>) -> (r: Vec<DateTime>)
    ensures
        r@.map_values(|d: DateTime| dt_parts(d)) == logbook_from_items(split_on(s@, ',')),
{
    let items = split_chars(s, ',');
    let ghost iv = views(items@);
    let mut r: Vec<DateTime> = Vec::new();
    let mut i: usize = 0;
    while i < items.len()
        invariant
            i <= items.len(),
            iv == views(items@),
            r@.map_values(|d: DateTime| dt_parts(d)) == logbook_from_items(iv.take(i as int)),
        decreases items.len() - i,
    {
        assert(iv.take(i + 1).drop_last() =~= iv.take(i as int));
        assert(iv.take(i + 1).last() == items@[i as int]@);
        let t = trim_chars(&items[i]);
        match datetime_of(&t) {
            Some(d) => {
                let ghost before = r@;
                r.push(d);
                assert(r@.map_values(|d: DateTime| dt_parts(d)) =~= before.map_values(
                    |d: DateTime| dt_parts(d),
                ).push(dt_parts(d)));
            },
            None => {},
        }
        i = i + 1;
    }
    assert(iv.take(items.len() as int) =~= iv);
    r
}

fn clock_item_exec(item: &Vec<char>) -> (r: Option<(DateTime, DateTime)>)
    ensures
        match r {
            Some(p) => clock_item(item@) == Some((dt_parts(p.0), dt_parts(p.1))),
            None => clock_item(item@) is None,
        },
{
    let t = trim_chars(item);
    proof {
        lemma_find_from(t@, '/', 0);
    }
    match find_char_from(&t, '/', 0) {
        Some(k) => {
            let a = slice_chars(&t, 0, k);
            let b = slice_chars(&t, k + 1, t.len());
            assert(a@ =~= t@.take(k as int));
            assert(b@ =~= t@.skip(k + 1));
            match (datetime_of(&a), datetime_of(&b)) {
                (Some(x), Some(y)) => Some((x, y)),
                _ => None,
            }
        },
        None => None,
    }
}

fn clock_exec(s: &Vec<char>) -> (r: Vec<(DateTime, DateTime)>)
    ensures
        r@.map_values(|p: (DateTime, DateTime)| (dt_parts(p.0), dt_parts(p.1))) == clock_from_items(
            split_on(s@, ','),
        ),
{
    let items = split_chars(s, ',');
    let ghost iv = views(items@);
    let mut r: Vec<(DateTime, DateTime)> = Vec::new();
    let mut i: usize = 0;
    while i < items.len()
        invariant
            i <= items.len(),
            iv == views(items@),
            r@.map_values(|p: (DateTime, DateTime)| (dt_parts(p.0), dt_parts(p.1)))
                == clock_from_items(iv.take(i as int)),
        decreases items.len() - i,
    {
        assert(iv.take(i + 1).drop_last() =~= iv.take(i as int));
        assert(iv.take(i + 1).last() == items@[i as int]@);
        match clock_item_exec(&items[i]) {
            Some(p) => {
                let ghost before = r@;
                r.push(p);
                assert(r@.map_values(|p: (DateTime, DateTime)| (dt_parts(p.0), dt_parts(p.1)))
                    =~= before.map_values(
                    |p: (DateTime, DateTime)| (dt_parts(p.0), dt_parts(p.1)),
                ).push((dt_parts(p.0), dt_parts(p.1))));
            },
            None => {},
        }
        i = i + 1;
    }
    assert(iv.take(items.len() as int) =~= iv);
    r
}

fn tags_exec(s: &Vec<char>) -> (r: Vec<String>)
    ensures
        strs(r@) == split_on(s@, ',').map_values(|x: Seq<char>| unescape_spec(trim(x))),
{
    let items = split_chars(s, ',');
    let ghost iv = views(items@);
    let mut r: Vec<String> = Vec::new();
    let mut i: usize = 0;
    while i < items.len()
        invariant
            i <= items.len(),
            iv == views(items@),
            strs(r@) =~= iv.map_values(|x: Seq<char>| unescape_spec(trim(x))).take(i as int),
        decreases items.len() - i,
    {
        let t = trim_chars(&items[i]);
        let u = unescape_chars(&t);
        let ghost before = r@;
        r.push(string_of(u.as_slice()));
        assert(strs(r@) =~= strs(before).push(unescape_spec(trim(items@[i as int]@))));
        i = i + 1;
    }
    assert(iv.map_values(|x: Seq<char>| unescape_spec(trim(x))).take(items.len() as int)
        =~= iv.map_values(|x: Seq<char>| unescape_spec(trim(x))));
    r
}

fn opt_string_of(o: &Option<Vec<char>>) -> (r: Option<String>)
    ensures
        opt_str(r) == ov(*o),
{
    match o {
        Some(v) => Some(string_of(v.as_slice())),
        None => None,
    }
}

fn nonempty_string_of(o: &Option<Vec<char>>) -> (r: Option<String>)
    ensures
        opt_str(r) == nonempty(ov(*o)),
{
    match o {
        Some(v) => {
            if v.len() > 0 {
                Some(string_of(v.as_slice()))
            } else {
                None
            }
        },
        None => None,
    }
}

/// Reads the task of a VCALENDAR text's VTODO; `None` when it has no
/// summary.
pub fn vcalendar_to_task(ical: &str) -> (r: Option<Task>)
    requires
        vcalendar_ok(ical@),
    ensures
        match r {
            Some(t) => scan_of(ical@).summary.len() > 0 && task_from_scan(t@, scan_of(ical@)),
            None => scan_of(ical@).summary.len() == 0,
        },
{
    let v = chars_of(ical);
    let u = unfold_chars(&v);
    let ls = split_lines(&u);
    let ghost lv = views(ls@);
    assert(lv =~= lines(unfold_spec(ical@)));
    let mut st = new_scan();
    let mut i: usize = 0;
    while i < ls.len()
        invariant
            i <= ls.len(),
            lv == views(ls@),
            lv == lines(unfold_spec(ical@)),
            vcalendar_ok(ical@),
            st@ == scan_lines(lv, i as int),
        decreases ls.len() - i,
    {
        assert(lv[i as int] == ls@[i as int]@);
        assert(step_ok(scan_lines(lv, i as int), lv[i as int]));
        scan_line(&mut st, &ls[i]);
        i = i + 1;
    }
    assert(st@ == scan_of(ical@));
    if st.summary.len() == 0 {
        return None;
    }
    let id = match &st.uid_raw {
        Some(u) => {
            let us = string_of(u.as_slice());
            match Uuid::parse_str(us.as_str()) {
                Some(x) => x,
                None => Uuid::new_v5(&caldav_uuid_namespace(), us.as_str()),
            }
        },
        None => Uuid::new_v4(),
    };
    let state = state_exec(&st);
    let priority = match st.priority_val {
        Some(n) => {
            if n == 1 {
                Some(Priority::A)
            } else if 2 <= n && n <= 5 {
                Some(Priority::B)
            } else if 6 <= n && n <= 9 {
                Some(Priority::C)
            } else {
                None
            }
        },
        None => None,
    };
    let recurrence = match &st.lamp_recurrence {
        Some(rt) => Recurrence::parse_chars(rt),
        None => None,
    };
    let created = match st.created {
        Some(c) => c,
        None => DateTime::now(),
    };
    let contexts = crate::text::strings_of(&st.categories);
    let extra_tags = match &st.lamp_tags {
        Some(t) => tags_exec(t),
        None => Vec::new(),
    };
    let logbook_entries = match &st.lamp_logbook {
        Some(t) => logbook_exec(t),
        None => Vec::new(),
    };
    let clock_entries = match &st.lamp_clock {
        Some(t) => clock_exec(t),
        None => Vec::new(),
    };
    let t = Task {
        id,
        title: string_of(st.summary.as_slice()),
        state,
        priority,
        contexts,
        scheduled: st.dtstart,
        deadline: st.due,
        recurrence,
        notes: string_of(st.description.as_slice()),
        created,
        completed: st.completed,
        project: nonempty_string_of(&st.lamp_project),
        waiting_for: nonempty_string_of(&st.lamp_waiting_for),
        esc: st.lamp_esc,
        delegated: st.lamp_delegated,
        follow_up: st.lamp_follow_up,
        extra_tags,
        scheduled_time: None,
        deadline_time: None,
        dayplan_date: st.lamp_dayplan,
        dayplan_budget: st.lamp_dayplan_budget,
        logbook_entries,
        clock_entries,
        sync_href: None,
        sync_hash: None,
        sync_uid: opt_string_of(&st.uid_raw),
        sync_etag: None,
    };
    proof {
        if st.lamp_tags is None {
            assert(t@.extra_tags =~= Seq::<Seq<char>>::empty());
        }
        if st.lamp_logbook is None {
            assert(t@.logbook_entries.map_values(|d: DateTime| dt_parts(d)) =~= Seq::<DateTimeParts>::empty());
        }
        if st.lamp_clock is None {
            assert(t@.clock_entries.map_values(|p: (DateTime, DateTime)| (dt_parts(p.0), dt_parts(p.1)))
                =~= Seq::<(DateTimeParts, DateTimeParts)>::empty());
        }
    }
    Some(t)
}

fn state_exec(st: &Scan) -> (r: TaskState)
    ensures
        r == state_from_scan(st@),
{
    let from_lamp = match &st.lamp_state {
        Some(s) => TaskState::from_keyword_chars(s),
        None => None,
    };
    match from_lamp {
        Some(s) => s,
        None => match &st.status {
            Some(s) => {
                if chars_eq_str(s, "COMPLETED") {
                    TaskState::Done
                } else if chars_eq_str(s, "CANCELLED") {
                    TaskState::Cancelled
                } else {
                    TaskState::Todo
                }
            },
            None => TaskState::Todo,
        },
    }
}

fn dayplan_cut_ok_exec(v: &Vec<char>) -> (r: bool)
    ensures
        r == dayplan_cut_ok(v@),
{
    match find_char_from(v, ';', 0) {
        Some(k) => {
            proof {
                lemma_find_from(v@, ';', 0);
            }
            let d = slice_chars(v, 0, k);
            assert(d@ =~= v@.take(k as int));
            date_cut_ok_exec(&d)
        },
        None => date_cut_ok_exec(v),
    }
}

fn field_cut_ok_exec(k: &Vec<char>, v: &Vec<char>) -> (r: bool)
    ensures
        r == field_cut_ok(k@, v@),
{
    if chars_eq_str(k, "DTSTART") || chars_eq_str(k, "DUE") || chars_eq_str(k, "X-LAMP-DELEGATED")
        || chars_eq_str(k, "X-LAMP-FOLLOW-UP") {
        date_cut_ok_exec(v)
    } else if chars_eq_str(k, "X-LAMP-DAYPLAN") {
        dayplan_cut_ok_exec(v)
    } else {
        true
    }
}

fn step_ok_exec(st: &Scan, raw: &Vec<char>) -> (r: bool)
    ensures
        r == step_ok(st@, raw@),
{
    let line = trim_end_chars(raw);
    if st.done || chars_eq_str(&line, "BEGIN:VTODO") || chars_eq_str(&line, "END:VTODO")
        || !st.in_vtodo {
        return true;
    }
    match parse_ical_line_chars(&line) {
        Some((k, v)) => field_cut_ok_exec(&k, &v),
        None => true,
    }
}

fn recurrence_parse_ok_exec(v: &Vec<char>) -> (r: bool)
    ensures
        r == recurrence_parse_ok(v@),
{
    let t = trim_chars(v);
    let skip: usize = if t.len() >= 2 && t[0] == '.' && t[1] == '+' {
        2
    } else if t.len() >= 2 && t[0] == '+' && t[1] == '+' {
        2
    } else if t.len() >= 1 && t[0] == '+' {
        1
    } else {
        return true;
    };
    assert(t@.skip(skip as int).len() == t.len() - skip);
    t.len() > skip && (t[t.len() - 1] as u32) < 0x80
}

/// Whether `vcalendar_to_task` accepts the text: every date it would cut
/// is cut between characters, and the repeater text parses.
pub fn vcalendar_checked(ical: &str) -> (r: bool)
    ensures
        r == vcalendar_ok(ical@),
{
    let v = chars_of(ical);
    let u = unfold_chars(&v);
    let ls = split_lines(&u);
    let ghost lv = views(ls@);
    assert(lv =~= lines(unfold_spec(ical@)));
    let mut st = new_scan();
    let mut i: usize = 0;
    while i < ls.len()
        invariant
            i <= ls.len(),
            lv == views(ls@),
            lv == lines(unfold_spec(ical@)),
            st@ == scan_lines(lv, i as int),
            forall|n: int| 0 <= n < i ==> step_ok(#[trigger] scan_lines(lv, n), lv[n]),
        decreases ls.len() - i,
    {
        assert(lv[i as int] == ls@[i as int]@);
        if !step_ok_exec(&st, &ls[i]) {
            return false;
        }
        scan_line(&mut st, &ls[i]);
        i = i + 1;
    }
    assert(st@ == scan_of(ical@));
    match &st.lamp_recurrence {
        Some(rt) => recurrence_parse_ok_exec(rt),
        None => true,
    }
}

/// The state of a task read from a VTODO: the lamp keyword when it
/// names a state; else `STATUS:COMPLETED` reads as done,
/// `STATUS:CANCELLED` as cancelled, and anything else as to do.
pub proof fn lemma_read_state(ical: Seq<char>, t: TaskView)
    requires
        task_from_scan(t, scan_of(ical)),
    ensures
        ({
            let st = scan_of(ical);
            let ks = st.lamp_state;
            let readable = ks is Some && state_of_keyword(ks->0) is Some;
            &&& readable ==> t.state == state_of_keyword(ks->0)->0
            &&& !readable && st.status == Some("COMPLETED"@) ==> t.state == TaskState::Done
            &&& !readable && st.status == Some("CANCELLED"@) ==> t.state == TaskState::Cancelled
            &&& !readable && st.status != Some("COMPLETED"@) && st.status != Some("CANCELLED"@) ==> t.state
                == TaskState::Todo
        }),
{
    reveal_strlit("COMPLETED");
    reveal_strlit("CANCELLED");
    assert("COMPLETED"@ != "CANCELLED"@) by {
        assert("COMPLETED"@[1] != "CANCELLED"@[1]);
    }
}

} // verus!
