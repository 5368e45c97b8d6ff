//! Tasks as iCalendar VTODO components.

use vstd::prelude::*;

use crate::dates::{date_basic, dt_basic, Date, DateTime};
use crate::ids::{uuid_text, Uuid};
use crate::model::recurrence::{recurrence_text, Recurrence};
use crate::model::task::{keyword_of, opt_str, state_is_done, strs, Priority, Task, TaskState, TaskView};
use crate::sync::ical::{escape_spec, escape_text, fold_line, fold_spec, format_date, format_datetime};
use crate::text::{decimal, join, push_joined, push_str, string_of, chars_of, has_suffix, ends_with_str, slice_chars};

verus! {

/// The characters after the last `/` (all of them when there is none).
pub open spec fn last_segment(h: Seq<char>) -> Seq<char>
    decreases h.len(),
{
    if h.len() == 0 {
        h
    } else if h.last() == '/' {
        seq![]
    } else {
        last_segment(h.drop_last()).push(h.last())
    }
}

/// The UID written for a task: the server's UID when known, else the file
/// name of its href without `.ics`, else its identifier.
pub open spec fn uid_of(t: TaskView) -> Seq<char> {
    match t.sync_uid {
        Some(u) => u,
        None => match t.sync_href {
            Some(h) => if has_suffix(last_segment(h), ".ics"@) {
                last_segment(h).take(last_segment(h).len() - 4)
            } else {
                uuid_text(t.id.value)
            },
            None => uuid_text(t.id.value),
        },
    }
}

pub open spec fn status_text(s: TaskState) -> Seq<char> {
    match s {
        TaskState::Done => "COMPLETED"@,
        TaskState::Cancelled => "CANCELLED"@,
        _ => "NEEDS-ACTION"@,
    }
}

/// `PRIORITY`: A 1, B 5, C 9, none 0.
pub open spec fn priority_number(p: Option<Priority>) -> nat {
    match p {
        Some(Priority::A) => 1,
        Some(Priority::B) => 5,
        Some(Priority::C) => 9,
        None => 0,
    }
}

/// One line `key` + `value` when the value is there.
pub open spec fn opt_line(key: Seq<char>, v: Option<Seq<char>>) -> Seq<Seq<char>> {
    match v {
        Some(x) => seq![key + x],
        None => seq![],
    }
}

/// One line when the condition holds.
pub open spec fn line_if(c: bool, l: Seq<char>) -> Seq<Seq<char>> {
    if c {
        seq![l]
    } else {
        seq![]
    }
}

pub open spec fn opt_basic(d: Option<Date>) -> Option<Seq<char>> {
    match d {
        Some(x) => Some(date_basic(x)),
        None => None,
    }
}

pub open spec fn opt_escaped(s: Option<Seq<char>>) -> Option<Seq<char>> {
    match s {
        Some(x) => Some(escape_spec(x)),
        None => None,
    }
}

pub open spec fn dayplan_text(d: Date, budget: Option<u32>) -> Seq<char> {
    date_basic(d) + match budget {
        Some(b) => ";BUDGET="@ + decimal(b as nat),
        None => seq![],
    }
}

pub open spec fn clock_pair_text(p: (DateTime, DateTime)) -> Seq<char> {
    dt_basic(p.0) + "/"@ + dt_basic(p.1)
}

/// The lines of the VTODO of a task, written at time `now`.
pub open spec fn vtodo_head_lines(t: TaskView) -> Seq<Seq<char>> {
    seq![
        "BEGIN:VCALENDAR"@,
        "VERSION:2.0"@,
        "PRODID:-//Lamp GTD//EN"@,
        "BEGIN:VTODO"@,
        "UID:"@ + uid_of(t),
        "SUMMARY:"@ + fold_spec(escape_spec(t.title)),
        "STATUS:"@ + status_text(t.state),
    ] + line_if(state_is_done(t.state), "PERCENT-COMPLETE:100"@) + seq![
        "PRIORITY:"@ + decimal(priority_number(t.priority)),
    ] + line_if(t.contexts.len() > 0, "CATEGORIES:"@ + join(t.contexts, ","@))
}

pub open spec fn vtodo_date_lines(t: TaskView, now: DateTime) -> Seq<Seq<char>> {
    vtodo_plan_lines(t) + vtodo_stamp_lines(t, now)
}

pub open spec fn vtodo_plan_lines(t: TaskView) -> Seq<Seq<char>> {
    opt_line("DTSTART;VALUE=DATE:"@, opt_basic(t.scheduled)) + opt_line(
        "DUE;VALUE=DATE:"@,
        opt_basic(t.deadline),
    ) + line_if(t.notes.len() > 0, "DESCRIPTION:"@ + fold_spec(escape_spec(t.notes)))
}

pub open spec fn vtodo_stamp_lines(t: TaskView, now: DateTime) -> Seq<Seq<char>> {
    seq!["CREATED:"@ + dt_basic(t.created)] + opt_line(
        "COMPLETED:"@,
        match t.completed {
            Some(c) => Some(dt_basic(c)),
            None => None,
        },
    ) + seq!["LAST-MODIFIED:"@ + dt_basic(now), "X-LAMP-STATE:"@ + keyword_of(t.state)]
}

pub open spec fn vtodo_lamp_lines(t: TaskView) -> Seq<Seq<char>> {
    vtodo_gtd_lines(t) + vtodo_date_ext_lines(t)
}

pub open spec fn vtodo_gtd_lines(t: TaskView) -> Seq<Seq<char>> {
    opt_line("X-LAMP-PROJECT:"@, opt_escaped(t.project)) + opt_line(
        "X-LAMP-WAITING-FOR:"@,
        opt_escaped(t.waiting_for),
    ) + opt_line(
        "X-LAMP-ESC:"@,
        match t.esc {
            Some(e) => Some(decimal(e as nat)),
            None => None,
        },
    )
}

pub open spec fn vtodo_date_ext_lines(t: TaskView) -> Seq<Seq<char>> {
    opt_line("X-LAMP-DELEGATED:"@, opt_basic(t.delegated)) + opt_line(
        "X-LAMP-FOLLOW-UP:"@,
        opt_basic(t.follow_up),
    ) + opt_line(
        "X-LAMP-RECURRENCE:"@,
        match t.recurrence {
            Some(r) => Some(recurrence_text(r)),
            None => None,
        },
    )
}

pub open spec fn vtodo_list_lines(t: TaskView) -> Seq<Seq<char>> {
    vtodo_tag_lines(t) + vtodo_time_lines(t) + seq!["END:VTODO"@, "END:VCALENDAR"@]
}

pub open spec fn vtodo_tag_lines(t: TaskView) -> Seq<Seq<char>> {
    line_if(
        t.extra_tags.len() > 0,
        "X-LAMP-TAGS:"@ + join(t.extra_tags.map_values(|x: Seq<char>| escape_spec(x)), ","@),
    ) + opt_line(
        "X-LAMP-DAYPLAN:"@,
        match t.dayplan_date {
            Some(d) => Some(dayplan_text(d, t.dayplan_budget)),
            None => None,
        },
    )
}

pub open spec fn vtodo_time_lines(t: TaskView) -> Seq<Seq<char>> {
    line_if(
        t.logbook_entries.len() > 0,
        "X-LAMP-LOGBOOK:"@ + join(t.logbook_entries.map_values(|d: DateTime| dt_basic(d)), ","@),
    ) + line_if(
        t.clock_entries.len() > 0,
        "X-LAMP-CLOCK:"@ + join(
            t.clock_entries.map_values(|p: (DateTime, DateTime)| clock_pair_text(p)),
            ","@,
        ),
    )
}

pub open spec fn vtodo_lines(t: TaskView, now: DateTime) -> Seq<Seq<char>> {
    vtodo_head_lines(t) + vtodo_date_lines(t, now) + vtodo_lamp_lines(t) + vtodo_list_lines(t)
}

/// The VCALENDAR text: the lines joined by CRLF, with a final CRLF.
pub open spec fn vcalendar_text(t: TaskView, now: DateTime) -> Seq<char> {
    join(vtodo_lines(t, now), "\r\n"@) + "\r\n"@
}

// ---------------------------------------------------------------------------
// Writing
// ---------------------------------------------------------------------------

fn push_line(ls: &mut Vec<String>, key: &str, value: &str)
    ensures
        strs(final(ls)@) == strs(old(ls)@).push(key@ + value@),
{
    let mut v: Vec<char> = Vec::new();
    push_str(&mut v, key);
    push_str(&mut v, value);
    let ghost before = ls@;
    ls.push(string_of(v.as_slice()));
    assert(strs(ls@) =~= strs(before).push(key@ + value@));
}

fn push_opt_line(ls: &mut Vec<String>, key: &str, value: Option<String>)
    ensures
        strs(final(ls)@) == strs(old(ls)@) + opt_line(key@, opt_str(value)),
{
    match value {
        Some(x) => {
            push_line(ls, key, x.as_str());
            assert(strs(final(ls)@) =~= strs(old(ls)@) + opt_line(key@, opt_str(value)));
        },
        None => {
            assert(strs(final(ls)@) =~= strs(old(ls)@) + opt_line(key@, opt_str(value)));
        },
    }
}

pub(crate) fn last_segment_chars(h: &Vec<char>) -> (r: Vec<char>)
    ensures
        r@ == last_segment(h@),
{
    let mut k: usize = h.len();
    assert(h@.take(h.len() as int) =~= h@);
    assert(h@.skip(h.len() as int) =~= Seq::<char>::empty());
    assert(last_segment(h@) =~= last_segment(h@.take(h.len() as int)) + h@.skip(h.len() as int));
    while k > 0 && h[k - 1] != '/'
        invariant
            k <= h.len(),
            last_segment(h@) == last_segment(h@.take(k as int)) + h@.skip(k as int),
        decreases k,
    {
        proof {
            let t = h@.take(k as int);
            assert(t.drop_last() =~= h@.take(k - 1));
            assert(h@.skip(k - 1) =~= seq![h@[k - 1]] + h@.skip(k as int));
            assert(last_segment(t) == last_segment(h@.take(k - 1)).push(h@[k - 1]));
            assert(last_segment(h@.take(k - 1)).push(h@[k - 1]) + h@.skip(k as int) =~= last_segment(
                h@.take(k - 1),
            ) + h@.skip(k - 1));
        }
        k = k - 1;
    }
    proof {
        assert(h@.take(h.len() as int) =~= h@);
        assert(h@.skip(h.len() as int) =~= Seq::<char>::empty());
        assert(last_segment(h@.take(k as int)) =~= Seq::<char>::empty());
    }
    let r = slice_chars(h, k, h.len());
    assert(r@ =~= h@.skip(k as int));
    r
}

fn uid_string(task: &Task) -> (r: String)
    ensures
        r@ == uid_of(task@),
{
    match &task.sync_uid {
        Some(u) => u.clone(),
        None => match &task.sync_href {
            Some(h) => {
                let hv = chars_of(h.as_str());
                let seg = last_segment_chars(&hv);
                if ends_with_str(&seg, ".ics") {
                    proof {
                        reveal_strlit(".ics");
                    }
                    let base = slice_chars(&seg, 0, seg.len() - 4);
                    assert(base@ =~= seg@.take(seg@.len() - 4));
                    string_of(base.as_slice())
                } else {
                    task.id.to_string()
                }
            },
            None => task.id.to_string(),
        },
    }
}

fn push_head_lines(ls: &mut Vec<String>, task: &Task)
    ensures
        strs(final(ls)@) == strs(old(ls)@) + vtodo_head_lines(task@),
{
    let ghost l0 = strs(ls@);
    push_line(ls, "", "BEGIN:VCALENDAR");
    push_line(ls, "", "VERSION:2.0");
    push_line(ls, "", "PRODID:-//Lamp GTD//EN");
    push_line(ls, "", "BEGIN:VTODO");
    let uid = uid_string(task);
    push_line(ls, "UID:", uid.as_str());
    let summary = fold_line(escape_text(task.title.as_str()).as_str());
    push_line(ls, "SUMMARY:", summary.as_str());
    let status = match task.state {
        TaskState::Done => "COMPLETED",
        TaskState::Cancelled => "CANCELLED",
        _ => "NEEDS-ACTION",
    };
    push_line(ls, "STATUS:", status);
    proof {
        reveal_strlit("");
        assert(""@ =~= Seq::<char>::empty());
        assert(""@ + "BEGIN:VCALENDAR"@ =~= "BEGIN:VCALENDAR"@);
        assert(""@ + "VERSION:2.0"@ =~= "VERSION:2.0"@);
        assert(""@ + "PRODID:-//Lamp GTD//EN"@ =~= "PRODID:-//Lamp GTD//EN"@);
        assert(""@ + "BEGIN:VTODO"@ =~= "BEGIN:VTODO"@);
    }
    let ghost l1 = strs(ls@);
    if task.state.is_done() {
        push_line(ls, "", "PERCENT-COMPLETE:100");
        assert(""@ + "PERCENT-COMPLETE:100"@ =~= "PERCENT-COMPLETE:100"@);
    }
    let ghost l2 = strs(ls@);
    let pn: u64 = match task.priority {
        Some(Priority::A) => 1,
        Some(Priority::B) => 5,
        Some(Priority::C) => 9,
        None => 0,
    };
    let ps = crate::text::decimal_string(pn);
    push_line(ls, "PRIORITY:", ps.as_str());
    let ghost l3 = strs(ls@);
    if task.contexts.len() > 0 {
        let mut v: Vec<char> = Vec::new();
        push_joined(&mut v, &task.contexts, ",");
        let cats = string_of(v.as_slice());
        push_line(ls, "CATEGORIES:", cats.as_str());
    }
    assert(strs(ls@) =~= l0 + vtodo_head_lines(task@));
}

fn opt_basic_string(d: Option<Date>) -> (r: Option<String>)
    ensures
        opt_str(r) == opt_basic(d),
{
    match d {
        Some(x) => Some(format_date(x)),
        None => None,
    }
}

fn push_plan_lines(ls: &mut Vec<String>, task: &Task)
    ensures
        strs(final(ls)@) == strs(old(ls)@) + vtodo_plan_lines(task@),
{
    let ghost l0 = strs(ls@);
    push_opt_line(ls, "DTSTART;VALUE=DATE:", opt_basic_string(task.scheduled));
    push_opt_line(ls, "DUE;VALUE=DATE:", opt_basic_string(task.deadline));
    let ghost l1 = strs(ls@);
    if task.notes.as_str().unicode_len() > 0 {
        let d = fold_line(escape_text(task.notes.as_str()).as_str());
        push_line(ls, "DESCRIPTION:", d.as_str());
    }
    assert(strs(ls@) =~= l0 + vtodo_plan_lines(task@));
}

fn push_stamp_lines(ls: &mut Vec<String>, task: &Task, now: DateTime)
    ensures
        strs(final(ls)@) == strs(old(ls)@) + vtodo_stamp_lines(task@, now),
{
    let ghost l0 = strs(ls@);
    push_line(ls, "CREATED:", format_datetime(task.created).as_str());
    let completed = match task.completed {
        Some(c) => Some(format_datetime(c)),
        None => None,
    };
    push_opt_line(ls, "COMPLETED:", completed);
    push_line(ls, "LAST-MODIFIED:", format_datetime(now).as_str());
    push_line(ls, "X-LAMP-STATE:", task.state.as_keyword());
    assert(strs(ls@) =~= l0 + vtodo_stamp_lines(task@, now));
}

fn push_date_lines(ls: &mut Vec<String>, task: &Task, now: DateTime)
    ensures
        strs(final(ls)@) == strs(old(ls)@) + vtodo_date_lines(task@, now),
{
    let ghost l0 = strs(ls@);
    push_plan_lines(ls, task);
    push_stamp_lines(ls, task, now);
    assert(strs(ls@) =~= l0 + vtodo_date_lines(task@, now));
}

fn opt_escaped_string(s: &Option<String>) -> (r: Option<String>)
    ensures
        opt_str(r) == opt_escaped(opt_str(*s)),
{
    match s {
        Some(x) => Some(escape_text(x.as_str())),
        None => None,
    }
}

fn push_gtd_lines(ls: &mut Vec<String>, task: &Task)
    ensures
        strs(final(ls)@) == strs(old(ls)@) + vtodo_gtd_lines(task@),
{
    let ghost l0 = strs(ls@);
    push_opt_line(ls, "X-LAMP-PROJECT:", opt_escaped_string(&task.project));
    push_opt_line(ls, "X-LAMP-WAITING-FOR:", opt_escaped_string(&task.waiting_for));
    let esc = match task.esc {
        Some(e) => Some(crate::text::decimal_string(e as u64)),
        None => None,
    };
    push_opt_line(ls, "X-LAMP-ESC:", esc);
    assert(strs(ls@) =~= l0 + vtodo_gtd_lines(task@));
}

fn push_date_ext_lines(ls: &mut Vec<String>, task: &Task)
    ensures
        strs(final(ls)@) == strs(old(ls)@) + vtodo_date_ext_lines(task@),
{
    let ghost l0 = strs(ls@);
    push_opt_line(ls, "X-LAMP-DELEGATED:", opt_basic_string(task.delegated));
    push_opt_line(ls, "X-LAMP-FOLLOW-UP:", opt_basic_string(task.follow_up));
    let rec = match task.recurrence {
        Some(r) => Some(r.to_string()),
        None => None,
    };
    push_opt_line(ls, "X-LAMP-RECURRENCE:", rec);
    assert(strs(ls@) =~= l0 + vtodo_date_ext_lines(task@));
}

fn push_lamp_lines(ls: &mut Vec<String>, task: &Task)
    ensures
        strs(final(ls)@) == strs(old(ls)@) + vtodo_lamp_lines(task@),
{
    let ghost l0 = strs(ls@);
    push_gtd_lines(ls, task);
    push_date_ext_lines(ls, task);
    assert(strs(ls@) =~= l0 + vtodo_lamp_lines(task@));
}

fn push_tag_lines(ls: &mut Vec<String>, task: &Task)
    ensures
        strs(final(ls)@) == strs(old(ls)@) + vtodo_tag_lines(task@),
{
    let ghost l0 = strs(ls@);
    if task.extra_tags.len() > 0 {
        let mut tags: Vec<String> = Vec::new();
        let mut i: usize = 0;
        while i < task.extra_tags.len()
            invariant
                i <= task.extra_tags.len(),
                strs(tags@) =~= strs(task.extra_tags@).map_values(|x: Seq<char>| escape_spec(x)).take(
                    i as int,
                ),
            decreases task.extra_tags.len() - i,
        {
            let ghost before = tags@;
            tags.push(escape_text(task.extra_tags[i].as_str()));
            assert(strs(tags@) =~= strs(before).push(escape_spec(task.extra_tags@[i as int]@)));
            i = i + 1;
        }
        assert(strs(task.extra_tags@).map_values(|x: Seq<char>| escape_spec(x)).take(
            task.extra_tags.len() as int,
        ) =~= strs(task.extra_tags@).map_values(|x: Seq<char>| escape_spec(x)));
        let mut v: Vec<char> = Vec::new();
        push_joined(&mut v, &tags, ",");
        push_line(ls, "X-LAMP-TAGS:", string_of(v.as_slice()).as_str());
    }
    let ghost l1 = strs(ls@);
    let dp = match task.dayplan_date {
        Some(d) => {
            let mut v: Vec<char> = Vec::new();
            push_str(&mut v, format_date(d).as_str());
            match task.dayplan_budget {
                Some(b) => {
                    push_str(&mut v, ";BUDGET=");
                    crate::text::push_decimal(&mut v, b as u64);
                },
                None => {},
            }
            assert(v@ =~= dayplan_text(d, task.dayplan_budget));
            Some(string_of(v.as_slice()))
        },
        None => None,
    };
    push_opt_line(ls, "X-LAMP-DAYPLAN:", dp);
    assert(strs(ls@) =~= l0 + vtodo_tag_lines(task@));
}

fn push_time_lines(ls: &mut Vec<String>, task: &Task)
    ensures
        strs(final(ls)@) == strs(old(ls)@) + vtodo_time_lines(task@),
{
    let ghost l0 = strs(ls@);
    if task.logbook_entries.len() > 0 {
        let mut es: Vec<String> = Vec::new();
        let mut i: usize = 0;
        while i < task.logbook_entries.len()
            invariant
                i <= task.logbook_entries.len(),
                strs(es@) =~= task.logbook_entries@.map_values(|d: DateTime| dt_basic(d)).take(
                    i as int,
                ),
            decreases task.logbook_entries.len() - i,
        {
            let ghost before = es@;
            es.push(format_datetime(task.logbook_entries[i]));
            assert(strs(es@) =~= strs(before).push(dt_basic(task.logbook_entries@[i as int])));
            i = i + 1;
        }
        assert(task.logbook_entries@.map_values(|d: DateTime| dt_basic(d)).take(
            task.logbook_entries.len() as int,
        ) =~= task.logbook_entries@.map_values(|d: DateTime| dt_basic(d)));
        let mut v: Vec<char> = Vec::new();
        push_joined(&mut v, &es, ",");
        push_line(ls, "X-LAMP-LOGBOOK:", string_of(v.as_slice()).as_str());
    }
    let ghost l3 = strs(ls@);
    if task.clock_entries.len() > 0 {
        let mut es: Vec<String> = Vec::new();
        let mut i: usize = 0;
        while i < task.clock_entries.len()
            invariant
                i <= task.clock_entries.len(),
                strs(es@) =~= task.clock_entries@.map_values(
                    |p: (DateTime, DateTime)| clock_pair_text(p),
                ).take(i as int),
            decreases task.clock_entries.len() - i,
        {
            let (s, e) = task.clock_entries[i];
            let mut v: Vec<char> = Vec::new();
            push_str(&mut v, format_datetime(s).as_str());
            v.push('/');
            push_str(&mut v, format_datetime(e).as_str());
            proof {
                reveal_strlit("/");
            }
            assert(v@ =~= clock_pair_text((s, e)));
            let ghost before = es@;
            es.push(string_of(v.as_slice()));
            assert(strs(es@) =~= strs(before).push(clock_pair_text(task.clock_entries@[i as int])));
            i = i + 1;
        }
        assert(task.clock_entries@.map_values(|p: (DateTime, DateTime)| clock_pair_text(p)).take(
            task.clock_entries.len() as int,
        ) =~= task.clock_entries@.map_values(|p: (DateTime, DateTime)| clock_pair_text(p)));
        let mut v: Vec<char> = Vec::new();
        push_joined(&mut v, &es, ",");
        push_line(ls, "X-LAMP-CLOCK:", string_of(v.as_slice()).as_str());
    }
    assert(strs(ls@) =~= l0 + vtodo_time_lines(task@));
}

fn push_list_lines(ls: &mut Vec<String>, task: &Task)
    ensures
        strs(final(ls)@) == strs(old(ls)@) + vtodo_list_lines(task@),
{
    let ghost l0 = strs(ls@);
    push_tag_lines(ls, task);
    push_time_lines(ls, task);
    let ghost l2 = strs(ls@);
    push_line(ls, "", "END:VTODO");
    push_line(ls, "", "END:VCALENDAR");
    proof {
        reveal_strlit("");
        assert(""@ + "END:VTODO"@ =~= "END:VTODO"@);
        assert(""@ + "END:VCALENDAR"@ =~= "END:VCALENDAR"@);
    }
    assert(strs(ls@) =~= l0 + vtodo_list_lines(task@));
}

/// The VCALENDAR text of a task, with `now` as its last-modified time.
pub fn task_to_vcalendar_at(task: &Task, now: DateTime) -> (r: String)
    ensures
        r@ == vcalendar_text(task@, now),
{
    let mut ls: Vec<String> = Vec::new();
    assert(strs(ls@) =~= Seq::<Seq<char>>::empty());
    push_head_lines(&mut ls, task);
    push_date_lines(&mut ls, task, now);
    push_lamp_lines(&mut ls, task);
    push_list_lines(&mut ls, task);
    assert(strs(ls@) =~= vtodo_lines(task@, now));
    let mut v: Vec<char> = Vec::new();
    push_joined(&mut v, &ls, "\r\n");
    push_str(&mut v, "\r\n");
    string_of(v.as_slice())
}

/// The VCALENDAR text of a task, last modified now.
pub fn task_to_vcalendar(task: &Task) -> (r: String)
    ensures
        exists|now: DateTime| r@ == #[trigger] vcalendar_text(task@, now),
{
    let now = DateTime::now();
    task_to_vcalendar_at(task, now)
}

} // verus!
