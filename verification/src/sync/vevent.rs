//! Calendar events as iCalendar VEVENT components: writing one, reading
//! one, and expanding its repetition rule into instances.

use std::hash::{Hash, Hasher};
use vstd::prelude::*;

use crate::dates::{
    chrono_since, date_basic, date_of, dt_basic, dt_of, dt_parts, lemma_date_of, lemma_dt_of,
    opt_dt_parts, DateTime, DateTimeParts, Span,
};
use crate::ids::{uuid_text, Uuid};
use crate::model::items::{CalendarEvent, EventStatus, EventView};
use crate::model::task::{opt_str, strs};
use crate::sync::ical::{
    date_cut_ok, date_cut_ok_exec, escape_spec, fold_spec, ical_date_spec, ical_datetime_spec,
    ical_line_spec, parse_ical_date, parse_ical_datetime, parse_ical_line_chars, unescape_chars,
    unescape_spec, unfold_chars, unfold_spec,
};
use crate::sync::vtodo_parse::uid_to_uuid;
use crate::text::{
    chars_eq_str, chars_of, find_sub, find_sub_from, join, lines, split_chars, split_lines,
    split_on, string_of, trim, trim_chars, trim_end, trim_end_chars, unicode_upper, views,
};

verus! {

// ---------------------------------------------------------------------------
// Reading: the scan of the VEVENT lines
// ---------------------------------------------------------------------------

/// What the scan of the VEVENT lines has read so far. `ok` is false once a
/// date has been cut inside a character.
pub struct EvScan {
    pub in_vevent: bool,
    pub done: bool,
    pub ok: bool,
    pub uid_raw: Option<Seq<char>>,
    pub summary: Seq<char>,
    pub dtstart: Option<DateTimeParts>,
    pub dtend: Option<DateTimeParts>,
    pub all_day: bool,
    pub location: Seq<char>,
    pub description: Seq<char>,
    pub status: EventStatus,
    pub rrule: Option<Seq<char>>,
    pub exdates: Seq<int>,
}

pub open spec fn ev_start() -> EvScan {
    EvScan {
        in_vevent: false,
        done: false,
        ok: true,
        uid_raw: None,
        summary: seq![],
        dtstart: None,
        dtend: None,
        all_day: false,
        location: seq![],
        description: seq![],
        status: EventStatus::Confirmed,
        rrule: None,
        exdates: seq![],
    }
}

/// A date value: midnight of a `YYYYMMDD` date; the old value stays when
/// the text is no date.
pub open spec fn date_value(old: Option<DateTimeParts>, v: Seq<char>) -> Option<DateTimeParts> {
    match ical_date_spec(v) {
        Some(n) => Some((n, 0int, 0int, 0int, 0int)),
        None => old,
    }
}

/// The dates an `EXDATE` list names: each item a date, or the date of a
/// date-time.
pub open spec fn exdate_items(items: Seq<Seq<char>>) -> Seq<int>
    decreases items.len(),
{
    if items.len() == 0 {
        seq![]
    } else {
        let rest = exdate_items(items.drop_last());
        let t = trim(items.last());
        match ical_date_spec(t) {
            Some(d) => rest.push(d),
            None => match ical_datetime_spec(t) {
                Some(p) => rest.push(p.0),
                None => rest,
            },
        }
    }
}

/// Every item of an `EXDATE` list can be cut as a date.
pub open spec fn exdate_ok(v: Seq<char>) -> bool {
    forall|i: int| 0 <= i < split_on(v, ',').len() ==> date_cut_ok(trim(#[trigger] split_on(v, ',')[i]))
}

/// The status a `STATUS` value names, by its upper case.
pub open spec fn status_of(v: Seq<char>) -> EventStatus {
    if unicode_upper(v) == "TENTATIVE"@ {
        EventStatus::Tentative
    } else if unicode_upper(v) == "CANCELLED"@ {
        EventStatus::Cancelled
    } else {
        EventStatus::Confirmed
    }
}

/// The field a content line of the VEVENT sets (`date_only`: the line
/// carries `VALUE=DATE`).
pub open spec fn ev_field(st: EvScan, k: Seq<char>, v: Seq<char>, date_only: bool) -> EvScan {
    if k == "UID"@ {
        EvScan { uid_raw: Some(v), ..st }
    } else if k == "SUMMARY"@ {
        EvScan { summary: unescape_spec(v), ..st }
    } else if k == "DTSTART"@ {
        if date_only {
            EvScan { all_day: true, dtstart: date_value(st.dtstart, v), ok: st.ok && date_cut_ok(v), ..st }
        } else {
            EvScan { dtstart: ical_datetime_spec(v), ..st }
        }
    } else if k == "DTEND"@ {
        if date_only {
            EvScan { dtend: date_value(st.dtend, v), ok: st.ok && date_cut_ok(v), ..st }
        } else {
            EvScan { dtend: ical_datetime_spec(v), ..st }
        }
    } else if k == "LOCATION"@ {
        EvScan { location: unescape_spec(v), ..st }
    } else if k == "DESCRIPTION"@ {
        EvScan { description: unescape_spec(v), ..st }
    } else if k == "STATUS"@ {
        EvScan { status: status_of(v), ..st }
    } else if k == "RRULE"@ {
        EvScan { rrule: Some(v), ..st }
    } else if k == "EXDATE"@ {
        EvScan {
            exdates: st.exdates + exdate_items(split_on(v, ',')),
            ok: st.ok && exdate_ok(v),
            ..st
        }
    } else {
        st
    }
}

/// A line carries a date value when it says `VALUE=DATE` but not
/// `VALUE=DATE-TIME`.
pub open spec fn is_date_only(line: Seq<char>) -> bool {
    find_sub(line, "VALUE=DATE"@, 0) is Some && find_sub(line, "VALUE=DATE-TIME"@, 0) is None
}

pub open spec fn ev_step(st: EvScan, raw: Seq<char>) -> EvScan {
    let line = trim_end(raw);
    if st.done {
        st
    } else if line == "BEGIN:VEVENT"@ {
        EvScan { in_vevent: true, ..st }
    } else if line == "END:VEVENT"@ {
        EvScan { done: true, ..st }
    } else if !st.in_vevent {
        st
    } else {
        match ical_line_spec(line) {
            Some((k, v)) => ev_field(st, k, v, is_date_only(line)),
            None => st,
        }
    }
}

pub open spec fn ev_lines(ls: Seq<Seq<char>>, n: int) -> EvScan
    decreases n,
{
    if n <= 0 {
        ev_start()
    } else {
        ev_step(ev_lines(ls, n - 1), ls[n - 1])
    }
}

/// The scan of a VCALENDAR text.
pub open spec fn ev_scan(ical: Seq<char>) -> EvScan {
    let ls = lines(unfold_spec(ical));
    ev_lines(ls, ls.len() as int)
}

pub struct EvAcc {
    pub in_vevent: bool,
    pub done: bool,
    pub ok: bool,
    pub uid_raw: Option<Vec<char>>,
    pub summary: Vec<char>,
    pub dtstart: Option<DateTime>,
    pub dtend: Option<DateTime>,
    pub all_day: bool,
    pub location: Vec<char>,
    pub description: Vec<char>,
    pub status: EventStatus,
    pub rrule: Option<Vec<char>>,
    pub exdates: Vec<crate::dates::Date>,
}

pub open spec fn ovc(o: Option<Vec<char>>) -> Option<Seq<char>> {
    match o {
        Some(v) => Some(v@),
        None => None,
    }
}

pub open spec fn date_nums(v: Seq<crate::dates::Date>) -> Seq<int> {
    v.map_values(|d: crate::dates::Date| d.num())
}

impl View for EvAcc {
    type V = EvScan;

    open spec fn view(&self) -> EvScan {
        EvScan {
            in_vevent: self.in_vevent,
            done: self.done,
            ok: self.ok,
            uid_raw: ovc(self.uid_raw),
            summary: self.summary@,
            dtstart: opt_dt_parts(self.dtstart),
            dtend: opt_dt_parts(self.dtend),
            all_day: self.all_day,
            location: self.location@,
            description: self.description@,
            status: self.status,
            rrule: ovc(self.rrule),
            exdates: date_nums(self.exdates@),
        }
    }
}

fn date_value_exec(old: Option<DateTime>, v: &Vec<char>) -> (r: (Option<DateTime>, bool))
    ensures
        r.1 == date_cut_ok(v@),
        r.1 ==> opt_dt_parts(r.0) == date_value(opt_dt_parts(old), v@),
{
    if !date_cut_ok_exec(v) {
        return (old, false);
    }
    let s = string_of(v.as_slice());
    match parse_ical_date(s.as_str()) {
        Some(d) => {
            let t = DateTime::midnight(d);
            (Some(t), true)
        },
        None => (old, true),
    }
}

fn exdates_exec(acc: &mut EvAcc, v: &Vec<char>)
    ensures
        final(acc).ok == (old(acc).ok && exdate_ok(v@)),
        final(acc).ok ==> date_nums(final(acc).exdates@) == date_nums(old(acc).exdates@) + exdate_items(split_on(v@, ',')),
        final(acc)@ == (EvScan { exdates: final(acc)@.exdates, ok: final(acc).ok, ..old(acc)@ }),
{
    let items = split_chars(v, ',');
    let ghost iv = views(items@);
    assert(iv == split_on(v@, ','));
    let ghost start = date_nums(acc.exdates@);
    let ghost ok0 = acc.ok;
    let mut all_ok = true;
    let mut i: usize = 0;
    while i < items.len()
        invariant
            i <= items.len(),
            iv == views(items@),
            iv == split_on(v@, ','),
            all_ok ==> date_nums(acc.exdates@) == start + exdate_items(iv.take(i as int)),
            all_ok == (forall|j: int| 0 <= j < i ==> date_cut_ok(trim(#[trigger] iv[j]))),
            acc.ok == ok0,
            acc@ == (EvScan { exdates: acc@.exdates, ..old(acc)@ }),
        decreases items.len() - i,
    {
        assert(iv.take(i + 1).drop_last() =~= iv.take(i as int));
        assert(iv.take(i + 1).last() == items@[i as int]@);
        let t = trim_chars(&items[i]);
        let cut = date_cut_ok_exec(&t);
        let ghost before = acc.exdates@;
        if cut && all_ok {
            let s = string_of(t.as_slice());
            match parse_ical_date(s.as_str()) {
                Some(d) => {
                    acc.exdates.push(d);
                    assert(date_nums(acc.exdates@) =~= date_nums(before).push(d.num()));
                },
                None => match parse_ical_datetime(s.as_str()) {
                    Some(p) => {
                        let d = p.date();
                        acc.exdates.push(d);
                        assert(date_nums(acc.exdates@) =~= date_nums(before).push(d.num()));
                    },
                    None => {},
                },
            }
        }
        all_ok = all_ok && cut;
        i = i + 1;
    }
    assert(iv.take(items.len() as int) =~= iv);
    acc.ok = acc.ok && all_ok;
}

fn status_exec(v: &Vec<char>) -> (r: EventStatus)
    ensures
        r == status_of(v@),
{
    let s = string_of(v.as_slice());
    let u = crate::text::to_upper(s.as_str());
    if crate::text::str_eq(u.as_str(), "TENTATIVE") {
        EventStatus::Tentative
    } else if crate::text::str_eq(u.as_str(), "CANCELLED") {
        EventStatus::Cancelled
    } else {
        EventStatus::Confirmed
    }
}

fn ev_field_exec(acc: &mut EvAcc, k: &Vec<char>, v: &Vec<char>, date_only: bool)
    ensures
        final(acc).ok ==> final(acc)@ == ev_field(old(acc)@, k@, v@, date_only),
        final(acc).ok == ev_field(old(acc)@, k@, v@, date_only).ok,
        final(acc).done == old(acc).done,
        final(acc).in_vevent == old(acc).in_vevent,
{
    if chars_eq_str(k, "UID") {
        acc.uid_raw = Some(crate::text::slice_chars(v, 0, v.len()));
        assert(acc.uid_raw->0@ =~= v@);
    } else if chars_eq_str(k, "SUMMARY") {
        acc.summary = unescape_chars(v);
    } else if chars_eq_str(k, "DTSTART") {
        if date_only {
            acc.all_day = true;
            let (d, cut) = date_value_exec(acc.dtstart, v);
            acc.dtstart = d;
            acc.ok = acc.ok && cut;
        } else {
            acc.dtstart = parse_ical_datetime(string_of(v.as_slice()).as_str());
        }
    } else if chars_eq_str(k, "DTEND") {
        if date_only {
            let (d, cut) = date_value_exec(acc.dtend, v);
            acc.dtend = d;
            acc.ok = acc.ok && cut;
        } else {
            acc.dtend = parse_ical_datetime(string_of(v.as_slice()).as_str());
        }
    } else if chars_eq_str(k, "LOCATION") {
        acc.location = unescape_chars(v);
    } else if chars_eq_str(k, "DESCRIPTION") {
        acc.description = unescape_chars(v);
    } else if chars_eq_str(k, "STATUS") {
        acc.status = status_exec(v);
    } else if chars_eq_str(k, "RRULE") {
        acc.rrule = Some(crate::text::slice_chars(v, 0, v.len()));
        assert(acc.rrule->0@ =~= v@);
    } else if chars_eq_str(k, "EXDATE") {
        exdates_exec(acc, v);
    }
}

fn ev_line_exec(acc: &mut EvAcc, raw: &Vec<char>)
    ensures
        final(acc).ok ==> final(acc)@ == ev_step(old(acc)@, raw@),
        final(acc).ok == ev_step(old(acc)@, raw@).ok,
{
    if acc.done {
        return;
    }
    let line = trim_end_chars(raw);
    if chars_eq_str(&line, "BEGIN:VEVENT") {
        acc.in_vevent = true;
    } else if chars_eq_str(&line, "END:VEVENT") {
        acc.done = true;
    } else if acc.in_vevent {
        let date_only = find_sub_from(&line, &chars_of("VALUE=DATE"), 0).is_some()
            && find_sub_from(&line, &chars_of("VALUE=DATE-TIME"), 0).is_none();
        match parse_ical_line_chars(&line) {
            Some((k, v)) => {
                ev_field_exec(acc, &k, &v, date_only);
            },
            None => {},
        }
    }
}

fn new_acc() -> (r: EvAcc)
    ensures
        r@ == ev_start(),
{
    let r = EvAcc {
        in_vevent: false,
        done: false,
        ok: true,
        uid_raw: None,
        summary: Vec::new(),
        dtstart: None,
        dtend: None,
        all_day: false,
        location: Vec::new(),
        description: Vec::new(),
        status: EventStatus::Confirmed,
        rrule: None,
        exdates: Vec::new(),
    };
    assert(r@.summary =~= Seq::<char>::empty());
    assert(r@.location =~= Seq::<char>::empty());
    assert(r@.description =~= Seq::<char>::empty());
    assert(r@.exdates =~= Seq::<int>::empty());
    r
}

/// Scans the lines of a VCALENDAR text; stops at the first bad date cut.
fn scan_exec(ical: &str) -> (r: EvAcc)
    ensures
        r.ok == ev_scan(ical@).ok,
        r.ok ==> r@ == ev_scan(ical@),
{
    let v = chars_of(ical);
    let u = unfold_chars(&v);
    let ls = split_lines(&u);
    let ghost lv = views(ls@);
    assert(lv =~= lines(unfold_spec(ical@)));
    let mut acc = new_acc();
    let mut i: usize = 0;
    while i < ls.len()
        invariant
            i <= ls.len(),
            lv == views(ls@),
            lv == lines(unfold_spec(ical@)),
            acc.ok == ev_lines(lv, i as int).ok,
            acc.ok ==> acc@ == ev_lines(lv, i as int),
        decreases ls.len() - i,
    {
        assert(lv[i as int] == ls@[i as int]@);
        if !acc.ok {
            proof {
                lemma_not_ok_stays(lv, i as int, ls@.len() as int);
            }
            return acc;
        }
        ev_line_exec(&mut acc, &ls[i]);
        i = i + 1;
    }
    acc
}

proof fn lemma_step_keeps_bad(st: EvScan, raw: Seq<char>)
    requires
        !st.ok,
    ensures
        !ev_step(st, raw).ok,
{
}

proof fn lemma_not_ok_stays(ls: Seq<Seq<char>>, i: int, n: int)
    requires
        0 <= i <= n <= ls.len(),
        !ev_lines(ls, i).ok,
    ensures
        !ev_lines(ls, n).ok,
    decreases n - i,
{
    if i < n {
        lemma_step_keeps_bad(ev_lines(ls, i), ls[i]);
        lemma_not_ok_stays(ls, i + 1, n);
    }
}

// ---------------------------------------------------------------------------
// Repetition rules
// ---------------------------------------------------------------------------

/// `part.split_once('=')`.
pub open spec fn split_once_eq(part: Seq<char>) -> Option<(Seq<char>, Seq<char>)> {
    match crate::text::find_from(part, '=', 0) {
        Some(i) => Some((part.take(i), part.skip(i + 1))),
        None => None,
    }
}

/// The `KEY=value` parts of a rule, keys in upper case, in order.
pub open spec fn rrule_pairs(parts: Seq<Seq<char>>) -> Seq<(Seq<char>, Seq<char>)>
    decreases parts.len(),
{
    if parts.len() == 0 {
        seq![]
    } else {
        let rest = rrule_pairs(parts.drop_last());
        match split_once_eq(parts.last()) {
            Some((k, v)) => rest.push((unicode_upper(k), v)),
            None => rest,
        }
    }
}

/// The value of a parameter: a later part names it over an earlier one.
pub open spec fn param(ps: Seq<(Seq<char>, Seq<char>)>, name: Seq<char>) -> Option<Seq<char>>
    decreases ps.len(),
{
    if ps.len() == 0 {
        None
    } else if ps.last().0 == name {
        Some(ps.last().1)
    } else {
        param(ps.drop_last(), name)
    }
}

/// The parameters of a rule: its `;`-separated `KEY=value` parts, keys in
/// upper case, in order (a later key overrides an earlier one).
pub fn parse_rrule_params(rule: &str) -> (r: Vec<(String, String)>)
    ensures
        r@.map_values(|p: (String, String)| (p.0@, p.1@)) == rrule_pairs(split_on(rule@, ';')),
{
    let v = chars_of(rule);
    let parts = split_chars(&v, ';');
    let ghost pv = views(parts@);
    assert(pv == split_on(rule@, ';'));
    let mut r: Vec<(String, String)> = Vec::new();
    let mut i: usize = 0;
    while i < parts.len()
        invariant
            i <= parts.len(),
            pv == views(parts@),
            r@.map_values(|p: (String, String)| (p.0@, p.1@)) == rrule_pairs(pv.take(i as int)),
        decreases parts.len() - i,
    {
        assert(pv.take(i + 1).drop_last() =~= pv.take(i as int));
        assert(pv.take(i + 1).last() == parts@[i as int]@);
        let part = &parts[i];
        proof {
            crate::text::lemma_find_from(part@, '=', 0);
        }
        match crate::text::find_char_from(part, '=', 0) {
            Some(k) => {
                let key = crate::text::slice_chars(part, 0, k);
                let val = crate::text::slice_chars(part, k + 1, part.len());
                assert(key@ =~= part@.take(k as int));
                assert(val@ =~= part@.skip(k + 1));
                let up = crate::text::to_upper(string_of(key.as_slice()).as_str());
                let ghost before = r@;
                r.push((up, string_of(val.as_slice())));
                assert(r@.map_values(|p: (String, String)| (p.0@, p.1@)) =~= before.map_values(
                    |p: (String, String)| (p.0@, p.1@),
                ).push((unicode_upper(part@.take(k as int)), part@.skip(k + 1))));
            },
            None => {},
        }
        i = i + 1;
    }
    assert(pv.take(parts.len() as int) =~= pv);
    r
}

fn param_exec(ps: &Vec<(String, String)>, name: &str) -> (r: Option<String>)
    ensures
        opt_str(r) == param(ps@.map_values(|p: (String, String)| (p.0@, p.1@)), name@),
{
    let ghost pv = ps@.map_values(|p: (String, String)| (p.0@, p.1@));
    let mut i = ps.len();
    assert(pv.take(i as int) =~= pv);
    while i > 0
        invariant
            i <= ps@.len(),
            pv == ps@.map_values(|p: (String, String)| (p.0@, p.1@)),
            param(pv.take(i as int), name@) == param(pv, name@),
        decreases i,
    {
        assert(pv.take(i as int).drop_last() =~= pv.take(i - 1));
        assert(pv.take(i as int).last() == (ps@[i - 1].0@, ps@[i - 1].1@));
        if crate::text::str_eq(ps[i - 1].0.as_str(), name) {
            return Some(ps[i - 1].1.clone());
        }
        i = i - 1;
    }
    None
}

#[derive(Debug, Clone, Copy, PartialEq, Eq, Structural)]
pub enum Freq {
    Daily,
    Weekly,
    Monthly,
    Yearly,
}

pub open spec fn freq_of(ps: Seq<(Seq<char>, Seq<char>)>) -> Option<Freq> {
    match param(ps, "FREQ"@) {
        Some(v) => if v == "DAILY"@ {
            Some(Freq::Daily)
        } else if v == "WEEKLY"@ {
            Some(Freq::Weekly)
        } else if v == "MONTHLY"@ {
            Some(Freq::Monthly)
        } else if v == "YEARLY"@ {
            Some(Freq::Yearly)
        } else {
            None
        },
        None => None,
    }
}

pub open spec fn interval_of(ps: Seq<(Seq<char>, Seq<char>)>) -> u32 {
    match param(ps, "INTERVAL"@) {
        Some(v) => match crate::text::parse_u32_spec(v) {
            Some(n) => n,
            None => 1,
        },
        None => 1,
    }
}

/// The number of instances made at most: `COUNT`, capped at 1000.
pub open spec fn max_count_of(ps: Seq<(Seq<char>, Seq<char>)>) -> int {
    match param(ps, "COUNT"@) {
        Some(v) => match crate::text::parse_u32_spec(v) {
            Some(n) => if n < 1000 {
                n as int
            } else {
                1000
            },
            None => 1000,
        },
        None => 1000,
    }
}

pub open spec fn until_of(ps: Seq<(Seq<char>, Seq<char>)>) -> Option<int> {
    match param(ps, "UNTIL"@) {
        Some(v) => match ical_date_spec(v) {
            Some(d) => Some(d),
            None => match ical_datetime_spec(v) {
                Some(p) => Some(p.0),
                None => None,
            },
        },
        None => None,
    }
}

/// The `UNTIL` value can be cut as a date.
pub open spec fn until_ok(ps: Seq<(Seq<char>, Seq<char>)>) -> bool {
    param(ps, "UNTIL"@) matches Some(v) ==> date_cut_ok(v)
}

/// Monday 0 to Sunday 6.
pub open spec fn weekday_code(s: Seq<char>) -> Option<int> {
    if s == "MO"@ {
        Some(0)
    } else if s == "TU"@ {
        Some(1)
    } else if s == "WE"@ {
        Some(2)
    } else if s == "TH"@ {
        Some(3)
    } else if s == "FR"@ {
        Some(4)
    } else if s == "SA"@ {
        Some(5)
    } else if s == "SU"@ {
        Some(6)
    } else {
        None
    }
}

pub open spec fn weekday_codes(items: Seq<Seq<char>>) -> Seq<int>
    decreases items.len(),
{
    if items.len() == 0 {
        seq![]
    } else {
        let rest = weekday_codes(items.drop_last());
        match weekday_code(trim(items.last())) {
            Some(w) => rest.push(w),
            None => rest,
        }
    }
}

pub open spec fn byday_of(ps: Seq<(Seq<char>, Seq<char>)>) -> Seq<int> {
    match param(ps, "BYDAY"@) {
        Some(v) => weekday_codes(split_on(v, ',')),
        None => seq![],
    }
}

// ---------------------------------------------------------------------------
// The instance dates of each frequency: (day number, instance number).
// `None` where the rule makes the expansion fail (a date out of range or a
// counter that would overflow) or never finish.
// ---------------------------------------------------------------------------

pub open spec fn keep(ex: Seq<int>, cur: int, n: int) -> Seq<(int, int)> {
    if ex.contains(cur) {
        seq![]
    } else {
        seq![(cur, n)]
    }
}

pub open spec fn daily_from(
    cur: int,
    n: int,
    step: int,
    horizon: int,
    until: Option<int>,
    max: int,
    ex: Seq<int>,
) -> Option<Seq<(int, int)>>
    decreases max - n,
{
    if !(cur <= horizon && n < max) {
        Some(seq![])
    } else if until matches Some(u) && cur > u {
        Some(seq![])
    } else if cur + step > crate::dates::max_day() {
        None
    } else {
        match daily_from(cur + step, n + 1, step, horizon, until, max, ex) {
            Some(rest) => Some(keep(ex, cur, n) + rest),
            None => None,
        }
    }
}

/// One pass over the week days: the instances and how many were counted.
pub open spec fn week_pass(
    ws: int,
    days: Seq<int>,
    j: int,
    n: int,
    base: int,
    horizon: int,
    until: Option<int>,
    max: int,
    ex: Seq<int>,
) -> Option<(Seq<(int, int)>, nat)>
    decreases days.len() - j,
{
    if j < 0 || j >= days.len() {
        Some((seq![], 0))
    } else {
        let cur = ws + days[j];
        if cur > crate::dates::max_day() {
            None
        } else if cur < base {
            week_pass(ws, days, j + 1, n, base, horizon, until, max, ex)
        } else if cur > horizon {
            Some((seq![], 0))
        } else if until matches Some(u) && cur > u {
            Some((seq![], 0))
        } else if n + 1 >= max {
            Some((keep(ex, cur, n), 1))
        } else {
            match week_pass(ws, days, j + 1, n + 1, base, horizon, until, max, ex) {
                Some((r, k)) => Some((keep(ex, cur, n) + r, k + 1)),
                None => None,
            }
        }
    }
}

pub open spec fn weekly_from(
    ws: int,
    n: int,
    step: nat,
    days: Seq<int>,
    base: int,
    horizon: int,
    until: Option<int>,
    max: int,
    ex: Seq<int>,
) -> Option<Seq<(int, int)>>
    decreases (if ws <= horizon {
        horizon + 1 - ws
    } else {
        0
    }), max - n,
{
    if !(ws <= horizon && n < max) {
        Some(seq![])
    } else {
        match week_pass(ws, days, 0, n, base, horizon, until, max, ex) {
            None => None,
            Some((r, k)) => if ws + step > crate::dates::max_day() {
                None
            } else if n + k >= max {
                Some(r)
            } else if step == 0 && k == 0 {
                None
            } else {
                match weekly_from(ws + step, n + k, step, days, base, horizon, until, max, ex) {
                    Some(rest) => Some(r + rest),
                    None => None,
                }
            }
        }
    }
}

/// Years are counted from this offset in the month counter below, so that
/// the counter is never negative.
pub open spec fn year_shift() -> int {
    300000
}

/// The month counter of year `y`, month `m`: months since January of year
/// `-year_shift()`.
pub open spec fn month_count(y: int, m: int) -> int {
    (y + year_shift()) * 12 + m - 1
}

/// The instances of a monthly rule (RFC 5545) from month counter `a` on:
/// every `interval`-th month keeps the day `d0` of the start; a month that
/// lacks that day is skipped and not counted. It stops after the month
/// `hm` of the horizon, after the horizon, after `until`, or at `max`
/// instances. A yearly rule is the monthly one with twelve times the
/// interval.
pub open spec fn monthly_from(
    a: int,
    d0: int,
    n: int,
    interval: int,
    hm: int,
    horizon: int,
    until: Option<int>,
    max: int,
    ex: Seq<int>,
) -> Seq<(int, int)>
    decreases hm - a, max - n,
{
    if a < 0 || a > hm || n >= max || interval < 0 {
        seq![]
    } else {
        let y = a / 12 - year_shift();
        let m = a % 12 + 1;
        if crate::dates::valid_ymd(y, m, d0) {
            let cur = crate::dates::day_number(y, m, d0);
            if cur > horizon {
                seq![]
            } else if until matches Some(u) && cur > u {
                seq![]
            } else if a + interval > hm {
                keep(ex, cur, n)
            } else {
                keep(ex, cur, n) + monthly_from(a + interval, d0, n + 1, interval, hm, horizon, until, max, ex)
            }
        } else if interval == 0 || a + interval > hm {
            seq![]
        } else {
            monthly_from(a + interval, d0, n, interval, hm, horizon, until, max, ex)
        }
    }
}

/// The instances of a monthly (`years` false) or yearly rule from the base
/// date.
pub open spec fn months_from_base(
    years: bool,
    base: int,
    interval: u32,
    horizon: int,
    until: Option<int>,
    max: int,
    ex: Seq<int>,
) -> Seq<(int, int)> {
    let (y0, m0, d0) = crate::dates::ymd_of(base);
    let (yh, mh, dh) = crate::dates::ymd_of(horizon);
    monthly_from(
        month_count(y0, m0),
        d0,
        0,
        if years {
            interval * 12
        } else {
            interval as int
        },
        month_count(yh, mh),
        horizon,
        until,
        max,
        ex,
    )
}

/// The instance dates of a rule from the base date, seen from `today`.
pub open spec fn instance_days(
    f: Freq,
    ps: Seq<(Seq<char>, Seq<char>)>,
    base: int,
    ex: Seq<int>,
    today: int,
) -> Option<Seq<(int, int)>> {
    let horizon = today + 365;
    let max = max_count_of(ps);
    let until = until_of(ps);
    let interval = interval_of(ps);
    if horizon > crate::dates::max_day() {
        None
    } else {
        match f {
            Freq::Daily => daily_from(base, 0, interval as int, horizon, until, max, ex),
            Freq::Weekly => {
                let days = if byday_of(ps).len() == 0 {
                    seq![crate::dates::weekday_of(base)]
                } else {
                    byday_of(ps)
                };
                let ws = base - crate::dates::weekday_of(base);
                if ws < crate::dates::min_day() {
                    None
                } else {
                    weekly_from(ws, 0, (interval * 7) as nat, days, base, horizon, until, max, ex)
                }
            },
            Freq::Monthly => Some(months_from_base(false, base, interval, horizon, until, max, ex)),
            Freq::Yearly => Some(months_from_base(true, base, interval, horizon, until, max, ex)),
        }
    }
}

pub open spec fn pair_nums(v: Seq<(crate::dates::Date, usize)>) -> Seq<(int, int)> {
    v.map_values(|p: (crate::dates::Date, usize)| (p.0.num(), p.1 as int))
}

pub open spec fn opt_pairs(r: Option<Vec<(crate::dates::Date, usize)>>) -> Option<Seq<(int, int)>> {
    match r {
        Some(v) => Some(pair_nums(v@)),
        None => None,
    }
}

fn contains_date(ex: &Vec<crate::dates::Date>, d: crate::dates::Date) -> (r: bool)
    ensures
        r == date_nums(ex@).contains(d.num()),
{
    let mut i: usize = 0;
    while i < ex.len()
        invariant
            i <= ex@.len(),
            forall|j: int| 0 <= j < i ==> date_nums(ex@)[j] != d.num(),
        decreases ex.len() - i,
    {
        if ex[i].is_same(&d) {
            assert(date_nums(ex@)[i as int] == d.num());
            return true;
        }
        i = i + 1;
    }
    false
}

fn keep_exec(ex: &Vec<crate::dates::Date>, cur: crate::dates::Date, n: usize) -> (r: Vec<(crate::dates::Date, usize)>)
    ensures
        pair_nums(r@) == keep(date_nums(ex@), cur.num(), n as int),
{
    let mut r: Vec<(crate::dates::Date, usize)> = Vec::new();
    if !contains_date(ex, cur) {
        r.push((cur, n));
    }
    assert(pair_nums(r@) =~= keep(date_nums(ex@), cur.num(), n as int));
    r
}

fn prepend(head: Vec<(crate::dates::Date, usize)>, rest: Vec<(crate::dates::Date, usize)>) -> (r: Vec<(crate::dates::Date, usize)>)
    ensures
        pair_nums(r@) == pair_nums(head@) + pair_nums(rest@),
{
    let mut h = head;
    let mut t = rest;
    h.append(&mut t);
    assert(pair_nums(h@) =~= pair_nums(head@) + pair_nums(rest@));
    h
}

/// The date `k` days on, if representable.
fn days_on(d: crate::dates::Date, k: i64) -> (r: Option<crate::dates::Date>)
    ensures
        r is Some <==> d.num() + k <= crate::dates::max_day() && d.num() + k >= crate::dates::min_day(),
        r matches Some(x) ==> x.num() == d.num() + k,
        crate::dates::min_day() <= d.num() <= crate::dates::max_day(),
{
    let n = d.day_number() as i64;
    if k > 200_000_000 || k < -200_000_000 {
        return None;
    }
    crate::dates::Date::from_day_number(n + k)
}

fn before_until(cur: crate::dates::Date, until: Option<crate::dates::Date>) -> (r: bool)
    ensures
        r == (crate::dates::opt_num(until) matches Some(u) && cur.num() > u),
{
    match until {
        Some(u) => u.is_before(&cur),
        None => false,
    }
}

fn daily_exec(
    cur: crate::dates::Date,
    n: usize,
    step: u32,
    horizon: crate::dates::Date,
    until: Option<crate::dates::Date>,
    max: usize,
    ex: &Vec<crate::dates::Date>,
) -> (r: Option<Vec<(crate::dates::Date, usize)>>)
    ensures
        opt_pairs(r) == daily_from(cur.num(), n as int, step as int, horizon.num(), crate::dates::opt_num(until), max as int, date_nums(ex@)),
    decreases max - n,
{
    if !(!horizon.is_before(&cur) && n < max) {
        return Some(Vec::new());
    }
    if before_until(cur, until) {
        return Some(Vec::new());
    }
    match days_on(cur, step as i64) {
        None => None,
        Some(next) => {
            match daily_exec(next, n + 1, step, horizon, until, max, ex) {
                Some(rest) => Some(prepend(keep_exec(ex, cur, n), rest)),
                None => None,
            }
        },
    }
}

fn week_pass_exec(
    ws: crate::dates::Date,
    days: &Vec<u32>,
    j: usize,
    n: usize,
    base: crate::dates::Date,
    horizon: crate::dates::Date,
    until: Option<crate::dates::Date>,
    max: usize,
    ex: &Vec<crate::dates::Date>,
) -> (r: Option<(Vec<(crate::dates::Date, usize)>, usize)>)
    requires
        forall|i: int| 0 <= i < days@.len() ==> #[trigger] days@[i] < 7,
        j <= days@.len(),
        n < max,
    ensures
        match r {
            Some((v, k)) => week_pass(ws.num(), days@.map_values(|x: u32| x as int), j as int, n as int, base.num(), horizon.num(), crate::dates::opt_num(until), max as int, date_nums(ex@)) == Some((pair_nums(v@), k as nat)) && n + k <= max,
            None => week_pass(ws.num(), days@.map_values(|x: u32| x as int), j as int, n as int, base.num(), horizon.num(), crate::dates::opt_num(until), max as int, date_nums(ex@)) is None,
        },
    decreases days.len() - j,
{
    let ghost dv = days@.map_values(|x: u32| x as int);
    if j >= days.len() {
        return Some((Vec::new(), 0));
    }
    assert(dv[j as int] == days@[j as int] as int);
    let cur = match days_on(ws, days[j] as i64) {
        Some(c) => c,
        None => {
            return None;
        },
    };
    if cur.is_before(&base) {
        return week_pass_exec(ws, days, j + 1, n, base, horizon, until, max, ex);
    }
    if horizon.is_before(&cur) {
        return Some((Vec::new(), 0));
    }
    if before_until(cur, until) {
        return Some((Vec::new(), 0));
    }
    let here = keep_exec(ex, cur, n);
    if n + 1 >= max {
        return Some((here, 1));
    }
    match week_pass_exec(ws, days, j + 1, n + 1, base, horizon, until, max, ex) {
        Some((rest, k)) => Some((prepend(here, rest), k + 1)),
        None => None,
    }
}

fn weekly_exec(
    ws: crate::dates::Date,
    n: usize,
    step: u64,
    days: &Vec<u32>,
    base: crate::dates::Date,
    horizon: crate::dates::Date,
    until: Option<crate::dates::Date>,
    max: usize,
    ex: &Vec<crate::dates::Date>,
) -> (r: Option<Vec<(crate::dates::Date, usize)>>)
    requires
        forall|i: int| 0 <= i < days@.len() ==> #[trigger] days@[i] < 7,
        step <= 0xffff_ffff * 7,
    ensures
        opt_pairs(r) == weekly_from(ws.num(), n as int, step as nat, days@.map_values(|x: u32| x as int), base.num(), horizon.num(), crate::dates::opt_num(until), max as int, date_nums(ex@)),
    decreases (if ws.num() <= horizon.num() {
        horizon.num() + 1 - ws.num()
    } else {
        0
    }), max - n,
{
    if !(!horizon.is_before(&ws) && n < max) {
        return Some(Vec::new());
    }
    match week_pass_exec(ws, days, 0, n, base, horizon, until, max, ex) {
        None => None,
        Some((r, k)) => {
            let next = days_on(ws, step as i64);
            match next {
                None => None,
                Some(w2) => {
                    if n + k >= max {
                        Some(r)
                    } else if step == 0 && k == 0 {
                        None
                    } else {
                        match weekly_exec(w2, n + k, step, days, base, horizon, until, max, ex) {
                            Some(rest) => Some(prepend(r, rest)),
                            None => None,
                        }
                    }
                },
            }
        },
    }
}

fn monthly_exec(
    a: u64,
    d0: u32,
    n: usize,
    interval: u64,
    hm: u64,
    horizon: crate::dates::Date,
    until: Option<crate::dates::Date>,
    max: usize,
    ex: &Vec<crate::dates::Date>,
) -> (r: Vec<(crate::dates::Date, usize)>)
    requires
        hm <= month_count(crate::dates::max_year(), 12),
        interval <= 0x1_0000_0000 * 12,
    ensures
        pair_nums(r@) == monthly_from(a as int, d0 as int, n as int, interval as int, hm as int, horizon.num(), crate::dates::opt_num(until), max as int, date_nums(ex@)),
    decreases hm - a, max - n,
{
    if a > hm || n >= max {
        let r: Vec<(crate::dates::Date, usize)> = Vec::new();
        assert(pair_nums(r@) =~= Seq::<(int, int)>::empty());
        return r;
    }
    let y: i64 = (a / 12) as i64 - 300000;
    let m: u32 = (a % 12 + 1) as u32;
    assert(y <= crate::dates::max_year() + 1);
    let found = if y < -0x8000_0000 || y > 0x7fff_ffff {
        None
    } else {
        crate::dates::Date::from_ymd(y as i32, m, d0)
    };
    assert(found is None ==> !crate::dates::valid_ymd(y as int, m as int, d0 as int)) by {
        if y < -0x8000_0000 || y > 0x7fff_ffff {
            assert(!(crate::dates::min_year() <= y <= crate::dates::max_year()));
        }
    }
    match found {
        Some(cur) => {
            if horizon.is_before(&cur) || before_until(cur, until) {
                let r: Vec<(crate::dates::Date, usize)> = Vec::new();
                assert(pair_nums(r@) =~= Seq::<(int, int)>::empty());
                return r;
            }
            let head = keep_exec(ex, cur, n);
            if a + interval > hm {
                head
            } else {
                let rest = monthly_exec(a + interval, d0, n + 1, interval, hm, horizon, until, max, ex);
                prepend(head, rest)
            }
        },
        None => {
            if interval == 0 || a + interval > hm {
                let r: Vec<(crate::dates::Date, usize)> = Vec::new();
                assert(pair_nums(r@) =~= Seq::<(int, int)>::empty());
                r
            } else {
                monthly_exec(a + interval, d0, n, interval, hm, horizon, until, max, ex)
            }
        },
    }
}

fn months_exec(
    years: bool,
    base: crate::dates::Date,
    interval: u32,
    horizon: crate::dates::Date,
    until: Option<crate::dates::Date>,
    max: usize,
    ex: &Vec<crate::dates::Date>,
) -> (r: Vec<(crate::dates::Date, usize)>)
    ensures
        pair_nums(r@) == months_from_base(years, base.num(), interval, horizon.num(), crate::dates::opt_num(until), max as int, date_nums(ex@)),
{
    let (y0, m0, d0) = base.ymd();
    let (yh, mh, _dh) = horizon.ymd();
    proof {
        crate::dates::lemma_ymd_of(base.num());
        crate::dates::lemma_ymd_of(horizon.num());
        crate::dates::lemma_ymd_of_day_number(y0 as int, m0 as int, d0 as int);
        crate::dates::lemma_ymd_of_day_number(yh as int, mh as int, _dh as int);
    }
    let a0: u64 = ((y0 as i64 + 300000) as u64) * 12 + m0 as u64 - 1;
    let hm: u64 = ((yh as i64 + 300000) as u64) * 12 + mh as u64 - 1;
    let step: u64 = if years {
        interval as u64 * 12
    } else {
        interval as u64
    };
    monthly_exec(a0, d0, 0, step, hm, horizon, until, max, ex)
}

fn weekday_codes_exec(v: &Vec<char>) -> (r: Vec<u32>)
    ensures
        r@.map_values(|x: u32| x as int) == weekday_codes(split_on(v@, ',')),
        forall|i: int| 0 <= i < r@.len() ==> #[trigger] r@[i] < 7,
{
    let items = split_chars(v, ',');
    let ghost iv = views(items@);
    let mut r: Vec<u32> = Vec::new();
    let mut i: usize = 0;
    while i < items.len()
        invariant
            i <= items.len(),
            iv == views(items@),
            iv == split_on(v@, ','),
            r@.map_values(|x: u32| x as int) == weekday_codes(iv.take(i as int)),
            forall|j: int| 0 <= j < r@.len() ==> #[trigger] r@[j] < 7,
        decreases items.len() - i,
    {
        assert(iv.take(i + 1).drop_last() =~= iv.take(i as int));
        assert(iv.take(i + 1).last() == items@[i as int]@);
        let t = trim_chars(&items[i]);
        let code: Option<u32> = if chars_eq_str(&t, "MO") {
            Some(0)
        } else if chars_eq_str(&t, "TU") {
            Some(1)
        } else if chars_eq_str(&t, "WE") {
            Some(2)
        } else if chars_eq_str(&t, "TH") {
            Some(3)
        } else if chars_eq_str(&t, "FR") {
            Some(4)
        } else if chars_eq_str(&t, "SA") {
            Some(5)
        } else if chars_eq_str(&t, "SU") {
            Some(6)
        } else {
            None
        };
        match code {
            Some(c) => {
                let ghost before = r@;
                r.push(c);
                assert(r@.map_values(|x: u32| x as int) =~= before.map_values(|x: u32| x as int).push(c as int));
            },
            None => {},
        }
        i = i + 1;
    }
    assert(iv.take(items.len() as int) =~= iv);
    r
}

pub open spec fn param_views(ps: Seq<(String, String)>) -> Seq<(Seq<char>, Seq<char>)> {
    ps.map_values(|p: (String, String)| (p.0@, p.1@))
}

/// The instance dates of a rule, or `None` where the expansion fails.
fn instance_days_exec(
    f: Freq,
    ps: &Vec<(String, String)>,
    base: crate::dates::Date,
    ex: &Vec<crate::dates::Date>,
    today: crate::dates::Date,
) -> (r: Option<Vec<(crate::dates::Date, usize)>>)
    requires
        until_ok(param_views(ps@)),
    ensures
        opt_pairs(r) == instance_days(f, param_views(ps@), base.num(), date_nums(ex@), today.num()),
{
    let ghost pv = param_views(ps@);
    let horizon = match days_on(today, 365) {
        Some(h) => h,
        None => {
            return None;
        },
    };
    let interval: u32 = match param_exec(ps, "INTERVAL") {
        Some(v) => match crate::text::parse_u32(&chars_of(v.as_str())) {
            Some(n) => n,
            None => 1,
        },
        None => 1,
    };
    let max: usize = match param_exec(ps, "COUNT") {
        Some(v) => match crate::text::parse_u32(&chars_of(v.as_str())) {
            Some(n) => if n < 1000 {
                n as usize
            } else {
                1000
            },
            None => 1000,
        },
        None => 1000,
    };
    let until: Option<crate::dates::Date> = match param_exec(ps, "UNTIL") {
        Some(v) => {
            match parse_ical_date(v.as_str()) {
                Some(d) => Some(d),
                None => match parse_ical_datetime(v.as_str()) {
                    Some(p) => Some(p.date()),
                    None => None,
                },
            }
        },
        None => None,
    };
    assert(crate::dates::opt_num(until) == until_of(pv));
    match f {
        Freq::Daily => daily_exec(base, 0, interval, horizon, until, max, ex),
        Freq::Weekly => {
            let by = match param_exec(ps, "BYDAY") {
                Some(v) => weekday_codes_exec(&chars_of(v.as_str())),
                None => Vec::new(),
            };
            assert(by@.map_values(|x: u32| x as int) == byday_of(pv)) by {
                if param(pv, "BYDAY"@) is None {
                    assert(by@.map_values(|x: u32| x as int) =~= Seq::<int>::empty());
                }
            }
            let wd = base.weekday();
            let days = if by.len() == 0 {
                let mut d: Vec<u32> = Vec::new();
                d.push(wd);
                assert(d@.map_values(|x: u32| x as int) =~= seq![crate::dates::weekday_of(base.num())]);
                d
            } else {
                by
            };
            let ws = match days_on(base, -(wd as i64)) {
                Some(w) => w,
                None => {
                    return None;
                },
            };
            weekly_exec(ws, 0, interval as u64 * 7, &days, base, horizon, until, max, ex)
        },
        Freq::Monthly => Some(months_exec(false, base, interval, horizon, until, max, ex)),
        Freq::Yearly => Some(months_exec(true, base, interval, horizon, until, max, ex)),
    }
}

// ---------------------------------------------------------------------------
// The events of a VCALENDAR text
// ---------------------------------------------------------------------------

/// The start of the instance on day `d`: the base's time of day.
pub open spec fn instance_start(base: EventView, d: int) -> DateTime {
    dt_of((d, base.start.spec_hour(), base.start.spec_minute(), base.start.spec_second(), base.start.spec_nano()))
}

/// The first instance keeps the event's identifier; the others get the
/// name-based identifier of `<UID>:<date>`.
pub open spec fn instance_id(base: EventView, uid: Seq<char>, d: int, n: int) -> Uuid {
    if n == 0 {
        base.id
    } else {
        Uuid {
            value: crate::ids::uuid_v5(
                crate::sync::ical::CALDAV_UUID_NAMESPACE_VALUE,
                uid + ":"@ + crate::dates::date_iso(date_of(d)),
            ),
        }
    }
}

/// The instance on day `d`, number `n`, lasting `dur`; `None` when its end
/// is out of range.
pub open spec fn instance_of(base: EventView, uid: Seq<char>, dur: Span, d: int, n: int) -> Option<EventView> {
    match crate::dates::chrono_plus(instance_start(base, d), dur) {
        Some(end) => Some(
            EventView {
                id: instance_id(base, uid, d, n),
                start: instance_start(base, d),
                end,
                sync_href: if n == 0 {
                    base.sync_href
                } else {
                    None
                },
                ..base
            },
        ),
        None => None,
    }
}

pub open spec fn instances_of(base: EventView, uid: Seq<char>, dur: Span, ds: Seq<(int, int)>) -> Option<Seq<EventView>>
    decreases ds.len(),
{
    if ds.len() == 0 {
        Some(seq![])
    } else {
        match (instances_of(base, uid, dur, ds.drop_last()), instance_of(base, uid, dur, ds.last().0, ds.last().1)) {
            (Some(r), Some(e)) => Some(r.push(e)),
            _ => None,
        }
    }
}

/// The events of a VCALENDAR text seen from day `today`: none without a
/// summary or a start; the event itself without a rule (or with a rule of
/// no known frequency); else its instances up to a year from `today`.
/// `fresh` is the identifier of an event without UID. `None` where the
/// reading fails: a date cut inside a character, a date out of range, a
/// counter overflow, or a rule whose expansion never ends.
pub open spec fn events_spec(ical: Seq<char>, today: int, fresh: Uuid) -> Option<Seq<EventView>> {
    let st = ev_scan(ical);
    if !st.ok {
        None
    } else if st.summary.len() == 0 {
        Some(seq![])
    } else {
        match st.dtstart {
            None => Some(seq![]),
            Some(sp) => {
                let start = dt_of(sp);
                let end = match st.dtend {
                    Some(ep) => dt_of(ep),
                    None => start,
                };
                let base = EventView {
                    id: match st.uid_raw {
                        Some(u) => uid_to_uuid(u),
                        None => fresh,
                    },
                    title: st.summary,
                    start,
                    end,
                    all_day: st.all_day,
                    location: st.location,
                    description: st.description,
                    status: st.status,
                    calendar_href: seq![],
                    calendar_name: seq![],
                    sync_href: None,
                    sync_hash: None,
                };
                match st.rrule {
                    None => Some(seq![base]),
                    Some(rule) => {
                        let ps = rrule_pairs(split_on(rule, ';'));
                        match freq_of(ps) {
                            None => Some(seq![base]),
                            Some(f) => if !until_ok(ps) {
                                None
                            } else {
                                match instance_days(f, ps, start.spec_date().num(), st.exdates, today) {
                                    None => None,
                                    Some(ds) => instances_of(
                                        base,
                                        match st.uid_raw {
                                            Some(u) => u,
                                            None => seq![],
                                        },
                                        chrono_since(end, start),
                                        ds,
                                    ),
                                }
                            },
                        }
                    },
                }
            },
        }
    }
}

pub open spec fn event_views(v: Seq<CalendarEvent>) -> Seq<EventView> {
    v.map_values(|e: CalendarEvent| e@)
}

pub open spec fn opt_events(r: Option<Vec<CalendarEvent>>) -> Option<Seq<EventView>> {
    match r {
        Some(v) => Some(event_views(v@)),
        None => None,
    }
}

fn instance_exec(base: &CalendarEvent, uid: &str, dur: Span, d: crate::dates::Date, n: usize) -> (r: Option<CalendarEvent>)
    requires
        -20_000_000_000_000 <= dur.secs <= 20_000_000_000_000,
        -1_000_000_000 < dur.nanos < 1_000_000_000,
    ensures
        match r {
            Some(e) => instance_of(base@, uid@, dur, d.num(), n as int) == Some(e@),
            None => instance_of(base@, uid@, dur, d.num(), n as int) is None,
        },
{
    let start = base.start.on_date(d);
    proof {
        lemma_dt_of(start);
        lemma_date_of(d);
    }
    assert(start == instance_start(base@, d.num()));
    let end = match start.plus(dur) {
        Some(e) => e,
        None => {
            return None;
        },
    };
    let id = if n == 0 {
        base.id
    } else {
        let mut key = chars_of(uid);
        key.push(':');
        crate::text::push_str(&mut key, d.to_iso_string().as_str());
        proof {
            reveal_strlit(":");
        }
        assert(key@ =~= uid@ + ":"@ + crate::dates::date_iso(date_of(d.num())));
        let ns = crate::sync::ical::caldav_uuid_namespace();
        Uuid::new_v5(&ns, string_of(key.as_slice()).as_str())
    };
    let mut e = base.duplicate();
    e.id = id;
    e.start = start;
    e.end = end;
    if n != 0 {
        e.sync_href = None;
    }
    Some(e)
}

fn instances_exec(base: &CalendarEvent, uid: &str, dur: Span, ds: &Vec<(crate::dates::Date, usize)>) -> (r: Option<Vec<CalendarEvent>>)
    requires
        -20_000_000_000_000 <= dur.secs <= 20_000_000_000_000,
        -1_000_000_000 < dur.nanos < 1_000_000_000,
    ensures
        opt_events(r) == instances_of(base@, uid@, dur, pair_nums(ds@)),
{
    let ghost dv = pair_nums(ds@);
    let mut out: Vec<CalendarEvent> = Vec::new();
    let mut i: usize = 0;
    while i < ds.len()
        invariant
            i <= ds@.len(),
            dv == pair_nums(ds@),
            -20_000_000_000_000 <= dur.secs <= 20_000_000_000_000,
            -1_000_000_000 < dur.nanos < 1_000_000_000,
            instances_of(base@, uid@, dur, dv.take(i as int)) == Some(event_views(out@)),
        decreases ds.len() - i,
    {
        assert(dv.take(i + 1).drop_last() =~= dv.take(i as int));
        assert(dv.take(i + 1).last() == (ds@[i as int].0.num(), ds@[i as int].1 as int));
        let (d, n) = ds[i];
        match instance_exec(base, uid, dur, d, n) {
            Some(e) => {
                let ghost before = out@;
                out.push(e);
                assert(event_views(out@) =~= event_views(before).push(e@));
            },
            None => {
                proof {
                    lemma_instances_none(base@, uid@, dur, dv, i as int + 1);
                }
                assert(dv.take(ds@.len() as int) =~= dv);
                return None;
            },
        }
        i = i + 1;
    }
    assert(dv.take(ds@.len() as int) =~= dv);
    Some(out)
}

proof fn lemma_instances_none(base: EventView, uid: Seq<char>, dur: Span, ds: Seq<(int, int)>, k: int)
    requires
        0 < k <= ds.len(),
        instances_of(base, uid, dur, ds.take(k)) is None,
    ensures
        instances_of(base, uid, dur, ds) is None,
    decreases ds.len() - k,
{
    if k < ds.len() {
        assert(ds.take(k + 1).drop_last() =~= ds.take(k));
        lemma_instances_none(base, uid, dur, ds, k + 1);
    } else {
        assert(ds.take(k) =~= ds);
    }
}

/// The events of a VCALENDAR text seen from day `today`, an event without
/// UID getting the identifier `fresh` (see `events_spec`).
pub fn vcalendar_to_events_with(ical: &str, today: crate::dates::Date, fresh: Uuid) -> (r: Option<Vec<CalendarEvent>>)
    ensures
        opt_events(r) == events_spec(ical@, today.num(), fresh),
{
    let st = scan_exec(ical);
    if !st.ok {
        return None;
    }
    if st.summary.len() == 0 {
        let v: Vec<CalendarEvent> = Vec::new();
        assert(event_views(v@) =~= Seq::<EventView>::empty());
        return Some(v);
    }
    let start = match st.dtstart {
        Some(s) => s,
        None => {
            let v: Vec<CalendarEvent> = Vec::new();
            assert(event_views(v@) =~= Seq::<EventView>::empty());
            return Some(v);
        },
    };
    let end = match st.dtend {
        Some(e) => e,
        None => start,
    };
    proof {
        lemma_dt_of(start);
        lemma_dt_of(end);
    }
    let id = match &st.uid_raw {
        Some(u) => {
            let us = string_of(u.as_slice());
            match Uuid::parse_str(us.as_str()) {
                Some(x) => x,
                None => Uuid::new_v5(&crate::sync::ical::caldav_uuid_namespace(), us.as_str()),
            }
        },
        None => fresh,
    };
    let base = CalendarEvent {
        id,
        title: string_of(st.summary.as_slice()),
        start,
        end,
        all_day: st.all_day,
        location: string_of(st.location.as_slice()),
        description: string_of(st.description.as_slice()),
        status: st.status,
        calendar_href: String::new(),
        calendar_name: String::new(),
        sync_href: None,
        sync_hash: None,
    };
    let rule = match &st.rrule {
        None => {
            let mut v: Vec<CalendarEvent> = Vec::new();
            v.push(base);
            assert(event_views(v@) =~= seq![base@]);
            return Some(v);
        },
        Some(r) => r,
    };
    let ps = parse_rrule_params(string_of(rule.as_slice()).as_str());
    let ghost pv = param_views(ps@);
    let freq = match param_exec(&ps, "FREQ") {
        Some(f) => {
            if crate::text::str_eq(f.as_str(), "DAILY") {
                Some(Freq::Daily)
            } else if crate::text::str_eq(f.as_str(), "WEEKLY") {
                Some(Freq::Weekly)
            } else if crate::text::str_eq(f.as_str(), "MONTHLY") {
                Some(Freq::Monthly)
            } else if crate::text::str_eq(f.as_str(), "YEARLY") {
                Some(Freq::Yearly)
            } else {
                None
            }
        },
        None => None,
    };
    assert(freq == freq_of(pv));
    let f = match freq {
        None => {
            let mut v: Vec<CalendarEvent> = Vec::new();
            v.push(base);
            assert(event_views(v@) =~= seq![base@]);
            return Some(v);
        },
        Some(f) => f,
    };
    let until_cut = match param_exec(&ps, "UNTIL") {
        Some(u) => date_cut_ok_exec(&chars_of(u.as_str())),
        None => true,
    };
    if !until_cut {
        return None;
    }
    let ds = match instance_days_exec(f, &ps, start.date(), &st.exdates, today) {
        Some(ds) => ds,
        None => {
            return None;
        },
    };
    let dur = end.since(&start);
    let uid = match &st.uid_raw {
        Some(u) => string_of(u.as_slice()),
        None => String::new(),
    };
    instances_exec(&base, uid.as_str(), dur, &ds)
}

/// The events of a VCALENDAR text, seen from today's date; an event
/// without UID gets a random identifier. A text whose recurrences would
/// leave the date range gives no events.
pub fn vcalendar_to_events(ical: &str) -> (r: Vec<CalendarEvent>)
    ensures
        exists|today: crate::dates::Date, fresh: Uuid|
            crate::dates::min_day() <= today.num() <= crate::dates::max_day() && (#[trigger] events_spec(
                ical@,
                today.num(),
                fresh,
            ) == Some(event_views(r@)) || (events_spec(ical@, today.num(), fresh) is None && r@.len() == 0)),
{
    let today = crate::dates::Date::today();
    let fresh = Uuid::new_v4();
    match vcalendar_to_events_with(ical, today, fresh) {
        Some(v) => v,
        None => Vec::new(),
    }
}

/// The first event of a VCALENDAR text; `None` when there is none.
pub fn vcalendar_to_event(ical: &str) -> (r: Option<CalendarEvent>)
    ensures
        exists|today: crate::dates::Date, fresh: Uuid|
            crate::dates::min_day() <= today.num() <= crate::dates::max_day() && match #[trigger] events_spec(
                ical@,
                today.num(),
                fresh,
            ) {
                Some(es) => match r {
                    Some(e) => es.len() > 0 && e@ == es[0],
                    None => es.len() == 0,
                },
                None => r is None,
            },
{
    let today = crate::dates::Date::today();
    let fresh = Uuid::new_v4();
    match vcalendar_to_events_with(ical, today, fresh) {
        Some(v) => {
            if v.len() > 0 {
                Some(v[0].duplicate())
            } else {
                None
            }
        },
        None => None,
    }
}

// ---------------------------------------------------------------------------
// Writing
// ---------------------------------------------------------------------------

pub open spec fn event_status_text(s: EventStatus) -> Seq<char> {
    match s {
        EventStatus::Confirmed => "CONFIRMED"@,
        EventStatus::Tentative => "TENTATIVE"@,
        EventStatus::Cancelled => "CANCELLED"@,
    }
}

/// The lines of the VCALENDAR of an event written at `now`.
pub open spec fn vevent_lines(e: EventView, now: DateTime) -> Seq<Seq<char>> {
    seq![
        "BEGIN:VCALENDAR"@,
        "VERSION:2.0"@,
        "PRODID:-//Lamp GTD//EN"@,
        "BEGIN:VEVENT"@,
        "UID:"@ + uuid_text(e.id.value),
        "SUMMARY:"@ + fold_spec(escape_spec(e.title)),
    ] + (if e.all_day {
        seq![
            "DTSTART;VALUE=DATE:"@ + date_basic(e.start.spec_date()),
            "DTEND;VALUE=DATE:"@ + date_basic(e.end.spec_date()),
        ]
    } else {
        seq!["DTSTART:"@ + dt_basic(e.start), "DTEND:"@ + dt_basic(e.end)]
    }) + (if e.location.len() > 0 {
        seq!["LOCATION:"@ + fold_spec(escape_spec(e.location))]
    } else {
        seq![]
    }) + (if e.description.len() > 0 {
        seq!["DESCRIPTION:"@ + fold_spec(escape_spec(e.description))]
    } else {
        seq![]
    }) + seq![
        "STATUS:"@ + event_status_text(e.status),
        "LAST-MODIFIED:"@ + dt_basic(now),
        "END:VEVENT"@,
        "END:VCALENDAR"@,
    ]
}

pub open spec fn vevent_text(e: EventView, now: DateTime) -> Seq<char> {
    join(vevent_lines(e, now), "\r\n"@) + "\r\n"@
}

fn push_kv(ls: &mut Vec<String>, key: &str, value: &str)
    ensures
        strs(final(ls)@) == strs(old(ls)@).push(key@ + value@),
{
    let mut v: Vec<char> = chars_of(key);
    crate::text::push_str(&mut v, value);
    let ghost before = ls@;
    ls.push(string_of(v.as_slice()));
    assert(strs(ls@) =~= strs(before).push(key@ + value@));
}

fn folded(s: &String) -> (r: String)
    ensures
        r@ == fold_spec(escape_spec(s@)),
{
    let e = crate::sync::ical::escape_text(s.as_str());
    crate::sync::ical::fold_line(e.as_str())
}

/// The VCALENDAR text of an event, with `now` as its last-modified time.
pub fn event_to_vcalendar_at(event: &CalendarEvent, now: DateTime) -> (r: String)
    ensures
        r@ == vevent_text(event@, now),
{
    let ghost e = event@;
    let mut ls: Vec<String> = Vec::new();
    push_kv(&mut ls, "BEGIN:VCALENDAR", "");
    push_kv(&mut ls, "VERSION:2.0", "");
    push_kv(&mut ls, "PRODID:-//Lamp GTD//EN", "");
    push_kv(&mut ls, "BEGIN:VEVENT", "");
    push_kv(&mut ls, "UID:", event.id.to_string().as_str());
    push_kv(&mut ls, "SUMMARY:", folded(&event.title).as_str());
    let ghost l0 = strs(ls@);
    if event.all_day {
        push_kv(&mut ls, "DTSTART;VALUE=DATE:", crate::sync::ical::format_date(event.start.date()).as_str());
        push_kv(&mut ls, "DTEND;VALUE=DATE:", crate::sync::ical::format_date(event.end.date()).as_str());
    } else {
        push_kv(&mut ls, "DTSTART:", crate::sync::ical::format_datetime(event.start).as_str());
        push_kv(&mut ls, "DTEND:", crate::sync::ical::format_datetime(event.end).as_str());
    }
    let ghost l1 = strs(ls@);
    if event.location.unicode_len() > 0 {
        push_kv(&mut ls, "LOCATION:", folded(&event.location).as_str());
    }
    let ghost l2 = strs(ls@);
    if event.description.unicode_len() > 0 {
        push_kv(&mut ls, "DESCRIPTION:", folded(&event.description).as_str());
    }
    let ghost l3 = strs(ls@);
    let status = match event.status {
        EventStatus::Confirmed => "CONFIRMED",
        EventStatus::Tentative => "TENTATIVE",
        EventStatus::Cancelled => "CANCELLED",
    };
    push_kv(&mut ls, "STATUS:", status);
    push_kv(&mut ls, "LAST-MODIFIED:", crate::sync::ical::format_datetime(now).as_str());
    push_kv(&mut ls, "END:VEVENT", "");
    push_kv(&mut ls, "END:VCALENDAR", "");
    proof {
        reveal_strlit("");
        assert("BEGIN:VCALENDAR"@ + ""@ =~= "BEGIN:VCALENDAR"@);
        assert("VERSION:2.0"@ + ""@ =~= "VERSION:2.0"@);
        assert("PRODID:-//Lamp GTD//EN"@ + ""@ =~= "PRODID:-//Lamp GTD//EN"@);
        assert("BEGIN:VEVENT"@ + ""@ =~= "BEGIN:VEVENT"@);
        assert("END:VEVENT"@ + ""@ =~= "END:VEVENT"@);
        assert("END:VCALENDAR"@ + ""@ =~= "END:VCALENDAR"@);
    }
    assert(strs(ls@) =~= vevent_lines(e, now));
    let mut v: Vec<char> = Vec::new();
    crate::text::push_joined(&mut v, &ls, "\r\n");
    crate::text::push_str(&mut v, "\r\n");
    assert(v@ =~= vevent_text(e, now));
    string_of(v.as_slice())
}

/// The VCALENDAR text of an event, last modified now.
pub fn event_to_vcalendar(event: &CalendarEvent) -> (r: String)
    ensures
        exists|now: DateTime| r@ == #[trigger] vevent_text(event@, now),
{
    let now = DateTime::now();
    event_to_vcalendar_at(event, now)
}

/// The status as `Debug` writes it.
pub open spec fn status_debug(s: EventStatus) -> Seq<char> {
    match s {
        EventStatus::Confirmed => "Confirmed"@,
        EventStatus::Tentative => "Tentative"@,
        EventStatus::Cancelled => "Cancelled"@,
    }
}

/// What `std::collections::hash_map::DefaultHasher` gives for the fields
/// hashed in turn (each text as `str::hash` feeds it, the flag as a byte).
pub uninterp spec fn default_hash_fields(
    title: Seq<char>,
    start: Seq<char>,
    end: Seq<char>,
    all_day: bool,
    location: Seq<char>,
    description: Seq<char>,
    status: Seq<char>,
) -> u64;

/// Hashes the fields in turn with a `DefaultHasher::new()` and returns
/// `finish()`, named `default_hash_fields`; the hasher's keys are fixed,
/// so the value depends on the fields alone.
#[verifier::external_body]
fn default_hash(title: &str, start: &str, end: &str, all_day: bool, location: &str, description: &str, status: &str) -> (r: u64)
    ensures
        r == default_hash_fields(title@, start@, end@, all_day, location@, description@, status@),
{
    let mut h = std::collections::hash_map::DefaultHasher::new();
    title.hash(&mut h);
    start.hash(&mut h);
    end.hash(&mut h);
    all_day.hash(&mut h);
    location.hash(&mut h);
    description.hash(&mut h);
    status.hash(&mut h);
    h.finish()
}

/// The content hash of an event, for change detection.
pub fn event_content_hash(event: &CalendarEvent) -> (r: u64)
    ensures
        r == default_hash_fields(
            event.title@,
            crate::dates::chrono_display(event.start),
            crate::dates::chrono_display(event.end),
            event.all_day,
            event.location@,
            event.description@,
            status_debug(event.status),
        ),
{
    let status = match event.status {
        EventStatus::Confirmed => "Confirmed",
        EventStatus::Tentative => "Tentative",
        EventStatus::Cancelled => "Cancelled",
    };
    default_hash(
        event.title.as_str(),
        event.start.display_string().as_str(),
        event.end.display_string().as_str(),
        event.all_day,
        event.location.as_str(),
        event.description.as_str(),
        status,
    )
}

} // verus!
