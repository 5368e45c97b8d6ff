//! Reading back the VEVENT the library writes.

use vstd::prelude::*;

use crate::dates::{date_basic, dt_basic, dt_of, dt_parts, DateTime, DateTimeParts};
use crate::ids::uuid_text;
use crate::model::items::{EventStatus, EventView};
use crate::sync::ical::{date_cut_ok, escape_spec, ical_date_spec, ical_datetime_spec, ical_line_spec, unescape_spec};
use crate::sync::vevent::{
    daily_from, date_value, ev_field, ev_start, ev_step, event_status_text, instance_days, interval_of, is_date_only, keep,
    byday_of, max_count_of, month_count, monthly_from, months_from_base, param, until_of, week_pass, weekday_code,
    weekday_codes, weekly_from, year_shift, EvScan, Freq,
};
use crate::sync::vtodo::line_if;
use crate::sync::vtodo_laws::{key_colon, key_of, lemma_trim_end_after};
use crate::dates::line_safe;
use crate::sync::ical::{content_line, fold_spec, folds_of, lemma_folds_concat};
use crate::sync::vevent::{events_spec, vevent_lines, vevent_text};
use crate::sync::vtodo_roundtrip::{
    all_content, date_ok, dt_ok, dt_safe, key_ok, lemma_all_content_cat, lemma_all_content_split, lemma_content_if,
    lemma_content_one, lemma_escape_safe, lemma_folds_if, lemma_folds_same_content, lemma_trim_end_id, text_ok,
};
use crate::text::{back_ws_from, find_from, find_sub, is_ws, lemma_find_from_at, lemma_find_from_none, trim, trim_end};

verus! {

/// The scan of the lines `ls` from `st` on, one line after the other.
pub open spec fn ev_seq(st: EvScan, ls: Seq<Seq<char>>) -> EvScan
    decreases ls.len(),
{
    if ls.len() == 0 {
        st
    } else {
        ev_step(ev_seq(st, ls.drop_last()), ls.last())
    }
}

pub proof fn lemma_ev_seq_concat(st: EvScan, a: Seq<Seq<char>>, b: Seq<Seq<char>>)
    ensures
        ev_seq(st, a + b) == ev_seq(ev_seq(st, a), b),
    decreases b.len(),
{
    if b.len() == 0 {
        assert(a + b =~= a);
    } else {
        lemma_ev_seq_concat(st, a, b.drop_last());
        assert((a + b).drop_last() =~= a + b.drop_last());
        assert((a + b).last() == b.last());
    }
}

pub proof fn lemma_ev_seq_one(st: EvScan, l: Seq<char>)
    ensures
        ev_seq(st, seq![l]) == ev_step(st, l),
{
    assert(seq![l].drop_last() =~= Seq::<Seq<char>>::empty());
    assert(ev_seq(st, Seq::<Seq<char>>::empty()) == st);
    assert(seq![l].last() == l);
}

pub proof fn lemma_ev_lines_seq(ls: Seq<Seq<char>>, n: int)
    requires
        0 <= n <= ls.len(),
    ensures
        crate::sync::vevent::ev_lines(ls, n) == ev_seq(ev_start(), ls.take(n)),
    decreases n,
{
    if n > 0 {
        lemma_ev_lines_seq(ls, n - 1);
        assert(ls.take(n).drop_last() =~= ls.take(n - 1));
        assert(ls.take(n).last() == ls[n - 1]);
    } else {
        assert(ls.take(0) =~= Seq::<Seq<char>>::empty());
    }
}

/// A content line `kc` + `v` splits into its key and its value.
pub proof fn lemma_line_kv(kc: Seq<char>, w: Seq<char>)
    requires
        key_colon(kc),
    ensures
        ical_line_spec(kc + w) == Some((key_of(kc), w)),
{
    let line = kc + w;
    let c = kc.len() - 1;
    assert forall|i: int| 0 <= i < c implies #[trigger] line[i] != ':' by {
        assert(line[i] == kc[i]);
    }
    assert(line[c] == ':');
    lemma_find_from_at(line, ':', 0, c);
    assert(line.take(c) =~= kc.drop_last());
    assert(line.skip(c + 1) =~= w);
}

/// A content line inside the VEVENT sets the field of its key.
pub proof fn lemma_ev_step_content(st: EvScan, kc: Seq<char>, v: Seq<char>)
    requires
        st.in_vevent,
        !st.done,
        key_colon(kc),
    ensures
        ev_step(st, kc + v) == ev_field(st, key_of(kc), trim_end(v), is_date_only(kc + trim_end(v))),
{
    reveal_strlit("BEGIN:VEVENT");
    reveal_strlit("END:VEVENT");
    let raw = kc + v;
    assert(!is_ws(':'));
    lemma_trim_end_after(kc, v);
    let line = trim_end(raw);
    assert(line == kc + trim_end(v));
    assert(line[0] == kc[0]);
    assert(line != "BEGIN:VEVENT"@) by {
        assert("BEGIN:VEVENT"@[0] == 'B');
    }
    assert(line != "END:VEVENT"@) by {
        assert("END:VEVENT"@[0] == 'E');
    }
    lemma_line_kv(kc, trim_end(v));
}

/// The fields of an event scan the event read back takes.
pub struct EvFields {
    pub in_vevent: bool,
    pub done: bool,
    pub ok: bool,
    pub uid_raw: Option<Seq<char>>,
    pub summary: Seq<char>,
    pub dtstart: Option<DateTimeParts>,
    pub dtend: Option<DateTimeParts>,
    pub all_day: bool,
    pub location: Seq<char>,
    pub description: Seq<char>,
    pub rrule: Option<Seq<char>>,
    pub exdates: Seq<int>,
}

pub open spec fn ev_fields_of(st: EvScan) -> EvFields {
    EvFields {
        in_vevent: st.in_vevent,
        done: st.done,
        ok: st.ok,
        uid_raw: st.uid_raw,
        summary: st.summary,
        dtstart: st.dtstart,
        dtend: st.dtend,
        all_day: st.all_day,
        location: st.location,
        description: st.description,
        rrule: st.rrule,
        exdates: st.exdates,
    }
}

proof fn lemma_ev_uid(st: EvScan, v: Seq<char>, d: bool)
    ensures
        ev_fields_of(ev_field(st, "UID"@, v, d)) == (EvFields { uid_raw: Some(v), ..ev_fields_of(st) }),
{
    reveal_strlit("UID");
}

proof fn lemma_ev_summary(st: EvScan, v: Seq<char>, d: bool)
    ensures
        ev_fields_of(ev_field(st, "SUMMARY"@, v, d)) == (EvFields { summary: unescape_spec(v), ..ev_fields_of(st) }),
{
    reveal_strlit("SUMMARY");
    reveal_strlit("UID");
    assert("SUMMARY"@ != "UID"@) by { assert("SUMMARY"@.len() == 7); assert("UID"@.len() == 3); }
}

proof fn lemma_ev_dtstart_dt(st: EvScan, v: Seq<char>)
    ensures
        ev_fields_of(ev_field(st, "DTSTART"@, v, false)) == (EvFields { dtstart: ical_datetime_spec(v), ..ev_fields_of(st) }),
{
    reveal_strlit("DTSTART");
    reveal_strlit("SUMMARY");
    reveal_strlit("UID");
    assert("DTSTART"@ != "UID"@) by { assert("DTSTART"@.len() == 7); assert("UID"@.len() == 3); }
    assert("DTSTART"@ != "SUMMARY"@) by { assert("DTSTART"@[0] == 'D'); assert("SUMMARY"@[0] == 'S'); }
}

proof fn lemma_ev_dtstart_date(st: EvScan, v: Seq<char>)
    ensures
        ev_fields_of(ev_field(st, "DTSTART"@, v, true)) == (EvFields { all_day: true, dtstart: date_value(st.dtstart, v), ok: st.ok && date_cut_ok(v), ..ev_fields_of(st) }),
{
    reveal_strlit("DTSTART");
    reveal_strlit("SUMMARY");
    reveal_strlit("UID");
    assert("DTSTART"@ != "UID"@) by { assert("DTSTART"@.len() == 7); assert("UID"@.len() == 3); }
    assert("DTSTART"@ != "SUMMARY"@) by { assert("DTSTART"@[0] == 'D'); assert("SUMMARY"@[0] == 'S'); }
}

proof fn lemma_ev_dtend_dt(st: EvScan, v: Seq<char>)
    ensures
        ev_fields_of(ev_field(st, "DTEND"@, v, false)) == (EvFields { dtend: ical_datetime_spec(v), ..ev_fields_of(st) }),
{
    reveal_strlit("DTEND");
    reveal_strlit("DTSTART");
    reveal_strlit("SUMMARY");
    reveal_strlit("UID");
    assert("DTEND"@ != "UID"@) by { assert("DTEND"@.len() == 5); assert("UID"@.len() == 3); }
    assert("DTEND"@ != "SUMMARY"@) by { assert("DTEND"@.len() == 5); assert("SUMMARY"@.len() == 7); }
    assert("DTEND"@ != "DTSTART"@) by { assert("DTEND"@.len() == 5); assert("DTSTART"@.len() == 7); }
}

proof fn lemma_ev_dtend_date(st: EvScan, v: Seq<char>)
    ensures
        ev_fields_of(ev_field(st, "DTEND"@, v, true)) == (EvFields { dtend: date_value(st.dtend, v), ok: st.ok && date_cut_ok(v), ..ev_fields_of(st) }),
{
    reveal_strlit("DTEND");
    reveal_strlit("DTSTART");
    reveal_strlit("SUMMARY");
    reveal_strlit("UID");
    assert("DTEND"@ != "UID"@) by { assert("DTEND"@.len() == 5); assert("UID"@.len() == 3); }
    assert("DTEND"@ != "SUMMARY"@) by { assert("DTEND"@.len() == 5); assert("SUMMARY"@.len() == 7); }
    assert("DTEND"@ != "DTSTART"@) by { assert("DTEND"@.len() == 5); assert("DTSTART"@.len() == 7); }
}

proof fn lemma_ev_location(st: EvScan, v: Seq<char>, d: bool)
    ensures
        ev_fields_of(ev_field(st, "LOCATION"@, v, d)) == (EvFields { location: unescape_spec(v), ..ev_fields_of(st) }),
{
    reveal_strlit("DTEND");
    reveal_strlit("DTSTART");
    reveal_strlit("LOCATION");
    reveal_strlit("SUMMARY");
    reveal_strlit("UID");
    assert("LOCATION"@ != "UID"@) by { assert("LOCATION"@.len() == 8); assert("UID"@.len() == 3); }
    assert("LOCATION"@ != "SUMMARY"@) by { assert("LOCATION"@.len() == 8); assert("SUMMARY"@.len() == 7); }
    assert("LOCATION"@ != "DTSTART"@) by { assert("LOCATION"@.len() == 8); assert("DTSTART"@.len() == 7); }
    assert("LOCATION"@ != "DTEND"@) by { assert("LOCATION"@.len() == 8); assert("DTEND"@.len() == 5); }
}

proof fn lemma_ev_description(st: EvScan, v: Seq<char>, d: bool)
    ensures
        ev_fields_of(ev_field(st, "DESCRIPTION"@, v, d)) == (EvFields { description: unescape_spec(v), ..ev_fields_of(st) }),
{
    reveal_strlit("DESCRIPTION");
    reveal_strlit("DTEND");
    reveal_strlit("DTSTART");
    reveal_strlit("LOCATION");
    reveal_strlit("SUMMARY");
    reveal_strlit("UID");
    assert("DESCRIPTION"@ != "UID"@) by { assert("DESCRIPTION"@.len() == 11); assert("UID"@.len() == 3); }
    assert("DESCRIPTION"@ != "SUMMARY"@) by { assert("DESCRIPTION"@.len() == 11); assert("SUMMARY"@.len() == 7); }
    assert("DESCRIPTION"@ != "DTSTART"@) by { assert("DESCRIPTION"@.len() == 11); assert("DTSTART"@.len() == 7); }
    assert("DESCRIPTION"@ != "DTEND"@) by { assert("DESCRIPTION"@.len() == 11); assert("DTEND"@.len() == 5); }
    assert("DESCRIPTION"@ != "LOCATION"@) by { assert("DESCRIPTION"@.len() == 11); assert("LOCATION"@.len() == 8); }
}

proof fn lemma_ev_status(st: EvScan, v: Seq<char>, d: bool)
    ensures
        ev_fields_of(ev_field(st, "STATUS"@, v, d)) == ev_fields_of(st),
{
    reveal_strlit("DESCRIPTION");
    reveal_strlit("DTEND");
    reveal_strlit("DTSTART");
    reveal_strlit("LOCATION");
    reveal_strlit("STATUS");
    reveal_strlit("SUMMARY");
    reveal_strlit("UID");
    assert("STATUS"@ != "UID"@) by { assert("STATUS"@.len() == 6); assert("UID"@.len() == 3); }
    assert("STATUS"@ != "SUMMARY"@) by { assert("STATUS"@.len() == 6); assert("SUMMARY"@.len() == 7); }
    assert("STATUS"@ != "DTSTART"@) by { assert("STATUS"@.len() == 6); assert("DTSTART"@.len() == 7); }
    assert("STATUS"@ != "DTEND"@) by { assert("STATUS"@.len() == 6); assert("DTEND"@.len() == 5); }
    assert("STATUS"@ != "LOCATION"@) by { assert("STATUS"@.len() == 6); assert("LOCATION"@.len() == 8); }
    assert("STATUS"@ != "DESCRIPTION"@) by { assert("STATUS"@.len() == 6); assert("DESCRIPTION"@.len() == 11); }
}

proof fn lemma_ev_last_modified(st: EvScan, v: Seq<char>, d: bool)
    ensures
        ev_fields_of(ev_field(st, "LAST-MODIFIED"@, v, d)) == ev_fields_of(st),
{
    reveal_strlit("DESCRIPTION");
    reveal_strlit("DTEND");
    reveal_strlit("DTSTART");
    reveal_strlit("EXDATE");
    reveal_strlit("LAST-MODIFIED");
    reveal_strlit("LOCATION");
    reveal_strlit("RRULE");
    reveal_strlit("STATUS");
    reveal_strlit("SUMMARY");
    reveal_strlit("UID");
    assert("LAST-MODIFIED"@ != "UID"@) by { assert("LAST-MODIFIED"@.len() == 13); assert("UID"@.len() == 3); }
    assert("LAST-MODIFIED"@ != "SUMMARY"@) by { assert("LAST-MODIFIED"@.len() == 13); assert("SUMMARY"@.len() == 7); }
    assert("LAST-MODIFIED"@ != "DTSTART"@) by { assert("LAST-MODIFIED"@.len() == 13); assert("DTSTART"@.len() == 7); }
    assert("LAST-MODIFIED"@ != "DTEND"@) by { assert("LAST-MODIFIED"@.len() == 13); assert("DTEND"@.len() == 5); }
    assert("LAST-MODIFIED"@ != "LOCATION"@) by { assert("LAST-MODIFIED"@.len() == 13); assert("LOCATION"@.len() == 8); }
    assert("LAST-MODIFIED"@ != "DESCRIPTION"@) by { assert("LAST-MODIFIED"@.len() == 13); assert("DESCRIPTION"@.len() == 11); }
    assert("LAST-MODIFIED"@ != "STATUS"@) by { assert("LAST-MODIFIED"@.len() == 13); assert("STATUS"@.len() == 6); }
    assert("LAST-MODIFIED"@ != "RRULE"@) by { assert("LAST-MODIFIED"@.len() == 13); assert("RRULE"@.len() == 5); }
    assert("LAST-MODIFIED"@ != "EXDATE"@) by { assert("LAST-MODIFIED"@.len() == 13); assert("EXDATE"@.len() == 6); }
}

proof fn lemma_find_sub_none(s: Seq<char>, p: Seq<char>, i: int)
    requires
        0 <= i,
        forall|j: int| i <= j && j + p.len() <= s.len() ==> #[trigger] s.subrange(j, j + p.len()) != p,
    ensures
        find_sub(s, p, i) is None,
    decreases s.len() + 1 - i,
{
    if i + p.len() <= s.len() {
        lemma_find_sub_none(s, p, i + 1);
    }
}

proof fn lemma_find_sub_some(s: Seq<char>, p: Seq<char>, i: int, k: int)
    requires
        0 <= i <= k,
        k + p.len() <= s.len(),
        s.subrange(k, k + p.len()) == p,
    ensures
        find_sub(s, p, i) is Some,
    decreases k - i,
{
    if i < k && s.subrange(i, i + p.len()) != p {
        lemma_find_sub_some(s, p, i + 1, k);
    }
}

/// A plain key line inside the VEVENT.
proof fn lemma_ev_keyed(st: EvScan, kc: Seq<char>, v: Seq<char>)
    requires
        st.in_vevent,
        !st.done,
        crate::sync::vtodo_laws::plain_key(kc),
    ensures
        ev_seq(st, seq![kc + v]) == ev_field(st, kc.drop_last(), trim_end(v), is_date_only(kc + trim_end(v))),
{
    lemma_ev_seq_one(st, kc + v);
    lemma_ev_step_content(st, kc, v);
    let kp = kc.drop_last();
    assert forall|j: int| 0 <= j < kp.len() implies #[trigger] kp[j] != ';' by {
        assert(kp[j] == kc[j]);
    }
    lemma_find_from_none(kp, ';', 0);
}

proof fn lemma_ev_keyed_if(st: EvScan, c: bool, kc: Seq<char>, v: Seq<char>)
    requires
        st.in_vevent,
        !st.done,
        crate::sync::vtodo_laws::plain_key(kc),
    ensures
        ev_seq(st, line_if(c, kc + v)) == if c {
            ev_field(st, kc.drop_last(), trim_end(v), is_date_only(kc + trim_end(v)))
        } else {
            st
        },
{
    if c {
        lemma_ev_keyed(st, kc, v);
    } else {
        assert(line_if(c, kc + v) =~= Seq::<Seq<char>>::empty());
    }
}

/// The text of a date-time has no `V`.
proof fn lemma_dt_line_not_date(kc: Seq<char>, t: DateTime)
    requires
        crate::sync::vtodo_roundtrip::dt_ok(t),
        forall|i: int| 0 <= i < kc.len() ==> #[trigger] kc[i] != 'V',
    ensures
        !is_date_only(kc + dt_basic(t)),
{
    reveal_strlit("VALUE=DATE");
    crate::dates::lemma_basic_datetime_roundtrip(t);
    let s = kc + dt_basic(t);
    let p = "VALUE=DATE"@;
    assert forall|j: int| 0 <= j && j + p.len() <= s.len() implies #[trigger] s.subrange(j, j + p.len()) != p by {
        assert(s.subrange(j, j + p.len())[0] == s[j]);
        if j < kc.len() {
            assert(s[j] == kc[j]);
        } else {
            let m = j - kc.len();
            assert(s[j] == dt_basic(t)[m]);
            if m != 8 {
                assert(crate::text::is_ascii_digit(dt_basic(t)[m]));
            }
        }
        assert(p[0] == 'V');
    }
    lemma_find_sub_none(s, p, 0);
}

/// A `;VALUE=DATE:` line with its `V` at `k` and `:` ten places on
/// carries a date.
proof fn lemma_date_line_is_date(kc: Seq<char>, k: int, x: Seq<char>)
    requires
        0 <= k,
        k + 11 == kc.len(),
        kc.subrange(k, k + 10) == "VALUE=DATE"@,
        kc[k + 10] == ':',
        forall|i: int| 0 <= i < kc.len() && i != k ==> #[trigger] kc[i] != 'V',
        forall|i: int| 0 <= i < x.len() ==> crate::text::is_ascii_digit(#[trigger] x[i]),
    ensures
        is_date_only(kc + x),
{
    reveal_strlit("VALUE=DATE");
    reveal_strlit("VALUE=DATE-TIME");
    let s = kc + x;
    let p = "VALUE=DATE"@;
    let q = "VALUE=DATE-TIME"@;
    assert(s.subrange(k, k + 10) =~= kc.subrange(k, k + 10));
    lemma_find_sub_some(s, p, 0, k);
    assert forall|j: int| 0 <= j && j + q.len() <= s.len() implies #[trigger] s.subrange(j, j + q.len()) != q by {
        if j == k {
            assert(s.subrange(j, j + q.len())[10] == kc[k + 10]);
            assert(q[10] == '-');
        } else {
            assert(s.subrange(j, j + q.len())[0] == s[j]);
            if j < kc.len() {
                assert(s[j] == kc[j]);
            } else {
                assert(s[j] == x[j - kc.len()]);
                assert(crate::text::is_ascii_digit(x[j - kc.len()]));
            }
            assert(q[0] == 'V');
        }
    }
    lemma_find_sub_none(s, q, 0);
}

/// The first lines of the text, up to the start of the VEVENT.
pub open spec fn ev_pre() -> Seq<Seq<char>> {
    seq!["BEGIN:VCALENDAR"@, "VERSION:2.0"@, "PRODID:-//Lamp GTD//EN"@, "BEGIN:VEVENT"@]
}

pub open spec fn ev_date_lines(e: EventView) -> Seq<Seq<char>> {
    if e.all_day {
        seq![
            "DTSTART;VALUE=DATE:"@ + date_basic(e.start.spec_date()),
            "DTEND;VALUE=DATE:"@ + date_basic(e.end.spec_date()),
        ]
    } else {
        seq!["DTSTART:"@ + dt_basic(e.start), "DTEND:"@ + dt_basic(e.end)]
    }
}

pub open spec fn ev_text_lines(e: EventView) -> Seq<Seq<char>> {
    line_if(e.location.len() > 0, "LOCATION:"@ + escape_spec(e.location)) + line_if(
        e.description.len() > 0,
        "DESCRIPTION:"@ + escape_spec(e.description),
    )
}

pub open spec fn ev_tail(e: EventView, now: DateTime) -> Seq<Seq<char>> {
    seq!["STATUS:"@ + event_status_text(e.status), "LAST-MODIFIED:"@ + dt_basic(now), "END:VEVENT"@, "END:VCALENDAR"@]
}

/// The lines of the VEVENT text as the reader sees them once unfolded.
pub open spec fn ev_logical(e: EventView, now: DateTime) -> Seq<Seq<char>> {
    ev_pre() + seq!["UID:"@ + uuid_text(e.id.value)] + seq!["SUMMARY:"@ + escape_spec(e.title)] + ev_date_lines(e)
        + ev_text_lines(e) + ev_tail(e, now)
}

/// What the scan of those lines has read at the end.
pub open spec fn ev_final(e: EventView) -> EvFields {
    EvFields {
        in_vevent: true,
        done: true,
        ok: if e.all_day {
            date_cut_ok(date_basic(e.start.spec_date())) && date_cut_ok(date_basic(e.end.spec_date()))
        } else {
            true
        },
        uid_raw: Some(uuid_text(e.id.value)),
        summary: unescape_spec(escape_spec(e.title)),
        dtstart: if e.all_day {
            date_value(None, date_basic(e.start.spec_date()))
        } else {
            ical_datetime_spec(dt_basic(e.start))
        },
        dtend: if e.all_day {
            date_value(None, date_basic(e.end.spec_date()))
        } else {
            ical_datetime_spec(dt_basic(e.end))
        },
        all_day: e.all_day,
        location: if e.location.len() > 0 {
            unescape_spec(escape_spec(e.location))
        } else {
            seq![]
        },
        description: if e.description.len() > 0 {
            unescape_spec(escape_spec(e.description))
        } else {
            seq![]
        },
        rrule: None,
        exdates: seq![],
    }
}

/// The events whose VEVENT text reads back: a title, texts and dates the
/// format carries; a day event's start and end are midnights.
pub open spec fn event_writable(e: EventView) -> bool {
    &&& text_ok(e.title)
    &&& e.title.len() > 0
    &&& text_ok(e.location)
    &&& text_ok(e.description)
    &&& (e.all_day ==> {
        &&& date_ok(e.start.spec_date())
        &&& date_ok(e.end.spec_date())
        &&& dt_parts(e.start) == (e.start.spec_date().num(), 0int, 0int, 0int, 0int)
        &&& dt_parts(e.end) == (e.end.spec_date().num(), 0int, 0int, 0int, 0int)
    })
    &&& (!e.all_day ==> dt_ok(e.start) && dt_ok(e.end))
}

proof fn lemma_ev_plain(st: EvScan, l: Seq<char>)
    requires
        !st.in_vevent,
        !st.done,
        l.len() > 0,
        !is_ws(l.last()),
        l != "BEGIN:VEVENT"@,
        l != "END:VEVENT"@,
    ensures
        ev_step(st, l) == st,
{
    lemma_trim_end_after(l, seq![]);
    assert(l + seq![] =~= l);
    assert(trim_end(Seq::<char>::empty()) =~= Seq::<char>::empty()) by {
        assert(back_ws_from(Seq::<char>::empty(), 0) == 0);
    }
}

proof fn lemma_ev_pre()
    ensures
        ev_seq(ev_start(), ev_pre()) == (EvScan { in_vevent: true, ..ev_start() }),
{
    reveal_strlit("BEGIN:VCALENDAR");
    reveal_strlit("VERSION:2.0");
    reveal_strlit("PRODID:-//Lamp GTD//EN");
    reveal_strlit("BEGIN:VEVENT");
    reveal_strlit("END:VEVENT");
    let a = "BEGIN:VCALENDAR"@;
    let b = "VERSION:2.0"@;
    let c = "PRODID:-//Lamp GTD//EN"@;
    let d = "BEGIN:VEVENT"@;
    let s0 = ev_start();
    assert(a != d) by { assert(a.len() != d.len()); }
    assert(a != "END:VEVENT"@) by { assert(a[0] != "END:VEVENT"@[0]); }
    assert(b != d) by { assert(b[0] != d[0]); }
    assert(b != "END:VEVENT"@) by { assert(b[0] != "END:VEVENT"@[0]); }
    assert(c != d) by { assert(c[0] != d[0]); }
    assert(c != "END:VEVENT"@) by { assert(c[0] != "END:VEVENT"@[0]); }
    assert(!is_ws(a.last()) && !is_ws(b.last()) && !is_ws(c.last()) && !is_ws(d.last()));
    lemma_ev_plain(s0, a);
    lemma_ev_plain(s0, b);
    lemma_ev_plain(s0, c);
    lemma_trim_end_after(d, seq![]);
    assert(d + seq![] =~= d);
    assert(trim_end(Seq::<char>::empty()) =~= Seq::<char>::empty()) by {
        assert(back_ws_from(Seq::<char>::empty(), 0) == 0);
    }
    assert(ev_step(s0, d) == (EvScan { in_vevent: true, ..s0 }));
    lemma_ev_seq_one(s0, a);
    lemma_ev_seq_concat(s0, seq![a], seq![b]);
    lemma_ev_seq_one(s0, b);
    lemma_ev_seq_concat(s0, seq![a] + seq![b], seq![c]);
    lemma_ev_seq_one(s0, c);
    lemma_ev_seq_concat(s0, seq![a] + seq![b] + seq![c], seq![d]);
    lemma_ev_seq_one(s0, d);
    assert(ev_pre() =~= seq![a] + seq![b] + seq![c] + seq![d]);
}

proof fn lemma_ev_head(st: EvScan, uid: Seq<char>, x: Seq<char>)
    requires
        st.in_vevent,
        !st.done,
    ensures
        ({
            let r = ev_seq(st, seq!["UID:"@ + uid] + seq!["SUMMARY:"@ + x]);
            &&& r.in_vevent && !r.done
            &&& ev_fields_of(r) == (EvFields { uid_raw: Some(trim_end(uid)), summary: unescape_spec(trim_end(x)), ..ev_fields_of(st) })
        }),
{
    reveal_strlit("UID:");
    reveal_strlit("UID");
    reveal_strlit("SUMMARY:");
    reveal_strlit("SUMMARY");
    let p0 = seq!["UID:"@ + uid];
    let p1 = seq!["SUMMARY:"@ + x];
    assert(crate::sync::vtodo_laws::plain_key("UID:"@));
    assert("UID:"@.drop_last() =~= "UID"@);
    lemma_ev_keyed(st, "UID:"@, uid);
    lemma_ev_uid(st, trim_end(uid), is_date_only("UID:"@ + trim_end(uid)));
    let s1 = ev_seq(st, p0);
    assert(crate::sync::vtodo_laws::plain_key("SUMMARY:"@));
    assert("SUMMARY:"@.drop_last() =~= "SUMMARY"@);
    lemma_ev_keyed(s1, "SUMMARY:"@, x);
    lemma_ev_summary(s1, trim_end(x), is_date_only("SUMMARY:"@ + trim_end(x)));
    lemma_ev_seq_concat(st, p0, p1);
}

proof fn lemma_ev_dates_day(st: EvScan, sd: crate::dates::Date, ed: crate::dates::Date)
    requires
        st.in_vevent,
        !st.done,
        date_ok(sd),
        date_ok(ed),
    ensures
        ({
            let r = ev_seq(st, seq!["DTSTART;VALUE=DATE:"@ + date_basic(sd), "DTEND;VALUE=DATE:"@ + date_basic(ed)]);
            &&& r.in_vevent && !r.done
            &&& ev_fields_of(r) == (EvFields {
                all_day: true,
                dtstart: date_value(st.dtstart, date_basic(sd)),
                dtend: date_value(st.dtend, date_basic(ed)),
                ok: st.ok && date_cut_ok(date_basic(sd)) && date_cut_ok(date_basic(ed)),
                ..ev_fields_of(st)
            })
        }),
{
    reveal_strlit("DTSTART;VALUE=DATE:");
    reveal_strlit("DTEND;VALUE=DATE:");
    reveal_strlit("DTSTART");
    reveal_strlit("DTEND");
    reveal_strlit("VALUE=DATE");
    let k1 = "DTSTART;VALUE=DATE:"@;
    let k2 = "DTEND;VALUE=DATE:"@;
    let x1 = date_basic(sd);
    let x2 = date_basic(ed);
    crate::dates::lemma_basic_date_roundtrip(sd);
    crate::dates::lemma_basic_date_roundtrip(ed);
    crate::dates::lemma_date_basic_safe(sd);
    crate::dates::lemma_date_basic_safe(ed);
    lemma_trim_end_id(x1);
    lemma_trim_end_id(x2);
    assert(key_colon(k1));
    assert(key_colon(k2));
    assert(k1.subrange(8, 18) =~= "VALUE=DATE"@);
    assert(k2.subrange(6, 16) =~= "VALUE=DATE"@);
    lemma_date_line_is_date(k1, 8, x1);
    lemma_date_line_is_date(k2, 6, x2);
    // key of each line
    let kp1 = k1.drop_last();
    assert(kp1[7] == ';');
    lemma_find_from_at(kp1, ';', 0, 7);
    assert(kp1.take(7) =~= "DTSTART"@);
    let kp2 = k2.drop_last();
    assert(kp2[5] == ';');
    lemma_find_from_at(kp2, ';', 0, 5);
    assert(kp2.take(5) =~= "DTEND"@);
    lemma_ev_seq_one(st, k1 + x1);
    lemma_ev_step_content(st, k1, x1);
    lemma_ev_dtstart_date(st, x1);
    let s1 = ev_step(st, k1 + x1);
    lemma_ev_seq_one(s1, k2 + x2);
    lemma_ev_step_content(s1, k2, x2);
    lemma_ev_dtend_date(s1, x2);
    lemma_ev_seq_concat(st, seq![k1 + x1], seq![k2 + x2]);
    assert(seq![k1 + x1, k2 + x2] =~= seq![k1 + x1] + seq![k2 + x2]);
}

proof fn lemma_ev_dates_time(st: EvScan, s: DateTime, e: DateTime)
    requires
        st.in_vevent,
        !st.done,
        dt_ok(s),
        dt_ok(e),
    ensures
        ({
            let r = ev_seq(st, seq!["DTSTART:"@ + dt_basic(s), "DTEND:"@ + dt_basic(e)]);
            &&& r.in_vevent && !r.done
            &&& ev_fields_of(r) == (EvFields {
                dtstart: ical_datetime_spec(dt_basic(s)),
                dtend: ical_datetime_spec(dt_basic(e)),
                ..ev_fields_of(st)
            })
        }),
{
    reveal_strlit("DTSTART:");
    reveal_strlit("DTEND:");
    reveal_strlit("DTSTART");
    reveal_strlit("DTEND");
    let k1 = "DTSTART:"@;
    let k2 = "DTEND:"@;
    let x1 = dt_basic(s);
    let x2 = dt_basic(e);
    crate::dates::lemma_dt_basic_safe(s);
    crate::dates::lemma_dt_basic_safe(e);
    lemma_trim_end_id(x1);
    lemma_trim_end_id(x2);
    lemma_dt_line_not_date(k1, s);
    lemma_dt_line_not_date(k2, e);
    assert(crate::sync::vtodo_laws::plain_key(k1));
    assert(crate::sync::vtodo_laws::plain_key(k2));
    assert(k1.drop_last() =~= "DTSTART"@);
    assert(k2.drop_last() =~= "DTEND"@);
    lemma_ev_keyed(st, k1, x1);
    lemma_ev_dtstart_dt(st, x1);
    let s1 = ev_seq(st, seq![k1 + x1]);
    lemma_ev_keyed(s1, k2, x2);
    lemma_ev_dtend_dt(s1, x2);
    lemma_ev_seq_concat(st, seq![k1 + x1], seq![k2 + x2]);
    assert(seq![k1 + x1, k2 + x2] =~= seq![k1 + x1] + seq![k2 + x2]);
}

proof fn lemma_ev_rest(st: EvScan, hl: bool, loc: Seq<char>, hd: bool, desc: Seq<char>, stt: Seq<char>, lm: Seq<char>)
    requires
        st.in_vevent,
        !st.done,
    ensures
        ({
            let r = ev_seq(
                st,
                line_if(hl, "LOCATION:"@ + loc) + line_if(hd, "DESCRIPTION:"@ + desc) + seq![
                    "STATUS:"@ + stt,
                    "LAST-MODIFIED:"@ + lm,
                    "END:VEVENT"@,
                    "END:VCALENDAR"@,
                ],
            );
            ev_fields_of(r) == (EvFields {
                done: true,
                location: if hl { unescape_spec(trim_end(loc)) } else { st.location },
                description: if hd { unescape_spec(trim_end(desc)) } else { st.description },
                ..ev_fields_of(st)
            })
        }),
{
    reveal_strlit("LOCATION:");
    reveal_strlit("LOCATION");
    reveal_strlit("DESCRIPTION:");
    reveal_strlit("DESCRIPTION");
    reveal_strlit("STATUS:");
    reveal_strlit("STATUS");
    reveal_strlit("LAST-MODIFIED:");
    reveal_strlit("LAST-MODIFIED");
    reveal_strlit("BEGIN:VEVENT");
    reveal_strlit("END:VEVENT");
    reveal_strlit("END:VCALENDAR");
    let a = line_if(hl, "LOCATION:"@ + loc);
    let b = line_if(hd, "DESCRIPTION:"@ + desc);
    assert(crate::sync::vtodo_laws::plain_key("LOCATION:"@));
    assert("LOCATION:"@.drop_last() =~= "LOCATION"@);
    lemma_ev_keyed_if(st, hl, "LOCATION:"@, loc);
    if hl {
        lemma_ev_location(st, trim_end(loc), is_date_only("LOCATION:"@ + trim_end(loc)));
    }
    let s1 = ev_seq(st, a);
    assert(crate::sync::vtodo_laws::plain_key("DESCRIPTION:"@));
    assert("DESCRIPTION:"@.drop_last() =~= "DESCRIPTION"@);
    lemma_ev_keyed_if(s1, hd, "DESCRIPTION:"@, desc);
    if hd {
        lemma_ev_description(s1, trim_end(desc), is_date_only("DESCRIPTION:"@ + trim_end(desc)));
    }
    let s2 = ev_seq(s1, b);
    assert(crate::sync::vtodo_laws::plain_key("STATUS:"@));
    assert("STATUS:"@.drop_last() =~= "STATUS"@);
    lemma_ev_keyed(s2, "STATUS:"@, stt);
    lemma_ev_status(s2, trim_end(stt), is_date_only("STATUS:"@ + trim_end(stt)));
    let s3 = ev_seq(s2, seq!["STATUS:"@ + stt]);
    assert(crate::sync::vtodo_laws::plain_key("LAST-MODIFIED:"@));
    assert("LAST-MODIFIED:"@.drop_last() =~= "LAST-MODIFIED"@);
    lemma_ev_keyed(s3, "LAST-MODIFIED:"@, lm);
    lemma_ev_last_modified(s3, trim_end(lm), is_date_only("LAST-MODIFIED:"@ + trim_end(lm)));
    let s4 = ev_seq(s3, seq!["LAST-MODIFIED:"@ + lm]);
    let e = "END:VEVENT"@;
    let f = "END:VCALENDAR"@;
    assert(e != "BEGIN:VEVENT"@) by { assert(e[0] != "BEGIN:VEVENT"@[0]); }
    assert(!is_ws(e.last()) && !is_ws(f.last()));
    lemma_trim_end_after(e, seq![]);
    assert(e + seq![] =~= e);
    assert(trim_end(Seq::<char>::empty()) =~= Seq::<char>::empty()) by {
        assert(back_ws_from(Seq::<char>::empty(), 0) == 0);
    }
    let s5 = EvScan { done: true, ..s4 };
    assert(ev_step(s4, e) == s5);
    assert(ev_step(s5, f) == s5);
    lemma_ev_seq_one(s4, e);
    lemma_ev_seq_one(s5, f);
    lemma_ev_seq_concat(s4, seq![e], seq![f]);
    let t4 = seq!["STATUS:"@ + stt, "LAST-MODIFIED:"@ + lm, e, f];
    assert(t4 =~= seq!["STATUS:"@ + stt] + seq!["LAST-MODIFIED:"@ + lm] + (seq![e] + seq![f]));
    lemma_ev_seq_concat(st, a, b);
    lemma_ev_seq_concat(st, a + b, seq!["STATUS:"@ + stt]);
    lemma_ev_seq_concat(st, a + b + seq!["STATUS:"@ + stt], seq!["LAST-MODIFIED:"@ + lm]);
    lemma_ev_seq_concat(st, a + b + seq!["STATUS:"@ + stt] + seq!["LAST-MODIFIED:"@ + lm], seq![e] + seq![f]);
    assert(a + b + t4 =~= a + b + seq!["STATUS:"@ + stt] + seq!["LAST-MODIFIED:"@ + lm] + (seq![e] + seq![f]));
}

proof fn lemma_cat_ev(
    p: Seq<Seq<char>>,
    u: Seq<Seq<char>>,
    sm: Seq<Seq<char>>,
    d: Seq<Seq<char>>,
    x: Seq<Seq<char>>,
    t: Seq<Seq<char>>,
)
    ensures
        p + u + sm + d + x + t == (p + u + sm + d) + (x + t),
{
    assert(p + u + sm + d + x + t =~= (p + u + sm + d) + (x + t));
}

/// Scanning the logical lines of an event's VEVENT reads its fields.
#[verifier::rlimit(50)]
pub proof fn lemma_ev_scan_logical(e: EventView, now: DateTime)
    requires
        event_writable(e),
    ensures
        ev_fields_of(ev_seq(ev_start(), ev_logical(e, now))) == ev_final(e),
{
    let s0 = ev_start();
    let p = ev_pre();
    let u = seq!["UID:"@ + uuid_text(e.id.value)];
    let sm = seq!["SUMMARY:"@ + escape_spec(e.title)];
    let d = ev_date_lines(e);
    let x = ev_text_lines(e);
    let t = ev_tail(e, now);
    crate::ids::lemma_uuid_text_roundtrip(e.id.value);
    let ut = uuid_text(e.id.value);
    assert(!is_ws(ut[ut.len() - 1]));
    lemma_trim_end_id(ut);
    crate::sync::vtodo_roundtrip::lemma_escape_last(e.title);
    lemma_trim_end_id(escape_spec(e.title));
    if e.location.len() > 0 {
        crate::sync::vtodo_roundtrip::lemma_escape_last(e.location);
        lemma_trim_end_id(escape_spec(e.location));
    }
    if e.description.len() > 0 {
        crate::sync::vtodo_roundtrip::lemma_escape_last(e.description);
        lemma_trim_end_id(escape_spec(e.description));
    }
    lemma_ev_pre();
    let s1 = ev_seq(s0, p);
    lemma_ev_head(s1, ut, escape_spec(e.title));
    lemma_ev_seq_concat(s0, p, u + sm);
    assert(p + (u + sm) =~= p + u + sm);
    let s2 = ev_seq(s1, u + sm);
    if e.all_day {
        lemma_ev_dates_day(s2, e.start.spec_date(), e.end.spec_date());
    } else {
        lemma_ev_dates_time(s2, e.start, e.end);
    }
    lemma_ev_seq_concat(s0, p + u + sm, d);
    let s3 = ev_seq(s2, d);
    lemma_ev_rest(s3, e.location.len() > 0, escape_spec(e.location), e.description.len() > 0, escape_spec(
        e.description,
    ), event_status_text(e.status), dt_basic(now));
    lemma_ev_seq_concat(s0, p + u + sm + d, x + t);
    lemma_cat_ev(p, u, sm, d, x, t);
    assert(x + t =~= line_if(e.location.len() > 0, "LOCATION:"@ + escape_spec(e.location)) + line_if(
        e.description.len() > 0,
        "DESCRIPTION:"@ + escape_spec(e.description),
    ) + seq!["STATUS:"@ + event_status_text(e.status), "LAST-MODIFIED:"@ + dt_basic(now), "END:VEVENT"@, "END:VCALENDAR"@]);
}

proof fn lemma_ev_content(e: EventView, now: DateTime)
    requires
        event_writable(e),
        dt_safe(now),
    ensures
        all_content(ev_logical(e, now)),
{
    reveal_strlit("BEGIN:VCALENDAR");
    reveal_strlit("VERSION:2.0");
    reveal_strlit("PRODID:-//Lamp GTD//EN");
    reveal_strlit("BEGIN:VEVENT");
    reveal_strlit("END:VEVENT");
    reveal_strlit("END:VCALENDAR");
    reveal_strlit("UID:");
    reveal_strlit("SUMMARY:");
    reveal_strlit("DTSTART;VALUE=DATE:");
    reveal_strlit("DTEND;VALUE=DATE:");
    reveal_strlit("DTSTART:");
    reveal_strlit("DTEND:");
    reveal_strlit("LOCATION:");
    reveal_strlit("DESCRIPTION:");
    reveal_strlit("STATUS:");
    reveal_strlit("LAST-MODIFIED:");
    reveal_strlit("CONFIRMED");
    reveal_strlit("TENTATIVE");
    reveal_strlit("CANCELLED");
    let p = ev_pre();
    assert(content_line(p[0]) && content_line(p[1]) && content_line(p[2]) && content_line(p[3]));
    assert(all_content(p));
    assert(key_ok("UID:"@) && key_ok("SUMMARY:"@) && key_ok("DTSTART;VALUE=DATE:"@) && key_ok("DTEND;VALUE=DATE:"@));
    assert(key_ok("DTSTART:"@) && key_ok("DTEND:"@) && key_ok("LOCATION:"@) && key_ok("DESCRIPTION:"@));
    assert(key_ok("STATUS:"@) && key_ok("LAST-MODIFIED:"@));
    crate::ids::lemma_uuid_text_roundtrip(e.id.value);
    let ut = uuid_text(e.id.value);
    assert forall|i: int| 0 <= i < ut.len() implies #[trigger] ut[i] != '\n' && ut[i] != '\r' by {
        assert(!is_ws(ut[i]));
    }
    lemma_escape_safe(e.title);
    lemma_escape_safe(e.location);
    lemma_escape_safe(e.description);
    lemma_content_one("UID:"@, ut);
    lemma_content_one("SUMMARY:"@, escape_spec(e.title));
    let d = ev_date_lines(e);
    if e.all_day {
        crate::dates::lemma_date_basic_safe(e.start.spec_date());
        crate::dates::lemma_date_basic_safe(e.end.spec_date());
        lemma_content_one("DTSTART;VALUE=DATE:"@, date_basic(e.start.spec_date()));
        lemma_content_one("DTEND;VALUE=DATE:"@, date_basic(e.end.spec_date()));
        lemma_all_content_cat(
            seq!["DTSTART;VALUE=DATE:"@ + date_basic(e.start.spec_date())],
            seq!["DTEND;VALUE=DATE:"@ + date_basic(e.end.spec_date())],
        );
        assert(d =~= seq!["DTSTART;VALUE=DATE:"@ + date_basic(e.start.spec_date())] + seq![
            "DTEND;VALUE=DATE:"@ + date_basic(e.end.spec_date()),
        ]);
    } else {
        crate::dates::lemma_dt_basic_safe(e.start);
        crate::dates::lemma_dt_basic_safe(e.end);
        lemma_content_one("DTSTART:"@, dt_basic(e.start));
        lemma_content_one("DTEND:"@, dt_basic(e.end));
        lemma_all_content_cat(seq!["DTSTART:"@ + dt_basic(e.start)], seq!["DTEND:"@ + dt_basic(e.end)]);
        assert(d =~= seq!["DTSTART:"@ + dt_basic(e.start)] + seq!["DTEND:"@ + dt_basic(e.end)]);
    }
    lemma_content_if(e.location.len() > 0, "LOCATION:"@, escape_spec(e.location));
    lemma_content_if(e.description.len() > 0, "DESCRIPTION:"@, escape_spec(e.description));
    let x = ev_text_lines(e);
    lemma_all_content_cat(
        line_if(e.location.len() > 0, "LOCATION:"@ + escape_spec(e.location)),
        line_if(e.description.len() > 0, "DESCRIPTION:"@ + escape_spec(e.description)),
    );
    assert(line_safe(event_status_text(e.status)));
    crate::dates::lemma_dt_basic_safe(now);
    lemma_content_one("STATUS:"@, event_status_text(e.status));
    lemma_content_one("LAST-MODIFIED:"@, dt_basic(now));
    let t = ev_tail(e, now);
    assert(content_line(t[2]) && content_line(t[3]));
    assert(all_content(t)) by {
        assert(t[0] == "STATUS:"@ + event_status_text(e.status));
        assert(t[1] == "LAST-MODIFIED:"@ + dt_basic(now));
    }
    let u = seq!["UID:"@ + ut];
    let sm = seq!["SUMMARY:"@ + escape_spec(e.title)];
    lemma_all_content_cat(p, u);
    lemma_all_content_cat(p + u, sm);
    lemma_all_content_cat(p + u + sm, d);
    lemma_all_content_cat(p + u + sm + d, x);
    lemma_all_content_cat(p + u + sm + d + x, t);
}

pub open spec fn ev_sum_line(e: EventView, folded: bool) -> Seq<Seq<char>> {
    seq!["SUMMARY:"@ + if folded { fold_spec(escape_spec(e.title)) } else { escape_spec(e.title) }]
}

pub open spec fn ev_loc_line(e: EventView, folded: bool) -> Seq<Seq<char>> {
    line_if(
        e.location.len() > 0,
        "LOCATION:"@ + if folded { fold_spec(escape_spec(e.location)) } else { escape_spec(e.location) },
    )
}

pub open spec fn ev_desc_line(e: EventView, folded: bool) -> Seq<Seq<char>> {
    line_if(
        e.description.len() > 0,
        "DESCRIPTION:"@ + if folded { fold_spec(escape_spec(e.description)) } else { escape_spec(e.description) },
    )
}

proof fn lemma_cat_six(
    q: Seq<Seq<char>>,
    s: Seq<Seq<char>>,
    d: Seq<Seq<char>>,
    l: Seq<Seq<char>>,
    de: Seq<Seq<char>>,
    t: Seq<Seq<char>>,
)
    ensures
        q + s + d + (l + de) + t == q + s + d + l + de + t,
{
    assert(q + s + d + (l + de) + t =~= q + s + d + l + de + t);
}

proof fn lemma_ev_shape(e: EventView, now: DateTime)
    ensures
        vevent_lines(e, now) == ev_pre() + seq!["UID:"@ + uuid_text(e.id.value)] + ev_sum_line(e, true) + ev_date_lines(e)
            + ev_loc_line(e, true) + ev_desc_line(e, true) + ev_tail(e, now),
        ev_logical(e, now) == ev_pre() + seq!["UID:"@ + uuid_text(e.id.value)] + ev_sum_line(e, false) + ev_date_lines(
            e,
        ) + ev_loc_line(e, false) + ev_desc_line(e, false) + ev_tail(e, now),
{
    let q = ev_pre() + seq!["UID:"@ + uuid_text(e.id.value)];
    let six = seq![
        "BEGIN:VCALENDAR"@,
        "VERSION:2.0"@,
        "PRODID:-//Lamp GTD//EN"@,
        "BEGIN:VEVENT"@,
        "UID:"@ + uuid_text(e.id.value),
        "SUMMARY:"@ + fold_spec(escape_spec(e.title)),
    ];
    assert(six =~= q + ev_sum_line(e, true));
    assert(ev_sum_line(e, false) == seq!["SUMMARY:"@ + escape_spec(e.title)]);
    assert(ev_text_lines(e) == ev_loc_line(e, false) + ev_desc_line(e, false));
    lemma_cat_six(q, ev_sum_line(e, false), ev_date_lines(e), ev_loc_line(e, false), ev_desc_line(e, false), ev_tail(
        e,
        now,
    ));
}

/// The written lines are the logical lines with the summary, location and
/// description folded.
#[verifier::rlimit(50)]
pub proof fn lemma_ev_folds(e: EventView, now: DateTime)
    requires
        event_writable(e),
        dt_safe(now),
    ensures
        folds_of(vevent_lines(e, now), ev_logical(e, now)),
        vevent_lines(e, now)[0] == ev_logical(e, now)[0],
        ev_logical(e, now).len() >= 1,
        all_content(ev_logical(e, now)),
{
    reveal_strlit("SUMMARY:");
    reveal_strlit("LOCATION:");
    reveal_strlit("DESCRIPTION:");
    lemma_ev_content(e, now);
    lemma_ev_shape(e, now);
    let q = ev_pre() + seq!["UID:"@ + uuid_text(e.id.value)];
    let s_ph = ev_sum_line(e, true);
    let s_lo = ev_sum_line(e, false);
    let d = ev_date_lines(e);
    let l_ph = ev_loc_line(e, true);
    let l_lo = ev_loc_line(e, false);
    let de_ph = ev_desc_line(e, true);
    let de_lo = ev_desc_line(e, false);
    let t = ev_tail(e, now);
    lemma_all_content_split(q + s_lo + d + l_lo + de_lo, t);
    lemma_all_content_split(q + s_lo + d + l_lo, de_lo);
    lemma_all_content_split(q + s_lo + d, l_lo);
    lemma_all_content_split(q + s_lo, d);
    lemma_all_content_split(q, s_lo);
    lemma_folds_same_content(q);
    lemma_folds_same_content(d);
    lemma_folds_same_content(t);
    lemma_folds_if(true, "SUMMARY:"@, escape_spec(e.title));
    assert(line_if(true, "SUMMARY:"@ + fold_spec(escape_spec(e.title))) =~= s_ph);
    assert(line_if(true, "SUMMARY:"@ + escape_spec(e.title)) =~= s_lo);
    lemma_folds_if(e.location.len() > 0, "LOCATION:"@, escape_spec(e.location));
    lemma_folds_if(e.description.len() > 0, "DESCRIPTION:"@, escape_spec(e.description));
    lemma_folds_concat(q, q, s_ph, s_lo);
    lemma_folds_concat(q + s_ph, q + s_lo, d, d);
    lemma_folds_concat(q + s_ph + d, q + s_lo + d, l_ph, l_lo);
    lemma_folds_concat(q + s_ph + d + l_ph, q + s_lo + d + l_lo, de_ph, de_lo);
    lemma_folds_concat(q + s_ph + d + l_ph + de_ph, q + s_lo + d + l_lo + de_lo, t, t);
    assert(vevent_lines(e, now)[0] == q[0]);
    assert(ev_logical(e, now)[0] == q[0]);
}

/// A date of the text format: its `YYYYMMDD` is cut between characters
/// and reads back.
proof fn lemma_ical_date_basic(d: crate::dates::Date)
    requires
        date_ok(d),
    ensures
        ical_date_spec(date_basic(d)) == Some(d.num()),
        date_cut_ok(date_basic(d)),
{
    crate::dates::lemma_basic_date_roundtrip(d);
    let s = date_basic(d);
    crate::sync::vtodo_roundtrip::lemma_ascii_bytes(s, 8);
    crate::sync::vtodo_roundtrip::lemma_ascii_within(s, 0);
    assert(s.take(8) =~= s);
    assert(crate::sync::ical::date_part(s) == s);
    assert(crate::sync::ical::bytes_of(s, 8) == 8);
}

/// The start or end the scan reads for an event's date-time.
proof fn lemma_ev_time_back(all_day: bool, t: DateTime)
    requires
        all_day ==> date_ok(t.spec_date()) && dt_parts(t) == (t.spec_date().num(), 0int, 0int, 0int, 0int),
        !all_day ==> dt_ok(t),
    ensures
        (if all_day {
            date_value(None, date_basic(t.spec_date()))
        } else {
            ical_datetime_spec(dt_basic(t))
        }) == Some(dt_parts(t)),
        all_day ==> date_cut_ok(date_basic(t.spec_date())),
        dt_of(dt_parts(t)) == t,
{
    crate::dates::lemma_dt_of(t);
    if all_day {
        lemma_ical_date_basic(t.spec_date());
    } else {
        crate::sync::vtodo_roundtrip::lemma_dt_text(t);
        crate::dates::lemma_dt_basic_safe(t);
        lemma_trim_end_id(dt_basic(t));
    }
}

/// Writing an event as a VEVENT and reading the text back gives the
/// event: for an event with a title, texts and dates the format carries,
/// the text reads as one event with its identifier, title, start, end,
/// all-day flag, location and description.
pub proof fn lemma_vevent_roundtrip(e: EventView, now: DateTime, today: int, fresh: crate::ids::Uuid)
    requires
        event_writable(e),
        dt_safe(now),
    ensures
        ({
            let r = events_spec(vevent_text(e, now), today, fresh);
            &&& r is Some
            &&& r->0.len() == 1
            &&& r->0[0].id == e.id
            &&& r->0[0].title == e.title
            &&& r->0[0].start == e.start
            &&& r->0[0].end == e.end
            &&& r->0[0].all_day == e.all_day
            &&& r->0[0].location == e.location
            &&& r->0[0].description == e.description
        }),
{
    let text = vevent_text(e, now);
    let ps = vevent_lines(e, now);
    let ls = ev_logical(e, now);
    lemma_ev_folds(e, now);
    crate::sync::ical::lemma_unfold_content_lines(ps, ls);
    reveal_strlit("\r\n");
    assert("\r\n"@ =~= seq!['\r', '\n']);
    assert(crate::text::lines(crate::sync::ical::unfold_spec(text)) == ls);
    lemma_ev_lines_seq(ls, ls.len() as int);
    assert(ls.take(ls.len() as int) =~= ls);
    lemma_ev_scan_logical(e, now);
    let st = crate::sync::vevent::ev_scan(text);
    assert(ev_fields_of(st) == ev_final(e));
    lemma_ev_time_back(e.all_day, e.start);
    lemma_ev_time_back(e.all_day, e.end);
    crate::ids::lemma_uuid_text_roundtrip(e.id.value);
    assert(crate::sync::vtodo_parse::uid_to_uuid(uuid_text(e.id.value)) == e.id);
    crate::sync::ical::lemma_unescape_escape(e.title);
    crate::sync::ical::lemma_unescape_escape(e.location);
    crate::sync::ical::lemma_unescape_escape(e.description);
    if e.location.len() == 0 {
        assert(e.location =~= Seq::<char>::empty());
    }
    if e.description.len() == 0 {
        assert(e.description =~= Seq::<char>::empty());
    }
    assert(st.ok);
    assert(st.summary == e.title);
    assert(st.dtstart == Some(dt_parts(e.start)));
    assert(st.dtend == Some(dt_parts(e.end)));
    assert(st.rrule is None);
}

// ---------------------------------------------------------------------------
// The spacing of the instances of a rule
// ---------------------------------------------------------------------------

/// The daily expansion from day `cur`, counting from `k`, in steps of
/// `step` days: instance number `j` falls `j - k` steps after `cur`, the
/// numbers rise, and without exceptions they count up one by one.
proof fn lemma_daily_from_steps(
    cur: int,
    k: int,
    step: int,
    horizon: int,
    until: Option<int>,
    max: int,
    ex: Seq<int>,
)
    requires
        daily_from(cur, k, step, horizon, until, max, ex) is Some,
    ensures
        ({
            let s = daily_from(cur, k, step, horizon, until, max, ex)->0;
            &&& forall|i: int| 0 <= i < s.len() ==> #[trigger] s[i].0 == cur + (s[i].1 - k) * step && k <= s[i].1
            &&& forall|i: int, j: int| 0 <= i < j < s.len() ==> s[i].1 < s[j].1
            &&& ex.len() == 0 ==> forall|i: int| 0 <= i < s.len() ==> #[trigger] s[i].1 == k + i
        }),
    decreases max - k,
{
    if !(cur <= horizon && k < max) {
    } else if until matches Some(u) && cur > u {
    } else if cur + step > crate::dates::max_day() {
    } else {
        lemma_daily_from_steps(cur + step, k + 1, step, horizon, until, max, ex);
        let rest = daily_from(cur + step, k + 1, step, horizon, until, max, ex)->0;
        let kp = keep(ex, cur, k);
        let s = kp + rest;
        assert(kp.len() == 0 || kp == seq![(cur, k)]);
        assert(daily_from(cur, k, step, horizon, until, max, ex)->0 == s);
        assert forall|i: int| 0 <= i < s.len() implies #[trigger] s[i].0 == cur + (s[i].1 - k) * step && k <= s[i].1 by {
            if i >= kp.len() {
                let jj = i - kp.len();
                assert(0 <= jj < rest.len());
                assert(rest[jj].0 == (cur + step) + (rest[jj].1 - (k + 1)) * step);
                let a = rest[i - kp.len()].1;
                assert(s[i] == rest[i - kp.len()]);
                assert(rest[i - kp.len()].0 == (cur + step) + (rest[i - kp.len()].1 - (k + 1)) * step && k + 1
                    <= rest[i - kp.len()].1);
                assert((cur + step) + (a - (k + 1)) * step == cur + (a - k) * step) by (nonlinear_arith);
                assert(s[i].0 == cur + (s[i].1 - k) * step);
            } else {
                assert(s[i] == (cur, k));
                assert((k - k) * step == 0) by (nonlinear_arith);
            }
        }
        assert forall|i: int, j: int| 0 <= i < j < s.len() implies s[i].1 < s[j].1 by {
            if i >= kp.len() {
                assert(s[i] == rest[i - kp.len()] && s[j] == rest[j - kp.len()]);
                assert(rest[i - kp.len()].1 < rest[j - kp.len()].1);
            } else {
                assert(s[i] == (cur, k));
                let jj = j - kp.len();
                assert(0 <= jj < rest.len());
                assert(s[j] == rest[jj]);
                assert(rest[jj].0 == (cur + step) + (rest[jj].1 - (k + 1)) * step);
                assert(k + 1 <= rest[jj].1);
            }
        }
        if ex.len() == 0 {
            assert(!ex.contains(cur));
            assert(kp == seq![(cur, k)]);
            assert forall|i: int| 0 <= i < s.len() implies #[trigger] s[i].1 == k + i by {
                if i >= 1 {
                    assert(s[i] == rest[i - 1]);
                }
            }
        }
    }
}

/// A daily rule repeats every `INTERVAL` days (every day without one):
/// the instance numbered `j` falls `j` intervals after the start, the
/// numbers rise, and without exception dates consecutive instances are one
/// interval apart, the first on the start day.
pub proof fn lemma_daily_instances_interval(
    ps: Seq<(Seq<char>, Seq<char>)>,
    base: int,
    ex: Seq<int>,
    today: int,
    n: u32,
)
    requires
        (param(ps, "INTERVAL"@) is None && n == 1) || (param(ps, "INTERVAL"@) is Some && crate::text::parse_u32_spec(
            param(ps, "INTERVAL"@)->0,
        ) == Some(n)),
        instance_days(Freq::Daily, ps, base, ex, today) is Some,
    ensures
        ({
            let ds = instance_days(Freq::Daily, ps, base, ex, today)->0;
            &&& forall|i: int| 0 <= i < ds.len() ==> #[trigger] ds[i].0 == base + ds[i].1 * n
            &&& forall|i: int, j: int| 0 <= i < j < ds.len() ==> ds[i].1 < ds[j].1
            &&& ex.len() == 0 && ds.len() > 0 ==> ds[0].0 == base
            &&& ex.len() == 0 ==> forall|i: int| 0 <= i < ds.len() - 1 ==> #[trigger] ds[i + 1].0 == ds[i].0 + n
        }),
{
    assert(interval_of(ps) == n);
    let horizon = today + 365;
    let ds = instance_days(Freq::Daily, ps, base, ex, today)->0;
    assert(ds == daily_from(base, 0, n as int, horizon, until_of(ps), max_count_of(ps), ex)->0);
    lemma_daily_from_steps(base, 0, n as int, horizon, until_of(ps), max_count_of(ps), ex);
    assert forall|i: int| 0 <= i < ds.len() implies #[trigger] ds[i].0 == base + ds[i].1 * n by {
        assert(ds[i].0 == base + (ds[i].1 - 0) * n);
    }
    if ex.len() == 0 {
        assert forall|i: int| 0 <= i < ds.len() - 1 implies #[trigger] ds[i + 1].0 == ds[i].0 + n by {
            assert(ds[i].1 == i && ds[i + 1].1 == i + 1);
            assert(ds[i].0 == base + i * n);
            assert(ds[i + 1].0 == base + (i + 1) * n);
            assert(base + (i + 1) * n == base + i * n + n) by (nonlinear_arith);
        }
        if ds.len() > 0 {
            assert(ds[0].1 == 0);
            assert(ds[0].0 == base + 0 * n);
        }
    }
}

/// The monthly expansion from month counter `a`: every instance falls on
/// day `d0` of a month a whole number of intervals after month `a`.
proof fn lemma_monthly_from_steps(
    a: int,
    d0: int,
    n: int,
    interval: int,
    hm: int,
    horizon: int,
    until: Option<int>,
    max: int,
    ex: Seq<int>,
)
    requires
        interval >= 1,
    ensures
        ({
            let s = monthly_from(a, d0, n, interval, hm, horizon, until, max, ex);
            forall|i: int|
                0 <= i < s.len() ==> {
                    let t = crate::dates::ymd_of(#[trigger] s[i].0);
                    &&& t.2 == d0
                    &&& a <= month_count(t.0, t.1)
                    &&& (month_count(t.0, t.1) - a) % interval == 0
                }
        }),
    decreases hm - a, max - n,
{
    let s = monthly_from(a, d0, n, interval, hm, horizon, until, max, ex);
    if a < 0 || a > hm || n >= max {
    } else {
        let y = a / 12 - year_shift();
        let m = a % 12 + 1;
        if crate::dates::valid_ymd(y, m, d0) {
            let cur = crate::dates::day_number(y, m, d0);
            crate::dates::lemma_ymd_of_day_number(y, m, d0);
            assert(month_count(y, m) == a);
            assert(0int % interval == 0) by (nonlinear_arith)
                requires
                    interval >= 1,
            ;
            assert((month_count(y, m) - a) % interval == 0);
            let kp = keep(ex, cur, n);
            assert(kp.len() == 0 || kp == seq![(cur, n)]);
            if cur > horizon {
            } else if until matches Some(u) && cur > u {
            } else if a + interval > hm {
                assert forall|i: int| 0 <= i < s.len() implies {
                    let t = crate::dates::ymd_of(#[trigger] s[i].0);
                    &&& t.2 == d0
                    &&& a <= month_count(t.0, t.1)
                    &&& (month_count(t.0, t.1) - a) % interval == 0
                } by {
                    assert(s[i] == (cur, n));
                }
            } else {
                lemma_monthly_from_steps(a + interval, d0, n + 1, interval, hm, horizon, until, max, ex);
                let rest = monthly_from(a + interval, d0, n + 1, interval, hm, horizon, until, max, ex);
                assert(s == kp + rest);
                assert forall|i: int| 0 <= i < s.len() implies {
                    let t = crate::dates::ymd_of(#[trigger] s[i].0);
                    &&& t.2 == d0
                    &&& a <= month_count(t.0, t.1)
                    &&& (month_count(t.0, t.1) - a) % interval == 0
                } by {
                    if i < kp.len() {
                        assert(s[i] == (cur, n));
                    } else {
                        let jj = i - kp.len();
                        assert(s[i] == rest[jj]);
                        let t = crate::dates::ymd_of(rest[jj].0);
                        let x = month_count(t.0, t.1) - (a + interval);
                        assert(x % interval == 0);
                        vstd::arithmetic::div_mod::lemma_mod_add_multiples_vanish(x, interval);
                        assert(month_count(t.0, t.1) - a == interval + x);
                    }
                }
            }
        } else if interval == 0 || a + interval > hm {
        } else {
            lemma_monthly_from_steps(a + interval, d0, n, interval, hm, horizon, until, max, ex);
            let rest = monthly_from(a + interval, d0, n, interval, hm, horizon, until, max, ex);
            assert(s == rest);
            assert forall|i: int| 0 <= i < s.len() implies {
                let t = crate::dates::ymd_of(#[trigger] s[i].0);
                &&& t.2 == d0
                &&& a <= month_count(t.0, t.1)
                &&& (month_count(t.0, t.1) - a) % interval == 0
            } by {
                assert(s[i] == rest[i]);
                let t = crate::dates::ymd_of(rest[i].0);
                let x = month_count(t.0, t.1) - (a + interval);
                vstd::arithmetic::div_mod::lemma_mod_add_multiples_vanish(x, interval);
                assert(month_count(t.0, t.1) - a == interval + x);
            }
        }
    }
}

/// A monthly rule repeats every `INTERVAL` months (a yearly one every
/// `INTERVAL` years): each instance falls on the start's day of the month,
/// a whole number of intervals after the start's month.
pub proof fn lemma_monthly_instances_interval(
    yearly: bool,
    ps: Seq<(Seq<char>, Seq<char>)>,
    base: int,
    ex: Seq<int>,
    today: int,
    n: u32,
)
    requires
        n >= 1,
        (param(ps, "INTERVAL"@) is None && n == 1) || (param(ps, "INTERVAL"@) is Some && crate::text::parse_u32_spec(
            param(ps, "INTERVAL"@)->0,
        ) == Some(n)),
        instance_days(if yearly { Freq::Yearly } else { Freq::Monthly }, ps, base, ex, today) is Some,
    ensures
        ({
            let ds = instance_days(if yearly { Freq::Yearly } else { Freq::Monthly }, ps, base, ex, today)->0;
            let b = crate::dates::ymd_of(base);
            let step: int = if yearly { n * 12 } else { n as int };
            forall|i: int|
                0 <= i < ds.len() ==> {
                    let t = crate::dates::ymd_of(#[trigger] ds[i].0);
                    &&& t.2 == b.2
                    &&& month_count(b.0, b.1) <= month_count(t.0, t.1)
                    &&& (month_count(t.0, t.1) - month_count(b.0, b.1)) % step == 0
                }
        }),
{
    assert(interval_of(ps) == n);
    let b = crate::dates::ymd_of(base);
    let h = crate::dates::ymd_of(today + 365);
    let step: int = if yearly { n * 12 } else { n as int };
    let ds = instance_days(if yearly { Freq::Yearly } else { Freq::Monthly }, ps, base, ex, today)->0;
    assert(ds == monthly_from(month_count(b.0, b.1), b.2, 0, step, month_count(h.0, h.1), today + 365, until_of(ps), max_count_of(ps), ex));
    lemma_monthly_from_steps(month_count(b.0, b.1), b.2, 0, step, month_count(h.0, h.1), today + 365, until_of(ps), max_count_of(ps), ex);
}

/// One pass over the week days from week start `ws`: every instance is
/// one of the days of the rule in that week.
proof fn lemma_week_pass_days(
    ws: int,
    days: Seq<int>,
    j: int,
    n: int,
    base: int,
    horizon: int,
    until: Option<int>,
    max: int,
    ex: Seq<int>,
)
    requires
        week_pass(ws, days, j, n, base, horizon, until, max, ex) is Some,
    ensures
        ({
            let r = (week_pass(ws, days, j, n, base, horizon, until, max, ex)->0).0;
            forall|i: int| 0 <= i < r.len() ==> days.contains(#[trigger] r[i].0 - ws)
        }),
    decreases days.len() - j,
{
    if j < 0 || j >= days.len() {
    } else {
        let cur = ws + days[j];
        assert(days.contains(cur - ws)) by {
            assert(days[j] == cur - ws);
        }
        let kp = keep(ex, cur, n);
        assert(kp.len() == 0 || kp == seq![(cur, n)]);
        if cur > crate::dates::max_day() {
        } else if cur < base {
            lemma_week_pass_days(ws, days, j + 1, n, base, horizon, until, max, ex);
        } else if cur > horizon {
        } else if until matches Some(u) && cur > u {
        } else if n + 1 >= max {
            let r = (week_pass(ws, days, j, n, base, horizon, until, max, ex)->0).0;
            assert forall|i: int| 0 <= i < r.len() implies days.contains(#[trigger] r[i].0 - ws) by {
                assert(r[i] == (cur, n));
            }
        } else {
            lemma_week_pass_days(ws, days, j + 1, n + 1, base, horizon, until, max, ex);
            let rest = (week_pass(ws, days, j + 1, n + 1, base, horizon, until, max, ex)->0).0;
            let r = (week_pass(ws, days, j, n, base, horizon, until, max, ex)->0).0;
            assert(r == kp + rest);
            assert forall|i: int| 0 <= i < r.len() implies days.contains(#[trigger] r[i].0 - ws) by {
                if i < kp.len() {
                    assert(r[i] == (cur, n));
                } else {
                    assert(r[i] == rest[i - kp.len()]);
                    assert(days.contains(rest[i - kp.len()].0 - ws));
                }
            }
        }
    }
}

/// Week day codes run from 0 (Monday) to 6 (Sunday).
proof fn lemma_weekday_codes_range(items: Seq<Seq<char>>)
    ensures
        forall|k: int| 0 <= k < weekday_codes(items).len() ==> 0 <= #[trigger] weekday_codes(items)[k] < 7,
    decreases items.len(),
{
    if items.len() > 0 {
        lemma_weekday_codes_range(items.drop_last());
        let rest = weekday_codes(items.drop_last());
        if let Some(w) = weekday_code(trim(items.last())) {
            assert(0 <= w < 7);
            assert forall|k: int| 0 <= k < rest.push(w).len() implies 0 <= #[trigger] rest.push(w)[k] < 7 by {
                if k < rest.len() {
                    assert(rest.push(w)[k] == rest[k]);
                }
            }
        }
    }
}

/// The weekly expansion from week start `ws`, in steps of `interval`
/// weeks: every instance is a day of the rule in a week a whole number of
/// intervals after the week of `ws`.
proof fn lemma_weekly_from_weeks(
    ws: int,
    n: int,
    interval: int,
    days: Seq<int>,
    base: int,
    horizon: int,
    until: Option<int>,
    max: int,
    ex: Seq<int>,
)
    requires
        interval >= 1,
        forall|k: int| 0 <= k < days.len() ==> 0 <= #[trigger] days[k] < 7,
        weekly_from(ws, n, (interval * 7) as nat, days, base, horizon, until, max, ex) is Some,
    ensures
        ({
            let s = weekly_from(ws, n, (interval * 7) as nat, days, base, horizon, until, max, ex)->0;
            forall|i: int|
                0 <= i < s.len() ==> {
                    let o = #[trigger] s[i].0 - ws;
                    &&& o >= 0
                    &&& days.contains(o % 7)
                    &&& (o / 7) % interval == 0
                }
        }),
    decreases (if ws <= horizon {
        horizon + 1 - ws
    } else {
        0
    }), max - n,
{
    let step = (interval * 7) as nat;
    assert(step == interval * 7);
    if !(ws <= horizon && n < max) {
    } else {
        lemma_week_pass_days(ws, days, 0, n, base, horizon, until, max, ex);
        let (r, k) = week_pass(ws, days, 0, n, base, horizon, until, max, ex)->0;
        let s = weekly_from(ws, n, step, days, base, horizon, until, max, ex)->0;
        assert forall|i: int| 0 <= i < r.len() implies {
            let o = #[trigger] r[i].0 - ws;
            &&& o >= 0
            &&& days.contains(o % 7)
            &&& (o / 7) % interval == 0
        } by {
            let o = r[i].0 - ws;
            assert(days.contains(o));
            let kk = choose|kk: int| 0 <= kk < days.len() && days[kk] == o;
            assert(0 <= days[kk] < 7);
            assert(o % 7 == o && o / 7 == 0) by (nonlinear_arith)
                requires
                    0 <= o < 7,
            ;
            assert(0int % interval == 0) by (nonlinear_arith)
                requires
                    interval >= 1,
            ;
        }
        if ws + step > crate::dates::max_day() {
        } else if n + k >= max {
            assert(s == r);
        } else {
            lemma_weekly_from_weeks(ws + step, n + k, interval, days, base, horizon, until, max, ex);
            let rest = weekly_from(ws + step, n + k, step, days, base, horizon, until, max, ex)->0;
            assert(s == r + rest);
            assert forall|i: int| 0 <= i < s.len() implies {
                let o = #[trigger] s[i].0 - ws;
                &&& o >= 0
                &&& days.contains(o % 7)
                &&& (o / 7) % interval == 0
            } by {
                if i < r.len() {
                    assert(s[i] == r[i]);
                } else {
                    let jj = i - r.len();
                    assert(s[i] == rest[jj]);
                    let p = rest[jj].0 - (ws + step);
                    assert(p >= 0 && days.contains(p % 7) && (p / 7) % interval == 0);
                    let o = s[i].0 - ws;
                    assert(o == p + interval * 7);
                    assert(o % 7 == p % 7 && o / 7 == p / 7 + interval) by (nonlinear_arith)
                        requires
                            o == p + interval * 7,
                            p >= 0,
                    ;
                    vstd::arithmetic::div_mod::lemma_mod_add_multiples_vanish(p / 7, interval);
                    assert(p / 7 + interval == interval + p / 7);
                }
            }
        }
    }
}

/// A weekly rule repeats every `INTERVAL` weeks (every week without one):
/// each instance is one of the rule's week days (the start's week day
/// without `BYDAY`), in a week a whole number of intervals after the
/// start's week.
pub proof fn lemma_weekly_instances_interval(
    ps: Seq<(Seq<char>, Seq<char>)>,
    base: int,
    ex: Seq<int>,
    today: int,
    n: u32,
)
    requires
        n >= 1,
        (param(ps, "INTERVAL"@) is None && n == 1) || (param(ps, "INTERVAL"@) is Some && crate::text::parse_u32_spec(
            param(ps, "INTERVAL"@)->0,
        ) == Some(n)),
        instance_days(Freq::Weekly, ps, base, ex, today) is Some,
    ensures
        ({
            let ds = instance_days(Freq::Weekly, ps, base, ex, today)->0;
            let ws0 = base - crate::dates::weekday_of(base);
            let days = if byday_of(ps).len() == 0 {
                seq![crate::dates::weekday_of(base)]
            } else {
                byday_of(ps)
            };
            forall|i: int|
                0 <= i < ds.len() ==> {
                    let o = #[trigger] ds[i].0 - ws0;
                    &&& o >= 0
                    &&& days.contains(o % 7)
                    &&& (o / 7) % (n as int) == 0
                }
        }),
{
    assert(interval_of(ps) == n);
    let days = if byday_of(ps).len() == 0 {
        seq![crate::dates::weekday_of(base)]
    } else {
        byday_of(ps)
    };
    if let Some(v) = param(ps, "BYDAY"@) {
        lemma_weekday_codes_range(crate::text::split_on(v, ','));
    }
    assert forall|k: int| 0 <= k < days.len() implies 0 <= #[trigger] days[k] < 7 by {
        if byday_of(ps).len() == 0 {
            assert(days[k] == crate::dates::weekday_of(base));
        }
    }
    let ws0 = base - crate::dates::weekday_of(base);
    let ds = instance_days(Freq::Weekly, ps, base, ex, today)->0;
    assert(ds == weekly_from(ws0, 0, (n * 7) as nat, days, base, today + 365, until_of(ps), max_count_of(ps), ex)->0);
    lemma_weekly_from_weeks(ws0, 0, n as int, days, base, today + 365, until_of(ps), max_count_of(ps), ex);
}

} // verus!
