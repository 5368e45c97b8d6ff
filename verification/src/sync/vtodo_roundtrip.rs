//! Writing a task as a VTODO and reading it back gives the task.

use vstd::prelude::*;

use crate::dates::{
    date_basic, dt_basic, dt_parts, opt_dt_parts, opt_num, lemma_basic_date_roundtrip, lemma_basic_datetime_roundtrip,
    lemma_date_of, lemma_dt_of, line_safe, lemma_date_basic_safe, lemma_digits_safe, lemma_dt_basic_safe, lemma_safe_cat,
    max_day, min_day, Date, DateTime,
};
use crate::ids::{lemma_uuid_text_roundtrip, uuid_text};
use crate::model::recurrence::{interval_of, lemma_recurrence_text_roundtrip, recurrence_text, unit_letter, Recurrence};
use crate::model::task::{keyword_of, lemma_keyword_roundtrip, state_is_done, Priority, TaskState, TaskView};
use crate::sync::ical::{
    content_line, escape_char, escape_spec, folds_of, has_backslash_n, lemma_folded_as_value, lemma_folds_concat,
    lemma_folds_same, line_folds, no_newline, fold_spec, folded_as, lemma_unfold_content_lines, lemma_unescape_escape,
    unescape_spec, ical_date_spec, ical_datetime_spec, date_part, bytes_of, chars_within, trim_z, utf8_len, unfold_spec,
};
use crate::sync::vtodo::{
    clock_pair_text, dayplan_text, line_if, opt_basic, opt_escaped, opt_line, priority_number, status_text, uid_of,
    vtodo_date_ext_lines, vtodo_gtd_lines, vtodo_lines, vtodo_head_lines, vtodo_date_lines, vtodo_plan_lines,
    vtodo_stamp_lines, vtodo_lamp_lines, vtodo_list_lines, vtodo_tag_lines, vtodo_time_lines,
};
use crate::sync::vtodo::vcalendar_text;
use crate::sync::vtodo_laws::{
    fields_of, head_fields, lemma_categories_of, lemma_scan_lines_seq, lemma_scan_logical, list_fields, logical_fields,
    logical_lines, opt_dt_text, plan_fields, pre_lines, stamp_fields,
};
use crate::sync::vtodo_parse::{field_apply, scan_of, scan_start, task_from_scan, uid_to_uuid, nonempty};
use crate::text::{
    all_digits, decimal, find_from, is_ws, join, lemma_decimal_digits, lemma_find_from_at,
    lemma_find_from_none, parse_i32_spec, split_on, trim, trim_end, back_ws_from, lines, is_ascii_digit,
    lemma_parse_u32_decimal, parse_u32_spec, lemma_trim_no_ws,
};

verus! {

/// A text without carriage return.
pub open spec fn no_cr(s: Seq<char>) -> bool {
    forall|i: int| 0 <= i < s.len() ==> #[trigger] s[i] != '\r'
}

/// A key the writer puts before a value: not empty, free of line ends,
/// not starting with a space or a tab.
pub open spec fn key_ok(k: Seq<char>) -> bool {
    &&& k.len() > 0
    &&& line_safe(k)
    &&& k[0] != ' ' && k[0] != '\t'
}

pub proof fn lemma_content_kv(k: Seq<char>, v: Seq<char>)
    requires
        key_ok(k),
        line_safe(v),
    ensures
        content_line(k + v),
{
    lemma_safe_cat(k, v);
    let l = k + v;
    assert(l[0] == k[0]);
    assert(no_newline(l)) by {
        assert forall|i: int| 0 <= i < l.len() implies #[trigger] l[i] != '\n' by {
            assert(l[i] != '\n' && l[i] != '\r');
        }
    }
    assert(l[l.len() - 1] != '\n' && l[l.len() - 1] != '\r');
}

/// Escaping a text without carriage return leaves no line end.
pub proof fn lemma_escape_safe(s: Seq<char>)
    requires
        no_cr(s),
    ensures
        line_safe(escape_spec(s)),
    decreases s.len(),
{
    if s.len() > 0 {
        let init = s.drop_last();
        assert forall|i: int| 0 <= i < init.len() implies #[trigger] init[i] != '\r' by {
            assert(init[i] == s[i]);
        }
        lemma_escape_safe(init);
        let c = s.last();
        assert(c == s[s.len() - 1]);
        let e = escape_char(c);
        assert(line_safe(e)) by {
            assert forall|i: int| 0 <= i < e.len() implies #[trigger] e[i] != '\n' && e[i] != '\r' by {
                if c == '\n' {
                    assert(e =~= seq!['\\', 'n']);
                }
            }
        }
        lemma_safe_cat(escape_spec(init), e);
    }
}

/// The last character of an escaped text is its own last character or
/// a character of an escape; it is whitespace only when the text's is.
pub proof fn lemma_escape_last(s: Seq<char>)
    requires
        s.len() > 0,
        !is_ws(s.last()),
    ensures
        escape_spec(s).len() > 0,
        !is_ws(escape_spec(s).last()),
{
    let c = s.last();
    let e = escape_char(c);
    assert(escape_spec(s) == escape_spec(s.drop_last()) + e);
    assert(e.len() > 0);
    assert(escape_spec(s).last() == e.last());
    if c == '\n' {
        assert(is_ws(c));
    }
    assert(!is_ws('\\') && !is_ws(';') && !is_ws(',') && !is_ws('n'));
}

/// Text that does not end in whitespace is its own `trim_end`.
pub proof fn lemma_trim_end_id(s: Seq<char>)
    requires
        s.len() > 0 ==> !is_ws(s.last()),
    ensures
        trim_end(s) == s,
{
    if s.len() > 0 {
        assert(back_ws_from(s, s.len() as int) == s.len());
    } else {
        assert(back_ws_from(s, 0) == 0);
    }
    assert(s.take(s.len() as int) =~= s);
}

/// A decimal numeral that fits reads back as an `i32`.
pub proof fn lemma_parse_i32_decimal(n: nat)
    requires
        n <= i32::MAX,
    ensures
        parse_i32_spec(decimal(n)) == Some(n as i32),
{
    lemma_decimal_digits(n);
    let d = decimal(n);
    assert(crate::text::is_ascii_digit(d[0]));
}

/// Pieces without the character `c`, joined with it, split back.
pub proof fn lemma_split_join_on(ts: Seq<Seq<char>>, c: char)
    requires
        ts.len() >= 1,
        forall|k: int, i: int| 0 <= k < ts.len() && 0 <= i < ts[k].len() ==> #[trigger] ts[k][i] != c,
    ensures
        split_on(join(ts, seq![c]), c) == ts,
    decreases ts.len(),
{
    let t0 = ts[0];
    assert forall|i: int| 0 <= i < t0.len() implies #[trigger] t0[i] != c by {
        assert(ts[0][i] != c);
    }
    if ts.len() == 1 {
        lemma_find_from_none(t0, c, 0);
        assert(join(ts, seq![c]) == t0);
        assert(seq![t0] =~= ts);
    } else {
        let rest = ts.skip(1);
        assert forall|k: int, i: int| 0 <= k < rest.len() && 0 <= i < rest[k].len() implies #[trigger] rest[k][i]
            != c by {
            assert(rest[k] == ts[k + 1]);
        }
        lemma_split_join_on(rest, c);
        lemma_join_front(ts, seq![c]);
        let x = join(ts, seq![c]);
        let jr = join(rest, seq![c]);
        assert(x == t0 + seq![c] + jr);
        assert forall|i: int| 0 <= i < t0.len() implies #[trigger] x[i] != c by {
            assert(x[i] == t0[i]);
        }
        lemma_find_from_at(x, c, 0, t0.len() as int);
        assert(x.take(t0.len() as int) =~= t0);
        assert(x.skip(t0.len() + 1int) =~= jr);
        assert(seq![t0] + rest =~= ts);
    }
}

pub proof fn lemma_join_front(ts: Seq<Seq<char>>, sep: Seq<char>)
    requires
        ts.len() >= 2,
    ensures
        join(ts, sep) == ts[0] + sep + join(ts.skip(1), sep),
    decreases ts.len(),
{
    if ts.len() == 2 {
        assert(ts.drop_last().len() == 1);
        assert(ts.skip(1).len() == 1);
        assert(join(ts.drop_last(), sep) == ts[0]);
        assert(join(ts.skip(1), sep) == ts[1]);
    } else {
        lemma_join_front(ts.drop_last(), sep);
        assert(ts.drop_last().skip(1) =~= ts.skip(1).drop_last());
        assert(ts.skip(1).last() == ts.last());
        assert(join(ts.skip(1), sep) == join(ts.skip(1).drop_last(), sep) + sep + ts.skip(1).last());
        assert(join(ts, sep) =~= ts[0] + sep + join(ts.skip(1), sep));
    }
}

/// Joining texts without line ends, with a separator without line ends.
pub proof fn lemma_join_line_safe(ps: Seq<Seq<char>>, sep: Seq<char>)
    requires
        forall|i: int| 0 <= i < ps.len() ==> line_safe(#[trigger] ps[i]),
        line_safe(sep),
    ensures
        line_safe(join(ps, sep)),
    decreases ps.len(),
{
    if ps.len() == 1 {
        assert(line_safe(ps[0]));
    } else if ps.len() > 1 {
        let init = ps.drop_last();
        assert forall|i: int| 0 <= i < init.len() implies line_safe(#[trigger] init[i]) by {
            assert(init[i] == ps[i]);
        }
        lemma_join_line_safe(init, sep);
        assert(line_safe(ps[ps.len() - 1]));
        lemma_safe_cat(join(init, sep), sep);
        lemma_safe_cat(join(init, sep) + sep, ps.last());
    }
}

/// A join whose last piece does not end in whitespace, with a
/// separator that is not whitespace, does not end in whitespace.
pub proof fn lemma_join_last_not_ws(ps: Seq<Seq<char>>, c: char)
    requires
        ps.len() >= 1,
        !is_ws(c),
        forall|i: int| 0 <= i < ps.len() && (#[trigger] ps[i]).len() > 0 ==> !is_ws(ps[i].last()),
    ensures
        join(ps, seq![c]).len() > 0 ==> !is_ws(join(ps, seq![c]).last()),
{
    let l = ps.last();
    assert(l == ps[ps.len() - 1]);
    if ps.len() > 1 {
        let a = join(ps.drop_last(), seq![c]);
        assert(join(ps, seq![c]) == a + seq![c] + l);
        if l.len() == 0 {
            assert(join(ps, seq![c]).last() == c);
        } else {
            assert(join(ps, seq![c]).last() == l.last());
        }
    }
}

/// A date the VTODO text writes as `YYYYMMDD` and reads back.
pub open spec fn date_ok(d: Date) -> bool {
    &&& min_day() <= d.num() <= max_day()
    &&& 0 <= d.year() <= 9999
}

pub open spec fn opt_date_ok(d: Option<Date>) -> bool {
    match d {
        Some(x) => date_ok(x),
        None => true,
    }
}

/// A date-time with valid parts (its text has no line end).
pub open spec fn dt_safe(t: DateTime) -> bool {
    &&& min_day() <= t.spec_date().num() <= max_day()
    &&& 0 <= t.spec_hour() < 24
    &&& 0 <= t.spec_minute() < 60
    &&& 0 <= t.spec_second() < 60
    &&& 0 <= t.spec_nano() < 2_000_000_000
}

/// A date-time the VTODO text writes as `YYYYMMDDTHHMMSS` and reads back:
/// whole seconds, a year of four digits.
pub open spec fn dt_ok(t: DateTime) -> bool {
    &&& dt_safe(t)
    &&& 0 <= t.spec_date().year() <= 9999
    &&& t.spec_nano() == 0
}

/// A text the writer escapes and the reader gives back: no carriage
/// return, no backslash followed by `n`, no whitespace at its end.
pub open spec fn text_ok(s: Seq<char>) -> bool {
    &&& no_cr(s)
    &&& !has_backslash_n(s)
    &&& (s.len() > 0 ==> !is_ws(s.last()))
}

/// A category the comma-separated list gives back: no line end, no
/// comma, no whitespace at either end.
pub open spec fn item_ok(s: Seq<char>) -> bool {
    &&& line_safe(s)
    &&& (forall|i: int| 0 <= i < s.len() ==> #[trigger] s[i] != ',')
    &&& (s.len() > 0 ==> !is_ws(s[0]) && !is_ws(s.last()))
}

/// The tasks whose VTODO text reads back: a task not yet on a server
/// (its UID is its identifier), with texts and dates the text format
/// carries.
pub open spec fn vtodo_writable(t: TaskView) -> bool {
    &&& t.sync_uid is None
    &&& t.sync_href is None
    &&& text_ok(t.title)
    &&& text_ok(t.notes)
    &&& (t.project matches Some(p) ==> text_ok(p) && p.len() > 0)
    &&& (t.waiting_for matches Some(w) ==> text_ok(w) && w.len() > 0)
    &&& (forall|k: int| 0 <= k < t.contexts.len() ==> item_ok(#[trigger] t.contexts[k]))
    &&& (forall|k: int| 0 <= k < t.extra_tags.len() ==> no_cr(#[trigger] t.extra_tags[k]))
    &&& opt_date_ok(t.scheduled)
    &&& opt_date_ok(t.deadline)
    &&& opt_date_ok(t.delegated)
    &&& opt_date_ok(t.follow_up)
    &&& opt_date_ok(t.dayplan_date)
    &&& dt_ok(t.created)
    &&& (t.completed matches Some(c) ==> dt_ok(c))
    &&& (forall|k: int| 0 <= k < t.logbook_entries.len() ==> dt_safe(#[trigger] t.logbook_entries[k]))
    &&& (forall|k: int| 0 <= k < t.clock_entries.len() ==> dt_safe((#[trigger] t.clock_entries[k]).0) && dt_safe(
        t.clock_entries[k].1,
    ))
}

pub open spec fn all_content(ls: Seq<Seq<char>>) -> bool {
    forall|i: int| 0 <= i < ls.len() ==> content_line(#[trigger] ls[i])
}

pub proof fn lemma_all_content_cat(a: Seq<Seq<char>>, b: Seq<Seq<char>>)
    requires
        all_content(a),
        all_content(b),
    ensures
        all_content(a + b),
{
    assert forall|i: int| 0 <= i < (a + b).len() implies content_line(#[trigger] (a + b)[i]) by {
        if i < a.len() {
            assert((a + b)[i] == a[i]);
        } else {
            assert((a + b)[i] == b[i - a.len()]);
        }
    }
}

pub proof fn lemma_content_one(k: Seq<char>, v: Seq<char>)
    requires
        key_ok(k),
        line_safe(v),
    ensures
        all_content(seq![k + v]),
{
    lemma_content_kv(k, v);
}

pub proof fn lemma_content_if(c: bool, k: Seq<char>, v: Seq<char>)
    requires
        key_ok(k),
        c ==> line_safe(v),
    ensures
        all_content(line_if(c, k + v)),
{
    if c {
        lemma_content_kv(k, v);
    }
}

proof fn lemma_content_opt(k: Seq<char>, v: Option<Seq<char>>)
    requires
        key_ok(k),
        v matches Some(x) ==> line_safe(x),
    ensures
        all_content(opt_line(k, v)),
{
    if let Some(x) = v {
        lemma_content_kv(k, x);
    }
}

proof fn lemma_keyword_safe(s: TaskState)
    ensures
        line_safe(keyword_of(s)),
        !is_ws(keyword_of(s).last()),
        keyword_of(s).len() > 0,
{
}

proof fn lemma_status_safe(s: TaskState)
    ensures
        line_safe(status_text(s)),
{
    reveal_strlit("COMPLETED");
    reveal_strlit("CANCELLED");
    reveal_strlit("NEEDS-ACTION");
}

proof fn lemma_decimal_safe(n: nat)
    ensures
        line_safe(decimal(n)),
        decimal(n).len() > 0,
        !is_ws(decimal(n).last()),
{
    lemma_decimal_digits(n);
    lemma_digits_safe(decimal(n));
    assert(crate::text::is_ascii_digit(decimal(n)[decimal(n).len() - 1]));
}

proof fn lemma_uid_safe(t: TaskView)
    requires
        t.sync_uid is None,
        t.sync_href is None,
    ensures
        line_safe(uid_of(t)),
        uid_of(t).len() > 0,
        !is_ws(uid_of(t).last()),
{
    lemma_uuid_text_roundtrip(t.id.value);
    let u = uid_of(t);
    assert forall|i: int| 0 <= i < u.len() implies #[trigger] u[i] != '\n' && u[i] != '\r' by {
        assert(!is_ws(u[i]));
    }
    assert(!is_ws(u[u.len() - 1]));
}

proof fn lemma_recurrence_safe(r: Recurrence)
    ensures
        line_safe(recurrence_text(r)),
        !is_ws(recurrence_text(r).last()),
{
    let iv = interval_of(r);
    lemma_decimal_safe(iv.count as nat);
    let prefix = match r {
        Recurrence::Standard(_) => seq!['+'],
        Recurrence::Relative(_) => seq!['.', '+'],
        Recurrence::Strict(_) => seq!['+', '+'],
    };
    lemma_safe_cat(prefix, decimal(iv.count as nat));
    lemma_safe_cat(prefix + decimal(iv.count as nat), seq![unit_letter(iv.unit)]);
    assert(recurrence_text(r) == prefix + decimal(iv.count as nat) + seq![unit_letter(iv.unit)]);
}

proof fn lemma_content_pre()
    ensures
        all_content(pre_lines()),
        all_content(seq!["END:VTODO"@, "END:VCALENDAR"@]),
{
    reveal_strlit("BEGIN:VCALENDAR");
    reveal_strlit("VERSION:2.0");
    reveal_strlit("PRODID:-//Lamp GTD//EN");
    reveal_strlit("BEGIN:VTODO");
    reveal_strlit("END:VTODO");
    reveal_strlit("END:VCALENDAR");
    assert(content_line("BEGIN:VCALENDAR"@));
    assert(content_line("VERSION:2.0"@));
    assert(content_line("PRODID:-//Lamp GTD//EN"@));
    assert(content_line("BEGIN:VTODO"@));
    assert(content_line("END:VTODO"@));
    assert(content_line("END:VCALENDAR"@));
}

proof fn lemma_content_head(t: TaskView)
    requires
        vtodo_writable(t),
    ensures
        all_content(head_fields(t)),
{
    reveal_strlit("UID:");
    reveal_strlit("SUMMARY:");
    reveal_strlit("STATUS:");
    reveal_strlit("PERCENT-COMPLETE:");
    reveal_strlit("100");
    reveal_strlit("PRIORITY:");
    reveal_strlit("CATEGORIES:");
    reveal_strlit(",");
    assert(key_ok("UID:"@));
    assert(key_ok("SUMMARY:"@));
    assert(key_ok("STATUS:"@));
    assert(key_ok("PERCENT-COMPLETE:"@));
    assert(key_ok("PRIORITY:"@));
    assert(key_ok("CATEGORIES:"@));
    assert(line_safe("100"@));
    assert(line_safe(","@));
    lemma_uid_safe(t);
    lemma_escape_safe(t.title);
    lemma_status_safe(t.state);
    lemma_decimal_safe(priority_number(t.priority));
    assert forall|i: int| 0 <= i < t.contexts.len() implies line_safe(#[trigger] t.contexts[i]) by {
        assert(item_ok(t.contexts[i]));
    }
    lemma_join_line_safe(t.contexts, ","@);
    lemma_content_one("UID:"@, uid_of(t));
    lemma_content_one("SUMMARY:"@, escape_spec(t.title));
    lemma_content_one("STATUS:"@, status_text(t.state));
    lemma_content_if(state_is_done(t.state), "PERCENT-COMPLETE:"@, "100"@);
    lemma_content_one("PRIORITY:"@, decimal(priority_number(t.priority)));
    lemma_content_if(t.contexts.len() > 0, "CATEGORIES:"@, join(t.contexts, ","@));
    let a = seq!["UID:"@ + uid_of(t)];
    let b = seq!["SUMMARY:"@ + escape_spec(t.title)];
    let c = seq!["STATUS:"@ + status_text(t.state)];
    let d = line_if(state_is_done(t.state), "PERCENT-COMPLETE:"@ + "100"@);
    let e = seq!["PRIORITY:"@ + decimal(priority_number(t.priority))];
    let f = line_if(t.contexts.len() > 0, "CATEGORIES:"@ + join(t.contexts, ","@));
    lemma_all_content_cat(a, b);
    lemma_all_content_cat(a + b, c);
    lemma_all_content_cat(a + b + c, d);
    lemma_all_content_cat(a + b + c + d, e);
    lemma_all_content_cat(a + b + c + d + e, f);
}

proof fn lemma_opt_basic_safe(d: Option<Date>)
    requires
        opt_date_ok(d),
    ensures
        opt_basic(d) matches Some(x) ==> line_safe(x),
{
    if let Some(x) = d {
        lemma_date_basic_safe(x);
    }
}

proof fn lemma_content_plan(t: TaskView)
    requires
        vtodo_writable(t),
    ensures
        all_content(plan_fields(t)),
{
    reveal_strlit("DTSTART;VALUE=DATE:");
    reveal_strlit("DUE;VALUE=DATE:");
    reveal_strlit("DESCRIPTION:");
    assert(key_ok("DTSTART;VALUE=DATE:"@));
    assert(key_ok("DUE;VALUE=DATE:"@));
    assert(key_ok("DESCRIPTION:"@));
    lemma_opt_basic_safe(t.scheduled);
    lemma_opt_basic_safe(t.deadline);
    lemma_escape_safe(t.notes);
    lemma_content_opt("DTSTART;VALUE=DATE:"@, opt_basic(t.scheduled));
    lemma_content_opt("DUE;VALUE=DATE:"@, opt_basic(t.deadline));
    lemma_content_if(t.notes.len() > 0, "DESCRIPTION:"@, escape_spec(t.notes));
    let a = opt_line("DTSTART;VALUE=DATE:"@, opt_basic(t.scheduled));
    let b = opt_line("DUE;VALUE=DATE:"@, opt_basic(t.deadline));
    let c = line_if(t.notes.len() > 0, "DESCRIPTION:"@ + escape_spec(t.notes));
    lemma_all_content_cat(a, b);
    lemma_all_content_cat(a + b, c);
}

proof fn lemma_content_stamp(t: TaskView, now: DateTime)
    requires
        vtodo_writable(t),
        dt_safe(now),
    ensures
        all_content(stamp_fields(t, now)),
{
    reveal_strlit("CREATED:");
    reveal_strlit("COMPLETED:");
    reveal_strlit("LAST-MODIFIED:");
    reveal_strlit("X-LAMP-STATE:");
    assert(key_ok("CREATED:"@));
    assert(key_ok("COMPLETED:"@));
    assert(key_ok("LAST-MODIFIED:"@));
    assert(key_ok("X-LAMP-STATE:"@));
    lemma_dt_basic_safe(t.created);
    if let Some(c) = t.completed {
        lemma_dt_basic_safe(c);
    }
    lemma_dt_basic_safe(now);
    lemma_keyword_safe(t.state);
    lemma_content_one("CREATED:"@, dt_basic(t.created));
    lemma_content_opt("COMPLETED:"@, opt_dt_text(t.completed));
    lemma_content_one("LAST-MODIFIED:"@, dt_basic(now));
    lemma_content_one("X-LAMP-STATE:"@, keyword_of(t.state));
    let a = seq!["CREATED:"@ + dt_basic(t.created)];
    let b = opt_line("COMPLETED:"@, opt_dt_text(t.completed));
    let c = seq!["LAST-MODIFIED:"@ + dt_basic(now)];
    let d = seq!["X-LAMP-STATE:"@ + keyword_of(t.state)];
    lemma_all_content_cat(a, b);
    lemma_all_content_cat(a + b, c);
    lemma_all_content_cat(a + b + c, d);
}

proof fn lemma_content_lamp(t: TaskView)
    requires
        vtodo_writable(t),
    ensures
        all_content(vtodo_gtd_lines(t)),
        all_content(vtodo_date_ext_lines(t)),
{
    reveal_strlit("X-LAMP-PROJECT:");
    reveal_strlit("X-LAMP-WAITING-FOR:");
    reveal_strlit("X-LAMP-ESC:");
    reveal_strlit("X-LAMP-DELEGATED:");
    reveal_strlit("X-LAMP-FOLLOW-UP:");
    reveal_strlit("X-LAMP-RECURRENCE:");
    assert(key_ok("X-LAMP-PROJECT:"@));
    assert(key_ok("X-LAMP-WAITING-FOR:"@));
    assert(key_ok("X-LAMP-ESC:"@));
    assert(key_ok("X-LAMP-DELEGATED:"@));
    assert(key_ok("X-LAMP-FOLLOW-UP:"@));
    assert(key_ok("X-LAMP-RECURRENCE:"@));
    if let Some(p) = t.project {
        lemma_escape_safe(p);
    }
    if let Some(w) = t.waiting_for {
        lemma_escape_safe(w);
    }
    let es = match t.esc {
        Some(e) => Some(decimal(e as nat)),
        None => None,
    };
    if let Some(e) = t.esc {
        lemma_decimal_safe(e as nat);
    }
    lemma_opt_basic_safe(t.delegated);
    lemma_opt_basic_safe(t.follow_up);
    let rc = match t.recurrence {
        Some(r) => Some(recurrence_text(r)),
        None => None,
    };
    if let Some(r) = t.recurrence {
        lemma_recurrence_safe(r);
    }
    lemma_content_opt("X-LAMP-PROJECT:"@, opt_escaped(t.project));
    lemma_content_opt("X-LAMP-WAITING-FOR:"@, opt_escaped(t.waiting_for));
    lemma_content_opt("X-LAMP-ESC:"@, es);
    lemma_content_opt("X-LAMP-DELEGATED:"@, opt_basic(t.delegated));
    lemma_content_opt("X-LAMP-FOLLOW-UP:"@, opt_basic(t.follow_up));
    lemma_content_opt("X-LAMP-RECURRENCE:"@, rc);
    let a = opt_line("X-LAMP-PROJECT:"@, opt_escaped(t.project));
    let b = opt_line("X-LAMP-WAITING-FOR:"@, opt_escaped(t.waiting_for));
    let c = opt_line("X-LAMP-ESC:"@, es);
    lemma_all_content_cat(a, b);
    lemma_all_content_cat(a + b, c);
    let d = opt_line("X-LAMP-DELEGATED:"@, opt_basic(t.delegated));
    let e = opt_line("X-LAMP-FOLLOW-UP:"@, opt_basic(t.follow_up));
    let f = opt_line("X-LAMP-RECURRENCE:"@, rc);
    lemma_all_content_cat(d, e);
    lemma_all_content_cat(d + e, f);
}

proof fn lemma_content_list(t: TaskView)
    requires
        vtodo_writable(t),
    ensures
        all_content(list_fields(t)),
{
    reveal_strlit("X-LAMP-TAGS:");
    reveal_strlit("X-LAMP-DAYPLAN:");
    reveal_strlit("X-LAMP-LOGBOOK:");
    reveal_strlit("X-LAMP-CLOCK:");
    reveal_strlit(",");
    reveal_strlit("/");
    reveal_strlit(";BUDGET=");
    assert(key_ok("X-LAMP-TAGS:"@));
    assert(key_ok("X-LAMP-DAYPLAN:"@));
    assert(key_ok("X-LAMP-LOGBOOK:"@));
    assert(key_ok("X-LAMP-CLOCK:"@));
    assert(line_safe(","@));
    assert(line_safe("/"@));
    assert(line_safe(";BUDGET="@));
    let tags = t.extra_tags.map_values(|x: Seq<char>| escape_spec(x));
    assert forall|i: int| 0 <= i < tags.len() implies line_safe(#[trigger] tags[i]) by {
        assert(no_cr(t.extra_tags[i]));
        lemma_escape_safe(t.extra_tags[i]);
    }
    lemma_join_line_safe(tags, ","@);
    let dp = match t.dayplan_date {
        Some(d) => Some(dayplan_text(d, t.dayplan_budget)),
        None => None,
    };
    if let Some(d) = t.dayplan_date {
        lemma_date_basic_safe(d);
        if let Some(b) = t.dayplan_budget {
            lemma_decimal_safe(b as nat);
            lemma_safe_cat(";BUDGET="@, decimal(b as nat));
            lemma_safe_cat(date_basic(d), ";BUDGET="@ + decimal(b as nat));
        } else {
            assert(date_basic(d) + Seq::<char>::empty() =~= date_basic(d));
        }
    }
    let logs = t.logbook_entries.map_values(|d: DateTime| dt_basic(d));
    assert forall|i: int| 0 <= i < logs.len() implies line_safe(#[trigger] logs[i]) by {
        assert(dt_safe(t.logbook_entries[i]));
        lemma_dt_basic_safe(t.logbook_entries[i]);
    }
    lemma_join_line_safe(logs, ","@);
    let clocks = t.clock_entries.map_values(|p: (DateTime, DateTime)| clock_pair_text(p));
    assert forall|i: int| 0 <= i < clocks.len() implies line_safe(#[trigger] clocks[i]) by {
        let p = t.clock_entries[i];
        assert(dt_safe(p.0) && dt_safe(p.1));
        lemma_dt_basic_safe(p.0);
        lemma_dt_basic_safe(p.1);
        lemma_safe_cat(dt_basic(p.0), "/"@);
        lemma_safe_cat(dt_basic(p.0) + "/"@, dt_basic(p.1));
    }
    lemma_join_line_safe(clocks, ","@);
    lemma_content_if(t.extra_tags.len() > 0, "X-LAMP-TAGS:"@, join(tags, ","@));
    lemma_content_opt("X-LAMP-DAYPLAN:"@, dp);
    lemma_content_if(t.logbook_entries.len() > 0, "X-LAMP-LOGBOOK:"@, join(logs, ","@));
    lemma_content_if(t.clock_entries.len() > 0, "X-LAMP-CLOCK:"@, join(clocks, ","@));
    let a = line_if(t.extra_tags.len() > 0, "X-LAMP-TAGS:"@ + join(tags, ","@));
    let b = opt_line("X-LAMP-DAYPLAN:"@, dp);
    let c = line_if(t.logbook_entries.len() > 0, "X-LAMP-LOGBOOK:"@ + join(logs, ","@));
    let d = line_if(t.clock_entries.len() > 0, "X-LAMP-CLOCK:"@ + join(clocks, ","@));
    lemma_all_content_cat(a, b);
    lemma_all_content_cat(a + b, c);
    lemma_all_content_cat(a + b + c, d);
    assert(list_fields(t) == a + b + c + d);
}

/// Every line of the unfolded VTODO text of a writable task is a content
/// line.
pub proof fn lemma_content_logical(t: TaskView, now: DateTime)
    requires
        vtodo_writable(t),
        dt_safe(now),
    ensures
        all_content(logical_lines(t, now)),
{
    lemma_content_pre();
    lemma_content_head(t);
    lemma_content_plan(t);
    lemma_content_stamp(t, now);
    lemma_content_lamp(t);
    lemma_content_list(t);
    let p = pre_lines();
    let g1 = head_fields(t);
    let g2 = plan_fields(t);
    let g3 = stamp_fields(t, now);
    let g4 = vtodo_gtd_lines(t);
    let g5 = vtodo_date_ext_lines(t);
    let g6 = list_fields(t);
    let g7 = seq!["END:VTODO"@, "END:VCALENDAR"@];
    lemma_all_content_cat(p, g1);
    lemma_all_content_cat(p + g1, g2);
    lemma_all_content_cat(p + g1 + g2, g3);
    lemma_all_content_cat(p + g1 + g2 + g3, g4);
    lemma_all_content_cat(p + g1 + g2 + g3 + g4, g5);
    lemma_all_content_cat(p + g1 + g2 + g3 + g4 + g5, g6);
    lemma_all_content_cat(p + g1 + g2 + g3 + g4 + g5 + g6, g7);
}

pub proof fn lemma_all_content_split(a: Seq<Seq<char>>, b: Seq<Seq<char>>)
    requires
        all_content(a + b),
    ensures
        all_content(a),
        all_content(b),
{
    assert forall|i: int| 0 <= i < a.len() implies content_line(#[trigger] a[i]) by {
        assert((a + b)[i] == a[i]);
    }
    assert forall|i: int| 0 <= i < b.len() implies content_line(#[trigger] b[i]) by {
        assert((a + b)[a.len() + i] == b[i]);
    }
}

pub proof fn lemma_folds_same_content(a: Seq<Seq<char>>)
    requires
        all_content(a),
    ensures
        folds_of(a, a),
{
    assert forall|i: int| 0 <= i < a.len() implies (#[trigger] a[i]).len() > 0 by {
        assert(content_line(a[i]));
    }
    lemma_folds_same(a);
}

pub proof fn lemma_folds_if(c: bool, key: Seq<char>, v: Seq<char>)
    requires
        key.len() > 0,
    ensures
        folds_of(line_if(c, key + fold_spec(v)), line_if(c, key + v)),
{
    if c {
        lemma_folded_as_value(key, v);
        assert(line_folds(key + fold_spec(v), key + v));
        assert(line_if(c, key + fold_spec(v))[0] == key + fold_spec(v));
        assert(line_if(c, key + v)[0] == key + v);
    }
}

pub open spec fn fold_q1(t: TaskView) -> Seq<Seq<char>> {
    pre_lines() + seq!["UID:"@ + uid_of(t)]
}

pub open spec fn fold_q2(t: TaskView) -> Seq<Seq<char>> {
    seq!["STATUS:"@ + status_text(t.state)] + line_if(state_is_done(t.state), "PERCENT-COMPLETE:"@ + "100"@) + seq![
        "PRIORITY:"@ + decimal(priority_number(t.priority)),
    ] + line_if(t.contexts.len() > 0, "CATEGORIES:"@ + join(t.contexts, ","@)) + opt_line(
        "DTSTART;VALUE=DATE:"@,
        opt_basic(t.scheduled),
    ) + opt_line("DUE;VALUE=DATE:"@, opt_basic(t.deadline))
}

pub open spec fn fold_rest(t: TaskView, now: DateTime) -> Seq<Seq<char>> {
    stamp_fields(t, now) + vtodo_gtd_lines(t) + vtodo_date_ext_lines(t) + list_fields(t) + seq![
        "END:VTODO"@,
        "END:VCALENDAR"@,
    ]
}

pub open spec fn sum_line(t: TaskView, folded: bool) -> Seq<Seq<char>> {
    seq!["SUMMARY:"@ + if folded { fold_spec(escape_spec(t.title)) } else { escape_spec(t.title) }]
}

pub open spec fn desc_line(t: TaskView, folded: bool) -> Seq<Seq<char>> {
    line_if(
        t.notes.len() > 0,
        "DESCRIPTION:"@ + if folded { fold_spec(escape_spec(t.notes)) } else { escape_spec(t.notes) },
    )
}

proof fn lemma_shape_head(t: TaskView)
    ensures
        vtodo_head_lines(t) + vtodo_plan_lines(t) == fold_q1(t) + sum_line(t, true) + fold_q2(t) + desc_line(t, true),
{
    reveal_strlit("PERCENT-COMPLETE:100");
    reveal_strlit("PERCENT-COMPLETE:");
    reveal_strlit("100");
    assert("PERCENT-COMPLETE:100"@ =~= "PERCENT-COMPLETE:"@ + "100"@);
    assert(vtodo_head_lines(t) + vtodo_plan_lines(t) =~= fold_q1(t) + sum_line(t, true) + fold_q2(t) + desc_line(
        t,
        true,
    ));
}

proof fn lemma_cat_pair(x: Seq<Seq<char>>, b: Seq<char>, c: Seq<char>)
    ensures
        x + seq![b, c] == x + seq![b] + seq![c],
{
    assert(x + seq![b, c] =~= x + seq![b] + seq![c]);
}

proof fn lemma_cat_tail(
    s: Seq<Seq<char>>,
    g: Seq<Seq<char>>,
    e: Seq<Seq<char>>,
    a: Seq<Seq<char>>,
    b: Seq<Seq<char>>,
    c: Seq<Seq<char>>,
    d: Seq<Seq<char>>,
    z: Seq<Seq<char>>,
)
    ensures
        s + (g + e) + ((a + b) + (c + d) + z) == s + g + e + (a + b + c + d) + z,
{
    assert(s + (g + e) + ((a + b) + (c + d) + z) =~= s + g + e + (a + b + c + d) + z);
}

proof fn lemma_cat_four(h: Seq<Seq<char>>, p: Seq<Seq<char>>, st: Seq<Seq<char>>, l: Seq<Seq<char>>, li: Seq<Seq<char>>)
    ensures
        h + (p + st) + l + li == (h + p) + (st + l + li),
{
    assert(h + (p + st) + l + li =~= (h + p) + (st + l + li));
}

proof fn lemma_cat_head(
    pre: Seq<Seq<char>>,
    u: Seq<Seq<char>>,
    sm: Seq<Seq<char>>,
    st: Seq<Seq<char>>,
    l1: Seq<Seq<char>>,
    pr: Seq<Seq<char>>,
    l2: Seq<Seq<char>>,
    o1: Seq<Seq<char>>,
    o2: Seq<Seq<char>>,
    l3: Seq<Seq<char>>,
)
    ensures
        pre + (u + sm + st + l1 + pr + l2) + (o1 + o2 + l3) == (pre + u) + sm + (st + l1 + pr + l2 + o1 + o2) + l3,
{
    assert(pre + (u + sm + st + l1 + pr + l2) + (o1 + o2 + l3) =~= (pre + u) + sm + (st + l1 + pr + l2 + o1 + o2)
        + l3);
}

pub proof fn lemma_cat_rest(
    x: Seq<Seq<char>>,
    a: Seq<Seq<char>>,
    b: Seq<Seq<char>>,
    c: Seq<Seq<char>>,
    d: Seq<Seq<char>>,
    e: Seq<Seq<char>>,
)
    ensures
        x + a + b + c + d + e == x + (a + b + c + d + e),
{
    assert(x + a + b + c + d + e =~= x + (a + b + c + d + e));
}

proof fn lemma_shape_tail(t: TaskView, now: DateTime)
    ensures
        vtodo_stamp_lines(t, now) + vtodo_lamp_lines(t) + vtodo_list_lines(t) == fold_rest(t, now),
{
    let x = seq!["CREATED:"@ + dt_basic(t.created)] + opt_line("COMPLETED:"@, opt_dt_text(t.completed));
    lemma_cat_pair(x, "LAST-MODIFIED:"@ + dt_basic(now), "X-LAMP-STATE:"@ + keyword_of(t.state));
    assert(vtodo_stamp_lines(t, now) == stamp_fields(t, now));
    let tags = t.extra_tags.map_values(|x: Seq<char>| escape_spec(x));
    let logs = t.logbook_entries.map_values(|d: DateTime| dt_basic(d));
    let clocks = t.clock_entries.map_values(|p: (DateTime, DateTime)| clock_pair_text(p));
    let a = line_if(t.extra_tags.len() > 0, "X-LAMP-TAGS:"@ + join(tags, ","@));
    let b = opt_line(
        "X-LAMP-DAYPLAN:"@,
        match t.dayplan_date {
            Some(d) => Some(dayplan_text(d, t.dayplan_budget)),
            None => None,
        },
    );
    let c = line_if(t.logbook_entries.len() > 0, "X-LAMP-LOGBOOK:"@ + join(logs, ","@));
    let d = line_if(t.clock_entries.len() > 0, "X-LAMP-CLOCK:"@ + join(clocks, ","@));
    assert(vtodo_tag_lines(t) == a + b);
    assert(vtodo_time_lines(t) == c + d);
    assert(list_fields(t) == a + b + c + d);
    lemma_cat_tail(stamp_fields(t, now), vtodo_gtd_lines(t), vtodo_date_ext_lines(t), a, b, c, d, seq![
        "END:VTODO"@,
        "END:VCALENDAR"@,
    ]);
}

proof fn lemma_shape_ps(t: TaskView, now: DateTime)
    ensures
        vtodo_lines(t, now) == fold_q1(t) + sum_line(t, true) + fold_q2(t) + desc_line(t, true) + fold_rest(t, now),
{
    lemma_shape_head(t);
    lemma_shape_tail(t, now);
    let h = vtodo_head_lines(t);
    let p = vtodo_plan_lines(t);
    let st = vtodo_stamp_lines(t, now);
    let l = vtodo_lamp_lines(t);
    let li = vtodo_list_lines(t);
    assert(vtodo_date_lines(t, now) == p + st);
    lemma_cat_four(h, p, st, l, li);
}

proof fn lemma_shape_ls(t: TaskView, now: DateTime)
    ensures
        logical_lines(t, now) == fold_q1(t) + sum_line(t, false) + fold_q2(t) + desc_line(t, false) + fold_rest(t, now),
{
    let u = seq!["UID:"@ + uid_of(t)];
    let sm = seq!["SUMMARY:"@ + escape_spec(t.title)];
    let st = seq!["STATUS:"@ + status_text(t.state)];
    let l1 = line_if(state_is_done(t.state), "PERCENT-COMPLETE:"@ + "100"@);
    let pr = seq!["PRIORITY:"@ + decimal(priority_number(t.priority))];
    let l2 = line_if(t.contexts.len() > 0, "CATEGORIES:"@ + join(t.contexts, ","@));
    let o1 = opt_line("DTSTART;VALUE=DATE:"@, opt_basic(t.scheduled));
    let o2 = opt_line("DUE;VALUE=DATE:"@, opt_basic(t.deadline));
    let l3 = line_if(t.notes.len() > 0, "DESCRIPTION:"@ + escape_spec(t.notes));
    assert(head_fields(t) == u + sm + st + l1 + pr + l2);
    assert(plan_fields(t) == o1 + o2 + l3);
    assert(sum_line(t, false) == sm);
    assert(desc_line(t, false) == l3);
    assert(fold_q2(t) == st + l1 + pr + l2 + o1 + o2);
    lemma_cat_head(pre_lines(), u, sm, st, l1, pr, l2, o1, o2, l3);
    let x = pre_lines() + head_fields(t) + plan_fields(t);
    lemma_cat_rest(x, stamp_fields(t, now), vtodo_gtd_lines(t), vtodo_date_ext_lines(t), list_fields(t), seq![
        "END:VTODO"@,
        "END:VCALENDAR"@,
    ]);
}

/// The written lines are the logical lines with the summary and the
/// description folded.
pub proof fn lemma_folds_logical(t: TaskView, now: DateTime)
    requires
        vtodo_writable(t),
        dt_safe(now),
    ensures
        folds_of(vtodo_lines(t, now), logical_lines(t, now)),
        vtodo_lines(t, now)[0] == logical_lines(t, now)[0],
        logical_lines(t, now).len() >= 1,
        all_content(logical_lines(t, now)),
{
    reveal_strlit("SUMMARY:");
    reveal_strlit("DESCRIPTION:");
    lemma_content_logical(t, now);
    lemma_shape_ps(t, now);
    lemma_shape_ls(t, now);
    let q1 = fold_q1(t);
    let q2 = fold_q2(t);
    let r = fold_rest(t, now);
    let s_ph = sum_line(t, true);
    let s_lo = sum_line(t, false);
    let d_ph = desc_line(t, true);
    let d_lo = desc_line(t, false);
    let ps = vtodo_lines(t, now);
    let ls = logical_lines(t, now);
    lemma_all_content_split(q1 + s_lo + q2 + d_lo, r);
    lemma_all_content_split(q1 + s_lo + q2, d_lo);
    lemma_all_content_split(q1 + s_lo, q2);
    lemma_all_content_split(q1, s_lo);
    lemma_folds_same_content(q1);
    lemma_folds_same_content(q2);
    lemma_folds_same_content(r);
    lemma_folds_if(true, "SUMMARY:"@, escape_spec(t.title));
    lemma_folds_if(t.notes.len() > 0, "DESCRIPTION:"@, escape_spec(t.notes));
    assert(line_if(true, "SUMMARY:"@ + fold_spec(escape_spec(t.title))) =~= s_ph);
    assert(line_if(true, "SUMMARY:"@ + escape_spec(t.title)) =~= s_lo);
    lemma_folds_concat(q1, q1, s_ph, s_lo);
    lemma_folds_concat(q1 + s_ph, q1 + s_lo, q2, q2);
    lemma_folds_concat(q1 + s_ph + q2, q1 + s_lo + q2, d_ph, d_lo);
    lemma_folds_concat(q1 + s_ph + q2 + d_ph, q1 + s_lo + q2 + d_lo, r, r);
    assert(ps[0] == q1[0]);
    assert(ls[0] == q1[0]);
}

/// The scan of the VTODO text of a writable task reads the fields it
/// wrote.
#[verifier::rlimit(50)]
pub proof fn lemma_scan_written(t: TaskView, now: DateTime)
    requires
        vtodo_writable(t),
        dt_safe(now),
    ensures
        fields_of(scan_of(vcalendar_text(t, now))) == logical_fields(t, now),
{
    lemma_folds_logical(t, now);
    let ps = vtodo_lines(t, now);
    let ls = logical_lines(t, now);
    lemma_unfold_content_lines(ps, ls);
    reveal_strlit("\r\n");
    assert("\r\n"@ =~= seq!['\r', '\n']);
    assert(lines(unfold_spec(vcalendar_text(t, now))) == ls);
    lemma_scan_lines_seq(ls, ls.len() as int);
    assert(ls.take(ls.len() as int) =~= ls);
    lemma_scan_logical(t, now);
}

pub proof fn lemma_ascii_bytes(s: Seq<char>, k: int)
    requires
        0 <= k <= s.len(),
        forall|i: int| 0 <= i < s.len() ==> is_ascii_digit(#[trigger] s[i]),
    ensures
        bytes_of(s, k) == k,
    decreases k,
{
    if k > 0 {
        lemma_ascii_bytes(s, k - 1);
        assert(is_ascii_digit(s[k - 1]));
        assert(utf8_len(s[k - 1]) == 1);
    }
}

pub proof fn lemma_ascii_within(s: Seq<char>, i: int)
    requires
        0 <= i <= s.len(),
        forall|j: int| 0 <= j < s.len() ==> is_ascii_digit(#[trigger] s[j]),
    ensures
        chars_within(s, i, s.len() - i) == s.len(),
    decreases s.len() - i,
{
    if i < s.len() {
        assert(is_ascii_digit(s[i]));
        assert(utf8_len(s[i]) == 1);
        lemma_ascii_within(s, i + 1);
    }
}

/// A date of the text format reads back from its `YYYYMMDD`.
proof fn lemma_date_field(d: Option<Date>, rd: Option<Date>)
    requires
        opt_date_ok(d),
        opt_num(rd) == match opt_basic(d) {
            Some(x) => ical_date_spec(trim_end(x)),
            None => None,
        },
    ensures
        rd == d,
{
    if let Some(x) = d {
        lemma_basic_date_roundtrip(x);
        lemma_date_basic_safe(x);
        let s = date_basic(x);
        lemma_trim_end_id(s);
        lemma_ascii_bytes(s, 8);
        lemma_ascii_within(s, 0);
        assert(s.take(8) =~= s);
        assert(date_part(s) == s);
        let y = rd->0;
        assert(y.num() == x.num());
        lemma_date_of(x);
        lemma_date_of(y);
    }
}

/// A date-time of whole seconds reads back from its `YYYYMMDDTHHMMSS`.
pub proof fn lemma_dt_text(c: DateTime)
    requires
        dt_ok(c),
    ensures
        ical_datetime_spec(trim_end(dt_basic(c))) == Some(dt_parts(c)),
{
    lemma_basic_datetime_roundtrip(c);
    lemma_dt_basic_safe(c);
    let s = dt_basic(c);
    lemma_trim_end_id(s);
    assert(is_ascii_digit(s[14]));
    assert(s.last() != 'Z');
    assert(trim_z(s) == s);
}

proof fn lemma_dt_same(a: DateTime, b: DateTime)
    requires
        dt_parts(a) == dt_parts(b),
    ensures
        a == b,
{
    lemma_dt_of(a);
    lemma_dt_of(b);
}

/// An escaped text of the format reads back.
pub proof fn lemma_text_back(x: Seq<char>)
    requires
        text_ok(x),
    ensures
        unescape_spec(trim_end(escape_spec(x))) == x,
{
    if x.len() > 0 {
        lemma_escape_last(x);
    } else {
        assert(escape_spec(x) =~= Seq::<char>::empty());
    }
    lemma_trim_end_id(escape_spec(x));
    lemma_unescape_escape(x);
}

proof fn lemma_contexts_back(cs: Seq<Seq<char>>)
    requires
        cs.len() > 0,
        forall|k: int| 0 <= k < cs.len() ==> item_ok(#[trigger] cs[k]),
    ensures
        field_apply(scan_start(), "CATEGORIES"@, trim_end(join(cs, ","@))).categories == cs,
{
    reveal_strlit(",");
    assert(","@ =~= seq![',']);
    assert(!is_ws(','));
    assert forall|i: int| 0 <= i < cs.len() && (#[trigger] cs[i]).len() > 0 implies !is_ws(cs[i].last()) by {
        assert(item_ok(cs[i]));
    }
    lemma_join_last_not_ws(cs, ',');
    lemma_trim_end_id(join(cs, ","@));
    assert forall|k: int, i: int| 0 <= k < cs.len() && 0 <= i < cs[k].len() implies #[trigger] cs[k][i] != ',' by {
        assert(item_ok(cs[k]));
    }
    lemma_split_join_on(cs, ',');
    lemma_categories_of(join(cs, ","@));
    let c = field_apply(scan_start(), "CATEGORIES"@, join(cs, ","@)).categories;
    assert forall|i: int| 0 <= i < cs.len() implies #[trigger] c[i] == cs[i] by {
        assert(item_ok(cs[i]));
        lemma_trim_no_ws(cs[i]);
        assert(split_on(join(cs, ","@), ',')[i] == cs[i]);
    }
    assert(c =~= cs);
}

proof fn lemma_priority_back(p: Option<Priority>)
    ensures
        crate::sync::vtodo_parse::priority_from_number(parse_i32_spec(trim_end(decimal(priority_number(p))))) == p,
{
    lemma_decimal_safe(priority_number(p));
    lemma_trim_end_id(decimal(priority_number(p)));
    lemma_parse_i32_decimal(priority_number(p));
}

/// Writing a task as a VTODO and reading the text back gives the task:
/// for a task not yet on a server whose texts and dates the format
/// carries, the summary read is its title, and the task read has its
/// identifier, title, state, priority, contexts, planning dates, notes,
/// creation and completion times, project, waiting-for, escalation,
/// delegation and follow-up dates and repeater.
pub proof fn lemma_vtodo_roundtrip(t: TaskView, now: DateTime, r: TaskView)
    requires
        vtodo_writable(t),
        dt_safe(now),
        task_from_scan(r, scan_of(vcalendar_text(t, now))),
    ensures
        scan_of(vcalendar_text(t, now)).summary == t.title,
        r.id == t.id,
        r.title == t.title,
        r.state == t.state,
        r.priority == t.priority,
        r.contexts == t.contexts,
        r.scheduled == t.scheduled,
        r.deadline == t.deadline,
        r.notes == t.notes,
        r.created == t.created,
        r.completed == t.completed,
        r.project == t.project,
        r.waiting_for == t.waiting_for,
        r.esc == t.esc,
        r.delegated == t.delegated,
        r.follow_up == t.follow_up,
        r.recurrence == t.recurrence,
{
    let st = scan_of(vcalendar_text(t, now));
    lemma_scan_written(t, now);
    let f = logical_fields(t, now);
    assert(fields_of(st) == f);
    // identifier
    lemma_uid_safe(t);
    lemma_trim_end_id(uid_of(t));
    lemma_uuid_text_roundtrip(t.id.value);
    assert(uid_of(t) == uuid_text(t.id.value));
    assert(uid_to_uuid(uuid_text(t.id.value)) == t.id);
    // texts
    lemma_text_back(t.title);
    lemma_text_back(t.notes);
    if t.notes.len() == 0 {
        assert(t.notes =~= Seq::<char>::empty());
    }
    // state and priority
    lemma_keyword_safe(t.state);
    lemma_trim_end_id(keyword_of(t.state));
    lemma_keyword_roundtrip(t.state);
    lemma_priority_back(t.priority);
    // contexts
    if t.contexts.len() > 0 {
        lemma_contexts_back(t.contexts);
    } else {
        assert(t.contexts =~= Seq::<Seq<char>>::empty());
    }
    // dates
    lemma_date_field(t.scheduled, r.scheduled);
    lemma_date_field(t.deadline, r.deadline);
    lemma_date_field(t.delegated, r.delegated);
    lemma_date_field(t.follow_up, r.follow_up);
    lemma_dt_text(t.created);
    lemma_dt_same(r.created, t.created);
    if let Some(c) = t.completed {
        lemma_dt_text(c);
        lemma_dt_same(r.completed->0, c);
    }
    // project and waiting-for
    if let Some(p) = t.project {
        lemma_text_back(p);
    }
    if let Some(w) = t.waiting_for {
        lemma_text_back(w);
    }
    // escalation
    if let Some(e) = t.esc {
        lemma_decimal_safe(e as nat);
        lemma_trim_end_id(decimal(e as nat));
        lemma_parse_u32_decimal(e);
    }
    // repeater
    if let Some(rc) = t.recurrence {
        lemma_recurrence_safe(rc);
        lemma_trim_end_id(recurrence_text(rc));
        lemma_recurrence_text_roundtrip(rc);
    }
}

} // verus!
