//! Reading back the VTODO the library writes.

use vstd::prelude::*;

use crate::dates::{date_basic, dt_basic, DateTime, DateTimeParts};
use crate::model::recurrence::recurrence_text;
use crate::model::task::{keyword_of, state_is_done, TaskView};
use crate::sync::ical::{escape_char, escape_spec, ical_date_spec, ical_datetime_spec, no_newline, unescape_spec};
use crate::sync::vtodo::{
    dayplan_text, clock_pair_text, line_if, opt_basic, opt_escaped, opt_line, priority_number, status_text,
    uid_of, vtodo_date_ext_lines, vtodo_gtd_lines,
};
use crate::sync::vtodo_parse::{field_apply, scan_lines, scan_start, scan_step, VtodoScan};
use crate::text::{parse_i32_spec, parse_u32_spec, back_ws_from, find_from, is_ws, lemma_back_ws_at, lemma_back_ws_from, lemma_find_from_at, lemma_find_from_none, trim_end, decimal, join, split_on, trim};

verus! {

/// The scan of the lines `ls` from `st` on, one line after the other.
pub open spec fn scan_seq(st: VtodoScan, ls: Seq<Seq<char>>) -> VtodoScan
    decreases ls.len(),
{
    if ls.len() == 0 {
        st
    } else {
        scan_step(scan_seq(st, ls.drop_last()), ls.last())
    }
}

pub proof fn lemma_scan_lines_seq(ls: Seq<Seq<char>>, n: int)
    requires
        0 <= n <= ls.len(),
    ensures
        scan_lines(ls, n) == scan_seq(scan_start(), ls.take(n)),
    decreases n,
{
    if n > 0 {
        lemma_scan_lines_seq(ls, n - 1);
        assert(ls.take(n).drop_last() =~= ls.take(n - 1));
        assert(ls.take(n).last() == ls[n - 1]);
    } else {
        assert(ls.take(0) =~= Seq::<Seq<char>>::empty());
    }
}

pub proof fn lemma_scan_seq_concat(st: VtodoScan, a: Seq<Seq<char>>, b: Seq<Seq<char>>)
    ensures
        scan_seq(st, a + b) == scan_seq(scan_seq(st, a), b),
    decreases b.len(),
{
    if b.len() == 0 {
        assert(a + b =~= a);
    } else {
        lemma_scan_seq_concat(st, a, b.drop_last());
        assert((a + b).drop_last() =~= a + b.drop_last());
        assert((a + b).last() == b.last());
    }
}

pub proof fn lemma_scan_seq_one(st: VtodoScan, l: Seq<char>)
    ensures
        scan_seq(st, seq![l]) == scan_step(st, l),
{
    assert(seq![l].drop_last() =~= Seq::<Seq<char>>::empty());
    assert(scan_seq(st, Seq::<Seq<char>>::empty()) == st);
    assert(seq![l].last() == l);
}

/// The key a content line starts with: `kc` without its final `:` and
/// without the parameters after a `;`.
pub open spec fn key_of(kc: Seq<char>) -> Seq<char> {
    let kp = kc.drop_last();
    match find_from(kp, ';', 0) {
        Some(k) => kp.take(k),
        None => kp,
    }
}

/// A key with its colon, as the writer puts it before a value.
pub open spec fn key_colon(kc: Seq<char>) -> bool {
    &&& kc.len() >= 2
    &&& kc.last() == ':'
    &&& forall|i: int| 0 <= i < kc.len() - 1 ==> #[trigger] kc[i] != ':'
    &&& kc[0] != 'B' && kc[0] != 'E' && kc[0] != ' ' && kc[0] != '\t'
    &&& no_newline(kc)
}

pub proof fn lemma_trim_end_after(a: Seq<char>, v: Seq<char>)
    requires
        a.len() > 0,
        !is_ws(a.last()),
    ensures
        trim_end(a + v) == a + trim_end(v),
{
    let s = a + v;
    lemma_back_ws_from(v, v.len() as int);
    let b = back_ws_from(v, v.len() as int);
    let k = a.len() + b;
    assert forall|m: int| k <= m < s.len() implies is_ws(#[trigger] s[m]) by {
        assert(s[m] == v[m - a.len()]);
    }
    if b > 0 {
        assert(s[k - 1] == v[b - 1]);
    } else {
        assert(s[k - 1] == a.last());
    }
    lemma_back_ws_at(s, s.len() as int, k);
    assert(s.take(k) =~= a + v.take(b));
}

/// A content line inside the VTODO sets the field of its key.
pub proof fn lemma_step_content(st: VtodoScan, kc: Seq<char>, v: Seq<char>)
    requires
        st.in_vtodo,
        !st.done,
        key_colon(kc),
    ensures
        scan_step(st, kc + v) == field_apply(st, key_of(kc), trim_end(v)),
{
    reveal_strlit("BEGIN:VTODO");
    reveal_strlit("END:VTODO");
    let raw = kc + v;
    assert(!is_ws(':'));
    lemma_trim_end_after(kc, v);
    let line = trim_end(raw);
    assert(line == kc + trim_end(v));
    assert(line[0] == kc[0]);
    assert(line != "BEGIN:VTODO"@) by {
        assert("BEGIN:VTODO"@[0] == 'B');
    }
    assert(line != "END:VTODO"@) by {
        assert("END:VTODO"@[0] == 'E');
    }
    let c = kc.len() - 1;
    assert forall|i: int| 0 <= i < c implies #[trigger] line[i] != ':' by {
        assert(line[i] == kc[i]);
    }
    assert(line[c] == ':');
    lemma_find_from_at(line, ':', 0, c);
    assert(line.take(c) =~= kc.drop_last());
    assert(line.skip(c + 1) =~= trim_end(v));
}

/// The fields of a scan that a task read back from it takes.
pub struct ScanFields {
    pub in_vtodo: bool,
    pub done: bool,
    pub uid_raw: Option<Seq<char>>,
    pub summary: Seq<char>,
    pub priority_val: Option<i32>,
    pub categories: Seq<Seq<char>>,
    pub dtstart: Option<int>,
    pub due: Option<int>,
    pub description: Seq<char>,
    pub created: Option<DateTimeParts>,
    pub completed: Option<DateTimeParts>,
    pub lamp_state: Option<Seq<char>>,
    pub lamp_project: Option<Seq<char>>,
    pub lamp_waiting_for: Option<Seq<char>>,
    pub lamp_esc: Option<u32>,
    pub lamp_delegated: Option<int>,
    pub lamp_follow_up: Option<int>,
    pub lamp_recurrence: Option<Seq<char>>,
}

pub open spec fn fields_of(st: VtodoScan) -> ScanFields {
    ScanFields {
        in_vtodo: st.in_vtodo,
        done: st.done,
        uid_raw: st.uid_raw,
        summary: st.summary,
        priority_val: st.priority_val,
        categories: st.categories,
        dtstart: st.dtstart,
        due: st.due,
        description: st.description,
        created: st.created,
        completed: st.completed,
        lamp_state: st.lamp_state,
        lamp_project: st.lamp_project,
        lamp_waiting_for: st.lamp_waiting_for,
        lamp_esc: st.lamp_esc,
        lamp_delegated: st.lamp_delegated,
        lamp_follow_up: st.lamp_follow_up,
        lamp_recurrence: st.lamp_recurrence,
    }
}

/// A key without parameters.
pub open spec fn plain_key(kc: Seq<char>) -> bool {
    key_colon(kc) && forall|i: int| 0 <= i < kc.len() ==> #[trigger] kc[i] != ';'
}

proof fn lemma_keyed(st: VtodoScan, kc: Seq<char>, v: Seq<char>)
    requires
        st.in_vtodo,
        !st.done,
        plain_key(kc),
    ensures
        scan_seq(st, seq![kc + v]) == field_apply(st, kc.drop_last(), trim_end(v)),
{
    lemma_scan_seq_one(st, kc + v);
    lemma_step_content(st, kc, v);
    let kp = kc.drop_last();
    assert forall|j: int| 0 <= j < kp.len() implies #[trigger] kp[j] != ';' by {
        assert(kp[j] == kc[j]);
    }
    lemma_find_from_none(kp, ';', 0);
}

proof fn lemma_keyed_opt(st: VtodoScan, kc: Seq<char>, v: Option<Seq<char>>)
    requires
        st.in_vtodo,
        !st.done,
        plain_key(kc),
    ensures
        scan_seq(st, opt_line(kc, v)) == match v {
            Some(x) => field_apply(st, kc.drop_last(), trim_end(x)),
            None => st,
        },
{
    match v {
        Some(x) => lemma_keyed(st, kc, x),
        None => {
            assert(opt_line(kc, v) =~= Seq::<Seq<char>>::empty());
        },
    }
}

proof fn lemma_keyed_if(st: VtodoScan, c: bool, kc: Seq<char>, v: Seq<char>)
    requires
        st.in_vtodo,
        !st.done,
        plain_key(kc),
    ensures
        scan_seq(st, line_if(c, kc + v)) == if c {
            field_apply(st, kc.drop_last(), trim_end(v))
        } else {
            st
        },
{
    if c {
        lemma_keyed(st, kc, v);
    } else {
        assert(line_if(c, kc + v) =~= Seq::<Seq<char>>::empty());
    }
}

/// A date key with the `;VALUE=DATE` parameter at place `k`.
proof fn lemma_keyed_date_opt(st: VtodoScan, kc: Seq<char>, k: int, v: Option<Seq<char>>)
    requires
        st.in_vtodo,
        !st.done,
        key_colon(kc),
        0 < k < kc.len() - 1,
        kc[k] == ';',
        forall|i: int| 0 <= i < k ==> #[trigger] kc[i] != ';',
    ensures
        scan_seq(st, opt_line(kc, v)) == match v {
            Some(x) => field_apply(st, kc.take(k), trim_end(x)),
            None => st,
        },
{
    match v {
        Some(x) => {
            lemma_scan_seq_one(st, kc + x);
            lemma_step_content(st, kc, x);
            let kp = kc.drop_last();
            assert forall|j: int| 0 <= j < k implies #[trigger] kp[j] != ';' by {
                assert(kp[j] == kc[j]);
            }
            assert(kp[k] == ';');
            lemma_find_from_at(kp, ';', 0, k);
            assert(kp.take(k) =~= kc.take(k));
        },
        None => {
            assert(opt_line(kc, v) =~= Seq::<Seq<char>>::empty());
        },
    }
}

proof fn lemma_fa_uid(st: VtodoScan, v: Seq<char>)
    ensures
        fields_of(field_apply(st, "UID"@, v)) == (ScanFields { uid_raw: Some(v), ..fields_of(st) }),
        field_apply(st, "UID"@, v).in_vtodo == st.in_vtodo,
        field_apply(st, "UID"@, v).done == st.done,
{
    reveal_strlit("UID");
}

proof fn lemma_fa_summary(st: VtodoScan, v: Seq<char>)
    ensures
        fields_of(field_apply(st, "SUMMARY"@, v)) == (ScanFields { summary: unescape_spec(v), ..fields_of(st) }),
        field_apply(st, "SUMMARY"@, v).in_vtodo == st.in_vtodo,
        field_apply(st, "SUMMARY"@, v).done == st.done,
{
    reveal_strlit("SUMMARY");
    reveal_strlit("UID");
    assert("SUMMARY"@ != "UID"@) by { assert("SUMMARY"@.len() == 7); assert("UID"@.len() == 3); }
}

proof fn lemma_fa_status(st: VtodoScan, v: Seq<char>)
    ensures
        fields_of(field_apply(st, "STATUS"@, v)) == fields_of(st),
        field_apply(st, "STATUS"@, v).in_vtodo == st.in_vtodo,
        field_apply(st, "STATUS"@, v).done == st.done,
{
    reveal_strlit("STATUS");
    reveal_strlit("SUMMARY");
    reveal_strlit("UID");
    assert("STATUS"@ != "UID"@) by { assert("STATUS"@.len() == 6); assert("UID"@.len() == 3); }
    assert("STATUS"@ != "SUMMARY"@) by { assert("STATUS"@.len() == 6); assert("SUMMARY"@.len() == 7); }
}

proof fn lemma_fa_priority(st: VtodoScan, v: Seq<char>)
    ensures
        fields_of(field_apply(st, "PRIORITY"@, v)) == (ScanFields { priority_val: parse_i32_spec(v), ..fields_of(st) }),
        field_apply(st, "PRIORITY"@, v).in_vtodo == st.in_vtodo,
        field_apply(st, "PRIORITY"@, v).done == st.done,
{
    reveal_strlit("PRIORITY");
    reveal_strlit("STATUS");
    reveal_strlit("SUMMARY");
    reveal_strlit("UID");
    assert("PRIORITY"@ != "UID"@) by { assert("PRIORITY"@.len() == 8); assert("UID"@.len() == 3); }
    assert("PRIORITY"@ != "SUMMARY"@) by { assert("PRIORITY"@.len() == 8); assert("SUMMARY"@.len() == 7); }
    assert("PRIORITY"@ != "STATUS"@) by { assert("PRIORITY"@.len() == 8); assert("STATUS"@.len() == 6); }
}

proof fn lemma_fa_categories(st: VtodoScan, v: Seq<char>)
    ensures
        fields_of(field_apply(st, "CATEGORIES"@, v)) == (ScanFields { categories: field_apply(scan_start(), "CATEGORIES"@, v).categories, ..fields_of(st) }),
        field_apply(st, "CATEGORIES"@, v).in_vtodo == st.in_vtodo,
        field_apply(st, "CATEGORIES"@, v).done == st.done,
{
    reveal_strlit("CATEGORIES");
    reveal_strlit("PRIORITY");
    reveal_strlit("STATUS");
    reveal_strlit("SUMMARY");
    reveal_strlit("UID");
    assert("CATEGORIES"@ != "UID"@) by { assert("CATEGORIES"@.len() == 10); assert("UID"@.len() == 3); }
    assert("CATEGORIES"@ != "SUMMARY"@) by { assert("CATEGORIES"@.len() == 10); assert("SUMMARY"@.len() == 7); }
    assert("CATEGORIES"@ != "STATUS"@) by { assert("CATEGORIES"@.len() == 10); assert("STATUS"@.len() == 6); }
    assert("CATEGORIES"@ != "PRIORITY"@) by { assert("CATEGORIES"@.len() == 10); assert("PRIORITY"@.len() == 8); }
}

proof fn lemma_fa_dtstart(st: VtodoScan, v: Seq<char>)
    ensures
        fields_of(field_apply(st, "DTSTART"@, v)) == (ScanFields { dtstart: ical_date_spec(v), ..fields_of(st) }),
        field_apply(st, "DTSTART"@, v).in_vtodo == st.in_vtodo,
        field_apply(st, "DTSTART"@, v).done == st.done,
{
    reveal_strlit("CATEGORIES");
    reveal_strlit("DTSTART");
    reveal_strlit("PRIORITY");
    reveal_strlit("STATUS");
    reveal_strlit("SUMMARY");
    reveal_strlit("UID");
    assert("DTSTART"@ != "UID"@) by { assert("DTSTART"@.len() == 7); assert("UID"@.len() == 3); }
    assert("DTSTART"@ != "SUMMARY"@) by { assert("DTSTART"@[0] == 'D'); assert("SUMMARY"@[0] == 'S'); }
    assert("DTSTART"@ != "STATUS"@) by { assert("DTSTART"@.len() == 7); assert("STATUS"@.len() == 6); }
    assert("DTSTART"@ != "PRIORITY"@) by { assert("DTSTART"@.len() == 7); assert("PRIORITY"@.len() == 8); }
    assert("DTSTART"@ != "CATEGORIES"@) by { assert("DTSTART"@.len() == 7); assert("CATEGORIES"@.len() == 10); }
}

proof fn lemma_fa_due(st: VtodoScan, v: Seq<char>)
    ensures
        fields_of(field_apply(st, "DUE"@, v)) == (ScanFields { due: ical_date_spec(v), ..fields_of(st) }),
        field_apply(st, "DUE"@, v).in_vtodo == st.in_vtodo,
        field_apply(st, "DUE"@, v).done == st.done,
{
    reveal_strlit("CATEGORIES");
    reveal_strlit("DTSTART");
    reveal_strlit("DUE");
    reveal_strlit("PRIORITY");
    reveal_strlit("STATUS");
    reveal_strlit("SUMMARY");
    reveal_strlit("UID");
    assert("DUE"@ != "UID"@) by { assert("DUE"@[0] == 'D'); assert("UID"@[0] == 'U'); }
    assert("DUE"@ != "SUMMARY"@) by { assert("DUE"@.len() == 3); assert("SUMMARY"@.len() == 7); }
    assert("DUE"@ != "STATUS"@) by { assert("DUE"@.len() == 3); assert("STATUS"@.len() == 6); }
    assert("DUE"@ != "PRIORITY"@) by { assert("DUE"@.len() == 3); assert("PRIORITY"@.len() == 8); }
    assert("DUE"@ != "CATEGORIES"@) by { assert("DUE"@.len() == 3); assert("CATEGORIES"@.len() == 10); }
    assert("DUE"@ != "DTSTART"@) by { assert("DUE"@.len() == 3); assert("DTSTART"@.len() == 7); }
}

proof fn lemma_fa_description(st: VtodoScan, v: Seq<char>)
    ensures
        fields_of(field_apply(st, "DESCRIPTION"@, v)) == (ScanFields { description: unescape_spec(v), ..fields_of(st) }),
        field_apply(st, "DESCRIPTION"@, v).in_vtodo == st.in_vtodo,
        field_apply(st, "DESCRIPTION"@, v).done == st.done,
{
    reveal_strlit("CATEGORIES");
    reveal_strlit("DESCRIPTION");
    reveal_strlit("DTSTART");
    reveal_strlit("DUE");
    reveal_strlit("PRIORITY");
    reveal_strlit("STATUS");
    reveal_strlit("SUMMARY");
    reveal_strlit("UID");
    assert("DESCRIPTION"@ != "UID"@) by { assert("DESCRIPTION"@.len() == 11); assert("UID"@.len() == 3); }
    assert("DESCRIPTION"@ != "SUMMARY"@) by { assert("DESCRIPTION"@.len() == 11); assert("SUMMARY"@.len() == 7); }
    assert("DESCRIPTION"@ != "STATUS"@) by { assert("DESCRIPTION"@.len() == 11); assert("STATUS"@.len() == 6); }
    assert("DESCRIPTION"@ != "PRIORITY"@) by { assert("DESCRIPTION"@.len() == 11); assert("PRIORITY"@.len() == 8); }
    assert("DESCRIPTION"@ != "CATEGORIES"@) by { assert("DESCRIPTION"@.len() == 11); assert("CATEGORIES"@.len() == 10); }
    assert("DESCRIPTION"@ != "DTSTART"@) by { assert("DESCRIPTION"@.len() == 11); assert("DTSTART"@.len() == 7); }
    assert("DESCRIPTION"@ != "DUE"@) by { assert("DESCRIPTION"@.len() == 11); assert("DUE"@.len() == 3); }
}

proof fn lemma_fa_created(st: VtodoScan, v: Seq<char>)
    ensures
        fields_of(field_apply(st, "CREATED"@, v)) == (ScanFields { created: ical_datetime_spec(v), ..fields_of(st) }),
        field_apply(st, "CREATED"@, v).in_vtodo == st.in_vtodo,
        field_apply(st, "CREATED"@, v).done == st.done,
{
    reveal_strlit("CATEGORIES");
    reveal_strlit("CREATED");
    reveal_strlit("DESCRIPTION");
    reveal_strlit("DTSTART");
    reveal_strlit("DUE");
    reveal_strlit("PRIORITY");
    reveal_strlit("STATUS");
    reveal_strlit("SUMMARY");
    reveal_strlit("UID");
    assert("CREATED"@ != "UID"@) by { assert("CREATED"@.len() == 7); assert("UID"@.len() == 3); }
    assert("CREATED"@ != "SUMMARY"@) by { assert("CREATED"@[0] == 'C'); assert("SUMMARY"@[0] == 'S'); }
    assert("CREATED"@ != "STATUS"@) by { assert("CREATED"@.len() == 7); assert("STATUS"@.len() == 6); }
    assert("CREATED"@ != "PRIORITY"@) by { assert("CREATED"@.len() == 7); assert("PRIORITY"@.len() == 8); }
    assert("CREATED"@ != "CATEGORIES"@) by { assert("CREATED"@.len() == 7); assert("CATEGORIES"@.len() == 10); }
    assert("CREATED"@ != "DTSTART"@) by { assert("CREATED"@[0] == 'C'); assert("DTSTART"@[0] == 'D'); }
    assert("CREATED"@ != "DUE"@) by { assert("CREATED"@.len() == 7); assert("DUE"@.len() == 3); }
    assert("CREATED"@ != "DESCRIPTION"@) by { assert("CREATED"@.len() == 7); assert("DESCRIPTION"@.len() == 11); }
}

proof fn lemma_fa_completed(st: VtodoScan, v: Seq<char>)
    ensures
        fields_of(field_apply(st, "COMPLETED"@, v)) == (ScanFields { completed: ical_datetime_spec(v), ..fields_of(st) }),
        field_apply(st, "COMPLETED"@, v).in_vtodo == st.in_vtodo,
        field_apply(st, "COMPLETED"@, v).done == st.done,
{
    reveal_strlit("CATEGORIES");
    reveal_strlit("COMPLETED");
    reveal_strlit("CREATED");
    reveal_strlit("DESCRIPTION");
    reveal_strlit("DTSTART");
    reveal_strlit("DUE");
    reveal_strlit("PRIORITY");
    reveal_strlit("STATUS");
    reveal_strlit("SUMMARY");
    reveal_strlit("UID");
    assert("COMPLETED"@ != "UID"@) by { assert("COMPLETED"@.len() == 9); assert("UID"@.len() == 3); }
    assert("COMPLETED"@ != "SUMMARY"@) by { assert("COMPLETED"@.len() == 9); assert("SUMMARY"@.len() == 7); }
    assert("COMPLETED"@ != "STATUS"@) by { assert("COMPLETED"@.len() == 9); assert("STATUS"@.len() == 6); }
    assert("COMPLETED"@ != "PRIORITY"@) by { assert("COMPLETED"@.len() == 9); assert("PRIORITY"@.len() == 8); }
    assert("COMPLETED"@ != "CATEGORIES"@) by { assert("COMPLETED"@.len() == 9); assert("CATEGORIES"@.len() == 10); }
    assert("COMPLETED"@ != "DTSTART"@) by { assert("COMPLETED"@.len() == 9); assert("DTSTART"@.len() == 7); }
    assert("COMPLETED"@ != "DUE"@) by { assert("COMPLETED"@.len() == 9); assert("DUE"@.len() == 3); }
    assert("COMPLETED"@ != "DESCRIPTION"@) by { assert("COMPLETED"@.len() == 9); assert("DESCRIPTION"@.len() == 11); }
    assert("COMPLETED"@ != "CREATED"@) by { assert("COMPLETED"@.len() == 9); assert("CREATED"@.len() == 7); }
}

proof fn lemma_fa_x_lamp_state(st: VtodoScan, v: Seq<char>)
    ensures
        fields_of(field_apply(st, "X-LAMP-STATE"@, v)) == (ScanFields { lamp_state: Some(v), ..fields_of(st) }),
        field_apply(st, "X-LAMP-STATE"@, v).in_vtodo == st.in_vtodo,
        field_apply(st, "X-LAMP-STATE"@, v).done == st.done,
{
    reveal_strlit("CATEGORIES");
    reveal_strlit("COMPLETED");
    reveal_strlit("CREATED");
    reveal_strlit("DESCRIPTION");
    reveal_strlit("DTSTART");
    reveal_strlit("DUE");
    reveal_strlit("PRIORITY");
    reveal_strlit("STATUS");
    reveal_strlit("SUMMARY");
    reveal_strlit("UID");
    reveal_strlit("X-LAMP-STATE");
    assert("X-LAMP-STATE"@ != "UID"@) by { assert("X-LAMP-STATE"@.len() == 12); assert("UID"@.len() == 3); }
    assert("X-LAMP-STATE"@ != "SUMMARY"@) by { assert("X-LAMP-STATE"@.len() == 12); assert("SUMMARY"@.len() == 7); }
    assert("X-LAMP-STATE"@ != "STATUS"@) by { assert("X-LAMP-STATE"@.len() == 12); assert("STATUS"@.len() == 6); }
    assert("X-LAMP-STATE"@ != "PRIORITY"@) by { assert("X-LAMP-STATE"@.len() == 12); assert("PRIORITY"@.len() == 8); }
    assert("X-LAMP-STATE"@ != "CATEGORIES"@) by { assert("X-LAMP-STATE"@.len() == 12); assert("CATEGORIES"@.len() == 10); }
    assert("X-LAMP-STATE"@ != "DTSTART"@) by { assert("X-LAMP-STATE"@.len() == 12); assert("DTSTART"@.len() == 7); }
    assert("X-LAMP-STATE"@ != "DUE"@) by { assert("X-LAMP-STATE"@.len() == 12); assert("DUE"@.len() == 3); }
    assert("X-LAMP-STATE"@ != "DESCRIPTION"@) by { assert("X-LAMP-STATE"@.len() == 12); assert("DESCRIPTION"@.len() == 11); }
    assert("X-LAMP-STATE"@ != "CREATED"@) by { assert("X-LAMP-STATE"@.len() == 12); assert("CREATED"@.len() == 7); }
    assert("X-LAMP-STATE"@ != "COMPLETED"@) by { assert("X-LAMP-STATE"@.len() == 12); assert("COMPLETED"@.len() == 9); }
}

proof fn lemma_fa_x_lamp_project(st: VtodoScan, v: Seq<char>)
    ensures
        fields_of(field_apply(st, "X-LAMP-PROJECT"@, v)) == (ScanFields { lamp_project: Some(unescape_spec(v)), ..fields_of(st) }),
        field_apply(st, "X-LAMP-PROJECT"@, v).in_vtodo == st.in_vtodo,
        field_apply(st, "X-LAMP-PROJECT"@, v).done == st.done,
{
    reveal_strlit("CATEGORIES");
    reveal_strlit("COMPLETED");
    reveal_strlit("CREATED");
    reveal_strlit("DESCRIPTION");
    reveal_strlit("DTSTART");
    reveal_strlit("DUE");
    reveal_strlit("PRIORITY");
    reveal_strlit("STATUS");
    reveal_strlit("SUMMARY");
    reveal_strlit("UID");
    reveal_strlit("X-LAMP-PROJECT");
    reveal_strlit("X-LAMP-STATE");
    assert("X-LAMP-PROJECT"@ != "UID"@) by { assert("X-LAMP-PROJECT"@.len() == 14); assert("UID"@.len() == 3); }
    assert("X-LAMP-PROJECT"@ != "SUMMARY"@) by { assert("X-LAMP-PROJECT"@.len() == 14); assert("SUMMARY"@.len() == 7); }
    assert("X-LAMP-PROJECT"@ != "STATUS"@) by { assert("X-LAMP-PROJECT"@.len() == 14); assert("STATUS"@.len() == 6); }
    assert("X-LAMP-PROJECT"@ != "PRIORITY"@) by { assert("X-LAMP-PROJECT"@.len() == 14); assert("PRIORITY"@.len() == 8); }
    assert("X-LAMP-PROJECT"@ != "CATEGORIES"@) by { assert("X-LAMP-PROJECT"@.len() == 14); assert("CATEGORIES"@.len() == 10); }
    assert("X-LAMP-PROJECT"@ != "DTSTART"@) by { assert("X-LAMP-PROJECT"@.len() == 14); assert("DTSTART"@.len() == 7); }
    assert("X-LAMP-PROJECT"@ != "DUE"@) by { assert("X-LAMP-PROJECT"@.len() == 14); assert("DUE"@.len() == 3); }
    assert("X-LAMP-PROJECT"@ != "DESCRIPTION"@) by { assert("X-LAMP-PROJECT"@.len() == 14); assert("DESCRIPTION"@.len() == 11); }
    assert("X-LAMP-PROJECT"@ != "CREATED"@) by { assert("X-LAMP-PROJECT"@.len() == 14); assert("CREATED"@.len() == 7); }
    assert("X-LAMP-PROJECT"@ != "COMPLETED"@) by { assert("X-LAMP-PROJECT"@.len() == 14); assert("COMPLETED"@.len() == 9); }
    assert("X-LAMP-PROJECT"@ != "X-LAMP-STATE"@) by { assert("X-LAMP-PROJECT"@.len() == 14); assert("X-LAMP-STATE"@.len() == 12); }
}

proof fn lemma_fa_x_lamp_waiting_for(st: VtodoScan, v: Seq<char>)
    ensures
        fields_of(field_apply(st, "X-LAMP-WAITING-FOR"@, v)) == (ScanFields { lamp_waiting_for: Some(unescape_spec(v)), ..fields_of(st) }),
        field_apply(st, "X-LAMP-WAITING-FOR"@, v).in_vtodo == st.in_vtodo,
        field_apply(st, "X-LAMP-WAITING-FOR"@, v).done == st.done,
{
    reveal_strlit("CATEGORIES");
    reveal_strlit("COMPLETED");
    reveal_strlit("CREATED");
    reveal_strlit("DESCRIPTION");
    reveal_strlit("DTSTART");
    reveal_strlit("DUE");
    reveal_strlit("PRIORITY");
    reveal_strlit("STATUS");
    reveal_strlit("SUMMARY");
    reveal_strlit("UID");
    reveal_strlit("X-LAMP-PROJECT");
    reveal_strlit("X-LAMP-STATE");
    reveal_strlit("X-LAMP-WAITING-FOR");
    assert("X-LAMP-WAITING-FOR"@ != "UID"@) by { assert("X-LAMP-WAITING-FOR"@.len() == 18); assert("UID"@.len() == 3); }
    assert("X-LAMP-WAITING-FOR"@ != "SUMMARY"@) by { assert("X-LAMP-WAITING-FOR"@.len() == 18); assert("SUMMARY"@.len() == 7); }
    assert("X-LAMP-WAITING-FOR"@ != "STATUS"@) by { assert("X-LAMP-WAITING-FOR"@.len() == 18); assert("STATUS"@.len() == 6); }
    assert("X-LAMP-WAITING-FOR"@ != "PRIORITY"@) by { assert("X-LAMP-WAITING-FOR"@.len() == 18); assert("PRIORITY"@.len() == 8); }
    assert("X-LAMP-WAITING-FOR"@ != "CATEGORIES"@) by { assert("X-LAMP-WAITING-FOR"@.len() == 18); assert("CATEGORIES"@.len() == 10); }
    assert("X-LAMP-WAITING-FOR"@ != "DTSTART"@) by { assert("X-LAMP-WAITING-FOR"@.len() == 18); assert("DTSTART"@.len() == 7); }
    assert("X-LAMP-WAITING-FOR"@ != "DUE"@) by { assert("X-LAMP-WAITING-FOR"@.len() == 18); assert("DUE"@.len() == 3); }
    assert("X-LAMP-WAITING-FOR"@ != "DESCRIPTION"@) by { assert("X-LAMP-WAITING-FOR"@.len() == 18); assert("DESCRIPTION"@.len() == 11); }
    assert("X-LAMP-WAITING-FOR"@ != "CREATED"@) by { assert("X-LAMP-WAITING-FOR"@.len() == 18); assert("CREATED"@.len() == 7); }
    assert("X-LAMP-WAITING-FOR"@ != "COMPLETED"@) by { assert("X-LAMP-WAITING-FOR"@.len() == 18); assert("COMPLETED"@.len() == 9); }
    assert("X-LAMP-WAITING-FOR"@ != "X-LAMP-STATE"@) by { assert("X-LAMP-WAITING-FOR"@.len() == 18); assert("X-LAMP-STATE"@.len() == 12); }
    assert("X-LAMP-WAITING-FOR"@ != "X-LAMP-PROJECT"@) by { assert("X-LAMP-WAITING-FOR"@.len() == 18); assert("X-LAMP-PROJECT"@.len() == 14); }
}

proof fn lemma_fa_x_lamp_esc(st: VtodoScan, v: Seq<char>)
    ensures
        fields_of(field_apply(st, "X-LAMP-ESC"@, v)) == (ScanFields { lamp_esc: parse_u32_spec(v), ..fields_of(st) }),
        field_apply(st, "X-LAMP-ESC"@, v).in_vtodo == st.in_vtodo,
        field_apply(st, "X-LAMP-ESC"@, v).done == st.done,
{
    reveal_strlit("CATEGORIES");
    reveal_strlit("COMPLETED");
    reveal_strlit("CREATED");
    reveal_strlit("DESCRIPTION");
    reveal_strlit("DTSTART");
    reveal_strlit("DUE");
    reveal_strlit("PRIORITY");
    reveal_strlit("STATUS");
    reveal_strlit("SUMMARY");
    reveal_strlit("UID");
    reveal_strlit("X-LAMP-ESC");
    reveal_strlit("X-LAMP-PROJECT");
    reveal_strlit("X-LAMP-STATE");
    reveal_strlit("X-LAMP-WAITING-FOR");
    assert("X-LAMP-ESC"@ != "UID"@) by { assert("X-LAMP-ESC"@.len() == 10); assert("UID"@.len() == 3); }
    assert("X-LAMP-ESC"@ != "SUMMARY"@) by { assert("X-LAMP-ESC"@.len() == 10); assert("SUMMARY"@.len() == 7); }
    assert("X-LAMP-ESC"@ != "STATUS"@) by { assert("X-LAMP-ESC"@.len() == 10); assert("STATUS"@.len() == 6); }
    assert("X-LAMP-ESC"@ != "PRIORITY"@) by { assert("X-LAMP-ESC"@.len() == 10); assert("PRIORITY"@.len() == 8); }
    assert("X-LAMP-ESC"@ != "CATEGORIES"@) by { assert("X-LAMP-ESC"@[0] == 'X'); assert("CATEGORIES"@[0] == 'C'); }
    assert("X-LAMP-ESC"@ != "DTSTART"@) by { assert("X-LAMP-ESC"@.len() == 10); assert("DTSTART"@.len() == 7); }
    assert("X-LAMP-ESC"@ != "DUE"@) by { assert("X-LAMP-ESC"@.len() == 10); assert("DUE"@.len() == 3); }
    assert("X-LAMP-ESC"@ != "DESCRIPTION"@) by { assert("X-LAMP-ESC"@.len() == 10); assert("DESCRIPTION"@.len() == 11); }
    assert("X-LAMP-ESC"@ != "CREATED"@) by { assert("X-LAMP-ESC"@.len() == 10); assert("CREATED"@.len() == 7); }
    assert("X-LAMP-ESC"@ != "COMPLETED"@) by { assert("X-LAMP-ESC"@.len() == 10); assert("COMPLETED"@.len() == 9); }
    assert("X-LAMP-ESC"@ != "X-LAMP-STATE"@) by { assert("X-LAMP-ESC"@.len() == 10); assert("X-LAMP-STATE"@.len() == 12); }
    assert("X-LAMP-ESC"@ != "X-LAMP-PROJECT"@) by { assert("X-LAMP-ESC"@.len() == 10); assert("X-LAMP-PROJECT"@.len() == 14); }
    assert("X-LAMP-ESC"@ != "X-LAMP-WAITING-FOR"@) by { assert("X-LAMP-ESC"@.len() == 10); assert("X-LAMP-WAITING-FOR"@.len() == 18); }
}

proof fn lemma_fa_x_lamp_delegated(st: VtodoScan, v: Seq<char>)
    ensures
        fields_of(field_apply(st, "X-LAMP-DELEGATED"@, v)) == (ScanFields { lamp_delegated: ical_date_spec(v), ..fields_of(st) }),
        field_apply(st, "X-LAMP-DELEGATED"@, v).in_vtodo == st.in_vtodo,
        field_apply(st, "X-LAMP-DELEGATED"@, v).done == st.done,
{
    reveal_strlit("CATEGORIES");
    reveal_strlit("COMPLETED");
    reveal_strlit("CREATED");
    reveal_strlit("DESCRIPTION");
    reveal_strlit("DTSTART");
    reveal_strlit("DUE");
    reveal_strlit("PRIORITY");
    reveal_strlit("STATUS");
    reveal_strlit("SUMMARY");
    reveal_strlit("UID");
    reveal_strlit("X-LAMP-DELEGATED");
    reveal_strlit("X-LAMP-ESC");
    reveal_strlit("X-LAMP-PROJECT");
    reveal_strlit("X-LAMP-STATE");
    reveal_strlit("X-LAMP-WAITING-FOR");
    assert("X-LAMP-DELEGATED"@ != "UID"@) by { assert("X-LAMP-DELEGATED"@.len() == 16); assert("UID"@.len() == 3); }
    assert("X-LAMP-DELEGATED"@ != "SUMMARY"@) by { assert("X-LAMP-DELEGATED"@.len() == 16); assert("SUMMARY"@.len() == 7); }
    assert("X-LAMP-DELEGATED"@ != "STATUS"@) by { assert("X-LAMP-DELEGATED"@.len() == 16); assert("STATUS"@.len() == 6); }
    assert("X-LAMP-DELEGATED"@ != "PRIORITY"@) by { assert("X-LAMP-DELEGATED"@.len() == 16); assert("PRIORITY"@.len() == 8); }
    assert("X-LAMP-DELEGATED"@ != "CATEGORIES"@) by { assert("X-LAMP-DELEGATED"@.len() == 16); assert("CATEGORIES"@.len() == 10); }
    assert("X-LAMP-DELEGATED"@ != "DTSTART"@) by { assert("X-LAMP-DELEGATED"@.len() == 16); assert("DTSTART"@.len() == 7); }
    assert("X-LAMP-DELEGATED"@ != "DUE"@) by { assert("X-LAMP-DELEGATED"@.len() == 16); assert("DUE"@.len() == 3); }
    assert("X-LAMP-DELEGATED"@ != "DESCRIPTION"@) by { assert("X-LAMP-DELEGATED"@.len() == 16); assert("DESCRIPTION"@.len() == 11); }
    assert("X-LAMP-DELEGATED"@ != "CREATED"@) by { assert("X-LAMP-DELEGATED"@.len() == 16); assert("CREATED"@.len() == 7); }
    assert("X-LAMP-DELEGATED"@ != "COMPLETED"@) by { assert("X-LAMP-DELEGATED"@.len() == 16); assert("COMPLETED"@.len() == 9); }
    assert("X-LAMP-DELEGATED"@ != "X-LAMP-STATE"@) by { assert("X-LAMP-DELEGATED"@.len() == 16); assert("X-LAMP-STATE"@.len() == 12); }
    assert("X-LAMP-DELEGATED"@ != "X-LAMP-PROJECT"@) by { assert("X-LAMP-DELEGATED"@.len() == 16); assert("X-LAMP-PROJECT"@.len() == 14); }
    assert("X-LAMP-DELEGATED"@ != "X-LAMP-WAITING-FOR"@) by { assert("X-LAMP-DELEGATED"@.len() == 16); assert("X-LAMP-WAITING-FOR"@.len() == 18); }
    assert("X-LAMP-DELEGATED"@ != "X-LAMP-ESC"@) by { assert("X-LAMP-DELEGATED"@.len() == 16); assert("X-LAMP-ESC"@.len() == 10); }
}

proof fn lemma_fa_x_lamp_follow_up(st: VtodoScan, v: Seq<char>)
    ensures
        fields_of(field_apply(st, "X-LAMP-FOLLOW-UP"@, v)) == (ScanFields { lamp_follow_up: ical_date_spec(v), ..fields_of(st) }),
        field_apply(st, "X-LAMP-FOLLOW-UP"@, v).in_vtodo == st.in_vtodo,
        field_apply(st, "X-LAMP-FOLLOW-UP"@, v).done == st.done,
{
    reveal_strlit("CATEGORIES");
    reveal_strlit("COMPLETED");
    reveal_strlit("CREATED");
    reveal_strlit("DESCRIPTION");
    reveal_strlit("DTSTART");
    reveal_strlit("DUE");
    reveal_strlit("PRIORITY");
    reveal_strlit("STATUS");
    reveal_strlit("SUMMARY");
    reveal_strlit("UID");
    reveal_strlit("X-LAMP-DELEGATED");
    reveal_strlit("X-LAMP-ESC");
    reveal_strlit("X-LAMP-FOLLOW-UP");
    reveal_strlit("X-LAMP-PROJECT");
    reveal_strlit("X-LAMP-STATE");
    reveal_strlit("X-LAMP-WAITING-FOR");
    assert("X-LAMP-FOLLOW-UP"@ != "UID"@) by { assert("X-LAMP-FOLLOW-UP"@.len() == 16); assert("UID"@.len() == 3); }
    assert("X-LAMP-FOLLOW-UP"@ != "SUMMARY"@) by { assert("X-LAMP-FOLLOW-UP"@.len() == 16); assert("SUMMARY"@.len() == 7); }
    assert("X-LAMP-FOLLOW-UP"@ != "STATUS"@) by { assert("X-LAMP-FOLLOW-UP"@.len() == 16); assert("STATUS"@.len() == 6); }
    assert("X-LAMP-FOLLOW-UP"@ != "PRIORITY"@) by { assert("X-LAMP-FOLLOW-UP"@.len() == 16); assert("PRIORITY"@.len() == 8); }
    assert("X-LAMP-FOLLOW-UP"@ != "CATEGORIES"@) by { assert("X-LAMP-FOLLOW-UP"@.len() == 16); assert("CATEGORIES"@.len() == 10); }
    assert("X-LAMP-FOLLOW-UP"@ != "DTSTART"@) by { assert("X-LAMP-FOLLOW-UP"@.len() == 16); assert("DTSTART"@.len() == 7); }
    assert("X-LAMP-FOLLOW-UP"@ != "DUE"@) by { assert("X-LAMP-FOLLOW-UP"@.len() == 16); assert("DUE"@.len() == 3); }
    assert("X-LAMP-FOLLOW-UP"@ != "DESCRIPTION"@) by { assert("X-LAMP-FOLLOW-UP"@.len() == 16); assert("DESCRIPTION"@.len() == 11); }
    assert("X-LAMP-FOLLOW-UP"@ != "CREATED"@) by { assert("X-LAMP-FOLLOW-UP"@.len() == 16); assert("CREATED"@.len() == 7); }
    assert("X-LAMP-FOLLOW-UP"@ != "COMPLETED"@) by { assert("X-LAMP-FOLLOW-UP"@.len() == 16); assert("COMPLETED"@.len() == 9); }
    assert("X-LAMP-FOLLOW-UP"@ != "X-LAMP-STATE"@) by { assert("X-LAMP-FOLLOW-UP"@.len() == 16); assert("X-LAMP-STATE"@.len() == 12); }
    assert("X-LAMP-FOLLOW-UP"@ != "X-LAMP-PROJECT"@) by { assert("X-LAMP-FOLLOW-UP"@.len() == 16); assert("X-LAMP-PROJECT"@.len() == 14); }
    assert("X-LAMP-FOLLOW-UP"@ != "X-LAMP-WAITING-FOR"@) by { assert("X-LAMP-FOLLOW-UP"@.len() == 16); assert("X-LAMP-WAITING-FOR"@.len() == 18); }
    assert("X-LAMP-FOLLOW-UP"@ != "X-LAMP-ESC"@) by { assert("X-LAMP-FOLLOW-UP"@.len() == 16); assert("X-LAMP-ESC"@.len() == 10); }
    assert("X-LAMP-FOLLOW-UP"@ != "X-LAMP-DELEGATED"@) by { assert("X-LAMP-FOLLOW-UP"@[7] == 'F'); assert("X-LAMP-DELEGATED"@[7] == 'D'); }
}

proof fn lemma_fa_x_lamp_recurrence(st: VtodoScan, v: Seq<char>)
    ensures
        fields_of(field_apply(st, "X-LAMP-RECURRENCE"@, v)) == (ScanFields { lamp_recurrence: Some(v), ..fields_of(st) }),
        field_apply(st, "X-LAMP-RECURRENCE"@, v).in_vtodo == st.in_vtodo,
        field_apply(st, "X-LAMP-RECURRENCE"@, v).done == st.done,
{
    reveal_strlit("CATEGORIES");
    reveal_strlit("COMPLETED");
    reveal_strlit("CREATED");
    reveal_strlit("DESCRIPTION");
    reveal_strlit("DTSTART");
    reveal_strlit("DUE");
    reveal_strlit("PRIORITY");
    reveal_strlit("STATUS");
    reveal_strlit("SUMMARY");
    reveal_strlit("UID");
    reveal_strlit("X-LAMP-DELEGATED");
    reveal_strlit("X-LAMP-ESC");
    reveal_strlit("X-LAMP-FOLLOW-UP");
    reveal_strlit("X-LAMP-PROJECT");
    reveal_strlit("X-LAMP-RECURRENCE");
    reveal_strlit("X-LAMP-STATE");
    reveal_strlit("X-LAMP-WAITING-FOR");
    assert("X-LAMP-RECURRENCE"@ != "UID"@) by { assert("X-LAMP-RECURRENCE"@.len() == 17); assert("UID"@.len() == 3); }
    assert("X-LAMP-RECURRENCE"@ != "SUMMARY"@) by { assert("X-LAMP-RECURRENCE"@.len() == 17); assert("SUMMARY"@.len() == 7); }
    assert("X-LAMP-RECURRENCE"@ != "STATUS"@) by { assert("X-LAMP-RECURRENCE"@.len() == 17); assert("STATUS"@.len() == 6); }
    assert("X-LAMP-RECURRENCE"@ != "PRIORITY"@) by { assert("X-LAMP-RECURRENCE"@.len() == 17); assert("PRIORITY"@.len() == 8); }
    assert("X-LAMP-RECURRENCE"@ != "CATEGORIES"@) by { assert("X-LAMP-RECURRENCE"@.len() == 17); assert("CATEGORIES"@.len() == 10); }
    assert("X-LAMP-RECURRENCE"@ != "DTSTART"@) by { assert("X-LAMP-RECURRENCE"@.len() == 17); assert("DTSTART"@.len() == 7); }
    assert("X-LAMP-RECURRENCE"@ != "DUE"@) by { assert("X-LAMP-RECURRENCE"@.len() == 17); assert("DUE"@.len() == 3); }
    assert("X-LAMP-RECURRENCE"@ != "DESCRIPTION"@) by { assert("X-LAMP-RECURRENCE"@.len() == 17); assert("DESCRIPTION"@.len() == 11); }
    assert("X-LAMP-RECURRENCE"@ != "CREATED"@) by { assert("X-LAMP-RECURRENCE"@.len() == 17); assert("CREATED"@.len() == 7); }
    assert("X-LAMP-RECURRENCE"@ != "COMPLETED"@) by { assert("X-LAMP-RECURRENCE"@.len() == 17); assert("COMPLETED"@.len() == 9); }
    assert("X-LAMP-RECURRENCE"@ != "X-LAMP-STATE"@) by { assert("X-LAMP-RECURRENCE"@.len() == 17); assert("X-LAMP-STATE"@.len() == 12); }
    assert("X-LAMP-RECURRENCE"@ != "X-LAMP-PROJECT"@) by { assert("X-LAMP-RECURRENCE"@.len() == 17); assert("X-LAMP-PROJECT"@.len() == 14); }
    assert("X-LAMP-RECURRENCE"@ != "X-LAMP-WAITING-FOR"@) by { assert("X-LAMP-RECURRENCE"@.len() == 17); assert("X-LAMP-WAITING-FOR"@.len() == 18); }
    assert("X-LAMP-RECURRENCE"@ != "X-LAMP-ESC"@) by { assert("X-LAMP-RECURRENCE"@.len() == 17); assert("X-LAMP-ESC"@.len() == 10); }
    assert("X-LAMP-RECURRENCE"@ != "X-LAMP-DELEGATED"@) by { assert("X-LAMP-RECURRENCE"@.len() == 17); assert("X-LAMP-DELEGATED"@.len() == 16); }
    assert("X-LAMP-RECURRENCE"@ != "X-LAMP-FOLLOW-UP"@) by { assert("X-LAMP-RECURRENCE"@.len() == 17); assert("X-LAMP-FOLLOW-UP"@.len() == 16); }
}

proof fn lemma_fa_x_lamp_logbook(st: VtodoScan, v: Seq<char>)
    ensures
        fields_of(field_apply(st, "X-LAMP-LOGBOOK"@, v)) == fields_of(st),
        field_apply(st, "X-LAMP-LOGBOOK"@, v).in_vtodo == st.in_vtodo,
        field_apply(st, "X-LAMP-LOGBOOK"@, v).done == st.done,
{
    reveal_strlit("CATEGORIES");
    reveal_strlit("COMPLETED");
    reveal_strlit("CREATED");
    reveal_strlit("DESCRIPTION");
    reveal_strlit("DTSTART");
    reveal_strlit("DUE");
    reveal_strlit("PRIORITY");
    reveal_strlit("STATUS");
    reveal_strlit("SUMMARY");
    reveal_strlit("UID");
    reveal_strlit("X-LAMP-DELEGATED");
    reveal_strlit("X-LAMP-ESC");
    reveal_strlit("X-LAMP-FOLLOW-UP");
    reveal_strlit("X-LAMP-LOGBOOK");
    reveal_strlit("X-LAMP-PROJECT");
    reveal_strlit("X-LAMP-RECURRENCE");
    reveal_strlit("X-LAMP-STATE");
    reveal_strlit("X-LAMP-WAITING-FOR");
    assert("X-LAMP-LOGBOOK"@ != "UID"@) by { assert("X-LAMP-LOGBOOK"@.len() == 14); assert("UID"@.len() == 3); }
    assert("X-LAMP-LOGBOOK"@ != "SUMMARY"@) by { assert("X-LAMP-LOGBOOK"@.len() == 14); assert("SUMMARY"@.len() == 7); }
    assert("X-LAMP-LOGBOOK"@ != "STATUS"@) by { assert("X-LAMP-LOGBOOK"@.len() == 14); assert("STATUS"@.len() == 6); }
    assert("X-LAMP-LOGBOOK"@ != "PRIORITY"@) by { assert("X-LAMP-LOGBOOK"@.len() == 14); assert("PRIORITY"@.len() == 8); }
    assert("X-LAMP-LOGBOOK"@ != "CATEGORIES"@) by { assert("X-LAMP-LOGBOOK"@.len() == 14); assert("CATEGORIES"@.len() == 10); }
    assert("X-LAMP-LOGBOOK"@ != "DTSTART"@) by { assert("X-LAMP-LOGBOOK"@.len() == 14); assert("DTSTART"@.len() == 7); }
    assert("X-LAMP-LOGBOOK"@ != "DUE"@) by { assert("X-LAMP-LOGBOOK"@.len() == 14); assert("DUE"@.len() == 3); }
    assert("X-LAMP-LOGBOOK"@ != "DESCRIPTION"@) by { assert("X-LAMP-LOGBOOK"@.len() == 14); assert("DESCRIPTION"@.len() == 11); }
    assert("X-LAMP-LOGBOOK"@ != "CREATED"@) by { assert("X-LAMP-LOGBOOK"@.len() == 14); assert("CREATED"@.len() == 7); }
    assert("X-LAMP-LOGBOOK"@ != "COMPLETED"@) by { assert("X-LAMP-LOGBOOK"@.len() == 14); assert("COMPLETED"@.len() == 9); }
    assert("X-LAMP-LOGBOOK"@ != "X-LAMP-STATE"@) by { assert("X-LAMP-LOGBOOK"@.len() == 14); assert("X-LAMP-STATE"@.len() == 12); }
    assert("X-LAMP-LOGBOOK"@ != "X-LAMP-PROJECT"@) by { assert("X-LAMP-LOGBOOK"@[7] == 'L'); assert("X-LAMP-PROJECT"@[7] == 'P'); }
    assert("X-LAMP-LOGBOOK"@ != "X-LAMP-WAITING-FOR"@) by { assert("X-LAMP-LOGBOOK"@.len() == 14); assert("X-LAMP-WAITING-FOR"@.len() == 18); }
    assert("X-LAMP-LOGBOOK"@ != "X-LAMP-ESC"@) by { assert("X-LAMP-LOGBOOK"@.len() == 14); assert("X-LAMP-ESC"@.len() == 10); }
    assert("X-LAMP-LOGBOOK"@ != "X-LAMP-DELEGATED"@) by { assert("X-LAMP-LOGBOOK"@.len() == 14); assert("X-LAMP-DELEGATED"@.len() == 16); }
    assert("X-LAMP-LOGBOOK"@ != "X-LAMP-FOLLOW-UP"@) by { assert("X-LAMP-LOGBOOK"@.len() == 14); assert("X-LAMP-FOLLOW-UP"@.len() == 16); }
    assert("X-LAMP-LOGBOOK"@ != "X-LAMP-RECURRENCE"@) by { assert("X-LAMP-LOGBOOK"@.len() == 14); assert("X-LAMP-RECURRENCE"@.len() == 17); }
}

proof fn lemma_fa_x_lamp_clock(st: VtodoScan, v: Seq<char>)
    ensures
        fields_of(field_apply(st, "X-LAMP-CLOCK"@, v)) == fields_of(st),
        field_apply(st, "X-LAMP-CLOCK"@, v).in_vtodo == st.in_vtodo,
        field_apply(st, "X-LAMP-CLOCK"@, v).done == st.done,
{
    reveal_strlit("CATEGORIES");
    reveal_strlit("COMPLETED");
    reveal_strlit("CREATED");
    reveal_strlit("DESCRIPTION");
    reveal_strlit("DTSTART");
    reveal_strlit("DUE");
    reveal_strlit("PRIORITY");
    reveal_strlit("STATUS");
    reveal_strlit("SUMMARY");
    reveal_strlit("UID");
    reveal_strlit("X-LAMP-CLOCK");
    reveal_strlit("X-LAMP-DELEGATED");
    reveal_strlit("X-LAMP-ESC");
    reveal_strlit("X-LAMP-FOLLOW-UP");
    reveal_strlit("X-LAMP-LOGBOOK");
    reveal_strlit("X-LAMP-PROJECT");
    reveal_strlit("X-LAMP-RECURRENCE");
    reveal_strlit("X-LAMP-STATE");
    reveal_strlit("X-LAMP-WAITING-FOR");
    assert("X-LAMP-CLOCK"@ != "UID"@) by { assert("X-LAMP-CLOCK"@.len() == 12); assert("UID"@.len() == 3); }
    assert("X-LAMP-CLOCK"@ != "SUMMARY"@) by { assert("X-LAMP-CLOCK"@.len() == 12); assert("SUMMARY"@.len() == 7); }
    assert("X-LAMP-CLOCK"@ != "STATUS"@) by { assert("X-LAMP-CLOCK"@.len() == 12); assert("STATUS"@.len() == 6); }
    assert("X-LAMP-CLOCK"@ != "PRIORITY"@) by { assert("X-LAMP-CLOCK"@.len() == 12); assert("PRIORITY"@.len() == 8); }
    assert("X-LAMP-CLOCK"@ != "CATEGORIES"@) by { assert("X-LAMP-CLOCK"@.len() == 12); assert("CATEGORIES"@.len() == 10); }
    assert("X-LAMP-CLOCK"@ != "DTSTART"@) by { assert("X-LAMP-CLOCK"@.len() == 12); assert("DTSTART"@.len() == 7); }
    assert("X-LAMP-CLOCK"@ != "DUE"@) by { assert("X-LAMP-CLOCK"@.len() == 12); assert("DUE"@.len() == 3); }
    assert("X-LAMP-CLOCK"@ != "DESCRIPTION"@) by { assert("X-LAMP-CLOCK"@.len() == 12); assert("DESCRIPTION"@.len() == 11); }
    assert("X-LAMP-CLOCK"@ != "CREATED"@) by { assert("X-LAMP-CLOCK"@.len() == 12); assert("CREATED"@.len() == 7); }
    assert("X-LAMP-CLOCK"@ != "COMPLETED"@) by { assert("X-LAMP-CLOCK"@.len() == 12); assert("COMPLETED"@.len() == 9); }
    assert("X-LAMP-CLOCK"@ != "X-LAMP-STATE"@) by { assert("X-LAMP-CLOCK"@[7] == 'C'); assert("X-LAMP-STATE"@[7] == 'S'); }
    assert("X-LAMP-CLOCK"@ != "X-LAMP-PROJECT"@) by { assert("X-LAMP-CLOCK"@.len() == 12); assert("X-LAMP-PROJECT"@.len() == 14); }
    assert("X-LAMP-CLOCK"@ != "X-LAMP-WAITING-FOR"@) by { assert("X-LAMP-CLOCK"@.len() == 12); assert("X-LAMP-WAITING-FOR"@.len() == 18); }
    assert("X-LAMP-CLOCK"@ != "X-LAMP-ESC"@) by { assert("X-LAMP-CLOCK"@.len() == 12); assert("X-LAMP-ESC"@.len() == 10); }
    assert("X-LAMP-CLOCK"@ != "X-LAMP-DELEGATED"@) by { assert("X-LAMP-CLOCK"@.len() == 12); assert("X-LAMP-DELEGATED"@.len() == 16); }
    assert("X-LAMP-CLOCK"@ != "X-LAMP-FOLLOW-UP"@) by { assert("X-LAMP-CLOCK"@.len() == 12); assert("X-LAMP-FOLLOW-UP"@.len() == 16); }
    assert("X-LAMP-CLOCK"@ != "X-LAMP-RECURRENCE"@) by { assert("X-LAMP-CLOCK"@.len() == 12); assert("X-LAMP-RECURRENCE"@.len() == 17); }
    assert("X-LAMP-CLOCK"@ != "X-LAMP-LOGBOOK"@) by { assert("X-LAMP-CLOCK"@.len() == 12); assert("X-LAMP-LOGBOOK"@.len() == 14); }
}

proof fn lemma_fa_x_lamp_tags(st: VtodoScan, v: Seq<char>)
    ensures
        fields_of(field_apply(st, "X-LAMP-TAGS"@, v)) == fields_of(st),
        field_apply(st, "X-LAMP-TAGS"@, v).in_vtodo == st.in_vtodo,
        field_apply(st, "X-LAMP-TAGS"@, v).done == st.done,
{
    reveal_strlit("CATEGORIES");
    reveal_strlit("COMPLETED");
    reveal_strlit("CREATED");
    reveal_strlit("DESCRIPTION");
    reveal_strlit("DTSTART");
    reveal_strlit("DUE");
    reveal_strlit("PRIORITY");
    reveal_strlit("STATUS");
    reveal_strlit("SUMMARY");
    reveal_strlit("UID");
    reveal_strlit("X-LAMP-CLOCK");
    reveal_strlit("X-LAMP-DELEGATED");
    reveal_strlit("X-LAMP-ESC");
    reveal_strlit("X-LAMP-FOLLOW-UP");
    reveal_strlit("X-LAMP-LOGBOOK");
    reveal_strlit("X-LAMP-PROJECT");
    reveal_strlit("X-LAMP-RECURRENCE");
    reveal_strlit("X-LAMP-STATE");
    reveal_strlit("X-LAMP-TAGS");
    reveal_strlit("X-LAMP-WAITING-FOR");
    assert("X-LAMP-TAGS"@ != "UID"@) by { assert("X-LAMP-TAGS"@.len() == 11); assert("UID"@.len() == 3); }
    assert("X-LAMP-TAGS"@ != "SUMMARY"@) by { assert("X-LAMP-TAGS"@.len() == 11); assert("SUMMARY"@.len() == 7); }
    assert("X-LAMP-TAGS"@ != "STATUS"@) by { assert("X-LAMP-TAGS"@.len() == 11); assert("STATUS"@.len() == 6); }
    assert("X-LAMP-TAGS"@ != "PRIORITY"@) by { assert("X-LAMP-TAGS"@.len() == 11); assert("PRIORITY"@.len() == 8); }
    assert("X-LAMP-TAGS"@ != "CATEGORIES"@) by { assert("X-LAMP-TAGS"@.len() == 11); assert("CATEGORIES"@.len() == 10); }
    assert("X-LAMP-TAGS"@ != "DTSTART"@) by { assert("X-LAMP-TAGS"@.len() == 11); assert("DTSTART"@.len() == 7); }
    assert("X-LAMP-TAGS"@ != "DUE"@) by { assert("X-LAMP-TAGS"@.len() == 11); assert("DUE"@.len() == 3); }
    assert("X-LAMP-TAGS"@ != "DESCRIPTION"@) by { assert("X-LAMP-TAGS"@[0] == 'X'); assert("DESCRIPTION"@[0] == 'D'); }
    assert("X-LAMP-TAGS"@ != "CREATED"@) by { assert("X-LAMP-TAGS"@.len() == 11); assert("CREATED"@.len() == 7); }
    assert("X-LAMP-TAGS"@ != "COMPLETED"@) by { assert("X-LAMP-TAGS"@.len() == 11); assert("COMPLETED"@.len() == 9); }
    assert("X-LAMP-TAGS"@ != "X-LAMP-STATE"@) by { assert("X-LAMP-TAGS"@.len() == 11); assert("X-LAMP-STATE"@.len() == 12); }
    assert("X-LAMP-TAGS"@ != "X-LAMP-PROJECT"@) by { assert("X-LAMP-TAGS"@.len() == 11); assert("X-LAMP-PROJECT"@.len() == 14); }
    assert("X-LAMP-TAGS"@ != "X-LAMP-WAITING-FOR"@) by { assert("X-LAMP-TAGS"@.len() == 11); assert("X-LAMP-WAITING-FOR"@.len() == 18); }
    assert("X-LAMP-TAGS"@ != "X-LAMP-ESC"@) by { assert("X-LAMP-TAGS"@.len() == 11); assert("X-LAMP-ESC"@.len() == 10); }
    assert("X-LAMP-TAGS"@ != "X-LAMP-DELEGATED"@) by { assert("X-LAMP-TAGS"@.len() == 11); assert("X-LAMP-DELEGATED"@.len() == 16); }
    assert("X-LAMP-TAGS"@ != "X-LAMP-FOLLOW-UP"@) by { assert("X-LAMP-TAGS"@.len() == 11); assert("X-LAMP-FOLLOW-UP"@.len() == 16); }
    assert("X-LAMP-TAGS"@ != "X-LAMP-RECURRENCE"@) by { assert("X-LAMP-TAGS"@.len() == 11); assert("X-LAMP-RECURRENCE"@.len() == 17); }
    assert("X-LAMP-TAGS"@ != "X-LAMP-LOGBOOK"@) by { assert("X-LAMP-TAGS"@.len() == 11); assert("X-LAMP-LOGBOOK"@.len() == 14); }
    assert("X-LAMP-TAGS"@ != "X-LAMP-CLOCK"@) by { assert("X-LAMP-TAGS"@.len() == 11); assert("X-LAMP-CLOCK"@.len() == 12); }
}

proof fn lemma_fa_x_lamp_dayplan(st: VtodoScan, v: Seq<char>)
    ensures
        fields_of(field_apply(st, "X-LAMP-DAYPLAN"@, v)) == fields_of(st),
        field_apply(st, "X-LAMP-DAYPLAN"@, v).in_vtodo == st.in_vtodo,
        field_apply(st, "X-LAMP-DAYPLAN"@, v).done == st.done,
{
    reveal_strlit("CATEGORIES");
    reveal_strlit("COMPLETED");
    reveal_strlit("CREATED");
    reveal_strlit("DESCRIPTION");
    reveal_strlit("DTSTART");
    reveal_strlit("DUE");
    reveal_strlit("PRIORITY");
    reveal_strlit("STATUS");
    reveal_strlit("SUMMARY");
    reveal_strlit("UID");
    reveal_strlit("X-LAMP-CLOCK");
    reveal_strlit("X-LAMP-DAYPLAN");
    reveal_strlit("X-LAMP-DELEGATED");
    reveal_strlit("X-LAMP-ESC");
    reveal_strlit("X-LAMP-FOLLOW-UP");
    reveal_strlit("X-LAMP-LOGBOOK");
    reveal_strlit("X-LAMP-PROJECT");
    reveal_strlit("X-LAMP-RECURRENCE");
    reveal_strlit("X-LAMP-STATE");
    reveal_strlit("X-LAMP-TAGS");
    reveal_strlit("X-LAMP-WAITING-FOR");
    assert("X-LAMP-DAYPLAN"@ != "UID"@) by { assert("X-LAMP-DAYPLAN"@.len() == 14); assert("UID"@.len() == 3); }
    assert("X-LAMP-DAYPLAN"@ != "SUMMARY"@) by { assert("X-LAMP-DAYPLAN"@.len() == 14); assert("SUMMARY"@.len() == 7); }
    assert("X-LAMP-DAYPLAN"@ != "STATUS"@) by { assert("X-LAMP-DAYPLAN"@.len() == 14); assert("STATUS"@.len() == 6); }
    assert("X-LAMP-DAYPLAN"@ != "PRIORITY"@) by { assert("X-LAMP-DAYPLAN"@.len() == 14); assert("PRIORITY"@.len() == 8); }
    assert("X-LAMP-DAYPLAN"@ != "CATEGORIES"@) by { assert("X-LAMP-DAYPLAN"@.len() == 14); assert("CATEGORIES"@.len() == 10); }
    assert("X-LAMP-DAYPLAN"@ != "DTSTART"@) by { assert("X-LAMP-DAYPLAN"@.len() == 14); assert("DTSTART"@.len() == 7); }
    assert("X-LAMP-DAYPLAN"@ != "DUE"@) by { assert("X-LAMP-DAYPLAN"@.len() == 14); assert("DUE"@.len() == 3); }
    assert("X-LAMP-DAYPLAN"@ != "DESCRIPTION"@) by { assert("X-LAMP-DAYPLAN"@.len() == 14); assert("DESCRIPTION"@.len() == 11); }
    assert("X-LAMP-DAYPLAN"@ != "CREATED"@) by { assert("X-LAMP-DAYPLAN"@.len() == 14); assert("CREATED"@.len() == 7); }
    assert("X-LAMP-DAYPLAN"@ != "COMPLETED"@) by { assert("X-LAMP-DAYPLAN"@.len() == 14); assert("COMPLETED"@.len() == 9); }
    assert("X-LAMP-DAYPLAN"@ != "X-LAMP-STATE"@) by { assert("X-LAMP-DAYPLAN"@.len() == 14); assert("X-LAMP-STATE"@.len() == 12); }
    assert("X-LAMP-DAYPLAN"@ != "X-LAMP-PROJECT"@) by { assert("X-LAMP-DAYPLAN"@[7] == 'D'); assert("X-LAMP-PROJECT"@[7] == 'P'); }
    assert("X-LAMP-DAYPLAN"@ != "X-LAMP-WAITING-FOR"@) by { assert("X-LAMP-DAYPLAN"@.len() == 14); assert("X-LAMP-WAITING-FOR"@.len() == 18); }
    assert("X-LAMP-DAYPLAN"@ != "X-LAMP-ESC"@) by { assert("X-LAMP-DAYPLAN"@.len() == 14); assert("X-LAMP-ESC"@.len() == 10); }
    assert("X-LAMP-DAYPLAN"@ != "X-LAMP-DELEGATED"@) by { assert("X-LAMP-DAYPLAN"@.len() == 14); assert("X-LAMP-DELEGATED"@.len() == 16); }
    assert("X-LAMP-DAYPLAN"@ != "X-LAMP-FOLLOW-UP"@) by { assert("X-LAMP-DAYPLAN"@.len() == 14); assert("X-LAMP-FOLLOW-UP"@.len() == 16); }
    assert("X-LAMP-DAYPLAN"@ != "X-LAMP-RECURRENCE"@) by { assert("X-LAMP-DAYPLAN"@.len() == 14); assert("X-LAMP-RECURRENCE"@.len() == 17); }
    assert("X-LAMP-DAYPLAN"@ != "X-LAMP-LOGBOOK"@) by { assert("X-LAMP-DAYPLAN"@[7] == 'D'); assert("X-LAMP-LOGBOOK"@[7] == 'L'); }
    assert("X-LAMP-DAYPLAN"@ != "X-LAMP-CLOCK"@) by { assert("X-LAMP-DAYPLAN"@.len() == 14); assert("X-LAMP-CLOCK"@.len() == 12); }
    assert("X-LAMP-DAYPLAN"@ != "X-LAMP-TAGS"@) by { assert("X-LAMP-DAYPLAN"@.len() == 14); assert("X-LAMP-TAGS"@.len() == 11); }
}

proof fn lemma_fa_percent_complete(st: VtodoScan, v: Seq<char>)
    ensures
        fields_of(field_apply(st, "PERCENT-COMPLETE"@, v)) == fields_of(st),
        field_apply(st, "PERCENT-COMPLETE"@, v).in_vtodo == st.in_vtodo,
        field_apply(st, "PERCENT-COMPLETE"@, v).done == st.done,
{
    reveal_strlit("CATEGORIES");
    reveal_strlit("COMPLETED");
    reveal_strlit("CREATED");
    reveal_strlit("DESCRIPTION");
    reveal_strlit("DTSTART");
    reveal_strlit("DUE");
    reveal_strlit("PERCENT-COMPLETE");
    reveal_strlit("PRIORITY");
    reveal_strlit("STATUS");
    reveal_strlit("SUMMARY");
    reveal_strlit("UID");
    reveal_strlit("X-LAMP-CLOCK");
    reveal_strlit("X-LAMP-DAYPLAN");
    reveal_strlit("X-LAMP-DELEGATED");
    reveal_strlit("X-LAMP-ESC");
    reveal_strlit("X-LAMP-FOLLOW-UP");
    reveal_strlit("X-LAMP-LOGBOOK");
    reveal_strlit("X-LAMP-PROJECT");
    reveal_strlit("X-LAMP-RECURRENCE");
    reveal_strlit("X-LAMP-STATE");
    reveal_strlit("X-LAMP-TAGS");
    reveal_strlit("X-LAMP-WAITING-FOR");
    assert("PERCENT-COMPLETE"@ != "UID"@) by { assert("PERCENT-COMPLETE"@.len() == 16); assert("UID"@.len() == 3); }
    assert("PERCENT-COMPLETE"@ != "SUMMARY"@) by { assert("PERCENT-COMPLETE"@.len() == 16); assert("SUMMARY"@.len() == 7); }
    assert("PERCENT-COMPLETE"@ != "STATUS"@) by { assert("PERCENT-COMPLETE"@.len() == 16); assert("STATUS"@.len() == 6); }
    assert("PERCENT-COMPLETE"@ != "PRIORITY"@) by { assert("PERCENT-COMPLETE"@.len() == 16); assert("PRIORITY"@.len() == 8); }
    assert("PERCENT-COMPLETE"@ != "CATEGORIES"@) by { assert("PERCENT-COMPLETE"@.len() == 16); assert("CATEGORIES"@.len() == 10); }
    assert("PERCENT-COMPLETE"@ != "DTSTART"@) by { assert("PERCENT-COMPLETE"@.len() == 16); assert("DTSTART"@.len() == 7); }
    assert("PERCENT-COMPLETE"@ != "DUE"@) by { assert("PERCENT-COMPLETE"@.len() == 16); assert("DUE"@.len() == 3); }
    assert("PERCENT-COMPLETE"@ != "DESCRIPTION"@) by { assert("PERCENT-COMPLETE"@.len() == 16); assert("DESCRIPTION"@.len() == 11); }
    assert("PERCENT-COMPLETE"@ != "CREATED"@) by { assert("PERCENT-COMPLETE"@.len() == 16); assert("CREATED"@.len() == 7); }
    assert("PERCENT-COMPLETE"@ != "COMPLETED"@) by { assert("PERCENT-COMPLETE"@.len() == 16); assert("COMPLETED"@.len() == 9); }
    assert("PERCENT-COMPLETE"@ != "X-LAMP-STATE"@) by { assert("PERCENT-COMPLETE"@.len() == 16); assert("X-LAMP-STATE"@.len() == 12); }
    assert("PERCENT-COMPLETE"@ != "X-LAMP-PROJECT"@) by { assert("PERCENT-COMPLETE"@.len() == 16); assert("X-LAMP-PROJECT"@.len() == 14); }
    assert("PERCENT-COMPLETE"@ != "X-LAMP-WAITING-FOR"@) by { assert("PERCENT-COMPLETE"@.len() == 16); assert("X-LAMP-WAITING-FOR"@.len() == 18); }
    assert("PERCENT-COMPLETE"@ != "X-LAMP-ESC"@) by { assert("PERCENT-COMPLETE"@.len() == 16); assert("X-LAMP-ESC"@.len() == 10); }
    assert("PERCENT-COMPLETE"@ != "X-LAMP-DELEGATED"@) by { assert("PERCENT-COMPLETE"@[0] == 'P'); assert("X-LAMP-DELEGATED"@[0] == 'X'); }
    assert("PERCENT-COMPLETE"@ != "X-LAMP-FOLLOW-UP"@) by { assert("PERCENT-COMPLETE"@[0] == 'P'); assert("X-LAMP-FOLLOW-UP"@[0] == 'X'); }
    assert("PERCENT-COMPLETE"@ != "X-LAMP-RECURRENCE"@) by { assert("PERCENT-COMPLETE"@.len() == 16); assert("X-LAMP-RECURRENCE"@.len() == 17); }
    assert("PERCENT-COMPLETE"@ != "X-LAMP-LOGBOOK"@) by { assert("PERCENT-COMPLETE"@.len() == 16); assert("X-LAMP-LOGBOOK"@.len() == 14); }
    assert("PERCENT-COMPLETE"@ != "X-LAMP-CLOCK"@) by { assert("PERCENT-COMPLETE"@.len() == 16); assert("X-LAMP-CLOCK"@.len() == 12); }
    assert("PERCENT-COMPLETE"@ != "X-LAMP-TAGS"@) by { assert("PERCENT-COMPLETE"@.len() == 16); assert("X-LAMP-TAGS"@.len() == 11); }
    assert("PERCENT-COMPLETE"@ != "X-LAMP-DAYPLAN"@) by { assert("PERCENT-COMPLETE"@.len() == 16); assert("X-LAMP-DAYPLAN"@.len() == 14); }
}

proof fn lemma_fa_last_modified(st: VtodoScan, v: Seq<char>)
    ensures
        fields_of(field_apply(st, "LAST-MODIFIED"@, v)) == fields_of(st),
        field_apply(st, "LAST-MODIFIED"@, v).in_vtodo == st.in_vtodo,
        field_apply(st, "LAST-MODIFIED"@, v).done == st.done,
{
    reveal_strlit("CATEGORIES");
    reveal_strlit("COMPLETED");
    reveal_strlit("CREATED");
    reveal_strlit("DESCRIPTION");
    reveal_strlit("DTSTART");
    reveal_strlit("DUE");
    reveal_strlit("LAST-MODIFIED");
    reveal_strlit("PRIORITY");
    reveal_strlit("STATUS");
    reveal_strlit("SUMMARY");
    reveal_strlit("UID");
    reveal_strlit("X-LAMP-CLOCK");
    reveal_strlit("X-LAMP-DAYPLAN");
    reveal_strlit("X-LAMP-DELEGATED");
    reveal_strlit("X-LAMP-ESC");
    reveal_strlit("X-LAMP-FOLLOW-UP");
    reveal_strlit("X-LAMP-LOGBOOK");
    reveal_strlit("X-LAMP-PROJECT");
    reveal_strlit("X-LAMP-RECURRENCE");
    reveal_strlit("X-LAMP-STATE");
    reveal_strlit("X-LAMP-TAGS");
    reveal_strlit("X-LAMP-WAITING-FOR");
    assert("LAST-MODIFIED"@ != "UID"@) by { assert("LAST-MODIFIED"@.len() == 13); assert("UID"@.len() == 3); }
    assert("LAST-MODIFIED"@ != "SUMMARY"@) by { assert("LAST-MODIFIED"@.len() == 13); assert("SUMMARY"@.len() == 7); }
    assert("LAST-MODIFIED"@ != "STATUS"@) by { assert("LAST-MODIFIED"@.len() == 13); assert("STATUS"@.len() == 6); }
    assert("LAST-MODIFIED"@ != "PRIORITY"@) by { assert("LAST-MODIFIED"@.len() == 13); assert("PRIORITY"@.len() == 8); }
    assert("LAST-MODIFIED"@ != "CATEGORIES"@) by { assert("LAST-MODIFIED"@.len() == 13); assert("CATEGORIES"@.len() == 10); }
    assert("LAST-MODIFIED"@ != "DTSTART"@) by { assert("LAST-MODIFIED"@.len() == 13); assert("DTSTART"@.len() == 7); }
    assert("LAST-MODIFIED"@ != "DUE"@) by { assert("LAST-MODIFIED"@.len() == 13); assert("DUE"@.len() == 3); }
    assert("LAST-MODIFIED"@ != "DESCRIPTION"@) by { assert("LAST-MODIFIED"@.len() == 13); assert("DESCRIPTION"@.len() == 11); }
    assert("LAST-MODIFIED"@ != "CREATED"@) by { assert("LAST-MODIFIED"@.len() == 13); assert("CREATED"@.len() == 7); }
    assert("LAST-MODIFIED"@ != "COMPLETED"@) by { assert("LAST-MODIFIED"@.len() == 13); assert("COMPLETED"@.len() == 9); }
    assert("LAST-MODIFIED"@ != "X-LAMP-STATE"@) by { assert("LAST-MODIFIED"@.len() == 13); assert("X-LAMP-STATE"@.len() == 12); }
    assert("LAST-MODIFIED"@ != "X-LAMP-PROJECT"@) by { assert("LAST-MODIFIED"@.len() == 13); assert("X-LAMP-PROJECT"@.len() == 14); }
    assert("LAST-MODIFIED"@ != "X-LAMP-WAITING-FOR"@) by { assert("LAST-MODIFIED"@.len() == 13); assert("X-LAMP-WAITING-FOR"@.len() == 18); }
    assert("LAST-MODIFIED"@ != "X-LAMP-ESC"@) by { assert("LAST-MODIFIED"@.len() == 13); assert("X-LAMP-ESC"@.len() == 10); }
    assert("LAST-MODIFIED"@ != "X-LAMP-DELEGATED"@) by { assert("LAST-MODIFIED"@.len() == 13); assert("X-LAMP-DELEGATED"@.len() == 16); }
    assert("LAST-MODIFIED"@ != "X-LAMP-FOLLOW-UP"@) by { assert("LAST-MODIFIED"@.len() == 13); assert("X-LAMP-FOLLOW-UP"@.len() == 16); }
    assert("LAST-MODIFIED"@ != "X-LAMP-RECURRENCE"@) by { assert("LAST-MODIFIED"@.len() == 13); assert("X-LAMP-RECURRENCE"@.len() == 17); }
    assert("LAST-MODIFIED"@ != "X-LAMP-LOGBOOK"@) by { assert("LAST-MODIFIED"@.len() == 13); assert("X-LAMP-LOGBOOK"@.len() == 14); }
    assert("LAST-MODIFIED"@ != "X-LAMP-CLOCK"@) by { assert("LAST-MODIFIED"@.len() == 13); assert("X-LAMP-CLOCK"@.len() == 12); }
    assert("LAST-MODIFIED"@ != "X-LAMP-TAGS"@) by { assert("LAST-MODIFIED"@.len() == 13); assert("X-LAMP-TAGS"@.len() == 11); }
    assert("LAST-MODIFIED"@ != "X-LAMP-DAYPLAN"@) by { assert("LAST-MODIFIED"@.len() == 13); assert("X-LAMP-DAYPLAN"@.len() == 14); }
}

pub proof fn lemma_group_head(st: VtodoScan, uid: Seq<char>, e: Seq<char>, stt: Seq<char>, pc: bool, pv: Seq<char>, dec: Seq<char>, hc: bool, cats: Seq<char>)
    requires
        st.in_vtodo,
        !st.done,
    ensures
        ({
            let r = scan_seq(st, seq!["UID:"@ + uid] + seq!["SUMMARY:"@ + e] + seq!["STATUS:"@ + stt] + line_if(pc, "PERCENT-COMPLETE:"@ + pv) + seq!["PRIORITY:"@ + dec] + line_if(hc, "CATEGORIES:"@ + cats));
            &&& r.in_vtodo && !r.done
            &&& fields_of(r) == (ScanFields { uid_raw: Some(trim_end(uid)), summary: unescape_spec(trim_end(e)), priority_val: parse_i32_spec(trim_end(dec)), categories: if hc { field_apply(scan_start(), "CATEGORIES"@, trim_end(cats)).categories } else { st.categories }, ..fields_of(st) })
            
        }),
{
    reveal_strlit("CATEGORIES");
    reveal_strlit("CATEGORIES:");
    reveal_strlit("COMPLETED");
    reveal_strlit("CREATED");
    reveal_strlit("DESCRIPTION");
    reveal_strlit("DTSTART");
    reveal_strlit("DUE");
    reveal_strlit("PERCENT-COMPLETE");
    reveal_strlit("PERCENT-COMPLETE:");
    reveal_strlit("PRIORITY");
    reveal_strlit("PRIORITY:");
    reveal_strlit("STATUS");
    reveal_strlit("STATUS:");
    reveal_strlit("SUMMARY");
    reveal_strlit("SUMMARY:");
    reveal_strlit("UID");
    reveal_strlit("UID:");
    reveal_strlit("X-LAMP-CLOCK");
    reveal_strlit("X-LAMP-DAYPLAN");
    reveal_strlit("X-LAMP-DELEGATED");
    reveal_strlit("X-LAMP-ESC");
    reveal_strlit("X-LAMP-FOLLOW-UP");
    reveal_strlit("X-LAMP-LOGBOOK");
    reveal_strlit("X-LAMP-PROJECT");
    reveal_strlit("X-LAMP-RECURRENCE");
    reveal_strlit("X-LAMP-STATE");
    reveal_strlit("X-LAMP-TAGS");
    reveal_strlit("X-LAMP-WAITING-FOR");
    let p0 = seq!["UID:"@ + uid];
    let p1 = seq!["SUMMARY:"@ + e];
    let p2 = seq!["STATUS:"@ + stt];
    let p3 = line_if(pc, "PERCENT-COMPLETE:"@ + pv);
    let p4 = seq!["PRIORITY:"@ + dec];
    let p5 = line_if(hc, "CATEGORIES:"@ + cats);
    let s0 = st;
    assert(plain_key("UID:"@));
    assert("UID:"@.drop_last() =~= "UID"@);
    lemma_keyed(s0, "UID:"@, uid);
    lemma_fa_uid(s0, trim_end(uid));
    let s1 = scan_seq(s0, p0);
    assert(plain_key("SUMMARY:"@));
    assert("SUMMARY:"@.drop_last() =~= "SUMMARY"@);
    lemma_keyed(s1, "SUMMARY:"@, e);
    lemma_fa_summary(s1, trim_end(e));
    let s2 = scan_seq(s1, p1);
    assert(plain_key("STATUS:"@));
    assert("STATUS:"@.drop_last() =~= "STATUS"@);
    lemma_keyed(s2, "STATUS:"@, stt);
    lemma_fa_status(s2, trim_end(stt));
    let s3 = scan_seq(s2, p2);
    assert(plain_key("PERCENT-COMPLETE:"@));
    assert("PERCENT-COMPLETE:"@.drop_last() =~= "PERCENT-COMPLETE"@);
    lemma_keyed_if(s3, pc, "PERCENT-COMPLETE:"@, pv);
    if pc { lemma_fa_percent_complete(s3, trim_end(pv)); }
    let s4 = scan_seq(s3, p3);
    assert(plain_key("PRIORITY:"@));
    assert("PRIORITY:"@.drop_last() =~= "PRIORITY"@);
    lemma_keyed(s4, "PRIORITY:"@, dec);
    lemma_fa_priority(s4, trim_end(dec));
    let s5 = scan_seq(s4, p4);
    assert(plain_key("CATEGORIES:"@));
    assert("CATEGORIES:"@.drop_last() =~= "CATEGORIES"@);
    lemma_keyed_if(s5, hc, "CATEGORIES:"@, cats);
    if hc { lemma_fa_categories(s5, trim_end(cats)); }
    let s6 = scan_seq(s5, p5);
    lemma_scan_seq_concat(st, p0, p1);
    lemma_scan_seq_concat(st, p0 + p1, p2);
    lemma_scan_seq_concat(st, p0 + p1 + p2, p3);
    lemma_scan_seq_concat(st, p0 + p1 + p2 + p3, p4);
    lemma_scan_seq_concat(st, p0 + p1 + p2 + p3 + p4, p5);
    assert(scan_seq(st, seq!["UID:"@ + uid] + seq!["SUMMARY:"@ + e] + seq!["STATUS:"@ + stt] + line_if(pc, "PERCENT-COMPLETE:"@ + pv) + seq!["PRIORITY:"@ + dec] + line_if(hc, "CATEGORIES:"@ + cats)) == s6);
}

pub proof fn lemma_group_plan(st: VtodoScan, ds: Option<Seq<char>>, du: Option<Seq<char>>, hn: bool, en: Seq<char>)
    requires
        st.in_vtodo,
        !st.done,
    ensures
        ({
            let r = scan_seq(st, opt_line("DTSTART;VALUE=DATE:"@, ds) + opt_line("DUE;VALUE=DATE:"@, du) + line_if(hn, "DESCRIPTION:"@ + en));
            &&& r.in_vtodo && !r.done
            &&& fields_of(r) == (ScanFields { dtstart: match ds { Some(x) => ical_date_spec(trim_end(x)), None => st.dtstart }, due: match du { Some(x) => ical_date_spec(trim_end(x)), None => st.due }, description: if hn { unescape_spec(trim_end(en)) } else { st.description }, ..fields_of(st) })
            
        }),
{
    reveal_strlit("CATEGORIES");
    reveal_strlit("COMPLETED");
    reveal_strlit("CREATED");
    reveal_strlit("DESCRIPTION");
    reveal_strlit("DESCRIPTION:");
    reveal_strlit("DTSTART");
    reveal_strlit("DTSTART;VALUE=DATE:");
    reveal_strlit("DUE");
    reveal_strlit("DUE;VALUE=DATE:");
    reveal_strlit("PRIORITY");
    reveal_strlit("STATUS");
    reveal_strlit("SUMMARY");
    reveal_strlit("UID");
    reveal_strlit("X-LAMP-CLOCK");
    reveal_strlit("X-LAMP-DAYPLAN");
    reveal_strlit("X-LAMP-DELEGATED");
    reveal_strlit("X-LAMP-ESC");
    reveal_strlit("X-LAMP-FOLLOW-UP");
    reveal_strlit("X-LAMP-LOGBOOK");
    reveal_strlit("X-LAMP-PROJECT");
    reveal_strlit("X-LAMP-RECURRENCE");
    reveal_strlit("X-LAMP-STATE");
    reveal_strlit("X-LAMP-TAGS");
    reveal_strlit("X-LAMP-WAITING-FOR");
    let p0 = opt_line("DTSTART;VALUE=DATE:"@, ds);
    let p1 = opt_line("DUE;VALUE=DATE:"@, du);
    let p2 = line_if(hn, "DESCRIPTION:"@ + en);
    let s0 = st;
    assert(key_colon("DTSTART;VALUE=DATE:"@));
    assert("DTSTART;VALUE=DATE:"@.take(7) =~= "DTSTART"@);
    lemma_keyed_date_opt(s0, "DTSTART;VALUE=DATE:"@, 7, ds);
    match ds { Some(x) => { lemma_fa_dtstart(s0, trim_end(x)); }, None => {}, }
    let s1 = scan_seq(s0, p0);
    assert(key_colon("DUE;VALUE=DATE:"@));
    assert("DUE;VALUE=DATE:"@.take(3) =~= "DUE"@);
    lemma_keyed_date_opt(s1, "DUE;VALUE=DATE:"@, 3, du);
    match du { Some(x) => { lemma_fa_due(s1, trim_end(x)); }, None => {}, }
    let s2 = scan_seq(s1, p1);
    assert(plain_key("DESCRIPTION:"@));
    assert("DESCRIPTION:"@.drop_last() =~= "DESCRIPTION"@);
    lemma_keyed_if(s2, hn, "DESCRIPTION:"@, en);
    if hn { lemma_fa_description(s2, trim_end(en)); }
    let s3 = scan_seq(s2, p2);
    lemma_scan_seq_concat(st, p0, p1);
    lemma_scan_seq_concat(st, p0 + p1, p2);
    assert(scan_seq(st, opt_line("DTSTART;VALUE=DATE:"@, ds) + opt_line("DUE;VALUE=DATE:"@, du) + line_if(hn, "DESCRIPTION:"@ + en)) == s3);
}

pub proof fn lemma_group_stamp(st: VtodoScan, cr: Seq<char>, co: Option<Seq<char>>, lm: Seq<char>, kw: Seq<char>)
    requires
        st.in_vtodo,
        !st.done,
    ensures
        ({
            let r = scan_seq(st, seq!["CREATED:"@ + cr] + opt_line("COMPLETED:"@, co) + seq!["LAST-MODIFIED:"@ + lm] + seq!["X-LAMP-STATE:"@ + kw]);
            &&& r.in_vtodo && !r.done
            &&& fields_of(r) == (ScanFields { created: ical_datetime_spec(trim_end(cr)), completed: match co { Some(x) => ical_datetime_spec(trim_end(x)), None => st.completed }, lamp_state: Some(trim_end(kw)), ..fields_of(st) })
            
        }),
{
    reveal_strlit("CATEGORIES");
    reveal_strlit("COMPLETED");
    reveal_strlit("COMPLETED:");
    reveal_strlit("CREATED");
    reveal_strlit("CREATED:");
    reveal_strlit("DESCRIPTION");
    reveal_strlit("DTSTART");
    reveal_strlit("DUE");
    reveal_strlit("LAST-MODIFIED");
    reveal_strlit("LAST-MODIFIED:");
    reveal_strlit("PRIORITY");
    reveal_strlit("STATUS");
    reveal_strlit("SUMMARY");
    reveal_strlit("UID");
    reveal_strlit("X-LAMP-CLOCK");
    reveal_strlit("X-LAMP-DAYPLAN");
    reveal_strlit("X-LAMP-DELEGATED");
    reveal_strlit("X-LAMP-ESC");
    reveal_strlit("X-LAMP-FOLLOW-UP");
    reveal_strlit("X-LAMP-LOGBOOK");
    reveal_strlit("X-LAMP-PROJECT");
    reveal_strlit("X-LAMP-RECURRENCE");
    reveal_strlit("X-LAMP-STATE");
    reveal_strlit("X-LAMP-STATE:");
    reveal_strlit("X-LAMP-TAGS");
    reveal_strlit("X-LAMP-WAITING-FOR");
    let p0 = seq!["CREATED:"@ + cr];
    let p1 = opt_line("COMPLETED:"@, co);
    let p2 = seq!["LAST-MODIFIED:"@ + lm];
    let p3 = seq!["X-LAMP-STATE:"@ + kw];
    let s0 = st;
    assert(plain_key("CREATED:"@));
    assert("CREATED:"@.drop_last() =~= "CREATED"@);
    lemma_keyed(s0, "CREATED:"@, cr);
    lemma_fa_created(s0, trim_end(cr));
    let s1 = scan_seq(s0, p0);
    assert(plain_key("COMPLETED:"@));
    assert("COMPLETED:"@.drop_last() =~= "COMPLETED"@);
    lemma_keyed_opt(s1, "COMPLETED:"@, co);
    match co { Some(x) => { lemma_fa_completed(s1, trim_end(x)); }, None => {}, }
    let s2 = scan_seq(s1, p1);
    assert(plain_key("LAST-MODIFIED:"@));
    assert("LAST-MODIFIED:"@.drop_last() =~= "LAST-MODIFIED"@);
    lemma_keyed(s2, "LAST-MODIFIED:"@, lm);
    lemma_fa_last_modified(s2, trim_end(lm));
    let s3 = scan_seq(s2, p2);
    assert(plain_key("X-LAMP-STATE:"@));
    assert("X-LAMP-STATE:"@.drop_last() =~= "X-LAMP-STATE"@);
    lemma_keyed(s3, "X-LAMP-STATE:"@, kw);
    lemma_fa_x_lamp_state(s3, trim_end(kw));
    let s4 = scan_seq(s3, p3);
    lemma_scan_seq_concat(st, p0, p1);
    lemma_scan_seq_concat(st, p0 + p1, p2);
    lemma_scan_seq_concat(st, p0 + p1 + p2, p3);
    assert(scan_seq(st, seq!["CREATED:"@ + cr] + opt_line("COMPLETED:"@, co) + seq!["LAST-MODIFIED:"@ + lm] + seq!["X-LAMP-STATE:"@ + kw]) == s4);
}

pub proof fn lemma_group_gtd(st: VtodoScan, pj: Option<Seq<char>>, wf: Option<Seq<char>>, es: Option<Seq<char>>)
    requires
        st.in_vtodo,
        !st.done,
    ensures
        ({
            let r = scan_seq(st, opt_line("X-LAMP-PROJECT:"@, pj) + opt_line("X-LAMP-WAITING-FOR:"@, wf) + opt_line("X-LAMP-ESC:"@, es));
            &&& r.in_vtodo && !r.done
            &&& fields_of(r) == (ScanFields { lamp_project: match pj { Some(x) => Some(unescape_spec(trim_end(x))), None => st.lamp_project }, lamp_waiting_for: match wf { Some(x) => Some(unescape_spec(trim_end(x))), None => st.lamp_waiting_for }, lamp_esc: match es { Some(x) => parse_u32_spec(trim_end(x)), None => st.lamp_esc }, ..fields_of(st) })
            
        }),
{
    reveal_strlit("CATEGORIES");
    reveal_strlit("COMPLETED");
    reveal_strlit("CREATED");
    reveal_strlit("DESCRIPTION");
    reveal_strlit("DTSTART");
    reveal_strlit("DUE");
    reveal_strlit("PRIORITY");
    reveal_strlit("STATUS");
    reveal_strlit("SUMMARY");
    reveal_strlit("UID");
    reveal_strlit("X-LAMP-CLOCK");
    reveal_strlit("X-LAMP-DAYPLAN");
    reveal_strlit("X-LAMP-DELEGATED");
    reveal_strlit("X-LAMP-ESC");
    reveal_strlit("X-LAMP-ESC:");
    reveal_strlit("X-LAMP-FOLLOW-UP");
    reveal_strlit("X-LAMP-LOGBOOK");
    reveal_strlit("X-LAMP-PROJECT");
    reveal_strlit("X-LAMP-PROJECT:");
    reveal_strlit("X-LAMP-RECURRENCE");
    reveal_strlit("X-LAMP-STATE");
    reveal_strlit("X-LAMP-TAGS");
    reveal_strlit("X-LAMP-WAITING-FOR");
    reveal_strlit("X-LAMP-WAITING-FOR:");
    let p0 = opt_line("X-LAMP-PROJECT:"@, pj);
    let p1 = opt_line("X-LAMP-WAITING-FOR:"@, wf);
    let p2 = opt_line("X-LAMP-ESC:"@, es);
    let s0 = st;
    assert(plain_key("X-LAMP-PROJECT:"@));
    assert("X-LAMP-PROJECT:"@.drop_last() =~= "X-LAMP-PROJECT"@);
    lemma_keyed_opt(s0, "X-LAMP-PROJECT:"@, pj);
    match pj { Some(x) => { lemma_fa_x_lamp_project(s0, trim_end(x)); }, None => {}, }
    let s1 = scan_seq(s0, p0);
    assert(plain_key("X-LAMP-WAITING-FOR:"@));
    assert("X-LAMP-WAITING-FOR:"@.drop_last() =~= "X-LAMP-WAITING-FOR"@);
    lemma_keyed_opt(s1, "X-LAMP-WAITING-FOR:"@, wf);
    match wf { Some(x) => { lemma_fa_x_lamp_waiting_for(s1, trim_end(x)); }, None => {}, }
    let s2 = scan_seq(s1, p1);
    assert(plain_key("X-LAMP-ESC:"@));
    assert("X-LAMP-ESC:"@.drop_last() =~= "X-LAMP-ESC"@);
    lemma_keyed_opt(s2, "X-LAMP-ESC:"@, es);
    match es { Some(x) => { lemma_fa_x_lamp_esc(s2, trim_end(x)); }, None => {}, }
    let s3 = scan_seq(s2, p2);
    lemma_scan_seq_concat(st, p0, p1);
    lemma_scan_seq_concat(st, p0 + p1, p2);
    assert(scan_seq(st, opt_line("X-LAMP-PROJECT:"@, pj) + opt_line("X-LAMP-WAITING-FOR:"@, wf) + opt_line("X-LAMP-ESC:"@, es)) == s3);
}

pub proof fn lemma_group_ext(st: VtodoScan, dg: Option<Seq<char>>, fu: Option<Seq<char>>, rc: Option<Seq<char>>)
    requires
        st.in_vtodo,
        !st.done,
    ensures
        ({
            let r = scan_seq(st, opt_line("X-LAMP-DELEGATED:"@, dg) + opt_line("X-LAMP-FOLLOW-UP:"@, fu) + opt_line("X-LAMP-RECURRENCE:"@, rc));
            &&& r.in_vtodo && !r.done
            &&& fields_of(r) == (ScanFields { lamp_delegated: match dg { Some(x) => ical_date_spec(trim_end(x)), None => st.lamp_delegated }, lamp_follow_up: match fu { Some(x) => ical_date_spec(trim_end(x)), None => st.lamp_follow_up }, lamp_recurrence: match rc { Some(x) => Some(trim_end(x)), None => st.lamp_recurrence }, ..fields_of(st) })
            
        }),
{
    reveal_strlit("CATEGORIES");
    reveal_strlit("COMPLETED");
    reveal_strlit("CREATED");
    reveal_strlit("DESCRIPTION");
    reveal_strlit("DTSTART");
    reveal_strlit("DUE");
    reveal_strlit("PRIORITY");
    reveal_strlit("STATUS");
    reveal_strlit("SUMMARY");
    reveal_strlit("UID");
    reveal_strlit("X-LAMP-CLOCK");
    reveal_strlit("X-LAMP-DAYPLAN");
    reveal_strlit("X-LAMP-DELEGATED");
    reveal_strlit("X-LAMP-DELEGATED:");
    reveal_strlit("X-LAMP-ESC");
    reveal_strlit("X-LAMP-FOLLOW-UP");
    reveal_strlit("X-LAMP-FOLLOW-UP:");
    reveal_strlit("X-LAMP-LOGBOOK");
    reveal_strlit("X-LAMP-PROJECT");
    reveal_strlit("X-LAMP-RECURRENCE");
    reveal_strlit("X-LAMP-RECURRENCE:");
    reveal_strlit("X-LAMP-STATE");
    reveal_strlit("X-LAMP-TAGS");
    reveal_strlit("X-LAMP-WAITING-FOR");
    let p0 = opt_line("X-LAMP-DELEGATED:"@, dg);
    let p1 = opt_line("X-LAMP-FOLLOW-UP:"@, fu);
    let p2 = opt_line("X-LAMP-RECURRENCE:"@, rc);
    let s0 = st;
    assert(plain_key("X-LAMP-DELEGATED:"@));
    assert("X-LAMP-DELEGATED:"@.drop_last() =~= "X-LAMP-DELEGATED"@);
    lemma_keyed_opt(s0, "X-LAMP-DELEGATED:"@, dg);
    match dg { Some(x) => { lemma_fa_x_lamp_delegated(s0, trim_end(x)); }, None => {}, }
    let s1 = scan_seq(s0, p0);
    assert(plain_key("X-LAMP-FOLLOW-UP:"@));
    assert("X-LAMP-FOLLOW-UP:"@.drop_last() =~= "X-LAMP-FOLLOW-UP"@);
    lemma_keyed_opt(s1, "X-LAMP-FOLLOW-UP:"@, fu);
    match fu { Some(x) => { lemma_fa_x_lamp_follow_up(s1, trim_end(x)); }, None => {}, }
    let s2 = scan_seq(s1, p1);
    assert(plain_key("X-LAMP-RECURRENCE:"@));
    assert("X-LAMP-RECURRENCE:"@.drop_last() =~= "X-LAMP-RECURRENCE"@);
    lemma_keyed_opt(s2, "X-LAMP-RECURRENCE:"@, rc);
    match rc { Some(x) => { lemma_fa_x_lamp_recurrence(s2, trim_end(x)); }, None => {}, }
    let s3 = scan_seq(s2, p2);
    lemma_scan_seq_concat(st, p0, p1);
    lemma_scan_seq_concat(st, p0 + p1, p2);
    assert(scan_seq(st, opt_line("X-LAMP-DELEGATED:"@, dg) + opt_line("X-LAMP-FOLLOW-UP:"@, fu) + opt_line("X-LAMP-RECURRENCE:"@, rc)) == s3);
}

pub proof fn lemma_group_list(st: VtodoScan, ht: bool, tg: Seq<char>, dp: Option<Seq<char>>, hl: bool, lg: Seq<char>, hk: bool, ck: Seq<char>)
    requires
        st.in_vtodo,
        !st.done,
    ensures
        ({
            let r = scan_seq(st, line_if(ht, "X-LAMP-TAGS:"@ + tg) + opt_line("X-LAMP-DAYPLAN:"@, dp) + line_if(hl, "X-LAMP-LOGBOOK:"@ + lg) + line_if(hk, "X-LAMP-CLOCK:"@ + ck));
            &&& r.in_vtodo && !r.done
            &&& fields_of(r) == (ScanFields { in_vtodo: true, ..fields_of(st) })
            
        }),
{
    reveal_strlit("CATEGORIES");
    reveal_strlit("COMPLETED");
    reveal_strlit("CREATED");
    reveal_strlit("DESCRIPTION");
    reveal_strlit("DTSTART");
    reveal_strlit("DUE");
    reveal_strlit("PRIORITY");
    reveal_strlit("STATUS");
    reveal_strlit("SUMMARY");
    reveal_strlit("UID");
    reveal_strlit("X-LAMP-CLOCK");
    reveal_strlit("X-LAMP-CLOCK:");
    reveal_strlit("X-LAMP-DAYPLAN");
    reveal_strlit("X-LAMP-DAYPLAN:");
    reveal_strlit("X-LAMP-DELEGATED");
    reveal_strlit("X-LAMP-ESC");
    reveal_strlit("X-LAMP-FOLLOW-UP");
    reveal_strlit("X-LAMP-LOGBOOK");
    reveal_strlit("X-LAMP-LOGBOOK:");
    reveal_strlit("X-LAMP-PROJECT");
    reveal_strlit("X-LAMP-RECURRENCE");
    reveal_strlit("X-LAMP-STATE");
    reveal_strlit("X-LAMP-TAGS");
    reveal_strlit("X-LAMP-TAGS:");
    reveal_strlit("X-LAMP-WAITING-FOR");
    let p0 = line_if(ht, "X-LAMP-TAGS:"@ + tg);
    let p1 = opt_line("X-LAMP-DAYPLAN:"@, dp);
    let p2 = line_if(hl, "X-LAMP-LOGBOOK:"@ + lg);
    let p3 = line_if(hk, "X-LAMP-CLOCK:"@ + ck);
    let s0 = st;
    assert(plain_key("X-LAMP-TAGS:"@));
    assert("X-LAMP-TAGS:"@.drop_last() =~= "X-LAMP-TAGS"@);
    lemma_keyed_if(s0, ht, "X-LAMP-TAGS:"@, tg);
    if ht { lemma_fa_x_lamp_tags(s0, trim_end(tg)); }
    let s1 = scan_seq(s0, p0);
    assert(plain_key("X-LAMP-DAYPLAN:"@));
    assert("X-LAMP-DAYPLAN:"@.drop_last() =~= "X-LAMP-DAYPLAN"@);
    lemma_keyed_opt(s1, "X-LAMP-DAYPLAN:"@, dp);
    match dp { Some(x) => { lemma_fa_x_lamp_dayplan(s1, trim_end(x)); }, None => {}, }
    let s2 = scan_seq(s1, p1);
    assert(plain_key("X-LAMP-LOGBOOK:"@));
    assert("X-LAMP-LOGBOOK:"@.drop_last() =~= "X-LAMP-LOGBOOK"@);
    lemma_keyed_if(s2, hl, "X-LAMP-LOGBOOK:"@, lg);
    if hl { lemma_fa_x_lamp_logbook(s2, trim_end(lg)); }
    let s3 = scan_seq(s2, p2);
    assert(plain_key("X-LAMP-CLOCK:"@));
    assert("X-LAMP-CLOCK:"@.drop_last() =~= "X-LAMP-CLOCK"@);
    lemma_keyed_if(s3, hk, "X-LAMP-CLOCK:"@, ck);
    if hk { lemma_fa_x_lamp_clock(s3, trim_end(ck)); }
    let s4 = scan_seq(s3, p3);
    lemma_scan_seq_concat(st, p0, p1);
    lemma_scan_seq_concat(st, p0 + p1, p2);
    lemma_scan_seq_concat(st, p0 + p1 + p2, p3);
    assert(scan_seq(st, line_if(ht, "X-LAMP-TAGS:"@ + tg) + opt_line("X-LAMP-DAYPLAN:"@, dp) + line_if(hl, "X-LAMP-LOGBOOK:"@ + lg) + line_if(hk, "X-LAMP-CLOCK:"@ + ck)) == s4);
}

/// The first lines of the text, up to the start of the VTODO.
pub open spec fn pre_lines() -> Seq<Seq<char>> {
    seq!["BEGIN:VCALENDAR"@, "VERSION:2.0"@, "PRODID:-//Lamp GTD//EN"@, "BEGIN:VTODO"@]
}

pub open spec fn head_fields(t: TaskView) -> Seq<Seq<char>> {
    seq!["UID:"@ + uid_of(t)] + seq!["SUMMARY:"@ + escape_spec(t.title)] + seq!["STATUS:"@ + status_text(t.state)]
        + line_if(state_is_done(t.state), "PERCENT-COMPLETE:"@ + "100"@) + seq![
        "PRIORITY:"@ + decimal(priority_number(t.priority)),
    ] + line_if(t.contexts.len() > 0, "CATEGORIES:"@ + join(t.contexts, ","@))
}

pub open spec fn plan_fields(t: TaskView) -> Seq<Seq<char>> {
    opt_line("DTSTART;VALUE=DATE:"@, opt_basic(t.scheduled)) + opt_line("DUE;VALUE=DATE:"@, opt_basic(t.deadline))
        + line_if(t.notes.len() > 0, "DESCRIPTION:"@ + escape_spec(t.notes))
}

pub open spec fn opt_dt_text(d: Option<DateTime>) -> Option<Seq<char>> {
    match d {
        Some(c) => Some(dt_basic(c)),
        None => None,
    }
}

pub open spec fn stamp_fields(t: TaskView, now: DateTime) -> Seq<Seq<char>> {
    seq!["CREATED:"@ + dt_basic(t.created)] + opt_line("COMPLETED:"@, opt_dt_text(t.completed)) + seq![
        "LAST-MODIFIED:"@ + dt_basic(now),
    ] + seq!["X-LAMP-STATE:"@ + keyword_of(t.state)]
}

pub open spec fn list_fields(t: TaskView) -> Seq<Seq<char>> {
    line_if(
        t.extra_tags.len() > 0,
        "X-LAMP-TAGS:"@ + join(t.extra_tags.map_values(|x: Seq<char>| escape_spec(x)), ","@),
    ) + opt_line(
        "X-LAMP-DAYPLAN:"@,
        match t.dayplan_date {
            Some(d) => Some(dayplan_text(d, t.dayplan_budget)),
            None => None,
        },
    ) + line_if(
        t.logbook_entries.len() > 0,
        "X-LAMP-LOGBOOK:"@ + join(t.logbook_entries.map_values(|d: DateTime| dt_basic(d)), ","@),
    ) + line_if(
        t.clock_entries.len() > 0,
        "X-LAMP-CLOCK:"@ + join(
            t.clock_entries.map_values(|p: (DateTime, DateTime)| clock_pair_text(p)),
            ","@,
        ),
    )
}

/// The lines of the VTODO text as the reader sees them once unfolded:
/// each value whole.
pub open spec fn logical_lines(t: TaskView, now: DateTime) -> Seq<Seq<char>> {
    pre_lines() + head_fields(t) + plan_fields(t) + stamp_fields(t, now) + vtodo_gtd_lines(t)
        + vtodo_date_ext_lines(t) + list_fields(t) + seq!["END:VTODO"@, "END:VCALENDAR"@]
}

/// What the scan of those lines has read at the end.
pub open spec fn logical_fields(t: TaskView, now: DateTime) -> ScanFields {
    ScanFields {
        in_vtodo: true,
        done: true,
        uid_raw: Some(trim_end(uid_of(t))),
        summary: unescape_spec(trim_end(escape_spec(t.title))),
        priority_val: parse_i32_spec(trim_end(decimal(priority_number(t.priority)))),
        categories: if t.contexts.len() > 0 {
            field_apply(scan_start(), "CATEGORIES"@, trim_end(join(t.contexts, ","@))).categories
        } else {
            seq![]
        },
        dtstart: match opt_basic(t.scheduled) {
            Some(x) => ical_date_spec(trim_end(x)),
            None => None,
        },
        due: match opt_basic(t.deadline) {
            Some(x) => ical_date_spec(trim_end(x)),
            None => None,
        },
        description: if t.notes.len() > 0 {
            unescape_spec(trim_end(escape_spec(t.notes)))
        } else {
            seq![]
        },
        created: ical_datetime_spec(trim_end(dt_basic(t.created))),
        completed: match opt_dt_text(t.completed) {
            Some(x) => ical_datetime_spec(trim_end(x)),
            None => None,
        },
        lamp_state: Some(trim_end(keyword_of(t.state))),
        lamp_project: match opt_escaped(t.project) {
            Some(x) => Some(unescape_spec(trim_end(x))),
            None => None,
        },
        lamp_waiting_for: match opt_escaped(t.waiting_for) {
            Some(x) => Some(unescape_spec(trim_end(x))),
            None => None,
        },
        lamp_esc: match (match t.esc {
            Some(e) => Some(decimal(e as nat)),
            None => None,
        }) {
            Some(x) => parse_u32_spec(trim_end(x)),
            None => None,
        },
        lamp_delegated: match opt_basic(t.delegated) {
            Some(x) => ical_date_spec(trim_end(x)),
            None => None,
        },
        lamp_follow_up: match opt_basic(t.follow_up) {
            Some(x) => ical_date_spec(trim_end(x)),
            None => None,
        },
        lamp_recurrence: match (match t.recurrence {
            Some(r) => Some(recurrence_text(r)),
            None => None,
        }) {
            Some(x) => Some(trim_end(x)),
            None => None,
        },
    }
}

proof fn lemma_plain_step(st: VtodoScan, l: Seq<char>)
    requires
        !st.in_vtodo,
        !st.done,
        l.len() > 0,
        !is_ws(l.last()),
        l != "BEGIN:VTODO"@,
        l != "END:VTODO"@,
    ensures
        scan_step(st, l) == st,
{
    lemma_trim_end_after(l, seq![]);
    assert(l + seq![] =~= l);
    assert(trim_end(Seq::<char>::empty()) =~= Seq::<char>::empty()) by {
        assert(back_ws_from(Seq::<char>::empty(), 0) == 0);
    }
}

proof fn lemma_scan_pre()
    ensures
        scan_seq(scan_start(), pre_lines()) == (VtodoScan { in_vtodo: true, ..scan_start() }),
{
    reveal_strlit("BEGIN:VCALENDAR");
    reveal_strlit("VERSION:2.0");
    reveal_strlit("PRODID:-//Lamp GTD//EN");
    reveal_strlit("BEGIN:VTODO");
    reveal_strlit("END:VTODO");
    let a = "BEGIN:VCALENDAR"@;
    let b = "VERSION:2.0"@;
    let c = "PRODID:-//Lamp GTD//EN"@;
    let d = "BEGIN:VTODO"@;
    let s0 = scan_start();
    assert(a != d) by { assert(a.len() != d.len()); }
    assert(a != "END:VTODO"@) by { assert(a[0] != "END:VTODO"@[0]); }
    assert(b != d) by { assert(b[0] != d[0]); }
    assert(b != "END:VTODO"@) by { assert(b[0] != "END:VTODO"@[0]); }
    assert(c != d) by { assert(c[0] != d[0]); }
    assert(c != "END:VTODO"@) by { assert(c[0] != "END:VTODO"@[0]); }
    assert(!is_ws(a.last()) && !is_ws(b.last()) && !is_ws(c.last()) && !is_ws(d.last()));
    lemma_plain_step(s0, a);
    lemma_plain_step(s0, b);
    lemma_plain_step(s0, c);
    lemma_trim_end_after(d, seq![]);
    assert(d + seq![] =~= d);
    assert(trim_end(Seq::<char>::empty()) =~= Seq::<char>::empty()) by {
        assert(back_ws_from(Seq::<char>::empty(), 0) == 0);
    }
    assert(scan_step(s0, d) == (VtodoScan { in_vtodo: true, ..s0 }));
    lemma_scan_seq_one(s0, a);
    lemma_scan_seq_concat(s0, seq![a], seq![b]);
    lemma_scan_seq_one(s0, b);
    lemma_scan_seq_concat(s0, seq![a] + seq![b], seq![c]);
    lemma_scan_seq_one(s0, c);
    lemma_scan_seq_concat(s0, seq![a] + seq![b] + seq![c], seq![d]);
    lemma_scan_seq_one(s0, d);
    assert(pre_lines() =~= seq![a] + seq![b] + seq![c] + seq![d]);
}

proof fn lemma_scan_post(st: VtodoScan)
    requires
        st.in_vtodo,
        !st.done,
    ensures
        fields_of(scan_seq(st, seq!["END:VTODO"@, "END:VCALENDAR"@])) == (ScanFields { done: true, ..fields_of(st) }),
{
    reveal_strlit("BEGIN:VTODO");
    reveal_strlit("END:VTODO");
    reveal_strlit("END:VCALENDAR");
    let e = "END:VTODO"@;
    let f = "END:VCALENDAR"@;
    assert(e != "BEGIN:VTODO"@) by { assert(e[0] != "BEGIN:VTODO"@[0]); }
    assert(!is_ws(e.last()) && !is_ws(f.last()));
    lemma_trim_end_after(e, seq![]);
    assert(e + seq![] =~= e);
    assert(trim_end(Seq::<char>::empty()) =~= Seq::<char>::empty()) by {
        assert(back_ws_from(Seq::<char>::empty(), 0) == 0);
    }
    let s1 = VtodoScan { done: true, ..st };
    assert(scan_step(st, e) == s1);
    assert(scan_step(s1, f) == s1);
    lemma_scan_seq_one(st, e);
    lemma_scan_seq_concat(st, seq![e], seq![f]);
    lemma_scan_seq_one(s1, f);
    assert(seq![e, f] =~= seq![e] + seq![f]);
}

/// Scanning the logical lines of a task's VTODO reads its fields.
#[verifier::rlimit(80)]
pub proof fn lemma_scan_logical(t: TaskView, now: DateTime)
    ensures
        fields_of(scan_seq(scan_start(), logical_lines(t, now))) == logical_fields(t, now),
{
    let s0 = scan_start();
    let p = pre_lines();
    let g1 = head_fields(t);
    let g2 = plan_fields(t);
    let g3 = stamp_fields(t, now);
    let g4 = vtodo_gtd_lines(t);
    let g5 = vtodo_date_ext_lines(t);
    let g6 = list_fields(t);
    let g7 = seq!["END:VTODO"@, "END:VCALENDAR"@];
    lemma_scan_pre();
    let s1 = scan_seq(s0, p);
    lemma_group_head(s1, uid_of(t), escape_spec(t.title), status_text(t.state), state_is_done(t.state), "100"@,
        decimal(priority_number(t.priority)), t.contexts.len() > 0, join(t.contexts, ","@));
    let s2 = scan_seq(s1, g1);
    lemma_group_plan(s2, opt_basic(t.scheduled), opt_basic(t.deadline), t.notes.len() > 0, escape_spec(t.notes));
    let s3 = scan_seq(s2, g2);
    lemma_group_stamp(s3, dt_basic(t.created), opt_dt_text(t.completed), dt_basic(now), keyword_of(t.state));
    let s4 = scan_seq(s3, g3);
    lemma_group_gtd(s4, opt_escaped(t.project), opt_escaped(t.waiting_for), match t.esc {
        Some(e) => Some(decimal(e as nat)),
        None => None,
    });
    let s5 = scan_seq(s4, g4);
    lemma_group_ext(s5, opt_basic(t.delegated), opt_basic(t.follow_up), match t.recurrence {
        Some(r) => Some(recurrence_text(r)),
        None => None,
    });
    let s6 = scan_seq(s5, g5);
    lemma_group_list(s6, t.extra_tags.len() > 0, join(t.extra_tags.map_values(|x: Seq<char>| escape_spec(x)), ","@),
        match t.dayplan_date {
            Some(d) => Some(dayplan_text(d, t.dayplan_budget)),
            None => None,
        }, t.logbook_entries.len() > 0, join(t.logbook_entries.map_values(|d: DateTime| dt_basic(d)), ","@),
        t.clock_entries.len() > 0, join(t.clock_entries.map_values(|p: (DateTime, DateTime)| clock_pair_text(p)), ","@));
    let s7 = scan_seq(s6, g6);
    lemma_scan_post(s7);
    lemma_scan_seq_concat(s0, p, g1);
    lemma_scan_seq_concat(s0, p + g1, g2);
    lemma_scan_seq_concat(s0, p + g1 + g2, g3);
    lemma_scan_seq_concat(s0, p + g1 + g2 + g3, g4);
    lemma_scan_seq_concat(s0, p + g1 + g2 + g3 + g4, g5);
    lemma_scan_seq_concat(s0, p + g1 + g2 + g3 + g4 + g5, g6);
    lemma_scan_seq_concat(s0, p + g1 + g2 + g3 + g4 + g5 + g6, g7);
}

/// The categories a `CATEGORIES` line sets: its comma-separated items,
/// trimmed.
pub proof fn lemma_categories_of(v: Seq<char>)
    ensures
        field_apply(scan_start(), "CATEGORIES"@, v).categories.len() == split_on(v, ',').len(),
        forall|i: int| 0 <= i < split_on(v, ',').len() ==> #[trigger] field_apply(scan_start(), "CATEGORIES"@, v).categories[i]
            == trim(split_on(v, ',')[i]),
{
    reveal_strlit("CATEGORIES");
    reveal_strlit("PRIORITY");
    reveal_strlit("STATUS");
    reveal_strlit("SUMMARY");
    reveal_strlit("UID");
    assert("CATEGORIES"@ != "UID"@) by { assert("CATEGORIES"@.len() == 10); assert("UID"@.len() == 3); }
    assert("CATEGORIES"@ != "SUMMARY"@) by { assert("CATEGORIES"@.len() == 10); assert("SUMMARY"@.len() == 7); }
    assert("CATEGORIES"@ != "STATUS"@) by { assert("CATEGORIES"@.len() == 10); assert("STATUS"@.len() == 6); }
    assert("CATEGORIES"@ != "PRIORITY"@) by { assert("CATEGORIES"@.len() == 10); assert("PRIORITY"@.len() == 8); }
}

} // verus!
