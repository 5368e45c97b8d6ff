//! The grammars of the lines under a headline: the planning line
//! (`SCHEDULED:` / `DEADLINE:` timestamps), property lines (`:KEY: value`)
//! and logbook entries (`- State "DONE" from "TODO" [2026-02-22 Sun 07:30]`).
//!
//! Digits are ASCII digits and word characters are ASCII letters, digits and
//! `_`.

use vstd::prelude::*;

use crate::model::recurrence::recurrence_parse_ok;
use crate::text::{lemma_trim_no_ws, is_ws, skip_ws, skip_ws_from, slice_chars, starts_with_str_at, has_prefix_at, find_from, find_char_from, lemma_find_from, is_ascii_digit};

verus! {

pub open spec fn is_word_char(c: char) -> bool {
    ('a' <= c && c <= 'z') || ('A' <= c && c <= 'Z') || ('0' <= c && c <= '9') || c == '_'
}

pub open spec fn is_key_char(c: char) -> bool {
    ('A' <= c && c <= 'Z') || c == '_'
}

/// One past the run of characters satisfying `p` that starts at `i`.
pub open spec fn word_end(s: Seq<char>, i: int) -> int
    decreases s.len() - i,
{
    if 0 <= i < s.len() && is_word_char(s[i]) {
        word_end(s, i + 1)
    } else {
        i
    }
}

pub open spec fn key_end(s: Seq<char>, i: int) -> int
    decreases s.len() - i,
{
    if 0 <= i < s.len() && is_key_char(s[i]) {
        key_end(s, i + 1)
    } else {
        i
    }
}

pub open spec fn digits_end(s: Seq<char>, i: int) -> int
    decreases s.len() - i,
{
    if 0 <= i < s.len() && is_ascii_digit(s[i]) {
        digits_end(s, i + 1)
    } else {
        i
    }
}

pub open spec fn repeat_marks_end(s: Seq<char>, i: int) -> int
    decreases s.len() - i,
{
    if 0 <= i < s.len() && (s[i] == '.' || s[i] == '+') {
        repeat_marks_end(s, i + 1)
    } else {
        i
    }
}

pub open spec fn digit_at(s: Seq<char>, i: int) -> bool {
    0 <= i < s.len() && is_ascii_digit(s[i])
}

/// `\d{4}-\d{2}-\d{2}` at `i`.
pub open spec fn date_pattern_at(s: Seq<char>, i: int) -> bool {
    &&& digit_at(s, i) && digit_at(s, i + 1) && digit_at(s, i + 2) && digit_at(s, i + 3)
    &&& i + 4 < s.len() && s[i + 4] == '-'
    &&& digit_at(s, i + 5) && digit_at(s, i + 6)
    &&& i + 7 < s.len() && s[i + 7] == '-'
    &&& digit_at(s, i + 8) && digit_at(s, i + 9)
}

// ---------------------------------------------------------------------------
// Property lines: `^\s*:([A-Z_]+):\s+(.+)$`
// ---------------------------------------------------------------------------

/// The key and value of a property line.
pub open spec fn property_of(s: Seq<char>) -> Option<(Seq<char>, Seq<char>)> {
    let a = skip_ws_from(s, 0);
    let b = key_end(s, a + 1);
    let c = skip_ws_from(s, b + 1);
    if a < s.len() && s[a] == ':' && b > a + 1 && b < s.len() && s[b] == ':' && c > b + 1 {
        if c < s.len() {
            Some((s.subrange(a + 1, b), s.subrange(c, s.len() as int)))
        } else if c >= b + 3 {
            Some((s.subrange(a + 1, b), s.subrange(s.len() - 1, s.len() as int)))
        } else {
            None
        }
    } else {
        None
    }
}

fn key_end_exec(v: &Vec<char>, i: usize) -> (r: usize)
    requires
        i <= v.len(),
    ensures
        r == key_end(v@, i as int),
        i <= r <= v.len(),
{
    let mut k = i;
    while k < v.len() && (('A' <= v[k] && v[k] <= 'Z') || v[k] == '_')
        invariant
            i <= k <= v.len(),
            key_end(v@, k as int) == key_end(v@, i as int),
        decreases v.len() - k,
    {
        k = k + 1;
    }
    k
}

/// Reads a property line.
pub fn parse_property(v: &Vec<char>) -> (r: Option<(Vec<char>, Vec<char>)>)
    ensures
        match r {
            Some(p) => property_of(v@) == Some((p.0@, p.1@)),
            None => property_of(v@) is None,
        },
{
    let a = skip_ws(v, 0);
    if a >= v.len() || v[a] != ':' {
        return None;
    }
    let b = key_end_exec(v, a + 1);
    if !(b > a + 1 && b < v.len() && v[b] == ':') {
        return None;
    }
    let c = skip_ws(v, b + 1);
    if c <= b + 1 {
        return None;
    }
    let key = slice_chars(v, a + 1, b);
    if c < v.len() {
        Some((key, slice_chars(v, c, v.len())))
    } else if c - b >= 3 {
        Some((key, slice_chars(v, v.len() - 1, v.len())))
    } else {
        None
    }
}

// ---------------------------------------------------------------------------
// Logbook entries:
// `- State "DONE"\s+from\s+"[^"]*"\s+\[(\d{4}-\d{2}-\d{2}\s+\w+\s+\d{2}:\d{2})\]`
// found anywhere in the line
// ---------------------------------------------------------------------------

pub open spec fn state_done_text() -> Seq<char> {
    seq!['-', ' ', 'S', 't', 'a', 't', 'e', ' ', '"', 'D', 'O', 'N', 'E', '"']
}

pub open spec fn from_text() -> Seq<char> {
    seq!['f', 'r', 'o', 'm']
}

/// The timestamp text of a logbook entry that starts at `st`.
pub open spec fn logbook_at(s: Seq<char>, st: int) -> Option<Seq<char>> {
    let i1 = st + 14;
    let w1 = skip_ws_from(s, i1);
    let i2 = w1 + 4;
    let w2 = skip_ws_from(s, i2);
    if has_prefix_at(s, st, state_done_text()) && w1 > i1 && has_prefix_at(s, w1, from_text())
        && w2 > i2 && w2 < s.len() && s[w2] == '"' {
        match find_from(s, '"', w2 + 1) {
            Some(q) => {
                let w3 = skip_ws_from(s, q + 1);
                let d0 = w3 + 1;
                let w4 = skip_ws_from(s, d0 + 10);
                let we = word_end(s, w4);
                let w5 = skip_ws_from(s, we);
                if w3 > q + 1 && w3 < s.len() && s[w3] == '[' && date_pattern_at(s, d0) && w4 > d0
                    + 10 && we > w4 && w5 > we && digit_at(s, w5) && digit_at(s, w5 + 1) && w5 + 2
                    < s.len() && s[w5 + 2] == ':' && digit_at(s, w5 + 3) && digit_at(s, w5 + 4)
                    && w5 + 5 < s.len() && s[w5 + 5] == ']' {
                    Some(s.subrange(d0, w5 + 5))
                } else {
                    None
                }
            },
            None => None,
        }
    } else {
        None
    }
}

/// The timestamp text of the first logbook entry at or after `st`.
pub open spec fn logbook_from(s: Seq<char>, st: int) -> Option<Seq<char>>
    decreases s.len() + 1 - st,
{
    if st < 0 || st > s.len() {
        None
    } else {
        match logbook_at(s, st) {
            Some(t) => Some(t),
            None => logbook_from(s, st + 1),
        }
    }
}

fn word_end_exec(v: &Vec<char>, i: usize) -> (r: usize)
    requires
        i <= v.len(),
    ensures
        r == word_end(v@, i as int),
        i <= r <= v.len(),
{
    let mut k = i;
    while k < v.len() && (('a' <= v[k] && v[k] <= 'z') || ('A' <= v[k] && v[k] <= 'Z') || ('0'
        <= v[k] && v[k] <= '9') || v[k] == '_')
        invariant
            i <= k <= v.len(),
            word_end(v@, k as int) == word_end(v@, i as int),
        decreases v.len() - k,
    {
        k = k + 1;
    }
    k
}

fn digit_at_exec(v: &Vec<char>, i: usize) -> (r: bool)
    ensures
        r == digit_at(v@, i as int),
{
    i < v.len() && '0' <= v[i] && v[i] <= '9'
}

fn date_pattern_at_exec(v: &Vec<char>, i: usize) -> (r: bool)
    requires
        i <= v.len(),
    ensures
        r == date_pattern_at(v@, i as int),
{
    if v.len() - i < 10 {
        return false;
    }
    digit_at_exec(v, i) && digit_at_exec(v, i + 1) && digit_at_exec(v, i + 2) && digit_at_exec(
        v,
        i + 3,
    ) && v[i + 4] == '-' && digit_at_exec(v, i + 5) && digit_at_exec(v, i + 6) && v[i + 7] == '-'
        && digit_at_exec(v, i + 8) && digit_at_exec(v, i + 9)
}

fn logbook_at_exec(v: &Vec<char>, st: usize) -> (r: Option<Vec<char>>)
    requires
        st <= v.len(),
    ensures
        match r {
            Some(t) => logbook_at(v@, st as int) == Some(t@),
            None => logbook_at(v@, st as int) is None,
        },
{
    proof {
        reveal_strlit("- State \"DONE\"");
        reveal_strlit("from");
    }
    assert("- State \"DONE\""@ =~= state_done_text());
    assert("from"@ =~= from_text());
    if !starts_with_str_at(v, st, "- State \"DONE\"") {
        return None;
    }
    let i1 = st + 14;
    let w1 = skip_ws(v, i1);
    if w1 <= i1 || !starts_with_str_at(v, w1, "from") {
        return None;
    }
    let i2 = w1 + 4;
    let w2 = skip_ws(v, i2);
    if !(w2 > i2 && w2 < v.len() && v[w2] == '"') {
        return None;
    }
    proof {
        lemma_find_from(v@, '"', w2 + 1);
    }
    let q = match find_char_from(v, '"', w2 + 1) {
        Some(q) => q,
        None => {
            return None;
        },
    };
    let w3 = skip_ws(v, q + 1);
    if !(w3 > q + 1 && w3 < v.len() && v[w3] == '[') {
        return None;
    }
    let d0 = w3 + 1;
    if !date_pattern_at_exec(v, d0) {
        return None;
    }
    let w4 = skip_ws(v, d0 + 10);
    if w4 <= d0 + 10 {
        return None;
    }
    let we = word_end_exec(v, w4);
    if we <= w4 {
        return None;
    }
    let w5 = skip_ws(v, we);
    if !(w5 > we && digit_at_exec(v, w5) && digit_at_exec(v, w5 + 1) && w5 + 2 < v.len() && v[w5
        + 2] == ':' && digit_at_exec(v, w5 + 3) && digit_at_exec(v, w5 + 4) && w5 + 5 < v.len()
        && v[w5 + 5] == ']') {
        return None;
    }
    Some(slice_chars(v, d0, w5 + 5))
}

/// Finds the first logbook entry in a line; returns its timestamp text.
pub fn find_logbook_entry(v: &Vec<char>) -> (r: Option<Vec<char>>)
    ensures
        match r {
            Some(t) => logbook_from(v@, 0) == Some(t@),
            None => logbook_from(v@, 0) is None,
        },
{
    let mut st: usize = 0;
    while st < v.len()
        invariant
            st <= v.len(),
            logbook_from(v@, st as int) == logbook_from(v@, 0),
        decreases v.len() - st,
    {
        match logbook_at_exec(v, st) {
            Some(t) => {
                return Some(t);
            },
            None => {},
        }
        st = st + 1;
    }
    assert(logbook_at(v@, st as int) is None);
    assert(logbook_from(v@, st + 1) is None);
    None
}

// ---------------------------------------------------------------------------
// Planning timestamps:
// `KEYWORD:\s*<(\d{4}-\d{2}-\d{2})\s+\w+(?:\s+([.+]+\d+[dwmy]))?>`
// found anywhere in the line
// ---------------------------------------------------------------------------

/// The date text and the repeater text (if any) of a timestamp introduced
/// by `kw` (which ends with `:`) at `st`.
pub open spec fn stamp_at(s: Seq<char>, st: int, kw: Seq<char>) -> Option<
    (Seq<char>, Option<Seq<char>>),
> {
    let j = skip_ws_from(s, st + kw.len());
    let d0 = j + 1;
    let w = skip_ws_from(s, d0 + 10);
    let we = word_end(s, w);
    let g = skip_ws_from(s, we);
    let rp = repeat_marks_end(s, g);
    let rd = digits_end(s, rp);
    if has_prefix_at(s, st, kw) && j < s.len() && s[j] == '<' && date_pattern_at(s, d0) && w > d0
        + 10 && we > w {
        if g > we && rp > g && rd > rp && rd + 1 < s.len() && (s[rd] == 'd' || s[rd] == 'w' || s[rd]
            == 'm' || s[rd] == 'y') && s[rd + 1] == '>' {
            Some((s.subrange(d0, d0 + 10), Some(s.subrange(g, rd + 1))))
        } else if we < s.len() && s[we] == '>' {
            Some((s.subrange(d0, d0 + 10), None))
        } else {
            None
        }
    } else {
        None
    }
}

pub open spec fn stamp_from(s: Seq<char>, st: int, kw: Seq<char>) -> Option<
    (Seq<char>, Option<Seq<char>>),
>
    decreases s.len() + 1 - st,
{
    if st < 0 || st > s.len() {
        None
    } else {
        match stamp_at(s, st, kw) {
            Some(t) => Some(t),
            None => stamp_from(s, st + 1, kw),
        }
    }
}

fn marks_end_exec(v: &Vec<char>, i: usize) -> (r: usize)
    requires
        i <= v.len(),
    ensures
        r == repeat_marks_end(v@, i as int),
        i <= r <= v.len(),
{
    let mut k = i;
    while k < v.len() && (v[k] == '.' || v[k] == '+')
        invariant
            i <= k <= v.len(),
            repeat_marks_end(v@, k as int) == repeat_marks_end(v@, i as int),
        decreases v.len() - k,
    {
        k = k + 1;
    }
    k
}

fn digits_end_exec(v: &Vec<char>, i: usize) -> (r: usize)
    requires
        i <= v.len(),
    ensures
        r == digits_end(v@, i as int),
        i <= r <= v.len(),
{
    let mut k = i;
    while k < v.len() && '0' <= v[k] && v[k] <= '9'
        invariant
            i <= k <= v.len(),
            digits_end(v@, k as int) == digits_end(v@, i as int),
        decreases v.len() - k,
    {
        k = k + 1;
    }
    k
}

fn stamp_at_exec(v: &Vec<char>, st: usize, kw: &Vec<char>) -> (r: Option<(Vec<char>, Option<Vec<char>>)>)
    requires
        st <= v.len(),
    ensures
        match r {
            Some(t) => stamp_at(v@, st as int, kw@) == Some(
                (
                    t.0@,
                    match t.1 {
                        Some(x) => Some(x@),
                        None => None,
                    },
                ),
            ),
            None => stamp_at(v@, st as int, kw@) is None,
        },
{
    if !crate::text::starts_with_at(v, st, kw) {
        return None;
    }
    let j = skip_ws(v, st + kw.len());
    if !(j < v.len() && v[j] == '<') {
        return None;
    }
    let d0 = j + 1;
    if !date_pattern_at_exec(v, d0) {
        return None;
    }
    let w = skip_ws(v, d0 + 10);
    if w <= d0 + 10 {
        return None;
    }
    let we = word_end_exec(v, w);
    if we <= w {
        return None;
    }
    let g = skip_ws(v, we);
    let rp = marks_end_exec(v, g);
    let rd = digits_end_exec(v, rp);
    let date = slice_chars(v, d0, d0 + 10);
    if g > we && rp > g && rd > rp && v.len() - rd > 1 && (v[rd] == 'd' || v[rd] == 'w' || v[rd]
        == 'm' || v[rd] == 'y') && v[rd + 1] == '>' {
        Some((date, Some(slice_chars(v, g, rd + 1))))
    } else if we < v.len() && v[we] == '>' {
        Some((date, None))
    } else {
        None
    }
}

/// Finds the first timestamp introduced by `kw` in a line.
pub fn find_stamp(v: &Vec<char>, kw: &Vec<char>) -> (r: Option<(Vec<char>, Option<Vec<char>>)>)
    ensures
        match r {
            Some(t) => stamp_from(v@, 0, kw@) == Some(
                (
                    t.0@,
                    match t.1 {
                        Some(x) => Some(x@),
                        None => None,
                    },
                ),
            ),
            None => stamp_from(v@, 0, kw@) is None,
        },
{
    let mut st: usize = 0;
    while st < v.len()
        invariant
            st <= v.len(),
            stamp_from(v@, st as int, kw@) == stamp_from(v@, 0, kw@),
        decreases v.len() - st,
    {
        match stamp_at_exec(v, st, kw) {
            Some(t) => {
                return Some(t);
            },
            None => {},
        }
        st = st + 1;
    }
    match stamp_at_exec(v, st, kw) {
        Some(t) => {
            return Some(t);
        },
        None => {},
    }
    assert(stamp_from(v@, st + 1, kw@) is None);
    None
}

pub proof fn lemma_marks_end(s: Seq<char>, i: int)
    ensures
        i <= repeat_marks_end(s, i),
        repeat_marks_end(s, i) > i ==> (s[i] == '.' || s[i] == '+'),
    decreases s.len() - i,
{
    if 0 <= i < s.len() && (s[i] == '.' || s[i] == '+') {
        lemma_marks_end(s, i + 1);
    }
}

pub proof fn lemma_digits_end(s: Seq<char>, i: int)
    ensures
        i <= digits_end(s, i),
    decreases s.len() - i,
{
    if 0 <= i < s.len() && is_ascii_digit(s[i]) {
        lemma_digits_end(s, i + 1);
    }
}

/// A repeater text found in a timestamp is one `Recurrence::parse` accepts
/// without panicking.
pub proof fn lemma_stamp_from(s: Seq<char>, st: int, kw: Seq<char>)
    ensures
        stamp_from(s, st, kw) matches Some((_, Some(r))) ==> recurrence_parse_ok(r),
    decreases s.len() + 1 - st,
{
    if 0 <= st <= s.len() {
        match stamp_at(s, st, kw) {
            Some((_, Some(r))) => {
                let j = skip_ws_from(s, st + kw.len());
                let d0 = j + 1;
                let w = skip_ws_from(s, d0 + 10);
                let we = word_end(s, w);
                let g = skip_ws_from(s, we);
                let rp = repeat_marks_end(s, g);
                let rd = digits_end(s, rp);
                lemma_marks_end(s, g);
                lemma_digits_end(s, rp);
                assert(r =~= s.subrange(g, rd + 1));
                assert(r[0] == s[g]);
                assert(r.last() == s[rd]);
                lemma_trim_no_ws(r);
                if r.len() >= 2 && r[0] == '.' && r[1] == '+' {
                    assert(r.skip(2).last() == r.last());
                } else if r.len() >= 2 && r[0] == '+' && r[1] == '+' {
                    assert(r.skip(2).last() == r.last());
                } else if r[0] == '+' {
                    assert(r.skip(1).last() == r.last());
                }
            },
            Some(_) => {},
            None => {
                lemma_stamp_from(s, st + 1, kw);
            },
        }
    }
}

} // verus!
