//! iCalendar text: dates, escaping, content lines and line folding.

use vstd::prelude::*;

use crate::dates::{date_basic, dt_basic, opt_dt_parts, opt_num, parse_basic_date_spec, parse_basic_datetime_spec, Date, DateTime, DateTimeParts};
use crate::ids::Uuid;
use crate::text::{
    chars_of, find_from, find_char_from, find_sub, find_sub_from, lemma_find_from, lemma_find_sub,
    lemma_find_from_at, lemma_find_from_none, lines, lines_from, push_all, push_str, slice_chars, split_lines, string_of, strip_cr, views,
};

verus! {

/// The namespace under which CalDAV UIDs that are not UUIDs are turned into
/// name-based identifiers.
pub const CALDAV_UUID_NAMESPACE_VALUE: u128 = 0x6ba7b8109dad11d180b400c04fd430c8u128;

/// The namespace as an identifier.
pub fn caldav_uuid_namespace() -> (r: Uuid)
    ensures
        r.value == CALDAV_UUID_NAMESPACE_VALUE,
{
    Uuid { value: CALDAV_UUID_NAMESPACE_VALUE }
}

/// `%Y%m%d`.
pub fn format_date(date: Date) -> (r: String)
    ensures
        r@ == date_basic(date),
{
    date.to_basic_string()
}

/// `%Y%m%dT%H%M%S`.
pub fn format_datetime(dt: DateTime) -> (r: String)
    ensures
        r@ == dt_basic(dt),
{
    dt.to_basic_string()
}

// ---------------------------------------------------------------------------
// UTF-8 lengths
// ---------------------------------------------------------------------------

/// The number of bytes of a character in UTF-8 (what `char::len_utf8` returns).
pub open spec fn utf8_len(c: char) -> nat {
    if (c as u32) < 0x80 {
        1
    } else if (c as u32) < 0x800 {
        2
    } else if (c as u32) < 0x10000 {
        3
    } else {
        4
    }
}

/// The number of UTF-8 bytes of the first `k` characters.
pub open spec fn bytes_of(s: Seq<char>, k: int) -> nat
    decreases k,
{
    if k <= 0 || s.len() == 0 {
        0
    } else if k > s.len() {
        bytes_of(s, s.len() as int)
    } else {
        bytes_of(s, k - 1) + utf8_len(s[k - 1])
    }
}

pub fn utf8_len_exec(c: char) -> (r: usize)
    ensures
        r == utf8_len(c),
{
    let x = c as u32;
    if x < 0x80 {
        1
    } else if x < 0x800 {
        2
    } else if x < 0x10000 {
        3
    } else {
        4
    }
}

/// The largest `k >= i` such that characters `i..k` take at most `budget`
/// bytes.
pub open spec fn chars_within(s: Seq<char>, i: int, budget: int) -> int
    decreases s.len() - i,
{
    if i < 0 || i >= s.len() || (utf8_len(s[i]) as int) > budget {
        i
    } else {
        chars_within(s, i + 1, budget - utf8_len(s[i]))
    }
}

// ---------------------------------------------------------------------------
// Dates
// ---------------------------------------------------------------------------

/// `parse_ical_date` cuts the text after 8 bytes; it needs that cut to fall
/// between two characters.
pub open spec fn date_cut_ok(s: Seq<char>) -> bool {
    bytes_of(s, s.len() as int) < 8 || exists|k: int| 0 <= k <= s.len() && bytes_of(s, k) == 8
}

/// The text `parse_ical_date` reads: the first 8 bytes, or all when shorter.
pub open spec fn date_part(s: Seq<char>) -> Seq<char> {
    if bytes_of(s, s.len() as int) < 8 {
        s
    } else {
        s.take(chars_within(s, 0, 8))
    }
}

/// A date given as `YYYYMMDD` (a date-time's time part is ignored).
pub open spec fn ical_date_spec(s: Seq<char>) -> Option<int> {
    parse_basic_date_spec(date_part(s))
}

proof fn lemma_bytes_step(s: Seq<char>, k: int)
    requires
        0 <= k < s.len(),
    ensures
        bytes_of(s, k + 1) == bytes_of(s, k) + utf8_len(s[k]),
{
}

proof fn lemma_bytes_mono(s: Seq<char>, a: int, b: int)
    requires
        0 <= a <= b <= s.len(),
    ensures
        bytes_of(s, a) + (b - a) <= bytes_of(s, b),
    decreases b - a,
{
    if a < b {
        lemma_bytes_mono(s, a, b - 1);
    }
}

/// Whether `parse_ical_date` can cut the text after 8 bytes.
pub fn date_cut_ok_exec(v: &Vec<char>) -> (r: bool)
    ensures
        r == date_cut_ok(v@),
{
    let mut k: usize = 0;
    let mut acc: usize = 0;
    while k < v.len() && acc < 8
        invariant
            k <= v.len(),
            acc == bytes_of(v@, k as int),
            acc < 8 || k > 0,
            k > 0 ==> bytes_of(v@, k - 1) < 8,
        decreases v.len() - k,
    {
        proof {
            lemma_bytes_step(v@, k as int);
        }
        acc = acc + utf8_len_exec(v[k]);
        k = k + 1;
    }
    if acc == 8 {
        return true;
    }
    if acc < 8 {
        proof {
            assert(bytes_of(v@, v@.len() as int) < 8);
        }
        return true;
    }
    proof {
        assert forall|j: int| 0 <= j <= v@.len() implies bytes_of(v@, j) != 8 by {
            if j < k {
                lemma_bytes_mono(v@, j, k - 1);
            } else {
                lemma_bytes_mono(v@, k as int, j);
            }
        }
        assert(bytes_of(v@, v@.len() as int) >= 8) by {
            lemma_bytes_mono(v@, k as int, v@.len() as int);
        }
    }
    false
}

/// Parses `YYYYMMDD`, or the date part of `YYYYMMDDTHHMMSS`.
pub fn parse_ical_date(s: &str) -> (r: Option<Date>)
    requires
        date_cut_ok(s@),
    ensures
        opt_num(r) == ical_date_spec(s@),
{
    let v = chars_of(s);
    let mut k: usize = 0;
    let mut used: usize = 0;
    while k < v.len() && used + utf8_len_exec(v[k]) <= 8
        invariant
            k <= v.len(),
            used == bytes_of(v@, k as int),
            used <= 8,
            chars_within(v@, k as int, 8 - used) == chars_within(v@, 0, 8),
        decreases v.len() - k,
    {
        proof {
            lemma_bytes_step(v@, k as int);
        }
        used = used + utf8_len_exec(v[k]);
        k = k + 1;
    }
    let part = if k == v.len() && used < 8 {
        proof {
            assert(bytes_of(v@, v@.len() as int) < 8);
        }
        slice_chars(&v, 0, v.len())
    } else {
        proof {
            if k == v.len() {
                assert(bytes_of(v@, v@.len() as int) >= 8);
            } else {
                assert(chars_within(v@, k as int, 8 - used) == k);
                lemma_bytes_mono(v@, k as int, v@.len() as int);
                lemma_bytes_step(v@, k as int);
            }
        }
        slice_chars(&v, 0, k)
    };
    proof {
        assert(v@.subrange(0, v@.len() as int) =~= v@);
        assert(v@.subrange(0, k as int) =~= v@.take(k as int));
    }
    assert(part@ == date_part(v@));
    Date::parse_basic_chars(&part)
}

/// The text without its trailing `Z`s.
pub open spec fn trim_z(s: Seq<char>) -> Seq<char>
    decreases s.len(),
{
    if s.len() > 0 && s.last() == 'Z' {
        trim_z(s.drop_last())
    } else {
        s
    }
}

/// A date-time given as `YYYYMMDDTHHMMSS`, optionally followed by `Z`.
pub open spec fn ical_datetime_spec(s: Seq<char>) -> Option<DateTimeParts> {
    parse_basic_datetime_spec(trim_z(s))
}

/// Parses `YYYYMMDDTHHMMSS`, trailing `Z`s dropped.
pub fn parse_ical_datetime(s: &str) -> (r: Option<DateTime>)
    ensures
        opt_dt_parts(r) == ical_datetime_spec(s@),
{
    let v = chars_of(s);
    let mut n = v.len();
    assert(v@.take(v.len() as int) =~= v@);
    while n > 0 && v[n - 1] == 'Z'
        invariant
            n <= v.len(),
            trim_z(v@.take(n as int)) == trim_z(v@),
        decreases n,
    {
        assert(v@.take(n as int).drop_last() =~= v@.take(n - 1));
        n = n - 1;
    }
    let t = slice_chars(&v, 0, n);
    assert(t@ =~= v@.take(n as int));
    assert(trim_z(t@) == t@);
    DateTime::parse_basic_chars(&t)
}

// ---------------------------------------------------------------------------
// Escaping
// ---------------------------------------------------------------------------

/// The escape of one character: `\` `;` `,` get a backslash, a newline
/// becomes `\n`.
pub open spec fn escape_char(c: char) -> Seq<char> {
    if c == '\\' {
        seq!['\\', '\\']
    } else if c == ';' {
        seq!['\\', ';']
    } else if c == ',' {
        seq!['\\', ',']
    } else if c == '\n' {
        seq!['\\', 'n']
    } else {
        seq![c]
    }
}

/// TEXT escaping (RFC 5545): each character escaped in turn.
pub open spec fn escape_spec(s: Seq<char>) -> Seq<char>
    decreases s.len(),
{
    if s.len() == 0 {
        seq![]
    } else {
        escape_spec(s.drop_last()) + escape_char(s.last())
    }
}

pub fn escape_chars(v: &Vec<char>) -> (r: Vec<char>)
    ensures
        r@ == escape_spec(v@),
{
    let mut r: Vec<char> = Vec::new();
    let mut i: usize = 0;
    while i < v.len()
        invariant
            i <= v.len(),
            r@ == escape_spec(v@.take(i as int)),
        decreases v.len() - i,
    {
        let c = v[i];
        if c == '\\' {
            r.push('\\');
            r.push('\\');
        } else if c == ';' {
            r.push('\\');
            r.push(';');
        } else if c == ',' {
            r.push('\\');
            r.push(',');
        } else if c == '\n' {
            r.push('\\');
            r.push('n');
        } else {
            r.push(c);
        }
        proof {
            assert(v@.take(i + 1).drop_last() =~= v@.take(i as int));
            assert(r@ =~= escape_spec(v@.take(i + 1)));
        }
        i = i + 1;
    }
    assert(v@.take(v.len() as int) =~= v@);
    r
}

/// Escapes text for an iCalendar TEXT value.
pub fn escape_text(s: &str) -> (r: String)
    ensures
        r@ == escape_spec(s@),
{
    let v = chars_of(s);
    let e = escape_chars(&v);
    string_of(e.as_slice())
}

/// What `str::replace(p, r)` returns: each non-overlapping occurrence of
/// `p`, leftmost first, replaced by `r`.
pub open spec fn replace_spec(s: Seq<char>, p: Seq<char>, r: Seq<char>) -> Seq<char>
    decreases s.len(),
{
    if p.len() == 0 {
        s
    } else {
        match find_sub(s, p, 0) {
            None => s,
            Some(k) => {
                proof {
                    lemma_find_sub(s, p, 0);
                }
                s.take(k) + r + replace_spec(s.skip(k + p.len()), p, r)
            },
        }
    }
}

pub fn replace_chars(v: &Vec<char>, p: &Vec<char>, rep: &Vec<char>) -> (r: Vec<char>)
    requires
        p.len() > 0,
    ensures
        r@ == replace_spec(v@, p@, rep@),
{
    let mut out: Vec<char> = Vec::new();
    let mut i: usize = 0;
    assert(v@.skip(0) =~= v@);
    loop
        invariant
            i <= v.len(),
            p.len() > 0,
            out@ + replace_spec(v@.skip(i as int), p@, rep@) == replace_spec(v@, p@, rep@),
        decreases v.len() - i,
    {
        let ghost rest = v@.skip(i as int);
        proof {
            lemma_find_sub(v@, p@, i as int);
            lemma_find_sub_skip(v@, p@, i as int, 0);
        }
        match find_sub_from(v, p, i) {
            None => {
                let tail = slice_chars(v, i, v.len());
                assert(tail@ =~= rest);
                push_all(&mut out, &tail);
                return out;
            },
            Some(k) => {
                let piece = slice_chars(v, i, k);
                assert(piece@ =~= rest.take(k - i));
                assert(rest.skip(k - i + p@.len()) =~= v@.skip(k + p@.len()));
                let ghost before = out@;
                push_all(&mut out, &piece);
                push_all(&mut out, rep);
                assert(out@ + replace_spec(v@.skip(k + p@.len()), p@, rep@) =~= before
                    + replace_spec(rest, p@, rep@));
                i = k + p.len();
            },
        }
    }
}

pub proof fn lemma_find_sub_skip(s: Seq<char>, p: Seq<char>, a: int, i: int)
    requires
        0 <= a <= s.len(),
        0 <= i,
    ensures
        find_sub(s.skip(a), p, i) == match find_sub(s, p, a + i) {
            Some(k) => Some(k - a),
            None => None,
        },
    decreases s.len() + 1 - a - i,
{
    if a + i + p.len() <= s.len() {
        assert(s.skip(a).subrange(i, i + p.len()) =~= s.subrange(a + i, a + i + p.len()));
        if s.subrange(a + i, a + i + p.len()) != p {
            lemma_find_sub_skip(s, p, a, i + 1);
        }
    }
}

/// TEXT unescaping as four replacements in turn: `\n` to a newline, `\;` to
/// `;`, `\,` to `,`, `\\` to `\`.
pub open spec fn unescape_spec(s: Seq<char>) -> Seq<char> {
    replace_spec(
        replace_spec(
            replace_spec(replace_spec(s, seq!['\\', 'n'], seq!['\n']), seq!['\\', ';'], seq![';']),
            seq!['\\', ','],
            seq![','],
        ),
        seq!['\\', '\\'],
        seq!['\\'],
    )
}

pub fn unescape_chars(v: &Vec<char>) -> (r: Vec<char>)
    ensures
        r@ == unescape_spec(v@),
{
    let a = replace_chars(v, &pair('\\', 'n'), &single('\n'));
    let b = replace_chars(&a, &pair('\\', ';'), &single(';'));
    let c = replace_chars(&b, &pair('\\', ','), &single(','));
    replace_chars(&c, &pair('\\', '\\'), &single('\\'))
}

fn single(a: char) -> (r: Vec<char>)
    ensures
        r@ == seq![a],
{
    let mut r: Vec<char> = Vec::new();
    r.push(a);
    assert(r@ =~= seq![a]);
    r
}

fn pair(a: char, b: char) -> (r: Vec<char>)
    ensures
        r@ == seq![a, b],
{
    let mut r: Vec<char> = Vec::new();
    r.push(a);
    r.push(b);
    assert(r@ =~= seq![a, b]);
    r
}

/// Unescapes an iCalendar TEXT value.
pub fn unescape_text(s: &str) -> (r: String)
    ensures
        r@ == unescape_spec(s@),
{
    let v = chars_of(s);
    let u = unescape_chars(&v);
    string_of(u.as_slice())
}

// ---------------------------------------------------------------------------
// Unescaping undoes escaping
// ---------------------------------------------------------------------------

/// Whether a backslash of the text is directly followed by `n`.
pub open spec fn has_backslash_n(s: Seq<char>) -> bool {
    exists|i: int| 0 <= i < s.len() - 1 && #[trigger] s[i] == '\\' && s[i + 1] == 'n'
}

/// A character as it stands after the first `k` replacements of unescaping
/// have been applied to its escape.
pub open spec fn esc_at(c: char, k: int) -> Seq<char> {
    if c == '\n' && k < 1 {
        seq!['\\', 'n']
    } else if c == ';' && k < 2 {
        seq!['\\', ';']
    } else if c == ',' && k < 3 {
        seq!['\\', ',']
    } else if c == '\\' && k < 4 {
        seq!['\\', '\\']
    } else {
        seq![c]
    }
}

/// A text as it stands after the first `k` replacements of unescaping have
/// been applied to its escape.
pub open spec fn esc_seq(s: Seq<char>, k: int) -> Seq<char>
    decreases s.len(),
{
    if s.len() == 0 {
        seq![]
    } else {
        esc_seq(s.drop_last(), k) + esc_at(s.last(), k)
    }
}

/// The pattern of the replacement number `k` of unescaping.
pub open spec fn unesc_pat(k: int) -> Seq<char> {
    if k == 0 {
        seq!['\\', 'n']
    } else if k == 1 {
        seq!['\\', ';']
    } else if k == 2 {
        seq!['\\', ',']
    } else {
        seq!['\\', '\\']
    }
}

/// What the replacement number `k` of unescaping puts in.
pub open spec fn unesc_rep(k: int) -> Seq<char> {
    if k == 0 {
        seq!['\n']
    } else if k == 1 {
        seq![';']
    } else if k == 2 {
        seq![',']
    } else {
        seq!['\\']
    }
}

proof fn lemma_esc_start(s: Seq<char>)
    ensures
        escape_spec(s) == esc_seq(s, 0),
    decreases s.len(),
{
    if s.len() > 0 {
        lemma_esc_start(s.drop_last());
        assert(escape_char(s.last()) == esc_at(s.last(), 0));
    }
}

proof fn lemma_esc_end(s: Seq<char>)
    ensures
        esc_seq(s, 4) == s,
    decreases s.len(),
{
    if s.len() > 0 {
        lemma_esc_end(s.drop_last());
        assert(s.drop_last() + seq![s.last()] =~= s);
    }
}

proof fn lemma_esc_front(s: Seq<char>, k: int)
    requires
        s.len() > 0,
    ensures
        esc_seq(s, k) == esc_at(s[0], k) + esc_seq(s.skip(1), k),
    decreases s.len(),
{
    if s.len() == 1 {
        assert(s.skip(1) =~= Seq::<char>::empty());
        assert(s.drop_last() =~= Seq::<char>::empty());
        assert(esc_seq(s.drop_last(), k) =~= Seq::<char>::empty());
        assert(esc_seq(s, k) =~= esc_at(s[0], k));
    } else {
        lemma_esc_front(s.drop_last(), k);
        assert(s.drop_last().skip(1) =~= s.skip(1).drop_last());
        assert(s.skip(1).last() == s.last());
        assert(esc_seq(s, k) =~= esc_at(s[0], k) + esc_seq(s.skip(1), k));
    }
}

/// Replacing from place `m` on, when no occurrence starts before `m`.
proof fn lemma_replace_shift(e: Seq<char>, p: Seq<char>, r: Seq<char>, m: int)
    requires
        0 <= m <= e.len(),
        p.len() > 0,
        find_sub(e, p, 0) == find_sub(e, p, m),
    ensures
        replace_spec(e, p, r) == e.take(m) + replace_spec(e.skip(m), p, r),
{
    lemma_find_sub_skip(e, p, m, 0);
    match find_sub(e, p, m) {
        None => {
            assert(e.take(m) + e.skip(m) =~= e);
        },
        Some(k) => {
            lemma_find_sub(e, p, m);
            assert(e.skip(m).skip(k - m + p.len()) =~= e.skip(k + p.len()));
            assert(e.take(m) + e.skip(m).take(k - m) =~= e.take(k));
            assert(e.take(m) + (e.skip(m).take(k - m) + r + replace_spec(e.skip(k + p.len()), p, r))
                =~= e.take(k) + r + replace_spec(e.skip(k + p.len()), p, r));
        },
    }
}

/// One replacement of unescaping takes the text from stage `k` to stage
/// `k + 1`.
proof fn lemma_unesc_stage(s: Seq<char>, k: int)
    requires
        0 <= k < 4,
        !has_backslash_n(s),
    ensures
        replace_spec(esc_seq(s, k), unesc_pat(k), unesc_rep(k)) == esc_seq(s, k + 1),
    decreases s.len(),
{
    let p = unesc_pat(k);
    let e = esc_seq(s, k);
    if s.len() == 0 {
        assert(find_sub(e, p, 0) is None);
    } else {
        let c = s[0];
        let t = s.skip(1);
        assert forall|i: int| 0 <= i < t.len() - 1 && #[trigger] t[i] == '\\' implies t[i + 1] != 'n' by {
            assert(s[i + 1] == t[i]);
        }
        lemma_unesc_stage(t, k);
        lemma_esc_front(s, k);
        lemma_esc_front(s, k + 1);
        let a = esc_at(c, k);
        let et = esc_seq(t, k);
        assert(e == a + et);
        if a == p {
            assert(e.subrange(0, 2) =~= p);
            assert(find_sub(e, p, 0) == Some(0int));
            assert(e.skip(2) =~= et);
            assert(e.take(0) =~= Seq::<char>::empty());
            assert(esc_at(c, k + 1) == unesc_rep(k));
            assert(replace_spec(e, p, unesc_rep(k)) =~= unesc_rep(k) + replace_spec(et, p, unesc_rep(k)));
        } else if a.len() == 2 {
            assert(a[0] == '\\');
            assert(e.subrange(0, 2) =~= a);
            if e.len() >= 3 {
                if a[1] == '\\' {
                    assert(t.len() > 0);
                    lemma_esc_front(t, k);
                    let b = esc_at(t[0], k);
                    assert(e[2] == b[0]);
                    assert(s[0] == '\\');
                    assert(t[0] == s[1]);
                    assert(e[2] != p[1]);
                }
                assert(e.subrange(1, 3) != p);
            }
            assert(find_sub(e, p, 0) == find_sub(e, p, 1));
            assert(find_sub(e, p, 1) == find_sub(e, p, 2));
            lemma_replace_shift(e, p, unesc_rep(k), 2);
            assert(e.take(2) =~= a);
            assert(e.skip(2) =~= et);
            assert(esc_at(c, k + 1) == a);
        } else {
            assert(a =~= seq![c]);
            assert(c != '\\');
            if e.len() >= 2 {
                assert(e.subrange(0, 2) != p);
            }
            assert(find_sub(e, p, 0) == find_sub(e, p, 1));
            lemma_replace_shift(e, p, unesc_rep(k), 1);
            assert(e.take(1) =~= a);
            assert(e.skip(1) =~= et);
            assert(esc_at(c, k + 1) == a);
        }
    }
}

/// Unescaping undoes escaping, for every text in which no backslash is
/// directly followed by `n` (in such a text the `n` comes back as a
/// newline).
pub proof fn lemma_unescape_escape(s: Seq<char>)
    requires
        !has_backslash_n(s),
    ensures
        unescape_spec(escape_spec(s)) == s,
{
    lemma_esc_start(s);
    lemma_unesc_stage(s, 0);
    lemma_unesc_stage(s, 1);
    lemma_unesc_stage(s, 2);
    lemma_unesc_stage(s, 3);
    lemma_esc_end(s);
    assert(unesc_pat(0) == seq!['\\', 'n'] && unesc_rep(0) == seq!['\n']);
    assert(unesc_pat(1) == seq!['\\', ';'] && unesc_rep(1) == seq![';']);
    assert(unesc_pat(2) == seq!['\\', ','] && unesc_rep(2) == seq![',']);
    assert(unesc_pat(3) == seq!['\\', '\\'] && unesc_rep(3) == seq!['\\']);
}

// ---------------------------------------------------------------------------
// Content lines
// ---------------------------------------------------------------------------

/// `KEY;PARAM=VAL:value` read as the key (before any `;`) and the value
/// (after the first `:`).
pub open spec fn ical_line_spec(line: Seq<char>) -> Option<(Seq<char>, Seq<char>)> {
    match find_from(line, ':', 0) {
        None => None,
        Some(c) => {
            let key_part = line.take(c);
            let key = match find_from(key_part, ';', 0) {
                Some(k) => key_part.take(k),
                None => key_part,
            };
            Some((key, line.skip(c + 1)))
        },
    }
}

pub fn parse_ical_line_chars(line: &Vec<char>) -> (r: Option<(Vec<char>, Vec<char>)>)
    ensures
        match r {
            Some(kv) => ical_line_spec(line@) == Some((kv.0@, kv.1@)),
            None => ical_line_spec(line@) is None,
        },
{
    proof {
        lemma_find_from(line@, ':', 0);
    }
    let c = match find_char_from(line, ':', 0) {
        Some(c) => c,
        None => {
            return None;
        },
    };
    assert(c < line.len());
    let key_part = slice_chars(line, 0, c);
    assert(key_part@ =~= line@.take(c as int));
    proof {
        lemma_find_from(key_part@, ';', 0);
    }
    let key = match find_char_from(&key_part, ';', 0) {
        Some(k) => {
            let kk = slice_chars(&key_part, 0, k);
            assert(kk@ =~= key_part@.take(k as int));
            kk
        },
        None => key_part,
    };
    let value = slice_chars(line, c + 1, line.len());
    assert(value@ =~= line@.skip(c + 1));
    Some((key, value))
}

/// Reads a content line into its key and value.
pub fn parse_ical_line(line: &str) -> (r: Option<(String, String)>)
    ensures
        match r {
            Some(kv) => ical_line_spec(line@) == Some((kv.0@, kv.1@)),
            None => ical_line_spec(line@) is None,
        },
{
    let v = chars_of(line);
    match parse_ical_line_chars(&v) {
        Some((k, val)) => Some((string_of(k.as_slice()), string_of(val.as_slice()))),
        None => None,
    }
}

// ---------------------------------------------------------------------------
// Folding
// ---------------------------------------------------------------------------

/// Unfolding the lines `ls[0..n]`: a line that starts with a space or a tab
/// continues the previous one (without that first character); other lines
/// are separated by newlines.
pub open spec fn unfold_acc(ls: Seq<Seq<char>>, n: int) -> Seq<char>
    decreases n,
{
    if n <= 0 {
        seq![]
    } else {
        let acc = unfold_acc(ls, n - 1);
        let l = ls[n - 1];
        if l.len() > 0 && (l[0] == ' ' || l[0] == '\t') {
            acc + l.skip(1)
        } else if acc.len() > 0 {
            acc + seq!['\n'] + l
        } else {
            acc + l
        }
    }
}

pub open spec fn unfold_spec(s: Seq<char>) -> Seq<char> {
    unfold_acc(lines(s), lines(s).len() as int)
}

pub fn unfold_chars(v: &Vec<char>) -> (r: Vec<char>)
    ensures
        r@ == unfold_spec(v@),
{
    let ls = split_lines(v);
    let ghost lv = views(ls@);
    assert(lv =~= lines(v@));
    let mut out: Vec<char> = Vec::new();
    let mut i: usize = 0;
    while i < ls.len()
        invariant
            i <= ls.len(),
            lv == views(ls@),
            out@ == unfold_acc(lv, i as int),
        decreases ls.len() - i,
    {
        let l = &ls[i];
        assert(lv[i as int] == l@);
        if l.len() > 0 && (l[0] == ' ' || l[0] == '\t') {
            let rest = slice_chars(l, 1, l.len());
            assert(rest@ =~= l@.skip(1));
            push_all(&mut out, &rest);
        } else {
            if out.len() > 0 {
                out.push('\n');
            }
            push_all(&mut out, l);
        }
        i = i + 1;
    }
    out
}

/// Joins RFC 5545 continuation lines.
pub fn unfold_lines(input: &str) -> (r: String)
    ensures
        r@ == unfold_spec(input@),
{
    let v = chars_of(input);
    let u = unfold_chars(&v);
    string_of(u.as_slice())
}

/// The bytes a folded line may take from character `i` on: 75 on the first
/// line, 74 on a continuation line (its leading space is the 75th octet).
pub open spec fn fold_budget(i: int) -> int {
    if i == 0 {
        75
    } else {
        74
    }
}

/// Folding from character `i` on: lines of at most 75 octets, each after
/// the first introduced by CRLF and a space.
pub open spec fn fold_from(s: Seq<char>, i: int) -> Seq<char>
    decreases s.len() - i,
{
    if i < 0 || i >= s.len() {
        seq![]
    } else {
        let j = chars_within(s, i, fold_budget(i));
        proof {
            lemma_chars_within(s, i, fold_budget(i));
        }
        (if i > 0 {
            seq!['\r', '\n', ' ']
        } else {
            seq![]
        }) + s.subrange(i, j) + fold_from(s, j)
    }
}

pub proof fn lemma_chars_within(s: Seq<char>, i: int, budget: int)
    requires
        0 <= i < s.len(),
        budget >= 4,
    ensures
        i < chars_within(s, i, budget) <= s.len(),
    decreases s.len() - i,
{
    lemma_chars_within_le(s, i + 1, budget - utf8_len(s[i]));
}

pub proof fn lemma_chars_within_le(s: Seq<char>, i: int, budget: int)
    requires
        0 <= i <= s.len(),
    ensures
        i <= chars_within(s, i, budget) <= s.len(),
    decreases s.len() - i,
{
    if i < s.len() && (utf8_len(s[i]) as int) <= budget {
        lemma_chars_within_le(s, i + 1, budget - utf8_len(s[i]));
    }
}

/// Folds a content line so that no line exceeds 75 octets, the leading
/// space of a continuation line included (RFC 5545), never inside a
/// character.
pub open spec fn fold_spec(s: Seq<char>) -> Seq<char> {
    if bytes_of(s, s.len() as int) <= 75 {
        s
    } else {
        fold_from(s, 0)
    }
}

fn chars_within_exec(v: &Vec<char>, i: usize, budget: usize) -> (r: usize)
    requires
        i <= v.len(),
        budget <= 75,
    ensures
        r == chars_within(v@, i as int, budget as int),
        i <= r <= v.len(),
{
    let mut k = i;
    let mut left = budget;
    proof {
        lemma_chars_within_le(v@, i as int, budget as int);
    }
    while k < v.len() && utf8_len_exec(v[k]) <= left
        invariant
            i <= k <= v.len(),
            left <= 75,
            chars_within(v@, k as int, left as int) == chars_within(v@, i as int, budget as int),
        decreases v.len() - k,
    {
        left = left - utf8_len_exec(v[k]);
        k = k + 1;
    }
    k
}

fn total_bytes(v: &Vec<char>) -> (r: usize)
    ensures
        r == if bytes_of(v@, v@.len() as int) <= 76 {
            bytes_of(v@, v@.len() as int)
        } else {
            76
        },
{
    let mut k: usize = 0;
    let mut used: usize = 0;
    while k < v.len()
        invariant
            k <= v.len(),
            used == bytes_of(v@, k as int),
            used <= 76,
        decreases v.len() - k,
    {
        proof {
            lemma_bytes_step(v@, k as int);
        }
        used = used + utf8_len_exec(v[k]);
        k = k + 1;
        if used > 75 {
            proof {
                lemma_bytes_mono(v@, k as int, v@.len() as int);
            }
            return 76;
        }
    }
    used
}

/// Folds a long content line.
pub fn fold_line(s: &str) -> (r: String)
    ensures
        r@ == fold_spec(s@),
{
    let v = chars_of(s);
    if total_bytes(&v) <= 75 {
        return s.to_owned();
    }
    let mut out: Vec<char> = Vec::new();
    let mut pos: usize = 0;
    while pos < v.len()
        invariant
            pos <= v.len(),
            out@ + fold_from(v@, pos as int) == fold_from(v@, 0),
        decreases v.len() - pos,
    {
        let budget: usize = if pos == 0 {
            75
        } else {
            74
        };
        let end = chars_within_exec(&v, pos, budget);
        proof {
            lemma_chars_within(v@, pos as int, budget as int);
        }
        let ghost before = out@;
        if pos > 0 {
            out.push('\r');
            out.push('\n');
            out.push(' ');
        }
        let piece = slice_chars(&v, pos, end);
        push_all(&mut out, &piece);
        assert(out@ + fold_from(v@, end as int) =~= before + fold_from(v@, pos as int));
        pos = end;
    }
    assert(out@ =~= fold_from(v@, 0));
    string_of(out.as_slice())
}


// ---------------------------------------------------------------------------
// Unfolding undoes folding
// ---------------------------------------------------------------------------

/// Whether the text has no line feed.
pub open spec fn no_newline(s: Seq<char>) -> bool {
    forall|i: int| 0 <= i < s.len() ==> #[trigger] s[i] != '\n'
}

/// A line without line feed that does not start with a space or a tab
/// unfolds to itself.
proof fn lemma_unfold_single(x: Seq<char>)
    requires
        x.len() > 0,
        no_newline(x),
        x[0] != ' ',
        x[0] != '\t',
    ensures
        unfold_spec(x) == x,
{
    lemma_find_from_none(x, '\n', 0);
    assert(x.subrange(0, x.len() as int) =~= x);
    assert(lines(x) == seq![x]);
    assert(unfold_acc(seq![x], 0) =~= Seq::<char>::empty());
    assert(unfold_acc(seq![x], 1) =~= x);
}

proof fn lemma_lines_from_append(x: Seq<char>, y: Seq<char>, i: int)
    requires
        0 <= i < x.len(),
        x.last() != '\n',
        no_newline(y),
        y.len() > 0,
    ensures
        lines_from(x + seq!['\r', '\n'] + y, i) == lines_from(x, i).push(y),
    decreases x.len() - i,
{
    let z = x + seq!['\r', '\n'] + y;
    let n = x.len() as int;
    lemma_find_from(x, '\n', i);
    match find_from(x, '\n', i) {
        Some(k) => {
            assert forall|j: int| i <= j < k implies #[trigger] z[j] != '\n' by {
                assert(z[j] == x[j]);
            }
            lemma_find_from_at(z, '\n', i, k);
            assert(z.subrange(i, k) =~= x.subrange(i, k));
            assert(k + 1 < n);
            lemma_lines_from_append(x, y, k + 1);
            let a = strip_cr(x.subrange(i, k));
            assert(lines_from(z, i) == seq![a] + lines_from(z, k + 1));
            assert(lines_from(x, i) == seq![a] + lines_from(x, k + 1));
            assert((seq![a] + lines_from(x, k + 1)).push(y) =~= seq![a] + lines_from(x, k + 1).push(y));
        },
        None => {
            assert forall|j: int| i <= j < n + 1 implies #[trigger] z[j] != '\n' by {
                if j < n {
                    assert(z[j] == x[j]);
                }
            }
            lemma_find_from_at(z, '\n', i, n + 1);
            assert(z.subrange(i, n + 1) =~= x.subrange(i, n).push('\r'));
            assert(strip_cr(z.subrange(i, n + 1)) =~= x.subrange(i, n));
            assert forall|j: int| n + 2 <= j < z.len() implies #[trigger] z[j] != '\n' by {
                assert(z[j] == y[j - n - 2]);
            }
            lemma_find_from_none(z, '\n', n + 2);
            assert(z.subrange(n + 2, z.len() as int) =~= y);
            assert(lines_from(z, n + 2) == seq![y]);
            assert(lines_from(z, i) == seq![x.subrange(i, n)] + seq![y]);
            assert(lines_from(x, i) == seq![x.subrange(i, n)]);
            assert(seq![x.subrange(i, n)] + seq![y] =~= seq![x.subrange(i, n)].push(y));
        },
    }
}

proof fn lemma_unfold_acc_prefix(ls: Seq<Seq<char>>, x: Seq<char>, n: int)
    requires
        0 <= n <= ls.len(),
    ensures
        unfold_acc(ls.push(x), n) == unfold_acc(ls, n),
    decreases n,
{
    if n > 0 {
        lemma_unfold_acc_prefix(ls, x, n - 1);
        assert(ls.push(x)[n - 1] == ls[n - 1]);
    }
}

/// A folded continuation unfolds onto what precedes it.
proof fn lemma_unfold_continue(p: Seq<char>, c: Seq<char>)
    requires
        p.len() > 0,
        p.last() != '\n',
        no_newline(c),
        c.len() > 0,
    ensures
        unfold_spec(p + seq!['\r', '\n', ' '] + c) == unfold_spec(p) + c,
{
    let y = seq![' '] + c;
    assert(p + seq!['\r', '\n', ' '] + c =~= p + seq!['\r', '\n'] + y);
    assert forall|i: int| 0 <= i < y.len() implies #[trigger] y[i] != '\n' by {
        if i > 0 {
            assert(y[i] == c[i - 1]);
        }
    }
    lemma_lines_from_append(p, y, 0);
    let ls = lines(p);
    lemma_unfold_acc_prefix(ls, y, ls.len() as int);
    assert(ls.push(y)[ls.len() as int] == y);
    assert(y.skip(1) =~= c);
    assert(unfold_acc(ls.push(y), ls.len() + 1int) == unfold_acc(ls.push(y), ls.len() as int) + y.skip(1));
}

proof fn lemma_unfold_fold_from(s: Seq<char>, i: int, p: Seq<char>)
    requires
        0 <= i <= s.len(),
        no_newline(s),
        s.len() > 0 ==> s[0] != ' ' && s[0] != '\t',
        i == 0 ==> p == Seq::<char>::empty(),
        i > 0 ==> p.len() > 0 && p.last() != '\n' && unfold_spec(p) == s.take(i),
    ensures
        unfold_spec(p + fold_from(s, i)) == s,
    decreases s.len() - i,
{
    if i >= s.len() {
        assert(p + fold_from(s, i) =~= p);
        if i == 0 {
            assert(s =~= Seq::<char>::empty());
            assert(lines(p) =~= Seq::<Seq<char>>::empty());
        } else {
            assert(s.take(i) =~= s);
        }
    } else {
        let j = chars_within(s, i, fold_budget(i));
        lemma_chars_within(s, i, fold_budget(i));
        let chunk = s.subrange(i, j);
        assert forall|k: int| 0 <= k < chunk.len() implies #[trigger] chunk[k] != '\n' by {
            assert(chunk[k] == s[i + k]);
        }
        let pre = if i > 0 {
            seq!['\r', '\n', ' ']
        } else {
            Seq::<char>::empty()
        };
        let p2 = p + pre + chunk;
        assert(fold_from(s, i) == pre + chunk + fold_from(s, j));
        if i == 0 {
            assert(p2 =~= chunk);
            lemma_unfold_single(chunk);
            assert(chunk =~= s.take(j));
        } else {
            lemma_unfold_continue(p, chunk);
            assert(s.take(i) + chunk =~= s.take(j));
        }
        assert(p2.last() == s[j - 1]);
        lemma_unfold_fold_from(s, j, p2);
        assert(p2 + fold_from(s, j) =~= p + fold_from(s, i));
    }
}

proof fn lemma_lines_from_trail(x: Seq<char>, e: Seq<char>, i: int)
    requires
        0 <= i < x.len(),
        x.last() != '\n',
        e == seq!['\r', '\n'] || (e == seq!['\n'] && x.last() != '\r'),
    ensures
        lines_from(x + e, i) == lines_from(x, i),
    decreases x.len() - i,
{
    let z = x + e;
    let n = x.len() as int;
    lemma_find_from(x, '\n', i);
    match find_from(x, '\n', i) {
        Some(k) => {
            assert forall|j: int| i <= j < k implies #[trigger] z[j] != '\n' by {
                assert(z[j] == x[j]);
            }
            lemma_find_from_at(z, '\n', i, k);
            assert(z.subrange(i, k) =~= x.subrange(i, k));
            assert(k + 1 < n);
            lemma_lines_from_trail(x, e, k + 1);
        },
        None => {
            let m = z.len() - 1;
            assert forall|j: int| i <= j < m implies #[trigger] z[j] != '\n' by {
                if j < n {
                    assert(z[j] == x[j]);
                }
            }
            lemma_find_from_at(z, '\n', i, m);
            if e == seq!['\r', '\n'] {
                assert(z.subrange(i, m) =~= x.subrange(i, n).push('\r'));
                assert(strip_cr(z.subrange(i, m)) =~= x.subrange(i, n));
            } else {
                assert(z.subrange(i, m) =~= x.subrange(i, n));
                assert(x.subrange(i, n).last() == x.last());
            }
            assert(lines_from(z, m + 1) =~= Seq::<Seq<char>>::empty());
            assert(lines_from(z, i) =~= seq![x.subrange(i, n)]);
        },
    }
}

/// A new content line unfolds after what precedes it, on a line of its own.
proof fn lemma_unfold_newline(p: Seq<char>, y: Seq<char>)
    requires
        p.len() > 0,
        p.last() != '\n',
        unfold_spec(p).len() > 0,
        no_newline(y),
        y.len() > 0,
        y[0] != ' ' && y[0] != '\t',
    ensures
        unfold_spec(p + seq!['\r', '\n'] + y) == unfold_spec(p) + seq!['\n'] + y,
{
    lemma_lines_from_append(p, y, 0);
    let ls = lines(p);
    lemma_unfold_acc_prefix(ls, y, ls.len() as int);
    assert(ls.push(y)[ls.len() as int] == y);
}

proof fn lemma_unfold_fold_after(q: Seq<char>, v: Seq<char>, i: int, p: Seq<char>)
    requires
        0 < i <= v.len(),
        no_newline(v),
        p.len() > 0,
        p.last() != '\n',
        unfold_spec(p) == q + v.take(i),
    ensures
        unfold_spec(p + fold_from(v, i)) == q + v,
        (p + fold_from(v, i)).len() > 0,
        (p + fold_from(v, i)).last() != '\n',
    decreases v.len() - i,
{
    if i >= v.len() {
        assert(p + fold_from(v, i) =~= p);
        assert(v.take(i) =~= v);
    } else {
        let j = chars_within(v, i, fold_budget(i));
        lemma_chars_within(v, i, fold_budget(i));
        let chunk = v.subrange(i, j);
        assert forall|k: int| 0 <= k < chunk.len() implies #[trigger] chunk[k] != '\n' by {
            assert(chunk[k] == v[i + k]);
        }
        assert(fold_from(v, i) == seq!['\r', '\n', ' '] + chunk + fold_from(v, j));
        lemma_unfold_continue(p, chunk);
        let p2 = p + seq!['\r', '\n', ' '] + chunk;
        assert(v.take(i) + chunk =~= v.take(j));
        assert(q + v.take(i) + chunk =~= q + v.take(j));
        assert(p2.last() == chunk.last());
        lemma_unfold_fold_after(q, v, j, p2);
        assert(p2 + fold_from(v, j) =~= p + fold_from(v, i));
    }
}

/// A content line whose value is folded unfolds, after what precedes it,
/// to the key and the whole value on a line of their own.
pub proof fn lemma_unfold_folded_line(p: Seq<char>, key: Seq<char>, v: Seq<char>)
    requires
        p.len() > 0,
        p.last() != '\n',
        unfold_spec(p).len() > 0,
        key.len() > 0,
        no_newline(key),
        key[0] != ' ' && key[0] != '\t',
        no_newline(v),
    ensures
        unfold_spec(p + seq!['\r', '\n'] + (key + fold_spec(v))) == unfold_spec(p) + seq!['\n'] + (key + v),
        (p + seq!['\r', '\n'] + (key + fold_spec(v))).last() != '\n',
{
    let u = unfold_spec(p);
    if bytes_of(v, v.len() as int) <= 75 {
        let y = key + v;
        assert forall|k: int| 0 <= k < y.len() implies #[trigger] y[k] != '\n' by {
            if k < key.len() {
                assert(y[k] == key[k]);
            } else {
                assert(y[k] == v[k - key.len()]);
            }
        }
        lemma_unfold_newline(p, y);
    } else {
        let j = chars_within(v, 0, 75);
        lemma_chars_within(v, 0, 75);
        let c0 = v.subrange(0, j);
        let y = key + c0;
        assert forall|k: int| 0 <= k < y.len() implies #[trigger] y[k] != '\n' by {
            if k < key.len() {
                assert(y[k] == key[k]);
            } else {
                assert(y[k] == v[k - key.len()]);
            }
        }
        lemma_unfold_newline(p, y);
        let p2 = p + seq!['\r', '\n'] + y;
        assert(c0 =~= v.take(j));
        assert(u + seq!['\n'] + y =~= (u + seq!['\n'] + key) + v.take(j));
        assert(p2.last() == y.last());
        lemma_unfold_fold_after(u + seq!['\n'] + key, v, j, p2);
        assert(fold_spec(v) == c0 + fold_from(v, j));
        assert(p2 + fold_from(v, j) =~= p + seq!['\r', '\n'] + (key + fold_spec(v)));
        assert((u + seq!['\n'] + key) + v =~= u + seq!['\n'] + (key + v));
    }
}

/// `ph` is the logical line `lo` with its value (after the first `k`
/// characters) folded.
pub open spec fn folded_as(ph: Seq<char>, lo: Seq<char>, k: int) -> bool {
    1 <= k <= lo.len() && ph == lo.take(k) + fold_spec(lo.skip(k))
}

/// A line that is not folded is its own folding.
pub proof fn lemma_folded_as_self(l: Seq<char>)
    requires
        l.len() > 0,
    ensures
        folded_as(l, l, l.len() as int),
{
    assert(l.skip(l.len() as int) =~= Seq::<char>::empty());
    assert(bytes_of(Seq::<char>::empty(), 0) == 0);
    assert(fold_spec(Seq::<char>::empty()) =~= Seq::<char>::empty());
    assert(l.take(l.len() as int) =~= l);
}

/// Folding the value after a key.
pub proof fn lemma_folded_as_value(key: Seq<char>, v: Seq<char>)
    requires
        key.len() > 0,
    ensures
        folded_as(key + fold_spec(v), key + v, key.len() as int),
{
    assert((key + v).take(key.len() as int) =~= key);
    assert((key + v).skip(key.len() as int) =~= v);
}

/// Folding line by line carries over to lists joined end to end.
pub proof fn lemma_folds_concat(a: Seq<Seq<char>>, b: Seq<Seq<char>>, c: Seq<Seq<char>>, d: Seq<Seq<char>>)
    requires
        folds_of(a, b),
        folds_of(c, d),
    ensures
        folds_of(a + c, b + d),
{
    assert forall|i: int| 0 <= i < (b + d).len() implies line_folds(#[trigger] (a + c)[i], (b + d)[i]) by {
        if i < b.len() {
            assert((a + c)[i] == a[i] && (b + d)[i] == b[i]);
            assert(line_folds(a[i], b[i]));
        } else {
            let m = i - a.len();
            assert((a + c)[i] == c[m] && (b + d)[i] == d[m]);
            assert(line_folds(c[m], d[m]));
        }
    }
}

/// Lines none of which is folded.
pub proof fn lemma_folds_same(a: Seq<Seq<char>>)
    requires
        forall|i: int| 0 <= i < a.len() ==> (#[trigger] a[i]).len() > 0,
    ensures
        folds_of(a, a),
{
    assert forall|i: int| 0 <= i < a.len() implies line_folds(#[trigger] a[i], a[i]) by {
        lemma_folded_as_self(a[i]);
    }
}

/// A logical content line that reads back as it is: not empty, no line
/// feed, no leading space or tab, no carriage return at its end.
pub open spec fn content_line(l: Seq<char>) -> bool {
    &&& l.len() > 0
    &&& no_newline(l)
    &&& l[0] != ' ' && l[0] != '\t'
    &&& l.last() != '\r'
}

/// The physical lines `ps` are the logical lines `ls`, each with its value
/// folded after its key.
pub open spec fn folds_of(ps: Seq<Seq<char>>, ls: Seq<Seq<char>>) -> bool {
    &&& ps.len() == ls.len()
    &&& forall|i: int| 0 <= i < ls.len() ==> line_folds(#[trigger] ps[i], ls[i])
}

/// `ph` is `lo` with its value folded after some key.
pub open spec fn line_folds(ph: Seq<char>, lo: Seq<char>) -> bool {
    exists|k: int| folded_as(ph, lo, k)
}

proof fn lemma_unfold_prefix(ps: Seq<Seq<char>>, ls: Seq<Seq<char>>, n: int)
    requires
        folds_of(ps, ls),
        1 <= n <= ls.len(),
        ps[0] == ls[0],
        forall|i: int| 0 <= i < ls.len() ==> content_line(#[trigger] ls[i]),
    ensures
        unfold_spec(crate::text::join(ps.take(n), seq!['\r', '\n'])) == crate::text::join(ls.take(n), seq!['\n']),
        crate::text::join(ps.take(n), seq!['\r', '\n']).len() > 0,
        crate::text::join(ps.take(n), seq!['\r', '\n']).last() != '\n',
    decreases n,
{
    let cr = seq!['\r', '\n'];
    let lf = seq!['\n'];
    assert(content_line(ls[0]));
    if n == 1 {
        assert(ps.take(1) =~= seq![ps[0]]);
        assert(ls.take(1) =~= seq![ls[0]]);
        lemma_unfold_single(ls[0]);
        assert(ls[0].last() == ls[0][ls[0].len() - 1]);
    } else {
        lemma_unfold_prefix(ps, ls, n - 1);
        let a = crate::text::join(ps.take(n - 1), cr);
        assert(ps.take(n).drop_last() =~= ps.take(n - 1));
        assert(ls.take(n).drop_last() =~= ls.take(n - 1));
        assert(crate::text::join(ps.take(n), cr) == a + cr + ps[n - 1]);
        assert(crate::text::join(ls.take(n), lf) == crate::text::join(ls.take(n - 1), lf) + lf + ls[n - 1]);
        let l = ls[n - 1];
        assert(content_line(l));
        let ph = ps[n - 1];
        assert(line_folds(ph, l));
        let k = choose|k: int| folded_as(ph, l, k);
        let key = l.take(k);
        let v = l.skip(k);
        assert forall|m: int| 0 <= m < key.len() implies #[trigger] key[m] != '\n' by {
            assert(key[m] == l[m]);
        }
        assert forall|m: int| 0 <= m < v.len() implies #[trigger] v[m] != '\n' by {
            assert(v[m] == l[m + k]);
        }
        assert(key[0] == l[0]);
        assert(crate::text::join(ls.take(n - 1), lf).len() > 0) by {
            lemma_join_nonempty(ls.take(n - 1), lf);
        }
        lemma_unfold_folded_line(a, key, v);
        assert(key + v =~= l);
    }
}

proof fn lemma_join_nonempty(ls: Seq<Seq<char>>, sep: Seq<char>)
    requires
        ls.len() >= 1,
        ls[0].len() > 0,
    ensures
        crate::text::join(ls, sep).len() > 0,
    decreases ls.len(),
{
    if ls.len() > 1 {
        assert(ls.drop_last()[0] == ls[0]);
        lemma_join_nonempty(ls.drop_last(), sep);
    }
}

proof fn lemma_join_lf_nl(ls: Seq<Seq<char>>)
    requires
        ls.len() >= 1,
    ensures
        crate::text::join(ls, seq!['\n']) + seq!['\n'] == crate::text::nl_text(ls),
    decreases ls.len(),
{
    if ls.len() == 1 {
        assert(ls.drop_last() =~= Seq::<Seq<char>>::empty());
        assert(crate::text::nl_text(Seq::<Seq<char>>::empty()) =~= Seq::<char>::empty());
        assert(crate::text::nl_text(ls) =~= ls[0] + seq!['\n']);
    } else {
        lemma_join_lf_nl(ls.drop_last());
        assert(crate::text::nl_text(ls) =~= crate::text::join(ls, seq!['\n']) + seq!['\n']);
    }
}

/// Unfolding a text of content lines, each with its value folded and each
/// ended by CRLF, gives the logical lines back.
pub proof fn lemma_unfold_content_lines(ps: Seq<Seq<char>>, ls: Seq<Seq<char>>)
    requires
        folds_of(ps, ls),
        ls.len() >= 1,
        ps[0] == ls[0],
        forall|i: int| 0 <= i < ls.len() ==> content_line(#[trigger] ls[i]),
    ensures
        lines(unfold_spec(crate::text::join(ps, seq!['\r', '\n']) + seq!['\r', '\n'])) == ls,
{
    let n = ls.len() as int;
    lemma_unfold_prefix(ps, ls, n);
    assert(ps.take(n) =~= ps);
    assert(ls.take(n) =~= ls);
    let x = crate::text::join(ps, seq!['\r', '\n']);
    lemma_lines_from_trail(x, seq!['\r', '\n'], 0);
    let j = crate::text::join(ls, seq!['\n']);
    assert(unfold_spec(x + seq!['\r', '\n']) == unfold_spec(x));
    lemma_join_lf_nl(ls);
    lemma_join_last(ls, seq!['\n']);
    assert(content_line(ls[n - 1]));
    assert(ls[n - 1].last() == ls[n - 1][ls[n - 1].len() - 1]);
    lemma_join_nonempty(ls, seq!['\n']);
    assert(content_line(ls[0]));
    lemma_lines_from_trail(j, seq!['\n'], 0);
    assert forall|i: int| 0 <= i < ls.len() implies crate::text::plain_line(#[trigger] ls[i]) by {
        assert(content_line(ls[i]));
    }
    crate::text::lemma_lines_nl_text(ls);
}

proof fn lemma_join_last(ls: Seq<Seq<char>>, sep: Seq<char>)
    requires
        ls.len() >= 1,
        ls.last().len() > 0,
    ensures
        crate::text::join(ls, sep).last() == ls.last().last(),
{
}

/// Unfolding undoes folding, for a line without line feed that does not
/// start with a space or a tab (a leading space would be read as the
/// continuation of a previous line).
pub proof fn lemma_unfold_fold(s: Seq<char>)
    requires
        no_newline(s),
        s.len() > 0 ==> s[0] != ' ' && s[0] != '\t',
    ensures
        unfold_spec(fold_spec(s)) == s,
{
    if bytes_of(s, s.len() as int) <= 75 {
        if s.len() > 0 {
            lemma_unfold_single(s);
        } else {
            assert(lines(s) =~= Seq::<Seq<char>>::empty());
            assert(unfold_spec(s) =~= s);
        }
    } else {
        lemma_unfold_fold_from(s, 0, Seq::<char>::empty());
        assert(Seq::<char>::empty() + fold_from(s, 0) =~= fold_from(s, 0));
    }
}

} // verus!
