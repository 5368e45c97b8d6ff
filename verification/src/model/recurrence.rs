//! Org-mode repeaters.
//!
//! - Standard (`+1w`): the next occurrence counts from the original date.
//! - Relative (`.+1d`): the next occurrence counts from the completion date.
//! - Strict (`++1m`): the interval is added until the date is in the future.

use vstd::prelude::*;

use crate::dates::{days_in_month, valid_ymd, day_number, ymd_of, min_day, max_day, min_year, max_year, Date, lemma_ymd_of, lemma_valid_day_number_range};
use crate::text::{decimal, push_decimal, push_str, string_of, trim, chars_of, trim_chars, parse_u32_range};

verus! {

#[derive(Debug, Clone, Copy, PartialEq, Eq, Structural)]
pub enum RecurrenceUnit {
    Day,
    Week,
    Month,
    Year,
}

#[derive(Debug, Clone, Copy, PartialEq, Eq, Structural)]
pub struct RecurrenceInterval {
    pub count: u32,
    pub unit: RecurrenceUnit,
}

#[derive(Debug, Clone, Copy, PartialEq, Eq, Structural)]
pub enum Recurrence {
    /// `+N<unit>`: from the original date.
    Standard(RecurrenceInterval),
    /// `.+N<unit>`: from the completion date.
    Relative(RecurrenceInterval),
    /// `++N<unit>`: skipped forward past today.
    Strict(RecurrenceInterval),
}

pub open spec fn interval_of(r: Recurrence) -> RecurrenceInterval {
    match r {
        Recurrence::Standard(i) => i,
        Recurrence::Relative(i) => i,
        Recurrence::Strict(i) => i,
    }
}

// ---------------------------------------------------------------------------
// Date arithmetic
// ---------------------------------------------------------------------------

/// The month arithmetic of `add_months`: the year, month and (clamped) day
/// `months` months after the date with day number `n`.
pub open spec fn months_later(n: int, months: int) -> (int, int, int) {
    let (y, m, d) = ymd_of(n);
    let total = m - 1 + months;
    let ny = y + total / 12;
    let nm = total % 12 + 1;
    let dim = days_in_month(ny, nm);
    (ny, nm, if d < dim { d } else { dim })
}

/// Whether `add_months(n, months)` runs without overflow: the month count
/// fits a `u32`, and the new year and the month after the new month are
/// representable.
pub open spec fn months_ok(n: int, months: int) -> bool {
    let (y, m, d) = ymd_of(n);
    let total = m - 1 + months;
    let ny = y + total / 12;
    let nm = total % 12 + 1;
    &&& 0 <= months
    &&& total <= u32::MAX
    &&& min_year() <= ny
    &&& ny + (if nm == 12 { 1int } else { 0int }) <= max_year()
}

/// The day number `iv` after day `n`.
pub open spec fn interval_add(iv: RecurrenceInterval, n: int) -> int {
    match iv.unit {
        RecurrenceUnit::Day => n + iv.count,
        RecurrenceUnit::Week => n + 7 * iv.count,
        RecurrenceUnit::Month => {
            let t = months_later(n, iv.count as int);
            day_number(t.0, t.1, t.2)
        },
        RecurrenceUnit::Year => {
            let t = months_later(n, iv.count * 12);
            day_number(t.0, t.1, t.2)
        },
    }
}

/// Whether adding `iv` to day `n` stays representable.
pub open spec fn interval_add_ok(iv: RecurrenceInterval, n: int) -> bool {
    &&& min_day() <= n <= max_day()
    &&& match iv.unit {
        RecurrenceUnit::Day => n + iv.count <= max_day(),
        RecurrenceUnit::Week => n + 7 * iv.count <= max_day(),
        RecurrenceUnit::Month => months_ok(n, iv.count as int),
        RecurrenceUnit::Year => iv.count * 12 <= u32::MAX && months_ok(n, iv.count * 12),
    }
}

/// `iv` added `k` times to day `n`.
pub open spec fn add_n(iv: RecurrenceInterval, n: int, k: nat) -> int
    decreases k,
{
    if k == 0 {
        n
    } else {
        interval_add(iv, add_n(iv, n, (k - 1) as nat))
    }
}

/// `k` additions of `iv` take day `n` past day `today`, each of the
/// earlier values being on or before `today` and representable.
pub open spec fn strict_reaches(iv: RecurrenceInterval, n: int, today: int, k: nat) -> bool {
    &&& forall|j: nat| j < k ==> #[trigger] add_n(iv, n, j) <= today && interval_add_ok(iv, add_n(iv, n, j))
    &&& add_n(iv, n, k) > today
}

/// The strict repeater's next date: the first of `n`, `n + iv`, `n + 2iv`,
/// ... that is after `today`.
pub open spec fn strict_next(iv: RecurrenceInterval, n: int, today: int) -> int {
    add_n(iv, n, choose|k: nat| strict_reaches(iv, n, today, k))
}

pub proof fn lemma_strict_unique(iv: RecurrenceInterval, n: int, today: int, k1: nat, k2: nat)
    requires
        strict_reaches(iv, n, today, k1),
        strict_reaches(iv, n, today, k2),
    ensures
        k1 == k2,
{
    if k1 < k2 {
        assert(add_n(iv, n, k1) <= today);
    } else if k2 < k1 {
        assert(add_n(iv, n, k2) <= today);
    }
}

/// The number of days in month `month` of `year`.
pub fn days_in_month_of(year: i32, month: u32) -> (r: u32)
    requires
        1 <= month <= 12,
        min_year() <= year,
    ensures
        r == days_in_month(year as int, month as int),
{
    if month == 2 {
        let p: i64 = year as i64 + 400_000;
        assert(p % 4 == year % 4 && p % 100 == year % 100 && p % 400 == year % 400) by {
            assert(p == year + 4 * 100_000);
            assert(p == year + 100 * 4_000);
            assert(p == year + 400 * 1_000);
        }
        if p % 4 == 0 && (p % 100 != 0 || p % 400 == 0) {
            29
        } else {
            28
        }
    } else if month == 4 || month == 6 || month == 9 || month == 11 {
        30
    } else {
        31
    }
}

/// The date `months` months after `date`, the day clamped to the new month.
#[verifier::rlimit(60)]
pub fn add_months(date: Date, months: u32) -> (r: Date)
    requires
        months_ok(date.num(), months as int),
    ensures
        ({
            let t = months_later(date.num(), months as int);
            r.num() == day_number(t.0, t.1, t.2)
        }),
{
    let (y, m, d) = date.ymd();
    let ghost t = months_later(date.num(), months as int);
    assert(ymd_of(date.num()) == (y as int, m as int, d as int));
    let total_months: u32 = (m - 1) + months;
    let q: u32 = total_months / 12;
    assert(y + q <= max_year());
    let new_year: i32 = y + q as i32;
    let new_month: u32 = (total_months % 12) + 1;
    assert(new_year == t.0 && new_month == t.1);
    let max_day_: u32 = days_in_month_of(new_year, new_month);
    let new_day: u32 = if d < max_day_ {
        d
    } else {
        max_day_
    };
    proof {
        assert(valid_ymd(new_year as int, new_month as int, new_day as int));
    }
    match Date::from_ymd(new_year, new_month, new_day) {
        Some(x) => x,
        None => date,
    }
}

impl RecurrenceInterval {
    /// The date this interval after `date`.
    pub fn add_to(&self, date: Date) -> (r: Date)
        requires
            interval_add_ok(*self, date.num()),
        ensures
            r.num() == interval_add(*self, date.num()),
    {
        match self.unit {
            RecurrenceUnit::Day => date.add_days(self.count as i64).unwrap(),
            RecurrenceUnit::Week => date.add_days(7 * self.count as i64).unwrap(),
            RecurrenceUnit::Month => add_months(date, self.count),
            RecurrenceUnit::Year => add_months(date, self.count * 12),
        }
    }
}

/// What `next_date` needs to run to completion: the interval can be added
/// to the date it starts from, and for a strict repeater some number of
/// additions passes `today` with each step representable.
pub open spec fn next_date_ok(r: Recurrence, original: Date, completed: Date, today: Date) -> bool {
    match r {
        Recurrence::Standard(iv) => interval_add_ok(iv, original.num()),
        Recurrence::Relative(iv) => interval_add_ok(iv, completed.num()),
        Recurrence::Strict(iv) => exists|k: nat| strict_reaches(iv, original.num(), today.num(), k),
    }
}

/// The next occurrence, as a day number.
pub open spec fn next_date_spec(r: Recurrence, original: Date, completed: Date, today: Date) -> int {
    match r {
        Recurrence::Standard(iv) => interval_add(iv, original.num()),
        Recurrence::Relative(iv) => interval_add(iv, completed.num()),
        Recurrence::Strict(iv) => strict_next(iv, original.num(), today.num()),
    }
}

// ---------------------------------------------------------------------------
// Text form
// ---------------------------------------------------------------------------

pub open spec fn unit_letter(u: RecurrenceUnit) -> char {
    match u {
        RecurrenceUnit::Day => 'd',
        RecurrenceUnit::Week => 'w',
        RecurrenceUnit::Month => 'm',
        RecurrenceUnit::Year => 'y',
    }
}

pub open spec fn unit_of_letter(c: char) -> Option<RecurrenceUnit> {
    if c == 'd' {
        Some(RecurrenceUnit::Day)
    } else if c == 'w' {
        Some(RecurrenceUnit::Week)
    } else if c == 'm' {
        Some(RecurrenceUnit::Month)
    } else if c == 'y' {
        Some(RecurrenceUnit::Year)
    } else {
        None
    }
}

/// The repeater text: `+`, `.+` or `++`, the count in decimal, the unit.
pub open spec fn recurrence_text(r: Recurrence) -> Seq<char> {
    let prefix = match r {
        Recurrence::Standard(_) => seq!['+'],
        Recurrence::Relative(_) => seq!['.', '+'],
        Recurrence::Strict(_) => seq!['+', '+'],
    };
    let iv = interval_of(r);
    prefix + decimal(iv.count as nat) + seq![unit_letter(iv.unit)]
}

/// Which kind of repeater the (trimmed) text starts with, and the rest.
/// 0 = relative, 1 = strict, 2 = standard.
pub open spec fn repeater_prefix(t: Seq<char>) -> Option<(int, Seq<char>)> {
    if t.len() >= 2 && t[0] == '.' && t[1] == '+' {
        Some((0int, t.skip(2)))
    } else if t.len() >= 2 && t[0] == '+' && t[1] == '+' {
        Some((1int, t.skip(2)))
    } else if t.len() >= 1 && t[0] == '+' {
        Some((2int, t.skip(1)))
    } else {
        None
    }
}

/// The inputs on which `Recurrence::parse` does not panic: after the
/// prefix, something is left, and its last character is one byte long.
pub open spec fn recurrence_parse_ok(s: Seq<char>) -> bool {
    match repeater_prefix(trim(s)) {
        None => true,
        Some((_, rest)) => rest.len() > 0 && (rest.last() as u32) < 0x80,
    }
}

pub open spec fn make_recurrence(kind: int, iv: RecurrenceInterval) -> Recurrence {
    if kind == 0 {
        Recurrence::Relative(iv)
    } else if kind == 1 {
        Recurrence::Strict(iv)
    } else {
        Recurrence::Standard(iv)
    }
}

/// `Recurrence::parse`: trim, read the prefix, then a count that
/// `str::parse::<u32>` accepts and a unit letter.
pub open spec fn parse_recurrence_spec(s: Seq<char>) -> Option<Recurrence> {
    match repeater_prefix(trim(s)) {
        None => None,
        Some((kind, rest)) => match (
            crate::text::parse_u32_spec(rest.drop_last()),
            unit_of_letter(rest.last()),
        ) {
            (Some(count), Some(unit)) => Some(
                make_recurrence(kind, RecurrenceInterval { count, unit }),
            ),
            _ => None,
        },
    }
}

impl Recurrence {
    /// The next occurrence after a completion on `completed`.
    pub fn next_date(&self, original: Date, completed: Date, today: Date) -> (r: Date)
        requires
            next_date_ok(*self, original, completed, today),
        ensures
            r.num() == next_date_spec(*self, original, completed, today),
    {
        match self {
            Recurrence::Standard(interval) => interval.add_to(original),
            Recurrence::Relative(interval) => interval.add_to(completed),
            Recurrence::Strict(interval) => {
                let ghost iv = *interval;
                let ghost k = choose|k: nat| strict_reaches(iv, original.num(), today.num(), k);
                let ghost mut j: nat = 0;
                let mut date = original;
                while !today.is_before(&date)
                    invariant
                        iv == *interval,
                        strict_reaches(iv, original.num(), today.num(), k),
                        j <= k,
                        date.num() == add_n(iv, original.num(), j),
                    decreases k - j,
                {
                    assert(j < k) by {
                        if j == k {
                            assert(add_n(iv, original.num(), k) > today.num());
                        }
                    }
                    assert(interval_add_ok(iv, add_n(iv, original.num(), j)));
                    date = interval.add_to(date);
                    proof {
                        j = j + 1;
                    }
                }
                proof {
                    assert(strict_reaches(iv, original.num(), today.num(), j)) by {
                        assert forall|i: nat| i < j implies #[trigger] add_n(iv, original.num(), i)
                            <= today.num() && interval_add_ok(iv, add_n(iv, original.num(), i)) by {
                            assert(i < k);
                        }
                    }
                    lemma_strict_unique(iv, original.num(), today.num(), j, k);
                }
                date
            },
        }
    }

    /// Parses a repeater such as `+1w`, `.+1d` or `++1m`.
    pub fn parse(s: &str) -> (r: Option<Recurrence>)
        requires
            recurrence_parse_ok(s@),
        ensures
            r == parse_recurrence_spec(s@),
    {
        let v = chars_of(s);
        Self::parse_chars(&v)
    }

    /// Parses a repeater given as characters.
    pub fn parse_chars(v: &Vec<char>) -> (r: Option<Recurrence>)
        requires
            recurrence_parse_ok(v@),
        ensures
            r == parse_recurrence_spec(v@),
    {
        let t = trim_chars(v);
        let n = t.len();
        let (kind, start): (u8, usize) = if n >= 2 && t[0] == '.' && t[1] == '+' {
            (0, 2)
        } else if n >= 2 && t[0] == '+' && t[1] == '+' {
            (1, 2)
        } else if n >= 1 && t[0] == '+' {
            (2, 1)
        } else {
            return None;
        };
        let ghost rest = t@.skip(start as int);
        assert(repeater_prefix(t@) == Some((kind as int, rest)));
        let last = t[n - 1];
        assert(rest.last() == last);
        assert(rest.drop_last() =~= t@.subrange(start as int, n - 1));
        let count = parse_u32_range(&t, start, n - 1);
        let unit = if last == 'd' {
            RecurrenceUnit::Day
        } else if last == 'w' {
            RecurrenceUnit::Week
        } else if last == 'm' {
            RecurrenceUnit::Month
        } else if last == 'y' {
            RecurrenceUnit::Year
        } else {
            return None;
        };
        match count {
            Some(count) => {
                let iv = RecurrenceInterval { count, unit };
                Some(
                    if kind == 0 {
                        Recurrence::Relative(iv)
                    } else if kind == 1 {
                        Recurrence::Strict(iv)
                    } else {
                        Recurrence::Standard(iv)
                    },
                )
            },
            None => None,
        }
    }

    /// The repeater text (what `Display` writes in the original format).
    pub fn to_string(&self) -> (r: String)
        ensures
            r@ == recurrence_text(*self),
    {
        let mut v: Vec<char> = Vec::new();
        self.push_text(&mut v);
        assert(v@ =~= recurrence_text(*self));
        string_of(v.as_slice())
    }

    /// Appends the repeater text to `v`.
    pub fn push_text(&self, v: &mut Vec<char>)
        ensures
            final(v)@ == old(v)@ + recurrence_text(*self),
    {
        let iv = match self {
            Recurrence::Standard(i) => {
                v.push('+');
                *i
            },
            Recurrence::Relative(i) => {
                v.push('.');
                v.push('+');
                *i
            },
            Recurrence::Strict(i) => {
                v.push('+');
                v.push('+');
                *i
            },
        };
        push_decimal(v, iv.count as u64);
        let c = match iv.unit {
            RecurrenceUnit::Day => 'd',
            RecurrenceUnit::Week => 'w',
            RecurrenceUnit::Month => 'm',
            RecurrenceUnit::Year => 'y',
        };
        v.push(c);
        assert(final(v)@ =~= old(v)@ + recurrence_text(*self));
    }
}

/// The text of a repeater is accepted by the parser and parses back to it.
pub proof fn lemma_recurrence_text_roundtrip(r: Recurrence)
    ensures
        recurrence_parse_ok(recurrence_text(r)),
        parse_recurrence_spec(recurrence_text(r)) == Some(r),
{
    let t = recurrence_text(r);
    let iv = interval_of(r);
    let d = decimal(iv.count as nat);
    crate::text::lemma_decimal_digits(iv.count as nat);
    crate::text::lemma_trim_no_ws(t);
    let rest = d + seq![unit_letter(iv.unit)];
    match r {
        Recurrence::Standard(_) => {
            assert(t.skip(1) =~= rest);
        },
        Recurrence::Relative(_) => {
            assert(t.skip(2) =~= rest);
        },
        Recurrence::Strict(_) => {
            assert(t.skip(2) =~= rest);
            assert(d[0] != '+');
        },
    }
    assert(rest.drop_last() =~= d);
    assert(rest.last() == unit_letter(iv.unit));
    crate::text::lemma_parse_u32_decimal(iv.count);
}

} // verus!
