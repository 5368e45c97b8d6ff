//! Calendar dates and date-times of the proleptic Gregorian calendar.
//!
//! A `Date` is held as its day number (January 1 of year 1 is day 1), the
//! representation in which ordering and day arithmetic are plain integer
//! operations. The calendar itself (which triples are dates, their day
//! numbers, weekdays, text forms) comes from `chrono` through the trusted
//! items at the end of this file, whose contracts state the calendar rules.

use crate::text::{
    all_digits, decimal, decimal_value, digit_char, digit_value, four_digits, is_ascii_digit, lemma_decimal_digits,
    parse_digits_u32, string_of, two_digits,
};
use chrono::{Datelike, Timelike};
use vstd::prelude::*;

verus! {

// ---------------------------------------------------------------------------
// The calendar
// ---------------------------------------------------------------------------

/// The first and last years `chrono::NaiveDate` represents.
pub open spec fn min_year() -> int {
    -262143
}

pub open spec fn max_year() -> int {
    262142
}

pub open spec fn is_leap_year(y: int) -> bool {
    y % 4 == 0 && (y % 100 != 0 || y % 400 == 0)
}

pub open spec fn days_in_month(y: int, m: int) -> int {
    if m == 2 {
        if is_leap_year(y) {
            29
        } else {
            28
        }
    } else if m == 4 || m == 6 || m == 9 || m == 11 {
        30
    } else {
        31
    }
}

/// Whether `(y, m, d)` names a date `chrono` can represent.
pub open spec fn valid_ymd(y: int, m: int, d: int) -> bool {
    min_year() <= y <= max_year() && 1 <= m <= 12 && 1 <= d <= days_in_month(y, m)
}

pub open spec fn days_before_month(y: int, m: int) -> int {
    let base: int = if m == 1 {
        0
    } else if m == 2 {
        31
    } else if m == 3 {
        59
    } else if m == 4 {
        90
    } else if m == 5 {
        120
    } else if m == 6 {
        151
    } else if m == 7 {
        181
    } else if m == 8 {
        212
    } else if m == 9 {
        243
    } else if m == 10 {
        273
    } else if m == 11 {
        304
    } else {
        334
    };
    if m > 2 && is_leap_year(y) {
        base + 1
    } else {
        base
    }
}

pub open spec fn days_before_year(y: int) -> int {
    let p = y - 1;
    365 * p + p / 4 - p / 100 + p / 400
}

/// The day number of a date: January 1 of year 1 is day 1 (what
/// `chrono::Datelike::num_days_from_ce` returns).
pub open spec fn day_number(y: int, m: int, d: int) -> int {
    days_before_year(y) + days_before_month(y, m) + d
}

/// Day numbers of the first and the last representable date.
pub open spec fn min_day() -> int {
    -95746129
}

pub open spec fn max_day() -> int {
    95745399
}

/// The day numbers run from January 1 of the first supported year to
/// December 31 of the last.
pub proof fn lemma_day_range_bounds()
    ensures
        min_day() == day_number(min_year(), 1, 1),
        max_day() == day_number(max_year(), 12, 31),
{
}

/// Day of the week, Monday = 0 ... Sunday = 6 (day 1 was a Monday).
pub open spec fn weekday_of(n: int) -> int {
    (n + 6) % 7
}

/// English three-letter weekday names, as `%a` writes them.
pub open spec fn weekday_abbrev(w: int) -> Seq<char> {
    if w == 0 {
        "Mon"@
    } else if w == 1 {
        "Tue"@
    } else if w == 2 {
        "Wed"@
    } else if w == 3 {
        "Thu"@
    } else if w == 4 {
        "Fri"@
    } else if w == 5 {
        "Sat"@
    } else {
        "Sun"@
    }
}

/// Zero-padding of a digit run to at least four characters.
pub open spec fn pad4(s: Seq<char>) -> Seq<char> {
    if s.len() >= 4 {
        s
    } else {
        Seq::new((4 - s.len()) as nat, |i: int| '0') + s
    }
}

/// `%Y`: the year zero-padded to four digits, signed outside `0..=9999`.
pub open spec fn year_text(y: int) -> Seq<char> {
    if 0 <= y && y <= 9999 {
        four_digits(y)
    } else if y > 9999 {
        seq!['+'] + decimal(y as nat)
    } else {
        seq!['-'] + pad4(decimal((0 - y) as nat))
    }
}

/// `%Y-%m-%d`.
pub open spec fn iso_date_text(y: int, m: int, d: int) -> Seq<char> {
    year_text(y) + seq!['-'] + two_digits(m) + seq!['-'] + two_digits(d)
}

/// `%Y%m%d`.
pub open spec fn basic_date_text(y: int, m: int, d: int) -> Seq<char> {
    year_text(y) + two_digits(m) + two_digits(d)
}

/// The calendar triple of the day number `n` (for `n` in range, the unique
/// valid triple with that day number; see `lemma_ymd_of`).
pub open spec fn ymd_of(n: int) -> (int, int, int) {
    choose|t: (int, int, int)| valid_ymd(t.0, t.1, t.2) && day_number(t.0, t.1, t.2) == n
}

/// The day after a valid date, as a triple.
pub open spec fn next_ymd(y: int, m: int, d: int) -> (int, int, int) {
    if d < days_in_month(y, m) {
        (y, m, d + 1)
    } else if m < 12 {
        (y, m + 1, 1)
    } else {
        (y + 1, 1, 1)
    }
}

proof fn lemma_next_ymd(y: int, m: int, d: int)
    requires
        valid_ymd(y, m, d),
        day_number(y, m, d) < max_day(),
    ensures
        valid_ymd(next_ymd(y, m, d).0, next_ymd(y, m, d).1, next_ymd(y, m, d).2),
        day_number(next_ymd(y, m, d).0, next_ymd(y, m, d).1, next_ymd(y, m, d).2) == day_number(
            y,
            m,
            d,
        ) + 1,
{
    lemma_month_bounds(y, m);
    lemma_days_before_year_step(y);
    if d == days_in_month(y, m) && m == 12 {
        if y == max_year() {
            assert(day_number(y, m, d) == max_day());
        }
    }
}

/// Every day number in range names a valid date.
pub proof fn lemma_exists_ymd(n: int)
    requires
        min_day() <= n <= max_day(),
    ensures
        exists|t: (int, int, int)| valid_ymd(t.0, t.1, t.2) && day_number(t.0, t.1, t.2) == n,
    decreases n - min_day(),
{
    if n == min_day() {
        let t = (min_year(), 1int, 1int);
        assert(valid_ymd(t.0, t.1, t.2) && day_number(t.0, t.1, t.2) == n);
    } else {
        lemma_exists_ymd(n - 1);
        let t = choose|t: (int, int, int)|
            valid_ymd(t.0, t.1, t.2) && day_number(t.0, t.1, t.2) == n - 1;
        lemma_next_ymd(t.0, t.1, t.2);
        let u = next_ymd(t.0, t.1, t.2);
        assert(valid_ymd(u.0, u.1, u.2) && day_number(u.0, u.1, u.2) == n);
    }
}

proof fn lemma_days_before_month_mono(y: int, m1: int, m2: int)
    requires
        1 <= m1 < m2 <= 12,
    ensures
        days_before_month(y, m1) + days_in_month(y, m1) <= days_before_month(y, m2),
{
}

/// Distinct valid dates have distinct day numbers.
pub proof fn lemma_day_number_injective(y1: int, m1: int, d1: int, y2: int, m2: int, d2: int)
    requires
        valid_ymd(y1, m1, d1),
        valid_ymd(y2, m2, d2),
        day_number(y1, m1, d1) == day_number(y2, m2, d2),
    ensures
        y1 == y2 && m1 == m2 && d1 == d2,
{
    if y1 < y2 {
        lemma_month_bounds(y1, m1);
        lemma_days_before_year_step(y1);
        lemma_days_before_year_mono(y1 + 1, y2);
        lemma_month_bounds(y2, m2);
    } else if y2 < y1 {
        lemma_month_bounds(y2, m2);
        lemma_days_before_year_step(y2);
        lemma_days_before_year_mono(y2 + 1, y1);
        lemma_month_bounds(y1, m1);
    } else if m1 < m2 {
        lemma_days_before_month_mono(y1, m1, m2);
    } else if m2 < m1 {
        lemma_days_before_month_mono(y1, m2, m1);
    }
}

pub proof fn lemma_ymd_of(n: int)
    requires
        min_day() <= n <= max_day(),
    ensures
        valid_ymd(ymd_of(n).0, ymd_of(n).1, ymd_of(n).2),
        day_number(ymd_of(n).0, ymd_of(n).1, ymd_of(n).2) == n,
{
    lemma_exists_ymd(n);
}

pub proof fn lemma_ymd_of_day_number(y: int, m: int, d: int)
    requires
        valid_ymd(y, m, d),
    ensures
        ymd_of(day_number(y, m, d)) == (y, m, d),
{
    let n = day_number(y, m, d);
    lemma_valid_day_number_range(y, m, d);
    lemma_ymd_of(n);
    let t = ymd_of(n);
    lemma_day_number_injective(t.0, t.1, t.2, y, m, d);
}

// ---------------------------------------------------------------------------
// Date
// ---------------------------------------------------------------------------

/// A calendar date, held as its day number.
#[derive(Clone, Copy, Debug, PartialEq, Eq, Hash, Structural)]
pub struct Date {
    days: i32,
}

impl Date {
    #[verifier::type_invariant]
    pub closed spec fn inv(self) -> bool {
        min_day() <= self.days <= max_day()
    }

    /// The day number.
    pub closed spec fn num(self) -> int {
        self.days as int
    }

    pub open spec fn year(self) -> int {
        ymd_of(self.num()).0
    }

    pub open spec fn month(self) -> int {
        ymd_of(self.num()).1
    }

    pub open spec fn day(self) -> int {
        ymd_of(self.num()).2
    }

    /// Makes the date `(y, m, d)`; `None` when it is not a valid date.
    pub fn from_ymd(y: i32, m: u32, d: u32) -> (r: Option<Date>)
        ensures
            r is Some <==> valid_ymd(y as int, m as int, d as int),
            r matches Some(x) ==> x.num() == day_number(y as int, m as int, d as int),
    {
        match chrono_from_ymd(y, m, d) {
            Some(n) => {
                assert(min_day() <= n <= max_day()) by {
                    lemma_valid_day_number_range(y as int, m as int, d as int);
                }
                Some(Date { days: n })
            },
            None => None,
        }
    }

    /// The date with day number `n`, if it is in the representable range.
    pub fn from_day_number(n: i64) -> (r: Option<Date>)
        ensures
            r is Some <==> min_day() <= n <= max_day(),
            r matches Some(x) ==> x.num() == n,
    {
        if -95746129 <= n && n <= 95745399 {
            Some(Date { days: n as i32 })
        } else {
            None
        }
    }

    pub fn day_number(&self) -> (r: i32)
        ensures
            r == self.num(),
            min_day() <= r <= max_day(),
    {
        proof {
            use_type_invariant(self);
        }
        self.days
    }

    /// Year, month and day.
    pub fn ymd(&self) -> (r: (i32, u32, u32))
        ensures
            valid_ymd(r.0 as int, r.1 as int, r.2 as int),
            day_number(r.0 as int, r.1 as int, r.2 as int) == self.num(),
            r.0 == self.year() && r.1 == self.month() && r.2 == self.day(),
    {
        proof {
            use_type_invariant(self);
        }
        let r = chrono_ymd(self.days);
        proof {
            lemma_ymd_of_day_number(r.0 as int, r.1 as int, r.2 as int);
        }
        r
    }

    /// The date `k` months later, the day clamped to the length of the
    /// new month; `None` when it is out of range.
    pub fn checked_add_months(&self, k: u32) -> (r: Option<Date>)
        requires
            1 <= k <= i32::MAX,
        ensures
            opt_num(r) == month_shift(self.num(), k as int),
    {
        proof {
            use_type_invariant(self);
        }
        match chrono_add_months(self.days, k) {
            Some(n) => Some(Date { days: n }),
            None => None,
        }
    }

    /// The date `k` months earlier, the day clamped to the length of the
    /// new month; `None` when it is out of range.
    pub fn checked_sub_months(&self, k: u32) -> (r: Option<Date>)
        requires
            1 <= k <= i32::MAX,
        ensures
            opt_num(r) == month_shift(self.num(), 0 - k),
    {
        proof {
            use_type_invariant(self);
        }
        match chrono_sub_months(self.days, k) {
            Some(n) => Some(Date { days: n }),
            None => None,
        }
    }

    /// The date `n` days later (earlier for negative `n`), if representable.
    pub fn add_days(&self, n: i64) -> (r: Option<Date>)
        ensures
            r is Some <==> min_day() <= self.num() + n <= max_day(),
            r matches Some(x) ==> x.num() == self.num() + n,
    {
        proof {
            use_type_invariant(self);
        }
        if n < -200000000 || n > 200000000 {
            return None;
        }
        Date::from_day_number(self.days as i64 + n)
    }

    /// The next day, or this date if it is the last representable one.
    pub fn succ_or_self(&self) -> (r: Date)
        ensures
            r.num() == if self.num() < max_day() {
                self.num() + 1
            } else {
                self.num()
            },
    {
        proof {
            use_type_invariant(self);
        }
        match self.add_days(1) {
            Some(x) => x,
            None => *self,
        }
    }

    /// The previous day, or this date if it is the first representable one.
    pub fn pred_or_self(&self) -> (r: Date)
        ensures
            r.num() == if self.num() > min_day() {
                self.num() - 1
            } else {
                self.num()
            },
    {
        proof {
            use_type_invariant(self);
        }
        match self.add_days(-1) {
            Some(x) => x,
            None => *self,
        }
    }

    /// `self - other` in days.
    pub fn days_since(&self, other: &Date) -> (r: i64)
        ensures
            r == self.num() - other.num(),
    {
        proof {
            use_type_invariant(self);
            use_type_invariant(other);
        }
        self.days as i64 - other.days as i64
    }

    pub fn is_before(&self, other: &Date) -> (r: bool)
        ensures
            r == (self.num() < other.num()),
    {
        self.days < other.days
    }

    pub fn is_same(&self, other: &Date) -> (r: bool)
        ensures
            r == (self.num() == other.num()),
            r == (*self == *other),
    {
        self.days == other.days
    }

    /// Day of the week, Monday = 0 ... Sunday = 6.
    pub fn weekday(&self) -> (r: u32)
        ensures
            r == weekday_of(self.num()),
            r < 7,
    {
        proof {
            use_type_invariant(self);
        }
        chrono_weekday(self.days)
    }

    /// The last representable date.
    pub fn max_value() -> (r: Date)
        ensures
            r.num() == max_day(),
    {
        Date { days: 95745399 }
    }

    /// `%Y-%m-%d`.
    pub fn to_iso_string(&self) -> (r: String)
        ensures
            r@ == iso_date_text(self.year(), self.month(), self.day()),
    {
        proof {
            use_type_invariant(self);
            lemma_ymd_of(self.num());
        }
        chrono_format_date(self.days, "%Y-%m-%d")
    }

    /// `%Y%m%d`.
    pub fn to_basic_string(&self) -> (r: String)
        ensures
            r@ == basic_date_text(self.year(), self.month(), self.day()),
    {
        proof {
            use_type_invariant(self);
            lemma_ymd_of(self.num());
        }
        chrono_format_date(self.days, "%Y%m%d")
    }

    /// `%a`: the English three-letter weekday name.
    pub fn weekday_name(&self) -> (r: String)
        ensures
            r@ == weekday_abbrev(weekday_of(self.num())),
    {
        proof {
            use_type_invariant(self);
        }
        chrono_format_date(self.days, "%a")
    }

    /// Today's date in the local time zone.
    pub fn today() -> (r: Date)
        ensures
            min_day() <= r.num() <= max_day(),
    {
        chrono_today()
    }
}

/// Valid dates have day numbers inside the representable range.
pub proof fn lemma_valid_day_number_range(y: int, m: int, d: int)
    requires
        valid_ymd(y, m, d),
    ensures
        min_day() <= day_number(y, m, d) <= max_day(),
{
    lemma_days_before_year_mono(min_year(), y);
    lemma_days_before_year_mono(y + 1, max_year() + 1);
    lemma_days_before_year_step(y);
    lemma_month_bounds(y, m);
    lemma_days_before_year_step(max_year());
}

proof fn lemma_div_step(p: int, k: int)
    requires
        k > 0,
    ensures
        (p + 1) / k == p / k + if (p + 1) % k == 0 {
            1int
        } else {
            0int
        },
{
    let q0 = p / k;
    let r0 = p % k;
    let q1 = (p + 1) / k;
    let r1 = (p + 1) % k;
    assert(p == k * q0 + r0 && 0 <= r0 < k) by (nonlinear_arith)
        requires
            k > 0,
            q0 == p / k,
            r0 == p % k,
    ;
    assert(p + 1 == k * q1 + r1 && 0 <= r1 < k) by (nonlinear_arith)
        requires
            k > 0,
            q1 == (p + 1) / k,
            r1 == (p + 1) % k,
    ;
    assert(q1 == q0 + if r1 == 0 {
        1int
    } else {
        0int
    }) by (nonlinear_arith)
        requires
            k > 0,
            p == k * q0 + r0,
            0 <= r0 < k,
            p + 1 == k * q1 + r1,
            0 <= r1 < k,
    ;
}

/// Days before year `y + 1` exceed those before `y` by the length of year `y`.
pub proof fn lemma_days_before_year_step(y: int)
    ensures
        days_before_year(y + 1) == days_before_year(y) + if is_leap_year(y) {
            366int
        } else {
            365int
        },
{
    let p = y - 1;
    lemma_div_step(p, 4);
    lemma_div_step(p, 100);
    lemma_div_step(p, 400);
}

pub proof fn lemma_days_before_year_mono(a: int, b: int)
    requires
        a <= b,
    ensures
        days_before_year(a) + 365 * (b - a) <= days_before_year(b),
    decreases b - a,
{
    if a < b {
        lemma_days_before_year_mono(a, b - 1);
        lemma_days_before_year_step(b - 1);
    }
}

pub proof fn lemma_month_bounds(y: int, m: int)
    requires
        1 <= m <= 12,
    ensures
        0 <= days_before_month(y, m),
        days_before_month(y, m) + days_in_month(y, m) <= if is_leap_year(y) {
            366int
        } else {
            365int
        },
        m < 12 ==> days_before_month(y, m + 1) == days_before_month(y, m) + days_in_month(y, m),
{
}

// ---------------------------------------------------------------------------
// DateTime
// ---------------------------------------------------------------------------

/// A date with a time of day.
#[derive(Clone, Copy, Debug, PartialEq, Eq, Hash, Structural)]
pub struct DateTime {
    date: Date,
    hour: u32,
    minute: u32,
    second: u32,
    nanosecond: u32,
}

/// `%H:%M`, `%H%M%S` and friends: two-digit fields.
pub open spec fn hm_text(h: int, mi: int) -> Seq<char> {
    two_digits(h) + seq![':'] + two_digits(mi)
}

/// `%Y-%m-%d %a %H:%M`.
pub open spec fn org_datetime_text(y: int, m: int, d: int, h: int, mi: int) -> Seq<char> {
    iso_date_text(y, m, d) + seq![' '] + weekday_abbrev(weekday_of(day_number(y, m, d)))
        + seq![' '] + hm_text(h, mi)
}

/// `%Y%m%dT%H%M%S`.
pub open spec fn basic_datetime_text(y: int, m: int, d: int, h: int, mi: int, s: int) -> Seq<char> {
    basic_date_text(y, m, d) + seq!['T'] + two_digits(h) + two_digits(mi) + two_digits(s)
}

/// `%Y-%m-%dT%H:%M:%S`.
pub open spec fn iso_datetime_text(y: int, m: int, d: int, h: int, mi: int, s: int) -> Seq<char> {
    iso_date_text(y, m, d) + seq!['T'] + hm_text(h, mi) + seq![':'] + two_digits(s)
}

impl DateTime {
    #[verifier::type_invariant]
    pub closed spec fn inv(self) -> bool {
        &&& self.hour < 24 && self.minute < 60 && self.second < 60 && self.nanosecond < 2_000_000_000
        &&& self.nanosecond >= 1_000_000_000 ==> self.second == 59
    }

    pub closed spec fn spec_date(self) -> Date {
        self.date
    }

    pub closed spec fn spec_hour(self) -> int {
        self.hour as int
    }

    pub closed spec fn spec_minute(self) -> int {
        self.minute as int
    }

    pub closed spec fn spec_second(self) -> int {
        self.second as int
    }

    pub closed spec fn spec_nano(self) -> int {
        self.nanosecond as int
    }

    /// The second as `%S` writes it: 60 during a leap second.
    pub open spec fn shown_second(self) -> int {
        self.spec_second() + self.spec_nano() / 1_000_000_000
    }

    /// Seconds since the start of day 0 (sub-second part excluded).
    pub open spec fn seconds(self) -> int {
        self.spec_date().num() * 86400 + self.spec_hour() * 3600 + self.spec_minute() * 60
            + self.spec_second()
    }

    /// Midnight-based constructor: `None` unless `h < 24`, `mi < 60`, `s < 60`.
    /// The time read from `H:M:S` fields as `%H:%M:%S` parsing reads it: a
    /// second of 60 is a leap second, shown as 59 seconds and one billion
    /// nanoseconds.
    pub fn from_clock_fields(date: Date, h: u32, mi: u32, s: u32) -> (r: Option<DateTime>)
        ensures
            r is Some <==> (h < 24 && mi < 60 && s <= 60),
            r matches Some(x) ==> x.spec_date() == date && x.spec_hour() == h && x.spec_minute() == mi
                && (if s == 60 {
                x.spec_second() == 59 && x.spec_nano() == 1_000_000_000
            } else {
                x.spec_second() == s && x.spec_nano() == 0
            }),
    {
        if h < 24 && mi < 60 && s < 60 {
            Some(DateTime { date, hour: h, minute: mi, second: s, nanosecond: 0 })
        } else if h < 24 && mi < 60 && s == 60 {
            Some(DateTime { date, hour: h, minute: mi, second: 59, nanosecond: 1_000_000_000 })
        } else {
            None
        }
    }

    pub fn new(date: Date, h: u32, mi: u32, s: u32) -> (r: Option<DateTime>)
        ensures
            r is Some <==> (h < 24 && mi < 60 && s < 60),
            r matches Some(x) ==> x.spec_date() == date && x.spec_hour() == h && x.spec_minute()
                == mi && x.spec_second() == s && x.spec_nano() == 0,
    {
        if h < 24 && mi < 60 && s < 60 {
            Some(DateTime { date, hour: h, minute: mi, second: s, nanosecond: 0 })
        } else {
            None
        }
    }

    pub fn date(&self) -> (r: Date)
        ensures
            r == self.spec_date(),
    {
        self.date
    }

    pub fn hour(&self) -> (r: u32)
        ensures
            r == self.spec_hour(),
            r < 24,
    {
        proof {
            use_type_invariant(self);
        }
        self.hour
    }

    pub fn minute(&self) -> (r: u32)
        ensures
            r == self.spec_minute(),
            r < 60,
    {
        proof {
            use_type_invariant(self);
        }
        self.minute
    }

    pub fn second(&self) -> (r: u32)
        ensures
            r == self.spec_second(),
            r < 60,
    {
        proof {
            use_type_invariant(self);
        }
        self.second
    }

    /// `self < other` in time order.
    pub fn is_before(&self, other: &DateTime) -> (r: bool)
        ensures
            r == dt_lt(*self, *other),
    {
        if self.date.days != other.date.days {
            return self.date.days < other.date.days;
        }
        if self.hour != other.hour {
            return self.hour < other.hour;
        }
        if self.minute != other.minute {
            return self.minute < other.minute;
        }
        if self.second != other.second {
            return self.second < other.second;
        }
        self.nanosecond < other.nanosecond
    }

    pub fn is_same(&self, other: &DateTime) -> (r: bool)
        ensures
            r == (*self == *other),
    {
        self.date.days == other.date.days && self.hour == other.hour && self.minute
            == other.minute && self.second == other.second && self.nanosecond
            == other.nanosecond
    }

    /// The current local date and time.
    pub fn now() -> (r: DateTime)
        ensures
            min_day() <= r.spec_date().num() <= max_day(),
            0 <= r.spec_hour() < 24,
            0 <= r.spec_minute() < 60,
            0 <= r.spec_second() < 60,
            0 <= r.spec_nano() < 2_000_000_000,
    {
        chrono_now()
    }

    /// `%Y-%m-%d %a %H:%M` (the org-mode timestamp body).
    pub fn to_org_string(&self) -> (r: String)
        ensures
            r@ == org_datetime_text(self.spec_date().year(), self.spec_date().month(), self.spec_date().day(), self.spec_hour(), self.spec_minute()),
    {
        proof {
            use_type_invariant(self);
            use_type_invariant(&self.date);
            lemma_ymd_of(self.date.num());
        }
        chrono_format_datetime(self.date.days, self.hour, self.minute, self.second, self.nanosecond, "%Y-%m-%d %a %H:%M")
    }

    /// `%Y%m%dT%H%M%S` (the iCalendar DATE-TIME form).
    pub fn to_basic_string(&self) -> (r: String)
        ensures
            r@ == basic_datetime_text(self.spec_date().year(), self.spec_date().month(), self.spec_date().day(), self.spec_hour(), self.spec_minute(), self.shown_second()),
    {
        proof {
            use_type_invariant(self);
            use_type_invariant(&self.date);
            lemma_ymd_of(self.date.num());
        }
        chrono_format_datetime(self.date.days, self.hour, self.minute, self.second, self.nanosecond, "%Y%m%dT%H%M%S")
    }

    /// `%Y-%m-%dT%H:%M:%S` (the content-hash form).
    pub fn to_iso_seconds_string(&self) -> (r: String)
        ensures
            r@ == iso_datetime_text(self.spec_date().year(), self.spec_date().month(), self.spec_date().day(), self.spec_hour(), self.spec_minute(), self.shown_second()),
    {
        proof {
            use_type_invariant(self);
            use_type_invariant(&self.date);
            lemma_ymd_of(self.date.num());
        }
        chrono_format_datetime(self.date.days, self.hour, self.minute, self.second, self.nanosecond, "%Y-%m-%dT%H:%M:%S")
    }
}

/// `%Y-%m-%d` of a date.
pub open spec fn date_iso(d: Date) -> Seq<char> {
    iso_date_text(d.year(), d.month(), d.day())
}

/// `%Y%m%d` of a date.
pub open spec fn date_basic(d: Date) -> Seq<char> {
    basic_date_text(d.year(), d.month(), d.day())
}

/// `%a` of a date.
pub open spec fn date_wday(d: Date) -> Seq<char> {
    weekday_abbrev(weekday_of(d.num()))
}

/// `%Y-%m-%d %a %H:%M` of a date-time.
pub open spec fn dt_org(t: DateTime) -> Seq<char> {
    org_datetime_text(
        t.spec_date().year(),
        t.spec_date().month(),
        t.spec_date().day(),
        t.spec_hour(),
        t.spec_minute(),
    )
}

/// `%Y%m%dT%H%M%S` of a date-time.
pub open spec fn dt_basic(t: DateTime) -> Seq<char> {
    basic_datetime_text(
        t.spec_date().year(),
        t.spec_date().month(),
        t.spec_date().day(),
        t.spec_hour(),
        t.spec_minute(),
        t.shown_second(),
    )
}

/// `%Y-%m-%dT%H:%M:%S` of a date-time.
pub open spec fn dt_iso_seconds(t: DateTime) -> Seq<char> {
    iso_datetime_text(
        t.spec_date().year(),
        t.spec_date().month(),
        t.spec_date().day(),
        t.spec_hour(),
        t.spec_minute(),
        t.shown_second(),
    )
}

/// Time order of date-times.
pub open spec fn dt_lt(a: DateTime, b: DateTime) -> bool {
    if a.spec_date().num() != b.spec_date().num() {
        a.spec_date().num() < b.spec_date().num()
    } else if a.spec_hour() != b.spec_hour() {
        a.spec_hour() < b.spec_hour()
    } else if a.spec_minute() != b.spec_minute() {
        a.spec_minute() < b.spec_minute()
    } else if a.spec_second() != b.spec_second() {
        a.spec_second() < b.spec_second()
    } else {
        a.spec_nano() < b.spec_nano()
    }
}

/// Time order is a strict total order on date-times.
pub proof fn lemma_dt_lt_order(a: DateTime, b: DateTime, c: DateTime)
    ensures
        !dt_lt(a, a),
        dt_lt(a, b) ==> !dt_lt(b, a),
        dt_lt(a, b) && dt_lt(b, c) ==> dt_lt(a, c),
        a != b ==> dt_lt(a, b) || dt_lt(b, a),
{
    if a != b && !dt_lt(a, b) && !dt_lt(b, a) {
        assert(a.date.days == b.date.days);
        assert(a.date == b.date);
        assert(a == b);
    }
}

// ---------------------------------------------------------------------------
// Parsing the date forms the files use
// ---------------------------------------------------------------------------

/// `s[from..from + len]` is a run of ASCII digits.
pub open spec fn digits_at(s: Seq<char>, from: int, len: int) -> bool {
    0 <= from && from + len <= s.len() && all_digits(s.subrange(from, from + len))
}

/// The value of the digit run `s[from..from + len]`.
pub open spec fn num_at(s: Seq<char>, from: int, len: int) -> int {
    decimal_value(s.subrange(from, from + len)) as int
}

/// `YYYY-MM-DD` with ASCII digits.
pub open spec fn iso_date_shape(s: Seq<char>) -> bool {
    s.len() == 10 && digits_at(s, 0, 4) && s[4] == '-' && digits_at(s, 5, 2) && s[7] == '-'
        && digits_at(s, 8, 2)
}

/// `YYYYMMDD` with ASCII digits.
pub open spec fn basic_date_shape(s: Seq<char>) -> bool {
    s.len() == 8 && digits_at(s, 0, 4) && digits_at(s, 4, 2) && digits_at(s, 6, 2)
}

/// The day number of `(y, m, d)` when it is a valid date.
pub open spec fn ymd_day(y: int, m: int, d: int) -> Option<int> {
    if valid_ymd(y, m, d) {
        Some(day_number(y, m, d))
    } else {
        None
    }
}

/// The day number `k` months after (before, for negative `k`) the date
/// with day number `n`: the day of the month is kept, or clamped to the
/// length of the new month; `None` when the result is out of range.
pub open spec fn month_shift(n: int, k: int) -> Option<int> {
    let (y, m, d) = ymd_of(n);
    let total = y * 12 + m - 1 + k;
    let ny = total / 12;
    let nm = total % 12 + 1;
    ymd_day(ny, nm, if d > days_in_month(ny, nm) { days_in_month(ny, nm) } else { d })
}

/// `NaiveDate::parse_from_str(s, "%Y-%m-%d")`, as a day number: exact on the
/// `YYYY-MM-DD` shape and on a signed year, `chrono`'s own answer on any
/// other text.
pub open spec fn parse_iso_date_spec(s: Seq<char>) -> Option<int> {
    if iso_date_shape(s) {
        ymd_day(num_at(s, 0, 4), num_at(s, 5, 2), num_at(s, 8, 2))
    } else if signed_iso_shape(s) {
        ymd_day(signed_year(s), num_at(s, s.len() - 5, 2), num_at(s, s.len() - 2, 2))
    } else {
        chrono_parse_date(s, "%Y-%m-%d"@)
    }
}

/// `±Y…-MM-DD`: a sign, at least one ASCII digit of year, then two and two
/// digits, as `%Y` writes a year outside `0..=9999`.
pub open spec fn signed_iso_shape(s: Seq<char>) -> bool {
    &&& s.len() >= 8
    &&& (s[0] == '+' || s[0] == '-')
    &&& digits_at(s, 1, s.len() - 7)
    &&& s[s.len() - 6] == '-'
    &&& digits_at(s, s.len() - 5, 2)
    &&& s[s.len() - 3] == '-'
    &&& digits_at(s, s.len() - 2, 2)
}

/// The signed year of such a text.
pub open spec fn signed_year(s: Seq<char>) -> int {
    let v = decimal_value(s.subrange(1, s.len() - 6)) as int;
    if s[0] == '-' {
        0 - v
    } else {
        v
    }
}

proof fn lemma_four_digits_value(y: int)
    requires
        0 <= y <= 9999,
    ensures
        all_digits(four_digits(y)),
        decimal_value(four_digits(y)) == y,
{
    let s = four_digits(y);
    let a = y / 1000;
    let b = (y / 100) % 10;
    let c = (y / 10) % 10;
    let d = y % 10;
    assert(0 <= a <= 9 && 0 <= b <= 9 && 0 <= c <= 9 && 0 <= d <= 9 && ((a * 10 + b) * 10 + c) * 10 + d == y)
        by (nonlinear_arith)
        requires
            0 <= y <= 9999,
            a == y / 1000,
            b == (y / 100) % 10,
            c == (y / 10) % 10,
            d == y % 10,
    ;
    assert(digit_value(digit_char(a)) == a && digit_value(digit_char(b)) == b);
    assert(digit_value(digit_char(c)) == c && digit_value(digit_char(d)) == d);
    assert(s.drop_last().drop_last().drop_last().drop_last() =~= Seq::<char>::empty());
    assert(s.drop_last().drop_last().drop_last() =~= seq![digit_char(a)]);
    assert(s.drop_last().drop_last() =~= seq![digit_char(a), digit_char(b)]);
    assert(s.drop_last() =~= seq![digit_char(a), digit_char(b), digit_char(c)]);
    let one = seq![digit_char(a)];
    assert(one.drop_last() =~= Seq::<char>::empty());
    assert(one.last() == digit_char(a));
    assert(decimal_value(Seq::<char>::empty()) == 0);
    assert(digit_value(digit_char(a)) == a);
    assert(decimal_value(one) == a);
    assert(decimal_value(s.drop_last().drop_last().drop_last()) == a);
    assert(decimal_value(s.drop_last().drop_last()) == a * 10 + b);
    assert(decimal_value(s.drop_last()) == (a * 10 + b) * 10 + c);
}

proof fn lemma_two_digits_value(m: int)
    requires
        0 <= m <= 99,
    ensures
        all_digits(two_digits(m)),
        decimal_value(two_digits(m)) == m,
{
    let s = two_digits(m);
    let a = m / 10;
    let b = m % 10;
    assert(0 <= a <= 9 && 0 <= b <= 9 && a * 10 + b == m) by (nonlinear_arith)
        requires
            0 <= m <= 99,
            a == m / 10,
            b == m % 10,
    ;
    assert(s.drop_last().drop_last() =~= Seq::<char>::empty());
    let one = seq![digit_char(a)];
    assert(one.drop_last() =~= Seq::<char>::empty());
    assert(one.last() == digit_char(a));
    assert(decimal_value(Seq::<char>::empty()) == 0);
    assert(digit_value(digit_char(a)) == a);
    assert(decimal_value(one) == a);
    assert(s.drop_last() =~= one);
    assert(decimal_value(s.drop_last()) == a);
}

/// Leading zeros do not change the value of a digit run.
proof fn lemma_decimal_value_zeros(k: nat, x: Seq<char>)
    ensures
        decimal_value(Seq::new(k, |i: int| '0') + x) == decimal_value(x),
    decreases x.len(), k,
{
    let z = Seq::new(k, |i: int| '0');
    if x.len() == 0 {
        assert(z + x =~= z);
        if k > 0 {
            let z1 = Seq::new((k - 1) as nat, |i: int| '0');
            lemma_decimal_value_zeros((k - 1) as nat, x);
            assert(z1 + x =~= z1);
            assert(z.drop_last() =~= z1);
            assert(z.last() == '0');
            assert(digit_value('0') == 0);
        }
    } else {
        lemma_decimal_value_zeros(k, x.drop_last());
        assert((z + x).drop_last() =~= z + x.drop_last());
        assert((z + x).last() == x.last());
    }
}

/// The year text `%Y` writes outside `0..=9999`: its sign, then digits
/// whose value is the year's size.
proof fn lemma_signed_year_text(y: int)
    requires
        !(0 <= y <= 9999),
    ensures
        ({
            let t = year_text(y);
            &&& t.len() >= 2
            &&& t[0] == (if y < 0 { '-' } else { '+' })
            &&& all_digits(t.skip(1))
            &&& decimal_value(t.skip(1)) == (if y < 0 { 0 - y } else { y })
        }),
{
    let t = year_text(y);
    if y > 9999 {
        lemma_decimal_digits(y as nat);
        assert(t.skip(1) =~= decimal(y as nat));
    } else {
        let x = decimal((0 - y) as nat);
        lemma_decimal_digits((0 - y) as nat);
        let p = pad4(x);
        assert(t.skip(1) =~= p);
        if x.len() < 4 {
            let k = (4 - x.len()) as nat;
            lemma_decimal_value_zeros(k, x);
            let z = Seq::new(k, |i: int| '0');
            assert(p == z + x);
            assert forall|i: int| 0 <= i < p.len() implies is_ascii_digit(#[trigger] p[i]) by {
                if i < k {
                    assert(p[i] == z[i]);
                } else {
                    assert(p[i] == x[i - k]);
                }
            }
        }
    }
}

/// A date written as `%Y-%m-%d` is read back, whatever its year: four
/// digits, or a sign and the digits of a year outside `0..=9999`.
pub proof fn lemma_iso_date_roundtrip(n: int)
    requires
        min_day() <= n <= max_day(),
    ensures
        parse_iso_date_spec(date_iso(date_of(n))) == Some(n),
        date_iso(date_of(n)).len() >= 8,
        0 <= ymd_of(n).0 <= 9999 ==> date_iso(date_of(n)).len() == 10,
        forall|i: int|
            0 <= i < date_iso(date_of(n)).len() ==> is_ascii_digit(#[trigger] date_iso(date_of(n))[i])
                || date_iso(date_of(n))[i] == '-' || date_iso(date_of(n))[i] == '+',
{
    let w = Date { days: n as i32 };
    assert(w.num() == n);
    let e = date_of(n);
    assert(e.num() == n);
    lemma_ymd_of(n);
    let (y, m, d) = ymd_of(n);
    lemma_month_bounds(y, m);
    lemma_two_digits_value(m);
    lemma_two_digits_value(d);
    let s = date_iso(e);
    let yt = year_text(y);
    assert(s == yt + seq!['-'] + two_digits(m) + seq!['-'] + two_digits(d));
    if 0 <= y <= 9999 {
        lemma_four_digits_value(y);
        assert(s.subrange(0, 4) =~= four_digits(y));
        assert(s.subrange(5, 7) =~= two_digits(m));
        assert(s.subrange(8, 10) =~= two_digits(d));
        assert(iso_date_shape(s));
        assert forall|i: int| 0 <= i < s.len() implies is_ascii_digit(#[trigger] s[i]) || s[i] == '-' || s[i] == '+' by {
            if i < 4 {
                assert(s[i] == s.subrange(0, 4)[i]);
            } else if 5 <= i < 7 {
                assert(s[i] == s.subrange(5, 7)[i - 5]);
            } else if 8 <= i {
                assert(s[i] == s.subrange(8, 10)[i - 8]);
            }
        }
    } else {
        lemma_signed_year_text(y);
        let body = yt.skip(1);
        let l = s.len() as int;
        assert(l == yt.len() + 6);
        assert(!is_ascii_digit(s[0]));
        assert(!iso_date_shape(s)) by {
            if iso_date_shape(s) {
                assert(s.subrange(0, 4)[0] == s[0]);
            }
        }
        assert(s.subrange(1, l - 6) =~= body);
        assert(s.subrange(l - 5, l - 3) =~= two_digits(m));
        assert(s.subrange(l - 2, l) =~= two_digits(d));
        assert(signed_iso_shape(s));
        assert(signed_year(s) == y);
        assert forall|i: int| 0 <= i < s.len() implies is_ascii_digit(#[trigger] s[i]) || s[i] == '-' || s[i] == '+' by {
            if i == 0 {
            } else if i < l - 6 {
                assert(s[i] == body[i - 1]);
            } else if l - 5 <= i < l - 3 {
                assert(s[i] == s.subrange(l - 5, l - 3)[i - (l - 5)]);
            } else if l - 2 <= i {
                assert(s[i] == s.subrange(l - 2, l)[i - (l - 2)]);
            }
        }
    }
}

/// A date written as `%Y%m%d` is read back, for a year of four digits; the
/// text is eight ASCII digits.
pub proof fn lemma_basic_date_roundtrip(d: Date)
    requires
        min_day() <= d.num() <= max_day(),
        0 <= d.year() <= 9999,
    ensures
        parse_basic_date_spec(date_basic(d)) == Some(d.num()),
        date_basic(d).len() == 8,
        forall|i: int| 0 <= i < 8 ==> is_ascii_digit(#[trigger] date_basic(d)[i]),
{
    let n = d.num();
    lemma_ymd_of(n);
    let (y, m, dd) = ymd_of(n);
    lemma_month_bounds(y, m);
    lemma_four_digits_value(y);
    lemma_two_digits_value(m);
    lemma_two_digits_value(dd);
    let s = date_basic(d);
    assert(s == four_digits(y) + two_digits(m) + two_digits(dd));
    assert(s.subrange(0, 4) =~= four_digits(y));
    assert(s.subrange(4, 6) =~= two_digits(m));
    assert(s.subrange(6, 8) =~= two_digits(dd));
    assert(basic_date_shape(s));
    assert forall|i: int| 0 <= i < 8 implies is_ascii_digit(#[trigger] s[i]) by {
        if i < 4 {
            assert(s[i] == s.subrange(0, 4)[i]);
        } else if i < 6 {
            assert(s[i] == s.subrange(4, 6)[i - 4]);
        } else {
            assert(s[i] == s.subrange(6, 8)[i - 6]);
        }
    }
}

/// A date-time of whole seconds written as `%Y%m%dT%H%M%S` is read back,
/// for a year of four digits; the text is fifteen characters, all ASCII
/// digits but the `T`.
pub proof fn lemma_basic_datetime_roundtrip(t: DateTime)
    requires
        min_day() <= t.spec_date().num() <= max_day(),
        0 <= t.spec_date().year() <= 9999,
        t.spec_nano() == 0,
        0 <= t.spec_hour() < 24,
        0 <= t.spec_minute() < 60,
        0 <= t.spec_second() < 60,
    ensures
        parse_basic_datetime_spec(dt_basic(t)) == Some(dt_parts(t)),
        dt_basic(t).len() == 15,
        forall|i: int| 0 <= i < 15 && i != 8 ==> is_ascii_digit(#[trigger] dt_basic(t)[i]),
        dt_basic(t)[8] == 'T',
{
    let d = t.spec_date();
    lemma_basic_date_roundtrip(d);
    lemma_two_digits_value(t.spec_hour());
    lemma_two_digits_value(t.spec_minute());
    lemma_two_digits_value(t.spec_second());
    let b = date_basic(d);
    let s = dt_basic(t);
    assert(t.shown_second() == t.spec_second());
    assert(s == b + seq!['T'] + two_digits(t.spec_hour()) + two_digits(t.spec_minute()) + two_digits(
        t.spec_second(),
    ));
    assert(s.subrange(0, 8) =~= b);
    assert(s.subrange(9, 11) =~= two_digits(t.spec_hour()));
    assert(s.subrange(11, 13) =~= two_digits(t.spec_minute()));
    assert(s.subrange(13, 15) =~= two_digits(t.spec_second()));
    assert(b.subrange(0, 4) =~= s.subrange(0, 4));
    assert(b.subrange(4, 6) =~= s.subrange(4, 6));
    assert(b.subrange(6, 8) =~= s.subrange(6, 8));
    assert(basic_datetime_shape(s));
    assert forall|i: int| 0 <= i < 15 && i != 8 implies is_ascii_digit(#[trigger] s[i]) by {
        if i < 8 {
            assert(s[i] == b[i]);
        } else if i < 11 {
            assert(s[i] == s.subrange(9, 11)[i - 9]);
        } else if i < 13 {
            assert(s[i] == s.subrange(11, 13)[i - 11]);
        } else {
            assert(s[i] == s.subrange(13, 15)[i - 13]);
        }
    }
}

/// Whether no character of the text ends a line (`\n` or `\r`).
pub open spec fn line_safe(s: Seq<char>) -> bool {
    forall|i: int| 0 <= i < s.len() ==> #[trigger] s[i] != '\n' && s[i] != '\r'
}

pub proof fn lemma_safe_cat(a: Seq<char>, b: Seq<char>)
    requires
        line_safe(a),
        line_safe(b),
    ensures
        line_safe(a + b),
{
    assert forall|i: int| 0 <= i < (a + b).len() implies #[trigger] (a + b)[i] != '\n' && (a + b)[i] != '\r' by {
        if i < a.len() {
            assert((a + b)[i] == a[i]);
        } else {
            assert((a + b)[i] == b[i - a.len()]);
        }
    }
}

pub proof fn lemma_digits_safe(s: Seq<char>)
    requires
        all_digits(s),
    ensures
        line_safe(s),
{
    assert forall|i: int| 0 <= i < s.len() implies #[trigger] s[i] != '\n' && s[i] != '\r' by {
        assert(is_ascii_digit(s[i]));
    }
}

proof fn lemma_year_text_safe(y: int)
    ensures
        line_safe(year_text(y)),
        year_text(y).len() > 0,
{
    if 0 <= y <= 9999 {
        lemma_four_digits_value(y);
        lemma_digits_safe(four_digits(y));
    } else if y > 9999 {
        lemma_decimal_digits(y as nat);
        lemma_digits_safe(decimal(y as nat));
        lemma_safe_cat(seq!['+'], decimal(y as nat));
    } else {
        let d = decimal((0 - y) as nat);
        lemma_decimal_digits((0 - y) as nat);
        lemma_digits_safe(d);
        let p = pad4(d);
        if d.len() < 4 {
            let z = Seq::new((4 - d.len()) as nat, |i: int| '0');
            assert(line_safe(z));
            lemma_safe_cat(z, d);
        }
        lemma_safe_cat(seq!['-'], p);
    }
}

/// The `%Y-%m-%d` text of a valid date has no line end, and ends with a
/// digit.
pub proof fn lemma_date_iso_safe(d: Date)
    requires
        min_day() <= d.num() <= max_day(),
    ensures
        line_safe(date_iso(d)),
        date_iso(d).len() > 0,
        is_ascii_digit(date_iso(d).last()),
{
    lemma_ymd_of(d.num());
    let (y, m, dd) = ymd_of(d.num());
    lemma_month_bounds(y, m);
    lemma_year_text_safe(y);
    lemma_two_digits_value(m);
    lemma_two_digits_value(dd);
    lemma_digits_safe(two_digits(m));
    lemma_digits_safe(two_digits(dd));
    lemma_safe_cat(year_text(y), seq!['-']);
    lemma_safe_cat(year_text(y) + seq!['-'], two_digits(m));
    lemma_safe_cat(year_text(y) + seq!['-'] + two_digits(m), seq!['-']);
    lemma_safe_cat(year_text(y) + seq!['-'] + two_digits(m) + seq!['-'], two_digits(dd));
    assert(date_iso(d).last() == two_digits(dd)[1]);
}

/// The `%Y%m%d` text of a valid date has no line end, and ends with a
/// digit.
pub proof fn lemma_date_basic_safe(d: Date)
    requires
        min_day() <= d.num() <= max_day(),
    ensures
        line_safe(date_basic(d)),
        date_basic(d).len() > 0,
        is_ascii_digit(date_basic(d).last()),
{
    lemma_ymd_of(d.num());
    let (y, m, dd) = ymd_of(d.num());
    lemma_month_bounds(y, m);
    lemma_year_text_safe(y);
    lemma_two_digits_value(m);
    lemma_two_digits_value(dd);
    lemma_digits_safe(two_digits(m));
    lemma_digits_safe(two_digits(dd));
    lemma_safe_cat(year_text(y), two_digits(m));
    lemma_safe_cat(year_text(y) + two_digits(m), two_digits(dd));
    assert(date_basic(d).last() == two_digits(dd)[1]);
}

/// The `%Y%m%dT%H%M%S` text of a valid date-time has no line end, and ends
/// with a digit.
pub proof fn lemma_dt_basic_safe(t: DateTime)
    requires
        min_day() <= t.spec_date().num() <= max_day(),
        0 <= t.spec_hour() < 24,
        0 <= t.spec_minute() < 60,
        0 <= t.spec_second() < 60,
        0 <= t.spec_nano() < 2_000_000_000,
    ensures
        line_safe(dt_basic(t)),
        dt_basic(t).len() > 0,
        is_ascii_digit(dt_basic(t).last()),
{
    let d = t.spec_date();
    lemma_date_basic_safe(d);
    let s2 = t.shown_second();
    assert(0 <= s2 <= 61);
    lemma_two_digits_value(t.spec_hour());
    lemma_two_digits_value(t.spec_minute());
    lemma_two_digits_value(s2);
    lemma_digits_safe(two_digits(t.spec_hour()));
    lemma_digits_safe(two_digits(t.spec_minute()));
    lemma_digits_safe(two_digits(s2));
    let b = date_basic(d);
    assert(b == basic_date_text(d.year(), d.month(), d.day()));
    lemma_safe_cat(b, seq!['T']);
    lemma_safe_cat(b + seq!['T'], two_digits(t.spec_hour()));
    lemma_safe_cat(b + seq!['T'] + two_digits(t.spec_hour()), two_digits(t.spec_minute()));
    lemma_safe_cat(b + seq!['T'] + two_digits(t.spec_hour()) + two_digits(t.spec_minute()), two_digits(s2));
    assert(dt_basic(t) == b + seq!['T'] + two_digits(t.spec_hour()) + two_digits(t.spec_minute()) + two_digits(s2));
    assert(dt_basic(t).last() == two_digits(s2)[1]);
}

/// The `%a` text of a date is three letters.
pub proof fn lemma_wday_text(n: int)
    ensures
        weekday_abbrev(weekday_of(n)).len() == 3,
        line_safe(weekday_abbrev(weekday_of(n))),
        forall|i: int| 0 <= i < 3 ==> ('a' <= #[trigger] weekday_abbrev(weekday_of(n))[i] <= 'z') || ('A'
            <= weekday_abbrev(weekday_of(n))[i] <= 'Z'),
{
    reveal_strlit("Mon");
    reveal_strlit("Tue");
    reveal_strlit("Wed");
    reveal_strlit("Thu");
    reveal_strlit("Fri");
    reveal_strlit("Sat");
    reveal_strlit("Sun");
}

/// The org timestamp text of a valid time has no line end and ends with a
/// digit.
pub proof fn lemma_dt_org_safe(t: DateTime)
    requires
        min_day() <= t.spec_date().num() <= max_day(),
        0 <= t.spec_hour() < 24,
        0 <= t.spec_minute() < 60,
    ensures
        line_safe(dt_org(t)),
        is_ascii_digit(dt_org(t).last()),
{
    let d = t.spec_date();
    lemma_ymd_of(d.num());
    let (y, m, dd) = ymd_of(d.num());
    lemma_date_iso_safe(d);
    lemma_wday_text(day_number(y, m, dd));
    lemma_two_digits_value(t.spec_hour());
    lemma_two_digits_value(t.spec_minute());
    lemma_digits_safe(two_digits(t.spec_hour()));
    lemma_digits_safe(two_digits(t.spec_minute()));
    let w = weekday_abbrev(weekday_of(day_number(y, m, dd)));
    let hm = hm_text(t.spec_hour(), t.spec_minute());
    lemma_safe_cat(two_digits(t.spec_hour()), seq![':']);
    lemma_safe_cat(two_digits(t.spec_hour()) + seq![':'], two_digits(t.spec_minute()));
    assert(date_iso(d) == iso_date_text(y, m, dd));
    lemma_safe_cat(date_iso(d), seq![' ']);
    lemma_safe_cat(date_iso(d) + seq![' '], w);
    lemma_safe_cat(date_iso(d) + seq![' '] + w, seq![' ']);
    lemma_safe_cat(date_iso(d) + seq![' '] + w + seq![' '], hm);
    assert(dt_org(t) == date_iso(d) + seq![' '] + w + seq![' '] + hm);
    assert(dt_org(t).last() == two_digits(t.spec_minute())[1]);
}

/// `NaiveDate::parse_from_str(s, "%Y%m%d")`, as a day number.
pub open spec fn parse_basic_date_spec(s: Seq<char>) -> Option<int> {
    if basic_date_shape(s) {
        ymd_day(num_at(s, 0, 4), num_at(s, 4, 2), num_at(s, 6, 2))
    } else {
        chrono_parse_date(s, "%Y%m%d"@)
    }
}

/// A parsed date-time: day number, hour, minute, second, nanosecond.
pub type DateTimeParts = (int, int, int, int, int);

pub open spec fn dt_parts(d: DateTime) -> DateTimeParts {
    (d.spec_date().num(), d.spec_hour(), d.spec_minute(), d.spec_second(), d.spec_nano())
}

pub open spec fn opt_dt_parts(d: Option<DateTime>) -> Option<DateTimeParts> {
    match d {
        Some(x) => Some(dt_parts(x)),
        None => None,
    }
}

pub open spec fn opt_num(d: Option<Date>) -> Option<int> {
    match d {
        Some(x) => Some(x.num()),
        None => None,
    }
}

/// `YYYY-MM-DD Www HH:MM` where `Www` is the English abbreviation of that
/// date's weekday.
pub open spec fn org_datetime_shape(s: Seq<char>) -> bool {
    &&& s.len() == 20
    &&& iso_date_shape(s.subrange(0, 10))
    &&& s[10] == ' '
    &&& s[14] == ' '
    &&& digits_at(s, 15, 2)
    &&& s[17] == ':'
    &&& digits_at(s, 18, 2)
    &&& valid_ymd(num_at(s, 0, 4), num_at(s, 5, 2), num_at(s, 8, 2))
    &&& s.subrange(11, 14) == weekday_abbrev(
        weekday_of(day_number(num_at(s, 0, 4), num_at(s, 5, 2), num_at(s, 8, 2))),
    )
}

/// `YYYY-MM-DD HH:MM`.
pub open spec fn iso_minutes_shape(s: Seq<char>) -> bool {
    &&& s.len() == 16
    &&& iso_date_shape(s.subrange(0, 10))
    &&& s[10] == ' '
    &&& digits_at(s, 11, 2)
    &&& s[13] == ':'
    &&& digits_at(s, 14, 2)
}

/// `YYYYMMDDTHHMMSS`.
pub open spec fn basic_datetime_shape(s: Seq<char>) -> bool {
    &&& s.len() == 15
    &&& basic_date_shape(s.subrange(0, 8))
    &&& s[8] == 'T'
    &&& digits_at(s, 9, 2)
    &&& digits_at(s, 11, 2)
    &&& digits_at(s, 13, 2)
}

pub open spec fn hms_parts(day: Option<int>, h: int, mi: int, sec: int) -> Option<DateTimeParts> {
    match day {
        Some(n) => if h < 24 && mi < 60 && sec < 60 {
            Some((n, h, mi, sec, 0int))
        } else if h < 24 && mi < 60 && sec == 60 {
            // a leap second
            Some((n, h, mi, 59int, 1_000_000_000int))
        } else {
            None
        },
        None => None,
    }
}

/// `NaiveDateTime::parse_from_str(s, "%Y-%m-%d %a %H:%M")`.
pub open spec fn parse_org_datetime_spec(s: Seq<char>) -> Option<DateTimeParts> {
    if org_datetime_shape(s) {
        hms_parts(
            ymd_day(num_at(s, 0, 4), num_at(s, 5, 2), num_at(s, 8, 2)),
            num_at(s, 15, 2),
            num_at(s, 18, 2),
            0,
        )
    } else {
        chrono_parse_datetime(s, "%Y-%m-%d %a %H:%M"@)
    }
}

/// `NaiveDateTime::parse_from_str(s, "%Y-%m-%d %H:%M")`.
pub open spec fn parse_iso_minutes_spec(s: Seq<char>) -> Option<DateTimeParts> {
    if iso_minutes_shape(s) {
        hms_parts(
            ymd_day(num_at(s, 0, 4), num_at(s, 5, 2), num_at(s, 8, 2)),
            num_at(s, 11, 2),
            num_at(s, 14, 2),
            0,
        )
    } else {
        chrono_parse_datetime(s, "%Y-%m-%d %H:%M"@)
    }
}

/// `NaiveDateTime::parse_from_str(s, "%Y%m%dT%H%M%S")`.
pub open spec fn parse_basic_datetime_spec(s: Seq<char>) -> Option<DateTimeParts> {
    if basic_datetime_shape(s) {
        hms_parts(
            ymd_day(num_at(s, 0, 4), num_at(s, 4, 2), num_at(s, 6, 2)),
            num_at(s, 9, 2),
            num_at(s, 11, 2),
            num_at(s, 13, 2),
        )
    } else {
        chrono_parse_datetime(s, "%Y%m%dT%H%M%S"@)
    }
}

impl Date {
    /// Parses `%Y-%m-%d`.
    pub fn parse_iso(s: &str) -> (r: Option<Date>)
        ensures
            opt_num(r) == parse_iso_date_spec(s@),
    {
        chrono_parse_date_str(s, "%Y-%m-%d")
    }

    /// Parses `%Y-%m-%d` from characters.
    pub fn parse_iso_chars(v: &Vec<char>) -> (r: Option<Date>)
        ensures
            opt_num(r) == parse_iso_date_spec(v@),
    {
        let s = string_of(v.as_slice());
        chrono_parse_date_str(s.as_str(), "%Y-%m-%d")
    }

    /// Parses `%Y%m%d` from characters.
    pub fn parse_basic_chars(v: &Vec<char>) -> (r: Option<Date>)
        ensures
            opt_num(r) == parse_basic_date_spec(v@),
    {
        let s = string_of(v.as_slice());
        chrono_parse_date_str(s.as_str(), "%Y%m%d")
    }
}

impl DateTime {
    /// Parses `%Y-%m-%d %a %H:%M`.
    pub fn parse_org_chars(v: &Vec<char>) -> (r: Option<DateTime>)
        ensures
            opt_dt_parts(r) == parse_org_datetime_spec(v@),
    {
        let s = string_of(v.as_slice());
        chrono_parse_datetime_str(s.as_str(), "%Y-%m-%d %a %H:%M")
    }

    /// Parses `%Y-%m-%d %H:%M`.
    pub fn parse_iso_minutes_chars(v: &Vec<char>) -> (r: Option<DateTime>)
        ensures
            opt_dt_parts(r) == parse_iso_minutes_spec(v@),
    {
        let s = string_of(v.as_slice());
        chrono_parse_datetime_str(s.as_str(), "%Y-%m-%d %H:%M")
    }

    /// Parses `%Y%m%dT%H%M%S`.
    pub fn parse_basic_chars(v: &Vec<char>) -> (r: Option<DateTime>)
        ensures
            opt_dt_parts(r) == parse_basic_datetime_spec(v@),
    {
        let s = string_of(v.as_slice());
        chrono_parse_datetime_str(s.as_str(), "%Y%m%dT%H%M%S")
    }
}

// ---------------------------------------------------------------------------
// Trusted items: chrono
// ---------------------------------------------------------------------------

/// `chrono::NaiveDate::from_ymd_opt` followed by `num_days_from_ce`: the day
/// number of `(y, m, d)`, `None` when the triple is not a date chrono
/// represents (month outside 1..=12, day outside the month, year outside
/// chrono's range).
#[verifier::external_body]
fn chrono_from_ymd(y: i32, m: u32, d: u32) -> (r: Option<i32>)
    ensures
        r is Some <==> valid_ymd(y as int, m as int, d as int),
        r matches Some(n) ==> n == day_number(y as int, m as int, d as int),
{
    chrono::NaiveDate::from_ymd_opt(y, m, d).map(|x| x.num_days_from_ce())
}

/// `chrono::NaiveDate::from_num_days_from_ce_opt` followed by `year`, `month`
/// and `day`: the calendar triple of the day number `n`.
#[verifier::external_body]
fn chrono_ymd(n: i32) -> (r: (i32, u32, u32))
    requires
        min_day() <= n <= max_day(),
    ensures
        valid_ymd(r.0 as int, r.1 as int, r.2 as int),
        day_number(r.0 as int, r.1 as int, r.2 as int) == n,
{
    let x = chrono::NaiveDate::from_num_days_from_ce_opt(n).expect("in range");
    (x.year(), x.month(), x.day())
}

/// `chrono::NaiveDate::checked_add_months` of the day number `n` by `k`
/// months: the year and month moved on by `k`, the day kept or clamped to
/// the new month's last day, `None` out of range (as its source computes
/// it in `diff_months`).
#[verifier::external_body]
fn chrono_add_months(n: i32, k: u32) -> (r: Option<i32>)
    requires
        min_day() <= n <= max_day(),
        1 <= k <= i32::MAX,
    ensures
        match r {
            Some(x) => month_shift(n as int, k as int) == Some(x as int),
            None => month_shift(n as int, k as int) is None,
        },
{
    chrono::NaiveDate::from_num_days_from_ce_opt(n).expect("in range").checked_add_months(chrono::Months::new(k)).map(
        |x| x.num_days_from_ce(),
    )
}

/// `chrono::NaiveDate::checked_sub_months` of the day number `n` by `k`
/// months, computed as `checked_add_months` with `-k`.
#[verifier::external_body]
fn chrono_sub_months(n: i32, k: u32) -> (r: Option<i32>)
    requires
        min_day() <= n <= max_day(),
        1 <= k <= i32::MAX,
    ensures
        match r {
            Some(x) => month_shift(n as int, 0 - k) == Some(x as int),
            None => month_shift(n as int, 0 - k) is None,
        },
{
    chrono::NaiveDate::from_num_days_from_ce_opt(n).expect("in range").checked_sub_months(chrono::Months::new(k)).map(
        |x| x.num_days_from_ce(),
    )
}

/// `chrono::Datelike::weekday` (as `num_days_from_monday`) of the day number
/// `n`: day 1 (January 1 of year 1) is a Monday.
#[verifier::external_body]
fn chrono_weekday(n: i32) -> (r: u32)
    requires
        min_day() <= n <= max_day(),
    ensures
        r == weekday_of(n as int),
        r < 7,
{
    chrono::NaiveDate::from_num_days_from_ce_opt(n).expect("in range").weekday().num_days_from_monday()
}

/// `chrono::NaiveDate::format` of the day number `n`, for the three formats
/// the library uses: `%Y-%m-%d`, `%Y%m%d` and `%a` (English short weekday
/// name). Only these are admitted: an ill-formed format makes `to_string`
/// panic.
#[verifier::external_body]
fn chrono_format_date(n: i32, fmt: &str) -> (r: String)
    requires
        min_day() <= n <= max_day(),
        fmt@ == "%Y-%m-%d"@ || fmt@ == "%Y%m%d"@ || fmt@ == "%a"@,
    ensures
        forall|y: int, m: int, d: int|
            #![trigger day_number(y, m, d)]
            valid_ymd(y, m, d) && day_number(y, m, d) == n ==> {
                &&& fmt@ == "%Y-%m-%d"@ ==> r@ == iso_date_text(y, m, d)
                &&& fmt@ == "%Y%m%d"@ ==> r@ == basic_date_text(y, m, d)
            },
        fmt@ == "%a"@ ==> r@ == weekday_abbrev(weekday_of(n as int)),
{
    chrono::NaiveDate::from_num_days_from_ce_opt(n).expect("in range").format(fmt).to_string()
}

/// `chrono::NaiveDateTime::format` for the three formats the library uses:
/// `%Y-%m-%d %a %H:%M`, `%Y%m%dT%H%M%S` and `%Y-%m-%dT%H:%M:%S`. Only these
/// are admitted (an ill-formed format makes `to_string` panic), and a
/// nanosecond count of a billion or more only with second 59, the one
/// leap-second form `NaiveTime::from_hms_nano_opt` accepts.
#[verifier::external_body]
fn chrono_format_datetime(n: i32, h: u32, mi: u32, s: u32, nano: u32, fmt: &str) -> (r: String)
    requires
        min_day() <= n <= max_day(),
        h < 24,
        mi < 60,
        s < 60,
        nano < 2_000_000_000,
        nano >= 1_000_000_000 ==> s == 59,
        fmt@ == "%Y-%m-%d %a %H:%M"@ || fmt@ == "%Y%m%dT%H%M%S"@ || fmt@ == "%Y-%m-%dT%H:%M:%S"@,
    ensures
        forall|y: int, m: int, d: int|
            #![trigger day_number(y, m, d)]
            valid_ymd(y, m, d) && day_number(y, m, d) == n ==> {
                &&& fmt@ == "%Y-%m-%d %a %H:%M"@ ==> r@ == org_datetime_text(y, m, d, h as int, mi as int)
                &&& fmt@ == "%Y%m%dT%H%M%S"@ ==> r@ == basic_datetime_text(y, m, d, h as int, mi as int, s + nano / 1_000_000_000)
                &&& fmt@ == "%Y-%m-%dT%H:%M:%S"@ ==> r@ == iso_datetime_text(y, m, d, h as int, mi as int, s + nano / 1_000_000_000)
            },
{
    let date = chrono::NaiveDate::from_num_days_from_ce_opt(n).expect("in range");
    let time = chrono::NaiveTime::from_hms_nano_opt(h, mi, s, nano).expect("in range");
    date.and_time(time).format(fmt).to_string()
}

/// `chrono::Local::now().date_naive()`: today's date. It depends on the
/// clock, so only what holds of every date is stated: it lies in the range
/// `NaiveDate` represents.
#[verifier::external_body]
fn chrono_today() -> (r: Date)
    ensures
        min_day() <= r.num() <= max_day(),
{
    Date { days: chrono::Local::now().date_naive().num_days_from_ce() }
}

/// `chrono::Local::now().naive_local()`: the current date-time. It depends on
/// the clock, so only what holds of every time is stated: a representable
/// date, an hour below 24, a minute and a second below 60, and fewer than
/// two billion nanoseconds (a leap second shows above one billion).
#[verifier::external_body]
fn chrono_now() -> (r: DateTime)
    ensures
        min_day() <= r.spec_date().num() <= max_day(),
        0 <= r.spec_hour() < 24,
        0 <= r.spec_minute() < 60,
        0 <= r.spec_second() < 60,
        0 <= r.spec_nano() < 2_000_000_000,
{
    let now = chrono::Local::now().naive_local();
    DateTime {
        date: Date { days: now.date().num_days_from_ce() },
        hour: now.hour(),
        minute: now.minute(),
        second: now.second(),
        nanosecond: now.nanosecond(),
    }
}

/// What `chrono::NaiveDate::parse_from_str(s, fmt)` returns, as a day
/// number, on texts outside the canonical shapes handled above.
pub uninterp spec fn chrono_parse_date(s: Seq<char>, fmt: Seq<char>) -> Option<int>;

/// What `chrono::NaiveDateTime::parse_from_str(s, fmt)` returns, as
/// (day number, hour, minute, second, nanosecond).
pub uninterp spec fn chrono_parse_datetime(s: Seq<char>, fmt: Seq<char>) -> Option<DateTimeParts>;

/// `chrono::NaiveDate::parse_from_str`; its result is named
/// `chrono_parse_date`, a function of the text and the format alone. On the
/// canonical shapes of `%Y-%m-%d` and `%Y%m%d` (four, two and two ASCII
/// digits) the documented reading of those specifiers fixes the result: the
/// date of those numbers, or none when they name no date. `%Y` also reads a
/// sign followed by any number of digits (as it writes years outside
/// `0..=9999`), so `±Y…-MM-DD` reads as the date of the signed year.
#[verifier::external_body]
fn chrono_parse_date_str(s: &str, fmt: &str) -> (r: Option<Date>)
    ensures
        opt_num(r) == chrono_parse_date(s@, fmt@),
        fmt@ == "%Y-%m-%d"@ && iso_date_shape(s@) ==> opt_num(r) == ymd_day(
            num_at(s@, 0, 4),
            num_at(s@, 5, 2),
            num_at(s@, 8, 2),
        ),
        fmt@ == "%Y-%m-%d"@ && signed_iso_shape(s@) ==> opt_num(r) == ymd_day(
            signed_year(s@),
            num_at(s@, s@.len() - 5, 2),
            num_at(s@, s@.len() - 2, 2),
        ),
        fmt@ == "%Y%m%d"@ && basic_date_shape(s@) ==> opt_num(r) == ymd_day(
            num_at(s@, 0, 4),
            num_at(s@, 4, 2),
            num_at(s@, 6, 2),
        ),
{
    chrono::NaiveDate::parse_from_str(s, fmt).ok().map(|x| Date { days: x.num_days_from_ce() })
}

/// `chrono::NaiveDateTime::parse_from_str`; its result is named
/// `chrono_parse_datetime`, a function of the text and the format alone. On
/// the canonical shapes of the three formats the library uses, the
/// documented reading of the specifiers fixes the result (`%a` must name the
/// weekday of the date; a second of 60 is a leap second, kept as second 59
/// with a nanosecond count of one billion).
#[verifier::external_body]
fn chrono_parse_datetime_str(s: &str, fmt: &str) -> (r: Option<DateTime>)
    ensures
        opt_dt_parts(r) == chrono_parse_datetime(s@, fmt@),
        fmt@ == "%Y-%m-%d %a %H:%M"@ && org_datetime_shape(s@) ==> opt_dt_parts(r) == hms_parts(
            ymd_day(num_at(s@, 0, 4), num_at(s@, 5, 2), num_at(s@, 8, 2)),
            num_at(s@, 15, 2),
            num_at(s@, 18, 2),
            0,
        ),
        fmt@ == "%Y-%m-%d %H:%M"@ && iso_minutes_shape(s@) ==> opt_dt_parts(r) == hms_parts(
            ymd_day(num_at(s@, 0, 4), num_at(s@, 5, 2), num_at(s@, 8, 2)),
            num_at(s@, 11, 2),
            num_at(s@, 14, 2),
            0,
        ),
        fmt@ == "%Y%m%dT%H%M%S"@ && basic_datetime_shape(s@) ==> opt_dt_parts(r) == hms_parts(
            ymd_day(num_at(s@, 0, 4), num_at(s@, 4, 2), num_at(s@, 6, 2)),
            num_at(s@, 9, 2),
            num_at(s@, 11, 2),
            num_at(s@, 13, 2),
        ),
{
    chrono::NaiveDateTime::parse_from_str(s, fmt).ok().map(
        |x| DateTime {
            date: Date { days: x.date().num_days_from_ce() },
            hour: x.hour(),
            minute: x.minute(),
            second: x.second(),
            nanosecond: x.nanosecond(),
        },
    )
}

// ---------------------------------------------------------------------------
// Lengths of time
// ---------------------------------------------------------------------------

/// A signed length of time: whole seconds and the nanoseconds beyond them
/// (with the sign of the seconds), as `chrono::TimeDelta::num_seconds` and
/// `subsec_nanos` report it.
#[derive(Clone, Copy, Debug, PartialEq, Eq, Structural)]
pub struct Span {
    pub secs: i64,
    pub nanos: i32,
}

/// A span in nanoseconds.
pub open spec fn span_nanos(s: Span) -> int {
    s.secs * 1_000_000_000 + s.nanos
}

/// A date-time in nanoseconds since the start of day 0.
pub open spec fn dt_nanos(t: DateTime) -> int {
    t.seconds() * 1_000_000_000 + t.spec_nano()
}

/// What `chrono::NaiveDateTime::signed_duration_since(end, start)` returns.
pub uninterp spec fn chrono_since(end: DateTime, start: DateTime) -> Span;

/// What `chrono::NaiveDateTime::checked_add_signed(t, d)` returns.
pub uninterp spec fn chrono_plus(t: DateTime, d: Span) -> Option<DateTime>;

/// `end - start` by `NaiveDateTime::signed_duration_since`, named
/// `chrono_since`. Outside leap seconds it is the plain difference; the
/// seconds stay within the width of chrono's date range. What it gives
/// when a leap second is involved is left to chrono.
#[verifier::external_body]
fn chrono_signed_since(end: DateTime, start: DateTime) -> (r: Span)
    ensures
        r == chrono_since(end, start),
        end.spec_nano() < 1_000_000_000 && start.spec_nano() < 1_000_000_000 ==> span_nanos(r)
            == dt_nanos(end) - dt_nanos(start),
        -20_000_000_000_000 <= r.secs <= 20_000_000_000_000,
        -1_000_000_000 < r.nanos < 1_000_000_000,
{
    let e = chrono::NaiveDate::from_num_days_from_ce_opt(end.date.days).unwrap()
        .and_hms_nano_opt(end.hour, end.minute, end.second, end.nanosecond).unwrap();
    let s = chrono::NaiveDate::from_num_days_from_ce_opt(start.date.days).unwrap()
        .and_hms_nano_opt(start.hour, start.minute, start.second, start.nanosecond).unwrap();
    let d = e.signed_duration_since(s);
    Span { secs: d.num_seconds(), nanos: d.subsec_nanos() }
}

/// `t + d` by `NaiveDateTime::checked_add_signed`, named `chrono_plus`.
/// Outside a leap second the result is the plain sum, there when it falls
/// in chrono's date range; chrono documents `None` only for a result out
/// of range, so a sum two days inside the range is there in any case.
#[verifier::external_body]
fn chrono_checked_plus(t: DateTime, d: Span) -> (r: Option<DateTime>)
    requires
        -20_000_000_000_000 <= d.secs <= 20_000_000_000_000,
        -1_000_000_000 < d.nanos < 1_000_000_000,
    ensures
        r == chrono_plus(t, d),
        t.spec_nano() < 1_000_000_000 ==> (r is Some <==> min_day() * 86_400_000_000_000
            <= dt_nanos(t) + span_nanos(d) < (max_day() + 1) * 86_400_000_000_000),
        t.spec_nano() < 1_000_000_000 ==> (r matches Some(x) ==> dt_nanos(x) == dt_nanos(t)
            + span_nanos(d) && x.spec_nano() < 1_000_000_000),
        min_day() + 2 <= t.spec_date().num() + d.secs / 86400 <= max_day() - 2 ==> r is Some,
{
    let a = chrono::NaiveDate::from_num_days_from_ce_opt(t.date.days).unwrap()
        .and_hms_nano_opt(t.hour, t.minute, t.second, t.nanosecond).unwrap();
    let delta = chrono::TimeDelta::seconds(d.secs) + chrono::TimeDelta::nanoseconds(d.nanos as i64);
    a.checked_add_signed(delta).map(|x| DateTime {
        date: Date { days: x.date().num_days_from_ce() },
        hour: x.hour(),
        minute: x.minute(),
        second: x.second(),
        nanosecond: x.nanosecond(),
    })
}

impl DateTime {
    /// `self - start`.
    pub fn since(&self, start: &DateTime) -> (r: Span)
        ensures
            r == chrono_since(*self, *start),
            self.spec_nano() < 1_000_000_000 && start.spec_nano() < 1_000_000_000 ==> span_nanos(r)
                == dt_nanos(*self) - dt_nanos(*start),
            -20_000_000_000_000 <= r.secs <= 20_000_000_000_000,
            -1_000_000_000 < r.nanos < 1_000_000_000,
    {
        chrono_signed_since(*self, *start)
    }

    /// `self + d`, if in range.
    pub fn plus(&self, d: Span) -> (r: Option<DateTime>)
        requires
            -20_000_000_000_000 <= d.secs <= 20_000_000_000_000,
            -1_000_000_000 < d.nanos < 1_000_000_000,
        ensures
            r == chrono_plus(*self, d),
            min_day() + 2 <= self.spec_date().num() + d.secs / 86400 <= max_day() - 2 ==> r is Some,
    {
        chrono_checked_plus(*self, d)
    }

    /// The same time of day on the date `d` (`NaiveDate::and_time`).
    pub fn on_date(&self, d: Date) -> (r: DateTime)
        ensures
            r.spec_date() == d,
            r.spec_hour() == self.spec_hour(),
            r.spec_minute() == self.spec_minute(),
            r.spec_second() == self.spec_second(),
            r.spec_nano() == self.spec_nano(),
    {
        proof {
            use_type_invariant(self);
        }
        DateTime { date: d, hour: self.hour, minute: self.minute, second: self.second, nanosecond: self.nanosecond }
    }

    /// Midnight of the date `d`.
    pub fn midnight(d: Date) -> (r: DateTime)
        ensures
            r.spec_date() == d,
            r.spec_hour() == 0,
            r.spec_minute() == 0,
            r.spec_second() == 0,
            r.spec_nano() == 0,
    {
        DateTime { date: d, hour: 0, minute: 0, second: 0, nanosecond: 0 }
    }
}

/// The date-time with the given parts.
pub open spec fn dt_of(p: DateTimeParts) -> DateTime {
    choose|d: DateTime| dt_parts(d) == p
}

/// A date-time is the one its parts name.
pub proof fn lemma_dt_of(d: DateTime)
    ensures
        dt_of(dt_parts(d)) == d,
{
    let e = dt_of(dt_parts(d));
    assert(dt_parts(e) == dt_parts(d));
    assert(e.date.days == d.date.days);
    assert(e.date == d.date);
}

/// The date with the given day number.
pub open spec fn date_of(n: int) -> Date {
    choose|d: Date| d.num() == n
}

/// A date is the one its day number names.
pub proof fn lemma_date_of(d: Date)
    ensures
        date_of(d.num()) == d,
{
    let e = date_of(d.num());
    assert(e.num() == d.num());
    assert(e.days == d.days);
}

/// What `NaiveDateTime`'s `Display` writes.
pub uninterp spec fn chrono_display(t: DateTime) -> Seq<char>;

/// `NaiveDateTime::to_string`, named `chrono_display`. Without a fraction
/// of a second it is `%Y-%m-%d %H:%M:%S` (the date as `Debug` writes it,
/// the same as `%Y-%m-%d`); a fraction or a leap second is written as
/// chrono writes it.
#[verifier::external_body]
fn chrono_display_string(t: DateTime) -> (r: String)
    ensures
        r@ == chrono_display(t),
        t.spec_nano() == 0 ==> r@ == date_iso(t.spec_date()) + seq![' '] + hm_text(t.spec_hour(), t.spec_minute())
            + seq![':'] + two_digits(t.spec_second()),
{
    chrono::NaiveDate::from_num_days_from_ce_opt(t.date.days).unwrap()
        .and_hms_nano_opt(t.hour, t.minute, t.second, t.nanosecond).unwrap().to_string()
}

impl DateTime {
    /// The text `Display` gives.
    pub fn display_string(&self) -> (r: String)
        ensures
            r@ == chrono_display(*self),
    {
        chrono_display_string(*self)
    }
}

} // verus!
