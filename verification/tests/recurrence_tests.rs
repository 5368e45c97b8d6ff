use lamp::dates::Date;
use lamp::model::recurrence::{Recurrence, RecurrenceInterval, RecurrenceUnit};

fn date(y: i32, m: u32, d: u32) -> Date {
    Date::from_ymd(y, m, d).unwrap()
}

#[test]
fn parse_standard() {
    let r = Recurrence::parse("+1w").unwrap();
    assert!(matches!(r, Recurrence::Standard(_)));
    assert_eq!(r.to_string(), "+1w");
}

#[test]
fn parse_relative() {
    let r = Recurrence::parse(".+1d").unwrap();
    assert!(matches!(r, Recurrence::Relative(_)));
    assert_eq!(r.to_string(), ".+1d");
}

#[test]
fn parse_strict() {
    let r = Recurrence::parse("++1m").unwrap();
    assert!(matches!(r, Recurrence::Strict(_)));
    assert_eq!(r.to_string(), "++1m");
}

#[test]
fn next_date_standard() {
    let original = date(2026, 2, 1);
    let completed = date(2026, 2, 5);
    let today = date(2026, 2, 5);
    let r = Recurrence::parse("+1w").unwrap();
    assert_eq!(r.next_date(original, completed, today), date(2026, 2, 8));
}

#[test]
fn next_date_relative() {
    let original = date(2026, 2, 1);
    let completed = date(2026, 2, 5);
    let today = date(2026, 2, 5);
    let r = Recurrence::parse(".+1d").unwrap();
    assert_eq!(r.next_date(original, completed, today), date(2026, 2, 6));
}

#[test]
fn next_date_strict() {
    let original = date(2026, 1, 1);
    let completed = date(2026, 2, 5);
    let today = date(2026, 2, 5);
    let r = Recurrence::parse("++1m").unwrap();
    assert_eq!(r.next_date(original, completed, today), date(2026, 3, 1));
}

#[test]
fn parse_rejects_unknown_units_and_prefixes() {
    assert_eq!(Recurrence::parse("+1x"), None);
    assert_eq!(Recurrence::parse("1d"), None);
    assert_eq!(Recurrence::parse(""), None);
    assert_eq!(Recurrence::parse("  +2y "), Some(Recurrence::Standard(RecurrenceInterval { count: 2, unit: RecurrenceUnit::Year })));
}

#[test]
fn month_arithmetic_clamps_the_day() {
    let iv = RecurrenceInterval { count: 1, unit: RecurrenceUnit::Month };
    assert_eq!(iv.add_to(date(2026, 1, 31)), date(2026, 2, 28));
    assert_eq!(iv.add_to(date(2024, 1, 31)), date(2024, 2, 29));
    let y = RecurrenceInterval { count: 1, unit: RecurrenceUnit::Year };
    assert_eq!(y.add_to(date(2024, 2, 29)), date(2025, 2, 28));
    let w = RecurrenceInterval { count: 2, unit: RecurrenceUnit::Week };
    assert_eq!(w.add_to(date(2026, 12, 25)), date(2027, 1, 8));
}

#[test]
fn text_roundtrip() {
    for s in ["+3d", ".+12w", "++7m", "+0y"] {
        assert_eq!(Recurrence::parse(s).unwrap().to_string(), s);
    }
}
