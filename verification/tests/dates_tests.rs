use lamp::dates::{Date, DateTime};
use lamp::ids::Uuid;
use lamp::model::items::EventStatus;
use lamp::model::month_calendar::MonthCalendarState;
use lamp::sync::vevent::vcalendar_to_event;

fn day() -> Date {
    Date::from_ymd(2026, 2, 24).unwrap()
}

#[test]
fn date_texts() {
    let d = day();
    assert_eq!(d.ymd(), (2026, 2, 24));
    assert_eq!(d.to_iso_string(), "2026-02-24");
    assert_eq!(d.to_basic_string(), "20260224");
    assert_eq!(d.weekday_name(), "Tue");
    assert_eq!(d.weekday(), 1);
    assert!(Date::from_ymd(2026, 2, 29).is_none());
    assert!(Date::from_ymd(2024, 2, 29).is_some());
}

#[test]
fn date_parsing() {
    assert_eq!(Date::parse_iso("2026-02-24").unwrap().to_iso_string(), "2026-02-24");
    assert!(Date::parse_iso("2026-02-30").is_none());
    assert!(Date::parse_iso("24.02.2026").is_none());
}

#[test]
fn datetime_texts() {
    let t = DateTime::new(day(), 14, 5, 9).unwrap();
    assert_eq!(t.to_org_string(), "2026-02-24 Tue 14:05");
    assert_eq!(t.to_basic_string(), "20260224T140509");
    assert_eq!(t.to_iso_seconds_string(), "2026-02-24T14:05:09");
    assert_eq!(t.display_string(), "2026-02-24 14:05:09");
}

#[test]
fn datetime_arithmetic() {
    let start = DateTime::new(day(), 23, 59, 0).unwrap();
    let end = DateTime::new(Date::from_ymd(2026, 2, 25).unwrap(), 0, 0, 30).unwrap();
    let span = end.since(&start);
    assert_eq!(span.secs, 90);
    assert_eq!(span.nanos, 0);
    let back = start.plus(span).unwrap();
    assert_eq!(back.to_iso_seconds_string(), "2026-02-25T00:00:30");
    let neg = start.since(&end);
    assert_eq!(neg.secs, -90);
}

#[test]
fn name_based_uuid() {
    let dns = Uuid::parse_str("6ba7b810-9dad-11d1-80b4-00c04fd430c8").unwrap();
    let id = Uuid::new_v5(&dns, "python.org");
    assert_eq!(id.to_string(), "886313e1-3b8a-5372-9b90-0c9aee199e5d");
}

#[test]
fn event_status_ignores_case() {
    let ical = "BEGIN:VCALENDAR\r\nBEGIN:VEVENT\r\nUID:s1\r\nSUMMARY:Maybe\r\nSTATUS:tentative\r\nDTSTART:20260301T100000\r\nDTEND:20260301T110000\r\nEND:VEVENT\r\nEND:VCALENDAR\r\n";
    let e = vcalendar_to_event(ical).unwrap();
    assert_eq!(e.status, EventStatus::Tentative);
}

#[test]
fn month_steps_clamp_the_day() {
    let d = Date::from_ymd(2026, 1, 31).unwrap();
    assert_eq!(d.checked_add_months(1), Date::from_ymd(2026, 2, 28));
    assert_eq!(d.checked_sub_months(2), Date::from_ymd(2025, 11, 30));
    let leap = Date::from_ymd(2024, 3, 31).unwrap();
    assert_eq!(leap.checked_sub_months(1), Date::from_ymd(2024, 2, 29));
}

#[test]
fn month_calendar_steps_and_selection() {
    let mut st = MonthCalendarState {
        displayed_month: Date::from_ymd(2026, 1, 1).unwrap(),
        selected_day: Some(Date::from_ymd(2026, 1, 5).unwrap()),
    };
    st.prev_month();
    assert_eq!(st.displayed_month, Date::from_ymd(2025, 12, 1).unwrap());
    assert_eq!(st.selected_day, None);
    st.next_month();
    st.next_month();
    assert_eq!(st.displayed_month, Date::from_ymd(2026, 2, 1).unwrap());
    let day = Date::from_ymd(2026, 2, 14).unwrap();
    st.select_day(day);
    assert_eq!(st.selected_day, Some(day));
    st.select_day(day);
    assert_eq!(st.selected_day, None);
}

#[test]
fn random_ids_carry_version_and_variant() {
    for _ in 0..8 {
        let u = Uuid::new_v4();
        assert_eq!((u.value >> 76) & 0xf, 4);
        assert_eq!((u.value >> 62) & 0x3, 2);
    }
}
