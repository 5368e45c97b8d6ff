use lamp::dates::{Date, DateTime};
use lamp::ids::Uuid;
use lamp::model::items::{CalendarEvent, EventStatus};
use lamp::model::task::{Priority, Task, TaskState};
use lamp::org::writer::OrgWriter;
use lamp::sync::ical::{escape_text, fold_line, unescape_text, unfold_lines};
use lamp::sync::merge::merge_tasks;
use lamp::sync::vevent::{event_content_hash, event_to_vcalendar, vcalendar_to_event, vcalendar_to_events};
use lamp::sync::vtodo::task_to_vcalendar;
use lamp::sync::vtodo_parse::{vcalendar_checked, vcalendar_to_task};

fn date(y: i32, m: u32, d: u32) -> Date {
    Date::from_ymd(y, m, d).unwrap()
}

fn at(y: i32, m: u32, d: u32, h: u32, mi: u32) -> DateTime {
    DateTime::new(date(y, m, d), h, mi, 0).unwrap()
}

fn make_base() -> Task {
    let mut t = Task::new("Base task");
    t.priority = Some(Priority::B);
    t.contexts = vec!["@home".to_string()];
    t
}

// ---------------------------------------------------------------- merge

#[test]
fn merge_keeps_work_records_of_both_sides() {
    let base = make_base();
    let d1 = DateTime::new(Date::from_ymd(2026, 3, 1).unwrap(), 9, 0, 0).unwrap();
    let d2 = DateTime::new(Date::from_ymd(2026, 3, 2).unwrap(), 9, 0, 0).unwrap();
    let d3 = DateTime::new(Date::from_ymd(2026, 3, 3).unwrap(), 9, 0, 0).unwrap();
    let mut local = base.clone();
    local.logbook_entries = vec![d1, d2];
    local.clock_entries = vec![(d1, d2)];
    local.extra_tags = vec!["habit".to_string()];
    let mut remote = base.clone();
    remote.logbook_entries = vec![d2, d3];
    remote.clock_entries = vec![(d2, d3)];
    remote.extra_tags = vec!["review".to_string()];
    let merged = merge_tasks(&local, &remote, &base);
    // The logbook is the union in time order.
    assert_eq!(merged.logbook_entries, vec![d1, d2, d3]);
    assert_eq!(merged.clock_entries, vec![(d2, d3), (d1, d2)]);
    assert_eq!(merged.extra_tags, vec!["review".to_string(), "habit".to_string()]);
    remote.extra_tags = vec![];
    assert_eq!(merge_tasks(&local, &remote, &base).extra_tags, vec!["habit".to_string()]);
}

#[test]
fn no_conflict_different_fields() {
    let base = make_base();
    let mut local = base.clone();
    local.title = "Local title".to_string();
    let mut remote = base.clone();
    remote.priority = Some(Priority::A);
    let merged = merge_tasks(&local, &remote, &base);
    assert_eq!(merged.title, "Local title");
    assert_eq!(merged.priority, Some(Priority::A));
}

#[test]
fn same_field_both_changed_remote_wins() {
    let base = make_base();
    let mut local = base.clone();
    local.title = "Local title".to_string();
    let mut remote = base.clone();
    remote.title = "Remote title".to_string();
    let merged = merge_tasks(&local, &remote, &base);
    assert_eq!(merged.title, "Remote title");
}

#[test]
fn same_field_same_value_no_conflict() {
    let base = make_base();
    let mut local = base.clone();
    local.title = "Same title".to_string();
    let mut remote = base.clone();
    remote.title = "Same title".to_string();
    let merged = merge_tasks(&local, &remote, &base);
    assert_eq!(merged.title, "Same title");
}

#[test]
fn only_local_changed() {
    let base = make_base();
    let mut local = base.clone();
    local.scheduled = Some(date(2026, 3, 1));
    let remote = base.clone();
    let merged = merge_tasks(&local, &remote, &base);
    assert_eq!(merged.scheduled, Some(date(2026, 3, 1)));
}

#[test]
fn only_remote_changed() {
    let base = make_base();
    let local = base.clone();
    let mut remote = base.clone();
    remote.state = TaskState::Next;
    let merged = merge_tasks(&local, &remote, &base);
    assert_eq!(merged.state, TaskState::Next);
}

#[test]
fn merge_with_unchanged_remote_keeps_local() {
    let base = make_base();
    let mut local = base.clone();
    local.notes = "edited".to_string();
    local.state = TaskState::Waiting;
    let merged = merge_tasks(&local, &base, &base);
    assert_eq!(merged.notes, "edited");
    assert_eq!(merged.state, TaskState::Waiting);
}

// ---------------------------------------------------------------- VTODO

#[test]
fn roundtrip_simple_task() {
    let mut task = Task::new("unused");
    task.title = "Fix the faucet".to_string();
    task.state = TaskState::Next;
    task.priority = Some(Priority::A);
    task.contexts = vec!["@home".to_string()];
    task.scheduled = Some(date(2026, 2, 24));
    task.deadline = Some(date(2026, 3, 1));
    task.notes = "Call the plumber first".to_string();
    task.esc = Some(20);
    let id = task.id;
    let ical = task_to_vcalendar(&task);
    let parsed = vcalendar_to_task(&ical).unwrap();
    assert_eq!(parsed.id, id);
    assert_eq!(parsed.title, "Fix the faucet");
    assert_eq!(parsed.state, TaskState::Next);
    assert_eq!(parsed.priority, Some(Priority::A));
    assert_eq!(parsed.contexts, vec!["@home"]);
    assert_eq!(parsed.scheduled, Some(date(2026, 2, 24)));
    assert_eq!(parsed.deadline, Some(date(2026, 3, 1)));
    assert_eq!(parsed.notes, "Call the plumber first");
    assert_eq!(parsed.esc, Some(20));
}

#[test]
fn roundtrip_waiting_task() {
    let mut task = Task::new("Review PR");
    task.state = TaskState::Waiting;
    task.waiting_for = Some("Alice".to_string());
    task.delegated = Some(date(2026, 2, 20));
    task.follow_up = Some(date(2026, 2, 27));
    task.project = Some("Launch v2".to_string());
    let ical = task_to_vcalendar(&task);
    let parsed = vcalendar_to_task(&ical).unwrap();
    assert_eq!(parsed.state, TaskState::Waiting);
    assert_eq!(parsed.waiting_for, Some("Alice".to_string()));
    assert_eq!(parsed.delegated, Some(date(2026, 2, 20)));
    assert_eq!(parsed.follow_up, Some(date(2026, 2, 27)));
    assert_eq!(parsed.project, Some("Launch v2".to_string()));
}

#[test]
fn roundtrip_done_task() {
    let mut task = Task::new("Old thing");
    task.complete();
    let ical = task_to_vcalendar(&task);
    let parsed = vcalendar_to_task(&ical).unwrap();
    assert_eq!(parsed.state, TaskState::Done);
    assert!(parsed.completed.is_some());
}

#[test]
fn parse_non_lamp_vtodo() {
    let ical = "BEGIN:VCALENDAR\r\nVERSION:2.0\r\nBEGIN:VTODO\r\nUID:abc-123\r\nSUMMARY:External task\r\nSTATUS:NEEDS-ACTION\r\nPRIORITY:5\r\nEND:VTODO\r\nEND:VCALENDAR\r\n";
    let task = vcalendar_to_task(ical).unwrap();
    assert_eq!(task.title, "External task");
    assert_eq!(task.state, TaskState::Todo);
    assert_eq!(task.priority, Some(Priority::B));
}

#[test]
fn vtodo_without_summary_and_checks() {
    let ical = "BEGIN:VCALENDAR\r\nBEGIN:VTODO\r\nUID:x\r\nEND:VTODO\r\nEND:VCALENDAR\r\n";
    assert!(vcalendar_checked(ical));
    assert!(vcalendar_to_task(ical).is_none());
    let bad = "BEGIN:VTODO\r\nSUMMARY:x\r\nDUE:2026010€\r\nEND:VTODO\r\n";
    assert!(!vcalendar_checked(bad));
}

#[test]
fn vtodo_uid_names_the_task() {
    let ical = "BEGIN:VCALENDAR\r\nBEGIN:VTODO\r\nUID:abc-123\r\nSUMMARY:T\r\nEND:VTODO\r\nEND:VCALENDAR\r\n";
    let a = vcalendar_to_task(ical).unwrap();
    let b = vcalendar_to_task(ical).unwrap();
    assert_eq!(a.id, b.id);
    assert_eq!(a.sync_uid, Some("abc-123".to_string()));
    let uid = "6ba7b810-9dad-11d1-80b4-00c04fd430c8";
    let with_uuid = format!("BEGIN:VTODO\r\nUID:{}\r\nSUMMARY:T\r\nEND:VTODO\r\n", uid);
    assert_eq!(vcalendar_to_task(&with_uuid).unwrap().id, Uuid::parse_str(uid).unwrap());
}

// ---------------------------------------------------------------- VEVENT

#[test]
fn roundtrip_timed_event() {
    let start = at(2026, 2, 25, 14, 0);
    let end = at(2026, 2, 25, 15, 0);
    let mut event = CalendarEvent::new("Meeting with Alice".to_string(), start, end);
    event.location = "Conference Room B".to_string();
    let id = event.id;
    let ical = event_to_vcalendar(&event);
    let parsed = vcalendar_to_event(&ical).unwrap();
    assert_eq!(parsed.id, id);
    assert_eq!(parsed.title, "Meeting with Alice");
    assert_eq!(parsed.start, start);
    assert_eq!(parsed.end, end);
    assert!(!parsed.all_day);
    assert_eq!(parsed.location, "Conference Room B");
}

#[test]
fn roundtrip_all_day_event() {
    let start = at(2026, 3, 1, 0, 0);
    let end = at(2026, 3, 2, 0, 0);
    let mut event = CalendarEvent::new("Conference".to_string(), start, end);
    event.all_day = true;
    let ical = event_to_vcalendar(&event);
    let parsed = vcalendar_to_event(&ical).unwrap();
    assert!(parsed.all_day);
    assert_eq!(parsed.title, "Conference");
}

#[test]
fn vevent_content_hash_changes() {
    let start = at(2026, 2, 25, 10, 0);
    let event1 = CalendarEvent::new("Test".to_string(), start, start);
    let mut event2 = event1.clone();
    event2.title = "Changed".to_string();
    assert_ne!(event_content_hash(&event1), event_content_hash(&event2));
}

#[test]
fn expand_weekly_rrule() {
    let ical = "BEGIN:VCALENDAR\r\nVERSION:2.0\r\nBEGIN:VEVENT\r\nUID:weekly-test-123\r\nSUMMARY:Acting Class\r\nDTSTART:20260204T180000\r\nDTEND:20260204T200000\r\nRRULE:FREQ=WEEKLY;BYDAY=WE\r\nEND:VEVENT\r\nEND:VCALENDAR\r\n";
    let events = vcalendar_to_events(ical);
    assert!(events.len() > 40, "Expected many weekly instances, got {}", events.len());
    assert_eq!(events[0].start.date(), date(2026, 2, 4));
    assert_eq!(events[0].title, "Acting Class");
    for e in &events {
        assert_eq!(e.start.date().weekday(), 2, "Instance is not a Wednesday");
    }
    for e in &events {
        let d = e.end.since(&e.start);
        assert_eq!((d.secs, d.nanos), (2 * 3600, 0));
    }
    let mut ids: Vec<u128> = events.iter().map(|e| e.id.value).collect();
    ids.sort();
    ids.dedup();
    assert_eq!(ids.len(), events.len(), "Instance IDs should be unique");
}

#[test]
fn rrule_with_count() {
    let ical = "BEGIN:VCALENDAR\r\nVERSION:2.0\r\nBEGIN:VEVENT\r\nUID:count-test\r\nSUMMARY:Limited\r\nDTSTART:20260301T100000\r\nDTEND:20260301T110000\r\nRRULE:FREQ=DAILY;COUNT=5\r\nEND:VEVENT\r\nEND:VCALENDAR\r\n";
    let events = vcalendar_to_events(ical);
    assert_eq!(events.len(), 5);
}

#[test]
fn no_rrule_returns_single() {
    let ical = "BEGIN:VCALENDAR\r\nVERSION:2.0\r\nBEGIN:VEVENT\r\nUID:single-test\r\nSUMMARY:One-off\r\nDTSTART:20260301T100000\r\nDTEND:20260301T110000\r\nEND:VEVENT\r\nEND:VCALENDAR\r\n";
    let events = vcalendar_to_events(ical);
    assert_eq!(events.len(), 1);
}

#[test]
fn skip_empty_summary() {
    let ical = "BEGIN:VCALENDAR\r\nVERSION:2.0\r\nBEGIN:VEVENT\r\nUID:abc-123\r\nSUMMARY:\r\nDTSTART:20260225T100000\r\nDTEND:20260225T110000\r\nEND:VEVENT\r\nEND:VCALENDAR\r\n";
    assert!(vcalendar_to_event(ical).is_none());
}

#[test]
fn exdate_and_status() {
    let ical = "BEGIN:VEVENT\r\nUID:ex\r\nSUMMARY:Daily\r\nSTATUS:tentative\r\nDTSTART:20260301T100000\r\nRRULE:FREQ=DAILY;COUNT=3\r\nEXDATE:20260302T100000\r\nEND:VEVENT\r\n";
    let events = vcalendar_to_events(ical);
    let days: Vec<Date> = events.iter().map(|e| e.start.date()).collect();
    assert_eq!(days, vec![date(2026, 3, 1), date(2026, 3, 3)]);
    assert!(events.iter().all(|e| e.status == EventStatus::Tentative));
    assert_eq!(events[0].end, events[0].start);
}

#[test]
fn monthly_rule_skips_months_without_the_day() {
    let ical = "BEGIN:VEVENT\r\nUID:m\r\nSUMMARY:Rent\r\nDTSTART;VALUE=DATE:20260131\r\nRRULE:FREQ=MONTHLY;COUNT=3\r\nEND:VEVENT\r\n";
    let events = vcalendar_to_events(ical);
    let days: Vec<Date> = events.iter().map(|e| e.start.date()).collect();
    assert_eq!(days, vec![date(2026, 1, 31), date(2026, 3, 31), date(2026, 5, 31)]);
    assert!(events[0].all_day);
}

#[test]
fn yearly_rule_on_leap_day_skips_common_years() {
    let ical = "BEGIN:VEVENT\r\nUID:y\r\nSUMMARY:Leap\r\nDTSTART;VALUE=DATE:20200229\r\nRRULE:FREQ=YEARLY;COUNT=2\r\nEND:VEVENT\r\n";
    let events = vcalendar_to_events(ical);
    let days: Vec<Date> = events.iter().map(|e| e.start.date()).collect();
    assert_eq!(days, vec![date(2020, 2, 29), date(2024, 2, 29)]);
}

// ---------------------------------------------------------------- iCalendar text

#[test]
fn escape_roundtrip_and_fold() {
    let s = "a;b,c\\d\ne";
    let e = escape_text(s);
    assert_eq!(e, "a\\;b\\,c\\\\d\\ne");
    assert_eq!(unescape_text(&e), s);
    let long = "x".repeat(160);
    let folded = fold_line(&long);
    // No line exceeds 75 octets, the leading space of a continuation included.
    assert_eq!(folded, format!("{}\r\n {}\r\n {}", "x".repeat(75), "x".repeat(74), "x".repeat(11)));
    assert_eq!(unfold_lines(&folded), long);
    assert_eq!(fold_line("short"), "short");
}

// ---------------------------------------------------------------- writer

#[test]
fn write_simple_task() {
    let mut task = Task::new("unused");
    task.title = "Fix the faucet".to_string();
    task.state = TaskState::Todo;
    task.priority = Some(Priority::A);
    task.contexts = vec!["@home".to_string()];
    task.scheduled = Some(date(2026, 2, 24));
    let output = OrgWriter::write_task(&task);
    assert!(output.contains("* TODO [#A] Fix the faucet :@home:"));
    assert!(output.contains("SCHEDULED: <2026-02-24 Tue>"));
    assert!(output.contains(":ID:"));
    assert!(output.contains(":CREATED:"));
}

#[test]
fn write_file_roundtrip() {
    let tasks = vec![Task::new("First task"), Task::new("Second task")];
    let output = OrgWriter::write_file("Inbox", &tasks);
    assert!(output.starts_with("#+TITLE: Inbox"));
    assert!(output.contains("* TODO First task"));
    assert!(output.contains("* TODO Second task"));
}
