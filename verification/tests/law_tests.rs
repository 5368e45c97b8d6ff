use lamp::dates::{Date, DateTime};
use lamp::model::task::{Priority, Task, TaskState};
use lamp::org::parser::OrgParser;
use lamp::org::writer::OrgWriter;
use lamp::sync::caldav::{RemoteVtodo, SyncChange};
use lamp::sync::engine::{
    apply_remote_changes, effective_tasks, new_sync_result, parse_changes, plan_push, record_push_ok,
};
use lamp::sync::hash::task_content_hash;
use lamp::sync::ical::{escape_text, fold_line, unescape_text, unfold_lines};
use lamp::sync::vtodo::task_to_vcalendar_at;

const CAL: &str = "/dav/calendars/user/tasks/";

fn now() -> DateTime {
    DateTime::new(Date::from_ymd(2026, 2, 1).unwrap(), 9, 30, 0).unwrap()
}

fn href_of(t: &Task) -> String {
    format!("{}{}.ics", CAL, t.id.to_string())
}

#[test]
fn sync_data_is_not_hashed() {
    let mut t = Task::new("Hash me");
    t.notes = "some notes".to_string();
    let h = task_content_hash(&t);
    t.sync_href = Some("/x.ics".to_string());
    t.sync_hash = Some(42);
    t.sync_uid = Some("uid".to_string());
    t.sync_etag = Some("\"e\"".to_string());
    assert_eq!(task_content_hash(&t), h);
    t.title = "Changed".to_string();
    assert_ne!(task_content_hash(&t), h);
}

#[test]
fn pulling_twice_gives_the_same_task() {
    let remote_task = Task::new("Remote");
    let href = href_of(&remote_task);
    let changes = vec![SyncChange::Changed(RemoteVtodo {
        href: href.clone(),
        etag: "\"1\"".to_string(),
        uid: None,
        ical_body: task_to_vcalendar_at(&remote_task, now()),
    })];
    let parsed = parse_changes(&changes);
    let first = apply_remote_changes(&[], &changes, &parsed);
    let after = effective_tasks(&[], &first.deleted_local, &first.pulled);
    let second = apply_remote_changes(&after, &changes, &parsed);
    assert_eq!(second.merged, 1);
    assert!(second.conflicts.is_empty());
    assert_eq!(second.pulled[0].sync_etag, first.pulled[0].sync_etag);
    assert_eq!(second.pulled.len(), 1);
    assert_eq!(second.pulled[0].title, first.pulled[0].title);
    assert_eq!(second.pulled[0].sync_hash, first.pulled[0].sync_hash);
    assert_eq!(second.pulled[0].sync_href, first.pulled[0].sync_href);
    // The pulled task shows no local change, so nothing is pushed back.
    assert!(plan_push(&after, &[], CAL, now()).is_empty());
}

#[test]
fn pushed_task_is_settled() {
    let t = Task::new("New here");
    let plan = plan_push(&[t.clone()], &[], CAL, now());
    assert_eq!(plan.len(), 1);
    let mut result = new_sync_result();
    record_push_ok(&mut result, &[t.clone()], &plan[0], None);
    let after = effective_tasks(&[t], &result.deleted_local, &result.pulled);
    assert_eq!(after.len(), 1);
    assert!(plan_push(&after, &[], CAL, now()).is_empty());
}

#[test]
fn unescape_undoes_escape() {
    let s = "a;b,c\nd\\e \\; x";
    assert_eq!(unescape_text(&escape_text(s)), s);
    // A backslash directly before `n` comes back as a backslash and a newline.
    assert_eq!(unescape_text(&escape_text("\\n")), "\\\n");
}

#[test]
fn unfold_undoes_fold() {
    let long = "é".repeat(100);
    assert_eq!(unfold_lines(&fold_line(&long)), long);
    // A leading space is read as a continuation.
    assert_eq!(unfold_lines(&fold_line(" x")), "x");
}

#[test]
fn headline_reads_back() {
    let mut t = Task::new("Fix the leaky faucet");
    t.state = TaskState::Next;
    t.priority = Some(Priority::A);
    t.contexts = vec!["@home".to_string(), "@errands".to_string()];
    let text = OrgWriter::write_task(&t);
    let hs = OrgParser::parse(&text);
    assert_eq!(hs.len(), 1);
    assert_eq!(hs[0].level, 1);
    assert_eq!(hs[0].state, Some(TaskState::Next));
    assert_eq!(hs[0].priority, Some(Priority::A));
    assert_eq!(hs[0].title, "Fix the leaky faucet");
    assert_eq!(hs[0].tags, vec!["@home", "@errands"]);
}

#[test]
fn extra_tags_survive_the_org_round_trip() {
    let mut t = Task::new("Meditate");
    t.contexts = vec!["@home".to_string()];
    t.extra_tags = vec!["habit".to_string()];
    let text = OrgWriter::write_task_at_level(&t, 1);
    assert!(text.starts_with("* TODO Meditate :@home:habit:\n"));
    let back = lamp::org::convert::parse_tasks(&text);
    assert_eq!(back.len(), 1);
    assert_eq!(back[0].contexts, vec!["@home".to_string()]);
    assert_eq!(back[0].extra_tags, vec!["habit".to_string()]);
}

#[test]
fn completed_task_keeps_its_dates_and_id_in_org() {
    let mut t = Task::new("Filed");
    t.scheduled = Some(Date::from_ymd(2026, 3, 2).unwrap());
    t.deadline = Some(Date::from_ymd(2026, 3, 5).unwrap());
    t.complete();
    let text = OrgWriter::write_task_at_level(&t, 1);
    assert!(text.contains("CLOSED: ["));
    let back = lamp::org::convert::parse_tasks(&text);
    assert_eq!(back.len(), 1);
    assert_eq!(back[0].id, t.id);
    assert_eq!(back[0].state, TaskState::Done);
    assert_eq!(back[0].scheduled, t.scheduled);
    assert_eq!(back[0].deadline, t.deadline);
}

#[test]
fn day_plan_keywords_read_back() {
    let mut plan = lamp::model::day_plan::DayPlan::new(Date::from_ymd(2026, 3, 10).unwrap());
    plan.spoon_budget = 72;
    plan.spent_spoons = 15;
    let text = OrgWriter::write_day_plan(&plan);
    let back = lamp::org::extract::parse_day_plan(&text).unwrap();
    assert_eq!(back.date, plan.date);
    assert_eq!(back.spoon_budget, 72);
    assert_eq!(back.spent_spoons, 15);
}

#[test]
fn vtodo_text_reads_back_every_field() {
    let title = "A long title, with commas; semicolons and more words to go past the fold width of the line";
    let mut t = Task::new(title);
    t.state = TaskState::Someday;
    t.priority = Some(Priority::C);
    t.contexts = vec!["@home".to_string(), "@phone".to_string()];
    t.scheduled = Some(Date::from_ymd(2026, 2, 24).unwrap());
    t.deadline = Some(Date::from_ymd(2026, 3, 1).unwrap());
    t.notes = "First line\nsecond line, with a comma".to_string();
    t.project = Some("Home; repairs".to_string());
    t.waiting_for = Some("Bob".to_string());
    t.esc = Some(7);
    t.delegated = Some(Date::from_ymd(2026, 2, 20).unwrap());
    t.follow_up = Some(Date::from_ymd(2026, 2, 27).unwrap());
    t.recurrence = lamp::model::recurrence::Recurrence::parse("++2w");
    t.created = now();
    t.completed = Some(DateTime::new(Date::from_ymd(2026, 2, 2).unwrap(), 8, 15, 30).unwrap());
    let ical = task_to_vcalendar_at(&t, now());
    let r = lamp::sync::vtodo_parse::vcalendar_to_task(&ical).unwrap();
    assert_eq!(r.id, t.id);
    assert_eq!(r.title, title);
    assert_eq!(r.state, TaskState::Someday);
    assert_eq!(r.priority, Some(Priority::C));
    assert_eq!(r.contexts, t.contexts);
    assert_eq!(r.scheduled, t.scheduled);
    assert_eq!(r.deadline, t.deadline);
    assert_eq!(r.notes, t.notes);
    assert_eq!(r.project, t.project);
    assert_eq!(r.waiting_for, t.waiting_for);
    assert_eq!(r.esc, Some(7));
    assert_eq!(r.delegated, t.delegated);
    assert_eq!(r.follow_up, t.follow_up);
    assert_eq!(r.recurrence, t.recurrence);
    assert_eq!(r.created, t.created);
    assert_eq!(r.completed, t.completed);
}

#[test]
fn vevent_text_reads_back_every_field() {
    let start = DateTime::new(Date::from_ymd(2026, 2, 25).unwrap(), 14, 5, 9).unwrap();
    let end = DateTime::new(Date::from_ymd(2026, 2, 25).unwrap(), 15, 0, 0).unwrap();
    let mut e = lamp::model::items::CalendarEvent::new("Planning, with a long title that needs folding at seventy five".to_string(), start, end);
    e.location = "Room 4; second floor".to_string();
    e.description = "Agenda:\nbudget, hiring".to_string();
    let ical = lamp::sync::vevent::event_to_vcalendar_at(&e, now());
    let r = lamp::sync::vevent::vcalendar_to_events(&ical);
    assert_eq!(r.len(), 1);
    assert_eq!(r[0].id, e.id);
    assert_eq!(r[0].title, e.title);
    assert_eq!(r[0].start, start);
    assert_eq!(r[0].end, end);
    assert!(!r[0].all_day);
    assert_eq!(r[0].location, e.location);
    assert_eq!(r[0].description, e.description);
}
