use lamp::dates::{Date, DateTime};
use lamp::ids::Uuid;
use lamp::model::task::{Priority, Task, TaskState};
use lamp::sync::hash::task_content_hash;

fn dt(y: i32, m: u32, d: u32, h: u32, mi: u32) -> DateTime {
    DateTime::new(Date::from_ymd(y, m, d).unwrap(), h, mi, 0).unwrap()
}

#[test]
fn vtodo_content_hash_changes() {
    let task1 = Task::new("Test");
    let mut task2 = task1.clone();
    task2.title = "Changed".to_string();
    assert_ne!(task_content_hash(&task1), task_content_hash(&task2));
}

#[test]
fn content_hash_stable() {
    let task = Task::new("Stable");
    assert_eq!(task_content_hash(&task), task_content_hash(&task));
}

#[test]
fn cross_platform_hash_minimal() {
    let mut task = Task::new("unused");
    task.title = "Buy milk".to_string();
    task.state = TaskState::Todo;
    assert_eq!(task_content_hash(&task), 12459385973532360430);
}

#[test]
fn cross_platform_hash_full() {
    let mut task = Task::with_identity("unused", Uuid { value: 0 }, dt(2026, 1, 1, 0, 0));
    task.title = "Review quarterly report".to_string();
    task.state = TaskState::Next;
    task.priority = Some(Priority::B);
    task.contexts = vec!["@office".to_string(), "@computer".to_string()];
    task.scheduled = Some(Date::from_ymd(2026, 3, 15).unwrap());
    task.deadline = Some(Date::from_ymd(2026, 3, 20).unwrap());
    task.notes = "Check figures in section 3".to_string();
    task.project = Some("Q1 Review".to_string());
    task.waiting_for = Some("Alice".to_string());
    task.esc = Some(40);
    task.delegated = Some(Date::from_ymd(2026, 3, 10).unwrap());
    task.follow_up = Some(Date::from_ymd(2026, 3, 18).unwrap());
    task.recurrence = None;
    task.extra_tags = vec!["urgent".to_string()];
    task.logbook_entries = vec![dt(2026, 3, 1, 9, 0)];
    task.clock_entries = vec![(dt(2026, 3, 14, 10, 0), dt(2026, 3, 14, 11, 30))];
    task.dayplan_date = Some(Date::from_ymd(2026, 3, 15).unwrap());
    task.dayplan_budget = Some(80);
    task.completed = Some(dt(2026, 3, 20, 17, 0));
    assert_eq!(task_content_hash(&task), 14390201416720652008);
}
