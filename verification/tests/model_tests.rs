use lamp::dates::{Date, DateTime};
use lamp::ids::Uuid;
use lamp::model::day_plan::DayPlan;
use lamp::model::habit::Habit;
use lamp::model::link::LinkTarget;
use lamp::model::planning::{build_suggestions, format_duration, is_inbox_task, is_unprocessed};
use lamp::model::task::{Priority, Task, TaskState};
use lamp::model::temporal::{DateRange, TemporalView};

fn date(y: i32, m: u32, d: u32) -> Date {
    Date::from_ymd(y, m, d).unwrap()
}

fn today() -> Date {
    date(2026, 3, 2)
}

fn noon(y: i32, m: u32, d: u32) -> DateTime {
    DateTime::new(date(y, m, d), 12, 0, 0).unwrap()
}

fn make_habit() -> Habit {
    Habit::new(Task::new("Exercise"))
}

// ---------------------------------------------------------------- day plans

#[test]
fn new_plan_defaults() {
    let plan = DayPlan::new(today());
    assert_eq!(plan.spoon_budget, 50);
    assert_eq!(plan.spent_spoons, 0);
    assert!(plan.confirmed_task_ids.is_empty());
    assert!(plan.completed_tasks.is_empty());
}

#[test]
fn complete_task_adds_spoons() {
    let mut plan = DayPlan::new(today());
    let id = Uuid::new_v4();
    plan.confirmed_task_ids.push(id);
    plan.complete_task(id, "Test".into(), Some(15));
    assert_eq!(plan.spent_spoons, 15);
    assert_eq!(plan.completed_tasks.len(), 1);
    assert!(!plan.confirmed_task_ids.contains(&id));
}

#[test]
fn complete_task_no_esc() {
    let mut plan = DayPlan::new(today());
    let id = Uuid::new_v4();
    plan.complete_task(id, "Test".into(), None);
    assert_eq!(plan.spent_spoons, 0);
    assert_eq!(plan.completed_tasks.len(), 1);
}

#[test]
fn uncomplete_task_restores_spoons() {
    let mut plan = DayPlan::new(today());
    let id = Uuid::new_v4();
    plan.complete_task(id, "Test".into(), Some(20));
    assert_eq!(plan.spent_spoons, 20);
    plan.uncomplete_task(id);
    assert_eq!(plan.spent_spoons, 0);
    assert!(plan.confirmed_task_ids.contains(&id));
    assert!(plan.completed_tasks.is_empty());
}

#[test]
fn uncomplete_nonexistent_task_noop() {
    let mut plan = DayPlan::new(today());
    plan.complete_task(Uuid::new_v4(), "Test".into(), Some(10));
    let before = plan.spent_spoons;
    plan.uncomplete_task(Uuid::new_v4());
    assert_eq!(plan.spent_spoons, before);
}

#[test]
fn is_stale() {
    let plan = DayPlan::new(today());
    assert!(!plan.is_stale(today()));
    let tomorrow = today().add_days(1).unwrap();
    assert!(plan.is_stale(tomorrow));
}

#[test]
fn remaining_budget_saturates() {
    let mut plan = DayPlan::new(today());
    plan.spoon_budget = 10;
    plan.spent_spoons = 15;
    assert_eq!(plan.remaining_budget(), 0);
}

#[test]
fn complete_then_uncomplete_is_the_plan_again() {
    let mut plan = DayPlan::new(today());
    let id = Uuid::new_v4();
    plan.confirmed_task_ids.push(id);
    plan.complete_task(id, "Write".into(), Some(7));
    plan.uncomplete_task(id);
    assert_eq!(plan.spent_spoons, 0);
    assert_eq!(plan.confirmed_task_ids, vec![id]);
    assert!(plan.completed_tasks.is_empty());
    assert_eq!(plan.remaining_budget(), 50);
}

// ---------------------------------------------------------------- habits

#[test]
fn empty_streak() {
    let mut h = make_habit();
    h.recalculate_streak(date(2026, 3, 2));
    assert_eq!(h.streak, 0);
    assert_eq!(h.best_streak, 0);
}

#[test]
fn streak_consecutive_ending_today() {
    let mut h = make_habit();
    h.completions = vec![noon(2026, 2, 28), noon(2026, 3, 1), noon(2026, 3, 2)];
    h.recalculate_streak(date(2026, 3, 2));
    assert_eq!(h.streak, 3);
}

#[test]
fn streak_consecutive_ending_yesterday() {
    let mut h = make_habit();
    h.completions = vec![noon(2026, 2, 28), noon(2026, 3, 1)];
    h.recalculate_streak(date(2026, 3, 2));
    assert_eq!(h.streak, 2);
}

#[test]
fn streak_broken() {
    let mut h = make_habit();
    h.completions = vec![noon(2026, 2, 24), noon(2026, 2, 25), noon(2026, 2, 26), noon(2026, 3, 1)];
    h.recalculate_streak(date(2026, 3, 2));
    assert_eq!(h.streak, 1);
    assert_eq!(h.best_streak, 3);
}

#[test]
fn is_due_today_incomplete() {
    let h = make_habit();
    assert!(h.is_due(date(2026, 3, 2)));
}

#[test]
fn is_due_today_complete() {
    let mut h = make_habit();
    h.completions = vec![noon(2026, 3, 2)];
    assert!(!h.is_due(date(2026, 3, 2)));
}

#[test]
fn best_streak_spans_a_month_end() {
    let mut h = make_habit();
    h.completions = vec![noon(2026, 1, 30), noon(2026, 1, 31), noon(2026, 2, 1), noon(2026, 2, 10)];
    h.recalculate_streak(date(2026, 2, 20));
    assert_eq!(h.streak, 0);
    assert_eq!(h.best_streak, 3);
}

// ---------------------------------------------------------------- links

#[test]
fn roundtrip() {
    let id = Uuid::new_v4();
    let targets = vec![
        LinkTarget::Note(id),
        LinkTarget::Task(id),
        LinkTarget::Project(id),
        LinkTarget::Contact(id),
        LinkTarget::Account(id),
        LinkTarget::MediaItem(id),
        LinkTarget::ShoppingItem(id),
    ];
    for target in targets {
        let org = target.to_org();
        let parsed = LinkTarget::from_org(&org).unwrap();
        assert_eq!(target, parsed);
    }
}

#[test]
fn link_text_and_bad_links() {
    let id = Uuid::parse_str("6ba7b810-9dad-11d1-80b4-00c04fd430c8").unwrap();
    assert_eq!(LinkTarget::Task(id).to_org(), "task:6ba7b810-9dad-11d1-80b4-00c04fd430c8");
    assert!(LinkTarget::from_org("task:not-a-uuid").is_none());
    assert!(LinkTarget::from_org("widget:6ba7b810-9dad-11d1-80b4-00c04fd430c8").is_none());
}

// ---------------------------------------------------------------- temporal views

fn task_on(title: &str, scheduled: Option<Date>, deadline: Option<Date>) -> Task {
    let mut t = Task::new(title);
    t.scheduled = scheduled;
    t.deadline = deadline;
    t
}

#[test]
fn today_view_buckets() {
    let t = today();
    let tasks = vec![
        task_on("late", Some(date(2026, 3, 1)), None),
        task_on("now", Some(t), None),
        task_on("soon", None, Some(date(2026, 3, 9))),
        task_on("far", None, Some(date(2026, 3, 10))),
        task_on("missed", None, Some(date(2026, 2, 20))),
    ];
    let mut done = task_on("done", Some(t), None);
    done.state = TaskState::Done;
    let mut all = tasks.clone();
    all.push(done);
    let habits = vec![make_habit()];
    let v = TemporalView::build(&all, &habits, t, DateRange::Today);
    let titles = |ts: &Vec<Task>| ts.iter().map(|x| x.title.clone()).collect::<Vec<_>>();
    assert_eq!(titles(&v.overdue), vec!["late", "missed"]);
    assert_eq!(titles(&v.scheduled), vec!["now"]);
    assert_eq!(titles(&v.deadlined), vec!["soon"]);
    assert_eq!(v.habits_due.len(), 1);
    assert_eq!(v.total_count(), 5);
}

#[test]
fn upcoming_view_sorts_by_first_date() {
    let tasks = vec![
        task_on("b", Some(date(2026, 5, 1)), None),
        task_on("a", None, Some(date(2026, 4, 1))),
        task_on("undated", None, None),
        task_on("c", Some(date(2026, 6, 1)), Some(date(2026, 4, 1))),
    ];
    let v = TemporalView::build(&tasks, &[], today(), DateRange::Upcoming);
    let titles: Vec<_> = v.scheduled.iter().map(|x| x.title.clone()).collect();
    assert_eq!(titles, vec!["a", "c", "b"]);
    assert!(v.overdue.is_empty() && v.deadlined.is_empty() && v.habits_due.is_empty());
}

#[test]
fn tomorrow_and_week_views() {
    let t = today();
    let tasks = vec![
        task_on("tomorrow", Some(date(2026, 3, 3)), None),
        task_on("due tomorrow", None, Some(date(2026, 3, 3))),
        task_on("in six days", Some(date(2026, 3, 8)), None),
        task_on("in seven days", Some(date(2026, 3, 9)), None),
    ];
    let v = TemporalView::build(&tasks, &[], t, DateRange::Tomorrow);
    assert_eq!(v.scheduled.len(), 1);
    assert_eq!(v.deadlined.len(), 1);
    let w = TemporalView::build(&tasks, &[], t, DateRange::ThisWeek);
    let titles: Vec<_> = w.scheduled.iter().map(|x| x.title.clone()).collect();
    assert_eq!(titles, vec!["tomorrow", "in six days"]);
    assert_eq!(w.deadlined.len(), 1);
}

// ---------------------------------------------------------------- planning

#[test]
fn suggestions_filter_and_order() {
    let today = lamp::dates::Date::from_ymd(2026, 3, 10).unwrap();
    let mut next_c = Task::new("next C");
    next_c.state = TaskState::Next;
    next_c.priority = Some(Priority::C);
    let mut next_a = Task::new("next A");
    next_a.state = TaskState::Next;
    next_a.priority = Some(Priority::A);
    next_a.esc = Some(30);
    let mut next_a_cheap = Task::new("next A cheap");
    next_a_cheap.state = TaskState::Next;
    next_a_cheap.priority = Some(Priority::A);
    next_a_cheap.esc = Some(10);
    let mut overdue = Task::new("overdue");
    overdue.scheduled = Some(lamp::dates::Date::from_ymd(2026, 3, 1).unwrap());
    let mut too_costly = Task::new("too costly");
    too_costly.state = TaskState::Next;
    too_costly.esc = Some(90);
    let mut wrong_context = Task::new("wrong context");
    wrong_context.state = TaskState::Next;
    wrong_context.contexts = vec!["@office".to_string()];
    let plain_todo = Task::new("plain todo");
    let mut confirmed = Task::new("confirmed");
    confirmed.state = TaskState::Next;
    let mut habit = Task::new("habit");
    habit.extra_tags = vec!["habit".to_string()];
    let all = vec![
        next_c.clone(),
        next_a.clone(),
        next_a_cheap.clone(),
        overdue.clone(),
        too_costly,
        wrong_context,
        plain_todo,
        confirmed.clone(),
        habit.clone(),
    ];
    let r = build_suggestions(&all, &[confirmed.id], &[], &["@home".to_string()], 50, today);
    let titles: Vec<&str> = r.iter().map(|t| t.title.as_str()).collect();
    // A habit is no suggestion by itself: it is neither a next action nor due.
    assert_eq!(titles, vec!["overdue", "next A cheap", "next A", "next C"]);
}

#[test]
fn suggestions_without_active_contexts_keep_context_free_tasks() {
    let today = lamp::dates::Date::from_ymd(2026, 3, 10).unwrap();
    let mut free = Task::new("anywhere");
    free.state = TaskState::Next;
    let mut at_home = Task::new("at home");
    at_home.state = TaskState::Next;
    at_home.contexts = vec!["@home".to_string()];
    let r = build_suggestions(&[free, at_home], &[], &[], &[], 50, today);
    let titles: Vec<&str> = r.iter().map(|t| t.title.as_str()).collect();
    assert_eq!(titles, vec!["anywhere"]);
}

#[test]
fn timer_text() {
    assert_eq!(format_duration(3660), "1h 01m");
    assert_eq!(format_duration(125), "2m 05s");
    assert_eq!(format_duration(0), "0m 00s");
    assert_eq!(format_duration(-65), "-1m -5s");
}

#[test]
fn inbox_membership() {
    let mut t = Task::new("capture");
    assert!(is_inbox_task(&t) && is_unprocessed(&t));
    t.extra_tags = vec!["habit".to_string()];
    assert!(!is_inbox_task(&t) && is_unprocessed(&t));
    t.project = Some("P".to_string());
    assert!(!is_unprocessed(&t));
}

#[test]
fn state_changes_keep_their_dates() {
    let now = DateTime::new(Date::from_ymd(2026, 3, 10).unwrap(), 9, 0, 0).unwrap();
    let today = Date::from_ymd(2026, 3, 10).unwrap();
    let mut t = Task::new("call Bob");
    t.set_state(TaskState::Waiting, now, today);
    assert_eq!(t.delegated, Some(today));
    t.follow_up = Some(Date::from_ymd(2026, 3, 17).unwrap());
    t.set_state(TaskState::Done, now, today);
    assert_eq!(t.completed, Some(now));
    assert_eq!(t.delegated, None);
    assert_eq!(t.follow_up, None);
    t.set_state(TaskState::Next, now, today);
    assert_eq!(t.completed, None);
}

#[test]
fn day_plan_budget_is_carried_once() {
    let today = Date::from_ymd(2026, 3, 10).unwrap();
    let mut plan = DayPlan::new(today);
    plan.spoon_budget = 80;
    let a = Task::new("a");
    let b = Task::new("b");
    let mut c = Task::new("c");
    c.dayplan_date = Some(today);
    plan.confirmed_task_ids = vec![a.id, b.id];
    let r = lamp::sync::dayplan::stamp_day_plan(&[a, b, c], &plan);
    assert_eq!(r[0].dayplan_date, Some(today));
    assert_eq!(r[0].dayplan_budget, Some(80));
    assert_eq!(r[1].dayplan_date, Some(today));
    assert_eq!(r[1].dayplan_budget, None);
    assert_eq!(r[2].dayplan_date, None);
    assert_eq!(r[2].dayplan_budget, None);
}
