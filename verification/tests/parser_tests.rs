use lamp::dates::Date;
use lamp::model::recurrence::Recurrence;
use lamp::model::task::{Priority, TaskState};
use lamp::org::parser::OrgParser;

#[test]
fn parse_simple_todo() {
    let input = "* TODO Fix the leaky faucet :@home:\n";
    let headings = OrgParser::parse(input);
    assert_eq!(headings.len(), 1);
    assert_eq!(headings[0].title, "Fix the leaky faucet");
    assert_eq!(headings[0].state, Some(TaskState::Todo));
    assert_eq!(headings[0].tags, vec!["@home"]);
}

#[test]
fn parse_with_priority_and_schedule() {
    let input = "\
* TODO [#A] Fix the leaky faucet :@home:
  SCHEDULED: <2026-02-24 Tue>
  :PROPERTIES:
  :ID: 550e8400-e29b-41d4-a716-446655440000
  :CREATED: [2026-02-23 Mon 14:00]
  :END:
";
    let headings = OrgParser::parse(input);
    assert_eq!(headings.len(), 1);
    let h = &headings[0];
    assert_eq!(h.priority, Some(Priority::A));
    assert_eq!(h.scheduled, Some(Date::from_ymd(2026, 2, 24).unwrap()));
    assert_eq!(
        OrgParser::get_property(&h.properties, "ID"),
        Some("550e8400-e29b-41d4-a716-446655440000")
    );
}

#[test]
fn parse_habit_with_logbook() {
    let input = "\
* TODO Meditate :@home:habit:
  SCHEDULED: <2026-02-23 Mon .+1d>
  :PROPERTIES:
  :ID: 550e8400-e29b-41d4-a716-446655440001
  :STYLE: habit
  :END:
  :LOGBOOK:
  - State \"DONE\" from \"TODO\" [2026-02-22 Sun 07:30]
  - State \"DONE\" from \"TODO\" [2026-02-21 Sat 07:15]
  :END:
";
    let headings = OrgParser::parse(input);
    assert_eq!(headings.len(), 1);
    let h = &headings[0];
    assert!(h.tags.contains(&"habit".to_string()));
    assert_eq!(h.logbook_entries.len(), 2);
    assert!(h.recurrence.is_some());
    assert!(matches!(h.recurrence, Some(Recurrence::Relative(_))));
}

#[test]
fn parse_multiple_headings() {
    let input = "\
#+TITLE: Inbox
#+TODO: TODO NEXT WAITING SOMEDAY | DONE CANCELLED

* TODO First task
* NEXT Second task :@work:
* DONE Third task
";
    let headings = OrgParser::parse(input);
    assert_eq!(headings.len(), 3);
    assert_eq!(headings[0].state, Some(TaskState::Todo));
    assert_eq!(headings[1].state, Some(TaskState::Next));
    assert_eq!(headings[2].state, Some(TaskState::Done));
}

#[test]
fn headline_edge_cases() {
    let hs = OrgParser::parse("** TODOS things\n*   \n*no space\n* DONE\n* title :not:a:tag :x:\n");
    assert_eq!(hs.len(), 4);
    assert_eq!(hs[0].level, 2);
    assert_eq!(hs[0].state, None);
    assert_eq!(hs[0].title, "TODOS things");
    assert_eq!(hs[1].title, " ");
    assert_eq!(hs[2].state, None);
    assert_eq!(hs[2].title, "DONE");
    assert_eq!(hs[3].title, "title");
    assert_eq!(hs[3].tags, vec!["not", "a", "tag ", "x"]);
}

#[test]
fn notes_and_deadline() {
    let input = "* WAITING Call back\n  DEADLINE: <2026-03-01 Sun>\nfirst line\n\n  second line  \n* Next\n";
    let hs = OrgParser::parse(input);
    assert_eq!(hs.len(), 2);
    assert_eq!(hs[0].deadline, Some(Date::from_ymd(2026, 3, 1).unwrap()));
    assert_eq!(hs[0].notes, "first line\n\n  second line");
    assert_eq!(hs[1].state, None);
    assert_eq!(hs[1].title, "Next");
}
