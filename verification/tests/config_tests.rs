use lamp::config::{CalendarAssignment, CalendarPurpose, LampConfig};

#[test]
fn default_org_dir_not_tmp() {
    let config = LampConfig::default();
    let dir = config.org_directory.clone();
    assert!(!dir.starts_with("/tmp"), "org_directory should not fall back to /tmp, got: {}", dir);
}

#[test]
fn sync_token_get_set() {
    let mut config = LampConfig::default();
    assert!(config.get_sync_token("/cal/1").is_none());

    config.set_sync_token("/cal/1", "token-a");
    assert_eq!(config.get_sync_token("/cal/1"), Some("token-a"));

    config.set_sync_token("/cal/1", "token-b");
    assert_eq!(config.get_sync_token("/cal/1"), Some("token-b"));

    assert_eq!(config.sync_token_count(), 1);

    config.set_sync_token("/cal/2", "token-c");
    assert_eq!(config.sync_token_count(), 2);
}

#[test]
fn task_and_event_calendar_hrefs() {
    let mut config = LampConfig::default();
    config.calendar_assignments = vec![
        CalendarAssignment { calendar_href: "/a".into(), purpose: CalendarPurpose::Tasks },
        CalendarAssignment { calendar_href: "/b".into(), purpose: CalendarPurpose::Events },
        CalendarAssignment { calendar_href: "/c".into(), purpose: CalendarPurpose::Disabled },
        CalendarAssignment { calendar_href: "/d".into(), purpose: CalendarPurpose::Tasks },
    ];
    assert_eq!(config.task_calendar_hrefs(), vec!["/a", "/d"]);
    assert_eq!(config.event_calendar_hrefs(), vec!["/b"]);
}

#[test]
fn sync_ready_requires_url_and_assignment() {
    let mut config = LampConfig::default();
    assert!(!config.sync_ready());

    config.calendars.url = "https://cal.example.com".into();
    assert!(!config.sync_ready());

    config.calendar_assignments = vec![CalendarAssignment {
        calendar_href: "/a".into(),
        purpose: CalendarPurpose::Disabled,
    }];
    assert!(!config.sync_ready());

    config.calendar_assignments.push(CalendarAssignment {
        calendar_href: "/b".into(),
        purpose: CalendarPurpose::Tasks,
    });
    assert!(config.sync_ready());
}

#[test]
fn path_helpers_join_correctly() {
    let mut config = LampConfig::default();
    config.org_directory = "/data/lamp".to_string();
    assert_eq!(config.inbox_path(), "/data/lamp/inbox.org");
    assert_eq!(config.next_path(), "/data/lamp/next.org");
    assert_eq!(config.projects_path(), "/data/lamp/projects.org");
    assert_eq!(config.notes_dir(), "/data/lamp/notes");
}

#[test]
fn path_join_keeps_a_trailing_separator() {
    let mut config = LampConfig::default();
    config.org_directory = "/data/lamp/".to_string();
    assert_eq!(config.archive_path(), "/data/lamp/archive.org");
    config.org_directory = String::new();
    assert_eq!(config.dayplan_path(), "dayplan.org");
}

#[test]
fn starter_files_have_headers() {
    let files = LampConfig::starter_files();
    assert_eq!(files.len(), 9);
    assert_eq!(files[0].0, "inbox.org");
    assert_eq!(files[0].1, "#+TITLE: Inbox\n#+TODO: TODO NEXT WAITING SOMEDAY | DONE CANCELLED\n\n");
    assert_eq!(files[8].1, "#+TITLE: Shopping\n\n");
}
