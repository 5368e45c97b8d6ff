use lamp::sync::imap::{email_from_parts, resolve_folder};

#[test]
fn folder_names_ignore_case() {
    let names = vec!["INBOX".to_string(), "Archive".to_string()];
    assert_eq!(resolve_folder(&names, "inbox"), Ok("INBOX".to_string()));
    assert_eq!(resolve_folder(&names, "archive"), Ok("Archive".to_string()));
    assert_eq!(
        resolve_folder(&names, "Tasks"),
        Err("Folder 'Tasks' not found (available: INBOX, Archive)".to_string())
    );
}

#[test]
fn email_fields() {
    let body = "x".repeat(250);
    let e = email_from_parts(Some(7), None, Some((None, Some("a@b.c"))), Some((2026, 2, 24, 9, 15, 0)), Some(&body));
    assert_eq!(e.uid, 7);
    assert_eq!(e.subject, "(no subject)");
    assert_eq!(e.from, "a@b.c");
    assert_eq!(e.date.unwrap().to_iso_seconds_string(), "2026-02-24T09:15:00");
    assert_eq!(e.body_preview.chars().count(), 200);
    assert_eq!(e.body_full, body);
    let e = email_from_parts(None, Some("Hi"), Some((Some("Ann"), Some("a@b.c"))), Some((2026, 2, 30, 9, 0, 0)), None);
    assert_eq!(e.uid, 0);
    assert_eq!(e.from, "Ann");
    assert!(e.date.is_none());
    assert_eq!(e.body_preview, "");
    assert_eq!(email_from_parts(None, None, None, None, None).from, "unknown");
}
