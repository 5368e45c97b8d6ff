use lamp::dates::{Date, DateTime};
use lamp::ids::Uuid;
use lamp::model::items::{CalendarEvent, Note};
use lamp::model::task::{Task, TaskState};
use lamp::sync::anthropic::{batch_max_tokens, build_batch_user_message, build_user_message, strip_code_fences};
use lamp::sync::caldav::{RemoteVtodo, SyncChange};
use lamp::sync::engine::{
    apply_remote_changes, detect_conflicts, effective_tasks, find_token, new_sync_result, parse_changes,
    parse_remotes, plan_event_sync, plan_full_sync, plan_push, record_push_err, record_push_ok,
    should_retry_create, PushKind, SyncConflict,
};
use lamp::sync::hash::task_content_hash;
use lamp::sync::vtodo::task_to_vcalendar_at;
use lamp::sync::webdav::{
    delete_file_ok, mkcol_ok, note_filename, note_from_file, plan_note_gets, plan_note_puts, url_path, RemoteFile,
};

const CAL: &str = "/dav/calendars/user/tasks/";

fn now() -> DateTime {
    DateTime::new(Date::from_ymd(2026, 2, 1).unwrap(), 9, 30, 0).unwrap()
}

fn remote_for(t: &Task, href: &str) -> RemoteVtodo {
    RemoteVtodo {
        href: href.to_string(),
        etag: "\"e1\"".to_string(),
        uid: Some(t.id.to_string()),
        ical_body: task_to_vcalendar_at(t, now()),
    }
}

/// A task as a previous sync left it: its href is named by its identifier
/// (the UID a VTODO carries is the file name of its href).
fn synced(title: &str) -> Task {
    let mut t = Task::new(title);
    t.sync_href = Some(href_of(&t));
    t.sync_hash = Some(task_content_hash(&t));
    t
}

fn href_of(t: &Task) -> String {
    format!("{}{}.ics", CAL, t.id.to_string())
}

// ------------------------------------------------------------ remote changes

#[test]
fn changed_object_is_pulled_with_its_href() {
    let remote_task = Task::new("From the server");
    let href = format!("{}{}.ics", CAL, remote_task.id.to_string());
    let changes = vec![SyncChange::Changed(remote_for(&remote_task, &href))];
    let parsed = parse_changes(&changes);
    let applied = apply_remote_changes(&[], &changes, &parsed);
    assert_eq!(applied.pulled.len(), 1);
    assert_eq!(applied.pulled[0].id, remote_task.id);
    assert_eq!(applied.pulled[0].title, "From the server");
    assert_eq!(applied.pulled[0].sync_href, Some(href.clone()));
    assert_eq!(applied.pulled[0].sync_hash, Some(task_content_hash(&applied.pulled[0])));
    assert_eq!(applied.seen_hrefs, vec![href]);
    assert_eq!(applied.merged, 0);
    assert!(applied.deleted_local.is_empty());
}

#[test]
fn deleted_object_removes_unedited_local_task() {
    let local = synced("Gone remotely");
    let changes = vec![SyncChange::Deleted(href_of(&local))];
    let parsed = parse_changes(&changes);
    let applied = apply_remote_changes(&[local.clone()], &changes, &parsed);
    assert!(applied.pulled.is_empty());
    assert!(applied.conflicts.is_empty());
    assert_eq!(applied.deleted_local, vec![local.id]);
    let after = effective_tasks(&[local], &applied.deleted_local, &applied.pulled);
    assert!(after.is_empty());
}

#[test]
fn deleted_object_keeps_edited_local_task_as_conflict() {
    let mut local = synced("Edited here");
    local.notes = "new notes".to_string();
    let changes = vec![SyncChange::Deleted(href_of(&local))];
    let parsed = parse_changes(&changes);
    let applied = apply_remote_changes(&[local.clone()], &changes, &parsed);
    assert!(applied.deleted_local.is_empty());
    assert_eq!(applied.conflicts.len(), 1);
    match &applied.conflicts[0] {
        SyncConflict::LocalOnly { task_id, title, local_state, href } => {
            assert_eq!(*task_id, local.id);
            assert_eq!(title, "Edited here");
            assert_eq!(local_state, "TODO");
            assert_eq!(href, &href_of(&local));
        },
        _ => panic!("expected a local-only conflict"),
    }
}

#[test]
fn remote_change_merges_with_unedited_local_copy() {
    let mut local = synced("Shared");
    local.project = Some("Home".to_string());
    local.extra_tags = vec!["habit".to_string()];
    local.sync_hash = Some(task_content_hash(&local));
    let mut remote_task = local.clone();
    remote_task.title = "Shared, renamed".to_string();
    remote_task.project = None;
    remote_task.extra_tags = vec![];
    let changes = vec![SyncChange::Changed(remote_for(&remote_task, &href_of(&remote_task)))];
    let parsed = parse_changes(&changes);
    let applied = apply_remote_changes(&[local], &changes, &parsed);
    assert_eq!(applied.pulled.len(), 1);
    let p = &applied.pulled[0];
    assert_eq!(p.title, "Shared, renamed");
    assert_eq!(p.project, Some("Home".to_string()));
    assert_eq!(p.extra_tags, vec!["habit".to_string()]);
    assert_eq!(p.sync_etag, Some("\"e1\"".to_string()));
    // The stored hash is the hash of what is stored, project included.
    assert_eq!(p.sync_hash, Some(task_content_hash(p)));
    assert_eq!(applied.merged, 1);
    assert!(applied.conflicts.is_empty());
}

#[test]
fn both_sides_changed_is_a_conflict() {
    let mut local = synced("Original");
    let mut remote_task = local.clone();
    remote_task.title = "Remote title".to_string();
    remote_task.state = TaskState::Next;
    local.notes = "local notes".to_string();
    let changes = vec![SyncChange::Changed(remote_for(&remote_task, &href_of(&remote_task)))];
    let parsed = parse_changes(&changes);
    let applied = apply_remote_changes(&[local.clone()], &changes, &parsed);
    assert!(applied.pulled.is_empty());
    assert_eq!(applied.merged, 0);
    assert_eq!(applied.conflicts.len(), 1);
    match &applied.conflicts[0] {
        SyncConflict::StateMismatch { task_id, title, local_state, remote_state, .. } => {
            assert_eq!(*task_id, local.id);
            assert_eq!(title, "Original");
            assert_eq!(local_state, "TODO");
            assert_eq!(remote_state, "NEXT");
        },
        _ => panic!("expected a state mismatch"),
    }
}

// ------------------------------------------------------------ pushing

#[test]
fn plan_push_orders_kinds() {
    let new_task = Task::new("Brand new");
    let mut done = synced("Finished");
    done.complete();
    let mut old_done = synced("Finished long ago");
    old_done.complete();
    old_done.sync_hash = Some(task_content_hash(&old_done));
    let unchanged = synced("Quiet");
    let mut edited = synced("Edited");
    edited.title = "Edited again".to_string();
    let done_href = href_of(&done);
    let tasks = vec![new_task.clone(), done, old_done, unchanged, edited];
    let plan = plan_push(&tasks, &[], CAL, now());
    assert_eq!(plan.len(), 3);
    assert_eq!(plan[0].kind, PushKind::Create);
    assert_eq!(plan[0].index, 0);
    assert_eq!(plan[0].href, format!("/dav/calendars/user/tasks/{}.ics", new_task.id.to_string()));
    assert_eq!(plan[0].ical, task_to_vcalendar_at(&new_task, now()));
    assert_eq!(plan[1].kind, PushKind::Delete);
    assert_eq!(plan[1].href, done_href);
    assert_eq!(plan[1].ical, "");
    assert_eq!(plan[2].kind, PushKind::Update);
    assert_eq!(plan[2].index, 4);
}

#[test]
fn plan_push_skips_hrefs_seen_remotely() {
    let mut edited = synced("Edited");
    edited.title = "Edited again".to_string();
    let seen = vec![href_of(&edited)];
    let plan = plan_push(&[edited], &seen, CAL, now());
    assert!(plan.is_empty());
}

#[test]
fn retry_only_failed_creates_on_conflict_status() {
    assert!(should_retry_create(PushKind::Create, "PUT failed: 412 Precondition Failed"));
    assert!(should_retry_create(PushKind::Create, "status 403"));
    assert!(!should_retry_create(PushKind::Create, "status 500"));
    assert!(!should_retry_create(PushKind::Update, "status 412"));
}

#[test]
fn recording_pushes() {
    let t = Task::new("Pushed");
    let plan = plan_push(&[t.clone()], &[], CAL, now());
    let mut result = new_sync_result();
    record_push_ok(&mut result, &[t.clone()], &plan[0], Some("\"v2\"".to_string()));
    assert_eq!(result.pushed, 1);
    assert_eq!(result.pulled.len(), 1);
    assert_eq!(result.pulled[0].sync_href, Some(plan[0].href.clone()));
    assert_eq!(result.pulled[0].sync_hash, Some(task_content_hash(&t)));
    assert_eq!(result.pulled[0].sync_etag, Some("\"v2\"".to_string()));
    record_push_err(&mut result, &[t.clone()], &plan[0], "boom", false);
    assert_eq!(result.errors.len(), 1);
    assert_eq!(result.errors[0], "Failed to create Pushed: boom");
}

#[test]
fn deleting_a_done_task_clears_its_sync_data() {
    let mut done = synced("Finished");
    done.complete();
    let plan = plan_push(&[done.clone()], &[], CAL, now());
    assert_eq!(plan.len(), 1);
    assert_eq!(plan[0].kind, PushKind::Delete);
    let mut result = new_sync_result();
    record_push_ok(&mut result, &[done.clone()], &plan[0], None);
    assert_eq!(result.pushed, 0);
    assert_eq!(result.pulled.len(), 1);
    assert_eq!(result.pulled[0].sync_href, None);
    assert_eq!(result.pulled[0].sync_hash, None);
    // The next plan asks for nothing.
    assert!(plan_push(&result.pulled, &[], CAL, now()).is_empty());
}

// ------------------------------------------------------------ after the sync

#[test]
fn effective_tasks_replace_by_id() {
    let a = Task::new("a");
    let b = Task::new("b");
    let mut b2 = b.clone();
    b2.title = "b, pulled".to_string();
    let c = Task::new("c");
    let after = effective_tasks(&[a.clone(), b.clone(), c.clone()], &[a.id], &[b2.clone()]);
    assert_eq!(after.len(), 2);
    assert_eq!(after[0].id, c.id);
    assert_eq!(after[1].id, b.id);
    assert_eq!(after[1].title, "b, pulled");
}

#[test]
fn conflicts_of_a_listing() {
    let mut local_only = synced("Only here");
    local_only.notes = "edited since the last sync".to_string();
    let quiet = synced("Unedited, gone on the server");
    let mut mismatch = synced("Disagree");
    mismatch.state = TaskState::Next;
    let mut remote_mismatch = mismatch.clone();
    remote_mismatch.state = TaskState::Waiting;
    let remote_only = Task::new("Only there");
    let listing = vec![
        remote_for(&remote_mismatch, &href_of(&remote_mismatch)),
        remote_for(&remote_only, &href_of(&remote_only)),
    ];
    let parsed = parse_remotes(&listing);
    let cs = detect_conflicts(&[local_only.clone(), quiet, mismatch.clone()], CAL, &listing, &parsed);
    assert_eq!(cs.len(), 3);
    match &cs[0] {
        SyncConflict::StateMismatch { task_id, local_state, remote_state, .. } => {
            assert_eq!(*task_id, mismatch.id);
            assert_eq!(local_state, "NEXT");
            assert_eq!(remote_state, "WAITING");
        },
        _ => panic!("expected a state mismatch"),
    }
    match &cs[1] {
        SyncConflict::RemoteOnly { task, href } => {
            assert_eq!(task.id, remote_only.id);
            assert_eq!(*href, href_of(&remote_only));
        },
        _ => panic!("expected a remote-only object"),
    }
    match &cs[2] {
        SyncConflict::LocalOnly { task_id, title, .. } => {
            assert_eq!(*task_id, local_only.id);
            assert_eq!(title, "Only here");
        },
        _ => panic!("expected a local-only task"),
    }
}

#[test]
fn full_sync_overwrites_missing_open_tasks() {
    let missing = synced("Lost on server");
    let listed = Task::new("Listed");
    let listing = vec![remote_for(&listed, &href_of(&listed))];
    let parsed = parse_remotes(&listing);
    let (pulled, pushes) = plan_full_sync(&[missing.clone()], &listing, &parsed, CAL, now());
    assert_eq!(pulled.len(), 1);
    assert_eq!(pulled[0].id, listed.id);
    assert_eq!(pushes.len(), 1);
    assert_eq!(pushes[0].kind, PushKind::Overwrite);
    assert_eq!(pushes[0].href, href_of(&missing));
}

#[test]
fn token_lookup() {
    let tokens = vec![
        ("/cal/a/".to_string(), "t-a".to_string()),
        ("/cal/b/".to_string(), "t-b".to_string()),
    ];
    assert_eq!(find_token(&tokens, "/cal/b/"), Some("t-b".to_string()));
    assert_eq!(find_token(&tokens, "/cal/c/"), None);
}

#[test]
fn new_local_event_is_pushed() {
    let start = now();
    let end = DateTime::new(Date::from_ymd(2026, 2, 1).unwrap(), 10, 30, 0).unwrap();
    let mut ev = CalendarEvent::new("Standup".to_string(), start, end);
    ev.calendar_href = CAL.to_string();
    let (pulled, pushes) = plan_event_sync(&[ev.clone()], CAL, &[], &[], now());
    assert!(pulled.is_empty());
    assert_eq!(pushes.len(), 1);
    assert_eq!(pushes[0].index, 0);
    assert_eq!(pushes[0].href, format!("/dav/calendars/user/tasks/{}.ics", ev.id.to_string()));
}

// ------------------------------------------------------------ notes

#[test]
fn note_file_planning() {
    let mut n = Note::new("Groceries");
    n.body = "milk".to_string();
    let name = format!("{}.org", n.id.to_string());
    assert_eq!(note_filename(&n), name);
    let remote = vec![
        RemoteFile { href: "/notes/other.org".to_string(), filename: "other.org".to_string(), etag: Some("\"1\"".to_string()) },
        RemoteFile { href: format!("/notes/{}", name), filename: name.clone(), etag: Some("\"7\"".to_string()) },
    ];
    // Never synced: both listed files are fetched; the server's copy wins,
    // so the note is not put over it.
    assert_eq!(plan_note_gets(&[n.clone()], &remote), vec![0, 1]);
    assert!(plan_note_puts(&[n.clone()], &remote).is_empty());
    // A note whose file is not listed is put.
    let fresh = Note::new("Only here");
    assert_eq!(plan_note_puts(&[n.clone(), fresh], &remote), vec![1]);
    // Synced at the listed etag: nothing to fetch for it, nothing to put.
    n.sync_etag = Some("\"7\"".to_string());
    assert_eq!(plan_note_gets(&[n.clone()], &remote), vec![0]);
    assert!(plan_note_puts(&[n.clone()], &remote).is_empty());
    assert_eq!(url_path("https://example.com/remote.php/dav/"), "/remote.php/dav/");
    assert!(mkcol_ok(201));
    assert!(mkcol_ok(405));
    assert!(!mkcol_ok(500));
    assert!(delete_file_ok(404));
    assert!(!delete_file_ok(403));
    let pulled = note_from_file("* Other\nbody text\n", None, &Some("\"2\"".to_string()));
    let pulled = pulled.unwrap();
    assert_eq!(pulled.title, "Other");
    assert_eq!(pulled.sync_etag, Some("\"2\"".to_string()));
    assert!(note_from_file("", None, &None).is_none());
}

// ------------------------------------------------------------ prompts

#[test]
fn code_fences_are_stripped() {
    assert_eq!(strip_code_fences("```json\n{\"a\": 1}\n```"), "{\"a\": 1}");
    assert_eq!(strip_code_fences("```\n[1]\n```"), "[1]");
    assert_eq!(strip_code_fences("  {\"b\": 2}  "), "{\"b\": 2}");
}

#[test]
fn user_message_layout() {
    let m = build_user_message("Invoice", "a@b.c", None, "Please pay", Some("urgent"));
    assert_eq!(m, "Subject: Invoice\nFrom: a@b.c\nDate: unknown\n\nPlease pay\n\nUser context: urgent");
    let batch = build_batch_user_message(&vec![(
        7,
        "Hi".to_string(),
        "x@y.z".to_string(),
        None,
        "body".to_string(),
    )]);
    assert!(batch.contains("Hi"));
    assert!(batch_max_tokens(1) > 0);
    assert!(batch_max_tokens(10) >= batch_max_tokens(1));
}
