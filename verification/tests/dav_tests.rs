use lamp::dates::Date;
use lamp::ids::Uuid;
use lamp::sync::caldav::{
    classify_report, extract_uid_from_ical, resolve_href, sync_collection_body, url_origin,
    vtodo_href, ReportStatus, SyncChange,
};
use lamp::sync::carddav::{
    merge_contacts, parse_address_data, parse_addressbook_listing, parse_contacts_org,
    parse_vcard, strip_ical_prefix, write_contacts_org, Contact, ContactCategory,
};
use lamp::sync::multistatus::{
    extract_href_from_xml, parse_calendar_listing, parse_multistatus_vtodos, parse_sync_response,
};
use lamp::sync::webdav::{parse_propfind_response, url_path};

// ---------------------------------------------------------------- vCards

#[test]
fn parse_vcard_basic() {
    let vcard = "BEGIN:VCARD\nVERSION:3.0\nFN:John Doe\nEMAIL:john@example.com\nTEL:+1-555-0123\nURL:https://johndoe.com\nEND:VCARD";
    let contact = parse_vcard(vcard).unwrap();
    assert_eq!(contact.name, "John Doe");
    assert_eq!(contact.email, Some("john@example.com".to_string()));
    assert_eq!(contact.phone, Some("+1-555-0123".to_string()));
    assert_eq!(contact.website, Some("https://johndoe.com".to_string()));
    assert_eq!(contact.category, ContactCategory::Personal);
}

#[test]
fn parse_vcard_typed_email() {
    let vcard = "BEGIN:VCARD\nVERSION:3.0\nFN:Jane\nEMAIL;TYPE=WORK:jane@work.com\nEND:VCARD";
    let contact = parse_vcard(vcard).unwrap();
    assert_eq!(contact.email, Some("jane@work.com".to_string()));
}

#[test]
fn parse_vcard_extended_fields() {
    let vcard = "BEGIN:VCARD\nVERSION:3.0\nFN:Alice\nX-SIGNAL:alice.42\nX-PREFERRED-METHOD:Signal\nCATEGORIES:Service\nEND:VCARD";
    let contact = parse_vcard(vcard).unwrap();
    assert_eq!(contact.signal, Some("alice.42".to_string()));
    assert_eq!(contact.preferred_method, Some("Signal".to_string()));
    assert_eq!(contact.category, ContactCategory::Service);
}

#[test]
fn vcard_without_name_and_prefixes() {
    assert!(parse_vcard("BEGIN:VCARD\nEMAIL:x@y\nEND:VCARD").is_none());
    assert!(parse_vcard("BEGIN:VCARD\nFN:\nEND:VCARD").is_none());
    assert_eq!(strip_ical_prefix("EMAIL;TYPE=WORK:a@b", "EMAIL"), Some("a@b".to_string()));
    assert_eq!(strip_ical_prefix("EMAILX:a@b", "EMAIL"), None);
    assert_eq!(strip_ical_prefix("EMAIL;TYPE=WORK", "EMAIL"), None);
}

#[test]
fn contacts_org_roundtrip() {
    let john_id = Uuid::new_v4();
    let jane_id = Uuid::new_v4();
    let contacts = vec![
        Contact {
            id: john_id,
            name: "John Doe".to_string(),
            email: Some("john@example.com".to_string()),
            phone: Some("+1-555-0123".to_string()),
            website: Some("https://johndoe.com".to_string()),
            signal: Some("john.42".to_string()),
            preferred_method: Some("Email".to_string()),
            category: ContactCategory::Personal,
            last_contacted: Some(Date::from_ymd(2025, 2, 20).unwrap()),
            sync_href: Some("/dav/addr/john.vcf".to_string()),
        },
        Contact {
            id: jane_id,
            name: "Jane Smith".to_string(),
            email: None,
            phone: None,
            website: None,
            signal: None,
            preferred_method: None,
            category: ContactCategory::Service,
            last_contacted: None,
            sync_href: None,
        },
    ];
    let org = write_contacts_org(&contacts);
    let parsed = parse_contacts_org(&org);
    assert_eq!(parsed.len(), 2);
    assert_eq!(parsed[0].id, john_id);
    assert_eq!(parsed[0].name, "John Doe");
    assert_eq!(parsed[0].email, Some("john@example.com".to_string()));
    assert_eq!(parsed[0].phone, Some("+1-555-0123".to_string()));
    assert_eq!(parsed[0].website, Some("https://johndoe.com".to_string()));
    assert_eq!(parsed[0].signal, Some("john.42".to_string()));
    assert_eq!(parsed[0].preferred_method, Some("Email".to_string()));
    assert_eq!(parsed[0].category, ContactCategory::Personal);
    assert_eq!(parsed[0].last_contacted, Some(Date::from_ymd(2025, 2, 20).unwrap()));
    assert_eq!(parsed[0].sync_href, Some("/dav/addr/john.vcf".to_string()));
    assert_eq!(parsed[1].id, jane_id);
    assert_eq!(parsed[1].name, "Jane Smith");
    assert_eq!(parsed[1].email, None);
    assert_eq!(parsed[1].category, ContactCategory::Service);
    assert_eq!(parsed[1].last_contacted, None);
    assert_eq!(parsed[1].sync_href, None);
}

#[test]
fn merge_contacts_adds_new_and_updates_existing() {
    let mut local = vec![Contact {
        id: Uuid::new_v4(),
        name: "Alice".to_string(),
        email: Some("alice@local.com".to_string()),
        phone: None,
        website: None,
        signal: None,
        preferred_method: None,
        category: ContactCategory::Personal,
        last_contacted: Some(Date::from_ymd(2025, 1, 1).unwrap()),
        sync_href: None,
    }];
    let remote = vec![Contact::new("Alice".to_string()), Contact::new("Bob".to_string())];
    merge_contacts(&mut local, remote);
    assert_eq!(local.len(), 2);
    let alice = local.iter().find(|c| c.name == "Alice").unwrap();
    assert_eq!(alice.email, Some("alice@local.com".to_string()));
    assert!(alice.last_contacted.is_some());
    assert!(local.iter().any(|c| c.name == "Bob"));
}

#[test]
fn merge_contacts_sorts_by_name() {
    let mut local = vec![Contact::new("zed".to_string()), Contact::new("Émile".to_string())];
    let mut remote_bob = Contact::new("Bob".to_string());
    remote_bob.category = ContactCategory::Service;
    let mut remote_zed = Contact::new("zed".to_string());
    remote_zed.phone = Some("1".to_string());
    merge_contacts(&mut local, vec![remote_bob, remote_zed]);
    let names: Vec<_> = local.iter().map(|c| c.name.clone()).collect();
    assert_eq!(names, vec!["Bob", "zed", "Émile"]);
    assert_eq!(local[1].phone, Some("1".to_string()));
    assert_eq!(local[0].category, ContactCategory::Service);
}

#[test]
fn addressbook_answers() {
    let listing = r#"<d:multistatus xmlns:d="DAV:" xmlns:card="urn:ietf:params:xml:ns:carddav">
<d:response><d:href>/dav/</d:href><d:propstat><d:prop><d:resourcetype><d:collection/></d:resourcetype></d:prop></d:propstat></d:response>
<d:response><d:href> /dav/contacts/ </d:href><d:propstat><d:prop><d:resourcetype><d:collection/><card:addressbook/></d:resourcetype></d:prop></d:propstat></d:response>
</d:multistatus>"#;
    assert_eq!(parse_addressbook_listing(listing).unwrap(), vec!["/dav/contacts/"]);
    let data = r#"<d:multistatus xmlns:d="DAV:" xmlns:card="urn:ietf:params:xml:ns:carddav">
<d:response><d:href>/dav/contacts/a.vcf</d:href><d:propstat><d:prop><card:address-data>BEGIN:VCARD
FN:Ann
END:VCARD</card:address-data></d:prop></d:propstat></d:response>
<d:response><d:href>/dav/contacts/b.vcf</d:href><d:propstat><d:prop><card:address-data>BEGIN:VCARD
EMAIL:nobody@x
END:VCARD</card:address-data></d:prop></d:propstat></d:response>
</d:multistatus>"#;
    let cs = parse_address_data(data).unwrap();
    assert_eq!(cs.len(), 1);
    assert_eq!(cs[0].name, "Ann");
    assert_eq!(cs[0].sync_href, Some("/dav/contacts/a.vcf".to_string()));
    assert_eq!(parse_address_data("<not xml").unwrap_err().starts_with("Failed to parse XML: "), true);
}

// ---------------------------------------------------------------- CalDAV

#[test]
fn hrefs_and_origins() {
    let id = Uuid::parse_str("6ba7b810-9dad-11d1-80b4-00c04fd430c8").unwrap();
    assert_eq!(vtodo_href("/cal/tasks//", &id), "/cal/tasks/6ba7b810-9dad-11d1-80b4-00c04fd430c8.ics");
    assert_eq!(url_origin("https://dav.example.com:8443/a/b"), "https://dav.example.com:8443");
    assert_eq!(url_origin("https://dav.example.com"), "https://dav.example.com");
    assert_eq!(url_origin("no scheme/here"), "no scheme/here");
    assert_eq!(resolve_href("https://h.example/dav/", "/cal/x.ics"), "https://h.example/cal/x.ics");
    assert_eq!(resolve_href("https://h.example/dav/", "http://o.example/y"), "http://o.example/y");
    assert_eq!(url_path("https://h.example/dav/notes/"), "/dav/notes/");
    assert_eq!(url_path("h.example"), "h.example");
}

#[test]
fn uid_of_raw_ical() {
    assert_eq!(extract_uid_from_ical("BEGIN:VTODO\r\n  UID: abc \r\nEND:VTODO"), Some("abc".to_string()));
    assert_eq!(extract_uid_from_ical("BEGIN:VTODO\nEND:VTODO"), None);
}

#[test]
fn report_answers() {
    assert_eq!(classify_report(207, "", false), ReportStatus::Readable);
    assert_eq!(classify_report(403, "<valid-sync-token/>", true), ReportStatus::TokenExpired);
    assert_eq!(classify_report(403, "<valid-sync-token/>", false), ReportStatus::Failed);
    assert_eq!(classify_report(500, "", true), ReportStatus::Failed);
    let body = sync_collection_body(Some("tok1"));
    assert!(body.contains("<d:sync-token>tok1</d:sync-token>"));
    assert!(sync_collection_body(None).contains("<d:sync-token/>"));
}

#[test]
fn multistatus_answers() {
    let xml = r#"<d:multistatus xmlns:d="DAV:" xmlns:c="urn:ietf:params:xml:ns:caldav">
<d:response><d:href>/cal/a.ics</d:href><d:propstat><d:prop><d:getetag>"e1"</d:getetag><c:calendar-data>BEGIN:VTODO
UID:a1
END:VTODO</c:calendar-data></d:prop></d:propstat></d:response>
<d:response><d:href>/cal/b.ics</d:href><d:propstat><d:prop><d:getetag>"e2"</d:getetag></d:prop></d:propstat></d:response>
</d:multistatus>"#;
    let v = parse_multistatus_vtodos(xml).unwrap();
    assert_eq!(v.len(), 1);
    assert_eq!(v[0].href, "/cal/a.ics");
    assert_eq!(v[0].etag, "e1");
    assert_eq!(v[0].uid, Some("a1".to_string()));
    let sync = r#"<d:multistatus xmlns:d="DAV:" xmlns:c="urn:ietf:params:xml:ns:caldav">
<d:response><d:href>/cal/gone.ics</d:href><d:status>HTTP/1.1 404 Not Found</d:status></d:response>
<d:response><d:href>/cal/a.ics</d:href><d:propstat><d:prop><d:getetag>e3</d:getetag><c:calendar-data>X</c:calendar-data></d:prop></d:propstat></d:response>
<d:sync-token> http://example.com/sync/7 </d:sync-token>
</d:multistatus>"#;
    let (changes, token) = parse_sync_response(sync).unwrap();
    assert_eq!(token, Some("http://example.com/sync/7".to_string()));
    assert_eq!(changes.len(), 2);
    assert!(matches!(&changes[0], SyncChange::Deleted(h) if h == "/cal/gone.ics"));
    assert!(matches!(&changes[1], SyncChange::Changed(r) if r.etag == "e3" && r.uid.is_none()));
    assert!(parse_sync_response("<<").is_err());
}

#[test]
fn calendar_listing_and_principal() {
    let xml = r#"<d:multistatus xmlns:d="DAV:" xmlns:c="urn:ietf:params:xml:ns:caldav">
<d:response><d:href>/cal/</d:href><d:propstat><d:prop><d:resourcetype><d:collection/></d:resourcetype></d:prop></d:propstat></d:response>
<d:response><d:href>/cal/work/</d:href><d:propstat><d:prop><d:displayname> Work </d:displayname><d:resourcetype><d:collection/><c:calendar/></d:resourcetype><c:supported-calendar-component-set><c:comp name="vtodo"/><c:comp name="VEVENT"/></c:supported-calendar-component-set></d:prop></d:propstat></d:response>
</d:multistatus>"#;
    let cals = parse_calendar_listing(xml).unwrap();
    assert_eq!(cals.len(), 1);
    assert_eq!(cals[0].href, "/cal/work/");
    assert_eq!(cals[0].display_name, "Work");
    assert!(cals[0].supports_vtodo && cals[0].supports_vevent);
    let principal = r#"<d:multistatus xmlns:d="DAV:"><d:response><d:propstat><d:prop><d:current-user-principal><d:href> /principals/me/ </d:href></d:current-user-principal></d:prop></d:propstat></d:response></d:multistatus>"#;
    assert_eq!(extract_href_from_xml(principal, "current-user-principal"), Some("/principals/me/".to_string()));
    assert_eq!(extract_href_from_xml(principal, "calendar-home-set"), None);
}

#[test]
fn propfind_listing_of_notes() {
    let xml = r#"<d:multistatus xmlns:d="DAV:">
<d:response><d:href>/dav/notes/</d:href></d:response>
<d:response><d:href>/dav/notes/a.org</d:href><d:propstat><d:prop><d:getetag>"x1"</d:getetag></d:prop></d:propstat></d:response>
<d:response><d:href>/dav/notes/b.txt</d:href></d:response>
</d:multistatus>"#;
    let files = parse_propfind_response(xml, "https://h.example/dav/notes").unwrap();
    assert_eq!(files.len(), 1);
    assert_eq!(files[0].filename, "a.org");
    assert_eq!(files[0].etag, Some("x1".to_string()));
}

#[test]
fn contacts_org_roundtrip_signed_years() {
    let mk = |y: i32| Contact {
        id: Uuid::new_v4(),
        name: format!("Person {}", y),
        email: None,
        phone: None,
        website: None,
        signal: None,
        preferred_method: None,
        category: ContactCategory::Personal,
        last_contacted: Some(Date::from_ymd(y, 3, 15).unwrap()),
        sync_href: None,
    };
    let contacts = vec![mk(-44), mk(12345), mk(7)];
    let org = write_contacts_org(&contacts);
    assert!(org.contains("[-0044-03-15]"));
    assert!(org.contains("[+12345-03-15]"));
    assert!(org.contains("[0007-03-15]"));
    let parsed = parse_contacts_org(&org);
    assert_eq!(parsed.len(), 3);
    for (p, c) in parsed.iter().zip(contacts.iter()) {
        assert_eq!(p.last_contacted, c.last_contacted);
    }
}
