//! CalDAV: the values a server exchanges with the client, the hrefs the
//! client builds, and the reading of PROPFIND and REPORT answers.

use vstd::prelude::*;

use crate::ids::{uuid_text, Uuid};
use crate::model::task::opt_str;
use crate::text::{
    chars_of, find_char_from, find_from, find_sub, find_sub_from, has_prefix_at, lemma_find_from,
    lines, push_str, slice_chars, split_lines, starts_with_str_at, string_of, trim, trim_chars,
    views,
};

verus! {

/// A calendar found by PROPFIND.
#[derive(Debug, Clone)]
pub struct CalendarInfo {
    pub href: String,
    pub display_name: String,
    pub supports_vtodo: bool,
    pub supports_vevent: bool,
}

/// A calendar object as the server holds it.
#[derive(Debug, Clone)]
pub struct RemoteVtodo {
    pub href: String,
    pub etag: String,
    pub uid: Option<String>,
    pub ical_body: String,
}

pub struct RemoteVtodoView {
    pub href: Seq<char>,
    pub etag: Seq<char>,
    pub uid: Option<Seq<char>>,
    pub ical_body: Seq<char>,
}

impl View for RemoteVtodo {
    type V = RemoteVtodoView;

    open spec fn view(&self) -> RemoteVtodoView {
        RemoteVtodoView {
            href: self.href@,
            etag: self.etag@,
            uid: opt_str(self.uid),
            ical_body: self.ical_body@,
        }
    }
}

/// A change a sync-collection REPORT reports.
#[derive(Debug, Clone)]
pub enum SyncChange {
    /// A new or updated object.
    Changed(RemoteVtodo),
    /// A deleted object, known by its href.
    Deleted(String),
}

pub enum SyncChangeView {
    Changed(RemoteVtodoView),
    Deleted(Seq<char>),
}

impl View for SyncChange {
    type V = SyncChangeView;

    open spec fn view(&self) -> SyncChangeView {
        match self {
            SyncChange::Changed(r) => SyncChangeView::Changed(r@),
            SyncChange::Deleted(h) => SyncChangeView::Deleted(h@),
        }
    }
}

/// The precondition a PUT carries.
pub enum PutCondition<'a> {
    /// `If-None-Match: *`: create only.
    CreateOnly,
    /// `If-Match: <etag>`: update only that version.
    UpdateEtag(&'a str),
    /// No precondition: overwrite.
    Unconditional,
}

// ---------------------------------------------------------------------------
// Hrefs and URLs
// ---------------------------------------------------------------------------

/// The text with every trailing `/` removed (`trim_end_matches('/')`).
pub open spec fn trim_end_slashes(s: Seq<char>) -> Seq<char>
    decreases s.len(),
{
    if s.len() > 0 && s.last() == '/' {
        trim_end_slashes(s.drop_last())
    } else {
        s
    }
}

fn trim_end_slashes_exec(v: &Vec<char>) -> (r: Vec<char>)
    ensures
        r@ == trim_end_slashes(v@),
{
    let mut n = v.len();
    assert(v@.take(n as int) =~= v@);
    while n > 0 && v[n - 1] == '/'
        invariant
            n <= v.len(),
            trim_end_slashes(v@.take(n as int)) == trim_end_slashes(v@),
        decreases n,
    {
        assert(v@.take(n as int).drop_last() =~= v@.take(n - 1));
        n = n - 1;
    }
    let r = slice_chars(v, 0, n);
    assert(r@ =~= v@.take(n as int));
    r
}

/// `<calendar>/<uuid>.ics`.
pub open spec fn ics_href(cal: Seq<char>, id: u128) -> Seq<char> {
    trim_end_slashes(cal) + seq!['/'] + uuid_text(id) + ".ics"@
}

fn ics_href_exec(calendar_href: &str, id: &Uuid) -> (r: String)
    ensures
        r@ == ics_href(calendar_href@, id.value),
{
    let mut v = trim_end_slashes_exec(&chars_of(calendar_href));
    v.push('/');
    let t = id.to_string();
    push_str(&mut v, t.as_str());
    push_str(&mut v, ".ics");
    string_of(v.as_slice())
}

/// The href of a new VTODO in a calendar.
pub fn vtodo_href(calendar_href: &str, task_uid: &Uuid) -> (r: String)
    ensures
        r@ == ics_href(calendar_href@, task_uid.value),
{
    ics_href_exec(calendar_href, task_uid)
}

/// The href of a new VEVENT in a calendar.
pub fn vevent_href(calendar_href: &str, event_uid: &Uuid) -> (r: String)
    ensures
        r@ == ics_href(calendar_href@, event_uid.value),
{
    ics_href_exec(calendar_href, event_uid)
}

/// Scheme, host and port of a URL: the text up to the first `/` after
/// `://`; the whole text when there is none.
pub open spec fn origin_of(url: Seq<char>) -> Seq<char> {
    match find_sub(url, "://"@, 0) {
        Some(k) => match find_from(url, '/', k + 3) {
            Some(j) => url.take(j),
            None => url,
        },
        None => url,
    }
}

/// The origin of a URL.
pub fn url_origin(url: &str) -> (r: String)
    ensures
        r@ == origin_of(url@),
{
    let v = chars_of(url);
    let sep = chars_of("://");
    proof {
        reveal_strlit("://");
        crate::text::lemma_find_sub(v@, "://"@, 0);
    }
    match find_sub_from(&v, &sep, 0) {
        Some(k) => {
            match find_char_from(&v, '/', k + 3) {
                Some(j) => {
                    proof {
                        lemma_find_from(v@, '/', k + 3);
                    }
                    let r = slice_chars(&v, 0, j);
                    assert(r@ =~= v@.take(j as int));
                    string_of(r.as_slice())
                },
                None => string_of(v.as_slice()),
            }
        },
        None => string_of(v.as_slice()),
    }
}

/// An href as a URL: absolute ones stay, paths go on the base URL's origin.
pub open spec fn resolved_href(base_url: Seq<char>, href: Seq<char>) -> Seq<char> {
    if has_prefix_at(href, 0, "http://"@) || has_prefix_at(href, 0, "https://"@) {
        href
    } else {
        origin_of(base_url) + href
    }
}

/// The URL of an href on the server at `base_url`.
pub fn resolve_href(base_url: &str, href: &str) -> (r: String)
    ensures
        r@ == resolved_href(base_url@, href@),
{
    let h = chars_of(href);
    if starts_with_str_at(&h, 0, "http://") || starts_with_str_at(&h, 0, "https://") {
        string_of(h.as_slice())
    } else {
        let o = url_origin(base_url);
        let mut v = chars_of(o.as_str());
        push_str(&mut v, href);
        string_of(v.as_slice())
    }
}

/// The base URL a client keeps: without trailing `/`.
pub fn base_url_of(url: &str) -> (r: String)
    ensures
        r@ == trim_end_slashes(url@),
{
    string_of(trim_end_slashes_exec(&chars_of(url)).as_slice())
}

/// The text of a `UID:` line: the first line whose trimmed text starts
/// with `UID:`, its rest trimmed.
pub open spec fn uid_in_lines(ls: Seq<Seq<char>>, i: int) -> Option<Seq<char>>
    decreases ls.len() - i,
{
    if i < 0 || i >= ls.len() {
        None
    } else if has_prefix_at(trim(ls[i]), 0, "UID:"@) {
        Some(trim(trim(ls[i]).skip(4)))
    } else {
        uid_in_lines(ls, i + 1)
    }
}

/// The UID of raw iCalendar text, by a scan of its lines.
pub fn extract_uid_from_ical(ical: &str) -> (r: Option<String>)
    ensures
        opt_str(r) == uid_in_lines(lines(ical@), 0),
{
    let v = chars_of(ical);
    let ls = split_lines(&v);
    let ghost lv = lines(ical@);
    let mut i: usize = 0;
    while i < ls.len()
        invariant
            i <= ls.len(),
            ls@.len() == lv.len(),
            lv == lines(ical@),
            forall|k: int| 0 <= k < ls@.len() ==> (#[trigger] ls@[k])@ == lv[k],
            uid_in_lines(lv, i as int) == uid_in_lines(lv, 0),
        decreases ls.len() - i,
    {
        let t = trim_chars(&ls[i]);
        assert(t@ == trim(lv[i as int]));
        proof {
            reveal_strlit("UID:");
        }
        if starts_with_str_at(&t, 0, "UID:") {
            let rest = slice_chars(&t, 4, t.len());
            assert(rest@ =~= t@.skip(4));
            let u = trim_chars(&rest);
            return Some(string_of(u.as_slice()));
        }
        i = i + 1;
    }
    None
}

// ---------------------------------------------------------------------------
// REPORT requests and answers
// ---------------------------------------------------------------------------

pub open spec fn sync_body_head() -> Seq<char> {
    "<?xml version=\"1.0\" encoding=\"UTF-8\"?>\n<d:sync-collection xmlns:d=\"DAV:\" xmlns:c=\"urn:ietf:params:xml:ns:caldav\">\n  "@
}

pub open spec fn sync_body_tail() -> Seq<char> {
    "\n  <d:sync-level>1</d:sync-level>\n  <d:prop>\n    <d:getetag/>\n    <c:calendar-data/>\n  </d:prop>\n</d:sync-collection>"@
}

/// The sync-token element: the token, or an empty element for a first sync.
pub open spec fn token_element(token: Option<Seq<char>>) -> Seq<char> {
    match token {
        Some(t) => "<d:sync-token>"@ + t + "</d:sync-token>"@,
        None => "<d:sync-token/>"@,
    }
}

/// The body of a sync-collection REPORT.
pub fn sync_collection_body(sync_token: Option<&str>) -> (r: String)
    ensures
        r@ == sync_body_head() + token_element(match sync_token {
            Some(t) => Some(t@),
            None => None,
        }) + sync_body_tail(),
{
    let mut v = chars_of("<?xml version=\"1.0\" encoding=\"UTF-8\"?>\n<d:sync-collection xmlns:d=\"DAV:\" xmlns:c=\"urn:ietf:params:xml:ns:caldav\">\n  ");
    match sync_token {
        Some(t) => {
            push_str(&mut v, "<d:sync-token>");
            push_str(&mut v, t);
            push_str(&mut v, "</d:sync-token>");
        },
        None => {
            push_str(&mut v, "<d:sync-token/>");
        },
    }
    push_str(&mut v, "\n  <d:sync-level>1</d:sync-level>\n  <d:prop>\n    <d:getetag/>\n    <c:calendar-data/>\n  </d:prop>\n</d:sync-collection>");
    string_of(v.as_slice())
}

/// A 2xx status.
pub open spec fn is_success(status: u16) -> bool {
    200 <= status <= 299
}

/// What a REPORT answer's status says.
#[derive(Debug, Clone, Copy, PartialEq, Eq, Structural)]
pub enum ReportStatus {
    /// The answer can be read.
    Readable,
    /// The sync token is no longer valid: list everything instead.
    TokenExpired,
    /// The request failed.
    Failed,
}

/// A REPORT answer is readable on 2xx and 207; a sync-collection answer of
/// 403, 409 or 412 that names `valid-sync-token` means the token expired.
pub open spec fn report_status(status: u16, text: Seq<char>, sync: bool) -> ReportStatus {
    if sync && (status == 403 || status == 409 || status == 412) && find_sub(
        text,
        "valid-sync-token"@,
        0,
    ) is Some {
        ReportStatus::TokenExpired
    } else if !is_success(status) && status != 207 {
        ReportStatus::Failed
    } else {
        ReportStatus::Readable
    }
}

/// Classifies a REPORT answer (`sync` for sync-collection).
pub fn classify_report(status: u16, text: &str, sync: bool) -> (r: ReportStatus)
    ensures
        r == report_status(status, text@, sync),
{
    if sync && (status == 403 || status == 409 || status == 412) {
        let tv = chars_of(text);
        let pat = chars_of("valid-sync-token");
        if find_sub_from(&tv, &pat, 0).is_some() {
            return ReportStatus::TokenExpired;
        }
    }
    if !(200 <= status && status <= 299) && status != 207 {
        ReportStatus::Failed
    } else {
        ReportStatus::Readable
    }
}

/// A DELETE succeeds on 2xx and on 404 (already gone).
pub fn delete_ok(status: u16) -> (r: bool)
    ensures
        r == (is_success(status) || status == 404),
{
    (200 <= status && status <= 299) || status == 404
}

} // verus!
