//! Notes over WebDAV: reading the collection listing, and the decisions
//! of an etag-based sync (which files to fetch, which notes to put).

use vstd::prelude::*;

use crate::ids::uuid_text;
use crate::model::items::Note;
use crate::model::task::{opt_str, strs};
use crate::org::convert::{note_fields_from, parse_notes};
use crate::org::parser::parse_org;
use crate::sync::multistatus::{
    child_named, is_desc, node_views, roxml_parse, strip_quotes_end, strip_quotes_start, xml_error,
    XmlNodeView,
};
use crate::sync::caldav::trim_end_slashes;
use crate::text::{chars_of, find_from, has_prefix_at, push_str, slice_chars, string_of};

verus! {

/// A file of the remote collection.
#[derive(Debug, Clone)]
pub struct RemoteFile {
    pub href: String,
    pub filename: String,
    pub etag: Option<String>,
}

pub struct RemoteFileView {
    pub href: Seq<char>,
    pub filename: Seq<char>,
    pub etag: Option<Seq<char>>,
}

impl View for RemoteFile {
    type V = RemoteFileView;

    open spec fn view(&self) -> RemoteFileView {
        RemoteFileView { href: self.href@, filename: self.filename@, etag: opt_str(self.etag) }
    }
}

pub open spec fn file_views(v: Seq<RemoteFile>) -> Seq<RemoteFileView> {
    v.map_values(|f: RemoteFile| f@)
}

/// What a notes sync did.
#[derive(Debug, Clone)]
pub struct NoteSyncResult {
    pub pulled: Vec<Note>,
    pub pushed: usize,
    pub deleted_remote: usize,
    pub errors: Vec<String>,
}

/// The path of a URL: from the first `/` after `https://` or `http://`;
/// the whole text otherwise.
pub open spec fn path_of(url: Seq<char>) -> Seq<char> {
    if has_prefix_at(url, 0, "https://"@) && find_from(url, '/', 8) is Some {
        url.skip(find_from(url, '/', 8)->0)
    } else if has_prefix_at(url, 0, "http://"@) && find_from(url, '/', 7) is Some {
        url.skip(find_from(url, '/', 7)->0)
    } else {
        url
    }
}

/// The path component of a URL.
pub fn url_path(url: &str) -> (r: String)
    ensures
        r@ == path_of(url@),
{
    let v = chars_of(url);
    proof {
        reveal_strlit("https://");
        reveal_strlit("http://");
    }
    if crate::text::starts_with_str_at(&v, 0, "https://") {
        proof {
            crate::text::lemma_find_from(v@, '/', 8);
        }
        match crate::text::find_char_from(&v, '/', 8) {
            Some(i) => {
                let r = slice_chars(&v, i, v.len());
                assert(r@ =~= v@.skip(i as int));
                return string_of(r.as_slice());
            },
            None => {},
        }
    }
    if crate::text::starts_with_str_at(&v, 0, "http://") {
        proof {
            crate::text::lemma_find_from(v@, '/', 7);
        }
        match crate::text::find_char_from(&v, '/', 7) {
            Some(i) => {
                let r = slice_chars(&v, i, v.len());
                assert(r@ =~= v@.skip(i as int));
                return string_of(r.as_slice());
            },
            None => {},
        }
    }
    string_of(v.as_slice())
}

// ---------------------------------------------------------------------------
// The listing
// ---------------------------------------------------------------------------

/// The first node at or below `r` named `name`, from index `j`.
pub open spec fn first_desc(ns: Seq<XmlNodeView>, r: int, name: Seq<char>, j: int) -> Option<int>
    decreases ns.len() - j,
{
    if j < 0 || j >= ns.len() {
        None
    } else if is_desc(ns, r, j) && ns[j].name == name {
        Some(j)
    } else {
        first_desc(ns, r, name, j + 1)
    }
}

/// The last non-empty `/`-separated segment of a path (`rsplit('/')`
/// skipping empty pieces), empty when there is none.
pub open spec fn last_name(h: Seq<char>) -> Seq<char> {
    crate::sync::vtodo::last_segment(trim_end_slashes(h))
}

/// The file a `response` at `r` describes: not the collection itself, and
/// only `.org` files.
pub open spec fn file_entry(ns: Seq<XmlNodeView>, r: int, base_path: Seq<char>) -> Option<RemoteFileView> {
    let href = match first_desc(ns, r, "href"@, 0) {
        Some(h) => match ns[h].text {
            Some(t) => t,
            None => seq![],
        },
        None => seq![],
    };
    let filename = last_name(href);
    if ns[r].name != "response"@ || trim_end_slashes(href) == trim_end_slashes(base_path) || !crate::text::has_suffix(filename, ".org"@) {
        None
    } else {
        Some(
            RemoteFileView {
                href,
                filename,
                etag: match first_desc(ns, r, "getetag"@, 0) {
                    Some(e) => match ns[e].text {
                        Some(t) => Some(strip_quotes_end(strip_quotes_start(t))),
                        None => None,
                    },
                    None => None,
                },
            },
        )
    }
}

pub open spec fn file_entries(ns: Seq<XmlNodeView>, base_path: Seq<char>, k: int) -> Seq<RemoteFileView>
    decreases k,
{
    if k <= 0 || k > ns.len() {
        seq![]
    } else {
        let rest = file_entries(ns, base_path, k - 1);
        match file_entry(ns, k - 1, base_path) {
            Some(f) => rest.push(f),
            None => rest,
        }
    }
}

fn first_desc_exec(ns: &Vec<crate::sync::multistatus::XmlNode>, r: usize, name: &str) -> (res: Option<usize>)
    ensures
        match res {
            Some(j) => j < ns@.len() && first_desc(node_views(ns@), r as int, name@, 0) == Some(j as int),
            None => first_desc(node_views(ns@), r as int, name@, 0) is None,
        },
{
    let ghost nv = node_views(ns@);
    let mut j: usize = 0;
    while j < ns.len()
        invariant
            j <= ns@.len(),
            nv == node_views(ns@),
            first_desc(nv, r as int, name@, j as int) == first_desc(nv, r as int, name@, 0),
        decreases ns.len() - j,
    {
        assert(nv[j as int] == ns@[j as int]@);
        if crate::sync::multistatus::is_desc_exec(ns, r, j) && crate::text::str_eq(ns[j].name.as_str(), name) {
            return Some(j);
        }
        j = j + 1;
    }
    None
}

fn desc_text(ns: &Vec<crate::sync::multistatus::XmlNode>, r: usize, name: &str) -> (res: Option<Vec<char>>)
    ensures
        match res {
            Some(t) => first_desc(node_views(ns@), r as int, name@, 0) matches Some(j) && node_views(ns@)[j].text == Some(t@),
            None => first_desc(node_views(ns@), r as int, name@, 0) matches Some(j) ==> node_views(ns@)[j].text is None,
        },
{
    match first_desc_exec(ns, r, name) {
        Some(j) => {
            assert(node_views(ns@)[j as int] == ns@[j as int]@);
            match &ns[j].text {
                Some(t) => Some(chars_of(t.as_str())),
                None => None,
            }
        },
        None => None,
    }
}

fn last_name_exec(h: &Vec<char>) -> (r: Vec<char>)
    ensures
        r@ == last_name(h@),
{
    let t = chars_of(crate::sync::caldav::base_url_of(string_of(h.as_slice()).as_str()).as_str());
    crate::sync::vtodo::last_segment_chars(&t)
}

/// Reads the `.org` files of a PROPFIND answer on the collection at
/// `base_url` (the collection's own entry left out).
pub fn parse_propfind_response(xml: &str, base_url: &str) -> (r: Result<Vec<RemoteFile>, String>)
    ensures
        match roxml_parse(xml@) {
            Ok(ns) => (r matches Ok(v) && file_views(v@) == file_entries(ns, path_of(base_url@), ns.len() as int)),
            Err(e) => (r matches Err(m) && m@ == xml_error(e)),
        },
{
    let ns = match crate::sync::multistatus::parse_xml(xml) {
        Ok(v) => v,
        Err(e) => {
            let mut m = chars_of("Failed to parse XML: ");
            push_str(&mut m, e.as_str());
            return Err(string_of(m.as_slice()));
        },
    };
    let ghost nv = node_views(ns@);
    let base_path = url_path(base_url);
    let base_clean = chars_of(crate::sync::caldav::base_url_of(base_path.as_str()).as_str());
    let mut out: Vec<RemoteFile> = Vec::new();
    let mut k: usize = 0;
    while k < ns.len()
        invariant
            k <= ns@.len(),
            nv == node_views(ns@),
            nv.len() == ns@.len(),
            base_path@ == path_of(base_url@),
            base_clean@ == trim_end_slashes(base_path@),
            file_views(out@) == file_entries(nv, base_path@, k as int),
        decreases ns.len() - k,
    {
        assert(nv[k as int] == ns@[k as int]@);
        if crate::text::str_eq(ns[k].name.as_str(), "response") {
            let href = match desc_text(&ns, k, "href") {
                Some(t) => t,
                None => Vec::new(),
            };
            let href_clean = chars_of(crate::sync::caldav::base_url_of(string_of(href.as_slice()).as_str()).as_str());
            let filename = last_name_exec(&href);
            if !crate::text::chars_eq(&href_clean, &base_clean) && crate::text::ends_with_str(&filename, ".org") {
                let etag = match desc_text(&ns, k, "getetag") {
                    Some(t) => {
                        let q = crate::sync::multistatus::strip_quotes_exec(&t);
                        Some(string_of(q.as_slice()))
                    },
                    None => None,
                };
                let f = RemoteFile { href: string_of(href.as_slice()), filename: string_of(filename.as_slice()), etag };
                let ghost before = out@;
                out.push(f);
                assert(file_views(out@) =~= file_views(before).push(f@));
            }
        }
        k = k + 1;
    }
    Ok(out)
}

// ---------------------------------------------------------------------------
// Sync decisions
// ---------------------------------------------------------------------------

/// The file name of a note: `<id>.org`.
pub open spec fn note_file(n: Note) -> Seq<char> {
    uuid_text(n.id.value) + ".org"@
}

/// The file name of a note.
pub fn note_filename(note: &Note) -> (r: String)
    ensures
        r@ == note_file(*note),
{
    let mut v = chars_of(note.id.to_string().as_str());
    push_str(&mut v, ".org");
    string_of(v.as_slice())
}

/// The last local note with the file name (a later note replaces an
/// earlier one in a map keyed by file name).
pub open spec fn note_for_file(ns: Seq<Note>, f: Seq<char>) -> Option<Note>
    decreases ns.len(),
{
    if ns.len() == 0 {
        None
    } else if note_file(ns.last()) == f {
        Some(ns.last())
    } else {
        note_for_file(ns.drop_last(), f)
    }
}

/// Whether a listed file is fetched: it has no local note, or the local
/// note's etag is not (both present and) the listed one.
pub open spec fn should_get(ns: Seq<Note>, f: RemoteFileView) -> bool {
    match note_for_file(ns, f.filename) {
        Some(n) => !(opt_str(n.sync_etag) matches Some(a) && f.etag == Some(a)),
        None => true,
    }
}

/// The places of the listed files to fetch, in order.
pub open spec fn gets_of(ns: Seq<Note>, fs: Seq<RemoteFileView>, k: int) -> Seq<int>
    decreases k,
{
    if k <= 0 {
        seq![]
    } else {
        let rest = gets_of(ns, fs, k - 1);
        if should_get(ns, fs[k - 1]) {
            rest.push(k - 1)
        } else {
            rest
        }
    }
}

fn note_for_file_exec(notes: &[Note], f: &String) -> (r: Option<usize>)
    ensures
        match r {
            Some(i) => i < notes@.len() && note_for_file(notes@, f@) == Some(notes@[i as int]),
            None => note_for_file(notes@, f@) is None,
        },
{
    let mut i = notes.len();
    assert(notes@.take(i as int) =~= notes@);
    while i > 0
        invariant
            i <= notes@.len(),
            note_for_file(notes@.take(i as int), f@) == note_for_file(notes@, f@),
        decreases i,
    {
        assert(notes@.take(i as int).drop_last() =~= notes@.take(i - 1));
        let name = note_filename(&notes[i - 1]);
        if crate::text::str_eq(name.as_str(), f.as_str()) {
            return Some(i - 1);
        }
        i = i - 1;
    }
    None
}

/// Which listed files to fetch (by place in the listing).
pub fn plan_note_gets(notes: &[Note], remote: &[RemoteFile]) -> (r: Vec<usize>)
    ensures
        r@.map_values(|i: usize| i as int) == gets_of(notes@, file_views(remote@), remote@.len() as int),
{
    let ghost fv = file_views(remote@);
    let mut r: Vec<usize> = Vec::new();
    let mut k: usize = 0;
    while k < remote.len()
        invariant
            k <= remote@.len(),
            fv == file_views(remote@),
            r@.map_values(|i: usize| i as int) == gets_of(notes@, fv, k as int),
        decreases remote.len() - k,
    {
        assert(fv[k as int] == remote@[k as int]@);
        let get = match note_for_file_exec(notes, &remote[k].filename) {
            Some(i) => {
                let same = match (&notes[i].sync_etag, &remote[k].etag) {
                    (Some(a), Some(b)) => crate::text::str_eq(a.as_str(), b.as_str()),
                    _ => false,
                };
                !same
            },
            None => true,
        };
        if get {
            let ghost before = r@;
            r.push(k);
            assert(r@.map_values(|i: usize| i as int) =~= before.map_values(|i: usize| i as int).push(k as int));
        }
        k = k + 1;
    }
    r
}

/// The note a fetched file gives: the last note of its text, with the
/// etag of the answer or else of the listing.
pub fn note_from_file(content: &str, etag: Option<String>, listed_etag: &Option<String>) -> (r: Option<Note>)
    ensures
        match r {
            Some(n) => parse_org(content@).len() > 0 && note_fields_from(n, parse_org(content@).last())
                && opt_str(n.sync_etag) == (if etag is Some { opt_str(etag) } else { opt_str(*listed_etag) }),
            None => parse_org(content@).len() == 0,
        },
{
    let mut notes = parse_notes(content);
    match notes.pop() {
        Some(n0) => {
            let mut n = n0;
            n.sync_etag = if etag.is_some() {
                etag
            } else {
                crate::model::task::copy_opt_string(listed_etag)
            };
            Some(n)
        },
        None => None,
    }
}

/// Whether a local note is put: its file was not listed. A listed file is
/// pulled when the etags differ (the remote side wins), so a note that was
/// never synced does not overwrite a file the server already has.
pub open spec fn should_put(n: Note, listed: Seq<Seq<char>>) -> bool {
    !listed.contains(note_file(n))
}

pub open spec fn puts_of(ns: Seq<Note>, listed: Seq<Seq<char>>, k: int) -> Seq<int>
    decreases k,
{
    if k <= 0 {
        seq![]
    } else {
        let rest = puts_of(ns, listed, k - 1);
        if should_put(ns[k - 1], listed) {
            rest.push(k - 1)
        } else {
            rest
        }
    }
}

/// Which local notes to put, given the listed files (by place in the list).
pub fn plan_note_puts(notes: &[Note], remote: &[RemoteFile]) -> (r: Vec<usize>)
    ensures
        r@.map_values(|i: usize| i as int) == puts_of(
            notes@,
            file_views(remote@).map_values(|f: RemoteFileView| f.filename),
            notes@.len() as int,
        ),
{
    let ghost listed = file_views(remote@).map_values(|f: RemoteFileView| f.filename);
    let mut names: Vec<String> = Vec::new();
    let mut j: usize = 0;
    while j < remote.len()
        invariant
            j <= remote@.len(),
            listed == file_views(remote@).map_values(|f: RemoteFileView| f.filename),
            strs(names@) == listed.take(j as int),
        decreases remote.len() - j,
    {
        let ghost before = names@;
        names.push(remote[j].filename.clone());
        assert(strs(names@) =~= listed.take(j + 1)) by {
            assert(strs(names@) =~= strs(before).push(remote@[j as int].filename@));
        }
        j = j + 1;
    }
    assert(listed.take(remote@.len() as int) =~= listed);
    let mut r: Vec<usize> = Vec::new();
    let mut k: usize = 0;
    while k < notes.len()
        invariant
            k <= notes@.len(),
            strs(names@) == listed,
            r@.map_values(|i: usize| i as int) == puts_of(notes@, listed, k as int),
        decreases notes.len() - k,
    {
        let f = note_filename(&notes[k]);
        let listed_here = crate::org::convert::contains_str(&names, f.as_str());
        if !listed_here {
            let ghost before = r@;
            r.push(k);
            assert(r@.map_values(|i: usize| i as int) =~= before.map_values(|i: usize| i as int).push(k as int));
        }
        k = k + 1;
    }
    r
}

/// Whether MKCOL made or found the collection (201, 200, or 405).
pub fn mkcol_ok(status: u16) -> (r: bool)
    ensures
        r == (status == 201 || status == 200 || status == 405),
{
    status == 201 || status == 200 || status == 405
}

/// Whether a DELETE of a file is done (204, 200, or 404).
pub fn delete_file_ok(status: u16) -> (r: bool)
    ensures
        r == (status == 204 || status == 200 || status == 404),
{
    status == 204 || status == 200 || status == 404
}

} // verus!
