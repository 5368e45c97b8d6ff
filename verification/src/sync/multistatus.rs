//! Reading WebDAV multistatus answers: the XML document is taken as the
//! list of its nodes in document order, each with the index of its
//! parent, and the answers are read from that list.

use vstd::prelude::*;

use crate::model::task::opt_str;
use crate::sync::caldav::{
    extract_uid_from_ical, uid_in_lines, CalendarInfo, RemoteVtodo, RemoteVtodoView, SyncChange,
    SyncChangeView,
};
use crate::text::{chars_of, find_sub, find_sub_from, lines, push_str, slice_chars, string_of, trim, trim_chars};

verus! {

/// A node of an XML document: its local tag name (empty for a node that
/// is not an element), the index of its parent, its text (for an element,
/// that of its first child when that child is text) and the value of its
/// `name` attribute.
#[derive(Debug, Clone)]
pub struct XmlNode {
    pub name: String,
    pub parent: Option<usize>,
    pub text: Option<String>,
    pub name_attr: Option<String>,
}

pub struct XmlNodeView {
    pub name: Seq<char>,
    pub parent: Option<usize>,
    pub text: Option<Seq<char>>,
    pub name_attr: Option<Seq<char>>,
}

impl View for XmlNode {
    type V = XmlNodeView;

    open spec fn view(&self) -> XmlNodeView {
        XmlNodeView {
            name: self.name@,
            parent: self.parent,
            text: opt_str(self.text),
            name_attr: opt_str(self.name_attr),
        }
    }
}

pub open spec fn node_views(v: Seq<XmlNode>) -> Seq<XmlNodeView> {
    v.map_values(|n: XmlNode| n@)
}

/// What `roxmltree::Document::parse` makes of a text: the nodes of the
/// document in document order, or the text of its error.
pub uninterp spec fn roxml_parse(xml: Seq<char>) -> Result<Seq<XmlNodeView>, Seq<char>>;

/// Parses XML with `roxmltree::Document::parse` and lists the document's
/// nodes as `Document::descendants` yields them (document order, the root
/// first), each with its parent's place in that list (node ids count in
/// that same order), `tag_name().name()`, `text()` and `attribute("name")`.
/// The contract claims only that the result is that of the parse, named.
#[verifier::external_body]
pub(crate) fn parse_xml(xml: &str) -> (r: Result<Vec<XmlNode>, String>)
    ensures
        match r {
            Ok(v) => roxml_parse(xml@) == Ok::<Seq<XmlNodeView>, Seq<char>>(node_views(v@)),
            Err(e) => roxml_parse(xml@) == Err::<Seq<XmlNodeView>, Seq<char>>(e@),
        },
{
    match roxmltree::Document::parse(xml) {
        Ok(doc) => Ok(doc.descendants().map(|n| XmlNode {
            name: n.tag_name().name().to_string(),
            parent: n.parent().map(|p| p.id().get_usize()),
            text: n.text().map(|t| t.to_string()),
            name_attr: n.attribute("name").map(|a| a.to_string()),
        }).collect()),
        Err(e) => Err(e.to_string()),
    }
}

// ---------------------------------------------------------------------------
// The tree, seen through the parent indices
// ---------------------------------------------------------------------------

/// Node `j` is node `a` or lies below it.
pub open spec fn is_desc(ns: Seq<XmlNodeView>, a: int, j: int) -> bool
    decreases j,
{
    if j < 0 || j >= ns.len() {
        false
    } else if j == a {
        true
    } else {
        match ns[j].parent {
            Some(q) => q < j && is_desc(ns, a, q as int),
            None => false,
        }
    }
}

pub open spec fn is_child(ns: Seq<XmlNodeView>, p: int, c: int) -> bool {
    &&& 0 <= c < ns.len()
    &&& ns[c].parent matches Some(q) && q == p
}

/// The first child of `p` at or after index `j` named `name`.
pub open spec fn child_named(ns: Seq<XmlNodeView>, p: int, name: Seq<char>, j: int) -> Option<int>
    decreases ns.len() - j,
{
    if j < 0 || j >= ns.len() {
        None
    } else if is_child(ns, p, j) && ns[j].name == name {
        Some(j)
    } else {
        child_named(ns, p, name, j + 1)
    }
}

pub open spec fn text_or_empty(t: Option<Seq<char>>) -> Seq<char> {
    match t {
        Some(s) => s,
        None => seq![],
    }
}

/// The text of the first child of `p` named `name`, or empty.
pub open spec fn child_text(ns: Seq<XmlNodeView>, p: int, name: Seq<char>) -> Seq<char> {
    match child_named(ns, p, name, 0) {
        Some(c) => text_or_empty(ns[c].text),
        None => seq![],
    }
}

proof fn lemma_desc_below(ns: Seq<XmlNodeView>, a: int, j: int)
    requires
        j < a,
    ensures
        !is_desc(ns, a, j),
    decreases j,
{
    if 0 <= j < ns.len() {
        if let Some(q) = ns[j].parent {
            if q < j {
                lemma_desc_below(ns, a, q as int);
            }
        }
    }
}

pub(crate) fn is_desc_exec(ns: &Vec<XmlNode>, a: usize, j: usize) -> (r: bool)
    requires
        j < ns.len(),
    ensures
        r == is_desc(node_views(ns@), a as int, j as int),
{
    let ghost nv = node_views(ns@);
    let mut k = j;
    while k > a
        invariant
            k < ns.len(),
            nv == node_views(ns@),
            is_desc(nv, a as int, k as int) == is_desc(nv, a as int, j as int),
        decreases k,
    {
        assert(nv[k as int] == ns@[k as int]@);
        match ns[k].parent {
            Some(q) => {
                if q < k {
                    k = q;
                } else {
                    return false;
                }
            },
            None => {
                return false;
            },
        }
    }
    proof {
        if k < a {
            lemma_desc_below(nv, a as int, k as int);
        }
    }
    k == a
}

pub(crate) fn is_child_exec(ns: &Vec<XmlNode>, p: usize, c: usize) -> (r: bool)
    requires
        c < ns.len(),
    ensures
        r == is_child(node_views(ns@), p as int, c as int),
{
    match ns[c].parent {
        Some(q) => q == p,
        None => false,
    }
}

pub(crate) fn child_named_exec(ns: &Vec<XmlNode>, p: usize, name: &str) -> (r: Option<usize>)
    ensures
        match r {
            Some(c) => child_named(node_views(ns@), p as int, name@, 0) == Some(c as int) && c
                < ns.len(),
            None => child_named(node_views(ns@), p as int, name@, 0) is None,
        },
{
    let ghost nv = node_views(ns@);
    let mut j: usize = 0;
    while j < ns.len()
        invariant
            j <= ns.len(),
            nv == node_views(ns@),
            child_named(nv, p as int, name@, j as int) == child_named(nv, p as int, name@, 0),
        decreases ns.len() - j,
    {
        assert(nv[j as int] == ns@[j as int]@);
        if is_child_exec(ns, p, j) && crate::text::str_eq(ns[j].name.as_str(), name) {
            return Some(j);
        }
        j = j + 1;
    }
    None
}

pub(crate) fn child_text_exec(ns: &Vec<XmlNode>, p: usize, name: &str) -> (r: Vec<char>)
    ensures
        r@ == child_text(node_views(ns@), p as int, name@),
{
    match child_named_exec(ns, p, name) {
        Some(c) => {
            assert(node_views(ns@)[c as int] == ns@[c as int]@);
            match &ns[c].text {
                Some(t) => chars_of(t.as_str()),
                None => Vec::new(),
            }
        },
        None => Vec::new(),
    }
}

pub(crate) fn text_chars(t: &Option<String>) -> (r: Vec<char>)
    ensures
        r@ == text_or_empty(opt_str(*t)),
{
    match t {
        Some(s) => chars_of(s.as_str()),
        None => Vec::new(),
    }
}

// ---------------------------------------------------------------------------
// The href of a property
// ---------------------------------------------------------------------------

/// The first node named `prop` that has an `href` child gives the text of
/// that child, trimmed (`None` when the child has no text).
pub open spec fn href_from(ns: Seq<XmlNodeView>, prop: Seq<char>, i: int) -> Option<Seq<char>>
    decreases ns.len() - i,
{
    if i < 0 || i >= ns.len() {
        None
    } else if ns[i].name == prop && child_named(ns, i, "href"@, 0) is Some {
        match ns[child_named(ns, i, "href"@, 0)->0].text {
            Some(t) => Some(trim(t)),
            None => None,
        }
    } else {
        href_from(ns, prop, i + 1)
    }
}

/// The href inside the property `property_local_name` of an answer.
pub fn extract_href_from_xml(xml: &str, property_local_name: &str) -> (r: Option<String>)
    ensures
        match roxml_parse(xml@) {
            Ok(ns) => opt_str(r) == href_from(ns, property_local_name@, 0),
            Err(_) => r is None,
        },
{
    let ns = match parse_xml(xml) {
        Ok(v) => v,
        Err(_) => {
            return None;
        },
    };
    let ghost nv = node_views(ns@);
    let mut i: usize = 0;
    while i < ns.len()
        invariant
            i <= ns.len(),
            nv == node_views(ns@),
            href_from(nv, property_local_name@, i as int) == href_from(nv, property_local_name@, 0),
            roxml_parse(xml@) == Ok::<Seq<XmlNodeView>, Seq<char>>(nv),
        decreases ns.len() - i,
    {
        assert(nv[i as int] == ns@[i as int]@);
        if crate::text::str_eq(ns[i].name.as_str(), property_local_name) {
            match child_named_exec(&ns, i, "href") {
                Some(c) => {
                    assert(nv[c as int] == ns@[c as int]@);
                    return match &ns[c].text {
                        Some(t) => Some(string_of(trim_chars(&chars_of(t.as_str())).as_slice())),
                        None => None,
                    };
                },
                None => {},
            }
        }
        i = i + 1;
    }
    None
}

// ---------------------------------------------------------------------------
// The properties of a response
// ---------------------------------------------------------------------------

/// The text with every leading and trailing `"` removed.
pub open spec fn strip_quotes_start(s: Seq<char>) -> Seq<char>
    decreases s.len(),
{
    if s.len() > 0 && s[0] == '"' {
        strip_quotes_start(s.drop_first())
    } else {
        s
    }
}

pub open spec fn strip_quotes_end(s: Seq<char>) -> Seq<char>
    decreases s.len(),
{
    if s.len() > 0 && s.last() == '"' {
        strip_quotes_end(s.drop_last())
    } else {
        s
    }
}

/// `trim_matches('"')`.
pub open spec fn strip_quotes(s: Seq<char>) -> Seq<char> {
    strip_quotes_end(strip_quotes_start(s))
}

pub(crate) fn strip_quotes_exec(v: &Vec<char>) -> (r: Vec<char>)
    ensures
        r@ == strip_quotes(v@),
{
    let mut a: usize = 0;
    assert(v@.skip(0) =~= v@);
    while a < v.len() && v[a] == '"'
        invariant
            a <= v.len(),
            strip_quotes_start(v@.skip(a as int)) == strip_quotes_start(v@),
        decreases v.len() - a,
    {
        assert(v@.skip(a as int).drop_first() =~= v@.skip(a + 1));
        a = a + 1;
    }
    let s = slice_chars(v, a, v.len());
    assert(s@ =~= v@.skip(a as int));
    assert(s@ == strip_quotes_start(v@)) by {
        if a < v.len() {
            assert(s@[0] == v@[a as int]);
        }
    }
    let mut b = s.len();
    assert(s@.take(b as int) =~= s@);
    while b > 0 && s[b - 1] == '"'
        invariant
            b <= s.len(),
            strip_quotes_end(s@.take(b as int)) == strip_quotes_end(s@),
        decreases b,
    {
        assert(s@.take(b as int).drop_last() =~= s@.take(b - 1));
        b = b - 1;
    }
    let r = slice_chars(&s, 0, b);
    assert(r@ =~= s@.take(b as int));
    r
}

/// What the `prop` elements of a response say: etag and calendar data.
pub struct PropVals {
    pub etag: Seq<char>,
    pub body: Seq<char>,
}

pub open spec fn prop_child(st: PropVals, n: XmlNodeView) -> PropVals {
    if n.name == "getetag"@ {
        PropVals { etag: strip_quotes(trim(text_or_empty(n.text))), ..st }
    } else if n.name == "calendar-data"@ {
        PropVals { body: text_or_empty(n.text), ..st }
    } else {
        st
    }
}

/// The children of `p` below index `j`, in order.
pub open spec fn scan_children(st: PropVals, ns: Seq<XmlNodeView>, p: int, j: int) -> PropVals
    decreases j,
{
    if j <= 0 || j > ns.len() {
        st
    } else {
        let s2 = scan_children(st, ns, p, j - 1);
        if is_child(ns, p, j - 1) {
            prop_child(s2, ns[j - 1])
        } else {
            s2
        }
    }
}

/// The `prop` elements at or below `r` with index below `k`, in order;
/// a later value overrides an earlier one.
pub open spec fn scan_props(ns: Seq<XmlNodeView>, r: int, k: int) -> PropVals
    decreases k,
{
    if k <= 0 || k > ns.len() {
        PropVals { etag: seq![], body: seq![] }
    } else {
        let st = scan_props(ns, r, k - 1);
        if ns[k - 1].name == "prop"@ && is_desc(ns, r, k - 1) {
            scan_children(st, ns, k - 1, ns.len() as int)
        } else {
            st
        }
    }
}

fn props_exec(ns: &Vec<XmlNode>, r: usize) -> (res: (Vec<char>, Vec<char>))
    ensures
        res.0@ == scan_props(node_views(ns@), r as int, ns@.len() as int).etag,
        res.1@ == scan_props(node_views(ns@), r as int, ns@.len() as int).body,
{
    let ghost nv = node_views(ns@);
    let mut etag: Vec<char> = Vec::new();
    let mut body: Vec<char> = Vec::new();
    let mut k: usize = 0;
    while k < ns.len()
        invariant
            k <= ns.len(),
            nv == node_views(ns@),
            nv.len() == ns@.len(),
            etag@ == scan_props(nv, r as int, k as int).etag,
            body@ == scan_props(nv, r as int, k as int).body,
        decreases ns.len() - k,
    {
        assert(nv[k as int] == ns@[k as int]@);
        if crate::text::str_eq(ns[k].name.as_str(), "prop") && is_desc_exec(ns, r, k) {
            let ghost st0 = scan_props(nv, r as int, k as int);
            let mut j: usize = 0;
            while j < ns.len()
                invariant
                    j <= ns.len(),
                    k < ns.len(),
                    nv == node_views(ns@),
                    nv.len() == ns@.len(),
                    etag@ == scan_children(st0, nv, k as int, j as int).etag,
                    body@ == scan_children(st0, nv, k as int, j as int).body,
                decreases ns.len() - j,
            {
                assert(nv[j as int] == ns@[j as int]@);
                if is_child_exec(ns, k, j) {
                    if crate::text::str_eq(ns[j].name.as_str(), "getetag") {
                        let t = trim_chars(&text_chars(&ns[j].text));
                        etag = strip_quotes_exec(&t);
                    } else if crate::text::str_eq(ns[j].name.as_str(), "calendar-data") {
                        body = text_chars(&ns[j].text);
                    }
                }
                j = j + 1;
            }
        }
        k = k + 1;
    }
    (etag, body)
}

fn remote_of(href: Vec<char>, etag: Vec<char>, body: Vec<char>) -> (r: RemoteVtodo)
    ensures
        r@ == (RemoteVtodoView {
            href: href@,
            etag: etag@,
            uid: uid_in_lines(lines(body@), 0),
            ical_body: body@,
        }),
{
    let b = string_of(body.as_slice());
    let uid = extract_uid_from_ical(b.as_str());
    RemoteVtodo { href: string_of(href.as_slice()), etag: string_of(etag.as_slice()), uid, ical_body: b }
}

// ---------------------------------------------------------------------------
// calendar-query answers
// ---------------------------------------------------------------------------

/// The object a `response` element at `r` describes, if it has an href and
/// calendar data.
pub open spec fn vtodo_entry(ns: Seq<XmlNodeView>, r: int) -> Option<RemoteVtodoView> {
    let href = trim(child_text(ns, r, "href"@));
    let p = scan_props(ns, r, ns.len() as int);
    if ns[r].name == "response"@ && href.len() > 0 && p.body.len() > 0 {
        Some(
            RemoteVtodoView {
                href,
                etag: p.etag,
                uid: uid_in_lines(lines(p.body), 0),
                ical_body: p.body,
            },
        )
    } else {
        None
    }
}

/// The objects of the responses below index `k`, in order.
pub open spec fn vtodo_entries(ns: Seq<XmlNodeView>, k: int) -> Seq<RemoteVtodoView>
    decreases k,
{
    if k <= 0 || k > ns.len() {
        seq![]
    } else {
        let rest = vtodo_entries(ns, k - 1);
        match vtodo_entry(ns, k - 1) {
            Some(e) => rest.push(e),
            None => rest,
        }
    }
}

pub open spec fn remote_views(v: Seq<RemoteVtodo>) -> Seq<RemoteVtodoView> {
    v.map_values(|r: RemoteVtodo| r@)
}

/// The error of an answer that is not XML.
pub open spec fn xml_error(e: Seq<char>) -> Seq<char> {
    "Failed to parse XML: "@ + e
}

fn xml_error_exec(e: &String) -> (r: String)
    ensures
        r@ == xml_error(e@),
{
    let mut v = chars_of("Failed to parse XML: ");
    push_str(&mut v, e.as_str());
    string_of(v.as_slice())
}

/// Reads the objects of a calendar-query REPORT answer.
pub fn parse_multistatus_vtodos(xml: &str) -> (r: Result<Vec<RemoteVtodo>, String>)
    ensures
        match roxml_parse(xml@) {
            Ok(ns) => (r matches Ok(v) && remote_views(v@) == vtodo_entries(ns, ns.len() as int)),
            Err(e) => (r matches Err(m) && m@ == xml_error(e)),
        },
{
    let ns = match parse_xml(xml) {
        Ok(v) => v,
        Err(e) => {
            return Err(xml_error_exec(&e));
        },
    };
    let ghost nv = node_views(ns@);
    let mut out: Vec<RemoteVtodo> = Vec::new();
    let mut k: usize = 0;
    while k < ns.len()
        invariant
            k <= ns.len(),
            nv == node_views(ns@),
            nv.len() == ns@.len(),
            remote_views(out@) == vtodo_entries(nv, k as int),
        decreases ns.len() - k,
    {
        assert(nv[k as int] == ns@[k as int]@);
        if crate::text::str_eq(ns[k].name.as_str(), "response") {
            let href = trim_chars(&child_text_exec(&ns, k, "href"));
            let (etag, body) = props_exec(&ns, k);
            if href.len() > 0 && body.len() > 0 {
                let e = remote_of(href, etag, body);
                let ghost before = out@;
                out.push(e);
                assert(remote_views(out@) =~= remote_views(before).push(e@));
            }
        }
        k = k + 1;
    }
    Ok(out)
}

// ---------------------------------------------------------------------------
// sync-collection answers
// ---------------------------------------------------------------------------

/// The first node named `sync-token`: its text, trimmed, if not empty.
pub open spec fn token_from(ns: Seq<XmlNodeView>, i: int) -> Option<Seq<char>>
    decreases ns.len() - i,
{
    if i < 0 || i >= ns.len() {
        None
    } else if ns[i].name == "sync-token"@ {
        match ns[i].text {
            Some(t) => if trim(t).len() > 0 {
                Some(trim(t))
            } else {
                None
            },
            None => None,
        }
    } else {
        token_from(ns, i + 1)
    }
}

pub open spec fn status_404(ns: Seq<XmlNodeView>, r: int, k: int) -> bool {
    &&& is_desc(ns, r, k)
    &&& ns[k].name == "status"@
    &&& ns[k].text matches Some(t) && find_sub(t, "404"@, 0) is Some
}

/// A `status` element at or below `r` whose text holds `404`.
pub open spec fn has_404(ns: Seq<XmlNodeView>, r: int, k: int) -> bool
    decreases k,
{
    if k <= 0 || k > ns.len() {
        false
    } else {
        has_404(ns, r, k - 1) || status_404(ns, r, k - 1)
    }
}

/// The change a `response` element at `r` reports.
pub open spec fn change_entry(ns: Seq<XmlNodeView>, r: int) -> Option<SyncChangeView> {
    let href = trim(child_text(ns, r, "href"@));
    let p = scan_props(ns, r, ns.len() as int);
    if ns[r].name != "response"@ || href.len() == 0 {
        None
    } else if has_404(ns, r, ns.len() as int) {
        Some(SyncChangeView::Deleted(href))
    } else if p.body.len() > 0 {
        Some(
            SyncChangeView::Changed(
                RemoteVtodoView {
                    href,
                    etag: p.etag,
                    uid: uid_in_lines(lines(p.body), 0),
                    ical_body: p.body,
                },
            ),
        )
    } else {
        None
    }
}

pub open spec fn change_entries(ns: Seq<XmlNodeView>, k: int) -> Seq<SyncChangeView>
    decreases k,
{
    if k <= 0 || k > ns.len() {
        seq![]
    } else {
        let rest = change_entries(ns, k - 1);
        match change_entry(ns, k - 1) {
            Some(e) => rest.push(e),
            None => rest,
        }
    }
}

pub open spec fn change_views(v: Seq<SyncChange>) -> Seq<SyncChangeView> {
    v.map_values(|c: SyncChange| c@)
}

fn token_exec(ns: &Vec<XmlNode>) -> (r: Option<String>)
    ensures
        opt_str(r) == token_from(node_views(ns@), 0),
{
    let ghost nv = node_views(ns@);
    let mut i: usize = 0;
    while i < ns.len()
        invariant
            i <= ns.len(),
            nv == node_views(ns@),
            token_from(nv, i as int) == token_from(nv, 0),
        decreases ns.len() - i,
    {
        assert(nv[i as int] == ns@[i as int]@);
        if crate::text::str_eq(ns[i].name.as_str(), "sync-token") {
            return match &ns[i].text {
                Some(t) => {
                    let tt = trim_chars(&chars_of(t.as_str()));
                    if tt.len() > 0 {
                        Some(string_of(tt.as_slice()))
                    } else {
                        None
                    }
                },
                None => None,
            };
        }
        i = i + 1;
    }
    None
}

fn has_404_exec(ns: &Vec<XmlNode>, r: usize) -> (res: bool)
    ensures
        res == has_404(node_views(ns@), r as int, ns@.len() as int),
{
    let ghost nv = node_views(ns@);
    let pat = chars_of("404");
    let mut found = false;
    let mut k: usize = 0;
    while k < ns.len()
        invariant
            k <= ns.len(),
            nv == node_views(ns@),
            nv.len() == ns@.len(),
            pat@ == "404"@,
            found == has_404(nv, r as int, k as int),
        decreases ns.len() - k,
    {
        assert(nv[k as int] == ns@[k as int]@);
        if !found && is_desc_exec(ns, r, k) && crate::text::str_eq(ns[k].name.as_str(), "status") {
            match &ns[k].text {
                Some(t) => {
                    let tv = chars_of(t.as_str());
                    if find_sub_from(&tv, &pat, 0).is_some() {
                        found = true;
                    }
                },
                None => {},
            }
        }
        k = k + 1;
    }
    found
}

/// Reads the changes and the new sync token of a sync-collection answer.
pub fn parse_sync_response(xml: &str) -> (r: Result<(Vec<SyncChange>, Option<String>), String>)
    ensures
        match roxml_parse(xml@) {
            Ok(ns) => (r matches Ok(p) && change_views(p.0@) == change_entries(ns, ns.len() as int)
                && opt_str(p.1) == token_from(ns, 0)),
            Err(e) => (r matches Err(m) && m@ == xml_error(e)),
        },
{
    let ns = match parse_xml(xml) {
        Ok(v) => v,
        Err(e) => {
            return Err(xml_error_exec(&e));
        },
    };
    let ghost nv = node_views(ns@);
    let token = token_exec(&ns);
    let mut out: Vec<SyncChange> = Vec::new();
    let mut k: usize = 0;
    while k < ns.len()
        invariant
            k <= ns.len(),
            nv == node_views(ns@),
            nv.len() == ns@.len(),
            change_views(out@) == change_entries(nv, k as int),
        decreases ns.len() - k,
    {
        assert(nv[k as int] == ns@[k as int]@);
        if crate::text::str_eq(ns[k].name.as_str(), "response") {
            let href = trim_chars(&child_text_exec(&ns, k, "href"));
            if href.len() > 0 {
                let ghost before = out@;
                if has_404_exec(&ns, k) {
                    let c = SyncChange::Deleted(string_of(href.as_slice()));
                    out.push(c);
                    assert(change_views(out@) =~= change_views(before).push(c@));
                } else {
                    let (etag, body) = props_exec(&ns, k);
                    if body.len() > 0 {
                        let c = SyncChange::Changed(remote_of(href, etag, body));
                        out.push(c);
                        assert(change_views(out@) =~= change_views(before).push(c@));
                    }
                }
            }
        }
        k = k + 1;
    }
    Ok((out, token))
}

// ---------------------------------------------------------------------------
// Calendar listings
// ---------------------------------------------------------------------------

pub struct CalendarInfoView {
    pub href: Seq<char>,
    pub display_name: Seq<char>,
    pub supports_vtodo: bool,
    pub supports_vevent: bool,
}

impl View for CalendarInfo {
    type V = CalendarInfoView;

    open spec fn view(&self) -> CalendarInfoView {
        CalendarInfoView {
            href: self.href@,
            display_name: self.display_name@,
            supports_vtodo: self.supports_vtodo,
            supports_vevent: self.supports_vevent,
        }
    }
}

pub open spec fn ascii_lower(c: char) -> char {
    if 'A' <= c <= 'Z' {
        ((c as u32) + 32) as char
    } else {
        c
    }
}

/// `str::eq_ignore_ascii_case`.
pub open spec fn eq_ignore_ascii_case(a: Seq<char>, b: Seq<char>) -> bool {
    a.len() == b.len() && forall|i: int| 0 <= i < a.len() ==> ascii_lower(#[trigger] a[i])
        == ascii_lower(b[i])
}

fn ascii_lower_exec(c: char) -> (r: char)
    ensures
        r == ascii_lower(c),
{
    if 'A' <= c && c <= 'Z' {
        let n: u32 = (c as u32) + 32;
        proof {
            assert(0x61 <= n <= 0x7a);
        }
        char_of_ascii(n)
    } else {
        c
    }
}

/// The character of an ASCII code.
fn char_of_ascii(n: u32) -> (r: char)
    requires
        n < 128,
    ensures
        r == n as char,
{
    let b: u8 = n as u8;
    b as char
}

fn eq_ignore_ascii_case_exec(a: &Vec<char>, b: &str) -> (r: bool)
    ensures
        r == eq_ignore_ascii_case(a@, b@),
{
    let bv = chars_of(b);
    if a.len() != bv.len() {
        return false;
    }
    let mut i: usize = 0;
    while i < a.len()
        invariant
            i <= a.len(),
            a@.len() == bv@.len(),
            bv@ == b@,
            forall|k: int| 0 <= k < i ==> ascii_lower(#[trigger] a@[k]) == ascii_lower(bv@[k]),
        decreases a.len() - i,
    {
        if ascii_lower_exec(a[i]) != ascii_lower_exec(bv[i]) {
            return false;
        }
        i = i + 1;
    }
    true
}

/// `str::eq_ignore_ascii_case`.
pub fn eq_ignore_ascii_case_str(a: &str, b: &str) -> (r: bool)
    ensures
        r == eq_ignore_ascii_case(a@, b@),
{
    eq_ignore_ascii_case_exec(&chars_of(a), b)
}

/// What the `prop` elements of a response say of a calendar.
pub struct CalScan {
    pub display_name: Seq<char>,
    pub is_calendar: bool,
    pub vtodo: bool,
    pub vevent: bool,
}

/// The `comp` children of `c` below index `j` mark the components named.
pub open spec fn comp_scan(st: CalScan, ns: Seq<XmlNodeView>, c: int, j: int) -> CalScan
    decreases j,
{
    if j <= 0 || j > ns.len() {
        st
    } else {
        let s2 = comp_scan(st, ns, c, j - 1);
        if is_child(ns, c, j - 1) && ns[j - 1].name == "comp"@ {
            match ns[j - 1].name_attr {
                Some(a) => CalScan {
                    vtodo: s2.vtodo || eq_ignore_ascii_case(a, "VTODO"@),
                    vevent: s2.vevent || eq_ignore_ascii_case(a, "VEVENT"@),
                    ..s2
                },
                None => s2,
            }
        } else {
            s2
        }
    }
}

pub open spec fn cal_child(st: CalScan, ns: Seq<XmlNodeView>, c: int) -> CalScan {
    if ns[c].name == "displayname"@ {
        CalScan { display_name: trim(text_or_empty(ns[c].text)), ..st }
    } else if ns[c].name == "resourcetype"@ {
        CalScan { is_calendar: child_named(ns, c, "calendar"@, 0) is Some, ..st }
    } else if ns[c].name == "supported-calendar-component-set"@ {
        comp_scan(st, ns, c, ns.len() as int)
    } else {
        st
    }
}

pub open spec fn cal_children(st: CalScan, ns: Seq<XmlNodeView>, p: int, j: int) -> CalScan
    decreases j,
{
    if j <= 0 || j > ns.len() {
        st
    } else {
        let s2 = cal_children(st, ns, p, j - 1);
        if is_child(ns, p, j - 1) {
            cal_child(s2, ns, j - 1)
        } else {
            s2
        }
    }
}

pub open spec fn cal_props(ns: Seq<XmlNodeView>, r: int, k: int) -> CalScan
    decreases k,
{
    if k <= 0 || k > ns.len() {
        CalScan { display_name: seq![], is_calendar: false, vtodo: false, vevent: false }
    } else {
        let st = cal_props(ns, r, k - 1);
        if ns[k - 1].name == "prop"@ && is_desc(ns, r, k - 1) {
            cal_children(st, ns, k - 1, ns.len() as int)
        } else {
            st
        }
    }
}

/// The calendar a `response` element at `r` describes, if it has an href
/// and its resource type is a calendar.
pub open spec fn calendar_entry(ns: Seq<XmlNodeView>, r: int) -> Option<CalendarInfoView> {
    let href = trim(child_text(ns, r, "href"@));
    let c = cal_props(ns, r, ns.len() as int);
    if ns[r].name == "response"@ && href.len() > 0 && c.is_calendar {
        Some(
            CalendarInfoView {
                href,
                display_name: c.display_name,
                supports_vtodo: c.vtodo,
                supports_vevent: c.vevent,
            },
        )
    } else {
        None
    }
}

pub open spec fn calendar_entries(ns: Seq<XmlNodeView>, k: int) -> Seq<CalendarInfoView>
    decreases k,
{
    if k <= 0 || k > ns.len() {
        seq![]
    } else {
        let rest = calendar_entries(ns, k - 1);
        match calendar_entry(ns, k - 1) {
            Some(e) => rest.push(e),
            None => rest,
        }
    }
}

pub open spec fn calendar_views(v: Seq<CalendarInfo>) -> Seq<CalendarInfoView> {
    v.map_values(|c: CalendarInfo| c@)
}

struct CalAcc {
    display_name: Vec<char>,
    is_calendar: bool,
    vtodo: bool,
    vevent: bool,
}

spec fn acc_view(a: CalAcc) -> CalScan {
    CalScan {
        display_name: a.display_name@,
        is_calendar: a.is_calendar,
        vtodo: a.vtodo,
        vevent: a.vevent,
    }
}

fn comp_scan_exec(acc: &mut CalAcc, ns: &Vec<XmlNode>, c: usize)
    requires
        c < ns.len(),
    ensures
        acc_view(*final(acc)) == comp_scan(acc_view(*old(acc)), node_views(ns@), c as int, ns@.len() as int),
{
    let ghost nv = node_views(ns@);
    let ghost st0 = acc_view(*acc);
    let mut j: usize = 0;
    while j < ns.len()
        invariant
            j <= ns.len(),
            nv == node_views(ns@),
            nv.len() == ns@.len(),
            acc_view(*acc) == comp_scan(st0, nv, c as int, j as int),
        decreases ns.len() - j,
    {
        assert(nv[j as int] == ns@[j as int]@);
        if is_child_exec(ns, c, j) && crate::text::str_eq(ns[j].name.as_str(), "comp") {
            match &ns[j].name_attr {
                Some(a) => {
                    let av = chars_of(a.as_str());
                    if eq_ignore_ascii_case_exec(&av, "VTODO") {
                        acc.vtodo = true;
                    }
                    if eq_ignore_ascii_case_exec(&av, "VEVENT") {
                        acc.vevent = true;
                    }
                },
                None => {},
            }
        }
        j = j + 1;
    }
}

fn cal_props_exec(ns: &Vec<XmlNode>, r: usize) -> (res: CalAcc)
    ensures
        acc_view(res) == cal_props(node_views(ns@), r as int, ns@.len() as int),
{
    let ghost nv = node_views(ns@);
    let mut acc = CalAcc { display_name: Vec::new(), is_calendar: false, vtodo: false, vevent: false };
    assert(acc_view(acc) == cal_props(nv, r as int, 0));
    let mut k: usize = 0;
    while k < ns.len()
        invariant
            k <= ns.len(),
            nv == node_views(ns@),
            nv.len() == ns@.len(),
            acc_view(acc) == cal_props(nv, r as int, k as int),
        decreases ns.len() - k,
    {
        assert(nv[k as int] == ns@[k as int]@);
        if crate::text::str_eq(ns[k].name.as_str(), "prop") && is_desc_exec(ns, r, k) {
            let ghost st0 = cal_props(nv, r as int, k as int);
            let mut j: usize = 0;
            while j < ns.len()
                invariant
                    j <= ns.len(),
                    k < ns.len(),
                    nv == node_views(ns@),
                    nv.len() == ns@.len(),
                    acc_view(acc) == cal_children(st0, nv, k as int, j as int),
                decreases ns.len() - j,
            {
                assert(nv[j as int] == ns@[j as int]@);
                if is_child_exec(ns, k, j) {
                    if crate::text::str_eq(ns[j].name.as_str(), "displayname") {
                        acc.display_name = trim_chars(&text_chars(&ns[j].text));
                    } else if crate::text::str_eq(ns[j].name.as_str(), "resourcetype") {
                        acc.is_calendar = child_named_exec(ns, j, "calendar").is_some();
                    } else if crate::text::str_eq(ns[j].name.as_str(), "supported-calendar-component-set") {
                        comp_scan_exec(&mut acc, ns, j);
                    }
                }
                j = j + 1;
            }
        }
        k = k + 1;
    }
    acc
}

/// Reads the calendars of a PROPFIND answer on a calendar home.
pub fn parse_calendar_listing(xml: &str) -> (r: Result<Vec<CalendarInfo>, String>)
    ensures
        match roxml_parse(xml@) {
            Ok(ns) => (r matches Ok(v) && calendar_views(v@) == calendar_entries(ns, ns.len() as int)),
            Err(e) => (r matches Err(m) && m@ == xml_error(e)),
        },
{
    let ns = match parse_xml(xml) {
        Ok(v) => v,
        Err(e) => {
            return Err(xml_error_exec(&e));
        },
    };
    let ghost nv = node_views(ns@);
    let mut out: Vec<CalendarInfo> = Vec::new();
    let mut k: usize = 0;
    while k < ns.len()
        invariant
            k <= ns.len(),
            nv == node_views(ns@),
            nv.len() == ns@.len(),
            calendar_views(out@) == calendar_entries(nv, k as int),
        decreases ns.len() - k,
    {
        assert(nv[k as int] == ns@[k as int]@);
        if crate::text::str_eq(ns[k].name.as_str(), "response") {
            let href = trim_chars(&child_text_exec(&ns, k, "href"));
            if href.len() > 0 {
                let acc = cal_props_exec(&ns, k);
                if acc.is_calendar {
                    let c = CalendarInfo {
                        href: string_of(href.as_slice()),
                        display_name: string_of(acc.display_name.as_slice()),
                        supports_vtodo: acc.vtodo,
                        supports_vevent: acc.vevent,
                    };
                    let ghost before = out@;
                    out.push(c);
                    assert(calendar_views(out@) =~= calendar_views(before).push(c@));
                }
            }
        }
        k = k + 1;
    }
    Ok(out)
}

} // verus!
