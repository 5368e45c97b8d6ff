//! From parsed headings to the data model.

use vstd::prelude::*;

use crate::dates::{Date, DateTime, DateTimeParts, dt_parts, opt_num, opt_dt_parts, parse_org_datetime_spec, parse_iso_minutes_spec};
use crate::ids::{uuid_parse_spec, Uuid};
use crate::model::items::{Account, ListItem, Note};
use crate::model::link::{parse_link, LinkTarget};
use crate::model::task::{strs, Task, TaskState, TaskView, state_is_done};
use crate::org::parser::{property_value, props_view, HeadingSpec, OrgParser, ParsedHeading, parse_org};
use crate::text::{
    chars_of, first_line, first_line_chars, parse_u32, parse_u32_spec, strip_brackets,
    strip_brackets_chars, string_of, trim, trim_chars, words_from, split_words, views, str_eq,
};

verus! {

pub open spec fn id_key() -> Seq<char> {
    seq!['I', 'D']
}

pub open spec fn created_key() -> Seq<char> {
    seq!['C', 'R', 'E', 'A', 'T', 'E', 'D']
}

pub open spec fn esc_key() -> Seq<char> {
    seq!['E', 'S', 'C']
}

pub open spec fn waiting_tag() -> Seq<char> {
    seq!['w', 'a', 'i', 't', 'i', 'n', 'g']
}

/// The value of property `key` of a heading.
pub open spec fn prop(h: HeadingSpec, key: Seq<char>) -> Option<Seq<char>> {
    property_value(h.properties, key)
}

/// The identifier in the `ID` property, when it parses.
pub open spec fn id_from(h: HeadingSpec) -> Option<Uuid> {
    match prop(h, id_key()) {
        Some(v) => match uuid_parse_spec(v) {
            Some(x) => Some(Uuid { value: x }),
            None => None,
        },
        None => None,
    }
}

/// The time in a bracketed property (`[2026-02-23 Mon 14:00]`), when it parses.
pub open spec fn stamp_prop(h: HeadingSpec, key: Seq<char>) -> Option<DateTimeParts> {
    match prop(h, key) {
        Some(v) => parse_org_datetime_spec(strip_brackets(v)),
        None => None,
    }
}

pub open spec fn is_context(t: Seq<char>) -> bool {
    t.len() > 0 && t[0] == '@'
}

/// The tags that are contexts (start with `@`).
pub open spec fn contexts_from(tags: Seq<Seq<char>>) -> Seq<Seq<char>> {
    tags.filter(|t: Seq<char>| is_context(t))
}

/// The tags that are not contexts.
pub open spec fn other_tags(tags: Seq<Seq<char>>) -> Seq<Seq<char>> {
    tags.filter(|t: Seq<char>| !is_context(t))
}

/// For a heading tagged `waiting`: the first line of its notes, if not empty.
pub open spec fn waiting_from(h: HeadingSpec) -> Option<Seq<char>> {
    if h.tags.contains(waiting_tag()) && first_line(h.notes).len() > 0 {
        Some(first_line(h.notes))
    } else {
        None
    }
}

/// The `ESC` property, trimmed, as a number.
pub open spec fn esc_from(h: HeadingSpec) -> Option<u32> {
    match prop(h, esc_key()) {
        Some(v) => parse_u32_spec(trim(v)),
        None => None,
    }
}

/// `t` is the task read from heading `h`: identifier and creation time from
/// the properties when they parse (otherwise fresh ones), the headline's
/// fields, the contexts among the tags and the other tags apart, the
/// planning dates, the notes, and nothing else.
pub open spec fn task_from_heading(t: TaskView, h: HeadingSpec) -> bool {
    &&& (id_from(h) matches Some(id) ==> t.id == id)
    &&& (stamp_prop(h, created_key()) matches Some(p) ==> dt_parts(t.created) == p)
    &&& t.title == h.title
    &&& t.state == (match h.state {
        Some(s) => s,
        None => TaskState::Todo,
    })
    &&& t.priority == h.priority
    &&& t.contexts == contexts_from(h.tags)
    &&& opt_num(t.scheduled) == h.scheduled
    &&& opt_num(t.deadline) == h.deadline
    &&& t.recurrence == h.recurrence
    &&& t.notes == h.notes
    &&& t.completed is None
    &&& t.project is None
    &&& t.waiting_for == waiting_from(h)
    &&& t.esc == esc_from(h)
    &&& t.delegated is None
    &&& t.follow_up is None
    &&& t.extra_tags == other_tags(h.tags)
    &&& t.scheduled_time is None
    &&& t.deadline_time is None
    &&& t.dayplan_date is None
    &&& t.dayplan_budget is None
    &&& t.logbook_entries.len() == 0
    &&& t.clock_entries.len() == 0
    &&& t.sync_href is None
    &&& t.sync_hash is None
    &&& t.sync_uid is None
    &&& t.sync_etag is None
}

/// The identifier in the `ID` property, or a fresh random one.
fn id_or_new(h: &ParsedHeading) -> (r: Uuid)
    ensures
        id_from(h@) matches Some(id) ==> r == id,
{
    proof {
        reveal_strlit("ID");
    }
    assert("ID"@ =~= id_key());
    match OrgParser::get_property(&h.properties, "ID") {
        Some(s) => match Uuid::parse_str(s) {
            Some(id) => id,
            None => Uuid::new_v4(),
        },
        None => Uuid::new_v4(),
    }
}

/// The time in a bracketed property, if it parses as `%Y-%m-%d %a %H:%M`.
fn stamp_prop_exec(h: &ParsedHeading, key: &str) -> (r: Option<DateTime>)
    ensures
        opt_dt_parts(r) == stamp_prop(h@, key@),
{
    match OrgParser::get_property(&h.properties, key) {
        Some(s) => {
            let v = chars_of(s);
            let t = strip_brackets_chars(&v);
            DateTime::parse_org_chars(&t)
        },
        None => None,
    }
}

/// The time in the `CREATED` property, or now.
fn created_or_now(h: &ParsedHeading) -> (r: DateTime)
    ensures
        stamp_prop(h@, created_key()) matches Some(p) ==> dt_parts(r) == p,
{
    proof {
        reveal_strlit("CREATED");
    }
    assert("CREATED"@ =~= created_key());
    match stamp_prop_exec(h, "CREATED") {
        Some(d) => d,
        None => DateTime::now(),
    }
}

fn contexts_of(tags: &Vec<String>) -> (r: Vec<String>)
    ensures
        strs(r@) == contexts_from(strs(tags@)),
{
    let ghost ts = strs(tags@);
    let mut r: Vec<String> = Vec::new();
    let mut i: usize = 0;
    while i < tags.len()
        invariant
            i <= tags.len(),
            ts == strs(tags@),
            strs(r@) == contexts_from(ts.take(i as int)),
        decreases tags.len() - i,
    {
        proof {
            reveal(Seq::filter);
            assert(ts.take(i + 1).drop_last() =~= ts.take(i as int));
            assert(ts.take(i + 1).last() == tags@[i as int]@);
        }
        let t = chars_of(tags[i].as_str());
        if t.len() > 0 && t[0] == '@' {
            let ghost before = r@;
            r.push(tags[i].clone());
            assert(strs(r@) =~= strs(before).push(tags@[i as int]@));
        }
        i = i + 1;
    }
    assert(ts.take(tags.len() as int) =~= ts);
    r
}

fn others_of(tags: &Vec<String>) -> (r: Vec<String>)
    ensures
        strs(r@) == other_tags(strs(tags@)),
{
    let ghost ts = strs(tags@);
    let mut r: Vec<String> = Vec::new();
    let mut i: usize = 0;
    while i < tags.len()
        invariant
            i <= tags.len(),
            ts == strs(tags@),
            strs(r@) == other_tags(ts.take(i as int)),
        decreases tags.len() - i,
    {
        proof {
            reveal(Seq::filter);
            assert(ts.take(i + 1).drop_last() =~= ts.take(i as int));
            assert(ts.take(i + 1).last() == tags@[i as int]@);
        }
        let t = chars_of(tags[i].as_str());
        if !(t.len() > 0 && t[0] == '@') {
            let ghost before = r@;
            r.push(tags[i].clone());
            assert(strs(r@) =~= strs(before).push(tags@[i as int]@));
        }
        i = i + 1;
    }
    assert(ts.take(tags.len() as int) =~= ts);
    r
}

pub fn contains_str(tags: &Vec<String>, tag: &str) -> (r: bool)
    ensures
        r == strs(tags@).contains(tag@),
{
    has_tag(tags, tag)
}

fn has_tag(tags: &Vec<String>, tag: &str) -> (r: bool)
    ensures
        r == strs(tags@).contains(tag@),
{
    let mut i: usize = 0;
    while i < tags.len()
        invariant
            i <= tags.len(),
            forall|k: int| 0 <= k < i ==> tags@[k]@ != tag@,
        decreases tags.len() - i,
    {
        if str_eq(tags[i].as_str(), tag) {
            assert(strs(tags@)[i as int] == tag@);
            return true;
        }
        i = i + 1;
    }
    assert(!strs(tags@).contains(tag@)) by {
        if strs(tags@).contains(tag@) {
            let k = choose|k: int| 0 <= k < strs(tags@).len() && strs(tags@)[k] == tag@;
            assert(tags@[k]@ == tag@);
        }
    }
    false
}

fn waiting_of(h: &ParsedHeading) -> (r: Option<String>)
    ensures
        opt_str_view(r) == waiting_from(h@),
{
    proof {
        reveal_strlit("waiting");
    }
    assert("waiting"@ =~= waiting_tag());
    if has_tag(&h.tags, "waiting") {
        let n = chars_of(h.notes.as_str());
        let l = first_line_chars(&n);
        if l.len() > 0 {
            return Some(string_of(l.as_slice()));
        }
    }
    None
}

pub open spec fn opt_str_view(o: Option<String>) -> Option<Seq<char>> {
    match o {
        Some(s) => Some(s@),
        None => None,
    }
}

fn esc_of(h: &ParsedHeading) -> (r: Option<u32>)
    ensures
        r == esc_from(h@),
{
    proof {
        reveal_strlit("ESC");
    }
    assert("ESC"@ =~= esc_key());
    match OrgParser::get_property(&h.properties, "ESC") {
        Some(s) => {
            let v = chars_of(s);
            let t = trim_chars(&v);
            parse_u32(&t)
        },
        None => None,
    }
}

/// The task a heading describes.
pub fn heading_to_task(h: &ParsedHeading) -> (r: Task)
    ensures
        task_from_heading(r@, h@),
{
    let id = id_or_new(h);
    let created = created_or_now(h);
    let contexts = contexts_of(&h.tags);
    let others = others_of(&h.tags);
    let waiting_for = waiting_of(h);
    let esc = esc_of(h);
    let title = h.title.clone();
    let notes = h.notes.clone();
    let state = match h.state {
        Some(s) => s,
        None => TaskState::Todo,
    };
    let t = Task {
        id,
        title,
        state,
        priority: h.priority,
        contexts,
        scheduled: h.scheduled,
        deadline: h.deadline,
        recurrence: h.recurrence,
        notes,
        created,
        completed: None,
        project: None,
        waiting_for,
        esc,
        delegated: None,
        follow_up: None,
        extra_tags: others,
        scheduled_time: None,
        deadline_time: None,
        dayplan_date: None,
        dayplan_budget: None,
        logbook_entries: Vec::new(),
        clock_entries: Vec::new(),
        sync_href: None,
        sync_hash: None,
        sync_uid: None,
        sync_etag: None,
    };
    t
}

/// The tasks of a list of headings, in order.
pub fn headings_to_tasks(hs: &Vec<ParsedHeading>) -> (r: Vec<Task>)
    ensures
        r@.len() == hs@.len(),
        forall|i: int| 0 <= i < r@.len() ==> task_from_heading(#[trigger] r@[i]@, hs@[i]@),
{
    let mut r: Vec<Task> = Vec::new();
    let mut i: usize = 0;
    while i < hs.len()
        invariant
            i <= hs.len(),
            r@.len() == i,
            forall|k: int| 0 <= k < i ==> task_from_heading(#[trigger] r@[k]@, hs@[k]@),
        decreases hs.len() - i,
    {
        r.push(heading_to_task(&hs[i]));
        i = i + 1;
    }
    r
}

/// The tasks of an org text.
pub fn parse_tasks(input: &str) -> (r: Vec<Task>)
    ensures
        r@.len() == parse_org(input@).len(),
        forall|i: int| 0 <= i < r@.len() ==> task_from_heading(#[trigger] r@[i]@, parse_org(input@)[i]),
{
    let hs = OrgParser::parse(input);
    let r = headings_to_tasks(&hs);
    assert forall|i: int| 0 <= i < r@.len() implies task_from_heading(#[trigger] r@[i]@, parse_org(input@)[i]) by {
        assert(hs@.map_values(|h: ParsedHeading| h@)[i] == hs@[i]@);
    }
    r
}

// ---------------------------------------------------------------------------
// List items and accounts
// ---------------------------------------------------------------------------

/// `item` is the list item read from heading `h`.
pub open spec fn item_from_heading(item: ListItem, h: HeadingSpec) -> bool {
    &&& (id_from(h) matches Some(id) ==> item.id == id)
    &&& (stamp_prop(h, created_key()) matches Some(p) ==> dt_parts(item.created) == p)
    &&& item.title@ == h.title
    &&& item.notes@ == h.notes
    &&& item.done == (h.state == Some(TaskState::Done))
}

pub fn heading_to_list_item(h: &ParsedHeading) -> (r: ListItem)
    ensures
        item_from_heading(r, h@),
{
    let id = id_or_new(h);
    let created = created_or_now(h);
    let done = match h.state {
        Some(TaskState::Done) => true,
        _ => false,
    };
    ListItem { id, title: h.title.clone(), notes: h.notes.clone(), created, done }
}

/// The list items of an org text.
pub fn parse_list_items(input: &str) -> (r: Vec<ListItem>)
    ensures
        r@.len() == parse_org(input@).len(),
        forall|i: int| 0 <= i < r@.len() ==> item_from_heading(#[trigger] r@[i], parse_org(input@)[i]),
{
    let hs = OrgParser::parse(input);
    let mut r: Vec<ListItem> = Vec::new();
    let mut i: usize = 0;
    while i < hs.len()
        invariant
            i <= hs.len(),
            r@.len() == i,
            hs@.map_values(|h: ParsedHeading| h@) == parse_org(input@),
            forall|k: int| 0 <= k < i ==> item_from_heading(#[trigger] r@[k], parse_org(input@)[k]),
        decreases hs.len() - i,
    {
        assert(hs@.map_values(|h: ParsedHeading| h@)[i as int] == hs@[i as int]@);
        r.push(heading_to_list_item(&hs[i]));
        i = i + 1;
    }
    r
}

pub open spec fn url_key() -> Seq<char> {
    seq!['U', 'R', 'L']
}

pub open spec fn last_checked_key() -> Seq<char> {
    seq!['L', 'A', 'S', 'T', '_', 'C', 'H', 'E', 'C', 'K', 'E', 'D']
}

/// The date in a bracketed property (`[2026-02-23]`), when it parses.
pub open spec fn date_prop(h: HeadingSpec, key: Seq<char>) -> Option<int> {
    match prop(h, key) {
        Some(v) => crate::dates::parse_iso_date_spec(strip_brackets(v)),
        None => None,
    }
}

/// `a` is the account read from heading `h`.
pub open spec fn account_from_heading(a: Account, h: HeadingSpec) -> bool {
    &&& (id_from(h) matches Some(id) ==> a.id == id)
    &&& a.name@ == h.title
    &&& a.url@ == (match prop(h, url_key()) {
        Some(u) => u,
        None => seq![],
    })
    &&& a.notes@ == h.notes
    &&& opt_num(a.last_checked) == date_prop(h, last_checked_key())
}

pub fn heading_to_account(h: &ParsedHeading) -> (r: Account)
    ensures
        account_from_heading(r, h@),
{
    proof {
        reveal_strlit("URL");
        reveal_strlit("LAST_CHECKED");
    }
    assert("URL"@ =~= url_key());
    assert("LAST_CHECKED"@ =~= last_checked_key());
    let id = id_or_new(h);
    let url = match OrgParser::get_property(&h.properties, "URL") {
        Some(u) => u.to_owned(),
        None => String::new(),
    };
    let last_checked = match OrgParser::get_property(&h.properties, "LAST_CHECKED") {
        Some(s) => {
            let v = chars_of(s);
            let t = strip_brackets_chars(&v);
            Date::parse_iso_chars(&t)
        },
        None => None,
    };
    Account { id, name: h.title.clone(), url, notes: h.notes.clone(), last_checked }
}

/// The accounts of an org text.
pub fn parse_accounts(input: &str) -> (r: Vec<Account>)
    ensures
        r@.len() == parse_org(input@).len(),
        forall|i: int| 0 <= i < r@.len() ==> account_from_heading(#[trigger] r@[i], parse_org(input@)[i]),
{
    let hs = OrgParser::parse(input);
    let mut r: Vec<Account> = Vec::new();
    let mut i: usize = 0;
    while i < hs.len()
        invariant
            i <= hs.len(),
            r@.len() == i,
            hs@.map_values(|h: ParsedHeading| h@) == parse_org(input@),
            forall|k: int| 0 <= k < i ==> account_from_heading(#[trigger] r@[k], parse_org(input@)[k]),
        decreases hs.len() - i,
    {
        assert(hs@.map_values(|h: ParsedHeading| h@)[i as int] == hs@[i as int]@);
        r.push(heading_to_account(&hs[i]));
        i = i + 1;
    }
    r
}

// ---------------------------------------------------------------------------
// Notes
// ---------------------------------------------------------------------------

pub open spec fn modified_key() -> Seq<char> {
    seq!['M', 'O', 'D', 'I', 'F', 'I', 'E', 'D']
}

pub open spec fn source_key() -> Seq<char> {
    seq!['S', 'O', 'U', 'R', 'C', 'E']
}

pub open spec fn links_key() -> Seq<char> {
    seq!['L', 'I', 'N', 'K', 'S']
}

pub open spec fn etag_key() -> Seq<char> {
    seq!['S', 'Y', 'N', 'C', '_', 'E', 'T', 'A', 'G']
}

/// A note time: `%Y-%m-%d %a %H:%M`, else `%Y-%m-%d %H:%M`, inside brackets.
pub open spec fn note_stamp(h: HeadingSpec, key: Seq<char>) -> Option<DateTimeParts> {
    match prop(h, key) {
        Some(v) => match parse_org_datetime_spec(strip_brackets(v)) {
            Some(p) => Some(p),
            None => parse_iso_minutes_spec(strip_brackets(v)),
        },
        None => None,
    }
}

/// A property that is present and not empty.
pub open spec fn nonempty_prop(h: HeadingSpec, key: Seq<char>) -> Option<Seq<char>> {
    match prop(h, key) {
        Some(v) => if v.len() > 0 {
            Some(v)
        } else {
            None
        },
        None => None,
    }
}

/// The links that parse among the words of a text.
pub open spec fn links_in(words: Seq<Seq<char>>) -> Seq<LinkTarget>
    decreases words.len(),
{
    if words.len() == 0 {
        seq![]
    } else {
        let rest = links_in(words.drop_last());
        match parse_link(words.last()) {
            Some(l) => rest.push(l),
            None => rest,
        }
    }
}

/// `n` is the note read from heading `h`.
pub open spec fn note_from_heading(n: Note, h: HeadingSpec) -> bool {
    &&& note_fields_from(n, h)
    &&& opt_str_view(n.sync_etag) == nonempty_prop(h, etag_key())
}

/// The fields of a note other than its etag, as a heading gives them.
pub open spec fn note_fields_from(n: Note, h: HeadingSpec) -> bool {
    &&& (id_from(h) matches Some(id) ==> n.id == id)
    &&& (note_stamp(h, created_key()) matches Some(p) ==> dt_parts(n.created) == p)
    &&& (note_stamp(h, modified_key()) matches Some(p) ==> dt_parts(n.modified) == p)
    &&& (note_stamp(h, modified_key()) is None ==> n.modified == n.created)
    &&& n.title@ == h.title
    &&& n.body@ == h.notes
    &&& strs(n.tags@) == h.tags
    &&& n.links@ == (match prop(h, links_key()) {
        Some(v) => links_in(words_from(v, 0)),
        None => seq![],
    })
    &&& opt_str_view(n.source) == nonempty_prop(h, source_key())
}

fn note_stamp_exec(h: &ParsedHeading, key: &str) -> (r: Option<DateTime>)
    ensures
        opt_dt_parts(r) == note_stamp(h@, key@),
{
    match OrgParser::get_property(&h.properties, key) {
        Some(s) => {
            let v = chars_of(s);
            let t = strip_brackets_chars(&v);
            match DateTime::parse_org_chars(&t) {
                Some(d) => Some(d),
                None => DateTime::parse_iso_minutes_chars(&t),
            }
        },
        None => None,
    }
}

fn nonempty_prop_exec(h: &ParsedHeading, key: &str) -> (r: Option<String>)
    ensures
        opt_str_view(r) == nonempty_prop(h@, key@),
{
    match OrgParser::get_property(&h.properties, key) {
        Some(s) => {
            if s.unicode_len() > 0 {
                Some(s.to_owned())
            } else {
                None
            }
        },
        None => None,
    }
}

fn links_of(text: &str) -> (r: Vec<LinkTarget>)
    ensures
        r@ == links_in(words_from(text@, 0)),
{
    let v = chars_of(text);
    let ws = split_words(&v);
    let ghost wv = views(ws@);
    let mut r: Vec<LinkTarget> = Vec::new();
    let mut i: usize = 0;
    while i < ws.len()
        invariant
            i <= ws.len(),
            wv == views(ws@),
            r@ == links_in(wv.take(i as int)),
        decreases ws.len() - i,
    {
        assert(wv.take(i + 1).drop_last() =~= wv.take(i as int));
        assert(wv.take(i + 1).last() == ws@[i as int]@);
        let s = string_of(ws[i].as_slice());
        match LinkTarget::from_org(s.as_str()) {
            Some(l) => {
                r.push(l);
            },
            None => {},
        }
        i = i + 1;
    }
    assert(wv.take(ws.len() as int) =~= wv);
    r
}

pub fn heading_to_note(h: &ParsedHeading) -> (r: Note)
    ensures
        note_from_heading(r, h@),
{
    proof {
        reveal_strlit("CREATED");
        reveal_strlit("MODIFIED");
        reveal_strlit("SOURCE");
        reveal_strlit("LINKS");
        reveal_strlit("SYNC_ETAG");
    }
    assert("CREATED"@ =~= created_key());
    assert("MODIFIED"@ =~= modified_key());
    assert("SOURCE"@ =~= source_key());
    assert("LINKS"@ =~= links_key());
    assert("SYNC_ETAG"@ =~= etag_key());
    let id = id_or_new(h);
    let created = match note_stamp_exec(h, "CREATED") {
        Some(d) => d,
        None => DateTime::now(),
    };
    let modified = match note_stamp_exec(h, "MODIFIED") {
        Some(d) => d,
        None => created,
    };
    let source = nonempty_prop_exec(h, "SOURCE");
    let links = match OrgParser::get_property(&h.properties, "LINKS") {
        Some(s) => links_of(s),
        None => Vec::new(),
    };
    let sync_etag = nonempty_prop_exec(h, "SYNC_ETAG");
    let tags = clone_strings(&h.tags);
    Note {
        id,
        title: h.title.clone(),
        body: h.notes.clone(),
        tags,
        links,
        source,
        created,
        modified,
        sync_etag,
    }
}

/// A copy of a list of strings.
pub fn clone_strings(v: &Vec<String>) -> (r: Vec<String>)
    ensures
        strs(r@) == strs(v@),
{
    let mut r: Vec<String> = Vec::new();
    let mut i: usize = 0;
    while i < v.len()
        invariant
            i <= v.len(),
            strs(r@) =~= strs(v@).take(i as int),
        decreases v.len() - i,
    {
        let ghost before = r@;
        r.push(v[i].clone());
        assert(strs(r@) =~= strs(before).push(v@[i as int]@));
        i = i + 1;
    }
    assert(strs(v@).take(v.len() as int) =~= strs(v@));
    r
}

/// The notes of an org text.
pub fn parse_notes(input: &str) -> (r: Vec<Note>)
    ensures
        r@.len() == parse_org(input@).len(),
        forall|i: int| 0 <= i < r@.len() ==> note_from_heading(#[trigger] r@[i], parse_org(input@)[i]),
{
    let hs = OrgParser::parse(input);
    let mut r: Vec<Note> = Vec::new();
    let mut i: usize = 0;
    while i < hs.len()
        invariant
            i <= hs.len(),
            r@.len() == i,
            hs@.map_values(|h: ParsedHeading| h@) == parse_org(input@),
            forall|k: int| 0 <= k < i ==> note_from_heading(#[trigger] r@[k], parse_org(input@)[k]),
        decreases hs.len() - i,
    {
        assert(hs@.map_values(|h: ParsedHeading| h@)[i as int] == hs@[i as int]@);
        r.push(heading_to_note(&hs[i]));
        i = i + 1;
    }
    r
}

} // verus!
