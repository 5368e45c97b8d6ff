//! Writing the data model as org text.

use vstd::prelude::*;

use crate::dates::{date_iso, date_wday, dt_org, Date, DateTime};
use crate::ids::{uuid_text, Uuid};
use crate::model::day_plan::{CompletedTask, DayPlan};
use crate::model::items::{Account, ListItem, Note};
use crate::model::link::{link_text, LinkTarget};
use crate::model::project::Project;
use crate::model::recurrence::{recurrence_text, Recurrence};
use crate::model::task::{keyword_of, priority_cookie, strs, Task, TaskState, TaskView};
use vstd::seq_lib::lemma_concat_associative;
use crate::text::{
    decimal, join, lines, push_all, push_decimal, push_joined, push_str, split_lines, chars_of,
    string_of, views,
};

verus! {

pub struct OrgWriter;

pub open spec fn nl() -> Seq<char> {
    seq!['\n']
}

pub open spec fn indent() -> Seq<char> {
    seq![' ', ' ']
}

/// Each line of `text`, indented by two spaces and ended by a newline.
pub open spec fn indented_lines(ls: Seq<Seq<char>>) -> Seq<char>
    decreases ls.len(),
{
    if ls.len() == 0 {
        seq![]
    } else {
        indented_lines(ls.drop_last()) + indent() + ls.last() + nl()
    }
}

pub open spec fn body_text(text: Seq<char>) -> Seq<char> {
    indented_lines(lines(text))
}

/// `level` stars.
pub open spec fn stars(level: nat) -> Seq<char> {
    Seq::new(level, |i: int| '*')
}

/// ` :a:b:` for a non-empty tag list, nothing for an empty one.
pub open spec fn tags_text(tags: Seq<Seq<char>>) -> Seq<char> {
    if tags.len() == 0 {
        seq![]
    } else {
        " :"@ + join(tags, ":"@) + ":"@
    }
}

/// `<YYYY-MM-DD Www` and the repeater, then `>`.
pub open spec fn stamp_text(kw: Seq<char>, d: Date, r: Option<Recurrence>) -> Seq<char> {
    kw + " <"@ + date_iso(d) + " "@ + date_wday(d) + match r {
        Some(x) => " "@ + recurrence_text(x),
        None => seq![],
    } + ">"@
}

/// The planning line of a task, if it has a date.
pub open spec fn planning_text(t: TaskView) -> Seq<char> {
    let parts: Seq<Seq<char>> = match (t.scheduled, t.deadline) {
        (Some(s), Some(d)) => seq![
            stamp_text("SCHEDULED:"@, s, t.recurrence),
            stamp_text("DEADLINE:"@, d, None),
        ],
        (Some(s), None) => seq![stamp_text("SCHEDULED:"@, s, t.recurrence)],
        (None, Some(d)) => seq![stamp_text("DEADLINE:"@, d, None)],
        (None, None) => seq![],
    };
    if parts.len() == 0 {
        seq![]
    } else {
        indent() + join(parts, " "@) + nl()
    }
}

/// `  :KEY: value` and a newline.
pub open spec fn prop_line(key: Seq<char>, value: Seq<char>) -> Seq<char> {
    indent() + ":"@ + key + ": "@ + value + nl()
}

pub open spec fn opt_prop_line(key: Seq<char>, value: Option<Seq<char>>) -> Seq<char> {
    match value {
        Some(v) => prop_line(key, v),
        None => seq![],
    }
}

pub open spec fn opt_date_iso(d: Option<Date>) -> Option<Seq<char>> {
    match d {
        Some(x) => Some(date_iso(x)),
        None => None,
    }
}

pub open spec fn opt_decimal(n: Option<u64>) -> Option<Seq<char>> {
    match n {
        Some(x) => Some(decimal(x as nat)),
        None => None,
    }
}

pub open spec fn opt_u32_decimal(n: Option<u32>) -> Option<Seq<char>> {
    match n {
        Some(x) => Some(decimal(x as nat)),
        None => None,
    }
}

/// The tags of a task's headline: its contexts, then its other tags.
pub open spec fn headline_tags(t: TaskView) -> Seq<Seq<char>> {
    t.contexts + t.extra_tags
}

/// The headline of a task: stars, keyword, priority, title, tags.
pub open spec fn headline_text(t: TaskView, level: nat) -> Seq<char> {
    stars(level) + " "@ + keyword_of(t.state) + " "@ + match t.priority {
        Some(p) => priority_cookie(p) + " "@,
        None => seq![],
    } + t.title + tags_text(headline_tags(t)) + nl()
}

/// The `CLOSED:` line of a completed task.
pub open spec fn closed_text(t: TaskView) -> Seq<char> {
    match t.completed {
        Some(c) => indent() + "CLOSED: ["@ + dt_org(c) + "]"@ + nl(),
        None => seq![],
    }
}

/// The optional GTD properties of a task.
pub open spec fn gtd_props_text(t: TaskView) -> Seq<char> {
    opt_prop_line("ESC"@, opt_u32_decimal(t.esc)) + opt_prop_line("WAITING_FOR"@, t.waiting_for)
        + opt_prop_line("DELEGATED"@, opt_date_iso(t.delegated)) + opt_prop_line(
        "FOLLOW_UP"@,
        opt_date_iso(t.follow_up),
    )
}

/// The optional sync properties of a task.
pub open spec fn sync_props_text(t: TaskView) -> Seq<char> {
    opt_prop_line("SYNC_HREF"@, t.sync_href) + opt_prop_line(
        "SYNC_HASH"@,
        opt_decimal(t.sync_hash),
    ) + opt_prop_line("SYNC_UID"@, t.sync_uid)
}

/// The optional properties of a task.
pub open spec fn extra_props_text(t: TaskView) -> Seq<char> {
    gtd_props_text(t) + sync_props_text(t)
}

/// The property drawer of a task.
pub open spec fn props_text(t: TaskView) -> Seq<char> {
    indent() + ":PROPERTIES:"@ + nl() + prop_line("ID"@, uuid_text(t.id.value)) + prop_line(
        "CREATED"@,
        "["@ + dt_org(t.created) + "]"@,
    ) + extra_props_text(t) + indent() + ":END:"@ + nl()
}

/// The org text of a task as a heading of `level` stars.
pub open spec fn task_text(t: TaskView, level: nat) -> Seq<char> {
    headline_text(t, level) + closed_text(t) + planning_text(t) + props_text(t) + body_text(t.notes)
}

/// The header of a task file.
pub open spec fn file_header(title: Seq<char>) -> Seq<char> {
    "#+TITLE: "@ + title + nl() + "#+TODO: TODO NEXT WAITING SOMEDAY | DONE CANCELLED"@ + nl() + nl()
}

/// Each task at level 1, followed by an empty line.
pub open spec fn tasks_text(ts: Seq<TaskView>, level: nat) -> Seq<char>
    decreases ts.len(),
{
    if ts.len() == 0 {
        seq![]
    } else {
        tasks_text(ts.drop_last(), level) + task_text(ts.last(), level) + nl()
    }
}

pub open spec fn task_views(ts: Seq<Task>) -> Seq<TaskView> {
    ts.map_values(|t: Task| t@)
}

// ---------------------------------------------------------------------------
// Builders
// ---------------------------------------------------------------------------

proof fn lemma_assoc3(a: Seq<char>, b: Seq<char>, c: Seq<char>, d: Seq<char>)
    ensures
        ((a + b) + c) + d == a + ((b + c) + d),
{
    assert(((a + b) + c) + d =~= a + ((b + c) + d));
}

fn push_indented_lines(v: &mut Vec<char>, text: &str)
    ensures
        final(v)@ == old(v)@ + body_text(text@),
{
    let c = chars_of(text);
    let ls = split_lines(&c);
    let ghost lv = views(ls@);
    assert(lv =~= lines(text@));
    let ghost start = v@;
    let mut i: usize = 0;
    while i < ls.len()
        invariant
            i <= ls.len(),
            lv == views(ls@),
            v@ == start + indented_lines(lv.take(i as int)),
        decreases ls.len() - i,
    {
        v.push(' ');
        v.push(' ');
        push_all(v, &ls[i]);
        v.push('\n');
        proof {
            assert(lv.take(i + 1).drop_last() =~= lv.take(i as int));
            assert(lv.take(i + 1).last() == ls@[i as int]@);
            assert(v@ =~= start + indented_lines(lv.take(i + 1)));
        }
        i = i + 1;
    }
    assert(lv.take(ls.len() as int) =~= lv);
}

fn push_prop_line(v: &mut Vec<char>, key: &str, value: &str)
    ensures
        final(v)@ == old(v)@ + prop_line(key@, value@),
{
    v.push(' ');
    v.push(' ');
    v.push(':');
    push_str(v, key);
    v.push(':');
    v.push(' ');
    push_str(v, value);
    v.push('\n');
    proof {
        reveal_strlit(":");
        reveal_strlit(": ");
    }
    assert(final(v)@ =~= old(v)@ + prop_line(key@, value@));
}

fn push_tags(v: &mut Vec<char>, tags: &Vec<String>)
    ensures
        final(v)@ == old(v)@ + tags_text(strs(tags@)),
{
    proof {
        reveal_strlit(" :");
        reveal_strlit(":");
    }
    if tags.len() > 0 {
        v.push(' ');
        v.push(':');
        push_joined(v, tags, ":");
        v.push(':');
        assert(final(v)@ =~= old(v)@ + tags_text(strs(tags@)));
    } else {
        assert(final(v)@ =~= old(v)@ + tags_text(strs(tags@)));
    }
}

fn stamp_string(kw: &str, d: &Date, r: &Option<Recurrence>) -> (s: String)
    ensures
        s@ == stamp_text(kw@, *d, *r),
{
    let mut v: Vec<char> = Vec::new();
    push_str(&mut v, kw);
    v.push(' ');
    v.push('<');
    let iso = d.to_iso_string();
    push_str(&mut v, iso.as_str());
    v.push(' ');
    let wd = d.weekday_name();
    push_str(&mut v, wd.as_str());
    match r {
        Some(x) => {
            v.push(' ');
            x.push_text(&mut v);
        },
        None => {},
    }
    v.push('>');
    proof {
        reveal_strlit(" <");
        reveal_strlit(" ");
        reveal_strlit(">");
    }
    assert(v@ =~= stamp_text(kw@, *d, *r));
    string_of(v.as_slice())
}

fn push_planning(v: &mut Vec<char>, t: &Task)
    ensures
        final(v)@ == old(v)@ + planning_text(t@),
{
    proof {
        reveal_strlit(" ");
        reveal_strlit("SCHEDULED:");
        reveal_strlit("DEADLINE:");
    }
    let mut parts: Vec<String> = Vec::new();
    match t.scheduled {
        Some(s) => {
            parts.push(stamp_string("SCHEDULED:", &s, &t.recurrence));
        },
        None => {},
    }
    match t.deadline {
        Some(d) => {
            parts.push(stamp_string("DEADLINE:", &d, &None));
        },
        None => {},
    }
    let ghost pv = parts@.map_values(|s: String| s@);
    assert(pv =~= match (t.scheduled, t.deadline) {
        (Some(s), Some(d)) => seq![
            stamp_text("SCHEDULED:"@, s, t.recurrence),
            stamp_text("DEADLINE:"@, d, None),
        ],
        (Some(s), None) => seq![stamp_text("SCHEDULED:"@, s, t.recurrence)],
        (None, Some(d)) => seq![stamp_text("DEADLINE:"@, d, None)],
        (None, None) => Seq::<Seq<char>>::empty(),
    });
    if parts.len() > 0 {
        v.push(' ');
        v.push(' ');
        push_joined(v, &parts, " ");
        v.push('\n');
    }
    assert(final(v)@ =~= old(v)@ + planning_text(t@));
}

fn push_headline(v: &mut Vec<char>, task: &Task, level: usize)
    ensures
        final(v)@ == old(v)@ + headline_text(task@, level as nat),
{
    proof {
        reveal_strlit(" ");
    }
    let ghost v0 = v@;
    let mut k: usize = 0;
    while k < level
        invariant
            k <= level,
            v@ == v0 + stars(k as nat),
        decreases level - k,
    {
        v.push('*');
        assert(v@ =~= v0 + stars((k + 1) as nat));
        k = k + 1;
    }
    v.push(' ');
    push_str(v, task.state.as_keyword());
    v.push(' ');
    let ghost v1 = v@;
    match task.priority {
        Some(p) => {
            push_str(v, p.as_org());
            v.push(' ');
        },
        None => {},
    }
    push_str(v, task.title.as_str());
    let mut tags = crate::org::convert::clone_strings(&task.contexts);
    let more = crate::org::convert::clone_strings(&task.extra_tags);
    let ghost t0 = tags@;
    let mut k: usize = 0;
    while k < more.len()
        invariant
            k <= more@.len(),
            strs(tags@) == strs(t0) + strs(more@).take(k as int),
        decreases more.len() - k,
    {
        let ghost before = tags@;
        tags.push(more[k].clone());
        assert(strs(tags@) =~= strs(before).push(more@[k as int]@));
        assert(strs(more@).take(k + 1) =~= strs(more@).take(k as int).push(more@[k as int]@));
        k = k + 1;
    }
    assert(strs(more@).take(more@.len() as int) =~= strs(more@));
    assert(strs(tags@) =~= headline_tags(task@));
    push_tags(v, &tags);
    v.push('\n');
    assert(final(v)@ =~= old(v)@ + headline_text(task@, level as nat));
}

fn push_closed(v: &mut Vec<char>, task: &Task)
    ensures
        final(v)@ == old(v)@ + closed_text(task@),
{
    match task.completed {
        Some(c) => {
            push_str(v, "  CLOSED: [");
            let s = c.to_org_string();
            push_str(v, s.as_str());
            v.push(']');
            v.push('\n');
            proof {
                reveal_strlit("  CLOSED: [");
                reveal_strlit("CLOSED: [");
                reveal_strlit("]");
            }
            assert(final(v)@ =~= old(v)@ + closed_text(task@));
        },
        None => {
            assert(final(v)@ =~= old(v)@ + closed_text(task@));
        },
    }
}

fn push_opt_prop_line(v: &mut Vec<char>, key: &str, value: Option<String>)
    ensures
        final(v)@ == old(v)@ + opt_prop_line(
            key@,
            match value {
                Some(x) => Some(x@),
                None => None,
            },
        ),
{
    match value {
        Some(x) => {
            push_prop_line(v, key, x.as_str());
        },
        None => {
            assert(final(v)@ =~= old(v)@);
        },
    }
}

fn opt_date_string(d: Option<Date>) -> (r: Option<String>)
    ensures
        match r {
            Some(x) => Some(x@),
            None => None,
        } == opt_date_iso(d),
{
    match d {
        Some(x) => Some(x.to_iso_string()),
        None => None,
    }
}

fn opt_string_copy(s: &Option<String>) -> (r: Option<String>)
    ensures
        match r {
            Some(x) => Some(x@),
            None => None,
        } == match s {
            Some(x) => Some(x@),
            None => None,
        },
{
    match s {
        Some(x) => Some(x.clone()),
        None => None,
    }
}

fn push_extra_props(v: &mut Vec<char>, task: &Task)
    ensures
        final(v)@ == old(v)@ + extra_props_text(task@),
{
    proof {
        reveal_strlit("ESC");
        reveal_strlit("WAITING_FOR");
        reveal_strlit("DELEGATED");
        reveal_strlit("FOLLOW_UP");
        reveal_strlit("SYNC_HREF");
        reveal_strlit("SYNC_HASH");
        reveal_strlit("SYNC_UID");
    }
    let ghost v0 = v@;
    let ghost t = task@;
    let esc = match task.esc {
        Some(e) => Some(crate::text::decimal_string(e as u64)),
        None => None,
    };
    push_opt_prop_line(v, "ESC", esc);
    let ghost a1 = opt_prop_line("ESC"@, opt_u32_decimal(t.esc));
    assert(v@ == v0 + a1);
    push_opt_prop_line(v, "WAITING_FOR", opt_string_copy(&task.waiting_for));
    let ghost p2 = opt_prop_line("WAITING_FOR"@, t.waiting_for);
    proof { lemma_concat_associative(v0, a1, p2); }
    let ghost a2 = a1 + p2;
    push_opt_prop_line(v, "DELEGATED", opt_date_string(task.delegated));
    let ghost p3 = opt_prop_line("DELEGATED"@, opt_date_iso(t.delegated));
    proof { lemma_concat_associative(v0, a2, p3); }
    let ghost a3 = a2 + p3;
    push_opt_prop_line(v, "FOLLOW_UP", opt_date_string(task.follow_up));
    let ghost p4 = opt_prop_line("FOLLOW_UP"@, opt_date_iso(t.follow_up));
    proof { lemma_concat_associative(v0, a3, p4); }
    let ghost g = a3 + p4;
    assert(g == gtd_props_text(t));
    assert(v@ == v0 + g);
    push_opt_prop_line(v, "SYNC_HREF", opt_string_copy(&task.sync_href));
    let ghost q1 = opt_prop_line("SYNC_HREF"@, t.sync_href);
    let hash = match task.sync_hash {
        Some(h) => Some(crate::text::decimal_string(h)),
        None => None,
    };
    push_opt_prop_line(v, "SYNC_HASH", hash);
    let ghost q2 = opt_prop_line("SYNC_HASH"@, opt_decimal(t.sync_hash));
    push_opt_prop_line(v, "SYNC_UID", opt_string_copy(&task.sync_uid));
    let ghost q3 = opt_prop_line("SYNC_UID"@, t.sync_uid);
    proof {
        lemma_concat_associative(v0 + g, q1, q2);
        lemma_concat_associative(v0 + g, q1 + q2, q3);
        lemma_concat_associative(v0, g, (q1 + q2) + q3);
    }
    assert(sync_props_text(t) == (q1 + q2) + q3);
}

fn push_props(v: &mut Vec<char>, task: &Task)
    ensures
        final(v)@ == old(v)@ + props_text(task@),
{
    proof {
        reveal_strlit("  :PROPERTIES:\n");
        reveal_strlit(":PROPERTIES:");
        reveal_strlit("ID");
        reveal_strlit("CREATED");
        reveal_strlit("[");
        reveal_strlit("]");
        reveal_strlit("  :END:\n");
        reveal_strlit(":END:");
    }
    push_str(v, "  :PROPERTIES:\n");
    let id = task.id.to_string();
    push_prop_line(v, "ID", id.as_str());
    let mut c: Vec<char> = Vec::new();
    c.push('[');
    let s = task.created.to_org_string();
    push_str(&mut c, s.as_str());
    c.push(']');
    assert(c@ =~= "["@ + dt_org(task.created) + "]"@);
    let created = string_of(c.as_slice());
    push_prop_line(v, "CREATED", created.as_str());
    push_extra_props(v, task);
    push_str(v, "  :END:\n");
    assert(final(v)@ =~= old(v)@ + props_text(task@));
}

fn push_task_text(v: &mut Vec<char>, task: &Task, level: usize)
    ensures
        final(v)@ == old(v)@ + task_text(task@, level as nat),
{
    push_headline(v, task, level);
    push_closed(v, task);
    push_planning(v, task);
    push_props(v, task);
    push_indented_lines(v, task.notes.as_str());
    assert(final(v)@ =~= old(v)@ + task_text(task@, level as nat));
}

impl OrgWriter {
    /// A task file: the header, then each task at level 1 followed by an
    /// empty line.
    pub fn write_file(title: &str, tasks: &Vec<Task>) -> (r: String)
        ensures
            r@ == file_header(title@) + tasks_text(task_views(tasks@), 1),
    {
        let mut v: Vec<char> = Vec::new();
        push_str(&mut v, "#+TITLE: ");
        push_str(&mut v, title);
        v.push('\n');
        push_str(&mut v, "#+TODO: TODO NEXT WAITING SOMEDAY | DONE CANCELLED\n\n");
        proof {
            reveal_strlit("#+TITLE: ");
            reveal_strlit("#+TODO: TODO NEXT WAITING SOMEDAY | DONE CANCELLED\n\n");
            reveal_strlit("#+TODO: TODO NEXT WAITING SOMEDAY | DONE CANCELLED");
        }
        assert(v@ =~= file_header(title@));
        let ghost tv = task_views(tasks@);
        let ghost start = v@;
        let mut i: usize = 0;
        while i < tasks.len()
            invariant
                i <= tasks.len(),
                tv == task_views(tasks@),
                v@ == start + tasks_text(tv.take(i as int), 1),
            decreases tasks.len() - i,
        {
            push_task_text(&mut v, &tasks[i], 1);
            v.push('\n');
            proof {
                assert(tv.take(i + 1).drop_last() =~= tv.take(i as int));
                assert(tv.take(i + 1).last() == tasks@[i as int]@);
                lemma_assoc3(start, tasks_text(tv.take(i as int), 1), task_text(tasks@[i as int]@, 1), nl());
            }
            i = i + 1;
        }
        assert(tv.take(tasks.len() as int) =~= tv);
        string_of(v.as_slice())
    }

    /// A task as a level-1 heading.
    pub fn write_task(task: &Task) -> (r: String)
        ensures
            r@ == task_text(task@, 1),
    {
        Self::write_task_at_level(task, 1)
    }

    /// A task as a heading with `level` stars.
    pub fn write_task_at_level(task: &Task, level: usize) -> (r: String)
        ensures
            r@ == task_text(task@, level as nat),
    {
        let mut v: Vec<char> = Vec::new();
        push_task_text(&mut v, task, level);
        assert(v@ =~= task_text(task@, level as nat));
        string_of(v.as_slice())
    }

    /// `  - State "NEW" from "OLD" [timestamp]`.
    pub fn format_logbook_entry(new_state: &str, old_state: &str, timestamp: DateTime) -> (r:
        String)
        ensures
            r@ == logbook_entry_text(new_state@, old_state@, timestamp),
    {
        let mut v: Vec<char> = Vec::new();
        push_str(&mut v, "  - State \"");
        push_str(&mut v, new_state);
        push_str(&mut v, "\" from \"");
        push_str(&mut v, old_state);
        push_str(&mut v, "\" [");
        let s = timestamp.to_org_string();
        push_str(&mut v, s.as_str());
        v.push(']');
        proof {
            reveal_strlit("  - State \"");
            reveal_strlit("\" from \"");
            reveal_strlit("\" [");
            reveal_strlit("]");
        }
        assert(v@ =~= logbook_entry_text(new_state@, old_state@, timestamp));
        string_of(v.as_slice())
    }
}

pub open spec fn logbook_entry_text(new_state: Seq<char>, old_state: Seq<char>, t: DateTime) -> Seq<
    char,
> {
    "  - State \""@ + new_state + "\" from \""@ + old_state + "\" ["@ + dt_org(t) + "]"@
}

// ---------------------------------------------------------------------------
// List items, accounts, projects, notes, habits, day plans
// ---------------------------------------------------------------------------

/// The org text of a list item.
pub open spec fn list_item_text(item: ListItem) -> Seq<char> {
    (if item.done {
        "* DONE "@
    } else {
        "* "@
    }) + item.title@ + nl() + indent() + ":PROPERTIES:"@ + nl() + prop_line(
        "ID"@,
        uuid_text(item.id.value),
    ) + prop_line("CREATED"@, "["@ + dt_org(item.created) + "]"@) + indent() + ":END:"@ + nl()
        + body_text(item.notes@)
}

pub open spec fn list_items_text(items: Seq<ListItem>) -> Seq<char>
    decreases items.len(),
{
    if items.len() == 0 {
        seq![]
    } else {
        list_items_text(items.drop_last()) + list_item_text(items.last()) + nl()
    }
}

/// The org text of an account.
pub open spec fn account_text(a: Account) -> Seq<char> {
    "* "@ + a.name@ + nl() + indent() + ":PROPERTIES:"@ + nl() + prop_line(
        "ID"@,
        uuid_text(a.id.value),
    ) + (if a.url@.len() > 0 {
        prop_line("URL"@, a.url@)
    } else {
        seq![]
    }) + match a.last_checked {
        Some(d) => prop_line("LAST_CHECKED"@, "["@ + date_iso(d) + "]"@),
        None => seq![],
    } + indent() + ":END:"@ + nl() + body_text(a.notes@)
}

pub open spec fn accounts_text(accounts: Seq<Account>) -> Seq<char>
    decreases accounts.len(),
{
    if accounts.len() == 0 {
        seq![]
    } else {
        accounts_text(accounts.drop_last()) + account_text(accounts.last()) + nl()
    }
}

/// A property line written only for a non-empty value.
pub open spec fn nonempty_prop_line(key: Seq<char>, value: Seq<char>) -> Seq<char> {
    if value.len() > 0 {
        prop_line(key, value)
    } else {
        seq![]
    }
}

/// The org text of a project: its heading, property drawer, brainstorm
/// and its tasks at level 2, each followed by an empty line.
pub open spec fn project_text(p: Project) -> Seq<char> {
    project_head_text(p) + tasks_text(task_views(p.tasks@), 2)
}

/// A project's heading, property drawer and brainstorm.
pub open spec fn project_head_text(p: Project) -> Seq<char> {
    "* Project: "@ + p.name@ + nl() + indent() + ":PROPERTIES:"@ + nl() + prop_line(
        "ID"@,
        uuid_text(p.id.value),
    ) + nonempty_prop_line("PURPOSE"@, p.purpose@) + nonempty_prop_line("OUTCOME"@, p.outcome@)
        + indent() + ":END:"@ + nl() + body_text(p.brainstorm@)
}

pub open spec fn projects_text(ps: Seq<Project>) -> Seq<char>
    decreases ps.len(),
{
    if ps.len() == 0 {
        seq![]
    } else {
        projects_text(ps.drop_last()) + project_text(ps.last())
    }
}

fn push_list_item(v: &mut Vec<char>, item: &ListItem)
    ensures
        final(v)@ == old(v)@ + list_item_text(*item),
{
    proof {
        reveal_strlit("* DONE ");
        reveal_strlit("* ");
        reveal_strlit("  :PROPERTIES:\n");
        reveal_strlit(":PROPERTIES:");
        reveal_strlit("ID");
        reveal_strlit("CREATED");
        reveal_strlit("[");
        reveal_strlit("]");
        reveal_strlit("  :END:\n");
        reveal_strlit(":END:");
    }
    let ghost v0 = v@;
    if item.done {
        push_str(v, "* DONE ");
    } else {
        push_str(v, "* ");
    }
    push_str(v, item.title.as_str());
    v.push('\n');
    push_str(v, "  :PROPERTIES:\n");
    let id = item.id.to_string();
    push_prop_line(v, "ID", id.as_str());
    let created = bracketed(item.created.to_org_string().as_str());
    push_prop_line(v, "CREATED", created.as_str());
    push_str(v, "  :END:\n");
    let ghost v1 = v@;
    push_indented_lines(v, item.notes.as_str());
    assert(v1 =~= v0 + (list_item_text(*item).take(v1.len() - v0.len())));
    assert(final(v)@ =~= old(v)@ + list_item_text(*item));
}

/// `[text]`.
fn bracketed(text: &str) -> (r: String)
    ensures
        r@ == "["@ + text@ + "]"@,
{
    proof {
        reveal_strlit("[");
        reveal_strlit("]");
    }
    let mut c: Vec<char> = Vec::new();
    c.push('[');
    push_str(&mut c, text);
    c.push(']');
    assert(c@ =~= "["@ + text@ + "]"@);
    string_of(c.as_slice())
}

fn push_account(v: &mut Vec<char>, a: &Account)
    ensures
        final(v)@ == old(v)@ + account_text(*a),
{
    proof {
        reveal_strlit("* ");
        reveal_strlit("  :PROPERTIES:\n");
        reveal_strlit(":PROPERTIES:");
        reveal_strlit("ID");
        reveal_strlit("URL");
        reveal_strlit("LAST_CHECKED");
        reveal_strlit("  :END:\n");
        reveal_strlit(":END:");
    }
    let ghost v0 = v@;
    push_str(v, "* ");
    push_str(v, a.name.as_str());
    v.push('\n');
    push_str(v, "  :PROPERTIES:\n");
    let id = a.id.to_string();
    push_prop_line(v, "ID", id.as_str());
    let ghost v1 = v@;
    if a.url.unicode_len() > 0 {
        push_prop_line(v, "URL", a.url.as_str());
    }
    let ghost v2 = v@;
    match a.last_checked {
        Some(d) => {
            let b = bracketed(d.to_iso_string().as_str());
            push_prop_line(v, "LAST_CHECKED", b.as_str());
        },
        None => {},
    }
    push_str(v, "  :END:\n");
    let ghost v3 = v@;
    push_indented_lines(v, a.notes.as_str());
    assert(final(v)@ =~= old(v)@ + account_text(*a));
}

fn push_project_head(v: &mut Vec<char>, p: &Project)
    ensures
        final(v)@ == old(v)@ + project_head_text(*p),
{
    proof {
        reveal_strlit("* Project: ");
        reveal_strlit("  :PROPERTIES:\n");
        reveal_strlit(":PROPERTIES:");
        reveal_strlit("ID");
        reveal_strlit("PURPOSE");
        reveal_strlit("OUTCOME");
        reveal_strlit("  :END:\n");
        reveal_strlit(":END:");
    }
    push_str(v, "* Project: ");
    push_str(v, p.name.as_str());
    v.push('\n');
    push_str(v, "  :PROPERTIES:\n");
    let id = p.id.to_string();
    push_prop_line(v, "ID", id.as_str());
    if p.purpose.unicode_len() > 0 {
        push_prop_line(v, "PURPOSE", p.purpose.as_str());
    }
    if p.outcome.unicode_len() > 0 {
        push_prop_line(v, "OUTCOME", p.outcome.as_str());
    }
    push_str(v, "  :END:\n");
    push_indented_lines(v, p.brainstorm.as_str());
    assert(final(v)@ =~= old(v)@ + project_head_text(*p));
}

#[verifier::rlimit(30)]
fn push_project(v: &mut Vec<char>, p: &Project)
    ensures
        final(v)@ == old(v)@ + project_text(*p),
{
    let ghost v0 = v@;
    push_project_head(v, p);
    let ghost v1 = v@;
    let ghost tv = task_views(p.tasks@);
    let mut i: usize = 0;
    while i < p.tasks.len()
        invariant
            i <= p.tasks.len(),
            tv == task_views(p.tasks@),
            v@ == v1 + tasks_text(tv.take(i as int), 2),
        decreases p.tasks.len() - i,
    {
        push_task_text(v, &p.tasks[i], 2);
        v.push('\n');
        proof {
            assert(tv.take(i + 1).drop_last() =~= tv.take(i as int));
            assert(tv.take(i + 1).last() == p.tasks@[i as int]@);
            lemma_assoc3(v1, tasks_text(tv.take(i as int), 2), task_text(p.tasks@[i as int]@, 2), nl());
        }
        i = i + 1;
    }
    assert(tv.take(p.tasks.len() as int) =~= tv);
    proof {
        lemma_concat_associative(v0, project_head_text(*p), tasks_text(tv, 2));
    }
}

impl OrgWriter {
    /// The projects file: its header, then each project.
    pub fn write_projects_file(projects: &Vec<Project>) -> (r: String)
        ensures
            r@ == file_header("Projects"@) + projects_text(projects@),
    {
        proof {
            reveal_strlit("#+TITLE: Projects\n#+TODO: TODO NEXT WAITING SOMEDAY | DONE CANCELLED\n\n");
            reveal_strlit("Projects");
            reveal_strlit("#+TITLE: ");
            reveal_strlit("#+TODO: TODO NEXT WAITING SOMEDAY | DONE CANCELLED");
        }
        let mut v: Vec<char> = Vec::new();
        push_str(&mut v, "#+TITLE: Projects\n#+TODO: TODO NEXT WAITING SOMEDAY | DONE CANCELLED\n\n");
        assert(v@ =~= file_header("Projects"@));
        let ghost start = v@;
        let mut i: usize = 0;
        while i < projects.len()
            invariant
                i <= projects.len(),
                v@ == start + projects_text(projects@.take(i as int)),
            decreases projects.len() - i,
        {
            let ghost before = v@;
            push_project(&mut v, &projects[i]);
            proof {
                assert(projects@.take(i + 1).drop_last() =~= projects@.take(i as int));
                lemma_concat_associative(start, projects_text(projects@.take(i as int)), project_text(projects@[i as int]));
            }
            i = i + 1;
        }
        assert(projects@.take(projects.len() as int) =~= projects@);
        string_of(v.as_slice())
    }

    /// A list file: the title line, an empty line, then each item followed
    /// by an empty line.
    pub fn write_list_items_file(title: &str, items: &Vec<ListItem>) -> (r: String)
        ensures
            r@ == "#+TITLE: "@ + title@ + nl() + nl() + list_items_text(items@),
    {
        proof {
            reveal_strlit("#+TITLE: ");
        }
        let mut v: Vec<char> = Vec::new();
        push_str(&mut v, "#+TITLE: ");
        push_str(&mut v, title);
        v.push('\n');
        v.push('\n');
        let ghost start = v@;
        assert(start =~= "#+TITLE: "@ + title@ + nl() + nl());
        let mut i: usize = 0;
        while i < items.len()
            invariant
                i <= items.len(),
                v@ == start + list_items_text(items@.take(i as int)),
            decreases items.len() - i,
        {
            push_list_item(&mut v, &items[i]);
            v.push('\n');
            proof {
                assert(items@.take(i + 1).drop_last() =~= items@.take(i as int));
                lemma_assoc3(start, list_items_text(items@.take(i as int)), list_item_text(items@[i as int]), nl());
            }
            i = i + 1;
        }
        assert(items@.take(items.len() as int) =~= items@);
        string_of(v.as_slice())
    }

    /// A list item as a level-1 heading.
    pub fn write_list_item(item: &ListItem) -> (r: String)
        ensures
            r@ == list_item_text(*item),
    {
        let mut v: Vec<char> = Vec::new();
        push_list_item(&mut v, item);
        assert(v@ =~= list_item_text(*item));
        string_of(v.as_slice())
    }

    /// The accounts file.
    pub fn write_accounts_file(accounts: &Vec<Account>) -> (r: String)
        ensures
            r@ == "#+TITLE: Accounts"@ + nl() + nl() + accounts_text(accounts@),
    {
        proof {
            reveal_strlit("#+TITLE: Accounts");
        }
        let mut v: Vec<char> = Vec::new();
        push_str(&mut v, "#+TITLE: Accounts");
        v.push('\n');
        v.push('\n');
        let ghost start = v@;
        let mut i: usize = 0;
        while i < accounts.len()
            invariant
                i <= accounts.len(),
                v@ == start + accounts_text(accounts@.take(i as int)),
            decreases accounts.len() - i,
        {
            push_account(&mut v, &accounts[i]);
            v.push('\n');
            proof {
                assert(accounts@.take(i + 1).drop_last() =~= accounts@.take(i as int));
                lemma_assoc3(start, accounts_text(accounts@.take(i as int)), account_text(accounts@[i as int]), nl());
            }
            i = i + 1;
        }
        assert(accounts@.take(accounts.len() as int) =~= accounts@);
        string_of(v.as_slice())
    }

    /// An account as a level-1 heading.
    pub fn write_account(account: &Account) -> (r: String)
        ensures
            r@ == account_text(*account),
    {
        let mut v: Vec<char> = Vec::new();
        push_account(&mut v, account);
        assert(v@ =~= account_text(*account));
        string_of(v.as_slice())
    }
}

// ---------------------------------------------------------------------------
// Notes, habits and day plans
// ---------------------------------------------------------------------------

pub open spec fn link_texts(ls: Seq<LinkTarget>) -> Seq<Seq<char>> {
    ls.map_values(|l: LinkTarget| link_text(l))
}

/// The org text of a note.
pub open spec fn note_text(n: Note) -> Seq<char> {
    note_head_text(n) + note_extra_text(n) + indent() + ":END:"@ + nl() + body_text(n.body@)
}

/// A note's headline and its fixed properties.
pub open spec fn note_head_text(n: Note) -> Seq<char> {
    "* "@ + n.title@ + tags_text(strs(n.tags@)) + nl() + indent() + ":PROPERTIES:"@ + nl() + prop_line(
        "ID"@,
        uuid_text(n.id.value),
    ) + prop_line("CREATED"@, "["@ + dt_org(n.created) + "]"@) + prop_line(
        "MODIFIED"@,
        "["@ + dt_org(n.modified) + "]"@,
    )
}

/// The source, links and etag lines of a note.
pub open spec fn note_extra_text(n: Note) -> Seq<char> {
    opt_prop_line(
        "SOURCE"@,
        match n.source {
            Some(x) => Some(x@),
            None => None,
        },
    ) + (if n.links@.len() > 0 {
        prop_line("LINKS"@, join(link_texts(n.links@), " "@))
    } else {
        seq![]
    }) + opt_prop_line(
        "SYNC_ETAG"@,
        match n.sync_etag {
            Some(x) => Some(x@),
            None => None,
        },
    )
}

fn push_note_extra(v: &mut Vec<char>, n: &Note)
    ensures
        final(v)@ == old(v)@ + note_extra_text(*n),
{
    proof {
        reveal_strlit("SOURCE");
        reveal_strlit("LINKS");
        reveal_strlit("SYNC_ETAG");
        reveal_strlit(" ");
    }
    let ghost v0 = v@;
    push_opt_prop_line(v, "SOURCE", opt_string_copy(&n.source));
    let ghost v1 = v@;
    if n.links.len() > 0 {
        let mut texts: Vec<String> = Vec::new();
        let mut i: usize = 0;
        while i < n.links.len()
            invariant
                i <= n.links.len(),
                texts@.map_values(|s: String| s@) =~= link_texts(n.links@).take(i as int),
            decreases n.links.len() - i,
        {
            let ghost before = texts@;
            texts.push(n.links[i].to_org());
            assert(texts@.map_values(|s: String| s@) =~= before.map_values(|s: String| s@).push(
                link_text(n.links@[i as int]),
            ));
            i = i + 1;
        }
        assert(link_texts(n.links@).take(n.links.len() as int) =~= link_texts(n.links@));
        let mut line: Vec<char> = Vec::new();
        push_joined(&mut line, &texts, " ");
        let joined = string_of(line.as_slice());
        assert(joined@ =~= join(link_texts(n.links@), " "@));
        push_prop_line(v, "LINKS", joined.as_str());
    }
    let ghost v2 = v@;
    push_opt_prop_line(v, "SYNC_ETAG", opt_string_copy(&n.sync_etag));
    assert(final(v)@ =~= old(v)@ + note_extra_text(*n));
}

fn push_note_head(v: &mut Vec<char>, n: &Note)
    ensures
        final(v)@ == old(v)@ + note_head_text(*n),
{
    proof {
        reveal_strlit("* ");
        reveal_strlit("  :PROPERTIES:\n");
        reveal_strlit(":PROPERTIES:");
        reveal_strlit("ID");
        reveal_strlit("CREATED");
        reveal_strlit("MODIFIED");
    }
    push_str(v, "* ");
    push_str(v, n.title.as_str());
    push_tags(v, &n.tags);
    v.push('\n');
    push_str(v, "  :PROPERTIES:\n");
    let id = n.id.to_string();
    push_prop_line(v, "ID", id.as_str());
    let c = bracketed(n.created.to_org_string().as_str());
    push_prop_line(v, "CREATED", c.as_str());
    let m = bracketed(n.modified.to_org_string().as_str());
    push_prop_line(v, "MODIFIED", m.as_str());
    assert(final(v)@ =~= old(v)@ + note_head_text(*n));
}

fn push_note(v: &mut Vec<char>, n: &Note)
    ensures
        final(v)@ == old(v)@ + note_text(*n),
{
    proof {
        reveal_strlit("  :END:\n");
        reveal_strlit(":END:");
    }
    let ghost v0 = v@;
    push_note_head(v, n);
    push_note_extra(v, n);
    let ghost v2 = v@;
    push_str(v, "  :END:\n");
    assert(v@ =~= v2 + indent() + ":END:"@ + nl());
    push_indented_lines(v, n.body.as_str());
    assert(final(v)@ =~= old(v)@ + note_text(*n));
}

/// `  - item` lines.
pub open spec fn item_lines(items: Seq<Seq<char>>) -> Seq<char>
    decreases items.len(),
{
    if items.len() == 0 {
        seq![]
    } else {
        item_lines(items.drop_last()) + "  - "@ + items.last() + nl()
    }
}

pub open spec fn uuid_texts(ids: Seq<Uuid>) -> Seq<Seq<char>> {
    ids.map_values(|id: Uuid| uuid_text(id.value))
}

/// `uuid | title | esc` (the spoons empty when unknown).
pub open spec fn completed_line(c: CompletedTask) -> Seq<char> {
    uuid_text(c.id.value) + " | "@ + c.title@ + " | "@ + match c.esc {
        Some(e) => decimal(e as nat),
        None => seq![],
    }
}

pub open spec fn completed_lines(cs: Seq<CompletedTask>) -> Seq<Seq<char>> {
    cs.map_values(|c: CompletedTask| completed_line(c))
}

fn push_item_lines(v: &mut Vec<char>, items: &Vec<String>)
    ensures
        final(v)@ == old(v)@ + item_lines(items@.map_values(|s: String| s@)),
{
    proof {
        reveal_strlit("  - ");
    }
    let ghost iv = items@.map_values(|s: String| s@);
    let ghost start = v@;
    let mut i: usize = 0;
    while i < items.len()
        invariant
            i <= items.len(),
            iv == items@.map_values(|s: String| s@),
            v@ == start + item_lines(iv.take(i as int)),
        decreases items.len() - i,
    {
        push_str(v, "  - ");
        push_str(v, items[i].as_str());
        v.push('\n');
        proof {
            assert(iv.take(i + 1).drop_last() =~= iv.take(i as int));
            assert(iv.take(i + 1).last() == items@[i as int]@);
            assert(v@ =~= start + item_lines(iv.take(i + 1)));
        }
        i = i + 1;
    }
    assert(iv.take(items.len() as int) =~= iv);
}

fn uuid_strings(ids: &Vec<Uuid>) -> (r: Vec<String>)
    ensures
        r@.map_values(|s: String| s@) == uuid_texts(ids@),
{
    let mut r: Vec<String> = Vec::new();
    let mut i: usize = 0;
    while i < ids.len()
        invariant
            i <= ids.len(),
            r@.map_values(|s: String| s@) =~= uuid_texts(ids@).take(i as int),
        decreases ids.len() - i,
    {
        let ghost before = r@;
        r.push(ids[i].to_string());
        assert(r@.map_values(|s: String| s@) =~= before.map_values(|s: String| s@).push(
            uuid_text(ids@[i as int].value),
        ));
        i = i + 1;
    }
    assert(uuid_texts(ids@).take(ids.len() as int) =~= uuid_texts(ids@));
    r
}

fn completed_strings(cs: &Vec<CompletedTask>) -> (r: Vec<String>)
    ensures
        r@.map_values(|s: String| s@) == completed_lines(cs@),
{
    proof {
        reveal_strlit(" | ");
    }
    let mut r: Vec<String> = Vec::new();
    let mut i: usize = 0;
    while i < cs.len()
        invariant
            i <= cs.len(),
            " | "@.len() == 3,
            r@.map_values(|s: String| s@) =~= completed_lines(cs@).take(i as int),
        decreases cs.len() - i,
    {
        let c = &cs[i];
        let mut line: Vec<char> = Vec::new();
        let id = c.id.to_string();
        push_str(&mut line, id.as_str());
        push_str(&mut line, " | ");
        push_str(&mut line, c.title.as_str());
        push_str(&mut line, " | ");
        match c.esc {
            Some(e) => push_decimal(&mut line, e as u64),
            None => {},
        }
        assert(line@ =~= completed_line(*c));
        let ghost before = r@;
        r.push(string_of(line.as_slice()));
        assert(r@.map_values(|s: String| s@) =~= before.map_values(|s: String| s@).push(
            completed_line(cs@[i as int]),
        ));
        i = i + 1;
    }
    assert(completed_lines(cs@).take(cs.len() as int) =~= completed_lines(cs@));
    r
}

/// The keyword lines of a day plan.
pub open spec fn day_plan_header(p: DayPlan) -> Seq<char> {
    "#+TITLE: Day Plan"@ + nl() + "#+DATE: "@ + date_iso(p.date) + nl() + "#+SPOON_BUDGET: "@
        + decimal(p.spoon_budget as nat) + nl() + "#+SPENT_SPOONS: "@ + decimal(
        p.spent_spoons as nat,
    ) + nl() + nl()
}

/// The sections of a day plan file, after its keyword lines.
pub open spec fn day_plan_sections(p: DayPlan) -> Seq<char> {
    section_text("* Active Contexts"@, strs(p.active_contexts@)) + nl() + section_text(
        "* Confirmed Tasks"@,
        uuid_texts(p.confirmed_task_ids@),
    ) + nl() + section_text("* Completed Tasks"@, completed_lines(p.completed_tasks@)) + nl()
        + section_text("* Picked Media"@, uuid_texts(p.picked_media_ids@)) + nl() + section_text(
        "* Picked Shopping"@,
        uuid_texts(p.picked_shopping_ids@),
    )
}

/// `* title` and the items of a section.
pub open spec fn section_text(title: Seq<char>, items: Seq<Seq<char>>) -> Seq<char> {
    title + nl() + item_lines(items)
}

fn push_section(v: &mut Vec<char>, title: &str, items: &Vec<String>)
    ensures
        final(v)@ == old(v)@ + section_text(title@, items@.map_values(|s: String| s@)),
{
    push_str(v, title);
    v.push('\n');
    push_item_lines(v, items);
    assert(final(v)@ =~= old(v)@ + section_text(title@, items@.map_values(|s: String| s@)));
}

impl OrgWriter {
    /// A note as its own file: the title line, an empty line, the note.
    pub fn write_note_file(note: &Note) -> (r: String)
        ensures
            r@ == "#+TITLE: "@ + note.title@ + nl() + nl() + note_text(*note),
    {
        proof {
            reveal_strlit("#+TITLE: ");
        }
        let mut v: Vec<char> = Vec::new();
        push_str(&mut v, "#+TITLE: ");
        push_str(&mut v, note.title.as_str());
        v.push('\n');
        v.push('\n');
        push_note(&mut v, note);
        assert(v@ =~= "#+TITLE: "@ + note.title@ + nl() + nl() + note_text(*note));
        string_of(v.as_slice())
    }

    /// A note as a level-1 heading.
    pub fn write_note(note: &Note) -> (r: String)
        ensures
            r@ == note_text(*note),
    {
        let mut v: Vec<char> = Vec::new();
        push_note(&mut v, note);
        assert(v@ =~= note_text(*note));
        string_of(v.as_slice())
    }

    /// The day plan file.
    pub fn write_day_plan(plan: &DayPlan) -> (r: String)
        ensures
            r@ == day_plan_header(*plan) + day_plan_sections(*plan),
    {
        proof {
            reveal_strlit("#+TITLE: Day Plan");
            reveal_strlit("#+DATE: ");
            reveal_strlit("#+SPOON_BUDGET: ");
            reveal_strlit("#+SPENT_SPOONS: ");
        }
        let mut v: Vec<char> = Vec::new();
        push_str(&mut v, "#+TITLE: Day Plan");
        v.push('\n');
        push_str(&mut v, "#+DATE: ");
        let d = plan.date.to_iso_string();
        push_str(&mut v, d.as_str());
        v.push('\n');
        push_str(&mut v, "#+SPOON_BUDGET: ");
        push_decimal(&mut v, plan.spoon_budget as u64);
        v.push('\n');
        push_str(&mut v, "#+SPENT_SPOONS: ");
        push_decimal(&mut v, plan.spent_spoons as u64);
        v.push('\n');
        v.push('\n');
        assert(v@ =~= day_plan_header(*plan));
        let ghost h = v@;
        push_section(&mut v, "* Active Contexts", &plan.active_contexts);
        v.push('\n');
        let ghost a = v@;
        let ids = uuid_strings(&plan.confirmed_task_ids);
        push_section(&mut v, "* Confirmed Tasks", &ids);
        v.push('\n');
        let ghost b = v@;
        let cs = completed_strings(&plan.completed_tasks);
        push_section(&mut v, "* Completed Tasks", &cs);
        v.push('\n');
        let ghost c = v@;
        let media = uuid_strings(&plan.picked_media_ids);
        push_section(&mut v, "* Picked Media", &media);
        v.push('\n');
        let shopping = uuid_strings(&plan.picked_shopping_ids);
        push_section(&mut v, "* Picked Shopping", &shopping);
        string_of(v.as_slice())
    }
}

/// A habit's tags: its contexts, and `habit` when not among them.
pub open spec fn habit_tags(t: TaskView) -> Seq<Seq<char>> {
    if t.contexts.contains("habit"@) {
        t.contexts
    } else {
        t.contexts.push("habit"@)
    }
}

/// Logbook lines, newest first.
pub open spec fn logbook_lines(cs: Seq<DateTime>) -> Seq<char>
    decreases cs.len(),
{
    if cs.len() == 0 {
        seq![]
    } else {
        logbook_entry_text("DONE"@, "TODO"@, cs.last()) + nl() + logbook_lines(cs.drop_last())
    }
}

/// The org text of a habit: headline with its tags, the scheduled
/// timestamp, the property drawer with `STYLE: habit`, and the logbook of
/// completions (newest first) when there are any.
pub open spec fn habit_text(t: TaskView, cs: Seq<DateTime>) -> Seq<char> {
    habit_head_text(t) + habit_sched_text(t) + habit_props_text(t) + habit_logbook_text(cs)
}

pub open spec fn habit_head_text(t: TaskView) -> Seq<char> {
    "* "@ + keyword_of(t.state) + " "@ + t.title + " :"@ + join(habit_tags(t), ":"@) + ":"@ + nl()
}

pub open spec fn habit_sched_text(t: TaskView) -> Seq<char> {
    match t.scheduled {
        Some(d) => indent() + stamp_text("SCHEDULED:"@, d, t.recurrence) + nl(),
        None => seq![],
    }
}

pub open spec fn habit_props_text(t: TaskView) -> Seq<char> {
    indent() + ":PROPERTIES:"@ + nl() + prop_line("ID"@, uuid_text(t.id.value)) + prop_line(
        "STYLE"@,
        "habit"@,
    ) + prop_line("CREATED"@, "["@ + dt_org(t.created) + "]"@) + indent() + ":END:"@ + nl()
}

pub open spec fn habit_logbook_text(cs: Seq<DateTime>) -> Seq<char> {
    if cs.len() > 0 {
        indent() + ":LOGBOOK:"@ + nl() + logbook_lines(cs) + indent() + ":END:"@ + nl()
    } else {
        seq![]
    }
}

fn push_habit_head(v: &mut Vec<char>, task: &Task)
    ensures
        final(v)@ == old(v)@ + habit_head_text(task@),
{
    proof {
        reveal_strlit("* ");
        reveal_strlit(" ");
        reveal_strlit(" :");
        reveal_strlit(":");
    }
    push_str(v, "* ");
    push_str(v, task.state.as_keyword());
    v.push(' ');
    push_str(v, task.title.as_str());
    let mut tags = crate::org::convert::clone_strings(&task.contexts);
    let present = crate::org::convert::contains_str(&task.contexts, "habit");
    if !present {
        let ghost before = tags@;
        tags.push("habit".to_owned());
        assert(strs(tags@) =~= strs(before).push("habit"@));
    }
    assert(strs(tags@) == habit_tags(task@));
    push_str(v, " :");
    push_joined(v, &tags, ":");
    v.push(':');
    v.push('\n');
    assert(final(v)@ =~= old(v)@ + habit_head_text(task@));
}

fn push_habit_sched(v: &mut Vec<char>, task: &Task)
    ensures
        final(v)@ == old(v)@ + habit_sched_text(task@),
{
    proof {
        reveal_strlit("  ");
        reveal_strlit("SCHEDULED:");
    }
    match task.scheduled {
        Some(d) => {
            push_str(v, "  ");
            let st = stamp_string("SCHEDULED:", &d, &task.recurrence);
            push_str(v, st.as_str());
            v.push('\n');
            assert(final(v)@ =~= old(v)@ + habit_sched_text(task@));
        },
        None => {
            assert(final(v)@ =~= old(v)@ + habit_sched_text(task@));
        },
    }
}

fn push_habit_props(v: &mut Vec<char>, task: &Task)
    ensures
        final(v)@ == old(v)@ + habit_props_text(task@),
{
    proof {
        reveal_strlit("  :PROPERTIES:\n");
        reveal_strlit(":PROPERTIES:");
        reveal_strlit("ID");
        reveal_strlit("STYLE");
        reveal_strlit("habit");
        reveal_strlit("CREATED");
        reveal_strlit("  :END:\n");
        reveal_strlit(":END:");
    }
    push_str(v, "  :PROPERTIES:\n");
    let id = task.id.to_string();
    push_prop_line(v, "ID", id.as_str());
    push_prop_line(v, "STYLE", "habit");
    let c = bracketed(task.created.to_org_string().as_str());
    push_prop_line(v, "CREATED", c.as_str());
    push_str(v, "  :END:\n");
    assert(final(v)@ =~= old(v)@ + habit_props_text(task@));
}

fn push_habit_logbook(v: &mut Vec<char>, cs: &Vec<DateTime>)
    ensures
        final(v)@ == old(v)@ + habit_logbook_text(cs@),
{
    proof {
        reveal_strlit("  :LOGBOOK:\n");
        reveal_strlit(":LOGBOOK:");
        reveal_strlit("  :END:\n");
        reveal_strlit(":END:");
    }
    if cs.len() > 0 {
        let ghost v0 = v@;
        push_str(v, "  :LOGBOOK:\n");
        let ghost v1 = v@;
        push_logbook_lines(v, cs);
        let ghost v2 = v@;
        push_str(v, "  :END:\n");
        assert(v1 =~= v0 + indent() + ":LOGBOOK:"@ + nl());
        assert(final(v)@ =~= old(v)@ + habit_logbook_text(cs@));
    } else {
        assert(final(v)@ =~= old(v)@ + habit_logbook_text(cs@));
    }
}

fn push_logbook_lines(v: &mut Vec<char>, cs: &Vec<DateTime>)
    ensures
        final(v)@ == old(v)@ + logbook_lines(cs@),
{
    proof {
        reveal_strlit("DONE");
        reveal_strlit("TODO");
    }
    let ghost start = v@;
    let mut i: usize = cs.len();
    assert(cs@.take(cs.len() as int) =~= cs@);
    while i > 0
        invariant
            i <= cs.len(),
            v@ + logbook_lines(cs@.take(i as int)) == start + logbook_lines(cs@),
        decreases i,
    {
        let e = OrgWriter::format_logbook_entry("DONE", "TODO", cs[i - 1]);
        let ghost before = v@;
        push_str(v, e.as_str());
        v.push('\n');
        proof {
            let t = cs@.take(i as int);
            assert(t.drop_last() =~= cs@.take(i - 1));
            assert(t.last() == cs@[i - 1]);
            assert(logbook_lines(t) == e@ + nl() + logbook_lines(cs@.take(i - 1)));
            assert(v@ == before + e@ + nl());
            assert(v@ + logbook_lines(cs@.take(i - 1)) =~= before + logbook_lines(t));
        }
        i = i - 1;
    }
    assert(logbook_lines(cs@.take(0)) =~= Seq::<char>::empty());
    assert(v@ =~= start + logbook_lines(cs@));
}

impl OrgWriter {
    /// A habit with its completions.
    pub fn write_habit_task(task: &Task, completions: &Vec<DateTime>) -> (r: String)
        ensures
            r@ == habit_text(task@, completions@),
    {
        proof {
            reveal_strlit("  ");
            reveal_strlit("SCHEDULED:");
            reveal_strlit("  :PROPERTIES:\n");
            reveal_strlit(":PROPERTIES:");
            reveal_strlit("ID");
            reveal_strlit("STYLE");
            reveal_strlit("habit");
            reveal_strlit("CREATED");
            reveal_strlit("  :END:\n");
            reveal_strlit(":END:");
            reveal_strlit("  :LOGBOOK:\n");
            reveal_strlit(":LOGBOOK:");
        }
        let mut v: Vec<char> = Vec::new();
        push_habit_head(&mut v, task);
        push_habit_sched(&mut v, task);
        push_habit_props(&mut v, task);
        push_habit_logbook(&mut v, completions);
        assert(v@ =~= habit_text(task@, completions@));
        string_of(v.as_slice())
    }
}

} // verus!
