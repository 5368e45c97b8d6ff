//! What reading gives back of writing: the headline of a task, as the
//! writer puts it down, is read back with its level, state, priority,
//! title and tags.

use vstd::prelude::*;

use crate::model::task::{keyword_of, priority_cookie, Priority, TaskView};
use crate::org::headline::{
    after_state, cookie_at, headline, is_tag_list, keyword_at, stars_from, tag_suffix_at, title_at,
    title_end_from, HeadlineSpec,
};
use crate::dates::{
    date_iso, date_wday, dt_org, lemma_date_iso_safe, lemma_dt_org_safe, lemma_digits_safe, lemma_safe_cat, lemma_wday_text, line_safe,
    max_day, min_day, Date,
};
use crate::model::recurrence::{interval_of, recurrence_text, unit_letter, Recurrence};
use crate::ids::{lemma_uuid_text_roundtrip, uuid_text};
use crate::org::writer::{
    body_text, closed_text, indented_lines, planning_text, task_text, extra_props_text, indent, gtd_props_text, sync_props_text, headline_text, nl, opt_date_iso, opt_decimal, opt_prop_line, opt_u32_decimal, prop_line, props_text, stamp_text,
    stars, tags_text, headline_tags,
};
use crate::text::{
    find_from, is_ws, join, lemma_decimal_digits, lemma_lines_nl_text, decimal, lines, plain_line, trimmed, lemma_find_from_at, lemma_find_from_none, lemma_nl_text_append, lemma_skip_ws_from,
    nl_text, skip_ws_from, split_on,
};

verus! {

/// A title the headline grammar reads back as written: not empty, no
/// whitespace at either end or directly before a colon, and, when no
/// priority is written, no leading cookie that would be read as one.
pub open spec fn title_reads_back(title: Seq<char>, priority: Option<Priority>, tags: Seq<Seq<char>>) -> bool {
    &&& title.len() > 0
    &&& !is_ws(title[0])
    &&& !is_ws(title.last())
    &&& forall|i: int| 0 <= i < title.len() - 1 && is_ws(#[trigger] title[i]) ==> title[i + 1] != ':'
    &&& (priority is None && cookie_at(title, 0) is Some) ==> ((title.len() > 4 && !is_ws(title[4])) || (
    title.len() == 4 && tags.len() == 0))
}

/// Tags the grammar reads back: none empty, none with a colon.
pub open spec fn tags_read_back(tags: Seq<Seq<char>>) -> bool {
    &&& forall|k: int| 0 <= k < tags.len() ==> (#[trigger] tags[k]).len() > 0
    &&& forall|k: int, i: int| 0 <= k < tags.len() && 0 <= i < tags[k].len() ==> #[trigger] tags[k][i] != ':'
}

proof fn lemma_join_front(ts: Seq<Seq<char>>, sep: Seq<char>)
    requires
        ts.len() >= 2,
    ensures
        join(ts, sep) == ts[0] + sep + join(ts.skip(1), sep),
    decreases ts.len(),
{
    if ts.len() == 2 {
        assert(ts.drop_last().len() == 1);
        assert(ts.skip(1).len() == 1);
        assert(join(ts.drop_last(), sep) == ts[0]);
        assert(join(ts.skip(1), sep) == ts[1]);
    } else {
        lemma_join_front(ts.drop_last(), sep);
        assert(ts.drop_last().skip(1) =~= ts.skip(1).drop_last());
        assert(ts.skip(1).last() == ts.last());
        assert(join(ts.skip(1), sep) == join(ts.skip(1).drop_last(), sep) + sep + ts.skip(1).last());
        assert(join(ts, sep) =~= ts[0] + sep + join(ts.skip(1), sep));
    }
}

proof fn lemma_split_join(ts: Seq<Seq<char>>)
    requires
        ts.len() >= 1,
        tags_read_back(ts),
    ensures
        split_on(join(ts, seq![':']), ':') == ts,
    decreases ts.len(),
{
    let t0 = ts[0];
    assert forall|i: int| 0 <= i < t0.len() implies #[trigger] t0[i] != ':' by {
        assert(ts[0][i] != ':');
    }
    if ts.len() == 1 {
        lemma_find_from_none(t0, ':', 0);
        assert(join(ts, seq![':']) == t0);
        assert(seq![t0] =~= ts);
    } else {
        let rest = ts.skip(1);
        assert(tags_read_back(rest)) by {
            assert forall|k: int| 0 <= k < rest.len() implies (#[trigger] rest[k]).len() > 0 by {
                assert(rest[k] == ts[k + 1]);
            }
            assert forall|k: int, i: int| 0 <= k < rest.len() && 0 <= i < rest[k].len() implies #[trigger] rest[k][i]
                != ':' by {
                assert(rest[k] == ts[k + 1]);
            }
        }
        lemma_split_join(rest);
        lemma_join_front(ts, seq![':']);
        let x = join(ts, seq![':']);
        let jr = join(rest, seq![':']);
        assert(x == t0 + seq![':'] + jr);
        assert forall|i: int| 0 <= i < t0.len() implies #[trigger] x[i] != ':' by {
            assert(x[i] == t0[i]);
        }
        lemma_find_from_at(x, ':', 0, t0.len() as int);
        assert(x.take(t0.len() as int) =~= t0);
        assert(x.skip(t0.len() + 1int) =~= jr);
        assert(seq![t0] + rest =~= ts);
    }
}

proof fn lemma_join_tag_list(ts: Seq<Seq<char>>)
    requires
        ts.len() >= 1,
        tags_read_back(ts),
    ensures
        is_tag_list(join(ts, seq![':'])),
        join(ts, seq![':']).len() >= 1,
    decreases ts.len(),
{
    let last = ts.last();
    assert(last.len() > 0);
    assert(last[0] != ':' && last.last() != ':') by {
        assert(ts[ts.len() - 1][0] != ':');
        assert(ts[ts.len() - 1][last.len() - 1] != ':');
    }
    if ts.len() == 1 {
        assert(join(ts, seq![':']) == ts[0]);
        assert forall|i: int| 0 <= i < last.len() - 1 && #[trigger] last[i] == ':' implies last[i + 1] != ':' by {
            assert(ts[0][i] != ':');
        }
    } else {
        let init = ts.drop_last();
        assert(tags_read_back(init)) by {
            assert forall|k: int| 0 <= k < init.len() implies (#[trigger] init[k]).len() > 0 by {
                assert(init[k] == ts[k]);
            }
            assert forall|k: int, i: int| 0 <= k < init.len() && 0 <= i < init[k].len() implies #[trigger] init[k][i]
                != ':' by {
                assert(init[k] == ts[k]);
            }
        }
        lemma_join_tag_list(init);
        let a = join(init, seq![':']);
        let x = join(ts, seq![':']);
        assert(x == a + seq![':'] + last);
        let m = a.len() as int;
        assert forall|i: int| 0 <= i < x.len() - 1 && #[trigger] x[i] == ':' implies x[i + 1] != ':' by {
            if i < m - 1 {
                assert(x[i] == a[i] && x[i + 1] == a[i + 1]);
            } else if i == m - 1 {
                assert(x[i] == a.last());
            } else if i == m {
                assert(x[i + 1] == last[0]);
            } else {
                assert(x[i] == last[i - m - 1]);
                assert(ts[ts.len() - 1][i - m - 1] != ':');
            }
        }
        assert(x[0] == a[0]);
        assert(x.last() == last.last());
    }
}

proof fn lemma_stars_from(s: Seq<char>, i: int, n: int)
    requires
        0 <= i <= n < s.len(),
        forall|j: int| i <= j < n ==> #[trigger] s[j] == '*',
        s[n] != '*',
    ensures
        stars_from(s, i) == n,
    decreases n - i,
{
    if i < n {
        lemma_stars_from(s, i + 1, n);
    }
}

/// No place inside the title starts a tag suffix, and the title ends where
/// the tags (or the line) start.
proof fn lemma_title_end(s: Seq<char>, q: int, title: Seq<char>, priority: Option<Priority>, tags: Seq<Seq<char>>, e: int)
    requires
        title_reads_back(title, priority, tags),
        0 <= q,
        q + title.len() <= s.len(),
        s.subrange(q, q + title.len()) == title,
        q + 1 <= e <= q + title.len(),
        title_end_from(s, q + title.len()) == q + title.len(),
    ensures
        title_end_from(s, e) == q + title.len(),
    decreases q + title.len() - e,
{
    let tl = title.len() as int;
    if e < q + tl {
        assert(s[e] == title[e - q]);
        let j = skip_ws_from(s, e);
        lemma_skip_ws_from(s, e);
        if is_ws(s[e]) {
            assert(s[q + tl - 1] == title.last());
            if j > q + tl - 1 {
                assert(is_ws(s[q + tl - 1]));
            }
            assert(j <= q + tl - 1);
            assert(is_ws(s[j - 1]));
            assert(s[j - 1] == title[j - 1 - q]);
            assert(s[j] == title[j - q]);
            assert(title[j - q] != ':');
        }
        assert(!tag_suffix_at(s, e));
        lemma_title_end(s, q, title, priority, tags, e + 1);
    }
}

/// The start of a written headline: the stars, a space, the keyword and a
/// space before a non-blank rest.
proof fn lemma_headline_start(s: Seq<char>, level: nat, t: TaskView, rest: Seq<char>)
    requires
        level >= 1,
        rest.len() > 0,
        !is_ws(rest[0]),
        s == stars(level) + seq![' '] + keyword_of(t.state) + seq![' '] + rest,
    ensures
        headline(s) == Some(
            crate::org::headline::headline_with(
                s,
                level as int,
                Some(t.state),
                (level + 2 + keyword_of(t.state).len()) as int,
            ),
        ),
{
    let kw = keyword_of(t.state);
    let n = level as int;
    let p = n + 1;
    let k = p + kw.len();
    let p2 = k + 1;
    assert forall|j: int| 0 <= j < n implies #[trigger] s[j] == '*' by {
        assert(s[j] == stars(level)[j]);
    }
    assert(s[n] == ' ');
    lemma_stars_from(s, 0, n);
    assert(s.subrange(p, k) =~= kw);
    assert(s[p] == kw[0]);
    assert(skip_ws_from(s, n + 1) == p);
    assert(skip_ws_from(s, n) == p);
    assert(keyword_at(s, p) == Some(t.state));
    assert(s[k] == ' ');
    assert(s[p2] == rest[0]);
    assert(skip_ws_from(s, p2) == p2);
    assert(skip_ws_from(s, k) == p2);
}

/// After the keyword: the priority as written, and where the title starts.
proof fn lemma_headline_priority(s: Seq<char>, pre: Seq<char>, t: TaskView)
    requires
        title_reads_back(t.title, t.priority, headline_tags(t)),
        s == pre + match t.priority {
            Some(p) => priority_cookie(p) + seq![' '],
            None => Seq::<char>::empty(),
        } + t.title + tags_text(headline_tags(t)),
    ensures
        after_state(s, pre.len() as int) == (t.priority, pre.len() + match t.priority {
            Some(p) => 5int,
            None => 0int,
        }),
{
    reveal_strlit(" :");
    let p2 = pre.len() as int;
    let title = t.title;
    let tt = tags_text(headline_tags(t));
    let tl = title.len() as int;
    match t.priority {
        Some(pr) => {
            let q = p2 + 5;
            let pc = priority_cookie(pr) + seq![' '];
            assert(s == pre + pc + title + tt);
            assert(s.len() == q + tl + tt.len());
            assert(s.subrange(p2, p2 + 4) =~= priority_cookie(pr));
            assert(s[p2] == '[' && s[p2 + 1] == '#' && s[p2 + 3] == ']' && s[p2 + 2] == priority_cookie(pr)[2]);
            assert(cookie_at(s, p2) == Some(pr));
            assert(s[p2 + 4] == ' ');
            assert(s[q] == title[0]);
            assert(skip_ws_from(s, q) == q);
            assert(skip_ws_from(s, p2 + 4) == q);
        },
        None => {
            let q = p2;
            let e = q + tl;
            assert(s =~= pre + title + tt);
            assert(s.len() == e + tt.len());
            if tl >= 4 {
                assert(s[q] == title[0] && s[q + 1] == title[1] && s[q + 2] == title[2] && s[q + 3] == title[3]);
                assert(cookie_at(s, q) == cookie_at(title, 0));
                if cookie_at(title, 0) is Some {
                    if tl > 4 {
                        assert(s[q + 4] == title[4]);
                        assert(skip_ws_from(s, q + 4) == q + 4);
                    } else {
                        assert(tt =~= Seq::<char>::empty());
                        assert(q + 4 == s.len());
                        assert(skip_ws_from(s, q + 4) == q + 4);
                    }
                }
            } else {
                if headline_tags(t).len() > 0 {
                    assert(tt[0] == ' ');
                    assert(s[e] == ' ');
                    if e + 1 < s.len() {
                        assert(s[e + 1] == ':');
                    }
                }
                assert(cookie_at(s, q) is None);
            }
        },
    }
}

/// The title and the tags after it.
proof fn lemma_headline_title(s: Seq<char>, pre: Seq<char>, t: TaskView)
    requires
        title_reads_back(t.title, t.priority, headline_tags(t)),
        tags_read_back(headline_tags(t)),
        s == pre + t.title + tags_text(headline_tags(t)),
    ensures
        title_at(s, pre.len() as int) == (t.title, headline_tags(t)),
{
    let q = pre.len() as int;
    reveal_strlit(" :");
    reveal_strlit(":");
    let title = t.title;
    let tags = headline_tags(t);
    let tt = tags_text(tags);
    let e = q + title.len();
    assert(s.len() == e + tt.len());
    assert(s.subrange(q, e) =~= title);
    if tags.len() > 0 {
        let jn = join(tags, seq![':']);
        assert(":"@ =~= seq![':']);
        assert(" :"@ =~= seq![' ', ':']);
        assert(tt =~= seq![' ', ':'] + jn + seq![':']);
        lemma_join_tag_list(tags);
        lemma_split_join(tags);
        assert(s[e] == ' ' && s[e + 1] == ':');
        assert(skip_ws_from(s, e + 1) == e + 1);
        assert(skip_ws_from(s, e) == e + 1);
        assert(s.last() == ':');
        assert(s.subrange(e + 2, s.len() - 1) =~= jn);
        assert(tag_suffix_at(s, e));
        assert(title_end_from(s, e) == e);
    } else {
        assert(tt =~= Seq::<char>::empty());
        assert(title_end_from(s, e) == e);
    }
    lemma_title_end(s, q, title, t.priority, tags, q + 1);
}

proof fn lemma_headline_shape(t: TaskView, level: nat)
    ensures
        headline_text(t, level).drop_last() == stars(level) + seq![' '] + keyword_of(t.state) + seq![' ']
            + match t.priority {
            Some(p) => priority_cookie(p) + seq![' '],
            None => Seq::<char>::empty(),
        } + t.title + tags_text(headline_tags(t)),
{
    reveal_strlit(" ");
    assert(" "@ =~= seq![' ']);
    let pc = match t.priority {
        Some(p) => priority_cookie(p) + seq![' '],
        None => Seq::<char>::empty(),
    };
    let s = stars(level) + seq![' '] + keyword_of(t.state) + seq![' '] + pc + t.title + tags_text(headline_tags(t));
    assert(headline_text(t, level) =~= s + nl());
    assert((s + nl()).drop_last() =~= s);
}

/// The headline of a task as the writer puts it down is read back with its
/// level, state, priority, title and tags (its contexts, then its other
/// tags), for a title and tags the grammar can tell apart.
pub proof fn lemma_headline_roundtrip(t: TaskView, level: nat)
    requires
        level >= 1,
        title_reads_back(t.title, t.priority, headline_tags(t)),
        tags_read_back(headline_tags(t)),
    ensures
        headline(headline_text(t, level).drop_last()) == Some(
            HeadlineSpec {
                level: level as int,
                state: Some(t.state),
                priority: t.priority,
                title: t.title,
                tags: headline_tags(t),
            },
        ),
{
    lemma_headline_shape(t, level);
    let pc = match t.priority {
        Some(p) => priority_cookie(p) + seq![' '],
        None => Seq::<char>::empty(),
    };
    let pre = stars(level) + seq![' '] + keyword_of(t.state) + seq![' '];
    let rest = pc + t.title + tags_text(headline_tags(t));
    let s = headline_text(t, level).drop_last();
    assert(s =~= pre + rest);
    assert(rest[0] == if pc.len() > 0 {
        '['
    } else {
        t.title[0]
    });
    lemma_headline_start(s, level, t, rest);
    assert(pre.len() == level + 2 + keyword_of(t.state).len());
    assert(s =~= pre + pc + t.title + tags_text(headline_tags(t)));
    lemma_headline_priority(s, pre, t);
    let pre2 = pre + pc;
    assert(s =~= pre2 + t.title + tags_text(headline_tags(t)));
    lemma_headline_title(s, pre2, t);
}


// ---------------------------------------------------------------------------
// A whole task entry
// ---------------------------------------------------------------------------

/// A property line of the drawer: two spaces, `:KEY:`, a space, the value.
pub open spec fn drawer_line(kp: Seq<char>, v: Seq<char>) -> Seq<char> {
    seq![' ', ' '] + kp + seq![' '] + v
}

pub open spec fn opt_rows(kp: Seq<char>, v: Option<Seq<char>>) -> Seq<Seq<char>> {
    match v {
        Some(x) => seq![drawer_line(kp, x)],
        None => seq![],
    }
}

/// The planning line of a task, if it has a date.
pub open spec fn plan_rows(t: TaskView) -> Seq<Seq<char>> {
    let parts: Seq<Seq<char>> = match (t.scheduled, t.deadline) {
        (Some(s), Some(d)) => seq![
            stamp_text("SCHEDULED:"@, s, t.recurrence),
            stamp_text("DEADLINE:"@, d, None),
        ],
        (Some(s), None) => seq![stamp_text("SCHEDULED:"@, s, t.recurrence)],
        (None, Some(d)) => seq![stamp_text("DEADLINE:"@, d, None)],
        (None, None) => seq![],
    };
    if parts.len() == 0 {
        seq![]
    } else {
        seq![seq![' ', ' '] + join(parts, " "@)]
    }
}

pub open spec fn created_text(t: TaskView) -> Seq<char> {
    seq!['['] + dt_org(t.created) + seq![']']
}

pub open spec fn gtd_rows(t: TaskView) -> Seq<Seq<char>> {
    opt_rows(":ESC:"@, opt_u32_decimal(t.esc)) + opt_rows(":WAITING_FOR:"@, t.waiting_for) + opt_rows(
        ":DELEGATED:"@,
        opt_date_iso(t.delegated),
    ) + opt_rows(":FOLLOW_UP:"@, opt_date_iso(t.follow_up))
}

pub open spec fn sync_rows(t: TaskView) -> Seq<Seq<char>> {
    opt_rows(":SYNC_HREF:"@, t.sync_href) + opt_rows(":SYNC_HASH:"@, opt_decimal(t.sync_hash)) + opt_rows(
        ":SYNC_UID:"@,
        t.sync_uid,
    )
}

/// The property lines of a task's drawer.
pub open spec fn prop_rows(t: TaskView) -> Seq<Seq<char>> {
    seq![drawer_line(":ID:"@, uuid_text(t.id.value)), drawer_line(":CREATED:"@, created_text(t))] + gtd_rows(t)
        + sync_rows(t)
}

pub open spec fn note_rows(t: TaskView) -> Seq<Seq<char>> {
    if t.notes.len() == 0 {
        seq![]
    } else {
        seq![seq![' ', ' '] + t.notes]
    }
}

/// The lines of a task's entry.
pub open spec fn task_rows(t: TaskView) -> Seq<Seq<char>> {
    seq![headline_text(t, 1).drop_last()] + plan_rows(t) + seq!["  :PROPERTIES:"@] + prop_rows(t) + seq![
        "  :END:"@,
    ] + note_rows(t)
}

proof fn lemma_rows_one(l: Seq<char>)
    ensures
        nl_text(seq![l]) == l + seq!['\n'],
{
    assert(seq![l].drop_last() =~= Seq::<Seq<char>>::empty());
    assert(nl_text(Seq::<Seq<char>>::empty()) =~= Seq::<char>::empty());
    assert(nl_text(seq![l]) =~= l + seq!['\n']);
}

proof fn lemma_opt_rows_text(key: Seq<char>, kp: Seq<char>, v: Option<Seq<char>>)
    requires
        kp == seq![':'] + key + seq![':'],
    ensures
        opt_prop_line(key, v) == nl_text(opt_rows(kp, v)),
{
    reveal_strlit(":");
    reveal_strlit(": ");
    match v {
        Some(x) => {
            lemma_rows_one(drawer_line(kp, x));
            assert(opt_prop_line(key, v) =~= nl_text(opt_rows(kp, v)));
        },
        None => {
            assert(nl_text(Seq::<Seq<char>>::empty()) =~= Seq::<char>::empty());
        },
    }
}

proof fn lemma_gtd_text(t: TaskView)
    ensures
        gtd_props_text(t) == nl_text(gtd_rows(t)),
{
    reveal_strlit("ESC");
    reveal_strlit(":ESC:");
    reveal_strlit("WAITING_FOR");
    reveal_strlit(":WAITING_FOR:");
    reveal_strlit("DELEGATED");
    reveal_strlit(":DELEGATED:");
    reveal_strlit("FOLLOW_UP");
    reveal_strlit(":FOLLOW_UP:");
    assert(":ESC:"@ =~= seq![':'] + "ESC"@ + seq![':']);
    assert(":WAITING_FOR:"@ =~= seq![':'] + "WAITING_FOR"@ + seq![':']);
    assert(":DELEGATED:"@ =~= seq![':'] + "DELEGATED"@ + seq![':']);
    assert(":FOLLOW_UP:"@ =~= seq![':'] + "FOLLOW_UP"@ + seq![':']);
    let e = opt_rows(":ESC:"@, opt_u32_decimal(t.esc));
    let w = opt_rows(":WAITING_FOR:"@, t.waiting_for);
    let d = opt_rows(":DELEGATED:"@, opt_date_iso(t.delegated));
    let f = opt_rows(":FOLLOW_UP:"@, opt_date_iso(t.follow_up));
    lemma_opt_rows_text("ESC"@, ":ESC:"@, opt_u32_decimal(t.esc));
    lemma_opt_rows_text("WAITING_FOR"@, ":WAITING_FOR:"@, t.waiting_for);
    lemma_opt_rows_text("DELEGATED"@, ":DELEGATED:"@, opt_date_iso(t.delegated));
    lemma_opt_rows_text("FOLLOW_UP"@, ":FOLLOW_UP:"@, opt_date_iso(t.follow_up));
    lemma_nl_text_append(e, w);
    lemma_nl_text_append(e + w, d);
    lemma_nl_text_append(e + w + d, f);
}

proof fn lemma_sync_text(t: TaskView)
    ensures
        sync_props_text(t) == nl_text(sync_rows(t)),
{
    reveal_strlit("SYNC_HREF");
    reveal_strlit(":SYNC_HREF:");
    reveal_strlit("SYNC_HASH");
    reveal_strlit(":SYNC_HASH:");
    reveal_strlit("SYNC_UID");
    reveal_strlit(":SYNC_UID:");
    assert(":SYNC_HREF:"@ =~= seq![':'] + "SYNC_HREF"@ + seq![':']);
    assert(":SYNC_HASH:"@ =~= seq![':'] + "SYNC_HASH"@ + seq![':']);
    assert(":SYNC_UID:"@ =~= seq![':'] + "SYNC_UID"@ + seq![':']);
    let h = opt_rows(":SYNC_HREF:"@, t.sync_href);
    let x = opt_rows(":SYNC_HASH:"@, opt_decimal(t.sync_hash));
    let u = opt_rows(":SYNC_UID:"@, t.sync_uid);
    lemma_opt_rows_text("SYNC_HREF"@, ":SYNC_HREF:"@, t.sync_href);
    lemma_opt_rows_text("SYNC_HASH"@, ":SYNC_HASH:"@, opt_decimal(t.sync_hash));
    lemma_opt_rows_text("SYNC_UID"@, ":SYNC_UID:"@, t.sync_uid);
    lemma_nl_text_append(h, x);
    lemma_nl_text_append(h + x, u);
}

#[verifier::rlimit(40)]
proof fn lemma_props_text(t: TaskView)
    ensures
        props_text(t) == nl_text(seq!["  :PROPERTIES:"@] + prop_rows(t) + seq!["  :END:"@]),
{
    reveal_strlit("ID");
    reveal_strlit(":ID:");
    reveal_strlit("CREATED");
    reveal_strlit(":CREATED:");
    reveal_strlit(":");
    reveal_strlit(": ");
    reveal_strlit(":PROPERTIES:");
    reveal_strlit("  :PROPERTIES:");
    reveal_strlit(":END:");
    reveal_strlit("  :END:");
    reveal_strlit("[");
    reveal_strlit("]");
    lemma_gtd_text(t);
    lemma_sync_text(t);
    let a = seq!["  :PROPERTIES:"@];
    let i = seq![drawer_line(":ID:"@, uuid_text(t.id.value))];
    let c = seq![drawer_line(":CREATED:"@, created_text(t))];
    let g = gtd_rows(t);
    let y = sync_rows(t);
    let z = seq!["  :END:"@];
    lemma_rows_one("  :PROPERTIES:"@);
    lemma_rows_one(drawer_line(":ID:"@, uuid_text(t.id.value)));
    lemma_rows_one(drawer_line(":CREATED:"@, created_text(t)));
    lemma_rows_one("  :END:"@);
    lemma_nl_text_append(a, i);
    lemma_nl_text_append(a + i, c);
    lemma_nl_text_append(a + i + c, g);
    lemma_nl_text_append(a + i + c + g, y);
    lemma_nl_text_append(a + i + c + g + y, z);
    assert(seq!["  :PROPERTIES:"@] + prop_rows(t) + seq!["  :END:"@] =~= a + i + c + g + y + z);
    let pa = indent() + ":PROPERTIES:"@ + nl();
    assert(pa =~= nl_text(a));
    let p1 = prop_line("ID"@, uuid_text(t.id.value));
    assert(p1 =~= nl_text(i));
    let p2 = prop_line("CREATED"@, "["@ + dt_org(t.created) + "]"@);
    assert(p2 =~= nl_text(c));
    let ex = extra_props_text(t);
    assert(ex == nl_text(g) + nl_text(y));
    let pz = indent() + ":END:"@ + nl();
    assert(pz =~= nl_text(z));
    assert(props_text(t) =~= pa + p1 + p2 + ex + pz);
    assert(nl_text(a + i + c + g + y + z) =~= nl_text(a) + nl_text(i) + nl_text(c) + nl_text(g) + nl_text(y)
        + nl_text(z));
}

/// Whether the text has no line feed.
pub open spec fn no_lf(s: Seq<char>) -> bool {
    forall|i: int| 0 <= i < s.len() ==> #[trigger] s[i] != '\n'
}

pub open spec fn date_valid(d: Option<Date>) -> bool {
    d matches Some(x) ==> min_day() <= x.num() <= max_day()
}

pub open spec fn four_digit_year(d: Option<Date>) -> bool {
    d matches Some(x) ==> 0 <= x.year() <= 9999
}

pub open spec fn opt_plain(v: Option<Seq<char>>) -> bool {
    v matches Some(x) ==> plain_line(x)
}

/// The tasks whose org entries `task_rows` lists line by line: not
/// completed (no `CLOSED:` line), a headline the grammar tells apart, with
/// contexts that start with `@` and other tags that do not, a repeater
/// only with a scheduled date, valid dates with four-digit years, notes on
/// one trimmed line that is not `:LOGBOOK:`, and property values on one
/// line.
pub open spec fn task_writable(t: TaskView) -> bool {
    &&& t.completed is None
    &&& title_reads_back(t.title, t.priority, headline_tags(t))
    &&& no_lf(t.title)
    &&& tags_read_back(headline_tags(t))
    &&& forall|k: int| 0 <= k < headline_tags(t).len() ==> no_lf(#[trigger] headline_tags(t)[k])
    &&& forall|k: int| 0 <= k < t.contexts.len() ==> (#[trigger] t.contexts[k])[0] == '@'
    &&& forall|k: int| 0 <= k < t.extra_tags.len() ==> (#[trigger] t.extra_tags[k])[0] != '@'
    &&& (t.recurrence is Some ==> t.scheduled is Some)
    &&& date_valid(t.scheduled) && four_digit_year(t.scheduled)
    &&& date_valid(t.deadline) && four_digit_year(t.deadline)
    &&& date_valid(t.delegated) && date_valid(t.follow_up)
    &&& min_day() <= t.created.spec_date().num() <= max_day() && 0 <= t.created.spec_date().year() <= 9999
    &&& 0 <= t.created.spec_hour() < 24 && 0 <= t.created.spec_minute() < 60
    &&& trimmed(t.notes) && no_lf(t.notes) && t.notes != ":LOGBOOK:"@
    &&& opt_plain(t.waiting_for) && opt_plain(t.sync_href) && opt_plain(t.sync_uid)
}

proof fn lemma_plan_text(t: TaskView)
    ensures
        planning_text(t) == nl_text(plan_rows(t)),
{
    let parts: Seq<Seq<char>> = match (t.scheduled, t.deadline) {
        (Some(s), Some(d)) => seq![
            stamp_text("SCHEDULED:"@, s, t.recurrence),
            stamp_text("DEADLINE:"@, d, None),
        ],
        (Some(s), None) => seq![stamp_text("SCHEDULED:"@, s, t.recurrence)],
        (None, Some(d)) => seq![stamp_text("DEADLINE:"@, d, None)],
        (None, None) => seq![],
    };
    if parts.len() > 0 {
        lemma_rows_one(seq![' ', ' '] + join(parts, " "@));
        assert(planning_text(t) =~= nl_text(plan_rows(t)));
    } else {
        assert(nl_text(Seq::<Seq<char>>::empty()) =~= Seq::<char>::empty());
    }
}

proof fn lemma_notes_text(t: TaskView)
    requires
        no_lf(t.notes),
    ensures
        body_text(t.notes) == nl_text(note_rows(t)),
{
    let n = t.notes;
    if n.len() == 0 {
        assert(lines(n) =~= Seq::<Seq<char>>::empty());
        assert(nl_text(Seq::<Seq<char>>::empty()) =~= Seq::<char>::empty());
    } else {
        lemma_find_from_none(n, '\n', 0);
        assert(n.subrange(0, n.len() as int) =~= n);
        assert(lines(n) == seq![n]);
        assert(seq![n].drop_last() =~= Seq::<Seq<char>>::empty());
        assert(indented_lines(Seq::<Seq<char>>::empty()) =~= Seq::<char>::empty());
        assert(indented_lines(seq![n]) =~= seq![' ', ' '] + n + seq!['\n']);
        lemma_rows_one(seq![' ', ' '] + n);
    }
}

/// The text of a task's entry is its lines, each with a line feed.
proof fn lemma_task_text(t: TaskView)
    requires
        t.completed is None,
        no_lf(t.notes),
    ensures
        task_text(t, 1) == nl_text(task_rows(t)),
{
    reveal_strlit("  :PROPERTIES:");
    reveal_strlit("  :END:");
    let hl = headline_text(t, 1).drop_last();
    lemma_headline_shape(t, 1);
    assert(headline_text(t, 1) =~= hl + seq!['\n']);
    lemma_rows_one(hl);
    lemma_plan_text(t);
    lemma_props_text(t);
    lemma_notes_text(t);
    assert(closed_text(t) =~= Seq::<char>::empty());
    let a = seq![hl];
    let p = plan_rows(t);
    let d = seq!["  :PROPERTIES:"@] + prop_rows(t) + seq!["  :END:"@];
    let n = note_rows(t);
    lemma_nl_text_append(a, p);
    lemma_nl_text_append(a + p, d);
    lemma_nl_text_append(a + p + d, n);
    assert(task_rows(t) =~= a + p + d + n);
    assert(task_text(t, 1) =~= nl_text(a) + nl_text(p) + nl_text(d) + nl_text(n));
}


proof fn lemma_plain_cat(a: Seq<char>, b: Seq<char>)
    requires
        plain_line(a),
        plain_line(b),
    ensures
        plain_line(a + b),
{
    assert forall|i: int| 0 <= i < (a + b).len() implies #[trigger] (a + b)[i] != '\n' by {
        if i < a.len() {
            assert((a + b)[i] == a[i]);
        } else {
            assert((a + b)[i] == b[i - a.len()]);
        }
    }
    if b.len() == 0 {
        assert(a + b =~= a);
    } else {
        assert((a + b).last() == b.last());
    }
}

proof fn lemma_safe_plain(s: Seq<char>)
    requires
        line_safe(s),
    ensures
        plain_line(s),
{
    if s.len() > 0 {
        assert(s[s.len() - 1] != '\r');
    }
}

proof fn lemma_join_safe(ps: Seq<Seq<char>>, sep: Seq<char>)
    requires
        forall|i: int| 0 <= i < ps.len() ==> line_safe(#[trigger] ps[i]),
        line_safe(sep),
    ensures
        line_safe(join(ps, sep)),
    decreases ps.len(),
{
    if ps.len() == 1 {
        assert(line_safe(ps[0]));
    } else if ps.len() > 1 {
        let init = ps.drop_last();
        assert forall|i: int| 0 <= i < init.len() implies line_safe(#[trigger] init[i]) by {
            assert(init[i] == ps[i]);
        }
        lemma_join_safe(init, sep);
        assert(line_safe(ps[ps.len() - 1]));
        lemma_safe_cat(join(init, sep), sep);
        lemma_safe_cat(join(init, sep) + sep, ps.last());
    }
}

proof fn lemma_join_no_lf(ps: Seq<Seq<char>>, sep: Seq<char>)
    requires
        forall|i: int| 0 <= i < ps.len() ==> no_lf(#[trigger] ps[i]),
        no_lf(sep),
    ensures
        no_lf(join(ps, sep)),
    decreases ps.len(),
{
    if ps.len() == 1 {
        assert(no_lf(ps[0]));
    } else if ps.len() > 1 {
        let init = ps.drop_last();
        assert forall|i: int| 0 <= i < init.len() implies no_lf(#[trigger] init[i]) by {
            assert(init[i] == ps[i]);
        }
        lemma_join_no_lf(init, sep);
        assert(no_lf(ps[ps.len() - 1]));
        let a = join(init, sep);
        let j = a + sep + ps.last();
        assert forall|i: int| 0 <= i < j.len() implies #[trigger] j[i] != '\n' by {
            if i < a.len() {
                assert(j[i] == a[i]);
            } else if i < a.len() + sep.len() {
                assert(j[i] == sep[i - a.len()]);
            } else {
                assert(j[i] == ps.last()[i - a.len() - sep.len()]);
            }
        }
    }
}

proof fn lemma_headline_plain(t: TaskView)
    requires
        task_writable(t),
    ensures
        plain_line(headline_text(t, 1).drop_last()),
{
    reveal_strlit(" :");
    reveal_strlit(":");
    lemma_headline_shape(t, 1);
    let pc = match t.priority {
        Some(p) => priority_cookie(p) + seq![' '],
        None => Seq::<char>::empty(),
    };
    let pre = stars(1) + seq![' '] + keyword_of(t.state) + seq![' '] + pc;
    assert(line_safe(pre)) by {
        assert forall|i: int| 0 <= i < pre.len() implies #[trigger] pre[i] != '\n' && pre[i] != '\r' by {
            if i == 0 {
                assert(pre[0] == stars(1)[0]);
            }
        }
    }
    lemma_safe_plain(pre);
    let title = t.title;
    assert(plain_line(title));
    let tt = tags_text(headline_tags(t));
    if headline_tags(t).len() > 0 {
        let jn = join(headline_tags(t), ":"@);
        assert(":"@ =~= seq![':']);
        assert forall|k: int| 0 <= k < headline_tags(t).len() implies no_lf(#[trigger] headline_tags(t)[k]) by {}
        lemma_join_no_lf(headline_tags(t), ":"@);
        assert(tt =~= seq![' ', ':'] + jn + seq![':']);
        assert forall|i: int| 0 <= i < tt.len() implies #[trigger] tt[i] != '\n' by {
            if 2 <= i < 2 + jn.len() {
                assert(tt[i] == jn[i - 2]);
            }
        }
        assert(tt.last() == ':');
    } else {
        assert(tt =~= Seq::<char>::empty());
    }
    assert(plain_line(tt));
    lemma_plain_cat(pre, title);
    lemma_plain_cat(pre + title, tt);
    assert(headline_text(t, 1).drop_last() == pre + title + tt);
}

proof fn lemma_rec_safe(r: Recurrence)
    ensures
        line_safe(recurrence_text(r)),
{
    let iv = interval_of(r);
    let prefix = match r {
        Recurrence::Standard(_) => seq!['+'],
        Recurrence::Relative(_) => seq!['.', '+'],
        Recurrence::Strict(_) => seq!['+', '+'],
    };
    lemma_decimal_digits(iv.count as nat);
    lemma_digits_safe(decimal(iv.count as nat));
    lemma_safe_cat(prefix, decimal(iv.count as nat));
    lemma_safe_cat(prefix + decimal(iv.count as nat), seq![unit_letter(iv.unit)]);
}

proof fn lemma_stamp_safe(kw: Seq<char>, d: Date, r: Option<Recurrence>)
    requires
        line_safe(kw),
        min_day() <= d.num() <= max_day(),
    ensures
        line_safe(stamp_text(kw, d, r)),
{
    reveal_strlit(" <");
    reveal_strlit(" ");
    reveal_strlit(">");
    lemma_date_iso_safe(d);
    lemma_wday_text(d.num());
    let rp = match r {
        Some(x) => " "@ + recurrence_text(x),
        None => seq![],
    };
    match r {
        Some(x) => {
            lemma_rec_safe(x);
            lemma_safe_cat(" "@, recurrence_text(x));
        },
        None => {},
    }
    lemma_safe_cat(kw, " <"@);
    lemma_safe_cat(kw + " <"@, date_iso(d));
    lemma_safe_cat(kw + " <"@ + date_iso(d), " "@);
    lemma_safe_cat(kw + " <"@ + date_iso(d) + " "@, date_wday(d));
    lemma_safe_cat(kw + " <"@ + date_iso(d) + " "@ + date_wday(d), rp);
    lemma_safe_cat(kw + " <"@ + date_iso(d) + " "@ + date_wday(d) + rp, ">"@);
}

proof fn lemma_plan_plain(t: TaskView)
    requires
        task_writable(t),
    ensures
        forall|i: int| 0 <= i < plan_rows(t).len() ==> plain_line(#[trigger] plan_rows(t)[i]),
{
    reveal_strlit("SCHEDULED:");
    reveal_strlit("DEADLINE:");
    reveal_strlit(" ");
    let parts: Seq<Seq<char>> = match (t.scheduled, t.deadline) {
        (Some(s), Some(d)) => seq![
            stamp_text("SCHEDULED:"@, s, t.recurrence),
            stamp_text("DEADLINE:"@, d, None),
        ],
        (Some(s), None) => seq![stamp_text("SCHEDULED:"@, s, t.recurrence)],
        (None, Some(d)) => seq![stamp_text("DEADLINE:"@, d, None)],
        (None, None) => seq![],
    };
    match t.scheduled {
        Some(s) => lemma_stamp_safe("SCHEDULED:"@, s, t.recurrence),
        None => {},
    }
    match t.deadline {
        Some(d) => lemma_stamp_safe("DEADLINE:"@, d, None),
        None => {},
    }
    if parts.len() > 0 {
        assert forall|i: int| 0 <= i < parts.len() implies line_safe(#[trigger] parts[i]) by {}
        lemma_join_safe(parts, " "@);
        lemma_safe_cat(seq![' ', ' '], join(parts, " "@));
        lemma_safe_plain(seq![' ', ' '] + join(parts, " "@));
        assert(plan_rows(t)[0] == seq![' ', ' '] + join(parts, " "@));
    }
}


proof fn lemma_drawer_plain(kp: Seq<char>, v: Seq<char>)
    requires
        line_safe(kp),
        plain_line(v),
    ensures
        plain_line(drawer_line(kp, v)),
{
    lemma_safe_cat(seq![' ', ' '], kp);
    lemma_safe_cat(seq![' ', ' '] + kp, seq![' ']);
    lemma_safe_plain(seq![' ', ' '] + kp + seq![' ']);
    lemma_plain_cat(seq![' ', ' '] + kp + seq![' '], v);
}

proof fn lemma_opt_rows_plain(kp: Seq<char>, v: Option<Seq<char>>)
    requires
        line_safe(kp),
        opt_plain(v),
    ensures
        forall|i: int| 0 <= i < opt_rows(kp, v).len() ==> plain_line(#[trigger] opt_rows(kp, v)[i]),
{
    match v {
        Some(x) => {
            lemma_drawer_plain(kp, x);
            assert(opt_rows(kp, v)[0] == drawer_line(kp, x));
        },
        None => {},
    }
}

proof fn lemma_all_plain_append(a: Seq<Seq<char>>, b: Seq<Seq<char>>)
    requires
        forall|i: int| 0 <= i < a.len() ==> plain_line(#[trigger] a[i]),
        forall|i: int| 0 <= i < b.len() ==> plain_line(#[trigger] b[i]),
    ensures
        forall|i: int| 0 <= i < (a + b).len() ==> plain_line(#[trigger] (a + b)[i]),
{
    assert forall|i: int| 0 <= i < (a + b).len() implies plain_line(#[trigger] (a + b)[i]) by {
        if i < a.len() {
            assert((a + b)[i] == a[i]);
        } else {
            assert((a + b)[i] == b[i - a.len()]);
        }
    }
}

proof fn lemma_opt_digits_plain(v: Option<nat>)
    ensures
        opt_plain(match v {
            Some(n) => Some(decimal(n)),
            None => None,
        }),
{
    match v {
        Some(n) => {
            lemma_decimal_digits(n);
            lemma_digits_safe(decimal(n));
            lemma_safe_plain(decimal(n));
        },
        None => {},
    }
}

proof fn lemma_opt_iso_plain(d: Option<Date>)
    requires
        date_valid(d),
    ensures
        opt_plain(opt_date_iso(d)),
{
    match d {
        Some(x) => {
            lemma_date_iso_safe(x);
            lemma_safe_plain(date_iso(x));
        },
        None => {},
    }
}

proof fn lemma_head_rows_plain(t: TaskView)
    requires
        task_writable(t),
    ensures
        plain_line(drawer_line(":ID:"@, uuid_text(t.id.value))),
        plain_line(drawer_line(":CREATED:"@, created_text(t))),
{
    reveal_strlit(":ID:");
    reveal_strlit(":CREATED:");
    let uuid = uuid_text(t.id.value);
    lemma_uuid_text_roundtrip(t.id.value);
    assert(line_safe(uuid)) by {
        assert forall|i: int| 0 <= i < uuid.len() implies #[trigger] uuid[i] != '\n' && uuid[i] != '\r' by {
            assert(!is_ws(uuid[i]));
        }
    }
    lemma_safe_plain(uuid);
    lemma_drawer_plain(":ID:"@, uuid);
    lemma_dt_org_safe(t.created);
    lemma_safe_cat(seq!['['], dt_org(t.created));
    lemma_safe_cat(seq!['['] + dt_org(t.created), seq![']']);
    lemma_safe_plain(created_text(t));
    lemma_drawer_plain(":CREATED:"@, created_text(t));
}

proof fn lemma_gtd_rows_plain(t: TaskView)
    requires
        task_writable(t),
    ensures
        forall|i: int| 0 <= i < gtd_rows(t).len() ==> plain_line(#[trigger] gtd_rows(t)[i]),
{
    reveal_strlit(":ESC:");
    reveal_strlit(":WAITING_FOR:");
    reveal_strlit(":DELEGATED:");
    reveal_strlit(":FOLLOW_UP:");
    lemma_opt_digits_plain(match t.esc {
        Some(e) => Some(e as nat),
        None => None,
    });
    assert(opt_u32_decimal(t.esc) == match t.esc {
        Some(e) => Some(decimal(e as nat)),
        None => None::<Seq<char>>,
    });
    lemma_opt_iso_plain(t.delegated);
    lemma_opt_iso_plain(t.follow_up);
    let e = opt_rows(":ESC:"@, opt_u32_decimal(t.esc));
    let w = opt_rows(":WAITING_FOR:"@, t.waiting_for);
    let d = opt_rows(":DELEGATED:"@, opt_date_iso(t.delegated));
    let f = opt_rows(":FOLLOW_UP:"@, opt_date_iso(t.follow_up));
    lemma_opt_rows_plain(":ESC:"@, opt_u32_decimal(t.esc));
    lemma_opt_rows_plain(":WAITING_FOR:"@, t.waiting_for);
    lemma_opt_rows_plain(":DELEGATED:"@, opt_date_iso(t.delegated));
    lemma_opt_rows_plain(":FOLLOW_UP:"@, opt_date_iso(t.follow_up));
    lemma_all_plain_append(e, w);
    lemma_all_plain_append(e + w, d);
    lemma_all_plain_append(e + w + d, f);
}

proof fn lemma_sync_rows_plain(t: TaskView)
    requires
        task_writable(t),
    ensures
        forall|i: int| 0 <= i < sync_rows(t).len() ==> plain_line(#[trigger] sync_rows(t)[i]),
{
    reveal_strlit(":SYNC_HREF:");
    reveal_strlit(":SYNC_HASH:");
    reveal_strlit(":SYNC_UID:");
    lemma_opt_digits_plain(match t.sync_hash {
        Some(e) => Some(e as nat),
        None => None,
    });
    assert(opt_decimal(t.sync_hash) == match t.sync_hash {
        Some(e) => Some(decimal(e as nat)),
        None => None::<Seq<char>>,
    });
    let h = opt_rows(":SYNC_HREF:"@, t.sync_href);
    let x = opt_rows(":SYNC_HASH:"@, opt_decimal(t.sync_hash));
    let u = opt_rows(":SYNC_UID:"@, t.sync_uid);
    lemma_opt_rows_plain(":SYNC_HREF:"@, t.sync_href);
    lemma_opt_rows_plain(":SYNC_HASH:"@, opt_decimal(t.sync_hash));
    lemma_opt_rows_plain(":SYNC_UID:"@, t.sync_uid);
    lemma_all_plain_append(h, x);
    lemma_all_plain_append(h + x, u);
}

proof fn lemma_prop_rows_plain(t: TaskView)
    requires
        task_writable(t),
    ensures
        forall|i: int| 0 <= i < prop_rows(t).len() ==> plain_line(#[trigger] prop_rows(t)[i]),
{
    lemma_head_rows_plain(t);
    lemma_gtd_rows_plain(t);
    lemma_sync_rows_plain(t);
    let head = seq![drawer_line(":ID:"@, uuid_text(t.id.value)), drawer_line(":CREATED:"@, created_text(t))];
    assert forall|i: int| 0 <= i < head.len() implies plain_line(#[trigger] head[i]) by {}
    lemma_all_plain_append(head, gtd_rows(t));
    lemma_all_plain_append(head + gtd_rows(t), sync_rows(t));
}

/// The text the writer puts down for such a task splits, line by line,
/// into exactly the rows `task_rows` lists: its headline, its planning
/// line, its property drawer and its notes.
pub proof fn lemma_task_lines(t: TaskView)
    requires
        task_writable(t),
    ensures
        lines(task_text(t, 1)) == task_rows(t),
{
    reveal_strlit("  :PROPERTIES:");
    reveal_strlit("  :END:");
    lemma_task_text(t);
    lemma_headline_plain(t);
    lemma_plan_plain(t);
    lemma_prop_rows_plain(t);
    let a = seq![headline_text(t, 1).drop_last()];
    assert forall|i: int| 0 <= i < a.len() implies plain_line(#[trigger] a[i]) by {}
    let pr = seq!["  :PROPERTIES:"@];
    assert forall|i: int| 0 <= i < pr.len() implies plain_line(#[trigger] pr[i]) by {}
    let en = seq!["  :END:"@];
    assert forall|i: int| 0 <= i < en.len() implies plain_line(#[trigger] en[i]) by {}
    let nr = note_rows(t);
    if t.notes.len() > 0 {
        let l = seq![' ', ' '] + t.notes;
        assert forall|i: int| 0 <= i < l.len() implies #[trigger] l[i] != '\n' by {
            if i >= 2 {
                assert(l[i] == t.notes[i - 2]);
            }
        }
        assert(l.last() == t.notes.last());
        assert(nr[0] == l);
    }
    assert forall|i: int| 0 <= i < nr.len() implies plain_line(#[trigger] nr[i]) by {}
    lemma_all_plain_append(a, plan_rows(t));
    lemma_all_plain_append(a + plan_rows(t), pr);
    lemma_all_plain_append(a + plan_rows(t) + pr, prop_rows(t));
    lemma_all_plain_append(a + plan_rows(t) + pr + prop_rows(t), en);
    lemma_all_plain_append(a + plan_rows(t) + pr + prop_rows(t) + en, nr);
    assert(task_rows(t) =~= a + plan_rows(t) + pr + prop_rows(t) + en + nr);
    lemma_lines_nl_text(task_rows(t));
}

} // verus!
