//! Asking a language model to turn emails into tasks: the prompts, the
//! messages, and the reading of the model's reply text.

use vstd::prelude::*;

use crate::model::task::strs;
use crate::text::{chars_of, decimal, join, push_decimal, push_joined, push_str, string_of, trim, trim_chars};

verus! {

/// What the model made of one email.
#[derive(Debug, Clone)]
pub struct ExtractedTaskData {
    pub title: String,
    pub priority: Option<String>,
    pub contexts: Option<Vec<String>>,
    pub deadline: Option<String>,
    pub scheduled: Option<String>,
    pub project: Option<String>,
    pub is_duplicate: Option<bool>,
    pub duplicate_of: Option<String>,
}

/// What the model made of one email of a batch.
#[derive(Debug, Clone)]
pub struct BatchEmailSuggestion {
    pub action_needed: bool,
    pub title: Option<String>,
    pub priority: Option<String>,
    pub contexts: Option<Vec<String>>,
    pub deadline: Option<String>,
    pub scheduled: Option<String>,
    pub project: Option<String>,
    pub is_duplicate: Option<bool>,
    pub duplicate_of: Option<String>,
}

pub open spec fn single_intro() -> Seq<char> {
    "You extract actionable tasks from emails. Return ONLY a JSON object, no explanation.\n\n\
     Rules:\n\
     - \"title\": concise imperative action (e.g. \"Reply to vendor quote\", \"Schedule dentist appointment\")\n\
     - \"priority\": \"A\" (urgent+important), \"B\" (important), \"C\" (low), or null\n\
     - \"contexts\": array of applicable contexts from the allowed list, or null\n\
     - \"deadline\": \"YYYY-MM-DD\" if a hard deadline is mentioned, else null\n\
     - \"scheduled\": \"YYYY-MM-DD\" if a specific do-date is mentioned, else null\n\
     - \"project\": name of an existing project this relates to, or null\n\
     - \"is_duplicate\": true if an existing task already covers this email's action\n\
     - \"duplicate_of\": title of the existing task it duplicates, or null\n\n"@
}

pub open spec fn batch_intro() -> Seq<char> {
    "You analyze emails and suggest tasks. Return ONLY a JSON array with one object per email, in order. No explanation.\n\n\
     Each object must have:\n\
     - \"action_needed\": boolean — true if the email requires the user to do something\n\
     - \"title\": concise imperative action (e.g. \"Reply to vendor quote\"), or null if no action needed\n\
     - \"priority\": \"A\" (urgent+important), \"B\" (important), \"C\" (low), or null\n\
     - \"contexts\": array of applicable contexts from the allowed list, or null\n\
     - \"deadline\": \"YYYY-MM-DD\" if a hard deadline is mentioned, else null\n\
     - \"scheduled\": \"YYYY-MM-DD\" if a specific do-date is mentioned, else null\n\
     - \"project\": name of an existing project this relates to, or null\n\
     - \"is_duplicate\": true if an existing task already covers this email's action\n\
     - \"duplicate_of\": title of the existing task it duplicates, or null\n\n"@
}

/// The `- title` lines of the first titles.
pub open spec fn title_lines(ts: Seq<Seq<char>>) -> Seq<char>
    decreases ts.len(),
{
    if ts.len() == 0 {
        seq![]
    } else {
        title_lines(ts.drop_last()) + "- "@ + ts.last() + "\n"@
    }
}

/// A labelled list, when it is not empty.
pub open spec fn list_part(label: Seq<char>, xs: Seq<Seq<char>>) -> Seq<char> {
    if xs.len() > 0 {
        label + join(xs, ", "@) + "\n\n"@
    } else {
        seq![]
    }
}

/// The first 100 task titles, when there are any.
pub open spec fn titles_part(ts: Seq<Seq<char>>) -> Seq<char> {
    if ts.len() > 0 {
        "Existing task titles (for duplicate detection):\n"@ + title_lines(
            ts.take(if ts.len() < 100 {
                ts.len() as int
            } else {
                100
            }),
        ) + "\n"@
    } else {
        seq![]
    }
}

/// The part of a prompt after its rules: today's date, the allowed
/// contexts, the projects, and (for duplicate detection) the first 100
/// task titles, each part only when there is something to list.
pub open spec fn prompt_tail(cs: Seq<Seq<char>>, ps: Seq<Seq<char>>, ts: Seq<Seq<char>>, today: Seq<char>) -> Seq<char> {
    "Today's date: "@ + today + "\n\n"@ + list_part("Available contexts (pick from these only): "@, cs)
        + list_part("Existing projects: "@, ps) + titles_part(ts)
}

fn push_list_part(v: &mut Vec<char>, label: &str, xs: &Vec<String>)
    ensures
        final(v)@ == old(v)@ + list_part(label@, strs(xs@)),
{
    if xs.len() > 0 {
        push_str(v, label);
        push_joined(v, xs, ", ");
        push_str(v, "\n\n");
        assert(strs(xs@) =~= xs@.map_values(|s: String| s@));
    }
    assert(final(v)@ =~= old(v)@ + list_part(label@, strs(xs@)));
}

fn push_titles_part(v: &mut Vec<char>, ts: &Vec<String>)
    ensures
        final(v)@ == old(v)@ + titles_part(strs(ts@)),
{
    if ts.len() > 0 {
        let ghost v0 = v@;
        push_str(v, "Existing task titles (for duplicate detection):\n");
        let n: usize = if ts.len() < 100 {
            ts.len()
        } else {
            100
        };
        let ghost tv = strs(ts@);
        let ghost start = v@;
        let mut i: usize = 0;
        while i < n
            invariant
                i <= n <= ts@.len(),
                tv == strs(ts@),
                v@ == start + title_lines(tv.take(i as int)),
            decreases n - i,
        {
            assert(tv.take(i + 1).drop_last() =~= tv.take(i as int));
            assert(tv.take(i + 1).last() == ts@[i as int]@);
            push_str(v, "- ");
            push_str(v, ts[i].as_str());
            push_str(v, "\n");
            assert(v@ =~= start + title_lines(tv.take(i + 1)));
            i = i + 1;
        }
        push_str(v, "\n");
        assert(v@ =~= v0 + titles_part(tv));
    } else {
        assert(final(v)@ =~= old(v)@ + titles_part(strs(ts@)));
    }
}

fn push_tail(v: &mut Vec<char>, cs: &Vec<String>, ps: &Vec<String>, ts: &Vec<String>, today: &str)
    ensures
        final(v)@ == old(v)@ + prompt_tail(strs(cs@), strs(ps@), strs(ts@), today@),
{
    let ghost v0 = v@;
    push_str(v, "Today's date: ");
    push_str(v, today);
    push_str(v, "\n\n");
    push_list_part(v, "Available contexts (pick from these only): ", cs);
    push_list_part(v, "Existing projects: ", ps);
    push_titles_part(v, ts);
    assert(v@ =~= v0 + prompt_tail(strs(cs@), strs(ps@), strs(ts@), today@));
}

/// The system prompt for one email.
pub fn build_system_prompt(
    available_contexts: &Vec<String>,
    project_names: &Vec<String>,
    existing_task_titles: &Vec<String>,
    today: &str,
) -> (r: String)
    ensures
        r@ == single_intro() + prompt_tail(strs(available_contexts@), strs(project_names@), strs(existing_task_titles@), today@),
{
    let mut v = chars_of(
        "You extract actionable tasks from emails. Return ONLY a JSON object, no explanation.\n\n\
         Rules:\n\
         - \"title\": concise imperative action (e.g. \"Reply to vendor quote\", \"Schedule dentist appointment\")\n\
         - \"priority\": \"A\" (urgent+important), \"B\" (important), \"C\" (low), or null\n\
         - \"contexts\": array of applicable contexts from the allowed list, or null\n\
         - \"deadline\": \"YYYY-MM-DD\" if a hard deadline is mentioned, else null\n\
         - \"scheduled\": \"YYYY-MM-DD\" if a specific do-date is mentioned, else null\n\
         - \"project\": name of an existing project this relates to, or null\n\
         - \"is_duplicate\": true if an existing task already covers this email's action\n\
         - \"duplicate_of\": title of the existing task it duplicates, or null\n\n",
    );
    push_tail(&mut v, available_contexts, project_names, existing_task_titles, today);
    string_of(v.as_slice())
}

/// The system prompt for a batch of emails.
pub fn build_batch_system_prompt(
    available_contexts: &Vec<String>,
    project_names: &Vec<String>,
    existing_task_titles: &Vec<String>,
    today: &str,
) -> (r: String)
    ensures
        r@ == batch_intro() + prompt_tail(strs(available_contexts@), strs(project_names@), strs(existing_task_titles@), today@),
{
    let mut v = chars_of(
        "You analyze emails and suggest tasks. Return ONLY a JSON array with one object per email, in order. No explanation.\n\n\
         Each object must have:\n\
         - \"action_needed\": boolean — true if the email requires the user to do something\n\
         - \"title\": concise imperative action (e.g. \"Reply to vendor quote\"), or null if no action needed\n\
         - \"priority\": \"A\" (urgent+important), \"B\" (important), \"C\" (low), or null\n\
         - \"contexts\": array of applicable contexts from the allowed list, or null\n\
         - \"deadline\": \"YYYY-MM-DD\" if a hard deadline is mentioned, else null\n\
         - \"scheduled\": \"YYYY-MM-DD\" if a specific do-date is mentioned, else null\n\
         - \"project\": name of an existing project this relates to, or null\n\
         - \"is_duplicate\": true if an existing task already covers this email's action\n\
         - \"duplicate_of\": title of the existing task it duplicates, or null\n\n",
    );
    push_tail(&mut v, available_contexts, project_names, existing_task_titles, today);
    string_of(v.as_slice())
}

/// The first `n` characters of a text (all when shorter).
pub open spec fn first_chars(s: Seq<char>, n: int) -> Seq<char> {
    if s.len() <= n {
        s
    } else {
        s.take(n)
    }
}

pub(crate) fn push_first_chars(v: &mut Vec<char>, s: &str, n: usize)
    ensures
        final(v)@ == old(v)@ + first_chars(s@, n as int),
{
    let c = chars_of(s);
    let m = if c.len() <= n {
        c.len()
    } else {
        n
    };
    let part = crate::text::slice_chars(&c, 0, m);
    let ghost v0 = v@;
    let mut i: usize = 0;
    while i < part.len()
        invariant
            i <= part@.len(),
            v@ == v0 + part@.take(i as int),
        decreases part.len() - i,
    {
        v.push(part[i]);
        assert(v@ =~= v0 + part@.take(i + 1));
        i = i + 1;
    }
    assert(part@.take(part@.len() as int) =~= first_chars(s@, n as int));
}

/// The user message for one email: its headers and the first 4000
/// characters of its body, then the user's hint when there is one.
pub open spec fn user_message(
    subject: Seq<char>,
    from: Seq<char>,
    date: Option<Seq<char>>,
    body: Seq<char>,
    hint: Option<Seq<char>>,
) -> Seq<char> {
    "Subject: "@ + subject + "\nFrom: "@ + from + "\nDate: "@ + (match date {
        Some(d) => d,
        None => "unknown"@,
    }) + "\n\n"@ + first_chars(body, 4000) + (match hint {
        Some(h) => if h.len() > 0 {
            "\n\nUser context: "@ + h
        } else {
            seq![]
        },
        None => seq![],
    })
}

pub open spec fn opt_view(o: Option<&str>) -> Option<Seq<char>> {
    match o {
        Some(s) => Some(s@),
        None => None,
    }
}

/// The user message for one email.
pub fn build_user_message(subject: &str, from: &str, date: Option<&str>, body_full: &str, user_hint: Option<&str>) -> (r: String)
    ensures
        r@ == user_message(subject@, from@, opt_view(date), body_full@, opt_view(user_hint)),
{
    let mut v = chars_of("Subject: ");
    push_str(&mut v, subject);
    push_str(&mut v, "\nFrom: ");
    push_str(&mut v, from);
    push_str(&mut v, "\nDate: ");
    match date {
        Some(d) => push_str(&mut v, d),
        None => push_str(&mut v, "unknown"),
    }
    push_str(&mut v, "\n\n");
    push_first_chars(&mut v, body_full, 4000);
    let ghost v1 = v@;
    match user_hint {
        Some(h) => {
            if h.unicode_len() > 0 {
                push_str(&mut v, "\n\nUser context: ");
                push_str(&mut v, h);
            }
        },
        None => {},
    }
    assert(v@ =~= user_message(subject@, from@, opt_view(date), body_full@, opt_view(user_hint)));
    string_of(v.as_slice())
}

/// An email of a batch: its uid, subject, sender, date and body.
pub type BatchEmail = (u32, String, String, Option<String>, String);

pub open spec fn email_block(i: int, e: (u32, Seq<char>, Seq<char>, Option<Seq<char>>, Seq<char>)) -> Seq<char> {
    "--- Email "@ + decimal((i + 1) as nat) + " ---\nSubject: "@ + e.1 + "\nFrom: "@ + e.2 + "\nDate: "@ + (match e.3 {
        Some(d) => d,
        None => "unknown"@,
    }) + "\n\n"@ + first_chars(e.4, 2000) + "\n\n"@
}

pub open spec fn email_views(es: Seq<BatchEmail>) -> Seq<(u32, Seq<char>, Seq<char>, Option<Seq<char>>, Seq<char>)> {
    es.map_values(|e: BatchEmail| (e.0, e.1@, e.2@, crate::model::task::opt_str(e.3), e.4@))
}

pub open spec fn batch_message(es: Seq<(u32, Seq<char>, Seq<char>, Option<Seq<char>>, Seq<char>)>) -> Seq<char>
    decreases es.len(),
{
    if es.len() == 0 {
        seq![]
    } else {
        batch_message(es.drop_last()) + email_block(es.len() - 1, es.last())
    }
}

/// The user message for a batch: one numbered block per email, each body
/// cut to its first 2000 characters.
pub fn build_batch_user_message(emails: &Vec<BatchEmail>) -> (r: String)
    requires
        emails@.len() < u64::MAX,
    ensures
        r@ == batch_message(email_views(emails@)),
{
    let ghost ev = email_views(emails@);
    let mut v: Vec<char> = Vec::new();
    let mut i: usize = 0;
    while i < emails.len()
        invariant
            i <= emails@.len(),
            emails@.len() < u64::MAX,
            ev == email_views(emails@),
            v@ == batch_message(ev.take(i as int)),
        decreases emails.len() - i,
    {
        assert(ev.take(i + 1).drop_last() =~= ev.take(i as int));
        assert(ev.take(i + 1).last() == ev[i as int]);
        let e = &emails[i];
        let ghost v0 = v@;
        push_str(&mut v, "--- Email ");
        push_decimal(&mut v, (i as u64) + 1);
        push_str(&mut v, " ---\nSubject: ");
        push_str(&mut v, e.1.as_str());
        push_str(&mut v, "\nFrom: ");
        push_str(&mut v, e.2.as_str());
        push_str(&mut v, "\nDate: ");
        match &e.3 {
            Some(d) => push_str(&mut v, d.as_str()),
            None => push_str(&mut v, "unknown"),
        }
        push_str(&mut v, "\n\n");
        push_first_chars(&mut v, e.4.as_str(), 2000);
        push_str(&mut v, "\n\n");
        assert(v@ =~= v0 + email_block(i as int, ev[i as int]));
        i = i + 1;
    }
    assert(ev.take(emails@.len() as int) =~= ev);
    string_of(v.as_slice())
}

/// The token budget of a batch: 300 per email, at most 4096.
pub fn batch_max_tokens(n: usize) -> (r: usize)
    ensures
        r == (if 300 * n < 4096 {
            300 * n
        } else {
            4096
        }),
{
    if n < 14 {
        300 * n
    } else {
        4096
    }
}

/// The text without a surrounding code fence: trimmed, without a leading
/// ```` ```json ```` (or else ```` ``` ````) and a trailing ```` ``` ````,
/// trimmed again.
pub open spec fn unfenced(text: Seq<char>) -> Seq<char> {
    let t = trim(text);
    let a = if crate::text::has_prefix_at(t, 0, "```json"@) {
        t.skip(7)
    } else if crate::text::has_prefix_at(t, 0, "```"@) {
        t.skip(3)
    } else {
        t
    };
    let b = if crate::text::has_suffix(a, "```"@) {
        a.take(a.len() - 3)
    } else {
        a
    };
    trim(b)
}

/// The JSON part of the model's reply.
pub fn strip_code_fences(text: &str) -> (r: String)
    ensures
        r@ == unfenced(text@),
{
    proof {
        reveal_strlit("```json");
        reveal_strlit("```");
    }
    let t = trim_chars(&chars_of(text));
    let a = if crate::text::starts_with_str_at(&t, 0, "```json") {
        let x = crate::text::slice_chars(&t, 7, t.len());
        assert(x@ =~= t@.skip(7));
        x
    } else if crate::text::starts_with_str_at(&t, 0, "```") {
        let x = crate::text::slice_chars(&t, 3, t.len());
        assert(x@ =~= t@.skip(3));
        x
    } else {
        t
    };
    let b = if crate::text::ends_with_str(&a, "```") {
        let x = crate::text::slice_chars(&a, 0, a.len() - 3);
        assert(x@ =~= a@.take(a@.len() - 3));
        x
    } else {
        a
    };
    string_of(trim_chars(&b).as_slice())
}

} // verus!
