//! The decisions around the IMAP inbox: which mailbox a configured folder
//! name means, and the email the fields of a parsed message make. The
//! connection, the listing and the message parsing are the caller's.

use vstd::prelude::*;

use crate::dates::{Date, DateTime};
use crate::model::task::strs;
use crate::sync::anthropic::{first_chars, push_first_chars};
use crate::sync::multistatus::{eq_ignore_ascii_case, eq_ignore_ascii_case_str};
use crate::text::{chars_of, join, push_joined, push_str, string_of};

verus! {

/// An email fetched from an IMAP folder.
#[derive(Debug, Clone)]
pub struct ImapEmail {
    pub uid: u32,
    pub subject: String,
    pub from: String,
    pub date: Option<DateTime>,
    pub body_preview: String,
    pub body_full: String,
}

/// The place of the first mailbox whose name equals `folder` ignoring
/// ASCII case.
pub open spec fn folder_match(names: Seq<Seq<char>>, folder: Seq<char>) -> Option<int> {
    if exists|i: int| 0 <= i < names.len() && eq_ignore_ascii_case(#[trigger] names[i], folder) {
        Some(
            choose|i: int|
                0 <= i < names.len() && eq_ignore_ascii_case(#[trigger] names[i], folder) && forall|j: int|
                    0 <= j < i ==> !eq_ignore_ascii_case(#[trigger] names[j], folder),
        )
    } else {
        None
    }
}

/// The error when no mailbox matches.
pub open spec fn folder_error(names: Seq<Seq<char>>, folder: Seq<char>) -> Seq<char> {
    "Folder '"@ + folder + "' not found (available: "@ + join(names, ", "@) + ")"@
}

/// The mailbox a folder name means: the first listed name equal to it
/// ignoring ASCII case, else an error that lists the names.
pub fn resolve_folder(names: &Vec<String>, folder: &str) -> (r: Result<String, String>)
    ensures
        match folder_match(strs(names@), folder@) {
            Some(i) => r matches Ok(n) && n@ == strs(names@)[i],
            None => r matches Err(e) && e@ == folder_error(strs(names@), folder@),
        },
{
    let ghost ns = strs(names@);
    let mut i: usize = 0;
    while i < names.len()
        invariant
            i <= names.len(),
            ns == strs(names@),
            forall|j: int| 0 <= j < i ==> !eq_ignore_ascii_case(#[trigger] ns[j], folder@),
        decreases names.len() - i,
    {
        if eq_ignore_ascii_case_str(names[i].as_str(), folder) {
            proof {
                let c = choose|k: int|
                    0 <= k < ns.len() && eq_ignore_ascii_case(#[trigger] ns[k], folder@) && forall|j: int|
                        0 <= j < k ==> !eq_ignore_ascii_case(#[trigger] ns[j], folder@);
                assert(0 <= i < ns.len() && eq_ignore_ascii_case(ns[i as int], folder@) && forall|j: int|
                    0 <= j < i ==> !eq_ignore_ascii_case(#[trigger] ns[j], folder@));
                if c < i {
                    assert(!eq_ignore_ascii_case(ns[c], folder@));
                }
                assert(c == i);
            }
            return Ok(names[i].clone());
        }
        i = i + 1;
    }
    proof {
        reveal_strlit("Folder '");
        reveal_strlit("' not found (available: ");
        reveal_strlit(", ");
        reveal_strlit(")");
    }
    let mut v = chars_of("Folder '");
    push_str(&mut v, folder);
    push_str(&mut v, "' not found (available: ");
    push_joined(&mut v, names, ", ");
    push_str(&mut v, ")");
    assert(names@.map_values(|s: String| s@) =~= ns);
    Err(string_of(v.as_slice()))
}

/// The sender shown: the first address's name, else its address, else
/// `unknown`; `unknown` too when there is no address.
pub open spec fn sender_text(first: Option<(Option<Seq<char>>, Option<Seq<char>>)>) -> Seq<char> {
    match first {
        Some((Some(name), _)) => name,
        Some((None, Some(addr))) => addr,
        _ => "unknown"@,
    }
}

pub open spec fn opt_view(o: Option<&str>) -> Option<Seq<char>> {
    match o {
        Some(s) => Some(s@),
        None => None,
    }
}

/// The date fields of a message as `%Y-%m-%d %H:%M:%S` parsing reads them.
pub open spec fn message_date_ok(f: (i32, u32, u32, u32, u32, u32)) -> bool {
    crate::dates::valid_ymd(f.0 as int, f.1 as int, f.2 as int) && f.3 < 24 && f.4 < 60 && f.5 <= 60
}

/// The email made of the fields read from a message: the subject, else
/// `(no subject)`; the sender as `sender_text` says; the date when its
/// fields make one; the text body (empty when it has none) and its first
/// 200 characters.
pub fn email_from_parts(
    uid: Option<u32>,
    subject: Option<&str>,
    first_sender: Option<(Option<&str>, Option<&str>)>,
    date_fields: Option<(i32, u32, u32, u32, u32, u32)>,
    body_text: Option<&str>,
) -> (r: ImapEmail)
    ensures
        r.uid == match uid {
            Some(u) => u,
            None => 0,
        },
        r.subject@ == match subject {
            Some(s) => s@,
            None => "(no subject)"@,
        },
        r.from@ == sender_text(
            match first_sender {
                Some((n, a)) => Some((opt_view(n), opt_view(a))),
                None => None,
            },
        ),
        r.date is Some <==> (date_fields matches Some(f) && message_date_ok(f)),
        r.date matches Some(t) ==> date_fields matches Some(f) && t.spec_date().num()
            == crate::dates::day_number(f.0 as int, f.1 as int, f.2 as int) && t.spec_hour() == f.3
            && t.spec_minute() == f.4,
        r.body_full@ == match body_text {
            Some(b) => b@,
            None => seq![],
        },
        r.body_preview@ == first_chars(r.body_full@, 200),
{
    let subject_s = match subject {
        Some(s) => string_of(chars_of(s).as_slice()),
        None => "(no subject)".to_string(),
    };
    let from = match first_sender {
        Some((Some(name), _)) => string_of(chars_of(name).as_slice()),
        Some((None, Some(addr))) => string_of(chars_of(addr).as_slice()),
        _ => "unknown".to_string(),
    };
    let date = match date_fields {
        Some((y, mo, d, h, mi, s)) => match Date::from_ymd(y, mo, d) {
            Some(day) => DateTime::from_clock_fields(day, h, mi, s),
            None => None,
        },
        None => None,
    };
    let body_full = match body_text {
        Some(b) => string_of(chars_of(b).as_slice()),
        None => String::new(),
    };
    let mut pv: Vec<char> = Vec::new();
    push_first_chars(&mut pv, body_full.as_str(), 200);
    assert(pv@ =~= first_chars(body_full@, 200));
    ImapEmail {
        uid: match uid {
            Some(u) => u,
            None => 0,
        },
        subject: subject_s,
        from,
        date,
        body_preview: string_of(pv.as_slice()),
        body_full,
    }
}

} // verus!
