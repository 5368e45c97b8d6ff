//! What reading gives back of writing for the contacts file: every contact
//! the writer puts down is read back with all its fields and its
//! identifier.

use vstd::prelude::*;

use crate::dates::{date_iso, date_of, lemma_iso_date_roundtrip, max_day, min_day};
use crate::ids::{lemma_uuid_text_roundtrip, uuid_text, Uuid};
use crate::sync::carddav::{
    category_text, contact_head, contact_mid, contact_org, contact_prop, contact_tail, contacts_of_org,
    contacts_org, named, no_id, opt_prop, org_lines, org_step, strip_lead, strip_trail, ContactCategory,
    ContactView, OrgState,
};
use crate::sync::multistatus::eq_ignore_ascii_case;
use crate::text::{
    has_prefix_at, is_ascii_digit, is_ws, lemma_back_ws_at, lemma_lines_nl_text, lemma_nl_text_append, lemma_skip_ws_at,
    lemma_trim_ws_then, lines, nl_text, plain_line, trim, trimmed,
};

verus! {

/// A text field the contacts file reads back: no whitespace at either end,
/// no line feed.
pub open spec fn field_ok(x: Seq<char>) -> bool {
    trimmed(x) && forall|i: int| 0 <= i < x.len() ==> #[trigger] x[i] != '\n'
}

pub open spec fn opt_field_ok(x: Option<Seq<char>>) -> bool {
    x matches Some(v) ==> field_ok(v)
}

/// A contact the file reads back as written: its texts are trimmed and on
/// one line, and its last-contacted date is a valid date.
pub open spec fn contact_writable(c: ContactView) -> bool {
    &&& field_ok(c.name)
    &&& opt_field_ok(c.email)
    &&& opt_field_ok(c.phone)
    &&& opt_field_ok(c.website)
    &&& opt_field_ok(c.signal)
    &&& opt_field_ok(c.preferred_method)
    &&& opt_field_ok(c.sync_href)
    &&& (c.last_contacted matches Some(n) ==> min_day() <= n <= max_day())
}

/// A property line: two spaces, `:KEY:`, a space and the value.
pub open spec fn prop_ln(kp: Seq<char>, x: Seq<char>) -> Seq<char> {
    seq![' ', ' '] + kp + seq![' '] + x
}

pub open spec fn opt_ln(kp: Seq<char>, v: Option<Seq<char>>) -> Seq<Seq<char>> {
    match v {
        Some(x) => seq![prop_ln(kp, x)],
        None => seq![],
    }
}

pub open spec fn last_text(n: int) -> Seq<char> {
    seq!['['] + date_iso(date_of(n)) + seq![']']
}

pub open spec fn head_lines(c: ContactView) -> Seq<Seq<char>> {
    seq!["* "@ + c.name, "  :PROPERTIES:"@, prop_ln(":ID:"@, uuid_text(c.id.value))]
}

pub open spec fn cat_lines(c: ContactView) -> Seq<Seq<char>> {
    if c.category != ContactCategory::Personal {
        seq![prop_ln(":CATEGORY:"@, category_text(c.category))]
    } else {
        seq![]
    }
}

pub open spec fn last_lines(c: ContactView) -> Seq<Seq<char>> {
    match c.last_contacted {
        Some(n) => seq![prop_ln(":LAST_CONTACTED:"@, last_text(n))],
        None => seq![],
    }
}

pub open spec fn mid_lines(c: ContactView) -> Seq<Seq<char>> {
    opt_ln(":EMAIL:"@, c.email) + opt_ln(":PHONE:"@, c.phone) + opt_ln(":WEBSITE:"@, c.website) + opt_ln(
        ":SIGNAL:"@,
        c.signal,
    ) + opt_ln(":PREFERRED_METHOD:"@, c.preferred_method)
}

pub open spec fn tail_lines(c: ContactView) -> Seq<Seq<char>> {
    cat_lines(c) + last_lines(c) + opt_ln(":SYNC_HREF:"@, c.sync_href) + seq!["  :END:"@]
}

/// The lines of a contact's entry.
pub open spec fn contact_lines(c: ContactView) -> Seq<Seq<char>> {
    head_lines(c) + mid_lines(c) + tail_lines(c)
}

pub open spec fn all_lines(cs: Seq<ContactView>) -> Seq<Seq<char>>
    decreases cs.len(),
{
    if cs.len() == 0 {
        seq![]
    } else {
        all_lines(cs.drop_last()) + contact_lines(cs.last())
    }
}

// ---------------------------------------------------------------- the text

proof fn lemma_nl_one(l: Seq<char>)
    ensures
        nl_text(seq![l]) == l + seq!['\n'],
{
    assert(seq![l].drop_last() =~= Seq::<Seq<char>>::empty());
    assert(nl_text(Seq::<Seq<char>>::empty()) =~= Seq::<char>::empty());
    assert(nl_text(seq![l]) =~= l + seq!['\n']);
}

proof fn lemma_nl_empty()
    ensures
        nl_text(Seq::<Seq<char>>::empty()) == Seq::<char>::empty(),
{
}

proof fn lemma_opt_text(key: Seq<char>, kp: Seq<char>, v: Option<Seq<char>>)
    requires
        kp == seq![':'] + key + seq![':'],
    ensures
        opt_prop(key, v) == nl_text(opt_ln(kp, v)),
{
    reveal_strlit("  :");
    reveal_strlit(": ");
    reveal_strlit("\n");
    match v {
        Some(x) => {
            lemma_nl_one(prop_ln(kp, x));
            assert(opt_prop(key, v) =~= nl_text(opt_ln(kp, v)));
        },
        None => {
            lemma_nl_empty();
        },
    }
}

proof fn lemma_head_text(c: ContactView)
    ensures
        contact_head(c) == nl_text(head_lines(c)),
{
    reveal_strlit("* ");
    reveal_strlit("\n");
    reveal_strlit("  :PROPERTIES:\n");
    reveal_strlit("  :PROPERTIES:");
    reveal_strlit("  :ID: ");
    reveal_strlit(":ID:");
    let a = "* "@ + c.name;
    let b = "  :PROPERTIES:"@;
    let d = prop_ln(":ID:"@, uuid_text(c.id.value));
    lemma_nl_one(a);
    lemma_nl_one(b);
    lemma_nl_one(d);
    lemma_nl_text_append(seq![a], seq![b]);
    lemma_nl_text_append(seq![a] + seq![b], seq![d]);
    assert(head_lines(c) =~= seq![a] + seq![b] + seq![d]);
    assert(contact_head(c) =~= nl_text(head_lines(c)));
}

proof fn lemma_mid_text(c: ContactView)
    ensures
        contact_mid(c) == nl_text(mid_lines(c)),
{
    reveal_strlit("EMAIL");
    reveal_strlit(":EMAIL:");
    assert(":EMAIL:"@ =~= seq![':'] + "EMAIL"@ + seq![':']);
    lemma_opt_text("EMAIL"@, ":EMAIL:"@, c.email);
    reveal_strlit("PHONE");
    reveal_strlit(":PHONE:");
    assert(":PHONE:"@ =~= seq![':'] + "PHONE"@ + seq![':']);
    lemma_opt_text("PHONE"@, ":PHONE:"@, c.phone);
    reveal_strlit("WEBSITE");
    reveal_strlit(":WEBSITE:");
    assert(":WEBSITE:"@ =~= seq![':'] + "WEBSITE"@ + seq![':']);
    lemma_opt_text("WEBSITE"@, ":WEBSITE:"@, c.website);
    reveal_strlit("SIGNAL");
    reveal_strlit(":SIGNAL:");
    assert(":SIGNAL:"@ =~= seq![':'] + "SIGNAL"@ + seq![':']);
    lemma_opt_text("SIGNAL"@, ":SIGNAL:"@, c.signal);
    reveal_strlit("PREFERRED_METHOD");
    reveal_strlit(":PREFERRED_METHOD:");
    assert(":PREFERRED_METHOD:"@ =~= seq![':'] + "PREFERRED_METHOD"@ + seq![':']);
    lemma_opt_text("PREFERRED_METHOD"@, ":PREFERRED_METHOD:"@, c.preferred_method);
    let e = opt_ln(":EMAIL:"@, c.email);
    let p = opt_ln(":PHONE:"@, c.phone);
    let w = opt_ln(":WEBSITE:"@, c.website);
    let s = opt_ln(":SIGNAL:"@, c.signal);
    let m = opt_ln(":PREFERRED_METHOD:"@, c.preferred_method);
    lemma_nl_text_append(e, p);
    lemma_nl_text_append(e + p, w);
    lemma_nl_text_append(e + p + w, s);
    lemma_nl_text_append(e + p + w + s, m);
}

proof fn lemma_tail_text(c: ContactView)
    ensures
        contact_tail(c) == nl_text(tail_lines(c)),
{
    reveal_strlit("  :CATEGORY: ");
    reveal_strlit(":CATEGORY:");
    reveal_strlit("  :LAST_CONTACTED: [");
    reveal_strlit(":LAST_CONTACTED:");
    reveal_strlit("]\n");
    reveal_strlit("\n");
    reveal_strlit("SYNC_HREF");
    reveal_strlit(":SYNC_HREF:");
    reveal_strlit("  :END:\n");
    reveal_strlit("  :END:");
    let ct = cat_lines(c);
    let lt = last_lines(c);
    let yt = opt_ln(":SYNC_HREF:"@, c.sync_href);
    let et = seq!["  :END:"@];
    assert(":SYNC_HREF:"@ =~= seq![':'] + "SYNC_HREF"@ + seq![':']);
    lemma_opt_text("SYNC_HREF"@, ":SYNC_HREF:"@, c.sync_href);
    if c.category != ContactCategory::Personal {
        lemma_nl_one(prop_ln(":CATEGORY:"@, category_text(c.category)));
    }
    match c.last_contacted {
        Some(n) => lemma_nl_one(prop_ln(":LAST_CONTACTED:"@, last_text(n))),
        None => {},
    }
    lemma_nl_one("  :END:"@);
    lemma_nl_text_append(ct, lt);
    lemma_nl_text_append(ct + lt, yt);
    lemma_nl_text_append(ct + lt + yt, et);
    let cat_text = if c.category != ContactCategory::Personal {
        "  :CATEGORY: "@ + category_text(c.category) + "\n"@
    } else {
        seq![]
    };
    assert(cat_text =~= nl_text(ct));
    let last_t = match c.last_contacted {
        Some(d) => "  :LAST_CONTACTED: ["@ + date_iso(date_of(d)) + "]\n"@,
        None => seq![],
    };
    assert(last_t =~= nl_text(lt));
    assert(contact_tail(c) =~= nl_text(tail_lines(c)));
}

proof fn lemma_contact_text(c: ContactView)
    ensures
        contact_org(c) == nl_text(contact_lines(c)),
{
    lemma_head_text(c);
    lemma_mid_text(c);
    lemma_tail_text(c);
    lemma_nl_text_append(head_lines(c), mid_lines(c));
    lemma_nl_text_append(head_lines(c) + mid_lines(c), tail_lines(c));
}

proof fn lemma_contacts_text(cs: Seq<ContactView>)
    ensures
        contacts_org(cs) == nl_text(all_lines(cs)),
    decreases cs.len(),
{
    if cs.len() > 0 {
        lemma_contacts_text(cs.drop_last());
        lemma_contact_text(cs.last());
        lemma_nl_text_append(all_lines(cs.drop_last()), contact_lines(cs.last()));
    }
}


// ---------------------------------------------------------------- reading

pub open spec fn org_start() -> OrgState {
    OrgState { done: seq![], current: None, in_props: false }
}

/// Reading the lines `ls` from the state `st`.
pub open spec fn org_run(st: OrgState, ls: Seq<Seq<char>>) -> OrgState
    decreases ls.len(),
{
    if ls.len() == 0 {
        st
    } else {
        org_step(org_run(st, ls.drop_last()), ls.last())
    }
}

/// The finished entries and the one being read.
pub open spec fn pushed(st: OrgState) -> Seq<(bool, ContactView)> {
    match st.current {
        Some(x) => st.done.push(x),
        None => st.done,
    }
}

proof fn lemma_org_run_append(st: OrgState, a: Seq<Seq<char>>, b: Seq<Seq<char>>)
    ensures
        org_run(st, a + b) == org_run(org_run(st, a), b),
    decreases b.len(),
{
    if b.len() == 0 {
        assert(a + b =~= a);
    } else {
        lemma_org_run_append(st, a, b.drop_last());
        assert((a + b).drop_last() =~= a + b.drop_last());
        assert((a + b).last() == b.last());
    }
}

proof fn lemma_org_run_one(st: OrgState, l: Seq<char>)
    ensures
        org_run(st, seq![l]) == org_step(st, l),
{
    assert(seq![l].drop_last() =~= Seq::<Seq<char>>::empty());
    assert(org_run(st, Seq::<Seq<char>>::empty()) == st);
    assert(seq![l].last() == l);
}

proof fn lemma_org_lines_run(ls: Seq<Seq<char>>, n: int)
    requires
        0 <= n <= ls.len(),
    ensures
        org_lines(ls, n) == org_run(org_start(), ls.take(n)),
    decreases n,
{
    if n > 0 {
        lemma_org_lines_run(ls, n - 1);
        assert(ls.take(n).drop_last() =~= ls.take(n - 1));
        assert(ls.take(n).last() == ls[n - 1]);
    } else {
        assert(ls.take(0) =~= Seq::<Seq<char>>::empty());
    }
}

/// The trimmed text of a property line.
pub open spec fn prop_trim(kp: Seq<char>, x: Seq<char>) -> Seq<char> {
    if x.len() > 0 {
        kp + seq![' '] + x
    } else {
        kp
    }
}

proof fn lemma_trim_prop(kp: Seq<char>, x: Seq<char>)
    requires
        kp.len() >= 2,
        kp[0] == ':',
        kp.last() == ':',
        field_ok(x),
    ensures
        trim(prop_ln(kp, x)) == prop_trim(kp, x),
        trim(prop_trim(kp, x).skip(kp.len() as int)) == x,
        prop_trim(kp, x).subrange(0, kp.len() as int) == kp,
{
    let line = prop_ln(kp, x);
    let y = kp + seq![' '] + x;
    assert(line =~= seq![' ', ' '] + y);
    assert(prop_trim(kp, x).subrange(0, kp.len() as int) =~= kp);
    if x.len() > 0 {
        assert(y[0] == kp[0] && y.last() == x.last());
        lemma_trim_ws_then(seq![' ', ' '], y);
        assert(y.skip(kp.len() as int) =~= seq![' '] + x);
        lemma_trim_ws_then(seq![' '], x);
    } else {
        assert(line[2] == ':');
        lemma_skip_ws_at(line, 0, 2);
        let z = line.skip(2);
        assert(z =~= kp + seq![' ']);
        assert(z[kp.len() - 1] == ':');
        lemma_back_ws_at(z, z.len() as int, kp.len() as int);
        assert(z.take(kp.len() as int) =~= kp);
        assert(kp.skip(kp.len() as int) =~= Seq::<char>::empty());
        lemma_trim_ws_then(Seq::<char>::empty(), Seq::<char>::empty());
        assert(Seq::<char>::empty() + Seq::<char>::empty() =~= Seq::<char>::empty());
    }
}

/// A property line inside the drawer goes to the entry being read.
proof fn lemma_prop_step(st: OrgState, kp: Seq<char>, x: Seq<char>)
    requires
        st.in_props,
        st.current is Some,
        kp.len() >= 2,
        kp[0] == ':',
        kp.last() == ':',
        field_ok(x),
        prop_trim(kp, x) != ":PROPERTIES:"@,
        prop_trim(kp, x) != ":END:"@,
    ensures
        org_step(st, prop_ln(kp, x)) == (OrgState {
            current: Some(contact_prop(st.current->0, prop_trim(kp, x))),
            ..st
        }),
{
    reveal_strlit("* ");
    lemma_trim_prop(kp, x);
    let line = prop_ln(kp, x);
    assert(line[0] == ' ');
    assert(!has_prefix_at(line, 0, "* "@)) by {
        if has_prefix_at(line, 0, "* "@) {
            assert(line.subrange(0, 2)[0] == '*');
        }
    }
}

proof fn lemma_email_stage(st: OrgState, v: ContactView, x: Option<Seq<char>>)
    requires
        st.in_props,
        st.current == Some((true, v)),
        opt_field_ok(x),
    ensures
        org_run(st, opt_ln(":EMAIL:"@, x)) == (OrgState {
            current: Some((true, ContactView { email: match x {
                Some(y) => Some(y),
                None => v.email,
            }, ..v })),
            ..st
        }),
{
    reveal_strlit(":ID:");
    reveal_strlit(":EMAIL:");
    reveal_strlit(":PHONE:");
    reveal_strlit(":WEBSITE:");
    reveal_strlit(":SIGNAL:");
    reveal_strlit(":PREFERRED_METHOD:");
    reveal_strlit(":CATEGORY:");
    reveal_strlit(":LAST_CONTACTED:");
    reveal_strlit(":SYNC_HREF:");
    reveal_strlit(":PROPERTIES:");
    reveal_strlit(":END:");
    match x {
        Some(y) => {
            let kp = ":EMAIL:"@;
            let t = prop_trim(kp, y);
            lemma_trim_prop(kp, y);
            assert(t[1] == kp[1] && t[2] == kp[2]);
            assert(t != ":PROPERTIES:"@) by {
                if t == ":PROPERTIES:"@ {
                    assert(t[1] == 'P' && t[2] == 'R' && t[3] == 'O');
                    assert(t[3] == kp[3]);
                }
            }
            assert(t != ":END:"@) by {
                if t == ":END:"@ {
                    assert(t[1] == 'E' && t[2] == 'N');
                }
            }
            lemma_prop_step(st, kp, y);
            lemma_org_run_one(st, prop_ln(kp, y));
            assert(has_prefix_at(t, 0, kp));
        },
        None => {
            assert(opt_ln(":EMAIL:"@, x) =~= Seq::<Seq<char>>::empty());
        },
    }
}

proof fn lemma_phone_stage(st: OrgState, v: ContactView, x: Option<Seq<char>>)
    requires
        st.in_props,
        st.current == Some((true, v)),
        opt_field_ok(x),
    ensures
        org_run(st, opt_ln(":PHONE:"@, x)) == (OrgState {
            current: Some((true, ContactView { phone: match x {
                Some(y) => Some(y),
                None => v.phone,
            }, ..v })),
            ..st
        }),
{
    reveal_strlit(":ID:");
    reveal_strlit(":EMAIL:");
    reveal_strlit(":PHONE:");
    reveal_strlit(":WEBSITE:");
    reveal_strlit(":SIGNAL:");
    reveal_strlit(":PREFERRED_METHOD:");
    reveal_strlit(":CATEGORY:");
    reveal_strlit(":LAST_CONTACTED:");
    reveal_strlit(":SYNC_HREF:");
    reveal_strlit(":PROPERTIES:");
    reveal_strlit(":END:");
    match x {
        Some(y) => {
            let kp = ":PHONE:"@;
            let t = prop_trim(kp, y);
            lemma_trim_prop(kp, y);
            assert(t[1] == kp[1] && t[2] == kp[2]);
            assert(t != ":PROPERTIES:"@) by {
                if t == ":PROPERTIES:"@ {
                    assert(t[1] == 'P' && t[2] == 'R' && t[3] == 'O');
                    assert(t[3] == kp[3]);
                }
            }
            assert(t != ":END:"@) by {
                if t == ":END:"@ {
                    assert(t[1] == 'E' && t[2] == 'N');
                }
            }
            lemma_prop_step(st, kp, y);
            lemma_org_run_one(st, prop_ln(kp, y));
    assert(!has_prefix_at(t, 0, ":ID:"@)) by {
        if has_prefix_at(t, 0, ":ID:"@) {
            assert(t.subrange(0, 4)[1] == ":ID:"@[1]);
        }
    }
    assert(!has_prefix_at(t, 0, ":EMAIL:"@)) by {
        if has_prefix_at(t, 0, ":EMAIL:"@) {
            assert(t.subrange(0, 7)[1] == ":EMAIL:"@[1]);
        }
    }
            assert(has_prefix_at(t, 0, kp));
        },
        None => {
            assert(opt_ln(":PHONE:"@, x) =~= Seq::<Seq<char>>::empty());
        },
    }
}

proof fn lemma_website_stage(st: OrgState, v: ContactView, x: Option<Seq<char>>)
    requires
        st.in_props,
        st.current == Some((true, v)),
        opt_field_ok(x),
    ensures
        org_run(st, opt_ln(":WEBSITE:"@, x)) == (OrgState {
            current: Some((true, ContactView { website: match x {
                Some(y) => Some(y),
                None => v.website,
            }, ..v })),
            ..st
        }),
{
    reveal_strlit(":ID:");
    reveal_strlit(":EMAIL:");
    reveal_strlit(":PHONE:");
    reveal_strlit(":WEBSITE:");
    reveal_strlit(":SIGNAL:");
    reveal_strlit(":PREFERRED_METHOD:");
    reveal_strlit(":CATEGORY:");
    reveal_strlit(":LAST_CONTACTED:");
    reveal_strlit(":SYNC_HREF:");
    reveal_strlit(":PROPERTIES:");
    reveal_strlit(":END:");
    match x {
        Some(y) => {
            let kp = ":WEBSITE:"@;
            let t = prop_trim(kp, y);
            lemma_trim_prop(kp, y);
            assert(t[1] == kp[1] && t[2] == kp[2]);
            assert(t != ":PROPERTIES:"@) by {
                if t == ":PROPERTIES:"@ {
                    assert(t[1] == 'P' && t[2] == 'R' && t[3] == 'O');
                    assert(t[3] == kp[3]);
                }
            }
            assert(t != ":END:"@) by {
                if t == ":END:"@ {
                    assert(t[1] == 'E' && t[2] == 'N');
                }
            }
            lemma_prop_step(st, kp, y);
            lemma_org_run_one(st, prop_ln(kp, y));
    assert(!has_prefix_at(t, 0, ":ID:"@)) by {
        if has_prefix_at(t, 0, ":ID:"@) {
            assert(t.subrange(0, 4)[1] == ":ID:"@[1]);
        }
    }
    assert(!has_prefix_at(t, 0, ":EMAIL:"@)) by {
        if has_prefix_at(t, 0, ":EMAIL:"@) {
            assert(t.subrange(0, 7)[1] == ":EMAIL:"@[1]);
        }
    }
    assert(!has_prefix_at(t, 0, ":PHONE:"@)) by {
        if has_prefix_at(t, 0, ":PHONE:"@) {
            assert(t.subrange(0, 7)[1] == ":PHONE:"@[1]);
        }
    }
            assert(has_prefix_at(t, 0, kp));
        },
        None => {
            assert(opt_ln(":WEBSITE:"@, x) =~= Seq::<Seq<char>>::empty());
        },
    }
}

proof fn lemma_signal_stage(st: OrgState, v: ContactView, x: Option<Seq<char>>)
    requires
        st.in_props,
        st.current == Some((true, v)),
        opt_field_ok(x),
    ensures
        org_run(st, opt_ln(":SIGNAL:"@, x)) == (OrgState {
            current: Some((true, ContactView { signal: match x {
                Some(y) => Some(y),
                None => v.signal,
            }, ..v })),
            ..st
        }),
{
    reveal_strlit(":ID:");
    reveal_strlit(":EMAIL:");
    reveal_strlit(":PHONE:");
    reveal_strlit(":WEBSITE:");
    reveal_strlit(":SIGNAL:");
    reveal_strlit(":PREFERRED_METHOD:");
    reveal_strlit(":CATEGORY:");
    reveal_strlit(":LAST_CONTACTED:");
    reveal_strlit(":SYNC_HREF:");
    reveal_strlit(":PROPERTIES:");
    reveal_strlit(":END:");
    match x {
        Some(y) => {
            let kp = ":SIGNAL:"@;
            let t = prop_trim(kp, y);
            lemma_trim_prop(kp, y);
            assert(t[1] == kp[1] && t[2] == kp[2]);
            assert(t != ":PROPERTIES:"@) by {
                if t == ":PROPERTIES:"@ {
                    assert(t[1] == 'P' && t[2] == 'R' && t[3] == 'O');
                    assert(t[3] == kp[3]);
                }
            }
            assert(t != ":END:"@) by {
                if t == ":END:"@ {
                    assert(t[1] == 'E' && t[2] == 'N');
                }
            }
            lemma_prop_step(st, kp, y);
            lemma_org_run_one(st, prop_ln(kp, y));
    assert(!has_prefix_at(t, 0, ":ID:"@)) by {
        if has_prefix_at(t, 0, ":ID:"@) {
            assert(t.subrange(0, 4)[1] == ":ID:"@[1]);
        }
    }
    assert(!has_prefix_at(t, 0, ":EMAIL:"@)) by {
        if has_prefix_at(t, 0, ":EMAIL:"@) {
            assert(t.subrange(0, 7)[1] == ":EMAIL:"@[1]);
        }
    }
    assert(!has_prefix_at(t, 0, ":PHONE:"@)) by {
        if has_prefix_at(t, 0, ":PHONE:"@) {
            assert(t.subrange(0, 7)[1] == ":PHONE:"@[1]);
        }
    }
    assert(!has_prefix_at(t, 0, ":WEBSITE:"@)) by {
        if has_prefix_at(t, 0, ":WEBSITE:"@) {
            assert(t.subrange(0, 9)[1] == ":WEBSITE:"@[1]);
        }
    }
            assert(has_prefix_at(t, 0, kp));
        },
        None => {
            assert(opt_ln(":SIGNAL:"@, x) =~= Seq::<Seq<char>>::empty());
        },
    }
}

proof fn lemma_preferred_method_stage(st: OrgState, v: ContactView, x: Option<Seq<char>>)
    requires
        st.in_props,
        st.current == Some((true, v)),
        opt_field_ok(x),
    ensures
        org_run(st, opt_ln(":PREFERRED_METHOD:"@, x)) == (OrgState {
            current: Some((true, ContactView { preferred_method: match x {
                Some(y) => Some(y),
                None => v.preferred_method,
            }, ..v })),
            ..st
        }),
{
    reveal_strlit(":ID:");
    reveal_strlit(":EMAIL:");
    reveal_strlit(":PHONE:");
    reveal_strlit(":WEBSITE:");
    reveal_strlit(":SIGNAL:");
    reveal_strlit(":PREFERRED_METHOD:");
    reveal_strlit(":CATEGORY:");
    reveal_strlit(":LAST_CONTACTED:");
    reveal_strlit(":SYNC_HREF:");
    reveal_strlit(":PROPERTIES:");
    reveal_strlit(":END:");
    match x {
        Some(y) => {
            let kp = ":PREFERRED_METHOD:"@;
            let t = prop_trim(kp, y);
            lemma_trim_prop(kp, y);
            assert(t[1] == kp[1] && t[2] == kp[2]);
            assert(t != ":PROPERTIES:"@) by {
                if t == ":PROPERTIES:"@ {
                    assert(t[1] == 'P' && t[2] == 'R' && t[3] == 'O');
                    assert(t[3] == kp[3]);
                }
            }
            assert(t != ":END:"@) by {
                if t == ":END:"@ {
                    assert(t[1] == 'E' && t[2] == 'N');
                }
            }
            lemma_prop_step(st, kp, y);
            lemma_org_run_one(st, prop_ln(kp, y));
    assert(!has_prefix_at(t, 0, ":ID:"@)) by {
        if has_prefix_at(t, 0, ":ID:"@) {
            assert(t.subrange(0, 4)[1] == ":ID:"@[1]);
        }
    }
    assert(!has_prefix_at(t, 0, ":EMAIL:"@)) by {
        if has_prefix_at(t, 0, ":EMAIL:"@) {
            assert(t.subrange(0, 7)[1] == ":EMAIL:"@[1]);
        }
    }
    assert(!has_prefix_at(t, 0, ":PHONE:"@)) by {
        if has_prefix_at(t, 0, ":PHONE:"@) {
            assert(t.subrange(0, 7)[2] == ":PHONE:"@[2]);
        }
    }
    assert(!has_prefix_at(t, 0, ":WEBSITE:"@)) by {
        if has_prefix_at(t, 0, ":WEBSITE:"@) {
            assert(t.subrange(0, 9)[1] == ":WEBSITE:"@[1]);
        }
    }
    assert(!has_prefix_at(t, 0, ":SIGNAL:"@)) by {
        if has_prefix_at(t, 0, ":SIGNAL:"@) {
            assert(t.subrange(0, 8)[1] == ":SIGNAL:"@[1]);
        }
    }
            assert(has_prefix_at(t, 0, kp));
        },
        None => {
            assert(opt_ln(":PREFERRED_METHOD:"@, x) =~= Seq::<Seq<char>>::empty());
        },
    }
}


proof fn lemma_head_stage(st: OrgState, c: ContactView)
    requires
        field_ok(c.name),
    ensures
        org_run(st, head_lines(c)) == (OrgState {
            done: pushed(st),
            current: Some((true, ContactView { id: c.id, ..named(no_id(), c.name) })),
            in_props: true,
        }),
{
    reveal_strlit(":ID:");
    reveal_strlit(":EMAIL:");
    reveal_strlit(":PHONE:");
    reveal_strlit(":WEBSITE:");
    reveal_strlit(":SIGNAL:");
    reveal_strlit(":PREFERRED_METHOD:");
    reveal_strlit(":CATEGORY:");
    reveal_strlit(":LAST_CONTACTED:");
    reveal_strlit(":SYNC_HREF:");
    reveal_strlit("* ");
    reveal_strlit("  :PROPERTIES:");
    reveal_strlit(":PROPERTIES:");
    reveal_strlit(":END:");
    let l1 = "* "@ + c.name;
    let l2 = "  :PROPERTIES:"@;
    let uuid = uuid_text(c.id.value);
    let l3 = prop_ln(":ID:"@, uuid);
    assert(head_lines(c) =~= seq![l1] + seq![l2] + seq![l3]);
    lemma_org_run_append(st, seq![l1] + seq![l2], seq![l3]);
    lemma_org_run_append(st, seq![l1], seq![l2]);
    lemma_org_run_one(st, l1);
    // The heading.
    assert(l1.subrange(0, 2) =~= "* "@);
    assert(l1.skip(2) =~= c.name);
    lemma_trim_ws_then(Seq::<char>::empty(), c.name);
    assert(Seq::<char>::empty() + c.name =~= c.name);
    let s1 = OrgState { done: pushed(st), current: Some((false, named(no_id(), c.name))), in_props: false };
    assert(org_step(st, l1) == s1);
    // The drawer opens.
    lemma_org_run_one(s1, l2);
    assert(l2 =~= seq![' ', ' '] + ":PROPERTIES:"@);
    lemma_trim_ws_then(seq![' ', ' '], ":PROPERTIES:"@);
    assert(!has_prefix_at(l2, 0, "* "@)) by {
        if has_prefix_at(l2, 0, "* "@) {
            assert(l2.subrange(0, 2)[0] == '*');
        }
    }
    let s2 = OrgState { in_props: true, ..s1 };
    assert(org_step(s1, l2) == s2);
    // The identifier.
    lemma_org_run_one(s2, l3);
    lemma_uuid_text_roundtrip(c.id.value);
    assert forall|i: int| 0 <= i < uuid.len() implies #[trigger] uuid[i] != '\n' by {
        assert(!is_ws(uuid[i]));
    }
    assert(!is_ws(uuid[0]) && !is_ws(uuid.last()));
    let kp = ":ID:"@;
    lemma_trim_prop(kp, uuid);
    let t = prop_trim(kp, uuid);
    assert(t[1] == 'I');
    assert(t != ":PROPERTIES:"@) by {
        if t == ":PROPERTIES:"@ {
            assert(t[1] == 'P');
        }
    }
    assert(t != ":END:"@) by {
        if t == ":END:"@ {
            assert(t[1] == 'E');
        }
    }
    lemma_prop_step(s2, kp, uuid);
    assert(has_prefix_at(t, 0, kp));
    assert(Uuid { value: c.id.value } == c.id);
}

proof fn lemma_cat_stage(st: OrgState, v: ContactView, c: ContactView)
    requires
        st.in_props,
        st.current == Some((true, v)),
        v.category == ContactCategory::Personal,
    ensures
        org_run(st, cat_lines(c)) == (OrgState {
            current: Some((true, ContactView { category: c.category, ..v })),
            ..st
        }),
{
    reveal_strlit(":ID:");
    reveal_strlit(":EMAIL:");
    reveal_strlit(":PHONE:");
    reveal_strlit(":WEBSITE:");
    reveal_strlit(":SIGNAL:");
    reveal_strlit(":PREFERRED_METHOD:");
    reveal_strlit(":CATEGORY:");
    reveal_strlit(":LAST_CONTACTED:");
    reveal_strlit(":SYNC_HREF:");
    reveal_strlit(":PROPERTIES:");
    reveal_strlit(":END:");
    reveal_strlit("Service");
    if c.category != ContactCategory::Personal {
        let kp = ":CATEGORY:"@;
        let x = category_text(c.category);
        assert(x == "Service"@);
        assert(field_ok(x));
        let t = prop_trim(kp, x);
        lemma_trim_prop(kp, x);
        assert(t[1] == 'C');
        assert(t != ":PROPERTIES:"@) by {
            if t == ":PROPERTIES:"@ {
                assert(t[1] == 'P');
            }
        }
        assert(t != ":END:"@) by {
            if t == ":END:"@ {
                assert(t[1] == 'E');
            }
        }
        lemma_prop_step(st, kp, x);
        lemma_org_run_one(st, prop_ln(kp, x));
    assert(!has_prefix_at(t, 0, ":ID:"@)) by {
        if has_prefix_at(t, 0, ":ID:"@) {
            assert(t.subrange(0, 4)[1] == ":ID:"@[1]);
        }
    }
    assert(!has_prefix_at(t, 0, ":EMAIL:"@)) by {
        if has_prefix_at(t, 0, ":EMAIL:"@) {
            assert(t.subrange(0, 7)[1] == ":EMAIL:"@[1]);
        }
    }
    assert(!has_prefix_at(t, 0, ":PHONE:"@)) by {
        if has_prefix_at(t, 0, ":PHONE:"@) {
            assert(t.subrange(0, 7)[1] == ":PHONE:"@[1]);
        }
    }
    assert(!has_prefix_at(t, 0, ":WEBSITE:"@)) by {
        if has_prefix_at(t, 0, ":WEBSITE:"@) {
            assert(t.subrange(0, 9)[1] == ":WEBSITE:"@[1]);
        }
    }
    assert(!has_prefix_at(t, 0, ":SIGNAL:"@)) by {
        if has_prefix_at(t, 0, ":SIGNAL:"@) {
            assert(t.subrange(0, 8)[1] == ":SIGNAL:"@[1]);
        }
    }
    assert(!has_prefix_at(t, 0, ":PREFERRED_METHOD:"@)) by {
        if has_prefix_at(t, 0, ":PREFERRED_METHOD:"@) {
            assert(t.subrange(0, 18)[1] == ":PREFERRED_METHOD:"@[1]);
        }
    }
        assert(has_prefix_at(t, 0, kp));
        assert(eq_ignore_ascii_case(x, "Service"@));
    } else {
        assert(cat_lines(c) =~= Seq::<Seq<char>>::empty());
    }
}

proof fn lemma_last_stage(st: OrgState, v: ContactView, c: ContactView)
    requires
        st.in_props,
        st.current == Some((true, v)),
        v.last_contacted is None,
        c.last_contacted matches Some(n) ==> min_day() <= n <= max_day(),
    ensures
        org_run(st, last_lines(c)) == (OrgState {
            current: Some((true, ContactView { last_contacted: c.last_contacted, ..v })),
            ..st
        }),
{
    reveal_strlit(":ID:");
    reveal_strlit(":EMAIL:");
    reveal_strlit(":PHONE:");
    reveal_strlit(":WEBSITE:");
    reveal_strlit(":SIGNAL:");
    reveal_strlit(":PREFERRED_METHOD:");
    reveal_strlit(":CATEGORY:");
    reveal_strlit(":LAST_CONTACTED:");
    reveal_strlit(":SYNC_HREF:");
    reveal_strlit(":PROPERTIES:");
    reveal_strlit(":END:");
    match c.last_contacted {
        Some(n) => {
            let kp = ":LAST_CONTACTED:"@;
            lemma_iso_date_roundtrip(n);
            let iso = date_iso(date_of(n));
            let x = last_text(n);
            assert forall|i: int| 0 <= i < x.len() implies #[trigger] x[i] != '\n' by {
                if 1 <= i < x.len() - 1 {
                    assert(x[i] == iso[i - 1]);
                    assert(is_ascii_digit(iso[i - 1]) || iso[i - 1] == '-' || iso[i - 1] == '+');
                }
            }
            assert(x[0] == '[' && x.last() == ']');
            assert(field_ok(x));
            let t = prop_trim(kp, x);
            lemma_trim_prop(kp, x);
            assert(t[1] == 'L');
            assert(t != ":PROPERTIES:"@) by {
                if t == ":PROPERTIES:"@ {
                    assert(t[1] == 'P');
                }
            }
            assert(t != ":END:"@) by {
                if t == ":END:"@ {
                    assert(t[1] == 'E');
                }
            }
            lemma_prop_step(st, kp, x);
            lemma_org_run_one(st, prop_ln(kp, x));
    assert(!has_prefix_at(t, 0, ":ID:"@)) by {
        if has_prefix_at(t, 0, ":ID:"@) {
            assert(t.subrange(0, 4)[1] == ":ID:"@[1]);
        }
    }
    assert(!has_prefix_at(t, 0, ":EMAIL:"@)) by {
        if has_prefix_at(t, 0, ":EMAIL:"@) {
            assert(t.subrange(0, 7)[1] == ":EMAIL:"@[1]);
        }
    }
    assert(!has_prefix_at(t, 0, ":PHONE:"@)) by {
        if has_prefix_at(t, 0, ":PHONE:"@) {
            assert(t.subrange(0, 7)[1] == ":PHONE:"@[1]);
        }
    }
    assert(!has_prefix_at(t, 0, ":WEBSITE:"@)) by {
        if has_prefix_at(t, 0, ":WEBSITE:"@) {
            assert(t.subrange(0, 9)[1] == ":WEBSITE:"@[1]);
        }
    }
    assert(!has_prefix_at(t, 0, ":SIGNAL:"@)) by {
        if has_prefix_at(t, 0, ":SIGNAL:"@) {
            assert(t.subrange(0, 8)[1] == ":SIGNAL:"@[1]);
        }
    }
    assert(!has_prefix_at(t, 0, ":PREFERRED_METHOD:"@)) by {
        if has_prefix_at(t, 0, ":PREFERRED_METHOD:"@) {
            assert(t.subrange(0, 18)[1] == ":PREFERRED_METHOD:"@[1]);
        }
    }
    assert(!has_prefix_at(t, 0, ":CATEGORY:"@)) by {
        if has_prefix_at(t, 0, ":CATEGORY:"@) {
            assert(t.subrange(0, 10)[1] == ":CATEGORY:"@[1]);
        }
    }
            assert(has_prefix_at(t, 0, kp));
            let y = x.drop_first();
            assert(y =~= iso + seq![']']);
            assert(is_ascii_digit(iso[0]) || iso[0] == '-' || iso[0] == '+');
            assert(y[0] == iso[0]);
            assert(strip_lead(y, '[') == y);
            assert(strip_lead(x, '[') == y);
            assert(y.drop_last() =~= iso);
            assert(is_ascii_digit(iso[iso.len() - 1]) || iso[iso.len() - 1] == '-' || iso[iso.len() - 1] == '+');
            assert(iso.last() == iso[iso.len() - 1]);
            assert(strip_trail(iso, ']') == iso);
            assert(strip_trail(y, ']') == iso);
        },
        None => {
            assert(last_lines(c) =~= Seq::<Seq<char>>::empty());
        },
    }
}

proof fn lemma_href_stage(st: OrgState, v: ContactView, x: Option<Seq<char>>)
    requires
        st.in_props,
        st.current == Some((true, v)),
        opt_field_ok(x),
    ensures
        org_run(st, opt_ln(":SYNC_HREF:"@, x)) == (OrgState {
            current: Some((true, ContactView { sync_href: match x {
                Some(y) => Some(y),
                None => v.sync_href,
            }, ..v })),
            ..st
        }),
{
    reveal_strlit(":ID:");
    reveal_strlit(":EMAIL:");
    reveal_strlit(":PHONE:");
    reveal_strlit(":WEBSITE:");
    reveal_strlit(":SIGNAL:");
    reveal_strlit(":PREFERRED_METHOD:");
    reveal_strlit(":CATEGORY:");
    reveal_strlit(":LAST_CONTACTED:");
    reveal_strlit(":SYNC_HREF:");
    reveal_strlit(":PROPERTIES:");
    reveal_strlit(":END:");
    match x {
        Some(y) => {
            let kp = ":SYNC_HREF:"@;
            let t = prop_trim(kp, y);
            lemma_trim_prop(kp, y);
            assert(t[1] == 'S' && t[2] == 'Y');
            assert(t != ":PROPERTIES:"@) by {
                if t == ":PROPERTIES:"@ {
                    assert(t[1] == 'P');
                }
            }
            assert(t != ":END:"@) by {
                if t == ":END:"@ {
                    assert(t[1] == 'E');
                }
            }
            lemma_prop_step(st, kp, y);
            lemma_org_run_one(st, prop_ln(kp, y));
    assert(!has_prefix_at(t, 0, ":ID:"@)) by {
        if has_prefix_at(t, 0, ":ID:"@) {
            assert(t.subrange(0, 4)[1] == ":ID:"@[1]);
        }
    }
    assert(!has_prefix_at(t, 0, ":EMAIL:"@)) by {
        if has_prefix_at(t, 0, ":EMAIL:"@) {
            assert(t.subrange(0, 7)[1] == ":EMAIL:"@[1]);
        }
    }
    assert(!has_prefix_at(t, 0, ":PHONE:"@)) by {
        if has_prefix_at(t, 0, ":PHONE:"@) {
            assert(t.subrange(0, 7)[1] == ":PHONE:"@[1]);
        }
    }
    assert(!has_prefix_at(t, 0, ":WEBSITE:"@)) by {
        if has_prefix_at(t, 0, ":WEBSITE:"@) {
            assert(t.subrange(0, 9)[1] == ":WEBSITE:"@[1]);
        }
    }
    assert(!has_prefix_at(t, 0, ":SIGNAL:"@)) by {
        if has_prefix_at(t, 0, ":SIGNAL:"@) {
            assert(t.subrange(0, 8)[2] == ":SIGNAL:"@[2]);
        }
    }
    assert(!has_prefix_at(t, 0, ":PREFERRED_METHOD:"@)) by {
        if has_prefix_at(t, 0, ":PREFERRED_METHOD:"@) {
            assert(t.subrange(0, 18)[1] == ":PREFERRED_METHOD:"@[1]);
        }
    }
    assert(!has_prefix_at(t, 0, ":CATEGORY:"@)) by {
        if has_prefix_at(t, 0, ":CATEGORY:"@) {
            assert(t.subrange(0, 10)[1] == ":CATEGORY:"@[1]);
        }
    }
    assert(!has_prefix_at(t, 0, ":LAST_CONTACTED:"@)) by {
        if has_prefix_at(t, 0, ":LAST_CONTACTED:"@) {
            assert(t.subrange(0, 16)[1] == ":LAST_CONTACTED:"@[1]);
        }
    }
            assert(has_prefix_at(t, 0, kp));
        },
        None => {
            assert(opt_ln(":SYNC_HREF:"@, x) =~= Seq::<Seq<char>>::empty());
        },
    }
}

proof fn lemma_end_stage(st: OrgState)
    ensures
        org_run(st, seq!["  :END:"@]) == (OrgState { in_props: false, ..st }),
{
    reveal_strlit("  :END:");
    reveal_strlit(":END:");
    reveal_strlit(":PROPERTIES:");
    reveal_strlit("* ");
    let l = "  :END:"@;
    lemma_org_run_one(st, l);
    assert(l =~= seq![' ', ' '] + ":END:"@);
    lemma_trim_ws_then(seq![' ', ' '], ":END:"@);
    assert(!has_prefix_at(l, 0, "* "@)) by {
        if has_prefix_at(l, 0, "* "@) {
            assert(l.subrange(0, 2)[0] == '*');
        }
    }
    assert(":END:"@ != ":PROPERTIES:"@) by {
        assert(":END:"@.len() != ":PROPERTIES:"@.len());
    }
}


pub open spec fn with_mid(v: ContactView, c: ContactView) -> ContactView {
    ContactView {
        email: c.email,
        phone: c.phone,
        website: c.website,
        signal: c.signal,
        preferred_method: c.preferred_method,
        ..v
    }
}

pub open spec fn with_tail(v: ContactView, c: ContactView) -> ContactView {
    ContactView { category: c.category, last_contacted: c.last_contacted, sync_href: c.sync_href, ..v }
}

proof fn lemma_mid_run(st: OrgState, v: ContactView, c: ContactView)
    requires
        contact_writable(c),
        st.in_props,
        st.current == Some((true, v)),
        v.email is None,
        v.phone is None,
        v.website is None,
        v.signal is None,
        v.preferred_method is None,
    ensures
        org_run(st, mid_lines(c)) == (OrgState { current: Some((true, with_mid(v, c))), ..st }),
{
    let e = opt_ln(":EMAIL:"@, c.email);
    let p = opt_ln(":PHONE:"@, c.phone);
    let w = opt_ln(":WEBSITE:"@, c.website);
    let s = opt_ln(":SIGNAL:"@, c.signal);
    let m = opt_ln(":PREFERRED_METHOD:"@, c.preferred_method);
    lemma_org_run_append(st, e + p + w + s, m);
    lemma_org_run_append(st, e + p + w, s);
    lemma_org_run_append(st, e + p, w);
    lemma_org_run_append(st, e, p);
    lemma_email_stage(st, v, c.email);
    let v2 = ContactView { email: c.email, ..v };
    let s2 = OrgState { current: Some((true, v2)), ..st };
    lemma_phone_stage(s2, v2, c.phone);
    let v3 = ContactView { phone: c.phone, ..v2 };
    let s3 = OrgState { current: Some((true, v3)), ..st };
    lemma_website_stage(s3, v3, c.website);
    let v4 = ContactView { website: c.website, ..v3 };
    let s4 = OrgState { current: Some((true, v4)), ..st };
    lemma_signal_stage(s4, v4, c.signal);
    let v5 = ContactView { signal: c.signal, ..v4 };
    let s5 = OrgState { current: Some((true, v5)), ..st };
    lemma_preferred_method_stage(s5, v5, c.preferred_method);
    assert(ContactView { preferred_method: c.preferred_method, ..v5 } == with_mid(v, c));
}

proof fn lemma_tail_run(st: OrgState, v: ContactView, c: ContactView)
    requires
        contact_writable(c),
        st.in_props,
        st.current == Some((true, v)),
        v.category == ContactCategory::Personal,
        v.last_contacted is None,
        v.sync_href is None,
    ensures
        org_run(st, tail_lines(c)) == (OrgState {
            current: Some((true, with_tail(v, c))),
            in_props: false,
            ..st
        }),
{
    let ct = cat_lines(c);
    let lt = last_lines(c);
    let yt = opt_ln(":SYNC_HREF:"@, c.sync_href);
    let et = seq!["  :END:"@];
    lemma_org_run_append(st, ct + lt + yt, et);
    lemma_org_run_append(st, ct + lt, yt);
    lemma_org_run_append(st, ct, lt);
    lemma_cat_stage(st, v, c);
    let v7 = ContactView { category: c.category, ..v };
    let s7 = OrgState { current: Some((true, v7)), ..st };
    lemma_last_stage(s7, v7, c);
    let v8 = ContactView { last_contacted: c.last_contacted, ..v7 };
    let s8 = OrgState { current: Some((true, v8)), ..st };
    lemma_href_stage(s8, v8, c.sync_href);
    let v9 = ContactView { sync_href: c.sync_href, ..v8 };
    let s9 = OrgState { current: Some((true, v9)), ..st };
    lemma_end_stage(s9);
    assert(v9 == with_tail(v, c));
}

/// Reading the entry of a writable contact finishes the entry before it
/// and reads the contact back, identifier included.
proof fn lemma_contact_run(st: OrgState, c: ContactView)
    requires
        contact_writable(c),
    ensures
        org_run(st, contact_lines(c)) == (OrgState { done: pushed(st), current: Some((true, c)), in_props: false }),
{
    let h = head_lines(c);
    let md = mid_lines(c);
    let tl = tail_lines(c);
    lemma_org_run_append(st, h + md, tl);
    lemma_org_run_append(st, h, md);
    lemma_head_stage(st, c);
    let v1 = ContactView { id: c.id, ..named(no_id(), c.name) };
    let s1 = OrgState { done: pushed(st), current: Some((true, v1)), in_props: true };
    lemma_mid_run(s1, v1, c);
    let v6 = with_mid(v1, c);
    let s6 = OrgState { current: Some((true, v6)), ..s1 };
    lemma_tail_run(s6, v6, c);
    assert(with_tail(v6, c) == c);
}

/// The entries a file of the given contacts reads as.
pub open spec fn entries(cs: Seq<ContactView>) -> Seq<(bool, ContactView)> {
    cs.map_values(|c: ContactView| (true, c))
}

proof fn lemma_all_run(cs: Seq<ContactView>)
    requires
        forall|i: int| 0 <= i < cs.len() ==> contact_writable(#[trigger] cs[i]),
    ensures
        pushed(org_run(org_start(), all_lines(cs))) == entries(cs),
        !org_run(org_start(), all_lines(cs)).in_props,
    decreases cs.len(),
{
    if cs.len() == 0 {
        assert(org_run(org_start(), all_lines(cs)) == org_start());
        assert(entries(cs) =~= Seq::<(bool, ContactView)>::empty());
    } else {
        let init = cs.drop_last();
        assert forall|i: int| 0 <= i < init.len() implies contact_writable(#[trigger] init[i]) by {
            assert(init[i] == cs[i]);
        }
        lemma_all_run(init);
        let st = org_run(org_start(), all_lines(init));
        lemma_org_run_append(org_start(), all_lines(init), contact_lines(cs.last()));
        assert(contact_writable(cs[cs.len() - 1]));
        lemma_contact_run(st, cs.last());
        assert(entries(init).push((true, cs.last())) =~= entries(cs));
    }
}

proof fn lemma_plain_prop(kp: Seq<char>, x: Seq<char>)
    requires
        kp.len() >= 1,
        forall|i: int| 0 <= i < kp.len() ==> #[trigger] kp[i] != '\n',
        field_ok(x),
    ensures
        plain_line(prop_ln(kp, x)),
{
    let l = prop_ln(kp, x);
    assert forall|i: int| 0 <= i < l.len() implies #[trigger] l[i] != '\n' by {
        if 2 <= i < 2 + kp.len() {
            assert(l[i] == kp[i - 2]);
        } else if i >= 3 + kp.len() {
            assert(l[i] == x[i - 3 - kp.len()]);
        }
    }
    if x.len() > 0 {
        assert(l.last() == x.last());
    }
}

pub open spec fn plain_lines(ls: Seq<Seq<char>>) -> bool {
    forall|i: int| 0 <= i < ls.len() ==> plain_line(#[trigger] ls[i])
}

proof fn lemma_plain_append(a: Seq<Seq<char>>, b: Seq<Seq<char>>)
    requires
        plain_lines(a),
        plain_lines(b),
    ensures
        plain_lines(a + b),
{
    assert forall|i: int| 0 <= i < (a + b).len() implies plain_line(#[trigger] (a + b)[i]) by {
        if i < a.len() {
            assert((a + b)[i] == a[i]);
        } else {
            assert((a + b)[i] == b[i - a.len()]);
        }
    }
}

proof fn lemma_plain_opt(kp: Seq<char>, v: Option<Seq<char>>)
    requires
        kp.len() >= 1,
        forall|i: int| 0 <= i < kp.len() ==> #[trigger] kp[i] != '\n',
        opt_field_ok(v),
    ensures
        plain_lines(opt_ln(kp, v)),
{
    match v {
        Some(x) => {
            lemma_plain_prop(kp, x);
            assert(opt_ln(kp, v)[0] == prop_ln(kp, x));
        },
        None => {},
    }
}

proof fn lemma_head_plain(c: ContactView)
    requires
        contact_writable(c),
    ensures
        plain_lines(head_lines(c)),
{
    reveal_strlit(":ID:");
    reveal_strlit(":EMAIL:");
    reveal_strlit(":PHONE:");
    reveal_strlit(":WEBSITE:");
    reveal_strlit(":SIGNAL:");
    reveal_strlit(":PREFERRED_METHOD:");
    reveal_strlit(":CATEGORY:");
    reveal_strlit(":LAST_CONTACTED:");
    reveal_strlit(":SYNC_HREF:");
    reveal_strlit("* ");
    reveal_strlit("  :PROPERTIES:");
    reveal_strlit("  :END:");
    reveal_strlit("Service");
    let l1 = "* "@ + c.name;
    assert forall|i: int| 0 <= i < l1.len() implies #[trigger] l1[i] != '\n' by {
        if i >= 2 {
            assert(l1[i] == c.name[i - 2]);
        }
    }
    if c.name.len() > 0 {
        assert(l1.last() == c.name.last());
    }
    let uuid = uuid_text(c.id.value);
    lemma_uuid_text_roundtrip(c.id.value);
    assert forall|i: int| 0 <= i < uuid.len() implies #[trigger] uuid[i] != '\n' by {
        assert(!is_ws(uuid[i]));
    }
    assert(!is_ws(uuid[0]) && !is_ws(uuid.last()));
    lemma_plain_prop(":ID:"@, uuid);
    let h = head_lines(c);
    assert forall|i: int| 0 <= i < h.len() implies plain_line(#[trigger] h[i]) by {
        if i == 0 {
            assert(h[0] == l1);
        } else if i == 1 {
            assert(h[1] == "  :PROPERTIES:"@);
        } else {
            assert(h[2] == prop_ln(":ID:"@, uuid));
        }
    }
}

proof fn lemma_mid_plain(c: ContactView)
    requires
        contact_writable(c),
    ensures
        plain_lines(mid_lines(c)),
{
    reveal_strlit(":ID:");
    reveal_strlit(":EMAIL:");
    reveal_strlit(":PHONE:");
    reveal_strlit(":WEBSITE:");
    reveal_strlit(":SIGNAL:");
    reveal_strlit(":PREFERRED_METHOD:");
    reveal_strlit(":CATEGORY:");
    reveal_strlit(":LAST_CONTACTED:");
    reveal_strlit(":SYNC_HREF:");
    lemma_plain_opt(":EMAIL:"@, c.email);
    lemma_plain_opt(":PHONE:"@, c.phone);
    lemma_plain_opt(":WEBSITE:"@, c.website);
    lemma_plain_opt(":SIGNAL:"@, c.signal);
    lemma_plain_opt(":PREFERRED_METHOD:"@, c.preferred_method);
    let e = opt_ln(":EMAIL:"@, c.email);
    let p = opt_ln(":PHONE:"@, c.phone);
    let w = opt_ln(":WEBSITE:"@, c.website);
    let s = opt_ln(":SIGNAL:"@, c.signal);
    let m = opt_ln(":PREFERRED_METHOD:"@, c.preferred_method);
    lemma_plain_append(e, p);
    lemma_plain_append(e + p, w);
    lemma_plain_append(e + p + w, s);
    lemma_plain_append(e + p + w + s, m);
}

proof fn lemma_tail_plain(c: ContactView)
    requires
        contact_writable(c),
    ensures
        plain_lines(tail_lines(c)),
{
    reveal_strlit(":ID:");
    reveal_strlit(":EMAIL:");
    reveal_strlit(":PHONE:");
    reveal_strlit(":WEBSITE:");
    reveal_strlit(":SIGNAL:");
    reveal_strlit(":PREFERRED_METHOD:");
    reveal_strlit(":CATEGORY:");
    reveal_strlit(":LAST_CONTACTED:");
    reveal_strlit(":SYNC_HREF:");
    reveal_strlit("  :END:");
    reveal_strlit("Service");
    lemma_plain_opt(":SYNC_HREF:"@, c.sync_href);
    if c.category != ContactCategory::Personal {
        assert(category_text(c.category) == "Service"@);
        lemma_plain_prop(":CATEGORY:"@, category_text(c.category));
        assert(cat_lines(c)[0] == prop_ln(":CATEGORY:"@, category_text(c.category)));
    }
    assert(plain_lines(cat_lines(c)));
    match c.last_contacted {
        Some(n) => {
            lemma_iso_date_roundtrip(n);
            let iso = date_iso(date_of(n));
            let x = last_text(n);
            assert forall|i: int| 0 <= i < x.len() implies #[trigger] x[i] != '\n' by {
                if 1 <= i < x.len() - 1 {
                    assert(x[i] == iso[i - 1]);
                    assert(is_ascii_digit(iso[i - 1]) || iso[i - 1] == '-' || iso[i - 1] == '+');
                }
            }
            assert(x[0] == '[' && x.last() == ']');
            lemma_plain_prop(":LAST_CONTACTED:"@, x);
            assert(last_lines(c)[0] == prop_ln(":LAST_CONTACTED:"@, x));
        },
        None => {},
    }
    assert(plain_lines(last_lines(c)));
    let et = seq!["  :END:"@];
    assert(plain_line(et[0]));
    assert(plain_lines(et));
    let yt = opt_ln(":SYNC_HREF:"@, c.sync_href);
    lemma_plain_append(cat_lines(c), last_lines(c));
    lemma_plain_append(cat_lines(c) + last_lines(c), yt);
    lemma_plain_append(cat_lines(c) + last_lines(c) + yt, et);
}

proof fn lemma_contact_plain(c: ContactView)
    requires
        contact_writable(c),
    ensures
        plain_lines(contact_lines(c)),
{
    lemma_head_plain(c);
    lemma_mid_plain(c);
    lemma_tail_plain(c);
    lemma_plain_append(head_lines(c), mid_lines(c));
    lemma_plain_append(head_lines(c) + mid_lines(c), tail_lines(c));
}

proof fn lemma_all_plain(cs: Seq<ContactView>)
    requires
        forall|i: int| 0 <= i < cs.len() ==> contact_writable(#[trigger] cs[i]),
    ensures
        plain_lines(all_lines(cs)),
    decreases cs.len(),
{
    if cs.len() > 0 {
        let init = cs.drop_last();
        assert forall|i: int| 0 <= i < init.len() implies contact_writable(#[trigger] init[i]) by {
            assert(init[i] == cs[i]);
        }
        lemma_all_plain(init);
        assert(contact_writable(cs[cs.len() - 1]));
        lemma_contact_plain(cs.last());
        lemma_plain_append(all_lines(init), contact_lines(cs.last()));
    }
}

/// Contacts written to the contacts file are read back as written: one
/// entry per contact, in order, each with its identifier and every field,
/// for contacts whose texts are trimmed and on one line and whose
/// last-contacted date has a four-digit year.
pub proof fn lemma_contacts_roundtrip(cs: Seq<ContactView>)
    requires
        forall|i: int| 0 <= i < cs.len() ==> contact_writable(#[trigger] cs[i]),
    ensures
        contacts_of_org("#+TITLE: Contacts\n\n"@ + contacts_org(cs)) == entries(cs),
{
    reveal_strlit("#+TITLE: Contacts\n\n");
    reveal_strlit("#+TITLE: Contacts");
    reveal_strlit("* ");
    reveal_strlit(":PROPERTIES:");
    reveal_strlit(":END:");
    let t1 = "#+TITLE: Contacts"@;
    let t2 = Seq::<char>::empty();
    let hd = seq![t1, t2];
    lemma_contacts_text(cs);
    lemma_nl_one(t1);
    lemma_nl_one(t2);
    lemma_nl_text_append(seq![t1], seq![t2]);
    assert(hd =~= seq![t1] + seq![t2]);
    lemma_nl_text_append(hd, all_lines(cs));
    let file = "#+TITLE: Contacts\n\n"@ + contacts_org(cs);
    assert(file =~= nl_text(hd + all_lines(cs)));
    lemma_all_plain(cs);
    assert(plain_line(t1));
    assert(plain_line(t2));
    assert(plain_lines(hd));
    lemma_plain_append(hd, all_lines(cs));
    lemma_lines_nl_text(hd + all_lines(cs));
    let ls = lines(file);
    assert(ls == hd + all_lines(cs));
    lemma_org_lines_run(ls, ls.len() as int);
    assert(ls.take(ls.len() as int) =~= ls);
    lemma_org_run_append(org_start(), hd, all_lines(cs));
    lemma_org_run_append(org_start(), seq![t1], seq![t2]);
    lemma_org_run_one(org_start(), t1);
    lemma_trim_ws_then(Seq::<char>::empty(), t1);
    assert(Seq::<char>::empty() + t1 =~= t1);
    assert(!has_prefix_at(t1, 0, "* "@)) by {
        if has_prefix_at(t1, 0, "* "@) {
            assert(t1.subrange(0, 2)[0] == '*');
        }
    }
    assert(t1 != ":PROPERTIES:"@ && t1 != ":END:"@) by {
        assert(t1[0] == '#');
    }
    assert(org_step(org_start(), t1) == org_start());
    lemma_org_run_one(org_start(), t2);
    lemma_trim_ws_then(Seq::<char>::empty(), t2);
    assert(Seq::<char>::empty() + t2 =~= t2);
    assert(t2 != ":PROPERTIES:"@ && t2 != ":END:"@);
    assert(org_step(org_start(), t2) == org_start());
    lemma_all_run(cs);
}

} // verus!
