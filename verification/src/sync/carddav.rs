//! Contacts: reading vCards, keeping contacts in an org file, and merging
//! the server's contacts into the local ones.

use vstd::prelude::*;

use crate::dates::{date_iso, opt_num, Date};
use crate::ids::{uuid_parse_spec, uuid_text, Uuid};
use crate::model::task::opt_str;
use crate::sync::multistatus::{eq_ignore_ascii_case, node_views, roxml_parse, xml_error, XmlNodeView};
use crate::text::{
    chars_eq_str, chars_of, find_from, has_prefix_at, lines, push_str, slice_chars, split_lines,
    starts_with_str_at, string_of, trim, trim_chars,
};

verus! {

/// Whom a contact is.
#[derive(Debug, Clone, Copy, PartialEq, Eq, Structural)]
pub enum ContactCategory {
    Personal,
    Service,
}

pub open spec fn category_text(c: ContactCategory) -> Seq<char> {
    match c {
        ContactCategory::Personal => "Personal"@,
        ContactCategory::Service => "Service"@,
    }
}

impl ContactCategory {
    /// The category's name.
    pub fn to_string(&self) -> (r: String)
        ensures
            r@ == category_text(*self),
    {
        match self {
            ContactCategory::Personal => string_of(chars_of("Personal").as_slice()),
            ContactCategory::Service => string_of(chars_of("Service").as_slice()),
        }
    }
}

/// A contact, from the server or the contacts file.
#[derive(Debug, Clone)]
pub struct Contact {
    pub id: Uuid,
    pub name: String,
    pub email: Option<String>,
    pub phone: Option<String>,
    pub website: Option<String>,
    pub signal: Option<String>,
    pub preferred_method: Option<String>,
    pub category: ContactCategory,
    pub last_contacted: Option<Date>,
    /// The server's href of the vCard (for deletion).
    pub sync_href: Option<String>,
}

pub struct ContactView {
    pub id: Uuid,
    pub name: Seq<char>,
    pub email: Option<Seq<char>>,
    pub phone: Option<Seq<char>>,
    pub website: Option<Seq<char>>,
    pub signal: Option<Seq<char>>,
    pub preferred_method: Option<Seq<char>>,
    pub category: ContactCategory,
    pub last_contacted: Option<int>,
    pub sync_href: Option<Seq<char>>,
}

impl View for Contact {
    type V = ContactView;

    open spec fn view(&self) -> ContactView {
        ContactView {
            id: self.id,
            name: self.name@,
            email: opt_str(self.email),
            phone: opt_str(self.phone),
            website: opt_str(self.website),
            signal: opt_str(self.signal),
            preferred_method: opt_str(self.preferred_method),
            category: self.category,
            last_contacted: opt_num(self.last_contacted),
            sync_href: opt_str(self.sync_href),
        }
    }
}

pub open spec fn contact_views(v: Seq<Contact>) -> Seq<ContactView> {
    v.map_values(|c: Contact| c@)
}

/// The contact's fields other than its identifier.
pub open spec fn same_fields(a: ContactView, b: ContactView) -> bool {
    ContactView { id: b.id, ..a } == b
}

/// A contact with only a name.
pub open spec fn named(id: Uuid, name: Seq<char>) -> ContactView {
    ContactView {
        id,
        name,
        email: None,
        phone: None,
        website: None,
        signal: None,
        preferred_method: None,
        category: ContactCategory::Personal,
        last_contacted: None,
        sync_href: None,
    }
}

fn copy_string(s: &String) -> (r: String)
    ensures
        r@ == s@,
{
    string_of(chars_of(s.as_str()).as_slice())
}

impl Contact {
    /// A personal contact with only a name and a fresh identifier.
    pub fn new(name: String) -> (r: Contact)
        ensures
            r@ == named(r.id, name@),
    {
        Contact::with_id(name, Uuid::new_v4())
    }

    /// A personal contact with only a name and the identifier.
    pub fn with_id(name: String, id: Uuid) -> (r: Contact)
        ensures
            r@ == named(id, name@),
    {
        Contact {
            id,
            name,
            email: None,
            phone: None,
            website: None,
            signal: None,
            preferred_method: None,
            category: ContactCategory::Personal,
            last_contacted: None,
            sync_href: None,
        }
    }

    /// A copy of the contact.
    pub fn duplicate(&self) -> (r: Contact)
        ensures
            r@ == self@,
    {
        Contact {
            id: self.id,
            name: copy_string(&self.name),
            email: crate::model::task::copy_opt_string(&self.email),
            phone: crate::model::task::copy_opt_string(&self.phone),
            website: crate::model::task::copy_opt_string(&self.website),
            signal: crate::model::task::copy_opt_string(&self.signal),
            preferred_method: crate::model::task::copy_opt_string(&self.preferred_method),
            category: self.category,
            last_contacted: self.last_contacted,
            sync_href: crate::model::task::copy_opt_string(&self.sync_href),
        }
    }
}

// ---------------------------------------------------------------------------
// vCards
// ---------------------------------------------------------------------------

/// The value of a property line: `PROP:value`, or `PROP;params:value`.
pub open spec fn prop_value(line: Seq<char>, prop: Seq<char>) -> Option<Seq<char>> {
    if has_prefix_at(line, 0, prop) {
        let rest = line.skip(prop.len() as int);
        if rest.len() > 0 && rest[0] == ':' {
            Some(rest.skip(1))
        } else if rest.len() > 0 && rest[0] == ';' {
            match find_from(rest, ':', 0) {
                Some(c) => Some(rest.skip(c + 1)),
                None => None,
            }
        } else {
            None
        }
    } else {
        None
    }
}

/// The value of the property `property` on a vCard or iCalendar line.
pub fn strip_ical_prefix(line: &str, property: &str) -> (r: Option<String>)
    ensures
        opt_str(r) == prop_value(line@, property@),
{
    let l = chars_of(line);
    let p = chars_of(property);
    if !crate::text::starts_with_at(&l, 0, &p) {
        return None;
    }
    let rest = slice_chars(&l, p.len(), l.len());
    assert(rest@ =~= l@.skip(p@.len() as int));
    if rest.len() > 0 && rest[0] == ':' {
        let v = slice_chars(&rest, 1, rest.len());
        assert(v@ =~= rest@.skip(1));
        return Some(string_of(v.as_slice()));
    }
    if rest.len() > 0 && rest[0] == ';' {
        proof {
            crate::text::lemma_find_from(rest@, ':', 0);
        }
        match crate::text::find_char_from(&rest, ':', 0) {
            Some(c) => {
                let v = slice_chars(&rest, c + 1, rest.len());
                assert(v@ =~= rest@.skip(c + 1));
                return Some(string_of(v.as_slice()));
            },
            None => {
                return None;
            },
        }
    }
    None
}

/// What the lines of a vCard have given so far.
pub struct CardState {
    pub name: Option<Seq<char>>,
    pub email: Option<Seq<char>>,
    pub phone: Option<Seq<char>>,
    pub website: Option<Seq<char>>,
    pub signal: Option<Seq<char>>,
    pub preferred_method: Option<Seq<char>>,
    pub category: ContactCategory,
}

pub open spec fn first_of(old: Option<Seq<char>>, new: Option<Seq<char>>) -> Option<Seq<char>> {
    if old is Some {
        old
    } else {
        new
    }
}

pub open spec fn last_of(old: Option<Seq<char>>, new: Option<Seq<char>>) -> Option<Seq<char>> {
    if new is Some {
        new
    } else {
        old
    }
}

/// A trimmed line: `FN`, `X-SIGNAL` and `X-PREFERRED-METHOD` take the last
/// value, `EMAIL`, `TEL` and `URL` the first; `CATEGORIES:Service` (any
/// ASCII case) marks a service.
pub open spec fn card_step(st: CardState, raw: Seq<char>) -> CardState {
    let line = trim(raw);
    CardState {
        name: last_of(st.name, prop_value(line, "FN"@)),
        email: first_of(st.email, prop_value(line, "EMAIL"@)),
        phone: first_of(st.phone, prop_value(line, "TEL"@)),
        website: first_of(st.website, prop_value(line, "URL"@)),
        signal: last_of(st.signal, prop_value(line, "X-SIGNAL"@)),
        preferred_method: last_of(st.preferred_method, prop_value(line, "X-PREFERRED-METHOD"@)),
        category: match prop_value(line, "CATEGORIES"@) {
            Some(v) => if eq_ignore_ascii_case(v, "Service"@) {
                ContactCategory::Service
            } else {
                st.category
            },
            None => st.category,
        },
    }
}

pub open spec fn card_lines(ls: Seq<Seq<char>>, n: int) -> CardState
    decreases n,
{
    if n <= 0 {
        CardState {
            name: None,
            email: None,
            phone: None,
            website: None,
            signal: None,
            preferred_method: None,
            category: ContactCategory::Personal,
        }
    } else {
        card_step(card_lines(ls, n - 1), ls[n - 1])
    }
}

/// The contact of a vCard, with the identifier `id`; none without a name.
pub open spec fn vcard_contact(vcard: Seq<char>, id: Uuid) -> Option<ContactView> {
    let ls = lines(vcard);
    let st = card_lines(ls, ls.len() as int);
    match st.name {
        Some(n) => if n.len() > 0 {
            Some(
                ContactView {
                    id,
                    name: n,
                    email: st.email,
                    phone: st.phone,
                    website: st.website,
                    signal: st.signal,
                    preferred_method: st.preferred_method,
                    category: st.category,
                    last_contacted: None,
                    sync_href: None,
                },
            )
        } else {
            None
        },
        None => None,
    }
}

struct CardAcc {
    name: Option<String>,
    email: Option<String>,
    phone: Option<String>,
    website: Option<String>,
    signal: Option<String>,
    preferred_method: Option<String>,
    category: ContactCategory,
}

spec fn card_view(a: CardAcc) -> CardState {
    CardState {
        name: opt_str(a.name),
        email: opt_str(a.email),
        phone: opt_str(a.phone),
        website: opt_str(a.website),
        signal: opt_str(a.signal),
        preferred_method: opt_str(a.preferred_method),
        category: a.category,
    }
}

fn first_exec(old: Option<String>, new: Option<String>) -> (r: Option<String>)
    ensures
        opt_str(r) == first_of(opt_str(old), opt_str(new)),
{
    if old.is_some() {
        old
    } else {
        new
    }
}

fn last_exec(old: Option<String>, new: Option<String>) -> (r: Option<String>)
    ensures
        opt_str(r) == last_of(opt_str(old), opt_str(new)),
{
    if new.is_some() {
        new
    } else {
        old
    }
}

fn card_step_exec(acc: CardAcc, raw: &Vec<char>) -> (r: CardAcc)
    ensures
        card_view(r) == card_step(card_view(acc), raw@),
{
    let t = trim_chars(raw);
    let line = string_of(t.as_slice());
    let l = line.as_str();
    let category = match strip_ical_prefix(l, "CATEGORIES") {
        Some(v) => {
            if crate::sync::multistatus::eq_ignore_ascii_case_str(v.as_str(), "Service") {
                ContactCategory::Service
            } else {
                acc.category
            }
        },
        None => acc.category,
    };
    CardAcc {
        name: last_exec(acc.name, strip_ical_prefix(l, "FN")),
        email: first_exec(acc.email, strip_ical_prefix(l, "EMAIL")),
        phone: first_exec(acc.phone, strip_ical_prefix(l, "TEL")),
        website: first_exec(acc.website, strip_ical_prefix(l, "URL")),
        signal: last_exec(acc.signal, strip_ical_prefix(l, "X-SIGNAL")),
        preferred_method: last_exec(acc.preferred_method, strip_ical_prefix(l, "X-PREFERRED-METHOD")),
        category,
    }
}

/// The contact of a vCard with the identifier `id`.
pub fn parse_vcard_with(vcard: &str, id: Uuid) -> (r: Option<Contact>)
    ensures
        match r {
            Some(c) => vcard_contact(vcard@, id) == Some(c@),
            None => vcard_contact(vcard@, id) is None,
        },
{
    let v = chars_of(vcard);
    let ls = split_lines(&v);
    let ghost lv = lines(vcard@);
    let mut acc = CardAcc {
        name: None,
        email: None,
        phone: None,
        website: None,
        signal: None,
        preferred_method: None,
        category: ContactCategory::Personal,
    };
    let mut i: usize = 0;
    while i < ls.len()
        invariant
            i <= ls.len(),
            ls@.len() == lv.len(),
            lv == lines(vcard@),
            forall|k: int| 0 <= k < ls@.len() ==> (#[trigger] ls@[k])@ == lv[k],
            card_view(acc) == card_lines(lv, i as int),
        decreases ls.len() - i,
    {
        acc = card_step_exec(acc, &ls[i]);
        i = i + 1;
    }
    let name = match acc.name {
        Some(n) => n,
        None => {
            return None;
        },
    };
    if name.unicode_len() == 0 {
        return None;
    }
    Some(Contact {
        id,
        name,
        email: acc.email,
        phone: acc.phone,
        website: acc.website,
        signal: acc.signal,
        preferred_method: acc.preferred_method,
        category: acc.category,
        last_contacted: None,
        sync_href: None,
    })
}

/// The contact of a vCard, with a fresh identifier.
pub fn parse_vcard(vcard: &str) -> (r: Option<Contact>)
    ensures
        match r {
            Some(c) => vcard_contact(vcard@, c.id) == Some(c@),
            None => forall|id: Uuid| #[trigger] vcard_contact(vcard@, id) is None,
        },
{
    let id = Uuid::new_v4();
    let r = parse_vcard_with(vcard, id);
    proof {
        if r is None {
            assert forall|x: Uuid| #[trigger] vcard_contact(vcard@, x) is None by {
                assert(vcard_contact(vcard@, x) is None <==> vcard_contact(vcard@, id) is None);
            }
        }
    }
    r
}

// ---------------------------------------------------------------------------
// The contacts file
// ---------------------------------------------------------------------------

pub open spec fn opt_prop(key: Seq<char>, v: Option<Seq<char>>) -> Seq<char> {
    match v {
        Some(x) => "  :"@ + key + ": "@ + x + "\n"@,
        None => seq![],
    }
}

pub open spec fn contact_head(c: ContactView) -> Seq<char> {
    "* "@ + c.name + "\n"@ + "  :PROPERTIES:\n"@ + "  :ID: "@ + uuid_text(c.id.value) + "\n"@
}

pub open spec fn contact_mid(c: ContactView) -> Seq<char> {
    opt_prop("EMAIL"@, c.email) + opt_prop("PHONE"@, c.phone) + opt_prop("WEBSITE"@, c.website)
        + opt_prop("SIGNAL"@, c.signal) + opt_prop("PREFERRED_METHOD"@, c.preferred_method)
}

pub open spec fn contact_tail(c: ContactView) -> Seq<char> {
    (if c.category != ContactCategory::Personal {
        "  :CATEGORY: "@ + category_text(c.category) + "\n"@
    } else {
        seq![]
    }) + (match c.last_contacted {
        Some(d) => "  :LAST_CONTACTED: ["@ + date_iso(crate::dates::date_of(d)) + "]\n"@,
        None => seq![],
    }) + opt_prop("SYNC_HREF"@, c.sync_href) + "  :END:\n"@
}

/// The org entry of a contact.
pub open spec fn contact_org(c: ContactView) -> Seq<char> {
    contact_head(c) + contact_mid(c) + contact_tail(c)
}

pub open spec fn contacts_org(cs: Seq<ContactView>) -> Seq<char>
    decreases cs.len(),
{
    if cs.len() == 0 {
        seq![]
    } else {
        contacts_org(cs.drop_last()) + contact_org(cs.last())
    }
}

fn push_opt_prop(v: &mut Vec<char>, key: &str, value: &Option<String>)
    ensures
        final(v)@ == old(v)@ + opt_prop(key@, opt_str(*value)),
{
    match value {
        Some(x) => {
            push_str(v, "  :");
            push_str(v, key);
            push_str(v, ": ");
            push_str(v, x.as_str());
            push_str(v, "\n");
            assert(final(v)@ =~= old(v)@ + opt_prop(key@, opt_str(*value)));
        },
        None => {
            assert(final(v)@ =~= old(v)@ + opt_prop(key@, opt_str(*value)));
        },
    }
}

fn push_contact_head(v: &mut Vec<char>, c: &Contact)
    ensures
        final(v)@ == old(v)@ + contact_head(c@),
{
    push_str(v, "* ");
    push_str(v, c.name.as_str());
    push_str(v, "\n");
    push_str(v, "  :PROPERTIES:\n");
    push_str(v, "  :ID: ");
    push_str(v, c.id.to_string().as_str());
    push_str(v, "\n");
    assert(final(v)@ =~= old(v)@ + contact_head(c@));
}

fn push_contact_mid(v: &mut Vec<char>, c: &Contact)
    ensures
        final(v)@ == old(v)@ + contact_mid(c@),
{
    push_opt_prop(v, "EMAIL", &c.email);
    push_opt_prop(v, "PHONE", &c.phone);
    push_opt_prop(v, "WEBSITE", &c.website);
    push_opt_prop(v, "SIGNAL", &c.signal);
    push_opt_prop(v, "PREFERRED_METHOD", &c.preferred_method);
    assert(final(v)@ =~= old(v)@ + contact_mid(c@));
}

fn push_contact_tail(v: &mut Vec<char>, c: &Contact)
    ensures
        final(v)@ == old(v)@ + contact_tail(c@),
{
    let ghost v0 = v@;
    if c.category != ContactCategory::Personal {
        push_str(v, "  :CATEGORY: ");
        push_str(v, c.category.to_string().as_str());
        push_str(v, "\n");
    }
    let ghost v1 = v@;
    match c.last_contacted {
        Some(d) => {
            proof {
                crate::dates::lemma_date_of(d);
            }
            push_str(v, "  :LAST_CONTACTED: [");
            push_str(v, d.to_iso_string().as_str());
            push_str(v, "]\n");
        },
        None => {},
    }
    push_opt_prop(v, "SYNC_HREF", &c.sync_href);
    push_str(v, "  :END:\n");
    assert(final(v)@ =~= old(v)@ + contact_tail(c@));
}

fn push_contact(v: &mut Vec<char>, c: &Contact)
    ensures
        final(v)@ == old(v)@ + contact_org(c@),
{
    let ghost v0 = v@;
    push_contact_head(v, c);
    push_contact_mid(v, c);
    push_contact_tail(v, c);
    assert(v@ =~= v0 + contact_org(c@));
}

/// The contacts file: a title, then each contact's entry.
pub fn write_contacts_org(contacts: &[Contact]) -> (r: String)
    ensures
        r@ == "#+TITLE: Contacts\n\n"@ + contacts_org(contact_views(contacts@)),
{
    let ghost cv = contact_views(contacts@);
    let mut v = chars_of("#+TITLE: Contacts\n\n");
    let ghost start = v@;
    let mut i: usize = 0;
    while i < contacts.len()
        invariant
            i <= contacts@.len(),
            cv == contact_views(contacts@),
            v@ == start + contacts_org(cv.take(i as int)),
        decreases contacts.len() - i,
    {
        assert(cv.take(i + 1).drop_last() =~= cv.take(i as int));
        assert(cv.take(i + 1).last() == contacts@[i as int]@);
        push_contact(&mut v, &contacts[i]);
        assert(v@ =~= start + contacts_org(cv.take(i + 1)));
        i = i + 1;
    }
    assert(cv.take(contacts@.len() as int) =~= cv);
    string_of(v.as_slice())
}

/// The text with its leading `c`s removed.
pub open spec fn strip_lead(s: Seq<char>, c: char) -> Seq<char>
    decreases s.len(),
{
    if s.len() > 0 && s[0] == c {
        strip_lead(s.drop_first(), c)
    } else {
        s
    }
}

/// The text with its trailing `c`s removed.
pub open spec fn strip_trail(s: Seq<char>, c: char) -> Seq<char>
    decreases s.len(),
{
    if s.len() > 0 && s.last() == c {
        strip_trail(s.drop_last(), c)
    } else {
        s
    }
}

fn strip_lead_exec(v: &Vec<char>, c: char) -> (r: Vec<char>)
    ensures
        r@ == strip_lead(v@, c),
{
    let mut a: usize = 0;
    assert(v@.skip(0) =~= v@);
    while a < v.len() && v[a] == c
        invariant
            a <= v.len(),
            strip_lead(v@.skip(a as int), c) == strip_lead(v@, c),
        decreases v.len() - a,
    {
        assert(v@.skip(a as int).drop_first() =~= v@.skip(a + 1));
        a = a + 1;
    }
    let r = slice_chars(v, a, v.len());
    assert(r@ =~= v@.skip(a as int));
    r
}

fn strip_trail_exec(v: &Vec<char>, c: char) -> (r: Vec<char>)
    ensures
        r@ == strip_trail(v@, c),
{
    let mut b = v.len();
    assert(v@.take(b as int) =~= v@);
    while b > 0 && v[b - 1] == c
        invariant
            b <= v.len(),
            strip_trail(v@.take(b as int), c) == strip_trail(v@, c),
        decreases b,
    {
        assert(v@.take(b as int).drop_last() =~= v@.take(b - 1));
        b = b - 1;
    }
    let r = slice_chars(v, 0, b);
    assert(r@ =~= v@.take(b as int));
    r
}

/// The identifier a contact of the file gets when its entry names none.
pub open spec fn no_id() -> Uuid {
    Uuid { value: 0 }
}

/// What reading the contacts file has given: the finished entries, the
/// entry being read (each with whether its `:ID:` was read), and whether a
/// property drawer is open.
pub struct OrgState {
    pub done: Seq<(bool, ContactView)>,
    pub current: Option<(bool, ContactView)>,
    pub in_props: bool,
}

/// A property line of an entry.
pub open spec fn contact_prop(c: (bool, ContactView), t: Seq<char>) -> (bool, ContactView) {
    let (given, v) = c;
    if has_prefix_at(t, 0, ":ID:"@) {
        match uuid_parse_spec(trim(t.skip(4))) {
            Some(u) => (true, ContactView { id: Uuid { value: u }, ..v }),
            None => c,
        }
    } else if has_prefix_at(t, 0, ":EMAIL:"@) {
        (given, ContactView { email: Some(trim(t.skip(7))), ..v })
    } else if has_prefix_at(t, 0, ":PHONE:"@) {
        (given, ContactView { phone: Some(trim(t.skip(7))), ..v })
    } else if has_prefix_at(t, 0, ":WEBSITE:"@) {
        (given, ContactView { website: Some(trim(t.skip(9))), ..v })
    } else if has_prefix_at(t, 0, ":SIGNAL:"@) {
        (given, ContactView { signal: Some(trim(t.skip(8))), ..v })
    } else if has_prefix_at(t, 0, ":PREFERRED_METHOD:"@) {
        (given, ContactView { preferred_method: Some(trim(t.skip(18))), ..v })
    } else if has_prefix_at(t, 0, ":CATEGORY:"@) {
        if eq_ignore_ascii_case(trim(t.skip(10)), "Service"@) {
            (given, ContactView { category: ContactCategory::Service, ..v })
        } else {
            c
        }
    } else if has_prefix_at(t, 0, ":LAST_CONTACTED:"@) {
        match crate::dates::parse_iso_date_spec(strip_trail(strip_lead(trim(t.skip(16)), '['), ']')) {
            Some(d) => (given, ContactView { last_contacted: Some(d), ..v }),
            None => c,
        }
    } else if has_prefix_at(t, 0, ":SYNC_HREF:"@) {
        (given, ContactView { sync_href: Some(trim(t.skip(11))), ..v })
    } else {
        c
    }
}

pub open spec fn org_step(st: OrgState, line: Seq<char>) -> OrgState {
    if has_prefix_at(line, 0, "* "@) {
        OrgState {
            done: match st.current {
                Some(c) => st.done.push(c),
                None => st.done,
            },
            current: Some((false, named(no_id(), trim(line.skip(2))))),
            in_props: false,
        }
    } else if trim(line) == ":PROPERTIES:"@ {
        OrgState { in_props: true, ..st }
    } else if trim(line) == ":END:"@ {
        OrgState { in_props: false, ..st }
    } else if st.in_props && st.current is Some {
        OrgState { current: Some(contact_prop(st.current->0, trim(line))), ..st }
    } else {
        st
    }
}

pub open spec fn org_lines(ls: Seq<Seq<char>>, n: int) -> OrgState
    decreases n,
{
    if n <= 0 {
        OrgState { done: seq![], current: None, in_props: false }
    } else {
        org_step(org_lines(ls, n - 1), ls[n - 1])
    }
}

/// The entries of a contacts file, each with whether its identifier was
/// read.
pub open spec fn contacts_of_org(input: Seq<char>) -> Seq<(bool, ContactView)> {
    let ls = lines(input);
    let st = org_lines(ls, ls.len() as int);
    match st.current {
        Some(c) => st.done.push(c),
        None => st.done,
    }
}

/// A contact read from the file: its fields, and its identifier when the
/// entry names one.
pub open spec fn read_as(c: ContactView, e: (bool, ContactView)) -> bool {
    same_fields(c, e.1) && (e.0 ==> c.id == e.1.id)
}

fn contact_prop_exec(c: &mut Contact, given: &mut bool, t: &Vec<char>)
    ensures
        ({
            let e = contact_prop((*old(given), old(c)@), t@);
            *final(given) == e.0 && final(c)@ == e.1
        }),
{
    proof {
        reveal_strlit(":ID:");
        reveal_strlit(":EMAIL:");
        reveal_strlit(":PHONE:");
        reveal_strlit(":WEBSITE:");
        reveal_strlit(":SIGNAL:");
        reveal_strlit(":PREFERRED_METHOD:");
        reveal_strlit(":CATEGORY:");
        reveal_strlit(":LAST_CONTACTED:");
        reveal_strlit(":SYNC_HREF:");
    }
    if starts_with_str_at(t, 0, ":ID:") {
        let s = slice_chars(t, 4, t.len());
        assert(s@ =~= t@.skip(4));
        let v = trim_chars(&s);
        match Uuid::parse_str(string_of(v.as_slice()).as_str()) {
            Some(u) => {
                c.id = u;
                *given = true;
            },
            None => {},
        }
    } else if starts_with_str_at(t, 0, ":EMAIL:") {
        let s = slice_chars(t, 7, t.len());
        assert(s@ =~= t@.skip(7));
        c.email = Some(string_of(trim_chars(&s).as_slice()));
    } else if starts_with_str_at(t, 0, ":PHONE:") {
        let s = slice_chars(t, 7, t.len());
        assert(s@ =~= t@.skip(7));
        c.phone = Some(string_of(trim_chars(&s).as_slice()));
    } else if starts_with_str_at(t, 0, ":WEBSITE:") {
        let s = slice_chars(t, 9, t.len());
        assert(s@ =~= t@.skip(9));
        c.website = Some(string_of(trim_chars(&s).as_slice()));
    } else if starts_with_str_at(t, 0, ":SIGNAL:") {
        let s = slice_chars(t, 8, t.len());
        assert(s@ =~= t@.skip(8));
        c.signal = Some(string_of(trim_chars(&s).as_slice()));
    } else if starts_with_str_at(t, 0, ":PREFERRED_METHOD:") {
        let s = slice_chars(t, 18, t.len());
        assert(s@ =~= t@.skip(18));
        c.preferred_method = Some(string_of(trim_chars(&s).as_slice()));
    } else if starts_with_str_at(t, 0, ":CATEGORY:") {
        let s = slice_chars(t, 10, t.len());
        assert(s@ =~= t@.skip(10));
        let v = trim_chars(&s);
        if crate::sync::multistatus::eq_ignore_ascii_case_str(string_of(v.as_slice()).as_str(), "Service") {
            c.category = ContactCategory::Service;
        }
    } else if starts_with_str_at(t, 0, ":LAST_CONTACTED:") {
        let s = slice_chars(t, 16, t.len());
        assert(s@ =~= t@.skip(16));
        let v = strip_trail_exec(&strip_lead_exec(&trim_chars(&s), '['), ']');
        match Date::parse_iso_chars(&v) {
            Some(d) => {
                c.last_contacted = Some(d);
            },
            None => {},
        }
    } else if starts_with_str_at(t, 0, ":SYNC_HREF:") {
        let s = slice_chars(t, 11, t.len());
        assert(s@ =~= t@.skip(11));
        c.sync_href = Some(string_of(trim_chars(&s).as_slice()));
    }
}

pub open spec fn cur_given(st: OrgState) -> bool {
    let c = st.current->0;
    c.0
}

pub open spec fn cur_view(st: OrgState) -> ContactView {
    let c = st.current->0;
    c.1
}

proof fn lemma_prop_read_as(a: ContactView, b: ContactView, g: bool, t: Seq<char>)
    requires
        same_fields(a, b),
        g ==> a.id == b.id,
    ensures
        ({
            let ea = contact_prop((g, a), t);
            let eb = contact_prop((g, b), t);
            ea.0 == eb.0 && same_fields(ea.1, eb.1) && (ea.0 ==> ea.1.id == eb.1.id)
        }),
{
}

/// Reads a contacts file: one contact per `* ` heading, with the
/// properties of its drawer; an entry without a readable `:ID:` gets a
/// fresh identifier.
pub fn parse_contacts_org(input: &str) -> (r: Vec<Contact>)
    ensures
        r@.len() == contacts_of_org(input@).len(),
        forall|i: int| 0 <= i < r@.len() ==> read_as(#[trigger] r@[i]@, contacts_of_org(input@)[i]),
{
    let v = chars_of(input);
    let ls = split_lines(&v);
    let ghost lv = lines(input@);
    let mut done: Vec<Contact> = Vec::new();
    let mut current: Option<Contact> = None;
    let mut given = false;
    let mut in_props = false;
    let mut i: usize = 0;
    while i < ls.len()
        invariant
            i <= ls.len(),
            ls@.len() == lv.len(),
            lv == lines(input@),
            forall|k: int| 0 <= k < ls@.len() ==> (#[trigger] ls@[k])@ == lv[k],
            ({
                let st = org_lines(lv, i as int);
                &&& done@.len() == st.done.len()
                &&& forall|k: int| 0 <= k < done@.len() ==> read_as(#[trigger] done@[k]@, st.done[k])
                &&& (current is Some <==> st.current is Some)
                &&& (current matches Some(c) ==> read_as(c@, st.current->0) && given == cur_given(st))
                &&& in_props == st.in_props
            }),
        decreases ls.len() - i,
    {
        let line = &ls[i];
        let ghost st = org_lines(lv, i as int);
        proof {
            reveal_strlit("* ");
        }
        if starts_with_str_at(line, 0, "* ") {
            match current.take() {
                Some(c) => {
                    let ghost before = done@;
                    done.push(c);
                    assert(forall|k: int| 0 <= k < before.len() ==> done@[k] == before[k]);
                },
                None => {},
            }
            let rest = slice_chars(line, 2, line.len());
            assert(rest@ =~= line@.skip(2));
            let name = string_of(trim_chars(&rest).as_slice());
            current = Some(Contact::new(name));
            given = false;
            in_props = false;
        } else {
            let t = trim_chars(line);
            if chars_eq_str(&t, ":PROPERTIES:") {
                in_props = true;
            } else if chars_eq_str(&t, ":END:") {
                in_props = false;
            } else if in_props {
                match current.take() {
                    Some(c0) => {
                        let mut c = c0;
                        let ghost g0 = given;
                        proof {
                            lemma_prop_read_as(c@, cur_view(st), g0, t@);
                        }
                        contact_prop_exec(&mut c, &mut given, &t);
                        current = Some(c);
                    },
                    None => {},
                }
            }
        }
        i = i + 1;
    }
    match current {
        Some(c) => {
            let ghost before = done@;
            done.push(c);
            assert(forall|k: int| 0 <= k < before.len() ==> done@[k] == before[k]);
        },
        None => {},
    }
    done
}

// ---------------------------------------------------------------------------
// Merging
// ---------------------------------------------------------------------------

/// The place of the first contact with the name.
pub open spec fn find_name(ls: Seq<ContactView>, name: Seq<char>, i: int) -> Option<int>
    decreases ls.len() - i,
{
    if i < 0 || i >= ls.len() {
        None
    } else if ls[i].name == name {
        Some(i)
    } else {
        find_name(ls, name, i + 1)
    }
}

/// A local contact updated from the server's: the server's fields where
/// it has them, its category when not personal; the identifier, name and
/// last contact stay.
pub open spec fn merge_one(l: ContactView, r: ContactView) -> ContactView {
    ContactView {
        email: last_of(l.email, r.email),
        phone: last_of(l.phone, r.phone),
        website: last_of(l.website, r.website),
        signal: last_of(l.signal, r.signal),
        preferred_method: last_of(l.preferred_method, r.preferred_method),
        category: if r.category != ContactCategory::Personal {
            r.category
        } else {
            l.category
        },
        sync_href: last_of(l.sync_href, r.sync_href),
        ..l
    }
}

pub open spec fn merge_fold(ls: Seq<ContactView>, rs: Seq<ContactView>, k: int) -> Seq<ContactView>
    decreases k,
{
    if k <= 0 {
        ls
    } else {
        let acc = merge_fold(ls, rs, k - 1);
        let r = rs[k - 1];
        match find_name(acc, r.name, 0) {
            Some(i) => acc.update(i, merge_one(acc[i], r)),
            None => acc.push(r),
        }
    }
}

/// Names in code-point order (the byte order of their UTF-8).
pub open spec fn name_le(a: Seq<char>, b: Seq<char>) -> bool
    decreases a.len(),
{
    if a.len() == 0 {
        true
    } else if b.len() == 0 {
        false
    } else if (a[0] as u32) != (b[0] as u32) {
        (a[0] as u32) < (b[0] as u32)
    } else {
        name_le(a.drop_first(), b.drop_first())
    }
}

pub open spec fn insert_by_name(s: Seq<ContactView>, x: ContactView) -> Seq<ContactView>
    decreases s.len(),
{
    if s.len() == 0 {
        seq![x]
    } else if name_le(s.last().name, x.name) {
        s.push(x)
    } else {
        insert_by_name(s.drop_last(), x).push(s.last())
    }
}

/// The contacts stably sorted by name.
pub open spec fn sort_by_name(s: Seq<ContactView>) -> Seq<ContactView>
    decreases s.len(),
{
    if s.len() == 0 {
        seq![]
    } else {
        insert_by_name(sort_by_name(s.drop_last()), s.last())
    }
}

fn name_le_exec(a: &Vec<char>, b: &Vec<char>) -> (r: bool)
    ensures
        r == name_le(a@, b@),
{
    let mut i: usize = 0;
    assert(a@.skip(0) =~= a@);
    assert(b@.skip(0) =~= b@);
    while i < a.len() && i < b.len() && (a[i] as u32) == (b[i] as u32)
        invariant
            i <= a@.len(),
            i <= b@.len(),
            name_le(a@.skip(i as int), b@.skip(i as int)) == name_le(a@, b@),
        decreases a.len() - i,
    {
        assert(a@.skip(i as int).drop_first() =~= a@.skip(i + 1));
        assert(b@.skip(i as int).drop_first() =~= b@.skip(i + 1));
        i = i + 1;
    }
    if i == a.len() {
        return true;
    }
    if i == b.len() {
        return false;
    }
    (a[i] as u32) < (b[i] as u32)
}

proof fn lemma_insert_name_at(s: Seq<ContactView>, x: ContactView, j: int)
    requires
        0 <= j <= s.len(),
        forall|i: int| j <= i < s.len() ==> !name_le(#[trigger] s[i].name, x.name),
        j > 0 ==> name_le(s[j - 1].name, x.name),
    ensures
        insert_by_name(s, x) == s.insert(j, x),
    decreases s.len(),
{
    if s.len() == 0 {
        assert(s.insert(j, x) =~= seq![x]);
    } else if j == s.len() {
        assert(s.insert(j, x) =~= s.push(x));
    } else {
        let t = s.drop_last();
        assert(!name_le(s[s.len() - 1].name, x.name));
        assert forall|i: int| j <= i < t.len() implies !name_le(#[trigger] t[i].name, x.name) by {
            assert(t[i] == s[i]);
        }
        if j > 0 {
            assert(t[j - 1] == s[j - 1]);
        }
        lemma_insert_name_at(t, x, j);
        assert(t.insert(j, x).push(s.last()) =~= s.insert(j, x));
    }
}

fn insert_by_name_exec(v: &mut Vec<Contact>, x: Contact)
    ensures
        contact_views(final(v)@) == insert_by_name(contact_views(old(v)@), x@),
{
    let ghost s = contact_views(v@);
    let xn = chars_of(x.name.as_str());
    let mut j: usize = v.len();
    while j > 0 && !name_le_exec(&chars_of(v[j - 1].name.as_str()), &xn)
        invariant
            j <= v.len(),
            s == contact_views(v@),
            xn@ == x.name@,
            forall|i: int| j <= i < s.len() ==> !name_le(#[trigger] s[i].name, x@.name),
        decreases j,
    {
        j = j - 1;
    }
    proof {
        lemma_insert_name_at(s, x@, j as int);
    }
    v.insert(j, x);
    assert(contact_views(v@) =~= s.insert(j as int, x@));
}

fn find_name_exec(ls: &Vec<Contact>, name: &String) -> (r: Option<usize>)
    ensures
        match r {
            Some(i) => i < ls@.len() && find_name(contact_views(ls@), name@, 0) == Some(i as int),
            None => find_name(contact_views(ls@), name@, 0) is None,
        },
{
    let ghost cv = contact_views(ls@);
    let mut i: usize = 0;
    while i < ls.len()
        invariant
            i <= ls@.len(),
            cv == contact_views(ls@),
            find_name(cv, name@, i as int) == find_name(cv, name@, 0),
        decreases ls.len() - i,
    {
        assert(cv[i as int] == ls@[i as int]@);
        if crate::text::str_eq(ls[i].name.as_str(), name.as_str()) {
            return Some(i);
        }
        i = i + 1;
    }
    None
}

fn merge_one_exec(l: &Contact, r: &Contact) -> (m: Contact)
    ensures
        m@ == merge_one(l@, r@),
{
    let mut m = l.duplicate();
    m.email = last_exec(crate::model::task::copy_opt_string(&l.email), crate::model::task::copy_opt_string(&r.email));
    m.phone = last_exec(crate::model::task::copy_opt_string(&l.phone), crate::model::task::copy_opt_string(&r.phone));
    m.website = last_exec(crate::model::task::copy_opt_string(&l.website), crate::model::task::copy_opt_string(&r.website));
    m.signal = last_exec(crate::model::task::copy_opt_string(&l.signal), crate::model::task::copy_opt_string(&r.signal));
    m.preferred_method = last_exec(crate::model::task::copy_opt_string(&l.preferred_method), crate::model::task::copy_opt_string(&r.preferred_method));
    if r.category != ContactCategory::Personal {
        m.category = r.category;
    }
    m.sync_href = last_exec(crate::model::task::copy_opt_string(&l.sync_href), crate::model::task::copy_opt_string(&r.sync_href));
    m
}

/// Merges the server's contacts into the local ones, matching by name
/// (the first local contact of that name), then sorts them by name,
/// keeping the order of equal names.
pub fn merge_contacts(local: &mut Vec<Contact>, remote: Vec<Contact>)
    ensures
        contact_views(final(local)@) == sort_by_name(
            merge_fold(contact_views(old(local)@), contact_views(remote@), remote@.len() as int),
        ),
{
    let ghost lv0 = contact_views(local@);
    let ghost rv = contact_views(remote@);
    let mut k: usize = 0;
    while k < remote.len()
        invariant
            k <= remote@.len(),
            rv == contact_views(remote@),
            contact_views(local@) == merge_fold(lv0, rv, k as int),
        decreases remote.len() - k,
    {
        assert(rv[k as int] == remote@[k as int]@);
        match find_name_exec(local, &remote[k].name) {
            Some(i) => {
                let m = merge_one_exec(&local[i], &remote[k]);
                let ghost before = contact_views(local@);
                local.set(i, m);
                assert(contact_views(local@) =~= before.update(i as int, m@));
            },
            None => {
                let ghost before = contact_views(local@);
                local.push(remote[k].duplicate());
                assert(contact_views(local@) =~= before.push(rv[k as int]));
            },
        }
        k = k + 1;
    }
    let ghost merged = contact_views(local@);
    let mut sorted: Vec<Contact> = Vec::new();
    let mut i: usize = 0;
    assert(contact_views(sorted@) =~= Seq::<ContactView>::empty());
    while i < local.len()
        invariant
            i <= local@.len(),
            merged == contact_views(local@),
            contact_views(sorted@) == sort_by_name(merged.take(i as int)),
        decreases local.len() - i,
    {
        assert(merged.take(i + 1).drop_last() =~= merged.take(i as int));
        assert(merged.take(i + 1).last() == local@[i as int]@);
        insert_by_name_exec(&mut sorted, local[i].duplicate());
        i = i + 1;
    }
    assert(merged.take(local@.len() as int) =~= merged);
    *local = sorted;
}

// ---------------------------------------------------------------------------
// CardDAV answers
// ---------------------------------------------------------------------------

/// A node at or below `r` named `resourcetype` with an `addressbook` child.
pub open spec fn is_addressbook(ns: Seq<XmlNodeView>, r: int, k: int) -> bool
    decreases k,
{
    if k <= 0 || k > ns.len() {
        false
    } else {
        is_addressbook(ns, r, k - 1) || (crate::sync::multistatus::is_desc(ns, r, k - 1) && ns[k - 1].name == "resourcetype"@
            && crate::sync::multistatus::child_named(ns, k - 1, "addressbook"@, 0) is Some)
    }
}

/// The hrefs of the address books of a PROPFIND answer, below index `k`.
pub open spec fn addressbooks(ns: Seq<XmlNodeView>, k: int) -> Seq<Seq<char>>
    decreases k,
{
    if k <= 0 || k > ns.len() {
        seq![]
    } else {
        let rest = addressbooks(ns, k - 1);
        let href = trim(crate::sync::multistatus::child_text(ns, k - 1, "href"@));
        if ns[k - 1].name == "response"@ && is_addressbook(ns, k - 1, ns.len() as int) && href.len() > 0 {
            rest.push(href)
        } else {
            rest
        }
    }
}

fn is_addressbook_exec(ns: &Vec<crate::sync::multistatus::XmlNode>, r: usize) -> (res: bool)
    ensures
        res == is_addressbook(node_views(ns@), r as int, ns@.len() as int),
{
    let ghost nv = node_views(ns@);
    let mut found = false;
    let mut k: usize = 0;
    while k < ns.len()
        invariant
            k <= ns@.len(),
            nv == node_views(ns@),
            nv.len() == ns@.len(),
            found == is_addressbook(nv, r as int, k as int),
        decreases ns.len() - k,
    {
        assert(nv[k as int] == ns@[k as int]@);
        if !found && crate::sync::multistatus::is_desc_exec(ns, r, k)
            && crate::text::str_eq(ns[k].name.as_str(), "resourcetype")
            && crate::sync::multistatus::child_named_exec(ns, k, "addressbook").is_some() {
            found = true;
        }
        k = k + 1;
    }
    found
}

/// Reads the address books of a PROPFIND answer on an address book home.
pub fn parse_addressbook_listing(xml: &str) -> (r: Result<Vec<String>, String>)
    ensures
        match roxml_parse(xml@) {
            Ok(ns) => (r matches Ok(v) && crate::model::task::strs(v@) == addressbooks(ns, ns.len() as int)),
            Err(e) => (r matches Err(m) && m@ == xml_error(e)),
        },
{
    let ns = match crate::sync::multistatus::parse_xml(xml) {
        Ok(v) => v,
        Err(e) => {
            let mut m = chars_of("Failed to parse XML: ");
            push_str(&mut m, e.as_str());
            return Err(string_of(m.as_slice()));
        },
    };
    let ghost nv = node_views(ns@);
    let mut out: Vec<String> = Vec::new();
    let mut k: usize = 0;
    while k < ns.len()
        invariant
            k <= ns@.len(),
            nv == node_views(ns@),
            nv.len() == ns@.len(),
            crate::model::task::strs(out@) == addressbooks(nv, k as int),
        decreases ns.len() - k,
    {
        assert(nv[k as int] == ns@[k as int]@);
        if crate::text::str_eq(ns[k].name.as_str(), "response") {
            let href = trim_chars(&crate::sync::multistatus::child_text_exec(&ns, k, "href"));
            if is_addressbook_exec(&ns, k) && href.len() > 0 {
                let ghost before = out@;
                out.push(string_of(href.as_slice()));
                assert(crate::model::task::strs(out@) =~= crate::model::task::strs(before).push(href@));
            }
        }
        k = k + 1;
    }
    Ok(out)
}

/// The href of a response: its `href` child's text, trimmed.
pub open spec fn response_href(ns: Seq<XmlNodeView>, r: int) -> Option<Seq<char>> {
    match crate::sync::multistatus::child_named(ns, r, "href"@, 0) {
        Some(c) => match ns[c].text {
            Some(t) => Some(trim(t)),
            None => None,
        },
        None => None,
    }
}

/// The vCards below `r` (index below `k`), each with the response's href.
pub open spec fn cards_of_response(ns: Seq<XmlNodeView>, r: int, k: int) -> Seq<(Seq<char>, Option<Seq<char>>)>
    decreases k,
{
    if k <= 0 || k > ns.len() {
        seq![]
    } else {
        let rest = cards_of_response(ns, r, k - 1);
        let p = k - 1;
        if crate::sync::multistatus::is_desc(ns, r, p) && ns[p].name == "address-data"@ && ns[p].text is Some {
            rest.push((ns[p].text->0, response_href(ns, r)))
        } else {
            rest
        }
    }
}

/// The vCards of an addressbook-query answer, response by response.
pub open spec fn address_cards(ns: Seq<XmlNodeView>, k: int) -> Seq<(Seq<char>, Option<Seq<char>>)>
    decreases k,
{
    if k <= 0 || k > ns.len() {
        seq![]
    } else {
        let rest = address_cards(ns, k - 1);
        if ns[k - 1].name == "response"@ {
            rest + cards_of_response(ns, k - 1, ns.len() as int)
        } else {
            rest
        }
    }
}

/// The contacts of the vCards that have a name, each with its href.
pub open spec fn card_contacts(cards: Seq<(Seq<char>, Option<Seq<char>>)>) -> Seq<ContactView>
    decreases cards.len(),
{
    if cards.len() == 0 {
        seq![]
    } else {
        let rest = card_contacts(cards.drop_last());
        let (text, href) = cards.last();
        match vcard_contact(text, no_id()) {
            Some(c) => rest.push(ContactView { sync_href: href, ..c }),
            None => rest,
        }
    }
}

proof fn lemma_vcard_id(text: Seq<char>, a: Uuid, b: Uuid)
    ensures
        vcard_contact(text, a) is Some <==> vcard_contact(text, b) is Some,
        vcard_contact(text, a) is Some ==> same_fields(vcard_contact(text, a)->0, vcard_contact(text, b)->0),
{
}

fn response_href_exec(ns: &Vec<crate::sync::multistatus::XmlNode>, r: usize) -> (h: Option<String>)
    ensures
        opt_str(h) == response_href(node_views(ns@), r as int),
{
    match crate::sync::multistatus::child_named_exec(ns, r, "href") {
        Some(c) => {
            assert(node_views(ns@)[c as int] == ns@[c as int]@);
            match &ns[c].text {
                Some(t) => Some(string_of(trim_chars(&chars_of(t.as_str())).as_slice())),
                None => None,
            }
        },
        None => None,
    }
}

/// Each contact has the fields the card list gives (its identifier aside).
pub open spec fn cards_read(v: Seq<Contact>, cs: Seq<ContactView>) -> bool {
    v.len() == cs.len() && forall|i: int| 0 <= i < v.len() ==> same_fields(#[trigger] v[i]@, cs[i])
}

fn push_card(out: &mut Vec<Contact>, text: &String, href: &Option<String>)
    ensures
        forall|cs: Seq<(Seq<char>, Option<Seq<char>>)>| cards_read(old(out)@, card_contacts(cs)) ==> cards_read(
            final(out)@,
            #[trigger] card_contacts(cs.push((text@, opt_str(*href)))),
        ),
{
    let parsed = parse_vcard(text.as_str());
    match parsed {
        Some(c0) => {
            let mut c = c0;
            proof {
                lemma_vcard_id(text@, c.id, no_id());
            }
            c.sync_href = crate::model::task::copy_opt_string(href);
            let ghost before = out@;
            out.push(c);
            proof {
                assert forall|cs: Seq<(Seq<char>, Option<Seq<char>>)>| cards_read(before, card_contacts(cs)) implies cards_read(
                    out@,
                    #[trigger] card_contacts(cs.push((text@, opt_str(*href)))),
                ) by {
                    let w = cs.push((text@, opt_str(*href)));
                    assert(w.drop_last() =~= cs);
                    assert(forall|i: int| 0 <= i < before.len() ==> out@[i] == before[i]);
                }
            }
        },
        None => {
            proof {
                assert(vcard_contact(text@, no_id()) is None);
                assert forall|cs: Seq<(Seq<char>, Option<Seq<char>>)>| cards_read(out@, card_contacts(cs)) implies cards_read(
                    out@,
                    #[trigger] card_contacts(cs.push((text@, opt_str(*href)))),
                ) by {
                    let w = cs.push((text@, opt_str(*href)));
                    assert(w.drop_last() =~= cs);
                }
            }
        },
    }
}

/// Reads the contacts of an addressbook-query answer: each `address-data`
/// below each response, parsed as a vCard (with a fresh identifier) and
/// given the response's href; cards without a name are left out.
pub fn parse_address_data(xml: &str) -> (r: Result<Vec<Contact>, String>)
    ensures
        match roxml_parse(xml@) {
            Ok(ns) => (r matches Ok(v) && cards_read(v@, card_contacts(address_cards(ns, ns.len() as int)))),
            Err(e) => (r matches Err(m) && m@ == xml_error(e)),
        },
{
    let ns = match crate::sync::multistatus::parse_xml(xml) {
        Ok(v) => v,
        Err(e) => {
            let mut m = chars_of("Failed to parse XML: ");
            push_str(&mut m, e.as_str());
            return Err(string_of(m.as_slice()));
        },
    };
    let ghost nv = node_views(ns@);
    let mut out: Vec<Contact> = Vec::new();
    let mut k: usize = 0;
    while k < ns.len()
        invariant
            k <= ns@.len(),
            nv == node_views(ns@),
            nv.len() == ns@.len(),
            cards_read(out@, card_contacts(address_cards(nv, k as int))),
        decreases ns.len() - k,
    {
        assert(nv[k as int] == ns@[k as int]@);
        if crate::text::str_eq(ns[k].name.as_str(), "response") {
            let href = response_href_exec(&ns, k);
            let ghost base = address_cards(nv, k as int);
            let mut p: usize = 0;
            while p < ns.len()
                invariant
                    p <= ns@.len(),
                    k < ns@.len(),
                    nv == node_views(ns@),
                    nv.len() == ns@.len(),
                    opt_str(href) == response_href(nv, k as int),
                    cards_read(out@, card_contacts(base + cards_of_response(nv, k as int, p as int))),
                decreases ns.len() - p,
            {
                assert(nv[p as int] == ns@[p as int]@);
                let ghost before_cards = base + cards_of_response(nv, k as int, p as int);
                if crate::sync::multistatus::is_desc_exec(&ns, k, p) && crate::text::str_eq(ns[p].name.as_str(), "address-data") {
                    match &ns[p].text {
                        Some(t) => {
                            push_card(&mut out, t, &href);
                            assert(base + cards_of_response(nv, k as int, p + 1) =~= before_cards.push((t@, opt_str(href))));
                        },
                        None => {
                            assert(base + cards_of_response(nv, k as int, p + 1) =~= before_cards);
                        },
                    }
                } else {
                    assert(base + cards_of_response(nv, k as int, p + 1) =~= before_cards);
                }
                p = p + 1;
            }
        }
        k = k + 1;
    }
    Ok(out)
}

} // verus!
