//! Links between items: a kind and an identifier, written `kind:uuid`.

use vstd::prelude::*;

use crate::ids::{uuid_parse_spec, uuid_text, lemma_uuid_text_roundtrip, Uuid};
use crate::text::{chars_of, find_char_from, find_from, lemma_find_from, push_str, slice_chars, string_of, chars_eq_str};

verus! {

#[derive(Debug, Clone, Copy, PartialEq, Eq, Hash, Structural)]
pub enum LinkTarget {
    Note(Uuid),
    Task(Uuid),
    Project(Uuid),
    Contact(Uuid),
    Account(Uuid),
    MediaItem(Uuid),
    ShoppingItem(Uuid),
}

pub open spec fn link_uuid(t: LinkTarget) -> Uuid {
    match t {
        LinkTarget::Note(id) => id,
        LinkTarget::Task(id) => id,
        LinkTarget::Project(id) => id,
        LinkTarget::Contact(id) => id,
        LinkTarget::Account(id) => id,
        LinkTarget::MediaItem(id) => id,
        LinkTarget::ShoppingItem(id) => id,
    }
}

/// The kind word written before the colon.
pub open spec fn link_kind(t: LinkTarget) -> Seq<char> {
    match t {
        LinkTarget::Note(_) => seq!['n', 'o', 't', 'e'],
        LinkTarget::Task(_) => seq!['t', 'a', 's', 'k'],
        LinkTarget::Project(_) => seq!['p', 'r', 'o', 'j', 'e', 'c', 't'],
        LinkTarget::Contact(_) => seq!['c', 'o', 'n', 't', 'a', 'c', 't'],
        LinkTarget::Account(_) => seq!['a', 'c', 'c', 'o', 'u', 'n', 't'],
        LinkTarget::MediaItem(_) => seq!['m', 'e', 'd', 'i', 'a'],
        LinkTarget::ShoppingItem(_) => seq!['s', 'h', 'o', 'p', 'p', 'i', 'n', 'g'],
    }
}

/// The link of kind word `kind` to `id`.
pub open spec fn link_of_kind(kind: Seq<char>, id: Uuid) -> Option<LinkTarget> {
    if kind == link_kind(LinkTarget::Note(id)) {
        Some(LinkTarget::Note(id))
    } else if kind == link_kind(LinkTarget::Task(id)) {
        Some(LinkTarget::Task(id))
    } else if kind == link_kind(LinkTarget::Project(id)) {
        Some(LinkTarget::Project(id))
    } else if kind == link_kind(LinkTarget::Contact(id)) {
        Some(LinkTarget::Contact(id))
    } else if kind == link_kind(LinkTarget::Account(id)) {
        Some(LinkTarget::Account(id))
    } else if kind == link_kind(LinkTarget::MediaItem(id)) {
        Some(LinkTarget::MediaItem(id))
    } else if kind == link_kind(LinkTarget::ShoppingItem(id)) {
        Some(LinkTarget::ShoppingItem(id))
    } else {
        None
    }
}

/// `kind:uuid`.
pub open spec fn link_text(t: LinkTarget) -> Seq<char> {
    link_kind(t) + seq![':'] + uuid_text(link_uuid(t).value)
}

/// Reading `kind:uuid`: the text up to the first colon names the kind, the
/// rest must parse as an identifier.
pub open spec fn parse_link(s: Seq<char>) -> Option<LinkTarget> {
    match find_from(s, ':', 0) {
        None => None,
        Some(k) => match uuid_parse_spec(s.skip(k + 1)) {
            None => None,
            Some(v) => link_of_kind(s.take(k), Uuid { value: v }),
        },
    }
}

impl LinkTarget {
    pub fn to_org(&self) -> (r: String)
        ensures
            r@ == link_text(*self),
    {
        proof {
            reveal_strlit("note");
            reveal_strlit("task");
            reveal_strlit("project");
            reveal_strlit("contact");
            reveal_strlit("account");
            reveal_strlit("media");
            reveal_strlit("shopping");
        }
        let kind = match self {
            LinkTarget::Note(_) => "note",
            LinkTarget::Task(_) => "task",
            LinkTarget::Project(_) => "project",
            LinkTarget::Contact(_) => "contact",
            LinkTarget::Account(_) => "account",
            LinkTarget::MediaItem(_) => "media",
            LinkTarget::ShoppingItem(_) => "shopping",
        };
        assert(kind@ =~= link_kind(*self));
        let mut v: Vec<char> = Vec::new();
        push_str(&mut v, kind);
        v.push(':');
        let id = self.uuid();
        let idt = id.to_string();
        push_str(&mut v, idt.as_str());
        assert(v@ =~= link_text(*self));
        string_of(v.as_slice())
    }

    pub fn from_org(s: &str) -> (r: Option<LinkTarget>)
        ensures
            r == parse_link(s@),
    {
        let v = chars_of(s);
        proof {
            lemma_find_from(v@, ':', 0);
        }
        let k = match find_char_from(&v, ':', 0) {
            Some(k) => k,
            None => {
                return None;
            },
        };
        let rest = slice_chars(&v, k + 1, v.len());
        assert(rest@ =~= v@.skip(k + 1));
        let rs = string_of(rest.as_slice());
        let id = match Uuid::parse_str(rs.as_str()) {
            Some(id) => id,
            None => {
                return None;
            },
        };
        let kind = slice_chars(&v, 0, k);
        assert(kind@ =~= v@.take(k as int));
        proof {
            reveal_strlit("note");
            reveal_strlit("task");
            reveal_strlit("project");
            reveal_strlit("contact");
            reveal_strlit("account");
            reveal_strlit("media");
            reveal_strlit("shopping");
        }
        assert("note"@ =~= link_kind(LinkTarget::Note(id)));
        assert("task"@ =~= link_kind(LinkTarget::Task(id)));
        assert("project"@ =~= link_kind(LinkTarget::Project(id)));
        assert("contact"@ =~= link_kind(LinkTarget::Contact(id)));
        assert("account"@ =~= link_kind(LinkTarget::Account(id)));
        assert("media"@ =~= link_kind(LinkTarget::MediaItem(id)));
        assert("shopping"@ =~= link_kind(LinkTarget::ShoppingItem(id)));
        if chars_eq_str(&kind, "note") {
            Some(LinkTarget::Note(id))
        } else if chars_eq_str(&kind, "task") {
            Some(LinkTarget::Task(id))
        } else if chars_eq_str(&kind, "project") {
            Some(LinkTarget::Project(id))
        } else if chars_eq_str(&kind, "contact") {
            Some(LinkTarget::Contact(id))
        } else if chars_eq_str(&kind, "account") {
            Some(LinkTarget::Account(id))
        } else if chars_eq_str(&kind, "media") {
            Some(LinkTarget::MediaItem(id))
        } else if chars_eq_str(&kind, "shopping") {
            Some(LinkTarget::ShoppingItem(id))
        } else {
            None
        }
    }

    pub fn uuid(&self) -> (r: Uuid)
        ensures
            r == link_uuid(*self),
    {
        match self {
            LinkTarget::Note(id) => *id,
            LinkTarget::Task(id) => *id,
            LinkTarget::Project(id) => *id,
            LinkTarget::Contact(id) => *id,
            LinkTarget::Account(id) => *id,
            LinkTarget::MediaItem(id) => *id,
            LinkTarget::ShoppingItem(id) => *id,
        }
    }

    /// The display name of the link's kind.
    pub fn kind_label(&self) -> (r: &'static str)
        ensures
            r@ == link_label(*self),
    {
        proof {
            reveal_strlit("Note");
            reveal_strlit("Task");
            reveal_strlit("Project");
            reveal_strlit("Contact");
            reveal_strlit("Account");
            reveal_strlit("Media");
            reveal_strlit("Shopping");
        }
        match self {
            LinkTarget::Note(_) => "Note",
            LinkTarget::Task(_) => "Task",
            LinkTarget::Project(_) => "Project",
            LinkTarget::Contact(_) => "Contact",
            LinkTarget::Account(_) => "Account",
            LinkTarget::MediaItem(_) => "Media",
            LinkTarget::ShoppingItem(_) => "Shopping",
        }
    }
}

pub open spec fn link_label(t: LinkTarget) -> Seq<char> {
    match t {
        LinkTarget::Note(_) => seq!['N', 'o', 't', 'e'],
        LinkTarget::Task(_) => seq!['T', 'a', 's', 'k'],
        LinkTarget::Project(_) => seq!['P', 'r', 'o', 'j', 'e', 'c', 't'],
        LinkTarget::Contact(_) => seq!['C', 'o', 'n', 't', 'a', 'c', 't'],
        LinkTarget::Account(_) => seq!['A', 'c', 'c', 'o', 'u', 'n', 't'],
        LinkTarget::MediaItem(_) => seq!['M', 'e', 'd', 'i', 'a'],
        LinkTarget::ShoppingItem(_) => seq!['S', 'h', 'o', 'p', 'p', 'i', 'n', 'g'],
    }
}

/// Reading a link's text gives the link back.
pub proof fn lemma_link_roundtrip(t: LinkTarget)
    ensures
        parse_link(link_text(t)) == Some(t),
{
    let s = link_text(t);
    let kind = link_kind(t);
    let id = link_uuid(t);
    lemma_uuid_text_roundtrip(id.value);
    lemma_find_from(s, ':', 0);
    assert(s[kind.len() as int] == ':');
    assert forall|j: int| 0 <= j < kind.len() implies s[j] != ':' by {
        assert(s[j] == kind[j]);
    }
    assert(find_from(s, ':', 0) == Some(kind.len() as int)) by {
        match find_from(s, ':', 0) {
            Some(k) => {
                if k < kind.len() {
                    assert(s[k] == kind[k]);
                }
            },
            None => {},
        }
    }
    assert(s.skip(kind.len() as int + 1) =~= uuid_text(id.value));
    assert(s.take(kind.len() as int) =~= kind);
    match t {
        LinkTarget::Note(_) => {},
        LinkTarget::Task(_) => {
            assert(kind[0] != link_kind(LinkTarget::Note(id))[0]);
        },
        LinkTarget::Project(_) => {
            assert(kind.len() != 4);
        },
        LinkTarget::Contact(_) => {
            assert(kind[0] != link_kind(LinkTarget::Project(id))[0]);
            assert(kind.len() != 4);
        },
        LinkTarget::Account(_) => {
            assert(kind[0] != link_kind(LinkTarget::Project(id))[0]);
            assert(kind[0] != link_kind(LinkTarget::Contact(id))[0]);
            assert(kind.len() != 4);
        },
        LinkTarget::MediaItem(_) => {
            assert(kind.len() != 4 && kind.len() != 7);
        },
        LinkTarget::ShoppingItem(_) => {
            assert(kind.len() != 4 && kind.len() != 7 && kind.len() != 5);
        },
    }
}

} // verus!
