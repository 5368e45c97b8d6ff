//! The application configuration: where the org files live, the sync
//! services, calendar assignments and sync tokens.

use vstd::prelude::*;

use crate::model::task::strs;
use crate::text::{push_str, string_of, str_eq};

verus! {

pub const CONFIG_VERSION: u64 = 2;

/// What a discovered calendar is used for.
#[derive(Debug, Clone, Copy, PartialEq, Eq, Structural)]
pub enum CalendarPurpose {
    Tasks,
    Events,
    Disabled,
}

/// URL and user name of a sync service (the password lives in the keyring).
#[derive(Debug, Clone)]
pub struct ServiceConfig {
    pub url: String,
    pub username: String,
}

impl Default for ServiceConfig {
    fn default() -> (r: ServiceConfig)
        ensures
            r.url@.len() == 0,
            r.username@.len() == 0,
    {
        ServiceConfig { url: String::new(), username: String::new() }
    }
}

/// Host, user name and folder of the IMAP inbox.
#[derive(Debug, Clone)]
pub struct ImapConfig {
    pub host: String,
    pub username: String,
    pub folder: String,
}

impl Default for ImapConfig {
    fn default() -> (r: ImapConfig)
        ensures
            r.host@.len() == 0,
            r.username@.len() == 0,
            r.folder@.len() == 0,
    {
        ImapConfig { host: String::new(), username: String::new(), folder: String::new() }
    }
}

/// A calendar and what it is used for.
#[derive(Debug, Clone)]
pub struct CalendarAssignment {
    pub calendar_href: String,
    pub purpose: CalendarPurpose,
}

/// The configuration.
#[derive(Debug, Clone)]
pub struct LampConfig {
    pub org_directory: String,
    pub contexts: Vec<String>,
    pub calendars: ServiceConfig,
    pub contacts: ServiceConfig,
    pub notes_sync: ServiceConfig,
    pub imap: ImapConfig,
    pub calendar_assignments: Vec<CalendarAssignment>,
    /// Sync tokens: calendar href and token.
    pub sync_tokens: Vec<(String, String)>,
    pub browser_command: String,
    pub debug_logging: bool,
}

// ---------------------------------------------------------------------------
// Paths
// ---------------------------------------------------------------------------

/// `base` joined with the relative name `name`, as `Path::join` does it:
/// a separator is put between them unless `base` is empty or already ends
/// with one.
pub open spec fn path_join(base: Seq<char>, name: Seq<char>) -> Seq<char> {
    if base.len() == 0 {
        name
    } else if base.last() == '/' {
        base + name
    } else {
        base + seq!['/'] + name
    }
}

/// Joins a relative name to a directory.
pub fn join_path(base: &str, name: &str) -> (r: String)
    ensures
        r@ == path_join(base@, name@),
{
    let mut v: Vec<char> = Vec::new();
    push_str(&mut v, base);
    let n = v.len();
    if n > 0 && v[n - 1] != '/' {
        v.push('/');
    }
    push_str(&mut v, name);
    assert(v@ =~= path_join(base@, name@));
    string_of(v.as_slice())
}

/// The platform's local data directory (`$XDG_DATA_HOME`, else
/// `~/.local/share`) from `dirs::data_local_dir`; it depends on the
/// environment, so nothing is stated of it.
#[verifier::external_body]
fn dirs_data_local_dir() -> (r: Option<String>) {
    dirs::data_local_dir().map(|p| p.to_string_lossy().into_owned())
}

/// The user's home directory from `dirs::home_dir`; it depends on the
/// environment, so nothing is stated of it.
#[verifier::external_body]
fn dirs_home_dir() -> (r: Option<String>) {
    dirs::home_dir().map(|p| p.to_string_lossy().into_owned())
}

/// Whether a path lies under `/tmp`, where data does not survive a reboot.
pub open spec fn under_tmp(p: Seq<char>) -> bool {
    crate::text::has_prefix_at(p, 0, "/tmp"@)
}

/// The default org directory given the data directory and the home
/// directory: `<data>/lamp`, else `<home>/.local/share/lamp`; a candidate
/// under `/tmp` is passed over.
pub open spec fn org_dir_from(data: Option<Seq<char>>, home: Option<Seq<char>>) -> Option<
    Seq<char>,
> {
    let first = match data {
        Some(d) => Some(path_join(d, "lamp"@)),
        None => None,
    };
    let second = match home {
        Some(h) => Some(path_join(path_join(h, ".local/share"@), "lamp"@)),
        None => None,
    };
    if first matches Some(f) && !under_tmp(f) {
        first
    } else if second matches Some(s) && !under_tmp(s) {
        second
    } else {
        None
    }
}

pub open spec fn opt_view(o: Option<String>) -> Option<Seq<char>> {
    match o {
        Some(s) => Some(s@),
        None => None,
    }
}

fn is_under_tmp(p: &str) -> (r: bool)
    ensures
        r == under_tmp(p@),
{
    let v = crate::text::chars_of(p);
    crate::text::starts_with_str_at(&v, 0, "/tmp")
}

/// `org_dir_from` on given directories.
pub fn org_dir_from_dirs(data: Option<String>, home: Option<String>) -> (r: Option<String>)
    ensures
        opt_view(r) == org_dir_from(opt_view(data), opt_view(home)),
{
    let first = match data {
        Some(d) => Some(join_path(d.as_str(), "lamp")),
        None => None,
    };
    let second = match home {
        Some(h) => {
            let share = join_path(h.as_str(), ".local/share");
            Some(join_path(share.as_str(), "lamp"))
        },
        None => None,
    };
    match first {
        Some(f) => {
            if !is_under_tmp(f.as_str()) {
                return Some(f);
            }
        },
        None => {},
    }
    match second {
        Some(s) => {
            if !is_under_tmp(s.as_str()) {
                return Some(s);
            }
        },
        None => {},
    }
    None
}

/// The default org directory, from the platform's data directory or the
/// home directory; none when neither is known.
pub fn default_org_dir() -> (r: Option<String>)
    ensures
        exists|d: Option<Seq<char>>, h: Option<Seq<char>>| opt_view(r) == org_dir_from(d, h),
        r matches Some(p) ==> !under_tmp(p@),
{
    let d = dirs_data_local_dir();
    let h = dirs_home_dir();
    org_dir_from_dirs(d, h)
}

pub fn default_browser_command() -> (r: String)
    ensures
        r@ == "xdg-open"@,
{
    "xdg-open".to_owned()
}

pub open spec fn default_context_names() -> Seq<Seq<char>> {
    seq!["@home"@, "@work"@, "@errands"@, "@computer"@, "@phone"@, "@anywhere"@]
}

pub fn default_contexts() -> (r: Vec<String>)
    ensures
        strs(r@) == default_context_names(),
{
    let mut v: Vec<String> = Vec::new();
    v.push("@home".to_owned());
    v.push("@work".to_owned());
    v.push("@errands".to_owned());
    v.push("@computer".to_owned());
    v.push("@phone".to_owned());
    v.push("@anywhere".to_owned());
    assert(strs(v@) =~= default_context_names());
    v
}

// ---------------------------------------------------------------------------
// Sync tokens
// ---------------------------------------------------------------------------

pub open spec fn tokens_view(v: Seq<(String, String)>) -> Seq<(Seq<char>, Seq<char>)> {
    v.map_values(|p: (String, String)| (p.0@, p.1@))
}

/// The first entry for calendar `href`.
pub open spec fn token_index(v: Seq<(Seq<char>, Seq<char>)>, href: Seq<char>) -> Option<int> {
    if exists|i: int| 0 <= i < v.len() && v[i].0 == href {
        Some(
            choose|i: int|
                0 <= i < v.len() && v[i].0 == href && forall|j: int| 0 <= j < i ==> v[j].0 != href,
        )
    } else {
        None
    }
}

/// The token stored for `href`.
pub open spec fn token_of(v: Seq<(Seq<char>, Seq<char>)>, href: Seq<char>) -> Option<Seq<char>> {
    match token_index(v, href) {
        Some(i) => Some(v[i].1),
        None => None,
    }
}

/// The entries after storing `token` for `href`: the entry is replaced, or
/// added at the end.
pub open spec fn tokens_set(v: Seq<(Seq<char>, Seq<char>)>, href: Seq<char>, token: Seq<char>) -> Seq<
    (Seq<char>, Seq<char>),
> {
    match token_index(v, href) {
        Some(i) => v.update(i, (href, token)),
        None => v.push((href, token)),
    }
}

/// No calendar has two entries.
pub open spec fn tokens_unique(v: Seq<(Seq<char>, Seq<char>)>) -> bool {
    forall|i: int, j: int| 0 <= i < j < v.len() ==> v[i].0 != v[j].0
}

/// After a token is stored, reading it gives it back and the other
/// calendars' tokens are unchanged, whatever the list held; the list grows
/// by one entry exactly when the calendar had none; and a list in which no
/// calendar has two entries stays so.
pub proof fn lemma_token_read_after_write(
    v: Seq<(Seq<char>, Seq<char>)>,
    href: Seq<char>,
    token: Seq<char>,
    other: Seq<char>,
)
    ensures
        token_of(tokens_set(v, href, token), href) == Some(token),
        other != href ==> token_of(tokens_set(v, href, token), other) == token_of(v, other),
        tokens_unique(v) ==> tokens_unique(tokens_set(v, href, token)),
        tokens_set(v, href, token).len() == v.len() + if token_of(v, href) is None {
            1int
        } else {
            0int
        },
{
    let w = tokens_set(v, href, token);
    lemma_token_index(v, href);
    lemma_token_index(v, other);
    lemma_token_index(w, href);
    lemma_token_index(w, other);
    match token_index(v, href) {
        Some(i) => {
            assert(w[i].0 == href);
            lemma_token_index_at(w, href, i);
            if other != href {
                assert forall|k: int| 0 <= k < w.len() implies (w[k].0 == other <==> v[k].0 == other) by {}
                match token_index(v, other) {
                    Some(o) => {
                        lemma_token_index_at(w, other, o);
                    },
                    None => {
                        if token_index(w, other) is Some {
                            let o = token_index(w, other)->0;
                            assert(v[o].0 == other);
                        }
                    },
                }
            }
        },
        None => {
            let n = v.len() as int;
            assert(w[n].0 == href);
            lemma_token_index_at(w, href, n);
            if other != href {
                match token_index(v, other) {
                    Some(o) => {
                        lemma_token_index_at(w, other, o);
                    },
                    None => {
                        if token_index(w, other) is Some {
                            let o = token_index(w, other)->0;
                            assert(o < n);
                            assert(v[o].0 == other);
                        }
                    },
                }
            }
        },
    }
    if tokens_unique(v) {
        assert forall|i: int, j: int| 0 <= i < j < w.len() implies w[i].0 != w[j].0 by {}
    }
}

/// The first entry for a calendar exists when some entry has it.
proof fn lemma_token_index(v: Seq<(Seq<char>, Seq<char>)>, h: Seq<char>)
    ensures
        token_index(v, h) matches Some(i) ==> 0 <= i < v.len() && v[i].0 == h && forall|j: int|
            0 <= j < i ==> v[j].0 != h,
        token_index(v, h) is None ==> forall|i: int| 0 <= i < v.len() ==> v[i].0 != h,
{
    if exists|i: int| 0 <= i < v.len() && v[i].0 == h {
        let k = choose|i: int| 0 <= i < v.len() && v[i].0 == h;
        lemma_first_below(v, h, k);
    }
}

proof fn lemma_first_below(v: Seq<(Seq<char>, Seq<char>)>, h: Seq<char>, k: int)
    requires
        0 <= k < v.len(),
        v[k].0 == h,
    ensures
        exists|i: int| 0 <= i < v.len() && v[i].0 == h && forall|j: int| 0 <= j < i ==> v[j].0 != h,
    decreases k,
{
    if exists|j: int| 0 <= j < k && v[j].0 == h {
        let j = choose|j: int| 0 <= j < k && v[j].0 == h;
        lemma_first_below(v, h, j);
    } else {
        assert(forall|j: int| 0 <= j < k ==> v[j].0 != h);
    }
}

/// The first entry for a calendar is the one with no earlier entry for it.
proof fn lemma_token_index_at(v: Seq<(Seq<char>, Seq<char>)>, h: Seq<char>, i: int)
    requires
        0 <= i < v.len(),
        v[i].0 == h,
        forall|j: int| 0 <= j < i ==> v[j].0 != h,
    ensures
        token_index(v, h) == Some(i),
{
    lemma_token_index(v, h);
    let c = token_index(v, h)->0;
    if c < i {
        assert(v[c].0 != h);
    }
    if c > i {
        assert(v[i].0 != h);
    }
}

/// The index of the first assignment with purpose `p`... (helper for hrefs).
pub open spec fn hrefs_with(assignments: Seq<CalendarAssignment>, p: CalendarPurpose) -> Seq<
    Seq<char>,
>
    decreases assignments.len(),
{
    if assignments.len() == 0 {
        seq![]
    } else {
        let rest = hrefs_with(assignments.drop_last(), p);
        if assignments.last().purpose == p {
            rest.push(assignments.last().calendar_href@)
        } else {
            rest
        }
    }
}

fn hrefs_with_exec(assignments: &Vec<CalendarAssignment>, p: CalendarPurpose) -> (r: Vec<String>)
    ensures
        strs(r@) == hrefs_with(assignments@, p),
{
    let mut r: Vec<String> = Vec::new();
    let mut i: usize = 0;
    while i < assignments.len()
        invariant
            i <= assignments.len(),
            strs(r@) == hrefs_with(assignments@.take(i as int), p),
        decreases assignments.len() - i,
    {
        assert(assignments@.take(i + 1).drop_last() =~= assignments@.take(i as int));
        if assignments[i].purpose == p {
            let ghost before = r@;
            r.push(assignments[i].calendar_href.clone());
            assert(strs(r@) =~= strs(before).push(assignments@[i as int].calendar_href@));
        }
        i = i + 1;
    }
    assert(assignments@.take(assignments.len() as int) =~= assignments@);
    r
}

impl Default for LampConfig {
    /// The defaults: the platform's data directory (or, when none is known
    /// outside `/tmp`, the relative directory `lamp`), the six standard
    /// contexts, no services, no assignments, no tokens, `xdg-open`, no
    /// debug logging.
    fn default() -> (r: LampConfig)
        ensures
            !under_tmp(r.org_directory@),
            strs(r.contexts@) == default_context_names(),
            r.calendars.url@.len() == 0,
            r.contacts.url@.len() == 0,
            r.notes_sync.url@.len() == 0,
            r.calendar_assignments@.len() == 0,
            r.sync_tokens@.len() == 0,
            r.browser_command@ == "xdg-open"@,
            !r.debug_logging,
    {
        let dir = match default_org_dir() {
            Some(d) => d,
            None => {
                proof {
                    reveal_strlit("lamp");
                    reveal_strlit("/tmp");
                    assert("lamp"@.subrange(0, 4)[0] != "/tmp"@[0]);
                }
                "lamp".to_owned()
            },
        };
        LampConfig {
            org_directory: dir,
            contexts: default_contexts(),
            calendars: ServiceConfig::default(),
            contacts: ServiceConfig::default(),
            notes_sync: ServiceConfig::default(),
            imap: ImapConfig::default(),
            calendar_assignments: Vec::new(),
            sync_tokens: Vec::new(),
            browser_command: default_browser_command(),
            debug_logging: false,
        }
    }
}

impl LampConfig {
    /// A file of the org directory.
    pub fn file_path(&self, name: &str) -> (r: String)
        ensures
            r@ == path_join(self.org_directory@, name@),
    {
        join_path(self.org_directory.as_str(), name)
    }

    pub fn inbox_path(&self) -> (r: String)
        ensures
            r@ == path_join(self.org_directory@, "inbox.org"@),
    {
        self.file_path("inbox.org")
    }

    pub fn next_path(&self) -> (r: String)
        ensures
            r@ == path_join(self.org_directory@, "next.org"@),
    {
        self.file_path("next.org")
    }

    pub fn projects_path(&self) -> (r: String)
        ensures
            r@ == path_join(self.org_directory@, "projects.org"@),
    {
        self.file_path("projects.org")
    }

    pub fn waiting_path(&self) -> (r: String)
        ensures
            r@ == path_join(self.org_directory@, "waiting.org"@),
    {
        self.file_path("waiting.org")
    }

    pub fn someday_path(&self) -> (r: String)
        ensures
            r@ == path_join(self.org_directory@, "someday.org"@),
    {
        self.file_path("someday.org")
    }

    pub fn habits_path(&self) -> (r: String)
        ensures
            r@ == path_join(self.org_directory@, "habits.org"@),
    {
        self.file_path("habits.org")
    }

    pub fn archive_path(&self) -> (r: String)
        ensures
            r@ == path_join(self.org_directory@, "archive.org"@),
    {
        self.file_path("archive.org")
    }

    pub fn media_path(&self) -> (r: String)
        ensures
            r@ == path_join(self.org_directory@, "media.org"@),
    {
        self.file_path("media.org")
    }

    pub fn consumed_path(&self) -> (r: String)
        ensures
            r@ == path_join(self.org_directory@, "consumed.org"@),
    {
        self.file_path("consumed.org")
    }

    pub fn shopping_path(&self) -> (r: String)
        ensures
            r@ == path_join(self.org_directory@, "shopping.org"@),
    {
        self.file_path("shopping.org")
    }

    pub fn bought_path(&self) -> (r: String)
        ensures
            r@ == path_join(self.org_directory@, "bought.org"@),
    {
        self.file_path("bought.org")
    }

    pub fn dayplan_path(&self) -> (r: String)
        ensures
            r@ == path_join(self.org_directory@, "dayplan.org"@),
    {
        self.file_path("dayplan.org")
    }

    pub fn contacts_path(&self) -> (r: String)
        ensures
            r@ == path_join(self.org_directory@, "contacts.org"@),
    {
        self.file_path("contacts.org")
    }

    pub fn accounts_path(&self) -> (r: String)
        ensures
            r@ == path_join(self.org_directory@, "accounts.org"@),
    {
        self.file_path("accounts.org")
    }

    pub fn closed_accounts_path(&self) -> (r: String)
        ensures
            r@ == path_join(self.org_directory@, "closed_accounts.org"@),
    {
        self.file_path("closed_accounts.org")
    }

    pub fn notes_path(&self) -> (r: String)
        ensures
            r@ == path_join(self.org_directory@, "notes.org"@),
    {
        self.file_path("notes.org")
    }

    pub fn notes_dir(&self) -> (r: String)
        ensures
            r@ == path_join(self.org_directory@, "notes"@),
    {
        self.file_path("notes")
    }

    pub fn events_cache_path(&self) -> (r: String)
        ensures
            r@ == path_join(self.org_directory@, "events.json"@),
    {
        self.file_path("events.json")
    }

    /// The calendars assigned to tasks, in order.
    pub fn task_calendar_hrefs(&self) -> (r: Vec<String>)
        ensures
            strs(r@) == hrefs_with(self.calendar_assignments@, CalendarPurpose::Tasks),
    {
        hrefs_with_exec(&self.calendar_assignments, CalendarPurpose::Tasks)
    }

    /// The calendars assigned to events, in order.
    pub fn event_calendar_hrefs(&self) -> (r: Vec<String>)
        ensures
            strs(r@) == hrefs_with(self.calendar_assignments@, CalendarPurpose::Events),
    {
        hrefs_with_exec(&self.calendar_assignments, CalendarPurpose::Events)
    }

    fn find_token(&self, href: &str) -> (r: Option<usize>)
        ensures
            match r {
                Some(i) => token_index(tokens_view(self.sync_tokens@), href@) == Some(i as int)
                    && i < self.sync_tokens.len(),
                None => token_index(tokens_view(self.sync_tokens@), href@) is None,
            },
    {
        let ghost tv = tokens_view(self.sync_tokens@);
        let mut i: usize = 0;
        while i < self.sync_tokens.len()
            invariant
                i <= self.sync_tokens.len(),
                tv == tokens_view(self.sync_tokens@),
                forall|j: int| 0 <= j < i ==> tv[j].0 != href@,
            decreases self.sync_tokens.len() - i,
        {
            if str_eq(self.sync_tokens[i].0.as_str(), href) {
                assert(tv[i as int].0 == href@);
                assert(token_index(tv, href@) == Some(i as int)) by {
                    let c = choose|k: int|
                        0 <= k < tv.len() && tv[k].0 == href@ && forall|j: int|
                            0 <= j < k ==> tv[j].0 != href@;
                    assert(c == i);
                }
                return Some(i);
            }
            i = i + 1;
        }
        None
    }

    /// The sync token of a calendar.
    pub fn get_sync_token(&self, href: &str) -> (r: Option<&str>)
        ensures
            match r {
                Some(t) => token_of(tokens_view(self.sync_tokens@), href@) == Some(t@),
                None => token_of(tokens_view(self.sync_tokens@), href@) is None,
            },
    {
        match self.find_token(href) {
            Some(i) => Some(self.sync_tokens[i].1.as_str()),
            None => None,
        }
    }

    /// Stores the sync token of a calendar.
    pub fn set_sync_token(&mut self, href: &str, token: &str)
        ensures
            tokens_view(final(self).sync_tokens@) == tokens_set(
                tokens_view(old(self).sync_tokens@),
                href@,
                token@,
            ),
            final(self).org_directory@ == old(self).org_directory@,
            final(self).calendar_assignments@ == old(self).calendar_assignments@,
    {
        let ghost tv = tokens_view(self.sync_tokens@);
        match self.find_token(href) {
            Some(i) => {
                self.sync_tokens.set(i, (href.to_owned(), token.to_owned()));
                assert(tokens_view(self.sync_tokens@) =~= tv.update(i as int, (href@, token@)));
            },
            None => {
                self.sync_tokens.push((href.to_owned(), token.to_owned()));
                assert(tokens_view(self.sync_tokens@) =~= tv.push((href@, token@)));
            },
        }
    }

    /// Whether CalDAV is configured: a calendar URL and at least one calendar
    /// that is not disabled.
    pub fn sync_ready(&self) -> (r: bool)
        ensures
            r == (self.calendars.url@.len() > 0 && exists|i: int|
                0 <= i < self.calendar_assignments@.len() && (
                #[trigger] self.calendar_assignments@[i]).purpose != CalendarPurpose::Disabled),
    {
        if self.calendars.url.as_str().unicode_len() == 0 {
            return false;
        }
        let mut i: usize = 0;
        while i < self.calendar_assignments.len()
            invariant
                i <= self.calendar_assignments.len(),
                self.calendars.url@.len() > 0,
                forall|j: int|
                    0 <= j < i ==> (#[trigger] self.calendar_assignments@[j]).purpose
                        == CalendarPurpose::Disabled,
            decreases self.calendar_assignments.len() - i,
        {
            if self.calendar_assignments[i].purpose != CalendarPurpose::Disabled {
                assert(self.calendar_assignments@[i as int].purpose != CalendarPurpose::Disabled);
                return true;
            }
            i = i + 1;
        }
        false
    }

    /// The number of stored sync tokens.
    pub fn sync_token_count(&self) -> (r: usize)
        ensures
            r == self.sync_tokens@.len(),
    {
        self.sync_tokens.len()
    }

    /// The files a new org directory starts with, and their contents: the
    /// task files with their header, the list files with a title only. The
    /// caller creates those that are missing.
    pub fn starter_files() -> (r: Vec<(String, String)>)
        ensures
            r@.len() == 9,
            forall|i: int|
                0 <= i < 7 ==> (#[trigger] r@[i]).1@ == crate::org::writer::file_header(
                    starter_titles()[i],
                ),
            forall|i: int|
                7 <= i < 9 ==> (#[trigger] r@[i]).1@ == "#+TITLE: "@ + starter_titles()[i] + seq![
                    '\n',
                    '\n',
                ],
            forall|i: int| 0 <= i < 9 ==> (#[trigger] r@[i]).0@ == starter_names()[i],
    {
        let mut r: Vec<(String, String)> = Vec::new();
        let names = ["inbox.org", "next.org", "projects.org", "waiting.org", "someday.org",
            "habits.org", "archive.org", "media.org", "shopping.org"];
        let titles = ["Inbox", "Next Actions", "Projects", "Waiting For", "Someday/Maybe",
            "Habits", "Archive", "Media Recommendations", "Shopping"];
        let mut i: usize = 0;
        while i < 9
            invariant
                i <= 9,
                names@.len() == 9,
                titles@.len() == 9,
                forall|k: int| 0 <= k < 9 ==> (#[trigger] names@[k])@ == starter_names()[k],
                forall|k: int| 0 <= k < 9 ==> (#[trigger] titles@[k])@ == starter_titles()[k],
                r@.len() == i,
                forall|k: int|
                    0 <= k < i && k < 7 ==> (#[trigger] r@[k]).1@ == crate::org::writer::file_header(
                        starter_titles()[k],
                    ),
                forall|k: int|
                    7 <= k < i ==> (#[trigger] r@[k]).1@ == "#+TITLE: "@ + starter_titles()[k]
                        + seq!['\n', '\n'],
                forall|k: int| 0 <= k < i ==> (#[trigger] r@[k]).0@ == starter_names()[k],
            decreases 9 - i,
        {
            let content = if i < 7 {
                crate::org::writer::OrgWriter::write_file(titles[i], &Vec::new())
            } else {
                let mut v: Vec<char> = Vec::new();
                push_str(&mut v, "#+TITLE: ");
                push_str(&mut v, titles[i]);
                v.push('\n');
                v.push('\n');
                string_of(v.as_slice())
            };
            proof {
                if i < 7 {
                    assert(crate::org::writer::tasks_text(
                        crate::org::writer::task_views(Seq::<crate::model::task::Task>::empty()),
                        1,
                    ) =~= Seq::<char>::empty());
                }
            }
            r.push((names[i].to_owned(), content));
            i = i + 1;
        }
        r
    }
}

pub open spec fn starter_names() -> Seq<Seq<char>> {
    seq![
        "inbox.org"@,
        "next.org"@,
        "projects.org"@,
        "waiting.org"@,
        "someday.org"@,
        "habits.org"@,
        "archive.org"@,
        "media.org"@,
        "shopping.org"@,
    ]
}

pub open spec fn starter_titles() -> Seq<Seq<char>> {
    seq![
        "Inbox"@,
        "Next Actions"@,
        "Projects"@,
        "Waiting For"@,
        "Someday/Maybe"@,
        "Habits"@,
        "Archive"@,
        "Media Recommendations"@,
        "Shopping"@,
    ]
}

} // verus!
