//! The pages, views and fields the user interface switches between.

use vstd::prelude::*;

verus! {

/// A service whose connection settings the user edits.
#[derive(Debug, Clone, Copy, PartialEq, Eq, Structural)]
pub enum ServiceKind {
    Calendars,
    Contacts,
    Notes,
    Imap,
}

/// A field of a contact that can be edited.
#[derive(Debug, Clone, Copy, PartialEq, Eq, Structural)]
pub enum ContactField {
    Email,
    Phone,
    Website,
    Signal,
    PreferredMethod,
}

/// A field of an account that can be edited.
#[derive(Debug, Clone, Copy, PartialEq, Eq, Structural)]
pub enum AccountField {
    Name,
    Url,
    Notes,
}

/// A field of a note that can be edited.
#[derive(Debug, Clone, Copy, PartialEq, Eq, Structural)]
pub enum NoteField {
    Title,
    Body,
    Tags,
    Source,
}

/// Planning the work, or doing it.
#[derive(Debug, Clone, Copy, PartialEq, Eq, Structural)]
pub enum AppMode {
    Plan,
    Do,
}

/// The two plain lists.
#[derive(Debug, Clone, Copy, PartialEq, Eq, Structural)]
pub enum ListKind {
    Media,
    Shopping,
}

/// A page of the sidebar, grouped by what it shows.
#[derive(Debug, Clone, Copy, PartialEq, Eq, Structural)]
pub enum WhatPage {
    DailyPlanning,
    Inbox,
    AllTasks,
    NextActions,
    Projects,
    Waiting,
    Someday,
    Habits,
    Conflicts,
    Review,
    Tickler,
    Media,
    Shopping,
    Contacts,
    Accounts,
    Notes,
    Settings,
}

/// The title shown for a page.
pub open spec fn what_title(p: WhatPage) -> Seq<char> {
    match p {
        WhatPage::DailyPlanning => "Daily Planning"@,
        WhatPage::Inbox => "Inbox"@,
        WhatPage::AllTasks => "All Tasks"@,
        WhatPage::NextActions => "Next Actions"@,
        WhatPage::Projects => "Projects"@,
        WhatPage::Waiting => "Waiting For"@,
        WhatPage::Someday => "Someday/Maybe"@,
        WhatPage::Habits => "Habits"@,
        WhatPage::Conflicts => "Conflicts"@,
        WhatPage::Review => "Weekly Review"@,
        WhatPage::Tickler => "Agenda"@,
        WhatPage::Media => "Media"@,
        WhatPage::Shopping => "Shopping"@,
        WhatPage::Contacts => "Contacts"@,
        WhatPage::Accounts => "Accounts"@,
        WhatPage::Notes => "Notes"@,
        WhatPage::Settings => "Settings"@,
    }
}

/// The symbolic icon shown for a page.
pub open spec fn what_icon(p: WhatPage) -> Seq<char> {
    match p {
        WhatPage::DailyPlanning => "date-symbolic"@,
        WhatPage::Inbox => "mail-folder-inbox-symbolic"@,
        WhatPage::AllTasks => "object-select-symbolic"@,
        WhatPage::NextActions => "go-next-symbolic"@,
        WhatPage::Projects => "folder-symbolic"@,
        WhatPage::Waiting => "appointment-soon-symbolic"@,
        WhatPage::Someday => "weather-few-clouds-symbolic"@,
        WhatPage::Habits => "checkbox-checked-symbolic"@,
        WhatPage::Conflicts => "dialog-warning-symbolic"@,
        WhatPage::Review => "document-open-recent-symbolic"@,
        WhatPage::Tickler => "x-office-calendar-symbolic"@,
        WhatPage::Media => "applications-multimedia-symbolic"@,
        WhatPage::Shopping => "payment-card-symbolic"@,
        WhatPage::Contacts => "system-users-symbolic"@,
        WhatPage::Accounts => "contact-new-symbolic"@,
        WhatPage::Notes => "accessories-text-editor-symbolic"@,
        WhatPage::Settings => "emblem-system-symbolic"@,
    }
}

/// The sidebar order of the pages.
pub open spec fn what_order() -> Seq<WhatPage> {
    seq![
        WhatPage::DailyPlanning,
        WhatPage::Review,
        WhatPage::Tickler,
        WhatPage::Inbox,
        WhatPage::Conflicts,
        WhatPage::AllTasks,
        WhatPage::NextActions,
        WhatPage::Projects,
        WhatPage::Waiting,
        WhatPage::Someday,
        WhatPage::Habits,
        WhatPage::Media,
        WhatPage::Shopping,
        WhatPage::Contacts,
        WhatPage::Accounts,
        WhatPage::Notes,
        WhatPage::Settings,
    ]
}

/// The pages that open a new sidebar section.
pub open spec fn what_section_starts() -> Seq<WhatPage> {
    seq![WhatPage::Inbox, WhatPage::NextActions, WhatPage::Media, WhatPage::Settings]
}

impl WhatPage {
    /// The page's title.
    pub fn title(&self) -> (r: &'static str)
        ensures
            r@ == what_title(*self),
    {
        match self {
            WhatPage::DailyPlanning => "Daily Planning",
            WhatPage::Inbox => "Inbox",
            WhatPage::AllTasks => "All Tasks",
            WhatPage::NextActions => "Next Actions",
            WhatPage::Projects => "Projects",
            WhatPage::Waiting => "Waiting For",
            WhatPage::Someday => "Someday/Maybe",
            WhatPage::Habits => "Habits",
            WhatPage::Conflicts => "Conflicts",
            WhatPage::Review => "Weekly Review",
            WhatPage::Tickler => "Agenda",
            WhatPage::Media => "Media",
            WhatPage::Shopping => "Shopping",
            WhatPage::Contacts => "Contacts",
            WhatPage::Accounts => "Accounts",
            WhatPage::Notes => "Notes",
            WhatPage::Settings => "Settings",
        }
    }

    /// The page's icon name.
    pub fn icon_name(&self) -> (r: &'static str)
        ensures
            r@ == what_icon(*self),
    {
        match self {
            WhatPage::DailyPlanning => "date-symbolic",
            WhatPage::Inbox => "mail-folder-inbox-symbolic",
            WhatPage::AllTasks => "object-select-symbolic",
            WhatPage::NextActions => "go-next-symbolic",
            WhatPage::Projects => "folder-symbolic",
            WhatPage::Waiting => "appointment-soon-symbolic",
            WhatPage::Someday => "weather-few-clouds-symbolic",
            WhatPage::Habits => "checkbox-checked-symbolic",
            WhatPage::Conflicts => "dialog-warning-symbolic",
            WhatPage::Review => "document-open-recent-symbolic",
            WhatPage::Tickler => "x-office-calendar-symbolic",
            WhatPage::Media => "applications-multimedia-symbolic",
            WhatPage::Shopping => "payment-card-symbolic",
            WhatPage::Contacts => "system-users-symbolic",
            WhatPage::Accounts => "contact-new-symbolic",
            WhatPage::Notes => "accessories-text-editor-symbolic",
            WhatPage::Settings => "emblem-system-symbolic",
        }
    }

    /// Every page, in sidebar order.
    pub fn all() -> (r: Vec<WhatPage>)
        ensures
            r@ == what_order(),
    {
        let mut r: Vec<WhatPage> = Vec::new();
        r.push(WhatPage::DailyPlanning);
        r.push(WhatPage::Review);
        r.push(WhatPage::Tickler);
        r.push(WhatPage::Inbox);
        r.push(WhatPage::Conflicts);
        r.push(WhatPage::AllTasks);
        r.push(WhatPage::NextActions);
        r.push(WhatPage::Projects);
        r.push(WhatPage::Waiting);
        r.push(WhatPage::Someday);
        r.push(WhatPage::Habits);
        r.push(WhatPage::Media);
        r.push(WhatPage::Shopping);
        r.push(WhatPage::Contacts);
        r.push(WhatPage::Accounts);
        r.push(WhatPage::Notes);
        r.push(WhatPage::Settings);
        assert(r@ =~= what_order());
        r
    }

    /// The pages that start a new sidebar section.
    pub fn section_starts() -> (r: Vec<WhatPage>)
        ensures
            r@ == what_section_starts(),
    {
        let mut r: Vec<WhatPage> = Vec::new();
        r.push(WhatPage::Inbox);
        r.push(WhatPage::NextActions);
        r.push(WhatPage::Media);
        r.push(WhatPage::Settings);
        assert(r@ =~= what_section_starts());
        r
    }
}

/// A page of the sidebar, grouped by when.
#[derive(Debug, Clone, Copy, PartialEq, Eq, Structural)]
pub enum WhenPage {
    Today,
    Tomorrow,
    ThisWeek,
    Upcoming,
}

/// The title shown for a when-page.
pub open spec fn when_title(p: WhenPage) -> Seq<char> {
    match p {
        WhenPage::Today => "Today"@,
        WhenPage::Tomorrow => "Tomorrow"@,
        WhenPage::ThisWeek => "This Week"@,
        WhenPage::Upcoming => "Upcoming"@,
    }
}

impl WhenPage {
    /// The page's title.
    pub fn title(&self) -> (r: &'static str)
        ensures
            r@ == when_title(*self),
    {
        match self {
            WhenPage::Today => "Today",
            WhenPage::Tomorrow => "Tomorrow",
            WhenPage::ThisWeek => "This Week",
            WhenPage::Upcoming => "Upcoming",
        }
    }

    /// Every when-page, in order.
    pub fn all() -> (r: Vec<WhenPage>)
        ensures
            r@ == seq![WhenPage::Today, WhenPage::Tomorrow, WhenPage::ThisWeek, WhenPage::Upcoming],
    {
        let mut r: Vec<WhenPage> = Vec::new();
        r.push(WhenPage::Today);
        r.push(WhenPage::Tomorrow);
        r.push(WhenPage::ThisWeek);
        r.push(WhenPage::Upcoming);
        r
    }
}

/// A column a task list can be sorted by.
#[derive(Debug, Clone, Copy, PartialEq, Eq, Structural)]
pub enum SortColumn {
    State,
    Priority,
    Title,
    Context,
    Esc,
    Scheduled,
    Deadline,
}

/// The view the main area shows.
#[derive(Debug, Clone, Copy, PartialEq, Eq, Structural)]
pub enum ActiveView {
    What(WhatPage),
    When(WhenPage),
}

} // verus!
