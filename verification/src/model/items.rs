//! The smaller records: list items, notes, accounts and calendar events.

use vstd::prelude::*;

use crate::dates::{Date, DateTime};
use crate::ids::Uuid;
use crate::model::link::LinkTarget;
use crate::model::task::opt_str;

verus! {

/// An item of a plain list (media recommendations, shopping).
#[derive(Debug, Clone)]
pub struct ListItem {
    pub id: Uuid,
    pub title: String,
    pub notes: String,
    pub created: DateTime,
    pub done: bool,
}

impl ListItem {
    /// A new open item with a fresh identifier, created now.
    pub fn new(title: &str) -> (r: ListItem)
        ensures
            r.title@ == title@,
            r.notes@.len() == 0,
            !r.done,
    {
        ListItem {
            id: Uuid::new_v4(),
            title: title.to_owned(),
            notes: String::new(),
            created: DateTime::now(),
            done: false,
        }
    }
}

/// A note.
#[derive(Debug, Clone)]
pub struct Note {
    pub id: Uuid,
    pub title: String,
    pub body: String,
    pub tags: Vec<String>,
    pub links: Vec<LinkTarget>,
    pub source: Option<String>,
    pub created: DateTime,
    pub modified: DateTime,
    pub sync_etag: Option<String>,
}

impl Note {
    /// A new empty note with a fresh identifier, created and modified now.
    pub fn new(title: &str) -> (r: Note)
        ensures
            r.title@ == title@,
            r.body@.len() == 0,
            r.tags@.len() == 0,
            r.links@.len() == 0,
            r.source is None,
            r.sync_etag is None,
            r.created == r.modified,
    {
        let now = DateTime::now();
        Note {
            id: Uuid::new_v4(),
            title: title.to_owned(),
            body: String::new(),
            tags: Vec::new(),
            links: Vec::new(),
            source: None,
            created: now,
            modified: now,
            sync_etag: None,
        }
    }
}

/// An online account to check periodically.
#[derive(Debug, Clone)]
pub struct Account {
    pub id: Uuid,
    pub name: String,
    pub url: String,
    pub notes: String,
    pub last_checked: Option<Date>,
}

impl Account {
    /// A new account with a fresh identifier and nothing else known.
    pub fn new(name: &str) -> (r: Account)
        ensures
            r.name@ == name@,
            r.url@.len() == 0,
            r.notes@.len() == 0,
            r.last_checked is None,
    {
        Account {
            id: Uuid::new_v4(),
            name: name.to_owned(),
            url: String::new(),
            notes: String::new(),
            last_checked: None,
        }
    }
}

#[derive(Debug, Clone, Copy, PartialEq, Eq, Structural)]
pub enum EventStatus {
    Confirmed,
    Tentative,
    Cancelled,
}

/// A calendar event.
#[derive(Debug, Clone)]
pub struct CalendarEvent {
    pub id: Uuid,
    pub title: String,
    pub start: DateTime,
    pub end: DateTime,
    pub all_day: bool,
    pub location: String,
    pub description: String,
    pub status: EventStatus,
    pub calendar_href: String,
    pub calendar_name: String,
    pub sync_href: Option<String>,
    pub sync_hash: Option<u64>,
}

impl CalendarEvent {
    /// A new confirmed, timed event with a fresh identifier.
    pub fn new(title: String, start: DateTime, end: DateTime) -> (r: CalendarEvent)
        ensures
            r.title@ == title@,
            r.start == start,
            r.end == end,
            !r.all_day,
            r.location@.len() == 0,
            r.description@.len() == 0,
            r.status == EventStatus::Confirmed,
            r.calendar_href@.len() == 0,
            r.calendar_name@.len() == 0,
            r.sync_href is None,
            r.sync_hash is None,
    {
        CalendarEvent {
            id: Uuid::new_v4(),
            title,
            start,
            end,
            all_day: false,
            location: String::new(),
            description: String::new(),
            status: EventStatus::Confirmed,
            calendar_href: String::new(),
            calendar_name: String::new(),
            sync_href: None,
            sync_hash: None,
        }
    }
}

/// An event with its texts taken by their characters.
pub struct EventView {
    pub id: Uuid,
    pub title: Seq<char>,
    pub start: DateTime,
    pub end: DateTime,
    pub all_day: bool,
    pub location: Seq<char>,
    pub description: Seq<char>,
    pub status: EventStatus,
    pub calendar_href: Seq<char>,
    pub calendar_name: Seq<char>,
    pub sync_href: Option<Seq<char>>,
    pub sync_hash: Option<u64>,
}

impl View for CalendarEvent {
    type V = EventView;

    open spec fn view(&self) -> EventView {
        EventView {
            id: self.id,
            title: self.title@,
            start: self.start,
            end: self.end,
            all_day: self.all_day,
            location: self.location@,
            description: self.description@,
            status: self.status,
            calendar_href: self.calendar_href@,
            calendar_name: self.calendar_name@,
            sync_href: opt_str(self.sync_href),
            sync_hash: self.sync_hash,
        }
    }
}

impl CalendarEvent {
    /// A copy of the event.
    pub fn duplicate(&self) -> (r: CalendarEvent)
        ensures
            r@ == self@,
    {
        CalendarEvent {
            id: self.id,
            title: self.title.clone(),
            start: self.start,
            end: self.end,
            all_day: self.all_day,
            location: self.location.clone(),
            description: self.description.clone(),
            status: self.status,
            calendar_href: self.calendar_href.clone(),
            calendar_name: self.calendar_name.clone(),
            sync_href: crate::model::task::copy_opt_string(&self.sync_href),
            sync_hash: self.sync_hash,
        }
    }
}

} // verus!
