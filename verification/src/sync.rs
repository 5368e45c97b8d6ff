//! Synchronisation: the iCalendar and vCard encodings, the three-way merge
//! and the decisions of a sync run.

pub mod anthropic;
pub mod caldav;
pub mod carddav;
pub mod contact_laws;
pub mod dayplan;
pub mod engine;
pub mod hash;
pub mod id_index;
pub mod imap;
pub mod ical;
pub mod vevent;
pub mod webdav;
pub mod merge;
pub mod multistatus;
pub mod vtodo;
pub mod vtodo_parse;
pub mod vtodo_laws;
pub mod vtodo_roundtrip;
pub mod vevent_laws;
