//! Lamp: a GTD task manager backed by plain org-mode files.
//!
//! This crate holds the data model, the org-mode reader and writer, the
//! iCalendar/vCard encodings and the sync decision logic, each with a
//! contract checked by Verus.

pub mod message;
pub mod model;
pub mod org;
pub mod sync;
pub mod config;
pub mod dates;
pub mod ids;
pub mod text;

use vstd::prelude::*;

verus! {

} // verus!
