//! The data model: tasks, repeaters, habits, day plans, projects and the rest.

pub mod day_plan;
pub mod habit;
pub mod items;
pub mod link;
pub mod month_calendar;
pub mod planning;
pub mod project;
pub mod recurrence;
pub mod task;
pub mod temporal;
