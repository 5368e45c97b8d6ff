//! The state of the month calendar: the month shown and the day picked.

use vstd::prelude::*;

use crate::dates::{month_shift, Date};

verus! {

/// The month shown (its first day) and the selected day, if any.
pub struct MonthCalendarState {
    pub displayed_month: Date,
    pub selected_day: Option<Date>,
}

impl MonthCalendarState {
    /// Shows the previous month (the same one when there is none) and
    /// clears the selection.
    pub fn prev_month(&mut self)
        ensures
            final(self).displayed_month.num() == match month_shift(old(self).displayed_month.num(), -1) {
                Some(x) => x,
                None => old(self).displayed_month.num(),
            },
            final(self).selected_day is None,
    {
        self.displayed_month = match self.displayed_month.checked_sub_months(1) {
            Some(d) => d,
            None => self.displayed_month,
        };
        self.selected_day = None;
    }

    /// Shows the next month (the same one when there is none) and clears
    /// the selection.
    pub fn next_month(&mut self)
        ensures
            final(self).displayed_month.num() == match month_shift(old(self).displayed_month.num(), 1) {
                Some(x) => x,
                None => old(self).displayed_month.num(),
            },
            final(self).selected_day is None,
    {
        self.displayed_month = match self.displayed_month.checked_add_months(1) {
            Some(d) => d,
            None => self.displayed_month,
        };
        self.selected_day = None;
    }

    /// Selects the day, or clears the selection when it is the day
    /// already selected.
    pub fn select_day(&mut self, date: Date)
        ensures
            final(self).selected_day == if old(self).selected_day == Some(date) {
                None
            } else {
                Some(date)
            },
            final(self).displayed_month == old(self).displayed_month,
    {
        let same = match self.selected_day {
            Some(d) => d == date,
            None => false,
        };
        if same {
            self.selected_day = None;
        } else {
            self.selected_day = Some(date);
        }
    }
}

} // verus!
