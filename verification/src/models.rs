//! The records the pages list.

use vstd::prelude::*;
use crate::dates::{day_month_year_text, format_day_month_year, UtcDateTime};

verus! {

/// A thing that notes, reminders and contacts are kept for.
pub struct Cosa {
    pub id: i64,
    pub name: String,
    pub description: String,
}

/// A note about a cosa.
pub struct Note {
    pub id: i64,
    pub title: String,
    pub body: String,
}

/// A reminder about a cosa, falling due at `due_at`.
pub struct Reminder {
    pub id: i64,
    pub title: String,
    pub body: String,
    pub due_at: UtcDateTime,
    pub done: bool,
}

/// A contact for a cosa.
pub struct Contact {
    pub id: i64,
    pub name: String,
    pub contact_details: String,
}

impl Reminder {
    /// The due date as `dd-mm-yyyy`.
    pub fn get_formatted_due_date(&self) -> (r: String)
        requires
            self.due_at.wf(),
        ensures
            r@ == day_month_year_text(self.due_at.date),
    {
        format_day_month_year(self.due_at.date)
    }
}

} // verus!
