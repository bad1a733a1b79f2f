//! What the two pages show.

use vstd::prelude::*;
use crate::models::{Contact, Cosa, Note, Reminder};

verus! {

/// The start page: every cosa.
pub struct IndexTemplate {
    pub cosas: Vec<Cosa>,
}

/// The page of one cosa with its notes, its listed reminders and its contacts.
pub struct CosaTemplate {
    pub cosa: Cosa,
    pub notes: Vec<Note>,
    pub reminders: Vec<Reminder>,
    pub contacts: Vec<Contact>,
}

} // verus!
