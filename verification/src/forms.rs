//! The forms the pages submit, as their fields arrive.

use vstd::prelude::*;

verus! {

/// The form that adds a cosa.
pub struct CreateCosa {
    pub name: String,
    pub description: String,
}

/// The form that adds a note to a cosa.
pub struct CreateNote {
    pub title: String,
    pub body: String,
}

/// The form that adds a reminder to a cosa; `due_at` is typed as `YYYY-MM-DD`.
pub struct CreateReminder {
    pub title: String,
    pub body: String,
    pub due_at: String,
}

/// The form that adds a contact to a cosa.
pub struct CreateContact {
    pub name: String,
    pub contact_details: String,
}

/// The login form.
pub struct Login {
    pub email: String,
    pub password: String,
}

} // verus!
