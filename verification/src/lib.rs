//! Verified core of a small notes-and-reminders web service: credentials,
//! session tokens, the access rules of the authentication middleware, form
//! validation and the text formatting the pages use.

pub mod auth;
pub mod config;
pub mod dates;
pub mod error;
pub mod forms;
pub mod handlers;
pub mod models;
pub mod templates;
pub mod text;
