//! Core logic of a server-rendered event-listing and RSVP application.
//!
//! Users sign up, log in, create events, browse events ordered by date,
//! mark themselves as going, and delete their own events.  This crate holds
//! the validated, verified part of that system: form validation, the
//! authentication and authorization decisions, and the data rules over the
//! three tables (users, events, attendance).  HTTP, template rendering and
//! persistence wiring live outside the crate.

pub mod text;
pub mod outside;
pub mod forms;
pub mod db;
pub mod session;
pub mod helper;
pub mod user_handler;
pub mod event_handler;
