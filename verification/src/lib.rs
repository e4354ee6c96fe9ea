//! A to-do list service, verified.
//!
//! The crate holds everything the service decides: how a submitted form is
//! read, what is asked of the store, how the list is rendered as HTML and
//! which HTTP reply each outcome gets. Reading requests, talking to the
//! database and sending replies are left to the program around it, which
//! takes one [`handlers::Step`] at a time: it runs the command the step
//! names on its store and hands the answer to [`handlers::finish`].
//!
//! - [`entry`]: the entry itself.
//! - [`error`]: the kinds of failure and their HTTP status.
//! - [`form`]: required fields and numbers in submitted forms.
//! - [`command`]: the operations on the store, their SQL, and the answers.
//! - [`table`]: the table of entries, as a model and in memory.
//! - [`page`]: the HTML view.
//! - [`response`]: HTTP replies as plain values.
//! - [`handlers`]: the three endpoints.
//! - [`laws`]: what is proved of the service as a whole.

pub mod command;
pub mod entry;
pub mod error;
pub mod form;
pub mod handlers;
pub mod laws;
pub mod page;
pub mod response;
pub mod table;
