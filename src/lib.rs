//! Turns a monitoring alarm event into a chat message: whether to mention
//! the on-call role, which color, a one-line summary, a dump of what came in,
//! and display fields taken from the alarm.

pub mod json;
pub mod message;
pub mod laws;
