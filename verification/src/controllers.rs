//! The request handlers.

pub mod blocklist;
