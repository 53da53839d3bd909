//! The values that requests carry.

pub mod ip;
