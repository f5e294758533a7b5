//! Supervision for callers that have no async context of their own.
pub mod drive;
pub mod laws;
pub mod run;
