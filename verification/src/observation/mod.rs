//! Read-only observation of processes and of their resource usage.
pub mod accounts;
pub mod error;
pub mod laws;
pub mod links;
pub mod snapshot;
pub mod tree;
pub mod usage;
