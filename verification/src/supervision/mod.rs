//! Supervision state and the decisions made about it.
pub mod aftermath;
pub mod dispatch;
pub mod endings;
pub mod error;
pub mod history;
pub mod keeping;
pub mod laws;
pub mod lifetime;
pub mod minting;
pub mod output;
pub mod ports;
pub mod registry;
pub mod report;
pub mod supervisor;
pub mod waiters;
