//! Pure supervision rules: values, the process entity and the scope aggregate.
pub mod capability;
pub mod changes;
pub mod error;
pub mod event;
pub mod exit;
pub mod ids;
pub mod laws;
pub mod lifecycle;
pub mod os;
pub mod process;
pub mod scope;
pub mod spec;
pub mod stats;
pub mod table;
pub mod text;
pub mod time;
