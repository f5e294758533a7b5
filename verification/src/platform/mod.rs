//! What platform backends read, remember and decide.
pub mod backends;
pub mod cgroup;
pub mod children;
pub mod effects;
pub mod environment;
pub mod macos;
pub mod measures;
pub mod null;
pub mod polling;
pub mod procfs;
pub mod reading;
pub mod records;
pub mod signals;
pub mod text;
pub mod unix;
pub mod windows;
