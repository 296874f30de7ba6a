//! Verified core of `cx`, a session and snapshot manager that works on top of git.

pub mod cli;
pub mod context;
pub mod display;
pub mod git_api;
pub mod laws;
pub mod order;
pub mod session;
pub mod snapshot;
pub mod store;
pub mod text;
