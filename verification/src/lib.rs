//! Verified core of a small process supervisor for recurring synchronization
//! tasks: a registry of watcher records, signal-based teardown with stale
//! recovery, the watcher loop state machine, and the supervisor decisions.

pub mod commands;
pub mod profiles;
pub mod registry;
pub mod signal;
pub mod supervisor;
pub mod text;
pub mod watcher;
