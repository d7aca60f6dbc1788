//! The command surface: what an invocation asks for, as plain data. The
//! argument parser of the host binary fills these in.

use vstd::prelude::*;

verus! {

/// Which profiles a command addresses.
pub enum SyncAction {
    /// A single profile, by name.
    Profile { name: String },
    /// Every profile of the configuration.
    All,
}

/// One invocation of the tool.
pub enum Commands {
    /// Create a blank configuration file.
    Init,
    /// Show the configured profiles.
    List,
    /// Run the sync operation once, in the foreground.
    Sync { action: SyncAction },
    /// Start a detached watcher, or, with the hidden flag set, run the
    /// watcher loop in this process. The flag is the re-exec contract
    /// between the supervisor and the child it spawns.
    Watch { action: SyncAction, interval: u64, __run: bool },
    /// Stop a running watcher.
    Stop { action: SyncAction },
    /// Show which watchers have a record.
    Status,
}

/// The parsed command line.
pub struct Cli {
    pub command: Commands,
}

} // verus!
