//! The supervisor decisions: which profiles a command addresses, whether a
//! watcher may be spawned, the exact command line a spawned watcher is
//! re-entered with, and the exact argument list of one sync invocation.

use vstd::prelude::*;
use vstd::string::*;
use crate::profiles::Profile;
use crate::commands::SyncAction;
use crate::registry::ProcessTable;
use crate::text::{dec_render, split_flags, split_whitespace_seq, str_eq, u64_to_string};

verus! {

/// The first profile with the given name, if any.
pub fn find_profile(profiles: &Vec<Profile>, name: &str) -> (r: Option<usize>)
    ensures
        match r {
            Some(i) => i < profiles@.len() && profiles@[i as int].name@ == name@ && forall|j: int|
                0 <= j < i ==> profiles@[j].name@ != name@,
            None => forall|j: int| 0 <= j < profiles@.len() ==> profiles@[j].name@ != name@,
        },
{
    let n = profiles.len();
    let mut i: usize = 0;
    while i < n
        invariant
            n == profiles@.len(),
            i <= n,
            forall|j: int| 0 <= j < i ==> profiles@[j].name@ != name@,
        decreases n - i,
    {
        if str_eq(profiles[i].name.as_str(), name) {
            return Some(i);
        }
        i = i + 1;
    }
    None
}

/// The profiles a command addresses, as indices into the configuration, in
/// configuration order: every profile for `All`, the first matching one for
/// a named profile, and nothing when the name is unknown — that is the
/// per-profile lookup error, which callers report without aborting.
pub fn select_profiles(profiles: &Vec<Profile>, action: &SyncAction) -> (r: Option<Vec<usize>>)
    ensures
        match action {
            SyncAction::All => r matches Some(v) && v@.len() == profiles@.len() && forall|j: int|
                0 <= j < v@.len() ==> v@[j] == j,
            SyncAction::Profile { name } => match r {
                Some(v) => v@.len() == 1 && v@[0] < profiles@.len() && profiles@[
                    v@[0] as int
                ].name@ == name@ && forall|j: int| 0 <= j < v@[0] ==> profiles@[j].name@ != name@,
                None => forall|j: int| 0 <= j < profiles@.len() ==> profiles@[j].name@ != name@,
            },
        },
{
    match action {
        SyncAction::All => {
            let n = profiles.len();
            let mut v: Vec<usize> = Vec::new();
            let mut i: usize = 0;
            while i < n
                invariant
                    i <= n,
                    v@.len() == i,
                    forall|j: int| 0 <= j < i ==> v@[j] == j,
                decreases n - i,
            {
                v.push(i);
                i = i + 1;
            }
            Some(v)
        },
        SyncAction::Profile { name } => match find_profile(profiles, name.as_str()) {
            Some(i) => {
                let mut v: Vec<usize> = Vec::new();
                v.push(i);
                Some(v)
            },
            None => None,
        },
    }
}

/// What a start request decides for one profile.
pub enum StartDecision {
    /// A record is already present: report it and spawn nothing, so that at
    /// most one watcher per profile is tracked.
    AlreadyRunning,
    /// Spawn a detached re-invocation of the program with exactly these
    /// arguments, then register the child's process id.
    Spawn { args: Vec<String> },
}

/// The argument list a detached watcher is re-entered with: the hidden run
/// flag makes the child perform the loop instead of spawning again.
pub open spec fn spec_watch_args(name: Seq<char>, interval: u64) -> Seq<Seq<char>> {
    seq!["watch"@, dec_render(interval as nat), "--run"@, "profile"@, name]
}

/// Decides a start request for one profile: an existing record means
/// "already running"; otherwise the exact detached command line is handed
/// back for the host to spawn.
pub fn start_decision(table: &ProcessTable, name: &str, interval: u64) -> (r: StartDecision)
    requires
        table.wf(),
    ensures
        (r matches StartDecision::AlreadyRunning) <==> table@.contains_key(name@),
        r matches StartDecision::Spawn { args } ==> args.deep_view() == spec_watch_args(
            name@,
            interval,
        ),
{
    if table.contains(name) {
        StartDecision::AlreadyRunning
    } else {
        let mut args: Vec<String> = Vec::new();
        args.push("watch".to_owned());
        args.push(u64_to_string(interval));
        args.push("--run".to_owned());
        args.push("profile".to_owned());
        args.push(name.to_owned());
        proof {
            assert(args.deep_view() =~= spec_watch_args(name@, interval));
        }
        StartDecision::Spawn { args }
    }
}

/// The external tool every sync invocation runs.
pub fn sync_program() -> (r: &'static str)
    ensures
        r@ == "rclone"@,
{
    "rclone"
}

/// The fixed argument template of a mode keyword; nothing for an
/// unrecognized mode.
pub open spec fn spec_mode_args(mode: Seq<char>) -> Option<Seq<Seq<char>>> {
    if mode == "replace"@ {
        Some(seq!["sync"@, "--delete-excluded"@])
    } else if mode == "mirror"@ {
        Some(seq!["sync"@])
    } else if mode == "copy"@ {
        Some(seq!["copy"@])
    } else if mode == "move"@ {
        Some(seq!["move"@])
    } else {
        None
    }
}

/// The full argument list of one sync invocation: the mode's template, then
/// source and destination, then the whitespace-split flags verbatim.
pub open spec fn spec_sync_args(p: Profile) -> Option<Seq<Seq<char>>> {
    match spec_mode_args(p.mode@) {
        Some(m) => Some(
            m + seq![p.from@, p.to@] + match p.flags {
                Some(f) => split_whitespace_seq(f@),
                None => Seq::empty(),
            },
        ),
        None => None,
    }
}

/// Builds the argument list of one sync invocation; an unrecognized mode
/// yields nothing, which the caller reports as a warning and skips — no
/// external tool invocation occurs for it.
pub fn sync_command_args(p: &Profile) -> (r: Option<Vec<String>>)
    ensures
        r.deep_view() == spec_sync_args(*p),
{
    let mut args: Vec<String> = Vec::new();
    if str_eq(p.mode.as_str(), "replace") {
        args.push("sync".to_owned());
        args.push("--delete-excluded".to_owned());
    } else if str_eq(p.mode.as_str(), "mirror") {
        args.push("sync".to_owned());
    } else if str_eq(p.mode.as_str(), "copy") {
        args.push("copy".to_owned());
    } else if str_eq(p.mode.as_str(), "move") {
        args.push("move".to_owned());
    } else {
        return None;
    }
    args.push(p.from.clone());
    args.push(p.to.clone());
    match &p.flags {
        Some(f) => {
            let mut extra = split_flags(f.as_str());
            args.append(&mut extra);
        },
        None => {},
    }
    proof {
        assert(args.deep_view() =~= spec_sync_args(*p).unwrap());
    }
    Some(args)
}

} // verus!
