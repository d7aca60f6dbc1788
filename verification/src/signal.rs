//! The signal controller: requests graceful termination of a tracked watcher
//! and reconciles the process table with what the operating system reports.

use vstd::prelude::*;
use crate::registry::{ProcessTable, ReadError};

verus! {

/// What the operating system reported for one termination request.
pub enum KillStatus {
    /// The signal was delivered to the process.
    Delivered,
    /// No process with that id exists: the record is stale.
    NoSuchProcess,
    /// Another failure, carrying the raw errno value.
    OsError(i32),
}

/// Why a stop attempt failed without touching the record.
#[derive(Clone, Copy, PartialEq, Eq, Structural, Debug)]
pub enum StopError {
    /// The record is present but its content does not parse as a process
    /// id: a read error, surfaced rather than mistaken for absence.
    MalformedRecord,
    /// The stored id cannot name a signalable process.
    PidOutOfRange,
    /// The signal could not be sent; the raw errno value.
    Os(i32),
}

/// The outcome of a stop request for one profile.
#[derive(Clone, Copy, PartialEq, Eq, Structural, Debug)]
pub enum StopOutcome {
    /// No record was present for the profile.
    NotRunning,
    /// The signal was delivered and the record removed.
    Stopped,
    /// The record was stale: no such process, record removed.
    StaleCleaned,
    /// The signal could not be sent; the record is left intact.
    Failed(StopError),
}

/// A process id the termination request may be sent to: positive, and within
/// the range of the platform's signed process id type. Outside it, a raw
/// kill would address a process group or every process instead.
pub open spec fn pid_signalable(pid: u32) -> bool {
    1 <= pid <= 0x7fff_ffff
}

/// Relies on nix::sys::signal::kill, which wraps the kill system call:
/// sending SIGTERM to the process with the given id either succeeds, or
/// fails with ESRCH when no such process exists, or fails with another
/// errno. Which of the three happens depends on the state of the system.
#[verifier::external_body]
fn send_sigterm(pid: u32) -> (r: KillStatus)
    requires
        pid_signalable(pid),
{
    match nix::sys::signal::kill(
        nix::unistd::Pid::from_raw(pid as i32),
        nix::sys::signal::Signal::SIGTERM,
    ) {
        Ok(()) => KillStatus::Delivered,
        Err(nix::errno::Errno::ESRCH) => KillStatus::NoSuchProcess,
        Err(e) => KillStatus::OsError(e as i32),
    }
}

/// Reconciles the table with what the kill attempt reported: delivery and
/// staleness both take the record out, any other failure leaves it as the
/// only handle to a possibly live process.
pub fn apply_kill_status(table: &mut ProcessTable, name: &str, status: KillStatus) -> (r:
    StopOutcome)
    requires
        old(table).wf(),
        old(table)@.contains_key(name@),
    ensures
        final(table).wf(),
        match status {
            KillStatus::Delivered => r == StopOutcome::Stopped && final(table)@ == old(
                table,
            )@.remove(name@),
            KillStatus::NoSuchProcess => r == StopOutcome::StaleCleaned && final(table)@ == old(
                table,
            )@.remove(name@),
            KillStatus::OsError(e) => r == StopOutcome::Failed(StopError::Os(e)) && final(table)@
                == old(table)@,
        },
{
    match status {
        KillStatus::Delivered => {
            table.remove(name);
            StopOutcome::Stopped
        },
        KillStatus::NoSuchProcess => {
            table.remove(name);
            StopOutcome::StaleCleaned
        },
        KillStatus::OsError(e) => StopOutcome::Failed(StopError::Os(e)),
    }
}

/// Stops the watcher recorded for a profile. Without a record the request
/// is a no-op; with one whose content does not read as a process id, the
/// read error is surfaced and nothing is signaled; otherwise termination is
/// requested and the table is reconciled: the record goes away exactly when
/// the process was signaled or was already gone, and survives any other
/// failure.
pub fn stop(table: &mut ProcessTable, name: &str) -> (r: StopOutcome)
    requires
        old(table).wf(),
    ensures
        final(table).wf(),
        (r == StopOutcome::NotRunning) <==> !old(table)@.contains_key(name@),
        r == StopOutcome::NotRunning ==> final(table)@ == old(table)@,
        (r == StopOutcome::Stopped || r == StopOutcome::StaleCleaned) ==> final(table)@ == old(
            table,
        )@.remove(name@) && !final(table)@.contains_key(name@),
        (r matches StopOutcome::Failed(_)) ==> final(table)@ == old(table)@,
        (old(table)@.contains_key(name@) && old(table)@[name@] is None) <==> r
            == StopOutcome::Failed(StopError::MalformedRecord),
        (old(table)@.contains_key(name@) && (old(table)@[name@] matches Some(pid)
            && !pid_signalable(pid))) <==> r == StopOutcome::Failed(StopError::PidOutOfRange),
{
    if !table.contains(name) {
        return StopOutcome::NotRunning;
    }
    let pid = match table.read(name) {
        Ok(p) => p,
        Err(ReadError::Malformed) => {
            return StopOutcome::Failed(StopError::MalformedRecord);
        },
        Err(ReadError::NotFound) => unreached(),
    };
    if pid < 1 || pid > 0x7fff_ffff {
        return StopOutcome::Failed(StopError::PidOutOfRange);
    }
    let status = send_sigterm(pid);
    apply_kill_status(table, name, status)
}

} // verus!
