use lazycloud::registry::{ProcessTable, ReadError, RecordFile};
use lazycloud::signal::{apply_kill_status, stop, KillStatus, StopError, StopOutcome};

// A process id that no live process can carry: the kernel's hard ceiling for
// process ids is far below it, yet it stays within the signed 32-bit range
// that a raw termination request accepts.
const NEVER_ALIVE_PID: u32 = 0x7fff_ffff;

#[test]
fn stop_without_record_is_not_running() {
    let mut t = ProcessTable::new();
    assert_eq!(stop(&mut t, "media"), StopOutcome::NotRunning);
    assert!(t.list().is_empty());
}

#[test]
fn stop_leaves_other_records_alone() {
    let mut t = ProcessTable::new();
    t.create("docs", 4242);
    assert_eq!(stop(&mut t, "media"), StopOutcome::NotRunning);
    assert_eq!(t.read("docs"), Ok(4242));
}

#[test]
fn stop_stale_record_cleans_it() {
    let mut t = ProcessTable::new();
    t.create("ghost", NEVER_ALIVE_PID);
    assert_eq!(stop(&mut t, "ghost"), StopOutcome::StaleCleaned);
    assert!(!t.contains("ghost"));
    assert_eq!(stop(&mut t, "ghost"), StopOutcome::NotRunning);
}

#[test]
fn stop_malformed_record_fails_and_keeps_record() {
    let entries = vec![RecordFile {
        file_name: "media.pid".to_string(),
        contents: "not a pid".to_string(),
    }];
    let mut t = ProcessTable::from_entries(&entries);
    assert_eq!(
        stop(&mut t, "media"),
        StopOutcome::Failed(StopError::MalformedRecord)
    );
    assert!(t.contains("media"));
    assert_eq!(t.read("media"), Err(ReadError::Malformed));
}

#[test]
fn stop_unsignalable_pid_fails_and_keeps_record() {
    let mut t = ProcessTable::new();
    t.create("zero", 0);
    assert_eq!(
        stop(&mut t, "zero"),
        StopOutcome::Failed(StopError::PidOutOfRange)
    );
    assert!(t.contains("zero"));
}

#[test]
fn delivered_signal_stops_and_removes() {
    let mut t = ProcessTable::new();
    t.create("media", 4242);
    let r = apply_kill_status(&mut t, "media", KillStatus::Delivered);
    assert_eq!(r, StopOutcome::Stopped);
    assert!(!t.contains("media"));
}

#[test]
fn missing_process_is_cleaned_as_stale() {
    let mut t = ProcessTable::new();
    t.create("media", 4242);
    let r = apply_kill_status(&mut t, "media", KillStatus::NoSuchProcess);
    assert_eq!(r, StopOutcome::StaleCleaned);
    assert!(!t.contains("media"));
}

#[test]
fn other_failure_keeps_the_record() {
    let mut t = ProcessTable::new();
    t.create("media", 4242);
    let r = apply_kill_status(&mut t, "media", KillStatus::OsError(13));
    assert_eq!(r, StopOutcome::Failed(StopError::Os(13)));
    assert_eq!(t.read("media"), Ok(4242));
}
