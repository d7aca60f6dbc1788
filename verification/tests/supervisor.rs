use lazycloud::commands::SyncAction;
use lazycloud::profiles::{config_template, Profile};
use lazycloud::registry::ProcessTable;
use lazycloud::supervisor::{
    find_profile, select_profiles, start_decision, sync_command_args, sync_program,
    StartDecision,
};
use lazycloud::watcher::{watcher_step, WatcherState};

fn profile(name: &str, mode: &str, flags: Option<&str>) -> Profile {
    Profile {
        name: name.to_string(),
        from: "/home/u/projects".to_string(),
        to: "gdrive:projects".to_string(),
        mode: mode.to_string(),
        flags: flags.map(|f| f.to_string()),
    }
}

#[test]
fn replace_mode_syncs_with_deletion() {
    let args = sync_command_args(&profile("p", "replace", None)).unwrap();
    assert_eq!(
        args,
        vec!["sync", "--delete-excluded", "/home/u/projects", "gdrive:projects"]
    );
}

#[test]
fn mirror_copy_move_templates() {
    let args = sync_command_args(&profile("p", "mirror", None)).unwrap();
    assert_eq!(args, vec!["sync", "/home/u/projects", "gdrive:projects"]);
    let args = sync_command_args(&profile("p", "copy", None)).unwrap();
    assert_eq!(args, vec!["copy", "/home/u/projects", "gdrive:projects"]);
    let args = sync_command_args(&profile("p", "move", None)).unwrap();
    assert_eq!(args, vec!["move", "/home/u/projects", "gdrive:projects"]);
}

#[test]
fn flags_are_appended_whitespace_split() {
    let args = sync_command_args(&profile("p", "mirror", Some(" --progress  -v "))).unwrap();
    assert_eq!(
        args,
        vec!["sync", "/home/u/projects", "gdrive:projects", "--progress", "-v"]
    );
}

#[test]
fn unknown_mode_sideways_is_skipped() {
    assert!(sync_command_args(&profile("p", "sideways", Some("--progress"))).is_none());
}

#[test]
fn sync_program_is_rclone() {
    assert_eq!(sync_program(), "rclone");
}

#[test]
fn start_spawns_exact_watch_command() {
    let t = ProcessTable::new();
    match start_decision(&t, "media", 60) {
        StartDecision::Spawn { args } => {
            assert_eq!(args, vec!["watch", "60", "--run", "profile", "media"]);
        }
        StartDecision::AlreadyRunning => panic!("no record exists yet"),
    }
}

#[test]
fn start_with_existing_record_reports_already_running() {
    let mut t = ProcessTable::new();
    t.create("media", 4242);
    assert!(matches!(
        start_decision(&t, "media", 60),
        StartDecision::AlreadyRunning
    ));
    assert_eq!(t.read("media"), Ok(4242));
}

#[test]
fn find_profile_returns_first_match() {
    let ps = vec![profile("a", "copy", None), profile("b", "copy", None)];
    assert_eq!(find_profile(&ps, "b"), Some(1));
    assert_eq!(find_profile(&ps, "c"), None);
}

#[test]
fn select_all_targets_every_profile_in_order() {
    let ps = vec![
        profile("a", "copy", None),
        profile("b", "copy", None),
        profile("c", "copy", None),
    ];
    assert_eq!(select_profiles(&ps, &SyncAction::All), Some(vec![0, 1, 2]));
}

#[test]
fn select_named_profile_or_report_missing() {
    let ps = vec![profile("a", "copy", None), profile("b", "copy", None)];
    let named = SyncAction::Profile { name: "b".to_string() };
    assert_eq!(select_profiles(&ps, &named), Some(vec![1]));
    let missing = SyncAction::Profile { name: "z".to_string() };
    assert_eq!(select_profiles(&ps, &missing), None);
}

#[test]
fn watcher_keeps_running_and_reports_failures() {
    let step = watcher_step(WatcherState::Running, true, 30);
    assert_eq!(step.next, WatcherState::Running);
    assert!(step.report_failure);
    assert_eq!(step.sleep_secs, 30);

    let step = watcher_step(WatcherState::Running, false, 30);
    assert_eq!(step.next, WatcherState::Running);
    assert!(!step.report_failure);
    assert_eq!(step.sleep_secs, 30);
}

#[test]
fn watcher_survives_a_run_of_failing_syncs() {
    let mut state = WatcherState::Running;
    for _ in 0..100 {
        let step = watcher_step(state, true, 1);
        assert_eq!(step.sleep_secs, 1);
        assert!(step.report_failure);
        state = step.next;
    }
    assert_eq!(state, WatcherState::Running);
}

#[test]
fn config_template_mentions_every_field() {
    let t = config_template();
    assert!(t.contains("# lazycloud config"));
    for field in ["name", "from", "to", "mode", "flags"] {
        assert!(t.contains(field));
    }
    assert!(t.contains("\"replace\""));
}
