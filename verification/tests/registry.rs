use lazycloud::registry::{
    profile_from_file_name, record_file_name, ProcessTable, ReadError, RecordFile,
};
use lazycloud::text::{parse_pid, split_flags, u64_to_string};

#[test]
fn create_makes_record_visible() {
    let mut t = ProcessTable::new();
    assert!(!t.contains("media"));
    t.create("media", 4242);
    assert!(t.contains("media"));
    assert_eq!(t.read("media"), Ok(4242));
}

#[test]
fn remove_takes_record_out() {
    let mut t = ProcessTable::new();
    t.create("media", 4242);
    assert!(t.remove("media"));
    assert!(!t.contains("media"));
    assert_eq!(t.read("media"), Err(ReadError::NotFound));
    assert!(!t.remove("media"));
}

#[test]
fn record_survives_operations_on_other_profiles() {
    let mut t = ProcessTable::new();
    t.create("media", 4242);
    t.create("docs", 77);
    assert_eq!(t.read("media"), Ok(4242));
    assert!(t.remove("docs"));
    assert_eq!(t.read("media"), Ok(4242));
}

#[test]
fn empty_registry_lists_nothing() {
    let t = ProcessTable::new();
    assert!(t.list().is_empty());
}

#[test]
fn create_media_then_list_is_media() {
    let mut t = ProcessTable::new();
    t.create("media", 4242);
    let names = t.list();
    assert_eq!(names, vec!["media".to_string()]);
}

#[test]
fn list_is_the_set_of_records() {
    let mut t = ProcessTable::new();
    t.create("a", 1);
    t.create("b", 2);
    t.create("c", 3);
    t.remove("b");
    let mut names = t.list();
    names.sort();
    assert_eq!(names, vec!["a".to_string(), "c".to_string()]);
}

#[test]
fn record_file_name_appends_suffix() {
    assert_eq!(record_file_name("media"), "media.pid");
}

#[test]
fn profile_from_file_name_strips_suffix() {
    assert_eq!(profile_from_file_name("media.pid"), Some("media".to_string()));
    assert_eq!(profile_from_file_name("media.txt"), None);
    assert_eq!(profile_from_file_name("pid"), None);
    assert_eq!(profile_from_file_name(".pid"), Some("".to_string()));
}

#[test]
fn from_entries_keeps_malformed_records_present() {
    let entries = vec![
        RecordFile { file_name: "media.pid".to_string(), contents: "4242\n".to_string() },
        RecordFile { file_name: "notes.txt".to_string(), contents: "99".to_string() },
        RecordFile { file_name: "docs.pid".to_string(), contents: "not a pid".to_string() },
        RecordFile { file_name: "backup.pid".to_string(), contents: " 7 ".to_string() },
    ];
    let t = ProcessTable::from_entries(&entries);
    assert_eq!(t.read("media"), Ok(4242));
    assert_eq!(t.read("backup"), Ok(7));
    assert!(!t.contains("notes"));
    // A record file with unreadable content is still a record: the profile
    // counts as present, and the read error is surfaced, not absence.
    assert!(t.contains("docs"));
    assert_eq!(t.read("docs"), Err(ReadError::Malformed));
}

#[test]
fn from_entries_first_record_wins_on_duplicates() {
    let entries = vec![
        RecordFile { file_name: "media.pid".to_string(), contents: "1".to_string() },
        RecordFile { file_name: "media.pid".to_string(), contents: "2".to_string() },
    ];
    let t = ProcessTable::from_entries(&entries);
    assert_eq!(t.read("media"), Ok(1));
}

#[test]
fn from_entries_domain_ignores_enumeration_order() {
    let mut entries = vec![
        RecordFile { file_name: "a.pid".to_string(), contents: "1".to_string() },
        RecordFile { file_name: "b.pid".to_string(), contents: "bad".to_string() },
        RecordFile { file_name: "junk".to_string(), contents: "3".to_string() },
        RecordFile { file_name: "c.pid".to_string(), contents: "4".to_string() },
    ];
    let mut forward = ProcessTable::from_entries(&entries).list();
    entries.reverse();
    let mut backward = ProcessTable::from_entries(&entries).list();
    forward.sort();
    backward.sort();
    assert_eq!(forward, backward);
    assert_eq!(forward, vec!["a".to_string(), "b".to_string(), "c".to_string()]);
}

#[test]
fn record_file_name_round_trips() {
    for name in ["media", "", "a.b", "weird name"] {
        assert_eq!(
            profile_from_file_name(&record_file_name(name)),
            Some(name.to_string())
        );
    }
}

#[test]
fn parse_pid_accepts_plain_and_padded_numbers() {
    assert_eq!(parse_pid("123"), Some(123));
    assert_eq!(parse_pid(" 42\n"), Some(42));
    assert_eq!(parse_pid("0"), Some(0));
    assert_eq!(parse_pid("4294967295"), Some(u32::MAX));
}

#[test]
fn parse_pid_rejects_garbage() {
    assert_eq!(parse_pid(""), None);
    assert_eq!(parse_pid("   "), None);
    assert_eq!(parse_pid("abc"), None);
    assert_eq!(parse_pid("12a"), None);
    assert_eq!(parse_pid("-1"), None);
    assert_eq!(parse_pid("+5"), None);
    assert_eq!(parse_pid("4294967296"), None);
    assert_eq!(parse_pid("1 2"), None);
}

#[test]
fn u64_to_string_renders_decimal() {
    assert_eq!(u64_to_string(0), "0");
    assert_eq!(u64_to_string(7), "7");
    assert_eq!(u64_to_string(4242), "4242");
    assert_eq!(u64_to_string(u64::MAX), "18446744073709551615");
}

#[test]
fn pid_render_and_parse_round_trip() {
    for pid in [0u32, 1, 60, 4242, u32::MAX] {
        assert_eq!(parse_pid(&u64_to_string(pid as u64)), Some(pid));
    }
}

#[test]
fn split_flags_splits_on_whitespace() {
    assert_eq!(split_flags(""), Vec::<String>::new());
    assert_eq!(split_flags("   "), Vec::<String>::new());
    assert_eq!(split_flags("--progress"), vec!["--progress".to_string()]);
    assert_eq!(
        split_flags(" --progress  -v\t--dry-run\n"),
        vec!["--progress".to_string(), "-v".to_string(), "--dry-run".to_string()]
    );
}
