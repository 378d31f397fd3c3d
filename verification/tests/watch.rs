use catpane::log_entry::{LogEntry, LogLevel, LogPlatform};
use catpane::watch::{watch_id, BufferedLogEntry, Watch, WatchSet};

fn make_entry(level: LogLevel, tag: &str, message: &str) -> LogEntry {
    LogEntry {
        platform: LogPlatform::Android,
        timestamp: "01-01 00:00:00.000".to_string(),
        pid: Some(1000),
        tid: Some(1000),
        level,
        tag: tag.to_string(),
        process: None,
        subsystem: None,
        category: None,
        message: message.to_string(),
    }
}

fn make_buffered_entry(seq: u64, level: LogLevel, tag: &str, message: &str) -> BufferedLogEntry {
    BufferedLogEntry {
        seq,
        normalized_timestamp: None,
        entry: make_entry(level, tag, message),
    }
}

fn text_watch(id: &str, name: &str, pattern: &str) -> Watch {
    Watch::new_text(id.into(), 0, name.into(), pattern.into(), None, None)
}

#[test]
fn text_match_case_insensitive() {
    let w = text_watch("w1", "t", "error");
    assert!(w.matches(&make_entry(LogLevel::Info, "App", "An ERROR occurred")));
    assert!(w.matches(&make_entry(LogLevel::Info, "App", "some error here")));
    assert!(!w.matches(&make_entry(LogLevel::Info, "App", "all good")));
}

#[test]
fn text_match_in_tag() {
    let w = text_watch("w1", "t", "myapp");
    assert!(w.matches(&make_entry(LogLevel::Info, "MyApp", "hello")));
}

#[test]
fn regex_match() {
    let w = Watch::new_regex("w1".into(), 0, "r".into(), r"crash|oom", None, None).unwrap();
    assert!(w.matches(&make_entry(LogLevel::Error, "X", "app crash detected")));
    assert!(w.matches(&make_entry(LogLevel::Error, "X", "oom killer")));
    assert!(!w.matches(&make_entry(LogLevel::Error, "X", "all fine")));
}

#[test]
fn tag_filter_combined_with_text() {
    let w = Watch::new_text("w1".into(), 0, "t".into(), "fail".into(), Some("Net".into()), None);
    assert!(w.matches(&make_entry(LogLevel::Info, "Network", "request fail")));
    assert!(!w.matches(&make_entry(LogLevel::Info, "Audio", "request fail")));
}

#[test]
fn min_level_filtering() {
    let w = Watch::new_text("w1".into(), 0, "t".into(), "x".into(), None, Some(LogLevel::Warn));
    assert!(!w.matches(&make_entry(LogLevel::Debug, "A", "x")));
    assert!(!w.matches(&make_entry(LogLevel::Info, "A", "x")));
    assert!(w.matches(&make_entry(LogLevel::Warn, "A", "x")));
    assert!(w.matches(&make_entry(LogLevel::Error, "A", "x")));
}

#[test]
fn retain_if_match_updates_stats() {
    let mut w =
        Watch::new_text_with_retention("w1".into(), 0, "t".into(), "hit".into(), None, None, 8);
    assert_eq!(w.match_count, 0);
    assert!(w.last_match_seq.is_none());

    assert!(w.retain_if_match(&make_buffered_entry(10, LogLevel::Info, "A", "hit me")));
    assert_eq!(w.match_count, 1);
    assert_eq!(w.last_match_seq, Some(10));

    assert!(!w.retain_if_match(&make_buffered_entry(11, LogLevel::Info, "A", "miss")));
    assert_eq!(w.match_count, 1);

    assert!(w.retain_if_match(&make_buffered_entry(20, LogLevel::Info, "A", "hit again")));
    assert_eq!(w.match_count, 2);
    assert_eq!(w.last_match_seq, Some(20));
}

#[test]
fn retained_matches_survive_capacity_eviction() {
    let mut w =
        Watch::new_text_with_retention("w1".into(), 0, "t".into(), "hit".into(), None, None, 2);

    assert!(w.retain_if_match(&make_buffered_entry(1, LogLevel::Info, "A", "hit one")));
    assert!(w.retain_if_match(&make_buffered_entry(2, LogLevel::Info, "A", "hit two")));
    assert!(w.retain_if_match(&make_buffered_entry(3, LogLevel::Info, "A", "hit three")));

    let retained = w.retained_matches_since(None, 10);
    assert_eq!(retained.iter().map(|entry| entry.seq).collect::<Vec<_>>(), vec![2, 3]);
    assert_eq!(w.summary().retained_dropped, 1);
}

#[test]
fn clear_matches_resets_retained_state() {
    let mut w =
        Watch::new_text_with_retention("w1".into(), 0, "t".into(), "hit".into(), None, None, 2);
    assert!(w.retain_if_match(&make_buffered_entry(1, LogLevel::Info, "A", "hit")));

    assert_eq!(w.clear_matches(), 1);
    let summary = w.summary();
    assert_eq!(summary.match_count, 0);
    assert!(summary.last_match_seq.is_none());
    assert_eq!(summary.retained_count, 0);
}

#[test]
fn watchset_add_remove_list() {
    let mut set = WatchSet::new();
    assert!(set.is_empty());

    let w1 = text_watch("w1", "first", "a");
    let id1 = set.add(w1);

    let w2 = text_watch("w2", "second", "b");
    let id2 = set.add(w2);

    assert_eq!(set.len(), 2);
    assert!(set.get(&id1).is_some());
    assert!(set.get(&id2).is_some());

    let summaries = set.list();
    assert_eq!(summaries.len(), 2);

    assert!(set.remove(&id1));
    assert_eq!(set.len(), 1);
    assert!(set.get(&id1).is_none());

    assert!(!set.remove("nonexistent"));
}

#[test]
fn invalid_regex_returns_error() {
    let result = Watch::new_regex("w1".into(), 0, "bad".into(), "[invalid", None, None);
    assert!(result.is_err());
    assert!(result.unwrap_err().contains("invalid regex"));
}

#[test]
fn watch_ids_are_numbered() {
    assert_eq!(watch_id(1), "w1");
    assert_eq!(watch_id(42), "w42");
}

#[test]
fn retaining_twice_keeps_one_copy_per_call_and_retained_since_filters() {
    let mut w =
        Watch::new_text_with_retention("w1".into(), 0, "t".into(), "hit".into(), None, None, 4);
    assert!(w.retain_if_match(&make_buffered_entry(5, LogLevel::Info, "A", "hit")));
    assert!(w.retain_if_match(&make_buffered_entry(6, LogLevel::Info, "A", "hit")));
    let after = w.retained_matches_since(Some(5), 10);
    assert_eq!(after.iter().map(|e| e.seq).collect::<Vec<_>>(), vec![6]);
    let limited = w.retained_matches_since(None, 1);
    assert_eq!(limited.iter().map(|e| e.seq).collect::<Vec<_>>(), vec![5]);
}

#[test]
fn record_entry_feeds_every_watch_and_stats_sum() {
    let mut set = WatchSet::new();
    set.add(text_watch("w1", "a", "boom"));
    set.add(text_watch("w2", "b", "other"));
    set.record_entry(&make_buffered_entry(1, LogLevel::Info, "A", "boom"));
    let stats = set.retention_stats();
    assert_eq!(stats.watch_count, 2);
    assert_eq!(stats.retained_count, 1);
    assert_eq!(set.get("w1").unwrap().match_count, 1);
    assert_eq!(set.get("w2").unwrap().match_count, 0);
    assert_eq!(set.clear_matches(), 1);
    assert_eq!(set.retention_stats().retained_count, 0);
}

#[test]
fn seed_matches_scans_buffered_entries() {
    let mut set = WatchSet::new();
    set.add(text_watch("w1", "a", "boom"));
    let entries = vec![
        make_buffered_entry(1, LogLevel::Info, "A", "boom"),
        make_buffered_entry(2, LogLevel::Info, "A", "quiet"),
        make_buffered_entry(3, LogLevel::Info, "A", "BOOM"),
    ];
    assert_eq!(set.seed_matches("w1", &entries), 2);
    let retained = set.retained_matches("w1", None, 10).unwrap();
    assert_eq!(retained.iter().map(|e| e.seq).collect::<Vec<_>>(), vec![1, 3]);
    assert!(set.retained_matches("missing", None, 10).is_none());
}
