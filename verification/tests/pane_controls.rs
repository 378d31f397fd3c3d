use catpane::capture::{ConnectedDevice, DevicePlatform};
use catpane::log_entry::{LogEntry, LogLevel, LogPlatform};
use catpane::pane::Pane;
use catpane::pane_controls::{
    cursor_down, cursor_up, device_label, level_selector_text, matching_packages, package_pick,
    suggestion_pick, tag_suggestions,
};

fn entry(tag: &str, level: LogLevel, message: &str) -> LogEntry {
    LogEntry {
        platform: LogPlatform::Android,
        timestamp: "03-10 06:30:45.000".to_string(),
        pid: Some(123),
        tid: Some(456),
        level,
        tag: tag.to_string(),
        process: None,
        subsystem: None,
        category: None,
        message: message.to_string(),
    }
}

fn strings(v: &[&str]) -> Vec<String> {
    v.iter().map(|s| s.to_string()).collect()
}

#[test]
fn package_picker_lists_or_filters_ignoring_case() {
    let packages: Vec<String> = (0..30).map(|i| format!("com.app{i}")).collect();
    assert_eq!(matching_packages(&packages, "").len(), 20);
    assert_eq!(matching_packages(&packages, "APP1"), strings(&[
        "com.app1", "com.app10", "com.app11", "com.app12", "com.app13", "com.app14", "com.app15",
        "com.app16", "com.app17", "com.app18", "com.app19",
    ]));
    assert_eq!(matching_packages(&packages, "app").len(), 15);
    assert!(matching_packages(&packages, "zzz").is_empty());
}

#[test]
fn tag_suggestions_complete_the_partial_tag() {
    let seen = strings(&["ActivityManager", "activity", "Net", "MyActivity"]);
    assert_eq!(
        tag_suggestions("tag:activ", &seen),
        strings(&["ActivityManager", "activity", "MyActivity"])
    );
    assert_eq!(
        tag_suggestions("tag:Activity", &seen),
        strings(&["ActivityManager", "MyActivity"])
    );
    assert!(tag_suggestions("", &seen).is_empty());
    assert!(tag_suggestions("tag:", &seen).is_empty());
    assert_eq!(tag_suggestions("Ne", &seen), strings(&["Net"]));
}

#[test]
fn keyboard_cursor_wraps_both_ways() {
    assert_eq!(cursor_down(-1, 3), 0);
    assert_eq!(cursor_down(0, 3), 1);
    assert_eq!(cursor_down(2, 3), 0);
    assert_eq!(cursor_up(-1, 3), 2);
    assert_eq!(cursor_up(0, 3), 2);
    assert_eq!(cursor_up(2, 3), 1);
    assert_eq!(suggestion_pick(-1, 3), 0);
    assert_eq!(suggestion_pick(2, 3), 2);
    assert_eq!(suggestion_pick(5, 3), 0);
    assert_eq!(package_pick(-1, 3), Some(0));
    assert_eq!(package_pick(1, 3), Some(1));
    assert_eq!(package_pick(3, 3), None);
    assert_eq!(package_pick(-1, 0), None);
}

#[test]
fn device_and_level_labels() {
    let devices = vec![ConnectedDevice {
        id: "emu".into(),
        name: "Pixel 8".into(),
        description: String::new(),
        platform: DevicePlatform::Android,
    }];
    assert_eq!(device_label(&Some("emu".into()), &devices), "Pixel 8 (Android)");
    assert_eq!(device_label(&Some("gone".into()), &devices), "No device");
    assert_eq!(device_label(&None, &devices), "No device");
    assert_eq!(level_selector_text(LogLevel::Warn), "≥ Warn");
}

#[test]
fn toolbar_counts_and_toggles() {
    let mut pane = Pane::new(1, Some("emu".into()), 100);
    pane.ingest_entries(vec![
        entry("A", LogLevel::Info, "quiet"),
        entry("B", LogLevel::Error, "loud"),
    ]);
    assert_eq!(pane.count_text(), "2 lines");
    pane.set_min_level(LogLevel::Warn);
    assert_eq!(pane.filtered_indices, vec![1]);
    assert_eq!(pane.count_text(), "1 of 2");

    pane.scroll_to_bottom = false;
    assert!(pane.auto_scroll);
    pane.toggle_follow();
    assert!(!pane.auto_scroll && !pane.scroll_to_bottom);
    pane.toggle_follow();
    assert!(pane.auto_scroll && pane.scroll_to_bottom);

    let wrap = pane.word_wrap;
    pane.scroll_to_bottom = false;
    pane.toggle_word_wrap();
    assert_eq!(pane.word_wrap, !wrap);
    assert!(pane.scroll_to_bottom);

    pane.toggle_pause();
    assert!(pane.paused);
    pane.toggle_pause();
    assert!(!pane.paused);
}

#[test]
fn package_picker_updates_the_pane() {
    let mut pane = Pane::new(1, Some("emu".into()), 100);
    pane.package_input_focused();
    assert!(pane.package_refresh_pending);
    assert_eq!(pane.pkg_selection_index, -1);

    pane.package_refresh_pending = false;
    pane.choose_package("com.example".into());
    assert_eq!(pane.filter.package.as_deref(), Some("com.example"));
    assert_eq!(pane.package_filter_text, "com.example");
    assert!(pane.package_refresh_pending);

    pane.pid_filter = Some(42);
    pane.package_filter_text.clear();
    pane.package_input_changed();
    assert_eq!(pane.pkg_selection_index, 0);
    assert_eq!(pane.filter.package, None);
    assert_eq!(pane.pid_filter, None);

    pane.choose_package("com.other".into());
    pane.pid_filter = Some(7);
    pane.clear_package_filter();
    assert_eq!(pane.filter.package, None);
    assert_eq!(pane.pid_filter, None);
    assert!(pane.package_filter_text.is_empty());
    assert_eq!(pane.pkg_selection_index, -1);
}

#[test]
fn tag_bar_edits_history_clearing_and_suggestions() {
    let mut pane = Pane::new(1, None, 100);
    pane.ingest_entries(vec![
        entry("Keep", LogLevel::Info, "a"),
        entry("Noise", LogLevel::Info, "b"),
    ]);
    assert!(!pane.tag_clear_visible());
    pane.tag_suggestion_index = 3;
    pane.edit_tag_input("tag-:Noise".into());
    assert_eq!(pane.prev_tag_input, "tag-:Noise");
    assert_eq!(pane.tag_suggestion_index, 0);
    assert_eq!(pane.filtered_indices, vec![0]);
    assert!(pane.tag_clear_visible());

    pane.tag_suggestion_index = 2;
    pane.edit_tag_input("tag-:Noise".into());
    assert_eq!(pane.tag_suggestion_index, 2);

    pane.set_tag_expression("tag:Noise".into());
    assert_eq!(pane.filtered_indices, vec![1]);

    pane.clear_tag_filters();
    assert!(pane.tag_input.is_empty() && pane.filter.tag_filters.is_empty());
    assert_eq!(pane.filtered_indices, vec![0, 1]);
    assert!(!pane.tag_clear_visible());

    pane.tag_input = "tag:Ke".into();
    pane.accept_tag_suggestion("Keep");
    assert_eq!(pane.tag_input, "tag:Keep");
    assert_eq!(pane.prev_tag_input, "tag:Keep");
    assert_eq!(pane.filtered_indices, vec![0]);

    pane.tag_input = "No".into();
    pane.accept_tag_suggestion("Noise");
    assert_eq!(pane.tag_input, "Noise:");
}
