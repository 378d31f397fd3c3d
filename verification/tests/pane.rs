use catpane::log_buffer_config::log_buffer_capacity;
use catpane::log_entry::{LogEntry, LogLevel, LogPlatform};
use catpane::pane::{
    compact_batch_size, compact_threshold, default_word_wrap, entry_line, hidden_rows_label,
    watch_color, Pane, PaneNode, RowHighlight, SplitDir, TagActionKind, UiWatch, MAX_WRAP_ROWS,
};

#[test]
fn compact_uses_headroom_before_rebuilding() {
    let capacity = log_buffer_capacity(None);
    let batch_size = compact_batch_size(capacity);
    assert!(compact_threshold(capacity) > capacity);
    assert_eq!(compact_threshold(capacity), capacity + batch_size);
}

#[test]
fn pane_defaults_to_word_wrap_enabled() {
    assert!(default_word_wrap());
}

#[test]
fn compact_batch_has_a_floor() {
    assert_eq!(compact_batch_size(100), 100);
    assert_eq!(compact_batch_size(1_000), 250);
    assert_eq!(compact_batch_size(50_000), 1_000);
    assert_eq!(compact_threshold(1_000), 1_250);
}

#[test]
fn splitting_and_removing_panes() {
    let mut layout = PaneNode::leaf(1);
    assert_eq!(layout.count(), 1);
    assert_eq!(layout.depth(), 0);
    assert!(layout.split(1, SplitDir::Vertical, 2));
    assert!(layout.split(2, SplitDir::Horizontal, 3));
    assert_eq!(layout.pane_ids(), vec![1, 2, 3]);
    assert_eq!(layout.depth(), 2);
    assert_eq!(layout.depth_of(1), Some(1));
    assert_eq!(layout.depth_of(3), Some(2));
    assert_eq!(layout.depth_of(9), None);
    assert!(!layout.split(9, SplitDir::Vertical, 4));

    assert!(layout.remove(3));
    assert_eq!(layout.pane_ids(), vec![1, 2]);
    assert!(layout.remove(2));
    assert_eq!(layout.pane_ids(), vec![1]);
    assert!(!layout.remove(1));
    assert!(!layout.remove(7));
    assert_eq!(layout.count(), 1);
}

#[test]
fn ui_watch_matches_message_or_tag_ignoring_case() {
    let watch = UiWatch {
        name: "w".into(),
        pattern: "Boom".into(),
        pattern_lower: "boom".into(),
        color_index: 0,
        match_count: 0,
    };
    let entry = LogEntry {
        platform: LogPlatform::Android,
        timestamp: "01-01 00:00:00.000".into(),
        pid: None,
        tid: None,
        level: LogLevel::Info,
        tag: "BOOMER".into(),
        process: None,
        subsystem: None,
        category: None,
        message: "quiet".into(),
    };
    assert!(watch.matches(&entry));
    let other = LogEntry {
        tag: "Tag".into(),
        ..entry.clone()
    };
    assert!(!watch.matches(&other));
}

fn entry(tag: &str, message: &str) -> LogEntry {
    LogEntry {
        platform: LogPlatform::Android,
        timestamp: "03-10 06:30:45.000".to_string(),
        pid: Some(123),
        tid: Some(456),
        level: LogLevel::Info,
        tag: tag.to_string(),
        process: None,
        subsystem: None,
        category: None,
        message: message.to_string(),
    }
}

fn crash_entry(message: &str) -> LogEntry {
    LogEntry {
        level: LogLevel::Error,
        ..entry("AndroidRuntime", message)
    }
}

#[test]
fn compact_keeps_latest_entries_with_consistent_indices() {
    let capacity = log_buffer_capacity(None);
    let mut pane = Pane::new(1, None, capacity);
    let total = capacity + 3;

    for i in 0..total {
        pane.entries.push(entry("Tag", &format!("message-{i}")));
    }

    pane.rebuild_filtered();
    pane.compact();

    assert_eq!(pane.entries.len(), capacity);
    assert_eq!(pane.filtered_indices.len(), capacity);
    assert_eq!(
        pane.entries.first().map(|entry| entry.message.as_str()),
        Some("message-3")
    );
    assert_eq!(
        pane.entries.last().map(|entry| entry.message.as_str()),
        Some(format!("message-{}", total - 1).as_str())
    );
    assert_eq!(pane.filtered_indices.first().copied(), Some(0));
    assert_eq!(pane.filtered_indices.last().copied(), Some(capacity - 1));
}

#[test]
fn compact_preserves_existing_scroll_intent() {
    let capacity = log_buffer_capacity(None);
    let mut pane = Pane::new(1, None, capacity);

    for i in 0..=capacity {
        pane.entries.push(entry("Tag", &format!("message-{i}")));
    }

    pane.rebuild_filtered();
    pane.scroll_to_bottom = false;
    pane.compact();

    assert!(!pane.scroll_to_bottom);
}

#[test]
fn ingest_shows_filtered_entries_and_records_tags() {
    let mut pane = Pane::new(7, Some("dev".into()), 100);
    pane.scroll_to_bottom = false;
    pane.ingest_entries(vec![entry("A", "one"), entry("B", "two"), entry("A", "three")]);
    assert_eq!(pane.entries.len(), 3);
    assert_eq!(pane.filtered_indices, vec![0, 1, 2]);
    assert_eq!(pane.seen_tags, vec!["A".to_string(), "B".to_string()]);
    assert!(pane.scroll_to_bottom);

    pane.paused = true;
    pane.ingest_entries(vec![entry("C", "dropped")]);
    assert_eq!(pane.entries.len(), 3);
    assert_eq!(pane.seen_tags.len(), 2);
}

#[test]
fn ingest_detects_and_saves_crashes() {
    let mut pane = Pane::new(1, None, 100);
    pane.ingest_entries(vec![
        entry("App", "before"),
        crash_entry("FATAL EXCEPTION: main"),
        crash_entry("\tat com.example.A.b(A.java:1)"),
        entry("App", "after"),
    ]);
    assert_eq!(pane.crash_reports.len(), 1);
    assert_eq!(pane.crash_reports[0].first_index, 1);
    assert_eq!(pane.crash_reports[0].last_index, 2);
    assert!(pane.crash_line_indices.contains(&1));
    assert!(pane.crash_line_indices.contains(&2));
    assert!(!pane.crash_line_indices.contains(&3));
    assert_eq!(pane.saved_crashes.len(), 1);
    let saved = &pane.saved_crashes[0];
    assert_eq!(saved.summary, "FATAL EXCEPTION: main");
    assert_eq!(saved.pid, 123);
    assert_eq!(saved.context_lines.len(), 4);
    assert_eq!(saved.crash_start_offset, 1);
    assert_eq!(saved.crash_end_offset, 2);

    assert_eq!(pane.next_crash(), Some(1));
    assert_eq!(pane.crash_nav_index, Some(0));
    assert_eq!(pane.prev_crash(), Some(1));

    pane.clear();
    assert!(pane.entries.is_empty());
    assert!(pane.crash_reports.is_empty());
    assert_eq!(pane.saved_crashes.len(), 1);
}

#[test]
fn watches_highlight_the_first_matching_pattern() {
    let mut pane = Pane::new(1, None, 100);
    pane.ingest_entries(vec![entry("Net", "timeout here"), entry("Disk", "quiet"), entry("Net", "ok")]);
    pane.add_watch("t".into(), "TIMEOUT".into());
    pane.add_watch("n".into(), "net".into());
    assert_eq!(pane.watches[0].match_count, 1);
    assert_eq!(pane.watches[1].match_count, 1);
    assert_eq!(pane.watch_highlights.get(&0), Some(&0));
    assert_eq!(pane.watch_highlights.get(&2), Some(&1));
    assert_eq!(pane.watch_highlights.get(&1), None);
    assert_eq!(watch_color(1), (255, 183, 77));

    pane.ingest_entries(vec![entry("App", "another timeout")]);
    assert_eq!(pane.watches[0].match_count, 2);
    assert_eq!(pane.watch_highlights.get(&3), Some(&0));

    pane.remove_watch(0);
    assert_eq!(pane.watches.len(), 1);
    assert_eq!(pane.watches[0].match_count, 2);
    pane.remove_watch(5);
    assert_eq!(pane.watches.len(), 1);
}

#[test]
fn search_moves_through_hits_and_wraps() {
    let mut pane = Pane::new(1, None, 100);
    pane.ingest_entries(vec![entry("A", "find me"), entry("B", "skip"), entry("C", "FIND again")]);
    pane.search_open = true;
    pane.search_input = "find".into();
    pane.update_search();
    assert_eq!(pane.search_match_indices, vec![0, 2]);
    assert_eq!(pane.search_next(), Some(2));
    assert_eq!(pane.search_next(), Some(0));
    assert_eq!(pane.search_prev(), Some(2));
    assert_eq!(pane.search_prev(), Some(0));
}

#[test]
fn tag_and_ios_filters_narrow_the_shown_rows() {
    let mut pane = Pane::new(1, None, 100);
    pane.ingest_entries(vec![entry("Keep", "a"), entry("Drop", "b")]);
    pane.tag_input = "tag-:Drop".into();
    pane.apply_tag_filter();
    assert_eq!(pane.filtered_indices, vec![0]);
    pane.ios_process_filter_text = "  ".into();
    pane.apply_ios_filters();
    assert_eq!(pane.filter.ios_process, None);
    assert_eq!(pane.filtered_indices, vec![0]);
}

#[test]
fn selection_is_ordered_and_inclusive() {
    let mut pane = Pane::new(1, None, 100);
    assert_eq!(pane.selected_range(), None);
    pane.selection_anchor = Some(5);
    assert_eq!(pane.selected_range(), Some((5, 5)));
    pane.selection_end = Some(2);
    assert_eq!(pane.selected_range(), Some((2, 5)));
    assert!(pane.is_row_selected(3));
    assert!(!pane.is_row_selected(6));
}

#[test]
fn ingest_past_threshold_compacts() {
    let mut pane = Pane::new(1, None, 10);
    let batch: Vec<LogEntry> = (0..25).map(|i| entry("T", &format!("m{i}"))).collect();
    pane.ingest_entries(batch);
    assert_eq!(pane.entries.len(), 10);
    assert_eq!(pane.entries[0].message, "m15");
    assert_eq!(pane.filtered_indices, (0..10).collect::<Vec<usize>>());
}

#[test]
fn copied_line_reads_timestamp_level_tag_message() {
    assert_eq!(
        entry_line(&entry("Net", "connected")),
        "03-10 06:30:45.000 I Net connected"
    );
}

#[test]
fn clicks_start_or_extend_the_selection() {
    let mut pane = Pane::new(1, None, 100);
    pane.click_row(4, true);
    assert_eq!((pane.selection_anchor, pane.selection_end), (Some(4), None));
    pane.click_row(1, true);
    assert_eq!((pane.selection_anchor, pane.selection_end), (Some(4), Some(1)));
    pane.click_row(7, false);
    assert_eq!((pane.selection_anchor, pane.selection_end), (Some(7), None));
}

#[test]
fn copying_the_selection_joins_shown_lines() {
    let mut pane = Pane::new(1, None, 100);
    pane.ingest_entries(vec![entry("A", "one"), entry("Drop", "two"), entry("C", "three")]);
    pane.tag_input = "tag-:Drop".into();
    pane.apply_tag_filter();
    assert_eq!(pane.selection_text(), None);
    assert_eq!(pane.selection_copy_label(), None);
    pane.click_row(0, false);
    pane.click_row(9, true);
    assert_eq!(
        pane.selected_lines(),
        vec![
            "03-10 06:30:45.000 I A one".to_string(),
            "03-10 06:30:45.000 I C three".to_string()
        ]
    );
    assert_eq!(
        pane.selection_text().as_deref(),
        Some("03-10 06:30:45.000 I A one\n03-10 06:30:45.000 I C three")
    );
    assert_eq!(
        pane.selection_copy_label().as_deref(),
        Some("📋 Copy 10 selected lines")
    );
    pane.click_row(5, false);
    assert_eq!(pane.selection_text(), None);
}

#[test]
fn tag_actions_extend_the_tag_filter() {
    let mut pane = Pane::new(1, None, 100);
    pane.ingest_entries(vec![entry("Keep", "a"), entry("Noise", "b")]);
    let expr = pane.apply_tag_action(TagActionKind::Exclude, "Noise");
    assert_eq!(expr, "tag-:Noise");
    assert_eq!(pane.prev_tag_input, "tag-:Noise");
    assert_eq!(pane.filtered_indices, vec![0]);
    pane.tag_input = "  tag:Keep  ".into();
    let expr = pane.apply_tag_action(TagActionKind::Like, "^K");
    assert_eq!(expr, "tag:Keep tag~:^K");
    assert_eq!(pane.tag_input, "tag:Keep tag~:^K");
}

#[test]
fn rows_are_highlighted_by_search_then_selection() {
    let mut pane = Pane::new(1, None, 100);
    pane.ingest_entries(vec![entry("A", "hit one"), entry("B", "miss"), entry("C", "hit two")]);
    pane.search_open = true;
    pane.search_input = "hit".into();
    pane.update_search();
    assert_eq!(pane.search_highlight_row(), Some(0));
    pane.click_row(1, false);
    assert_eq!(pane.row_highlight(0), Some(RowHighlight::SearchCurrent));
    assert_eq!(pane.row_highlight(1), Some(RowHighlight::Selected));
    assert_eq!(pane.row_highlight(2), Some(RowHighlight::SearchMatch));
    assert_eq!(pane.row_highlight(3), None);
    pane.search_open = false;
    assert_eq!(pane.search_highlight_row(), None);
    assert_eq!(pane.row_highlight(2), Some(RowHighlight::Plain));
}

#[test]
fn wrap_mode_hides_all_but_the_newest_rows() {
    let mut pane = Pane::new(1, None, 100);
    assert_eq!(pane.wrap_start(), 0);
    pane.filtered_indices = (0..MAX_WRAP_ROWS + 7).collect();
    assert_eq!(pane.wrap_start(), 7);
    assert_eq!(hidden_rows_label(7), "↑ 7 older entries hidden in wrap mode");
}

#[test]
fn scrolling_up_stops_following() {
    let mut pane = Pane::new(1, None, 100);
    assert!(pane.auto_scroll);
    pane.note_scroll(false);
    assert!(pane.auto_scroll);
    pane.note_scroll(true);
    assert!(!pane.auto_scroll);
}

#[test]
fn a_new_pid_refilters_only_when_it_changes() {
    let mut pane = Pane::new(1, None, 100);
    let mut other = entry("A", "other");
    other.pid = Some(9);
    pane.ingest_entries(vec![entry("A", "mine"), other]);
    assert!(!pane.update_pid_filter(None));
    assert!(pane.update_pid_filter(Some(9)));
    assert_eq!(pane.filtered_indices, vec![1]);
    assert!(!pane.update_pid_filter(Some(9)));
}

#[test]
fn first_leaf_is_the_first_pane_of_the_layout() {
    let mut layout = PaneNode::leaf(4);
    assert_eq!(layout.first_leaf(), 4);
    assert!(layout.split(4, SplitDir::Horizontal, 8));
    assert!(layout.split(8, SplitDir::Vertical, 9));
    assert_eq!(layout.first_leaf(), layout.pane_ids()[0]);
    assert!(layout.remove(4));
    assert_eq!(layout.first_leaf(), 8);
}

#[test]
fn split_uses_the_requested_direction_and_remove_restores_the_layout() {
    let mut layout = PaneNode::leaf(1);
    assert!(layout.split(1, SplitDir::Horizontal, 2));
    assert!(layout.split(2, SplitDir::Vertical, 3));
    match &layout {
        PaneNode::Split { dir, first, second } => {
            assert_eq!(*dir, SplitDir::Horizontal);
            assert!(matches!(**first, PaneNode::Leaf(1)));
            match &**second {
                PaneNode::Split { dir, first, second } => {
                    assert_eq!(*dir, SplitDir::Vertical);
                    assert!(matches!(**first, PaneNode::Leaf(2)));
                    assert!(matches!(**second, PaneNode::Leaf(3)));
                }
                _ => panic!("expected a split"),
            }
        }
        _ => panic!("expected a split"),
    }
    assert_eq!(layout.depth_of(3), Some(2));
    assert_eq!(layout.depth_of(2), Some(2));
    assert!(layout.remove(3));
    match &layout {
        PaneNode::Split { dir, first, second } => {
            assert_eq!(*dir, SplitDir::Horizontal);
            assert!(matches!(**first, PaneNode::Leaf(1)));
            assert!(matches!(**second, PaneNode::Leaf(2)));
        }
        _ => panic!("expected a split"),
    }
    assert_eq!(layout.count(), 2);
}
