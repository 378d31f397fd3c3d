use catpane::capture::{ConnectedDevice, DevicePlatform};
use catpane::pane::{PaneNode, SplitDir};
use catpane::pane::Pane;
use catpane::qr_pairing::QrPairStatus;
use catpane::workspace::{
    can_close, can_split, capture_restart_due, focus_after_close, needs_live_repaint,
    new_pane_device, next_focus, pid_repoll_due, reconcile_pane_device, remember_tag,
    repaint_interval_ms, simulator_boot_finished, tag_history_from_text, tag_history_text,
    task_status, DeviceReconcile, PendingWork, SharedCaptures, SubscribePlan, TAG_HISTORY_MAX,
    restored_device, restored_focus, session_index, session_to_tree, tree_to_session, SessionTree,
};

fn device(id: &str, name: &str, platform: DevicePlatform) -> ConnectedDevice {
    ConnectedDevice {
        id: id.into(),
        name: name.into(),
        description: String::new(),
        platform,
    }
}

#[test]
fn focus_cycles_through_panes_in_layout_order() {
    let ids = vec![3, 5, 9];
    assert_eq!(next_focus(&ids, 3), Some(5));
    assert_eq!(next_focus(&ids, 9), Some(3));
    assert_eq!(next_focus(&ids, 42), Some(5));
    assert_eq!(next_focus(&vec![], 1), None);
    assert_eq!(focus_after_close(&ids, 5), 5);
    assert_eq!(focus_after_close(&ids, 7), 3);
    assert_eq!(focus_after_close(&vec![], 7), 0);
}

#[test]
fn splits_stop_two_levels_deep_and_the_last_pane_stays() {
    let mut layout = PaneNode::leaf(1);
    assert!(!can_close(&layout));
    assert!(can_split(&layout, 1));
    layout.split(1, SplitDir::Vertical, 2);
    assert!(can_close(&layout));
    assert!(can_split(&layout, 2));
    layout.split(2, SplitDir::Horizontal, 3);
    assert!(!can_split(&layout, 3));
    assert!(can_split(&layout, 1));
}

#[test]
fn new_panes_follow_the_focused_device_or_the_first() {
    let devices = vec![device("a", "A", DevicePlatform::Android)];
    assert_eq!(new_pane_device(Some("x".into()), &devices).as_deref(), Some("x"));
    assert_eq!(new_pane_device(None, &devices).as_deref(), Some("a"));
    assert_eq!(new_pane_device(None, &[]), None);
}

#[test]
fn reconnected_devices_are_followed_by_name() {
    let before = vec![
        device("adb-123._adb-tls-connect._tcp", "Pixel", DevicePlatform::Android),
        device("usb-1", "Other", DevicePlatform::Android),
    ];
    let after = vec![
        device("192.168.1.25:5555", "Pixel", DevicePlatform::Android),
        device("usb-1", "Other", DevicePlatform::Android),
        device("new-1", "Fresh", DevicePlatform::IosSimulator),
    ];
    assert_eq!(reconcile_pane_device(&before, &after, "usb-1"), DeviceReconcile::Keep);
    assert_eq!(reconcile_pane_device(&before, &after, "new-1"), DeviceReconcile::Attach);
    assert_eq!(
        reconcile_pane_device(&before, &after, "adb-123._adb-tls-connect._tcp"),
        DeviceReconcile::Rebind("192.168.1.25:5555".into())
    );
    assert_eq!(reconcile_pane_device(&before, &after, "ghost"), DeviceReconcile::Leave);
    let gone = vec![device("usb-1", "Other", DevicePlatform::Android)];
    assert_eq!(
        reconcile_pane_device(&before, &gone, "adb-123._adb-tls-connect._tcp"),
        DeviceReconcile::Leave
    );
}

#[test]
fn tag_history_moves_reused_filters_to_the_front() {
    let mut history = vec!["b".to_string(), "a".to_string(), "c".to_string()];
    remember_tag(&mut history, "  a ");
    assert_eq!(history, vec!["a", "b", "c"]);
    remember_tag(&mut history, "   ");
    assert_eq!(history, vec!["a", "b", "c"]);
    let mut long: Vec<String> = (0..TAG_HISTORY_MAX).map(|i| format!("t{i}")).collect();
    remember_tag(&mut long, "new");
    assert_eq!(long.len(), TAG_HISTORY_MAX);
    assert_eq!(long[0], "new");
    assert_eq!(long[TAG_HISTORY_MAX - 1], format!("t{}", TAG_HISTORY_MAX - 2));
}

#[test]
fn tag_history_round_trips_through_text() {
    let text = "a\n\n  \nb:V\r\nc";
    let history = tag_history_from_text(text);
    assert_eq!(history, vec!["a", "b:V", "c"]);
    assert_eq!(tag_history_text(&history), "a\nb:V\nc");
    let many: String = (0..60).map(|i| format!("t{i}\n")).collect();
    assert_eq!(tag_history_from_text(&many).len(), TAG_HISTORY_MAX);
}

#[test]
fn shared_captures_count_their_readers() {
    let mut shared = SharedCaptures::new();
    assert_eq!(
        shared.subscribe("emu-1", false, true),
        SubscribePlan { stop_previous: false, start: true, subscribed: true }
    );
    assert_eq!(
        shared.subscribe("emu-1", false, true),
        SubscribePlan { stop_previous: false, start: false, subscribed: true }
    );
    assert_eq!(shared.readers("emu-1"), 2);
    assert!(!shared.unsubscribe("emu-1"));
    assert_eq!(shared.readers("emu-1"), 1);
    assert!(shared.unsubscribe("emu-1"));
    assert_eq!(shared.readers("emu-1"), 0);
    assert!(!shared.unsubscribe("emu-1"));
}

#[test]
fn a_finished_relay_is_restarted_or_dropped() {
    let mut shared = SharedCaptures::new();
    shared.subscribe("a", false, true);
    shared.subscribe("a", false, true);
    assert_eq!(
        shared.subscribe("a", true, true),
        SubscribePlan { stop_previous: true, start: true, subscribed: true }
    );
    assert_eq!(shared.readers("a"), 1);
    assert_eq!(
        shared.subscribe("a", true, false),
        SubscribePlan { stop_previous: true, start: false, subscribed: false }
    );
    assert_eq!(shared.readers("a"), 0);
    assert_eq!(
        shared.subscribe("gone", false, false),
        SubscribePlan { stop_previous: false, start: false, subscribed: false }
    );
}

#[test]
fn subscribing_then_unsubscribing_restores_the_counts() {
    let mut shared = SharedCaptures::new();
    shared.subscribe("a", false, true);
    shared.subscribe("b", false, true);
    shared.subscribe("a", false, true);
    assert!(!shared.unsubscribe("a"));
    assert_eq!((shared.readers("a"), shared.readers("b")), (1, 1));
    shared.subscribe("c", false, true);
    assert!(shared.unsubscribe("c"));
    assert_eq!(
        (shared.readers("a"), shared.readers("b"), shared.readers("c")),
        (1, 1, 0)
    );
}

#[test]
fn stopped_captures_restart_after_a_delay_on_connected_devices() {
    let devices = vec![device("emu", "Pixel", DevicePlatform::Android)];
    let mut pane = Pane::new(1, Some("emu".into()), 100);
    assert!(capture_restart_due(&pane, 3000, &devices));
    assert!(!capture_restart_due(&pane, 2999, &devices));
    assert!(!capture_restart_due(&pane, 3000, &[]));
    pane.paused = true;
    assert!(!capture_restart_due(&pane, 9000, &devices));
    pane.paused = false;
    pane.capture_device_id = Some("emu".into());
    assert!(!capture_restart_due(&pane, 9000, &devices));
}

#[test]
fn package_pids_are_polled_on_android_devices() {
    let devices = vec![
        device("emu", "Pixel", DevicePlatform::Android),
        device("sim", "iPhone", DevicePlatform::IosSimulator),
    ];
    let mut pane = Pane::new(1, Some("emu".into()), 100);
    assert!(!pid_repoll_due(&pane, 5000, &devices));
    pane.filter.package = Some("com.example".into());
    assert!(pid_repoll_due(&pane, 5000, &devices));
    assert!(!pid_repoll_due(&pane, 4999, &devices));
    pane.package_refresh_pending = true;
    assert!(!pid_repoll_due(&pane, 5000, &devices));
    pane.package_refresh_pending = false;
    pane.device = Some("sim".into());
    assert!(!pid_repoll_due(&pane, 5000, &devices));
}

#[test]
fn repaint_is_live_while_work_or_captures_run() {
    let idle = PendingWork {
        device_refresh_pending: false,
        ios_simulator_refresh_pending: false,
        simulator_boot_running: false,
        simulator_booting: false,
        location_running: false,
        qr_pairing: None,
    };
    let mut pane = Pane::new(1, Some("emu".into()), 100);
    assert!(!needs_live_repaint(&idle, &[]));
    assert_eq!(repaint_interval_ms(false), 250);
    assert_eq!(repaint_interval_ms(true), 33);
    let pairing = PendingWork { qr_pairing: Some(QrPairStatus::WaitingScan), ..idle.clone() };
    assert!(needs_live_repaint(&pairing, &[]));
    let done = PendingWork { qr_pairing: Some(QrPairStatus::Success("ok".into())), ..idle.clone() };
    assert!(!needs_live_repaint(&done, &[]));
    pane.capture_device_id = Some("emu".into());
    assert!(needs_live_repaint(&idle, std::slice::from_ref(&pane)));
    pane.paused = true;
    assert!(!needs_live_repaint(&idle, std::slice::from_ref(&pane)));
    let refreshing = PendingWork { device_refresh_pending: true, ..idle };
    assert!(needs_live_repaint(&refreshing, &[]));
}

#[test]
fn finished_tasks_report_their_outcome() {
    assert_eq!(task_status(Ok("done".into())), (true, "done".to_string()));
    assert_eq!(task_status(Err("no".into())), (false, "no".to_string()));
    let booted = simulator_boot_finished(Ok("Booted".into()));
    assert!(booted.succeeded && booted.refresh_simulators && booted.refresh_devices);
    assert_eq!(booted.message, "Booted");
    let failed = simulator_boot_finished(Err("boom".into()));
    assert!(!failed.succeeded && failed.refresh_simulators && !failed.refresh_devices);
}

#[test]
fn sessions_save_and_restore_the_layout() {
    let mut layout = PaneNode::leaf(10);
    assert!(layout.split(10, SplitDir::Vertical, 20));
    assert!(layout.split(20, SplitDir::Horizontal, 30));
    let ids = layout.pane_ids();
    let saved = tree_to_session(&layout, &ids);
    assert_eq!(
        saved,
        SessionTree::Split {
            dir: "v".into(),
            first: Box::new(SessionTree::Leaf(0)),
            second: Box::new(SessionTree::Split {
                dir: "h".into(),
                first: Box::new(SessionTree::Leaf(1)),
                second: Box::new(SessionTree::Leaf(2)),
            }),
        }
    );
    let restored = session_to_tree(&saved, &vec![7, 8, 9]).unwrap();
    assert_eq!(restored.pane_ids(), vec![7, 8, 9]);
    assert_eq!(restored.depth_of(9), Some(2));
    assert!(session_to_tree(&saved, &vec![7, 8]).is_none());
    assert_eq!(session_index(&ids, 30), 2);
    assert_eq!(session_index(&ids, 99), 0);
    assert_eq!(restored_focus(&vec![7, 8, 9], 1), 8);
    assert_eq!(restored_focus(&vec![7, 8, 9], 5), 7);
}

#[test]
fn restored_panes_follow_a_connected_device() {
    let devices = vec![
        device("emu", "Pixel", DevicePlatform::Android),
        device("sim", "iPhone", DevicePlatform::IosSimulator),
    ];
    assert_eq!(restored_device(&Some("sim".into()), &devices), Some("sim".to_string()));
    assert_eq!(restored_device(&Some("gone".into()), &devices), Some("emu".to_string()));
    assert_eq!(restored_device(&None, &devices), Some("emu".to_string()));
    assert_eq!(restored_device(&Some("gone".into()), &[]), None);
}

#[test]
fn pane_settings_round_trip_through_a_session() {
    let mut pane = Pane::new(1, Some("emu".into()), 100);
    pane.tag_input = "tag:App".into();
    pane.filter.package = Some("com.example".into());
    pane.word_wrap = false;
    let saved = pane.to_session();
    assert_eq!(saved.tag_input, "tag:App");
    assert_eq!(saved.package.as_deref(), Some("com.example"));
    let mut fresh = Pane::new(2, Some("emu".into()), 100);
    fresh.restore_session(&saved);
    assert_eq!(fresh.tag_input, "tag:App");
    assert_eq!(fresh.prev_tag_input, "tag:App");
    assert_eq!(fresh.filter.tag_filters.len(), 1);
    assert_eq!(fresh.package_filter_text, "com.example");
    assert!(fresh.package_refresh_pending);
    assert!(!fresh.word_wrap);
}
