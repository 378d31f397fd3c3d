use catpane::capture::{ConnectedDevice, DevicePlatform};
use catpane::crash_detector::{CrashReport, CrashType};
use catpane::log_entry::{LogEntry, LogLevel, LogPlatform};
use catpane::pane::Pane;
use catpane::qr_pairing::QrPairStatus;
use catpane::sidebar::{
    android_device_summary, booting_label, crash_line, crash_summary, crash_type_label,
    is_usb_android_device, qr_service_name, qr_status_hint, simulator_boot_button,
    simulator_summary, tab_heading, usb_device_label, usb_fallback_selection, watch_label,
    wireless_status_hint, SidebarTab,
};

fn device(id: &str, platform: DevicePlatform) -> ConnectedDevice {
    ConnectedDevice {
        id: id.into(),
        name: "Phone".into(),
        description: String::new(),
        platform,
    }
}

#[test]
fn tabs_and_crash_types_have_labels() {
    assert_eq!(tab_heading(SidebarTab::Devices), "Devices");
    assert_eq!(tab_heading(SidebarTab::Watches), "Watches");
    assert_eq!(crash_type_label(CrashType::JavaException), "Java Exception");
    assert_eq!(crash_type_label(CrashType::Anr), "ANR");
    assert_eq!(crash_type_label(CrashType::IosCrash), "iOS Crash");
}

#[test]
fn usb_android_devices_are_those_without_host_port() {
    assert!(is_usb_android_device(&device("R58M123", DevicePlatform::Android)));
    assert!(!is_usb_android_device(&device("192.168.1.5:5555", DevicePlatform::Android)));
    assert!(!is_usb_android_device(&device("ABCD", DevicePlatform::IosDevice)));
}

#[test]
fn wireless_hints_follow_the_message() {
    assert_eq!(
        wireless_status_hint(true, "Paired, but AUTOMATIC CONNECT failed"),
        Some("Pairing succeeded, but the connect step still needs help. Try Connect or Refresh devices.")
    );
    assert_eq!(wireless_status_hint(true, "Connected"), None);
    assert_eq!(
        wireless_status_hint(false, "adb: Protocol Fault (no status)"),
        Some("This usually means stale wireless auth or a wedged pairing service. Restart ADB, then re-open Wireless debugging on the device and pair again.")
    );
    assert_eq!(
        wireless_status_hint(false, "mDNS discovery timed out"),
        Some("Keep the phone on the QR pairing screen and make sure the Mac and phone are on the same Wi-Fi without VPN or client isolation.")
    );
    assert_eq!(
        wireless_status_hint(false, "failed to connect to 10.0.0.2:5555"),
        Some("Double-check that you are using the device's connect port, not the pairing port. If USB works, try the TCP/IP fallback below.")
    );
    assert_eq!(
        wireless_status_hint(false, "error: more than one device/emulator"),
        Some("Disconnect extra Android devices or use the USB-assisted fallback selector to target the exact device you want.")
    );
    assert_eq!(wireless_status_hint(false, "something else"), None);
}

fn log(tag: &str, level: LogLevel, message: &str) -> LogEntry {
    LogEntry {
        platform: LogPlatform::Android,
        timestamp: "03-10 06:30:45.000".to_string(),
        pid: Some(1),
        tid: Some(1),
        level,
        tag: tag.to_string(),
        process: None,
        subsystem: None,
        category: None,
        message: message.to_string(),
    }
}

#[test]
fn qr_hints_and_service_names() {
    assert_eq!(qr_status_hint(&QrPairStatus::WaitingScan), None);
    assert_eq!(
        qr_status_hint(&QrPairStatus::Failed("Unauthorized".into())),
        Some("Reconnect over USB and accept the RSA prompt again. If needed, revoke USB debugging authorizations on the phone and retry.")
    );
    assert_eq!(qr_status_hint(&QrPairStatus::Success("Paired".into())), None);
    assert_eq!(qr_service_name("a1b2c"), "ADB_WIFI_a1b2c");
}

#[test]
fn wireless_section_counts_usb_and_wifi_devices() {
    let devices = vec![
        device("R58", DevicePlatform::Android),
        device("10.0.0.2:5555", DevicePlatform::Android),
        device("SIM", DevicePlatform::IosSimulator),
        device("R59", DevicePlatform::Android),
    ];
    assert_eq!(
        android_device_summary(&devices),
        "3 Android device(s) · 2 USB · 1 Wi-Fi"
    );
    assert_eq!(android_device_summary(&[]), "0 Android device(s) · 0 USB · 0 Wi-Fi");
}

#[test]
fn usb_fallback_keeps_or_picks_a_usb_device() {
    let devices = vec![
        device("10.0.0.2:5555", DevicePlatform::Android),
        device("R58", DevicePlatform::Android),
        device("R59", DevicePlatform::Android),
    ];
    assert_eq!(usb_fallback_selection(Some("R59".into()), &devices), Some("R59".to_string()));
    assert_eq!(usb_fallback_selection(Some("10.0.0.2:5555".into()), &devices), Some("R58".to_string()));
    assert_eq!(usb_fallback_selection(None, &devices), Some("R58".to_string()));
    assert_eq!(usb_fallback_selection(Some("R58".into()), &[]), None);
    assert_eq!(usb_device_label(&Some("R58".into()), &devices), "Phone (Android) - R58");
    assert_eq!(usb_device_label(&None, &devices), "Select USB device");
}

#[test]
fn simulator_rows_and_labels() {
    assert_eq!(simulator_summary(1, 4), "1 booted simulator(s) · 4 available");
    assert_eq!(booting_label("ABC"), "Booting ABC...");
    assert_eq!(simulator_boot_button("Booted", "A", &None), ("Booted", false));
    assert_eq!(simulator_boot_button("Shutdown", "A", &None), ("Boot", true));
    assert_eq!(simulator_boot_button("Shutdown", "A", &Some("A".into())), ("Booting…", false));
    assert_eq!(simulator_boot_button("Shutdown", "B", &Some("A".into())), ("Boot", false));
}

#[test]
fn crash_headlines_are_cut_at_eighty_bytes() {
    let short = "java.lang.IllegalStateException: boom";
    assert_eq!(crash_summary(short), short);
    let long = "x".repeat(100);
    assert_eq!(crash_summary(&long), format!("{}…", "x".repeat(80)));
}

#[test]
fn crash_context_and_copy_text() {
    let mut pane = Pane::new(1, None, 100);
    pane.ingest_entries(vec![
        log("App", LogLevel::Info, "before"),
        log("AndroidRuntime", LogLevel::Error, "FATAL EXCEPTION: main"),
        log("AndroidRuntime", LogLevel::Error, "java.lang.RuntimeException: boom"),
    ]);
    let report = CrashReport {
        crash_type: CrashType::JavaException,
        headline: "java.lang.RuntimeException: boom".into(),
        stack_trace: Vec::new(),
        first_index: 1,
        last_index: 9,
        timestamp: "03-10 06:30:45.000".into(),
        pid: Some(1),
        tag: "AndroidRuntime".into(),
    };
    pane.crash_line_indices.clear();
    pane.crash_line_indices.insert(2);
    let context = pane.crash_context(&report);
    assert_eq!(context.len(), 2);
    assert_eq!(context[0].0, "03-10 06:30:45.000 E AndroidRuntime: FATAL EXCEPTION: main");
    assert!(!context[0].1);
    assert!(context[1].1);
    assert_eq!(
        pane.crash_report_text(&report),
        "[Java Exception] 03-10 06:30:45.000\njava.lang.RuntimeException: boom\n03-10 06:30:45.000 E AndroidRuntime: FATAL EXCEPTION: main\n03-10 06:30:45.000 E AndroidRuntime: java.lang.RuntimeException: boom\n"
    );
    assert_eq!(crash_line(&log("T", LogLevel::Warn, "m")), "03-10 06:30:45.000 W T: m");
    pane.crash_nav_index = Some(0);
    pane.clear_crashes();
    assert!(pane.crash_reports.is_empty() && pane.crash_line_indices.is_empty());
    assert_eq!(pane.crash_nav_index, None);
}

#[test]
fn watches_are_added_from_the_trimmed_input() {
    let mut pane = Pane::new(1, None, 100);
    pane.watch_input = "   ".into();
    assert!(!pane.add_watch_from_input());
    assert!(pane.watches.is_empty());
    pane.watch_input = "  OOM ".into();
    assert!(pane.add_watch_from_input());
    assert_eq!(pane.watches[0].name, "OOM");
    assert_eq!(pane.watches[0].pattern, "OOM");
    assert!(pane.watch_input.is_empty());
    assert_eq!(watch_label(&pane.watches[0]), "OOM (0)");
}
