use catpane::adb::AdbDevice;
use catpane::capture::{
    booted_simulators, build_android_capture_args, build_ios_device_capture_args,
    build_ios_simulator_capture_args, default_clean_capture, merge_connected_devices,
    quote_predicate_string, CaptureScope, ConnectedDevice, DevicePlatform,
};
use catpane::ios::{IosDevice, IosSimulator};

fn scope() -> CaptureScope {
    CaptureScope::default()
}

#[test]
fn simulator_process_scope_uses_process_flag() {
    let args = build_ios_simulator_capture_args(
        "SIM-1",
        &CaptureScope { process: Some("MyApp".into()), ..scope() },
    );

    assert_eq!(
        args,
        vec![
            "simctl", "spawn", "SIM-1", "log", "stream", "--style", "ndjson", "--level", "debug",
            "--process", "MyApp",
        ]
    );
}

#[test]
fn simulator_text_and_process_scope_builds_predicate() {
    let args = build_ios_simulator_capture_args(
        "SIM-1",
        &CaptureScope { process: Some("MyApp".into()), text: Some("timeout".into()), ..scope() },
    );

    assert_eq!(
        args,
        vec![
            "simctl",
            "spawn",
            "SIM-1",
            "log",
            "stream",
            "--style",
            "ndjson",
            "--level",
            "debug",
            "--predicate",
            "process == \"MyApp\" AND composedMessage CONTAINS[c] \"timeout\"",
        ]
    );
}

#[test]
fn simulator_clean_scope_builds_exclusion_predicate() {
    let args = build_ios_simulator_capture_args("SIM-1", &CaptureScope { clean: true, ..scope() });

    assert_eq!(
        args[..9],
        ["simctl", "spawn", "SIM-1", "log", "stream", "--style", "ndjson", "--level", "debug"]
    );
    assert_eq!(args[9], "--predicate");
    assert!(args[10].contains("NOT (("));
    assert!(args[10].contains("process == \"SpringBoard\""));
    assert!(args[10].contains("subsystem BEGINSWITH \"com.apple.\""));
}

#[test]
fn simulator_user_predicate_is_combined_with_generated_filters() {
    let args = build_ios_simulator_capture_args(
        "SIM-1",
        &CaptureScope {
            process: Some("MyApp".into()),
            predicate: Some("subsystem == \"com.example.app\"".into()),
            ..scope()
        },
    );

    assert_eq!(
        args.last().map(String::as_str),
        Some("process == \"MyApp\" AND (subsystem == \"com.example.app\")")
    );
}

#[test]
fn device_scope_uses_idevicesyslog_filters() {
    let args = build_ios_device_capture_args(
        "DEVICE-1",
        &CaptureScope {
            process: Some("MyApp".into()),
            text: Some("timeout".into()),
            predicate: Some("ignored".into()),
            quiet: true,
            ..scope()
        },
    );

    assert_eq!(
        args,
        vec!["-u", "DEVICE-1", "--quiet", "--process", "MyApp", "--match", "timeout"]
    );
}

#[test]
fn device_clean_scope_enables_quiet() {
    let args = build_ios_device_capture_args("DEVICE-1", &CaptureScope { clean: true, ..scope() });

    assert_eq!(args, vec!["-u", "DEVICE-1", "--quiet"]);
}

#[test]
fn predicate_escaping_handles_quotes_and_backslashes() {
    assert_eq!(quote_predicate_string("say \"hi\" \\ now"), "\"say \\\"hi\\\" \\\\ now\"");
}

#[test]
fn android_capture_args_carry_backlog_and_pid() {
    let args = build_android_capture_args("emulator-5554", 2000, Some(42));
    assert_eq!(
        args,
        vec!["-s", "emulator-5554", "logcat", "-T", "2000", "-v", "threadtime", "--pid=42"]
    );
    let unfiltered = build_android_capture_args("emulator-5554", 10, None);
    assert_eq!(unfiltered.len(), 7);
}

#[test]
fn clean_capture_defaults_follow_platform() {
    assert!(!default_clean_capture(DevicePlatform::Android));
    assert!(default_clean_capture(DevicePlatform::IosDevice));
    assert!(default_clean_capture(DevicePlatform::IosSimulator));
}

#[test]
fn connected_device_display_and_capabilities() {
    let d = ConnectedDevice {
        id: "10.0.0.2:5555".into(),
        name: "Pixel".into(),
        description: "Pixel 8".into(),
        platform: DevicePlatform::Android,
    };
    assert_eq!(d.display_name(), "Pixel (Android)");
    assert!(d.supports_disconnect());
    assert!(d.supports_package_filter());
    assert!(!d.supports_ios_filters());
}

#[test]
fn capture_targets_are_merged_and_ordered() {
    let adb = vec![AdbDevice {
        serial: "emulator-5554".into(),
        description: "product:sdk model:Pixel_7 device:emu".into(),
    }];
    let ios = vec![IosDevice {
        udid: "U1".into(),
        name: "Phone".into(),
        description: "USB".into(),
    }];
    let sims = vec![IosSimulator {
        udid: "S1".into(),
        name: "iPhone 16".into(),
        runtime: "iOS-18".into(),
        state: "Booted".into(),
    }];
    let all = merge_connected_devices(adb, ios, sims);
    assert_eq!(all.len(), 3);
    assert_eq!(all[0].platform, DevicePlatform::Android);
    assert_eq!(all[0].name, "Pixel 7");
    assert_eq!(all[1].platform, DevicePlatform::IosDevice);
    assert_eq!(all[2].platform, DevicePlatform::IosSimulator);
    assert_eq!(all[2].description, "iOS-18");
}

#[test]
fn only_booted_simulators_are_capture_targets() {
    let sims = vec![
        IosSimulator { udid: "a".into(), name: "A".into(), runtime: "r".into(), state: "Booted".into() },
        IosSimulator { udid: "b".into(), name: "B".into(), runtime: "r".into(), state: "Shutdown".into() },
    ];
    let booted = booted_simulators(&sims);
    assert_eq!(booted.len(), 1);
    assert_eq!(booted[0].udid, "a");
}
