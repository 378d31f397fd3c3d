use catpane::capture::{CaptureScope, ConnectedDevice, DevicePlatform};
use catpane::network_condition::{
    CustomNetworkParams, LossPercent, NetworkConditionPreset, NetworkConditionSpec,
};
use catpane::tools::{
    McpToolError,
    capture_warnings, clear_location_check, clear_network_check, create_watch_in,
    location_target, network_target, package_pid_result, pid_filter_request,
    select_connected_device, LocationTarget, NetworkTarget, PidFilterRequest, idle_remaining_ms, idle_shutdown_due,
    idle_timeout_for_platform, idle_timeout_reason, ios_device_idle_timeout_secs, parse_log_level,
    plan_capture_start, prepare_watch, resolve_capture_id, resolve_capture_scope, tool_named,
    watch_retention_capacity, CaptureRef, CaptureSelector, CreateWatchArgs, LogBufferStatus,
    SetNetworkConditionArgs, StartCaptureArgs, ToolName, WatchRetentionStatus,
    DEFAULT_IOS_DEVICE_IDLE_TIMEOUT_SECS,
};
use catpane::log_entry::LogLevel;
use catpane::watch::WatchSet;

fn connected_device(id: &str) -> ConnectedDevice {
    ConnectedDevice {
        id: id.to_owned(),
        name: format!("Device {id}"),
        description: "Test device".to_owned(),
        platform: DevicePlatform::Android,
    }
}

fn ios_device(id: &str, platform: DevicePlatform) -> ConnectedDevice {
    ConnectedDevice {
        id: id.to_owned(),
        name: format!("iOS {id}"),
        description: "Test iOS device".to_owned(),
        platform,
    }
}

fn watch_args(capacity: Option<usize>) -> CreateWatchArgs {
    CreateWatchArgs {
        capture_id: Some("capture-watch".into()),
        device: None,
        name: "important-lines".into(),
        pattern: "timeout".into(),
        pattern_type: "text".into(),
        tag: None,
        min_level: None,
        retained_capacity: capacity,
    }
}

fn capture_ref(id: &str, device: &str, running: bool) -> CaptureRef {
    CaptureRef {
        capture_id: id.into(),
        device: device.into(),
        running,
    }
}

#[test]
fn resolve_capture_scope_rejects_android_ios_only_fields() {
    let device = connected_device("android-1");
    let args = StartCaptureArgs {
        process: Some("MyApp".into()),
        ..StartCaptureArgs::default()
    };

    let err = resolve_capture_scope(&device, &args).unwrap_err();
    assert_eq!(err.code, "invalid_params");
    assert!(err.message.contains("only supported for iOS captures"));
}

#[test]
fn resolve_capture_scope_defaults_clean_for_ios() {
    let device = ios_device("ios-clean", DevicePlatform::IosDevice);
    let scope = resolve_capture_scope(&device, &StartCaptureArgs::default()).unwrap();

    assert!(scope.clean);
}

#[test]
fn resolve_capture_scope_rejects_android_clean_flag() {
    let device = connected_device("android-clean");
    let args = StartCaptureArgs {
        clean: Some(true),
        ..StartCaptureArgs::default()
    };

    let err = resolve_capture_scope(&device, &args).unwrap_err();
    assert_eq!(err.code, "invalid_params");
    assert!(err.message.contains("only supported for iOS captures"));
}

#[test]
fn resolve_capture_scope_rejects_device_predicate() {
    let device = ios_device("ios-1", DevicePlatform::IosDevice);
    let args = StartCaptureArgs {
        predicate: Some("process == \"MyApp\"".into()),
        ..StartCaptureArgs::default()
    };

    let err = resolve_capture_scope(&device, &args).unwrap_err();
    assert_eq!(err.code, "invalid_params");
    assert!(err.message.contains("simulator"));
}

#[test]
fn capture_warnings_flag_hot_unscoped_ios_capture() {
    let warnings = capture_warnings(
        DevicePlatform::IosDevice,
        &CaptureScope::default(),
        &LogBufferStatus {
            capacity: 100,
            len: 95,
            dropped: 3,
            next_seq: 10,
            oldest_seq: Some(1),
            newest_seq: Some(9),
        },
        &WatchRetentionStatus {
            watch_count: 0,
            retained_count: 0,
            retained_capacity: 0,
            retained_dropped: 0,
        },
        true,
        Some(DEFAULT_IOS_DEVICE_IDLE_TIMEOUT_SECS),
        0,
        "900s",
    );

    assert!(warnings
        .iter()
        .any(|warning| warning.contains("unscoped iOS capture")));
    assert!(warnings
        .iter()
        .any(|warning| warning.contains("No watches are active")));
}

#[test]
fn create_watch_uses_requested_retained_capacity() {
    let prepared = prepare_watch(watch_args(Some(777)), 256).unwrap();
    let mut watches = WatchSet::new();
    let response = create_watch_in(&mut watches, prepared, "w1".into(), 0, &[]);

    assert_eq!(response.retained_capacity, 777);
    let retained_capacity = watches
        .get(&response.watch_id)
        .unwrap()
        .summary()
        .retained_capacity;
    assert_eq!(retained_capacity, 777);
}

#[test]
fn create_watch_rejects_zero_retained_capacity() {
    let err = match prepare_watch(watch_args(Some(0)), 256) {
        Ok(_) => panic!("zero capacity accepted"),
        Err(e) => e,
    };
    assert_eq!(err.code, "invalid_params");
    assert!(err.message.contains("retainedCapacity"));
}

#[test]
fn set_network_condition_args_resolve_spec_preset() {
    let args = SetNetworkConditionArgs {
        device: None,
        preset: Some(NetworkConditionPreset::ThreeG),
        custom: None,
    };
    let spec = args.resolve_spec().unwrap();
    assert!(matches!(
        spec,
        NetworkConditionSpec::Preset { preset } if preset == NetworkConditionPreset::ThreeG
    ));
}

#[test]
fn set_network_condition_args_resolve_spec_custom() {
    let args = SetNetworkConditionArgs {
        device: None,
        preset: None,
        custom: Some(CustomNetworkParams {
            delay_ms: Some(100),
            ..Default::default()
        }),
    };
    let spec = args.resolve_spec().unwrap();
    assert!(matches!(spec, NetworkConditionSpec::Custom { .. }));
}

#[test]
fn set_network_condition_args_rejects_both() {
    let args = SetNetworkConditionArgs {
        device: None,
        preset: Some(NetworkConditionPreset::Edge),
        custom: Some(CustomNetworkParams::default()),
    };
    let err = args.resolve_spec().unwrap_err();
    assert!(err.contains("not both"));
}

#[test]
fn set_network_condition_args_rejects_neither() {
    let args = SetNetworkConditionArgs {
        device: None,
        preset: None,
        custom: None,
    };
    let err = args.resolve_spec().unwrap_err();
    assert!(err.contains("required"));
}

#[test]
fn set_network_condition_args_rejects_invalid_custom() {
    let args = SetNetworkConditionArgs {
        device: None,
        preset: None,
        custom: Some(CustomNetworkParams {
            loss_pct: Some(LossPercent {
                in_range: false,
                finite: true,
                text: "150".to_string(),
            }),
            ..Default::default()
        }),
    };
    let err = args.resolve_spec().unwrap_err();
    assert!(err.contains("loss_pct"));
}

#[test]
fn android_capture_has_no_idle_timeout() {
    assert_eq!(idle_timeout_for_platform(DevicePlatform::Android, Some(900)), None);
    assert_eq!(idle_timeout_for_platform(DevicePlatform::IosSimulator, Some(900)), None);
    assert_eq!(idle_timeout_for_platform(DevicePlatform::IosDevice, Some(900)), Some(900));
}

#[test]
fn stale_ios_capture_is_due_for_idle_shutdown() {
    assert!(idle_shutdown_due(false, true, Some(1), 5_000, 1_000));
    assert!(!idle_shutdown_due(false, true, Some(10), 5_000, 1_000));
    assert!(!idle_shutdown_due(true, true, Some(1), 5_000, 1_000));
    assert!(!idle_shutdown_due(false, false, Some(1), 5_000, 1_000));
    assert!(!idle_shutdown_due(false, true, None, 5_000, 1_000));
    assert_eq!(idle_remaining_ms(10, 4_000), 6_000);
    assert_eq!(idle_remaining_ms(1, 4_000), 0);
    assert_eq!(idle_timeout_reason(900), "stopped after idle timeout (900s)");
}

#[test]
fn idle_timeout_setting_reads_seconds() {
    assert_eq!(ios_device_idle_timeout_secs(None), Some(DEFAULT_IOS_DEVICE_IDLE_TIMEOUT_SECS));
    assert_eq!(ios_device_idle_timeout_secs(Some(" 30 ")), Some(30));
    assert_eq!(ios_device_idle_timeout_secs(Some("0")), None);
    assert_eq!(
        ios_device_idle_timeout_secs(Some("soon")),
        Some(DEFAULT_IOS_DEVICE_IDLE_TIMEOUT_SECS)
    );
}

#[test]
fn watch_retention_follows_a_tenth_of_the_buffer() {
    assert_eq!(watch_retention_capacity(100), 256);
    assert_eq!(watch_retention_capacity(10_000), 1_000);
    assert_eq!(watch_retention_capacity(1_000_000), 5_000);
}

#[test]
fn capture_ids_resolve_from_selectors() {
    let captures = vec![
        capture_ref("c1", "dev-a", true),
        capture_ref("c2", "dev-b", false),
    ];
    let by_device = CaptureSelector::new(None, Some("dev-b".into()));
    assert_eq!(resolve_capture_id(&captures, &by_device).unwrap(), "c2");
    let by_id = CaptureSelector::new(Some(" c1 ".into()), None);
    assert_eq!(resolve_capture_id(&captures, &by_id).unwrap(), "c1");
    let mismatch = CaptureSelector::new(Some("c1".into()), Some("dev-b".into()));
    assert_eq!(resolve_capture_id(&captures, &mismatch).unwrap_err().code, "invalid_params");
    let missing = CaptureSelector::new(Some("zz".into()), None);
    assert_eq!(resolve_capture_id(&captures, &missing).unwrap_err().code, "not_found");
    let neither = CaptureSelector::new(None, None);
    assert_eq!(resolve_capture_id(&captures, &neither).unwrap_err().code, "invalid_params");
    let single = vec![capture_ref("only", "dev", true)];
    assert_eq!(resolve_capture_id(&single, &neither).unwrap(), "only");
}

#[test]
fn prepare_start_requires_restart_for_running_capture() {
    let captures = vec![capture_ref("c1", "android-1", true)];
    let device = connected_device("android-1");
    let err = plan_capture_start(&captures, &device, false).unwrap_err();
    assert_eq!(err.code, "conflict");
    let plan = plan_capture_start(&captures, &device, true).unwrap();
    assert_eq!(plan.replaced_capture_id.as_deref(), Some("c1"));
    assert!(plan.shutdown);
    let fresh = plan_capture_start(&[], &device, false).unwrap();
    assert!(fresh.replaced_capture_id.is_none());
    assert!(!fresh.shutdown);
}

#[test]
fn tool_names_round_trip() {
    let tool = tool_named("get_logs").unwrap();
    assert!(matches!(tool, ToolName::GetLogs));
    assert_eq!(tool.name(), "get_logs");
    let err = tool_named("nope").unwrap_err();
    assert_eq!(err.code, "unknown_tool");
    assert_eq!(err.message, "unknown MCP tool: nope");
}

#[test]
fn log_levels_parse_by_name() {
    assert_eq!(parse_log_level("warn").unwrap(), LogLevel::Warn);
    assert_eq!(parse_log_level(" E ").unwrap(), LogLevel::Error);
    assert_eq!(parse_log_level("loud").unwrap_err().code, "invalid_params");
}

#[test]
fn connected_device_is_chosen_by_id_or_when_alone() {
    let devices = vec![connected_device("a"), connected_device("b")];
    assert_eq!(select_connected_device(&devices, Some(" b ".into())).unwrap().id, "b");
    let missing = select_connected_device(&devices, Some("zz".into())).unwrap_err();
    assert_eq!(missing.code, "not_found");
    assert_eq!(missing.message, "device `zz` is not connected; available devices: a, b");
    let ambiguous = select_connected_device(&devices, None).unwrap_err();
    assert_eq!(ambiguous.code, "invalid_params");
    assert_eq!(
        ambiguous.message,
        "multiple capture targets are available; specify device explicitly (a, b)"
    );
    let single = vec![connected_device("only")];
    assert_eq!(select_connected_device(&single, None).unwrap().id, "only");
    let none = select_connected_device(&[], None).unwrap_err();
    assert_eq!(none.code, "not_found");
    let gone = select_connected_device(&[], Some("x".into())).unwrap_err();
    assert!(gone.message.contains("no Android devices or iOS capture targets"));
}

#[test]
fn pid_filters_are_android_only_and_exclusive() {
    assert_eq!(
        pid_filter_request(DevicePlatform::Android, Some(42), None).unwrap(),
        PidFilterRequest::Pid(42)
    );
    assert_eq!(
        pid_filter_request(DevicePlatform::Android, None, Some("com.x".into())).unwrap(),
        PidFilterRequest::Package("com.x".into())
    );
    assert_eq!(
        pid_filter_request(DevicePlatform::Android, None, None).unwrap(),
        PidFilterRequest::NoFilter
    );
    assert_eq!(
        pid_filter_request(DevicePlatform::Android, Some(0), None).unwrap_err().message,
        "pid must be greater than zero"
    );
    assert_eq!(
        pid_filter_request(DevicePlatform::Android, Some(1), Some("p".into()))
            .unwrap_err()
            .message,
        "specify either pid or package, but not both"
    );
    assert_eq!(
        pid_filter_request(DevicePlatform::IosSimulator, Some(1), None).unwrap_err().message,
        "pid and package filters are only supported for Android captures"
    );
    assert_eq!(package_pid_result("dev", "com.x", Some(9)).unwrap(), Some(9));
    assert_eq!(
        package_pid_result("dev", "com.x", None).unwrap_err().message,
        "could not resolve a PID for package `com.x` on device `dev`"
    );
}

#[test]
fn location_and_network_requests_go_to_supported_targets() {
    let emulator = connected_device("emulator-5554");
    let phone = connected_device("R58M");
    let sim = ios_device("SIM-1", DevicePlatform::IosSimulator);
    let iphone = ios_device("IPHONE", DevicePlatform::IosDevice);
    assert_eq!(location_target(&emulator).unwrap(), LocationTarget::Emulator);
    assert_eq!(location_target(&sim).unwrap(), LocationTarget::Simulator);
    assert!(location_target(&phone).unwrap_err().message.contains("mock location app"));
    assert!(location_target(&iphone).unwrap_err().message.contains("'IPHONE'"));
    assert!(clear_location_check(DevicePlatform::IosSimulator).is_ok());
    assert!(clear_location_check(DevicePlatform::Android).is_err());

    let preset = NetworkConditionSpec::Preset { preset: NetworkConditionPreset::Edge };
    assert!(matches!(
        network_target(&sim, preset.clone(), true).unwrap(),
        NetworkTarget::SimulatorPreset(NetworkConditionPreset::Edge)
    ));
    assert!(network_target(&sim, preset.clone(), false)
        .unwrap_err()
        .message
        .starts_with("iOS Simulator network throttling is disabled"));
    assert!(matches!(
        network_target(&phone, preset.clone(), false).unwrap(),
        NetworkTarget::Android(_)
    ));
    assert!(network_target(&iphone, preset, true).is_err());
    let custom = NetworkConditionSpec::Custom { params: CustomNetworkParams::default() };
    assert!(network_target(&sim, custom, true).unwrap_err().message.contains("Pass a 'preset'"));
    assert!(clear_network_check(DevicePlatform::Android, false).is_ok());
    assert!(clear_network_check(DevicePlatform::IosDevice, true).is_err());
}

#[test]
fn error_payload_escapes_json_strings() {
    let err = McpToolError::new("bad_input", "a\u{1}\"b\\c\nd\té".to_string());
    assert_eq!(
        err.payload_text(),
        "{\"error\":{\"code\":\"bad_input\",\"message\":\"a\\u0001\\\"b\\\\c\\nd\\té\"}}"
    );
}
