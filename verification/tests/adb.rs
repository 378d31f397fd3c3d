use catpane::adb::{
    connect_outcome, deduplicate_devices, disconnect_outcome, ip_prefix_of, is_emulator, is_tcp_device,
    pair_outcome, parse_adb_devices_output, parse_installed_packages_output, parse_pidof_output,
    parse_running_packages_output, pick_route_ip, qr_pairing_string, random_id, random_id_from_seed,
    restart_message, route_src_candidates, service_matches_expected_name, tcpip_enable_result, AdbDevice,
};
use catpane::adb::{
    packages_after_fallback, pid_lookup_outcome, PmFailure,
    android_network_route, applied_network_message, cleared_network_message,
    emulator_network_commands, AndroidNetworkRoute, EmulatorCommandKind,
};
use catpane::adb::{generate_qr_image, qr_image};
use catpane::network_condition::{CustomNetworkParams, NetworkConditionPreset, NetworkConditionSpec};

#[test]
fn parses_and_deduplicates_adb_devices() {
    let devices = parse_adb_devices_output(
        br#"List of devices attached
usb-serial device product:oriole model:Pixel_6 device:oriole transport_id:1
adb-123._adb-tls-connect._tcp device product:oriole model:Pixel_6 device:oriole transport_id:2
192.168.1.25:5555 device product:oriole model:Pixel_6 device:oriole transport_id:3
"#,
    );

    assert_eq!(devices.len(), 1);
    assert_eq!(devices[0].serial, "192.168.1.25:5555");
}

#[test]
fn parses_running_package_names() {
    let packages = parse_running_packages_output(
        b"NAME\n/system/bin/sh\ncom.example.one\n[com.android.shell]\ncom.example.two\n",
    );

    assert_eq!(packages, vec!["com.example.one", "com.example.two"]);
}

#[test]
fn parses_first_pid_from_pidof_output() {
    assert_eq!(parse_pidof_output(b"1234 5678\n"), Some(1234));
}

#[test]
fn extracts_ip_from_route_output() {
    let output = "192.168.0.0/24 dev wlan0 proto kernel scope link src 192.168.0.15";
    let candidates = route_src_candidates(output);
    assert_eq!(candidates, vec![Some("192.168.0.15".to_string())]);
    assert_eq!(pick_route_ip(&candidates, &vec![true]).as_deref(), Some("192.168.0.15"));
}

#[test]
fn route_src_at_line_end_stops_the_search() {
    let output = "default via 10.0.0.1 src\n10.0.0.0/8 dev wlan0 src 10.0.0.7";
    let candidates = route_src_candidates(output);
    assert_eq!(candidates, vec![None]);
    assert_eq!(pick_route_ip(&candidates, &vec![true]), None);
}

#[test]
fn route_skips_addresses_that_are_not_ips() {
    let output = "a src nonsense\nb src 10.0.0.7";
    let candidates = route_src_candidates(output);
    assert_eq!(
        candidates,
        vec![Some("nonsense".to_string()), Some("10.0.0.7".to_string())]
    );
    assert_eq!(pick_route_ip(&candidates, &vec![false, true]).as_deref(), Some("10.0.0.7"));
}

#[test]
fn matches_expected_mdns_service_name() {
    assert!(service_matches_expected_name(
        "ADB_WIFI_abcde._adb-tls-pairing._tcp.local.",
        "ADB_WIFI_abcde"
    ));
    assert!(!service_matches_expected_name(
        "Pixel_8._adb-tls-pairing._tcp.local.",
        "ADB_WIFI_abcde"
    ));
}

#[test]
fn detects_android_emulators_by_serial() {
    assert!(is_emulator("emulator-5554"));
    assert!(!is_emulator("R58M12345AB"));
}

#[test]
fn offline_profile_disables_transport_flags() {
    let profile = NetworkConditionPreset::Offline.android_profile();
    assert!(!profile.data_enabled);
    assert!(!profile.wifi_enabled);
}

#[test]
fn tcp_serials_contain_a_colon() {
    assert!(is_tcp_device("192.168.1.25:5555"));
    assert!(!is_tcp_device("R58M12345AB"));
}

#[test]
fn deduplication_keeps_distinct_devices() {
    let devices = deduplicate_devices(vec![
        AdbDevice { serial: "A".to_string(), description: "one".to_string() },
        AdbDevice { serial: "B".to_string(), description: "two".to_string() },
    ]);
    assert_eq!(devices.len(), 2);
}

#[test]
fn installed_packages_are_read_from_pm_output() {
    let packages = parse_installed_packages_output(b"package:com.b\npackage:com.a\n");
    assert!(packages.contains(&"com.a".to_string()));
    assert!(packages.contains(&"com.b".to_string()));
}

#[test]
fn pairing_string_has_wifi_qr_shape() {
    assert_eq!(qr_pairing_string("svc", "pw"), "WIFI:T:ADB;S:svc;P:pw;;");
}

#[test]
fn ip_prefix_keeps_text_up_to_the_last_dot() {
    assert_eq!(ip_prefix_of("192.168.1.7"), "192.168.1.");
    assert_eq!(ip_prefix_of("localhost"), "");
}

#[test]
fn random_ids_are_letters_of_the_requested_length() {
    let id = random_id(10);
    assert_eq!(id.chars().count(), 10);
    assert!(id.chars().all(|c| c.is_ascii_alphabetic()));
    let a = random_id_from_seed(42, 8);
    let b = random_id_from_seed(42, 8);
    assert_eq!(a, b);
    assert_eq!(a.len(), 8);
}

#[test]
fn random_id_follows_the_xorshift_sequence() {
    let mut state: u128 = 1;
    let mut expected = String::new();
    for _ in 0..4 {
        state ^= state << 13;
        state ^= state >> 7;
        state ^= state << 17;
        let alphabet = b"ABCDEFGHIJKLMNOPQRSTUVWXYZabcdefghijklmnopqrstuvwxyz";
        expected.push(alphabet[(state as usize) % 52] as char);
    }
    assert_eq!(random_id_from_seed(1, 4), expected);
}

#[test]
fn pairing_outcome_reports_success_output() {
    let r = pair_outcome("adb pair h:1 123", true, b"Successfully paired\n", b"", "x".to_string());
    assert_eq!(r, Ok("Successfully paired".to_string()));
    let r = pair_outcome("adb pair h:1 123", true, b"", b"", "x".to_string());
    assert_eq!(
        r,
        Err("`adb pair h:1 123` completed while pairing an Android device over Wi-Fi but did not report success".to_string())
    );
    let r = pair_outcome("adb pair h:1 123", false, b"nope", b"", "exit 1".to_string());
    assert_eq!(r, Err("exit 1".to_string()));
}

#[test]
fn connect_outcome_requires_a_reported_connection() {
    let r = connect_outcome("adb connect h:1", true, b"connected to h:1\n", b"", "x".to_string());
    assert_eq!(r, Ok("connected to h:1".to_string()));
    let r = connect_outcome("adb connect h:1", true, b"failed to connect", b"", "x".to_string());
    assert_eq!(
        r,
        Err("`adb connect h:1` completed while connecting to an Android device over Wi-Fi but did not report a connection: failed to connect".to_string())
    );
}

#[test]
fn disconnect_and_restart_messages() {
    assert_eq!(disconnect_outcome(false, b"disconnected h:1", "bad".to_string()), Ok("disconnected h:1".to_string()));
    assert_eq!(disconnect_outcome(false, b"no such device", "bad".to_string()), Err("bad".to_string()));
    assert_eq!(restart_message(b"  \n"), "ADB server restarted");
    assert_eq!(restart_message(b"daemon started\n"), "daemon started");
}

#[test]
fn tcpip_result_describes_the_connection() {
    let r = tcpip_enable_result("dev", 5555, b"", Some("10.0.0.2:5555".to_string()), Ok("ok".to_string()));
    assert!(r.connected);
    assert_eq!(r.message, "Enabled TCP/IP on dev and connected to 10.0.0.2:5555.");
    let r = tcpip_enable_result("dev", 5555, b"", None, Err(String::new()));
    assert!(!r.connected);
    assert_eq!(
        r.message,
        "Enabled TCP/IP on dev. Connect manually using the device Wi-Fi IP and port 5555."
    );
}

#[test]
fn emulator_network_changes_run_console_then_shell_commands() {
    let cmds = emulator_network_commands("emulator-5554", NetworkConditionPreset::Offline).unwrap();
    assert_eq!(cmds.len(), 4);
    assert_eq!(cmds[0].args, vec!["network", "speed", "full"]);
    assert_eq!(cmds[1].args, vec!["network", "delay", "none"]);
    assert_eq!(cmds[2].args, vec!["gsm", "data", "off"]);
    assert_eq!(cmds[3].kind, EmulatorCommandKind::Shell);
    assert_eq!(cmds[3].args, vec!["svc", "wifi", "disable"]);
    let edge = emulator_network_commands("emulator-5554", NetworkConditionPreset::Edge).unwrap();
    assert_eq!(edge[0].args, vec!["network", "speed", "edge"]);
    assert_eq!(edge[2].args, vec!["gsm", "data", "on"]);
    assert_eq!(
        emulator_network_commands("R58M", NetworkConditionPreset::Edge).unwrap_err(),
        "Network throttling via adb is only supported on emulators, not physical device 'R58M'"
    );
    assert_eq!(
        applied_network_message(NetworkConditionPreset::ThreeG, "emulator-5554"),
        "Applied 3G network condition on emulator-5554"
    );
    assert_eq!(cleared_network_message("x"), "Cleared network throttling on x");
}

#[test]
fn android_network_conditions_route_by_device_kind() {
    let preset = NetworkConditionSpec::Preset { preset: NetworkConditionPreset::Edge };
    assert!(matches!(
        android_network_route("emulator-5554", preset.clone()).unwrap(),
        AndroidNetworkRoute::Emulator(NetworkConditionPreset::Edge)
    ));
    assert!(matches!(
        android_network_route("R58M", preset).unwrap(),
        AndroidNetworkRoute::Helper(_)
    ));
    let custom = NetworkConditionSpec::Custom { params: CustomNetworkParams::default() };
    assert!(android_network_route("emulator-5554", custom.clone())
        .unwrap_err()
        .starts_with("Custom network shaping parameters are not supported on Android emulators."));
    assert!(matches!(
        android_network_route("R58M", custom).unwrap(),
        AndroidNetworkRoute::Helper(_)
    ));
}

#[test]
fn package_fallback_reports_both_failures() {
    assert_eq!(
        packages_after_fallback("dev", None, Ok(vec!["a".to_string()])).unwrap(),
        vec!["a".to_string()]
    );
    assert_eq!(
        packages_after_fallback("dev", Some("ps broke".into()), Ok(vec![])).unwrap_err(),
        "No Android packages were found for `dev`; running-process lookup failed after: ps broke"
    );
    assert_eq!(
        packages_after_fallback("dev", Some("ps broke".into()), Err(PmFailure::Status("pm failed".into())))
            .unwrap_err(),
        "pm failed; running-process lookup failed earlier with: ps broke"
    );
    assert_eq!(
        packages_after_fallback("dev", Some("ps broke".into()), Err(PmFailure::Run("no adb".into())))
            .unwrap_err(),
        "no adb; fallback from running-process lookup failed after: ps broke"
    );
    assert_eq!(
        packages_after_fallback("dev", None, Err(PmFailure::Run("no adb".into()))).unwrap_err(),
        "no adb"
    );
}

#[test]
fn pid_lookup_treats_silent_failure_as_no_process() {
    assert_eq!(pid_lookup_outcome(true, b"321\n", b"", "x".into()).unwrap(), Some(321));
    assert_eq!(pid_lookup_outcome(true, b"", b"", "x".into()).unwrap(), None);
    assert_eq!(pid_lookup_outcome(false, b" \n", b"", "x".into()).unwrap(), None);
    assert_eq!(pid_lookup_outcome(false, b"", b"boom", "exit 1".into()).unwrap_err(), "exit 1");
}

#[test]
fn qr_image_scales_modules_inside_a_quiet_zone() {
    // A 2x2 code: dark, light / light, dark; 3 pixels per module.
    let modules = vec![true, false, false, true];
    let image = qr_image(&modules, 2, 3).expect("small image fits");
    assert_eq!(image.size, 12);
    assert_eq!(image.pixels.len(), 144);
    let at = |x: usize, y: usize| image.pixels[y * 12 + x];
    for i in 0..12 {
        for q in [0, 1, 2, 9, 10, 11] {
            assert!(!at(i, q));
            assert!(!at(q, i));
        }
    }
    for d in 0..3 {
        for e in 0..3 {
            assert!(at(3 + d, 3 + e));
            assert!(!at(6 + d, 3 + e));
            assert!(!at(3 + d, 6 + e));
            assert!(at(6 + d, 6 + e));
        }
    }
}

#[test]
fn qr_image_of_zero_scale_is_empty_and_oversized_is_refused() {
    let modules = vec![true];
    let empty = qr_image(&modules, 1, 0).expect("empty image");
    assert_eq!(empty.size, 0);
    assert!(empty.pixels.is_empty());
    assert!(qr_image(&modules, 1, usize::MAX / 2).is_none());
}

#[test]
fn pairing_qr_code_is_drawn_with_quiet_zone() {
    let text = qr_pairing_string("ADB_WIFI_abcde", "fghij");
    let image = generate_qr_image(&text, 4).expect("pairing text fits in a QR code");
    // A QR code is 21 to 177 modules wide; the quiet zone adds two.
    assert_eq!(image.size % 4, 0);
    let modules = image.size / 4 - 2;
    assert!(modules >= 21 && modules <= 177);
    assert_eq!(image.pixels.len(), image.size * image.size);
    for i in 0..image.size {
        for q in 0..4 {
            assert!(!image.pixels[q * image.size + i]);
            assert!(!image.pixels[i * image.size + q]);
        }
    }
    // The top-left finder pattern starts with a dark module.
    assert!(image.pixels[4 * image.size + 4]);
    assert!(image.pixels.iter().any(|p| !*p));
}
