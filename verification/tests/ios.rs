use catpane::ios::{
    boot_output, booted_message, check_booted, controller_message, controller_outcome,
    idevicesyslog_available, idevicesyslog_binary, ios_device_from_record,
    ios_devices_from_records, simulator_location_cleared, simulator_network_applied,
    simulator_network_apply_args, simulator_network_clear_args, simulator_network_cleared,
    simulators_from_records, DevicectlDevice, IosSimulator, SimctlDevice, IDEVICESYSLOG,
};
use catpane::network_condition::NetworkConditionPreset;

fn devicectl(
    pairing: &str,
    transport: &str,
    name: &str,
    os: &str,
    marketing: &str,
    reality: &str,
    udid: &str,
) -> DevicectlDevice {
    DevicectlDevice {
        pairing_state: pairing.into(),
        transport_type: transport.into(),
        name: name.into(),
        os_version_number: os.into(),
        marketing_name: marketing.into(),
        platform: "iOS".into(),
        reality: reality.into(),
        udid: udid.into(),
    }
}

fn simctl(runtime: &str, udid: &str, name: &str, state: &str, available: bool) -> SimctlDevice {
    SimctlDevice {
        runtime: runtime.into(),
        udid: udid.into(),
        name: name.into(),
        state: state.into(),
        is_available: available,
    }
}

#[test]
fn parses_only_paired_wired_ios_devices() {
    let records = vec![
        devicectl(
            "paired",
            "wired",
            "Yaniu",
            "26.3.1",
            "iPhone 15 Pro Max",
            "physical",
            "00008130-000618A91E08001C",
        ),
        devicectl("paired", "wireless", "Wireless iPhone", "", "iPhone 16 Pro", "physical", "wireless"),
        devicectl("paired", "wired", "iPhone Simulator", "", "iPhone 16", "simulated", "sim"),
    ];
    let devices = ios_devices_from_records(&records);

    assert_eq!(devices.len(), 1);
    assert_eq!(devices[0].udid, "00008130-000618A91E08001C");
    assert_eq!(devices[0].name, "Yaniu");
    assert_eq!(devices[0].description, "iPhone 15 Pro Max · iOS 26.3.1 · USB");
}

#[test]
fn parses_available_simulators_from_simctl_json() {
    let records = vec![
        simctl(
            "com.apple.CoreSimulator.SimRuntime.iOS-18-0",
            "booted-1",
            "iPhone 16",
            "Booted",
            true,
        ),
        simctl(
            "com.apple.CoreSimulator.SimRuntime.iOS-18-0",
            "ignored-1",
            "Unavailable iPhone",
            "Shutdown",
            false,
        ),
    ];
    let simulators = simulators_from_records(records);

    assert_eq!(simulators.len(), 1);
    assert_eq!(simulators[0].udid, "booted-1");
    assert_eq!(simulators[0].runtime, "com.apple.CoreSimulator.SimRuntime.iOS-18-0");
}

#[test]
fn simulators_come_out_sorted_by_name() {
    let records = vec![
        simctl("rt", "u2", "iPhone 16", "Shutdown", true),
        simctl("rt", "u1", "iPad", "Booted", true),
    ];
    let simulators = simulators_from_records(records);
    assert_eq!(simulators[0].name, "iPad");
    assert_eq!(simulators[1].name, "iPhone 16");
}

#[test]
fn device_without_name_uses_model_and_skips_repeating_it() {
    let record = devicectl("Paired", "WIRED", "", "", "iPhone 15", "Physical", " abc ");
    let device = ios_device_from_record(&record).unwrap();
    assert_eq!(device.udid, "abc");
    assert_eq!(device.name, "iPhone 15");
    assert_eq!(device.description, "USB");
    let no_udid = devicectl("paired", "wired", "x", "", "", "physical", "  ");
    assert!(ios_device_from_record(&no_udid).is_none());
}

#[test]
fn idevicesyslog_is_found_in_known_locations_first() {
    let candidates = vec![
        ("/opt/homebrew/bin/idevicesyslog".to_string(), false),
        ("/usr/local/bin/idevicesyslog".to_string(), true),
    ];
    assert_eq!(idevicesyslog_binary(&candidates), "/usr/local/bin/idevicesyslog");
    assert_eq!(idevicesyslog_binary(&vec![]), IDEVICESYSLOG);
    assert!(idevicesyslog_available("/usr/local/bin/idevicesyslog", false));
    assert!(!idevicesyslog_available(IDEVICESYSLOG, false));
    assert!(idevicesyslog_available(IDEVICESYSLOG, true));
}

fn sim(udid: &str, name: &str, state: &str) -> IosSimulator {
    IosSimulator {
        udid: udid.into(),
        name: name.into(),
        runtime: "iOS 17.4".into(),
        state: state.into(),
    }
}

#[test]
fn network_controller_reports_output_error_or_fallback() {
    assert_eq!(controller_message(b"  done \n", b"warn", "fallback"), "done");
    assert_eq!(controller_message(b"  ", b" warn\n", "fallback"), "warn");
    assert_eq!(controller_message(b"", b"", "fallback"), "fallback");
    assert_eq!(
        controller_outcome(true, b"", b"", "exit 1".into(), "Applied"),
        Ok("Applied".to_string())
    );
    assert_eq!(
        controller_outcome(false, b"out", b" bad ", "exit 1".into(), "Applied"),
        Err("bad".to_string())
    );
    assert_eq!(
        controller_outcome(false, b"out", b"", "exit 1".into(), "Applied"),
        Err("exit 1".to_string())
    );
}

#[test]
fn simulator_network_arguments_and_messages() {
    assert_eq!(
        simulator_network_apply_args("U1", NetworkConditionPreset::ThreeG),
        vec!["apply", "--udid", "U1", "--preset", "3g"]
    );
    assert_eq!(simulator_network_clear_args("U1"), vec!["clear", "--udid", "U1"]);
    assert_eq!(
        simulator_network_applied(NetworkConditionPreset::Edge, "U1"),
        "Applied Edge network condition on U1"
    );
    assert_eq!(simulator_network_cleared("U1"), "Cleared network throttling on U1");
    assert_eq!(simulator_location_cleared("U1"), "Location cleared on U1");
}

#[test]
fn boot_checks_the_simulator_ended_booted() {
    assert_eq!(boot_output(b" a ", b""), "a");
    assert_eq!(boot_output(b"", b" b "), "b");
    assert_eq!(boot_output(b"a", b"b"), "a\nb");
    let sims = vec![sim("U1", "iPhone 15", "Booted"), sim("U2", "iPad", "Shutdown")];
    assert_eq!(check_booted(&sims, "U1", ""), Ok("iPhone 15".to_string()));
    assert_eq!(
        check_booted(&sims, "U2", "waiting"),
        Err("Simulator iPad did not end in the Booted state (current state: Shutdown).\n\nsimctl output:\nwaiting".to_string())
    );
    assert_eq!(
        check_booted(&sims, "U2", ""),
        Err("Simulator iPad did not end in the Booted state (current state: Shutdown).".to_string())
    );
    assert_eq!(
        check_booted(&sims, "U9", ""),
        Err("Simulator U9 was not found after booting".to_string())
    );
    assert_eq!(booted_message("iPhone 15"), "Booted iPhone 15 and opened Simulator.app");
}
