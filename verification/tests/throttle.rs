use catpane::network_condition::{NetworkConditionPreset, NetworkConditionSpec};
use catpane::throttle::{
    helper_installed, interpret_response, locate_helper_apk, spec_from_preset,
    status_from_response, AdbForwardTransport, ControlResponse, HelperApkLocation,
    HelperErrorCode, HelperStatus, LanExclusionMode, connect_failure, forward_args, forward_failure, forward_remove_args, request_frame, ForwardRegistry,
};

const APPLY_PREFIX: &str = "Applied network condition";
const CLEAR_PREFIX: &str = "Cleared network throttling";

#[test]
fn apply_with_transport_returns_helper_message() {
    let resp = ControlResponse::ok_with(HelperStatus {
        running: true,
        vpn_permission_granted: true,
        current_spec: Some(spec_from_preset(NetworkConditionPreset::ThreeG)),
        lan_exclusion: LanExclusionMode::AdbHostOnly,
        helper_version: Some("0.1.0".to_string()),
        message: Some("Throttling at 3G".to_string()),
    });
    let result = interpret_response(resp, "device", APPLY_PREFIX).unwrap();
    assert_eq!(result, "Throttling at 3G");
}

#[test]
fn apply_with_transport_surfaces_permission_error_actionably() {
    let resp = ControlResponse::err(
        HelperErrorCode::PermissionRequired,
        "VPN permission required".to_string(),
    );
    let err = interpret_response(resp, "device", APPLY_PREFIX).unwrap_err();
    assert!(err.contains("VPN permission required"));
    assert!(err.contains("Grant VPN permission"));
}

#[test]
fn apply_with_transport_surfaces_other_vpn_active() {
    let resp = ControlResponse::err(
        HelperErrorCode::AlreadyAnotherVpnActive,
        "Another VPN is connected".to_string(),
    );
    let err = interpret_response(resp, "device", APPLY_PREFIX).unwrap_err();
    assert!(err.contains("another VPN") || err.contains("Another VPN"));
}

#[test]
fn clear_with_transport_synthesizes_message_when_helper_silent() {
    let resp = ControlResponse::ok_with(HelperStatus::default());
    let result = interpret_response(resp, "abc-serial", CLEAR_PREFIX).unwrap();
    assert!(result.contains("abc-serial"));
    assert!(result.starts_with("Cleared"));
    assert_eq!(result, "Cleared network throttling on abc-serial");
}

#[test]
fn other_helper_errors_get_no_advice() {
    let resp = ControlResponse::err(HelperErrorCode::Internal, "boom".to_string());
    assert_eq!(interpret_response(resp, "d", APPLY_PREFIX).unwrap_err(), "boom");
    let bare = ControlResponse {
        ok: false,
        status: None,
        error: None,
        code: None,
    };
    assert_eq!(
        interpret_response(bare, "d", APPLY_PREFIX).unwrap_err(),
        "Helper returned an unspecified error"
    );
}

#[test]
fn status_requests_read_the_helper_state() {
    let bare = ControlResponse {
        ok: true,
        status: None,
        error: None,
        code: None,
    };
    let status = status_from_response(bare).unwrap();
    assert!(!status.running);
    assert_eq!(status.lan_exclusion, LanExclusionMode::AdbHostOnly);
    let failed = ControlResponse {
        ok: false,
        status: None,
        error: None,
        code: None,
    };
    assert_eq!(status_from_response(failed).unwrap_err(), "Unknown helper error");
    assert_eq!(LanExclusionMode::default(), LanExclusionMode::AdbHostOnly);
}

#[test]
fn locate_helper_apk_env_override() {
    let candidates = vec![
        ("/tmp/custom.apk".to_string(), true),
        ("/opt/catpane/catpane-helper.apk".to_string(), true),
    ];
    assert_eq!(
        locate_helper_apk(&candidates),
        HelperApkLocation::Path("/tmp/custom.apk".to_string())
    );
}

#[test]
fn locate_helper_apk_missing_when_nothing_present() {
    let candidates = vec![
        ("/tmp/custom.apk".to_string(), false),
        ("/opt/catpane/catpane-helper.apk".to_string(), false),
    ];
    assert_eq!(locate_helper_apk(&candidates), HelperApkLocation::Missing);
    let sidecar = vec![
        ("/tmp/custom.apk".to_string(), false),
        ("/opt/catpane/catpane-helper.apk".to_string(), true),
    ];
    assert_eq!(
        locate_helper_apk(&sidecar),
        HelperApkLocation::Path("/opt/catpane/catpane-helper.apk".to_string())
    );
}

#[test]
fn helper_install_check_reads_pm_output() {
    assert!(helper_installed(true, "package:/data/app/base.apk\n"));
    assert!(!helper_installed(false, "package:/data/app/base.apk\n"));
    assert!(!helper_installed(true, ""));
    assert_eq!(AdbForwardTransport::new("serial-1".into()).serial, "serial-1");
    assert!(matches!(
        spec_from_preset(NetworkConditionPreset::Edge),
        NetworkConditionSpec::Preset { preset: NetworkConditionPreset::Edge }
    ));
}

#[test]
fn forwards_are_remembered_per_device() {
    let mut forwards = ForwardRegistry::new();
    assert_eq!(forwards.port_of("R58"), None);
    forwards.record("R58", 50100);
    forwards.record("R59", 50101);
    assert_eq!(forwards.port_of("R58"), Some(50100));
    forwards.record("R58", 50200);
    assert_eq!(forwards.port_of("R58"), Some(50200));
    assert_eq!(forwards.release("R58"), Some(50200));
    assert_eq!(forwards.port_of("R58"), None);
    assert_eq!(forwards.release("R58"), None);
    assert_eq!(forwards.port_of("R59"), Some(50101));
}

#[test]
fn forward_commands_and_messages() {
    assert_eq!(
        forward_args("R58", 50100),
        vec!["-s", "R58", "forward", "tcp:50100", "tcp:47821"]
    );
    assert_eq!(
        forward_remove_args("R58", 50100),
        vec!["-s", "R58", "forward", "--remove", "tcp:50100"]
    );
    assert_eq!(
        forward_failure(b" error: device offline \n"),
        "adb forward failed: error: device offline"
    );
    assert_eq!(
        connect_failure("R58", 50100, "refused"),
        "Failed to connect to CatPane helper on R58:50100 (is it installed and running?): refused"
    );
    assert_eq!(request_frame("{\"op\":\"status\"}"), "{\"op\":\"status\"}\n");
}
