use catpane::adb::QrPairEvent;
use catpane::qr_pairing::{
    command_failure_text, connect_succeeded, connecting_status, format_host_port, pair_succeeded,
    paired_connect_not_run, paired_then_connected, paired_without_connect, pairing_status,
    QrPairSession, QrPairStatus,
};

#[test]
fn host_port_joins_with_a_colon() {
    assert_eq!(format_host_port("192.168.1.5", 37123), "192.168.1.5:37123");
}

#[test]
fn pairing_service_is_tried_once_per_address() {
    let mut session = QrPairSession::new("studio-abc".into());
    assert_eq!(
        session.on_pairing_service("studio-abc._adb-tls-pairing._tcp.local.", Some("10.0.0.2".into()), 4000),
        Some("10.0.0.2:4000".to_string())
    );
    assert_eq!(
        session.on_pairing_service("studio-abc._adb-tls-pairing._tcp.local.", Some("10.0.0.2".into()), 4000),
        None
    );
    assert_eq!(
        session.on_pairing_service("other._adb-tls-pairing._tcp.local.", Some("10.0.0.3".into()), 4000),
        None
    );
    assert_eq!(
        session.on_pairing_service("studio-abc._adb-tls-pairing._tcp.local.", None, 4000),
        None
    );
}

#[test]
fn connect_target_uses_the_latest_port_for_the_address() {
    let mut session = QrPairSession::new("x".into());
    assert_eq!(session.connect_target("10.0.0.2"), None);
    session.on_connect_service("10.0.0.2".into(), 5555);
    session.on_connect_service("10.0.0.9".into(), 6000);
    session.on_connect_service("10.0.0.2".into(), 41000);
    session.on_connect_service("10.0.0.2".into(), 41000);
    assert_eq!(session.connect_ports.len(), 3);
    assert_eq!(session.connect_target("10.0.0.2").as_deref(), Some("10.0.0.2:41000"));
}

#[test]
fn pair_and_connect_output_is_read_ignoring_case() {
    assert!(pair_succeeded("Successfully paired to 10.0.0.2:4000"));
    assert!(!pair_succeeded("Failed: wrong code"));
    assert!(connect_succeeded("CONNECTED to 10.0.0.2:5555"));
    assert!(!connect_succeeded("failed to connect"));
    assert_eq!(command_failure_text(true, "  oops \n", "exit 1".into()), "oops");
    assert_eq!(command_failure_text(false, "oops", "exit 1".into()), "exit 1");
}

#[test]
fn pairing_messages_describe_each_outcome() {
    assert_eq!(
        pairing_status("10.0.0.2:4000"),
        QrPairEvent::Status("Found the QR pairing service at 10.0.0.2:4000; attempting to pair…".into())
    );
    assert_eq!(
        connecting_status("10.0.0.2:5555"),
        QrPairEvent::Status("Paired successfully; connecting to 10.0.0.2:5555…".into())
    );
    assert_eq!(
        paired_then_connected("a:1", "a:2", true, "connected to a:2", "x".into()),
        QrPairEvent::Finished(Ok("Paired & connected to a:2".into()))
    );
    assert_eq!(
        paired_then_connected("a:1", "a:2", false, "", "exit 1".into()),
        QrPairEvent::Finished(Ok(
            "Paired with a:1. Automatic connect to a:2 failed: exit 1. Use the Connect section with the device's connect port if needed."
                .into()
        ))
    );
    assert_eq!(
        paired_connect_not_run("a:1", "a:2", "no adb"),
        QrPairEvent::Finished(Ok(
            "Paired with a:1. Automatic connect to a:2 failed: no adb. Use the Connect section if needed.".into()
        ))
    );
    assert!(matches!(paired_without_connect("a:1"), QrPairEvent::Finished(Ok(m)) if m.starts_with("Paired with a:1.")));
}

#[test]
fn dialog_status_follows_events() {
    assert!(QrPairStatus::WaitingScan.is_active());
    let (status, refresh) = QrPairStatus::after_event(QrPairEvent::Status("working".into()));
    assert_eq!(status, QrPairStatus::Pairing("working".into()));
    assert!(!refresh);
    assert!(status.is_active());
    let (status, refresh) = QrPairStatus::after_event(QrPairEvent::Finished(Ok("done".into())));
    assert_eq!(status, QrPairStatus::Success("done".into()));
    assert!(refresh);
    assert!(!status.is_active());
    let (status, refresh) = QrPairStatus::after_event(QrPairEvent::Finished(Err("bad".into())));
    assert_eq!(status, QrPairStatus::Failed("bad".into()));
    assert!(!refresh);
}
