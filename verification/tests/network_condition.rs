use catpane::network_condition::{
    ios_network_throttling_gate_message, throttling_flag_enabled, CustomNetworkParams, LossPercent,
    NetworkConditionPreset, NetworkConditionSpec,
};

fn loss(value: f32) -> LossPercent {
    LossPercent {
        in_range: (0.0..=100.0).contains(&value),
        finite: value.is_finite(),
        text: value.to_string(),
    }
}

#[test]
fn parses_supported_slugs_and_aliases() {
    assert_eq!(
        NetworkConditionPreset::parse("unthrottled").unwrap(),
        NetworkConditionPreset::Unthrottled
    );
    assert_eq!(NetworkConditionPreset::parse("3g").unwrap(), NetworkConditionPreset::ThreeG);
    assert_eq!(
        NetworkConditionPreset::parse("airplane-mode").unwrap(),
        NetworkConditionPreset::Offline
    );
}

#[test]
fn rejects_unknown_presets() {
    let err = NetworkConditionPreset::parse("satellite").unwrap_err();
    assert!(err.contains("Unsupported network condition"));
    assert!(err.contains("unthrottled"));
    assert!(err.contains("offline"));
}

#[test]
fn custom_params_validates_bounds() {
    let mut params = CustomNetworkParams {
        delay_ms: Some(100),
        jitter_ms: Some(20),
        loss_pct: Some(loss(5.0)),
        downlink_kbps: Some(1_000),
        uplink_kbps: Some(500),
    };
    assert!(params.validate().is_ok());

    params.loss_pct = Some(loss(150.0));
    assert!(params.validate().unwrap_err().contains("loss_pct"));

    params.loss_pct = Some(loss(f32::NAN));
    assert!(params.validate().is_err());

    params.loss_pct = Some(loss(0.0));
    params.delay_ms = Some(catpane::network_condition::MAX_DELAY_MS + 1);
    assert!(params.validate().unwrap_err().contains("delay_ms"));
}

#[test]
fn custom_params_is_empty_when_all_none() {
    assert!(CustomNetworkParams::default().is_empty());
    let p = CustomNetworkParams { delay_ms: Some(1), ..Default::default() };
    assert!(!p.is_empty());
}

#[test]
fn spec_is_unthrottled() {
    assert!(NetworkConditionSpec::preset(NetworkConditionPreset::Unthrottled).is_unthrottled());
    assert!(!NetworkConditionSpec::preset(NetworkConditionPreset::Edge).is_unthrottled());
    assert!(NetworkConditionSpec::custom(CustomNetworkParams::default()).is_unthrottled());
    assert!(!NetworkConditionSpec::custom(CustomNetworkParams { delay_ms: Some(10), ..Default::default() })
        .is_unthrottled());
}

#[test]
fn maps_android_profiles() {
    let edge = NetworkConditionPreset::Edge.android_profile();
    assert_eq!(edge.speed, "edge");
    assert_eq!(edge.delay, "edge");
    assert!(edge.wifi_enabled);
    assert!(edge.data_enabled);

    let offline = NetworkConditionPreset::Offline.android_profile();
    assert!(!offline.wifi_enabled);
    assert!(!offline.data_enabled);
}

#[test]
fn validation_messages_name_bound_and_value() {
    let p = CustomNetworkParams { jitter_ms: Some(70_000), ..Default::default() };
    assert_eq!(p.validate().unwrap_err(), "jitter_ms must be <= 60000 (got 70000)");
    let p = CustomNetworkParams { uplink_kbps: Some(10_000_001), ..Default::default() };
    assert_eq!(p.validate().unwrap_err(), "uplink_kbps must be <= 10000000 (got 10000001)");
    let p = CustomNetworkParams { loss_pct: Some(loss(150.0)), ..Default::default() };
    assert_eq!(p.validate().unwrap_err(), "loss_pct must be in 0.0..=100.0 (got 150)");
}

#[test]
fn preset_labels_and_slugs_round_trip() {
    for preset in NetworkConditionPreset::all() {
        assert_eq!(NetworkConditionPreset::parse(preset.slug()).unwrap(), preset);
    }
    assert_eq!(NetworkConditionSpec::preset(NetworkConditionPreset::ThreeG).label(), "3G");
    assert_eq!(NetworkConditionSpec::custom(CustomNetworkParams::default()).label(), "Custom");
}

#[test]
fn throttling_flag_reads_truthy_values() {
    assert!(throttling_flag_enabled(Some(" TRUE ")));
    assert!(throttling_flag_enabled(Some("1")));
    assert!(!throttling_flag_enabled(Some("0")));
    assert!(!throttling_flag_enabled(None));
    assert!(ios_network_throttling_gate_message().contains("CATPANE_ENABLE_IOS_NETWORK_THROTTLING=1"));
}
