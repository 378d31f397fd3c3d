use catpane::protocol::{
    negotiated_protocol_version, supported_protocol_versions, uses_supported_protocol_version,
    CallToolResult, ProtocolVersionErrorData, ToolContent, MCP_PROTOCOL_VERSION,
    MCP_PROTOCOL_VERSION_2024_11_05, MCP_PROTOCOL_VERSION_2025_11_25,
};

#[test]
fn negotiate_supported_protocol_versions() {
    for version in [MCP_PROTOCOL_VERSION_2025_11_25, MCP_PROTOCOL_VERSION_2024_11_05] {
        assert_eq!(negotiated_protocol_version(version), Some(version));
        assert!(uses_supported_protocol_version(version));
    }

    assert_eq!(negotiated_protocol_version("legacy"), None);
    assert!(!uses_supported_protocol_version("legacy"));
}

#[test]
fn supported_versions_are_newest_first() {
    assert_eq!(
        supported_protocol_versions(),
        vec![MCP_PROTOCOL_VERSION_2025_11_25, MCP_PROTOCOL_VERSION_2024_11_05]
    );
    assert_eq!(MCP_PROTOCOL_VERSION, MCP_PROTOCOL_VERSION_2025_11_25);
}

#[test]
fn version_error_data_lists_supported_versions() {
    let data = ProtocolVersionErrorData::current("legacy".into());
    assert_eq!(data.requested, "legacy");
    assert_eq!(
        data.supported,
        vec![
            MCP_PROTOCOL_VERSION_2025_11_25.to_string(),
            MCP_PROTOCOL_VERSION_2024_11_05.to_string()
        ]
    );
}

#[test]
fn text_results_carry_one_text_item() {
    let ok = CallToolResult::text("hi".into());
    assert!(!ok.is_error);
    assert_eq!(ok.content.len(), 1);
    assert!(matches!(&ok.content[0], ToolContent::Text { text } if text == "hi"));
    let err = CallToolResult::error_text("bad".into());
    assert!(err.is_error);
}
