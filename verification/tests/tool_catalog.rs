use catpane::protocol::{JsonSchema, ListToolsResult, SchemaType, Tool};
use catpane::tool_catalog::{
    empty_object_schema, get_logs_tool, object_schema, set_network_condition_tool,
    string_property, tool_definitions,
};
use catpane::tools::tool_named;

#[test]
fn catalog_lists_every_tool_once_in_order() {
    let tools = tool_definitions();
    let names: Vec<&str> = tools.iter().map(|t| t.name.as_str()).collect();
    assert_eq!(
        names,
        vec![
            "list_devices",
            "get_logs",
            "clear_logs",
            "start_capture",
            "stop_capture",
            "get_status",
            "list_packages",
            "boot_simulator",
            "connect_device",
            "disconnect_device",
            "pair_device",
            "restart_adb",
            "set_location",
            "clear_location",
            "set_network_condition",
            "clear_network_condition",
            "get_crashes",
            "create_watch",
            "list_watches",
            "get_watch_matches",
            "delete_watch",
        ]
    );
}

#[test]
fn every_listed_tool_is_dispatchable_by_its_name() {
    for tool in tool_definitions() {
        let found = tool_named(&tool.name).expect("listed tool must dispatch");
        assert_eq!(found.name(), tool.name);
    }
}

#[test]
fn required_arguments_are_declared_properties() {
    for tool in tool_definitions() {
        let schema = &tool.input_schema;
        assert!(schema.closed);
        for required in &schema.required {
            assert!(
                schema.properties.iter().any(|(name, _)| name == required),
                "{} requires undeclared {}",
                tool.name,
                required
            );
        }
    }
}

#[test]
fn get_logs_limit_is_bounded_and_documents_default() {
    let tool = get_logs_tool();
    let limit = tool
        .input_schema
        .properties
        .iter()
        .find(|(name, _)| name == "limit")
        .map(|(_, p)| p.clone())
        .unwrap();
    assert_eq!(limit.kind, SchemaType::Integer);
    assert_eq!(limit.minimum, Some(0));
    assert_eq!(limit.maximum, Some(1000));
    assert_eq!(
        limit.description,
        "Maximum number of entries to return. Defaults to 100."
    );
    let order = tool
        .input_schema
        .properties
        .iter()
        .find(|(name, _)| name == "order")
        .map(|(_, p)| p.clone())
        .unwrap();
    assert_eq!(order.allowed, vec!["asc".to_string(), "desc".to_string()]);
    assert!(tool.input_schema.required.is_empty());
    assert_eq!(tool.input_schema.properties.len(), 12);
}

#[test]
fn network_condition_custom_argument_is_a_closed_record() {
    let tool = set_network_condition_tool();
    let custom = tool
        .input_schema
        .properties
        .iter()
        .find(|(name, _)| name == "custom")
        .map(|(_, p)| p.clone())
        .unwrap();
    assert_eq!(custom.kind, SchemaType::Object);
    assert!(custom.closed);
    let fields: Vec<(&str, SchemaType, Option<u64>)> = custom
        .fields
        .iter()
        .map(|(name, f)| (name.as_str(), f.kind, f.maximum))
        .collect();
    assert_eq!(
        fields,
        vec![
            ("delay_ms", SchemaType::Integer, Some(60000)),
            ("jitter_ms", SchemaType::Integer, Some(60000)),
            ("loss_pct", SchemaType::Number, Some(100)),
            ("downlink_kbps", SchemaType::Integer, Some(10000000)),
            ("uplink_kbps", SchemaType::Integer, Some(10000000)),
        ]
    );
}

#[test]
fn object_schema_keeps_properties_and_required_names() {
    let schema = object_schema(
        vec![("a", string_property("first")), ("b", string_property("second"))],
        &["b"],
    );
    assert!(schema.closed);
    assert_eq!(schema.required, vec!["b".to_string()]);
    assert_eq!(schema.properties[0].0, "a");
    assert_eq!(schema.properties[1].1.description, "second");
    let empty = empty_object_schema();
    assert!(empty.closed && empty.properties.is_empty() && empty.required.is_empty());
}

#[test]
fn json_schema_builders_follow_required_rules() {
    let open = JsonSchema::object(vec![("x".to_string(), string_property("x"))]);
    assert!(!open.closed);
    let unchanged = open.clone().with_required(Vec::new());
    assert_eq!(unchanged, open);
    let required = open.with_required(vec!["x".to_string()]);
    assert_eq!(required.required, vec!["x".to_string()]);
    assert!(JsonSchema::empty_object().properties.is_empty());
}

#[test]
fn tool_and_list_builders_set_optional_parts() {
    let tool = Tool::new("t".to_string(), JsonSchema::empty_object());
    assert_eq!(tool.description, None);
    let tool = tool.with_description("does t".to_string());
    assert_eq!(tool.description.as_deref(), Some("does t"));
    let page = ListToolsResult::new(vec![tool]);
    assert_eq!(page.next_cursor, None);
    let page = page.with_next_cursor("next".to_string());
    assert_eq!(page.next_cursor.as_deref(), Some("next"));
    assert_eq!(SchemaType::Str.json_name(), "string");
    assert_eq!(SchemaType::Number.json_name(), "number");
}
