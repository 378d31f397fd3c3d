//! The catalog of tools the server offers: each tool's name, what it does,
//! and the schema of its arguments.
use vstd::prelude::*;
use crate::protocol::{FieldModel, FieldSchema, JsonSchema, PropertyModel, PropertySchema, SchemaModel, SchemaType, Tool, ToolModel, fields_view, properties_view, strings_view};
use crate::text::{decimal, push_decimal};
use crate::tools::{DEFAULT_GET_LOGS_LIMIT, MAX_GET_LOGS_LIMIT, TOOL_BOOT_SIMULATOR, TOOL_CLEAR_LOCATION, TOOL_CLEAR_LOGS, TOOL_CLEAR_NETWORK_CONDITION, TOOL_CONNECT_DEVICE, TOOL_CREATE_WATCH, TOOL_DELETE_WATCH, TOOL_DISCONNECT_DEVICE, TOOL_GET_CRASHES, TOOL_GET_LOGS, TOOL_GET_STATUS, TOOL_GET_WATCH_MATCHES, TOOL_LIST_DEVICES, TOOL_LIST_PACKAGES, TOOL_LIST_WATCHES, TOOL_PAIR_DEVICE, TOOL_RESTART_ADB, TOOL_SET_LOCATION, TOOL_SET_NETWORK_CONDITION, TOOL_START_CAPTURE, TOOL_STOP_CAPTURE, ToolName, law_tool_names_round_trip, tool_called, tool_name_spec};

verus! {

// ---------------------------------------------------------------------------
// Building blocks
// ---------------------------------------------------------------------------
/// An argument of a type, described, with no further constraint.
pub open spec fn plain_arg(kind: SchemaType, description: Seq<char>) -> PropertyModel {
    PropertyModel {
        kind,
        description,
        allowed: Seq::empty(),
        minimum: None,
        maximum: None,
        fields: Seq::empty(),
        closed: false,
    }
}

pub open spec fn text_arg(description: Seq<char>) -> PropertyModel {
    plain_arg(SchemaType::Str, description)
}

pub open spec fn integer_arg(description: Seq<char>) -> PropertyModel {
    plain_arg(SchemaType::Integer, description)
}

pub open spec fn number_arg(description: Seq<char>) -> PropertyModel {
    plain_arg(SchemaType::Number, description)
}

pub open spec fn flag_arg(description: Seq<char>) -> PropertyModel {
    plain_arg(SchemaType::Boolean, description)
}

/// A string argument that takes one of `values`.
pub open spec fn choice_arg(values: Seq<Seq<char>>, description: Seq<char>) -> PropertyModel {
    PropertyModel { allowed: values, ..text_arg(description) }
}

/// An integer argument of at least `minimum` (and at most `maximum`).
pub open spec fn bounded_arg(minimum: u64, maximum: Option<u64>, description: Seq<char>) -> PropertyModel {
    PropertyModel { minimum: Some(minimum), maximum, ..integer_arg(description) }
}

/// The argument schema of a tool: these properties, these required, no
/// others accepted.
pub open spec fn closed_object(
    properties: Seq<(Seq<char>, PropertyModel)>,
    required: Seq<Seq<char>>,
) -> SchemaModel {
    SchemaModel { properties, required, closed: true }
}

pub open spec fn described(name: Seq<char>, description: Seq<char>, schema: SchemaModel) -> ToolModel {
    ToolModel { name, description: Some(description), input_schema: schema }
}

pub open spec fn strs_view(v: Seq<&str>) -> Seq<Seq<char>> {
    v.map_values(|s: &str| s@)
}

pub open spec fn named_view(v: Seq<(&str, PropertySchema)>) -> Seq<(Seq<char>, PropertyModel)> {
    v.map_values(|e: (&str, PropertySchema)| (e.0@, e.1@))
}

/// Whether `name` is one of these properties.
pub open spec fn declares(properties: Seq<(Seq<char>, PropertyModel)>, name: Seq<char>) -> bool {
    exists|j: int| 0 <= j < properties.len() && (#[trigger] properties[j]).0 == name
}

/// Whether every required name is one of the schema's properties.
pub open spec fn requires_declared(s: SchemaModel) -> bool {
    forall|i: int| 0 <= i < s.required.len() ==> #[trigger] declares(s.properties, s.required[i])
}

fn owned_strings(values: &[&str]) -> (r: Vec<String>)
    ensures
        strings_view(r@) == strs_view(values@),
{
    let mut r: Vec<String> = Vec::new();
    let mut i: usize = 0;
    while i < values.len()
        invariant
            i <= values@.len(),
            strings_view(r@) == strs_view(values@.subrange(0, i as int)),
        decreases values@.len() - i,
    {
        let v: &str = values[i];
        let owned = v.to_string();
        let ghost prev = r@;
        r.push(owned);
        assert(values@.subrange(0, i + 1) =~= values@.subrange(0, i as int).push(v));
        assert(strings_view(r@) =~= strings_view(prev).push(v@));
        i += 1;
    }
    assert(values@.subrange(0, i as int) =~= values@);
    r
}

fn plain_property(kind: SchemaType, description: &str) -> (p: PropertySchema)
    ensures
        p@ == plain_arg(kind, description@),
{
    let p = PropertySchema {
        kind,
        description: description.to_string(),
        allowed: Vec::new(),
        minimum: None,
        maximum: None,
        fields: Vec::new(),
        closed: false,
    };
    assert(p@.allowed =~= Seq::empty());
    assert(p@.fields =~= Seq::empty());
    p
}

/// A string argument.
pub fn string_property(description: &str) -> (p: PropertySchema)
    ensures
        p@ == text_arg(description@),
{
    plain_property(SchemaType::Str, description)
}

/// An integer argument.
pub fn integer_property(description: &str) -> (p: PropertySchema)
    ensures
        p@ == integer_arg(description@),
{
    plain_property(SchemaType::Integer, description)
}

/// A number argument.
pub fn float_property(description: &str) -> (p: PropertySchema)
    ensures
        p@ == number_arg(description@),
{
    plain_property(SchemaType::Number, description)
}

/// A boolean argument.
pub fn boolean_property(description: &str) -> (p: PropertySchema)
    ensures
        p@ == flag_arg(description@),
{
    plain_property(SchemaType::Boolean, description)
}

/// A string argument that takes one of `values`.
pub fn enum_property(values: Vec<&str>, description: &str) -> (p: PropertySchema)
    ensures
        p@ == choice_arg(strs_view(values@), description@),
{
    let mut p = plain_property(SchemaType::Str, description);
    p.allowed = owned_strings(values.as_slice());
    p
}

/// An integer argument of at least `minimum` (and at most `maximum`).
pub fn bounded_integer_property(minimum: u64, maximum: Option<u64>, description: &str) -> (p: PropertySchema)
    ensures
        p@ == bounded_arg(minimum, maximum, description@),
{
    let mut p = plain_property(SchemaType::Integer, description);
    p.minimum = Some(minimum);
    p.maximum = maximum;
    p
}

/// An object schema that accepts no arguments.
pub fn empty_object_schema() -> (s: JsonSchema)
    ensures
        s@ == closed_object(Seq::empty(), Seq::empty()),
{
    let s = JsonSchema { properties: Vec::new(), required: Vec::new(), closed: true };
    assert(s@.properties =~= Seq::empty());
    assert(s@.required =~= Seq::empty());
    s
}

/// An object schema of these named properties, with these required and no
/// others accepted.
pub fn object_schema(properties: Vec<(&'static str, PropertySchema)>, required: &[&str]) -> (s: JsonSchema)
    ensures
        s@ == closed_object(named_view(properties@), strs_view(required@)),
{
    let ghost all = named_view(properties@);
    let mut rest = properties;
    let mut out: Vec<(String, PropertySchema)> = Vec::new();
    while rest.len() > 0
        invariant
            properties_view(out@) + named_view(rest@) == all,
        decreases rest@.len(),
    {
        let ghost before = rest@;
        let (name, schema) = rest.remove(0);
        assert(named_view(before) =~= seq![(name@, schema@)] + named_view(rest@));
        out.push((name.to_string(), schema));
        assert(properties_view(out@) =~= properties_view(out@.drop_last()).push((name@, schema@)));
    }
    assert(named_view(rest@) =~= Seq::empty());
    assert(properties_view(out@) =~= all);
    JsonSchema { properties: out, required: owned_strings(required), closed: true }
}

// ---------------------------------------------------------------------------
// The tools
// ---------------------------------------------------------------------------
pub open spec fn capture_id_arg(what: Seq<char>) -> (Seq<char>, PropertyModel) {
    ("captureId"@, text_arg(what))
}

pub open spec fn device_selector_arg() -> (Seq<char>, PropertyModel) {
    ("device"@, text_arg("Resolve a capture by connected device identifier."@))
}

pub open spec fn list_devices_model() -> ToolModel {
    described(
        TOOL_LIST_DEVICES@,
        "List connected Android devices plus booted iOS simulators and wired iOS devices that CatPane can capture logs from."@,
        closed_object(Seq::empty(), Seq::empty()),
    )
}

pub fn list_devices_tool() -> (t: Tool)
    ensures
        t@ == list_devices_model(),
{
    Tool::new(TOOL_LIST_DEVICES.to_string(), empty_object_schema()).with_description(
        "List connected Android devices plus booted iOS simulators and wired iOS devices that CatPane can capture logs from.".to_string(),
    )
}

pub open spec fn get_logs_model() -> ToolModel {
    described(
        TOOL_GET_LOGS@,
        "Read buffered capture entries with cursor pagination and CatPane filters. For noisy long-running captures, use create_watch/get_watch_matches to pin high-signal lines beyond main-buffer eviction."@,
        closed_object(
            seq![
                capture_id_arg("Specific capture ID to query."@),
                device_selector_arg(),
                ("cursor"@, integer_arg("Exclusive sequence cursor. Desc pages older entries with seq < cursor; asc pages newer entries with seq > cursor."@)),
                ("order"@, choice_arg(seq!["asc"@, "desc"@], "Page direction. Defaults to desc so the newest logs are returned first."@)),
                ("limit"@, bounded_arg(0, Some(MAX_GET_LOGS_LIMIT as u64), "Maximum number of entries to return. Defaults to "@ + decimal(DEFAULT_GET_LOGS_LIMIT as nat) + "."@)),
                ("minLevel"@, text_arg("Minimum log level filter. Accepts verbose/debug/info/warn/error/fatal or the single-letter V/D/I/W/E/F aliases."@)),
                ("tagQuery"@, text_arg("CatPane tag filter syntax, for example `tag:MyTag tag-:Noise tag~:^App` or `MyTag:V *:E`."@)),
                ("text"@, text_arg("Substring search over tag and message text."@)),
                ("process"@, text_arg("Filter by process name substring (iOS captures only)."@)),
                ("subsystem"@, text_arg("Filter by subsystem substring (iOS captures only; physical devices may not provide this field)."@)),
                ("category"@, text_arg("Filter by category substring (iOS captures only; physical devices may not provide this field)."@)),
                ("since"@, text_arg("Only return entries at or after this threadtime timestamp: MM-DD HH:MM:SS.mmm."@)),
            ],
            Seq::empty(),
        ),
    )
}

pub fn get_logs_tool() -> (t: Tool)
    ensures
        t@ == get_logs_model(),
{
    let mut limit_description = "Maximum number of entries to return. Defaults to ".to_string();
    push_decimal(&mut limit_description, DEFAULT_GET_LOGS_LIMIT as u64);
    limit_description.append(".");
    let order = enum_property(vec!["asc", "desc"], "Page direction. Defaults to desc so the newest logs are returned first.");
    assert(order@.allowed =~= seq!["asc"@, "desc"@]);
    let properties = vec![
        ("captureId", string_property("Specific capture ID to query.")),
        ("device", string_property("Resolve a capture by connected device identifier.")),
        ("cursor", integer_property("Exclusive sequence cursor. Desc pages older entries with seq < cursor; asc pages newer entries with seq > cursor.")),
        ("order", order),
        ("limit", bounded_integer_property(0, Some(MAX_GET_LOGS_LIMIT as u64), limit_description.as_str())),
        ("minLevel", string_property("Minimum log level filter. Accepts verbose/debug/info/warn/error/fatal or the single-letter V/D/I/W/E/F aliases.")),
        ("tagQuery", string_property("CatPane tag filter syntax, for example `tag:MyTag tag-:Noise tag~:^App` or `MyTag:V *:E`.")),
        ("text", string_property("Substring search over tag and message text.")),
        ("process", string_property("Filter by process name substring (iOS captures only).")),
        ("subsystem", string_property("Filter by subsystem substring (iOS captures only; physical devices may not provide this field).")),
        ("category", string_property("Filter by category substring (iOS captures only; physical devices may not provide this field).")),
        ("since", string_property("Only return entries at or after this threadtime timestamp: MM-DD HH:MM:SS.mmm.")),
    ];
    let schema = object_schema(properties, &[]);
    let t = Tool::new(TOOL_GET_LOGS.to_string(), schema).with_description(
        "Read buffered capture entries with cursor pagination and CatPane filters. For noisy long-running captures, use create_watch/get_watch_matches to pin high-signal lines beyond main-buffer eviction.".to_string(),
    );
    assert(t@.input_schema.properties =~= get_logs_model().input_schema.properties);
    assert(t@.input_schema.required =~= Seq::empty());
    t
}

pub open spec fn field_model(kind: SchemaType, minimum: u64, maximum: u64, description: Seq<char>) -> FieldModel {
    FieldModel { kind, description, minimum: Some(minimum), maximum: Some(maximum) }
}

/// A bounded field of an object-typed argument.
pub fn bounded_field(kind: SchemaType, minimum: u64, maximum: u64, description: &str) -> (f: FieldSchema)
    ensures
        f@ == field_model(kind, minimum, maximum, description@),
{
    FieldSchema { kind, description: description.to_string(), minimum: Some(minimum), maximum: Some(maximum) }
}

/// An object argument holding these fields and no others.
pub open spec fn record_arg(fields: Seq<(Seq<char>, FieldModel)>, description: Seq<char>) -> PropertyModel {
    PropertyModel { kind: SchemaType::Object, fields, closed: true, ..plain_arg(SchemaType::Object, description) }
}

/// An object argument holding these fields and no others.
pub fn record_property(fields: Vec<(String, FieldSchema)>, description: &str) -> (p: PropertySchema)
    ensures
        p@ == record_arg(fields_view(fields@), description@),
{
    let mut p = plain_property(SchemaType::Object, description);
    p.fields = fields;
    p.closed = true;
    p
}

pub open spec fn clear_logs_model() -> ToolModel {
    described(
        TOOL_CLEAR_LOGS@,
        "Clear the main log buffer and any retained watch matches for a capture without stopping it. Use this before reproducing an issue to get a clean observation window."@,
        closed_object(seq![capture_id_arg("Specific capture ID to clear."@), device_selector_arg()], Seq::empty()),
    )
}

pub fn clear_logs_tool() -> (t: Tool)
    ensures
        t@ == clear_logs_model(),
{
    let schema = object_schema(
        vec![
            ("captureId", string_property("Specific capture ID to clear.")),
            ("device", string_property("Resolve a capture by connected device identifier.")),
        ],
        &[],
    );
    let t = Tool::new(TOOL_CLEAR_LOGS.to_string(), schema).with_description(
        "Clear the main log buffer and any retained watch matches for a capture without stopping it. Use this before reproducing an issue to get a clean observation window.".to_string(),
    );
    assert(t@.input_schema.properties =~= clear_logs_model().input_schema.properties);
    assert(t@.input_schema.required =~= Seq::empty());
    t
}

pub open spec fn start_capture_model() -> ToolModel {
    described(
        TOOL_START_CAPTURE@,
        "Start a new Android or iOS capture. iOS captures default to a cleaner source-scoped mode; pass clean=false if you need the raw device stream. Explicit process/text/predicate scope is still the best way to avoid irrelevant logs evicting useful ones. Physical iOS captures auto-stop after MCP inactivity (15m by default)."@,
        closed_object(
            seq![
                ("device"@, text_arg("Connected device identifier to capture. If omitted and exactly one Android device or iOS capture target is available, that device is used automatically."@)),
                ("pid"@, integer_arg("PID filter passed through to adb logcat (Android only)."@)),
                ("package"@, text_arg("Package name to resolve into a PID filter before starting capture (Android only)."@)),
                ("process"@, text_arg("Scope an iOS capture to one process. On simulators this becomes a source filter; on physical iOS it maps to idevicesyslog --process."@)),
                ("text"@, text_arg("Scope an iOS capture to messages containing this text. On simulators this becomes a log predicate; on physical iOS it maps to idevicesyslog --match."@)),
                ("predicate"@, text_arg("Additional NSPredicate expression for iOS simulator captures. Combined with process/text scope using AND semantics."@)),
                ("clean"@, flag_arg("Prefer a cleaner iOS stream. Defaults to true for iOS captures and false for Android. On iOS this enables quieter source-side capture and simulator-side system-noise suppression; pass false to keep the raw device stream."@)),
                ("quiet"@, flag_arg("Reduce noisy physical-iOS processes at the source using idevicesyslog --quiet."@)),
                ("capacity"@, bounded_arg(1, None, "Ring-buffer size for this capture. Defaults to the runtime's configured capacity."@)),
                ("restart"@, flag_arg("Replace any existing capture already registered for the selected device."@)),
            ],
            Seq::empty(),
        ),
    )
}

pub fn start_capture_tool() -> (t: Tool)
    ensures
        t@ == start_capture_model(),
{
    let schema = object_schema(
        vec![
            ("device", string_property("Connected device identifier to capture. If omitted and exactly one Android device or iOS capture target is available, that device is used automatically.")),
            ("pid", integer_property("PID filter passed through to adb logcat (Android only).")),
            ("package", string_property("Package name to resolve into a PID filter before starting capture (Android only).")),
            ("process", string_property("Scope an iOS capture to one process. On simulators this becomes a source filter; on physical iOS it maps to idevicesyslog --process.")),
            ("text", string_property("Scope an iOS capture to messages containing this text. On simulators this becomes a log predicate; on physical iOS it maps to idevicesyslog --match.")),
            ("predicate", string_property("Additional NSPredicate expression for iOS simulator captures. Combined with process/text scope using AND semantics.")),
            ("clean", boolean_property("Prefer a cleaner iOS stream. Defaults to true for iOS captures and false for Android. On iOS this enables quieter source-side capture and simulator-side system-noise suppression; pass false to keep the raw device stream.")),
            ("quiet", boolean_property("Reduce noisy physical-iOS processes at the source using idevicesyslog --quiet.")),
            ("capacity", bounded_integer_property(1, None, "Ring-buffer size for this capture. Defaults to the runtime's configured capacity.")),
            ("restart", boolean_property("Replace any existing capture already registered for the selected device.")),
        ],
        &[],
    );
    let t = Tool::new(TOOL_START_CAPTURE.to_string(), schema).with_description(
        "Start a new Android or iOS capture. iOS captures default to a cleaner source-scoped mode; pass clean=false if you need the raw device stream. Explicit process/text/predicate scope is still the best way to avoid irrelevant logs evicting useful ones. Physical iOS captures auto-stop after MCP inactivity (15m by default).".to_string(),
    );
    assert(t@.input_schema.properties =~= start_capture_model().input_schema.properties);
    assert(t@.input_schema.required =~= Seq::empty());
    t
}

pub open spec fn stop_capture_model() -> ToolModel {
    described(
        TOOL_STOP_CAPTURE@,
        "Stop a running capture and remove it from the MCP runtime state."@,
        closed_object(seq![capture_id_arg("Specific capture ID to stop."@), device_selector_arg()], Seq::empty()),
    )
}

pub fn stop_capture_tool() -> (t: Tool)
    ensures
        t@ == stop_capture_model(),
{
    let schema = object_schema(
        vec![
            ("captureId", string_property("Specific capture ID to stop.")),
            ("device", string_property("Resolve a capture by connected device identifier.")),
        ],
        &[],
    );
    let t = Tool::new(TOOL_STOP_CAPTURE.to_string(), schema).with_description(
        "Stop a running capture and remove it from the MCP runtime state.".to_string(),
    );
    assert(t@.input_schema.properties =~= stop_capture_model().input_schema.properties);
    assert(t@.input_schema.required =~= Seq::empty());
    t
}

pub open spec fn get_status_model() -> ToolModel {
    described(
        TOOL_GET_STATUS@,
        "Inspect registered captures, buffer usage, scope, retained watch matches, advisory warnings, and optional connected-device state."@,
        closed_object(
            seq![
                capture_id_arg("Specific capture ID to inspect."@),
                device_selector_arg(),
                ("includeDevices"@, flag_arg("Also include the current connected Android devices and iOS capture targets."@)),
            ],
            Seq::empty(),
        ),
    )
}

pub fn get_status_tool() -> (t: Tool)
    ensures
        t@ == get_status_model(),
{
    let schema = object_schema(
        vec![
            ("captureId", string_property("Specific capture ID to inspect.")),
            ("device", string_property("Resolve a capture by connected device identifier.")),
            ("includeDevices", boolean_property("Also include the current connected Android devices and iOS capture targets.")),
        ],
        &[],
    );
    let t = Tool::new(TOOL_GET_STATUS.to_string(), schema).with_description(
        "Inspect registered captures, buffer usage, scope, retained watch matches, advisory warnings, and optional connected-device state.".to_string(),
    );
    assert(t@.input_schema.properties =~= get_status_model().input_schema.properties);
    assert(t@.input_schema.required =~= Seq::empty());
    t
}

pub open spec fn list_packages_model() -> ToolModel {
    described(
        TOOL_LIST_PACKAGES@,
        "List installed packages on a connected Android device."@,
        closed_object(
            seq![("device"@, text_arg("Connected Android device identifier. If omitted and exactly one device is available, that device is used automatically."@))],
            Seq::empty(),
        ),
    )
}

pub fn list_packages_tool() -> (t: Tool)
    ensures
        t@ == list_packages_model(),
{
    let schema = object_schema(
        vec![("device", string_property("Connected Android device identifier. If omitted and exactly one device is available, that device is used automatically."))],
        &[],
    );
    let t = Tool::new(TOOL_LIST_PACKAGES.to_string(), schema).with_description(
        "List installed packages on a connected Android device.".to_string(),
    );
    assert(t@.input_schema.properties =~= list_packages_model().input_schema.properties);
    assert(t@.input_schema.required =~= Seq::empty());
    t
}

pub open spec fn boot_simulator_model() -> ToolModel {
    described(
        TOOL_BOOT_SIMULATOR@,
        "Boot an iOS simulator by its UDID."@,
        closed_object(seq![("udid"@, text_arg("The UDID of the iOS simulator to boot."@))], seq!["udid"@]),
    )
}

pub fn boot_simulator_tool() -> (t: Tool)
    ensures
        t@ == boot_simulator_model(),
{
    let schema = object_schema(
        vec![("udid", string_property("The UDID of the iOS simulator to boot."))],
        &["udid"],
    );
    let t = Tool::new(TOOL_BOOT_SIMULATOR.to_string(), schema).with_description(
        "Boot an iOS simulator by its UDID.".to_string(),
    );
    assert(t@.input_schema.properties =~= boot_simulator_model().input_schema.properties);
    assert(t@.input_schema.required =~= seq!["udid"@]);
    t
}

pub open spec fn connect_device_model() -> ToolModel {
    described(
        TOOL_CONNECT_DEVICE@,
        "Connect to an Android device over TCP/IP for wireless debugging."@,
        closed_object(
            seq![("host_port"@, text_arg("The host:port address of the Android device to connect to."@))],
            seq!["host_port"@],
        ),
    )
}

pub fn connect_device_tool() -> (t: Tool)
    ensures
        t@ == connect_device_model(),
{
    let schema = object_schema(
        vec![("host_port", string_property("The host:port address of the Android device to connect to."))],
        &["host_port"],
    );
    let t = Tool::new(TOOL_CONNECT_DEVICE.to_string(), schema).with_description(
        "Connect to an Android device over TCP/IP for wireless debugging.".to_string(),
    );
    assert(t@.input_schema.properties =~= connect_device_model().input_schema.properties);
    assert(t@.input_schema.required =~= seq!["host_port"@]);
    t
}

pub open spec fn disconnect_device_model() -> ToolModel {
    described(
        TOOL_DISCONNECT_DEVICE@,
        "Disconnect a wirelessly connected Android device."@,
        closed_object(
            seq![("device"@, text_arg("The serial or host:port identifier of the Android device to disconnect."@))],
            seq!["device"@],
        ),
    )
}

pub fn disconnect_device_tool() -> (t: Tool)
    ensures
        t@ == disconnect_device_model(),
{
    let schema = object_schema(
        vec![("device", string_property("The serial or host:port identifier of the Android device to disconnect."))],
        &["device"],
    );
    let t = Tool::new(TOOL_DISCONNECT_DEVICE.to_string(), schema).with_description(
        "Disconnect a wirelessly connected Android device.".to_string(),
    );
    assert(t@.input_schema.properties =~= disconnect_device_model().input_schema.properties);
    assert(t@.input_schema.required =~= seq!["device"@]);
    t
}

pub open spec fn pair_device_model() -> ToolModel {
    described(
        TOOL_PAIR_DEVICE@,
        "Pair with an Android device using a pairing code for wireless debugging."@,
        closed_object(
            seq![
                ("host_port"@, text_arg("The host:port address shown on the Android device pairing screen."@)),
                ("code"@, text_arg("The pairing code displayed on the Android device."@)),
            ],
            seq!["host_port"@, "code"@],
        ),
    )
}

pub fn pair_device_tool() -> (t: Tool)
    ensures
        t@ == pair_device_model(),
{
    let schema = object_schema(
        vec![
            ("host_port", string_property("The host:port address shown on the Android device pairing screen.")),
            ("code", string_property("The pairing code displayed on the Android device.")),
        ],
        &["host_port", "code"],
    );
    let t = Tool::new(TOOL_PAIR_DEVICE.to_string(), schema).with_description(
        "Pair with an Android device using a pairing code for wireless debugging.".to_string(),
    );
    assert(t@.input_schema.properties =~= pair_device_model().input_schema.properties);
    assert(t@.input_schema.required =~= seq!["host_port"@, "code"@]);
    t
}

pub open spec fn restart_adb_model() -> ToolModel {
    described(TOOL_RESTART_ADB@, "Kill and restart the ADB server."@, closed_object(Seq::empty(), Seq::empty()))
}

pub fn restart_adb_tool() -> (t: Tool)
    ensures
        t@ == restart_adb_model(),
{
    Tool::new(TOOL_RESTART_ADB.to_string(), empty_object_schema()).with_description(
        "Kill and restart the ADB server.".to_string(),
    )
}

pub open spec fn set_location_model() -> ToolModel {
    described(
        TOOL_SET_LOCATION@,
        "Set the GPS location on an iOS simulator or Android emulator. Not supported on physical Android devices."@,
        closed_object(
            seq![
                ("device"@, text_arg("Connected device identifier. If omitted and exactly one device is available, that device is used."@)),
                ("latitude"@, number_arg("GPS latitude in decimal degrees."@)),
                ("longitude"@, number_arg("GPS longitude in decimal degrees."@)),
                ("altitude"@, number_arg("Optional altitude in meters (Android emulators only)."@)),
            ],
            seq!["latitude"@, "longitude"@],
        ),
    )
}

pub fn set_location_tool() -> (t: Tool)
    ensures
        t@ == set_location_model(),
{
    let schema = object_schema(
        vec![
            ("device", string_property("Connected device identifier. If omitted and exactly one device is available, that device is used.")),
            ("latitude", float_property("GPS latitude in decimal degrees.")),
            ("longitude", float_property("GPS longitude in decimal degrees.")),
            ("altitude", float_property("Optional altitude in meters (Android emulators only).")),
        ],
        &["latitude", "longitude"],
    );
    let t = Tool::new(TOOL_SET_LOCATION.to_string(), schema).with_description(
        "Set the GPS location on an iOS simulator or Android emulator. Not supported on physical Android devices.".to_string(),
    );
    assert(t@.input_schema.properties =~= set_location_model().input_schema.properties);
    assert(t@.input_schema.required =~= seq!["latitude"@, "longitude"@]);
    t
}

pub open spec fn clear_location_model() -> ToolModel {
    described(
        TOOL_CLEAR_LOCATION@,
        "Clear the spoofed GPS location on an iOS simulator, reverting to default behavior."@,
        closed_object(seq![("device"@, text_arg("Connected device identifier."@))], Seq::empty()),
    )
}

pub fn clear_location_tool() -> (t: Tool)
    ensures
        t@ == clear_location_model(),
{
    let schema = object_schema(vec![("device", string_property("Connected device identifier."))], &[]);
    let t = Tool::new(TOOL_CLEAR_LOCATION.to_string(), schema).with_description(
        "Clear the spoofed GPS location on an iOS simulator, reverting to default behavior.".to_string(),
    );
    assert(t@.input_schema.properties =~= clear_location_model().input_schema.properties);
    assert(t@.input_schema.required =~= Seq::empty());
    t
}

pub open spec fn network_shaping_fields() -> Seq<(Seq<char>, FieldModel)> {
    seq![
        ("delay_ms"@, field_model(SchemaType::Integer, 0, 60000, "One-way delay added to packets, in milliseconds."@)),
        ("jitter_ms"@, field_model(SchemaType::Integer, 0, 60000, "Maximum random jitter added/subtracted from delay, in milliseconds."@)),
        ("loss_pct"@, field_model(SchemaType::Number, 0, 100, "Random packet loss probability, 0–100%."@)),
        ("downlink_kbps"@, field_model(SchemaType::Integer, 0, 10000000, "Downlink (device-bound) bandwidth cap in kbps."@)),
        ("uplink_kbps"@, field_model(SchemaType::Integer, 0, 10000000, "Uplink (device-originated) bandwidth cap in kbps."@)),
    ]
}

pub open spec fn set_network_condition_model() -> ToolModel {
    described(
        TOOL_SET_NETWORK_CONDITION@,
        "Apply a network throttling profile to the focused device. Provide exactly one of `preset` (unthrottled / edge / 3g / offline) or `custom` (delay_ms, jitter_ms, loss_pct, downlink_kbps, uplink_kbps). Android emulators support presets via the emulator console; physical Android devices require the CatPane helper app (auto-installed when available) and support both presets and custom shaping. iOS Simulator support is feature-flagged off by default."@,
        closed_object(
            seq![
                ("device"@, text_arg("Connected device identifier. If omitted and exactly one device is available, that device is used."@)),
                ("preset"@, choice_arg(seq!["unthrottled"@, "edge"@, "3g"@, "offline"@], "Named network condition preset to apply. Mutually exclusive with 'custom'."@)),
                ("custom"@, record_arg(network_shaping_fields(), "Custom network shaping (physical Android only — applied via the CatPane helper app). Mutually exclusive with 'preset'."@)),
            ],
            Seq::empty(),
        ),
    )
}

pub fn set_network_condition_tool() -> (t: Tool)
    ensures
        t@ == set_network_condition_model(),
{
    let preset = enum_property(
        vec!["unthrottled", "edge", "3g", "offline"],
        "Named network condition preset to apply. Mutually exclusive with 'custom'.",
    );
    assert(preset@.allowed =~= seq!["unthrottled"@, "edge"@, "3g"@, "offline"@]);
    let fields = vec![
        ("delay_ms".to_string(), bounded_field(SchemaType::Integer, 0, 60000, "One-way delay added to packets, in milliseconds.")),
        ("jitter_ms".to_string(), bounded_field(SchemaType::Integer, 0, 60000, "Maximum random jitter added/subtracted from delay, in milliseconds.")),
        ("loss_pct".to_string(), bounded_field(SchemaType::Number, 0, 100, "Random packet loss probability, 0–100%.")),
        ("downlink_kbps".to_string(), bounded_field(SchemaType::Integer, 0, 10000000, "Downlink (device-bound) bandwidth cap in kbps.")),
        ("uplink_kbps".to_string(), bounded_field(SchemaType::Integer, 0, 10000000, "Uplink (device-originated) bandwidth cap in kbps.")),
    ];
    let custom = record_property(
        fields,
        "Custom network shaping (physical Android only — applied via the CatPane helper app). Mutually exclusive with 'preset'.",
    );
    assert(custom@.fields =~= network_shaping_fields());
    let schema = object_schema(
        vec![
            ("device", string_property("Connected device identifier. If omitted and exactly one device is available, that device is used.")),
            ("preset", preset),
            ("custom", custom),
        ],
        &[],
    );
    let t = Tool::new(TOOL_SET_NETWORK_CONDITION.to_string(), schema).with_description(
        "Apply a network throttling profile to the focused device. Provide exactly one of `preset` (unthrottled / edge / 3g / offline) or `custom` (delay_ms, jitter_ms, loss_pct, downlink_kbps, uplink_kbps). Android emulators support presets via the emulator console; physical Android devices require the CatPane helper app (auto-installed when available) and support both presets and custom shaping. iOS Simulator support is feature-flagged off by default.".to_string(),
    );
    assert(t@.input_schema.properties =~= set_network_condition_model().input_schema.properties);
    assert(t@.input_schema.required =~= Seq::empty());
    t
}

pub open spec fn clear_network_condition_model() -> ToolModel {
    described(
        TOOL_CLEAR_NETWORK_CONDITION@,
        "Clear any applied network throttling on the focused device. Works on Android emulators, physical Android devices (via the CatPane helper app), and the iOS Simulator (when the iOS feature flag is enabled)."@,
        closed_object(seq![("device"@, text_arg("Connected device identifier."@))], Seq::empty()),
    )
}

pub fn clear_network_condition_tool() -> (t: Tool)
    ensures
        t@ == clear_network_condition_model(),
{
    let schema = object_schema(vec![("device", string_property("Connected device identifier."))], &[]);
    let t = Tool::new(TOOL_CLEAR_NETWORK_CONDITION.to_string(), schema).with_description(
        "Clear any applied network throttling on the focused device. Works on Android emulators, physical Android devices (via the CatPane helper app), and the iOS Simulator (when the iOS feature flag is enabled).".to_string(),
    );
    assert(t@.input_schema.properties =~= clear_network_condition_model().input_schema.properties);
    assert(t@.input_schema.required =~= Seq::empty());
    t
}

pub open spec fn get_crashes_model() -> ToolModel {
    described(
        TOOL_GET_CRASHES@,
        "Detect crashes, exceptions, and ANRs in captured logs. Returns structured crash reports with stack traces."@,
        closed_object(
            seq![
                capture_id_arg("Specific capture ID to query."@),
                device_selector_arg(),
                ("limit"@, integer_arg("Maximum number of crashes to return. Defaults to 10."@)),
                ("crashType"@, text_arg("Filter by crash type: java_exception, native_crash, anr, ios_crash."@)),
                ("since"@, text_arg("Only return crashes at or after this threadtime timestamp: MM-DD HH:MM:SS.mmm."@)),
            ],
            Seq::empty(),
        ),
    )
}

pub fn get_crashes_tool() -> (t: Tool)
    ensures
        t@ == get_crashes_model(),
{
    let schema = object_schema(
        vec![
            ("captureId", string_property("Specific capture ID to query.")),
            ("device", string_property("Resolve a capture by connected device identifier.")),
            ("limit", integer_property("Maximum number of crashes to return. Defaults to 10.")),
            ("crashType", string_property("Filter by crash type: java_exception, native_crash, anr, ios_crash.")),
            ("since", string_property("Only return crashes at or after this threadtime timestamp: MM-DD HH:MM:SS.mmm.")),
        ],
        &[],
    );
    let t = Tool::new(TOOL_GET_CRASHES.to_string(), schema).with_description(
        "Detect crashes, exceptions, and ANRs in captured logs. Returns structured crash reports with stack traces.".to_string(),
    );
    assert(t@.input_schema.properties =~= get_crashes_model().input_schema.properties);
    assert(t@.input_schema.required =~= Seq::empty());
    t
}

pub open spec fn create_watch_model() -> ToolModel {
    described(
        TOOL_CREATE_WATCH@,
        "Register a named pattern watch on a capture. Matching entries are retained separately so they can survive main-buffer overflow."@,
        closed_object(
            seq![
                capture_id_arg("Specific capture ID to query."@),
                device_selector_arg(),
                ("name"@, text_arg("A human-readable name for this watch."@)),
                ("pattern"@, text_arg("The text or regex pattern to match against log entries."@)),
                ("patternType"@, choice_arg(seq!["text"@, "regex"@], "Pattern matching mode. \"text\" for case-insensitive substring match, \"regex\" for regular expression. Defaults to \"text\"."@)),
                ("tag"@, text_arg("Optional tag substring filter. Only entries whose tag contains this value (case-insensitive) are matched."@)),
                ("minLevel"@, text_arg("Minimum log level filter. Accepts verbose/debug/info/warn/error/fatal or single-letter aliases."@)),
                ("retainedCapacity"@, bounded_arg(1, None, "Optional retained-match ring size for this watch. Defaults to a derived capacity based on the main capture buffer; increase it for noisy sessions when pinned matches still churn too quickly."@)),
            ],
            seq!["name"@, "pattern"@],
        ),
    )
}

pub fn create_watch_tool() -> (t: Tool)
    ensures
        t@ == create_watch_model(),
{
    let pattern_type = enum_property(
        vec!["text", "regex"],
        "Pattern matching mode. \"text\" for case-insensitive substring match, \"regex\" for regular expression. Defaults to \"text\".",
    );
    assert(pattern_type@.allowed =~= seq!["text"@, "regex"@]);
    let schema = object_schema(
        vec![
            ("captureId", string_property("Specific capture ID to query.")),
            ("device", string_property("Resolve a capture by connected device identifier.")),
            ("name", string_property("A human-readable name for this watch.")),
            ("pattern", string_property("The text or regex pattern to match against log entries.")),
            ("patternType", pattern_type),
            ("tag", string_property("Optional tag substring filter. Only entries whose tag contains this value (case-insensitive) are matched.")),
            ("minLevel", string_property("Minimum log level filter. Accepts verbose/debug/info/warn/error/fatal or single-letter aliases.")),
            ("retainedCapacity", bounded_integer_property(1, None, "Optional retained-match ring size for this watch. Defaults to a derived capacity based on the main capture buffer; increase it for noisy sessions when pinned matches still churn too quickly.")),
        ],
        &["name", "pattern"],
    );
    let t = Tool::new(TOOL_CREATE_WATCH.to_string(), schema).with_description(
        "Register a named pattern watch on a capture. Matching entries are retained separately so they can survive main-buffer overflow.".to_string(),
    );
    assert(t@.input_schema.properties =~= create_watch_model().input_schema.properties);
    assert(t@.input_schema.required =~= seq!["name"@, "pattern"@]);
    t
}

pub open spec fn list_watches_model() -> ToolModel {
    described(
        TOOL_LIST_WATCHES@,
        "List all active watches on a capture, including retained-match counts."@,
        closed_object(seq![capture_id_arg("Specific capture ID to query."@), device_selector_arg()], Seq::empty()),
    )
}

pub fn list_watches_tool() -> (t: Tool)
    ensures
        t@ == list_watches_model(),
{
    let schema = object_schema(
        vec![
            ("captureId", string_property("Specific capture ID to query.")),
            ("device", string_property("Resolve a capture by connected device identifier.")),
        ],
        &[],
    );
    let t = Tool::new(TOOL_LIST_WATCHES.to_string(), schema).with_description(
        "List all active watches on a capture, including retained-match counts.".to_string(),
    );
    assert(t@.input_schema.properties =~= list_watches_model().input_schema.properties);
    assert(t@.input_schema.required =~= Seq::empty());
    t
}

pub open spec fn get_watch_matches_model() -> ToolModel {
    described(
        TOOL_GET_WATCH_MATCHES@,
        "Get retained log entries that matched a watch pattern. These results survive main-buffer churn and are ideal for high-signal polling."@,
        closed_object(
            seq![
                capture_id_arg("Specific capture ID to query."@),
                device_selector_arg(),
                ("watchId"@, text_arg("The ID of the watch to query."@)),
                ("sinceSeq"@, integer_arg("Only return entries with seq greater than this value. Use to poll for new matches."@)),
                ("limit"@, bounded_arg(0, Some(MAX_GET_LOGS_LIMIT as u64), "Maximum number of matching entries to return. Defaults to "@ + decimal(DEFAULT_GET_LOGS_LIMIT as nat) + "."@)),
            ],
            seq!["watchId"@],
        ),
    )
}

pub fn get_watch_matches_tool() -> (t: Tool)
    ensures
        t@ == get_watch_matches_model(),
{
    let mut limit_description = "Maximum number of matching entries to return. Defaults to ".to_string();
    push_decimal(&mut limit_description, DEFAULT_GET_LOGS_LIMIT as u64);
    limit_description.append(".");
    let schema = object_schema(
        vec![
            ("captureId", string_property("Specific capture ID to query.")),
            ("device", string_property("Resolve a capture by connected device identifier.")),
            ("watchId", string_property("The ID of the watch to query.")),
            ("sinceSeq", integer_property("Only return entries with seq greater than this value. Use to poll for new matches.")),
            ("limit", bounded_integer_property(0, Some(MAX_GET_LOGS_LIMIT as u64), limit_description.as_str())),
        ],
        &["watchId"],
    );
    let t = Tool::new(TOOL_GET_WATCH_MATCHES.to_string(), schema).with_description(
        "Get retained log entries that matched a watch pattern. These results survive main-buffer churn and are ideal for high-signal polling.".to_string(),
    );
    assert(t@.input_schema.properties =~= get_watch_matches_model().input_schema.properties);
    assert(t@.input_schema.required =~= seq!["watchId"@]);
    t
}

pub open spec fn delete_watch_model() -> ToolModel {
    described(
        TOOL_DELETE_WATCH@,
        "Remove a watch from a capture."@,
        closed_object(
            seq![
                capture_id_arg("Specific capture ID to query."@),
                device_selector_arg(),
                ("watchId"@, text_arg("The ID of the watch to remove."@)),
            ],
            seq!["watchId"@],
        ),
    )
}

pub fn delete_watch_tool() -> (t: Tool)
    ensures
        t@ == delete_watch_model(),
{
    let schema = object_schema(
        vec![
            ("captureId", string_property("Specific capture ID to query.")),
            ("device", string_property("Resolve a capture by connected device identifier.")),
            ("watchId", string_property("The ID of the watch to remove.")),
        ],
        &["watchId"],
    );
    let t = Tool::new(TOOL_DELETE_WATCH.to_string(), schema).with_description(
        "Remove a watch from a capture.".to_string(),
    );
    assert(t@.input_schema.properties =~= delete_watch_model().input_schema.properties);
    assert(t@.input_schema.required =~= seq!["watchId"@]);
    t
}

// ---------------------------------------------------------------------------
// The catalog
// ---------------------------------------------------------------------------
/// The tools in the order the server lists them.
pub open spec fn catalog_order() -> Seq<ToolName> {
    seq![
        ToolName::ListDevices,
        ToolName::GetLogs,
        ToolName::ClearLogs,
        ToolName::StartCapture,
        ToolName::StopCapture,
        ToolName::GetStatus,
        ToolName::ListPackages,
        ToolName::BootSimulator,
        ToolName::ConnectDevice,
        ToolName::DisconnectDevice,
        ToolName::PairDevice,
        ToolName::RestartAdb,
        ToolName::SetLocation,
        ToolName::ClearLocation,
        ToolName::SetNetworkCondition,
        ToolName::ClearNetworkCondition,
        ToolName::GetCrashes,
        ToolName::CreateWatch,
        ToolName::ListWatches,
        ToolName::GetWatchMatches,
        ToolName::DeleteWatch,
    ]
}

/// The definition the server lists for a tool.
pub open spec fn tool_model(t: ToolName) -> ToolModel {
    match t {
        ToolName::ListDevices => list_devices_model(),
        ToolName::GetLogs => get_logs_model(),
        ToolName::ClearLogs => clear_logs_model(),
        ToolName::StartCapture => start_capture_model(),
        ToolName::StopCapture => stop_capture_model(),
        ToolName::GetStatus => get_status_model(),
        ToolName::ListPackages => list_packages_model(),
        ToolName::BootSimulator => boot_simulator_model(),
        ToolName::ConnectDevice => connect_device_model(),
        ToolName::DisconnectDevice => disconnect_device_model(),
        ToolName::PairDevice => pair_device_model(),
        ToolName::RestartAdb => restart_adb_model(),
        ToolName::SetLocation => set_location_model(),
        ToolName::ClearLocation => clear_location_model(),
        ToolName::SetNetworkCondition => set_network_condition_model(),
        ToolName::ClearNetworkCondition => clear_network_condition_model(),
        ToolName::GetCrashes => get_crashes_model(),
        ToolName::CreateWatch => create_watch_model(),
        ToolName::ListWatches => list_watches_model(),
        ToolName::GetWatchMatches => get_watch_matches_model(),
        ToolName::DeleteWatch => delete_watch_model(),
    }
}

/// Every tool the server offers, with its argument schema.
pub fn tool_definitions() -> (r: Vec<Tool>)
    ensures
        r@.len() == catalog_order().len(),
        forall|i: int| 0 <= i < r@.len() ==> (#[trigger] r@[i])@ == tool_model(catalog_order()[i]),
{
    let r = vec![
        list_devices_tool(),
        get_logs_tool(),
        clear_logs_tool(),
        start_capture_tool(),
        stop_capture_tool(),
        get_status_tool(),
        list_packages_tool(),
        boot_simulator_tool(),
        connect_device_tool(),
        disconnect_device_tool(),
        pair_device_tool(),
        restart_adb_tool(),
        set_location_tool(),
        clear_location_tool(),
        set_network_condition_tool(),
        clear_network_condition_tool(),
        get_crashes_tool(),
        create_watch_tool(),
        list_watches_tool(),
        get_watch_matches_tool(),
        delete_watch_tool(),
    ];
    r
}

/// Each listed tool is found again by the name it is listed under, and
/// every tool the server dispatches is listed, once.
pub proof fn law_catalog_matches_dispatch(t: ToolName)
    ensures
        tool_model(t).name == tool_name_spec(t),
        tool_called(tool_model(t).name) == Some(t),
        catalog_order().contains(t),
        forall|i: int, j: int|
            0 <= i < j < catalog_order().len() ==> catalog_order()[i] != catalog_order()[j],
{
    law_tool_names_round_trip(t);
    match t {
        ToolName::ListDevices => assert(catalog_order()[0] == t),
        ToolName::GetLogs => assert(catalog_order()[1] == t),
        ToolName::ClearLogs => assert(catalog_order()[2] == t),
        ToolName::StartCapture => assert(catalog_order()[3] == t),
        ToolName::StopCapture => assert(catalog_order()[4] == t),
        ToolName::GetStatus => assert(catalog_order()[5] == t),
        ToolName::ListPackages => assert(catalog_order()[6] == t),
        ToolName::BootSimulator => assert(catalog_order()[7] == t),
        ToolName::ConnectDevice => assert(catalog_order()[8] == t),
        ToolName::DisconnectDevice => assert(catalog_order()[9] == t),
        ToolName::PairDevice => assert(catalog_order()[10] == t),
        ToolName::RestartAdb => assert(catalog_order()[11] == t),
        ToolName::SetLocation => assert(catalog_order()[12] == t),
        ToolName::ClearLocation => assert(catalog_order()[13] == t),
        ToolName::SetNetworkCondition => assert(catalog_order()[14] == t),
        ToolName::ClearNetworkCondition => assert(catalog_order()[15] == t),
        ToolName::GetCrashes => assert(catalog_order()[16] == t),
        ToolName::CreateWatch => assert(catalog_order()[17] == t),
        ToolName::ListWatches => assert(catalog_order()[18] == t),
        ToolName::GetWatchMatches => assert(catalog_order()[19] == t),
        ToolName::DeleteWatch => assert(catalog_order()[20] == t),
    }
}

/// Every argument a tool requires is one it declares.
pub proof fn law_required_arguments_declared(t: ToolName)
    ensures
        requires_declared(tool_model(t).input_schema),
{
    let s = tool_model(t).input_schema;
    assert forall|i: int| 0 <= i < s.required.len() implies #[trigger] declares(s.properties, s.required[i]) by {
        match t {
            ToolName::BootSimulator => assert(s.properties[0].0 == s.required[i]),
            ToolName::ConnectDevice => assert(s.properties[0].0 == s.required[i]),
            ToolName::DisconnectDevice => assert(s.properties[0].0 == s.required[i]),
            ToolName::PairDevice => if i == 0 {
                assert(s.properties[0].0 == s.required[i]);
            } else {
                assert(s.properties[1].0 == s.required[i]);
            },
            ToolName::SetLocation => if i == 0 {
                assert(s.properties[1].0 == s.required[i]);
            } else {
                assert(s.properties[2].0 == s.required[i]);
            },
            ToolName::CreateWatch => if i == 0 {
                assert(s.properties[2].0 == s.required[i]);
            } else {
                assert(s.properties[3].0 == s.required[i]);
            },
            ToolName::GetWatchMatches => assert(s.properties[2].0 == s.required[i]),
            ToolName::DeleteWatch => assert(s.properties[2].0 == s.required[i]),
            _ => {},
        }
    }
}

} // verus!
