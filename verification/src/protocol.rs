//! The data of the Model Context Protocol that the tools answer with, and
//! protocol-version negotiation.
use vstd::prelude::*;
use crate::log_entry::opt_view;
use crate::text::str_eq;

verus! {

pub const JSONRPC_VERSION: &'static str = "2.0";

pub const MCP_PROTOCOL_VERSION_2024_11_05: &'static str = "2024-11-05";

pub const MCP_PROTOCOL_VERSION_2025_11_25: &'static str = "2025-11-25";

pub const MCP_PROTOCOL_VERSION: &'static str = "2025-11-25";

pub const PARSE_ERROR: i32 = -32700;

pub const INVALID_REQUEST: i32 = -32600;

pub const METHOD_NOT_FOUND: i32 = -32601;

pub const INVALID_PARAMS: i32 = -32602;

pub const INTERNAL_ERROR: i32 = -32603;

/// The protocol versions the server speaks, newest first.
pub open spec fn supported_versions() -> Seq<Seq<char>> {
    seq![MCP_PROTOCOL_VERSION_2025_11_25@, MCP_PROTOCOL_VERSION_2024_11_05@]
}

/// The protocol versions the server speaks, newest first.
pub fn supported_protocol_versions() -> (v: Vec<&'static str>)
    ensures
        v@.len() == supported_versions().len(),
        forall|i: int| 0 <= i < v@.len() ==> #[trigger] v@[i]@ == supported_versions()[i],
{
    vec![MCP_PROTOCOL_VERSION_2025_11_25, MCP_PROTOCOL_VERSION_2024_11_05]
}

/// The version to speak with a client that asked for `requested`: that
/// version when the server supports it.
pub fn negotiated_protocol_version(requested: &str) -> (r: Option<&'static str>)
    ensures
        match r {
            Some(v) => v@ == requested@ && supported_versions().contains(requested@),
            None => !supported_versions().contains(requested@),
        },
{
    if str_eq(MCP_PROTOCOL_VERSION_2025_11_25, requested) {
        assert(supported_versions()[0] == requested@);
        Some(MCP_PROTOCOL_VERSION_2025_11_25)
    } else if str_eq(MCP_PROTOCOL_VERSION_2024_11_05, requested) {
        assert(supported_versions()[1] == requested@);
        Some(MCP_PROTOCOL_VERSION_2024_11_05)
    } else {
        None
    }
}

/// Whether the server speaks the protocol version a client asked for.
pub fn uses_supported_protocol_version(requested: &str) -> (b: bool)
    ensures
        b == supported_versions().contains(requested@),
{
    negotiated_protocol_version(requested).is_some()
}

#[derive(Debug, Clone, Default, PartialEq, Eq)]
pub struct EmptyObject {}

/// The name and version of a client or server.
#[derive(Debug, Clone, PartialEq, Eq)]
pub struct ImplementationInfo {
    pub name: String,
    pub version: String,
}

impl ImplementationInfo {
    pub fn new(name: String, version: String) -> (i: ImplementationInfo)
        ensures
            i.name@ == name@ && i.version@ == version@,
    {
        ImplementationInfo { name, version }
    }
}

#[derive(Debug, Clone, Copy, Default, PartialEq, Eq)]
pub struct ListChangedCapability {
    pub list_changed: bool,
}

impl ListChangedCapability {
    pub fn new(list_changed: bool) -> (c: ListChangedCapability)
        ensures
            c.list_changed == list_changed,
    {
        ListChangedCapability { list_changed }
    }
}

#[derive(Debug, Clone, Copy, Default, PartialEq, Eq)]
pub struct ResourcesCapability {
    pub subscribe: bool,
    pub list_changed: bool,
}

impl ResourcesCapability {
    pub fn new(subscribe: bool, list_changed: bool) -> (c: ResourcesCapability)
        ensures
            c.subscribe == subscribe && c.list_changed == list_changed,
    {
        ResourcesCapability { subscribe, list_changed }
    }
}

/// What an unsupported protocol version is answered with.
#[derive(Debug, Clone, PartialEq, Eq)]
pub struct ProtocolVersionErrorData {
    pub requested: String,
    pub supported: Vec<String>,
}

impl ProtocolVersionErrorData {
    /// The requested version and the versions the server speaks.
    pub fn current(requested: String) -> (d: ProtocolVersionErrorData)
        ensures
            d.requested@ == requested@,
            d.supported@.len() == supported_versions().len(),
            forall|i: int| 0 <= i < d.supported@.len() ==> #[trigger] d.supported@[i]@ == supported_versions()[i],
    {
        let supported = vec![
            MCP_PROTOCOL_VERSION_2025_11_25.to_string(),
            MCP_PROTOCOL_VERSION_2024_11_05.to_string(),
        ];
        ProtocolVersionErrorData { requested, supported }
    }
}

#[derive(Debug, Clone, Default, PartialEq, Eq)]
pub struct ListToolsParams {
    pub cursor: Option<String>,
}

impl ListToolsParams {
    pub fn with_cursor(cursor: String) -> (p: ListToolsParams)
        ensures
            opt_view(p.cursor) == Some(cursor@),
    {
        ListToolsParams { cursor: Some(cursor) }
    }
}

/// A resource embedded in a tool result.
#[derive(Debug, Clone, PartialEq, Eq)]
pub enum EmbeddedResource {
    Text { uri: String, mime_type: Option<String>, text: String },
    Blob { uri: String, mime_type: Option<String>, blob: String },
}

impl EmbeddedResource {
    pub fn text(uri: String, text: String) -> (r: EmbeddedResource)
        ensures
            r matches EmbeddedResource::Text { uri: u, mime_type: m, text: t } && u@ == uri@ && m is None
                && t@ == text@,
    {
        EmbeddedResource::Text { uri, mime_type: None, text }
    }

    pub fn blob(uri: String, mime_type: String, blob: String) -> (r: EmbeddedResource)
        ensures
            r matches EmbeddedResource::Blob { uri: u, mime_type: m, blob: b } && u@ == uri@ && opt_view(m)
                == Some(mime_type@) && b@ == blob@,
    {
        EmbeddedResource::Blob { uri, mime_type: Some(mime_type), blob }
    }
}

/// One piece of a tool result.
#[derive(Debug, Clone, PartialEq, Eq)]
pub enum ToolContent {
    Text { text: String },
    Image { data: String, mime_type: String },
    Resource { resource: EmbeddedResource },
}

impl ToolContent {
    pub fn text(text: String) -> (c: ToolContent)
        ensures
            c matches ToolContent::Text { text: t } && t@ == text@,
    {
        ToolContent::Text { text }
    }

    pub fn image(data: String, mime_type: String) -> (c: ToolContent)
        ensures
            c matches ToolContent::Image { data: d, mime_type: m } && d@ == data@ && m@ == mime_type@,
    {
        ToolContent::Image { data, mime_type }
    }

    pub fn resource(resource: EmbeddedResource) -> (c: ToolContent)
        ensures
            c == (ToolContent::Resource { resource }),
    {
        ToolContent::Resource { resource }
    }
}

/// The result of a tool call.
#[derive(Debug, Clone, PartialEq, Eq)]
pub struct CallToolResult {
    pub content: Vec<ToolContent>,
    pub is_error: bool,
}

impl CallToolResult {
    pub fn success(content: Vec<ToolContent>) -> (r: CallToolResult)
        ensures
            r.content == content && !r.is_error,
    {
        CallToolResult { content, is_error: false }
    }

    pub fn error(content: Vec<ToolContent>) -> (r: CallToolResult)
        ensures
            r.content == content && r.is_error,
    {
        CallToolResult { content, is_error: true }
    }

    /// A successful result of one text.
    pub fn text(text: String) -> (r: CallToolResult)
        ensures
            !r.is_error && r.content@.len() == 1 && (r.content@[0] matches ToolContent::Text { text: t }
                && t@ == text@),
    {
        Self::success(vec![ToolContent::text(text)])
    }

    /// A failed result of one text.
    pub fn error_text(text: String) -> (r: CallToolResult)
        ensures
            r.is_error && r.content@.len() == 1 && (r.content@[0] matches ToolContent::Text { text: t } && t@
                == text@),
    {
        Self::error(vec![ToolContent::text(text)])
    }
}

/// The JSON type a schema gives a value.
#[derive(Debug, Clone, Copy, PartialEq, Eq, Structural)]
pub enum SchemaType {
    Str,
    Integer,
    Number,
    Boolean,
    Object,
}

/// The name JSON Schema writes a type by.
pub open spec fn schema_type_name(t: SchemaType) -> Seq<char> {
    match t {
        SchemaType::Str => "string"@,
        SchemaType::Integer => "integer"@,
        SchemaType::Number => "number"@,
        SchemaType::Boolean => "boolean"@,
        SchemaType::Object => "object"@,
    }
}

impl SchemaType {
    /// The name JSON Schema writes this type by.
    pub fn json_name(self) -> (s: &'static str)
        ensures
            s@ == schema_type_name(self),
    {
        match self {
            SchemaType::Str => "string",
            SchemaType::Integer => "integer",
            SchemaType::Number => "number",
            SchemaType::Boolean => "boolean",
            SchemaType::Object => "object",
        }
    }
}

/// The schema of a field inside an object-typed property.
#[derive(Debug, Clone, PartialEq, Eq)]
pub struct FieldSchema {
    pub kind: SchemaType,
    pub description: String,
    pub minimum: Option<u64>,
    pub maximum: Option<u64>,
}

pub struct FieldModel {
    pub kind: SchemaType,
    pub description: Seq<char>,
    pub minimum: Option<u64>,
    pub maximum: Option<u64>,
}

impl View for FieldSchema {
    type V = FieldModel;

    open spec fn view(&self) -> FieldModel {
        FieldModel {
            kind: self.kind,
            description: self.description@,
            minimum: self.minimum,
            maximum: self.maximum,
        }
    }
}

/// The schema of one argument of a tool: its type, what it means, the
/// values it may take (`allowed`, empty when any), its bounds, and for an
/// object the fields it holds (`closed`: no others).
#[derive(Debug, Clone, PartialEq, Eq)]
pub struct PropertySchema {
    pub kind: SchemaType,
    pub description: String,
    pub allowed: Vec<String>,
    pub minimum: Option<u64>,
    pub maximum: Option<u64>,
    pub fields: Vec<(String, FieldSchema)>,
    pub closed: bool,
}

pub struct PropertyModel {
    pub kind: SchemaType,
    pub description: Seq<char>,
    pub allowed: Seq<Seq<char>>,
    pub minimum: Option<u64>,
    pub maximum: Option<u64>,
    pub fields: Seq<(Seq<char>, FieldModel)>,
    pub closed: bool,
}

pub open spec fn strings_view(v: Seq<String>) -> Seq<Seq<char>> {
    v.map_values(|s: String| s@)
}

pub open spec fn fields_view(v: Seq<(String, FieldSchema)>) -> Seq<(Seq<char>, FieldModel)> {
    v.map_values(|e: (String, FieldSchema)| (e.0@, e.1@))
}

impl View for PropertySchema {
    type V = PropertyModel;

    open spec fn view(&self) -> PropertyModel {
        PropertyModel {
            kind: self.kind,
            description: self.description@,
            allowed: strings_view(self.allowed@),
            minimum: self.minimum,
            maximum: self.maximum,
            fields: fields_view(self.fields@),
            closed: self.closed,
        }
    }
}

/// The schema of a tool's arguments: an object of named properties, the
/// names that must be given, and whether no other names are accepted.
/// Properties stand in the order given; where a name came twice, the
/// later one is the one that holds.
#[derive(Debug, Clone, PartialEq, Eq)]
pub struct JsonSchema {
    pub properties: Vec<(String, PropertySchema)>,
    pub required: Vec<String>,
    pub closed: bool,
}

pub struct SchemaModel {
    pub properties: Seq<(Seq<char>, PropertyModel)>,
    pub required: Seq<Seq<char>>,
    pub closed: bool,
}

pub open spec fn properties_view(v: Seq<(String, PropertySchema)>) -> Seq<(Seq<char>, PropertyModel)> {
    v.map_values(|e: (String, PropertySchema)| (e.0@, e.1@))
}

impl View for JsonSchema {
    type V = SchemaModel;

    open spec fn view(&self) -> SchemaModel {
        SchemaModel {
            properties: properties_view(self.properties@),
            required: strings_view(self.required@),
            closed: self.closed,
        }
    }
}

impl JsonSchema {
    /// An object schema with these properties and nothing required.
    pub fn object(properties: Vec<(String, PropertySchema)>) -> (s: JsonSchema)
        ensures
            s@ == (SchemaModel {
                properties: properties_view(properties@),
                required: Seq::empty(),
                closed: false,
            }),
    {
        let s = JsonSchema { properties, required: Vec::new(), closed: false };
        assert(s@.required =~= Seq::empty());
        s
    }

    /// An object schema with no properties.
    pub fn empty_object() -> (s: JsonSchema)
        ensures
            s@ == (SchemaModel { properties: Seq::empty(), required: Seq::empty(), closed: false }),
    {
        let s = Self::object(Vec::new());
        assert(s@.properties =~= Seq::empty());
        s
    }

    /// The same schema with these names required; no names leave it as it was.
    pub fn with_required(self, required: Vec<String>) -> (s: JsonSchema)
        ensures
            required@.len() == 0 ==> s@ == self@,
            required@.len() > 0 ==> s@ == (SchemaModel { required: strings_view(required@), ..self@ }),
    {
        if required.len() == 0 {
            return self;
        }
        JsonSchema { properties: self.properties, required, closed: self.closed }
    }
}

/// A tool the server offers: its name, what it does, and its arguments.
#[derive(Debug, Clone, PartialEq, Eq)]
pub struct Tool {
    pub name: String,
    pub description: Option<String>,
    pub input_schema: JsonSchema,
}

pub struct ToolModel {
    pub name: Seq<char>,
    pub description: Option<Seq<char>>,
    pub input_schema: SchemaModel,
}

impl View for Tool {
    type V = ToolModel;

    open spec fn view(&self) -> ToolModel {
        ToolModel {
            name: self.name@,
            description: opt_view(self.description),
            input_schema: self.input_schema@,
        }
    }
}

impl Tool {
    pub fn new(name: String, input_schema: JsonSchema) -> (t: Tool)
        ensures
            t@ == (ToolModel { name: name@, description: None, input_schema: input_schema@ }),
    {
        Tool { name, description: None, input_schema }
    }

    /// The same tool, described.
    pub fn with_description(self, description: String) -> (t: Tool)
        ensures
            t@ == (ToolModel { description: Some(description@), ..self@ }),
    {
        Tool { name: self.name, description: Some(description), input_schema: self.input_schema }
    }
}

/// A page of the tool list.
#[derive(Debug, Clone, PartialEq, Eq)]
pub struct ListToolsResult {
    pub tools: Vec<Tool>,
    pub next_cursor: Option<String>,
}

impl ListToolsResult {
    pub fn new(tools: Vec<Tool>) -> (r: ListToolsResult)
        ensures
            r.tools == tools && r.next_cursor is None,
    {
        ListToolsResult { tools, next_cursor: None }
    }

    /// The same page, with a cursor to the next.
    pub fn with_next_cursor(self, next_cursor: String) -> (r: ListToolsResult)
        ensures
            r.tools == self.tools && opt_view(r.next_cursor) == Some(next_cursor@),
    {
        ListToolsResult { tools: self.tools, next_cursor: Some(next_cursor) }
    }
}

} // verus!
