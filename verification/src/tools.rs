//! The decisions behind the MCP tools: argument validation, capture
//! selection, capture scopes, status warnings and watch requests.
use vstd::prelude::*;
use crate::capture::{CaptureScope, ConnectedDevice, DevicePlatform, default_clean_capture};
use crate::crash_detector::{CrashReport, CrashType};
use crate::watch::WatchRetentionStats;
use crate::log_entry::{LogEntry, LogLevel, clone_opt_string, level_char, opt_view};
use crate::network_condition::{CustomNetworkParams, NetworkConditionPreset, NetworkConditionSpec, custom_params_error, same_custom};
use crate::protocol::{CallToolResult, ToolContent};
use crate::watch::{BufferedLogEntry, BufferedModel, PatternType, Watch, WatchSet, WatchSummary, after_seq, buffered_views, fresh_watch, seed_steps, summarizes, take_at_most};
use crate::pattern::{CompiledRegex, compile_regex, regex_compiles, regex_error_text};
use crate::sorting::{lex_le, lex_lt, lemma_lex_total, lemma_lex_trans, str_less};
use crate::text::{contains, chars_eq_str, chars_of, decimal, join, join_strings, lower, lower_chars, push_char, push_decimal, sviews, trim, trim_chars, trim_str};

verus! {

pub const DEFAULT_GET_LOGS_LIMIT: usize = 100;

pub const MAX_GET_LOGS_LIMIT: usize = 1000;

pub const DEFAULT_GET_CRASHES_LIMIT: usize = 10;

/// Buffer use, in percent, at which an unscoped iOS capture counts as hot.
pub const HOT_BUFFER_UTILIZATION_PCT: usize = 90;

/// Seconds a physical iOS capture may stay idle unless configured otherwise.
pub const DEFAULT_IOS_DEVICE_IDLE_TIMEOUT_SECS: u64 = 900;

// ---------------------------------------------------------------------------
// Errors
// ---------------------------------------------------------------------------

/// A lowercase hexadecimal digit.
pub open spec fn hex_digit(d: u32) -> char {
    if d < 10 {
        ('0' as u32 + d) as char
    } else {
        ('a' as u32 + d - 10) as char
    }
}

/// How `serde_json` writes one character inside a string: `"` and `\` and
/// the control characters backspace, tab, line feed, form feed and carriage
/// return by their two-character escapes, other control characters below
/// 0x20 as `\u00` and two hexadecimal digits, everything else as itself.
pub open spec fn json_escape_char(c: char) -> Seq<char> {
    if c == '"' {
        seq!['\\', '"']
    } else if c == '\\' {
        seq!['\\', '\\']
    } else if c == '\u{8}' {
        seq!['\\', 'b']
    } else if c == '\t' {
        seq!['\\', 't']
    } else if c == '\n' {
        seq!['\\', 'n']
    } else if c == '\u{c}' {
        seq!['\\', 'f']
    } else if c == '\r' {
        seq!['\\', 'r']
    } else if (c as u32) < 0x20 {
        seq!['\\', 'u', '0', '0', hex_digit((c as u32) / 16), hex_digit((c as u32) % 16)]
    } else {
        seq![c]
    }
}

/// The escaped characters of a JSON string.
pub open spec fn json_escaped(s: Seq<char>) -> Seq<char>
    decreases s.len(),
{
    if s.len() == 0 {
        Seq::empty()
    } else {
        json_escaped(s.drop_last()) + json_escape_char(s.last())
    }
}

/// What `serde_json` writes for a string: a quote, the escaped characters
/// and a closing quote.
pub open spec fn json_string(s: Seq<char>) -> Seq<char> {
    seq!['"'] + json_escaped(s) + seq!['"']
}

/// Calls `serde_json::to_string` on a `str`, whose source writes a quote,
/// each character escaped by its escape table (`json_escape_char`) and a
/// closing quote. Serializing a `str` cannot fail; the error arm yields an
/// empty string.
#[verifier::external_body]
fn json_quote(s: &str) -> (r: String)
    ensures
        r@ == json_string(s@),
{
    match serde_json::to_string(s) {
        Ok(t) => t,
        Err(_) => String::new(),
    }
}

/// An error a tool reports: a machine-readable code and a message.
#[derive(Debug, Clone)]
pub struct McpToolError {
    pub code: String,
    pub message: String,
}

pub open spec fn is_error(e: McpToolError, code: Seq<char>, message: Seq<char>) -> bool {
    e.code@ == code && e.message@ == message
}

impl McpToolError {
    pub fn new(code: &str, message: String) -> (e: McpToolError)
        ensures
            is_error(e, code@, message@),
    {
        McpToolError { code: code.to_string(), message }
    }

    pub fn invalid_params(message: String) -> (e: McpToolError)
        ensures
            is_error(e, "invalid_params"@, message@),
    {
        Self::new("invalid_params", message)
    }

    pub fn not_found(message: String) -> (e: McpToolError)
        ensures
            is_error(e, "not_found"@, message@),
    {
        Self::new("not_found", message)
    }

    pub fn conflict(message: String) -> (e: McpToolError)
        ensures
            is_error(e, "conflict"@, message@),
    {
        Self::new("conflict", message)
    }

    pub fn internal(message: String) -> (e: McpToolError)
        ensures
            is_error(e, "internal"@, message@),
    {
        Self::new("internal", message)
    }

    pub fn unknown_tool(message: String) -> (e: McpToolError)
        ensures
            is_error(e, "unknown_tool"@, message@),
    {
        Self::new("unknown_tool", message)
    }

    /// `"<code>: <message>"` (what `Display` writes).
    pub fn to_text(&self) -> (s: String)
        ensures
            s@ == self.code@ + ": "@ + self.message@,
    {
        let mut s = self.code.clone();
        s.append(": ");
        s.append(self.message.as_str());
        s
    }

    /// The result of a failed tool call: an error carrying the JSON payload.
    pub fn into_call_tool_result(self) -> (r: CallToolResult)
        ensures
            r.is_error,
            r.content@.len() == 1,
            r.content@[0] matches ToolContent::Text { text: t } && t@ == "{\"error\":{\"code\":"@
                + json_string(self.code@) + ",\"message\":"@ + json_string(self.message@) + "}}"@,
    {
        let text = self.payload_text();
        CallToolResult::error_text(text)
    }

    /// The JSON payload a failed tool call carries:
    /// `{"error":{"code":<code>,"message":<message>}}`.
    pub fn payload_text(&self) -> (s: String)
        ensures
            s@ == "{\"error\":{\"code\":"@ + json_string(self.code@) + ",\"message\":"@ + json_string(
                self.message@,
            ) + "}}"@,
    {
        let mut s = String::new();
        s.append("{\"error\":{\"code\":");
        let c = json_quote(self.code.as_str());
        s.append(c.as_str());
        s.append(",\"message\":");
        let m = json_quote(self.message.as_str());
        s.append(m.as_str());
        s.append("}}");
        s
    }
}

/// Builds `prefix + value + suffix`.
fn framed(prefix: &str, value: &str, suffix: &str) -> (s: String)
    ensures
        s@ == prefix@ + value@ + suffix@,
{
    let mut s = String::new();
    s.append(prefix);
    s.append(value);
    s.append(suffix);
    s
}

// ---------------------------------------------------------------------------
// Small argument helpers
// ---------------------------------------------------------------------------

pub open spec fn normalized_opt(value: Option<Seq<char>>) -> Option<Seq<char>> {
    match value {
        Some(v) => if trim(v).len() == 0 {
            None
        } else {
            Some(trim(v))
        },
        None => None,
    }
}

/// `None` for an absent or blank value, else the trimmed value.
pub fn normalize_optional_string(value: Option<String>) -> (r: Option<String>)
    ensures
        opt_view(r) == normalized_opt(opt_view(value)),
{
    match value {
        Some(v) => {
            let t = trim_str(v.as_str());
            if t.as_str().is_empty() {
                None
            } else {
                Some(t)
            }
        },
        None => None,
    }
}

/// The level a (trimmed, lowercased) level name denotes.
pub open spec fn level_named(n: Seq<char>) -> Option<LogLevel> {
    if n == "v"@ || n == "verbose"@ {
        Some(LogLevel::Verbose)
    } else if n == "d"@ || n == "debug"@ {
        Some(LogLevel::Debug)
    } else if n == "i"@ || n == "info"@ || n == "information"@ {
        Some(LogLevel::Info)
    } else if n == "w"@ || n == "warn"@ || n == "warning"@ {
        Some(LogLevel::Warn)
    } else if n == "e"@ || n == "error"@ {
        Some(LogLevel::Error)
    } else if n == "f"@ || n == "fatal"@ {
        Some(LogLevel::Fatal)
    } else {
        None
    }
}

/// Reads a log level by letter or name, ignoring surrounding whitespace and
/// ASCII case.
pub fn parse_log_level(input: &str) -> (r: Result<LogLevel, McpToolError>)
    ensures
        match level_named(lower(trim(input@))) {
            Some(l) => r == Ok::<LogLevel, McpToolError>(l),
            None => r matches Err(e) && is_error(
                e,
                "invalid_params"@,
                "unsupported log level `"@ + input@ + "`"@,
            ),
        },
{
    let cs = chars_of(input);
    let t = trim_chars(&cs);
    let n = lower_chars(&t);
    if chars_eq_str(&n, "v") || chars_eq_str(&n, "verbose") {
        Ok(LogLevel::Verbose)
    } else if chars_eq_str(&n, "d") || chars_eq_str(&n, "debug") {
        Ok(LogLevel::Debug)
    } else if chars_eq_str(&n, "i") || chars_eq_str(&n, "info") || chars_eq_str(&n, "information") {
        Ok(LogLevel::Info)
    } else if chars_eq_str(&n, "w") || chars_eq_str(&n, "warn") || chars_eq_str(&n, "warning") {
        Ok(LogLevel::Warn)
    } else if chars_eq_str(&n, "e") || chars_eq_str(&n, "error") {
        Ok(LogLevel::Error)
    } else if chars_eq_str(&n, "f") || chars_eq_str(&n, "fatal") {
        Ok(LogLevel::Fatal)
    } else {
        Err(McpToolError::invalid_params(framed("unsupported log level `", input, "`")))
    }
}

/// The crash type a (trimmed, lowercased) name denotes.
pub open spec fn crash_type_named(n: Seq<char>) -> Option<CrashType> {
    if n == "java_exception"@ {
        Some(CrashType::JavaException)
    } else if n == "native_crash"@ {
        Some(CrashType::NativeCrash)
    } else if n == "anr"@ {
        Some(CrashType::Anr)
    } else if n == "ios_crash"@ {
        Some(CrashType::IosCrash)
    } else {
        None
    }
}

/// Reads a crash type by name, ignoring surrounding whitespace and ASCII case.
pub fn parse_crash_type(input: &str) -> (r: Result<CrashType, McpToolError>)
    ensures
        match crash_type_named(lower(trim(input@))) {
            Some(c) => r == Ok::<CrashType, McpToolError>(c),
            None => r matches Err(e) && is_error(
                e,
                "invalid_params"@,
                "unsupported crash type `"@ + input@
                    + "`; expected java_exception, native_crash, anr, or ios_crash"@,
            ),
        },
{
    let cs = chars_of(input);
    let t = trim_chars(&cs);
    let n = lower_chars(&t);
    if chars_eq_str(&n, "java_exception") {
        Ok(CrashType::JavaException)
    } else if chars_eq_str(&n, "native_crash") {
        Ok(CrashType::NativeCrash)
    } else if chars_eq_str(&n, "anr") {
        Ok(CrashType::Anr)
    } else if chars_eq_str(&n, "ios_crash") {
        Ok(CrashType::IosCrash)
    } else {
        Err(
            McpToolError::invalid_params(
                framed(
                    "unsupported crash type `",
                    input,
                    "`; expected java_exception, native_crash, anr, or ios_crash",
                ),
            ),
        )
    }
}

// ---------------------------------------------------------------------------
// Capture selection
// ---------------------------------------------------------------------------

/// Which capture a tool call addresses: by id, by device, or both.
#[derive(Debug, Clone, Default)]
pub struct CaptureSelector {
    pub capture_id: Option<String>,
    pub device: Option<String>,
}

impl CaptureSelector {
    /// A selector with blank parts dropped and the others trimmed.
    pub fn new(capture_id: Option<String>, device: Option<String>) -> (s: CaptureSelector)
        ensures
            opt_view(s.capture_id) == normalized_opt(opt_view(capture_id)),
            opt_view(s.device) == normalized_opt(opt_view(device)),
    {
        CaptureSelector { capture_id, device }.normalized()
    }

    pub fn is_empty(&self) -> (b: bool)
        ensures
            b == (self.capture_id is None && self.device is None),
    {
        self.capture_id.is_none() && self.device.is_none()
    }

    /// The selector with blank parts dropped and the others trimmed.
    pub fn normalized(self) -> (s: CaptureSelector)
        ensures
            opt_view(s.capture_id) == normalized_opt(opt_view(self.capture_id)),
            opt_view(s.device) == normalized_opt(opt_view(self.device)),
    {
        CaptureSelector {
            capture_id: normalize_optional_string(self.capture_id),
            device: normalize_optional_string(self.device),
        }
    }
}

/// Order of a page of log entries.
#[derive(Debug, Clone, Copy, PartialEq, Eq, Structural)]
pub enum QueryOrder {
    Asc,
    Desc,
}

impl Default for QueryOrder {
    fn default() -> (o: QueryOrder)
        ensures
            o == QueryOrder::Desc,
    {
        QueryOrder::Desc
    }
}

// ---------------------------------------------------------------------------
// Capture scopes
// ---------------------------------------------------------------------------

/// The arguments of `start_capture`.
#[derive(Debug, Clone)]
pub struct StartCaptureArgs {
    pub device: Option<String>,
    pub pid: Option<u32>,
    pub package: Option<String>,
    pub capacity: Option<usize>,
    pub process: Option<String>,
    pub text: Option<String>,
    pub predicate: Option<String>,
    pub clean: Option<bool>,
    pub quiet: bool,
    pub restart: bool,
}

impl Default for StartCaptureArgs {
    fn default() -> (a: StartCaptureArgs)
        ensures
            a.device is None && a.pid is None && a.package is None && a.capacity is None
                && a.process is None && a.text is None && a.predicate is None && a.clean is None
                && !a.quiet && !a.restart,
    {
        StartCaptureArgs {
            device: None,
            pid: None,
            package: None,
            capacity: None,
            process: None,
            text: None,
            predicate: None,
            clean: None,
            quiet: false,
            restart: false,
        }
    }
}

/// The scope a `start_capture` request asks for on a platform (before the
/// platform's restrictions are checked).
pub open spec fn requested_scope_ok(s: CaptureScope, platform: DevicePlatform, args: StartCaptureArgs) -> bool {
    &&& opt_view(s.process) == normalized_opt(opt_view(args.process))
    &&& opt_view(s.text) == normalized_opt(opt_view(args.text))
    &&& opt_view(s.predicate) == normalized_opt(opt_view(args.predicate))
    &&& s.quiet == args.quiet
    &&& s.clean == match args.clean {
        Some(c) => c,
        None => platform != DevicePlatform::Android,
    }
}

pub open spec fn scope_error(platform: DevicePlatform, args: StartCaptureArgs) -> Option<Seq<char>> {
    match platform {
        DevicePlatform::Android => {
            if normalized_opt(opt_view(args.process)) is None && normalized_opt(opt_view(args.text)) is None
                && normalized_opt(opt_view(args.predicate)) is None && !args.quiet && args.clean is None {
                None
            } else {
                Some("process, text, predicate, clean, and quiet are only supported for iOS captures"@)
            }
        },
        DevicePlatform::IosSimulator => if args.quiet {
            Some("quiet is only supported for physical iOS captures"@)
        } else {
            None
        },
        DevicePlatform::IosDevice => if normalized_opt(opt_view(args.predicate)) is Some {
            Some("predicate is only supported for iOS simulator captures"@)
        } else {
            None
        },
    }
}

/// The capture scope a `start_capture` request asks for: scope fields only
/// on iOS, `quiet` only on physical devices, a predicate only on simulators;
/// clean capture by default on iOS.
pub fn resolve_capture_scope(device: &ConnectedDevice, args: &StartCaptureArgs) -> (r: Result<
    CaptureScope,
    McpToolError,
>)
    ensures
        match scope_error(device.platform, *args) {
            None => r matches Ok(s) && requested_scope_ok(s, device.platform, *args),
            Some(m) => r matches Err(e) && is_error(e, "invalid_params"@, m),
        },
{
    let clean = match args.clean {
        Some(c) => c,
        None => default_clean_capture(device.platform),
    };
    let scope = CaptureScope {
        process: normalize_optional_string(clone_opt_string(&args.process)),
        text: normalize_optional_string(clone_opt_string(&args.text)),
        predicate: normalize_optional_string(clone_opt_string(&args.predicate)),
        quiet: args.quiet,
        clean,
    };
    match device.platform {
        DevicePlatform::Android => {
            if scope.is_empty() && args.clean.is_none() {
                Ok(scope)
            } else {
                Err(
                    McpToolError::invalid_params(
                        "process, text, predicate, clean, and quiet are only supported for iOS captures".to_string(),
                    ),
                )
            }
        },
        DevicePlatform::IosSimulator => {
            if scope.quiet {
                return Err(
                    McpToolError::invalid_params(
                        "quiet is only supported for physical iOS captures".to_string(),
                    ),
                );
            }
            Ok(scope)
        },
        DevicePlatform::IosDevice => {
            if scope.predicate.is_some() {
                return Err(
                    McpToolError::invalid_params(
                        "predicate is only supported for iOS simulator captures".to_string(),
                    ),
                );
            }
            Ok(scope)
        },
    }
}

/// Retained-match capacity of a new watch on a capture whose main buffer
/// holds `main_capacity` entries: a tenth of it, kept within 256..=5000.
pub fn watch_retention_capacity(main_capacity: usize) -> (c: usize)
    ensures
        c == (if main_capacity / 10 < 256 {
            256
        } else if main_capacity / 10 > 5000 {
            5000
        } else {
            main_capacity / 10
        }),
{
    let tenth = main_capacity / 10;
    if tenth < 256 {
        256
    } else if tenth > 5000 {
        5000
    } else {
        tenth
    }
}

// ---------------------------------------------------------------------------
// Idle timeouts
// ---------------------------------------------------------------------------

/// The idle timeout of physical iOS captures, in seconds, from the value of
/// its environment variable: unset or unreadable gives the default, `0`
/// disables it.
pub fn ios_device_idle_timeout_secs(raw: Option<&str>) -> (r: Option<u64>)
    ensures
        r == (match raw {
            None => Some(DEFAULT_IOS_DEVICE_IDLE_TIMEOUT_SECS),
            Some(v) => match crate::text::parse_unsigned(trim(v@), u64::MAX as nat) {
                Some(n) => if n == 0 {
                    None
                } else {
                    Some(n as u64)
                },
                None => Some(DEFAULT_IOS_DEVICE_IDLE_TIMEOUT_SECS),
            },
        }),
{
    match raw {
        None => Some(DEFAULT_IOS_DEVICE_IDLE_TIMEOUT_SECS),
        Some(v) => {
            let cs = chars_of(v);
            let t = trim_chars(&cs);
            match crate::text::parse_unsigned_range(&t, 0, t.len(), u64::MAX) {
                Some(n) => {
                    assert(t@.subrange(0, t@.len() as int) =~= t@);
                    if n == 0 {
                        None
                    } else {
                        Some(n)
                    }
                },
                None => {
                    assert(t@.subrange(0, t@.len() as int) =~= t@);
                    Some(DEFAULT_IOS_DEVICE_IDLE_TIMEOUT_SECS)
                },
            }
        },
    }
}

/// Only physical iOS captures stop when idle.
pub fn idle_timeout_for_platform(platform: DevicePlatform, ios_device_timeout_secs: Option<u64>) -> (r:
    Option<u64>)
    ensures
        r == (if platform == DevicePlatform::IosDevice {
            ios_device_timeout_secs
        } else {
            None
        }),
{
    match platform {
        DevicePlatform::IosDevice => ios_device_timeout_secs,
        DevicePlatform::Android | DevicePlatform::IosSimulator => None,
    }
}

pub open spec fn millis_of_secs(secs: u64) -> u64 {
    if secs * 1000 > u64::MAX {
        u64::MAX
    } else {
        (secs * 1000) as u64
    }
}

/// A whole number of seconds in milliseconds, saturating at `u64::MAX`.
pub fn secs_as_millis(secs: u64) -> (ms: u64)
    ensures
        ms == millis_of_secs(secs),
{
    if secs > u64::MAX / 1000 {
        u64::MAX
    } else {
        secs * 1000
    }
}

/// The stop reason of a capture that timed out after `secs` seconds.
pub fn idle_timeout_reason(secs: u64) -> (s: String)
    ensures
        s@ == "stopped after idle timeout ("@ + decimal(secs as nat) + "s)"@,
{
    let mut s = String::new();
    s.append("stopped after idle timeout (");
    push_decimal(&mut s, secs);
    s.append("s)");
    s
}

pub open spec fn sat_sub(a: u64, b: u64) -> u64 {
    if a >= b {
        (a - b) as u64
    } else {
        0
    }
}

/// Whether an idle capture is due to be stopped: it is running, no stop was
/// requested yet, it has an idle timeout, and it has been idle that long.
pub fn idle_shutdown_due(
    shutdown_requested: bool,
    running: bool,
    timeout_secs: Option<u64>,
    now_ms: u64,
    last_activity_at_ms: u64,
) -> (b: bool)
    ensures
        b == (!shutdown_requested && running && timeout_secs is Some && sat_sub(
            now_ms,
            last_activity_at_ms,
        ) >= millis_of_secs(timeout_secs->0)),
{
    if shutdown_requested || !running {
        return false;
    }
    match timeout_secs {
        None => false,
        Some(t) => now_ms.saturating_sub(last_activity_at_ms) >= secs_as_millis(t),
    }
}

/// How long an idle capture has left before its timeout.
pub fn idle_remaining_ms(timeout_secs: u64, idle_ms: u64) -> (ms: u64)
    ensures
        ms == sat_sub(millis_of_secs(timeout_secs), idle_ms),
{
    secs_as_millis(timeout_secs).saturating_sub(idle_ms)
}

// ---------------------------------------------------------------------------
// Capture status
// ---------------------------------------------------------------------------

/// The state of a capture's main log buffer.
#[derive(Debug, Clone, Copy)]
pub struct LogBufferStatus {
    pub capacity: usize,
    pub len: usize,
    pub dropped: u64,
    pub next_seq: u64,
    pub oldest_seq: Option<u64>,
    pub newest_seq: Option<u64>,
}

/// What the watches of a capture retain.
#[derive(Debug, Clone, Copy)]
pub struct WatchRetentionStatus {
    pub watch_count: usize,
    pub retained_count: usize,
    pub retained_capacity: usize,
    pub retained_dropped: u64,
}

impl From<WatchRetentionStats> for WatchRetentionStatus {
    fn from(value: WatchRetentionStats) -> (s: WatchRetentionStatus) {
        WatchRetentionStatus {
            watch_count: value.watch_count,
            retained_count: value.retained_count,
            retained_capacity: value.retained_capacity,
            retained_dropped: value.retained_dropped,
        }
    }
}

/// How a capture is scoped.
#[derive(Debug, Clone)]
pub struct CaptureScopeStatus {
    pub scoped: bool,
    pub process: Option<String>,
    pub text: Option<String>,
    pub predicate: Option<String>,
    pub quiet: bool,
}

impl CaptureScopeStatus {
    pub fn from_scope(value: &CaptureScope) -> (s: CaptureScopeStatus)
        ensures
            s.scoped == (value.process is Some || value.text is Some || value.predicate is Some),
            opt_view(s.process) == opt_view(value.process),
            opt_view(s.text) == opt_view(value.text),
            opt_view(s.predicate) == opt_view(value.predicate),
            s.quiet == value.quiet,
    {
        CaptureScopeStatus {
            scoped: value.is_explicitly_scoped(),
            process: clone_opt_string(&value.process),
            text: clone_opt_string(&value.text),
            predicate: clone_opt_string(&value.predicate),
            quiet: value.quiet,
        }
    }
}

/// The status of one capture.
#[derive(Debug, Clone)]
pub struct CaptureStatus {
    pub capture_id: String,
    pub device: String,
    pub platform: DevicePlatform,
    pub device_name: String,
    pub package: Option<String>,
    pub pid_filter: Option<u32>,
    pub running: bool,
    pub started_at_ms: u64,
    pub last_activity_at_ms: u64,
    pub idle_timeout_ms: Option<u64>,
    pub finished_at_ms: Option<u64>,
    pub stop_reason: Option<String>,
    pub ingested_lines: u64,
    pub parsed_entries: u64,
    pub parse_errors: u64,
    pub buffer: LogBufferStatus,
    pub scope: CaptureScopeStatus,
    pub retained_matches: WatchRetentionStatus,
    pub warnings: Vec<String>,
}

impl vstd::std_specs::convert::FromSpecImpl<WatchRetentionStats> for WatchRetentionStatus {
    open spec fn obeys_from_spec() -> bool {
        true
    }

    open spec fn from_spec(value: WatchRetentionStats) -> WatchRetentionStatus {
        WatchRetentionStatus {
            watch_count: value.watch_count,
            retained_count: value.retained_count,
            retained_capacity: value.retained_capacity,
            retained_dropped: value.retained_dropped,
        }
    }
}

// ---------------------------------------------------------------------------
// Capture warnings
// ---------------------------------------------------------------------------

pub open spec fn warn_if(cond: bool, w: Seq<char>) -> Seq<Seq<char>> {
    if cond {
        seq![w]
    } else {
        seq![]
    }
}

pub open spec fn is_ios(platform: DevicePlatform) -> bool {
    platform == DevicePlatform::IosDevice || platform == DevicePlatform::IosSimulator
}

pub open spec fn utilization_pct(b: LogBufferStatus) -> int {
    if b.capacity == 0 {
        0
    } else {
        (if b.len * 100 > usize::MAX {
            usize::MAX as int
        } else {
            b.len * 100
        }) / (b.capacity as int)
    }
}

pub open spec fn raw_ios_warning() -> Seq<char> {
    "Raw iOS capture is enabled without clean mode. Expect heavier system noise unless you restart with clean capture or add explicit process/text/predicate scope."@
}

pub open spec fn unscoped_drop_warning(dropped: u64) -> Seq<char> {
    "Main buffer has already dropped "@ + decimal(dropped as nat)
        + " older entries from an unscoped iOS capture. Restart with process/text/predicate scope, clear_logs before reproducing, and pin high-signal lines with create_watch/get_watch_matches."@
}

pub open spec fn drop_warning(dropped: u64) -> Seq<char> {
    "Main buffer has already dropped "@ + decimal(dropped as nat)
        + " older entries. Use create_watch/get_watch_matches if you need important lines to outlive main-buffer eviction."@
}

pub open spec fn hot_warning() -> Seq<char> {
    "Unscoped iOS capture is near capacity. Add process/text/predicate scope or create a watch before the next reproduction."@
}

pub open spec fn idle_warning(timeout_secs: u64, remaining: Seq<char>) -> Seq<char> {
    "Physical iOS capture auto-stops after "@ + decimal(timeout_secs as nat)
        + "s without MCP activity. Poll get_logs/get_status/get_watch_matches to keep it alive (about "@
        + remaining + " remaining)."@
}

pub open spec fn no_watch_warning() -> Seq<char> {
    "No watches are active, so only the main buffer is retaining lines. Create a watch for the app process, subsystem, or error text to keep relevant entries pinned."@
}

pub open spec fn retained_drop_warning(dropped: u64) -> Seq<char> {
    "Retained watch matches have also started evicting older entries ("@ + decimal(dropped as nat)
        + " dropped). Narrow the watch, raise retainedCapacity on create_watch, or clear logs before the next reproduction."@
}

pub open spec fn idle_warning_due(platform: DevicePlatform, running: bool, timeout_secs: Option<u64>, idle_ms: u64) -> bool {
    running && platform == DevicePlatform::IosDevice && timeout_secs is Some && idle_ms >= (if millis_of_secs(timeout_secs->0) * 3 > u64::MAX {
        u64::MAX as int
    } else {
        millis_of_secs(timeout_secs->0) * 3
    }) / 4
}

/// The warnings a capture's status carries, in order.
pub open spec fn capture_warning_list(
    platform: DevicePlatform,
    scope: CaptureScope,
    buffer: LogBufferStatus,
    retained: WatchRetentionStatus,
    running: bool,
    timeout_secs: Option<u64>,
    idle_ms: u64,
    remaining: Seq<char>,
) -> Seq<Seq<char>> {
    let ios = is_ios(platform);
    let scoped = scope.process is Some || scope.text is Some || scope.predicate is Some;
    warn_if(ios && !scope.clean && !scoped, raw_ios_warning())
        + (if buffer.dropped > 0 {
        seq![if ios && !scoped { unscoped_drop_warning(buffer.dropped) } else { drop_warning(buffer.dropped) }]
    } else {
        seq![]
    }) + warn_if(ios && !scoped && utilization_pct(buffer) >= HOT_BUFFER_UTILIZATION_PCT, hot_warning())
        + warn_if(
        idle_warning_due(platform, running, timeout_secs, idle_ms),
        idle_warning(timeout_secs->0, remaining),
    ) + warn_if(ios && retained.watch_count == 0 && buffer.dropped > 0, no_watch_warning())
        + warn_if(retained.retained_dropped > 0, retained_drop_warning(retained.retained_dropped))
}

/// The warnings of a capture's status: raw (unclean, unscoped) iOS capture,
/// main-buffer eviction, a nearly full unscoped iOS buffer, an imminent idle
/// stop (with `remaining_text` telling how long is left), no watches
/// retaining lines, and eviction from the watches' retention.
/// `idle_ms` is how long the capture has been idle.
pub fn capture_warnings(
    platform: DevicePlatform,
    scope: &CaptureScope,
    buffer: &LogBufferStatus,
    retained_matches: &WatchRetentionStatus,
    running: bool,
    idle_timeout_secs: Option<u64>,
    idle_ms: u64,
    remaining_text: &str,
) -> (r: Vec<String>)
    ensures
        sviews(r@) == capture_warning_list(
            platform,
            *scope,
            *buffer,
            *retained_matches,
            running,
            idle_timeout_secs,
            idle_ms,
            remaining_text@,
        ),
{
    let mut warnings: Vec<String> = Vec::new();
    let utilization = if buffer.capacity == 0 {
        0
    } else {
        let scaled = if buffer.len > usize::MAX / 100 {
            usize::MAX
        } else {
            buffer.len * 100
        };
        scaled / buffer.capacity
    };
    let ios_capture = match platform {
        DevicePlatform::IosDevice | DevicePlatform::IosSimulator => true,
        DevicePlatform::Android => false,
    };
    let explicitly_scoped = scope.is_explicitly_scoped();
    let ghost w1 = warn_if(ios_capture && !scope.clean && !explicitly_scoped, raw_ios_warning());
    if ios_capture && !scope.clean && !explicitly_scoped {
        warnings.push(
            "Raw iOS capture is enabled without clean mode. Expect heavier system noise unless you restart with clean capture or add explicit process/text/predicate scope.".to_string(),
        );
    }
    assert(sviews(warnings@) =~= w1);
    let ghost w2 = w1 + (if buffer.dropped > 0 {
        seq![if ios_capture && !explicitly_scoped { unscoped_drop_warning(buffer.dropped) } else { drop_warning(buffer.dropped) }]
    } else {
        seq![]
    });
    if buffer.dropped > 0 {
        let mut m = String::new();
        m.append("Main buffer has already dropped ");
        push_decimal(&mut m, buffer.dropped);
        if ios_capture && !explicitly_scoped {
            m.append(
                " older entries from an unscoped iOS capture. Restart with process/text/predicate scope, clear_logs before reproducing, and pin high-signal lines with create_watch/get_watch_matches.",
            );
        } else {
            m.append(
                " older entries. Use create_watch/get_watch_matches if you need important lines to outlive main-buffer eviction.",
            );
        }
        warnings.push(m);
    }
    assert(sviews(warnings@) =~= w2);
    let ghost w3 = w2 + warn_if(ios_capture && !explicitly_scoped && utilization_pct(*buffer) >= HOT_BUFFER_UTILIZATION_PCT, hot_warning());
    if ios_capture && !explicitly_scoped && utilization >= HOT_BUFFER_UTILIZATION_PCT {
        warnings.push(
            "Unscoped iOS capture is near capacity. Add process/text/predicate scope or create a watch before the next reproduction.".to_string(),
        );
    }
    assert(sviews(warnings@) =~= w3);
    let ghost w4 = w3 + warn_if(
        idle_warning_due(platform, running, idle_timeout_secs, idle_ms),
        idle_warning(idle_timeout_secs->0, remaining_text@),
    );
    if running && platform == DevicePlatform::IosDevice {
        if let Some(timeout) = idle_timeout_secs {
            let timeout_ms = secs_as_millis(timeout);
            let tripled = if timeout_ms > u64::MAX / 3 {
                u64::MAX
            } else {
                timeout_ms * 3
            };
            if idle_ms >= tripled / 4 {
                let mut m = String::new();
                m.append("Physical iOS capture auto-stops after ");
                push_decimal(&mut m, timeout);
                m.append(
                    "s without MCP activity. Poll get_logs/get_status/get_watch_matches to keep it alive (about ",
                );
                m.append(remaining_text);
                m.append(" remaining).");
                warnings.push(m);
            }
        }
    }
    assert(sviews(warnings@) =~= w4);
    let ghost w5 = w4 + warn_if(ios_capture && retained_matches.watch_count == 0 && buffer.dropped > 0, no_watch_warning());
    if ios_capture && retained_matches.watch_count == 0 && buffer.dropped > 0 {
        warnings.push(
            "No watches are active, so only the main buffer is retaining lines. Create a watch for the app process, subsystem, or error text to keep relevant entries pinned.".to_string(),
        );
    }
    assert(sviews(warnings@) =~= w5);
    if retained_matches.retained_dropped > 0 {
        let mut m = String::new();
        m.append("Retained watch matches have also started evicting older entries (");
        push_decimal(&mut m, retained_matches.retained_dropped);
        m.append(
            " dropped). Narrow the watch, raise retainedCapacity on create_watch, or clear logs before the next reproduction.",
        );
        warnings.push(m);
    }
    assert(sviews(warnings@) =~= w5 + warn_if(retained_matches.retained_dropped > 0, retained_drop_warning(retained_matches.retained_dropped)));
    warnings
}

// ---------------------------------------------------------------------------
// Tool arguments and responses
// ---------------------------------------------------------------------------

#[derive(Debug, Clone, Default)]
pub struct ListDevicesArgs {}

#[derive(Debug, Clone, Default)]
pub struct StopCaptureArgs {
    pub capture_id: Option<String>,
    pub device: Option<String>,
}

#[derive(Debug, Clone, Default)]
pub struct ClearLogsArgs {
    pub capture_id: Option<String>,
    pub device: Option<String>,
}

#[derive(Debug, Clone, Default)]
pub struct GetStatusArgs {
    pub capture_id: Option<String>,
    pub device: Option<String>,
    pub include_devices: bool,
}

#[derive(Debug, Clone, Default)]
pub struct ListWatchesArgs {
    pub capture_id: Option<String>,
    pub device: Option<String>,
}

#[derive(Debug, Clone)]
pub struct CreateWatchArgs {
    pub capture_id: Option<String>,
    pub device: Option<String>,
    pub name: String,
    pub pattern: String,
    pub pattern_type: String,
    pub tag: Option<String>,
    pub min_level: Option<String>,
    pub retained_capacity: Option<usize>,
}

#[derive(Debug, Clone)]
pub struct GetWatchMatchesArgs {
    pub capture_id: Option<String>,
    pub device: Option<String>,
    pub watch_id: String,
    pub since_seq: Option<u64>,
    pub limit: Option<usize>,
}

#[derive(Debug, Clone)]
pub struct DeleteWatchArgs {
    pub capture_id: Option<String>,
    pub device: Option<String>,
    pub watch_id: String,
}

#[derive(Debug, Clone)]
pub struct GetLogsArgs {
    pub capture_id: Option<String>,
    pub device: Option<String>,
    pub cursor: Option<u64>,
    pub order: QueryOrder,
    pub limit: Option<usize>,
    pub min_level: Option<String>,
    pub tag_query: Option<String>,
    pub text: Option<String>,
    pub process: Option<String>,
    pub subsystem: Option<String>,
    pub category: Option<String>,
    pub since: Option<String>,
}

#[derive(Debug, Clone)]
pub struct GetCrashesArgs {
    pub capture_id: Option<String>,
    pub device: Option<String>,
    pub limit: Option<usize>,
    pub crash_type: Option<String>,
    pub since: Option<String>,
}

/// The selector of a tool call's `captureId` and `device` arguments.
pub fn selector_of(capture_id: &Option<String>, device: &Option<String>) -> (s: CaptureSelector)
    ensures
        opt_view(s.capture_id) == normalized_opt(opt_view(*capture_id)),
        opt_view(s.device) == normalized_opt(opt_view(*device)),
{
    CaptureSelector::new(clone_opt_string(capture_id), clone_opt_string(device))
}

impl StopCaptureArgs {
    pub fn selector(&self) -> (s: CaptureSelector)
        ensures
            opt_view(s.capture_id) == normalized_opt(opt_view(self.capture_id)),
            opt_view(s.device) == normalized_opt(opt_view(self.device)),
    {
        selector_of(&self.capture_id, &self.device)
    }
}

impl ClearLogsArgs {
    pub fn selector(&self) -> (s: CaptureSelector)
        ensures
            opt_view(s.capture_id) == normalized_opt(opt_view(self.capture_id)),
            opt_view(s.device) == normalized_opt(opt_view(self.device)),
    {
        selector_of(&self.capture_id, &self.device)
    }
}

impl GetStatusArgs {
    pub fn selector(&self) -> (s: CaptureSelector)
        ensures
            opt_view(s.capture_id) == normalized_opt(opt_view(self.capture_id)),
            opt_view(s.device) == normalized_opt(opt_view(self.device)),
    {
        selector_of(&self.capture_id, &self.device)
    }
}

impl ListWatchesArgs {
    pub fn selector(&self) -> (s: CaptureSelector)
        ensures
            opt_view(s.capture_id) == normalized_opt(opt_view(self.capture_id)),
            opt_view(s.device) == normalized_opt(opt_view(self.device)),
    {
        selector_of(&self.capture_id, &self.device)
    }
}

impl CreateWatchArgs {
    pub fn selector(&self) -> (s: CaptureSelector)
        ensures
            opt_view(s.capture_id) == normalized_opt(opt_view(self.capture_id)),
            opt_view(s.device) == normalized_opt(opt_view(self.device)),
    {
        selector_of(&self.capture_id, &self.device)
    }
}

impl GetWatchMatchesArgs {
    pub fn selector(&self) -> (s: CaptureSelector)
        ensures
            opt_view(s.capture_id) == normalized_opt(opt_view(self.capture_id)),
            opt_view(s.device) == normalized_opt(opt_view(self.device)),
    {
        selector_of(&self.capture_id, &self.device)
    }
}

impl DeleteWatchArgs {
    pub fn selector(&self) -> (s: CaptureSelector)
        ensures
            opt_view(s.capture_id) == normalized_opt(opt_view(self.capture_id)),
            opt_view(s.device) == normalized_opt(opt_view(self.device)),
    {
        selector_of(&self.capture_id, &self.device)
    }
}

impl GetLogsArgs {
    pub fn selector(&self) -> (s: CaptureSelector)
        ensures
            opt_view(s.capture_id) == normalized_opt(opt_view(self.capture_id)),
            opt_view(s.device) == normalized_opt(opt_view(self.device)),
    {
        selector_of(&self.capture_id, &self.device)
    }
}

impl GetCrashesArgs {
    pub fn selector(&self) -> (s: CaptureSelector)
        ensures
            opt_view(s.capture_id) == normalized_opt(opt_view(self.capture_id)),
            opt_view(s.device) == normalized_opt(opt_view(self.device)),
    {
        selector_of(&self.capture_id, &self.device)
    }
}

#[derive(Debug, Clone, Default)]
pub struct ListPackagesArgs {
    pub device: Option<String>,
}

#[derive(Debug, Clone)]
pub struct ListPackagesResponse {
    pub packages: Vec<String>,
    pub count: usize,
}

#[derive(Debug, Clone)]
pub struct BootSimulatorArgs {
    pub udid: String,
}

#[derive(Debug, Clone)]
pub struct BootSimulatorResponse {
    pub message: String,
}

#[derive(Debug, Clone)]
pub struct ConnectDeviceArgs {
    pub host_port: String,
}

#[derive(Debug, Clone)]
pub struct ConnectDeviceResponse {
    pub message: String,
}

#[derive(Debug, Clone)]
pub struct DisconnectDeviceArgs {
    pub device: String,
}

#[derive(Debug, Clone)]
pub struct DisconnectDeviceResponse {
    pub message: String,
}

#[derive(Debug, Clone)]
pub struct PairDeviceArgs {
    pub host_port: String,
    pub code: String,
}

#[derive(Debug, Clone)]
pub struct PairDeviceResponse {
    pub message: String,
}

#[derive(Debug, Clone, Default)]
pub struct RestartAdbArgs {}

#[derive(Debug, Clone)]
pub struct RestartAdbResponse {
    pub message: String,
}

#[derive(Debug, Clone)]
pub struct SetLocationResponse {
    pub message: String,
}

#[derive(Debug, Clone, Default)]
pub struct ClearLocationArgs {
    pub device: Option<String>,
}

#[derive(Debug, Clone)]
pub struct ClearLocationResponse {
    pub message: String,
}

#[derive(Debug, Clone)]
pub struct SetNetworkConditionResponse {
    pub message: String,
}

#[derive(Debug, Clone, Default)]
pub struct ClearNetworkConditionArgs {
    pub device: Option<String>,
}

#[derive(Debug, Clone)]
pub struct ClearNetworkConditionResponse {
    pub message: String,
}

#[derive(Debug, Clone)]
pub struct CreateWatchResponse {
    pub watch_id: String,
    pub name: String,
    pub retained_capacity: usize,
}

#[derive(Debug, Clone)]
pub struct ListWatchesResponse {
    pub watches: Vec<WatchSummary>,
    pub count: usize,
}

#[derive(Debug, Clone)]
pub struct GetWatchMatchesResponse {
    pub entries: Vec<LogEntryView>,
    pub match_count: usize,
    pub watch: WatchSummary,
}

#[derive(Debug, Clone)]
pub struct DeleteWatchResponse {
    pub deleted: bool,
}

#[derive(Debug, Clone)]
pub struct GetCrashesResponse {
    pub crashes: Vec<CrashReportView>,
    pub total_count: usize,
}

#[derive(Debug, Clone)]
pub struct ListDevicesResponse {
    pub device_count: usize,
    pub devices: Vec<DeviceInfo>,
}

#[derive(Debug, Clone)]
pub struct StartCaptureResponse {
    pub restarted: bool,
    pub capture: CaptureStatus,
}

#[derive(Debug, Clone)]
pub struct StopCaptureResponse {
    pub stopped: bool,
    pub capture: CaptureStatus,
}

#[derive(Debug, Clone)]
pub struct ClearLogsResponse {
    pub cleared_entries: usize,
    pub cleared_retained_matches: usize,
    pub capture: CaptureStatus,
}

#[derive(Debug, Clone)]
pub struct GetLogsResponse {
    pub capture: CaptureStatus,
    pub page: LogPageView,
    pub entries: Vec<LogEntryView>,
}

#[derive(Debug, Clone)]
pub struct GetStatusResponse {
    pub default_buffer_capacity: usize,
    pub capture_count: usize,
    pub running_capture_count: usize,
    pub captures: Vec<CaptureStatus>,
    pub devices: Option<Vec<DeviceInfo>>,
}

/// A page of log entries, as described to the caller.
#[derive(Debug, Clone)]
pub struct LogPageView {
    pub cursor: Option<u64>,
    pub first_seq: Option<u64>,
    pub last_seq: Option<u64>,
    pub next_cursor: Option<u64>,
    pub returned: usize,
    pub limit: usize,
    pub order: QueryOrder,
    pub has_more: bool,
}

/// The arguments of `set_network_condition`: a preset or a custom profile.
#[derive(Debug, Clone)]
pub struct SetNetworkConditionArgs {
    pub device: Option<String>,
    pub preset: Option<NetworkConditionPreset>,
    pub custom: Option<CustomNetworkParams>,
}

impl SetNetworkConditionArgs {
    /// Resolves `preset` / `custom` into a single condition, rejecting
    /// requests that supply both or neither, and invalid custom profiles.
    pub fn resolve_spec(&self) -> (r: Result<NetworkConditionSpec, String>)
        ensures
            self.preset is Some && self.custom is Some ==> (r matches Err(e) && e@
                == "Provide either 'preset' or 'custom', not both."@),
            self.preset is None && self.custom is None ==> (r matches Err(e) && e@
                == "One of 'preset' or 'custom' is required."@),
            self.preset is Some && self.custom is None ==> r == Ok::<NetworkConditionSpec, String>(
                NetworkConditionSpec::Preset { preset: self.preset->0 },
            ),
            self.preset is None && self.custom is Some ==> match custom_params_error(self.custom->0) {
                None => (r matches Ok(NetworkConditionSpec::Custom { params }) && same_custom(
                    params,
                    self.custom->0,
                )),
                Some(m) => (r matches Err(e) && e@ == m),
            },
    {
        match (&self.preset, &self.custom) {
            (Some(_), Some(_)) => Err("Provide either 'preset' or 'custom', not both.".to_string()),
            (None, None) => Err("One of 'preset' or 'custom' is required.".to_string()),
            (Some(p), None) => Ok(NetworkConditionSpec::preset(*p)),
            (None, Some(c)) => {
                let spec = NetworkConditionSpec::custom(c.duplicate());
                match spec.validate() {
                    Ok(()) => Ok(spec),
                    Err(e) => Err(e),
                }
            },
        }
    }
}

/// A connected device as `list_devices` reports it.
#[derive(Debug, Clone)]
pub struct DeviceInfo {
    pub serial: String,
    pub description: String,
    pub friendly_name: String,
    pub platform: DevicePlatform,
    pub is_tcp: bool,
}

impl From<ConnectedDevice> for DeviceInfo {
    fn from(device: ConnectedDevice) -> (d: DeviceInfo) {
        let is_tcp = device.supports_disconnect();
        DeviceInfo {
            friendly_name: device.name,
            is_tcp,
            serial: device.id,
            description: device.description,
            platform: device.platform,
        }
    }
}

impl vstd::std_specs::convert::FromSpecImpl<ConnectedDevice> for DeviceInfo {
    open spec fn obeys_from_spec() -> bool {
        true
    }

    open spec fn from_spec(device: ConnectedDevice) -> DeviceInfo {
        DeviceInfo {
            friendly_name: device.name,
            is_tcp: device.platform == DevicePlatform::Android && contains(device.id@, ":"@),
            serial: device.id,
            description: device.description,
            platform: device.platform,
        }
    }
}

// ---------------------------------------------------------------------------
// Views of entries and crashes
// ---------------------------------------------------------------------------

/// A log entry as the tools report it.
#[derive(Debug, Clone)]
pub struct LogEntryView {
    pub seq: u64,
    pub timestamp: String,
    pub normalized_timestamp: Option<String>,
    pub pid: Option<u32>,
    pub tid: Option<u64>,
    pub level: String,
    pub tag: String,
    pub process: Option<String>,
    pub subsystem: Option<String>,
    pub category: Option<String>,
    pub message: String,
}

/// `v` reports the buffered entry `b`: its fields, the level as its letter,
/// and the normalized timestamp only where it differs from the raw one.
pub open spec fn views_entry(v: LogEntryView, b: BufferedModel) -> bool {
    &&& v.seq == b.seq
    &&& v.timestamp@ == b.entry.timestamp
    &&& opt_view(v.normalized_timestamp) == (match b.normalized_timestamp {
        Some(n) => if n != b.entry.timestamp {
            Some(n)
        } else {
            None
        },
        None => None,
    })
    &&& v.pid == b.entry.pid
    &&& v.tid == b.entry.tid
    &&& v.level@ == seq![level_char(b.entry.level)]
    &&& v.tag@ == b.entry.tag
    &&& opt_view(v.process) == b.entry.process
    &&& opt_view(v.subsystem) == b.entry.subsystem
    &&& opt_view(v.category) == b.entry.category
    &&& v.message@ == b.entry.message
}

impl LogEntryView {
    pub fn from_buffered(buffered: BufferedLogEntry) -> (v: LogEntryView)
        ensures
            views_entry(v, buffered@),
    {
        let entry = buffered.entry;
        let timestamp = entry.timestamp;
        let normalized_timestamp = match buffered.normalized_timestamp {
            Some(n) => if crate::text::str_eq(n.as_str(), timestamp.as_str()) {
                None
            } else {
                Some(n)
            },
            None => None,
        };
        LogEntryView {
            seq: buffered.seq,
            timestamp,
            normalized_timestamp,
            pid: entry.pid,
            tid: entry.tid,
            level: entry.level.to_text(),
            tag: entry.tag,
            process: entry.process,
            subsystem: entry.subsystem,
            category: entry.category,
            message: entry.message,
        }
    }
}

/// A detected crash as `get_crashes` reports it.
#[derive(Debug, Clone)]
pub struct CrashReportView {
    pub crash_type: CrashType,
    pub headline: String,
    pub stack_trace: Vec<String>,
    pub first_seq: u64,
    pub last_seq: u64,
    pub timestamp: String,
    pub pid: Option<u32>,
    pub tag: Option<String>,
}

impl CrashReportView {
    /// The report with the buffer numbers of its first and last line; an
    /// empty tag is reported as none.
    pub fn from_report(report: CrashReport, first_seq: u64, last_seq: u64) -> (v: CrashReportView)
        ensures
            v.crash_type == report.crash_type,
            v.headline@ == report.headline@,
            v.stack_trace@ == report.stack_trace@,
            v.first_seq == first_seq,
            v.last_seq == last_seq,
            v.timestamp@ == report.timestamp@,
            v.pid == report.pid,
            opt_view(v.tag) == (if report.tag@.len() == 0 {
                None
            } else {
                Some(report.tag@)
            }),
    {
        let tag = if report.tag.as_str().is_empty() {
            None
        } else {
            Some(report.tag)
        };
        CrashReportView {
            crash_type: report.crash_type,
            headline: report.headline,
            stack_trace: report.stack_trace,
            first_seq,
            last_seq,
            timestamp: report.timestamp,
            pid: report.pid,
            tag,
        }
    }
}

// ---------------------------------------------------------------------------
// Resolving a selector to a capture
// ---------------------------------------------------------------------------

/// A registered capture as selection sees it.
#[derive(Debug, Clone)]
pub struct CaptureRef {
    pub capture_id: String,
    pub device: String,
    pub running: bool,
}

/// `i` is the first capture with this id.
pub open spec fn first_with_id(cs: Seq<CaptureRef>, id: Seq<char>, i: int) -> bool {
    &&& 0 <= i < cs.len()
    &&& cs[i].capture_id@ == id
    &&& forall|k: int| 0 <= k < i ==> #[trigger] cs[k].capture_id@ != id
}

/// `i` is the first capture on this device.
pub open spec fn first_on_device(cs: Seq<CaptureRef>, device: Seq<char>, i: int) -> bool {
    &&& 0 <= i < cs.len()
    &&& cs[i].device@ == device
    &&& forall|k: int| 0 <= k < i ==> #[trigger] cs[k].device@ != device
}

pub open spec fn has_id(cs: Seq<CaptureRef>, id: Seq<char>) -> bool {
    exists|i: int| 0 <= i < cs.len() && #[trigger] cs[i].capture_id@ == id
}

pub open spec fn has_device(cs: Seq<CaptureRef>, device: Seq<char>) -> bool {
    exists|i: int| 0 <= i < cs.len() && #[trigger] cs[i].device@ == device
}

pub open spec fn index_with_id(cs: Seq<CaptureRef>, id: Seq<char>) -> int {
    choose|i: int| first_with_id(cs, id, i)
}

pub open spec fn index_on_device(cs: Seq<CaptureRef>, device: Seq<char>) -> int {
    choose|i: int| first_on_device(cs, device, i)
}

pub open spec fn not_found_capture(id: Seq<char>) -> Seq<char> {
    "capture `"@ + id + "` was not found"@
}

/// Which capture a (normalized) selector addresses: the capture id it
/// resolves to, or the code and message of the error.
pub open spec fn resolution(cs: Seq<CaptureRef>, id: Option<Seq<char>>, device: Option<Seq<char>>) -> Result<
    Seq<char>,
    (Seq<char>, Seq<char>),
> {
    match (id, device) {
        (Some(i), Some(d)) => if !has_id(cs, i) {
            Err(("not_found"@, not_found_capture(i)))
        } else if cs[index_with_id(cs, i)].device@ != d {
            Err(
                (
                    "invalid_params"@,
                    "capture `"@ + i + "` belongs to device `"@ + cs[index_with_id(cs, i)].device@
                        + "`, not `"@ + d + "`"@,
                ),
            )
        } else {
            Ok(i)
        },
        (Some(i), None) => if has_id(cs, i) {
            Ok(i)
        } else {
            Err(("not_found"@, not_found_capture(i)))
        },
        (None, Some(d)) => if has_device(cs, d) {
            Ok(cs[index_on_device(cs, d)].capture_id@)
        } else {
            Err(("not_found"@, "no capture is registered for device `"@ + d + "`"@))
        },
        (None, None) => if cs.len() == 0 {
            Err(("not_found"@, "no captures are currently registered; call start_capture first"@))
        } else if cs.len() == 1 {
            Ok(cs[0].capture_id@)
        } else {
            Err(("invalid_params"@, "multiple captures are registered; specify captureId or device"@))
        },
    }
}

/// The first capture with this id.
pub fn find_capture_by_id(captures: &[CaptureRef], id: &str) -> (r: Option<usize>)
    ensures
        match r {
            Some(i) => first_with_id(captures@, id@, i as int) && index_with_id(captures@, id@) == i,
            None => !has_id(captures@, id@),
        },
{
    let mut i: usize = 0;
    while i < captures.len()
        invariant
            i <= captures@.len(),
            forall|k: int| 0 <= k < i ==> #[trigger] captures@[k].capture_id@ != id@,
        decreases captures@.len() - i,
    {
        if crate::text::str_eq(captures[i].capture_id.as_str(), id) {
            proof {
                assert(first_with_id(captures@, id@, i as int));
                let j = index_with_id(captures@, id@);
                if j < i {
                    assert(captures@[j].capture_id@ != id@);
                } else if j > i {
                    assert(captures@[i as int].capture_id@ != id@);
                }
            }
            return Some(i);
        }
        i += 1;
    }
    None
}

/// The first capture on this device.
pub fn find_capture_by_device(captures: &[CaptureRef], device: &str) -> (r: Option<usize>)
    ensures
        match r {
            Some(i) => first_on_device(captures@, device@, i as int) && index_on_device(captures@, device@)
                == i,
            None => !has_device(captures@, device@),
        },
{
    let mut i: usize = 0;
    while i < captures.len()
        invariant
            i <= captures@.len(),
            forall|k: int| 0 <= k < i ==> #[trigger] captures@[k].device@ != device@,
        decreases captures@.len() - i,
    {
        if crate::text::str_eq(captures[i].device.as_str(), device) {
            proof {
                assert(first_on_device(captures@, device@, i as int));
                let j = index_on_device(captures@, device@);
                if j < i {
                    assert(captures@[j].device@ != device@);
                } else if j > i {
                    assert(captures@[i as int].device@ != device@);
                }
            }
            return Some(i);
        }
        i += 1;
    }
    None
}

/// Resolve a selector to the id of a registered capture: by id (checking
/// the device when both are given), by device, or the only capture there is.
pub fn resolve_capture_id(captures: &[CaptureRef], selector: &CaptureSelector) -> (r: Result<
    String,
    McpToolError,
>)
    ensures
        match resolution(
            captures@,
            normalized_opt(opt_view(selector.capture_id)),
            normalized_opt(opt_view(selector.device)),
        ) {
            Ok(id) => (r matches Ok(x) && x@ == id),
            Err((code, message)) => (r matches Err(e) && is_error(e, code, message)),
        },
{
    let selector = CaptureSelector {
        capture_id: clone_opt_string(&selector.capture_id),
        device: clone_opt_string(&selector.device),
    }.normalized();
    match (&selector.capture_id, &selector.device) {
        (Some(capture_id), Some(device)) => {
            match find_capture_by_id(captures, capture_id.as_str()) {
                None => Err(McpToolError::not_found(framed("capture `", capture_id.as_str(), "` was not found"))),
                Some(i) => {
                    if !crate::text::str_eq(captures[i].device.as_str(), device.as_str()) {
                        let mut m = framed("capture `", capture_id.as_str(), "` belongs to device `");
                        m.append(captures[i].device.as_str());
                        m.append("`, not `");
                        m.append(device.as_str());
                        m.append("`");
                        return Err(McpToolError::invalid_params(m));
                    }
                    Ok(capture_id.clone())
                },
            }
        },
        (Some(capture_id), None) => match find_capture_by_id(captures, capture_id.as_str()) {
            Some(_) => Ok(capture_id.clone()),
            None => Err(McpToolError::not_found(framed("capture `", capture_id.as_str(), "` was not found"))),
        },
        (None, Some(device)) => match find_capture_by_device(captures, device.as_str()) {
            Some(i) => Ok(captures[i].capture_id.clone()),
            None => Err(
                McpToolError::not_found(framed("no capture is registered for device `", device.as_str(), "`")),
            ),
        },
        (None, None) => {
            if captures.len() == 0 {
                Err(
                    McpToolError::not_found(
                        "no captures are currently registered; call start_capture first".to_string(),
                    ),
                )
            } else if captures.len() == 1 {
                Ok(captures[0].capture_id.clone())
            } else {
                Err(
                    McpToolError::invalid_params(
                        "multiple captures are registered; specify captureId or device".to_string(),
                    ),
                )
            }
        },
    }
}

/// The ids of the devices, separated by `", "`.
pub fn joined_device_serials(devices: &[ConnectedDevice]) -> (s: String)
    ensures
        s@ == join(devices@.map_values(|d: ConnectedDevice| d.id@), ", "@),
{
    let mut ids: Vec<String> = Vec::new();
    let mut i: usize = 0;
    while i < devices.len()
        invariant
            i <= devices@.len(),
            sviews(ids@) == devices@.take(i as int).map_values(|d: ConnectedDevice| d.id@),
        decreases devices@.len() - i,
    {
        let ghost before = sviews(ids@);
        let id = devices[i].id.clone();
        ids.push(id);
        proof {
            assert(sviews(ids@) =~= before.push(devices@[i as int].id@));
            assert(devices@.take(i + 1) =~= devices@.take(i as int).push(devices@[i as int]));
            assert(devices@.take(i + 1).map_values(|d: ConnectedDevice| d.id@) =~= devices@.take(
                i as int,
            ).map_values(|d: ConnectedDevice| d.id@).push(devices@[i as int].id@));
        }
        i += 1;
    }
    assert(devices@.take(i as int) =~= devices@);
    join_strings(&ids, ", ")
}

// ---------------------------------------------------------------------------
// Starting captures
// ---------------------------------------------------------------------------

/// What starting a capture on a device has to do first.
#[derive(Debug, Clone, Default)]
pub struct CaptureStartPlan {
    /// The capture registered for the device that the new one replaces.
    pub replaced_capture_id: Option<String>,
    /// Whether that capture is still running and has to be stopped.
    pub shutdown: bool,
}

/// Plan a capture start on `device`: a running capture there is replaced
/// only on `restart`; a finished one is always replaced.
pub fn plan_capture_start(captures: &[CaptureRef], device: &ConnectedDevice, restart: bool) -> (r: Result<
    CaptureStartPlan,
    McpToolError,
>)
    ensures
        !has_device(captures@, device.id@) ==> (r matches Ok(p) && p.replaced_capture_id is None
            && !p.shutdown),
        has_device(captures@, device.id@) ==> {
            let c = captures@[index_on_device(captures@, device.id@)];
            if c.running && !restart {
                r matches Err(e) && is_error(
                    e,
                    "conflict"@,
                    "a capture is already running for device "@ + device.name@ + " ("@
                        + crate::capture::platform_label(device.platform) + ")"@
                        + "; stop it first or pass restart=true"@,
                )
            } else {
                r matches Ok(p) && opt_view(p.replaced_capture_id) == Some(c.capture_id@) && p.shutdown
                    == c.running
            }
        },
{
    match find_capture_by_device(captures, device.id.as_str()) {
        None => Ok(CaptureStartPlan { replaced_capture_id: None, shutdown: false }),
        Some(i) => {
            let existing = &captures[i];
            if existing.running && !restart {
                let mut m = "a capture is already running for device ".to_string();
                let shown = device.display_name();
                m.append(shown.as_str());
                m.append("; stop it first or pass restart=true");
                assert(m@ =~= "a capture is already running for device "@ + device.name@ + " ("@
                    + crate::capture::platform_label(device.platform) + ")"@
                    + "; stop it first or pass restart=true"@);
                return Err(McpToolError::conflict(m));
            }
            Ok(
                CaptureStartPlan {
                    replaced_capture_id: Some(existing.capture_id.clone()),
                    shutdown: existing.running,
                },
            )
        },
    }
}

/// Check, before registering a new capture on `device`, that no other
/// capture took its place: the replaced capture (if any) may still be there,
/// nothing else may.
pub fn check_capture_replacement(captures: &[CaptureRef], device: &ConnectedDevice, plan: &CaptureStartPlan) -> (r:
    Result<(), McpToolError>)
    ensures
        !has_device(captures@, device.id@) ==> r is Ok,
        has_device(captures@, device.id@) ==> {
            let active = captures@[index_on_device(captures@, device.id@)].capture_id@;
            let shown = device.name@ + " ("@ + crate::capture::platform_label(device.platform) + ")"@;
            match plan.replaced_capture_id {
                Some(rid) => if active != rid@ {
                    r matches Err(e) && is_error(
                        e,
                        "conflict"@,
                        "another capture became active for device "@ + shown
                            + " while restart cleanup was in progress"@,
                    )
                } else {
                    r is Ok
                },
                None => r matches Err(e) && is_error(
                    e,
                    "conflict"@,
                    "a capture is already registered for device "@ + shown + " ("@ + active + ")"@,
                ),
            }
        },
{
    match find_capture_by_device(captures, device.id.as_str()) {
        None => Ok(()),
        Some(i) => {
            let active = &captures[i].capture_id;
            match &plan.replaced_capture_id {
                Some(rid) => {
                    if !crate::text::str_eq(active.as_str(), rid.as_str()) {
                        let mut m = "another capture became active for device ".to_string();
                        let shown = device.display_name();
                        m.append(shown.as_str());
                        m.append(" while restart cleanup was in progress");
                        assert(m@ =~= "another capture became active for device "@ + shown@
                            + " while restart cleanup was in progress"@);
                        return Err(McpToolError::conflict(m));
                    }
                    Ok(())
                },
                None => {
                    let mut m = "a capture is already registered for device ".to_string();
                    let shown = device.display_name();
                    m.append(shown.as_str());
                    m.append(" (");
                    m.append(active.as_str());
                    m.append(")");
                    assert(m@ =~= "a capture is already registered for device "@ + shown@ + " ("@
                        + active@ + ")"@);
                    Err(McpToolError::conflict(m))
                },
            }
        },
    }
}

// ---------------------------------------------------------------------------
// Watch requests
// ---------------------------------------------------------------------------

/// A `create_watch` request that passed validation: everything a watch
/// needs but its id and creation time.
#[derive(Debug)]
pub struct PreparedWatch {
    pub name: String,
    pub pattern: String,
    pub pattern_type: PatternType,
    pub regex: Option<CompiledRegex>,
    pub tag: Option<String>,
    pub min_level: Option<LogLevel>,
    pub retained_capacity: usize,
}

impl PreparedWatch {
    /// A regex watch carries the regex compiled from its pattern; a text
    /// watch carries none.
    pub open spec fn wf(&self) -> bool {
        &&& (self.pattern_type == PatternType::Regex <==> self.regex is Some)
        &&& (self.regex matches Some(re) ==> re.pattern() == self.pattern@)
    }

    /// The watch, under the given id and creation time.
    pub fn into_watch(self, id: String, created_at_ms: u64) -> (w: Watch)
        requires
            self.wf(),
        ensures
            w.wf(),
            w@ == fresh_watch(
                id@,
                created_at_ms,
                self.name@,
                self.pattern_type,
                self.pattern@,
                opt_view(self.tag),
                self.min_level,
                self.retained_capacity as nat,
            ),
    {
        match self.regex {
            Some(re) => Watch::new_compiled_regex_with_retention(
                id,
                created_at_ms,
                self.name,
                re,
                self.tag,
                self.min_level,
                self.retained_capacity,
            ),
            None => Watch::new_text_with_retention(
                id,
                created_at_ms,
                self.name,
                self.pattern,
                self.tag,
                self.min_level,
                self.retained_capacity,
            ),
        }
    }
}

/// Why a `create_watch` request is refused before its pattern type is
/// looked at: a blank name, an empty pattern, an unknown minimum level or a
/// zero retention capacity (in that order).
pub open spec fn watch_request_error(args: CreateWatchArgs, default_capacity: usize) -> Option<(Seq<char>, Seq<char>)> {
    if trim(args.name@).len() == 0 {
        Some(("invalid_params"@, "name must not be empty"@))
    } else if args.pattern@.len() == 0 {
        Some(("invalid_params"@, "pattern must not be empty"@))
    } else if normalized_opt(opt_view(args.min_level)) is Some && level_named(
        lower(trim(normalized_opt(opt_view(args.min_level))->0)),
    ) is None {
        Some(
            (
                "invalid_params"@,
                "unsupported log level `"@ + normalized_opt(opt_view(args.min_level))->0 + "`"@,
            ),
        )
    } else if (match args.retained_capacity {
        Some(c) => c,
        None => default_capacity,
    }) == 0 {
        Some(("invalid_params"@, "retainedCapacity must be greater than zero"@))
    } else {
        None
    }
}

/// Validate a `create_watch` request: a name (trimmed), a pattern, an
/// optional tag filter and minimum level, a positive retention capacity
/// (`default_capacity` when none is given) and a pattern type of `text` or
/// `regex` (whose pattern must compile).
pub fn prepare_watch(args: CreateWatchArgs, default_capacity: usize) -> (r: Result<PreparedWatch, McpToolError>)
    ensures
        match watch_request_error(args, default_capacity) {
            Some((code, message)) => (r matches Err(e) && is_error(e, code, message)),
            None => {
                if args.pattern_type@ == "text"@ {
                    r matches Ok(p) && p.wf() && p.pattern_type == PatternType::Text
                } else if args.pattern_type@ == "regex"@ {
                    if regex_compiles(args.pattern@) {
                        r matches Ok(p) && p.wf() && p.pattern_type == PatternType::Regex
                    } else {
                        r matches Err(e) && is_error(
                            e,
                            "invalid_params"@,
                            "invalid regex: "@ + regex_error_text(args.pattern@),
                        )
                    }
                } else {
                    r matches Err(e) && is_error(
                        e,
                        "invalid_params"@,
                        "pattern_type must be \"text\" or \"regex\", got \""@ + args.pattern_type@ + "\""@,
                    )
                }
            },
        },
        r matches Ok(p) ==> {
            &&& p.name@ == trim(args.name@)
            &&& p.pattern@ == args.pattern@
            &&& opt_view(p.tag) == normalized_opt(opt_view(args.tag))
            &&& p.min_level == (match normalized_opt(opt_view(args.min_level)) {
                Some(l) => level_named(lower(trim(l))),
                None => None,
            })
            &&& p.retained_capacity == (match args.retained_capacity {
                Some(c) => c,
                None => default_capacity,
            })
        },
{
    let name = trim_str(args.name.as_str());
    if name.as_str().is_empty() {
        return Err(McpToolError::invalid_params("name must not be empty".to_string()));
    }
    let pattern = args.pattern;
    if pattern.as_str().is_empty() {
        return Err(McpToolError::invalid_params("pattern must not be empty".to_string()));
    }
    let tag = normalize_optional_string(args.tag);
    let min_level = match normalize_optional_string(args.min_level) {
        Some(l) => match parse_log_level(l.as_str()) {
            Ok(level) => Some(level),
            Err(e) => return Err(e),
        },
        None => None,
    };
    let retained_capacity = match args.retained_capacity {
        Some(c) => c,
        None => default_capacity,
    };
    if retained_capacity == 0 {
        return Err(
            McpToolError::invalid_params("retainedCapacity must be greater than zero".to_string()),
        );
    }
    let pt = chars_of(args.pattern_type.as_str());
    if chars_eq_str(&pt, "text") {
        Ok(
            PreparedWatch {
                name,
                pattern,
                pattern_type: PatternType::Text,
                regex: None,
                tag,
                min_level,
                retained_capacity,
            },
        )
    } else if chars_eq_str(&pt, "regex") {
        match compile_regex(pattern.as_str()) {
            Ok(re) => Ok(
                PreparedWatch {
                    name,
                    pattern,
                    pattern_type: PatternType::Regex,
                    regex: Some(re),
                    tag,
                    min_level,
                    retained_capacity,
                },
            ),
            Err(e) => {
                let mut m = "invalid regex: ".to_string();
                m.append(e.as_str());
                Err(McpToolError::invalid_params(m))
            },
        }
    } else {
        Err(
            McpToolError::invalid_params(
                framed(
                    "pattern_type must be \"text\" or \"regex\", got \"",
                    args.pattern_type.as_str(),
                    "\"",
                ),
            ),
        )
    }
}

/// Register a prepared watch under `id` and offer it the buffered entries;
/// reports its id, name and retention capacity.
pub fn create_watch_in(
    watches: &mut WatchSet,
    prepared: PreparedWatch,
    id: String,
    created_at_ms: u64,
    buffered: &[BufferedLogEntry],
) -> (r: CreateWatchResponse)
    requires
        old(watches).wf(),
        prepared.wf(),
    ensures
        final(watches).wf(),
        r.watch_id@ == id@,
        r.name@ == prepared.name@,
        r.retained_capacity == prepared.retained_capacity,
        forall|k: Seq<char>| #[trigger] final(watches).has(k) <==> (old(watches).has(k) || k == id@),
        forall|k: Seq<char>| k != id@ ==> #[trigger] final(watches).lookup(k) == old(watches).lookup(k),
        final(watches).lookup(id@) == Some(
            seed_steps(
                fresh_watch(
                    id@,
                    created_at_ms,
                    prepared.name@,
                    prepared.pattern_type,
                    prepared.pattern@,
                    opt_view(prepared.tag),
                    prepared.min_level,
                    prepared.retained_capacity as nat,
                ),
                buffered_views(buffered@),
            ).0,
        ),
{
    let name = prepared.name.clone();
    let capacity = prepared.retained_capacity;
    let watch = prepared.into_watch(id, created_at_ms);
    let ghost mid = *watches;
    let watch_id = watches.add(watch);
    let _seeded = watches.seed_matches(watch_id.as_str(), buffered);
    CreateWatchResponse { watch_id, name, retained_capacity: capacity }
}

/// The `list_watches` answer: every watch's summary, in order of id.
pub fn list_watches_response(watches: &WatchSet) -> (r: ListWatchesResponse)
    requires
        watches.wf(),
    ensures
        r.count == r.watches@.len(),
        r.watches@.len() == watches.entries().len(),
        forall|i: int| 0 <= i < r.watches@.len() ==> summarizes(#[trigger] r.watches@[i], watches.models()[i]),
{
    let summaries = watches.list();
    let count = summaries.len();
    ListWatchesResponse { watches: summaries, count }
}

/// The `get_watch_matches` answer: the watch's retained matches after
/// `since_seq` (at most `limit`, 100 by default and 1000 at most) and its
/// summary.
pub fn watch_matches_response(watches: &WatchSet, args: &GetWatchMatchesArgs) -> (r: Result<
    GetWatchMatchesResponse,
    McpToolError,
>)
    requires
        watches.wf(),
    ensures
        ({
            let limit = match args.limit {
                Some(l) => l,
                None => DEFAULT_GET_LOGS_LIMIT,
            };
            if limit > MAX_GET_LOGS_LIMIT {
                r matches Err(e) && is_error(e, "invalid_params"@, "limit must be <= 1000"@)
            } else {
                match watches.lookup(args.watch_id@) {
                    None => r matches Err(e) && is_error(
                        e,
                        "not_found"@,
                        "watch `"@ + args.watch_id@ + "` was not found"@,
                    ),
                    Some(w) => r matches Ok(resp) && {
                        let expected = take_at_most(after_seq(w.retained, args.since_seq), limit as nat);
                        &&& resp.entries@.len() == expected.len()
                        &&& resp.match_count == expected.len()
                        &&& forall|i: int| 0 <= i < expected.len() ==> views_entry(#[trigger] resp.entries@[i], expected[i])
                        &&& summarizes(resp.watch, w)
                    },
                }
            }
        }),
{
    let limit = match args.limit {
        Some(l) => l,
        None => DEFAULT_GET_LOGS_LIMIT,
    };
    if limit > MAX_GET_LOGS_LIMIT {
        return Err(McpToolError::invalid_params("limit must be <= 1000".to_string()));
    }
    let matched = match watches.retained_matches(args.watch_id.as_str(), args.since_seq, limit) {
        Some(v) => v,
        None => return Err(
            McpToolError::not_found(framed("watch `", args.watch_id.as_str(), "` was not found")),
        ),
    };
    let summary = match watches.get(args.watch_id.as_str()) {
        Some(w) => w.summary(),
        None => return Err(
            McpToolError::not_found(framed("watch `", args.watch_id.as_str(), "` was not found")),
        ),
    };
    let match_count = matched.len();
    let ghost bm = buffered_views(matched@);
    let mut entries: Vec<LogEntryView> = Vec::new();
    let mut i: usize = 0;
    let src = matched;
    while i < src.len()
        invariant
            i <= src@.len(),
            buffered_views(src@) == bm,
            entries@.len() == i,
            forall|k: int| 0 <= k < i ==> views_entry(#[trigger] entries@[k], bm[k]),
        decreases src@.len() - i,
    {
        let b = src[i].duplicate();
        entries.push(LogEntryView::from_buffered(b));
        i += 1;
    }
    Ok(GetWatchMatchesResponse { entries, match_count, watch: summary })
}

/// The `delete_watch` answer: whether a watch with that id was removed.
pub fn delete_watch_response(watches: &mut WatchSet, watch_id: &str) -> (r: DeleteWatchResponse)
    requires
        old(watches).wf(),
    ensures
        final(watches).wf(),
        r.deleted == old(watches).has(watch_id@),
        forall|k: Seq<char>| #[trigger] final(watches).has(k) <==> (old(watches).has(k) && k != watch_id@),
        forall|k: Seq<char>| k != watch_id@ ==> #[trigger] final(watches).lookup(k) == old(watches).lookup(k),
{
    let deleted = watches.remove(watch_id);
    DeleteWatchResponse { deleted }
}

// ---------------------------------------------------------------------------
// Ordering capture statuses
// ---------------------------------------------------------------------------

/// `a` comes no later than `b`: newer captures first, then by id.
pub open spec fn status_before(a: CaptureStatus, b: CaptureStatus) -> bool {
    a.started_at_ms > b.started_at_ms || (a.started_at_ms == b.started_at_ms && lex_le(
        a.capture_id@,
        b.capture_id@,
    ))
}

/// `a` comes strictly before `b`.
pub open spec fn status_strictly_before(a: CaptureStatus, b: CaptureStatus) -> bool {
    a.started_at_ms > b.started_at_ms || (a.started_at_ms == b.started_at_ms && lex_lt(
        a.capture_id@,
        b.capture_id@,
    ))
}

pub open spec fn statuses_sorted(s: Seq<CaptureStatus>) -> bool {
    forall|i: int, j: int| 0 <= i < j < s.len() ==> status_before(#[trigger] s[i], #[trigger] s[j])
}

proof fn lemma_status_total(x: CaptureStatus, y: CaptureStatus)
    requires
        !status_strictly_before(x, y),
    ensures
        status_before(y, x),
{
    lemma_lex_total(x.capture_id@, y.capture_id@);
}

proof fn lemma_status_trans(a: CaptureStatus, b: CaptureStatus, c: CaptureStatus)
    requires
        status_before(a, b),
        status_before(b, c),
    ensures
        status_before(a, c),
{
    if a.started_at_ms == b.started_at_ms && b.started_at_ms == c.started_at_ms {
        if a.capture_id@ != b.capture_id@ && b.capture_id@ != c.capture_id@ {
            lemma_lex_trans(a.capture_id@, b.capture_id@, c.capture_id@);
        }
    }
}

fn status_strictly_precedes(a: &CaptureStatus, b: &CaptureStatus) -> (r: bool)
    ensures
        r == status_strictly_before(*a, *b),
{
    a.started_at_ms > b.started_at_ms || (a.started_at_ms == b.started_at_ms && str_less(
        a.capture_id.as_str(),
        b.capture_id.as_str(),
    ))
}

/// Order statuses newest first, ties broken by capture id.
pub fn sort_capture_statuses(captures: &mut Vec<CaptureStatus>)
    ensures
        statuses_sorted(final(captures)@),
        final(captures)@.to_multiset() == old(captures)@.to_multiset(),
{
    broadcast use vstd::multiset::group_multiset_axioms;

    let ghost original = old(captures)@;
    let mut input: Vec<CaptureStatus> = Vec::new();
    std::mem::swap(&mut input, captures);
    proof {
        broadcast use vstd::seq_lib::group_to_multiset_ensures;
        assert(captures@.to_multiset().len() == 0);
        vstd::multiset::lemma_multiset_empty_len(captures@.to_multiset());
    }
    while input.len() > 0
        invariant
            statuses_sorted(captures@),
            captures@.to_multiset().add(input@.to_multiset()) == original.to_multiset(),
        decreases input@.len(),
    {
        let ghost before_input = input@;
        let x = input.pop().unwrap();
        assert(before_input =~= input@.push(x));
        let mut pos: usize = 0;
        while pos < captures.len() && !status_strictly_precedes(&x, &captures[pos])
            invariant
                pos <= captures@.len(),
                forall|k: int| 0 <= k < pos ==> !status_strictly_before(x, #[trigger] captures@[k]),
            decreases captures@.len() - pos,
        {
            pos += 1;
        }
        let ghost old_r = captures@;
        captures.insert(pos, x);
        proof {
            let new_r = captures@;
            assert(new_r =~= old_r.insert(pos as int, x));
            assert forall|a: int, b: int| 0 <= a < b < new_r.len() implies status_before(
                #[trigger] new_r[a],
                #[trigger] new_r[b],
            ) by {
                if b == pos {
                    lemma_status_total(x, old_r[a]);
                } else if a == pos {
                    assert(new_r[b] == old_r[b - 1]);
                    assert(status_strictly_before(x, old_r[pos as int]));
                    if b - 1 > pos {
                        assert(status_before(old_r[pos as int], old_r[b - 1]));
                        lemma_status_trans(x, old_r[pos as int], old_r[b - 1]);
                    }
                } else if a < pos && b > pos {
                    assert(new_r[b] == old_r[b - 1]);
                    assert(status_before(old_r[a], old_r[b - 1]));
                } else if a > pos {
                    assert(new_r[a] == old_r[a - 1] && new_r[b] == old_r[b - 1]);
                } else {
                    assert(new_r[a] == old_r[a] && new_r[b] == old_r[b]);
                }
            }
            vstd::seq_lib::to_multiset_insert(old_r, pos as int, x);
            vstd::seq_lib::to_multiset_build(input@, x);
            assert(before_input.to_multiset() =~= input@.to_multiset().insert(x));
            assert(new_r.to_multiset() =~= old_r.to_multiset().insert(x));
            assert(new_r.to_multiset().add(input@.to_multiset()) =~= old_r.to_multiset().add(
                before_input.to_multiset(),
            ));
        }
    }
    assert(input@ =~= Seq::<CaptureStatus>::empty());
    assert(input@.to_multiset() =~= vstd::multiset::Multiset::empty());
    assert(captures@.to_multiset().add(input@.to_multiset()) =~= captures@.to_multiset());
}

/// Whether a status belongs to a running capture.
pub open spec fn running_count(s: Seq<CaptureStatus>) -> nat
    decreases s.len(),
{
    if s.len() == 0 {
        0
    } else {
        running_count(s.drop_last()) + if s.last().running {
            1nat
        } else {
            0nat
        }
    }
}

/// The statuses of the capture with this id, in order.
pub open spec fn with_capture_id(s: Seq<CaptureStatus>, id: Seq<char>) -> Seq<CaptureStatus>
    decreases s.len(),
{
    if s.len() == 0 {
        s
    } else if s.last().capture_id@ == id {
        with_capture_id(s.drop_last(), id).push(s.last())
    } else {
        with_capture_id(s.drop_last(), id)
    }
}

/// The statuses of the capture with this id, in their order.
pub fn keep_capture_id(captures: Vec<CaptureStatus>, id: &str) -> (r: Vec<CaptureStatus>)
    ensures
        r@ == with_capture_id(captures@, id@),
{
    let ghost all = captures@;
    let mut rest = captures;
    let mut keep: Vec<CaptureStatus> = Vec::new();
    let ghost mut done: Seq<CaptureStatus> = Seq::empty();
    while rest.len() > 0
        invariant
            done + rest@ == all,
            keep@ == with_capture_id(done, id@),
        decreases rest@.len(),
    {
        let ghost before = rest@;
        let x = rest.remove(0);
        proof {
            assert(done.push(x) + rest@ =~= all) by {
                assert(before =~= seq![x] + rest@);
            }
            assert(done.push(x).drop_last() =~= done);
        }
        if crate::text::str_eq(x.capture_id.as_str(), id) {
            keep.push(x);
        }
        proof {
            done = done.push(x);
        }
    }
    assert(done =~= all);
    keep
}

/// The `get_status` answer from the statuses of every capture: how many
/// there are and how many run, and the statuses (only the selected
/// capture's, when one is selected) newest first.
pub fn get_status_response(
    default_buffer_capacity: usize,
    captures: Vec<CaptureStatus>,
    selected_capture_id: Option<String>,
    devices: Option<Vec<DeviceInfo>>,
) -> (r: GetStatusResponse)
    ensures
        r.default_buffer_capacity == default_buffer_capacity,
        r.capture_count == captures@.len(),
        r.running_capture_count == running_count(captures@),
        statuses_sorted(r.captures@),
        r.captures@.to_multiset() == (match selected_capture_id {
            Some(id) => with_capture_id(captures@, id@),
            None => captures@,
        }).to_multiset(),
        r.devices == devices,
{
    let ghost all = captures@;
    let capture_count = captures.len();
    let mut running: usize = 0;
    let mut k: usize = 0;
    while k < captures.len()
        invariant
            k <= captures@.len(),
            captures@ == all,
            running == running_count(all.take(k as int)),
            running <= k,
        decreases captures@.len() - k,
    {
        assert(all.take(k + 1).drop_last() =~= all.take(k as int));
        if captures[k].running {
            running += 1;
        }
        k += 1;
    }
    assert(all.take(k as int) =~= all);
    let mut selected = match selected_capture_id {
        None => captures,
        Some(id) => keep_capture_id(captures, id.as_str()),
    };
    sort_capture_statuses(&mut selected);
    GetStatusResponse {
        default_buffer_capacity,
        capture_count,
        running_capture_count: running,
        captures: selected,
        devices,
    }
}

// ---------------------------------------------------------------------------
// Tool names
// ---------------------------------------------------------------------------
pub const TOOL_LIST_DEVICES: &'static str = "list_devices";
pub const TOOL_GET_LOGS: &'static str = "get_logs";
pub const TOOL_CLEAR_LOGS: &'static str = "clear_logs";
pub const TOOL_START_CAPTURE: &'static str = "start_capture";
pub const TOOL_STOP_CAPTURE: &'static str = "stop_capture";
pub const TOOL_GET_STATUS: &'static str = "get_status";
pub const TOOL_LIST_PACKAGES: &'static str = "list_packages";
pub const TOOL_BOOT_SIMULATOR: &'static str = "boot_simulator";
pub const TOOL_CONNECT_DEVICE: &'static str = "connect_device";
pub const TOOL_DISCONNECT_DEVICE: &'static str = "disconnect_device";
pub const TOOL_PAIR_DEVICE: &'static str = "pair_device";
pub const TOOL_RESTART_ADB: &'static str = "restart_adb";
pub const TOOL_CREATE_WATCH: &'static str = "create_watch";
pub const TOOL_LIST_WATCHES: &'static str = "list_watches";
pub const TOOL_GET_WATCH_MATCHES: &'static str = "get_watch_matches";
pub const TOOL_DELETE_WATCH: &'static str = "delete_watch";
pub const TOOL_SET_LOCATION: &'static str = "set_location";
pub const TOOL_CLEAR_LOCATION: &'static str = "clear_location";
pub const TOOL_SET_NETWORK_CONDITION: &'static str = "set_network_condition";
pub const TOOL_CLEAR_NETWORK_CONDITION: &'static str = "clear_network_condition";
pub const TOOL_GET_CRASHES: &'static str = "get_crashes";

/// The tools the server offers.
#[derive(Debug, Clone, Copy, PartialEq, Eq, Structural)]
pub enum ToolName {
    ListDevices,
    GetLogs,
    ClearLogs,
    StartCapture,
    StopCapture,
    GetStatus,
    ListPackages,
    BootSimulator,
    ConnectDevice,
    DisconnectDevice,
    PairDevice,
    RestartAdb,
    CreateWatch,
    ListWatches,
    GetWatchMatches,
    DeleteWatch,
    SetLocation,
    ClearLocation,
    SetNetworkCondition,
    ClearNetworkCondition,
    GetCrashes,
}

/// The name a tool is called by.
pub open spec fn tool_name_spec(t: ToolName) -> Seq<char> {
    match t {
        ToolName::ListDevices => "list_devices"@,
        ToolName::GetLogs => "get_logs"@,
        ToolName::ClearLogs => "clear_logs"@,
        ToolName::StartCapture => "start_capture"@,
        ToolName::StopCapture => "stop_capture"@,
        ToolName::GetStatus => "get_status"@,
        ToolName::ListPackages => "list_packages"@,
        ToolName::BootSimulator => "boot_simulator"@,
        ToolName::ConnectDevice => "connect_device"@,
        ToolName::DisconnectDevice => "disconnect_device"@,
        ToolName::PairDevice => "pair_device"@,
        ToolName::RestartAdb => "restart_adb"@,
        ToolName::CreateWatch => "create_watch"@,
        ToolName::ListWatches => "list_watches"@,
        ToolName::GetWatchMatches => "get_watch_matches"@,
        ToolName::DeleteWatch => "delete_watch"@,
        ToolName::SetLocation => "set_location"@,
        ToolName::ClearLocation => "clear_location"@,
        ToolName::SetNetworkCondition => "set_network_condition"@,
        ToolName::ClearNetworkCondition => "clear_network_condition"@,
        ToolName::GetCrashes => "get_crashes"@,
    }
}

/// The tool called by `name`, if any.
pub open spec fn tool_called(name: Seq<char>) -> Option<ToolName> {
    if name == "list_devices"@ {
        Some(ToolName::ListDevices)
    } else if name == "get_logs"@ {
        Some(ToolName::GetLogs)
    } else if name == "clear_logs"@ {
        Some(ToolName::ClearLogs)
    } else if name == "start_capture"@ {
        Some(ToolName::StartCapture)
    } else if name == "stop_capture"@ {
        Some(ToolName::StopCapture)
    } else if name == "get_status"@ {
        Some(ToolName::GetStatus)
    } else if name == "list_packages"@ {
        Some(ToolName::ListPackages)
    } else if name == "boot_simulator"@ {
        Some(ToolName::BootSimulator)
    } else if name == "connect_device"@ {
        Some(ToolName::ConnectDevice)
    } else if name == "disconnect_device"@ {
        Some(ToolName::DisconnectDevice)
    } else if name == "pair_device"@ {
        Some(ToolName::PairDevice)
    } else if name == "restart_adb"@ {
        Some(ToolName::RestartAdb)
    } else if name == "create_watch"@ {
        Some(ToolName::CreateWatch)
    } else if name == "list_watches"@ {
        Some(ToolName::ListWatches)
    } else if name == "get_watch_matches"@ {
        Some(ToolName::GetWatchMatches)
    } else if name == "delete_watch"@ {
        Some(ToolName::DeleteWatch)
    } else if name == "set_location"@ {
        Some(ToolName::SetLocation)
    } else if name == "clear_location"@ {
        Some(ToolName::ClearLocation)
    } else if name == "set_network_condition"@ {
        Some(ToolName::SetNetworkCondition)
    } else if name == "clear_network_condition"@ {
        Some(ToolName::ClearNetworkCondition)
    } else if name == "get_crashes"@ {
        Some(ToolName::GetCrashes)
    } else {
        None
    }
}

impl ToolName {
    /// The name the tool is called by.
    pub fn name(self) -> (s: &'static str)
        ensures
            s@ == tool_name_spec(self),
    {
        match self {
            ToolName::ListDevices => TOOL_LIST_DEVICES,
            ToolName::GetLogs => TOOL_GET_LOGS,
            ToolName::ClearLogs => TOOL_CLEAR_LOGS,
            ToolName::StartCapture => TOOL_START_CAPTURE,
            ToolName::StopCapture => TOOL_STOP_CAPTURE,
            ToolName::GetStatus => TOOL_GET_STATUS,
            ToolName::ListPackages => TOOL_LIST_PACKAGES,
            ToolName::BootSimulator => TOOL_BOOT_SIMULATOR,
            ToolName::ConnectDevice => TOOL_CONNECT_DEVICE,
            ToolName::DisconnectDevice => TOOL_DISCONNECT_DEVICE,
            ToolName::PairDevice => TOOL_PAIR_DEVICE,
            ToolName::RestartAdb => TOOL_RESTART_ADB,
            ToolName::CreateWatch => TOOL_CREATE_WATCH,
            ToolName::ListWatches => TOOL_LIST_WATCHES,
            ToolName::GetWatchMatches => TOOL_GET_WATCH_MATCHES,
            ToolName::DeleteWatch => TOOL_DELETE_WATCH,
            ToolName::SetLocation => TOOL_SET_LOCATION,
            ToolName::ClearLocation => TOOL_CLEAR_LOCATION,
            ToolName::SetNetworkCondition => TOOL_SET_NETWORK_CONDITION,
            ToolName::ClearNetworkCondition => TOOL_CLEAR_NETWORK_CONDITION,
            ToolName::GetCrashes => TOOL_GET_CRASHES,
        }
    }
}

/// The tool a call names, or an `unknown_tool` error.
pub fn tool_named(name: &str) -> (r: Result<ToolName, McpToolError>)
    ensures
        match tool_called(name@) {
            Some(t) => r == Ok::<ToolName, McpToolError>(t),
            None => (r matches Err(e) && is_error(e, "unknown_tool"@, "unknown MCP tool: "@ + name@)),
        },
{
    let cs = chars_of(name);
    if chars_eq_str(&cs, TOOL_LIST_DEVICES) {
        Ok(ToolName::ListDevices)
    } else if chars_eq_str(&cs, TOOL_GET_LOGS) {
        Ok(ToolName::GetLogs)
    } else if chars_eq_str(&cs, TOOL_CLEAR_LOGS) {
        Ok(ToolName::ClearLogs)
    } else if chars_eq_str(&cs, TOOL_START_CAPTURE) {
        Ok(ToolName::StartCapture)
    } else if chars_eq_str(&cs, TOOL_STOP_CAPTURE) {
        Ok(ToolName::StopCapture)
    } else if chars_eq_str(&cs, TOOL_GET_STATUS) {
        Ok(ToolName::GetStatus)
    } else if chars_eq_str(&cs, TOOL_LIST_PACKAGES) {
        Ok(ToolName::ListPackages)
    } else if chars_eq_str(&cs, TOOL_BOOT_SIMULATOR) {
        Ok(ToolName::BootSimulator)
    } else if chars_eq_str(&cs, TOOL_CONNECT_DEVICE) {
        Ok(ToolName::ConnectDevice)
    } else if chars_eq_str(&cs, TOOL_DISCONNECT_DEVICE) {
        Ok(ToolName::DisconnectDevice)
    } else if chars_eq_str(&cs, TOOL_PAIR_DEVICE) {
        Ok(ToolName::PairDevice)
    } else if chars_eq_str(&cs, TOOL_RESTART_ADB) {
        Ok(ToolName::RestartAdb)
    } else if chars_eq_str(&cs, TOOL_CREATE_WATCH) {
        Ok(ToolName::CreateWatch)
    } else if chars_eq_str(&cs, TOOL_LIST_WATCHES) {
        Ok(ToolName::ListWatches)
    } else if chars_eq_str(&cs, TOOL_GET_WATCH_MATCHES) {
        Ok(ToolName::GetWatchMatches)
    } else if chars_eq_str(&cs, TOOL_DELETE_WATCH) {
        Ok(ToolName::DeleteWatch)
    } else if chars_eq_str(&cs, TOOL_SET_LOCATION) {
        Ok(ToolName::SetLocation)
    } else if chars_eq_str(&cs, TOOL_CLEAR_LOCATION) {
        Ok(ToolName::ClearLocation)
    } else if chars_eq_str(&cs, TOOL_SET_NETWORK_CONDITION) {
        Ok(ToolName::SetNetworkCondition)
    } else if chars_eq_str(&cs, TOOL_CLEAR_NETWORK_CONDITION) {
        Ok(ToolName::ClearNetworkCondition)
    } else if chars_eq_str(&cs, TOOL_GET_CRASHES) {
        Ok(ToolName::GetCrashes)
    } else {
        let mut m = "unknown MCP tool: ".to_string();
        m.append(name);
        Err(McpToolError::unknown_tool(m))
    }
}

/// Every tool is found again by its name.
pub proof fn law_tool_names_round_trip(t: ToolName)
    ensures
        tool_called(tool_name_spec(t)) == Some(t),
{
    reveal_strlit("list_devices");
    reveal_strlit("get_logs");
    reveal_strlit("clear_logs");
    reveal_strlit("start_capture");
    reveal_strlit("stop_capture");
    reveal_strlit("get_status");
    reveal_strlit("list_packages");
    reveal_strlit("boot_simulator");
    reveal_strlit("connect_device");
    reveal_strlit("disconnect_device");
    reveal_strlit("pair_device");
    reveal_strlit("restart_adb");
    reveal_strlit("create_watch");
    reveal_strlit("list_watches");
    reveal_strlit("get_watch_matches");
    reveal_strlit("delete_watch");
    reveal_strlit("set_location");
    reveal_strlit("clear_location");
    reveal_strlit("set_network_condition");
    reveal_strlit("clear_network_condition");
    reveal_strlit("get_crashes");
    match t {
        ToolName::ListDevices => {
        },
        ToolName::GetLogs => {
            assert("get_logs"@.len() != "list_devices"@.len());
        },
        ToolName::ClearLogs => {
            assert("clear_logs"@.len() != "list_devices"@.len());
            assert("clear_logs"@.len() != "get_logs"@.len());
        },
        ToolName::StartCapture => {
            assert("start_capture"@.len() != "list_devices"@.len());
            assert("start_capture"@.len() != "get_logs"@.len());
            assert("start_capture"@.len() != "clear_logs"@.len());
        },
        ToolName::StopCapture => {
            assert("stop_capture"@[0] != "list_devices"@[0]);
            assert("stop_capture"@.len() != "get_logs"@.len());
            assert("stop_capture"@.len() != "clear_logs"@.len());
            assert("stop_capture"@.len() != "start_capture"@.len());
        },
        ToolName::GetStatus => {
            assert("get_status"@.len() != "list_devices"@.len());
            assert("get_status"@.len() != "get_logs"@.len());
            assert("get_status"@[0] != "clear_logs"@[0]);
            assert("get_status"@.len() != "start_capture"@.len());
            assert("get_status"@.len() != "stop_capture"@.len());
        },
        ToolName::ListPackages => {
            assert("list_packages"@.len() != "list_devices"@.len());
            assert("list_packages"@.len() != "get_logs"@.len());
            assert("list_packages"@.len() != "clear_logs"@.len());
            assert("list_packages"@[0] != "start_capture"@[0]);
            assert("list_packages"@.len() != "stop_capture"@.len());
            assert("list_packages"@.len() != "get_status"@.len());
        },
        ToolName::BootSimulator => {
            assert("boot_simulator"@.len() != "list_devices"@.len());
            assert("boot_simulator"@.len() != "get_logs"@.len());
            assert("boot_simulator"@.len() != "clear_logs"@.len());
            assert("boot_simulator"@.len() != "start_capture"@.len());
            assert("boot_simulator"@.len() != "stop_capture"@.len());
            assert("boot_simulator"@.len() != "get_status"@.len());
            assert("boot_simulator"@.len() != "list_packages"@.len());
        },
        ToolName::ConnectDevice => {
            assert("connect_device"@.len() != "list_devices"@.len());
            assert("connect_device"@.len() != "get_logs"@.len());
            assert("connect_device"@.len() != "clear_logs"@.len());
            assert("connect_device"@.len() != "start_capture"@.len());
            assert("connect_device"@.len() != "stop_capture"@.len());
            assert("connect_device"@.len() != "get_status"@.len());
            assert("connect_device"@.len() != "list_packages"@.len());
            assert("connect_device"@[0] != "boot_simulator"@[0]);
        },
        ToolName::DisconnectDevice => {
            assert("disconnect_device"@.len() != "list_devices"@.len());
            assert("disconnect_device"@.len() != "get_logs"@.len());
            assert("disconnect_device"@.len() != "clear_logs"@.len());
            assert("disconnect_device"@.len() != "start_capture"@.len());
            assert("disconnect_device"@.len() != "stop_capture"@.len());
            assert("disconnect_device"@.len() != "get_status"@.len());
            assert("disconnect_device"@.len() != "list_packages"@.len());
            assert("disconnect_device"@.len() != "boot_simulator"@.len());
            assert("disconnect_device"@.len() != "connect_device"@.len());
        },
        ToolName::PairDevice => {
            assert("pair_device"@.len() != "list_devices"@.len());
            assert("pair_device"@.len() != "get_logs"@.len());
            assert("pair_device"@.len() != "clear_logs"@.len());
            assert("pair_device"@.len() != "start_capture"@.len());
            assert("pair_device"@.len() != "stop_capture"@.len());
            assert("pair_device"@.len() != "get_status"@.len());
            assert("pair_device"@.len() != "list_packages"@.len());
            assert("pair_device"@.len() != "boot_simulator"@.len());
            assert("pair_device"@.len() != "connect_device"@.len());
            assert("pair_device"@.len() != "disconnect_device"@.len());
        },
        ToolName::RestartAdb => {
            assert("restart_adb"@.len() != "list_devices"@.len());
            assert("restart_adb"@.len() != "get_logs"@.len());
            assert("restart_adb"@.len() != "clear_logs"@.len());
            assert("restart_adb"@.len() != "start_capture"@.len());
            assert("restart_adb"@.len() != "stop_capture"@.len());
            assert("restart_adb"@.len() != "get_status"@.len());
            assert("restart_adb"@.len() != "list_packages"@.len());
            assert("restart_adb"@.len() != "boot_simulator"@.len());
            assert("restart_adb"@.len() != "connect_device"@.len());
            assert("restart_adb"@.len() != "disconnect_device"@.len());
            assert("restart_adb"@[0] != "pair_device"@[0]);
        },
        ToolName::CreateWatch => {
            assert("create_watch"@[0] != "list_devices"@[0]);
            assert("create_watch"@.len() != "get_logs"@.len());
            assert("create_watch"@.len() != "clear_logs"@.len());
            assert("create_watch"@.len() != "start_capture"@.len());
            assert("create_watch"@[0] != "stop_capture"@[0]);
            assert("create_watch"@.len() != "get_status"@.len());
            assert("create_watch"@.len() != "list_packages"@.len());
            assert("create_watch"@.len() != "boot_simulator"@.len());
            assert("create_watch"@.len() != "connect_device"@.len());
            assert("create_watch"@.len() != "disconnect_device"@.len());
            assert("create_watch"@.len() != "pair_device"@.len());
            assert("create_watch"@.len() != "restart_adb"@.len());
        },
        ToolName::ListWatches => {
            assert("list_watches"@[5] != "list_devices"@[5]);
            assert("list_watches"@.len() != "get_logs"@.len());
            assert("list_watches"@.len() != "clear_logs"@.len());
            assert("list_watches"@.len() != "start_capture"@.len());
            assert("list_watches"@[0] != "stop_capture"@[0]);
            assert("list_watches"@.len() != "get_status"@.len());
            assert("list_watches"@.len() != "list_packages"@.len());
            assert("list_watches"@.len() != "boot_simulator"@.len());
            assert("list_watches"@.len() != "connect_device"@.len());
            assert("list_watches"@.len() != "disconnect_device"@.len());
            assert("list_watches"@.len() != "pair_device"@.len());
            assert("list_watches"@.len() != "restart_adb"@.len());
            assert("list_watches"@[0] != "create_watch"@[0]);
        },
        ToolName::GetWatchMatches => {
            assert("get_watch_matches"@.len() != "list_devices"@.len());
            assert("get_watch_matches"@.len() != "get_logs"@.len());
            assert("get_watch_matches"@.len() != "clear_logs"@.len());
            assert("get_watch_matches"@.len() != "start_capture"@.len());
            assert("get_watch_matches"@.len() != "stop_capture"@.len());
            assert("get_watch_matches"@.len() != "get_status"@.len());
            assert("get_watch_matches"@.len() != "list_packages"@.len());
            assert("get_watch_matches"@.len() != "boot_simulator"@.len());
            assert("get_watch_matches"@.len() != "connect_device"@.len());
            assert("get_watch_matches"@[0] != "disconnect_device"@[0]);
            assert("get_watch_matches"@.len() != "pair_device"@.len());
            assert("get_watch_matches"@.len() != "restart_adb"@.len());
            assert("get_watch_matches"@.len() != "create_watch"@.len());
            assert("get_watch_matches"@.len() != "list_watches"@.len());
        },
        ToolName::DeleteWatch => {
            assert("delete_watch"@[0] != "list_devices"@[0]);
            assert("delete_watch"@.len() != "get_logs"@.len());
            assert("delete_watch"@.len() != "clear_logs"@.len());
            assert("delete_watch"@.len() != "start_capture"@.len());
            assert("delete_watch"@[0] != "stop_capture"@[0]);
            assert("delete_watch"@.len() != "get_status"@.len());
            assert("delete_watch"@.len() != "list_packages"@.len());
            assert("delete_watch"@.len() != "boot_simulator"@.len());
            assert("delete_watch"@.len() != "connect_device"@.len());
            assert("delete_watch"@.len() != "disconnect_device"@.len());
            assert("delete_watch"@.len() != "pair_device"@.len());
            assert("delete_watch"@.len() != "restart_adb"@.len());
            assert("delete_watch"@[0] != "create_watch"@[0]);
            assert("delete_watch"@[0] != "list_watches"@[0]);
            assert("delete_watch"@.len() != "get_watch_matches"@.len());
        },
        ToolName::SetLocation => {
            assert("set_location"@[0] != "list_devices"@[0]);
            assert("set_location"@.len() != "get_logs"@.len());
            assert("set_location"@.len() != "clear_logs"@.len());
            assert("set_location"@.len() != "start_capture"@.len());
            assert("set_location"@[1] != "stop_capture"@[1]);
            assert("set_location"@.len() != "get_status"@.len());
            assert("set_location"@.len() != "list_packages"@.len());
            assert("set_location"@.len() != "boot_simulator"@.len());
            assert("set_location"@.len() != "connect_device"@.len());
            assert("set_location"@.len() != "disconnect_device"@.len());
            assert("set_location"@.len() != "pair_device"@.len());
            assert("set_location"@.len() != "restart_adb"@.len());
            assert("set_location"@[0] != "create_watch"@[0]);
            assert("set_location"@[0] != "list_watches"@[0]);
            assert("set_location"@.len() != "get_watch_matches"@.len());
            assert("set_location"@[0] != "delete_watch"@[0]);
        },
        ToolName::ClearLocation => {
            assert("clear_location"@.len() != "list_devices"@.len());
            assert("clear_location"@.len() != "get_logs"@.len());
            assert("clear_location"@.len() != "clear_logs"@.len());
            assert("clear_location"@.len() != "start_capture"@.len());
            assert("clear_location"@.len() != "stop_capture"@.len());
            assert("clear_location"@.len() != "get_status"@.len());
            assert("clear_location"@.len() != "list_packages"@.len());
            assert("clear_location"@[0] != "boot_simulator"@[0]);
            assert("clear_location"@[1] != "connect_device"@[1]);
            assert("clear_location"@.len() != "disconnect_device"@.len());
            assert("clear_location"@.len() != "pair_device"@.len());
            assert("clear_location"@.len() != "restart_adb"@.len());
            assert("clear_location"@.len() != "create_watch"@.len());
            assert("clear_location"@.len() != "list_watches"@.len());
            assert("clear_location"@.len() != "get_watch_matches"@.len());
            assert("clear_location"@.len() != "delete_watch"@.len());
            assert("clear_location"@.len() != "set_location"@.len());
        },
        ToolName::SetNetworkCondition => {
            assert("set_network_condition"@.len() != "list_devices"@.len());
            assert("set_network_condition"@.len() != "get_logs"@.len());
            assert("set_network_condition"@.len() != "clear_logs"@.len());
            assert("set_network_condition"@.len() != "start_capture"@.len());
            assert("set_network_condition"@.len() != "stop_capture"@.len());
            assert("set_network_condition"@.len() != "get_status"@.len());
            assert("set_network_condition"@.len() != "list_packages"@.len());
            assert("set_network_condition"@.len() != "boot_simulator"@.len());
            assert("set_network_condition"@.len() != "connect_device"@.len());
            assert("set_network_condition"@.len() != "disconnect_device"@.len());
            assert("set_network_condition"@.len() != "pair_device"@.len());
            assert("set_network_condition"@.len() != "restart_adb"@.len());
            assert("set_network_condition"@.len() != "create_watch"@.len());
            assert("set_network_condition"@.len() != "list_watches"@.len());
            assert("set_network_condition"@.len() != "get_watch_matches"@.len());
            assert("set_network_condition"@.len() != "delete_watch"@.len());
            assert("set_network_condition"@.len() != "set_location"@.len());
            assert("set_network_condition"@.len() != "clear_location"@.len());
        },
        ToolName::ClearNetworkCondition => {
            assert("clear_network_condition"@.len() != "list_devices"@.len());
            assert("clear_network_condition"@.len() != "get_logs"@.len());
            assert("clear_network_condition"@.len() != "clear_logs"@.len());
            assert("clear_network_condition"@.len() != "start_capture"@.len());
            assert("clear_network_condition"@.len() != "stop_capture"@.len());
            assert("clear_network_condition"@.len() != "get_status"@.len());
            assert("clear_network_condition"@.len() != "list_packages"@.len());
            assert("clear_network_condition"@.len() != "boot_simulator"@.len());
            assert("clear_network_condition"@.len() != "connect_device"@.len());
            assert("clear_network_condition"@.len() != "disconnect_device"@.len());
            assert("clear_network_condition"@.len() != "pair_device"@.len());
            assert("clear_network_condition"@.len() != "restart_adb"@.len());
            assert("clear_network_condition"@.len() != "create_watch"@.len());
            assert("clear_network_condition"@.len() != "list_watches"@.len());
            assert("clear_network_condition"@.len() != "get_watch_matches"@.len());
            assert("clear_network_condition"@.len() != "delete_watch"@.len());
            assert("clear_network_condition"@.len() != "set_location"@.len());
            assert("clear_network_condition"@.len() != "clear_location"@.len());
            assert("clear_network_condition"@.len() != "set_network_condition"@.len());
        },
        ToolName::GetCrashes => {
            assert("get_crashes"@.len() != "list_devices"@.len());
            assert("get_crashes"@.len() != "get_logs"@.len());
            assert("get_crashes"@.len() != "clear_logs"@.len());
            assert("get_crashes"@.len() != "start_capture"@.len());
            assert("get_crashes"@.len() != "stop_capture"@.len());
            assert("get_crashes"@.len() != "get_status"@.len());
            assert("get_crashes"@.len() != "list_packages"@.len());
            assert("get_crashes"@.len() != "boot_simulator"@.len());
            assert("get_crashes"@.len() != "connect_device"@.len());
            assert("get_crashes"@.len() != "disconnect_device"@.len());
            assert("get_crashes"@[0] != "pair_device"@[0]);
            assert("get_crashes"@[0] != "restart_adb"@[0]);
            assert("get_crashes"@.len() != "create_watch"@.len());
            assert("get_crashes"@.len() != "list_watches"@.len());
            assert("get_crashes"@.len() != "get_watch_matches"@.len());
            assert("get_crashes"@.len() != "delete_watch"@.len());
            assert("get_crashes"@.len() != "set_location"@.len());
            assert("get_crashes"@.len() != "clear_location"@.len());
            assert("get_crashes"@.len() != "set_network_condition"@.len());
            assert("get_crashes"@.len() != "clear_network_condition"@.len());
        },
    }
}

// ---------------------------------------------------------------------------
// Device-level requests
// ---------------------------------------------------------------------------

pub open spec fn device_ids(devices: Seq<ConnectedDevice>) -> Seq<Seq<char>> {
    devices.map_values(|d: ConnectedDevice| d.id@)
}

/// Device `i` is the first with id `id`.
pub open spec fn is_first_device(devices: Seq<ConnectedDevice>, id: Seq<char>, i: int) -> bool {
    &&& 0 <= i < devices.len()
    &&& devices[i].id@ == id
    &&& forall|j: int| 0 <= j < i ==> (#[trigger] devices[j]).id@ != id
}

/// Which connected device a request means: the one it names (trimmed), or
/// the only one when it names none; otherwise the error code and message.
pub open spec fn device_selection(devices: Seq<ConnectedDevice>, requested: Option<Seq<char>>) -> Result<
    int,
    (Seq<char>, Seq<char>),
> {
    match requested {
        Some(d) => if exists|i: int| is_first_device(devices, d, i) {
            Ok(choose|i: int| is_first_device(devices, d, i))
        } else if devices.len() == 0 {
            Err(
                (
                    "not_found"@,
                    "device `"@ + d
                        + "` is not connected and no Android devices or iOS capture targets are currently available"@,
                ),
            )
        } else {
            Err(
                (
                    "not_found"@,
                    "device `"@ + d + "` is not connected; available devices: "@ + join(
                        device_ids(devices),
                        ", "@,
                    ),
                ),
            )
        },
        None => if devices.len() == 0 {
            Err(
                (
                    "not_found"@,
                    "no connected Android devices or iOS capture targets found; connect a device or boot a simulator"@,
                ),
            )
        } else if devices.len() == 1 {
            Ok(0)
        } else {
            Err(
                (
                    "invalid_params"@,
                    "multiple capture targets are available; specify device explicitly ("@ + join(
                        device_ids(devices),
                        ", "@,
                    ) + ")"@,
                ),
            )
        },
    }
}

fn copy_device(d: &ConnectedDevice) -> (r: ConnectedDevice)
    ensures
        r == *d,
{
    ConnectedDevice {
        id: d.id.clone(),
        name: d.name.clone(),
        description: d.description.clone(),
        platform: d.platform,
    }
}

/// Pick the connected device a request names (or the only one).
pub fn select_connected_device(devices: &[ConnectedDevice], requested: Option<String>) -> (r: Result<
    ConnectedDevice,
    McpToolError,
>)
    ensures
        match device_selection(devices@, normalized_opt(opt_view(requested))) {
            Ok(i) => r == Ok::<ConnectedDevice, McpToolError>(devices@[i]),
            Err((code, message)) => (r matches Err(e) && is_error(e, code, message)),
        },
{
    let ghost want = normalized_opt(opt_view(requested));
    let wanted = normalize_optional_string(requested);
    match wanted {
        Some(d) => {
            let mut i: usize = 0;
            while i < devices.len()
                invariant
                    i <= devices@.len(),
                    want == Some(d@),
                    want == normalized_opt(opt_view(requested)),
                    forall|j: int| 0 <= j < i ==> (#[trigger] devices@[j]).id@ != d@,
                decreases devices@.len() - i,
            {
                if crate::text::str_eq(devices[i].id.as_str(), d.as_str()) {
                    proof {
                        assert(is_first_device(devices@, d@, i as int));
                        let c = choose|q: int| is_first_device(devices@, d@, q);
                        if c < i {
                            assert(devices@[c].id@ != d@);
                        } else if c > i {
                            assert(devices@[i as int].id@ != d@);
                        }
                    }
                    return Ok(copy_device(&devices[i]));
                }
                i += 1;
            }
            proof {
                if exists|q: int| is_first_device(devices@, d@, q) {
                    let q = choose|q: int| is_first_device(devices@, d@, q);
                    assert(devices@[q].id@ != d@);
                }
            }
            if devices.len() == 0 {
                let mut m = "device `".to_string();
                m.append(d.as_str());
                m.append(
                    "` is not connected and no Android devices or iOS capture targets are currently available",
                );
                return Err(McpToolError::not_found(m));
            }
            let mut m = "device `".to_string();
            m.append(d.as_str());
            m.append("` is not connected; available devices: ");
            let joined = joined_device_serials(devices);
            m.append(joined.as_str());
            Err(McpToolError::not_found(m))
        },
        None => {
            if devices.len() == 0 {
                Err(
                    McpToolError::not_found(
                        "no connected Android devices or iOS capture targets found; connect a device or boot a simulator".to_string(),
                    ),
                )
            } else if devices.len() == 1 {
                Ok(copy_device(&devices[0]))
            } else {
                let mut m = "multiple capture targets are available; specify device explicitly (".to_string();
                let joined = joined_device_serials(devices);
                m.append(joined.as_str());
                m.append(")");
                Err(McpToolError::invalid_params(m))
            }
        },
    }
}

/// How a capture request's PID filter is found.
#[derive(Debug, Clone, PartialEq, Eq)]
pub enum PidFilterRequest {
    /// No filter.
    NoFilter,
    /// This PID.
    Pid(u32),
    /// The PID of this package, to be looked up on the device.
    Package(String),
}

/// Read a capture request's `pid` and `package`: both are for Android only,
/// a PID must be positive, and at most one of them may be given.
pub fn pid_filter_request(platform: DevicePlatform, pid: Option<u32>, package: Option<String>) -> (r:
    Result<PidFilterRequest, McpToolError>)
    ensures
        platform != DevicePlatform::Android ==> if pid is Some || package is Some {
            r matches Err(e) && is_error(
                e,
                "invalid_params"@,
                "pid and package filters are only supported for Android captures"@,
            )
        } else {
            r == Ok::<PidFilterRequest, McpToolError>(PidFilterRequest::NoFilter)
        },
        platform == DevicePlatform::Android ==> match pid {
            Some(p) => if p == 0 {
                r matches Err(e) && is_error(e, "invalid_params"@, "pid must be greater than zero"@)
            } else if package is Some {
                r matches Err(e) && is_error(
                    e,
                    "invalid_params"@,
                    "specify either pid or package, but not both"@,
                )
            } else {
                r == Ok::<PidFilterRequest, McpToolError>(PidFilterRequest::Pid(p))
            },
            None => match package {
                Some(k) => r == Ok::<PidFilterRequest, McpToolError>(PidFilterRequest::Package(k)),
                None => r == Ok::<PidFilterRequest, McpToolError>(PidFilterRequest::NoFilter),
            },
        },
{
    match platform {
        DevicePlatform::Android => {},
        _ => {
            if pid.is_some() || package.is_some() {
                return Err(
                    McpToolError::invalid_params(
                        "pid and package filters are only supported for Android captures".to_string(),
                    ),
                );
            }
            return Ok(PidFilterRequest::NoFilter);
        },
    }
    match pid {
        Some(p) => {
            if p == 0 {
                return Err(McpToolError::invalid_params("pid must be greater than zero".to_string()));
            }
            if package.is_some() {
                return Err(
                    McpToolError::invalid_params(
                        "specify either pid or package, but not both".to_string(),
                    ),
                );
            }
            Ok(PidFilterRequest::Pid(p))
        },
        None => match package {
            Some(k) => Ok(PidFilterRequest::Package(k)),
            None => Ok(PidFilterRequest::NoFilter),
        },
    }
}

/// The PID filter once a package's PID was looked up on the device.
pub fn package_pid_result(device_id: &str, package: &str, found: Option<u32>) -> (r: Result<
    Option<u32>,
    McpToolError,
>)
    ensures
        match found {
            Some(p) => r == Ok::<Option<u32>, McpToolError>(Some(p)),
            None => r matches Err(e) && is_error(
                e,
                "not_found"@,
                "could not resolve a PID for package `"@ + package@ + "` on device `"@ + device_id@
                    + "`"@,
            ),
        },
{
    match found {
        Some(p) => Ok(Some(p)),
        None => {
            let mut m = "could not resolve a PID for package `".to_string();
            m.append(package);
            m.append("` on device `");
            m.append(device_id);
            m.append("`");
            Err(McpToolError::not_found(m))
        },
    }
}

/// Where a location is set.
#[derive(Debug, Clone, Copy, PartialEq, Eq, Structural)]
pub enum LocationTarget {
    /// Through `simctl` on an iOS simulator.
    Simulator,
    /// Through the console of an Android emulator.
    Emulator,
}

/// Where setting a location on `device` goes: iOS simulators and Android
/// emulators only.
pub fn location_target(device: &ConnectedDevice) -> (r: Result<LocationTarget, McpToolError>)
    ensures
        match device.platform {
            DevicePlatform::IosSimulator => r == Ok::<LocationTarget, McpToolError>(LocationTarget::Simulator),
            DevicePlatform::IosDevice => r matches Err(e) && is_error(
                e,
                "invalid_params"@,
                "Location spoofing is only supported on iOS simulators, not physical device '"@
                    + device.id@ + "'."@,
            ),
            DevicePlatform::Android => if crate::text::starts_with(device.id@, "emulator-"@) {
                r == Ok::<LocationTarget, McpToolError>(LocationTarget::Emulator)
            } else {
                r matches Err(e) && is_error(
                    e,
                    "invalid_params"@,
                    "Location spoofing is only supported on Android emulators, not physical device '"@
                        + device.id@ + "'. Use a mock location app instead."@,
                )
            },
        },
{
    match device.platform {
        DevicePlatform::IosSimulator => Ok(LocationTarget::Simulator),
        DevicePlatform::IosDevice => {
            let mut m = "Location spoofing is only supported on iOS simulators, not physical device '".to_string();
            m.append(device.id.as_str());
            m.append("'.");
            Err(McpToolError::invalid_params(m))
        },
        DevicePlatform::Android => {
            if crate::adb::is_emulator(device.id.as_str()) {
                Ok(LocationTarget::Emulator)
            } else {
                let mut m = "Location spoofing is only supported on Android emulators, not physical device '".to_string();
                m.append(device.id.as_str());
                m.append("'. Use a mock location app instead.");
                Err(McpToolError::invalid_params(m))
            }
        },
    }
}

/// Whether a spoofed location can be cleared on a device of this platform:
/// on iOS simulators only.
pub fn clear_location_check(platform: DevicePlatform) -> (r: Result<(), McpToolError>)
    ensures
        match platform {
            DevicePlatform::IosSimulator => r is Ok,
            DevicePlatform::IosDevice => r matches Err(e) && is_error(
                e,
                "invalid_params"@,
                "Clearing spoofed location is only supported on iOS simulators."@,
            ),
            DevicePlatform::Android => r matches Err(e) && is_error(
                e,
                "invalid_params"@,
                "Clearing spoofed location is only supported on iOS simulators. For Android emulators, set a new location or restart the emulator."@,
            ),
        },
{
    match platform {
        DevicePlatform::IosSimulator => Ok(()),
        DevicePlatform::IosDevice => Err(
            McpToolError::invalid_params(
                "Clearing spoofed location is only supported on iOS simulators.".to_string(),
            ),
        ),
        DevicePlatform::Android => Err(
            McpToolError::invalid_params(
                "Clearing spoofed location is only supported on iOS simulators. For Android emulators, set a new location or restart the emulator.".to_string(),
            ),
        ),
    }
}

/// Where a network condition is applied.
#[derive(Debug, Clone)]
pub enum NetworkTarget {
    /// A preset on an iOS simulator.
    SimulatorPreset(NetworkConditionPreset),
    /// Any condition on an Android device.
    Android(NetworkConditionSpec),
}

/// Where a network condition for `device` goes: iOS simulators take presets
/// (while simulator throttling is enabled), physical iOS devices are
/// refused, Android devices take any condition.
pub fn network_target(device: &ConnectedDevice, spec: NetworkConditionSpec, ios_throttling_enabled: bool) -> (r:
    Result<NetworkTarget, McpToolError>)
    ensures
        match device.platform {
            DevicePlatform::IosSimulator => if !ios_throttling_enabled {
                r matches Err(e) && e.code@ == "invalid_params"@ && e.message@
                    == crate::network_condition::ios_gate_text()
            } else {
                match spec {
                    NetworkConditionSpec::Preset { preset } => r matches Ok(NetworkTarget::SimulatorPreset(p))
                        && p == preset,
                    NetworkConditionSpec::Custom { .. } => r matches Err(e) && is_error(
                        e,
                        "invalid_params"@,
                        "Custom network shaping parameters are not supported on the iOS Simulator. Pass a 'preset' instead."@,
                    ),
                }
            },
            DevicePlatform::IosDevice => r matches Err(e) && is_error(
                e,
                "invalid_params"@,
                "Network throttling is only supported on iOS simulators, not physical device '"@
                    + device.id@ + "'."@,
            ),
            DevicePlatform::Android => r matches Ok(NetworkTarget::Android(s)) && s == spec,
        },
{
    match device.platform {
        DevicePlatform::IosSimulator => {
            if !ios_throttling_enabled {
                return Err(
                    McpToolError::invalid_params(
                        crate::network_condition::ios_network_throttling_gate_message(),
                    ),
                );
            }
            match spec {
                NetworkConditionSpec::Preset { preset } => Ok(NetworkTarget::SimulatorPreset(preset)),
                NetworkConditionSpec::Custom { .. } => Err(
                    McpToolError::invalid_params(
                        "Custom network shaping parameters are not supported on the iOS Simulator. Pass a 'preset' instead.".to_string(),
                    ),
                ),
            }
        },
        DevicePlatform::IosDevice => {
            let mut m = "Network throttling is only supported on iOS simulators, not physical device '".to_string();
            m.append(device.id.as_str());
            m.append("'.");
            Err(McpToolError::invalid_params(m))
        },
        DevicePlatform::Android => Ok(NetworkTarget::Android(spec)),
    }
}

/// Whether network throttling can be cleared on a device of this platform:
/// on iOS simulators (while simulator throttling is enabled) and Android
/// devices.
pub fn clear_network_check(platform: DevicePlatform, ios_throttling_enabled: bool) -> (r: Result<
    (),
    McpToolError,
>)
    ensures
        match platform {
            DevicePlatform::IosSimulator => if ios_throttling_enabled {
                r is Ok
            } else {
                r matches Err(e) && e.code@ == "invalid_params"@ && e.message@
                    == crate::network_condition::ios_gate_text()
            },
            DevicePlatform::IosDevice => r matches Err(e) && is_error(
                e,
                "invalid_params"@,
                "Clearing network throttling is only supported on iOS simulators."@,
            ),
            DevicePlatform::Android => r is Ok,
        },
{
    match platform {
        DevicePlatform::IosSimulator => {
            if ios_throttling_enabled {
                Ok(())
            } else {
                Err(
                    McpToolError::invalid_params(
                        crate::network_condition::ios_network_throttling_gate_message(),
                    ),
                )
            }
        },
        DevicePlatform::IosDevice => Err(
            McpToolError::invalid_params(
                "Clearing network throttling is only supported on iOS simulators.".to_string(),
            ),
        ),
        DevicePlatform::Android => Ok(()),
    }
}

} // verus!
