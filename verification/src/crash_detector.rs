//! Crash detection over a stream of log entries: Java exceptions, native
//! crashes, ANRs and iOS crashes, each with its stack trace.
use vstd::prelude::*;
use crate::text::{is_ws, trim_end, chars_eq_str, chars_of, contains, contains_str, ends_with, ends_with_str, is_digit, lines, slice_of, starts_with, starts_with_str, str_eq, trim, trim_chars, trim_start, trim_start_index};
use crate::log_entry::{LogEntry, LogLevel, LogPlatform, EntryModel};

verus! {

/// Most lines a crash report gathers.
pub const MAX_ACCUMULATION_LINES: usize = 200;

#[derive(Debug, Clone, Copy, PartialEq, Eq, Structural)]
pub enum CrashType {
    JavaException,
    NativeCrash,
    Anr,
    IosCrash,
}

/// A detected crash.
#[derive(Debug, Clone)]
pub struct CrashReport {
    pub crash_type: CrashType,
    pub headline: String,
    pub stack_trace: Vec<String>,
    pub first_index: usize,
    pub last_index: usize,
    pub timestamp: String,
    pub pid: Option<u32>,
    pub tag: String,
}

/// A crash report with its strings as character sequences.
pub struct ReportModel {
    pub crash_type: CrashType,
    pub headline: Seq<char>,
    pub lines: Seq<Seq<char>>,
    pub first_index: usize,
    pub last_index: usize,
    pub timestamp: Seq<char>,
    pub pid: Option<u32>,
    pub tag: Seq<char>,
}

pub open spec fn strings_view(v: Seq<String>) -> Seq<Seq<char>> {
    Seq::new(v.len(), |i: int| v[i]@)
}

impl View for CrashReport {
    type V = ReportModel;

    open spec fn view(&self) -> ReportModel {
        ReportModel {
            crash_type: self.crash_type,
            headline: self.headline@,
            lines: strings_view(self.stack_trace@),
            first_index: self.first_index,
            last_index: self.last_index,
            timestamp: self.timestamp@,
            pid: self.pid,
            tag: self.tag@,
        }
    }
}

struct PendingCrash {
    crash_type: CrashType,
    headline: String,
    lines: Vec<String>,
    first_index: usize,
    last_index: usize,
    timestamp: String,
    pid: Option<u32>,
    tag: String,
}

impl View for PendingCrash {
    type V = ReportModel;

    closed spec fn view(&self) -> ReportModel {
        ReportModel {
            crash_type: self.crash_type,
            headline: self.headline@,
            lines: strings_view(self.lines@),
            first_index: self.first_index,
            last_index: self.last_index,
            timestamp: self.timestamp@,
            pid: self.pid,
            tag: self.tag@,
        }
    }
}

enum DetectorState {
    Idle,
    Accumulating(PendingCrash),
}

/// Incremental crash detector: feed it entries in order.
pub struct CrashDetector {
    state: DetectorState,
}

// ---------------------------------------------------------------------------
// Specification
// ---------------------------------------------------------------------------

/// Looks like `java.lang.NullPointerException`: the first token of the
/// trimmed message (up to a space, colon or tab) holds a dot and ends with
/// `Exception` or `Error`.
pub open spec fn is_java_exception(msg: Seq<char>) -> bool {
    let t = trim(msg);
    let tok = t.take(first_separator(t));
    contains(tok, "."@) && (ends_with(tok, "Exception"@) || ends_with(tok, "Error"@))
}

/// Position of the first space, colon or tab in `s`, or its length.
pub open spec fn first_separator(s: Seq<char>) -> int
    decreases s.len(),
{
    if s.len() == 0 {
        0
    } else if s[0] == ' ' || s[0] == ':' || s[0] == '\t' {
        0
    } else {
        1 + first_separator(s.drop_first())
    }
}

/// `... N more` in a Java stack trace.
pub open spec fn is_more_line(s: Seq<char>) -> bool {
    starts_with(s, "... "@) && ends_with(s, " more"@)
}

/// `signal 11 (SIGSEGV)` and the like.
pub open spec fn is_signal(msg: Seq<char>) -> bool {
    contains(msg, "signal "@) && (contains(msg, "SIG"@) || contains(msg, "si_code"@))
}

/// Starts with an ASCII digit, like `0   libsystem_kernel.dylib`.
pub open spec fn is_numeric_frame(s: Seq<char>) -> bool {
    s.len() > 0 && is_digit(s[0])
}

pub open spec fn is_error_or_fatal(l: LogLevel) -> bool {
    l == LogLevel::Error || l == LogLevel::Fatal
}

/// The kind of crash an Android entry starts, if any.
pub open spec fn android_start(e: EntryModel) -> Option<CrashType> {
    let m = e.message;
    if contains(m, "ANR in"@) || contains(m, "Application Not Responding"@) {
        Some(CrashType::Anr)
    } else if contains(m, "FATAL EXCEPTION"@) {
        Some(CrashType::JavaException)
    } else if is_error_or_fatal(e.level) && is_java_exception(m) {
        Some(CrashType::JavaException)
    } else if contains(m, "Fatal signal"@) {
        Some(CrashType::NativeCrash)
    } else if e.level == LogLevel::Fatal && is_signal(m) {
        Some(CrashType::NativeCrash)
    } else {
        None
    }
}

/// Whether an iOS entry starts a crash.
pub open spec fn ios_start(e: EntryModel) -> bool {
    let m = e.message;
    contains(m, "Terminating app due to uncaught exception"@) || contains(m, "assertion failure"@)
        || contains(m, "precondition failure"@) || contains(m, "EXC_BAD_ACCESS"@) || contains(
        m,
        "EXC_CRASH"@,
    ) || e.level == LogLevel::Fatal
}

/// The kind of crash `e` starts, if any.
pub open spec fn crash_start(e: EntryModel) -> Option<CrashType> {
    match e.platform {
        LogPlatform::Android => android_start(e),
        LogPlatform::Ios => if ios_start(e) {
            Some(CrashType::IosCrash)
        } else {
            None
        },
    }
}

/// The pending crash an entry at `index` starts.
pub open spec fn new_pending(t: CrashType, index: usize, e: EntryModel) -> ReportModel {
    ReportModel {
        crash_type: t,
        headline: e.message,
        lines: seq![e.message],
        first_index: index,
        last_index: index,
        timestamp: e.timestamp,
        pid: e.pid,
        tag: e.tag,
    }
}

pub open spec fn continues_java(e: EntryModel) -> bool {
    let m = e.message;
    let t = trim_start(m);
    starts_with(t, "at "@) || starts_with(m, "\tat "@) || starts_with(t, "Caused by:"@)
        || is_more_line(t) || is_java_exception(t) || (is_error_or_fatal(e.level) && e.tag
        == "AndroidRuntime"@ && m.len() > 0)
}

pub open spec fn continues_native(e: EntryModel) -> bool {
    let m = e.message;
    let tag = e.tag;
    (tag == "DEBUG"@ || tag == "crash_dump"@ || tag == "tombstoned"@ || tag == "libc"@) && (
    contains(m, "#"@) || contains(m, "backtrace:"@) || contains(m, "signal"@) || contains(
        m,
        "pc "@,
    ) || contains(m, "fault addr"@) || contains(m, "Abort message"@) || contains(m, "pid:"@))
}

pub open spec fn continues_anr(p: ReportModel, e: EntryModel) -> bool {
    p.lines.len() < 3 && (e.tag == "ActivityManager"@ || e.tag == p.tag)
}

pub open spec fn continues_ios(e: EntryModel) -> bool {
    let m = e.message;
    let t = trim_start(m);
    starts_with(t, "0x"@) || contains(t, "0x"@) || contains(m, "CoreFoundation"@) || contains(
        m,
        "libobjc"@,
    ) || contains(m, "UIKitCore"@) || contains(m, "libsystem"@) || contains(m, "___crash"@)
        || contains(m, "fatal error"@) || contains(m, "Thread "@) || is_numeric_frame(t)
        || e.level == LogLevel::Fatal
}

/// Whether `e` continues the pending crash `p`: the pids agree when both
/// are known, and the line looks like more of that kind of crash.
pub open spec fn continues(p: ReportModel, e: EntryModel) -> bool {
    (match (p.pid, e.pid) {
        (Some(a), Some(b)) => a == b,
        _ => true,
    }) && match p.crash_type {
        CrashType::JavaException => continues_java(e),
        CrashType::NativeCrash => continues_native(e),
        CrashType::Anr => continues_anr(p, e),
        CrashType::IosCrash => continues_ios(e),
    }
}

pub open spec fn start_state(index: usize, e: EntryModel) -> Option<ReportModel> {
    match crash_start(e) {
        Some(t) => Some(new_pending(t, index, e)),
        None => None,
    }
}

/// One step of the detector: the next state and the report it emits.
pub open spec fn feed_step(st: Option<ReportModel>, index: usize, e: EntryModel) -> (
    Option<ReportModel>,
    Option<ReportModel>,
) {
    match st {
        None => (start_state(index, e), None),
        Some(p) => if p.lines.len() < MAX_ACCUMULATION_LINES && continues(p, e) {
            (Some(ReportModel { lines: p.lines.push(e.message), last_index: index, ..p }), None)
        } else {
            (start_state(index, e), Some(p))
        },
    }
}

/// The detector state and the reports emitted after feeding `es` in order
/// to a fresh detector.
pub open spec fn run(es: Seq<(usize, EntryModel)>) -> (Option<ReportModel>, Seq<ReportModel>)
    decreases es.len(),
{
    if es.len() == 0 {
        (None, seq![])
    } else {
        let prev = run(es.drop_last());
        let step = feed_step(prev.0, es.last().0, es.last().1);
        (
            step.0,
            match step.1 {
                Some(r) => prev.1.push(r),
                None => prev.1,
            },
        )
    }
}

/// All reports: those emitted while feeding `es`, then the pending one.
pub open spec fn detect_all(es: Seq<(usize, EntryModel)>) -> Seq<ReportModel> {
    let r = run(es);
    match r.0 {
        Some(p) => r.1.push(p),
        None => r.1,
    }
}

/// Entries paired with their positions.
pub open spec fn positioned(es: Seq<LogEntry>) -> Seq<(usize, EntryModel)> {
    Seq::new(es.len(), |i: int| (i as usize, es[i]@))
}

pub open spec fn reports_view(v: Seq<CrashReport>) -> Seq<ReportModel> {
    Seq::new(v.len(), |i: int| v[i]@)
}

// ---------------------------------------------------------------------------
// Detection
// ---------------------------------------------------------------------------

fn first_separator_exec(s: &[char]) -> (n: usize)
    ensures
        n == first_separator(s@),
        n <= s.len(),
{
    let mut i: usize = 0;
    assert(s@.skip(0) =~= s@);
    while i < s.len() && s[i] != ' ' && s[i] != ':' && s[i] != '\t'
        invariant
            i <= s.len(),
            first_separator(s@) == i + first_separator(s@.skip(i as int)),
        decreases s.len() - i,
    {
        assert(s@.skip(i as int).drop_first() =~= s@.skip(i + 1));
        assert(s@.skip(i as int)[0] == s@[i as int]);
        i += 1;
    }
    if i < s.len() {
        assert(s@.skip(i as int)[0] == s@[i as int]);
    }
    i
}

fn looks_like_java_exception(msg: &[char]) -> (b: bool)
    ensures
        b == is_java_exception(msg@),
{
    let t = trim_chars(msg);
    let n = first_separator_exec(&t);
    let tok = slice_of(&t, 0, n);
    assert(tok@ =~= t@.take(n as int));
    contains_str(&tok, ".") && (ends_with_str(&tok, "Exception") || ends_with_str(&tok, "Error"))
}

fn looks_like_more_line(s: &[char]) -> (b: bool)
    ensures
        b == is_more_line(s@),
{
    starts_with_str(s, "... ") && ends_with_str(s, " more")
}

fn looks_like_signal(msg: &[char]) -> (b: bool)
    ensures
        b == is_signal(msg@),
{
    contains_str(msg, "signal ") && (contains_str(msg, "SIG") || contains_str(msg, "si_code"))
}

fn looks_like_numeric_frame(s: &[char]) -> (b: bool)
    ensures
        b == is_numeric_frame(s@),
{
    s.len() > 0 && '0' <= s[0] && s[0] <= '9'
}

fn is_error_or_fatal_exec(l: LogLevel) -> (b: bool)
    ensures
        b == is_error_or_fatal(l),
{
    match l {
        LogLevel::Error | LogLevel::Fatal => true,
        _ => false,
    }
}

fn new_pending_exec(crash_type: CrashType, index: usize, entry: &LogEntry) -> (p: PendingCrash)
    ensures
        p@ == new_pending(crash_type, index, entry@),
{
    let mut lines: Vec<String> = Vec::new();
    lines.push(entry.message.clone());
    let p = PendingCrash {
        crash_type,
        headline: entry.message.clone(),
        lines,
        first_index: index,
        last_index: index,
        timestamp: entry.timestamp.clone(),
        pid: entry.pid,
        tag: entry.tag.clone(),
    };
    assert(strings_view(p.lines@) =~= seq![entry.message@]);
    p
}

fn try_start_android(index: usize, entry: &LogEntry) -> (r: Option<PendingCrash>)
    requires
        entry.platform == LogPlatform::Android,
    ensures
        match r {
            Some(p) => start_state(index, entry@) == Some(p@),
            None => start_state(index, entry@) is None,
        },
{
    let msg = chars_of(entry.message.as_str());
    if contains_str(&msg, "ANR in") || contains_str(&msg, "Application Not Responding") {
        return Some(new_pending_exec(CrashType::Anr, index, entry));
    }
    if contains_str(&msg, "FATAL EXCEPTION") {
        return Some(new_pending_exec(CrashType::JavaException, index, entry));
    }
    if is_error_or_fatal_exec(entry.level) && looks_like_java_exception(&msg) {
        return Some(new_pending_exec(CrashType::JavaException, index, entry));
    }
    if contains_str(&msg, "Fatal signal") {
        return Some(new_pending_exec(CrashType::NativeCrash, index, entry));
    }
    if entry.level == LogLevel::Fatal && looks_like_signal(&msg) {
        return Some(new_pending_exec(CrashType::NativeCrash, index, entry));
    }
    None
}

fn try_start_ios(index: usize, entry: &LogEntry) -> (r: Option<PendingCrash>)
    requires
        entry.platform == LogPlatform::Ios,
    ensures
        match r {
            Some(p) => start_state(index, entry@) == Some(p@),
            None => start_state(index, entry@) is None,
        },
{
    let msg = chars_of(entry.message.as_str());
    let is_crash_msg = contains_str(&msg, "Terminating app due to uncaught exception")
        || contains_str(&msg, "assertion failure") || contains_str(&msg, "precondition failure")
        || contains_str(&msg, "EXC_BAD_ACCESS") || contains_str(&msg, "EXC_CRASH") || entry.level
        == LogLevel::Fatal;
    if is_crash_msg {
        Some(new_pending_exec(CrashType::IosCrash, index, entry))
    } else {
        None
    }
}

fn try_start_crash(index: usize, entry: &LogEntry) -> (r: Option<PendingCrash>)
    ensures
        match r {
            Some(p) => start_state(index, entry@) == Some(p@),
            None => start_state(index, entry@) is None,
        },
{
    match entry.platform {
        LogPlatform::Android => try_start_android(index, entry),
        LogPlatform::Ios => try_start_ios(index, entry),
    }
}

fn continues_java_exec(entry: &LogEntry) -> (b: bool)
    ensures
        b == continues_java(entry@),
{
    let msg = chars_of(entry.message.as_str());
    let k = trim_start_index(&msg);
    let t = slice_of(&msg, k, msg.len());
    assert(t@ =~= msg@.skip(k as int));
    let tag = chars_of(entry.tag.as_str());
    starts_with_str(&t, "at ") || starts_with_str(&msg, "\tat ") || starts_with_str(
        &t,
        "Caused by:",
    ) || looks_like_more_line(&t) || looks_like_java_exception(&t) || (is_error_or_fatal_exec(
        entry.level,
    ) && chars_eq_str(&tag, "AndroidRuntime") && msg.len() > 0)
}

fn continues_native_exec(entry: &LogEntry) -> (b: bool)
    ensures
        b == continues_native(entry@),
{
    let msg = chars_of(entry.message.as_str());
    let tag = chars_of(entry.tag.as_str());
    let is_crash_tag = chars_eq_str(&tag, "DEBUG") || chars_eq_str(&tag, "crash_dump")
        || chars_eq_str(&tag, "tombstoned") || chars_eq_str(&tag, "libc");
    if !is_crash_tag {
        return false;
    }
    contains_str(&msg, "#") || contains_str(&msg, "backtrace:") || contains_str(&msg, "signal")
        || contains_str(&msg, "pc ") || contains_str(&msg, "fault addr") || contains_str(
        &msg,
        "Abort message",
    ) || contains_str(&msg, "pid:")
}

fn continues_anr_exec(pending: &PendingCrash, entry: &LogEntry) -> (b: bool)
    ensures
        b == continues_anr(pending@, entry@),
{
    if pending.lines.len() >= 3 {
        return false;
    }
    let tag = chars_of(entry.tag.as_str());
    chars_eq_str(&tag, "ActivityManager") || str_eq(entry.tag.as_str(), pending.tag.as_str())
}

fn continues_ios_exec(entry: &LogEntry) -> (b: bool)
    ensures
        b == continues_ios(entry@),
{
    let msg = chars_of(entry.message.as_str());
    let k = trim_start_index(&msg);
    let t = slice_of(&msg, k, msg.len());
    assert(t@ =~= msg@.skip(k as int));
    starts_with_str(&t, "0x") || contains_str(&t, "0x") || contains_str(&msg, "CoreFoundation")
        || contains_str(&msg, "libobjc") || contains_str(&msg, "UIKitCore") || contains_str(
        &msg,
        "libsystem",
    ) || contains_str(&msg, "___crash") || contains_str(&msg, "fatal error") || contains_str(
        &msg,
        "Thread ",
    ) || looks_like_numeric_frame(&t) || entry.level == LogLevel::Fatal
}

fn continues_crash(pending: &PendingCrash, entry: &LogEntry) -> (b: bool)
    ensures
        b == continues(pending@, entry@),
{
    if let (Some(crash_pid), Some(entry_pid)) = (pending.pid, entry.pid) {
        if crash_pid != entry_pid {
            return false;
        }
    }
    match pending.crash_type {
        CrashType::JavaException => continues_java_exec(entry),
        CrashType::NativeCrash => continues_native_exec(entry),
        CrashType::Anr => continues_anr_exec(pending, entry),
        CrashType::IosCrash => continues_ios_exec(entry),
    }
}

impl PendingCrash {
    fn into_report(self) -> (r: CrashReport)
        ensures
            r@ == self@,
    {
        CrashReport {
            crash_type: self.crash_type,
            headline: self.headline,
            stack_trace: self.lines,
            first_index: self.first_index,
            last_index: self.last_index,
            timestamp: self.timestamp,
            pid: self.pid,
            tag: self.tag,
        }
    }
}

pub open spec fn opt_report_view(r: Option<CrashReport>) -> Option<ReportModel> {
    match r {
        Some(x) => Some(x@),
        None => None,
    }
}

impl CrashDetector {
    /// The pending crash, if one is being gathered.
    pub closed spec fn pending(&self) -> Option<ReportModel> {
        match self.state {
            DetectorState::Idle => None,
            DetectorState::Accumulating(p) => Some(p@),
        }
    }

    pub fn new() -> (d: CrashDetector)
        ensures
            d.pending() is None,
    {
        CrashDetector { state: DetectorState::Idle }
    }

    /// Feed a log entry. Returns the previously gathered crash when `entry`
    /// does not continue it.
    pub fn feed(&mut self, index: usize, entry: &LogEntry) -> (r: Option<CrashReport>)
        ensures
            (final(self).pending(), opt_report_view(r)) == feed_step(old(self).pending(), index, entry@),
    {
        let mut st = DetectorState::Idle;
        std::mem::swap(&mut st, &mut self.state);
        match st {
            DetectorState::Idle => {
                if let Some(pending) = try_start_crash(index, entry) {
                    self.state = DetectorState::Accumulating(pending);
                }
                None
            },
            DetectorState::Accumulating(mut pending) => {
                if pending.lines.len() < MAX_ACCUMULATION_LINES && continues_crash(&pending, entry) {
                    let ghost before = pending@;
                    pending.lines.push(entry.message.clone());
                    pending.last_index = index;
                    assert(strings_view(pending.lines@) =~= before.lines.push(entry.message@));
                    self.state = DetectorState::Accumulating(pending);
                    None
                } else {
                    let report = pending.into_report();
                    if let Some(new_pending) = try_start_crash(index, entry) {
                        self.state = DetectorState::Accumulating(new_pending);
                    }
                    Some(report)
                }
            },
        }
    }

    /// Emit the pending crash, if any (call after the last entry).
    pub fn flush(&mut self) -> (r: Option<CrashReport>)
        ensures
            opt_report_view(r) == old(self).pending(),
            final(self).pending() is None,
    {
        let mut st = DetectorState::Idle;
        std::mem::swap(&mut st, &mut self.state);
        match st {
            DetectorState::Idle => None,
            DetectorState::Accumulating(pending) => Some(pending.into_report()),
        }
    }
}

impl Default for CrashDetector {
    fn default() -> (d: Self)
        ensures
            d.pending() is None,
    {
        CrashDetector::new()
    }
}

/// Scan log entries and return all detected crashes.
pub fn detect_crashes(entries: &[LogEntry]) -> (r: Vec<CrashReport>)
    ensures
        reports_view(r@) == detect_all(positioned(entries@)),
{
    let ghost es = positioned(entries@);
    let mut detector = CrashDetector::new();
    let mut reports: Vec<CrashReport> = Vec::new();
    let mut i: usize = 0;
    assert(es.take(0) =~= Seq::<(usize, EntryModel)>::empty());
    while i < entries.len()
        invariant
            i <= entries.len(),
            es == positioned(entries@),
            detector.pending() == run(es.take(i as int)).0,
            reports_view(reports@) == run(es.take(i as int)).1,
        decreases entries.len() - i,
    {
        assert(es.take(i + 1).drop_last() =~= es.take(i as int));
        assert(es.take(i + 1).last() == (i, entries@[i as int]@));
        let ghost before = reports_view(reports@);
        if let Some(report) = detector.feed(i, &entries[i]) {
            reports.push(report);
        }
        assert(reports_view(reports@) =~= run(es.take(i + 1)).1);
        i += 1;
    }
    assert(es.take(i as int) =~= es);
    if let Some(report) = detector.flush() {
        reports.push(report);
    }
    assert(reports_view(reports@) =~= detect_all(es));
    reports
}

/// Entries with explicit positions (for ring-buffer use).
pub open spec fn indexed(es: Seq<(usize, &LogEntry)>) -> Seq<(usize, EntryModel)> {
    Seq::new(es.len(), |i: int| (es[i].0, es[i].1@))
}

/// Scan entries with explicit index offsets (for ring-buffer use).
pub fn detect_crashes_indexed(entries: &[(usize, &LogEntry)]) -> (r: Vec<CrashReport>)
    ensures
        reports_view(r@) == detect_all(indexed(entries@)),
{
    let ghost es = indexed(entries@);
    let mut detector = CrashDetector::new();
    let mut reports: Vec<CrashReport> = Vec::new();
    let mut i: usize = 0;
    assert(es.take(0) =~= Seq::<(usize, EntryModel)>::empty());
    while i < entries.len()
        invariant
            i <= entries.len(),
            es == indexed(entries@),
            detector.pending() == run(es.take(i as int)).0,
            reports_view(reports@) == run(es.take(i as int)).1,
        decreases entries.len() - i,
    {
        assert(es.take(i + 1).drop_last() =~= es.take(i as int));
        let (idx, entry) = entries[i];
        assert(es.take(i + 1).last() == (idx, entry@));
        if let Some(report) = detector.feed(idx, entry) {
            reports.push(report);
        }
        assert(reports_view(reports@) =~= run(es.take(i + 1)).1);
        i += 1;
    }
    assert(es.take(i as int) =~= es);
    if let Some(report) = detector.flush() {
        reports.push(report);
    }
    assert(reports_view(reports@) =~= detect_all(es));
    reports
}


// ---------------------------------------------------------------------------
// Laws
// ---------------------------------------------------------------------------

/// A report holds between 1 and `MAX_ACCUMULATION_LINES` lines, the first of
/// which is its headline, and spans the entries from `first_index` to
/// `last_index`.
pub open spec fn well_formed_report(r: ReportModel) -> bool {
    &&& 1 <= r.lines.len() <= MAX_ACCUMULATION_LINES
    &&& r.lines[0] == r.headline
    &&& r.first_index <= r.last_index
}

/// Entry positions strictly increase.
pub open spec fn increasing(es: Seq<(usize, EntryModel)>) -> bool {
    forall|i: int, j: int| 0 <= i < j < es.len() ==> es[i].0 < es[j].0
}

/// Reports are well formed and come in order, each ending before the next begins.
pub open spec fn ordered_reports(rs: Seq<ReportModel>) -> bool {
    &&& forall|k: int| 0 <= k < rs.len() ==> well_formed_report(#[trigger] rs[k])
    &&& forall|k: int| 0 <= k < rs.len() - 1 ==> #[trigger] rs[k].last_index < rs[k + 1].first_index
}

pub open spec fn run_invariant(es: Seq<(usize, EntryModel)>) -> bool {
    let (st, reps) = run(es);
    &&& ordered_reports(reps)
    &&& (es.len() > 0 && reps.len() > 0 ==> reps.last().last_index <= es.last().0)
    &&& match st {
        Some(p) => {
            &&& well_formed_report(p)
            &&& es.len() > 0 && p.last_index <= es.last().0
            &&& (reps.len() > 0 ==> reps.last().last_index < p.first_index)
        },
        None => true,
    }
}

proof fn lemma_run_invariant(es: Seq<(usize, EntryModel)>)
    requires
        increasing(es),
    ensures
        run_invariant(es),
    decreases es.len(),
{
    if es.len() > 0 {
        let pre = es.drop_last();
        assert(increasing(pre));
        lemma_run_invariant(pre);
        let (st, reps) = run(pre);
        let x = es.last().0;
        let e = es.last().1;
        if pre.len() > 0 {
            assert(pre.last().0 < x);
        }
        match st {
            None => {},
            Some(p) => {
                if p.lines.len() < MAX_ACCUMULATION_LINES && continues(p, e) {
                    assert(p.lines.push(e.message)[0] == p.lines[0]);
                } else {
                    let reps2 = reps.push(p);
                    assert forall|k: int| 0 <= k < reps2.len() - 1 implies #[trigger] reps2[k].last_index
                        < reps2[k + 1].first_index by {
                        if k < reps.len() - 1 {
                            assert(reps2[k] == reps[k] && reps2[k + 1] == reps[k + 1]);
                        }
                    }
                    assert forall|k: int| 0 <= k < reps2.len() implies well_formed_report(#[trigger] reps2[k]) by {
                        if k < reps.len() {
                            assert(reps2[k] == reps[k]);
                        }
                    }
                }
            },
        }
    }
}

/// Law: every crash that `detect_crashes` reports is well formed (1 to 200
/// lines, headline first, `first_index <= last_index`), and reports come in
/// order of their entries, none overlapping the next.
pub proof fn law_detected_crashes_ordered(es: Seq<(usize, EntryModel)>)
    requires
        increasing(es),
    ensures
        ordered_reports(detect_all(es)),
{
    lemma_run_invariant(es);
    let (st, reps) = run(es);
    match st {
        Some(p) => {
            let all = reps.push(p);
            assert forall|k: int| 0 <= k < all.len() - 1 implies #[trigger] all[k].last_index
                < all[k + 1].first_index by {
                if k < reps.len() - 1 {
                    assert(all[k] == reps[k] && all[k + 1] == reps[k + 1]);
                }
            }
            assert forall|k: int| 0 <= k < all.len() implies well_formed_report(#[trigger] all[k]) by {
                if k < reps.len() {
                    assert(all[k] == reps[k]);
                }
            }
        },
        None => {},
    }
}

/// Positions of a slice increase.
pub proof fn lemma_positioned_increasing(es: Seq<LogEntry>)
    requires
        es.len() <= usize::MAX,
    ensures
        increasing(positioned(es)),
{
}

/// Law: entries of which none starts a crash give no crash reports.
pub proof fn law_no_trigger_no_crash(es: Seq<(usize, EntryModel)>)
    requires
        forall|i: int| 0 <= i < es.len() ==> crash_start(#[trigger] es[i].1) is None,
    ensures
        detect_all(es).len() == 0,
    decreases es.len(),
{
    if es.len() > 0 {
        law_no_trigger_no_crash(es.drop_last());
        assert(crash_start(es[es.len() - 1].1) is None);
    }
}

/// Law: every report that `detect_crashes` gives starts at an entry that
/// triggers a crash of the report's type, and its headline is that entry's
/// message.
pub proof fn law_reports_start_at_triggers(es: Seq<(usize, EntryModel)>)
    ensures
        forall|k: int| 0 <= k < detect_all(es).len() ==> exists|i: int|
            0 <= i < es.len() && #[trigger] detect_all(es)[k].first_index == es[i].0
                && crash_start(es[i].1) == Some(detect_all(es)[k].crash_type)
                && detect_all(es)[k].headline == es[i].1.message,
{
    lemma_run_starts(es);
}

pub open spec fn started_here(es: Seq<(usize, EntryModel)>, r: ReportModel) -> bool {
    exists|i: int|
        0 <= i < es.len() && r.first_index == es[i].0 && crash_start(es[i].1) == Some(r.crash_type)
            && r.headline == es[i].1.message
}

proof fn lemma_run_starts(es: Seq<(usize, EntryModel)>)
    ensures
        forall|k: int| 0 <= k < run(es).1.len() ==> started_here(es, #[trigger] run(es).1[k]),
        run(es).0 matches Some(p) ==> started_here(es, p),
        forall|k: int| 0 <= k < detect_all(es).len() ==> started_here(es, #[trigger] detect_all(es)[k]),
    decreases es.len(),
{
    if es.len() > 0 {
        let pre = es.drop_last();
        lemma_run_starts(pre);
        let (st, reps) = run(pre);
        assert forall|r: ReportModel| started_here(pre, r) implies started_here(es, r) by {
            let i = choose|i: int|
                0 <= i < pre.len() && r.first_index == pre[i].0 && crash_start(pre[i].1) == Some(
                    r.crash_type,
                ) && r.headline == pre[i].1.message;
            assert(es[i] == pre[i]);
        }
        let x = es.last().0;
        let e = es.last().1;
        match crash_start(e) {
            Some(t) => {
                assert(es[es.len() - 1] == es.last());
                assert(started_here(es, new_pending(t, x, e)));
            },
            None => {},
        }
        match st {
            Some(p) => {
                if p.lines.len() < MAX_ACCUMULATION_LINES && continues(p, e) {
                    assert(started_here(pre, p));
                }
            },
            None => {},
        }
        let reps2 = run(es).1;
        assert forall|k: int| 0 <= k < reps2.len() implies started_here(es, #[trigger] reps2[k]) by {
            if k < reps.len() {
                assert(reps2[k] == reps[k]);
                assert(started_here(pre, reps[k]));
            } else {
                assert(started_here(pre, st.unwrap()));
            }
        }
    }
    let all = detect_all(es);
    let (st, reps) = run(es);
    assert forall|k: int| 0 <= k < all.len() implies started_here(es, #[trigger] all[k]) by {
        if k < reps.len() {
            assert(all[k] == reps[k]);
        }
    }
}

proof fn lemma_ordered_below_last(rs: Seq<ReportModel>)
    requires
        ordered_reports(rs),
        rs.len() > 0,
    ensures
        forall|k: int| 0 <= k < rs.len() ==> #[trigger] rs[k].last_index <= rs.last().last_index,
    decreases rs.len(),
{
    if rs.len() > 1 {
        let pre = rs.drop_last();
        assert forall|k: int| 0 <= k < pre.len() - 1 implies #[trigger] pre[k].last_index
            < pre[k + 1].first_index by {
            assert(pre[k] == rs[k] && pre[k + 1] == rs[k + 1]);
        }
        assert forall|k: int| 0 <= k < pre.len() implies well_formed_report(#[trigger] pre[k]) by {
            assert(pre[k] == rs[k]);
        }
        lemma_ordered_below_last(pre);
        assert(well_formed_report(rs[rs.len() - 1]));
        assert(rs[rs.len() - 2].last_index < rs[rs.len() - 1].first_index);
        assert forall|k: int| 0 <= k < rs.len() implies #[trigger] rs[k].last_index
            <= rs.last().last_index by {
            if k < rs.len() - 1 {
                assert(rs[k] == pre[k]);
            }
        }
    }
}

/// Law: every report of `detect_all` spans positions that were fed in, from
/// its first to its last, none beyond the last position fed.
pub proof fn law_reports_within(es: Seq<(usize, EntryModel)>)
    requires
        increasing(es),
    ensures
        forall|k: int| 0 <= k < detect_all(es).len() ==> es.len() > 0 && #[trigger] detect_all(
            es,
        )[k].first_index <= detect_all(es)[k].last_index && detect_all(es)[k].last_index
            <= es.last().0,
{
    lemma_run_invariant(es);
    law_detected_crashes_ordered(es);
    lemma_run_starts(es);
    let all = detect_all(es);
    if all.len() > 0 {
        lemma_ordered_below_last(all);
        let (st, reps) = run(es);
        assert(started_here(es, all[0]));
        assert(es.len() > 0);
        assert(all.last().last_index <= es.last().0);
        assert forall|k: int| 0 <= k < all.len() implies es.len() > 0 && #[trigger] all[k].first_index
            <= all[k].last_index && all[k].last_index <= es.last().0 by {
            assert(well_formed_report(all[k]));
        }
    }
}

} // verus!

verus! {

/// An Android line at Error or Fatal level whose message opens with an
/// exception class (its first token holds a dot and ends in `Exception` or
/// `Error`) starts a Java exception report, unless it announces an ANR: fed
/// alone to a fresh detector it gives exactly one such report, headed by
/// the line, covering just that line.
pub proof fn law_java_exception_starts_report(i: usize, e: EntryModel)
    requires
        e.platform == LogPlatform::Android,
        e.level == LogLevel::Error || e.level == LogLevel::Fatal,
        is_java_exception(e.message),
        !contains(e.message, "ANR in"@),
        !contains(e.message, "Application Not Responding"@),
    ensures
        crash_start(e) == Some(CrashType::JavaException),
        detect_all(seq![(i, e)]) == seq![
            ReportModel {
                crash_type: CrashType::JavaException,
                headline: e.message,
                lines: seq![e.message],
                first_index: i,
                last_index: i,
                timestamp: e.timestamp,
                pid: e.pid,
                tag: e.tag,
            },
        ],
{
    let es = seq![(i, e)];
    assert(es.drop_last() =~= Seq::<(usize, EntryModel)>::empty());
    assert(run(es.drop_last()) == (None::<ReportModel>, Seq::<ReportModel>::empty()));
}

/// `first_separator` stops at the first space, colon or tab.
proof fn lemma_first_separator_at(x: Seq<char>, k: int)
    requires
        0 <= k <= x.len(),
        forall|i: int| 0 <= i < k ==> #[trigger] x[i] != ' ' && x[i] != ':' && x[i] != '\t',
        k == x.len() || x[k] == ' ' || x[k] == ':' || x[k] == '\t',
    ensures
        first_separator(x) == k,
    decreases k,
{
    if k > 0 {
        assert(x[0] != ' ' && x[0] != ':' && x[0] != '\t');
        let y = x.drop_first();
        assert forall|i: int| 0 <= i < k - 1 implies #[trigger] y[i] != ' ' && y[i] != ':' && y[i] != '\t' by {
            assert(y[i] == x[i + 1]);
        }
        lemma_first_separator_at(y, k - 1);
    }
}

/// Trimming the end of `s` keeps every character up to a non-blank one.
proof fn lemma_trim_end_keeps(s: Seq<char>, k: int) -> (q: int)
    requires
        0 <= k < s.len(),
        !is_ws(s[k]),
    ensures
        k < q <= s.len(),
        trim_end(s) == s.take(q),
    decreases s.len(),
{
    if is_ws(s.last()) {
        assert(k < s.len() - 1);
        let t = s.drop_last();
        let q = lemma_trim_end_keeps(t, k);
        assert(t.take(q) =~= s.take(q));
        q
    } else {
        assert(s.take(s.len() as int) =~= s);
        s.len() as int
    }
}

/// A message that opens with an exception class written out, such as
/// `"java.lang.IllegalStateException: Fragment not attached"`, looks like a
/// Java exception: the class is a run of characters without blanks or
/// colons, holding a dot and ending in `Exception` or `Error`, followed by
/// nothing or by a colon.
pub proof fn law_exception_class_message(tok: Seq<char>, rest: Seq<char>)
    requires
        tok.len() > 0,
        forall|i: int| 0 <= i < tok.len() ==> !is_ws(#[trigger] tok[i]) && tok[i] != ':',
        contains(tok, "."@),
        ends_with(tok, "Exception"@) || ends_with(tok, "Error"@),
        rest.len() == 0 || rest[0] == ':',
    ensures
        is_java_exception(tok + rest),
{
    let m = tok + rest;
    assert(m[0] == tok[0]);
    assert(trim_start(m) == m);
    let k: int = if rest.len() == 0 { tok.len() - 1 } else { tok.len() as int };
    assert(!is_ws(m[k]));
    let q = lemma_trim_end_keeps(m, k);
    let t = m.take(q);
    assert(trim(m) == t);
    assert(forall|i: int| 0 <= i < tok.len() ==> #[trigger] t[i] == tok[i]);
    assert(is_ws(' ') && is_ws('\t'));
    lemma_first_separator_at(t, tok.len() as int);
    assert(t.take(tok.len() as int) =~= tok);
}

/// A stack frame line (`"\tat ..."`) of the same process right after such a
/// line joins its report: the report spans both lines.
pub proof fn law_java_exception_takes_frames(i: usize, e: EntryModel, j: usize, f: EntryModel)
    requires
        e.platform == LogPlatform::Android,
        e.level == LogLevel::Error || e.level == LogLevel::Fatal,
        is_java_exception(e.message),
        !contains(e.message, "ANR in"@),
        !contains(e.message, "Application Not Responding"@),
        e.pid == f.pid,
        starts_with(f.message, "\tat "@),
    ensures
        detect_all(seq![(i, e), (j, f)]) == seq![
            ReportModel {
                crash_type: CrashType::JavaException,
                headline: e.message,
                lines: seq![e.message, f.message],
                first_index: i,
                last_index: j,
                timestamp: e.timestamp,
                pid: e.pid,
                tag: e.tag,
            },
        ],
{
    law_java_exception_starts_report(i, e);
    let es = seq![(i, e), (j, f)];
    assert(es.drop_last() =~= seq![(i, e)]);
    let one = seq![(i, e)];
    assert(one.drop_last() =~= Seq::<(usize, EntryModel)>::empty());
    assert(continues_java(f));
    assert(run(one.drop_last()) == (None::<ReportModel>, Seq::<ReportModel>::empty()));
    let p = new_pending(CrashType::JavaException, i, e);
    assert(start_state(i, e) == Some(p));
    assert(run(one) == (Some(p), Seq::<ReportModel>::empty()));
    assert(continues(p, f));
    assert(p.lines.len() < MAX_ACCUMULATION_LINES);
    assert(seq![e.message].push(f.message) =~= seq![e.message, f.message]);
    assert(run(es).0 == Some(ReportModel { lines: p.lines.push(f.message), last_index: j, ..p }));
    assert(run(es).1 =~= Seq::<ReportModel>::empty());
}

} // verus!
