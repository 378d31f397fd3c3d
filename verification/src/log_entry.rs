//! Log entries and the parsers that turn captured lines into them.
use vstd::prelude::*;
use crate::pattern::{CompiledRegex, compile_regex, group_views, regex_captures, regex_compiles, regex_named_captures, str_views};
use crate::text::{contains, is_first_match, is_ws, lemma_find_index_first, matches_at, trim_end, decimal, byte_len, byte_len_exec, byte_slice, char_at_byte, char_index_at_byte, chars_eq_str, chars_of, find_index, find_str, first_word, lemma_trim_start_idempotent, lines, lower, lower_chars, parse_unsigned, parse_unsigned_range, push_char, push_chars, slice_of, split_first_word, string_from, sub_string, trim, trim_chars, trim_range, trim_start, trim_str};

verus! {

/// Severity of a log entry, ordered from least to most severe.
#[derive(Debug, Clone, Copy, PartialEq, Eq, Structural, PartialOrd, Ord, Hash)]
pub enum LogLevel {
    Verbose,
    Debug,
    Info,
    Warn,
    Error,
    Fatal,
}

/// Position of a level in the severity order.
pub open spec fn level_rank(l: LogLevel) -> int {
    match l {
        LogLevel::Verbose => 0,
        LogLevel::Debug => 1,
        LogLevel::Info => 2,
        LogLevel::Warn => 3,
        LogLevel::Error => 4,
        LogLevel::Fatal => 5,
    }
}

/// The level named by a logcat level letter.
pub open spec fn level_of_char(c: char) -> Option<LogLevel> {
    if c == 'V' {
        Some(LogLevel::Verbose)
    } else if c == 'D' {
        Some(LogLevel::Debug)
    } else if c == 'I' {
        Some(LogLevel::Info)
    } else if c == 'W' {
        Some(LogLevel::Warn)
    } else if c == 'E' {
        Some(LogLevel::Error)
    } else if c == 'F' {
        Some(LogLevel::Fatal)
    } else {
        None
    }
}

/// The logcat letter of a level.
pub open spec fn level_char(l: LogLevel) -> char {
    match l {
        LogLevel::Verbose => 'V',
        LogLevel::Debug => 'D',
        LogLevel::Info => 'I',
        LogLevel::Warn => 'W',
        LogLevel::Error => 'E',
        LogLevel::Fatal => 'F',
    }
}

/// The display name of a level.
pub open spec fn level_label(l: LogLevel) -> Seq<char> {
    match l {
        LogLevel::Verbose => "Verbose"@,
        LogLevel::Debug => "Debug"@,
        LogLevel::Info => "Info"@,
        LogLevel::Warn => "Warn"@,
        LogLevel::Error => "Error"@,
        LogLevel::Fatal => "Fatal"@,
    }
}

impl LogLevel {
    pub fn from_char(c: char) -> (r: Option<LogLevel>)
        ensures
            r == level_of_char(c),
    {
        match c {
            'V' => Some(LogLevel::Verbose),
            'D' => Some(LogLevel::Debug),
            'I' => Some(LogLevel::Info),
            'W' => Some(LogLevel::Warn),
            'E' => Some(LogLevel::Error),
            'F' => Some(LogLevel::Fatal),
            _ => None,
        }
    }

    pub fn as_char(self) -> (c: char)
        ensures
            c == level_char(self),
    {
        match self {
            LogLevel::Verbose => 'V',
            LogLevel::Debug => 'D',
            LogLevel::Info => 'I',
            LogLevel::Warn => 'W',
            LogLevel::Error => 'E',
            LogLevel::Fatal => 'F',
        }
    }

    pub fn label(self) -> (s: &'static str)
        ensures
            s@ == level_label(self),
    {
        match self {
            LogLevel::Verbose => "Verbose",
            LogLevel::Debug => "Debug",
            LogLevel::Info => "Info",
            LogLevel::Warn => "Warn",
            LogLevel::Error => "Error",
            LogLevel::Fatal => "Fatal",
        }
    }

    /// The colour a level is drawn in, as red, green and blue.
    pub fn color(self) -> (c: (u8, u8, u8))
        ensures
            c == match self {
                LogLevel::Verbose => (92u8, 99u8, 112u8),
                LogLevel::Debug => (97u8, 175u8, 239u8),
                LogLevel::Info => (152u8, 195u8, 121u8),
                LogLevel::Warn => (229u8, 192u8, 123u8),
                LogLevel::Error => (224u8, 108u8, 117u8),
                LogLevel::Fatal => (198u8, 120u8, 221u8),
            },
    {
        match self {
            LogLevel::Verbose => (92, 99, 112),
            LogLevel::Debug => (97, 175, 239),
            LogLevel::Info => (152, 195, 121),
            LogLevel::Warn => (229, 192, 123),
            LogLevel::Error => (224, 108, 117),
            LogLevel::Fatal => (198, 120, 221),
        }
    }

    /// Position in the severity order (`Verbose` is 0, `Fatal` is 5).
    pub fn rank(self) -> (r: u8)
        ensures
            r == level_rank(self),
    {
        match self {
            LogLevel::Verbose => 0,
            LogLevel::Debug => 1,
            LogLevel::Info => 2,
            LogLevel::Warn => 3,
            LogLevel::Error => 4,
            LogLevel::Fatal => 5,
        }
    }

    /// `self < other` in the severity order.
    pub fn is_below(self, other: LogLevel) -> (r: bool)
        ensures
            r == (level_rank(self) < level_rank(other)),
    {
        self.rank() < other.rank()
    }

    /// All levels, least severe first.
    pub fn all() -> (v: Vec<LogLevel>)
        ensures
            v@ == seq![
                LogLevel::Verbose,
                LogLevel::Debug,
                LogLevel::Info,
                LogLevel::Warn,
                LogLevel::Error,
                LogLevel::Fatal,
            ],
    {
        let v = vec![
            LogLevel::Verbose,
            LogLevel::Debug,
            LogLevel::Info,
            LogLevel::Warn,
            LogLevel::Error,
            LogLevel::Fatal,
        ];
        assert(v@ =~= seq![
            LogLevel::Verbose,
            LogLevel::Debug,
            LogLevel::Info,
            LogLevel::Warn,
            LogLevel::Error,
            LogLevel::Fatal,
        ]);
        v
    }

    /// The level as its one-letter text (what `Display` writes).
    pub fn to_text(self) -> (s: String)
        ensures
            s@ == seq![level_char(self)],
    {
        let mut s = String::new();
        push_char(&mut s, self.as_char());
        s
    }
}

#[derive(Debug, Clone, Copy, PartialEq, Eq, Structural)]
pub enum LogPlatform {
    Android,
    Ios,
}

/// One parsed log line.
#[derive(Debug, Clone)]
pub struct LogEntry {
    pub platform: LogPlatform,
    pub timestamp: String,
    pub pid: Option<u32>,
    pub tid: Option<u64>,
    pub level: LogLevel,
    pub tag: String,
    pub process: Option<String>,
    pub subsystem: Option<String>,
    pub category: Option<String>,
    pub message: String,
}

/// The contents of a log entry, with its strings as character sequences.
pub struct EntryModel {
    pub platform: LogPlatform,
    pub timestamp: Seq<char>,
    pub pid: Option<u32>,
    pub tid: Option<u64>,
    pub level: LogLevel,
    pub tag: Seq<char>,
    pub process: Option<Seq<char>>,
    pub subsystem: Option<Seq<char>>,
    pub category: Option<Seq<char>>,
    pub message: Seq<char>,
}

pub open spec fn opt_view(o: Option<String>) -> Option<Seq<char>> {
    match o {
        Some(s) => Some(s@),
        None => None,
    }
}

impl View for LogEntry {
    type V = EntryModel;

    open spec fn view(&self) -> EntryModel {
        EntryModel {
            platform: self.platform,
            timestamp: self.timestamp@,
            pid: self.pid,
            tid: self.tid,
            level: self.level,
            tag: self.tag@,
            process: opt_view(self.process),
            subsystem: opt_view(self.subsystem),
            category: opt_view(self.category),
            message: self.message@,
        }
    }
}

pub fn clone_opt_string(o: &Option<String>) -> (r: Option<String>)
    ensures
        opt_view(r) == opt_view(*o),
{
    match o {
        Some(s) => Some(s.clone()),
        None => None,
    }
}

impl LogEntry {
    /// A copy of this entry with the same contents.
    pub fn duplicate(&self) -> (r: LogEntry)
        ensures
            r@ == self@,
    {
        LogEntry {
            platform: self.platform,
            timestamp: self.timestamp.clone(),
            pid: self.pid,
            tid: self.tid,
            level: self.level,
            tag: self.tag.clone(),
            process: clone_opt_string(&self.process),
            subsystem: clone_opt_string(&self.subsystem),
            category: clone_opt_string(&self.category),
            message: self.message.clone(),
        }
    }
}

// ---------------------------------------------------------------------------
// logcat threadtime lines
// ---------------------------------------------------------------------------

/// The tag and message after the level letter: split at the first `": "`.
pub open spec fn tag_and_message(rest: Seq<char>) -> (Seq<char>, Seq<char>) {
    let p = find_index(rest, ": "@);
    if p >= 0 {
        (trim(rest.take(p)), rest.skip(p + 2))
    } else {
        (trim(rest), Seq::<char>::empty())
    }
}

/// What `parse_logcat_line` reads from a `logcat -v threadtime` line:
/// `"MM-DD HH:MM:SS.mmm  PID  TID LEVEL TAG     : message"`. The timestamp is
/// the first 18 bytes, then come the pid, the tid and the level letter, each
/// a word followed by whitespace, then the tag up to the first `": "`.
pub open spec fn spec_logcat(line: Seq<char>) -> Option<EntryModel> {
    if byte_len(line) < 33 {
        None
    } else {
        match char_at_byte(line, 18) {
            None => None,
            Some(k) => {
                let rest = trim_start(line.skip(k));
                match first_word(rest) {
                    None => None,
                    Some((pid_s, r1)) => match parse_unsigned(pid_s, u32::MAX as nat) {
                        None => None,
                        Some(pid) => match first_word(r1) {
                            None => None,
                            Some((tid_s, r2)) => match parse_unsigned(tid_s, u32::MAX as nat) {
                                None => None,
                                Some(tid) => match first_word(r2) {
                                    None => None,
                                    Some((lvl_s, r3)) => match level_of_char(lvl_s[0]) {
                                        None => None,
                                        Some(level) => Some(
                                            EntryModel {
                                                platform: LogPlatform::Android,
                                                timestamp: trim(line.take(k)),
                                                pid: Some(pid as u32),
                                                tid: Some(tid as u64),
                                                level,
                                                tag: tag_and_message(r3).0,
                                                process: None,
                                                subsystem: None,
                                                category: None,
                                                message: tag_and_message(r3).1,
                                            },
                                        ),
                                    },
                                },
                            },
                        },
                    },
                }
            },
        }
    }
}

pub open spec fn opt_entry_view(r: Option<LogEntry>) -> Option<EntryModel> {
    match r {
        Some(e) => Some(e@),
        None => None,
    }
}

fn tag_and_message_exec(cs: &[char], from: usize) -> (r: (String, String))
    requires
        from <= cs.len(),
    ensures
        r.0@ == tag_and_message(cs@.skip(from as int)).0,
        r.1@ == tag_and_message(cs@.skip(from as int)).1,
{
    let rest = slice_of(cs, from, cs.len());
    assert(rest@ =~= cs@.skip(from as int));
    match find_str(&rest, ": ") {
        Some(p) => {
            proof {
                reveal_strlit(": ");
            }
            let (a, b) = trim_range(&rest, 0, p);
            assert(rest@.subrange(0, p as int) =~= rest@.take(p as int));
            let tag = sub_string(&rest, a, b);
            let msg = sub_string(&rest, p + 2, rest.len());
            assert(rest@.subrange(p + 2, rest@.len() as int) =~= rest@.skip(p + 2));
            (tag, msg)
        },
        None => {
            let (a, b) = trim_range(&rest, 0, rest.len());
            assert(rest@.subrange(0, rest@.len() as int) =~= rest@);
            let tag = sub_string(&rest, a, b);
            (tag, String::new())
        },
    }
}

/// Parse a `logcat -v threadtime` line.
pub fn parse_logcat_line(line: &str) -> (r: Option<LogEntry>)
    ensures
        opt_entry_view(r) == spec_logcat(line@),
{
    let cs = chars_of(line);
    if byte_len_exec(&cs) < 33 {
        return None;
    }
    let k = match char_index_at_byte(&cs, 18) {
        Some(k) => k,
        None => return None,
    };
    let (ta, tb) = trim_range(&cs, 0, k);
    assert(cs@.subrange(0, k as int) =~= cs@.take(k as int));
    proof {
        lemma_trim_start_idempotent(cs@.skip(k as int));
    }
    let (pa, pb) = match split_first_word(&cs, k) {
        Some(w) => w,
        None => return None,
    };
    let pid = match parse_unsigned_range(&cs, pa, pb, 0xffff_ffff) {
        Some(v) => v as u32,
        None => return None,
    };
    let (ia, ib) = match split_first_word(&cs, pb) {
        Some(w) => w,
        None => return None,
    };
    let tid = match parse_unsigned_range(&cs, ia, ib, 0xffff_ffff) {
        Some(v) => v,
        None => return None,
    };
    let (la, lb) = match split_first_word(&cs, ib) {
        Some(w) => w,
        None => return None,
    };
    assert(cs@.subrange(la as int, lb as int)[0] == cs@[la as int]);
    let level = match LogLevel::from_char(cs[la]) {
        Some(l) => l,
        None => return None,
    };
    let (tag, message) = tag_and_message_exec(&cs, lb);
    Some(
        LogEntry {
            platform: LogPlatform::Android,
            timestamp: sub_string(&cs, ta, tb),
            pid: Some(pid),
            tid: Some(tid),
            level,
            tag,
            process: None,
            subsystem: None,
            category: None,
            message,
        },
    )
}


// ---------------------------------------------------------------------------
// iOS unified-logging records
// ---------------------------------------------------------------------------

/// `None` for a blank string, else the trimmed string.
pub open spec fn normalize_optional(s: Seq<char>) -> Option<Seq<char>> {
    if trim(s).len() == 0 {
        None
    } else {
        Some(trim(s))
    }
}

pub fn normalize_optional_string(value: &str) -> (r: Option<String>)
    ensures
        opt_view(r) == normalize_optional(value@),
{
    let t = trim_str(value);
    if t.as_str().is_empty() {
        None
    } else {
        Some(t)
    }
}

/// The part of `s` after its last `/` (all of `s` when it has none).
pub open spec fn last_segment(s: Seq<char>) -> Seq<char>
    decreases s.len(),
{
    if s.len() == 0 {
        s
    } else if s.last() == '/' {
        Seq::<char>::empty()
    } else {
        last_segment(s.drop_last()).push(s.last())
    }
}

fn last_segment_exec(s: &[char]) -> (r: Vec<char>)
    ensures
        r@ == last_segment(s@),
{
    let mut i = s.len();
    assert(s@.take(s.len() as int) =~= s@);
    assert(s@.subrange(s.len() as int, s.len() as int) =~= Seq::<char>::empty());
    while i > 0 && s[i - 1] != '/'
        invariant
            i <= s.len(),
            last_segment(s@) == last_segment(s@.take(i as int)) + s@.subrange(i as int, s.len() as int),
        decreases i,
    {
        let ghost t = s@.take(i as int);
        assert(t.drop_last() =~= s@.take(i - 1));
        assert(t.last() == s@[i - 1]);
        assert(last_segment(t) == last_segment(s@.take(i - 1)).push(s@[i - 1]));
        assert(last_segment(s@.take(i - 1)).push(s@[i - 1]) + s@.subrange(i as int, s.len() as int)
            =~= last_segment(s@.take(i - 1)) + s@.subrange(i - 1, s.len() as int));
        i -= 1;
    }
    if i > 0 {
        assert(s@.take(i as int).last() == s@[i - 1]);
    }
    assert(last_segment(s@.take(i as int)) =~= Seq::<char>::empty());
    assert(Seq::<char>::empty() + s@.subrange(i as int, s.len() as int) =~= s@.subrange(i as int, s.len() as int));
    slice_of(s, i, s.len())
}

/// The executable's name from a process image path.
pub open spec fn process_name(path: Seq<char>) -> Option<Seq<char>> {
    match normalize_optional(path) {
        Some(p) => normalize_optional(last_segment(p)),
        None => None,
    }
}

pub fn process_name_from_path(path: &str) -> (r: Option<String>)
    ensures
        opt_view(r) == process_name(path@),
{
    match normalize_optional_string(path) {
        Some(p) => {
            let cs = chars_of(p.as_str());
            let seg = last_segment_exec(&cs);
            let seg_s = string_from(&seg);
            normalize_optional_string(seg_s.as_str())
        },
        None => None,
    }
}

/// The timestamp text `MM-DD HH:MM:SS.mmm` cut out of an ISO-style
/// `YYYY-MM-DD HH:MM:SS.ffffff+zzzz` timestamp (byte ranges 5..7, 8..10, 11..23).
pub open spec fn ios_timestamp(raw: Seq<char>) -> Option<Seq<char>> {
    if byte_len(raw) < 23 {
        None
    } else {
        match (byte_slice(raw, 5, 7), byte_slice(raw, 8, 10), byte_slice(raw, 11, 23)) {
            (Some(m), Some(d), Some(t)) => Some(m + "-"@ + d + " "@ + t),
            _ => None,
        }
    }
}

fn byte_slice_exec(cs: &[char], a: usize, b: usize) -> (r: Option<Vec<char>>)
    ensures
        match r {
            Some(v) => byte_slice(cs@, a as int, b as int) == Some(v@),
            None => byte_slice(cs@, a as int, b as int) is None,
        },
{
    let i = match char_index_at_byte(cs, a) {
        Some(i) => i,
        None => return None,
    };
    let j = match char_index_at_byte(cs, b) {
        Some(j) => j,
        None => return None,
    };
    if i <= j {
        Some(slice_of(cs, i, j))
    } else {
        None
    }
}

pub fn normalize_ios_timestamp(raw: &str) -> (r: Option<String>)
    ensures
        opt_view(r) == ios_timestamp(raw@),
{
    let cs = chars_of(raw);
    if byte_len_exec(&cs) < 23 {
        return None;
    }
    let m = byte_slice_exec(&cs, 5, 7);
    let d = byte_slice_exec(&cs, 8, 10);
    let t = byte_slice_exec(&cs, 11, 23);
    match (m, d, t) {
        (Some(m), Some(d), Some(t)) => {
            let mut s = string_from(&m);
            s.append("-");
            push_chars(&mut s, &d);
            s.append(" ");
            push_chars(&mut s, &t);
            Some(s)
        },
        _ => None,
    }
}

/// Level of a unified-logging `messageType`.
pub open spec fn ios_message_level(t: Seq<char>) -> LogLevel {
    let n = lower(trim(t));
    if n == "debug"@ {
        LogLevel::Debug
    } else if n == "info"@ {
        LogLevel::Info
    } else if n == "error"@ {
        LogLevel::Error
    } else if n == "fault"@ {
        LogLevel::Fatal
    } else if n == "default"@ || n == "notice"@ {
        LogLevel::Info
    } else if n == "warning"@ {
        LogLevel::Warn
    } else {
        LogLevel::Verbose
    }
}

fn lower_trimmed(s: &str) -> (r: Vec<char>)
    ensures
        r@ == lower(trim(s@)),
{
    let cs = chars_of(s);
    let t = trim_chars(&cs);
    lower_chars(&t)
}

pub fn ios_message_type_to_level(message_type: &str) -> (l: LogLevel)
    ensures
        l == ios_message_level(message_type@),
{
    let n = lower_trimmed(message_type);
    if chars_eq_str(&n, "debug") {
        LogLevel::Debug
    } else if chars_eq_str(&n, "info") {
        LogLevel::Info
    } else if chars_eq_str(&n, "error") {
        LogLevel::Error
    } else if chars_eq_str(&n, "fault") {
        LogLevel::Fatal
    } else if chars_eq_str(&n, "default") || chars_eq_str(&n, "notice") {
        LogLevel::Info
    } else if chars_eq_str(&n, "warning") {
        LogLevel::Warn
    } else {
        LogLevel::Verbose
    }
}

/// Level of a syslog `<Level>` field.
pub open spec fn ios_syslog_level(t: Seq<char>) -> LogLevel {
    let n = lower(trim(t));
    if n == "debug"@ {
        LogLevel::Debug
    } else if n == "info"@ || n == "notice"@ {
        LogLevel::Info
    } else if n == "warning"@ || n == "warn"@ {
        LogLevel::Warn
    } else if n == "error"@ {
        LogLevel::Error
    } else if n == "fault"@ || n == "critical"@ {
        LogLevel::Fatal
    } else {
        LogLevel::Verbose
    }
}

pub fn ios_syslog_level_to_level(message_type: &str) -> (l: LogLevel)
    ensures
        l == ios_syslog_level(message_type@),
{
    let n = lower_trimmed(message_type);
    if chars_eq_str(&n, "debug") {
        LogLevel::Debug
    } else if chars_eq_str(&n, "info") || chars_eq_str(&n, "notice") {
        LogLevel::Info
    } else if chars_eq_str(&n, "warning") || chars_eq_str(&n, "warn") {
        LogLevel::Warn
    } else if chars_eq_str(&n, "error") {
        LogLevel::Error
    } else if chars_eq_str(&n, "fault") || chars_eq_str(&n, "critical") {
        LogLevel::Fatal
    } else {
        LogLevel::Verbose
    }
}

/// One record of `log stream --style ndjson`, with the fields CatPane reads
/// (absent fields read as empty strings and zero).
#[derive(Debug, Clone, Default)]
pub struct IosLogRecord {
    pub timestamp: String,
    pub message_type: String,
    pub event_message: String,
    pub subsystem: String,
    pub category: String,
    pub process_image_path: String,
    pub process_id: u32,
    pub thread_id: u64,
}

/// The tag of an iOS entry: its subsystem, else its process, else its
/// category, else `"iOS"`.
pub open spec fn ios_tag(
    process: Option<Seq<char>>,
    subsystem: Option<Seq<char>>,
    category: Option<Seq<char>>,
) -> Seq<char> {
    match subsystem {
        Some(s) => s,
        None => match process {
            Some(p) => p,
            None => match category {
                Some(c) => c,
                None => "iOS"@,
            },
        },
    }
}

/// The entry a unified-logging record describes; `None` when its timestamp
/// is too short or cut through a character.
pub open spec fn spec_ios_record(r: IosLogRecord) -> Option<EntryModel> {
    match ios_timestamp(r.timestamp@) {
        None => None,
        Some(ts) => {
            let process = process_name(r.process_image_path@);
            let subsystem = normalize_optional(r.subsystem@);
            let category = normalize_optional(r.category@);
            Some(
                EntryModel {
                    platform: LogPlatform::Ios,
                    timestamp: ts,
                    pid: Some(r.process_id),
                    tid: Some(r.thread_id),
                    level: ios_message_level(r.message_type@),
                    tag: ios_tag(process, subsystem, category),
                    process,
                    subsystem,
                    category,
                    message: r.event_message@,
                },
            )
        },
    }
}

/// Turns a decoded ndjson record into a log entry.
pub fn ios_log_record_to_entry(record: IosLogRecord) -> (r: Option<LogEntry>)
    ensures
        opt_entry_view(r) == spec_ios_record(record),
{
    let timestamp = match normalize_ios_timestamp(record.timestamp.as_str()) {
        Some(t) => t,
        None => return None,
    };
    let process = process_name_from_path(record.process_image_path.as_str());
    let subsystem = normalize_optional_string(record.subsystem.as_str());
    let category = normalize_optional_string(record.category.as_str());
    let tag = match &subsystem {
        Some(s) => s.clone(),
        None => match &process {
            Some(p) => p.clone(),
            None => match &category {
                Some(c) => c.clone(),
                None => "iOS".to_string(),
            },
        },
    };
    Some(
        LogEntry {
            platform: LogPlatform::Ios,
            timestamp,
            pid: Some(record.process_id),
            tid: Some(record.thread_id),
            level: ios_message_type_to_level(record.message_type.as_str()),
            tag,
            process,
            subsystem,
            category,
            message: record.event_message,
        },
    )
}

// ---------------------------------------------------------------------------
// iOS syslog lines
// ---------------------------------------------------------------------------

/// An iOS syslog line: `Mon D HH:MM:SS[.ffffff] [host] process[pid] <Level>: message`.
pub const IOS_SYSLOG_PATTERN: &'static str = "^(?P<month>[A-Z][a-z]{2})\\s+(?P<day>\\d{1,2})\\s+(?P<time>\\d{2}:\\d{2}:\\d{2})(?:\\.(?P<fraction>\\d{1,6}))?\\s+(?:\\S+\\s+)?(?P<process>.+?)\\[(?P<pid>\\d+)\\]\\s+<(?P<level>[^>]+)>:\\s*(?P<message>.*)$";

/// The two-digit number of a month's three-letter name.
pub open spec fn month_number(m: Seq<char>) -> Option<Seq<char>> {
    if m == "Jan"@ {
        Some("01"@)
    } else if m == "Feb"@ {
        Some("02"@)
    } else if m == "Mar"@ {
        Some("03"@)
    } else if m == "Apr"@ {
        Some("04"@)
    } else if m == "May"@ {
        Some("05"@)
    } else if m == "Jun"@ {
        Some("06"@)
    } else if m == "Jul"@ {
        Some("07"@)
    } else if m == "Aug"@ {
        Some("08"@)
    } else if m == "Sep"@ {
        Some("09"@)
    } else if m == "Oct"@ {
        Some("10"@)
    } else if m == "Nov"@ {
        Some("11"@)
    } else if m == "Dec"@ {
        Some("12"@)
    } else {
        None
    }
}

/// A number written with at least two digits.
pub open spec fn two_digits(d: nat) -> Seq<char> {
    if d < 10 {
        seq!['0'] + decimal(d)
    } else {
        decimal(d)
    }
}

/// The milliseconds of a fraction of a second: its first three bytes, or
/// the fraction padded with zeros to three characters, or `000` without one.
pub open spec fn fraction_millis(f: Option<Seq<char>>) -> Seq<char> {
    match f {
        Some(v) => if byte_len(v) >= 3 {
            byte_slice(v, 0, 3)->0
        } else if v.len() < 3 {
            v + Seq::new((3 - v.len()) as nat, |i: int| '0')
        } else {
            v
        },
        None => "000"@,
    }
}

/// Cutting three bytes off the fraction lands on a character boundary
/// (otherwise the slicing panics).
pub open spec fn fraction_cut_ok(f: Option<Seq<char>>) -> bool {
    f is Some && byte_len(f->0) >= 3 ==> byte_slice(f->0, 0, 3) is Some
}

/// The `MM-DD HH:MM:SS.mmm` timestamp of a syslog date.
pub open spec fn syslog_timestamp(month: Seq<char>, day: Seq<char>, time: Seq<char>, fraction: Option<Seq<char>>) -> Option<
    Seq<char>,
> {
    match month_number(month) {
        None => None,
        Some(mm) => match parse_unsigned(day, u8::MAX as nat) {
            None => None,
            Some(d) => Some(mm + "-"@ + two_digits(d) + " "@ + time + "."@ + fraction_millis(fraction)),
        },
    }
}

pub open spec fn opt_str(o: Option<&str>) -> Option<Seq<char>> {
    match o {
        Some(s) => Some(s@),
        None => None,
    }
}

/// The `MM-DD HH:MM:SS.mmm` timestamp of a syslog date (`None` for an
/// unknown month or an unreadable day).
#[verifier::rlimit(40)]
#[verifier::spinoff_prover]
pub fn normalize_ios_syslog_timestamp(month: &str, day: &str, time: &str, fraction: Option<&str>) -> (r: Option<String>)
    requires
        fraction_cut_ok(opt_str(fraction)),
    ensures
        opt_view(r) == syslog_timestamp(month@, day@, time@, opt_str(fraction)),
{
    let m = chars_of(month);
    let mm = if chars_eq_str(&m, "Jan") {
        "01"
    } else if chars_eq_str(&m, "Feb") {
        "02"
    } else if chars_eq_str(&m, "Mar") {
        "03"
    } else if chars_eq_str(&m, "Apr") {
        "04"
    } else if chars_eq_str(&m, "May") {
        "05"
    } else if chars_eq_str(&m, "Jun") {
        "06"
    } else if chars_eq_str(&m, "Jul") {
        "07"
    } else if chars_eq_str(&m, "Aug") {
        "08"
    } else if chars_eq_str(&m, "Sep") {
        "09"
    } else if chars_eq_str(&m, "Oct") {
        "10"
    } else if chars_eq_str(&m, "Nov") {
        "11"
    } else if chars_eq_str(&m, "Dec") {
        "12"
    } else {
        return None;
    };
    let dc = chars_of(day);
    let d = match parse_unsigned_range(&dc, 0, dc.len(), 255) {
        Some(d) => d,
        None => {
            assert(dc@.subrange(0, dc@.len() as int) =~= dc@);
            return None;
        },
    };
    assert(dc@.subrange(0, dc@.len() as int) =~= dc@);
    let mut s = mm.to_string();
    s.append("-");
    if d < 10 {
        push_char(&mut s, '0');
    }
    crate::text::push_decimal(&mut s, d);
    s.append(" ");
    s.append(time);
    s.append(".");
    match fraction {
        Some(v) => {
            let vc = chars_of(v);
            if byte_len_exec(&vc) >= 3 {
                let i = char_index_at_byte(&vc, 3).unwrap();
                proof {
                    assert(char_at_byte(vc@, 0) == Some(0int));
                }
                let head = slice_of(&vc, 0, i);
                push_chars(&mut s, &head);
            } else {
                push_chars(&mut s, &vc);
                let mut k = vc.len();
                proof {
                    lemma_len_below_byte_len(vc@);
                }
                while k < 3
                    invariant
                        vc.len() <= k <= 3,
                        vc@.len() < 3,
                        s@ == mm@ + "-"@ + two_digits(d as nat) + " "@ + time@ + "."@ + vc@ + Seq::new(
                            (k - vc.len()) as nat,
                            |i: int| '0',
                        ),
                    decreases 3 - k,
                {
                    push_char(&mut s, '0');
                    assert(Seq::new((k + 1 - vc.len()) as nat, |i: int| '0') =~= Seq::new(
                        (k - vc.len()) as nat,
                        |i: int| '0',
                    ).push('0'));
                    k += 1;
                }
            }
        },
        None => s.append("000"),
    }
    Some(s)
}

/// A string has at least as many bytes as characters.
pub proof fn lemma_len_below_byte_len(s: Seq<char>)
    ensures
        s.len() <= byte_len(s),
    decreases s.len(),
{
    if s.len() > 0 {
        lemma_len_below_byte_len(s.drop_first());
    }
}

/// The names of the groups a syslog line is read from.
pub open spec fn syslog_group_names() -> Seq<Seq<char>> {
    seq!["month"@, "day"@, "time"@, "fraction"@, "process"@, "pid"@, "level"@, "message"@]
}

/// The groups of a syslog line.
pub open spec fn syslog_groups(line: Seq<char>) -> Option<Seq<Option<Seq<char>>>> {
    regex_named_captures(IOS_SYSLOG_PATTERN@, line, syslog_group_names())
}

/// The line's fraction of a second can be cut at three bytes.
pub open spec fn syslog_cut_ok(line: Seq<char>) -> bool {
    match syslog_groups(line) {
        Some(g) => g.len() == 8 ==> fraction_cut_ok(g[3]),
        None => true,
    }
}

/// The entry a syslog line describes.
pub open spec fn spec_syslog(line: Seq<char>) -> Option<EntryModel> {
    match syslog_groups(line) {
        None => None,
        Some(g) => if g.len() != 8 || g[0] is None || g[1] is None || g[2] is None || g[4] is None
            || g[5] is None || g[6] is None || g[7] is None {
            None
        } else {
            match syslog_timestamp(g[0]->0, g[1]->0, g[2]->0, g[3]) {
                None => None,
                Some(ts) => {
                    let process = normalize_optional(g[4]->0);
                    Some(
                        EntryModel {
                            platform: LogPlatform::Ios,
                            timestamp: ts,
                            pid: match parse_unsigned(g[5]->0, u32::MAX as nat) {
                                Some(p) => Some(p as u32),
                                None => None,
                            },
                            tid: None,
                            level: ios_syslog_level(g[6]->0),
                            tag: match process {
                                Some(p) => p,
                                None => "iOS"@,
                            },
                            process,
                            subsystem: None,
                            category: None,
                            message: g[7]->0,
                        },
                    )
                },
            }
        },
    }
}

/// The regex syslog lines are read with.
pub fn ios_syslog_regex() -> (r: Option<CompiledRegex>)
    ensures
        r is Some <==> regex_compiles(IOS_SYSLOG_PATTERN@),
        r matches Some(c) ==> c.pattern() == IOS_SYSLOG_PATTERN@,
{
    match compile_regex(IOS_SYSLOG_PATTERN) {
        Ok(c) => Some(c),
        Err(_) => None,
    }
}

/// Parse an iOS syslog line with the compiled syslog regex. A line whose
/// fraction of a second cannot be cut at three bytes gives `None`.
pub fn parse_ios_syslog_line_with(re: &CompiledRegex, line: &str) -> (r: Option<LogEntry>)
    requires
        re.pattern() == IOS_SYSLOG_PATTERN@,
    ensures
        syslog_cut_ok(line@) ==> opt_entry_view(r) == spec_syslog(line@),
        !syslog_cut_ok(line@) ==> r is None,
{
    let names: [&str; 8] = ["month", "day", "time", "fraction", "process", "pid", "level", "message"];
    proof {
        assert(str_views(names@) =~= syslog_group_names());
    }
    let groups = match regex_captures(re, line, names.as_slice()) {
        Some(g) => g,
        None => return None,
    };
    let ghost gv = group_views(groups@);
    let (month, day, time) = match (&groups[0], &groups[1], &groups[2]) {
        (Some(m), Some(d), Some(t)) => (m, d, t),
        _ => {
            proof {
                assert(gv[0] == opt_view(groups@[0]));
                assert(gv[1] == opt_view(groups@[1]));
                assert(gv[2] == opt_view(groups@[2]));
            }
            return None;
        },
    };
    let fraction: Option<&str> = match &groups[3] {
        Some(f) => Some(f.as_str()),
        None => None,
    };
    proof {
        assert(gv[0] == opt_view(groups@[0]));
        assert(gv[1] == opt_view(groups@[1]));
        assert(gv[2] == opt_view(groups@[2]));
        assert(gv[3] == opt_view(groups@[3]));
        assert(opt_str(fraction) == gv[3]);
    }
    let cut_ok = match fraction {
        Some(f) => fraction_cut_ok_exec(f),
        None => true,
    };
    if !cut_ok {
        return None;
    }
    let timestamp = match normalize_ios_syslog_timestamp(month.as_str(), day.as_str(), time.as_str(), fraction) {
        Some(t) => t,
        None => return None,
    };
    let (process_raw, pid_text, level_text, message) = match (&groups[4], &groups[5], &groups[6], &groups[7]) {
        (Some(p), Some(i), Some(l), Some(m)) => (p, i, l, m),
        _ => {
            proof {
                assert(gv[4] == opt_view(groups@[4]));
                assert(gv[5] == opt_view(groups@[5]));
                assert(gv[6] == opt_view(groups@[6]));
                assert(gv[7] == opt_view(groups@[7]));
            }
            return None;
        },
    };
    proof {
        assert(gv[4] == opt_view(groups@[4]));
        assert(gv[5] == opt_view(groups@[5]));
        assert(gv[6] == opt_view(groups@[6]));
        assert(gv[7] == opt_view(groups@[7]));
    }
    let process = normalize_optional_string(process_raw.as_str());
    let pc = chars_of(pid_text.as_str());
    let pid = match parse_unsigned_range(&pc, 0, pc.len(), u32::MAX as u64) {
        Some(p) => Some(p as u32),
        None => None,
    };
    assert(pc@.subrange(0, pc@.len() as int) =~= pc@);
    let tag = match &process {
        Some(p) => p.clone(),
        None => "iOS".to_string(),
    };
    Some(
        LogEntry {
            platform: LogPlatform::Ios,
            timestamp,
            pid,
            tid: None,
            level: ios_syslog_level_to_level(level_text.as_str()),
            tag,
            process,
            subsystem: None,
            category: None,
            message: message.clone(),
        },
    )
}

/// Whether three bytes can be cut off the fraction.
fn fraction_cut_ok_exec(f: &str) -> (b: bool)
    ensures
        b == fraction_cut_ok(Some(f@)),
{
    let fc = chars_of(f);
    if byte_len_exec(&fc) < 3 {
        return true;
    }
    proof {
        assert(char_at_byte(fc@, 0) == Some(0int));
    }
    char_index_at_byte(&fc, 3).is_some()
}

/// Parse an iOS syslog line (`None` when it is not one, or when its
/// fraction of a second cannot be cut at three bytes).
pub fn parse_ios_syslog_line(line: &str) -> (r: Option<LogEntry>)
    ensures
        regex_compiles(IOS_SYSLOG_PATTERN@) && syslog_cut_ok(line@) ==> opt_entry_view(r) == spec_syslog(
            line@,
        ),
        !regex_compiles(IOS_SYSLOG_PATTERN@) || !syslog_cut_ok(line@) ==> r is None,
{
    match ios_syslog_regex() {
        Some(re) => parse_ios_syslog_line_with(&re, line),
        None => None,
    }
}

} // verus!

verus! {

/// A unified-log record's level follows its message type, whatever its
/// case and surrounding blanks: `debug` is Debug; `info`, `default` and
/// `notice` are Info; `warning` is Warn; `error` is Error; `fault` is Fatal;
/// any other type is Verbose.
pub proof fn law_ios_record_level(r: IosLogRecord)
    ensures
        spec_ios_record(r) matches Some(e) ==> {
            let n = lower(trim(r.message_type@));
            &&& (n == "debug"@ ==> e.level == LogLevel::Debug)
            &&& (n == "info"@ ==> e.level == LogLevel::Info)
            &&& (n == "default"@ ==> e.level == LogLevel::Info)
            &&& (n == "notice"@ ==> e.level == LogLevel::Info)
            &&& (n == "warning"@ ==> e.level == LogLevel::Warn)
            &&& (n == "error"@ ==> e.level == LogLevel::Error)
            &&& (n == "fault"@ ==> e.level == LogLevel::Fatal)
            &&& (n != "debug"@ && n != "info"@ && n != "default"@ && n != "notice"@ && n
                != "warning"@ && n != "error"@ && n != "fault"@ ==> e.level == LogLevel::Verbose)
        },
{
    reveal_strlit("debug");
    reveal_strlit("info");
    reveal_strlit("default");
    reveal_strlit("notice");
    reveal_strlit("warning");
    reveal_strlit("error");
    reveal_strlit("fault");
    assert("debug"@.len() == 5 && "debug"@[0] == 'd');
    assert("info"@.len() == 4 && "info"@[0] == 'i');
    assert("default"@.len() == 7 && "default"@[0] == 'd');
    assert("notice"@.len() == 6 && "notice"@[0] == 'n');
    assert("warning"@.len() == 7 && "warning"@[0] == 'w');
    assert("error"@.len() == 5 && "error"@[0] == 'e');
    assert("fault"@.len() == 5 && "fault"@[0] == 'f');
}

/// A syslog `<Level>` field maps the same way, whatever its case and
/// surrounding blanks: `debug` is Debug; `info` and `notice` are Info;
/// `warning` and `warn` are Warn; `error` is Error; `fault` and `critical`
/// are Fatal; anything else is Verbose.
pub proof fn law_ios_syslog_levels(t: Seq<char>)
    ensures
        ({
            let n = lower(trim(t));
            let l = ios_syslog_level(t);
            &&& (n == "debug"@ ==> l == LogLevel::Debug)
            &&& (n == "info"@ ==> l == LogLevel::Info)
            &&& (n == "notice"@ ==> l == LogLevel::Info)
            &&& (n == "warning"@ ==> l == LogLevel::Warn)
            &&& (n == "warn"@ ==> l == LogLevel::Warn)
            &&& (n == "error"@ ==> l == LogLevel::Error)
            &&& (n == "fault"@ ==> l == LogLevel::Fatal)
            &&& (n == "critical"@ ==> l == LogLevel::Fatal)
            &&& (n != "debug"@ && n != "info"@ && n != "notice"@ && n != "warning"@ && n != "warn"@
                && n != "error"@ && n != "fault"@ && n != "critical"@ ==> l == LogLevel::Verbose)
        }),
{
    reveal_strlit("debug");
    reveal_strlit("info");
    reveal_strlit("notice");
    reveal_strlit("warning");
    reveal_strlit("warn");
    reveal_strlit("error");
    reveal_strlit("fault");
    reveal_strlit("critical");
    assert("debug"@.len() == 5 && "debug"@[0] == 'd');
    assert("info"@.len() == 4 && "info"@[0] == 'i');
    assert("notice"@.len() == 6 && "notice"@[0] == 'n');
    assert("warning"@.len() == 7 && "warning"@[0] == 'w');
    assert("warn"@.len() == 4 && "warn"@[0] == 'w');
    assert("error"@.len() == 5 && "error"@[0] == 'e');
    assert("fault"@.len() == 5 && "fault"@[0] == 'f');
    assert("critical"@.len() == 8 && "critical"@[0] == 'c');
}

/// After the level letter of a threadtime line, `" TAG: MESSAGE"` reads back
/// as that tag and message, for any tag without blanks at its ends and
/// without `": "` inside, and any message.
pub proof fn law_tag_and_message_split(t: Seq<char>, m: Seq<char>)
    requires
        !contains(t, ": "@),
        t.len() > 0 ==> !is_ws(t[0]) && !is_ws(t.last()),
    ensures
        tag_and_message(" "@ + t + ": "@ + m) == (t, m),
{
    reveal_strlit(" ");
    reveal_strlit(": ");
    let sep = ": "@;
    let rest = " "@ + t + sep + m;
    let k: int = t.len() + 1int;
    assert(rest.subrange(k, k + 2) =~= sep);
    assert forall|j: int| 0 <= j < k implies !#[trigger] matches_at(rest, sep, j) by {
        if matches_at(rest, sep, j) {
            assert(rest.subrange(j, j + 2)[0] == ':');
            assert(rest.subrange(j, j + 2)[1] == ' ');
            if j == 0 {
                assert(rest[0] == ' ');
            } else if j == k - 1 {
                assert(rest[k as int] == ':');
            } else {
                assert(t.subrange(j - 1, j + 1) =~= rest.subrange(j, j + 2));
                assert(matches_at(t, sep, j - 1));
            }
        }
    }
    lemma_find_index_first(rest, sep, k);
    let head = rest.take(k);
    assert(head =~= " "@ + t);
    assert(head.drop_first() =~= t);
    assert(trim_start(head) == trim_start(t));
    assert(trim_start(t) == t);
    assert(trim_end(t) == t);
    assert(rest.skip(k + 2) =~= m);
}

} // verus!
