//! Watches: named patterns that pin the log entries they match in a bounded
//! side buffer, so that important lines outlive the main buffer.
use vstd::prelude::*;
use std::collections::VecDeque;
use crate::log_entry::{EntryModel, LogEntry, LogLevel, level_label, level_rank, opt_view, clone_opt_string};
use crate::pattern::{CompiledRegex, compile_regex, regex_compiles, regex_error_text, regex_is_match, regex_matches};
use crate::text::{contains, contains_ignoring_case, is_ascii_text, lower, decimal, push_chars, push_decimal, unicode_lower, chars_of, str_eq};
use crate::sorting::{lex_lt, strictly_sorted, lemma_lex_irreflexive, lemma_lex_total, lemma_lex_trans, lemma_lex_asym, str_less};

verus! {

/// Retained matches a watch keeps when no capacity is given.
pub const DEFAULT_MATCH_RETENTION_CAPACITY: usize = 2048;

/// The identifier of the `n`-th watch: `w<n>`.
pub fn watch_id(n: u64) -> (r: String)
    ensures
        r@ == seq!['w'] + decimal(n as nat),
{
    let mut r = String::new();
    let w = chars_of("w");
    proof {
        reveal_strlit("w");
    }
    push_chars(&mut r, &w);
    push_decimal(&mut r, n);
    r
}

// ---------------------------------------------------------------------------
// Buffered entries
// ---------------------------------------------------------------------------

/// A log entry as the capture buffer holds it: numbered, with its timestamp
/// in normalized form when it has one.
#[derive(Debug, Clone)]
pub struct BufferedLogEntry {
    pub seq: u64,
    pub normalized_timestamp: Option<String>,
    pub entry: LogEntry,
}

pub struct BufferedModel {
    pub seq: u64,
    pub normalized_timestamp: Option<Seq<char>>,
    pub entry: EntryModel,
}

impl View for BufferedLogEntry {
    type V = BufferedModel;

    open spec fn view(&self) -> BufferedModel {
        BufferedModel {
            seq: self.seq,
            normalized_timestamp: opt_view(self.normalized_timestamp),
            entry: self.entry@,
        }
    }
}

impl BufferedLogEntry {
    /// A copy with the same contents.
    pub fn duplicate(&self) -> (r: BufferedLogEntry)
        ensures
            r@ == self@,
    {
        BufferedLogEntry {
            seq: self.seq,
            normalized_timestamp: clone_opt_string(&self.normalized_timestamp),
            entry: self.entry.duplicate(),
        }
    }
}

pub open spec fn buffered_views(s: Seq<BufferedLogEntry>) -> Seq<BufferedModel> {
    s.map_values(|b: BufferedLogEntry| b@)
}

// ---------------------------------------------------------------------------
// Watches
// ---------------------------------------------------------------------------

#[derive(Debug, Clone, Copy, PartialEq, Eq, Structural)]
pub enum PatternType {
    Text,
    Regex,
}

/// The contents of a watch.
pub struct WatchModel {
    pub id: Seq<char>,
    pub name: Seq<char>,
    pub pattern_type: PatternType,
    pub pattern: Seq<char>,
    pub tag_filter: Option<Seq<char>>,
    pub min_level: Option<LogLevel>,
    pub match_count: u64,
    pub last_match_seq: Option<u64>,
    pub created_at_ms: u64,
    pub retained: Seq<BufferedModel>,
    pub capacity: nat,
    pub dropped: u64,
}

/// A watch over a log stream.
#[derive(Debug)]
pub struct Watch {
    pub id: String,
    pub name: String,
    pattern_type: PatternType,
    text_pattern: Option<String>,
    regex_pattern: Option<CompiledRegex>,
    tag_filter: Option<String>,
    min_level: Option<LogLevel>,
    pub match_count: u64,
    pub last_match_seq: Option<u64>,
    pub created_at_ms: u64,
    retained_matches: VecDeque<BufferedLogEntry>,
    retained_match_capacity: usize,
    retained_dropped: u64,
}

impl View for Watch {
    type V = WatchModel;

    closed spec fn view(&self) -> WatchModel {
        WatchModel {
            id: self.id@,
            name: self.name@,
            pattern_type: self.pattern_type,
            pattern: match self.text_pattern {
                Some(p) => p@,
                None => Seq::empty(),
            },
            tag_filter: opt_view(self.tag_filter),
            min_level: self.min_level,
            match_count: self.match_count,
            last_match_seq: self.last_match_seq,
            created_at_ms: self.created_at_ms,
            retained: buffered_views(self.retained_matches@),
            capacity: self.retained_match_capacity as nat,
            dropped: self.retained_dropped,
        }
    }
}

/// No two retained entries carry the same sequence number.
pub open spec fn distinct_seqs(s: Seq<BufferedModel>) -> bool {
    forall|i: int, j: int| 0 <= i < j < s.len() ==> #[trigger] s[i].seq != #[trigger] s[j].seq
}

/// The invariant of a watch's contents: a positive capacity that the
/// retained entries stay within, each of them held once.
pub open spec fn model_wf(w: WatchModel) -> bool {
    &&& w.capacity >= 1
    &&& w.retained.len() <= w.capacity
    &&& distinct_seqs(w.retained)
}

pub open spec fn seq_retained(s: Seq<BufferedModel>, seq: u64) -> bool {
    exists|i: int| 0 <= i < s.len() && #[trigger] s[i].seq == seq
}

/// Whether a watch with these settings matches an entry: the level is at
/// least the minimum, the tag contains the tag filter (ignoring case), and
/// the pattern is found: as text in the message or the tag (ignoring case),
/// or as a regex in the message.
pub open spec fn watch_accepts(w: WatchModel, e: EntryModel) -> bool {
    &&& (w.min_level matches Some(m) ==> level_rank(e.level) >= level_rank(m))
    &&& (w.tag_filter matches Some(t) ==> contains(unicode_lower(e.tag), unicode_lower(t)))
    &&& match w.pattern_type {
        PatternType::Text => contains(unicode_lower(e.message), unicode_lower(w.pattern)) || contains(
            unicode_lower(e.tag),
            unicode_lower(w.pattern),
        ),
        PatternType::Regex => regex_is_match(w.pattern, e.message),
    }
}

pub open spec fn sat_inc(n: u64) -> u64 {
    if n == u64::MAX {
        n
    } else {
        (n + 1) as u64
    }
}

/// Recording a match that is not retained yet: the oldest entry makes room
/// when the buffer is full (and is counted as dropped), the match goes last.
pub open spec fn record_step(w: WatchModel, b: BufferedModel) -> WatchModel {
    let full = w.retained.len() == w.capacity;
    WatchModel {
        id: w.id,
        name: w.name,
        pattern_type: w.pattern_type,
        pattern: w.pattern,
        tag_filter: w.tag_filter,
        min_level: w.min_level,
        match_count: sat_inc(w.match_count),
        last_match_seq: Some(b.seq),
        created_at_ms: w.created_at_ms,
        retained: (if full {
            w.retained.drop_first()
        } else {
            w.retained
        }).push(b),
        capacity: w.capacity,
        dropped: if full {
            sat_inc(w.dropped)
        } else {
            w.dropped
        },
    }
}

/// What offering an entry to a watch does: the new contents, and whether the
/// entry was recorded.
pub open spec fn retain_step(w: WatchModel, b: BufferedModel) -> (WatchModel, bool) {
    if !watch_accepts(w, b.entry) || seq_retained(w.retained, b.seq) {
        (w, false)
    } else {
        (record_step(w, b), true)
    }
}

/// The retained entries numbered after `since` (all of them without one).
pub open spec fn after_seq(s: Seq<BufferedModel>, since: Option<u64>) -> Seq<BufferedModel>
    decreases s.len(),
{
    if s.len() == 0 {
        s
    } else {
        let r = after_seq(s.drop_last(), since);
        if since matches Some(n) && s.last().seq <= n {
            r
        } else {
            r.push(s.last())
        }
    }
}

pub open spec fn take_at_most<A>(s: Seq<A>, n: nat) -> Seq<A> {
    if n < s.len() {
        s.take(n as int)
    } else {
        s
    }
}

/// The summary of a watch: its settings and retention counters.
#[derive(Debug, Clone)]
pub struct WatchSummary {
    pub id: String,
    pub name: String,
    pub pattern: String,
    pub pattern_type: PatternType,
    pub tag_filter: Option<String>,
    pub min_level: Option<String>,
    pub match_count: u64,
    pub last_match_seq: Option<u64>,
    pub retained_count: usize,
    pub retained_capacity: usize,
    pub retained_dropped: u64,
}

/// `summary` describes the watch `w`.
pub open spec fn summarizes(s: WatchSummary, w: WatchModel) -> bool {
    &&& s.id@ == w.id
    &&& s.name@ == w.name
    &&& s.pattern@ == w.pattern
    &&& s.pattern_type == w.pattern_type
    &&& opt_view(s.tag_filter) == w.tag_filter
    &&& opt_view(s.min_level) == (match w.min_level {
        Some(l) => Some(level_label(l)),
        None => None,
    })
    &&& s.match_count == w.match_count
    &&& s.last_match_seq == w.last_match_seq
    &&& s.retained_count == w.retained.len()
    &&& s.retained_capacity == w.capacity
    &&& s.retained_dropped == w.dropped
}

/// Totals over the watches of a capture.
#[derive(Debug, Clone, Copy, Default)]
pub struct WatchRetentionStats {
    pub watch_count: usize,
    pub retained_count: usize,
    pub retained_capacity: usize,
    pub retained_dropped: u64,
}

/// The settings of a new watch, with nothing retained yet.
pub open spec fn fresh_watch(
    id: Seq<char>,
    created_at_ms: u64,
    name: Seq<char>,
    pattern_type: PatternType,
    pattern: Seq<char>,
    tag: Option<Seq<char>>,
    min_level: Option<LogLevel>,
    capacity: nat,
) -> WatchModel {
    WatchModel {
        id,
        name,
        pattern_type,
        pattern,
        tag_filter: tag,
        min_level,
        match_count: 0,
        last_match_seq: None,
        created_at_ms,
        retained: Seq::empty(),
        capacity: if capacity == 0 {
            1
        } else {
            capacity
        },
        dropped: 0,
    }
}

impl Watch {
    /// The watch's invariant.
    pub closed spec fn wf(&self) -> bool {
        &&& model_wf(self@)
        &&& self.text_pattern is Some
        &&& (self.pattern_type == PatternType::Regex <==> self.regex_pattern is Some)
        &&& (self.regex_pattern matches Some(re) ==> re.pattern() == self@.pattern)
    }

    pub proof fn lemma_wf(&self)
        requires
            self.wf(),
        ensures
            model_wf(self@),
    {
    }

    /// A text watch (case-insensitive substring of the message or tag) that
    /// retains up to the default number of matches.
    pub fn new_text(
        id: String,
        created_at_ms: u64,
        name: String,
        pattern: String,
        tag: Option<String>,
        min_level: Option<LogLevel>,
    ) -> (w: Watch)
        ensures
            w.wf(),
            w@ == fresh_watch(
                id@,
                created_at_ms,
                name@,
                PatternType::Text,
                pattern@,
                opt_view(tag),
                min_level,
                DEFAULT_MATCH_RETENTION_CAPACITY as nat,
            ),
    {
        Self::new_text_with_retention(
            id,
            created_at_ms,
            name,
            pattern,
            tag,
            min_level,
            DEFAULT_MATCH_RETENTION_CAPACITY,
        )
    }

    /// A text watch retaining up to `retained_match_capacity` matches (at
    /// least one).
    pub fn new_text_with_retention(
        id: String,
        created_at_ms: u64,
        name: String,
        pattern: String,
        tag: Option<String>,
        min_level: Option<LogLevel>,
        retained_match_capacity: usize,
    ) -> (w: Watch)
        ensures
            w.wf(),
            w@ == fresh_watch(
                id@,
                created_at_ms,
                name@,
                PatternType::Text,
                pattern@,
                opt_view(tag),
                min_level,
                retained_match_capacity as nat,
            ),
    {
        let capacity = if retained_match_capacity == 0 {
            1
        } else {
            retained_match_capacity
        };
        let w = Watch {
            id,
            name,
            pattern_type: PatternType::Text,
            text_pattern: Some(pattern),
            regex_pattern: None,
            tag_filter: tag,
            min_level,
            match_count: 0,
            last_match_seq: None,
            created_at_ms,
            retained_matches: VecDeque::new(),
            retained_match_capacity: capacity,
            retained_dropped: 0,
        };
        assert(buffered_views(w.retained_matches@) =~= Seq::empty());
        w
    }

    /// A regex watch retaining up to the default number of matches; fails
    /// when the pattern does not compile.
    pub fn new_regex(
        id: String,
        created_at_ms: u64,
        name: String,
        pattern: &str,
        tag: Option<String>,
        min_level: Option<LogLevel>,
    ) -> (r: Result<Watch, String>)
        ensures
            r is Ok <==> regex_compiles(pattern@),
            r matches Ok(w) ==> w.wf() && w@ == fresh_watch(
                id@,
                created_at_ms,
                name@,
                PatternType::Regex,
                pattern@,
                opt_view(tag),
                min_level,
                DEFAULT_MATCH_RETENTION_CAPACITY as nat,
            ),
            r matches Err(e) ==> e@ == "invalid regex: "@ + regex_error_text(pattern@),
    {
        Self::new_regex_with_retention(
            id,
            created_at_ms,
            name,
            pattern,
            tag,
            min_level,
            DEFAULT_MATCH_RETENTION_CAPACITY,
        )
    }

    /// A regex watch retaining up to `retained_match_capacity` matches (at
    /// least one); fails when the pattern does not compile.
    pub fn new_regex_with_retention(
        id: String,
        created_at_ms: u64,
        name: String,
        pattern: &str,
        tag: Option<String>,
        min_level: Option<LogLevel>,
        retained_match_capacity: usize,
    ) -> (r: Result<Watch, String>)
        ensures
            r is Ok <==> regex_compiles(pattern@),
            r matches Ok(w) ==> w.wf() && w@ == fresh_watch(
                id@,
                created_at_ms,
                name@,
                PatternType::Regex,
                pattern@,
                opt_view(tag),
                min_level,
                retained_match_capacity as nat,
            ),
            r matches Err(e) ==> e@ == "invalid regex: "@ + regex_error_text(pattern@),
    {
        match compile_regex(pattern) {
            Err(e) => {
                let mut msg = String::new();
                let prefix = chars_of("invalid regex: ");
                push_chars(&mut msg, &prefix);
                let ec = chars_of(e.as_str());
                push_chars(&mut msg, &ec);
                Err(msg)
            },
            Ok(re) => Ok(
                Self::new_compiled_regex_with_retention(
                    id,
                    created_at_ms,
                    name,
                    re,
                    tag,
                    min_level,
                    retained_match_capacity,
                ),
            ),
        }
    }

    /// A regex watch over an already compiled pattern, retaining up to
    /// `retained_match_capacity` matches (at least one).
    pub fn new_compiled_regex_with_retention(
        id: String,
        created_at_ms: u64,
        name: String,
        re: CompiledRegex,
        tag: Option<String>,
        min_level: Option<LogLevel>,
        retained_match_capacity: usize,
    ) -> (w: Watch)
        ensures
            w.wf(),
            w@ == fresh_watch(
                id@,
                created_at_ms,
                name@,
                PatternType::Regex,
                re.pattern(),
                opt_view(tag),
                min_level,
                retained_match_capacity as nat,
            ),
    {
        let capacity = if retained_match_capacity == 0 {
            1
        } else {
            retained_match_capacity
        };
        let source = re.as_str().to_string();
        let w = Watch {
            id,
            name,
            pattern_type: PatternType::Regex,
            text_pattern: Some(source),
            regex_pattern: Some(re),
            tag_filter: tag,
            min_level,
            match_count: 0,
            last_match_seq: None,
            created_at_ms,
            retained_matches: VecDeque::new(),
            retained_match_capacity: capacity,
            retained_dropped: 0,
        };
        assert(buffered_views(w.retained_matches@) =~= Seq::empty());
        w
    }

    /// Whether a log entry matches this watch.
    pub fn matches(&self, entry: &LogEntry) -> (b: bool)
        requires
            self.wf(),
        ensures
            b == watch_accepts(self@, entry@),
            self@.tag_filter matches Some(t) ==> (is_ascii_text(t) && is_ascii_text(entry.tag@) ==> b == (
            contains(lower(entry.tag@), lower(t)) && watch_accepts(
                WatchModel { tag_filter: None, ..self@ },
                entry@,
            ))),
    {
        if let Some(min) = self.min_level {
            if entry.level.is_below(min) {
                return false;
            }
        }
        if let Some(tag_f) = &self.tag_filter {
            if !contains_ignoring_case(entry.tag.as_str(), tag_f.as_str()) {
                return false;
            }
        }
        match self.pattern_type {
            PatternType::Text => {
                let pat = match &self.text_pattern {
                    Some(p) => p.as_str(),
                    None => "",
                };
                contains_ignoring_case(entry.message.as_str(), pat) || contains_ignoring_case(
                    entry.tag.as_str(),
                    pat,
                )
            },
            PatternType::Regex => match &self.regex_pattern {
                Some(re) => regex_matches(re, entry.message.as_str()),
                None => false,
            },
        }
    }

    /// Whether an entry numbered `seq` is retained.
    fn holds_seq(&self, seq: u64) -> (b: bool)
        ensures
            b == seq_retained(self@.retained, seq),
    {
        let mut i: usize = 0;
        while i < self.retained_matches.len()
            invariant
                i <= self.retained_matches@.len(),
                forall|k: int| 0 <= k < i ==> #[trigger] self.retained_matches@[k].seq != seq,
            decreases self.retained_matches@.len() - i,
        {
            if self.retained_matches[i].seq == seq {
                assert(self@.retained[i as int].seq == seq);
                return true;
            }
            i += 1;
        }
        assert forall|k: int| 0 <= k < self@.retained.len() implies #[trigger] self@.retained[k].seq
            != seq by {
            assert(self@.retained[k] == self.retained_matches@[k]@);
        }
        false
    }

    /// Record `buffered` as a match unless an entry with its number is
    /// already retained; returns whether it was recorded.
    fn record_match(&mut self, buffered: BufferedLogEntry) -> (r: bool)
        requires
            old(self).wf(),
        ensures
            final(self).wf(),
            r == !seq_retained(old(self)@.retained, buffered.seq),
            final(self)@ == (if r {
                record_step(old(self)@, buffered@)
            } else {
                old(self)@
            }),
    {
        if self.holds_seq(buffered.seq) {
            return false;
        }
        let ghost b = buffered@;
        let ghost before = buffered_views(self.retained_matches@);
        let full = self.retained_matches.len() == self.retained_match_capacity;
        if full {
            self.retained_matches.pop_front();
            self.retained_dropped = self.retained_dropped.saturating_add(1);
        }
        self.match_count = self.match_count.saturating_add(1);
        self.last_match_seq = Some(buffered.seq);
        self.retained_matches.push_back(buffered);
        proof {
            let base = if full {
                before.drop_first()
            } else {
                before
            };
            assert(buffered_views(self.retained_matches@) =~= base.push(b));
            assert(distinct_seqs(base.push(b))) by {
                assert forall|i: int, j: int| 0 <= i < j < base.push(b).len() implies #[trigger] base.push(
                    b,
                )[i].seq != #[trigger] base.push(b)[j].seq by {
                    if j == base.len() {
                        if full {
                            assert(base[i] == before[i + 1]);
                        } else {
                            assert(base[i] == before[i]);
                        }
                    } else if full {
                        assert(base[i] == before[i + 1] && base[j] == before[j + 1]);
                    }
                }
            }
        }
        true
    }

    /// Offer a buffered entry to this watch: it is recorded when it matches
    /// and is not retained yet. Returns whether it was recorded.
    pub fn retain_if_match(&mut self, buffered: &BufferedLogEntry) -> (r: bool)
        requires
            old(self).wf(),
        ensures
            final(self).wf(),
            (final(self)@, r) == retain_step(old(self)@, buffered@),
    {
        if !self.matches(&buffered.entry) {
            return false;
        }
        self.record_match(buffered.duplicate())
    }

    /// The retained matches numbered after `since_seq`, oldest first, at most
    /// `limit` of them.
    pub fn retained_matches_since(&self, since_seq: Option<u64>, limit: usize) -> (r: Vec<
        BufferedLogEntry,
    >)
        requires
            self.wf(),
        ensures
            buffered_views(r@) == take_at_most(after_seq(self@.retained, since_seq), limit as nat),
    {
        let ghost all = self@.retained;
        let mut out: Vec<BufferedLogEntry> = Vec::new();
        let mut i: usize = 0;
        assert(all.take(0) =~= Seq::<BufferedModel>::empty());
        while i < self.retained_matches.len()
            invariant
                i <= self.retained_matches@.len(),
                all == self@.retained,
                all.len() == self.retained_matches@.len(),
                buffered_views(out@) == take_at_most(after_seq(all.take(i as int), since_seq), limit as nat),
            decreases self.retained_matches@.len() - i,
        {
            let ghost prev = after_seq(all.take(i as int), since_seq);
            assert(all.take(i + 1).drop_last() =~= all.take(i as int));
            assert(all.take(i + 1).last() == all[i as int]);
            assert(all[i as int] == self.retained_matches@[i as int]@);
            let keep = match since_seq {
                Some(n) => self.retained_matches[i].seq > n,
                None => true,
            };
            if keep && out.len() < limit {
                let b = self.retained_matches[i].duplicate();
                out.push(b);
                proof {
                    assert(take_at_most(prev, limit as nat) == prev);
                    assert(buffered_views(out@) =~= prev.push(all[i as int]));
                }
            } else if keep {
                proof {
                    assert(take_at_most(prev.push(all[i as int]), limit as nat) =~= take_at_most(
                        prev,
                        limit as nat,
                    ));
                }
            }
            i += 1;
        }
        assert(all.take(i as int) =~= all);
        out
    }

    /// Forget every retained match and reset the counters; returns how many
    /// entries were dropped.
    pub fn clear_matches(&mut self) -> (n: usize)
        requires
            old(self).wf(),
        ensures
            final(self).wf(),
            n == old(self)@.retained.len(),
            final(self)@ == (WatchModel {
                match_count: 0,
                last_match_seq: None,
                retained: Seq::empty(),
                dropped: 0,
                ..old(self)@
            }),
    {
        let cleared = self.retained_matches.len();
        self.retained_matches.clear();
        self.match_count = 0;
        self.last_match_seq = None;
        self.retained_dropped = 0;
        assert(buffered_views(self.retained_matches@) =~= Seq::empty());
        cleared
    }

    /// The pattern as written.
    pub fn pattern_display(&self) -> (s: &str)
        requires
            self.wf(),
        ensures
            s@ == self@.pattern,
    {
        match &self.text_pattern {
            Some(p) => p.as_str(),
            None => "",
        }
    }

    /// The watch's settings and counters.
    pub fn summary(&self) -> (s: WatchSummary)
        requires
            self.wf(),
        ensures
            summarizes(s, self@),
    {
        let min_level = match self.min_level {
            Some(l) => Some(l.label().to_string()),
            None => None,
        };
        WatchSummary {
            id: self.id.clone(),
            name: self.name.clone(),
            pattern: self.pattern_display().to_string(),
            pattern_type: self.pattern_type,
            tag_filter: clone_opt_string(&self.tag_filter),
            min_level,
            match_count: self.match_count,
            last_match_seq: self.last_match_seq,
            retained_count: self.retained_matches.len(),
            retained_capacity: self.retained_match_capacity,
            retained_dropped: self.retained_dropped,
        }
    }
}

// ---------------------------------------------------------------------------
// Watch sets
// ---------------------------------------------------------------------------

/// Offering each entry of `es` in turn: the final contents and how many of
/// the entries were recorded.
pub open spec fn seed_steps(w: WatchModel, es: Seq<BufferedModel>) -> (WatchModel, nat)
    decreases es.len(),
{
    if es.len() == 0 {
        (w, 0)
    } else {
        let (w1, n) = seed_steps(w, es.drop_last());
        let (w2, hit) = retain_step(w1, es.last());
        (w2, if hit {
            n + 1
        } else {
            n
        })
    }
}

/// The number of retained entries over a sequence of watches.
pub open spec fn total_retained(ws: Seq<WatchModel>) -> nat
    decreases ws.len(),
{
    if ws.len() == 0 {
        0
    } else {
        total_retained(ws.drop_last()) + ws.last().retained.len()
    }
}

/// The retention capacity over a sequence of watches.
pub open spec fn total_capacity(ws: Seq<WatchModel>) -> nat
    decreases ws.len(),
{
    if ws.len() == 0 {
        0
    } else {
        total_capacity(ws.drop_last()) + ws.last().capacity
    }
}

/// The dropped counts over a sequence of watches, added with saturation.
pub open spec fn total_dropped(ws: Seq<WatchModel>) -> u64
    decreases ws.len(),
{
    if ws.len() == 0 {
        0
    } else {
        let t = total_dropped(ws.drop_last()) + ws.last().dropped;
        if t > u64::MAX {
            u64::MAX
        } else {
            t as u64
        }
    }
}

/// The watches of one capture, held in ascending order of id (which also
/// makes the ids distinct).
#[derive(Debug)]
pub struct WatchSet {
    watches: Vec<Watch>,
}

impl WatchSet {
    /// The watches, in ascending order of id.
    pub closed spec fn entries(&self) -> Seq<Watch> {
        self.watches@
    }

    pub open spec fn models(&self) -> Seq<WatchModel> {
        self.entries().map_values(|w: Watch| w@)
    }

    pub open spec fn ids(&self) -> Seq<Seq<char>> {
        self.entries().map_values(|w: Watch| w@.id)
    }

    pub open spec fn wf(&self) -> bool {
        &&& strictly_sorted(self.ids())
        &&& forall|i: int| 0 <= i < self.entries().len() ==> #[trigger] self.entries()[i].wf()
    }

    pub open spec fn has(&self, id: Seq<char>) -> bool {
        self.ids().contains(id)
    }

    /// The watch with this id, if there is one.
    pub open spec fn lookup(&self, id: Seq<char>) -> Option<WatchModel> {
        if self.has(id) {
            Some(self.entries()[choose|i: int| 0 <= i < self.ids().len() && self.ids()[i] == id]@)
        } else {
            None
        }
    }

    /// In a well-formed set, the watch at a position is the one its id looks up.
    pub proof fn lemma_lookup_at(&self, i: int)
        requires
            self.wf(),
            0 <= i < self.entries().len(),
        ensures
            self.has(self.ids()[i]),
            self.lookup(self.ids()[i]) == Some(self.entries()[i]@),
    {
        let ids = self.ids();
        assert(ids[i] == ids[i]);
        let j = choose|j: int| 0 <= j < ids.len() && ids[j] == ids[i];
        lemma_unique_position(ids, i, j);
    }

    /// An empty set.
    pub fn new() -> (s: WatchSet)
        ensures
            s.wf(),
            s.entries().len() == 0,
    {
        let s = WatchSet { watches: Vec::new() };
        assert(s.ids() =~= Seq::<Seq<char>>::empty());
        s
    }

    pub fn len(&self) -> (n: usize)
        ensures
            n == self.entries().len(),
    {
        self.watches.len()
    }

    pub fn is_empty(&self) -> (b: bool)
        ensures
            b == (self.entries().len() == 0),
    {
        self.watches.len() == 0
    }

    /// The position of the first watch whose id is not below `id`.
    fn position_of(&self, id: &str) -> (p: usize)
        requires
            self.wf(),
        ensures
            p <= self.entries().len(),
            forall|k: int| 0 <= k < p ==> lex_lt(#[trigger] self.ids()[k], id@),
            p < self.entries().len() ==> !lex_lt(self.ids()[p as int], id@),
    {
        let mut p: usize = 0;
        while p < self.watches.len() && str_less(self.watches[p].id.as_str(), id)
            invariant
                p <= self.watches@.len(),
                forall|k: int| 0 <= k < p ==> lex_lt(#[trigger] self.ids()[k], id@),
            decreases self.watches@.len() - p,
        {
            p += 1;
        }
        p
    }

    /// Where the watch with this id sits, if there is one.
    fn index_of(&self, id: &str) -> (r: Option<usize>)
        requires
            self.wf(),
        ensures
            match r {
                Some(i) => i < self.entries().len() && self.ids()[i as int] == id@,
                None => !self.has(id@),
            },
    {
        let p = self.position_of(id);
        if p < self.watches.len() && str_eq(self.watches[p].id.as_str(), id) {
            return Some(p);
        }
        proof {
            if self.has(id@) {
                let k = choose|k: int| 0 <= k < self.ids().len() && self.ids()[k] == id@;
                lemma_lex_irreflexive(id@);
                if k > p {
                    assert(lex_lt(self.ids()[p as int], self.ids()[k]));
                    lemma_lex_total(self.ids()[p as int], id@);
                    lemma_lex_asym(self.ids()[p as int], id@);
                }
            }
        }
        None
    }

    /// Add a watch, replacing one with the same id; returns its id.
    pub fn add(&mut self, watch: Watch) -> (id: String)
        requires
            old(self).wf(),
            watch.wf(),
        ensures
            final(self).wf(),
            id@ == watch@.id,
            forall|k: Seq<char>| #[trigger] final(self).has(k) <==> (old(self).has(k) || k == id@),
            final(self).lookup(id@) == Some(watch@),
            forall|k: Seq<char>| k != id@ ==> #[trigger] final(self).lookup(k) == old(self).lookup(k),
    {
        let id = watch.id.clone();
        let ghost w = watch@;
        let ghost old_ids = self.ids();
        let ghost old_set = *self;
        let p = self.position_of(id.as_str());
        let replace = p < self.watches.len() && str_eq(self.watches[p].id.as_str(), id.as_str());
        if replace {
            self.watches.set(p, watch);
            proof {
                assert(self.ids() =~= old_ids.update(p as int, id@));
            }
        } else {
            self.watches.insert(p, watch);
            proof {
                let ids = self.ids();
                assert(ids =~= old_ids.insert(p as int, id@));
                assert forall|a: int, b: int| 0 <= a < b < ids.len() implies lex_lt(#[trigger] ids[a], #[trigger] ids[b]) by {
                    if b == p {
                        assert(lex_lt(old_ids[a], id@));
                    } else if a == p {
                        if p < old_ids.len() {
                            lemma_lex_total(old_ids[p as int], id@);
                            if old_ids[p as int] != id@ {
                                assert(lex_lt(id@, old_ids[p as int]));
                            }
                            if b - 1 > p {
                                lemma_lex_trans(id@, old_ids[p as int], old_ids[b - 1]);
                            }
                        }
                    } else if a < p && b > p {
                        assert(ids[b] == old_ids[b - 1]);
                        if a < p && b - 1 >= p {
                            assert(lex_lt(old_ids[a], id@));
                            if b - 1 == p as int {
                                lemma_lex_total(old_ids[p as int], id@);
                                if old_ids[p as int] != id@ {
                                    lemma_lex_trans(old_ids[a], id@, old_ids[p as int]);
                                }
                            }
                        }
                    } else if a > p {
                        assert(ids[a] == old_ids[a - 1] && ids[b] == old_ids[b - 1]);
                    }
                }
            }
        }
        proof {
            let ids = self.ids();
            assert forall|i: int| 0 <= i < self.entries().len() implies #[trigger] self.entries()[i].wf() by {
                if i != p {
                    if replace || i < p {
                        assert(self.entries()[i] == old_set.entries()[i]);
                    } else {
                        assert(self.entries()[i] == old_set.entries()[i - 1]);
                    }
                }
            }
            assert(ids[p as int] == id@);
            self.lemma_lookup_at(p as int);
            assert forall|k: Seq<char>| #[trigger] self.has(k) <==> (old_set.has(k) || k == id@) by {
                if self.has(k) {
                    let i = choose|i: int| 0 <= i < ids.len() && ids[i] == k;
                    if i != p {
                        if replace || i < p {
                            assert(old_ids[i] == k);
                        } else {
                            assert(old_ids[i - 1] == k);
                        }
                    }
                }
                if old_set.has(k) {
                    let i = choose|i: int| 0 <= i < old_ids.len() && old_ids[i] == k;
                    if replace || i < p {
                        if replace && i == p {
                            assert(ids[p as int] == k);
                        } else {
                            assert(ids[i] == k);
                        }
                    } else {
                        assert(ids[i + 1] == k);
                    }
                }
                if k == id@ {
                    assert(ids[p as int] == k);
                }
            }
            assert forall|k: Seq<char>| k != id@ implies #[trigger] self.lookup(k) == old_set.lookup(k) by {
                if old_set.has(k) {
                    let i = choose|i: int| 0 <= i < old_ids.len() && old_ids[i] == k;
                    old_set.lemma_lookup_at(i);
                    if replace || i < p {
                        if replace && i == p {
                            assert(false);
                        }
                        assert(self.entries()[i] == old_set.entries()[i]);
                        self.lemma_lookup_at(i);
                    } else {
                        assert(self.entries()[i + 1] == old_set.entries()[i]);
                        self.lemma_lookup_at(i + 1);
                    }
                }
            }
        }
        id
    }

    /// Remove the watch with this id; returns whether there was one.
    pub fn remove(&mut self, id: &str) -> (r: bool)
        requires
            old(self).wf(),
        ensures
            final(self).wf(),
            r == old(self).has(id@),
            forall|k: Seq<char>| #[trigger] final(self).has(k) <==> (old(self).has(k) && k != id@),
            final(self).lookup(id@) is None,
            forall|k: Seq<char>| k != id@ ==> #[trigger] final(self).lookup(k) == old(self).lookup(k),
    {
        let ghost old_set = *self;
        let ghost old_ids = self.ids();
        match self.index_of(id) {
            None => false,
            Some(i) => {
                let _w = self.watches.remove(i);
                proof {
                    let ids = self.ids();
                    assert(ids =~= old_ids.remove(i as int));
                    assert forall|a: int, b: int| 0 <= a < b < ids.len() implies lex_lt(#[trigger] ids[a], #[trigger] ids[b]) by {
                        if a < i && b >= i {
                            assert(ids[b] == old_ids[b + 1]);
                        } else if a >= i {
                            assert(ids[a] == old_ids[a + 1] && ids[b] == old_ids[b + 1]);
                        }
                    }
                    assert forall|j: int| 0 <= j < self.entries().len() implies #[trigger] self.entries()[j].wf() by {
                        if j < i {
                            assert(self.entries()[j] == old_set.entries()[j]);
                        } else {
                            assert(self.entries()[j] == old_set.entries()[j + 1]);
                        }
                    }
                    assert forall|k: Seq<char>| #[trigger] self.has(k) <==> (old_set.has(k) && k != id@) by {
                        if self.has(k) {
                            let j = choose|j: int| 0 <= j < ids.len() && ids[j] == k;
                            if j < i {
                                assert(old_ids[j] == k);
                                if k == id@ {
                                    lemma_unique_position(old_ids, j, i as int);
                                }
                            } else {
                                assert(old_ids[j + 1] == k);
                                if k == id@ {
                                    lemma_unique_position(old_ids, j + 1, i as int);
                                }
                            }
                        }
                        if old_set.has(k) && k != id@ {
                            let j = choose|j: int| 0 <= j < old_ids.len() && old_ids[j] == k;
                            if j < i {
                                assert(ids[j] == k);
                            } else {
                                assert(j != i);
                                assert(ids[j - 1] == k);
                            }
                        }
                    }
                    assert forall|k: Seq<char>| k != id@ implies #[trigger] self.lookup(k) == old_set.lookup(k) by {
                        if old_set.has(k) {
                            let j = choose|j: int| 0 <= j < old_ids.len() && old_ids[j] == k;
                            old_set.lemma_lookup_at(j);
                            if j < i {
                                assert(self.entries()[j] == old_set.entries()[j]);
                                self.lemma_lookup_at(j);
                            } else {
                                assert(j != i);
                                assert(self.entries()[j - 1] == old_set.entries()[j]);
                                self.lemma_lookup_at(j - 1);
                            }
                        }
                    }
                }
                true
            },
        }
    }

    /// The watch with this id.
    pub fn get(&self, id: &str) -> (r: Option<&Watch>)
        requires
            self.wf(),
        ensures
            match r {
                Some(w) => w.wf() && self.lookup(id@) == Some(w@),
                None => self.lookup(id@) is None,
            },
    {
        match self.index_of(id) {
            Some(i) => {
                proof {
                    self.lemma_lookup_at(i as int);
                }
                Some(&self.watches[i])
            },
            None => None,
        }
    }

    /// Summaries of every watch, in ascending order of id.
    pub fn list(&self) -> (r: Vec<WatchSummary>)
        requires
            self.wf(),
        ensures
            r@.len() == self.entries().len(),
            forall|i: int| 0 <= i < r@.len() ==> summarizes(#[trigger] r@[i], self.models()[i]),
            strictly_sorted(r@.map_values(|s: WatchSummary| s.id@)),
    {
        let mut r: Vec<WatchSummary> = Vec::new();
        let mut i: usize = 0;
        while i < self.watches.len()
            invariant
                self.wf(),
                i <= self.watches@.len(),
                r@.len() == i,
                forall|k: int| 0 <= k < i ==> summarizes(#[trigger] r@[k], self.models()[k]),
            decreases self.watches@.len() - i,
        {
            assert(self.entries()[i as int].wf());
            let s = self.watches[i].summary();
            r.push(s);
            i += 1;
        }
        assert(r@.map_values(|s: WatchSummary| s.id@) =~= self.ids());
        r
    }

    /// Offer a buffered entry to every watch.
    pub fn record_entry(&mut self, buffered: &BufferedLogEntry)
        requires
            old(self).wf(),
        ensures
            final(self).wf(),
            final(self).entries().len() == old(self).entries().len(),
            forall|i: int| 0 <= i < old(self).entries().len() ==> #[trigger] final(self).models()[i] == retain_step(
                old(self).models()[i],
                buffered@,
            ).0,
    {
        let ghost old_set = *self;
        let mut i: usize = 0;
        while i < self.watches.len()
            invariant
                i <= self.watches@.len(),
                self.watches@.len() == old_set.entries().len(),
                forall|k: int| 0 <= k < self.watches@.len() ==> #[trigger] self.entries()[k].wf(),
                forall|k: int| 0 <= k < self.watches@.len() ==> #[trigger] self.ids()[k] == old_set.ids()[k],
                forall|k: int| 0 <= k < i ==> #[trigger] self.models()[k] == retain_step(old_set.models()[k], buffered@).0,
                forall|k: int| i <= k < self.watches@.len() ==> #[trigger] self.entries()[k] == old_set.entries()[k],
            decreases self.watches@.len() - i,
        {
            assert(self.entries()[i as int].wf());
            let ghost pre = *self;
            self.watches[i].retain_if_match(buffered);
            proof {
                assert(pre.entries()[i as int] == old_set.entries()[i as int]);
                assert(self.entries()[i as int]@ == retain_step(pre.entries()[i as int]@, buffered@).0);
                assert forall|k: int| 0 <= k < self.watches@.len() implies #[trigger] self.ids()[k] == old_set.ids()[k] by {
                    assert(pre.ids()[k] == old_set.ids()[k]);
                    if k != i {
                        assert(self.entries()[k] == pre.entries()[k]);
                    }
                }
                assert forall|k: int| 0 <= k < i + 1 implies #[trigger] self.models()[k] == retain_step(old_set.models()[k], buffered@).0 by {
                    if k < i {
                        assert(pre.models()[k] == retain_step(old_set.models()[k], buffered@).0);
                        assert(self.entries()[k] == pre.entries()[k]);
                    }
                }
            }
            i += 1;
        }
        assert(self.ids() =~= old_set.ids());
    }

    /// Offer each of `entries` in turn to the watch with this id; returns how
    /// many were recorded (0 when there is no such watch).
    pub fn seed_matches(&mut self, id: &str, entries: &[BufferedLogEntry]) -> (n: usize)
        requires
            old(self).wf(),
        ensures
            final(self).wf(),
            forall|k: Seq<char>| #[trigger] final(self).has(k) == old(self).has(k),
            forall|k: Seq<char>| k != id@ ==> #[trigger] final(self).lookup(k) == old(self).lookup(k),
            match old(self).lookup(id@) {
                Some(w) => final(self).lookup(id@) == Some(seed_steps(w, buffered_views(entries@)).0)
                    && n == seed_steps(w, buffered_views(entries@)).1,
                None => final(self).lookup(id@) is None && n == 0,
            },
    {
        let ghost old_set = *self;
        let idx = self.index_of(id);
        let Some(p) = idx else {
            return 0;
        };
        proof {
            old_set.lemma_lookup_at(p as int);
        }
        let ghost w0 = old_set.entries()[p as int]@;
        let ghost es = buffered_views(entries@);
        let mut seeded: usize = 0;
        let mut i: usize = 0;
        while i < entries.len()
            invariant
                i <= entries@.len(),
                es == buffered_views(entries@),
                p < self.watches@.len(),
                self.watches@.len() == old_set.entries().len(),
                self.entries()[p as int].wf(),
                forall|k: int| 0 <= k < self.watches@.len() && k != p ==> #[trigger] self.entries()[k] == old_set.entries()[k],
                self.entries()[p as int]@ == seed_steps(w0, es.take(i as int)).0,
                seeded == seed_steps(w0, es.take(i as int)).1,
                seeded <= i,
            decreases entries@.len() - i,
        {
            assert(es.take(i + 1).drop_last() =~= es.take(i as int));
            assert(es.take(i + 1).last() == entries@[i as int]@);
            let hit = self.watches[p].retain_if_match(&entries[i]);
            if hit {
                seeded += 1;
            }
            i += 1;
        }
        assert(es.take(i as int) =~= es);
        proof {
            assert(self.ids() =~= old_set.ids()) by {
                assert forall|k: int| 0 <= k < self.ids().len() implies self.ids()[k] == old_set.ids()[k] by {
                    if k == p {
                        lemma_seed_keeps_id(w0, es);
                        assert(self.entries()[p as int]@.id == w0.id);
                    }
                }
            }
            assert forall|k: int| 0 <= k < self.entries().len() implies #[trigger] self.entries()[k].wf() by {
                if k != p {
                    assert(self.entries()[k] == old_set.entries()[k]);
                }
            }
            self.lemma_lookup_at(p as int);
            assert forall|k: Seq<char>| k != id@ implies #[trigger] self.lookup(k) == old_set.lookup(k) by {
                if old_set.has(k) {
                    let j = choose|j: int| 0 <= j < old_set.ids().len() && old_set.ids()[j] == k;
                    old_set.lemma_lookup_at(j);
                    self.lemma_lookup_at(j);
                }
            }
        }
        seeded
    }

    /// The retained matches of the watch with this id (see
    /// `Watch::retained_matches_since`), or `None` without such a watch.
    pub fn retained_matches(&self, id: &str, since_seq: Option<u64>, limit: usize) -> (r: Option<
        Vec<BufferedLogEntry>,
    >)
        requires
            self.wf(),
        ensures
            match self.lookup(id@) {
                Some(w) => r matches Some(v) && buffered_views(v@) == take_at_most(
                    after_seq(w.retained, since_seq),
                    limit as nat,
                ),
                None => r is None,
            },
    {
        match self.get(id) {
            Some(w) => Some(w.retained_matches_since(since_seq, limit)),
            None => None,
        }
    }

    /// Clear the retained matches of every watch; returns how many entries
    /// were dropped in all.
    pub fn clear_matches(&mut self) -> (n: usize)
        requires
            old(self).wf(),
            total_retained(old(self).models()) <= usize::MAX,
        ensures
            final(self).wf(),
            n == total_retained(old(self).models()),
            final(self).entries().len() == old(self).entries().len(),
            forall|i: int| 0 <= i < old(self).entries().len() ==> #[trigger] final(self).models()[i] == (WatchModel {
                match_count: 0,
                last_match_seq: None,
                retained: Seq::empty(),
                dropped: 0,
                ..old(self).models()[i]
            }),
    {
        let ghost old_set = *self;
        let ghost ms = old_set.models();
        let mut total: usize = 0;
        let mut i: usize = 0;
        while i < self.watches.len()
            invariant
                i <= self.watches@.len(),
                ms == old_set.models(),
                self.watches@.len() == ms.len(),
                total_retained(ms) <= usize::MAX,
                total == total_retained(ms.take(i as int)),
                forall|k: int| 0 <= k < self.watches@.len() ==> #[trigger] self.entries()[k].wf(),
                forall|k: int| 0 <= k < self.watches@.len() ==> #[trigger] self.ids()[k] == old_set.ids()[k],
                forall|k: int| 0 <= k < i ==> #[trigger] self.models()[k] == (WatchModel {
                    match_count: 0,
                    last_match_seq: None,
                    retained: Seq::empty(),
                    dropped: 0,
                    ..ms[k]
                }),
                forall|k: int| i <= k < self.watches@.len() ==> #[trigger] self.entries()[k] == old_set.entries()[k],
            decreases self.watches@.len() - i,
        {
            assert(ms.take(i + 1).drop_last() =~= ms.take(i as int));
            proof {
                lemma_total_retained_prefix(ms, i as int + 1);
            }
            assert(self.entries()[i as int].wf());
            let ghost pre = *self;
            let c = self.watches[i].clear_matches();
            proof {
                assert(pre.entries()[i as int] == old_set.entries()[i as int]);
                assert forall|k: int| 0 <= k < self.watches@.len() implies #[trigger] self.ids()[k] == old_set.ids()[k] by {
                    assert(pre.ids()[k] == old_set.ids()[k]);
                    if k != i {
                        assert(self.entries()[k] == pre.entries()[k]);
                    }
                }
                assert forall|k: int| 0 <= k < i + 1 implies #[trigger] self.models()[k] == (WatchModel {
                    match_count: 0,
                    last_match_seq: None,
                    retained: Seq::empty(),
                    dropped: 0,
                    ..ms[k]
                }) by {
                    if k < i {
                        assert(pre.models()[k] == (WatchModel {
                            match_count: 0,
                            last_match_seq: None,
                            retained: Seq::empty(),
                            dropped: 0,
                            ..ms[k]
                        }));
                        assert(self.entries()[k] == pre.entries()[k]);
                    }
                }
            }
            total = total + c;
            i += 1;
        }
        assert(ms.take(i as int) =~= ms);
        assert(self.ids() =~= old_set.ids());
        total
    }

    /// Totals over the watches: how many there are, what they retain, their
    /// capacity and how many entries they dropped (saturating).
    pub fn retention_stats(&self) -> (s: WatchRetentionStats)
        requires
            self.wf(),
            total_retained(self.models()) <= usize::MAX,
            total_capacity(self.models()) <= usize::MAX,
        ensures
            s.watch_count == self.entries().len(),
            s.retained_count == total_retained(self.models()),
            s.retained_capacity == total_capacity(self.models()),
            s.retained_dropped == total_dropped(self.models()),
    {
        let ghost ms = self.models();
        let mut stats = WatchRetentionStats {
            watch_count: 0,
            retained_count: 0,
            retained_capacity: 0,
            retained_dropped: 0,
        };
        let mut i: usize = 0;
        while i < self.watches.len()
            invariant
                self.wf(),
                i <= self.watches@.len(),
                ms == self.models(),
                total_retained(ms) <= usize::MAX,
                total_capacity(ms) <= usize::MAX,
                stats.watch_count == i,
                stats.retained_count == total_retained(ms.take(i as int)),
                stats.retained_capacity == total_capacity(ms.take(i as int)),
                stats.retained_dropped == total_dropped(ms.take(i as int)),
            decreases self.watches@.len() - i,
        {
            assert(ms.take(i + 1).drop_last() =~= ms.take(i as int));
            proof {
                lemma_total_retained_prefix(ms, i as int + 1);
                lemma_total_capacity_prefix(ms, i as int + 1);
            }
            let w = &self.watches[i];
            stats.watch_count = stats.watch_count + 1;
            stats.retained_count = stats.retained_count + w.retained_matches.len();
            stats.retained_capacity = stats.retained_capacity + w.retained_match_capacity;
            stats.retained_dropped = stats.retained_dropped.saturating_add(w.retained_dropped);
            i += 1;
        }
        assert(ms.take(i as int) =~= ms);
        stats
    }
}

impl Default for WatchSet {
    fn default() -> (s: WatchSet)
        ensures
            s.wf(),
            s.entries().len() == 0,
    {
        WatchSet::new()
    }
}

/// Positions of equal elements of a strictly sorted sequence coincide.
pub proof fn lemma_unique_position(ids: Seq<Seq<char>>, i: int, j: int)
    requires
        strictly_sorted(ids),
        0 <= i < ids.len(),
        0 <= j < ids.len(),
        ids[i] == ids[j],
    ensures
        i == j,
{
    lemma_lex_irreflexive(ids[i]);
    if i < j {
        assert(lex_lt(ids[i], ids[j]));
    } else if j < i {
        assert(lex_lt(ids[j], ids[i]));
    }
}

/// A prefix retains no more than the whole.
pub proof fn lemma_total_retained_prefix(ws: Seq<WatchModel>, n: int)
    requires
        0 <= n <= ws.len(),
    ensures
        total_retained(ws.take(n)) <= total_retained(ws),
    decreases ws.len(),
{
    if n < ws.len() {
        assert(ws.drop_last().take(n) =~= ws.take(n));
        lemma_total_retained_prefix(ws.drop_last(), n);
    } else {
        assert(ws.take(n) =~= ws);
    }
}

/// A prefix has no more capacity than the whole.
pub proof fn lemma_total_capacity_prefix(ws: Seq<WatchModel>, n: int)
    requires
        0 <= n <= ws.len(),
    ensures
        total_capacity(ws.take(n)) <= total_capacity(ws),
    decreases ws.len(),
{
    if n < ws.len() {
        assert(ws.drop_last().take(n) =~= ws.take(n));
        lemma_total_capacity_prefix(ws.drop_last(), n);
    } else {
        assert(ws.take(n) =~= ws);
    }
}

/// Offering entries never changes a watch's id.
pub proof fn lemma_seed_keeps_id(w: WatchModel, es: Seq<BufferedModel>)
    ensures
        seed_steps(w, es).0.id == w.id,
    decreases es.len(),
{
    if es.len() > 0 {
        lemma_seed_keeps_id(w, es.drop_last());
    }
}

/// Offering an entry keeps a watch within its capacity and free of repeated
/// entries.
pub proof fn law_retain_keeps_invariant(w: WatchModel, b: BufferedModel)
    requires
        model_wf(w),
    ensures
        model_wf(retain_step(w, b).0),
{
    if retain_step(w, b).1 {
        let full = w.retained.len() == w.capacity;
        let base = if full {
            w.retained.drop_first()
        } else {
            w.retained
        };
        let r = base.push(b);
        assert forall|i: int, j: int| 0 <= i < j < r.len() implies #[trigger] r[i].seq != #[trigger] r[j].seq by {
            if j == base.len() {
                if full {
                    assert(base[i] == w.retained[i + 1]);
                } else {
                    assert(base[i] == w.retained[i]);
                }
            } else if full {
                assert(base[i] == w.retained[i + 1] && base[j] == w.retained[j + 1]);
            }
        }
    }
}

/// An entry is recorded at most once: offering it again changes nothing.
pub proof fn law_retain_twice_is_noop(w: WatchModel, b: BufferedModel)
    ensures
        retain_step(retain_step(w, b).0, b) == (retain_step(w, b).0, false),
{
    let w1 = retain_step(w, b).0;
    if retain_step(w, b).1 {
        assert(w1.retained[w1.retained.len() - 1] == b);
        assert(seq_retained(w1.retained, b.seq));
        assert(watch_accepts(w1, b.entry) == watch_accepts(w, b.entry));
    }
}

/// Every recorded match is either still retained or counted as dropped:
/// while the match counter has not saturated, it equals the retained entries
/// plus the dropped ones.
pub proof fn law_matches_are_retained_or_dropped(w: WatchModel, b: BufferedModel)
    requires
        model_wf(w),
        w.match_count == w.retained.len() + w.dropped,
        w.match_count < u64::MAX,
    ensures
        retain_step(w, b).0.match_count == retain_step(w, b).0.retained.len() + retain_step(w, b).0.dropped,
{
}

} // verus!

verus! {

/// A watch's tag filter ignores case: two watches that differ only in tag
/// filters with the same lowercase form accept the same entries.
pub proof fn law_watch_tag_filter_ignores_case(w: WatchModel, t1: Seq<char>, t2: Seq<char>, e: EntryModel)
    requires
        unicode_lower(t1) == unicode_lower(t2),
    ensures
        watch_accepts(WatchModel { tag_filter: Some(t1), ..w }, e) == watch_accepts(
            WatchModel { tag_filter: Some(t2), ..w },
            e,
        ),
{
}

/// Entries whose tags have the same lowercase form, and which agree
/// otherwise, are accepted alike by every watch.
pub proof fn law_watch_entry_tag_ignores_case(w: WatchModel, e: EntryModel, t: Seq<char>)
    requires
        unicode_lower(t) == unicode_lower(e.tag),
    ensures
        watch_accepts(w, EntryModel { tag: t, ..e }) == watch_accepts(w, e),
{
}

/// A tag filter is a substring test on lowercase forms: when the entry's
/// lowercased tag contains the lowercased filter the watch decides as it
/// would with no tag filter, and otherwise it rejects the entry.
pub proof fn law_watch_tag_filter_substring(w: WatchModel, t: Seq<char>, e: EntryModel)
    ensures
        contains(unicode_lower(e.tag), unicode_lower(t)) ==> watch_accepts(
            WatchModel { tag_filter: Some(t), ..w },
            e,
        ) == watch_accepts(WatchModel { tag_filter: None, ..w }, e),
        !contains(unicode_lower(e.tag), unicode_lower(t)) ==> !watch_accepts(
            WatchModel { tag_filter: Some(t), ..w },
            e,
        ),
{
}

} // verus!
