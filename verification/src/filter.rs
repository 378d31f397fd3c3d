//! Which log entries a pane shows: level, pid, iOS fields, vendor noise and
//! Android Studio style tag filters.
use vstd::prelude::*;
use crate::ios_noise::{is_ios_system_process, is_ios_system_subsystem, spec_is_system_process, spec_is_system_subsystem};
use crate::text::{byte_len, byte_len_exec, chars_eq_str, chars_of, contains, contains_exec, eq_chars, find, find_index, find_ws_from, is_ws, lemma_find_index_first, lemma_find_index_none, lemma_ws_index_exact, lower, lower_chars, matches_at, matches_at_exec, slice_of, starts_with, str_eq, string_from, to_upper_char, trim, trim_chars, trim_start, trim_start_index_from, trim_str, upper_char, ws_index};
use crate::log_entry::{LogEntry, LogLevel, LogPlatform, EntryModel, level_rank, level_of_char, opt_view};
use crate::pattern::{CompiledRegex, compile_regex, regex_compiles, regex_is_match, regex_matches, escape_regex, escaped};

verus! {

/// A tag-level rule's tag part.
#[derive(Debug, Clone)]
pub enum TagLevelMatcher {
    Exact(String),
    Any,
}

/// One rule of the tag filter syntax.
#[derive(Debug, Clone)]
pub enum TagFilter {
    Include(String),
    Exclude(String),
    Regex(CompiledRegex),
    MinLevel { matcher: TagLevelMatcher, min_level: LogLevel },
}

pub enum MatcherModel {
    Exact(Seq<char>),
    Any,
}

/// A tag filter rule with its strings as character sequences; a regex rule
/// is described by its pattern.
pub enum TagFilterModel {
    Include(Seq<char>),
    Exclude(Seq<char>),
    Regex(Seq<char>),
    MinLevel(MatcherModel, LogLevel),
}

impl View for TagLevelMatcher {
    type V = MatcherModel;

    open spec fn view(&self) -> MatcherModel {
        match self {
            TagLevelMatcher::Exact(t) => MatcherModel::Exact(t@),
            TagLevelMatcher::Any => MatcherModel::Any,
        }
    }
}

impl View for TagFilter {
    type V = TagFilterModel;

    open spec fn view(&self) -> TagFilterModel {
        match self {
            TagFilter::Include(t) => TagFilterModel::Include(t@),
            TagFilter::Exclude(t) => TagFilterModel::Exclude(t@),
            TagFilter::Regex(r) => TagFilterModel::Regex(r.pattern()),
            TagFilter::MinLevel { matcher, min_level } => TagFilterModel::MinLevel(matcher@, *min_level),
        }
    }
}

pub open spec fn filters_view(v: Seq<TagFilter>) -> Seq<TagFilterModel> {
    Seq::new(v.len(), |i: int| v[i]@)
}

// ---------------------------------------------------------------------------
// Parsing the tag filter syntax
// ---------------------------------------------------------------------------

pub open spec fn exclude_prefix() -> Seq<char> {
    seq!['t', 'a', 'g', '-', ':']
}

pub open spec fn regex_prefix() -> Seq<char> {
    seq!['t', 'a', 'g', '~', ':']
}

pub open spec fn include_prefix() -> Seq<char> {
    seq!['t', 'a', 'g', ':']
}

pub open spec fn min_nonneg(m: int, x: int) -> int {
    if 0 <= x && x < m {
        x
    } else {
        m
    }
}

/// Where the value after `tag:`, `tag-:` or `tag~:` ends: at the first
/// `" tag-:"`, `" tag~:"` or `" tag:"`, or at the end.
pub open spec fn tag_value_end(s: Seq<char>) -> int {
    min_nonneg(
        min_nonneg(
            min_nonneg(s.len() as int, find_index(s, seq![' '] + exclude_prefix())),
            find_index(s, seq![' '] + regex_prefix()),
        ),
        find_index(s, seq![' '] + include_prefix()),
    )
}

/// Position of the last `c` in `s`, or -1.
pub open spec fn last_index_of(s: Seq<char>, c: char) -> int
    decreases s.len(),
{
    if s.len() == 0 {
        -1
    } else if s.last() == c {
        s.len() - 1
    } else {
        last_index_of(s.drop_last(), c)
    }
}

/// A `TAG:L` token (`*` for any tag): the tag is everything before the
/// last `:`, the level one single-byte character after it, read ignoring
/// case.
pub open spec fn min_level_rule(tok: Seq<char>) -> Option<TagFilterModel> {
    let q = last_index_of(tok, ':');
    if q < 0 {
        None
    } else {
        let tag = tok.take(q);
        let level = tok.skip(q + 1);
        if tag.len() == 0 || byte_len(level) != 1 {
            None
        } else {
            match level_of_char(upper_char(level[0])) {
                None => None,
                Some(l) => Some(
                    TagFilterModel::MinLevel(
                        if tag == seq!['*'] {
                            MatcherModel::Any
                        } else {
                            MatcherModel::Exact(tag)
                        },
                        l,
                    ),
                ),
            }
        }
    }
}

pub proof fn lemma_trim_start_len(s: Seq<char>)
    ensures
        trim_start(s).len() <= s.len(),
        trim_start(s).len() > 0 ==> !is_ws(trim_start(s)[0]),
    decreases s.len(),
{
    if s.len() > 0 && is_ws(s[0]) {
        lemma_trim_start_len(s.drop_first());
    }
}

pub proof fn lemma_ws_index_bound(s: Seq<char>)
    ensures
        -1 <= ws_index(s) < s.len(),
        s.len() > 0 && !is_ws(s[0]) ==> ws_index(s) != 0,
    decreases s.len(),
{
    if s.len() > 0 && !is_ws(s[0]) {
        lemma_ws_index_bound(s.drop_first());
    }
}

/// One rule read from `r`, which starts with a non-blank character: the
/// rules it yields (none or one) and the text after it.
pub open spec fn parse_step(r: Seq<char>) -> (Seq<TagFilterModel>, Seq<char>) {
    if starts_with(r, exclude_prefix()) {
        let rest = r.skip(5);
        let e = tag_value_end(rest);
        let v = rest.take(e);
        (
            if v.len() > 0 {
                seq![TagFilterModel::Exclude(v)]
            } else {
                seq![]
            },
            rest.skip(e),
        )
    } else if starts_with(r, regex_prefix()) {
        let rest = r.skip(5);
        let e = tag_value_end(rest);
        let v = rest.take(e);
        (
            if v.len() > 0 && regex_compiles(v) {
                seq![TagFilterModel::Regex(v)]
            } else {
                seq![]
            },
            rest.skip(e),
        )
    } else if starts_with(r, include_prefix()) {
        let rest = r.skip(4);
        let e = tag_value_end(rest);
        let v = rest.take(e);
        (
            if v.len() > 0 {
                seq![TagFilterModel::Include(v)]
            } else {
                seq![]
            },
            rest.skip(e),
        )
    } else {
        let p = ws_index(r);
        let tok = if p >= 0 {
            r.take(p)
        } else {
            r
        };
        (
            match min_level_rule(tok) {
                Some(m) => seq![m],
                None => seq![],
            },
            if p >= 0 {
                r.skip(p)
            } else {
                Seq::<char>::empty()
            },
        )
    }
}

pub proof fn lemma_tag_value_end(s: Seq<char>)
    ensures
        0 <= tag_value_end(s) <= s.len(),
{
}

pub proof fn lemma_parse_step_shorter(r: Seq<char>)
    requires
        r.len() > 0,
        !is_ws(r[0]),
    ensures
        parse_step(r).1.len() < r.len(),
{
    lemma_ws_index_bound(r);
    lemma_tag_value_end(r.skip(5));
    lemma_tag_value_end(r.skip(4));
}

/// The rules `Filter::parse_tag_filters` reads from `s`: `tag:V` includes
/// a tag, `tag-:V` excludes one, `tag~:V` matches tags by regex (dropped
/// when the regex does not compile), and any other whitespace-separated
/// token of the form `TAG:L` sets a minimum level; anything else is skipped.
pub open spec fn parse_filters(s: Seq<char>) -> Seq<TagFilterModel>
    decreases s.len(),
{
    let r = trim_start(s);
    proof {
        lemma_trim_start_len(s);
        if r.len() > 0 {
            lemma_parse_step_shorter(r);
        }
    }
    if r.len() == 0 {
        seq![]
    } else {
        parse_step(r).0 + parse_filters(parse_step(r).1)
    }
}

fn tag_value_end_exec(rest: &[char]) -> (e: usize)
    ensures
        e == tag_value_end(rest@),
        e <= rest.len(),
{
    let p1 = vec![' ', 't', 'a', 'g', '-', ':'];
    let p2 = vec![' ', 't', 'a', 'g', '~', ':'];
    let p3 = vec![' ', 't', 'a', 'g', ':'];
    assert(p1@ =~= seq![' '] + exclude_prefix());
    assert(p2@ =~= seq![' '] + regex_prefix());
    assert(p3@ =~= seq![' '] + include_prefix());
    let mut e = rest.len();
    let f1 = find(rest, &p1);
    proof {
        match f1 {
            Some(i) => lemma_find_index_first(rest@, p1@, i as int),
            None => lemma_find_index_none(rest@, p1@),
        }
    }
    if let Some(i) = f1 {
        if i < e {
            e = i;
        }
    }
    let f2 = find(rest, &p2);
    proof {
        match f2 {
            Some(i) => lemma_find_index_first(rest@, p2@, i as int),
            None => lemma_find_index_none(rest@, p2@),
        }
    }
    if let Some(i) = f2 {
        if i < e {
            e = i;
        }
    }
    let f3 = find(rest, &p3);
    proof {
        match f3 {
            Some(i) => lemma_find_index_first(rest@, p3@, i as int),
            None => lemma_find_index_none(rest@, p3@),
        }
    }
    if let Some(i) = f3 {
        if i < e {
            e = i;
        }
    }
    e
}

fn last_colon(s: &[char]) -> (r: Option<usize>)
    ensures
        match r {
            Some(q) => last_index_of(s@, ':') == q && q < s.len(),
            None => last_index_of(s@, ':') == -1,
        },
{
    let mut j = s.len();
    assert(s@.take(s.len() as int) =~= s@);
    while j > 0
        invariant
            j <= s.len(),
            last_index_of(s@, ':') == last_index_of(s@.take(j as int), ':'),
        decreases j,
    {
        let ghost t = s@.take(j as int);
        assert(t.last() == s@[j - 1]);
        if s[j - 1] == ':' {
            return Some(j - 1);
        }
        assert(t.drop_last() =~= s@.take(j - 1));
        j -= 1;
    }
    None
}

fn parse_min_level_filter(tok: &[char]) -> (r: Option<(TagLevelMatcher, LogLevel)>)
    ensures
        match r {
            Some((m, l)) => min_level_rule(tok@) == Some(TagFilterModel::MinLevel(m@, l)),
            None => min_level_rule(tok@) is None,
        },
{
    let q = match last_colon(tok) {
        Some(q) => q,
        None => return None,
    };
    let tag = slice_of(tok, 0, q);
    let level = slice_of(tok, q + 1, tok.len());
    assert(tag@ =~= tok@.take(q as int));
    assert(level@ =~= tok@.skip(q + 1));
    if tag.len() == 0 || byte_len_exec(&level) != 1 {
        return None;
    }
    proof {
        if level@.len() == 0 {
            assert(byte_len(level@) == 0);
        }
    }
    let c = to_upper_char(level[0]);
    let min_level = match LogLevel::from_char(c) {
        Some(l) => l,
        None => return None,
    };
    let star = vec!['*'];
    assert(star@ =~= seq!['*']);
    let matcher = if eq_chars(&tag, &star) {
        TagLevelMatcher::Any
    } else {
        TagLevelMatcher::Exact(string_from(&tag))
    };
    Some((matcher, min_level))
}

impl Filter {
    /// Parse a tag filter string in Android Studio syntax.
    pub fn parse_tag_filters(input: &str) -> (r: Vec<TagFilter>)
        ensures
            filters_view(r@) == parse_filters(input@),
    {
        let cs = chars_of(input);
        let mut out: Vec<TagFilter> = Vec::new();
        let mut i: usize = 0;
        assert(cs@.skip(0) =~= cs@);
        while i < cs.len()
            invariant
                i <= cs.len(),
                cs@ == input@,
                filters_view(out@) + parse_filters(cs@.skip(i as int)) == parse_filters(input@),
            decreases cs.len() - i,
        {
            let ghost before = filters_view(out@);
            let ghost s = cs@.skip(i as int);
            let j = trim_start_index_from(&cs, i);
            if j == cs.len() {
                assert(cs@.skip(j as int).len() == 0);
                assert(parse_filters(s) =~= Seq::<TagFilterModel>::empty());
                assert(parse_filters(cs@.skip(j as int)) =~= Seq::<TagFilterModel>::empty());
                assert(before + Seq::<TagFilterModel>::empty() =~= before);
                i = j;
            } else {
                let (rule, next) = parse_one(&cs, j);
                match rule {
                    Some(f) => {
                        out.push(f);
                    },
                    None => {},
                }
                assert(filters_view(out@) =~= before + parse_step(cs@.skip(j as int)).0);
                assert(before + parse_step(cs@.skip(j as int)).0 + parse_filters(cs@.skip(next as int))
                    =~= before + parse_filters(s));
                i = next;
            }
        }
        assert(parse_filters(cs@.skip(i as int)) =~= Seq::<TagFilterModel>::empty()) by {
            assert(cs@.skip(i as int).len() == 0);
        }
        assert(filters_view(out@) + Seq::<TagFilterModel>::empty() =~= filters_view(out@));
        out
    }
}

pub open spec fn opt_rule(o: Option<TagFilter>) -> Seq<TagFilterModel> {
    match o {
        Some(f) => seq![f@],
        None => seq![],
    }
}

proof fn lemma_prefix_at(cs: Seq<char>, j: int, p: Seq<char>)
    requires
        0 <= j <= cs.len(),
    ensures
        matches_at(cs, p, j) == starts_with(cs.skip(j), p),
{
    if j + p.len() <= cs.len() {
        assert(cs.subrange(j, j + p.len()) =~= cs.skip(j).take(p.len() as int));
    }
}

/// Reads one rule starting at `cs[j]`, a non-blank character.
fn parse_one(cs: &[char], j: usize) -> (r: (Option<TagFilter>, usize))
    requires
        j < cs.len(),
        !is_ws(cs@[j as int]),
    ensures
        opt_rule(r.0) == parse_step(cs@.skip(j as int)).0,
        cs@.skip(r.1 as int) == parse_step(cs@.skip(j as int)).1,
        j < r.1 <= cs.len(),
{
    let ghost r = cs@.skip(j as int);
    let excl = vec!['t', 'a', 'g', '-', ':'];
    let regx = vec!['t', 'a', 'g', '~', ':'];
    let incl = vec!['t', 'a', 'g', ':'];
    assert(excl@ =~= exclude_prefix());
    assert(regx@ =~= regex_prefix());
    assert(incl@ =~= include_prefix());
    let is_excl = matches_at_exec(cs, &excl, j);
    let is_regx = matches_at_exec(cs, &regx, j);
    let is_incl = matches_at_exec(cs, &incl, j);
    proof {
        lemma_prefix_at(cs@, j as int, exclude_prefix());
        lemma_prefix_at(cs@, j as int, regex_prefix());
        lemma_prefix_at(cs@, j as int, include_prefix());
        lemma_parse_step_shorter(r);
        assert(r[0] == cs@[j as int]);
    }
    if is_excl || is_regx || is_incl {
        let plen: usize = if is_excl || is_regx {
            5
        } else {
            4
        };
        let rest = slice_of(cs, j + plen, cs.len());
        assert(rest@ =~= r.skip(plen as int));
        let e = tag_value_end_exec(&rest);
        let v = slice_of(&rest, 0, e);
        assert(v@ =~= rest@.take(e as int));
        assert(rest@.skip(e as int) =~= cs@.skip(j + plen + e));
        let rule = if v.len() == 0 {
            None
        } else if is_excl {
            Some(TagFilter::Exclude(string_from(&v)))
        } else if is_regx {
            let vs = string_from(&v);
            match compile_regex(vs.as_str()) {
                Ok(re) => Some(TagFilter::Regex(re)),
                Err(_) => None,
            }
        } else {
            Some(TagFilter::Include(string_from(&v)))
        };
        assert(opt_rule(rule) =~= parse_step(r).0);
        (rule, j + plen + e)
    } else {
        let tok_end = match find_ws_from(cs, j) {
            Some(p) => p,
            None => cs.len(),
        };
        proof {
            assert forall|m: int| 0 <= m < tok_end - j implies !is_ws(#[trigger] r[m]) by {
                assert(r[m] == cs@[j + m]);
            }
            if tok_end < cs.len() {
                assert(r[tok_end - j] == cs@[tok_end as int]);
            }
            lemma_ws_index_exact(r, tok_end - j);
            assert(r.take(tok_end - j) =~= cs@.subrange(j as int, tok_end as int));
            assert(r.skip(tok_end - j) =~= cs@.skip(tok_end as int));
            if tok_end == cs.len() {
                assert(r =~= cs@.subrange(j as int, tok_end as int));
                assert(cs@.skip(tok_end as int) =~= Seq::<char>::empty());
            }
        }
        let tok = slice_of(cs, j, tok_end);
        let rule = match parse_min_level_filter(&tok) {
            Some((matcher, min_level)) => Some(TagFilter::MinLevel { matcher, min_level }),
            None => None,
        };
        assert(opt_rule(rule) =~= parse_step(r).0);
        (rule, tok_end)
    }
}

// ---------------------------------------------------------------------------
// The filter
// ---------------------------------------------------------------------------

/// Filter settings of a pane.
#[derive(Debug, Clone)]
pub struct Filter {
    pub min_level: LogLevel,
    pub package: Option<String>,
    pub ios_process: Option<String>,
    pub ios_subsystem: Option<String>,
    pub ios_category: Option<String>,
    pub tag_filters: Vec<TagFilter>,
    pub search_query: String,
    pub search_regex: Option<CompiledRegex>,
    pub hide_vendor_noise: bool,
}

impl Default for Filter {
    fn default() -> (f: Self)
        ensures
            f.min_level == LogLevel::Info,
            f.package is None,
            f.ios_process is None,
            f.ios_subsystem is None,
            f.ios_category is None,
            f.tag_filters@.len() == 0,
            f.search_query@.len() == 0,
            f.search_regex is None,
            f.hide_vendor_noise,
    {
        Filter {
            min_level: LogLevel::Info,
            package: None,
            ios_process: None,
            ios_subsystem: None,
            ios_category: None,
            tag_filters: Vec::new(),
            search_query: String::new(),
            search_regex: None,
            hide_vendor_noise: true,
        }
    }
}

/// Vendor and system tags that flood logcat.
pub open spec fn vendor_tags() -> Seq<Seq<char>> {
    seq!["chatty"@, "hwservicemanager"@, "ServiceManager"@, "HidlServiceManagement"@, "SELinux"@, "storaged"@, "Zygote"@, "ActivityThread"@, "gralloc"@, "BufferQueueProducer"@, "GraphicBufferSource"@, "SurfaceFlinger"@, "InputDispatcher"@, "InputReader"@, "InputTransport"@, "MediaCodec"@, "OMXClient"@, "PlatformConfig"@, "SensorService"@, "SensorManager"@, "netd"@, "resolv"@, "DnsProxyListener"@, "cutils-trace"@, "Looper"@, "PropertyManager"@, "vndksupport"@, "linker"@, "libc"@, "StatusBarIconController"@, "PhoneStatusBarPolicy"@, "cnss-daemon"@, "wificond"@, "WifiHAL"@, "audit"@, "thermal_repeater"@, "ThermalEngine"@, "adbd"@, "usbd"@, "lowmemorykiller"@, "lmkd"@, "perfetto"@, "traced_probes"@, "traced"@, "statsd"@]
}

pub open spec fn is_vendor_tag(tag: Seq<char>) -> bool {
    exists|i: int| 0 <= i < vendor_tags().len() && #[trigger] vendor_tags()[i] == tag
}

pub fn vendor_tag_list() -> (v: Vec<&'static str>)
    ensures
        v@.len() == vendor_tags().len(),
        forall|i: int| 0 <= i < v@.len() ==> #[trigger] v@[i]@ == vendor_tags()[i],
{
    vec!["chatty", "hwservicemanager", "ServiceManager", "HidlServiceManagement", "SELinux", "storaged", "Zygote", "ActivityThread", "gralloc", "BufferQueueProducer", "GraphicBufferSource", "SurfaceFlinger", "InputDispatcher", "InputReader", "InputTransport", "MediaCodec", "OMXClient", "PlatformConfig", "SensorService", "SensorManager", "netd", "resolv", "DnsProxyListener", "cutils-trace", "Looper", "PropertyManager", "vndksupport", "linker", "libc", "StatusBarIconController", "PhoneStatusBarPolicy", "cnss-daemon", "wificond", "WifiHAL", "audit", "thermal_repeater", "ThermalEngine", "adbd", "usbd", "lowmemorykiller", "lmkd", "perfetto", "traced_probes", "traced", "statsd"]
}

fn is_vendor_tag_exec(tag: &[char]) -> (b: bool)
    ensures
        b == is_vendor_tag(tag@),
{
    let list = vendor_tag_list();
    let mut i: usize = 0;
    while i < list.len()
        invariant
            i <= list@.len() == vendor_tags().len(),
            forall|k: int| 0 <= k < list@.len() ==> #[trigger] list@[k]@ == vendor_tags()[k],
            forall|k: int| 0 <= k < i ==> #[trigger] vendor_tags()[k] != tag@,
        decreases list.len() - i,
    {
        if chars_eq_str(tag, list[i]) {
            assert(vendor_tags()[i as int] == tag@);
            return true;
        }
        i += 1;
    }
    false
}

/// The level set by the last exact-tag rule for `tag`.
pub open spec fn exact_level(fs: Seq<TagFilterModel>, tag: Seq<char>) -> Option<LogLevel>
    decreases fs.len(),
{
    if fs.len() == 0 {
        None
    } else {
        match fs.last() {
            TagFilterModel::MinLevel(MatcherModel::Exact(t), l) => if t == tag {
                Some(l)
            } else {
                exact_level(fs.drop_last(), tag)
            },
            _ => exact_level(fs.drop_last(), tag),
        }
    }
}

/// The level set by the last `*:L` rule.
pub open spec fn wildcard_level(fs: Seq<TagFilterModel>) -> Option<LogLevel>
    decreases fs.len(),
{
    if fs.len() == 0 {
        None
    } else {
        match fs.last() {
            TagFilterModel::MinLevel(MatcherModel::Any, l) => Some(l),
            _ => wildcard_level(fs.drop_last()),
        }
    }
}

/// The minimum level an entry with `tag` must reach: an exact tag rule wins
/// over a wildcard rule, which wins over the filter's own minimum.
pub open spec fn effective_level(fs: Seq<TagFilterModel>, tag: Seq<char>, base: LogLevel) -> LogLevel {
    match exact_level(fs, tag) {
        Some(l) => l,
        None => match wildcard_level(fs) {
            Some(l) => l,
            None => base,
        },
    }
}

pub open spec fn is_excluded(fs: Seq<TagFilterModel>, tag: Seq<char>) -> bool {
    exists|i: int| 0 <= i < fs.len() && #[trigger] fs[i] == TagFilterModel::Exclude(tag)
}

pub open spec fn is_include_rule(f: TagFilterModel) -> bool {
    f is Include || f is Regex
}

pub open spec fn has_include(fs: Seq<TagFilterModel>) -> bool {
    exists|i: int| 0 <= i < fs.len() && is_include_rule(#[trigger] fs[i])
}

pub open spec fn rule_includes(f: TagFilterModel, tag: Seq<char>) -> bool {
    match f {
        TagFilterModel::Include(n) => n == tag,
        TagFilterModel::Regex(p) => regex_is_match(p, tag),
        _ => false,
    }
}

pub open spec fn include_hit(fs: Seq<TagFilterModel>, tag: Seq<char>) -> bool {
    exists|i: int| 0 <= i < fs.len() && rule_includes(#[trigger] fs[i], tag)
}

/// The tag rules let `tag` through: no exclude rule names it, and when
/// there are has_inc or regex rules, one of them accepts it.
pub open spec fn tags_pass(fs: Seq<TagFilterModel>, tag: Seq<char>) -> bool {
    !is_excluded(fs, tag) && (!has_include(fs) || include_hit(fs, tag))
}

pub open spec fn is_explicit_rule(f: TagFilterModel) -> bool {
    f is Include || f is Regex || f is MinLevel
}

pub open spec fn has_explicit_tag_rules(fs: Seq<TagFilterModel>) -> bool {
    exists|i: int| 0 <= i < fs.len() && is_explicit_rule(#[trigger] fs[i])
}

/// An optional substring filter: a blank needle accepts everything,
/// otherwise the field must be present and contain it, ignoring ASCII case.
pub open spec fn optional_contains(needle: Option<Seq<char>>, haystack: Option<Seq<char>>) -> bool {
    match needle {
        None => true,
        Some(n) => if trim(n).len() == 0 {
            true
        } else {
            match haystack {
                None => false,
                Some(h) => contains(lower(h), lower(trim(n))),
            }
        },
    }
}

pub open spec fn non_blank(o: Option<Seq<char>>) -> bool {
    match o {
        Some(v) => trim(v).len() > 0,
        None => false,
    }
}

/// A log of the iOS system rather than of an app.
pub open spec fn is_ios_device_log(e: EntryModel) -> bool {
    (match e.subsystem {
        Some(s) => spec_is_system_subsystem(s),
        None => false,
    }) || (match e.process {
        Some(p) => spec_is_system_process(p),
        None => false,
    }) || (e.process is None && e.subsystem is None && e.tag == "iOS"@)
}

impl Filter {
    pub open spec fn rules(&self) -> Seq<TagFilterModel> {
        filters_view(self.tag_filters@)
    }

    pub open spec fn has_explicit_ios(&self) -> bool {
        non_blank(opt_view(self.ios_process)) || non_blank(opt_view(self.ios_subsystem))
            || non_blank(opt_view(self.ios_category))
    }

    /// Entry hidden as vendor or system noise.
    pub open spec fn is_noise(&self, e: EntryModel) -> bool {
        self.hide_vendor_noise && !has_explicit_tag_rules(self.rules()) && match e.platform {
            LogPlatform::Android => is_vendor_tag(e.tag),
            LogPlatform::Ios => !self.has_explicit_ios() && is_ios_device_log(e),
        }
    }

    /// Whether the filter shows `e` (optionally only for process `pid`).
    pub open spec fn accepts(&self, e: EntryModel, pid_filter: Option<u32>) -> bool {
        &&& level_rank(e.level) >= level_rank(effective_level(self.rules(), e.tag, self.min_level))
        &&& (pid_filter matches Some(p) ==> e.pid == Some(p))
        &&& optional_contains(opt_view(self.ios_process), e.process)
        &&& optional_contains(opt_view(self.ios_subsystem), e.subsystem)
        &&& optional_contains(opt_view(self.ios_category), e.category)
        &&& !self.is_noise(e)
        &&& tags_pass(self.rules(), e.tag)
    }

    fn effective_min_level(&self, entry: &LogEntry) -> (l: LogLevel)
        ensures
            l == effective_level(self.rules(), entry.tag@, self.min_level),
    {
        let tag = chars_of(entry.tag.as_str());
        let mut exact: Option<LogLevel> = None;
        let mut wildcard: Option<LogLevel> = None;
        let mut i: usize = 0;
        assert(self.rules().take(0) =~= Seq::<TagFilterModel>::empty());
        while i < self.tag_filters.len()
            invariant
                i <= self.tag_filters@.len(),
                tag@ == entry.tag@,
                exact == exact_level(self.rules().take(i as int), entry.tag@),
                wildcard == wildcard_level(self.rules().take(i as int)),
            decreases self.tag_filters.len() - i,
        {
            let ghost t = self.rules().take(i + 1);
            assert(t.drop_last() =~= self.rules().take(i as int));
            assert(t.last() == self.tag_filters@[i as int]@);
            match &self.tag_filters[i] {
                TagFilter::MinLevel { matcher, min_level } => match matcher {
                    TagLevelMatcher::Exact(t) => {
                        let tc = chars_of(t.as_str());
                        if eq_chars(&tc, &tag) {
                            exact = Some(*min_level);
                        }
                    },
                    TagLevelMatcher::Any => {
                        wildcard = Some(*min_level);
                    },
                },
                _ => {},
            }
            i += 1;
        }
        assert(self.rules().take(i as int) =~= self.rules());
        match exact {
            Some(l) => l,
            None => match wildcard {
                Some(l) => l,
                None => self.min_level,
            },
        }
    }

    fn has_explicit_tag_filters(&self) -> (b: bool)
        ensures
            b == has_explicit_tag_rules(self.rules()),
    {
        let mut i: usize = 0;
        while i < self.tag_filters.len()
            invariant
                i <= self.tag_filters@.len(),
                forall|k: int| 0 <= k < i ==> !is_explicit_rule(#[trigger] self.rules()[k]),
            decreases self.tag_filters.len() - i,
        {
            match &self.tag_filters[i] {
                TagFilter::Exclude(_) => {},
                _ => {
                    assert(is_explicit_rule(self.rules()[i as int]));
                    return true;
                },
            }
            i += 1;
        }
        false
    }

    fn has_explicit_ios_filters(&self) -> (b: bool)
        ensures
            b == self.has_explicit_ios(),
    {
        is_non_blank(&self.ios_process) || is_non_blank(&self.ios_subsystem) || is_non_blank(
            &self.ios_category,
        )
    }

    fn matches_ios_fields(&self, entry: &LogEntry) -> (b: bool)
        ensures
            b == (optional_contains(opt_view(self.ios_process), entry@.process)
                && optional_contains(opt_view(self.ios_subsystem), entry@.subsystem)
                && optional_contains(opt_view(self.ios_category), entry@.category)),
    {
        matches_optional_contains(&self.ios_process, &entry.process) && matches_optional_contains(
            &self.ios_subsystem,
            &entry.subsystem,
        ) && matches_optional_contains(&self.ios_category, &entry.category)
    }

    fn tag_rules_pass(&self, tag: &str) -> (b: bool)
        ensures
            b == tags_pass(self.rules(), tag@),
    {
        let tc = chars_of(tag);
        let mut excluded = false;
        let mut has_inc = false;
        let mut hit = false;
        let mut i: usize = 0;
        while i < self.tag_filters.len()
            invariant
                i <= self.tag_filters@.len(),
                tc@ == tag@,
                excluded == exists|k: int| 0 <= k < i && #[trigger] self.rules()[k] == TagFilterModel::Exclude(tag@),
                has_inc == exists|k: int| 0 <= k < i && is_include_rule(#[trigger] self.rules()[k]),
                hit == exists|k: int| 0 <= k < i && rule_includes(#[trigger] self.rules()[k], tag@),
            decreases self.tag_filters.len() - i,
        {
            let ghost m = self.rules()[i as int];
            match &self.tag_filters[i] {
                TagFilter::Exclude(name) => {
                    let nc = chars_of(name.as_str());
                    if eq_chars(&nc, &tc) {
                        excluded = true;
                    }
                },
                TagFilter::Include(name) => {
                    has_inc = true;
                    let nc = chars_of(name.as_str());
                    if eq_chars(&nc, &tc) {
                        hit = true;
                    }
                },
                TagFilter::Regex(re) => {
                    has_inc = true;
                    if regex_matches(re, tag) {
                        hit = true;
                    }
                },
                TagFilter::MinLevel { .. } => {},
            }
            proof {
                assert forall|k: int| 0 <= k < i + 1 && #[trigger] self.rules()[k] == TagFilterModel::Exclude(tag@) implies k < i || m == TagFilterModel::Exclude(tag@) by {}
            }
            i += 1;
        }
        !excluded && (!has_inc || hit)
    }

    /// Whether the filter shows `entry` (optionally only for process `pid_filter`).
    pub fn matches(&self, entry: &LogEntry, pid_filter: Option<u32>) -> (b: bool)
        ensures
            b == self.accepts(entry@, pid_filter),
    {
        if entry.level.is_below(self.effective_min_level(entry)) {
            return false;
        }
        if let Some(pid) = pid_filter {
            match entry.pid {
                Some(p) => {
                    if p != pid {
                        return false;
                    }
                },
                None => {
                    return false;
                },
            }
        }
        if !self.matches_ios_fields(entry) {
            return false;
        }
        if self.hide_vendor_noise && !self.has_explicit_tag_filters() {
            match entry.platform {
                LogPlatform::Android => {
                    let tc = chars_of(entry.tag.as_str());
                    if is_vendor_tag_exec(&tc) {
                        return false;
                    }
                },
                LogPlatform::Ios => {
                    if !self.has_explicit_ios_filters() && is_ios_device_log_exec(entry) {
                        return false;
                    }
                },
            }
        }
        self.tag_rules_pass(entry.tag.as_str())
    }

    /// Whether the search finds the entry: its pattern matches the message,
    /// tag, process, subsystem or category (always, without a search).
    pub open spec fn search_finds(&self, entry: LogEntry) -> bool {
        match self.search_regex {
            None => true,
            Some(re) => regex_is_match(re.pattern(), entry.message@) || regex_is_match(
                re.pattern(),
                entry.tag@,
            ) || (match entry.process {
                Some(v) => regex_is_match(re.pattern(), v@),
                None => false,
            }) || (match entry.subsystem {
                Some(v) => regex_is_match(re.pattern(), v@),
                None => false,
            }) || (match entry.category {
                Some(v) => regex_is_match(re.pattern(), v@),
                None => false,
            }),
        }
    }

    /// Whether the search text occurs in the entry's message, tag, process,
    /// subsystem or category (always true without a search).
    pub fn matches_search(&self, entry: &LogEntry) -> (b: bool)
        ensures
            b == self.search_finds(*entry),
    {
        match &self.search_regex {
            None => true,
            Some(re) => {
                regex_matches(re, entry.message.as_str()) || regex_matches(re, entry.tag.as_str())
                    || (match &entry.process {
                    Some(v) => regex_matches(re, v.as_str()),
                    None => false,
                }) || (match &entry.subsystem {
                    Some(v) => regex_matches(re, v.as_str()),
                    None => false,
                }) || (match &entry.category {
                    Some(v) => regex_matches(re, v.as_str()),
                    None => false,
                })
            },
        }
    }

    /// Set the search text; the search matches it literally, ignoring case.
    pub fn set_search(&mut self, query: &str)
        ensures
            search_set(*old(self), *final(self), query@),
    {
        self.search_query = query.to_string();
        if query.is_empty() {
            self.search_regex = None;
        } else {
            let mut pat = "(?i)".to_string();
            let esc = escape_regex(query);
            pat.append(esc.as_str());
            self.search_regex = match compile_regex(pat.as_str()) {
                Ok(re) => Some(re),
                Err(_) => None,
            };
        }
    }
}

/// `after` is `before` searching for `query`: the query is kept, and the
/// search is its case-insensitive literal pattern when that compiles (none
/// for an empty query); the other settings stay.
pub open spec fn search_set(before: Filter, after: Filter, query: Seq<char>) -> bool {
    &&& after.search_query@ == query
    &&& query.len() == 0 ==> after.search_regex is None
    &&& query.len() > 0 ==> (after.search_regex is Some <==> regex_compiles(search_pattern(query)))
    &&& after.search_regex matches Some(re) ==> re.pattern() == search_pattern(query)
    &&& after.min_level == before.min_level
    &&& after.package == before.package
    &&& after.ios_process == before.ios_process
    &&& after.ios_subsystem == before.ios_subsystem
    &&& after.ios_category == before.ios_category
    &&& after.tag_filters == before.tag_filters
    &&& after.hide_vendor_noise == before.hide_vendor_noise
}

/// The regex a search for `query` compiles: case-insensitive, `query` escaped.
pub open spec fn search_pattern(query: Seq<char>) -> Seq<char> {
    "(?i)"@ + escaped(query)
}

fn is_non_blank(o: &Option<String>) -> (b: bool)
    ensures
        b == non_blank(opt_view(*o)),
{
    match o {
        Some(v) => {
            let t = trim_str(v.as_str());
            !t.as_str().is_empty()
        },
        None => false,
    }
}

fn matches_optional_contains(needle: &Option<String>, haystack: &Option<String>) -> (b: bool)
    ensures
        b == optional_contains(opt_view(*needle), opt_view(*haystack)),
{
    match needle {
        None => true,
        Some(n) => {
            let nc = chars_of(n.as_str());
            let t = trim_chars(&nc);
            if t.len() == 0 {
                return true;
            }
            match haystack {
                None => false,
                Some(h) => {
                    let hc = chars_of(h.as_str());
                    let hl = lower_chars(&hc);
                    let tl = lower_chars(&t);
                    contains_exec(&hl, &tl)
                },
            }
        },
    }
}

fn is_ios_device_log_exec(entry: &LogEntry) -> (b: bool)
    ensures
        b == is_ios_device_log(entry@),
{
    let a = match &entry.subsystem {
        Some(s) => is_ios_system_subsystem(s.as_str()),
        None => false,
    };
    let b = match &entry.process {
        Some(p) => is_ios_system_process(p.as_str()),
        None => false,
    };
    let c = entry.process.is_none() && entry.subsystem.is_none() && str_eq(entry.tag.as_str(), "iOS");
    a || b || c
}

} // verus!

verus! {

/// The include, exclude and regex rules let a tag through exactly when no
/// exclude rule names it and, if there are include or regex rules at all,
/// at least one of them accepts it: an include rule naming the tag, or a
/// regex rule matching it. Other include rules do not matter.
pub proof fn law_tag_rules(fs: Seq<TagFilterModel>, tag: Seq<char>)
    ensures
        tags_pass(fs, tag) <==> {
            &&& forall|j: int| 0 <= j < fs.len() ==> #[trigger] fs[j] != TagFilterModel::Exclude(tag)
            &&& {
                ||| forall|j: int| 0 <= j < fs.len() ==> !(#[trigger] fs[j] is Include) && !(fs[j] is Regex)
                ||| exists|j: int|
                    0 <= j < fs.len() && (#[trigger] fs[j] == TagFilterModel::Include(tag) || (fs[j] matches TagFilterModel::Regex(p)
                        && regex_is_match(p, tag)))
            }
        },
{
    if include_hit(fs, tag) {
        let i = choose|i: int| 0 <= i < fs.len() && rule_includes(#[trigger] fs[i], tag);
        assert(fs[i] == TagFilterModel::Include(tag) || (fs[i] matches TagFilterModel::Regex(p) && regex_is_match(p, tag)));
    }
    if exists|j: int|
        0 <= j < fs.len() && (#[trigger] fs[j] == TagFilterModel::Include(tag) || (fs[j] matches TagFilterModel::Regex(p)
            && regex_is_match(p, tag))) {
        let j = choose|j: int|
            0 <= j < fs.len() && (#[trigger] fs[j] == TagFilterModel::Include(tag) || (fs[j] matches TagFilterModel::Regex(p)
                && regex_is_match(p, tag)));
        assert(rule_includes(fs[j], tag));
        assert(is_include_rule(fs[j]));
    }
    if has_include(fs) {
        let i = choose|i: int| 0 <= i < fs.len() && is_include_rule(#[trigger] fs[i]);
        assert(fs[i] is Include || fs[i] is Regex);
    }
}

} // verus!
