//! What a pane's toolbar and tag bar do: the device label, the package
//! picker and its suggestions, the level selector, the line count, the
//! follow / wrap / pause toggles, and tag input with its suggestions,
//! history and clearing.
use vstd::prelude::*;
use crate::capture::{ConnectedDevice, platform_label};
use crate::filter::{Filter, filters_view, parse_filters};
use crate::log_entry::{LogLevel, level_label};
use crate::pane::Pane;
use crate::workspace::{first_with_id, has_id};
use crate::tag_completion::{extract_partial_tag_value, replace_partial_tag_value, tag_value_range, needs_level_separator, token_cut_is_boundary};
use crate::text::{contains, contains_ignoring_case, decimal, push_decimal, str_eq, sviews, to_lowercase, unicode_lower};

verus! {

/// Package suggestions shown for an empty package input.
pub const PACKAGE_LIST_LIMIT: usize = 20;

/// Package suggestions shown for a typed package filter.
pub const PACKAGE_MATCH_LIMIT: usize = 15;

/// Tag suggestions shown at most.
pub const TAG_SUGGESTION_LIMIT: usize = 10;

/// The first `n` of `s` (all of it when shorter).
pub open spec fn first_n(s: Seq<Seq<char>>, n: nat) -> Seq<Seq<char>> {
    if s.len() <= n {
        s
    } else {
        s.take(n as int)
    }
}

proof fn lemma_first_n_push(s: Seq<Seq<char>>, x: Seq<char>, n: nat)
    ensures
        first_n(s.push(x), n) == if s.len() < n {
            first_n(s, n).push(x)
        } else {
            first_n(s, n)
        },
{
    if s.len() >= n {
        assert(s.push(x).take(n as int) =~= first_n(s, n));
    }
}

/// Packages whose lowercased name contains `filter` (lowercased).
pub open spec fn package_keep(filter: Seq<char>) -> spec_fn(Seq<char>) -> bool {
    |p: Seq<char>| contains(unicode_lower(p), unicode_lower(filter))
}

/// The packages the picker offers for `filter`: the first
/// `PACKAGE_LIST_LIMIT` when it is empty, else the first
/// `PACKAGE_MATCH_LIMIT` that contain it, ignoring case.
pub open spec fn package_matches(packages: Seq<Seq<char>>, filter: Seq<char>) -> Seq<Seq<char>> {
    if unicode_lower(filter).len() == 0 {
        first_n(packages, PACKAGE_LIST_LIMIT as nat)
    } else {
        first_n(packages.filter(package_keep(filter)), PACKAGE_MATCH_LIMIT as nat)
    }
}

/// The packages the picker offers for the typed `filter`.
pub fn matching_packages(packages: &Vec<String>, filter: &str) -> (r: Vec<String>)
    ensures
        sviews(r@) == package_matches(sviews(packages@), filter@),
{
    let lower = to_lowercase(filter);
    let everything = lower.as_str().is_empty();
    let ghost all = sviews(packages@);
    let ghost keep = package_keep(filter@);
    let mut r: Vec<String> = Vec::new();
    let mut i: usize = 0;
    while i < packages.len()
        invariant
            i <= packages@.len(),
            all == sviews(packages@),
            keep == package_keep(filter@),
            everything == (unicode_lower(filter@).len() == 0),
            everything ==> sviews(r@) == first_n(all.take(i as int), PACKAGE_LIST_LIMIT as nat),
            !everything ==> sviews(r@) == first_n(all.take(i as int).filter(keep), PACKAGE_MATCH_LIMIT as nat),
        decreases packages@.len() - i,
    {
        let ghost before = sviews(r@);
        let p = &packages[i];
        assert(all.take(i + 1) =~= all.take(i as int).push(all[i as int]));
        if everything {
            proof {
                lemma_first_n_push(all.take(i as int), all[i as int], PACKAGE_LIST_LIMIT as nat);
            }
            if r.len() < PACKAGE_LIST_LIMIT {
                r.push(p.clone());
                assert(sviews(r@) =~= before.push(all[i as int]));
            }
        } else {
            proof {
                all.take(i as int).lemma_filter_push(all[i as int], keep);
                lemma_first_n_push(all.take(i as int).filter(keep), all[i as int], PACKAGE_MATCH_LIMIT as nat);
            }
            if contains_ignoring_case(p.as_str(), filter) && r.len() < PACKAGE_MATCH_LIMIT {
                r.push(p.clone());
                assert(sviews(r@) =~= before.push(all[i as int]));
            }
        }
        i += 1;
    }
    assert(all.take(i as int) =~= all);
    r
}

/// The text the tag suggestions complete: the partial tag being typed.
pub open spec fn partial_tag(input: Seq<char>) -> Seq<char> {
    match tag_value_range(input) {
        Some((a, b)) => input.subrange(a, b),
        None => Seq::empty(),
    }
}

pub open spec fn tag_keep(partial: Seq<char>) -> spec_fn(Seq<char>) -> bool {
    |t: Seq<char>| contains(unicode_lower(t), unicode_lower(partial)) && unicode_lower(t) != unicode_lower(partial)
}

/// The seen tags suggested for the tag input: the first
/// `TAG_SUGGESTION_LIMIT` that contain the partial tag being typed,
/// ignoring case, other than the partial tag itself.
pub open spec fn tag_suggestion_list(input: Seq<char>, seen: Seq<Seq<char>>) -> Seq<Seq<char>> {
    if input.len() == 0 || partial_tag(input).len() == 0 {
        Seq::empty()
    } else {
        first_n(seen.filter(tag_keep(partial_tag(input))), TAG_SUGGESTION_LIMIT as nat)
    }
}

/// The seen tags suggested while `input` is typed.
pub fn tag_suggestions(input: &str, seen: &Vec<String>) -> (r: Vec<String>)
    requires
        token_cut_is_boundary(input@),
    ensures
        sviews(r@) == tag_suggestion_list(input@, sviews(seen@)),
{
    let mut r: Vec<String> = Vec::new();
    if input.is_empty() {
        assert(sviews(r@) =~= Seq::<Seq<char>>::empty());
        return r;
    }
    let partial = extract_partial_tag_value(input);
    if partial.as_str().is_empty() {
        assert(sviews(r@) =~= Seq::<Seq<char>>::empty());
        return r;
    }
    let partial_lower = to_lowercase(partial.as_str());
    let ghost all = sviews(seen@);
    let ghost keep = tag_keep(partial@);
    assert(sviews(r@) =~= first_n(all.take(0).filter(keep), TAG_SUGGESTION_LIMIT as nat));
    let mut i: usize = 0;
    while i < seen.len()
        invariant
            i <= seen@.len(),
            all == sviews(seen@),
            keep == tag_keep(partial@),
            partial_lower@ == unicode_lower(partial@),
            sviews(r@) == first_n(all.take(i as int).filter(keep), TAG_SUGGESTION_LIMIT as nat),
        decreases seen@.len() - i,
    {
        let ghost before = sviews(r@);
        let t = &seen[i];
        assert(all.take(i + 1) =~= all.take(i as int).push(all[i as int]));
        proof {
            all.take(i as int).lemma_filter_push(all[i as int], keep);
            lemma_first_n_push(all.take(i as int).filter(keep), all[i as int], TAG_SUGGESTION_LIMIT as nat);
        }
        let tl = to_lowercase(t.as_str());
        if contains_ignoring_case(t.as_str(), partial.as_str()) && !str_eq(tl.as_str(), partial_lower.as_str())
            && r.len() < TAG_SUGGESTION_LIMIT {
            r.push(t.clone());
            assert(sviews(r@) =~= before.push(all[i as int]));
        }
        i += 1;
    }
    assert(all.take(i as int) =~= all);
    r
}

/// The suggestion below the keyboard cursor after Down: the next, wrapping
/// to the first (from no cursor, -1, the first).
pub fn cursor_down(index: i32, len: usize) -> (r: i32)
    requires
        0 < len <= i32::MAX,
        index < i32::MAX,
    ensures
        0 <= r < len,
        index >= -1 ==> r == (index + 1) % (len as int),
{
    ((index + 1) as usize % len) as i32
}

/// The suggestion below the keyboard cursor after Up: the previous,
/// wrapping to the last.
pub fn cursor_up(index: i32, len: usize) -> (r: i32)
    requires
        0 < len <= i32::MAX,
    ensures
        r == if index <= 0 {
            len - 1
        } else {
            index - 1
        },
{
    if index <= 0 {
        len as i32 - 1
    } else {
        index - 1
    }
}

/// The tag suggestion Enter accepts: the one under the cursor, else the
/// first.
pub fn suggestion_pick(index: i32, len: usize) -> (r: usize)
    ensures
        r == if 0 <= index < len {
            index as usize
        } else {
            0
        },
{
    if index >= 0 && (index as usize) < len {
        index as usize
    } else {
        0
    }
}

/// The package Enter chooses: the one under the cursor (the first without a
/// cursor), when there is one.
pub fn package_pick(index: i32, len: usize) -> (r: Option<usize>)
    ensures
        r == (if index >= 0 {
            if index < len {
                Some(index as usize)
            } else {
                None
            }
        } else if len > 0 {
            Some(0usize)
        } else {
            None
        }),
{
    let idx: usize = if index >= 0 {
        index as usize
    } else {
        0
    };
    if idx < len {
        Some(idx)
    } else {
        None
    }
}

/// How the device selector names a pane's device: the display name of the
/// first connected device with its id, else `"No device"`.
pub fn device_label(device: &Option<String>, devices: &[ConnectedDevice]) -> (s: String)
    ensures
        device is None ==> s@ == "No device"@,
        device matches Some(d) ==> if has_id(devices@, d@) {
            exists|i: int|
                #[trigger] first_with_id(devices@, d@, i) && s@ == devices@[i].name@ + " ("@
                    + platform_label(devices@[i].platform) + ")"@
        } else {
            s@ == "No device"@
        },
{
    if let Some(d) = device {
        let mut i: usize = 0;
        while i < devices.len()
            invariant
                i <= devices@.len(),
                *device == Some(*d),
                forall|j: int| 0 <= j < i ==> (#[trigger] devices@[j]).id@ != d@,
            decreases devices@.len() - i,
        {
            if str_eq(devices[i].id.as_str(), d.as_str()) {
                let s = devices[i].display_name();
                assert(first_with_id(devices@, d@, i as int));
                return s;
            }
            i += 1;
        }
    }
    "No device".to_string()
}

/// The level selector's text: `"≥ <level>"`.
pub fn level_selector_text(level: LogLevel) -> (s: String)
    ensures
        s@ == "≥ "@ + level_label(level),
{
    let mut s = "≥ ".to_string();
    s.append(level.label());
    s
}

impl Pane {
    /// The toolbar's line count: `"<n> lines"` when everything is shown,
    /// else `"<shown> of <all>"`.
    pub fn count_text(&self) -> (s: String)
        ensures
            s@ == if self.filtered_indices@.len() == self.entries@.len() {
                decimal(self.entries@.len()) + " lines"@
            } else {
                decimal(self.filtered_indices@.len()) + " of "@ + decimal(self.entries@.len())
            },
    {
        let total = self.entries.len();
        let shown = self.filtered_indices.len();
        let mut s = String::new();
        if shown == total {
            push_decimal(&mut s, total as u64);
            s.append(" lines");
        } else {
            push_decimal(&mut s, shown as u64);
            s.append(" of ");
            push_decimal(&mut s, total as u64);
        }
        s
    }

    /// The follow button: stop following, or follow and jump to the bottom.
    pub fn toggle_follow(&mut self)
        ensures
            old(self).auto_scroll ==> *final(self) == (Pane { auto_scroll: false, ..*old(self) }),
            !old(self).auto_scroll ==> *final(self) == (Pane {
                auto_scroll: true,
                scroll_to_bottom: true,
                ..*old(self)
            }),
    {
        if self.auto_scroll {
            self.auto_scroll = false;
        } else {
            self.auto_scroll = true;
            self.scroll_to_bottom = true;
        }
    }

    /// The wrap button: switch word wrap and jump to the bottom (the scroll
    /// position of one mode means nothing in the other).
    pub fn toggle_word_wrap(&mut self)
        ensures
            *final(self) == (Pane { word_wrap: !old(self).word_wrap, scroll_to_bottom: true, ..*old(self) }),
    {
        self.word_wrap = !self.word_wrap;
        self.scroll_to_bottom = true;
    }

    /// The pause button.
    pub fn toggle_pause(&mut self)
        ensures
            *final(self) == (Pane { paused: !old(self).paused, ..*old(self) }),
    {
        self.paused = !self.paused;
    }

    /// A level picked in the level selector: the filter takes it and the
    /// shown entries are recomputed.
    pub fn set_min_level(&mut self, level: LogLevel)
        ensures
            final(self).filter.min_level == level,
            final(self).refiltered(Pane { filter: Filter { min_level: level, ..old(self).filter }, ..*old(self) }),
            old(self).detector_idle() ==> final(self).wf(),
    {
        self.filter.min_level = level;
        self.rebuild_filtered();
    }

    /// The package input got focus: with no package list yet (and a device),
    /// ask for one and drop the keyboard cursor.
    pub fn package_input_focused(&mut self)
        ensures
            old(self).packages@.len() == 0 && old(self).device is Some ==> *final(self) == (Pane {
                package_refresh_pending: true,
                pkg_selection_index: -1i32,
                ..*old(self)
            }),
            !(old(self).packages@.len() == 0 && old(self).device is Some) ==> *final(self) == *old(self),
    {
        if self.packages.len() == 0 && self.device.is_some() {
            self.package_refresh_pending = true;
            self.pkg_selection_index = -1;
        }
    }

    /// The package input was edited: the cursor goes to the first
    /// suggestion; emptied while a package filter is set, the package and
    /// PID filters are dropped and the shown entries recomputed.
    pub fn package_input_changed(&mut self)
        ensures
            final(self).pkg_selection_index == 0,
            (old(self).package_filter_text@.len() == 0 && old(self).filter.package is Some) ==> (
                final(self).filter.package is None && final(self).pid_filter is None && final(self).refiltered(
                Pane {
                    filter: Filter { package: None, ..old(self).filter },
                    pid_filter: None,
                    pkg_selection_index: 0,
                    ..*old(self)
                },
            ) && (old(self).detector_idle() ==> final(self).wf())),
            !(old(self).package_filter_text@.len() == 0 && old(self).filter.package is Some) ==> *final(self)
                == (Pane { pkg_selection_index: 0, ..*old(self) }),
    {
        self.pkg_selection_index = 0;
        if self.package_filter_text.as_str().is_empty() && self.filter.package.is_some() {
            self.filter.package = None;
            self.pid_filter = None;
            self.rebuild_filtered();
        }
    }

    /// A package chosen in the picker: it becomes the package filter and the
    /// input's text, and its PID is to be looked up.
    pub fn choose_package(&mut self, package: String)
        ensures
            *final(self) == (Pane {
                filter: Filter { package: Some(package), ..old(self).filter },
                package_filter_text: package,
                pkg_selection_index: -1i32,
                package_refresh_pending: true,
                ..*old(self)
            }),
    {
        self.filter.package = Some(package.clone());
        self.package_filter_text = package;
        self.pkg_selection_index = -1;
        self.package_refresh_pending = true;
    }

    /// The picker's "Clear filter" (or Escape): no package or PID filter, an
    /// empty input, and the shown entries recomputed.
    pub fn clear_package_filter(&mut self)
        ensures
            final(self).filter.package is None,
            final(self).pid_filter is None,
            final(self).package_filter_text@.len() == 0,
            final(self).pkg_selection_index == -1,
            final(self).refiltered(
                Pane {
                    filter: Filter { package: None, ..old(self).filter },
                    pid_filter: None,
                    package_filter_text: final(self).package_filter_text,
                    pkg_selection_index: -1i32,
                    ..*old(self)
                },
            ),
            old(self).detector_idle() ==> final(self).wf(),
    {
        self.filter.package = None;
        self.pid_filter = None;
        self.package_filter_text = String::new();
        self.pkg_selection_index = -1;
        self.rebuild_filtered();
    }

    /// The tag input now reads `text`; when that differs from what was last
    /// applied, the filter is read again and the suggestion cursor returns
    /// to the first suggestion.
    pub fn edit_tag_input(&mut self, text: String)
        ensures
            final(self).tag_input@ == text@,
            text@ == old(self).prev_tag_input@ ==> *final(self) == (Pane { tag_input: text, ..*old(self) }),
            text@ != old(self).prev_tag_input@ ==> (final(self).prev_tag_input@ == text@
                && final(self).tag_suggestion_index == 0 && filters_view(final(self).filter.tag_filters@)
                == parse_filters(text@) && final(self).refiltered(
                Pane {
                    filter: Filter { tag_filters: final(self).filter.tag_filters, ..old(self).filter },
                    tag_input: final(self).tag_input,
                    prev_tag_input: final(self).prev_tag_input,
                    tag_suggestion_index: 0,
                    ..*old(self)
                },
            ) && (old(self).detector_idle() ==> final(self).wf())),
    {
        let changed = !str_eq(text.as_str(), self.prev_tag_input.as_str());
        if changed {
            self.prev_tag_input = text.clone();
            self.tag_input = text;
            self.tag_suggestion_index = 0;
            self.apply_tag_filter();
        } else {
            self.tag_input = text;
        }
    }

    /// A tag expression picked from the history becomes the tag input and
    /// is applied.
    pub fn set_tag_expression(&mut self, expr: String)
        ensures
            final(self).tag_input@ == expr@,
            final(self).prev_tag_input@ == expr@,
            filters_view(final(self).filter.tag_filters@) == parse_filters(expr@),
            final(self).refiltered(
                Pane {
                    filter: Filter { tag_filters: final(self).filter.tag_filters, ..old(self).filter },
                    tag_input: final(self).tag_input,
                    prev_tag_input: final(self).prev_tag_input,
                    ..*old(self)
                },
            ),
            old(self).detector_idle() ==> final(self).wf(),
    {
        self.prev_tag_input = expr.clone();
        self.tag_input = expr;
        self.apply_tag_filter();
    }

    /// The tag bar's clear button: no tag input and no tag rules.
    pub fn clear_tag_filters(&mut self)
        ensures
            final(self).tag_input@.len() == 0,
            final(self).prev_tag_input@.len() == 0,
            final(self).filter.tag_filters@.len() == 0,
            final(self).refiltered(
                Pane {
                    filter: Filter { tag_filters: final(self).filter.tag_filters, ..old(self).filter },
                    tag_input: final(self).tag_input,
                    prev_tag_input: final(self).prev_tag_input,
                    ..*old(self)
                },
            ),
            old(self).detector_idle() ==> final(self).wf(),
    {
        self.tag_input = String::new();
        self.prev_tag_input = String::new();
        self.filter.tag_filters = Vec::new();
        self.rebuild_filtered();
    }

    /// Whether the tag bar offers its clear button: there is tag input or a
    /// tag rule.
    pub fn tag_clear_visible(&self) -> (b: bool)
        ensures
            b == (self.tag_input@.len() > 0 || self.filter.tag_filters@.len() > 0),
    {
        !self.tag_input.as_str().is_empty() || self.filter.tag_filters.len() > 0
    }

    /// A suggested tag accepted: it replaces the partial tag being typed and
    /// the tag filter is applied.
    pub fn accept_tag_suggestion(&mut self, tag: &str)
        requires
            token_cut_is_boundary(old(self).tag_input@),
        ensures
            final(self).tag_input@ == match tag_value_range(old(self).tag_input@) {
                Some((a, b)) => old(self).tag_input@.take(a) + tag@ + old(self).tag_input@.skip(b) + (
                if needs_level_separator(old(self).tag_input@) {
                    seq![':']
                } else {
                    Seq::empty()
                }),
                None => old(self).tag_input@,
            },
            final(self).prev_tag_input@ == final(self).tag_input@,
            filters_view(final(self).filter.tag_filters@) == parse_filters(final(self).tag_input@),
            final(self).refiltered(
                Pane {
                    filter: Filter { tag_filters: final(self).filter.tag_filters, ..old(self).filter },
                    tag_input: final(self).tag_input,
                    prev_tag_input: final(self).prev_tag_input,
                    ..*old(self)
                },
            ),
            old(self).detector_idle() ==> final(self).wf(),
    {
        let mut input = self.tag_input.clone();
        replace_partial_tag_value(&mut input, tag);
        self.prev_tag_input = input.clone();
        self.tag_input = input;
        self.apply_tag_filter();
    }
}

} // verus!
