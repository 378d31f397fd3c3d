//! Log panes: the layout (a binary tree of horizontal and vertical splits
//! whose leaves are panes) and the state of one pane, its entries, what its
//! filter shows, search hits, crashes and watch highlights.
use vstd::prelude::*;
use std::collections::{HashMap, HashSet};
use crate::crash_detector::{
    CrashDetector, CrashReport, CrashType, ReportModel, detect_all, detect_crashes, increasing,
    law_reports_within, positioned, reports_view, run,
};
use crate::filter::{Filter, filters_view, parse_filters, search_set};
use crate::log_entry::{EntryModel, LogEntry, normalize_optional, normalize_optional_string, opt_view};
use crate::text::{contains, contains_exec, chars_of, decimal, join, join_strings, lower, lower_chars, push_char, push_decimal, push_decimal_u128, str_eq, sviews, trim, trim_str};
use crate::log_entry::level_char;

verus! {

/// Entries a pane keeps beyond its capacity before it compacts, as a
/// fraction of the capacity.
pub const COMPACT_BATCH_DIVISOR: usize = 50;

/// The smallest such headroom, in entries.
pub const MIN_COMPACT_BATCH_SIZE: usize = 250;

/// Whether new panes wrap long lines.
pub fn default_word_wrap() -> (b: bool)
    ensures
        b,
{
    true
}

/// How many entries a pane drops at once when it compacts: a fiftieth of
/// the capacity, at least 250, at most the capacity itself.
pub fn compact_batch_size(capacity: usize) -> (n: usize)
    ensures
        n == (if capacity / COMPACT_BATCH_DIVISOR > MIN_COMPACT_BATCH_SIZE {
            capacity / COMPACT_BATCH_DIVISOR
        } else {
            MIN_COMPACT_BATCH_SIZE
        }) as int || n == capacity,
        n <= capacity,
        n == capacity || n >= MIN_COMPACT_BATCH_SIZE,
        capacity >= MIN_COMPACT_BATCH_SIZE ==> n == (if capacity / COMPACT_BATCH_DIVISOR
            > MIN_COMPACT_BATCH_SIZE {
            capacity / COMPACT_BATCH_DIVISOR
        } else {
            MIN_COMPACT_BATCH_SIZE
        }),
        capacity < MIN_COMPACT_BATCH_SIZE ==> n == capacity,
{
    let share = capacity / COMPACT_BATCH_DIVISOR;
    let at_least = if share > MIN_COMPACT_BATCH_SIZE {
        share
    } else {
        MIN_COMPACT_BATCH_SIZE
    };
    if at_least < capacity {
        at_least
    } else {
        capacity
    }
}

/// The number of entries above which a pane compacts: its capacity plus
/// the batch size (saturating).
pub fn compact_threshold(capacity: usize) -> (n: usize)
    ensures
        n == (if capacity + compact_batch_size_spec(capacity) > usize::MAX {
            usize::MAX as int
        } else {
            capacity + compact_batch_size_spec(capacity)
        }),
{
    let batch = compact_batch_size(capacity);
    capacity.saturating_add(batch)
}

pub open spec fn compact_batch_size_spec(capacity: usize) -> int {
    let share = capacity / COMPACT_BATCH_DIVISOR;
    let at_least = if share > MIN_COMPACT_BATCH_SIZE {
        share
    } else {
        MIN_COMPACT_BATCH_SIZE
    };
    if at_least < capacity {
        at_least as int
    } else {
        capacity as int
    }
}

/// A positive capacity leaves headroom: the compaction threshold lies above
/// it by exactly one batch.
pub proof fn law_compaction_headroom(capacity: usize)
    requires
        capacity > 0,
        capacity + compact_batch_size_spec(capacity) <= usize::MAX,
    ensures
        compact_batch_size_spec(capacity) > 0,
        capacity + compact_batch_size_spec(capacity) > capacity,
{
}

// ---------------------------------------------------------------------------
// Pane layout
// ---------------------------------------------------------------------------

#[derive(Debug, Clone, Copy, PartialEq, Eq, Structural)]
pub enum SplitDir {
    Horizontal,
    Vertical,
}

/// A pane layout: a single pane, or two layouts side by side.
#[derive(Debug)]
pub enum PaneNode {
    Leaf(u64),
    Split { dir: SplitDir, first: Box<PaneNode>, second: Box<PaneNode> },
}

/// The panes of a layout, first subtree first.
pub open spec fn pane_seq(n: PaneNode) -> Seq<u64>
    decreases n,
{
    match n {
        PaneNode::Leaf(id) => seq![id],
        PaneNode::Split { first, second, .. } => pane_seq(*first) + pane_seq(*second),
    }
}

/// How many splits lie on the longest path from the root to a pane.
pub open spec fn depth_spec(n: PaneNode) -> nat
    decreases n,
{
    match n {
        PaneNode::Leaf(_) => 0,
        PaneNode::Split { first, second, .. } => {
            let a = depth_spec(*first);
            let b = depth_spec(*second);
            1 + if a >= b {
                a
            } else {
                b
            }
        },
    }
}

/// How many splits lie above the pane `target` (its first occurrence,
/// first subtree first), if the layout has it.
pub open spec fn depth_of_spec(n: PaneNode, target: u64) -> Option<nat>
    decreases n,
{
    match n {
        PaneNode::Leaf(id) => if id == target {
            Some(0)
        } else {
            None
        },
        PaneNode::Split { first, second, .. } => match depth_of_spec(*first, target) {
            Some(d) => Some(d + 1),
            None => match depth_of_spec(*second, target) {
                Some(d) => Some(d + 1),
                None => None,
            },
        },
    }
}

/// `i` is the first position of `target` in `s`.
pub open spec fn first_at(s: Seq<u64>, target: u64, i: int) -> bool {
    0 <= i < s.len() && s[i] == target && forall|k: int| 0 <= k < i ==> #[trigger] s[k] != target
}

/// `after` is `before` with `new_id` inserted right after the first
/// occurrence of `target`.
pub open spec fn inserted_after(before: Seq<u64>, target: u64, new_id: u64, after: Seq<u64>) -> bool {
    exists|i: int| first_at(before, target, i) && after == before.insert(i + 1, new_id)
}

/// `after` is `before` with one occurrence of `target` taken out.
pub open spec fn removed_one(before: Seq<u64>, target: u64, after: Seq<u64>) -> bool {
    exists|i: int| 0 <= i < before.len() && before[i] == target && after == before.remove(i)
}

/// The layout after splitting the pane `target` (its first occurrence,
/// first subtree first) in direction `dir`: the pane becomes a split of
/// itself, first, and a new pane `new_id`, second. A layout without
/// `target` stays as it is.
pub open spec fn split_tree(n: PaneNode, target: u64, dir: SplitDir, new_id: u64) -> PaneNode
    decreases n,
{
    match n {
        PaneNode::Leaf(id) => if id == target {
            PaneNode::Split {
                dir,
                first: Box::new(PaneNode::Leaf(id)),
                second: Box::new(PaneNode::Leaf(new_id)),
            }
        } else {
            n
        },
        PaneNode::Split { dir: d, first, second } => if pane_seq(*first).contains(target) {
            PaneNode::Split { dir: d, first: Box::new(split_tree(*first, target, dir, new_id)), second }
        } else {
            PaneNode::Split { dir: d, first, second: Box::new(split_tree(*second, target, dir, new_id)) }
        },
    }
}

/// Whether closing `target` changes the layout: it is a split holding it.
pub open spec fn closes(n: PaneNode, target: u64) -> bool {
    n is Split && pane_seq(n).contains(target)
}

/// The layout after closing the pane `target`: at the first split (first
/// subtree first) that has `target` as a direct pane, the sibling takes the
/// split's place; a split's first subtree is searched before its second.
pub open spec fn remove_tree(n: PaneNode, target: u64) -> PaneNode
    decreases n,
{
    match n {
        PaneNode::Leaf(_) => n,
        PaneNode::Split { dir, first, second } => if *first == PaneNode::Leaf(target) {
            *second
        } else if *second == PaneNode::Leaf(target) {
            *first
        } else if closes(*first, target) {
            PaneNode::Split { dir, first: Box::new(remove_tree(*first, target)), second }
        } else {
            PaneNode::Split { dir, first, second: Box::new(remove_tree(*second, target)) }
        },
    }
}

/// A layout has at least one pane.
pub proof fn lemma_pane_seq_nonempty(n: PaneNode)
    ensures
        pane_seq(n).len() >= 1,
    decreases n,
{
    if let PaneNode::Split { first, second, .. } = n {
        lemma_pane_seq_nonempty(*first);
        lemma_pane_seq_nonempty(*second);
    }
}

/// The depth of a layout is below its number of panes.
pub proof fn lemma_depth_below_count(n: PaneNode)
    ensures
        depth_spec(n) < pane_seq(n).len(),
    decreases n,
{
    if let PaneNode::Split { first, second, .. } = n {
        lemma_depth_below_count(*first);
        lemma_depth_below_count(*second);
        lemma_pane_seq_nonempty(*first);
        lemma_pane_seq_nonempty(*second);
    }
}

/// Every layout holds at least one pane, and its depth is below its number
/// of panes.
pub proof fn law_count_bounds_depth(n: PaneNode)
    ensures
        pane_seq(n).len() >= 1,
        depth_spec(n) < pane_seq(n).len(),
{
    lemma_pane_seq_nonempty(n);
    lemma_depth_below_count(n);
}

/// A pane is found exactly when the layout holds it, and no deeper than
/// the layout.
pub proof fn law_depth_of_finds_panes(n: PaneNode, target: u64)
    ensures
        depth_of_spec(n, target) is Some <==> pane_seq(n).contains(target),
        depth_of_spec(n, target) matches Some(d) ==> d <= depth_spec(n),
    decreases n,
{
    match n {
        PaneNode::Leaf(id) => {
            if id == target {
                assert(pane_seq(n)[0] == target);
            }
        },
        PaneNode::Split { first, second, .. } => {
            law_depth_of_finds_panes(*first, target);
            law_depth_of_finds_panes(*second, target);
            let a = pane_seq(*first);
            let b = pane_seq(*second);
            let s = pane_seq(n);
            assert(s == a + b);
            if a.contains(target) {
                let i = choose|i: int| 0 <= i < a.len() && a[i] == target;
                assert(s[i] == target);
            }
            if b.contains(target) {
                let i = choose|i: int| 0 <= i < b.len() && b[i] == target;
                assert(s[a.len() + i] == target);
            }
            if s.contains(target) {
                let i = choose|i: int| 0 <= i < s.len() && s[i] == target;
                if i < a.len() {
                    assert(a[i] == target);
                } else {
                    assert(b[i - a.len()] == target);
                }
            }
        },
    }
}

/// A split layout holds the new pane, and the split of a layout with
/// `target` is a split.
pub proof fn lemma_split_tree_holds_new(n: PaneNode, target: u64, dir: SplitDir, new_id: u64)
    requires
        pane_seq(n).contains(target),
    ensures
        split_tree(n, target, dir, new_id) is Split,
        pane_seq(split_tree(n, target, dir, new_id)).contains(new_id),
    decreases n,
{
    match n {
        PaneNode::Leaf(id) => {
            assert(pane_seq(n) == seq![id]);
            let i = choose|i: int| 0 <= i < pane_seq(n).len() && pane_seq(n)[i] == target;
            assert(id == target);
            let t = split_tree(n, target, dir, new_id);
            assert(pane_seq(PaneNode::Leaf(id)) == seq![id]);
            assert(pane_seq(PaneNode::Leaf(new_id)) == seq![new_id]);
            assert(pane_seq(t) == seq![id] + seq![new_id]);
            assert(pane_seq(t)[1] == new_id);
        },
        PaneNode::Split { dir: d, first, second } => {
            let a = pane_seq(*first);
            let b = pane_seq(*second);
            if a.contains(target) {
                lemma_split_tree_holds_new(*first, target, dir, new_id);
                let t = pane_seq(split_tree(*first, target, dir, new_id));
                let k = choose|k: int| 0 <= k < t.len() && t[k] == new_id;
                assert(pane_seq(split_tree(n, target, dir, new_id))[k] == new_id);
            } else {
                let i = choose|i: int| 0 <= i < pane_seq(n).len() && pane_seq(n)[i] == target;
                if i < a.len() {
                    assert(a[i] == target);
                }
                assert(b[i - a.len()] == target);
                lemma_split_tree_holds_new(*second, target, dir, new_id);
                let t = pane_seq(split_tree(*second, target, dir, new_id));
                let k = choose|k: int| 0 <= k < t.len() && t[k] == new_id;
                assert(pane_seq(split_tree(n, target, dir, new_id))[a.len() + k] == new_id);
            }
        },
    }
}

/// Splitting `target` puts the new pane beside it, one level deeper than
/// `target` was; both are found at that depth when the new id is fresh.
pub proof fn law_split_places_new_pane(n: PaneNode, target: u64, dir: SplitDir, new_id: u64)
    requires
        pane_seq(n).contains(target),
        !pane_seq(n).contains(new_id),
    ensures
        depth_of_spec(n, target) matches Some(d) && depth_of_spec(split_tree(n, target, dir, new_id), target)
            == Some(d + 1) && depth_of_spec(split_tree(n, target, dir, new_id), new_id) == Some(d + 1),
    decreases n,
{
    law_depth_of_finds_panes(n, target);
    law_depth_of_finds_panes(n, new_id);
    match n {
        PaneNode::Leaf(id) => {
            assert(pane_seq(n) == seq![id]);
            assert(pane_seq(n)[0] == id);
            if id == new_id {
                assert(pane_seq(n).contains(new_id));
            }
            let i = choose|i: int| 0 <= i < pane_seq(n).len() && pane_seq(n)[i] == target;
            assert(id == target);
            assert(depth_of_spec(n, target) == Some(0nat));
            let t = split_tree(n, target, dir, new_id);
            assert(depth_of_spec(PaneNode::Leaf(id), target) == Some(0nat));
            assert(depth_of_spec(PaneNode::Leaf(id), new_id) is None);
            assert(depth_of_spec(PaneNode::Leaf(new_id), new_id) == Some(0nat));
            assert(depth_of_spec(t, target) == Some(1nat));
            assert(depth_of_spec(t, new_id) == Some(1nat));
        },
        PaneNode::Split { dir: d, first, second } => {
            let a = pane_seq(*first);
            let b = pane_seq(*second);
            assert(!a.contains(new_id)) by {
                if a.contains(new_id) {
                    let k = choose|k: int| 0 <= k < a.len() && a[k] == new_id;
                    assert(pane_seq(n)[k] == new_id);
                }
            }
            assert(!b.contains(new_id)) by {
                if b.contains(new_id) {
                    let k = choose|k: int| 0 <= k < b.len() && b[k] == new_id;
                    assert(pane_seq(n)[a.len() + k] == new_id);
                }
            }
            law_depth_of_finds_panes(*first, target);
            law_depth_of_finds_panes(*second, target);
            law_depth_of_finds_panes(*first, new_id);
            if a.contains(target) {
                law_split_places_new_pane(*first, target, dir, new_id);
            } else {
                let i = choose|i: int| 0 <= i < pane_seq(n).len() && pane_seq(n)[i] == target;
                if i < a.len() {
                    assert(a[i] == target);
                }
                assert(b[i - a.len()] == target);
                law_split_places_new_pane(*second, target, dir, new_id);
                law_depth_of_finds_panes(*first, new_id);
            }
        },
    }
}

/// Splitting `target` and then closing the new pane gives back the same
/// layout, directions included, when the new id is fresh.
pub proof fn law_split_then_remove_restores(n: PaneNode, target: u64, dir: SplitDir, new_id: u64)
    requires
        pane_seq(n).contains(target),
        !pane_seq(n).contains(new_id),
    ensures
        closes(split_tree(n, target, dir, new_id), new_id),
        remove_tree(split_tree(n, target, dir, new_id), new_id) == n,
    decreases n,
{
    lemma_split_tree_holds_new(n, target, dir, new_id);
    match n {
        PaneNode::Leaf(id) => {
            assert(pane_seq(n) == seq![id]);
            if id == new_id {
                assert(pane_seq(n)[0] == new_id);
            }
            if id != target {
                let i = choose|i: int| 0 <= i < pane_seq(n).len() && pane_seq(n)[i] == target;
            }
        },
        PaneNode::Split { dir: d, first, second } => {
            let a = pane_seq(*first);
            let b = pane_seq(*second);
            assert(!a.contains(new_id)) by {
                if a.contains(new_id) {
                    let k = choose|k: int| 0 <= k < a.len() && a[k] == new_id;
                    assert(pane_seq(n)[k] == new_id);
                }
            }
            assert(!b.contains(new_id)) by {
                if b.contains(new_id) {
                    let k = choose|k: int| 0 <= k < b.len() && b[k] == new_id;
                    assert(pane_seq(n)[a.len() + k] == new_id);
                }
            }
            if a.contains(target) {
                law_split_then_remove_restores(*first, target, dir, new_id);
                lemma_split_tree_holds_new(*first, target, dir, new_id);
                if *second == PaneNode::Leaf(new_id) {
                    assert(b[0] == new_id);
                }
            } else {
                let i = choose|i: int| 0 <= i < pane_seq(n).len() && pane_seq(n)[i] == target;
                if i < a.len() {
                    assert(a[i] == target);
                }
                assert(b[i - a.len()] == target);
                law_split_then_remove_restores(*second, target, dir, new_id);
                lemma_split_tree_holds_new(*second, target, dir, new_id);
                if *first == PaneNode::Leaf(new_id) {
                    assert(a[0] == new_id);
                }
                lemma_pane_seq_nonempty(*first);
            }
        },
    }
}

impl PaneNode {
    pub fn leaf(id: u64) -> (n: PaneNode)
        ensures
            n == PaneNode::Leaf(id),
    {
        PaneNode::Leaf(id)
    }

    fn split_owned(self, target: u64, dir: SplitDir, new_id: u64) -> (r: (PaneNode, bool))
        ensures
            r.1 == pane_seq(self).contains(target),
            r.1 ==> inserted_after(pane_seq(self), target, new_id, pane_seq(r.0)),
            r.1 ==> r.0 == split_tree(self, target, dir, new_id),
            !r.1 ==> r.0 == self,
        decreases self,
    {
        match self {
            PaneNode::Leaf(id) => {
                if id == target {
                    let n = PaneNode::Split {
                        dir,
                        first: Box::new(PaneNode::Leaf(id)),
                        second: Box::new(PaneNode::Leaf(new_id)),
                    };
                    proof {
                        assert(first_at(seq![id], target, 0));
                        assert(pane_seq(PaneNode::Leaf(id)) == seq![id]);
                        assert(pane_seq(PaneNode::Leaf(new_id)) == seq![new_id]);
                        assert(pane_seq(n) == pane_seq(PaneNode::Leaf(id)) + pane_seq(PaneNode::Leaf(new_id)));
                        assert(pane_seq(n) =~= seq![id].insert(1, new_id));
                        assert(pane_seq(PaneNode::Leaf(id)) == pane_seq(self));
                        assert(first_at(pane_seq(self), target, 0));
                        assert(pane_seq(n) == pane_seq(self).insert(0int + 1, new_id));
                    }
                    (n, true)
                } else {
                    proof {
                        assert(!seq![id].contains(target)) by {
                            if seq![id].contains(target) {
                                let k = choose|k: int| 0 <= k < 1 && seq![id][k] == target;
                            }
                        }
                    }
                    (PaneNode::Leaf(id), false)
                }
            },
            PaneNode::Split { dir: d, first, second } => {
                let ghost a = pane_seq(*first);
                let ghost b = pane_seq(*second);
                let ghost s = a + b;
                let ghost old_second = *second;
                let (f, r1) = (*first).split_owned(target, dir, new_id);
                if r1 {
                    let n = PaneNode::Split { dir: d, first: Box::new(f), second };
                    proof {
                        let i = choose|i: int| first_at(a, target, i) && pane_seq(f) == a.insert(i + 1, new_id);
                        assert(first_at(s, target, i) && pane_seq(n) == s.insert(i + 1, new_id)) by {
                            assert(pane_seq(n) =~= s.insert(i + 1, new_id));
                        }
                        assert(first_at(s, target, i));
                        assert(pane_seq(n) =~= s.insert(i + 1, new_id));
                        let k = choose|k: int| 0 <= k < a.len() && a[k] == target;
                        assert(s[k] == target);
                    }
                    (n, true)
                } else {
                    let (g, r2) = (*second).split_owned(target, dir, new_id);
                    let n = PaneNode::Split { dir: d, first: Box::new(f), second: Box::new(g) };
                    proof {
                        if r2 {
                            let j = choose|j: int| first_at(b, target, j) && pane_seq(g) == b.insert(j + 1, new_id);
                            assert(first_at(s, target, a.len() + j)) by {
                                assert forall|k: int| 0 <= k < a.len() + j implies #[trigger] s[k] != target by {
                                    if k < a.len() {
                                        assert(s[k] == a[k]);
                                        if a[k] == target {
                                            assert(a.contains(target));
                                        }
                                    } else {
                                        assert(s[k] == b[k - a.len()]);
                                    }
                                }
                            }
                            assert(pane_seq(n) =~= s.insert(a.len() + j + 1, new_id));
                            assert(s[a.len() + j] == target);
                        } else {
                            assert(!s.contains(target)) by {
                                if s.contains(target) {
                                    let k = choose|k: int| 0 <= k < s.len() && s[k] == target;
                                    if k < a.len() {
                                        assert(a[k] == target);
                                    } else {
                                        assert(b[k - a.len()] == target);
                                    }
                                }
                            }
                        }
                    }
                    (n, r2)
                }
            },
        }
    }

    /// Split the pane `target` (its first occurrence) into itself and a new
    /// pane `new_id` after it; returns whether the layout had it.
    pub fn split(&mut self, target: u64, dir: SplitDir, new_id: u64) -> (r: bool)
        ensures
            r == pane_seq(*old(self)).contains(target),
            r ==> *final(self) == split_tree(*old(self), target, dir, new_id),
            r ==> inserted_after(pane_seq(*old(self)), target, new_id, pane_seq(*final(self))),
            !r ==> *final(self) == *old(self),
    {
        let mut node = PaneNode::Leaf(0);
        std::mem::swap(&mut node, self);
        let (n, r) = node.split_owned(target, dir, new_id);
        *self = n;
        r
    }

    fn remove_owned(self, target: u64) -> (r: (PaneNode, bool))
        ensures
            r.1 == closes(self, target),
            r.1 ==> r.0 == remove_tree(self, target),
            r.1 ==> removed_one(pane_seq(self), target, pane_seq(r.0)),
            !r.1 ==> r.0 == self,
        decreases self,
    {
        match self {
            PaneNode::Leaf(id) => (PaneNode::Leaf(id), false),
            PaneNode::Split { dir, first, second } => {
                let ghost a = pane_seq(*first);
                let ghost b = pane_seq(*second);
                let ghost s = a + b;
                proof {
                    assert(pane_seq(PaneNode::Split { dir, first, second }) == s);
                }
                let first_hit = match &*first {
                    PaneNode::Leaf(id) => *id == target,
                    _ => false,
                };
                if first_hit {
                    proof {
                        assert(s[0] == target);
                        assert(b =~= s.remove(0));
                    }
                    return (*second, true);
                }
                let second_hit = match &*second {
                    PaneNode::Leaf(id) => *id == target,
                    _ => false,
                };
                if second_hit {
                    proof {
                        lemma_pane_seq_nonempty(*first);
                        assert(a.len() == 1 || a.len() >= 1);
                        assert(s[a.len() as int] == target);
                        assert(a =~= s.remove(a.len() as int));
                    }
                    return (*first, true);
                }
                let (f, r1) = (*first).remove_owned(target);
                if r1 {
                    let n = PaneNode::Split { dir, first: Box::new(f), second };
                    proof {
                        let i = choose|i: int| 0 <= i < a.len() && a[i] == target && pane_seq(f) == a.remove(i);
                        assert(pane_seq(n) =~= s.remove(i));
                        assert(s[i] == target);
                        assert(pane_seq(n) =~= s.remove(i));
                    }
                    (n, true)
                } else {
                    let (g, r2) = (*second).remove_owned(target);
                    let n = PaneNode::Split { dir, first: Box::new(f), second: Box::new(g) };
                    proof {
                        if r2 {
                            let j = choose|j: int| 0 <= j < b.len() && b[j] == target && pane_seq(g) == b.remove(j);
                            assert(s[a.len() + j] == target);
                            assert(pane_seq(n) =~= s.remove(a.len() + j));
                        } else {
                            assert(!a.contains(target)) by {
                                if a.contains(target) {
                                    if let PaneNode::Leaf(x) = f {
                                        let k = choose|k: int| 0 <= k < a.len() && a[k] == target;
                                        assert(a == seq![x]);
                                    }
                                }
                            }
                            assert(!b.contains(target)) by {
                                if b.contains(target) {
                                    if let PaneNode::Leaf(x) = g {
                                        let k = choose|k: int| 0 <= k < b.len() && b[k] == target;
                                        assert(b == seq![x]);
                                    }
                                }
                            }
                            assert(!s.contains(target)) by {
                                if s.contains(target) {
                                    let k = choose|k: int| 0 <= k < s.len() && s[k] == target;
                                    if k < a.len() {
                                        assert(a[k] == target);
                                    } else {
                                        assert(b[k - a.len()] == target);
                                    }
                                }
                            }
                        }
                    }
                    (n, r2)
                }
            },
        }
    }

    /// Close the pane `target`: its sibling takes the place of their split.
    /// The last pane of a layout cannot be closed. Returns whether a pane
    /// was closed.
    pub fn remove(&mut self, target: u64) -> (r: bool)
        ensures
            r == closes(*old(self), target),
            r ==> *final(self) == remove_tree(*old(self), target),
            r ==> removed_one(pane_seq(*old(self)), target, pane_seq(*final(self))),
            !r ==> *final(self) == *old(self),
    {
        let mut node = PaneNode::Leaf(0);
        std::mem::swap(&mut node, self);
        let (n, r) = node.remove_owned(target);
        *self = n;
        r
    }

    /// The ids of the panes, first subtree first.
    pub fn pane_ids(&self) -> (v: Vec<u64>)
        ensures
            v@ == pane_seq(*self),
        decreases self,
    {
        match self {
            PaneNode::Leaf(id) => {
                let v = vec![*id];
                assert(v@ =~= seq![*id]);
                v
            },
            PaneNode::Split { first, second, .. } => {
                let mut ids = first.pane_ids();
                let mut rest = second.pane_ids();
                ids.append(&mut rest);
                ids
            },
        }
    }

    /// The first pane of the layout (its leftmost or topmost leaf), which
    /// names the layout's splits stably.
    pub fn first_leaf(&self) -> (id: u64)
        ensures
            pane_seq(*self).len() >= 1,
            id == pane_seq(*self)[0],
        decreases self,
    {
        proof {
            lemma_pane_seq_nonempty(*self);
        }
        match self {
            PaneNode::Leaf(id) => *id,
            PaneNode::Split { first, .. } => first.first_leaf(),
        }
    }

    /// The number of panes.
    pub fn count(&self) -> (n: usize)
        requires
            pane_seq(*self).len() <= usize::MAX,
        ensures
            n == pane_seq(*self).len(),
            n >= 1,
            depth_spec(*self) < n,
        decreases self,
    {
        proof {
            lemma_pane_seq_nonempty(*self);
            lemma_depth_below_count(*self);
        }
        match self {
            PaneNode::Leaf(_) => 1,
            PaneNode::Split { first, second, .. } => first.count() + second.count(),
        }
    }

    /// How many splits lie on the longest path from the root to a pane.
    pub fn depth(&self) -> (n: usize)
        requires
            pane_seq(*self).len() <= usize::MAX,
        ensures
            n == depth_spec(*self),
        decreases self,
    {
        proof {
            lemma_depth_below_count(*self);
        }
        match self {
            PaneNode::Leaf(_) => 0,
            PaneNode::Split { first, second, .. } => {
                let a = first.depth();
                let b = second.depth();
                1 + if a >= b {
                    a
                } else {
                    b
                }
            },
        }
    }

    /// Returns the depth of the node containing the target pane.
    pub fn depth_of(&self, target: u64) -> (r: Option<usize>)
        requires
            pane_seq(*self).len() <= usize::MAX,
        ensures
            match depth_of_spec(*self, target) {
                Some(d) => r == Some(d as usize),
                None => r is None,
            },
        decreases self,
    {
        proof {
            lemma_depth_below_count(*self);
            law_depth_of_finds_panes(*self, target);
        }
        match self {
            PaneNode::Leaf(id) => {
                if *id == target {
                    Some(0)
                } else {
                    None
                }
            },
            PaneNode::Split { first, second, .. } => {
                proof {
                    law_depth_of_finds_panes(**first, target);
                    law_depth_of_finds_panes(**second, target);
                }
                match first.depth_of(target) {
                    Some(d) => Some(d + 1),
                    None => match second.depth_of(target) {
                        Some(d) => Some(d + 1),
                        None => None,
                    },
                }
            },
        }
    }
}

// ---------------------------------------------------------------------------
// Highlight watches
// ---------------------------------------------------------------------------

/// Whether a lowercased watch pattern occurs in the ASCII-lowercased message
/// or tag of an entry.
pub open spec fn pattern_hits(p: Seq<char>, e: LogEntry) -> bool {
    contains(lower(e.message@), p) || contains(lower(e.tag@), p)
}

/// A pattern a pane highlights, with its colour and match count.
#[derive(Debug, Clone)]
pub struct UiWatch {
    pub name: String,
    pub pattern: String,
    pub pattern_lower: String,
    pub color_index: usize,
    pub match_count: usize,
}

impl UiWatch {
    /// Whether the ASCII-lowercased message or tag contains the watch's
    /// lowercased pattern.
    pub fn matches(&self, entry: &LogEntry) -> (b: bool)
        ensures
            b == pattern_hits(self.pattern_lower@, *entry),
    {
        let pat = chars_of(self.pattern_lower.as_str());
        let msg = chars_of(entry.message.as_str());
        let msg_lower = lower_chars(&msg);
        if contains_exec(&msg_lower, &pat) {
            return true;
        }
        let tag = chars_of(entry.tag.as_str());
        let tag_lower = lower_chars(&tag);
        if contains_exec(&tag_lower, &pat) {
            return true;
        }
        false
    }
}

// ---------------------------------------------------------------------------
// Pane state
// ---------------------------------------------------------------------------

/// How many highlight colours watches cycle through.
pub const WATCH_COLOR_COUNT: usize = 6;

/// Most saved crashes a pane keeps.
pub const SAVED_CRASH_CAP: usize = 100;

/// Entries kept before a saved crash.
pub const CRASH_CONTEXT_BEFORE: usize = 10;

/// Entries kept after a saved crash.
pub const CRASH_CONTEXT_AFTER: usize = 5;

pub open spec fn watch_color_spec(index: usize) -> (u8, u8, u8) {
    if index % 6 == 0 {
        (0, 180, 216)
    } else if index % 6 == 1 {
        (255, 183, 77)
    } else if index % 6 == 2 {
        (129, 199, 132)
    } else if index % 6 == 3 {
        (186, 104, 200)
    } else if index % 6 == 4 {
        (255, 138, 128)
    } else {
        (100, 181, 246)
    }
}

/// The RGB colour of a watch's colour index: cyan, orange, green, purple,
/// coral and blue, in turn.
pub fn watch_color(index: usize) -> (c: (u8, u8, u8))
    ensures
        c == watch_color_spec(index),
{
    let k = index % WATCH_COLOR_COUNT;
    if k == 0 {
        (0, 180, 216)
    } else if k == 1 {
        (255, 183, 77)
    } else if k == 2 {
        (129, 199, 132)
    } else if k == 3 {
        (186, 104, 200)
    } else if k == 4 {
        (255, 138, 128)
    } else {
        (100, 181, 246)
    }
}

/// A crash kept with the entries around it; it survives clearing the pane.
#[derive(Debug, Clone)]
pub struct SavedCrash {
    pub crash_type: CrashType,
    pub summary: String,
    pub timestamp: String,
    pub pid: u32,
    pub context_lines: Vec<LogEntry>,
    pub crash_start_offset: usize,
    pub crash_end_offset: usize,
}

/// A saved crash with its strings and entries as values.
pub struct SavedModel {
    pub crash_type: CrashType,
    pub summary: Seq<char>,
    pub timestamp: Seq<char>,
    pub pid: u32,
    pub context: Seq<EntryModel>,
    pub start: usize,
    pub end: usize,
}

impl View for SavedCrash {
    type V = SavedModel;

    open spec fn view(&self) -> SavedModel {
        SavedModel {
            crash_type: self.crash_type,
            summary: self.summary@,
            timestamp: self.timestamp@,
            pid: self.pid,
            context: entry_views(self.context_lines@),
            start: self.crash_start_offset,
            end: self.crash_end_offset,
        }
    }
}

pub open spec fn entry_views(es: Seq<LogEntry>) -> Seq<EntryModel> {
    Seq::new(es.len(), |i: int| es[i]@)
}

pub open spec fn saved_views(v: Seq<SavedCrash>) -> Seq<SavedModel> {
    Seq::new(v.len(), |i: int| v[i]@)
}

/// Where the context of a crash starts: ten entries before it, or at the
/// first entry.
pub open spec fn context_start(r: ReportModel) -> int {
    if r.first_index >= CRASH_CONTEXT_BEFORE {
        r.first_index - CRASH_CONTEXT_BEFORE
    } else {
        0
    }
}

/// Where the context of a crash ends (exclusive): five entries after it, or
/// at the end of the `n` entries.
pub open spec fn context_end(r: ReportModel, n: int) -> int {
    if r.last_index + CRASH_CONTEXT_AFTER + 1 < n {
        r.last_index + CRASH_CONTEXT_AFTER + 1
    } else {
        n
    }
}

/// The crash `r` of the entries `es`, saved with its context.
pub open spec fn saved_of(es: Seq<LogEntry>, r: ReportModel) -> SavedModel {
    let s = context_start(r);
    SavedModel {
        crash_type: r.crash_type,
        summary: r.headline,
        timestamp: r.timestamp,
        pid: match r.pid {
            Some(p) => p,
            None => 0,
        },
        context: entry_views(es.subrange(s, context_end(r, es.len() as int))),
        start: (r.first_index - s) as usize,
        end: (r.last_index - s) as usize,
    }
}

pub open spec fn saved_all(es: Seq<LogEntry>, rs: Seq<ReportModel>) -> Seq<SavedModel> {
    Seq::new(rs.len(), |k: int| saved_of(es, rs[k]))
}

/// The newest `cap` of the saved crashes.
pub open spec fn keep_newest(s: Seq<SavedModel>, cap: nat) -> Seq<SavedModel> {
    if s.len() > cap {
        s.skip(s.len() - cap)
    } else {
        s
    }
}

/// The positions from `base` on of the entries that the filter shows, in
/// order.
pub open spec fn visible_after(f: Filter, pid: Option<u32>, es: Seq<LogEntry>, base: int) -> Seq<usize>
    decreases es.len(),
{
    if es.len() == 0 || es.len() <= base {
        seq![]
    } else {
        let prev = visible_after(f, pid, es.drop_last(), base);
        if f.accepts(es.last()@, pid) {
            prev.push((es.len() - 1) as usize)
        } else {
            prev
        }
    }
}

/// The positions of the entries that the filter shows, in order.
pub open spec fn visible(f: Filter, pid: Option<u32>, es: Seq<LogEntry>) -> Seq<usize> {
    visible_after(f, pid, es, 0)
}

/// The positions in `fi` of the shown entries that the search finds.
pub open spec fn search_hits(f: Filter, es: Seq<LogEntry>, fi: Seq<usize>) -> Seq<usize>
    decreases fi.len(),
{
    if fi.len() == 0 {
        seq![]
    } else {
        let prev = search_hits(f, es, fi.drop_last());
        if fi.last() < es.len() && f.search_finds(es[fi.last() as int]) {
            prev.push((fi.len() - 1) as usize)
        } else {
            prev
        }
    }
}

pub open spec fn patterns(ws: Seq<UiWatch>) -> Seq<Seq<char>> {
    Seq::new(ws.len(), |k: int| ws[k].pattern_lower@)
}

pub open spec fn colors(ws: Seq<UiWatch>) -> Seq<usize> {
    Seq::new(ws.len(), |k: int| ws[k].color_index)
}

pub open spec fn counts(ws: Seq<UiWatch>) -> Seq<usize> {
    Seq::new(ws.len(), |k: int| ws[k].match_count)
}

/// Watch `k` is the first whose pattern the entry hits.
pub open spec fn is_first_hit(ps: Seq<Seq<char>>, e: LogEntry, k: int) -> bool {
    &&& 0 <= k < ps.len()
    &&& pattern_hits(ps[k], e)
    &&& forall|j: int| 0 <= j < k ==> !#[trigger] pattern_hits(ps[j], e)
}

/// The first watch whose pattern the entry hits.
pub open spec fn first_hit(ps: Seq<Seq<char>>, e: LogEntry) -> Option<int> {
    if exists|k: int| is_first_hit(ps, e, k) {
        Some(choose|k: int| is_first_hit(ps, e, k))
    } else {
        None
    }
}

/// The watch that the entry at position `i` counts for in a highlight scan
/// that has reached highlights `m`; with `skip_known`, entries already
/// highlighted are passed over.
pub open spec fn hl_pick(
    ps: Seq<Seq<char>>,
    es: Seq<LogEntry>,
    m: Map<usize, usize>,
    i: usize,
    skip_known: bool,
) -> Option<int> {
    if (skip_known && m.contains_key(i)) || i >= es.len() {
        None
    } else {
        first_hit(ps, es[i as int])
    }
}

/// The highlights after scanning the positions `idxs` from highlights `m`:
/// each scanned entry is highlighted in the colour of the first watch it hits.
pub open spec fn hl_fold(
    ps: Seq<Seq<char>>,
    cs: Seq<usize>,
    es: Seq<LogEntry>,
    m: Map<usize, usize>,
    idxs: Seq<usize>,
    skip_known: bool,
) -> Map<usize, usize>
    decreases idxs.len(),
{
    if idxs.len() == 0 {
        m
    } else {
        let prev = hl_fold(ps, cs, es, m, idxs.drop_last(), skip_known);
        match hl_pick(ps, es, prev, idxs.last(), skip_known) {
            Some(k) => prev.insert(idxs.last(), cs[k]),
            None => prev,
        }
    }
}

/// How many of the scanned entries count for watch `w`.
pub open spec fn hl_tally(
    ps: Seq<Seq<char>>,
    cs: Seq<usize>,
    es: Seq<LogEntry>,
    m: Map<usize, usize>,
    idxs: Seq<usize>,
    skip_known: bool,
    w: int,
) -> nat
    decreases idxs.len(),
{
    if idxs.len() == 0 {
        0
    } else {
        let prev = hl_fold(ps, cs, es, m, idxs.drop_last(), skip_known);
        hl_tally(ps, cs, es, m, idxs.drop_last(), skip_known, w) + (if hl_pick(
            ps,
            es,
            prev,
            idxs.last(),
            skip_known,
        ) == Some(w) {
            1nat
        } else {
            0nat
        })
    }
}

/// The positions a crash spans.
pub open spec fn span(r: ReportModel) -> Set<usize> {
    Set::new(|i: usize| r.first_index <= i <= r.last_index)
}

/// The positions of all crash lines of the reports.
pub open spec fn crash_lines_of(rs: Seq<ReportModel>) -> Set<usize>
    decreases rs.len(),
{
    if rs.len() == 0 {
        Set::empty()
    } else {
        crash_lines_of(rs.drop_last()).union(span(rs.last()))
    }
}

/// The tags seen after the entries `es`, each new tag added once, in order.
pub open spec fn add_tags(seen: Seq<Seq<char>>, es: Seq<LogEntry>) -> Seq<Seq<char>>
    decreases es.len(),
{
    if es.len() == 0 {
        seen
    } else {
        let prev = add_tags(seen, es.drop_last());
        if prev.contains(es.last().tag@) {
            prev
        } else {
            prev.push(es.last().tag@)
        }
    }
}

/// Entries fed to the crash detector numbered from `base`.
pub open spec fn shifted(es: Seq<LogEntry>, base: int) -> Seq<(usize, EntryModel)> {
    Seq::new(es.len(), |j: int| ((base + j) as usize, es[j]@))
}

/// One log pane: its entries, which of them its filter shows, search hits,
/// crashes, watches and what the pane's controls hold.
pub struct Pane {
    pub id: u64,
    pub device: Option<String>,
    pub filter: Filter,
    pub entries: Vec<LogEntry>,
    pub filtered_indices: Vec<usize>,
    pub scroll_to_bottom: bool,
    pub auto_scroll: bool,
    pub paused: bool,
    pub capture_device_id: Option<String>,
    pub pid_filter: Option<u32>,
    pub search_open: bool,
    pub search_input: String,
    pub search_match_indices: Vec<usize>,
    pub search_current: usize,
    pub tag_input: String,
    pub prev_tag_input: String,
    pub package_filter_text: String,
    pub ios_process_filter_text: String,
    pub ios_subsystem_filter_text: String,
    pub ios_category_filter_text: String,
    pub pkg_selection_index: i32,
    pub tag_suggestion_index: i32,
    pub seen_tags: Vec<String>,
    pub scroll_to_fi: Option<usize>,
    pub search_focus_requested: bool,
    pub selection_anchor: Option<usize>,
    pub selection_end: Option<usize>,
    pub packages: Vec<String>,
    pub package_refresh_pending: bool,
    pub word_wrap: bool,
    /// How many entries the pane keeps once it compacts.
    pub capacity: usize,
    /// Positions of entries that are part of a crash.
    pub crash_line_indices: HashSet<usize>,
    pub crash_reports: Vec<CrashReport>,
    pub crash_nav_index: Option<usize>,
    pub watches: Vec<UiWatch>,
    pub watch_input: String,
    /// Entry position to the colour index of the watch it is highlighted for.
    pub watch_highlights: HashMap<usize, usize>,
    /// How many shown entries the watch highlights have been computed for.
    pub last_watch_scanned_count: usize,
    /// The detector fed with ingested entries.
    pub crash_detector: CrashDetector,
    pub saved_crashes: Vec<SavedCrash>,
}

impl Pane {
    /// How many shown entries the watch highlights cover.
    pub open spec fn scanned(&self) -> usize {
        self.last_watch_scanned_count
    }

    /// The crash detector holds no half-read crash.
    pub open spec fn detector_idle(&self) -> bool {
        self.crash_detector.pending() is None
    }

    /// What the pane's operations rely on: highlights cover a prefix of the
    /// shown entries, no watch counts more entries than that, the shown
    /// positions are positions of entries, and no crash is half read.
    pub open spec fn wf(&self) -> bool {
        &&& self.scanned() <= self.filtered_indices@.len()
        &&& forall|w: int|
            0 <= w < self.watches@.len() ==> #[trigger] self.watches@[w].match_count <= self.scanned()
        &&& forall|k: int|
            0 <= k < self.filtered_indices@.len() ==> #[trigger] self.filtered_indices@[k]
                < self.entries@.len()
        &&& self.detector_idle()
    }

    /// The shown entries, search hits, highlights and crash lines are those
    /// that the entries, filter, watches and crash reports give.
    pub open spec fn synced(&self) -> bool {
        &&& self.filtered_indices@ == visible(self.filter, self.pid_filter, self.entries@)
        &&& self.scanned() == self.filtered_indices@.len()
        &&& self.watch_highlights@ == hl_fold(
            patterns(self.watches@),
            colors(self.watches@),
            self.entries@,
            Map::empty(),
            self.filtered_indices@,
            false,
        )
        &&& forall|w: int|
            0 <= w < self.watches@.len() ==> #[trigger] self.watches@[w].match_count == hl_tally(
                patterns(self.watches@),
                colors(self.watches@),
                self.entries@,
                Map::empty(),
                self.filtered_indices@,
                false,
                w,
            )
        &&& self.crash_line_indices@ == crash_lines_of(reports_view(self.crash_reports@))
    }

    /// The rows selected: from the anchor to the other end, in order.
    pub open spec fn selection(&self) -> Option<(usize, usize)> {
        match (self.selection_anchor, self.selection_end) {
            (Some(a), Some(b)) => Some(
                if a <= b {
                    (a, b)
                } else {
                    (b, a)
                },
            ),
            (Some(a), None) => Some((a, a)),
            _ => None,
        }
    }

    /// The rows selected: from the anchor to the other end, in order.
    pub fn selected_range(&self) -> (r: Option<(usize, usize)>)
        ensures
            r == self.selection(),
    {
        match (self.selection_anchor, self.selection_end) {
            (Some(a), Some(b)) => {
                if a <= b {
                    Some((a, b))
                } else {
                    Some((b, a))
                }
            },
            (Some(a), None) => Some((a, a)),
            _ => None,
        }
    }

    /// Whether the shown row `fi` is selected.
    pub fn is_row_selected(&self, fi: usize) -> (b: bool)
        ensures
            b == match self.selection() {
                Some((lo, hi)) => lo <= fi <= hi,
                None => false,
            },
    {
        match self.selected_range() {
            Some((lo, hi)) => fi >= lo && fi <= hi,
            None => false,
        }
    }

    /// A fresh pane with id `id` on `device` that keeps `capacity` entries.
    pub fn new(id: u64, device: Option<String>, capacity: usize) -> (p: Pane)
        ensures
            p.wf(),
            p.synced(),
            p.id == id,
            p.device == device,
            p.capacity == capacity,
            p.entries@.len() == 0,
            p.filtered_indices@.len() == 0,
            p.search_match_indices@.len() == 0,
            p.crash_reports@.len() == 0,
            p.watches@.len() == 0,
            p.saved_crashes@.len() == 0,
            p.seen_tags@.len() == 0,
            p.scroll_to_bottom,
            p.auto_scroll,
            !p.paused,
            p.word_wrap,
            p.pid_filter is None,
            !p.search_open,
            p.search_current == 0,
            p.crash_nav_index is None,
            p.pkg_selection_index == -1,
            p.tag_suggestion_index == -1,
    {
        let p = Pane {
            id,
            device,
            filter: Filter::default(),
            entries: Vec::new(),
            filtered_indices: Vec::new(),
            scroll_to_bottom: true,
            auto_scroll: true,
            paused: false,
            capture_device_id: None,
            pid_filter: None,
            search_open: false,
            search_input: String::new(),
            search_match_indices: Vec::new(),
            search_current: 0,
            tag_input: String::new(),
            prev_tag_input: String::new(),
            package_filter_text: String::new(),
            ios_process_filter_text: String::new(),
            ios_subsystem_filter_text: String::new(),
            ios_category_filter_text: String::new(),
            pkg_selection_index: -1,
            tag_suggestion_index: -1,
            seen_tags: Vec::new(),
            scroll_to_fi: None,
            search_focus_requested: false,
            selection_anchor: None,
            selection_end: None,
            packages: Vec::new(),
            package_refresh_pending: false,
            word_wrap: default_word_wrap(),
            capacity,
            crash_line_indices: HashSet::new(),
            crash_reports: Vec::new(),
            crash_nav_index: None,
            watches: Vec::new(),
            watch_input: String::new(),
            watch_highlights: HashMap::new(),
            last_watch_scanned_count: 0,
            crash_detector: CrashDetector::new(),
            saved_crashes: Vec::new(),
        };
        assert(visible(p.filter, p.pid_filter, p.entries@) =~= Seq::<usize>::empty());
        assert(reports_view(p.crash_reports@) =~= Seq::<ReportModel>::empty());
        p
    }
}

/// Two watch lists agree but for their match counts.
pub open spec fn same_watch_text(a: Seq<UiWatch>, b: Seq<UiWatch>) -> bool {
    &&& a.len() == b.len()
    &&& forall|w: int|
        0 <= w < a.len() ==> (#[trigger] a[w]).name == b[w].name && a[w].pattern == b[w].pattern
            && a[w].pattern_lower == b[w].pattern_lower && a[w].color_index == b[w].color_index
}

proof fn lemma_same_watch_text(a: Seq<UiWatch>, b: Seq<UiWatch>)
    requires
        same_watch_text(a, b),
    ensures
        patterns(a) == patterns(b),
        colors(a) == colors(b),
{
    assert(patterns(a) =~= patterns(b));
    assert(colors(a) =~= colors(b));
}

proof fn lemma_first_hit_is(ps: Seq<Seq<char>>, e: LogEntry, k: int)
    requires
        is_first_hit(ps, e, k),
    ensures
        first_hit(ps, e) == Some(k),
{
    let c = choose|q: int| is_first_hit(ps, e, q);
    assert(is_first_hit(ps, e, c));
    if c < k {
        assert(!pattern_hits(ps[c], e));
    } else if c > k {
        assert(!pattern_hits(ps[k], e));
    }
}

proof fn lemma_tally_bound(
    ps: Seq<Seq<char>>,
    cs: Seq<usize>,
    es: Seq<LogEntry>,
    m: Map<usize, usize>,
    idxs: Seq<usize>,
    skip_known: bool,
    w: int,
)
    ensures
        hl_tally(ps, cs, es, m, idxs, skip_known, w) <= idxs.len(),
    decreases idxs.len(),
{
    if idxs.len() > 0 {
        lemma_tally_bound(ps, cs, es, m, idxs.drop_last(), skip_known, w);
    }
}

/// The first watch whose pattern the entry hits.
fn first_matching_watch(watches: &Vec<UiWatch>, entry: &LogEntry) -> (r: Option<usize>)
    ensures
        match r {
            Some(k) => first_hit(patterns(watches@), *entry) == Some(k as int),
            None => first_hit(patterns(watches@), *entry) is None,
        },
{
    let ghost ps = patterns(watches@);
    let mut k: usize = 0;
    while k < watches.len()
        invariant
            k <= watches@.len(),
            ps == patterns(watches@),
            forall|q: int| 0 <= q < k ==> !#[trigger] pattern_hits(ps[q], *entry),
        decreases watches@.len() - k,
    {
        if watches[k].matches(entry) {
            proof {
                assert(ps[k as int] == watches@[k as int].pattern_lower@);
                assert(is_first_hit(ps, *entry, k as int));
                lemma_first_hit_is(ps, *entry, k as int);
            }
            return Some(k);
        }
        assert(ps[k as int] == watches@[k as int].pattern_lower@);
        k += 1;
    }
    proof {
        if exists|q: int| is_first_hit(ps, *entry, q) {
            let q = choose|q: int| is_first_hit(ps, *entry, q);
            assert(pattern_hits(ps[q], *entry));
        }
    }
    None
}

/// Highlight the shown entries from position `start` on, each in the colour
/// of the first watch it hits, counting it for that watch; with
/// `skip_known`, entries already highlighted are passed over.
fn scan_watch_matches(
    watches: &mut Vec<UiWatch>,
    highlights: &mut HashMap<usize, usize>,
    entries: &Vec<LogEntry>,
    filtered: &Vec<usize>,
    start: usize,
    skip_known: bool,
)
    requires
        start <= filtered@.len(),
        forall|w: int| 0 <= w < old(watches)@.len() ==> #[trigger] old(watches)@[w].match_count <= start,
    ensures
        same_watch_text(final(watches)@, old(watches)@),
        final(highlights)@ == hl_fold(
            patterns(old(watches)@),
            colors(old(watches)@),
            entries@,
            old(highlights)@,
            filtered@.skip(start as int),
            skip_known,
        ),
        forall|w: int|
            0 <= w < old(watches)@.len() ==> #[trigger] final(watches)@[w].match_count == old(
                watches,
            )@[w].match_count + hl_tally(
                patterns(old(watches)@),
                colors(old(watches)@),
                entries@,
                old(highlights)@,
                filtered@.skip(start as int),
                skip_known,
                w,
            ),
        forall|w: int|
            0 <= w < old(watches)@.len() ==> #[trigger] final(watches)@[w].match_count
                <= filtered@.len(),
{
    broadcast use vstd::std_specs::hash::group_hash_axioms;

    let ghost ws0 = watches@;
    let ghost ps = patterns(watches@);
    let ghost cs = colors(watches@);
    let ghost m0 = highlights@;
    let ghost es = entries@;
    let mut j: usize = start;
    assert(filtered@.subrange(start as int, start as int) =~= Seq::<usize>::empty());
    while j < filtered.len()
        invariant
            start <= j <= filtered@.len(),
            es == entries@,
            ps == patterns(ws0),
            cs == colors(ws0),
            same_watch_text(watches@, ws0),
            highlights@ == hl_fold(ps, cs, es, m0, filtered@.subrange(start as int, j as int), skip_known),
            forall|w: int| 0 <= w < ws0.len() ==> #[trigger] ws0[w].match_count <= start,
            forall|w: int|
                0 <= w < ws0.len() ==> #[trigger] watches@[w].match_count == ws0[w].match_count
                    + hl_tally(ps, cs, es, m0, filtered@.subrange(start as int, j as int), skip_known, w),
        decreases filtered@.len() - j,
    {
        let ghost done = filtered@.subrange(start as int, j as int);
        let ghost next = filtered@.subrange(start as int, j + 1);
        assert(next.drop_last() =~= done);
        assert(next.last() == filtered@[j as int]);
        let ghost prev = highlights@;
        proof {
            lemma_same_watch_text(watches@, ws0);
            assert forall|w: int| 0 <= w < ws0.len() implies #[trigger] watches@[w].match_count <= j by {
                lemma_tally_bound(ps, cs, es, m0, done, skip_known, w);
            }
        }
        let idx = filtered[j];
        let known = skip_known && highlights.contains_key(&idx);
        if !known && idx < entries.len() {
            match first_matching_watch(watches, &entries[idx]) {
                Some(k) => {
                    let color = watches[k].color_index;
                    let count = watches[k].match_count;
                    watches[k].match_count = count + 1;
                    highlights.insert(idx, color);
                    proof {
                        assert(!(skip_known && prev.contains_key(idx)));
                        assert(es[idx as int] == entries@[idx as int]);
                        assert(first_hit(ps, es[idx as int]) == Some(k as int));
                        assert(hl_pick(ps, es, prev, idx, skip_known) == Some(k as int));
                        assert forall|w: int| 0 <= w < ws0.len() implies #[trigger] watches@[w].match_count
                            == ws0[w].match_count + hl_tally(ps, cs, es, m0, next, skip_known, w) by {
                            if w == k as int {
                            } else {
                            }
                        }
                    }
                },
                None => {
                    proof {
                        assert(hl_pick(ps, es, prev, idx, skip_known) is None);
                    }
                },
            }
        } else {
            proof {
                assert(hl_pick(ps, es, prev, idx, skip_known) is None);
            }
        }
        j += 1;
    }
    proof {
        assert(filtered@.subrange(start as int, j as int) =~= filtered@.skip(start as int));
        assert forall|w: int| 0 <= w < ws0.len() implies #[trigger] watches@[w].match_count
            <= filtered@.len() by {
            lemma_tally_bound(ps, cs, es, m0, filtered@.skip(start as int), skip_known, w);
        }
    }
}

/// `k` is the first shown row at or after entry position `x`.
pub open spec fn is_first_at_or_after(fi: Seq<usize>, x: usize, k: int) -> bool {
    &&& 0 <= k < fi.len()
    &&& fi[k] >= x
    &&& forall|j: int| 0 <= j < k ==> #[trigger] fi[j] < x
}

/// The first shown row at or after entry position `x`.
fn first_row_at_or_after(fi: &Vec<usize>, x: usize) -> (r: Option<usize>)
    ensures
        match r {
            Some(k) => is_first_at_or_after(fi@, x, k as int),
            None => forall|j: int| 0 <= j < fi@.len() ==> #[trigger] fi@[j] < x,
        },
{
    let mut k: usize = 0;
    while k < fi.len()
        invariant
            k <= fi@.len(),
            forall|j: int| 0 <= j < k ==> #[trigger] fi@[j] < x,
        decreases fi@.len() - k,
    {
        if fi[k] >= x {
            return Some(k);
        }
        k += 1;
    }
    None
}

proof fn lemma_visible_bounds(f: Filter, pid: Option<u32>, es: Seq<LogEntry>, base: int)
    requires
        es.len() <= usize::MAX,
    ensures
        forall|k: int|
            0 <= k < visible_after(f, pid, es, base).len() ==> base <= #[trigger] visible_after(
                f,
                pid,
                es,
                base,
            )[k] < es.len(),
        forall|a: int, b: int|
            0 <= a < b < visible_after(f, pid, es, base).len() ==> #[trigger] visible_after(
                f,
                pid,
                es,
                base,
            )[a] < #[trigger] visible_after(f, pid, es, base)[b],
        visible_after(f, pid, es, base).len() <= es.len(),
    decreases es.len(),
{
    if es.len() > 0 && es.len() > base {
        lemma_visible_bounds(f, pid, es.drop_last(), base);
    }
}

impl Pane {
    /// Recompute the watch highlights and match counts over the shown
    /// entries.
    pub fn rebuild_watch_highlights(&mut self)
        ensures
            same_watch_text(final(self).watches@, old(self).watches@),
            final(self).watch_highlights@ == hl_fold(
                patterns(old(self).watches@),
                colors(old(self).watches@),
                old(self).entries@,
                Map::empty(),
                old(self).filtered_indices@,
                false,
            ),
            forall|w: int|
                0 <= w < old(self).watches@.len() ==> #[trigger] final(self).watches@[w].match_count
                    == hl_tally(
                    patterns(old(self).watches@),
                    colors(old(self).watches@),
                    old(self).entries@,
                    Map::empty(),
                    old(self).filtered_indices@,
                    false,
                    w,
                ),
            *final(self) == (Pane {
                watches: final(self).watches,
                watch_highlights: final(self).watch_highlights,
                last_watch_scanned_count: old(self).filtered_indices@.len() as usize,
                ..*old(self)
            }),
    {
        broadcast use vstd::std_specs::hash::group_hash_axioms;

        self.watch_highlights.clear();
        let mut ws: Vec<UiWatch> = Vec::new();
        std::mem::swap(&mut ws, &mut self.watches);
        let ghost ws0 = ws@;
        let mut k: usize = 0;
        while k < ws.len()
            invariant
                k <= ws@.len(),
                same_watch_text(ws@, ws0),
                forall|w: int| 0 <= w < k ==> #[trigger] ws@[w].match_count == 0,
            decreases ws@.len() - k,
        {
            ws[k].match_count = 0;
            k += 1;
        }
        proof {
            lemma_same_watch_text(ws@, ws0);
            assert(self.filtered_indices@.skip(0) =~= self.filtered_indices@);
        }
        scan_watch_matches(
            &mut ws,
            &mut self.watch_highlights,
            &self.entries,
            &self.filtered_indices,
            0,
            false,
        );
        self.watches = ws;
        self.last_watch_scanned_count = self.filtered_indices.len();
    }

    /// Recompute which entries the filter shows, the search hits among them
    /// (while the search is open) and the watch highlights; scroll to the
    /// bottom.
    pub fn rebuild_filtered(&mut self)
        ensures
            final(self).filtered_indices@ == visible(
                old(self).filter,
                old(self).pid_filter,
                old(self).entries@,
            ),
            final(self).search_match_indices@ == if old(self).search_open {
                search_hits(old(self).filter, old(self).entries@, final(self).filtered_indices@)
            } else {
                seq![]
            },
            same_watch_text(final(self).watches@, old(self).watches@),
            final(self).watch_highlights@ == hl_fold(
                patterns(old(self).watches@),
                colors(old(self).watches@),
                old(self).entries@,
                Map::empty(),
                final(self).filtered_indices@,
                false,
            ),
            forall|w: int|
                0 <= w < old(self).watches@.len() ==> #[trigger] final(self).watches@[w].match_count
                    == hl_tally(
                    patterns(old(self).watches@),
                    colors(old(self).watches@),
                    old(self).entries@,
                    Map::empty(),
                    final(self).filtered_indices@,
                    false,
                    w,
                ),
            *final(self) == (Pane {
                filtered_indices: final(self).filtered_indices,
                search_match_indices: final(self).search_match_indices,
                watches: final(self).watches,
                watch_highlights: final(self).watch_highlights,
                last_watch_scanned_count: final(self).filtered_indices@.len() as usize,
                scroll_to_bottom: true,
                ..*old(self)
            }),
            old(self).detector_idle() ==> final(self).wf(),
            final(self).refiltered(*old(self)),
            old(self).crash_line_indices@ == crash_lines_of(reports_view(old(self).crash_reports@))
                ==> final(self).synced(),
    {
        let mut filtered: Vec<usize> = Vec::new();
        let mut hits: Vec<usize> = Vec::new();
        let ghost es = self.entries@;
        let mut i: usize = 0;
        assert(es.take(0) =~= Seq::<LogEntry>::empty());
        while i < self.entries.len()
            invariant
                i <= es.len(),
                es == self.entries@,
                filtered@ == visible(self.filter, self.pid_filter, es.take(i as int)),
                hits@ == if self.search_open {
                    search_hits(self.filter, es, filtered@)
                } else {
                    seq![]
                },
                forall|k: int| 0 <= k < filtered@.len() ==> #[trigger] filtered@[k] < i,
            decreases es.len() - i,
        {
            assert(es.take(i + 1).drop_last() =~= es.take(i as int));
            assert(es.take(i + 1).last() == es[i as int]);
            if self.filter.matches(&self.entries[i], self.pid_filter) {
                let ghost before = filtered@;
                filtered.push(i);
                assert(filtered@.drop_last() =~= before);
                if self.search_open && self.filter.matches_search(&self.entries[i]) {
                    hits.push(filtered.len() - 1);
                }
            }
            i += 1;
        }
        assert(es.take(i as int) =~= es);
        self.filtered_indices = filtered;
        self.search_match_indices = hits;
        self.rebuild_watch_highlights();
        self.scroll_to_bottom = true;
        let shown = self.filtered_indices.len();
        proof {
            lemma_same_watch_text(self.watches@, old(self).watches@);
            lemma_visible_bounds(self.filter, self.pid_filter, es, 0);
            assert forall|w: int| 0 <= w < self.watches@.len() implies #[trigger] self.watches@[w].match_count
                <= self.scanned() by {
                lemma_tally_bound(
                    patterns(old(self).watches@),
                    colors(old(self).watches@),
                    es,
                    Map::empty(),
                    self.filtered_indices@,
                    false,
                    w,
                );
            }
        }
    }

    /// Search the shown entries for the search input (while the search is
    /// open and the input gives a search); the current hit is the first.
    pub fn update_search(&mut self)
        requires
            forall|k: int|
                0 <= k < old(self).filtered_indices@.len() ==> #[trigger] old(
                    self,
                ).filtered_indices@[k] < old(self).entries@.len(),
        ensures
            search_set(old(self).filter, final(self).filter, old(self).search_input@),
            final(self).search_match_indices@ == if old(self).search_open
                && final(self).filter.search_regex is Some {
                search_hits(final(self).filter, old(self).entries@, old(self).filtered_indices@)
            } else {
                seq![]
            },
            *final(self) == (Pane {
                filter: final(self).filter,
                search_match_indices: final(self).search_match_indices,
                search_current: 0,
                ..*old(self)
            }),
            old(self).synced() ==> final(self).synced(),
    {
        let query = self.search_input.clone();
        self.filter.set_search(query.as_str());
        let mut hits: Vec<usize> = Vec::new();
        if self.search_open && self.filter.search_regex.is_some() {
            let ghost fi = self.filtered_indices@;
            let mut k: usize = 0;
            assert(fi.take(0) =~= Seq::<usize>::empty());
            while k < self.filtered_indices.len()
                invariant
                    k <= fi.len(),
                    fi == self.filtered_indices@,
                    forall|j: int| 0 <= j < fi.len() ==> #[trigger] fi[j] < self.entries@.len(),
                    hits@ == search_hits(self.filter, self.entries@, fi.take(k as int)),
                decreases fi.len() - k,
            {
                assert(fi.take(k + 1).drop_last() =~= fi.take(k as int));
                assert(fi.take(k + 1).last() == fi[k as int]);
                let ei = self.filtered_indices[k];
                if self.filter.matches_search(&self.entries[ei]) {
                    hits.push(k);
                }
                k += 1;
            }
            assert(fi.take(k as int) =~= fi);
        }
        self.search_match_indices = hits;
        self.search_current = 0;
        proof {
            assert forall|e: EntryModel| #[trigger] self.filter.accepts(e, self.pid_filter) == old(
                self,
            ).filter.accepts(e, self.pid_filter) by {}
            lemma_visible_same_filter(self.filter, old(self).filter, self.pid_filter, self.entries@, 0);
        }
    }

    /// Move to the next search hit, wrapping around; its shown row.
    pub fn search_next(&mut self) -> (r: Option<usize>)
        requires
            old(self).search_current < usize::MAX,
        ensures
            old(self).search_match_indices@.len() == 0 ==> r is None && *final(self) == *old(self),
            old(self).search_match_indices@.len() > 0 ==> {
                &&& final(self).search_current == (old(self).search_current + 1)
                    % old(self).search_match_indices@.len() as int
                &&& r == Some(old(self).search_match_indices@[final(self).search_current as int])
                &&& *final(self) == (Pane { search_current: final(self).search_current, ..*old(self) })
            },
    {
        if self.search_match_indices.len() == 0 {
            return None;
        }
        self.search_current = (self.search_current + 1) % self.search_match_indices.len();
        Some(self.search_match_indices[self.search_current])
    }

    /// Move to the previous search hit, wrapping around; its shown row.
    pub fn search_prev(&mut self) -> (r: Option<usize>)
        requires
            old(self).search_current <= old(self).search_match_indices@.len(),
        ensures
            old(self).search_match_indices@.len() == 0 ==> r is None && *final(self) == *old(self),
            old(self).search_match_indices@.len() > 0 ==> {
                &&& final(self).search_current == if old(self).search_current == 0 {
                    old(self).search_match_indices@.len() - 1
                } else {
                    old(self).search_current - 1
                }
                &&& r == Some(old(self).search_match_indices@[final(self).search_current as int])
                &&& *final(self) == (Pane { search_current: final(self).search_current, ..*old(self) })
            },
    {
        if self.search_match_indices.len() == 0 {
            return None;
        }
        if self.search_current == 0 {
            self.search_current = self.search_match_indices.len() - 1;
        } else {
            self.search_current = self.search_current - 1;
        }
        Some(self.search_match_indices[self.search_current])
    }

    /// Move to the next crash, wrapping around; the first shown row at or
    /// after its first entry.
    pub fn next_crash(&mut self) -> (r: Option<usize>)
        requires
            old(self).crash_nav_index matches Some(i) ==> i < usize::MAX,
        ensures
            old(self).crash_reports@.len() == 0 ==> r is None && *final(self) == *old(self),
            old(self).crash_reports@.len() > 0 ==> {
                let n = old(self).crash_reports@.len();
                let nav = match old(self).crash_nav_index {
                    Some(i) => ((i + 1) % n as int) as usize,
                    None => 0usize,
                };
                &&& *final(self) == (Pane { crash_nav_index: Some(nav), ..*old(self) })
                &&& match r {
                    Some(k) => is_first_at_or_after(
                        old(self).filtered_indices@,
                        old(self).crash_reports@[nav as int].first_index,
                        k as int,
                    ),
                    None => forall|j: int|
                        0 <= j < old(self).filtered_indices@.len() ==> #[trigger] old(
                            self,
                        ).filtered_indices@[j] < old(self).crash_reports@[nav as int].first_index,
                }
            },
    {
        if self.crash_reports.len() == 0 {
            return None;
        }
        let idx = match self.crash_nav_index {
            Some(i) => (i + 1) % self.crash_reports.len(),
            None => 0,
        };
        self.crash_nav_index = Some(idx);
        let entry_idx = self.crash_reports[idx].first_index;
        first_row_at_or_after(&self.filtered_indices, entry_idx)
    }

    /// Move to the previous crash, wrapping around; the first shown row at
    /// or after its first entry.
    pub fn prev_crash(&mut self) -> (r: Option<usize>)
        requires
            old(self).crash_nav_index matches Some(i) ==> i <= old(self).crash_reports@.len(),
        ensures
            old(self).crash_reports@.len() == 0 ==> r is None && *final(self) == *old(self),
            old(self).crash_reports@.len() > 0 ==> {
                let n = old(self).crash_reports@.len();
                let nav = match old(self).crash_nav_index {
                    Some(i) => if i == 0 {
                        (n - 1) as usize
                    } else {
                        (i - 1) as usize
                    },
                    None => (n - 1) as usize,
                };
                &&& *final(self) == (Pane { crash_nav_index: Some(nav), ..*old(self) })
                &&& match r {
                    Some(k) => is_first_at_or_after(
                        old(self).filtered_indices@,
                        old(self).crash_reports@[nav as int].first_index,
                        k as int,
                    ),
                    None => forall|j: int|
                        0 <= j < old(self).filtered_indices@.len() ==> #[trigger] old(
                            self,
                        ).filtered_indices@[j] < old(self).crash_reports@[nav as int].first_index,
                }
            },
    {
        if self.crash_reports.len() == 0 {
            return None;
        }
        let idx = match self.crash_nav_index {
            Some(i) => if i == 0 {
                self.crash_reports.len() - 1
            } else {
                i - 1
            },
            None => self.crash_reports.len() - 1,
        };
        self.crash_nav_index = Some(idx);
        let entry_idx = self.crash_reports[idx].first_index;
        first_row_at_or_after(&self.filtered_indices, entry_idx)
    }
}

/// The number of entries above which a pane compacts.
pub open spec fn compact_threshold_spec(capacity: usize) -> int {
    if capacity + compact_batch_size_spec(capacity) > usize::MAX {
        usize::MAX as int
    } else {
        capacity + compact_batch_size_spec(capacity)
    }
}

/// Each report spans positions from its first to its last, all below `n`.
pub open spec fn reports_within(rs: Seq<CrashReport>, n: int) -> bool {
    forall|k: int|
        0 <= k < rs.len() ==> #[trigger] rs[k].first_index <= rs[k].last_index && rs[k].last_index < n
}

/// The crashes found in entries numbered from `n0` lie among them.
proof fn lemma_fresh_within(fresh: Seq<CrashReport>, batch: Seq<LogEntry>, n0: int)
    requires
        0 <= n0,
        n0 + batch.len() <= usize::MAX,
        reports_view(fresh) == detect_all(shifted(batch, n0)),
    ensures
        reports_within(fresh, n0 + batch.len()),
{
    let sh = shifted(batch, n0);
    assert forall|a: int, b: int| 0 <= a < b < sh.len() implies sh[a].0 < sh[b].0 by {}
    assert(increasing(sh));
    law_reports_within(sh);
    assert(sh.len() > 0 ==> sh.last().0 == n0 + batch.len() - 1);
    assert forall|k: int| 0 <= k < fresh.len() implies #[trigger] fresh[k].first_index
        <= fresh[k].last_index && fresh[k].last_index < n0 + batch.len() by {
        assert(reports_view(fresh)[k] == fresh[k]@);
        assert(detect_all(sh)[k].first_index <= detect_all(sh)[k].last_index);
    }
}

/// Whether the list of seen tags holds `tag`.
fn has_tag(tags: &Vec<String>, tag: &str) -> (b: bool)
    ensures
        b == sviews(tags@).contains(tag@),
{
    let mut k: usize = 0;
    while k < tags.len()
        invariant
            k <= tags@.len(),
            forall|j: int| 0 <= j < k ==> #[trigger] sviews(tags@)[j] != tag@,
        decreases tags@.len() - k,
    {
        if str_eq(tags[k].as_str(), tag) {
            assert(sviews(tags@)[k as int] == tag@);
            return true;
        }
        k += 1;
    }
    false
}

/// Mark the positions each report spans as crash lines.
fn mark_crash_lines(lines: &mut HashSet<usize>, reports: &Vec<CrashReport>)
    requires
        forall|k: int| 0 <= k < reports@.len() ==> #[trigger] reports@[k].first_index <= reports@[k].last_index,
    ensures
        final(lines)@ == old(lines)@.union(crash_lines_of(reports_view(reports@))),
{
    broadcast use vstd::std_specs::hash::group_hash_axioms;

    let ghost base = lines@;
    let ghost rs = reports_view(reports@);
    let mut k: usize = 0;
    assert(rs.take(0) =~= Seq::<ReportModel>::empty());
    assert(base.union(Set::empty()) =~= base);
    while k < reports.len()
        invariant
            k <= reports@.len(),
            rs == reports_view(reports@),
            forall|q: int| 0 <= q < reports@.len() ==> #[trigger] reports@[q].first_index <= reports@[q].last_index,
            lines@ == base.union(crash_lines_of(rs.take(k as int))),
        decreases reports@.len() - k,
    {
        let first = reports[k].first_index;
        let last = reports[k].last_index;
        let ghost acc = lines@;
        let mut i = first;
        assert(acc.union(Set::new(|x: usize| first <= x < first)) =~= acc);
        while i < last
            invariant
                first <= i <= last,
                lines@ == acc.union(Set::new(|x: usize| first <= x < i)),
            decreases last - i,
        {
            lines.insert(i);
            assert(acc.union(Set::new(|x: usize| first <= x < i)).insert(i) =~= acc.union(
                Set::new(|x: usize| first <= x < i + 1),
            ));
            i += 1;
        }
        lines.insert(last);
        proof {
            assert(rs.take(k + 1).drop_last() =~= rs.take(k as int));
            assert(rs.take(k + 1).last() == reports@[k as int]@);
            assert(acc.union(Set::new(|x: usize| first <= x < last)).insert(last) =~= acc.union(
                span(reports@[k as int]@),
            ));
            assert(lines@ =~= base.union(crash_lines_of(rs.take(k + 1))));
        }
        k += 1;
    }
    assert(rs.take(k as int) =~= rs);
}

impl Pane {
    /// `self` is `base` with the shown entries, search hits, watch
    /// highlights and match counts recomputed, scrolled to the bottom.
    pub open spec fn refiltered(&self, base: Pane) -> bool {
        &&& self.filtered_indices@ == visible(base.filter, base.pid_filter, base.entries@)
        &&& self.search_match_indices@ == if base.search_open {
            search_hits(base.filter, base.entries@, self.filtered_indices@)
        } else {
            seq![]
        }
        &&& same_watch_text(self.watches@, base.watches@)
        &&& self.watch_highlights@ == hl_fold(
            patterns(base.watches@),
            colors(base.watches@),
            base.entries@,
            Map::empty(),
            self.filtered_indices@,
            false,
        )
        &&& forall|w: int|
            0 <= w < base.watches@.len() ==> #[trigger] self.watches@[w].match_count == hl_tally(
                patterns(base.watches@),
                colors(base.watches@),
                base.entries@,
                Map::empty(),
                self.filtered_indices@,
                false,
                w,
            )
        &&& *self == (Pane {
            filtered_indices: self.filtered_indices,
            search_match_indices: self.search_match_indices,
            watches: self.watches,
            watch_highlights: self.watch_highlights,
            last_watch_scanned_count: self.filtered_indices@.len() as usize,
            scroll_to_bottom: true,
            ..base
        })
    }

    /// Recompute what the filter shows after its tag rules were read again
    /// from the tag input.
    pub fn apply_tag_filter(&mut self)
        ensures
            filters_view(final(self).filter.tag_filters@) == parse_filters(old(self).tag_input@),
            final(self).refiltered(
                Pane {
                    filter: Filter { tag_filters: final(self).filter.tag_filters, ..old(self).filter },
                    ..*old(self)
                },
            ),
            old(self).detector_idle() ==> final(self).wf(),
    {
        let filters = Filter::parse_tag_filters(self.tag_input.as_str());
        self.filter.tag_filters = filters;
        self.rebuild_filtered();
    }

    /// Recompute what the filter shows after its iOS process, subsystem and
    /// category filters were read again from their inputs (blank for none).
    pub fn apply_ios_filters(&mut self)
        ensures
            opt_view(final(self).filter.ios_process) == normalize_optional(
                old(self).ios_process_filter_text@,
            ),
            opt_view(final(self).filter.ios_subsystem) == normalize_optional(
                old(self).ios_subsystem_filter_text@,
            ),
            opt_view(final(self).filter.ios_category) == normalize_optional(
                old(self).ios_category_filter_text@,
            ),
            final(self).refiltered(
                Pane {
                    filter: Filter {
                        ios_process: final(self).filter.ios_process,
                        ios_subsystem: final(self).filter.ios_subsystem,
                        ios_category: final(self).filter.ios_category,
                        ..old(self).filter
                    },
                    ..*old(self)
                },
            ),
            old(self).detector_idle() ==> final(self).wf(),
    {
        self.filter.ios_process = normalize_optional_string(self.ios_process_filter_text.as_str());
        self.filter.ios_subsystem = normalize_optional_string(
            self.ios_subsystem_filter_text.as_str(),
        );
        self.filter.ios_category = normalize_optional_string(self.ios_category_filter_text.as_str());
        self.rebuild_filtered();
    }

    /// Add a watch highlighting entries that contain `pattern` (ignoring
    /// ASCII case), in the next colour; recompute the highlights.
    pub fn add_watch(&mut self, name: String, pattern: String)
        ensures
            final(self).watches@.len() == old(self).watches@.len() + 1,
            same_watch_text(final(self).watches@.drop_last(), old(self).watches@),
            final(self).watches@.last().name == name,
            final(self).watches@.last().pattern == pattern,
            final(self).watches@.last().pattern_lower@ == lower(pattern@),
            final(self).watches@.last().color_index == old(self).watches@.len() % (WATCH_COLOR_COUNT as nat),
            final(self).watch_highlights@ == hl_fold(
                patterns(final(self).watches@),
                colors(final(self).watches@),
                old(self).entries@,
                Map::empty(),
                old(self).filtered_indices@,
                false,
            ),
            forall|w: int|
                0 <= w < final(self).watches@.len() ==> #[trigger] final(self).watches@[w].match_count
                    == hl_tally(
                    patterns(final(self).watches@),
                    colors(final(self).watches@),
                    old(self).entries@,
                    Map::empty(),
                    old(self).filtered_indices@,
                    false,
                    w,
                ),
            *final(self) == (Pane {
                watches: final(self).watches,
                watch_highlights: final(self).watch_highlights,
                last_watch_scanned_count: old(self).filtered_indices@.len() as usize,
                ..*old(self)
            }),
    {
        let color_index = self.watches.len() % WATCH_COLOR_COUNT;
        let pc = chars_of(pattern.as_str());
        let lc = lower_chars(&pc);
        let pattern_lower = crate::text::string_from(&lc);
        self.watches.push(UiWatch { name, pattern, pattern_lower, color_index, match_count: 0 });
        let ghost pushed = self.watches@;
        self.rebuild_watch_highlights();
        proof {
            lemma_same_watch_text(self.watches@, pushed);
            assert(self.watches@.drop_last() =~= self.watches@.subrange(0, pushed.len() - 1));
            assert forall|w: int| 0 <= w < old(self).watches@.len() implies (#[trigger] self.watches@.drop_last()[w]).name
                == old(self).watches@[w].name && self.watches@.drop_last()[w].pattern
                == old(self).watches@[w].pattern && self.watches@.drop_last()[w].pattern_lower
                == old(self).watches@[w].pattern_lower && self.watches@.drop_last()[w].color_index
                == old(self).watches@[w].color_index by {
                assert(pushed[w] == old(self).watches@[w]);
            }
        }
    }

    /// Remove watch `index` (when there is one) and recompute the
    /// highlights.
    pub fn remove_watch(&mut self, index: usize)
        ensures
            index >= old(self).watches@.len() ==> *final(self) == *old(self),
            index < old(self).watches@.len() ==> {
                &&& same_watch_text(final(self).watches@, old(self).watches@.remove(index as int))
                &&& final(self).watch_highlights@ == hl_fold(
                    patterns(final(self).watches@),
                    colors(final(self).watches@),
                    old(self).entries@,
                    Map::empty(),
                    old(self).filtered_indices@,
                    false,
                )
                &&& forall|w: int|
                    0 <= w < final(self).watches@.len() ==> #[trigger] final(self).watches@[w].match_count
                        == hl_tally(
                        patterns(final(self).watches@),
                        colors(final(self).watches@),
                        old(self).entries@,
                        Map::empty(),
                        old(self).filtered_indices@,
                        false,
                        w,
                    )
                &&& *final(self) == (Pane {
                    watches: final(self).watches,
                    watch_highlights: final(self).watch_highlights,
                    last_watch_scanned_count: old(self).filtered_indices@.len() as usize,
                    ..*old(self)
                })
            },
    {
        if index < self.watches.len() {
            self.watches.remove(index);
            let ghost removed = self.watches@;
            self.rebuild_watch_highlights();
            proof {
                lemma_same_watch_text(self.watches@, removed);
            }
        }
    }

    /// Empty the pane's log: entries, shown rows, search hits, crashes,
    /// highlights and match counts. Saved crashes stay.
    pub fn clear(&mut self)
        ensures
            final(self).entries@.len() == 0,
            final(self).filtered_indices@.len() == 0,
            final(self).search_match_indices@.len() == 0,
            final(self).crash_line_indices@ == Set::<usize>::empty(),
            final(self).crash_reports@.len() == 0,
            final(self).watch_highlights@ == Map::<usize, usize>::empty(),
            same_watch_text(final(self).watches@, old(self).watches@),
            forall|w: int| 0 <= w < final(self).watches@.len() ==> #[trigger] final(self).watches@[w].match_count == 0,
            final(self).detector_idle(),
            final(self).wf(),
            final(self).synced(),
            *final(self) == (Pane {
                entries: final(self).entries,
                filtered_indices: final(self).filtered_indices,
                search_match_indices: final(self).search_match_indices,
                crash_line_indices: final(self).crash_line_indices,
                crash_reports: final(self).crash_reports,
                crash_nav_index: None,
                crash_detector: final(self).crash_detector,
                watch_highlights: final(self).watch_highlights,
                last_watch_scanned_count: 0,
                watches: final(self).watches,
                ..*old(self)
            }),
    {
        broadcast use vstd::std_specs::hash::group_hash_axioms;

        self.entries.clear();
        self.filtered_indices.clear();
        self.search_match_indices.clear();
        self.crash_line_indices.clear();
        self.crash_reports.clear();
        self.crash_nav_index = None;
        self.crash_detector = CrashDetector::new();
        self.watch_highlights.clear();
        self.last_watch_scanned_count = 0;
        let mut ws: Vec<UiWatch> = Vec::new();
        std::mem::swap(&mut ws, &mut self.watches);
        let ghost ws0 = ws@;
        let mut k: usize = 0;
        while k < ws.len()
            invariant
                k <= ws@.len(),
                same_watch_text(ws@, ws0),
                forall|w: int| 0 <= w < k ==> #[trigger] ws@[w].match_count == 0,
            decreases ws@.len() - k,
        {
            ws[k].match_count = 0;
            k += 1;
        }
        self.watches = ws;
        assert(visible(self.filter, self.pid_filter, self.entries@) =~= Seq::<usize>::empty());
        assert(reports_view(self.crash_reports@) =~= Seq::<ReportModel>::empty());
    }

    /// Detect the crashes in the entries anew and mark their lines.
    pub fn rebuild_crashes(&mut self)
        ensures
            reports_view(final(self).crash_reports@) == detect_all(positioned(old(self).entries@)),
            final(self).crash_line_indices@ == crash_lines_of(reports_view(final(self).crash_reports@)),
            final(self).detector_idle(),
            *final(self) == (Pane {
                crash_line_indices: final(self).crash_line_indices,
                crash_reports: final(self).crash_reports,
                crash_nav_index: None,
                crash_detector: final(self).crash_detector,
                ..*old(self)
            }),
    {
        broadcast use vstd::std_specs::hash::group_hash_axioms;

        self.crash_detector = CrashDetector::new();
        let reports = detect_crashes(self.entries.as_slice());
        let n = self.entries.len();
        proof {
            crate::crash_detector::lemma_positioned_increasing(self.entries@);
            law_reports_within(positioned(self.entries@));
            assert forall|k: int| 0 <= k < reports@.len() implies #[trigger] reports@[k].first_index
                <= reports@[k].last_index by {
                assert(reports_view(reports@)[k] == reports@[k]@);
                assert(detect_all(positioned(self.entries@))[k] == reports@[k]@);
                assert(detect_all(positioned(self.entries@))[k].first_index <= detect_all(
                    positioned(self.entries@),
                )[k].last_index);
            }
        }
        self.crash_line_indices.clear();
        mark_crash_lines(&mut self.crash_line_indices, &reports);
        assert(Set::<usize>::empty().union(crash_lines_of(reports_view(reports@))) =~= crash_lines_of(
            reports_view(reports@),
        ));
        self.crash_reports = reports;
        self.crash_nav_index = None;
    }
}

impl Pane {
    /// Keep each crash with the entries around it (ten before, five after),
    /// dropping the oldest saved crashes beyond `SAVED_CRASH_CAP`.
    pub fn save_crashes(&mut self, reports: &Vec<CrashReport>)
        requires
            reports_within(reports@, old(self).entries@.len() as int),
        ensures
            saved_views(final(self).saved_crashes@) == keep_newest(
                saved_views(old(self).saved_crashes@) + saved_all(
                    old(self).entries@,
                    reports_view(reports@),
                ),
                SAVED_CRASH_CAP as nat,
            ),
            *final(self) == (Pane { saved_crashes: final(self).saved_crashes, ..*old(self) }),
    {
        let mut saved: Vec<SavedCrash> = Vec::new();
        std::mem::swap(&mut saved, &mut self.saved_crashes);
        let ghost s0 = saved_views(saved@);
        let ghost rs = reports_view(reports@);
        let ghost es = self.entries@;
        let n = self.entries.len();
        assert(es == old(self).entries@);
        let mut k: usize = 0;
        assert(saved_all(es, rs.take(0)) =~= Seq::<SavedModel>::empty());
        assert(s0 + Seq::<SavedModel>::empty() =~= s0);
        while k < reports.len()
            invariant
                k <= reports@.len(),
                n == es.len(),
                es == self.entries@,
                rs == reports_view(reports@),
                forall|q: int|
                    0 <= q < reports@.len() ==> #[trigger] reports@[q].first_index
                        <= reports@[q].last_index && reports@[q].last_index < n,
                saved_views(saved@) == s0 + saved_all(es, rs.take(k as int)),
            decreases reports@.len() - k,
        {
            let first = reports[k].first_index;
            let last = reports[k].last_index;
            let ctx_start = if first >= CRASH_CONTEXT_BEFORE {
                first - CRASH_CONTEXT_BEFORE
            } else {
                0
            };
            let ctx_end = if n - last > CRASH_CONTEXT_AFTER + 1 {
                last + CRASH_CONTEXT_AFTER + 1
            } else {
                n
            };
            let mut context: Vec<LogEntry> = Vec::new();
            let mut i = ctx_start;
            while i < ctx_end
                invariant
                    ctx_start <= i <= ctx_end <= n,
                    n == self.entries@.len(),
                    context@.len() == i - ctx_start,
                    forall|j: int|
                        0 <= j < context@.len() ==> (#[trigger] context@[j])@ == self.entries@[ctx_start
                            + j]@,
                decreases ctx_end - i,
            {
                let e = self.entries[i].duplicate();
                context.push(e);
                i += 1;
            }
            assert(entry_views(context@) =~= entry_views(
                self.entries@.subrange(ctx_start as int, ctx_end as int),
            ));
            let pid = match reports[k].pid {
                Some(p) => p,
                None => 0,
            };
            let crash = SavedCrash {
                crash_type: reports[k].crash_type,
                summary: reports[k].headline.clone(),
                timestamp: reports[k].timestamp.clone(),
                pid,
                context_lines: context,
                crash_start_offset: first - ctx_start,
                crash_end_offset: last - ctx_start,
            };
            let ghost before = saved@;
            saved.push(crash);
            proof {
                assert(rs[k as int] == reports@[k as int]@);
                assert(crash@ == saved_of(es, rs[k as int]));
                assert(rs.take(k + 1) =~= rs.take(k as int).push(rs[k as int]));
                assert(saved_all(es, rs.take(k + 1)) =~= saved_all(es, rs.take(k as int)).push(
                    saved_of(es, rs[k as int]),
                ));
                assert(saved_views(saved@) =~= saved_views(before).push(crash@));
            }
            k += 1;
        }
        assert(rs.take(k as int) =~= rs);
        if saved.len() > SAVED_CRASH_CAP {
            let excess = saved.len() - SAVED_CRASH_CAP;
            let ghost whole = saved@;
            let kept = saved.split_off(excess);
            saved = kept;
            assert(saved_views(saved@) =~= saved_views(whole).skip(excess as int));
        }
        self.saved_crashes = saved;
    }

    /// When the pane holds more than its capacity, drop the oldest entries
    /// down to the capacity and recompute the shown entries, search hits,
    /// highlights and crashes; the scroll request stays as it was.
    pub fn compact(&mut self)
        ensures
            old(self).entries@.len() <= old(self).capacity ==> *final(self) == *old(self),
            old(self).entries@.len() > old(self).capacity ==> final(self).entries@
                == old(self).entries@.skip(old(self).entries@.len() - old(self).capacity),
            old(self).entries@.len() > old(self).capacity ==> (Pane {
                scroll_to_bottom: true,
                ..*final(self)
            }).refiltered(
                Pane {
                    entries: final(self).entries,
                    crash_line_indices: final(self).crash_line_indices,
                    crash_reports: final(self).crash_reports,
                    crash_nav_index: None,
                    crash_detector: final(self).crash_detector,
                    ..*old(self)
                },
            ),
            old(self).entries@.len() > old(self).capacity ==> final(self).scroll_to_bottom == old(
                self,
            ).scroll_to_bottom,
            old(self).entries@.len() > old(self).capacity ==> reports_view(final(self).crash_reports@)
                == detect_all(positioned(final(self).entries@)),
            old(self).entries@.len() > old(self).capacity ==> final(self).crash_line_indices@
                == crash_lines_of(reports_view(final(self).crash_reports@)),
            old(self).entries@.len() > old(self).capacity ==> final(self).wf(),
            old(self).entries@.len() > old(self).capacity ==> final(self).synced(),
    {
        let len = self.entries.len();
        let drain_count = if len > self.capacity {
            len - self.capacity
        } else {
            0
        };
        if drain_count == 0 {
            return;
        }
        let scroll_to_bottom = self.scroll_to_bottom;
        let kept = self.entries.split_off(drain_count);
        self.entries = kept;
        self.crash_detector = CrashDetector::new();
        self.rebuild_filtered();
        let ghost refiltered = *self;
        self.rebuild_crashes();
        self.scroll_to_bottom = scroll_to_bottom;
        let shown = self.filtered_indices.len();
        proof {
            lemma_same_watch_text(self.watches@, old(self).watches@);
            assert(refiltered.wf());
            assert(self.filtered_indices@ == visible(self.filter, self.pid_filter, self.entries@));
            assert(self.scanned() == self.filtered_indices@.len());
            assert(self.watch_highlights@ == hl_fold(
                patterns(self.watches@),
                colors(self.watches@),
                self.entries@,
                Map::empty(),
                self.filtered_indices@,
                false,
            ));
            assert(self.crash_line_indices@ == crash_lines_of(reports_view(self.crash_reports@)));
        }
    }
}

/// The positions the filter shows among the entries `batch` appends to
/// `base`'s.
pub open spec fn batch_visible(base: Pane, batch: Seq<LogEntry>) -> Seq<usize> {
    visible_after(base.filter, base.pid_filter, base.entries@ + batch, base.entries@.len() as int)
}

/// The crashes found in the entries `batch` appends to `base`'s.
pub open spec fn batch_crashes(base: Pane, batch: Seq<LogEntry>) -> Seq<ReportModel> {
    detect_all(shifted(batch, base.entries@.len() as int))
}

impl Pane {
    /// Append the batch: record new tags, show the entries the filter
    /// passes and feed them to the crash detector, emitting what it holds at
    /// the end. Gives the crashes found and whether any entry is shown.
    #[verifier::rlimit(30)]
    #[verifier::spinoff_prover]
    fn take_in(&mut self, batch: Vec<LogEntry>) -> (r: (Vec<CrashReport>, bool))
        requires
            old(self).detector_idle(),
        ensures
            final(self).entries@ == old(self).entries@ + batch@,
            sviews(final(self).seen_tags@) == add_tags(sviews(old(self).seen_tags@), batch@),
            final(self).filtered_indices@ == old(self).filtered_indices@ + batch_visible(*old(self), batch@),
            r.1 == (batch_visible(*old(self), batch@).len() > 0),
            reports_view(r.0@) == batch_crashes(*old(self), batch@),
            reports_within(r.0@, final(self).entries@.len() as int),
            forall|k: int|
                0 <= k < batch_visible(*old(self), batch@).len() ==> old(self).entries@.len()
                    <= #[trigger] batch_visible(*old(self), batch@)[k] < final(self).entries@.len(),
            final(self).detector_idle(),
            *final(self) == (Pane {
                entries: final(self).entries,
                seen_tags: final(self).seen_tags,
                filtered_indices: final(self).filtered_indices,
                crash_detector: final(self).crash_detector,
                ..*old(self)
            }),
    {
        let n0 = self.entries.len();
        let mut incoming = batch;
        self.entries.append(&mut incoming);
        let n = self.entries.len();
        let ghost all = self.entries@;
        let ghost f = self.filter;
        let ghost pid = self.pid_filter;
        let ghost sh = shifted(all.skip(n0 as int), n0 as int);
        assert(all.skip(n0 as int) =~= batch@);
        let mut seen: Vec<String> = Vec::new();
        std::mem::swap(&mut seen, &mut self.seen_tags);
        let mut filtered: Vec<usize> = Vec::new();
        std::mem::swap(&mut filtered, &mut self.filtered_indices);
        let mut detector = CrashDetector::new();
        std::mem::swap(&mut detector, &mut self.crash_detector);
        let mut fresh: Vec<CrashReport> = Vec::new();
        let mut added = false;
        let ghost seen0 = sviews(seen@);
        let ghost fi0 = filtered@;
        let mut i = n0;
        assert(all.subrange(n0 as int, n0 as int) =~= Seq::<LogEntry>::empty());
        assert(sh.take(0) =~= Seq::<(usize, EntryModel)>::empty());
        while i < n
            invariant
                n0 <= i <= n,
                n == all.len(),
                all == self.entries@,
                f == self.filter,
                pid == self.pid_filter,
                sh == shifted(all.skip(n0 as int), n0 as int),
                sviews(seen@) == add_tags(seen0, all.subrange(n0 as int, i as int)),
                filtered@ == fi0 + visible_after(f, pid, all.take(i as int), n0 as int),
                added == (visible_after(f, pid, all.take(i as int), n0 as int).len() > 0),
                detector.pending() == run(sh.take(i - n0)).0,
                reports_view(fresh@) == run(sh.take(i - n0)).1,
            decreases n - i,
        {
            proof {
                assert(all.subrange(n0 as int, i + 1).drop_last() =~= all.subrange(n0 as int, i as int));
                assert(all.take(i + 1).drop_last() =~= all.take(i as int));
                assert(sh.take(i + 1 - n0).drop_last() =~= sh.take(i - n0));
                assert(sh.take(i + 1 - n0).last() == (i, all[i as int]@));
            }
            let e = &self.entries[i];
            if !has_tag(&seen, e.tag.as_str()) {
                let ghost before = seen@;
                seen.push(e.tag.clone());
                assert(sviews(seen@) =~= sviews(before).push(e.tag@));
            }
            let passes = self.filter.matches(e, self.pid_filter);
            match detector.feed(i, e) {
                Some(r) => {
                    let ghost before = fresh@;
                    fresh.push(r);
                    assert(reports_view(fresh@) =~= reports_view(before).push(r@));
                },
                None => {},
            }
            if passes {
                filtered.push(i);
                added = true;
            }
            proof {
                let v0 = visible_after(f, pid, all.take(i as int), n0 as int);
                assert(all.take(i + 1).last() == all[i as int]);
                if passes {
                    assert(filtered@ =~= fi0 + v0.push(i));
                }
            }
            i += 1;
        }
        assert(all.take(n as int) =~= all);
        assert(sh.take(n - n0) =~= sh);
        match detector.flush() {
            Some(r) => {
                let ghost before = fresh@;
                fresh.push(r);
                assert(reports_view(fresh@) =~= reports_view(before).push(r@));
            },
            None => {},
        }
        assert(reports_view(fresh@) == detect_all(sh));
        self.crash_detector = detector;
        self.seen_tags = seen;
        self.filtered_indices = filtered;
        proof {
            lemma_fresh_within(fresh@, batch@, n0 as int);
            lemma_visible_bounds(f, pid, all, n0 as int);
        }
        (fresh, added)
    }
}

/// Appending `batch` to `base`'s entries takes it past its compaction
/// threshold.
pub open spec fn ingest_compacts(base: Pane, batch: Seq<LogEntry>) -> bool {
    (base.entries@ + batch).len() > compact_threshold_spec(base.capacity)
}

impl Pane {
    /// Take in a batch of entries from the capture (dropped while the pane
    /// is paused): record new tags, show those the filter passes, feed the
    /// crash detector (emitting what it holds at the end of the batch),
    /// mark and save the new crashes, highlight the new shown entries for
    /// the watches, and compact once past the compaction threshold.
    #[verifier::rlimit(40)]
    #[verifier::spinoff_prover]
    pub fn ingest_entries(&mut self, batch: Vec<LogEntry>)
        requires
            old(self).wf(),
        ensures
            old(self).paused ==> *final(self) == *old(self),
            !old(self).paused ==> final(self).wf(),
            !old(self).paused && old(self).synced() ==> final(self).synced(),
            !old(self).paused ==> sviews(final(self).seen_tags@) == add_tags(
                sviews(old(self).seen_tags@),
                batch@,
            ),
            !old(self).paused ==> saved_views(final(self).saved_crashes@) == keep_newest(
                saved_views(old(self).saved_crashes@) + saved_all(
                    old(self).entries@ + batch@,
                    batch_crashes(*old(self), batch@),
                ),
                SAVED_CRASH_CAP as nat,
            ),
            !old(self).paused ==> final(self).scroll_to_bottom == (old(self).scroll_to_bottom || (
            batch_visible(*old(self), batch@).len() > 0 && old(self).auto_scroll)),
            !old(self).paused ==> same_watch_text(final(self).watches@, old(self).watches@),
            !old(self).paused ==> *final(self) == (Pane {
                entries: final(self).entries,
                filtered_indices: final(self).filtered_indices,
                search_match_indices: final(self).search_match_indices,
                scroll_to_bottom: final(self).scroll_to_bottom,
                seen_tags: final(self).seen_tags,
                crash_line_indices: final(self).crash_line_indices,
                crash_reports: final(self).crash_reports,
                crash_nav_index: final(self).crash_nav_index,
                watches: final(self).watches,
                watch_highlights: final(self).watch_highlights,
                last_watch_scanned_count: final(self).last_watch_scanned_count,
                crash_detector: final(self).crash_detector,
                saved_crashes: final(self).saved_crashes,
                ..*old(self)
            }),
            !old(self).paused && !ingest_compacts(*old(self), batch@) ==> {
                let news = batch_visible(*old(self), batch@);
                &&& final(self).entries@ == old(self).entries@ + batch@
                &&& final(self).filtered_indices@ == old(self).filtered_indices@ + news
                &&& final(self).search_match_indices == old(self).search_match_indices
                &&& reports_view(final(self).crash_reports@) == reports_view(old(self).crash_reports@)
                    + batch_crashes(*old(self), batch@)
                &&& final(self).crash_line_indices@ == old(self).crash_line_indices@.union(
                    crash_lines_of(batch_crashes(*old(self), batch@)),
                )
                &&& final(self).crash_nav_index == old(self).crash_nav_index
                &&& if news.len() > 0 && old(self).watches@.len() > 0 {
                    &&& final(self).watch_highlights@ == hl_fold(
                        patterns(old(self).watches@),
                        colors(old(self).watches@),
                        final(self).entries@,
                        old(self).watch_highlights@,
                        final(self).filtered_indices@.skip(old(self).scanned() as int),
                        true,
                    )
                    &&& forall|w: int|
                        0 <= w < old(self).watches@.len() ==> #[trigger] final(self).watches@[w].match_count
                            == old(self).watches@[w].match_count + hl_tally(
                            patterns(old(self).watches@),
                            colors(old(self).watches@),
                            final(self).entries@,
                            old(self).watch_highlights@,
                            final(self).filtered_indices@.skip(old(self).scanned() as int),
                            true,
                            w,
                        )
                    &&& final(self).scanned() == final(self).filtered_indices@.len()
                } else {
                    &&& final(self).watch_highlights == old(self).watch_highlights
                    &&& final(self).watches == old(self).watches
                    &&& final(self).scanned() == if news.len() > 0 {
                        final(self).filtered_indices@.len()
                    } else {
                        old(self).scanned() as nat
                    }
                }
            },
            !old(self).paused && ingest_compacts(*old(self), batch@) ==> {
                let all = old(self).entries@ + batch@;
                &&& final(self).entries@ == all.skip(all.len() - old(self).capacity)
                &&& final(self).synced()
                &&& final(self).search_match_indices@ == if old(self).search_open {
                    search_hits(old(self).filter, final(self).entries@, final(self).filtered_indices@)
                } else {
                    seq![]
                }
                &&& reports_view(final(self).crash_reports@) == detect_all(
                    positioned(final(self).entries@),
                )
                &&& final(self).crash_nav_index is None
            },
    {
        if self.paused {
            return;
        }
        let ghost input = batch@;
        let (mut fresh, added) = self.take_in(batch);
        self.save_crashes(&fresh);
        mark_crash_lines(&mut self.crash_line_indices, &fresh);
        if added && self.auto_scroll {
            self.scroll_to_bottom = true;
        }
        let ghost old_reports = self.crash_reports@;
        self.crash_reports.append(&mut fresh);
        assert(reports_view(self.crash_reports@) =~= reports_view(old_reports) + batch_crashes(
            *old(self),
            batch@,
        ));
        if added && self.watches.len() > 0 {
            scan_watch_matches(
                &mut self.watches,
                &mut self.watch_highlights,
                &self.entries,
                &self.filtered_indices,
                self.last_watch_scanned_count,
                true,
            );
        }
        if added {
            self.last_watch_scanned_count = self.filtered_indices.len();
        }
        let shown = self.filtered_indices.len();
        let total = self.entries.len();
        proof {
            if old(self).synced() {
                lemma_ingest_keeps_sync(*old(self), *self, input);
            }
        }
        if self.entries.len() > compact_threshold(self.capacity) {
            self.compact();
        }
    }
}

// ---------------------------------------------------------------------------
// Keeping a pane in sync
// ---------------------------------------------------------------------------

proof fn lemma_visible_split(f: Filter, pid: Option<u32>, es: Seq<LogEntry>, b: int)
    requires
        0 <= b <= es.len(),
    ensures
        visible(f, pid, es) == visible(f, pid, es.take(b)) + visible_after(f, pid, es, b),
    decreases es.len(),
{
    if es.len() == b {
        assert(es.take(b) =~= es);
        assert(visible(f, pid, es.take(b)) + Seq::<usize>::empty() =~= visible(f, pid, es.take(b)));
    } else {
        let pre = es.drop_last();
        lemma_visible_split(f, pid, pre, b);
        assert(pre.take(b) =~= es.take(b));
        let x = (es.len() - 1) as usize;
        if f.accepts(es.last()@, pid) {
            assert(visible(f, pid, es.take(b)) + visible_after(f, pid, pre, b).push(x) =~= (visible(
                f,
                pid,
                es.take(b),
            ) + visible_after(f, pid, pre, b)).push(x));
        }
    }
}

proof fn lemma_visible_same_filter(f1: Filter, f2: Filter, pid: Option<u32>, es: Seq<LogEntry>, b: int)
    requires
        forall|e: EntryModel| #[trigger] f1.accepts(e, pid) == f2.accepts(e, pid),
    ensures
        visible_after(f1, pid, es, b) == visible_after(f2, pid, es, b),
    decreases es.len(),
{
    if es.len() > 0 && es.len() > b {
        lemma_visible_same_filter(f1, f2, pid, es.drop_last(), b);
        assert(f1.accepts(es.last()@, pid) == f2.accepts(es.last()@, pid));
    }
}

/// Scanning positions below `n` reads only the first `n` entries.
proof fn lemma_hl_prefix(
    ps: Seq<Seq<char>>,
    cs: Seq<usize>,
    es: Seq<LogEntry>,
    n: int,
    m: Map<usize, usize>,
    idxs: Seq<usize>,
    skip: bool,
)
    requires
        0 <= n <= es.len(),
        forall|k: int| 0 <= k < idxs.len() ==> #[trigger] idxs[k] < n,
    ensures
        hl_fold(ps, cs, es.take(n), m, idxs, skip) == hl_fold(ps, cs, es, m, idxs, skip),
        forall|w: int|
            #[trigger] hl_tally(ps, cs, es.take(n), m, idxs, skip, w) == hl_tally(ps, cs, es, m, idxs, skip, w),
    decreases idxs.len(),
{
    if idxs.len() > 0 {
        let pre = idxs.drop_last();
        assert forall|k: int| 0 <= k < pre.len() implies #[trigger] pre[k] < n by {
            assert(pre[k] == idxs[k]);
        }
        lemma_hl_prefix(ps, cs, es, n, m, pre, skip);
        let i = idxs.last();
        assert(idxs[idxs.len() - 1] < n);
        assert(es.take(n)[i as int] == es[i as int]);
        assert forall|w: int| #[trigger] hl_tally(ps, cs, es.take(n), m, idxs, skip, w) == hl_tally(
            ps,
            cs,
            es,
            m,
            idxs,
            skip,
            w,
        ) by {
            assert(hl_tally(ps, cs, es.take(n), m, pre, skip, w) == hl_tally(ps, cs, es, m, pre, skip, w));
        }
    }
}

/// Scanning `a` then `b` is scanning `a + b`.
proof fn lemma_hl_concat(
    ps: Seq<Seq<char>>,
    cs: Seq<usize>,
    es: Seq<LogEntry>,
    m: Map<usize, usize>,
    a: Seq<usize>,
    b: Seq<usize>,
    skip: bool,
)
    ensures
        hl_fold(ps, cs, es, m, a + b, skip) == hl_fold(ps, cs, es, hl_fold(ps, cs, es, m, a, skip), b, skip),
        forall|w: int|
            #[trigger] hl_tally(ps, cs, es, m, a + b, skip, w) == hl_tally(ps, cs, es, m, a, skip, w)
                + hl_tally(ps, cs, es, hl_fold(ps, cs, es, m, a, skip), b, skip, w),
    decreases b.len(),
{
    if b.len() == 0 {
        assert(a + b =~= a);
    } else {
        lemma_hl_concat(ps, cs, es, m, a, b.drop_last(), skip);
        assert((a + b).drop_last() =~= a + b.drop_last());
        assert((a + b).last() == b.last());
        let ma = hl_fold(ps, cs, es, m, a, skip);
        assert forall|w: int| #[trigger] hl_tally(ps, cs, es, m, a + b, skip, w) == hl_tally(
            ps,
            cs,
            es,
            m,
            a,
            skip,
            w,
        ) + hl_tally(ps, cs, es, ma, b, skip, w) by {
            assert(hl_tally(ps, cs, es, m, a + b.drop_last(), skip, w) == hl_tally(ps, cs, es, m, a, skip, w)
                + hl_tally(ps, cs, es, ma, b.drop_last(), skip, w));
        }
    }
}

/// A scan adds only the positions it scans.
proof fn lemma_hl_domain(
    ps: Seq<Seq<char>>,
    cs: Seq<usize>,
    es: Seq<LogEntry>,
    m: Map<usize, usize>,
    idxs: Seq<usize>,
    skip: bool,
    x: usize,
)
    requires
        !m.contains_key(x),
        forall|k: int| 0 <= k < idxs.len() ==> #[trigger] idxs[k] != x,
    ensures
        !hl_fold(ps, cs, es, m, idxs, skip).contains_key(x),
    decreases idxs.len(),
{
    if idxs.len() > 0 {
        let pre = idxs.drop_last();
        assert forall|k: int| 0 <= k < pre.len() implies #[trigger] pre[k] != x by {
            assert(pre[k] == idxs[k]);
        }
        lemma_hl_domain(ps, cs, es, m, pre, skip, x);
        assert(idxs[idxs.len() - 1] != x);
    }
}

/// Over positions not highlighted yet and each scanned once, passing over
/// highlighted entries changes nothing.
proof fn lemma_hl_skip_fresh(
    ps: Seq<Seq<char>>,
    cs: Seq<usize>,
    es: Seq<LogEntry>,
    m: Map<usize, usize>,
    idxs: Seq<usize>,
)
    requires
        forall|k: int| 0 <= k < idxs.len() ==> !m.contains_key(#[trigger] idxs[k]),
        forall|a: int, c: int| 0 <= a < c < idxs.len() ==> #[trigger] idxs[a] < #[trigger] idxs[c],
    ensures
        hl_fold(ps, cs, es, m, idxs, true) == hl_fold(ps, cs, es, m, idxs, false),
        forall|w: int|
            #[trigger] hl_tally(ps, cs, es, m, idxs, true, w) == hl_tally(ps, cs, es, m, idxs, false, w),
    decreases idxs.len(),
{
    if idxs.len() > 0 {
        let pre = idxs.drop_last();
        let x = idxs.last();
        assert forall|k: int| 0 <= k < pre.len() implies !m.contains_key(#[trigger] pre[k]) by {
            assert(pre[k] == idxs[k]);
        }
        assert forall|a: int, c: int| 0 <= a < c < pre.len() implies #[trigger] pre[a] < #[trigger] pre[c] by {
            assert(pre[a] == idxs[a] && pre[c] == idxs[c]);
        }
        lemma_hl_skip_fresh(ps, cs, es, m, pre);
        assert(!m.contains_key(idxs[idxs.len() - 1]));
        assert forall|k: int| 0 <= k < pre.len() implies #[trigger] pre[k] != x by {
            assert(pre[k] == idxs[k]);
            assert(idxs[k] < idxs[idxs.len() - 1]);
        }
        lemma_hl_domain(ps, cs, es, m, pre, false, x);
        assert forall|w: int| #[trigger] hl_tally(ps, cs, es, m, idxs, true, w) == hl_tally(
            ps,
            cs,
            es,
            m,
            idxs,
            false,
            w,
        ) by {
            assert(hl_tally(ps, cs, es, m, pre, true, w) == hl_tally(ps, cs, es, m, pre, false, w));
        }
    }
}

/// Without watches a scan highlights nothing and counts nothing.
proof fn lemma_hl_no_watches(
    ps: Seq<Seq<char>>,
    cs: Seq<usize>,
    es: Seq<LogEntry>,
    m: Map<usize, usize>,
    idxs: Seq<usize>,
    skip: bool,
)
    requires
        ps.len() == 0,
    ensures
        hl_fold(ps, cs, es, m, idxs, skip) == m,
    decreases idxs.len(),
{
    if idxs.len() > 0 {
        lemma_hl_no_watches(ps, cs, es, m, idxs.drop_last(), skip);
        let i = idxs.last();
        if i < es.len() {
            assert(!exists|k: int| is_first_hit(ps, es[i as int], k));
        }
    }
}

proof fn lemma_lines_concat(a: Seq<ReportModel>, b: Seq<ReportModel>)
    ensures
        crash_lines_of(a + b) == crash_lines_of(a).union(crash_lines_of(b)),
    decreases b.len(),
{
    if b.len() == 0 {
        assert(a + b =~= a);
        assert(crash_lines_of(a).union(Set::empty()) =~= crash_lines_of(a));
    } else {
        lemma_lines_concat(a, b.drop_last());
        assert((a + b).drop_last() =~= a + b.drop_last());
        assert((a + b).last() == b.last());
        assert(crash_lines_of(a).union(crash_lines_of(b.drop_last())).union(span(b.last()))
            =~= crash_lines_of(a).union(crash_lines_of(b.drop_last()).union(span(b.last()))));
    }
}

/// A pane in sync stays in sync when a batch is appended the way
/// `ingest_entries` appends it (before any compaction).
proof fn lemma_ingest_keeps_sync(p: Pane, q: Pane, batch: Seq<LogEntry>)
    requires
        p.wf(),
        p.synced(),
        q.entries@ == p.entries@ + batch,
        q.entries@.len() <= usize::MAX,
        q.filter == p.filter,
        q.pid_filter == p.pid_filter,
        q.filtered_indices@ == p.filtered_indices@ + batch_visible(p, batch),
        q.filtered_indices@.len() <= usize::MAX,
        same_watch_text(q.watches@, p.watches@),
        reports_view(q.crash_reports@) == reports_view(p.crash_reports@) + batch_crashes(p, batch),
        q.crash_line_indices@ == p.crash_line_indices@.union(crash_lines_of(batch_crashes(p, batch))),
        batch_visible(p, batch).len() > 0 && p.watches@.len() > 0 ==> {
            &&& q.watch_highlights@ == hl_fold(
                patterns(p.watches@),
                colors(p.watches@),
                q.entries@,
                p.watch_highlights@,
                q.filtered_indices@.skip(p.scanned() as int),
                true,
            )
            &&& forall|w: int|
                0 <= w < p.watches@.len() ==> #[trigger] q.watches@[w].match_count
                    == p.watches@[w].match_count + hl_tally(
                    patterns(p.watches@),
                    colors(p.watches@),
                    q.entries@,
                    p.watch_highlights@,
                    q.filtered_indices@.skip(p.scanned() as int),
                    true,
                    w,
                )
        },
        !(batch_visible(p, batch).len() > 0 && p.watches@.len() > 0) ==> q.watch_highlights
            == p.watch_highlights && q.watches == p.watches,
        q.scanned() == if batch_visible(p, batch).len() > 0 {
            q.filtered_indices@.len()
        } else {
            p.scanned() as nat
        },
    ensures
        q.synced(),
{
    let all = q.entries@;
    let n0 = p.entries@.len() as int;
    let f = p.filter;
    let pid = p.pid_filter;
    let fi0 = p.filtered_indices@;
    let news = batch_visible(p, batch);
    let ps = patterns(p.watches@);
    let cs = colors(p.watches@);
    let m0 = p.watch_highlights@;
    lemma_same_watch_text(q.watches@, p.watches@);
    assert(all.take(n0) =~= p.entries@);
    lemma_visible_split(f, pid, all, n0);
    lemma_visible_bounds(f, pid, all, n0);
    lemma_hl_prefix(ps, cs, all, n0, Map::empty(), fi0, false);
    assert(q.filtered_indices@ == visible(q.filter, q.pid_filter, q.entries@));
    if news.len() > 0 && p.watches@.len() > 0 {
        assert(q.filtered_indices@.skip(p.scanned() as int) =~= news);
        assert forall|k: int| 0 <= k < news.len() implies !m0.contains_key(#[trigger] news[k]) by {
            assert forall|j: int| 0 <= j < fi0.len() implies #[trigger] fi0[j] != news[k] by {
                assert(fi0[j] < n0);
            }
            lemma_hl_domain(ps, cs, all, Map::empty(), fi0, false, news[k]);
        }
        lemma_hl_skip_fresh(ps, cs, all, m0, news);
        lemma_hl_concat(ps, cs, all, Map::empty(), fi0, news, false);
        assert forall|w: int| 0 <= w < q.watches@.len() implies #[trigger] q.watches@[w].match_count
            == hl_tally(ps, cs, all, Map::empty(), q.filtered_indices@, false, w) by {
            assert(hl_tally(ps, cs, all, m0, news, true, w) == hl_tally(ps, cs, all, m0, news, false, w));
            assert(hl_tally(ps, cs, all, Map::empty(), fi0 + news, false, w) == hl_tally(
                ps,
                cs,
                all,
                Map::empty(),
                fi0,
                false,
                w,
            ) + hl_tally(ps, cs, all, m0, news, false, w));
            assert(hl_tally(ps, cs, p.entries@, Map::empty(), fi0, false, w) == hl_tally(
                ps,
                cs,
                all,
                Map::empty(),
                fi0,
                false,
                w,
            ));
        }
    } else if news.len() > 0 {
        lemma_hl_no_watches(ps, cs, p.entries@, Map::empty(), fi0, false);
        lemma_hl_no_watches(ps, cs, all, Map::empty(), q.filtered_indices@, false);
    } else {
        assert(q.filtered_indices@ =~= fi0);
        assert forall|w: int| 0 <= w < q.watches@.len() implies #[trigger] q.watches@[w].match_count
            == hl_tally(ps, cs, all, Map::empty(), q.filtered_indices@, false, w) by {
            assert(hl_tally(ps, cs, p.entries@, Map::empty(), fi0, false, w) == hl_tally(
                ps,
                cs,
                all,
                Map::empty(),
                fi0,
                false,
                w,
            ));
        }
    }
    lemma_lines_concat(reports_view(p.crash_reports@), batch_crashes(p, batch));
}

impl Pane {
    /// Move the pane to another device: its log is cleared (saved crashes
    /// stay) and its PID, package and iOS filters, their inputs and the
    /// package list are reset.
    pub fn reset_for_device(&mut self, device: Option<String>)
        ensures
            final(self).device == device,
            final(self).entries@.len() == 0,
            final(self).filtered_indices@.len() == 0,
            final(self).search_match_indices@.len() == 0,
            final(self).crash_reports@.len() == 0,
            final(self).crash_nav_index is None,
            final(self).watch_highlights@ == Map::<usize, usize>::empty(),
            same_watch_text(final(self).watches@, old(self).watches@),
            forall|w: int| 0 <= w < final(self).watches@.len() ==> #[trigger] final(self).watches@[w].match_count == 0,
            final(self).pid_filter is None,
            final(self).filter == (Filter {
                package: None,
                ios_process: None,
                ios_subsystem: None,
                ios_category: None,
                ..old(self).filter
            }),
            final(self).packages@.len() == 0,
            !final(self).package_refresh_pending,
            final(self).package_filter_text@.len() == 0,
            final(self).ios_process_filter_text@.len() == 0,
            final(self).ios_subsystem_filter_text@.len() == 0,
            final(self).ios_category_filter_text@.len() == 0,
            final(self).saved_crashes == old(self).saved_crashes,
            final(self).seen_tags == old(self).seen_tags,
            final(self).id == old(self).id,
            final(self).capacity == old(self).capacity,
            final(self).wf(),
            final(self).synced(),
    {
        self.clear();
        self.device = device;
        self.pid_filter = None;
        self.filter.package = None;
        self.filter.ios_process = None;
        self.filter.ios_subsystem = None;
        self.filter.ios_category = None;
        self.packages = Vec::new();
        self.package_refresh_pending = false;
        self.package_filter_text = String::new();
        self.ios_process_filter_text = String::new();
        self.ios_subsystem_filter_text = String::new();
        self.ios_category_filter_text = String::new();
        assert(visible(self.filter, self.pid_filter, self.entries@) =~= Seq::<usize>::empty());
    }
}

/// Rows a pane shows in wrap mode: the newest this many.
pub const MAX_WRAP_ROWS: usize = 5000;

/// How a copied log line reads: timestamp, level letter, tag and message.
pub open spec fn line_text(e: LogEntry) -> Seq<char> {
    e.timestamp@ + " "@ + seq![level_char(e.level)] + " "@ + e.tag@ + " "@ + e.message@
}

/// The line an entry is copied as.
pub fn entry_line(entry: &LogEntry) -> (s: String)
    ensures
        s@ == line_text(*entry),
{
    let mut s = String::new();
    s.append(entry.timestamp.as_str());
    s.append(" ");
    push_char(&mut s, entry.level.as_char());
    s.append(" ");
    s.append(entry.tag.as_str());
    s.append(" ");
    s.append(entry.message.as_str());
    s
}

/// The copied lines of shown rows `lo..=hi`, in order, skipping rows that
/// name no entry.
pub open spec fn copied_lines(entries: Seq<LogEntry>, shown: Seq<usize>, lo: int, hi: int) -> Seq<Seq<char>>
    decreases hi - lo + 1,
{
    if hi < lo {
        Seq::empty()
    } else {
        let rest = copied_lines(entries, shown, lo, hi - 1);
        if hi < shown.len() && shown[hi] < entries.len() {
            rest.push(line_text(entries[shown[hi] as int]))
        } else {
            rest
        }
    }
}

proof fn lemma_copied_beyond(entries: Seq<LogEntry>, shown: Seq<usize>, lo: int, hi: int)
    requires
        hi >= shown.len(),
    ensures
        copied_lines(entries, shown, lo, hi) == copied_lines(entries, shown, lo, shown.len() - 1),
    decreases hi - shown.len(),
{
    if hi > shown.len() {
        lemma_copied_beyond(entries, shown, lo, hi - 1);
    }
}

/// What a context-menu tag action adds to the tag filter.
#[derive(Debug, Clone, Copy, PartialEq, Eq, Structural)]
pub enum TagActionKind {
    Include,
    Exclude,
    Like,
}

pub open spec fn tag_action_prefix(k: TagActionKind) -> Seq<char> {
    match k {
        TagActionKind::Include => "tag:"@,
        TagActionKind::Exclude => "tag-:"@,
        TagActionKind::Like => "tag~:"@,
    }
}

/// The tag input after a rule is added to it: the rule alone, or the input
/// trimmed, a space and the rule.
pub open spec fn with_tag_rule(input: Seq<char>, rule: Seq<char>) -> Seq<char> {
    if input.len() == 0 {
        rule
    } else {
        trim(input) + " "@ + rule
    }
}

/// How a shown row is highlighted.
#[derive(Debug, Clone, Copy, PartialEq, Eq, Structural)]
pub enum RowHighlight {
    /// The current search hit.
    SearchCurrent,
    /// Part of the selection.
    Selected,
    /// Another search hit.
    SearchMatch,
    Plain,
}

/// `"↑ <n> older entries hidden in wrap mode"`.
pub fn hidden_rows_label(hidden: usize) -> (s: String)
    ensures
        s@ == "↑ "@ + decimal(hidden as nat) + " older entries hidden in wrap mode"@,
{
    let mut s = "↑ ".to_string();
    push_decimal(&mut s, hidden as u64);
    s.append(" older entries hidden in wrap mode");
    s
}

impl Pane {
    /// The shown row the current search hit is on, while the search is open
    /// and has hits.
    pub open spec fn search_row(&self) -> Option<usize> {
        if self.search_open && self.search_match_indices@.len() > 0 {
            Some(
                if self.search_current < self.search_match_indices@.len() {
                    self.search_match_indices@[self.search_current as int]
                } else {
                    0
                },
            )
        } else {
            None
        }
    }

    /// The shown row the current search hit is on, while the search is open
    /// and has hits (the first row when the hit position is out of range).
    pub fn search_highlight_row(&self) -> (r: Option<usize>)
        ensures
            r == self.search_row(),
    {
        if self.search_open && self.search_match_indices.len() > 0 {
            if self.search_current < self.search_match_indices.len() {
                Some(self.search_match_indices[self.search_current])
            } else {
                Some(0)
            }
        } else {
            None
        }
    }

    pub open spec fn highlight_of(&self, fi: int) -> Option<RowHighlight> {
        if fi < 0 || fi >= self.filtered_indices@.len() || self.filtered_indices@[fi] >= self.entries@.len() {
            None
        } else if self.search_row() == Some(fi as usize) {
            Some(RowHighlight::SearchCurrent)
        } else if (match self.selection() {
            Some((lo, hi)) => lo <= fi <= hi,
            None => false,
        }) {
            Some(RowHighlight::Selected)
        } else if self.search_open && self.filter.search_finds(
            self.entries@[self.filtered_indices@[fi] as int],
        ) {
            Some(RowHighlight::SearchMatch)
        } else {
            Some(RowHighlight::Plain)
        }
    }

    /// How shown row `fi` is highlighted; none for a row that names no entry
    /// (it is not drawn).
    pub fn row_highlight(&self, fi: usize) -> (r: Option<RowHighlight>)
        ensures
            r == self.highlight_of(fi as int),
    {
        if fi >= self.filtered_indices.len() {
            return None;
        }
        let ei = self.filtered_indices[fi];
        if ei >= self.entries.len() {
            return None;
        }
        if self.search_highlight_row() == Some(fi) {
            Some(RowHighlight::SearchCurrent)
        } else if self.is_row_selected(fi) {
            Some(RowHighlight::Selected)
        } else if self.search_open && self.filter.matches_search(&self.entries[ei]) {
            Some(RowHighlight::SearchMatch)
        } else {
            Some(RowHighlight::Plain)
        }
    }

    /// The first shown row drawn in wrap mode: all but the newest
    /// `MAX_WRAP_ROWS` are hidden.
    pub fn wrap_start(&self) -> (n: usize)
        ensures
            n == if self.filtered_indices@.len() > MAX_WRAP_ROWS {
                self.filtered_indices@.len() - MAX_WRAP_ROWS
            } else {
                0
            },
    {
        if self.filtered_indices.len() > MAX_WRAP_ROWS {
            self.filtered_indices.len() - MAX_WRAP_ROWS
        } else {
            0
        }
    }

    /// A click on shown row `fi`: with `extend` (shift held) and an anchor
    /// set, the selection runs to this row; otherwise it starts here.
    pub fn click_row(&mut self, fi: usize, extend: bool)
        ensures
            extend && old(self).selection_anchor is Some ==> *final(self) == (Pane {
                selection_end: Some(fi),
                ..*old(self)
            }),
            !(extend && old(self).selection_anchor is Some) ==> *final(self) == (Pane {
                selection_anchor: Some(fi),
                selection_end: None,
                ..*old(self)
            }),
    {
        if extend && self.selection_anchor.is_some() {
            self.selection_end = Some(fi);
        } else {
            self.selection_anchor = Some(fi);
            self.selection_end = None;
        }
    }

    /// The user scrolled up: stop following new entries.
    pub fn note_scroll(&mut self, scrolled_up: bool)
        ensures
            *final(self) == (Pane { auto_scroll: old(self).auto_scroll && !scrolled_up, ..*old(self) }),
    {
        if scrolled_up && self.auto_scroll {
            self.auto_scroll = false;
        }
    }

    pub open spec fn selection_lines(&self) -> Seq<Seq<char>> {
        match self.selection() {
            Some((lo, hi)) => copied_lines(self.entries@, self.filtered_indices@, lo as int, hi as int),
            None => Seq::empty(),
        }
    }

    /// The copied lines of the selected rows, in order; rows that name no
    /// entry are left out.
    pub fn selected_lines(&self) -> (r: Vec<String>)
        ensures
            sviews(r@) == self.selection_lines(),
    {
        let mut r: Vec<String> = Vec::new();
        match self.selected_range() {
            None => {
                assert(sviews(r@) =~= Seq::<Seq<char>>::empty());
                r
            },
            Some((lo, hi)) => {
                let mut fi = lo;
                while fi <= hi && fi < self.filtered_indices.len()
                    invariant
                        lo <= fi,
                        fi <= hi + 1,
                        fi <= self.filtered_indices@.len() || fi == lo,
                        sviews(r@) == copied_lines(self.entries@, self.filtered_indices@, lo as int, fi - 1),
                    decreases self.filtered_indices@.len() - fi,
                {
                    let ei = self.filtered_indices[fi];
                    if ei < self.entries.len() {
                        let line = entry_line(&self.entries[ei]);
                        r.push(line);
                    }
                    assert(sviews(r@) =~= copied_lines(self.entries@, self.filtered_indices@, lo as int, fi as int));
                    fi += 1;
                }
                proof {
                    if fi <= hi {
                        lemma_copied_beyond(self.entries@, self.filtered_indices@, lo as int, hi as int);
                    }
                }
                assert(sviews(r@) == self.selection_lines());
                r
            },
        }
    }

    /// The text the copy shortcut puts on the clipboard: the selected lines
    /// joined by newlines, when there is one.
    pub fn selection_text(&self) -> (r: Option<String>)
        ensures
            self.selection_lines().len() == 0 ==> r is None,
            self.selection_lines().len() > 0 ==> (r matches Some(t) && t@ == join(self.selection_lines(), "\n"@)),
    {
        let lines = self.selected_lines();
        if lines.len() == 0 {
            None
        } else {
            Some(join_strings(&lines, "\n"))
        }
    }

    /// The context menu's entry for copying several selected rows:
    /// `"📋 Copy <n> selected lines"` when more than one row is selected.
    pub fn selection_copy_label(&self) -> (r: Option<String>)
        ensures
            match self.selection() {
                Some((lo, hi)) => if hi > lo {
                    r matches Some(t) && t@ == "📋 Copy "@ + decimal((hi - lo + 1) as nat) + " selected lines"@
                } else {
                    r is None
                },
                None => r is None,
            },
    {
        match self.selected_range() {
            Some((lo, hi)) => if hi > lo {
                let mut t = "📋 Copy ".to_string();
                push_decimal_u128(&mut t, (hi - lo) as u128 + 1);
                t.append(" selected lines");
                Some(t)
            } else {
                None
            },
            None => None,
        }
    }

    /// Add a rule for `tag` to the tag input from a row's context menu and
    /// apply the filter; gives the new tag expression, for the history.
    pub fn apply_tag_action(&mut self, kind: TagActionKind, tag: &str) -> (expr: String)
        ensures
            final(self).tag_input@ == with_tag_rule(old(self).tag_input@, tag_action_prefix(kind) + tag@),
            final(self).prev_tag_input@ == final(self).tag_input@,
            expr@ == final(self).tag_input@,
            filters_view(final(self).filter.tag_filters@) == parse_filters(final(self).tag_input@),
            final(self).refiltered(
                Pane {
                    filter: Filter { tag_filters: final(self).filter.tag_filters, ..old(self).filter },
                    tag_input: final(self).tag_input,
                    prev_tag_input: final(self).prev_tag_input,
                    ..*old(self)
                },
            ),
            old(self).detector_idle() ==> final(self).wf(),
    {
        let mut rule = match kind {
            TagActionKind::Include => "tag:".to_string(),
            TagActionKind::Exclude => "tag-:".to_string(),
            TagActionKind::Like => "tag~:".to_string(),
        };
        rule.append(tag);
        if self.tag_input.as_str().is_empty() {
            self.tag_input = rule;
        } else {
            let mut t = trim_str(self.tag_input.as_str());
            t.append(" ");
            t.append(rule.as_str());
            self.tag_input = t;
        }
        self.prev_tag_input = self.tag_input.clone();
        self.apply_tag_filter();
        self.tag_input.clone()
    }
}

impl Pane {
    /// A PID looked up again for the pane's package: when it differs from the
    /// filter's, the filter takes it and the shown entries are recomputed;
    /// gives whether it changed.
    pub fn update_pid_filter(&mut self, pid: Option<u32>) -> (changed: bool)
        ensures
            changed == (old(self).pid_filter != pid),
            !changed ==> *final(self) == *old(self),
            changed ==> final(self).pid_filter == pid && final(self).refiltered(
                Pane { pid_filter: pid, ..*old(self) },
            ),
            changed && old(self).detector_idle() ==> final(self).wf(),
    {
        if self.pid_filter == pid {
            return false;
        }
        self.pid_filter = pid;
        self.rebuild_filtered();
        true
    }
}

} // verus!
