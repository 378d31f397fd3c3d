//! Decisions of the pane workspace: which pane gets focus, when panes may
//! split or close, which device a new or reconnected pane follows, and the
//! history of tag filters.
use vstd::prelude::*;
use crate::capture::{ConnectedDevice, DevicePlatform, platform_label};
use crate::log_entry::{LogLevel, normalize_optional, opt_view};
use crate::filter::{filters_view, parse_filters};
use crate::pane::{Pane, PaneNode, SplitDir, depth_of_spec, pane_seq};
use crate::qr_pairing::QrPairStatus;
use crate::named::{lemma_distinct_push, lemma_distinct_remove, lemma_named_absent, lemma_named_at, lemma_named_remove, lemma_named_update, named_map, names_distinct};
use crate::text::{chars_of, join, join_strings, lines, split_lines, str_eq, string_from, sviews, trim, trim_str, vviews};

verus! {

/// Most tag filters the history keeps.
pub const TAG_HISTORY_MAX: usize = 50;

/// Splits stop at this depth.
pub const MAX_SPLIT_DEPTH: usize = 2;

// ---------------------------------------------------------------------------
// Focus
// ---------------------------------------------------------------------------

/// `k` is the first position of `id`.
pub open spec fn is_first_pos(ids: Seq<u64>, id: u64, k: int) -> bool {
    &&& 0 <= k < ids.len()
    &&& ids[k] == id
    &&& forall|j: int| 0 <= j < k ==> #[trigger] ids[j] != id
}

/// The position of the focused pane (the first if it is not there).
pub open spec fn focus_pos(ids: Seq<u64>, focused: u64) -> int {
    if exists|k: int| is_first_pos(ids, focused, k) {
        choose|k: int| is_first_pos(ids, focused, k)
    } else {
        0
    }
}

fn position_of(ids: &Vec<u64>, id: u64) -> (r: Option<usize>)
    ensures
        match r {
            Some(k) => is_first_pos(ids@, id, k as int) && focus_pos(ids@, id) == k as int,
            None => !ids@.contains(id) && focus_pos(ids@, id) == 0,
        },
{
    let mut k: usize = 0;
    while k < ids.len()
        invariant
            k <= ids@.len(),
            forall|j: int| 0 <= j < k ==> #[trigger] ids@[j] != id,
        decreases ids@.len() - k,
    {
        if ids[k] == id {
            proof {
                assert(is_first_pos(ids@, id, k as int));
                let c = choose|q: int| is_first_pos(ids@, id, q);
                if c < k {
                    assert(ids@[c] != id);
                } else if c > k {
                    assert(ids@[k as int] != id);
                }
            }
            return Some(k);
        }
        k += 1;
    }
    proof {
        if exists|q: int| is_first_pos(ids@, id, q) {
            let q = choose|q: int| is_first_pos(ids@, id, q);
            assert(ids@[q] == id);
        }
        if ids@.contains(id) {
            let q = choose|q: int| 0 <= q < ids@.len() && ids@[q] == id;
            assert(ids@[q] != id);
        }
    }
    None
}

/// The pane that takes focus when focus moves on: the one after the
/// focused pane, in layout order, wrapping around (the second when the
/// focused pane is not in the layout).
pub fn next_focus(ids: &Vec<u64>, focused: u64) -> (r: Option<u64>)
    ensures
        ids@.len() == 0 ==> r is None,
        ids@.len() > 0 ==> r == Some(ids@[(focus_pos(ids@, focused) + 1) % (ids@.len() as int)]),
{
    if ids.len() == 0 {
        return None;
    }
    let pos = match position_of(ids, focused) {
        Some(k) => k,
        None => 0,
    };
    Some(ids[(pos + 1) % ids.len()])
}

/// The pane focused after panes were closed: the focused one while it is
/// still in the layout, else the first pane (0 for none).
pub fn focus_after_close(ids: &Vec<u64>, focused: u64) -> (r: u64)
    ensures
        r == if ids@.contains(focused) {
            focused
        } else if ids@.len() > 0 {
            ids@[0]
        } else {
            0
        },
{
    match position_of(ids, focused) {
        Some(_) => focused,
        None => if ids.len() > 0 {
            ids[0]
        } else {
            0
        },
    }
}

/// Whether the focused pane may be split: panes nest at most two splits
/// deep.
pub fn can_split(layout: &PaneNode, focused: u64) -> (b: bool)
    requires
        pane_seq(*layout).len() <= usize::MAX,
    ensures
        b == (match depth_of_spec(*layout, focused) {
            Some(d) => d,
            None => 0,
        } < MAX_SPLIT_DEPTH),
{
    proof {
        crate::pane::lemma_depth_below_count(*layout);
        crate::pane::law_depth_of_finds_panes(*layout, focused);
    }
    let depth = match layout.depth_of(focused) {
        Some(d) => d,
        None => 0,
    };
    depth < MAX_SPLIT_DEPTH
}

/// Whether a pane may be closed: the last one stays.
pub fn can_close(layout: &PaneNode) -> (b: bool)
    requires
        pane_seq(*layout).len() <= usize::MAX,
    ensures
        b == (pane_seq(*layout).len() > 1),
{
    layout.count() > 1
}

/// The device a new pane follows: the focused pane's, else the first
/// connected device.
pub fn new_pane_device(focused_device: Option<String>, devices: &[ConnectedDevice]) -> (r: Option<
    String,
>)
    ensures
        opt_view(r) == match opt_view(focused_device) {
            Some(d) => Some(d),
            None => if devices@.len() > 0 {
                Some(devices@[0].id@)
            } else {
                None
            },
        },
{
    match focused_device {
        Some(d) => Some(d),
        None => if devices.len() > 0 {
            Some(devices[0].id.clone())
        } else {
            None
        },
    }
}

// ---------------------------------------------------------------------------
// Reconnecting devices
// ---------------------------------------------------------------------------

/// What a pane does when the device list changes.
#[derive(Debug, Clone, PartialEq, Eq)]
pub enum DeviceReconcile {
    /// Its device was connected before and still is: nothing to do.
    Keep,
    /// Its device has just appeared: attach its capture.
    Attach,
    /// Its device reappeared under another id with the same platform and
    /// name: follow that id and attach its capture.
    Rebind(String),
    /// Its device is gone: leave the pane as it is.
    Leave,
}

/// The key by which a reconnected device is recognised: its platform's
/// label and its name.
pub open spec fn reconnect_key(d: ConnectedDevice) -> Seq<char> {
    platform_label(d.platform) + "::"@ + d.name@
}

pub open spec fn has_id(devices: Seq<ConnectedDevice>, id: Seq<char>) -> bool {
    exists|i: int| 0 <= i < devices.len() && (#[trigger] devices[i]).id@ == id
}

/// `i` is the first device with this id.
pub open spec fn first_with_id(devices: Seq<ConnectedDevice>, id: Seq<char>, i: int) -> bool {
    &&& 0 <= i < devices.len()
    &&& devices[i].id@ == id
    &&& forall|j: int| 0 <= j < i ==> (#[trigger] devices[j]).id@ != id
}

/// `i` is the last device with this reconnect key.
pub open spec fn last_with_key(devices: Seq<ConnectedDevice>, key: Seq<char>, i: int) -> bool {
    &&& 0 <= i < devices.len()
    &&& reconnect_key(devices[i]) == key
    &&& forall|j: int| i < j < devices.len() ==> reconnect_key(#[trigger] devices[j]) != key
}

/// What a pane on `device` does when the device list goes from `before` to
/// `after`.
pub open spec fn reconcile(before: Seq<ConnectedDevice>, after: Seq<ConnectedDevice>, device: Seq<char>) -> Option<
    Option<Seq<char>>,
> {
    if has_id(after, device) {
        if has_id(before, device) {
            None
        } else {
            Some(None)
        }
    } else if exists|i: int| first_with_id(before, device, i) {
        let i = choose|i: int| first_with_id(before, device, i);
        let key = reconnect_key(before[i]);
        if exists|j: int| last_with_key(after, key, j) {
            Some(Some(after[choose|j: int| last_with_key(after, key, j)].id@))
        } else {
            None
        }
    } else {
        None
    }
}

fn find_id(devices: &[ConnectedDevice], id: &str) -> (r: Option<usize>)
    ensures
        match r {
            Some(i) => first_with_id(devices@, id@, i as int),
            None => !has_id(devices@, id@),
        },
{
    let mut i: usize = 0;
    while i < devices.len()
        invariant
            i <= devices@.len(),
            forall|j: int| 0 <= j < i ==> (#[trigger] devices@[j]).id@ != id@,
        decreases devices@.len() - i,
    {
        if crate::text::str_eq(devices[i].id.as_str(), id) {
            return Some(i);
        }
        i += 1;
    }
    None
}

fn key_of(d: &ConnectedDevice) -> (s: String)
    ensures
        s@ == reconnect_key(*d),
{
    let mut s = d.platform.label().to_string();
    s.append("::");
    s.append(d.name.as_str());
    s
}

proof fn lemma_first_with_id_unique(devices: Seq<ConnectedDevice>, id: Seq<char>, a: int, b: int)
    requires
        first_with_id(devices, id, a),
        first_with_id(devices, id, b),
    ensures
        a == b,
{
    if a < b {
        assert(devices[a].id@ != id);
    } else if b < a {
        assert(devices[b].id@ != id);
    }
}

proof fn lemma_last_with_key_unique(devices: Seq<ConnectedDevice>, key: Seq<char>, a: int, b: int)
    requires
        last_with_key(devices, key, a),
        last_with_key(devices, key, b),
    ensures
        a == b,
{
    if a < b {
        assert(reconnect_key(devices[b]) != key);
    } else if b < a {
        assert(reconnect_key(devices[a]) != key);
    }
}

/// What a pane on `device` does when the device list goes from `before` to
/// `after`: a device still there is kept, one that appeared is attached,
/// one that reappeared with the same platform and name under a new id (the
/// last such) is followed, and otherwise the pane is left alone.
pub fn reconcile_pane_device(before: &[ConnectedDevice], after: &[ConnectedDevice], device: &str) -> (r:
    DeviceReconcile)
    ensures
        match reconcile(before@, after@, device@) {
            None => r == DeviceReconcile::Keep || r == DeviceReconcile::Leave,
            Some(None) => r == DeviceReconcile::Attach,
            Some(Some(id)) => r matches DeviceReconcile::Rebind(s) && s@ == id,
        },
        (r == DeviceReconcile::Keep) <==> (has_id(after@, device@) && has_id(before@, device@)),
{
    match find_id(after, device) {
        Some(ai) => {
            proof {
                assert(has_id(after@, device@)) by {
                    assert(after@[ai as int].id@ == device@);
                }
            }
            match find_id(before, device) {
                Some(bi) => {
                    proof {
                        assert(before@[bi as int].id@ == device@);
                    }
                    DeviceReconcile::Keep
                },
                None => DeviceReconcile::Attach,
            }
        },
        None => match find_id(before, device) {
            Some(bi) => {
                let key = key_of(&before[bi]);
                proof {
                    let c = choose|i: int| first_with_id(before@, device@, i);
                    lemma_first_with_id_unique(before@, device@, c, bi as int);
                }
                let mut j = after.len();
                while j > 0
                    invariant
                        j <= after@.len(),
                        !has_id(after@, device@),
                        first_with_id(before@, device@, bi as int),
                        key@ == reconnect_key(before@[bi as int]),
                        forall|q: int| j <= q < after@.len() ==> reconnect_key(#[trigger] after@[q]) != key@,
                    decreases j,
                {
                    let k = key_of(&after[j - 1]);
                    if crate::text::str_eq(k.as_str(), key.as_str()) {
                        proof {
                            assert(last_with_key(after@, key@, j - 1));
                            let c = choose|q: int| last_with_key(after@, key@, q);
                            lemma_last_with_key_unique(after@, key@, c, j - 1);
                        }
                        return DeviceReconcile::Rebind(after[j - 1].id.clone());
                    }
                    j -= 1;
                }
                proof {
                    if exists|q: int| last_with_key(after@, key@, q) {
                        let q = choose|q: int| last_with_key(after@, key@, q);
                        assert(reconnect_key(after@[q]) != key@);
                    }
                }
                DeviceReconcile::Leave
            },
            None => {
                proof {
                    if exists|i: int| first_with_id(before@, device@, i) {
                        let i = choose|i: int| first_with_id(before@, device@, i);
                        assert(before@[i].id@ == device@);
                    }
                }
                DeviceReconcile::Leave
            },
        },
    }
}

// ---------------------------------------------------------------------------
// Tag filter history
// ---------------------------------------------------------------------------

/// The history after using tag filter `t` (trimmed): it moves to the front,
/// once, and the history keeps its newest `TAG_HISTORY_MAX`.
pub open spec fn remembered(history: Seq<Seq<char>>, t: Seq<char>) -> Seq<Seq<char>> {
    let rest = history.filter(|h: Seq<char>| h != t);
    let all = seq![t] + rest;
    if all.len() > TAG_HISTORY_MAX {
        all.take(TAG_HISTORY_MAX as int)
    } else {
        all
    }
}

/// Record a tag filter in the history; blank filters are not recorded.
pub fn remember_tag(history: &mut Vec<String>, tag_expr: &str)
    ensures
        trim(tag_expr@).len() == 0 ==> final(history)@ == old(history)@,
        trim(tag_expr@).len() > 0 ==> sviews(final(history)@) == remembered(
            sviews(old(history)@),
            trim(tag_expr@),
        ),
{
    let t = trim_str(tag_expr);
    if t.as_str().is_empty() {
        return;
    }
    let ghost hs = sviews(history@);
    let mut out: Vec<String> = Vec::new();
    out.push(t.clone());
    let mut i: usize = 0;
    assert(hs.take(0).filter(|h: Seq<char>| h != t@) =~= Seq::<Seq<char>>::empty());
    while i < history.len()
        invariant
            i <= history@.len(),
            hs == sviews(history@),
            sviews(out@) == seq![t@] + hs.take(i as int).filter(|h: Seq<char>| h != t@),
        decreases history@.len() - i,
    {
        let ghost before = sviews(out@);
        if !crate::text::str_eq(history[i].as_str(), t.as_str()) {
            out.push(history[i].clone());
            assert(sviews(out@) =~= before.push(hs[i as int]));
        }
        proof {
            let f = |h: Seq<char>| h != t@;
            assert(hs.take(i + 1).drop_last() =~= hs.take(i as int));
            assert(hs.take(i + 1).last() == hs[i as int]);
            hs.take(i as int).lemma_filter_push(hs[i as int], f);
            assert(hs.take(i as int).push(hs[i as int]) =~= hs.take(i + 1));
            if hs[i as int] != t@ {
                assert(seq![t@] + hs.take(i + 1).filter(f) =~= (seq![t@] + hs.take(i as int).filter(f)).push(hs[i as int]));
            } else {
                assert(hs.take(i + 1).filter(f) =~= hs.take(i as int).filter(f));
            }
        }
        i += 1;
    }
    assert(hs.take(i as int) =~= hs);
    if out.len() > TAG_HISTORY_MAX {
        out.truncate(TAG_HISTORY_MAX);
    }
    proof {
        assert(sviews(out@) =~= remembered(hs, t@));
    }
    *history = out;
}

/// The tag filter history a saved text holds: its non-blank lines, the
/// first `TAG_HISTORY_MAX` of them.
pub open spec fn history_from(text: Seq<char>) -> Seq<Seq<char>> {
    let kept = lines(text).filter(|l: Seq<char>| trim(l).len() > 0);
    if kept.len() > TAG_HISTORY_MAX {
        kept.take(TAG_HISTORY_MAX as int)
    } else {
        kept
    }
}

/// Read a saved tag filter history.
pub fn tag_history_from_text(text: &str) -> (r: Vec<String>)
    ensures
        sviews(r@) == history_from(text@),
{
    let cs = chars_of(text);
    let ls = split_lines(&cs);
    let ghost all = lines(text@);
    let mut out: Vec<String> = Vec::new();
    let mut i: usize = 0;
    let ghost f = |l: Seq<char>| trim(l).len() > 0;
    assert(all.take(0).filter(f) =~= Seq::<Seq<char>>::empty());
    while i < ls.len()
        invariant
            i <= ls@.len(),
            vviews(ls@) == all,
            f == (|l: Seq<char>| trim(l).len() > 0),
            sviews(out@) == all.take(i as int).filter(f),
        decreases ls@.len() - i,
    {
        let line = string_from(ls[i].as_slice());
        let t = trim_str(line.as_str());
        let ghost before = sviews(out@);
        assert(vviews(ls@)[i as int] == ls@[i as int]@);
        if !t.as_str().is_empty() {
            out.push(line);
            assert(sviews(out@) =~= before.push(all[i as int]));
        }
        proof {
            assert(all.take(i as int).push(all[i as int]) =~= all.take(i + 1));
            all.take(i as int).lemma_filter_push(all[i as int], f);
        }
        i += 1;
    }
    assert(all.take(i as int) =~= all);
    if out.len() > TAG_HISTORY_MAX {
        out.truncate(TAG_HISTORY_MAX);
    }
    proof {
        assert(sviews(out@) =~= history_from(text@));
    }
    out
}

/// The saved text of a tag filter history: one filter per line.
pub fn tag_history_text(history: &Vec<String>) -> (s: String)
    ensures
        s@ == join(sviews(history@), "\n"@),
{
    join_strings(history, "\n")
}

// ---------------------------------------------------------------------------
// Shared captures
// ---------------------------------------------------------------------------
/// What a pane's subscription asks of the app: stop the capture a device
/// had (its relay ended), start one, and whether the pane now reads it.
#[derive(Debug, Clone, Copy, PartialEq, Eq, Structural)]
pub struct SubscribePlan {
    pub stop_previous: bool,
    pub start: bool,
    pub subscribed: bool,
}

/// The reader counts after a pane subscribes to `device`'s capture: one
/// more on a live capture, one on a (re)started capture, and none when the
/// device is gone.
pub open spec fn after_subscribe(m: Map<Seq<char>, usize>, device: Seq<char>, relay_finished: bool, connected: bool) -> Map<
    Seq<char>,
    usize,
> {
    if m.contains_key(device) && !relay_finished {
        m.insert(device, (m[device] + 1) as usize)
    } else if connected {
        m.insert(device, 1)
    } else {
        m.remove(device)
    }
}

/// The reader counts after a pane stops reading `device`'s capture; the
/// capture goes when its last reader leaves.
pub open spec fn after_unsubscribe(m: Map<Seq<char>, usize>, device: Seq<char>) -> Map<Seq<char>, usize> {
    if !m.contains_key(device) {
        m
    } else if m[device] <= 1 {
        m.remove(device)
    } else {
        m.insert(device, (m[device] - 1) as usize)
    }
}

/// The log captures panes share, one per device, with how many panes read
/// each.
pub struct SharedCaptures {
    entries: Vec<(String, usize)>,
}

pub open spec fn entries_view(v: Seq<(String, usize)>) -> Seq<(Seq<char>, usize)> {
    v.map_values(|e: (String, usize)| (e.0@, e.1))
}

impl View for SharedCaptures {
    type V = Map<Seq<char>, usize>;

    closed spec fn view(&self) -> Map<Seq<char>, usize> {
        named_map(entries_view(self.entries@))
    }
}

impl SharedCaptures {
    /// One entry per device, each with a reader.
    pub closed spec fn wf(&self) -> bool {
        &&& names_distinct(entries_view(self.entries@))
        &&& forall|i: int| 0 <= i < self.entries@.len() ==> (#[trigger] self.entries@[i]).1 >= 1
    }

    pub fn new() -> (s: SharedCaptures)
        ensures
            s.wf(),
            s@ == Map::<Seq<char>, usize>::empty(),
    {
        let s = SharedCaptures { entries: Vec::new() };
        assert(entries_view(s.entries@) =~= Seq::empty());
        s
    }

    fn position(&self, device: &str) -> (r: Option<usize>)
        requires
            self.wf(),
        ensures
            match r {
                Some(i) => i < self.entries@.len() && self.entries@[i as int].0@ == device@ && self@.contains_key(
                    device@,
                ) && self@[device@] == self.entries@[i as int].1,
                None => !self@.contains_key(device@),
            },
    {
        let ghost s = entries_view(self.entries@);
        let mut i: usize = 0;
        while i < self.entries.len()
            invariant
                i <= self.entries@.len(),
                s == entries_view(self.entries@),
                names_distinct(s),
                forall|j: int| 0 <= j < i ==> (#[trigger] s[j]).0 != device@,
            decreases self.entries@.len() - i,
        {
            if str_eq(self.entries[i].0.as_str(), device) {
                proof {
                    lemma_named_at(s, i as int);
                }
                return Some(i);
            }
            i += 1;
        }
        proof {
            lemma_named_absent(s, device@);
        }
        None
    }

    /// How many panes read `device`'s capture.
    pub fn readers(&self, device: &str) -> (n: usize)
        requires
            self.wf(),
        ensures
            n == (if self@.contains_key(device@) {
                self@[device@]
            } else {
                0
            }),
    {
        match self.position(device) {
            Some(i) => self.entries[i].1,
            None => 0,
        }
    }

    /// A pane starts reading `device`'s capture. A live capture gains a
    /// reader; one whose relay ended (`relay_finished`) is stopped and, like
    /// a missing one, started again when the device is `connected`.
    pub fn subscribe(&mut self, device: &str, relay_finished: bool, connected: bool) -> (plan: SubscribePlan)
        requires
            old(self).wf(),
            old(self)@.contains_key(device@) ==> old(self)@[device@] < usize::MAX,
        ensures
            final(self).wf(),
            final(self)@ == after_subscribe(old(self)@, device@, relay_finished, connected),
            plan.stop_previous == (old(self)@.contains_key(device@) && relay_finished),
            plan.start == ((!old(self)@.contains_key(device@) || relay_finished) && connected),
            plan.subscribed == ((old(self)@.contains_key(device@) && !relay_finished) || connected),
    {
        let ghost m0 = self@;
        let ghost before = entries_view(self.entries@);
        let mut stop_previous = false;
        match self.position(device) {
            Some(i) => {
                if !relay_finished {
                    let n = self.entries[i].1;
                    let name = self.entries[i].0.clone();
                    self.entries.set(i, (name, n + 1));
                    proof {
                        assert(entries_view(self.entries@) =~= before.update(i as int, (device@, (n + 1) as usize)));
                        lemma_named_update(before, i as int, (n + 1) as usize);
                    }
                    return SubscribePlan { stop_previous: false, start: false, subscribed: true };
                }
                self.entries.remove(i);
                proof {
                    assert(entries_view(self.entries@) =~= before.remove(i as int));
                    lemma_named_remove(before, i as int);
                    lemma_distinct_remove(before, i as int);
                    assert forall|k: int| 0 <= k < self.entries@.len() implies (#[trigger] self.entries@[k]).1 >= 1 by {
                        if k >= i {
                            assert(self.entries@[k] == old(self).entries@[k + 1]);
                        }
                    }
                }
                stop_previous = true;
            },
            None => {},
        }
        let ghost m1 = self@;
        assert(m1 == m0.remove(device@));
        if connected {
            let ghost mid = entries_view(self.entries@);
            self.entries.push((device.to_string(), 1));
            proof {
                assert(entries_view(self.entries@) =~= mid.push((device@, 1usize)));
                lemma_distinct_push(mid, device@, 1usize);
                assert(self@ =~= m0.insert(device@, 1));
            }
            SubscribePlan { stop_previous, start: true, subscribed: true }
        } else {
            SubscribePlan { stop_previous, start: false, subscribed: false }
        }
    }

    /// A pane stops reading `device`'s capture; gives whether that was its
    /// last reader, so that the capture is to stop.
    pub fn unsubscribe(&mut self, device: &str) -> (stop: bool)
        requires
            old(self).wf(),
        ensures
            final(self).wf(),
            final(self)@ == after_unsubscribe(old(self)@, device@),
            stop == (old(self)@.contains_key(device@) && old(self)@[device@] <= 1),
    {
        let ghost before = entries_view(self.entries@);
        match self.position(device) {
            None => false,
            Some(i) => {
                let n = self.entries[i].1;
                if n <= 1 {
                    self.entries.remove(i);
                    proof {
                        assert(entries_view(self.entries@) =~= before.remove(i as int));
                        lemma_named_remove(before, i as int);
                        lemma_distinct_remove(before, i as int);
                        assert forall|k: int| 0 <= k < self.entries@.len() implies (#[trigger] self.entries@[k]).1 >= 1 by {
                            if k >= i {
                                assert(self.entries@[k] == old(self).entries@[k + 1]);
                            }
                        }
                    }
                    true
                } else {
                    let name = self.entries[i].0.clone();
                    self.entries.set(i, (name, n - 1));
                    proof {
                        assert(entries_view(self.entries@) =~= before.update(i as int, (device@, (n - 1) as usize)));
                        lemma_named_update(before, i as int, (n - 1) as usize);
                    }
                    false
                }
            },
        }
    }
}

/// A pane that subscribes to a device's capture and then stops reading it
/// leaves the shared captures as they were, when it joined a live capture
/// or started a missing one; a started capture is stopped again.
pub proof fn law_unsubscribe_undoes_subscribe(
    m: Map<Seq<char>, usize>,
    device: Seq<char>,
    relay_finished: bool,
    connected: bool,
)
    requires
        m.contains_key(device) ==> 1 <= m[device] < usize::MAX,
        (m.contains_key(device) && !relay_finished) || (!m.contains_key(device) && connected),
    ensures
        after_unsubscribe(after_subscribe(m, device, relay_finished, connected), device) == m,
        !m.contains_key(device) ==> after_subscribe(m, device, relay_finished, connected)[device] <= 1,
{
    let a = after_subscribe(m, device, relay_finished, connected);
    if m.contains_key(device) {
        assert(after_unsubscribe(a, device) =~= m);
    } else {
        assert(after_unsubscribe(a, device) =~= m);
    }
}

// ---------------------------------------------------------------------------
// Polling decisions
// ---------------------------------------------------------------------------
/// A pane whose capture stopped is restarted after this long.
pub const CAPTURE_RESTART_DELAY_MS: u64 = 3000;

/// A pane filtered by package looks its PID up again this often.
pub const PID_REPOLL_INTERVAL_MS: u64 = 5000;

/// Repaint period while something is live.
pub const ACTIVE_REPAINT_INTERVAL_MS: u64 = 33;

/// Repaint period otherwise.
pub const IDLE_REPAINT_INTERVAL_MS: u64 = 250;

pub open spec fn connected(devices: Seq<ConnectedDevice>, id: Seq<char>) -> bool {
    exists|i: int| 0 <= i < devices.len() && (#[trigger] devices[i]).id@ == id
}

pub open spec fn connected_android(devices: Seq<ConnectedDevice>, id: Seq<char>) -> bool {
    exists|i: int|
        0 <= i < devices.len() && (#[trigger] devices[i]).id@ == id && devices[i].platform
            == DevicePlatform::Android
}

fn is_connected(devices: &[ConnectedDevice], id: &str, android_only: bool) -> (b: bool)
    ensures
        b == if android_only {
            connected_android(devices@, id@)
        } else {
            connected(devices@, id@)
        },
{
    let mut i: usize = 0;
    while i < devices.len()
        invariant
            i <= devices@.len(),
            forall|j: int|
                0 <= j < i ==> !((#[trigger] devices@[j]).id@ == id@ && (!android_only
                    || devices@[j].platform == DevicePlatform::Android)),
        decreases devices@.len() - i,
    {
        if str_eq(devices[i].id.as_str(), id) && (!android_only || devices[i].supports_package_filter()) {
            return true;
        }
        i += 1;
    }
    false
}

/// Whether a pane's stopped capture is due to restart: it is not paused,
/// `CAPTURE_RESTART_DELAY_MS` passed since the last restart, and its device
/// is connected.
pub fn capture_restart_due(pane: &Pane, since_restart_ms: u64, devices: &[ConnectedDevice]) -> (b: bool)
    ensures
        b == (pane.capture_device_id is None && !pane.paused && since_restart_ms >= CAPTURE_RESTART_DELAY_MS
            && (pane.device matches Some(d) && connected(devices@, d@))),
{
    if pane.capture_device_id.is_some() || pane.paused || since_restart_ms < CAPTURE_RESTART_DELAY_MS {
        return false;
    }
    match &pane.device {
        Some(d) => is_connected(devices, d.as_str(), false),
        None => false,
    }
}

/// Whether a pane filtered by package is due to look its PID up again:
/// no refresh is pending, `PID_REPOLL_INTERVAL_MS` passed since the last
/// look-up, and its device is a connected Android device.
pub fn pid_repoll_due(pane: &Pane, since_poll_ms: u64, devices: &[ConnectedDevice]) -> (b: bool)
    ensures
        b == (pane.filter.package is Some && !pane.package_refresh_pending && since_poll_ms
            >= PID_REPOLL_INTERVAL_MS && (pane.device matches Some(d) && connected_android(devices@, d@))),
{
    if pane.filter.package.is_none() || pane.package_refresh_pending || since_poll_ms < PID_REPOLL_INTERVAL_MS {
        return false;
    }
    match &pane.device {
        Some(d) => is_connected(devices, d.as_str(), true),
        None => false,
    }
}

/// What the workspace is waiting on.
#[derive(Debug, Clone, PartialEq, Eq)]
pub struct PendingWork {
    pub device_refresh_pending: bool,
    pub ios_simulator_refresh_pending: bool,
    /// A simulator boot has been started and not answered.
    pub simulator_boot_running: bool,
    pub simulator_booting: bool,
    /// A location change has been started and not answered.
    pub location_running: bool,
    pub qr_pairing: Option<QrPairStatus>,
}

pub open spec fn pane_live(p: Pane) -> bool {
    p.capture_device_id is Some && !p.paused
}

/// Whether the window should repaint often: some work is pending, a QR
/// pairing waits, or a pane shows a running capture.
pub fn needs_live_repaint(work: &PendingWork, panes: &[Pane]) -> (b: bool)
    ensures
        b == (work.device_refresh_pending || work.ios_simulator_refresh_pending || work.simulator_boot_running
            || work.simulator_booting || work.location_running || (work.qr_pairing matches Some(q) && (q is WaitingScan
            || q is Pairing)) || exists|i: int| 0 <= i < panes@.len() && pane_live(#[trigger] panes@[i])),
{
    if work.device_refresh_pending || work.ios_simulator_refresh_pending || work.simulator_boot_running
        || work.simulator_booting || work.location_running {
        return true;
    }
    if let Some(q) = &work.qr_pairing {
        if q.is_active() {
            return true;
        }
    }
    let mut i: usize = 0;
    while i < panes.len()
        invariant
            i <= panes@.len(),
            forall|j: int| 0 <= j < i ==> !pane_live(#[trigger] panes@[j]),
        decreases panes@.len() - i,
    {
        if panes[i].capture_device_id.is_some() && !panes[i].paused {
            return true;
        }
        i += 1;
    }
    false
}

/// The repaint period: short while something is live.
pub fn repaint_interval_ms(live: bool) -> (ms: u64)
    ensures
        ms == if live {
            ACTIVE_REPAINT_INTERVAL_MS
        } else {
            IDLE_REPAINT_INTERVAL_MS
        },
{
    if live {
        ACTIVE_REPAINT_INTERVAL_MS
    } else {
        IDLE_REPAINT_INTERVAL_MS
    }
}

/// How a finished background task is shown: whether it succeeded, and its
/// message.
pub fn task_status(result: Result<String, String>) -> (r: (bool, String))
    ensures
        match result {
            Ok(m) => r == (true, m),
            Err(m) => r == (false, m),
        },
{
    match result {
        Ok(m) => (true, m),
        Err(m) => (false, m),
    }
}

/// What follows a simulator boot: its status, a refresh of the simulator
/// list, and after a successful boot a refresh of the devices.
#[derive(Debug, Clone, PartialEq, Eq)]
pub struct BootOutcome {
    pub succeeded: bool,
    pub message: String,
    pub refresh_simulators: bool,
    pub refresh_devices: bool,
}

pub fn simulator_boot_finished(result: Result<String, String>) -> (o: BootOutcome)
    ensures
        o.refresh_simulators,
        o.refresh_devices == (result is Ok),
        match result {
            Ok(m) => o.succeeded && o.message == m,
            Err(m) => !o.succeeded && o.message == m,
        },
{
    let (succeeded, message) = task_status(result);
    BootOutcome { succeeded, message, refresh_simulators: true, refresh_devices: succeeded }
}

// ---------------------------------------------------------------------------
// Saved sessions
// ---------------------------------------------------------------------------
/// A saved pane layout: panes by their position in the saved pane list,
/// splits by direction, `"h"` for horizontal and `"v"` for vertical.
#[derive(Debug, PartialEq, Eq)]
pub enum SessionTree {
    Leaf(usize),
    Split { dir: String, first: Box<SessionTree>, second: Box<SessionTree> },
}

/// A saved layout with its direction names as character sequences.
pub enum SessionShape {
    Leaf(usize),
    Split { dir: Seq<char>, first: Box<SessionShape>, second: Box<SessionShape> },
}

pub open spec fn session_shape(t: SessionTree) -> SessionShape
    decreases t,
{
    match t {
        SessionTree::Leaf(i) => SessionShape::Leaf(i),
        SessionTree::Split { dir, first, second } => SessionShape::Split {
            dir: dir@,
            first: Box::new(session_shape(*first)),
            second: Box::new(session_shape(*second)),
        },
    }
}

/// The last position of `id` in `ids`, or -1.
pub open spec fn last_pos(ids: Seq<u64>, id: u64) -> int
    decreases ids.len(),
{
    if ids.len() == 0 {
        -1
    } else if ids.last() == id {
        ids.len() - 1
    } else {
        last_pos(ids.drop_last(), id)
    }
}

/// The saved position of pane `id` among `ids` (its last position; 0 when
/// it is not there).
pub open spec fn saved_index(ids: Seq<u64>, id: u64) -> usize {
    if last_pos(ids, id) >= 0 {
        last_pos(ids, id) as usize
    } else {
        0
    }
}

proof fn lemma_last_pos(ids: Seq<u64>, id: u64)
    ensures
        -1 <= last_pos(ids, id) < ids.len(),
        last_pos(ids, id) >= 0 ==> ids[last_pos(ids, id)] == id,
        ids.contains(id) ==> last_pos(ids, id) >= 0,
    decreases ids.len(),
{
    if ids.len() > 0 {
        lemma_last_pos(ids.drop_last(), id);
        if ids.contains(id) && ids.last() != id {
            let k = choose|k: int| 0 <= k < ids.len() && ids[k] == id;
            assert(ids.drop_last()[k] == id);
        }
    }
}

/// Where a pane is saved: its position in the pane order (0 when it is not
/// there).
pub fn session_index(ids: &Vec<u64>, id: u64) -> (r: usize)
    ensures
        r == saved_index(ids@, id),
{
    let mut found: Option<usize> = None;
    let mut i: usize = 0;
    while i < ids.len()
        invariant
            i <= ids@.len(),
            match found {
                Some(k) => last_pos(ids@.take(i as int), id) == k as int,
                None => last_pos(ids@.take(i as int), id) == -1,
            },
        decreases ids@.len() - i,
    {
        assert(ids@.take(i + 1).drop_last() =~= ids@.take(i as int));
        if ids[i] == id {
            found = Some(i);
        }
        i += 1;
    }
    assert(ids@.take(i as int) =~= ids@);
    match found {
        Some(k) => k,
        None => 0,
    }
}

pub open spec fn dir_name(d: SplitDir) -> Seq<char> {
    match d {
        SplitDir::Horizontal => "h"@,
        SplitDir::Vertical => "v"@,
    }
}

/// The saved form of a layout, panes named by their saved position.
pub open spec fn session_of(n: PaneNode, ids: Seq<u64>) -> SessionShape
    decreases n,
{
    match n {
        PaneNode::Leaf(id) => SessionShape::Leaf(saved_index(ids, id)),
        PaneNode::Split { dir, first, second } => SessionShape::Split {
            dir: dir_name(dir),
            first: Box::new(session_of(*first, ids)),
            second: Box::new(session_of(*second, ids)),
        },
    }
}

/// The layout a saved form stands for, with the panes at those positions of
/// `ids`; none when a position is out of range. Any direction other than
/// `"h"` is vertical.
pub open spec fn tree_of(t: SessionShape, ids: Seq<u64>) -> Option<PaneNode>
    decreases t,
{
    match t {
        SessionShape::Leaf(i) => if i < ids.len() {
            Some(PaneNode::Leaf(ids[i as int]))
        } else {
            None
        },
        SessionShape::Split { dir, first, second } => match (tree_of(*first, ids), tree_of(*second, ids)) {
            (Some(f), Some(s)) => Some(
                PaneNode::Split {
                    dir: if dir == "h"@ {
                        SplitDir::Horizontal
                    } else {
                        SplitDir::Vertical
                    },
                    first: Box::new(f),
                    second: Box::new(s),
                },
            ),
            _ => None,
        },
    }
}

/// The saved form of a layout, given the pane order it is saved in.
pub fn tree_to_session(node: &PaneNode, ids: &Vec<u64>) -> (t: SessionTree)
    ensures
        session_shape(t) == session_of(*node, ids@),
    decreases node,
{
    match node {
        PaneNode::Leaf(id) => SessionTree::Leaf(session_index(ids, *id)),
        PaneNode::Split { dir, first, second } => {
            let d = match dir {
                SplitDir::Horizontal => "h".to_string(),
                SplitDir::Vertical => "v".to_string(),
            };
            let f = tree_to_session(first, ids);
            let s = tree_to_session(second, ids);
            SessionTree::Split { dir: d, first: Box::new(f), second: Box::new(s) }
        },
    }
}

/// The layout a saved form stands for, with the panes restored in
/// `pane_ids` order; none when it names a pane position that is missing.
pub fn session_to_tree(node: &SessionTree, pane_ids: &Vec<u64>) -> (r: Option<PaneNode>)
    ensures
        r == tree_of(session_shape(*node), pane_ids@),
    decreases node,
{
    match node {
        SessionTree::Leaf(idx) => {
            if *idx < pane_ids.len() {
                Some(PaneNode::Leaf(pane_ids[*idx]))
            } else {
                None
            }
        },
        SessionTree::Split { dir, first, second } => {
            let split_dir = if str_eq(dir.as_str(), "h") {
                SplitDir::Horizontal
            } else {
                SplitDir::Vertical
            };
            let f = match session_to_tree(first, pane_ids) {
                Some(f) => f,
                None => return None,
            };
            let s = match session_to_tree(second, pane_ids) {
                Some(s) => s,
                None => return None,
            };
            Some(PaneNode::Split { dir: split_dir, first: Box::new(f), second: Box::new(s) })
        },
    }
}

/// A layout saved in an order that holds all its panes is restored as it
/// was, directions included.
pub proof fn law_session_round_trip(n: PaneNode, ids: Seq<u64>)
    requires
        ids.len() <= usize::MAX,
        forall|k: int| 0 <= k < pane_seq(n).len() ==> ids.contains(#[trigger] pane_seq(n)[k]),
    ensures
        tree_of(session_of(n, ids), ids) == Some(n),
    decreases n,
{
    match n {
        PaneNode::Leaf(id) => {
            assert(pane_seq(n)[0] == id);
            assert(ids.contains(pane_seq(n)[0]));
            lemma_last_pos(ids, id);
            assert(ids[saved_index(ids, id) as int] == id);
        },
        PaneNode::Split { dir, first, second } => {
            let a = pane_seq(*first);
            let b = pane_seq(*second);
            assert forall|k: int| 0 <= k < a.len() implies ids.contains(#[trigger] a[k]) by {
                assert(pane_seq(n)[k] == a[k]);
            }
            assert forall|k: int| 0 <= k < b.len() implies ids.contains(#[trigger] b[k]) by {
                assert(pane_seq(n)[a.len() + k] == b[k]);
            }
            law_session_round_trip(*first, ids);
            law_session_round_trip(*second, ids);
            reveal_strlit("h");
            reveal_strlit("v");
            assert("v"@[0] != "h"@[0]);
            assert("v"@ != "h"@);
        },
    }
}

/// The pane a restored pane follows: its saved device while connected,
/// else the first connected device.
pub fn restored_device(saved: &Option<String>, devices: &[ConnectedDevice]) -> (r: Option<String>)
    ensures
        (saved matches Some(d) && has_id(devices@, d@)) ==> opt_view(r) == opt_view(*saved),
        !(saved matches Some(d) && has_id(devices@, d@)) ==> opt_view(r) == if devices@.len() > 0 {
            Some(devices@[0].id@)
        } else {
            None
        },
{
    if let Some(d) = saved {
        let mut i: usize = 0;
        while i < devices.len()
            invariant
                i <= devices@.len(),
                *saved == Some(*d),
                forall|j: int| 0 <= j < i ==> (#[trigger] devices@[j]).id@ != d@,
            decreases devices@.len() - i,
        {
            if str_eq(devices[i].id.as_str(), d.as_str()) {
                return Some(d.clone());
            }
            i += 1;
        }
    }
    if devices.len() > 0 {
        Some(devices[0].id.clone())
    } else {
        None
    }
}

/// The pane focused after a restore: the one at the saved focus position,
/// else the first.
pub fn restored_focus(pane_ids: &Vec<u64>, focused: usize) -> (r: u64)
    requires
        pane_ids@.len() > 0,
    ensures
        r == if focused < pane_ids@.len() {
            pane_ids@[focused as int]
        } else {
            pane_ids@[0]
        },
{
    if focused < pane_ids.len() {
        pane_ids[focused]
    } else {
        pane_ids[0]
    }
}

/// What a session saves of a pane: its device, package and iOS filter
/// inputs, tag input, level, vendor-noise switch and word wrap.
#[derive(Debug, Clone, PartialEq, Eq)]
pub struct SessionPane {
    pub device: Option<String>,
    pub package: Option<String>,
    pub ios_process: String,
    pub ios_subsystem: String,
    pub ios_category: String,
    pub tag_input: String,
    pub min_level: LogLevel,
    pub hide_vendor_noise: bool,
    pub word_wrap: bool,
}

impl Pane {
    /// What the session saves of this pane.
    pub fn to_session(&self) -> (sp: SessionPane)
        ensures
            opt_view(sp.device) == opt_view(self.device),
            opt_view(sp.package) == opt_view(self.filter.package),
            sp.ios_process@ == self.ios_process_filter_text@,
            sp.ios_subsystem@ == self.ios_subsystem_filter_text@,
            sp.ios_category@ == self.ios_category_filter_text@,
            sp.tag_input@ == self.tag_input@,
            sp.min_level == self.filter.min_level,
            sp.hide_vendor_noise == self.filter.hide_vendor_noise,
            sp.word_wrap == self.word_wrap,
    {
        SessionPane {
            device: match &self.device {
                Some(d) => Some(d.clone()),
                None => None,
            },
            package: match &self.filter.package {
                Some(p) => Some(p.clone()),
                None => None,
            },
            ios_process: self.ios_process_filter_text.clone(),
            ios_subsystem: self.ios_subsystem_filter_text.clone(),
            ios_category: self.ios_category_filter_text.clone(),
            tag_input: self.tag_input.clone(),
            min_level: self.filter.min_level,
            hide_vendor_noise: self.filter.hide_vendor_noise,
            word_wrap: self.word_wrap,
        }
    }

    /// Take over a saved pane's settings: its filters and inputs are set and
    /// applied, and a saved package asks for its PID to be looked up.
    pub fn restore_session(&mut self, sp: &SessionPane)
        ensures
            final(self).filter.min_level == sp.min_level,
            final(self).filter.hide_vendor_noise == sp.hide_vendor_noise,
            opt_view(final(self).filter.package) == opt_view(sp.package),
            final(self).package_filter_text@ == match sp.package {
                Some(p) => p@,
                None => Seq::<char>::empty(),
            },
            final(self).ios_process_filter_text@ == sp.ios_process@,
            final(self).ios_subsystem_filter_text@ == sp.ios_subsystem@,
            final(self).ios_category_filter_text@ == sp.ios_category@,
            opt_view(final(self).filter.ios_process) == normalize_optional(sp.ios_process@),
            opt_view(final(self).filter.ios_subsystem) == normalize_optional(sp.ios_subsystem@),
            opt_view(final(self).filter.ios_category) == normalize_optional(sp.ios_category@),
            final(self).tag_input@ == sp.tag_input@,
            final(self).prev_tag_input@ == sp.tag_input@,
            filters_view(final(self).filter.tag_filters@) == parse_filters(sp.tag_input@),
            final(self).word_wrap == sp.word_wrap,
            final(self).package_refresh_pending == (sp.package is Some || old(self).package_refresh_pending),
            final(self).device == old(self).device,
            final(self).entries == old(self).entries,
            old(self).detector_idle() ==> final(self).wf(),
    {
        self.filter.min_level = sp.min_level;
        self.filter.hide_vendor_noise = sp.hide_vendor_noise;
        self.filter.package = match &sp.package {
            Some(p) => Some(p.clone()),
            None => None,
        };
        self.ios_process_filter_text = sp.ios_process.clone();
        self.ios_subsystem_filter_text = sp.ios_subsystem.clone();
        self.ios_category_filter_text = sp.ios_category.clone();
        self.tag_input = sp.tag_input.clone();
        self.prev_tag_input = sp.tag_input.clone();
        self.package_filter_text = match &sp.package {
            Some(p) => p.clone(),
            None => String::new(),
        };
        self.word_wrap = sp.word_wrap;
        self.apply_tag_filter();
        self.apply_ios_filters();
        if sp.package.is_some() {
            self.package_refresh_pending = true;
        }
    }
}

} // verus!
