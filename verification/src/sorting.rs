//! Ordering strings as `Ord for str` does (by code points) and sorting
//! vectors of them.
use vstd::prelude::*;
use vstd::seq_lib::{to_multiset_insert, to_multiset_build};
use crate::text::{chars_of, contains, str_eq, sviews};

verus! {

/// `a < b` in the lexicographic order of code points (the order of `str`).
pub open spec fn lex_lt(a: Seq<char>, b: Seq<char>) -> bool
    decreases a.len(),
{
    if b.len() == 0 {
        false
    } else if a.len() == 0 {
        true
    } else if a[0] < b[0] {
        true
    } else if a[0] > b[0] {
        false
    } else {
        lex_lt(a.drop_first(), b.drop_first())
    }
}

pub open spec fn lex_le(a: Seq<char>, b: Seq<char>) -> bool {
    a == b || lex_lt(a, b)
}

/// Every element is at most the next one.
pub open spec fn sorted(s: Seq<Seq<char>>) -> bool {
    forall|i: int, j: int| 0 <= i < j < s.len() ==> lex_le(#[trigger] s[i], #[trigger] s[j])
}

/// Every element is below the next one: sorted and without repeats.
pub open spec fn strictly_sorted(s: Seq<Seq<char>>) -> bool {
    forall|i: int, j: int| 0 <= i < j < s.len() ==> lex_lt(#[trigger] s[i], #[trigger] s[j])
}

pub proof fn lemma_lex_irreflexive(a: Seq<char>)
    ensures
        !lex_lt(a, a),
    decreases a.len(),
{
    if a.len() > 0 {
        lemma_lex_irreflexive(a.drop_first());
    }
}

pub proof fn lemma_lex_trans(a: Seq<char>, b: Seq<char>, c: Seq<char>)
    requires
        lex_lt(a, b),
        lex_lt(b, c),
    ensures
        lex_lt(a, c),
    decreases a.len(),
{
    if a.len() > 0 && b.len() > 0 && c.len() > 0 {
        if a[0] == b[0] && b[0] == c[0] {
            lemma_lex_trans(a.drop_first(), b.drop_first(), c.drop_first());
        }
    }
}

pub proof fn lemma_lex_total(a: Seq<char>, b: Seq<char>)
    ensures
        a == b || lex_lt(a, b) || lex_lt(b, a),
    decreases a.len(),
{
    if a.len() > 0 && b.len() > 0 {
        if a[0] == b[0] {
            lemma_lex_total(a.drop_first(), b.drop_first());
            if a.drop_first() == b.drop_first() {
                assert(a =~= seq![a[0]] + a.drop_first());
                assert(b =~= seq![b[0]] + b.drop_first());
            }
        } else {
        }
    } else if a.len() == 0 && b.len() == 0 {
        assert(a =~= b);
    }
}

pub proof fn lemma_lex_asym(a: Seq<char>, b: Seq<char>)
    requires
        lex_lt(a, b),
    ensures
        !lex_lt(b, a),
{
    if lex_lt(b, a) {
        lemma_lex_trans(a, b, a);
        lemma_lex_irreflexive(a);
    }
}

/// `a < b` in the order of `str`.
pub fn lex_less(a: &[char], b: &[char]) -> (r: bool)
    ensures
        r == lex_lt(a@, b@),
{
    let mut i: usize = 0;
    assert(a@.skip(0) =~= a@);
    assert(b@.skip(0) =~= b@);
    while i < a.len() && i < b.len() && a[i] == b[i]
        invariant
            i <= a.len(),
            i <= b.len(),
            lex_lt(a@, b@) == lex_lt(a@.skip(i as int), b@.skip(i as int)),
        decreases a.len() - i,
    {
        assert(a@.skip(i as int).drop_first() =~= a@.skip(i + 1));
        assert(b@.skip(i as int).drop_first() =~= b@.skip(i + 1));
        assert(a@.skip(i as int)[0] == a@[i as int]);
        assert(b@.skip(i as int)[0] == b@[i as int]);
        i += 1;
    }
    if i < b.len() {
        assert(b@.skip(i as int)[0] == b@[i as int]);
    }
    if i < a.len() {
        assert(a@.skip(i as int)[0] == a@[i as int]);
    }
    if i == b.len() {
        false
    } else if i == a.len() {
        true
    } else {
        a[i] < b[i]
    }
}

/// `a < b` for strings, in the order of `str`.
pub fn str_less(a: &str, b: &str) -> (r: bool)
    ensures
        r == lex_lt(a@, b@),
{
    let x = chars_of(a);
    let y = chars_of(b);
    lex_less(&x, &y)
}

/// Sort strings in ascending order (`slice::sort` on `String`s).
pub fn sort_strings(v: Vec<String>) -> (r: Vec<String>)
    ensures
        sorted(sviews(r@)),
        sviews(r@).to_multiset() == sviews(v@).to_multiset(),
{
    let mut r: Vec<String> = Vec::new();
    let mut i: usize = 0;
    assert(sviews(r@) =~= sviews(v@).take(0));
    while i < v.len()
        invariant
            i <= v@.len(),
            sorted(sviews(r@)),
            sviews(r@).to_multiset() == sviews(v@).take(i as int).to_multiset(),
        decreases v.len() - i,
    {
        let x = v[i].clone();
        let ghost xs = x@;
        // first position whose element is above x
        let mut pos: usize = 0;
        while pos < r.len() && !str_less(x.as_str(), r[pos].as_str())
            invariant
                pos <= r@.len(),
                xs == x@,
                forall|k: int| 0 <= k < pos ==> !lex_lt(xs, #[trigger] sviews(r@)[k]),
            decreases r.len() - pos,
        {
            pos += 1;
        }
        let ghost old_r = sviews(r@);
        r.insert(pos, x);
        let ghost new_r = sviews(r@);
        assert(new_r =~= old_r.insert(pos as int, xs));
        proof {
            assert forall|a: int, b: int| 0 <= a < b < new_r.len() implies lex_le(#[trigger] new_r[a], #[trigger] new_r[b]) by {
                if a < pos && b < pos + 1 {
                    if b == pos {
                        lemma_lex_total(old_r[a], xs);
                        if lex_lt(xs, old_r[a]) {
                            assert(false);
                        }
                    } else {
                        assert(lex_le(old_r[a], old_r[b]));
                    }
                } else if a < pos {
                    assert(new_r[a] == old_r[a] && new_r[b] == old_r[b - 1]);
                    assert(lex_le(old_r[a], old_r[b - 1]));
                } else if a == pos {
                    assert(new_r[b] == old_r[b - 1]);
                    assert(lex_lt(xs, old_r[pos as int]));
                    if b - 1 > pos {
                        assert(lex_le(old_r[pos as int], old_r[b - 1]));
                        if old_r[pos as int] != old_r[b - 1] {
                            lemma_lex_trans(xs, old_r[pos as int], old_r[b - 1]);
                        }
                    }
                } else {
                    assert(new_r[a] == old_r[a - 1] && new_r[b] == old_r[b - 1]);
                    assert(lex_le(old_r[a - 1], old_r[b - 1]));
                }
            }
            to_multiset_insert(old_r, pos as int, xs);
            assert(sviews(v@).take(i + 1) =~= sviews(v@).take(i as int).push(xs));
            to_multiset_build(sviews(v@).take(i as int), xs);
        }
        i += 1;
    }
    assert(sviews(v@).take(i as int) =~= sviews(v@));
    r
}

/// Remove consecutive repeats from a sorted vector (`Vec::dedup`).
pub fn dedup_sorted(v: Vec<String>) -> (r: Vec<String>)
    requires
        sorted(sviews(v@)),
    ensures
        strictly_sorted(sviews(r@)),
        sviews(r@).to_set() == sviews(v@).to_set(),
{
    let mut r: Vec<String> = Vec::new();
    let mut i: usize = 0;
    while i < v.len()
        invariant
            i <= v@.len(),
            sorted(sviews(v@)),
            strictly_sorted(sviews(r@)),
            sviews(r@).to_set() == sviews(v@).take(i as int).to_set(),
            r@.len() > 0 ==> i > 0 && r@.last()@ == v@[i - 1]@,
            r@.len() == 0 ==> i == 0,
        decreases v.len() - i,
    {
        let ghost old_r = sviews(r@);
        let ghost pre = sviews(v@).take(i as int);
        assert(sviews(v@).take(i + 1) =~= pre.push(v@[i as int]@));
        let dup = r.len() > 0 && str_eq(r[r.len() - 1].as_str(), v[i].as_str());
        if !dup {
            proof {
                if r@.len() > 0 {
                    assert(lex_le(sviews(v@)[i - 1], sviews(v@)[i as int]));
                    assert(old_r.last() == sviews(v@)[i - 1]);
                }
            }
            r.push(v[i].clone());
            proof {
                let new_r = sviews(r@);
                assert(new_r =~= old_r.push(v@[i as int]@));
                assert forall|a: int, b: int| 0 <= a < b < new_r.len() implies lex_lt(#[trigger] new_r[a], #[trigger] new_r[b]) by {
                    if b == new_r.len() - 1 {
                        if a < old_r.len() - 1 {
                            assert(lex_lt(old_r[a], old_r.last()));
                            lemma_lex_trans(old_r[a], old_r.last(), new_r[b]);
                        }
                    } else {
                        assert(new_r[a] == old_r[a] && new_r[b] == old_r[b]);
                    }
                }
                lemma_push_to_set_commute(old_r, v@[i as int]@);
                lemma_push_to_set_commute(pre, v@[i as int]@);
            }
        } else {
            proof {
                assert(old_r.contains(v@[i as int]@)) by {
                    assert(old_r[old_r.len() - 1] == v@[i as int]@);
                }
                lemma_push_to_set_commute(pre, v@[i as int]@);
                assert(old_r.to_set().contains(v@[i as int]@));
                assert(pre.push(v@[i as int]@).to_set() =~= pre.to_set().insert(v@[i as int]@));
                assert(pre.to_set().insert(v@[i as int]@) =~= pre.to_set());
            }
        }
        i += 1;
    }
    assert(sviews(v@).take(i as int) =~= sviews(v@));
    r
}

pub proof fn lemma_push_to_set_commute(s: Seq<Seq<char>>, x: Seq<char>)
    ensures
        s.push(x).to_set() == s.to_set().insert(x),
{
    assert forall|y: Seq<char>| s.push(x).to_set().contains(y) <==> s.to_set().insert(x).contains(y) by {
        if s.push(x).contains(y) {
            let k = choose|k: int| 0 <= k < s.push(x).len() && s.push(x)[k] == y;
            if k < s.len() {
                assert(s[k] == y);
                assert(s.contains(y));
            }
        }
        if s.contains(y) {
            let k = choose|k: int| 0 <= k < s.len() && s[k] == y;
            assert(s.push(x)[k] == y);
        }
        if y == x {
            assert(s.push(x)[s.len() as int] == x);
        }
    }
    assert(s.push(x).to_set() =~= s.to_set().insert(x));
}

/// Something ordered by three strings, compared in turn.
pub trait Key3 {
    spec fn key3(&self) -> (Seq<char>, Seq<char>, Seq<char>);

    fn key_parts(&self) -> (r: (&str, &str, &str))
        ensures
            r.0@ == self.key3().0,
            r.1@ == self.key3().1,
            r.2@ == self.key3().2,
    ;
}

/// `a` is below `b`, comparing the first strings, then the second, then
/// the third.
pub open spec fn key3_lt(a: (Seq<char>, Seq<char>, Seq<char>), b: (Seq<char>, Seq<char>, Seq<char>)) -> bool {
    lex_lt(a.0, b.0) || (a.0 == b.0 && (lex_lt(a.1, b.1) || (a.1 == b.1 && lex_lt(a.2, b.2))))
}

pub open spec fn key3_le(a: (Seq<char>, Seq<char>, Seq<char>), b: (Seq<char>, Seq<char>, Seq<char>)) -> bool {
    a == b || key3_lt(a, b)
}

pub open spec fn sorted_by_key3<T: Key3>(s: Seq<T>) -> bool {
    forall|i: int, j: int| 0 <= i < j < s.len() ==> key3_le(#[trigger] s[i].key3(), #[trigger] s[j].key3())
}

proof fn lemma_key3_total(a: (Seq<char>, Seq<char>, Seq<char>), b: (Seq<char>, Seq<char>, Seq<char>))
    requires
        !key3_lt(a, b),
    ensures
        key3_le(b, a),
{
    lemma_lex_total(a.0, b.0);
    lemma_lex_total(a.1, b.1);
    lemma_lex_total(a.2, b.2);
}

proof fn lemma_key3_trans(
    a: (Seq<char>, Seq<char>, Seq<char>),
    b: (Seq<char>, Seq<char>, Seq<char>),
    c: (Seq<char>, Seq<char>, Seq<char>),
)
    requires
        key3_le(a, b),
        key3_le(b, c),
    ensures
        key3_le(a, c),
{
    if a != b && b != c {
        if lex_lt(a.0, b.0) && lex_lt(b.0, c.0) {
            lemma_lex_trans(a.0, b.0, c.0);
        } else if a.0 == b.0 && b.0 == c.0 {
            if lex_lt(a.1, b.1) && lex_lt(b.1, c.1) {
                lemma_lex_trans(a.1, b.1, c.1);
            } else if a.1 == b.1 && b.1 == c.1 {
                lemma_lex_trans(a.2, b.2, c.2);
            }
        }
    }
}

fn key3_less<T: Key3>(a: &T, b: &T) -> (r: bool)
    ensures
        r == key3_lt(a.key3(), b.key3()),
{
    let (a0, a1, a2) = a.key_parts();
    let (b0, b1, b2) = b.key_parts();
    if str_less(a0, b0) {
        return true;
    }
    if !str_eq(a0, b0) {
        return false;
    }
    if str_less(a1, b1) {
        return true;
    }
    if !str_eq(a1, b1) {
        return false;
    }
    str_less(a2, b2)
}

/// Sort by the three keys, keeping the order of equal ones.
pub fn sort_by_key3<T: Key3>(v: Vec<T>) -> (r: Vec<T>)
    ensures
        sorted_by_key3(r@),
        r@.to_multiset() == v@.to_multiset(),
{
    broadcast use vstd::multiset::group_multiset_axioms;

    let ghost all = v@;
    let mut input = v;
    let mut r: Vec<T> = Vec::new();
    let ghost mut done: Seq<T> = Seq::empty();
    proof {
        broadcast use vstd::seq_lib::group_to_multiset_ensures;
        assert(r@.to_multiset().len() == 0);
        vstd::multiset::lemma_multiset_empty_len(r@.to_multiset());
        assert(done.to_multiset().len() == 0);
        vstd::multiset::lemma_multiset_empty_len(done.to_multiset());
        assert(done + input@ =~= all);
    }
    while input.len() > 0
        invariant
            done + input@ == all,
            sorted_by_key3(r@),
            r@.to_multiset() == done.to_multiset(),
        decreases input@.len(),
    {
        let ghost before = input@;
        let x = input.remove(0);
        proof {
            assert(before =~= seq![x] + input@);
            assert(done.push(x) + input@ =~= all);
            vstd::seq_lib::to_multiset_build(done, x);
        }
        let mut pos: usize = 0;
        while pos < r.len() && !key3_less(&x, &r[pos])
            invariant
                pos <= r@.len(),
                forall|k: int| 0 <= k < pos ==> !key3_lt(x.key3(), #[trigger] r@[k].key3()),
            decreases r@.len() - pos,
        {
            pos += 1;
        }
        let ghost old_r = r@;
        r.insert(pos, x);
        proof {
            let new_r = r@;
            assert(new_r =~= old_r.insert(pos as int, x));
            assert forall|a: int, b: int| 0 <= a < b < new_r.len() implies key3_le(
                #[trigger] new_r[a].key3(),
                #[trigger] new_r[b].key3(),
            ) by {
                if b == pos {
                    lemma_key3_total(x.key3(), old_r[a].key3());
                } else if a == pos {
                    assert(new_r[b] == old_r[b - 1]);
                    assert(key3_lt(x.key3(), old_r[pos as int].key3()));
                    if b - 1 > pos {
                        assert(key3_le(old_r[pos as int].key3(), old_r[b - 1].key3()));
                        lemma_key3_trans(x.key3(), old_r[pos as int].key3(), old_r[b - 1].key3());
                    }
                } else if a < pos && b > pos {
                    assert(new_r[b] == old_r[b - 1]);
                    assert(key3_le(old_r[a].key3(), old_r[b - 1].key3()));
                } else if a > pos {
                    assert(new_r[a] == old_r[a - 1] && new_r[b] == old_r[b - 1]);
                } else {
                    assert(new_r[a] == old_r[a] && new_r[b] == old_r[b]);
                }
            }
            vstd::seq_lib::to_multiset_insert(old_r, pos as int, x);
            done = done.push(x);
        }
    }
    assert(done =~= all);
    r
}

} // verus!
