//! Lists of (name, value) pairs in which no name occurs twice, seen as maps
//! from names to values.
use vstd::prelude::*;

verus! {

/// The map a list of (name, value) pairs stands for; a later pair wins.
pub open spec fn named_map<V>(s: Seq<(Seq<char>, V)>) -> Map<Seq<char>, V>
    decreases s.len(),
{
    if s.len() == 0 {
        Map::empty()
    } else {
        named_map(s.drop_last()).insert(s.last().0, s.last().1)
    }
}

/// No name occurs twice.
pub open spec fn names_distinct<V>(s: Seq<(Seq<char>, V)>) -> bool {
    forall|i: int, j: int| 0 <= i < j < s.len() ==> (#[trigger] s[i]).0 != (#[trigger] s[j]).0
}

pub proof fn lemma_named_absent<V>(s: Seq<(Seq<char>, V)>, k: Seq<char>)
    requires
        forall|j: int| 0 <= j < s.len() ==> (#[trigger] s[j]).0 != k,
    ensures
        !named_map(s).contains_key(k),
    decreases s.len(),
{
    if s.len() > 0 {
        lemma_named_absent(s.drop_last(), k);
    }
}

pub proof fn lemma_named_at<V>(s: Seq<(Seq<char>, V)>, i: int)
    requires
        names_distinct(s),
        0 <= i < s.len(),
    ensures
        named_map(s).contains_key(s[i].0),
        named_map(s)[s[i].0] == s[i].1,
    decreases s.len(),
{
    if i < s.len() - 1 {
        lemma_named_at(s.drop_last(), i);
    }
}

pub proof fn lemma_named_update<V>(s: Seq<(Seq<char>, V)>, i: int, v: V)
    requires
        names_distinct(s),
        0 <= i < s.len(),
    ensures
        named_map(s.update(i, (s[i].0, v))) == named_map(s).insert(s[i].0, v),
    decreases s.len(),
{
    let k = s[i].0;
    let t = s.update(i, (k, v));
    if i == s.len() - 1 {
        assert(t.drop_last() =~= s.drop_last());
        assert(named_map(s.drop_last()).insert(k, s.last().1).insert(k, v) =~= named_map(
            s.drop_last(),
        ).insert(k, v));
    } else {
        lemma_named_update(s.drop_last(), i, v);
        assert(t.drop_last() =~= s.drop_last().update(i, (k, v)));
        assert(named_map(t) =~= named_map(s).insert(k, v));
    }
}

pub proof fn lemma_named_remove<V>(s: Seq<(Seq<char>, V)>, i: int)
    requires
        names_distinct(s),
        0 <= i < s.len(),
    ensures
        named_map(s.remove(i)) == named_map(s).remove(s[i].0),
    decreases s.len(),
{
    let k = s[i].0;
    let t = s.remove(i);
    if i == s.len() - 1 {
        assert(t =~= s.drop_last());
        assert forall|j: int| 0 <= j < t.len() implies (#[trigger] t[j]).0 != k by {
            assert(t[j] == s[j]);
        }
        lemma_named_absent(t, k);
        assert(named_map(t) =~= named_map(s).remove(k));
    } else {
        lemma_named_remove(s.drop_last(), i);
        assert(t.drop_last() =~= s.drop_last().remove(i));
        assert(t.last() == s.last());
        assert(s.last().0 != k);
        assert(named_map(t) =~= named_map(s).remove(k));
    }
}

/// Removing a pair keeps the names distinct.
pub proof fn lemma_distinct_remove<V>(s: Seq<(Seq<char>, V)>, i: int)
    requires
        names_distinct(s),
        0 <= i < s.len(),
    ensures
        names_distinct(s.remove(i)),
{
    let t = s.remove(i);
    assert forall|a: int, b: int| 0 <= a < b < t.len() implies (#[trigger] t[a]).0 != (#[trigger] t[b]).0 by {
        let x = if a < i { a } else { a + 1 };
        let y = if b < i { b } else { b + 1 };
        assert(t[a] == s[x]);
        assert(t[b] == s[y]);
    }
}

/// Adding a pair with a new name keeps the names distinct, and the map
/// gains that name.
pub proof fn lemma_distinct_push<V>(s: Seq<(Seq<char>, V)>, k: Seq<char>, v: V)
    requires
        names_distinct(s),
        !named_map(s).contains_key(k),
    ensures
        names_distinct(s.push((k, v))),
        named_map(s.push((k, v))) == named_map(s).insert(k, v),
{
    let t = s.push((k, v));
    assert forall|j: int| 0 <= j < s.len() implies (#[trigger] s[j]).0 != k by {
        if s[j].0 == k {
            lemma_named_at(s, j);
        }
    }
    assert forall|a: int, b: int| 0 <= a < b < t.len() implies (#[trigger] t[a]).0 != (#[trigger] t[b]).0 by {
        assert(t[a] == s[a]);
        if b < s.len() {
            assert(t[b] == s[b]);
        }
    }
    assert(t.drop_last() =~= s);
}

} // verus!
