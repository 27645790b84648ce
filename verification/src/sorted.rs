//! Vectors kept strictly sorted by a string key (or a pair of string keys),
//! used as ordered maps: environment variables, the castor registry,
//! secret-injection rules and allowlists.
//!
//! The order is the one `BTreeMap<String, _>` and `BTreeMap<(String, String), _>`
//! use: lexicographic by code point, first component first.

use vstd::prelude::*;

use crate::text::{
    compare_str, lemma_lt_asymmetric, lemma_lt_irreflexive, lemma_lt_total, lemma_lt_transitive,
    seq_lt, Cmp,
};

verus! {

/// A key: a primary string and a secondary string (empty for plain keys).
pub type SpecKey = (Seq<char>, Seq<char>);

/// Strict order on keys: by the first component, then by the second.
pub open spec fn key_lt(a: SpecKey, b: SpecKey) -> bool {
    seq_lt(a.0, b.0) || (a.0 == b.0 && seq_lt(a.1, b.1))
}

pub proof fn lemma_key_irreflexive(a: SpecKey)
    ensures
        !key_lt(a, a),
{
    lemma_lt_irreflexive(a.0);
    lemma_lt_irreflexive(a.1);
}

pub proof fn lemma_key_transitive(a: SpecKey, b: SpecKey, c: SpecKey)
    requires
        key_lt(a, b),
        key_lt(b, c),
    ensures
        key_lt(a, c),
{
    if seq_lt(a.0, b.0) && seq_lt(b.0, c.0) {
        lemma_lt_transitive(a.0, b.0, c.0);
    } else if a.0 == b.0 && b.0 == c.0 {
        lemma_lt_transitive(a.1, b.1, c.1);
    }
}

pub proof fn lemma_key_total(a: SpecKey, b: SpecKey)
    ensures
        key_lt(a, b) || key_lt(b, a) || a == b,
{
    lemma_lt_total(a.0, b.0);
    lemma_lt_total(a.1, b.1);
}

pub proof fn lemma_key_asymmetric(a: SpecKey, b: SpecKey)
    requires
        key_lt(a, b),
    ensures
        !key_lt(b, a),
{
    if key_lt(b, a) {
        lemma_key_transitive(a, b, a);
        lemma_key_irreflexive(a);
    }
}

/// Values stored in a key-sorted vector.
pub trait Keyed {
    spec fn key_spec(&self) -> SpecKey;

    fn key_first(&self) -> (r: &str)
        ensures
            r@ == self.key_spec().0,
    ;

    fn key_second(&self) -> (r: &str)
        ensures
            r@ == self.key_spec().1,
    ;
}

/// Keys strictly increase along the sequence (so no key occurs twice).
pub open spec fn sorted_by_key<T: Keyed>(s: Seq<T>) -> bool {
    forall|i: int, j: int|
        0 <= i < j < s.len() ==> key_lt(#[trigger] s[i].key_spec(), #[trigger] s[j].key_spec())
}

/// Some element of `s` has key `k`.
pub open spec fn has_key<T: Keyed>(s: Seq<T>, k: SpecKey) -> bool {
    exists|i: int| 0 <= i < s.len() && #[trigger] s[i].key_spec() == k
}

/// The set of keys of `s`.
pub open spec fn key_set<T: Keyed>(s: Seq<T>) -> Set<SpecKey> {
    Set::new(|k: SpecKey| has_key(s, k))
}

/// An index of `s` holding key `k` (meaningful when there is one).
pub open spec fn index_of_key<T: Keyed>(s: Seq<T>, k: SpecKey) -> int {
    choose|i: int| 0 <= i < s.len() && #[trigger] s[i].key_spec() == k
}

/// The map from each key of `s` to the element holding it.
pub open spec fn as_map<T: Keyed>(s: Seq<T>) -> Map<SpecKey, T> {
    Map::new(|k: SpecKey| has_key(s, k), |k: SpecKey| s[index_of_key(s, k)])
}

/// In a sorted sequence, a key determines its index.
pub proof fn lemma_key_unique<T: Keyed>(s: Seq<T>, i: int, j: int)
    requires
        sorted_by_key(s),
        0 <= i < s.len(),
        0 <= j < s.len(),
        s[i].key_spec() == s[j].key_spec(),
    ensures
        i == j,
{
    if i < j {
        lemma_key_irreflexive(s[i].key_spec());
    } else if j < i {
        lemma_key_irreflexive(s[i].key_spec());
    }
}

/// The map of a sorted sequence sends each element's key to that element.
pub proof fn lemma_as_map_at<T: Keyed>(s: Seq<T>, i: int)
    requires
        sorted_by_key(s),
        0 <= i < s.len(),
    ensures
        as_map(s).contains_key(s[i].key_spec()),
        as_map(s)[s[i].key_spec()] == s[i],
{
    let k = s[i].key_spec();
    assert(has_key(s, k));
    let j = index_of_key(s, k);
    lemma_key_unique(s, i, j);
    assert(as_map(s)[k] == s[j]);
}

/// Where a key belongs in a sorted vector: the first index whose key is not
/// below `k`, and whether that index holds `k` itself.
pub fn locate<T: Keyed>(v: &Vec<T>, k0: &str, k1: &str) -> (r: (usize, bool))
    requires
        sorted_by_key(v@),
    ensures
        r.0 <= v@.len(),
        forall|i: int| 0 <= i < r.0 ==> key_lt(#[trigger] v@[i].key_spec(), (k0@, k1@)),
        r.1 <==> (r.0 < v@.len() && v@[r.0 as int].key_spec() == (k0@, k1@)),
        !r.1 ==> forall|i: int| r.0 <= i < v@.len() ==> key_lt((k0@, k1@), #[trigger] v@[i].key_spec()),
        r.1 ==> forall|i: int| r.0 < i < v@.len() ==> key_lt((k0@, k1@), #[trigger] v@[i].key_spec()),
        r.1 <==> has_key(v@, (k0@, k1@)),
{
    let ghost k = (k0@, k1@);
    let mut i: usize = 0;
    while i < v.len()
        invariant
            sorted_by_key(v@),
            i <= v@.len(),
            k == (k0@, k1@),
            forall|j: int| 0 <= j < i ==> key_lt(#[trigger] v@[j].key_spec(), k),
        decreases v.len() - i,
    {
        let c = compare_key(v[i].key_first(), v[i].key_second(), k0, k1);
        if c != Cmp::Less {
            proof {
                let ki = v@[i as int].key_spec();
                lemma_key_total(ki, k);
                assert forall|j: int| i < j < v@.len() implies key_lt(k, #[trigger] v@[j].key_spec()) by {
                    assert(key_lt(ki, v@[j].key_spec()));
                    if c == Cmp::Greater {
                        lemma_key_transitive(k, ki, v@[j].key_spec());
                    }
                }
                if c == Cmp::Equal {
                    assert(has_key(v@, k));
                } else {
                    assert(!has_key(v@, k)) by {
                        if has_key(v@, k) {
                            let j = choose|j: int| 0 <= j < v@.len() && #[trigger] v@[j].key_spec() == k;
                            lemma_key_irreflexive(k);
                        }
                    }
                }
            }
            return (i, c == Cmp::Equal);
        }
        i = i + 1;
    }
    assert(!has_key(v@, k)) by {
        if has_key(v@, k) {
            let j = choose|j: int| 0 <= j < v@.len() && #[trigger] v@[j].key_spec() == k;
            lemma_key_irreflexive(k);
        }
    }
    (i, false)
}

/// Three-way comparison of two keys.
pub fn compare_key(a0: &str, a1: &str, b0: &str, b1: &str) -> (r: Cmp)
    ensures
        r == Cmp::Less <==> key_lt((a0@, a1@), (b0@, b1@)),
        r == Cmp::Equal <==> (a0@, a1@) == (b0@, b1@),
        r == Cmp::Greater <==> key_lt((b0@, b1@), (a0@, a1@)),
{
    let c = compare_str(a0, b0);
    proof {
        lemma_lt_irreflexive(a0@);
        lemma_lt_irreflexive(a1@);
        if seq_lt(a0@, b0@) {
            lemma_lt_asymmetric(a0@, b0@);
        }
        if seq_lt(b0@, a0@) {
            lemma_lt_asymmetric(b0@, a0@);
        }
    }
    match c {
        Cmp::Equal => {
            let d = compare_str(a1, b1);
            proof {
                if seq_lt(a1@, b1@) {
                    lemma_lt_asymmetric(a1@, b1@);
                }
            }
            d
        },
        other => other,
    }
}

/// Inserting an element whose key sorts strictly between its neighbours
/// keeps the sequence sorted and adds exactly that key.
proof fn lemma_insert_sorted<T: Keyed>(s: Seq<T>, p: int, x: T)
    requires
        sorted_by_key(s),
        0 <= p <= s.len(),
        forall|i: int| 0 <= i < p ==> key_lt(#[trigger] s[i].key_spec(), x.key_spec()),
        forall|i: int| p <= i < s.len() ==> key_lt(x.key_spec(), #[trigger] s[i].key_spec()),
    ensures
        sorted_by_key(s.insert(p, x)),
        as_map(s.insert(p, x)) == as_map(s).insert(x.key_spec(), x),
{
    let t = s.insert(p, x);
    s.insert_ensures(p, x);
    assert forall|i: int, j: int| 0 <= i < j < t.len() implies key_lt(
        #[trigger] t[i].key_spec(),
        #[trigger] t[j].key_spec(),
    ) by {
        if j < p {
        } else if i < p && j == p {
        } else if i < p && j > p {
            assert(t[j] == s[j - 1]);
        } else if i == p {
            assert(t[j] == s[j - 1]);
        } else {
            assert(t[i] == s[i - 1]);
            assert(t[j] == s[j - 1]);
        }
    }
    let m = as_map(s).insert(x.key_spec(), x);
    assert forall|k: SpecKey| #[trigger] has_key(t, k) == m.contains_key(k) by {
        if has_key(t, k) {
            let i = choose|i: int| 0 <= i < t.len() && #[trigger] t[i].key_spec() == k;
            if i < p {
                assert(s[i].key_spec() == k);
            } else if i > p {
                assert(t[i] == s[i - 1]);
                assert(s[i - 1].key_spec() == k);
            }
        }
        if m.contains_key(k) && k != x.key_spec() {
            let i = choose|i: int| 0 <= i < s.len() && #[trigger] s[i].key_spec() == k;
            if i < p {
                assert(t[i] == s[i]);
            } else {
                assert(t[i + 1] == s[i]);
            }
        }
        if k == x.key_spec() {
            assert(t[p] == x);
        }
    }
    assert forall|k: SpecKey| #[trigger] m.contains_key(k) implies as_map(t)[k] == m[k] by {
        assert(has_key(t, k));
        let i = choose|i: int| 0 <= i < t.len() && #[trigger] t[i].key_spec() == k;
        lemma_as_map_at(t, i);
        if i < p {
            assert(t[i] == s[i]);
            lemma_as_map_at(s, i);
            lemma_key_irreflexive(k);
        } else if i > p {
            assert(t[i] == s[i - 1]);
            lemma_as_map_at(s, i - 1);
            lemma_key_irreflexive(k);
        }
    }
    assert(as_map(t) =~= m);
}

/// Replacing the element at `p` with one of the same key keeps the sequence
/// sorted and rebinds that key.
proof fn lemma_update_sorted<T: Keyed>(s: Seq<T>, p: int, x: T)
    requires
        sorted_by_key(s),
        0 <= p < s.len(),
        s[p].key_spec() == x.key_spec(),
    ensures
        sorted_by_key(s.update(p, x)),
        as_map(s.update(p, x)) == as_map(s).insert(x.key_spec(), x),
{
    let t = s.update(p, x);
    assert forall|i: int, j: int| 0 <= i < j < t.len() implies key_lt(
        #[trigger] t[i].key_spec(),
        #[trigger] t[j].key_spec(),
    ) by {
        assert(s[i].key_spec() == t[i].key_spec());
        assert(s[j].key_spec() == t[j].key_spec());
        assert(key_lt(s[i].key_spec(), s[j].key_spec()));
    }
    let m = as_map(s).insert(x.key_spec(), x);
    assert forall|k: SpecKey| #[trigger] has_key(t, k) == m.contains_key(k) by {
        if has_key(t, k) {
            let i = choose|i: int| 0 <= i < t.len() && #[trigger] t[i].key_spec() == k;
            assert(s[i].key_spec() == k);
        }
        if m.contains_key(k) && k != x.key_spec() {
            let i = choose|i: int| 0 <= i < s.len() && #[trigger] s[i].key_spec() == k;
            assert(t[i].key_spec() == k);
        }
        if k == x.key_spec() {
            assert(t[p] == x);
        }
    }
    assert forall|k: SpecKey| #[trigger] m.contains_key(k) implies as_map(t)[k] == m[k] by {
        assert(has_key(t, k));
        let i = choose|i: int| 0 <= i < t.len() && #[trigger] t[i].key_spec() == k;
        lemma_as_map_at(t, i);
        if i != p {
            lemma_as_map_at(s, i);
            if k == x.key_spec() {
                lemma_key_unique(s, i, p);
            }
        }
    }
    assert(as_map(t) =~= m);
}

/// Removing the element at `p` keeps the sequence sorted and drops its key.
proof fn lemma_remove_sorted<T: Keyed>(s: Seq<T>, p: int)
    requires
        sorted_by_key(s),
        0 <= p < s.len(),
    ensures
        sorted_by_key(s.remove(p)),
        as_map(s.remove(p)) == as_map(s).remove(s[p].key_spec()),
{
    let t = s.remove(p);
    s.remove_ensures(p);
    let kp = s[p].key_spec();
    assert forall|i: int, j: int| 0 <= i < j < t.len() implies key_lt(
        #[trigger] t[i].key_spec(),
        #[trigger] t[j].key_spec(),
    ) by {
        if i < p && j >= p {
            assert(t[j] == s[j + 1]);
        } else if i >= p {
            assert(t[i] == s[i + 1]);
            assert(t[j] == s[j + 1]);
        }
    }
    let m = as_map(s).remove(kp);
    assert forall|k: SpecKey| #[trigger] has_key(t, k) == m.contains_key(k) by {
        if has_key(t, k) {
            let i = choose|i: int| 0 <= i < t.len() && #[trigger] t[i].key_spec() == k;
            if i < p {
                assert(s[i].key_spec() == k);
                if k == kp {
                    lemma_key_unique(s, i, p);
                }
            } else {
                assert(t[i] == s[i + 1]);
                assert(s[i + 1].key_spec() == k);
                if k == kp {
                    lemma_key_unique(s, i + 1, p);
                }
            }
        }
        if m.contains_key(k) {
            let i = choose|i: int| 0 <= i < s.len() && #[trigger] s[i].key_spec() == k;
            if i < p {
                assert(t[i] == s[i]);
            } else {
                assert(i != p);
                assert(t[i - 1] == s[i]);
            }
        }
    }
    assert forall|k: SpecKey| #[trigger] m.contains_key(k) implies as_map(t)[k] == m[k] by {
        assert(has_key(t, k));
        let i = choose|i: int| 0 <= i < t.len() && #[trigger] t[i].key_spec() == k;
        lemma_as_map_at(t, i);
        if i < p {
            lemma_as_map_at(s, i);
        } else {
            assert(t[i] == s[i + 1]);
            lemma_as_map_at(s, i + 1);
        }
    }
    assert(as_map(t) =~= m);
}

/// Inserts `x` unless its key is already present, in which case `x` is
/// handed back and the vector is left as it was.
pub fn insert_new<T: Keyed>(v: &mut Vec<T>, x: T) -> (r: Option<T>)
    requires
        sorted_by_key(old(v)@),
    ensures
        sorted_by_key(final(v)@),
        match r {
            Some(y) => y == x && has_key(old(v)@, x.key_spec()) && final(v)@ == old(v)@,
            None => !has_key(old(v)@, x.key_spec()) && as_map(final(v)@) == as_map(old(v)@).insert(
                x.key_spec(),
                x,
            ) && final(v)@.len() == old(v)@.len() + 1,
        },
{
    let (p, found) = locate(v, x.key_first(), x.key_second());
    if found {
        Some(x)
    } else {
        proof {
            lemma_insert_sorted(v@, p as int, x);
        }
        v.insert(p, x);
        None
    }
}

/// Inserts `x`, replacing the element with the same key if there is one.
pub fn upsert<T: Keyed>(v: &mut Vec<T>, x: T)
    requires
        sorted_by_key(old(v)@),
    ensures
        sorted_by_key(final(v)@),
        as_map(final(v)@) == as_map(old(v)@).insert(x.key_spec(), x),
{
    let (p, found) = locate(v, x.key_first(), x.key_second());
    if found {
        proof {
            lemma_update_sorted(v@, p as int, x);
        }
        v.set(p, x);
    } else {
        proof {
            lemma_insert_sorted(v@, p as int, x);
        }
        v.insert(p, x);
    }
}

/// Removes and returns the element with key `(k0, k1)`, if any.
pub fn remove_key<T: Keyed>(v: &mut Vec<T>, k0: &str, k1: &str) -> (r: Option<T>)
    requires
        sorted_by_key(old(v)@),
    ensures
        sorted_by_key(final(v)@),
        as_map(final(v)@) == as_map(old(v)@).remove((k0@, k1@)),
        match r {
            Some(y) => as_map(old(v)@).contains_key((k0@, k1@)) && as_map(old(v)@)[(k0@, k1@)] == y,
            None => !as_map(old(v)@).contains_key((k0@, k1@)),
        },
{
    let (p, found) = locate(v, k0, k1);
    if found {
        proof {
            lemma_remove_sorted(v@, p as int);
            lemma_as_map_at(v@, p as int);
        }
        Some(v.remove(p))
    } else {
        proof {
            assert(as_map(v@).remove((k0@, k1@)) =~= as_map(v@));
        }
        None
    }
}

/// Index of the element with key `(k0, k1)`, if any.
pub fn find_key<T: Keyed>(v: &Vec<T>, k0: &str, k1: &str) -> (r: Option<usize>)
    requires
        sorted_by_key(v@),
    ensures
        match r {
            Some(i) => i < v@.len() && v@[i as int].key_spec() == (k0@, k1@) && as_map(v@).contains_key(
                (k0@, k1@),
            ) && as_map(v@)[(k0@, k1@)] == v@[i as int],
            None => !as_map(v@).contains_key((k0@, k1@)),
        },
{
    let (p, found) = locate(v, k0, k1);
    if found {
        proof {
            lemma_as_map_at(v@, p as int);
        }
        Some(p)
    } else {
        None
    }
}

/// The empty sequence is sorted and maps nothing.
pub proof fn lemma_empty_sorted<T: Keyed>(s: Seq<T>)
    requires
        s.len() == 0,
    ensures
        sorted_by_key(s),
        as_map(s) == Map::<SpecKey, T>::empty(),
{
    assert(as_map(s) =~= Map::<SpecKey, T>::empty());
}

/// A sorted sequence is determined by its map.
pub proof fn lemma_sorted_map_determines<T: Keyed>(s: Seq<T>, t: Seq<T>)
    requires
        sorted_by_key(s),
        sorted_by_key(t),
        as_map(s) == as_map(t),
    ensures
        s == t,
    decreases s.len(),
{
    if s.len() == 0 {
        if t.len() > 0 {
            lemma_as_map_at(t, 0);
        }
        assert(s =~= t);
    } else if t.len() == 0 {
        lemma_as_map_at(s, 0);
    } else {
        let a = s.last();
        let b = t.last();
        lemma_as_map_at(s, s.len() - 1);
        lemma_as_map_at(t, t.len() - 1);
        let ka = a.key_spec();
        let kb = b.key_spec();
        // the last key of each is the largest key of the shared map
        assert(as_map(t).contains_key(ka));
        let i = choose|i: int| 0 <= i < t.len() && #[trigger] t[i].key_spec() == ka;
        assert(as_map(s).contains_key(kb));
        let j = choose|j: int| 0 <= j < s.len() && #[trigger] s[j].key_spec() == kb;
        if i < t.len() - 1 {
            if j < s.len() - 1 {
                lemma_key_asymmetric(kb, ka);
            } else {
                lemma_key_unique(s, j, s.len() - 1);
                lemma_key_irreflexive(ka);
            }
        }
        assert(i == t.len() - 1);
        assert(ka == kb);
        lemma_remove_sorted(s, s.len() - 1);
        lemma_remove_sorted(t, t.len() - 1);
        assert(s.remove(s.len() - 1) =~= s.drop_last());
        assert(t.remove(t.len() - 1) =~= t.drop_last());
        lemma_sorted_map_determines(s.drop_last(), t.drop_last());
        assert(s =~= s.drop_last().push(a));
        assert(t =~= t.drop_last().push(b));
    }
}

/// `m` with the elements of `xs` written over it in order, so that the last
/// element with a given key wins.
pub open spec fn overlay<T: Keyed>(m: Map<SpecKey, T>, xs: Seq<T>) -> Map<SpecKey, T>
    decreases xs.len(),
{
    if xs.len() == 0 {
        m
    } else {
        overlay(m, xs.drop_last()).insert(xs.last().key_spec(), xs.last())
    }
}

/// `j` is the last index of `xs` whose element has key `k`.
pub open spec fn last_with_key<T: Keyed>(xs: Seq<T>, k: SpecKey, j: int) -> bool {
    &&& 0 <= j < xs.len()
    &&& xs[j].key_spec() == k
    &&& forall|i: int| j < i < xs.len() ==> #[trigger] xs[i].key_spec() != k
}

/// Overlaying a prefix one element longer adds that element.
pub proof fn lemma_overlay_take<T: Keyed>(m: Map<SpecKey, T>, xs: Seq<T>, i: int)
    requires
        0 <= i < xs.len(),
    ensures
        overlay(m, xs.take(i + 1)) == overlay(m, xs.take(i)).insert(xs[i].key_spec(), xs[i]),
{
    assert(xs.take(i + 1).drop_last() =~= xs.take(i));
}

/// Overlaying two sequences one after the other overlays their concatenation.
pub proof fn lemma_overlay_append<T: Keyed>(m: Map<SpecKey, T>, xs: Seq<T>, ys: Seq<T>)
    ensures
        overlay(overlay(m, xs), ys) == overlay(m, xs + ys),
    decreases ys.len(),
{
    if ys.len() == 0 {
        assert(xs + ys =~= xs);
    } else {
        lemma_overlay_append(m, xs, ys.drop_last());
        assert((xs + ys).drop_last() =~= xs + ys.drop_last());
        assert((xs + ys).last() == ys.last());
    }
}

/// Over the empty map, the overlay holds exactly the keys that occur, each
/// bound to the last element carrying it.
pub proof fn lemma_overlay_last<T: Keyed>(xs: Seq<T>, k: SpecKey)
    ensures
        overlay(Map::<SpecKey, T>::empty(), xs).contains_key(k) <==> has_key(xs, k),
        has_key(xs, k) ==> exists|j: int|
            last_with_key(xs, k, j) && overlay(Map::<SpecKey, T>::empty(), xs)[k] == xs[j],
    decreases xs.len(),
{
    if xs.len() > 0 {
        let init = xs.drop_last();
        lemma_overlay_last(init, k);
        let n = xs.len() - 1;
        if xs.last().key_spec() == k {
            assert(last_with_key(xs, k, n));
            assert(has_key(xs, k));
        } else {
            if has_key(xs, k) {
                let i = choose|i: int| 0 <= i < xs.len() && #[trigger] xs[i].key_spec() == k;
                assert(init[i].key_spec() == k);
                assert(has_key(init, k));
                let j = choose|j: int|
                    last_with_key(init, k, j) && overlay(Map::<SpecKey, T>::empty(), init)[k]
                        == init[j];
                assert forall|i2: int| j < i2 < xs.len() implies #[trigger] xs[i2].key_spec() != k by {
                    if i2 < n {
                        assert(xs[i2] == init[i2]);
                    }
                }
                assert(last_with_key(xs, k, j));
            }
            if has_key(init, k) {
                let i = choose|i: int| 0 <= i < init.len() && #[trigger] init[i].key_spec() == k;
                assert(xs[i].key_spec() == k);
            }
        }
    }
}

/// Writes the elements of `xs` over `v` in order (the last one with a key
/// wins), consuming `xs`.
pub fn overlay_into<T: Keyed>(v: &mut Vec<T>, xs: Vec<T>)
    requires
        sorted_by_key(old(v)@),
    ensures
        sorted_by_key(final(v)@),
        as_map(final(v)@) == overlay(as_map(old(v)@), xs@),
{
    let ghost orig = xs@;
    let ghost base = as_map(v@);
    let n = xs.len();
    let mut rest = xs;
    let mut i: usize = 0;
    assert(orig.take(0) =~= Seq::<T>::empty());
    assert(orig.skip(0) =~= orig);
    while rest.len() > 0
        invariant
            sorted_by_key(v@),
            i <= orig.len(),
            n == orig.len(),
            rest@ == orig.skip(i as int),
            as_map(v@) == overlay(base, orig.take(i as int)),
        decreases rest@.len(),
    {
        let x = rest.remove(0);
        proof {
            assert(x == orig[i as int]);
            lemma_overlay_take(base, orig, i as int);
        }
        upsert(v, x);
        assert(rest@ =~= orig.skip(i + 1));
        i = i + 1;
    }
    assert(orig.take(i as int) =~= orig);
}

/// Appending an element whose key is above all others keeps the sequence
/// sorted and adds that key to the map.
pub proof fn lemma_as_map_push<T: Keyed>(s: Seq<T>, x: T)
    requires
        sorted_by_key(s.push(x)),
    ensures
        sorted_by_key(s),
        as_map(s.push(x)) == as_map(s).insert(x.key_spec(), x),
{
    let t = s.push(x);
    assert forall|i: int, j: int| 0 <= i < j < s.len() implies key_lt(
        #[trigger] s[i].key_spec(),
        #[trigger] s[j].key_spec(),
    ) by {
        assert(t[i] == s[i] && t[j] == s[j]);
    }
    assert forall|i: int| 0 <= i < s.len() implies key_lt(#[trigger] s[i].key_spec(), x.key_spec()) by {
        assert(t[i] == s[i] && t[s.len() as int] == x);
    }
    lemma_insert_sorted(s, s.len() as int, x);
    assert(s.insert(s.len() as int, x) =~= t);
}

} // verus!
