//! Hash maps from numbers, hashed with `rustc_hash`.

use rustc_hash::FxBuildHasher;
use std::collections::HashMap;
use vstd::prelude::*;

verus! {

/// The hasher of `rustc_hash`. It has no state: it hashes a number the same
/// way each time.
#[verifier::external_type_specification]
#[verifier::external_body]
pub struct ExFxBuildHasher(rustc_hash::FxBuildHasher);

/// `rustc_hash::FxHashMap` with numbers for keys. Its view is the map that it
/// stands for.
pub type FxMap<V> = HashMap<u64, V, FxBuildHasher>;

/// `FxHashMap::get`: the value held for a key, if there is one.
#[verifier::external_body]
pub(crate) fn fx_get<V>(m: &FxMap<V>, key: u64) -> (r: Option<&V>)
    ensures
        match r {
            Some(v) => m@.contains_key(key) && *v == m@[key],
            None => !m@.contains_key(key),
        },
{
    m.get(&key)
}

/// `FxHashMap::insert`: the value is held for the key from now on, in place
/// of any held before.
#[verifier::external_body]
pub(crate) fn fx_insert<V>(m: &mut FxMap<V>, key: u64, value: V)
    ensures
        final(m)@ == old(m)@.insert(key, value),
{
    m.insert(key, value);
}

/// `FxHashMap::remove`: nothing is held for the key from now on, and what was
/// held is handed out.
#[verifier::external_body]
pub(crate) fn fx_remove<V>(m: &mut FxMap<V>, key: u64) -> (r: Option<V>)
    ensures
        final(m)@ == old(m)@.remove(key),
        match r {
            Some(v) => old(m)@.contains_key(key) && v == old(m)@[key],
            None => !old(m)@.contains_key(key),
        },
{
    m.remove(&key)
}

/// `FxHashMap::keys`, collected: each key once. In which order they come is
/// left open.
#[verifier::external_body]
pub(crate) fn fx_keys<V>(m: &FxMap<V>) -> (r: Vec<u64>)
    ensures
        r@.no_duplicates(),
        r@.to_set() == m@.dom(),
{
    m.keys().copied().collect()
}

/// Whether `s` lists the numbers of a set, each once, in ascending order.
pub open spec fn lists(s: Seq<u64>, set: Set<u64>) -> bool {
    &&& forall|i: int, j: int| 0 <= i < j < s.len() ==> s[i] < s[j]
    &&& forall|k: u64| s.contains(k) <==> set.contains(k)
}

/// The numbers of a finite set in ascending order.
pub open spec fn ascending(set: Set<u64>) -> Seq<u64> {
    choose|s: Seq<u64>| lists(s, set)
}

/// A set is listed in one way only.
pub proof fn listing_is_unique(s: Seq<u64>, t: Seq<u64>, set: Set<u64>)
    requires
        lists(s, set),
        lists(t, set),
    ensures
        s == t,
    decreases s.len(),
{
    if s.len() == 0 {
        if t.len() > 0 {
            assert(t.contains(t[0]));
            assert(s.contains(t[0]));
        }
        assert(s =~= t);
    } else {
        assert(s.contains(s.last()));
        assert(t.contains(s.last()));
        assert(t.contains(t.last()));
        assert(s.contains(t.last()));
        let i = t.index_of(s.last());
        let j = s.index_of(t.last());
        assert(t[i] == s.last() && s[j] == t.last());
        assert(s.last() == t.last());
        let rest = set.remove(s.last());
        let s1 = s.drop_last();
        let t1 = t.drop_last();
        assert(lists(s1, rest)) by {
            drop_last_lists(s, set);
        }
        assert(lists(t1, rest)) by {
            drop_last_lists(t, set);
        }
        listing_is_unique(s1, t1, rest);
        assert(s =~= s1.push(s.last()));
        assert(t =~= t1.push(t.last()));
    }
}

/// A listing without its last number lists the set without it.
proof fn drop_last_lists(s: Seq<u64>, set: Set<u64>)
    requires
        lists(s, set),
        s.len() > 0,
    ensures
        lists(s.drop_last(), set.remove(s.last())),
{
    let t = s.drop_last();
    assert forall|k: u64| t.contains(k) <==> set.remove(s.last()).contains(k) by {
        if t.contains(k) {
            let i = t.index_of(k);
            assert(s[i] == k);
            assert(s.contains(k));
        }
        if set.remove(s.last()).contains(k) {
            assert(s.contains(k));
            let i = s.index_of(k);
            assert(t[i] == k);
        }
    }
}

/// An ascending sequence with one more number in its place.
proof fn with_number(s: Seq<u64>, set: Set<u64>, k: u64) -> (t: Seq<u64>)
    requires
        lists(s, set),
        !set.contains(k),
    ensures
        lists(t, set.insert(k)),
    decreases s.len(),
{
    if s.len() == 0 || s.last() < k {
        let t = s.push(k);
        assert forall|j: u64| t.contains(j) <==> set.insert(k).contains(j) by {
            if s.contains(j) {
                assert(t[s.index_of(j)] == j);
            }
            if t.contains(j) && j != k {
                assert(s[t.index_of(j)] == j);
            }
            assert(t[s.len() as int] == k);
        }
        t
    } else {
        assert(s[s.len() - 1] == s.last());
        assert(s.contains(s.last()));
        drop_last_lists(s, set);
        let rest = set.remove(s.last());
        let r = with_number(s.drop_last(), rest, k);
        let t = r.push(s.last());
        assert forall|j: u64| t.contains(j) <==> set.insert(k).contains(j) by {
            if r.contains(j) {
                assert(t[r.index_of(j)] == j);
            }
            if t.contains(j) && j != s.last() {
                assert(r[t.index_of(j)] == j);
            }
            assert(t[r.len() as int] == s.last());
        }
        assert forall|i: int| 0 <= i < r.len() implies r[i] < s.last() by {
            assert(r.contains(r[i]));
            if r[i] != k {
                assert(rest.contains(r[i]));
                assert(s.contains(r[i]));
                let m = s.index_of(r[i]);
                assert(s[m] < s.last());
            }
        }
        t
    }
}

/// A finite set can be listed.
pub proof fn finite_set_is_listed(set: Set<u64>)
    requires
        set.finite(),
    ensures
        lists(ascending(set), set),
{
    let s = listing(set);
    assert(lists(s, set));
}

/// A listing of a finite set.
proof fn listing(set: Set<u64>) -> (s: Seq<u64>)
    requires
        set.finite(),
    ensures
        lists(s, set),
    decreases set.len(),
{
    if set.len() == 0 {
        let s = Seq::<u64>::empty();
        assert(set =~= Set::empty());
        s
    } else {
        let k = set.choose();
        let s = listing(set.remove(k));
        let t = with_number(s, set.remove(k), k);
        assert(set.remove(k).insert(k) =~= set);
        t
    }
}

/// Puts a number into its place in an ascending list that does not hold it.
fn place(sorted: &mut Vec<u64>, key: u64, set: Ghost<Set<u64>>)
    requires
        lists(old(sorted)@, set@),
        !set@.contains(key),
    ensures
        lists(final(sorted)@, set@.insert(key)),
{
    let ghost s = sorted@;
    let mut i: usize = 0;
    while i < sorted.len() && sorted[i] < key
        invariant
            i <= sorted@.len(),
            sorted@ == s,
            lists(s, set@),
            forall|j: int| 0 <= j < i ==> s[j] < key,
        decreases sorted.len() - i,
    {
        i += 1;
    }
    sorted.insert(i, key);
    proof {
        let t = sorted@;
        assert(t == s.insert(i as int, key));
        if i < s.len() {
            assert(s.contains(s[i as int]));
        }
        assert forall|k: u64| t.contains(k) <==> set@.insert(key).contains(k) by {
            assert(t[i as int] == key);
            if t.contains(k) && k != key {
                let j = t.index_of(k);
                if j < i {
                    assert(s[j] == k);
                } else {
                    assert(s[j - 1] == k);
                }
                assert(s.contains(k));
            }
            if set@.contains(k) {
                assert(s.contains(k));
                let j = s.index_of(k);
                if j < i {
                    assert(t[j] == k);
                } else {
                    assert(t[j + 1] == k);
                }
            }
        }
    }
}

/// The empty map.
pub fn empty_map<V>() -> (m: FxMap<V>)
    ensures
        m@ == Map::<u64, V>::empty(),
{
    FxMap::default()
}

/// The keys of a map in ascending order.
pub fn sorted_keys<V>(m: &FxMap<V>) -> (r: Vec<u64>)
    ensures
        r@ == ascending(m@.dom()),
        lists(r@, m@.dom()),
        m@.dom().finite(),
{
    let keys = fx_keys(m);
    let mut sorted: Vec<u64> = Vec::new();
    let n = keys.len();
    let mut i: usize = 0;
    assert(lists(sorted@, keys@.take(0).to_set()));
    while i < n
        invariant
            i <= n == keys@.len(),
            keys@.no_duplicates(),
            lists(sorted@, keys@.take(i as int).to_set()),
        decreases n - i,
    {
        let ghost seen = keys@.take(i as int);
        proof {
            if seen.contains(keys@[i as int]) {
                let j = seen.index_of(keys@[i as int]);
                assert(keys@[j] == keys@[i as int]);
            }
        }
        place(&mut sorted, keys[i], Ghost(seen.to_set()));
        proof {
            assert(keys@.take(i + 1) =~= seen.push(keys@[i as int]));
            seen.lemma_push_to_set_commute(keys@[i as int]);
        }
        i += 1;
    }
    proof {
        assert(keys@.take(n as int) =~= keys@);
        assert(lists(sorted@, m@.dom()));
        listing_is_unique(sorted@, ascending(m@.dom()), m@.dom());
    }
    sorted
}

} // verus!
