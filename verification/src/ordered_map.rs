//! An ordered map keyed by participant, kept as a vector sorted by key.
//!
//! Keys are unique and entries are walked in ascending key order, so that two
//! maps with the same contents always list them the same way.

use crate::types::PublicKey;
use vstd::prelude::*;

verus! {

/// Keys strictly ascending from the first entry to the last.
pub open spec fn ascending<V>(s: Seq<(PublicKey, V)>) -> bool {
    forall|i: int, j: int| 0 <= i < j < s.len() ==> (#[trigger] s[i]).0.0 < (#[trigger] s[j]).0.0
}

/// Some entry of `s` has key `k`.
pub open spec fn has_key<V>(s: Seq<(PublicKey, V)>, k: PublicKey) -> bool {
    exists|i: int| 0 <= i < s.len() && (#[trigger] s[i]).0 == k
}

/// The position of an entry with key `k`.
pub open spec fn position<V>(s: Seq<(PublicKey, V)>, k: PublicKey) -> int {
    choose|i: int| 0 <= i < s.len() && (#[trigger] s[i]).0 == k
}

/// The map that a list of entries stands for.
pub open spec fn entries_map<V>(s: Seq<(PublicKey, V)>) -> Map<PublicKey, V> {
    Map::new(|k: PublicKey| has_key(s, k), |k: PublicKey| s[position(s, k)].1)
}

/// With ascending keys, every entry is found again under its own key.
pub proof fn lemma_entries_map<V>(s: Seq<(PublicKey, V)>)
    requires
        ascending(s),
    ensures
        forall|i: int|
            0 <= i < s.len() ==> entries_map(s).contains_key((#[trigger] s[i]).0) && entries_map(
                s,
            )[s[i].0] == s[i].1,
        forall|k: PublicKey| #[trigger]
            entries_map(s).contains_key(k) ==> 0 <= position(s, k) < s.len() && s[position(
                s,
                k,
            )].0 == k,
{
    assert forall|i: int| 0 <= i < s.len() implies entries_map(s).contains_key(
        (#[trigger] s[i]).0,
    ) && entries_map(s)[s[i].0] == s[i].1 by {
        let k = s[i].0;
        assert(has_key(s, k));
        let p = position(s, k);
        assert(0 <= p < s.len() && s[p].0 == k);
        if p < i {
            assert(s[p].0.0 < s[i].0.0);
        }
        if i < p {
            assert(s[i].0.0 < s[p].0.0);
        }
    }
}

/// The entries of `m` in ascending key order.
pub open spec fn listing<V>(m: Map<PublicKey, V>) -> Seq<(PublicKey, V)> {
    choose|s: Seq<(PublicKey, V)>| ascending(s) && entries_map(s) == m
}

/// Dropping the last entry of an ascending list removes its key from the map.
proof fn lemma_drop_last<V>(s: Seq<(PublicKey, V)>)
    requires
        ascending(s),
        s.len() > 0,
    ensures
        ascending(s.drop_last()),
        entries_map(s.drop_last()) == entries_map(s).remove(s.last().0),
{
    let t = s.drop_last();
    assert forall|i: int, j: int| 0 <= i < j < t.len() implies (#[trigger] t[i]).0.0 < (
    #[trigger] t[j]).0.0 by {
        assert(t[i] == s[i] && t[j] == s[j]);
    }
    lemma_entries_map(s);
    lemma_entries_map(t);
    let want = entries_map(s).remove(s.last().0);
    assert forall|k: PublicKey| #[trigger] want.contains_key(k) implies entries_map(
        t,
    ).contains_key(k) && entries_map(t)[k] == want[k] by {
        let p = position(s, k);
        assert(p < t.len());
        assert(t[p] == s[p]);
    }
    assert forall|k: PublicKey| #[trigger] entries_map(t).contains_key(k) implies want.contains_key(
        k,
    ) by {
        let p = position(t, k);
        assert(t[p] == s[p]);
        assert(s[p].0.0 < s[s.len() - 1].0.0);
    }
    assert(entries_map(t) =~= want);
}

/// Two ascending lists that stand for the same map are the same list.
pub proof fn lemma_same_map_same_list<V>(s: Seq<(PublicKey, V)>, t: Seq<(PublicKey, V)>)
    requires
        ascending(s),
        ascending(t),
        entries_map(s) == entries_map(t),
    ensures
        s == t,
    decreases s.len(),
{
    lemma_entries_len(s);
    lemma_entries_len(t);
    if s.len() == 0 {
        assert(s =~= t);
    } else {
        lemma_entries_map(s);
        lemma_entries_map(t);
        let a = s.last();
        let b = t.last();
        assert(entries_map(t).contains_key(a.0));
        let p = position(t, a.0);
        assert(entries_map(s).contains_key(b.0));
        let q = position(s, b.0);
        if p < t.len() - 1 {
            assert(t[p].0.0 < t[t.len() - 1].0.0);
        }
        if q < s.len() - 1 {
            assert(s[q].0.0 < s[s.len() - 1].0.0);
        }
        assert(a.0 == b.0);
        assert(entries_map(s)[a.0] == a.1);
        assert(entries_map(t)[b.0] == b.1);
        assert(a == b);
        lemma_drop_last(s);
        lemma_drop_last(t);
        lemma_same_map_same_list(s.drop_last(), t.drop_last());
        assert(s =~= s.drop_last().push(a));
        assert(t =~= t.drop_last().push(b));
    }
}

/// An ascending list is the listing of the map it stands for.
pub proof fn lemma_listing<V>(s: Seq<(PublicKey, V)>)
    requires
        ascending(s),
    ensures
        listing(entries_map(s)) == s,
{
    let t = listing(entries_map(s));
    assert(ascending(t) && entries_map(t) == entries_map(s));
    lemma_same_map_same_list(s, t);
}

/// The list `s` with `key` set to `value`, at the place that keeps the keys
/// ascending.
fn with_entry<V: Copy>(s: &Vec<(PublicKey, V)>, key: PublicKey, value: V) -> (out: Vec<
    (PublicKey, V),
>)
    requires
        ascending(s@),
    ensures
        ascending(out@),
        entries_map(out@) == entries_map(s@).insert(key, value),
{
    let mut out: Vec<(PublicKey, V)> = Vec::new();
    let mut i: usize = 0;
    while i < s.len() && s[i].0.0 < key.0
        invariant
            i <= s.len(),
            out@ == s@.take(i as int),
            forall|j: int| 0 <= j < i ==> (#[trigger] s@[j]).0.0 < key.0,
        decreases s.len() - i,
    {
        out.push(s[i]);
        assert(s@.take(i as int).push(s@[i as int]) =~= s@.take(i + 1));
        i += 1;
    }
    let lo = i;
    out.push((key, value));
    if i < s.len() && s[i].0 == key {
        i += 1;
    }
    let skip = i;
    assert(out@ =~= s@.take(lo as int).push((key, value)) + s@.subrange(skip as int, i as int));
    while i < s.len()
        invariant
            lo <= skip <= i <= s.len(),
            out@ == s@.take(lo as int).push((key, value)) + s@.subrange(skip as int, i as int),
        decreases s.len() - i,
    {
        out.push(s[i]);
        assert(s@.subrange(skip as int, i as int).push(s@[i as int]) =~= s@.subrange(
            skip as int,
            i + 1,
        ));
        assert(out@ =~= s@.take(lo as int).push((key, value)) + s@.subrange(
            skip as int,
            i + 1,
        ));
        i += 1;
    }
    proof {
        let before = s@;
        let after = out@;
        let gap = skip - lo - 1;
        assert(after.len() == before.len() - gap);
        assert forall|a: int| 0 <= a < after.len() implies (#[trigger] after[a]) == (if a < lo {
            before[a]
        } else if a == lo {
            (key, value)
        } else {
            before[a + gap]
        }) by {}
        assert forall|j: int| skip <= j < before.len() implies key.0 < (#[trigger] before[j]).0.0 by {
            if skip == lo {
                assert(before[lo as int].0.0 >= key.0);
                assert(before[lo as int].0 != key);
                if j > lo {
                    assert(before[lo as int].0.0 < before[j].0.0);
                }
            } else {
                assert(before[lo as int].0 == key);
                assert(before[lo as int].0.0 < before[j].0.0);
            }
        }
        assert forall|a: int, b: int| 0 <= a < b < after.len() implies (#[trigger] after[a]).0.0 < (
        #[trigger] after[b]).0.0 by {
            if a < lo {
                assert(after[a] == before[a]);
            } else if a > lo {
                assert(after[a] == before[a + gap]);
            }
            if b < lo {
                assert(after[b] == before[b]);
            } else if b > lo {
                assert(after[b] == before[b + gap]);
            }
        }
        lemma_entries_map(before);
        lemma_entries_map(after);
        let want = entries_map(before).insert(key, value);
        assert forall|k: PublicKey| #[trigger] want.contains_key(k) implies entries_map(
            after,
        ).contains_key(k) && entries_map(after)[k] == want[k] by {
            if k != key {
                let p = position(before, k);
                if p < lo {
                    assert(after[p] == before[p]);
                } else {
                    assert(before[p].0 != key);
                    assert(p >= skip);
                    assert(after[p - gap] == before[p]);
                }
            } else {
                assert(after[lo as int].0 == key);
            }
        }
        assert forall|k: PublicKey| #[trigger]
            entries_map(after).contains_key(k) implies want.contains_key(k) by {
            let p = position(after, k);
            if p < lo {
                assert(after[p] == before[p]);
            } else if p > lo {
                assert(after[p] == before[p + gap]);
            }
        }
        assert(entries_map(after) =~= want);
    }
    out
}

/// A finite map from participant to `V` with unique keys.
#[derive(Debug, PartialEq, Eq)]
pub struct OrderedMap<V> {
    entries: Vec<(PublicKey, V)>,
}

impl<V> View for OrderedMap<V> {
    type V = Map<PublicKey, V>;

    closed spec fn view(&self) -> Map<PublicKey, V> {
        entries_map(self.entries@)
    }
}

impl<V> OrderedMap<V> {
    #[verifier::type_invariant]
    spec fn sorted(&self) -> bool {
        ascending(self.entries@)
    }
}

impl<V: Copy> OrderedMap<V> {
    pub fn new() -> (m: OrderedMap<V>)
        ensures
            m@ == Map::<PublicKey, V>::empty(),
    {
        let m = OrderedMap { entries: Vec::new() };
        assert(m@ =~= Map::<PublicKey, V>::empty());
        m
    }

    /// The map that a list with ascending keys stands for.
    pub(crate) fn from_ascending(entries: Vec<(PublicKey, V)>) -> (m: OrderedMap<V>)
        requires
            ascending(entries@),
        ensures
            m@ == entries_map(entries@),
    {
        OrderedMap { entries }
    }

    /// The value recorded for `key`, if any.
    pub fn get(&self, key: PublicKey) -> (found: Option<V>)
        ensures
            found == (if self@.contains_key(key) {
                Some(self@[key])
            } else {
                None
            }),
    {
        proof {
            use_type_invariant(self);
            lemma_entries_map(self.entries@);
        }
        let mut i: usize = 0;
        while i < self.entries.len()
            invariant
                i <= self.entries.len(),
                ascending(self.entries@),
                forall|j: int| 0 <= j < i ==> (#[trigger] self.entries@[j]).0 != key,
            decreases self.entries.len() - i,
        {
            if self.entries[i].0 == key {
                proof {
                    lemma_entries_map(self.entries@);
                }
                return Some(self.entries[i].1);
            }
            i += 1;
        }
        None
    }

    /// Records `value` for `key`, replacing what was recorded before.
    pub fn insert(&mut self, key: PublicKey, value: V)
        ensures
            final(self)@ == old(self)@.insert(key, value),
    {
        proof {
            use_type_invariant(&*self);
        }
        let entries = with_entry(&self.entries, key, value);
        self.entries = entries;
    }

    /// Forgets every entry.
    pub fn clear(&mut self)
        ensures
            final(self)@ == Map::<PublicKey, V>::empty(),
    {
        self.entries = Vec::new();
        assert(entries_map(self.entries@) =~= Map::<PublicKey, V>::empty());
    }

    pub fn is_empty(&self) -> (empty: bool)
        ensures
            empty == (self@ == Map::<PublicKey, V>::empty()),
    {
        let empty = self.entries.len() == 0;
        proof {
            use_type_invariant(self);
            lemma_entries_map(self.entries@);
            if empty {
                assert(entries_map(self.entries@) =~= Map::<PublicKey, V>::empty());
            } else {
                assert(entries_map(self.entries@).contains_key(self.entries@[0].0));
            }
        }
        empty
    }

    pub fn len(&self) -> (n: usize)
        ensures
            self@.dom().finite(),
            n == self@.len(),
    {
        proof {
            use_type_invariant(self);
            lemma_entries_len(self.entries@);
        }
        self.entries.len()
    }

    /// The entries in ascending key order.
    pub fn to_vec(&self) -> (list: Vec<(PublicKey, V)>)
        ensures
            list@ == listing(self@),
            ascending(list@),
            entries_map(list@) == self@,
    {
        proof {
            use_type_invariant(self);
            lemma_listing(self.entries@);
        }
        let mut list: Vec<(PublicKey, V)> = Vec::new();
        let mut i: usize = 0;
        while i < self.entries.len()
            invariant
                i <= self.entries.len(),
                list@ == self.entries@.take(i as int),
            decreases self.entries.len() - i,
        {
            list.push(self.entries[i]);
            assert(self.entries@.take(i as int).push(self.entries@[i as int])
                =~= self.entries@.take(i + 1));
            i += 1;
        }
        assert(list@ =~= self.entries@);
        list
    }
}

/// A list with ascending keys stands for a finite map with one key per entry.
pub proof fn lemma_entries_len<V>(s: Seq<(PublicKey, V)>)
    requires
        ascending(s),
    ensures
        entries_map(s).dom().finite(),
        entries_map(s).len() == s.len(),
    decreases s.len(),
{
    if s.len() == 0 {
        assert(entries_map(s).dom() =~= Set::<PublicKey>::empty());
    } else {
        let t = s.drop_last();
        let last = s.last();
        assert(ascending(t)) by {
            assert forall|i: int, j: int| 0 <= i < j < t.len() implies (#[trigger] t[i]).0.0 < (
            #[trigger] t[j]).0.0 by {
                assert(t[i] == s[i] && t[j] == s[j]);
            }
        }
        lemma_entries_len(t);
        assert(!has_key(t, last.0)) by {
            if has_key(t, last.0) {
                let p = position(t, last.0);
                assert(t[p] == s[p]);
                assert(s[p].0.0 < s[s.len() - 1].0.0);
            }
        }
        assert(entries_map(s).dom() =~= entries_map(t).dom().insert(last.0)) by {
            assert forall|k: PublicKey| entries_map(s).dom().contains(k) implies entries_map(
                t,
            ).dom().insert(last.0).contains(k) by {
                let p = position(s, k);
                if p < t.len() {
                    assert(t[p] == s[p]);
                    assert(has_key(t, k));
                }
            }
            assert forall|k: PublicKey| entries_map(t).dom().insert(last.0).contains(
                k,
            ) implies entries_map(s).dom().contains(k) by {
                if k == last.0 {
                    assert(s[s.len() - 1].0 == k);
                } else {
                    let p = position(t, k);
                    assert(t[p] == s[p]);
                }
            }
        }
    }
}

impl<V: Copy> Clone for OrderedMap<V> {
    fn clone(&self) -> (copy: Self)
        ensures
            copy@ == self@,
    {
        proof {
            use_type_invariant(self);
        }
        OrderedMap { entries: self.to_vec() }
    }
}

} // verus!
