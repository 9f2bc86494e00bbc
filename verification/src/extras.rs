//! Contextual key-value pairs, kept as a list in ascending key order.
//!
//! The list stands for a mapping from key to value: no key occurs twice, and
//! because the keys ascend, the list is determined by the mapping alone.

use crate::text::{lemma_precedes_asymmetric, lemma_precedes_irreflexive, lemma_precedes_total,
    lemma_precedes_transitive, place, precedes, Placement};
use vstd::prelude::*;

verus! {

/// The keys of `s` are strictly ascending in the order of [`precedes`].
pub open spec fn ascending(s: Seq<(Seq<char>, Seq<char>)>) -> bool {
    forall|i: int, j: int|
        #![trigger s[i], s[j]]
        0 <= i < j < s.len() ==> precedes(s[i].0, s[j].0)
}

/// Some pair of `s` has the key `k`.
pub open spec fn has_key(s: Seq<(Seq<char>, Seq<char>)>, k: Seq<char>) -> bool {
    exists|i: int| 0 <= i < s.len() && (#[trigger] s[i]).0 == k
}

/// An index at which `s` holds the key `k`, where there is one.
pub open spec fn position(s: Seq<(Seq<char>, Seq<char>)>, k: Seq<char>) -> int {
    choose|i: int| 0 <= i < s.len() && (#[trigger] s[i]).0 == k
}

/// The mapping that a list of pairs stands for.
pub open spec fn as_map(s: Seq<(Seq<char>, Seq<char>)>) -> Map<Seq<char>, Seq<char>> {
    Map::new(|k: Seq<char>| has_key(s, k), |k: Seq<char>| s[position(s, k)].1)
}

/// In an ascending list every pair is found under its own key.
pub proof fn lemma_lookup(s: Seq<(Seq<char>, Seq<char>)>, i: int)
    requires
        ascending(s),
        0 <= i < s.len(),
    ensures
        has_key(s, s[i].0),
        position(s, s[i].0) == i,
        as_map(s).dom().contains(s[i].0),
        as_map(s)[s[i].0] == s[i].1,
{
    let k = s[i].0;
    let j = position(s, k);
    lemma_precedes_irreflexive(k);
    if j < i {
        assert(precedes(s[j].0, s[i].0));
    }
    if i < j {
        assert(precedes(s[i].0, s[j].0));
    }
}

/// An ascending list holds no key twice.
pub proof fn lemma_keys_distinct(s: Seq<(Seq<char>, Seq<char>)>, i: int, j: int)
    requires
        ascending(s),
        0 <= i < s.len(),
        0 <= j < s.len(),
        s[i].0 == s[j].0,
    ensures
        i == j,
{
    lemma_lookup(s, i);
    lemma_lookup(s, j);
}

/// Putting a pair where its key belongs keeps the list ascending and adds
/// exactly that pair to the mapping.
pub proof fn lemma_insert(s: Seq<(Seq<char>, Seq<char>)>, p: int, e: (Seq<char>, Seq<char>))
    requires
        ascending(s),
        0 <= p <= s.len(),
        forall|i: int| 0 <= i < p ==> precedes((#[trigger] s[i]).0, e.0),
        p < s.len() ==> precedes(e.0, s[p].0),
    ensures
        ascending(s.insert(p, e)),
        as_map(s.insert(p, e)) == as_map(s).insert(e.0, e.1),
{
    let t = s.insert(p, e);
    assert forall|i: int| p <= i < s.len() implies precedes(e.0, (#[trigger] s[i]).0) by {
        if p < i {
            assert(precedes(s[p].0, s[i].0));
            lemma_precedes_transitive(e.0, s[p].0, s[i].0);
        }
    }
    assert forall|i: int, j: int| 0 <= i < j < t.len() implies precedes(t[i].0, t[j].0) by {
        if j < p {
            assert(precedes(s[i].0, s[j].0));
        } else if j == p {
            assert(t[i] == s[i]);
        } else if i < p {
            assert(precedes(s[i].0, s[j - 1].0));
        } else if i == p {
            assert(t[j] == s[j - 1]);
        } else {
            assert(precedes(s[i - 1].0, s[j - 1].0));
        }
    }
    assert forall|k: Seq<char>| as_map(t).dom().contains(k) <==> as_map(s).insert(
        e.0,
        e.1,
    ).dom().contains(k) by {
        if has_key(t, k) {
            let j = position(t, k);
            if j < p {
                assert(s[j].0 == k);
            } else if j > p {
                assert(s[j - 1].0 == k);
            }
        }
        if has_key(s, k) {
            let i = position(s, k);
            if i < p {
                assert(t[i].0 == k);
            } else {
                assert(t[i + 1].0 == k);
            }
        }
        if k == e.0 {
            assert(t[p].0 == k);
        }
    }
    assert forall|k: Seq<char>| #[trigger] as_map(t).dom().contains(k) implies as_map(t)[k]
        == as_map(s).insert(e.0, e.1)[k] by {
        let j = position(t, k);
        lemma_lookup(t, j);
        if j < p {
            lemma_lookup(s, j);
            lemma_precedes_irreflexive(k);
        } else if j > p {
            lemma_lookup(s, j - 1);
            lemma_precedes_irreflexive(k);
        }
    }
    assert(as_map(t) =~= as_map(s).insert(e.0, e.1));
}

/// Giving the pair at `p` a new value keeps the list ascending and changes
/// the mapping at that key alone.
pub proof fn lemma_replace(s: Seq<(Seq<char>, Seq<char>)>, p: int, v: Seq<char>)
    requires
        ascending(s),
        0 <= p < s.len(),
    ensures
        ascending(s.update(p, (s[p].0, v))),
        as_map(s.update(p, (s[p].0, v))) == as_map(s).insert(s[p].0, v),
{
    let t = s.update(p, (s[p].0, v));
    assert forall|i: int, j: int| 0 <= i < j < t.len() implies precedes(t[i].0, t[j].0) by {
        assert(precedes(s[i].0, s[j].0));
    }
    assert forall|k: Seq<char>| as_map(t).dom().contains(k) <==> as_map(s).insert(
        s[p].0,
        v,
    ).dom().contains(k) by {
        if has_key(t, k) {
            let j = position(t, k);
            assert(s[j].0 == k);
        }
        if has_key(s, k) {
            let i = position(s, k);
            assert(t[i].0 == k);
        }
        if k == s[p].0 {
            assert(t[p].0 == k);
        }
    }
    assert forall|k: Seq<char>| #[trigger] as_map(t).dom().contains(k) implies as_map(t)[k]
        == as_map(s).insert(s[p].0, v)[k] by {
        let j = position(t, k);
        lemma_lookup(t, j);
        lemma_lookup(s, j);
        if j != p {
            lemma_lookup(s, p);
        }
    }
    assert(as_map(t) =~= as_map(s).insert(s[p].0, v));
}

/// Taking the pair at `p` out keeps the list ascending and removes exactly
/// its key from the mapping.
pub proof fn lemma_remove(s: Seq<(Seq<char>, Seq<char>)>, p: int)
    requires
        ascending(s),
        0 <= p < s.len(),
    ensures
        ascending(s.remove(p)),
        as_map(s.remove(p)) == as_map(s).remove(s[p].0),
{
    let t = s.remove(p);
    assert forall|i: int, j: int| 0 <= i < j < t.len() implies precedes(t[i].0, t[j].0) by {
        let a = if i < p { i } else { i + 1 };
        let b = if j < p { j } else { j + 1 };
        assert(precedes(s[a].0, s[b].0));
    }
    assert forall|k: Seq<char>| as_map(t).dom().contains(k) <==> as_map(s).remove(
        s[p].0,
    ).dom().contains(k) by {
        if has_key(t, k) {
            let j = position(t, k);
            let a = if j < p { j } else { j + 1 };
            assert(s[a].0 == k);
            if k == s[p].0 {
                lemma_keys_distinct(s, a, p);
            }
        }
        if has_key(s, k) && k != s[p].0 {
            let i = position(s, k);
            if i < p {
                assert(t[i].0 == k);
            } else {
                assert(t[i - 1].0 == k);
            }
        }
    }
    assert forall|k: Seq<char>| #[trigger] as_map(t).dom().contains(k) implies as_map(t)[k]
        == as_map(s).remove(s[p].0)[k] by {
        let j = position(t, k);
        lemma_lookup(t, j);
        let a = if j < p { j } else { j + 1 };
        lemma_lookup(s, a);
    }
    assert(as_map(t) =~= as_map(s).remove(s[p].0));
}

/// A key that stands between its neighbours without being either is not in
/// the list.
pub proof fn lemma_absent(s: Seq<(Seq<char>, Seq<char>)>, p: int, k: Seq<char>)
    requires
        ascending(s),
        0 <= p <= s.len(),
        forall|i: int| 0 <= i < p ==> precedes((#[trigger] s[i]).0, k),
        p < s.len() ==> precedes(k, s[p].0),
    ensures
        !has_key(s, k),
        !as_map(s).dom().contains(k),
{
    lemma_precedes_irreflexive(k);
    if has_key(s, k) {
        let i = position(s, k);
        if i > p {
            assert(precedes(s[p].0, s[i].0));
            lemma_precedes_asymmetric(k, s[p].0);
        }
    }
}

/// An ascending list is determined by the mapping it stands for: two
/// ascending lists with the same mapping are the same list.
pub proof fn lemma_determined_by_map(
    s: Seq<(Seq<char>, Seq<char>)>,
    t: Seq<(Seq<char>, Seq<char>)>,
)
    requires
        ascending(s),
        ascending(t),
        as_map(s) == as_map(t),
    ensures
        s == t,
    decreases s.len(),
{
    if s.len() == 0 {
        if t.len() > 0 {
            lemma_lookup(t, 0);
            assert(as_map(s).dom().contains(t[0].0));
        }
        assert(s =~= t);
    } else {
        let n = s.len() - 1;
        lemma_lookup(s, n);
        let k = s[n].0;
        assert(has_key(t, k));
        let j = position(t, k);
        let m = t.len() - 1;
        if j < m {
            lemma_lookup(t, m);
            assert(has_key(s, t[m].0));
            let i = position(s, t[m].0);
            assert(precedes(t[j].0, t[m].0));
            if i < n {
                assert(precedes(s[i].0, s[n].0));
                lemma_precedes_asymmetric(s[i].0, s[n].0);
            } else {
                lemma_precedes_irreflexive(k);
            }
        }
        lemma_lookup(t, m);
        lemma_remove(s, n);
        lemma_remove(t, m);
        assert(s.remove(n) =~= s.drop_last());
        assert(t.remove(m) =~= t.drop_last());
        lemma_determined_by_map(s.drop_last(), t.drop_last());
        assert(s =~= s.drop_last().push(s[n]));
        assert(t =~= t.drop_last().push(t[m]));
    }
}

/// The pairs of a stored list, as texts.
spec fn pairs_of(v: Seq<(String, String)>) -> Seq<(Seq<char>, Seq<char>)> {
    v.map_values(|e: (String, String)| (e.0@, e.1@))
}

/// Contextual key-value pairs: a mapping from key to value, held as a list of
/// pairs in ascending key order.
#[derive(Debug)]
pub struct Extras {
    entries: Vec<(String, String)>,
}

impl View for Extras {
    type V = Seq<(Seq<char>, Seq<char>)>;

    /// The pairs, in the order in which formatters render them.
    closed spec fn view(&self) -> Seq<(Seq<char>, Seq<char>)> {
        pairs_of(self.entries@)
    }
}

/// Finds where `key` stands in an ascending list: the index of the first
/// pair whose key does not come before it, and whether that pair has the key.
fn locate(entries: &Vec<(String, String)>, key: &str) -> (r: (usize, bool))
    requires
        ascending(pairs_of(entries@)),
    ensures
        r.0 <= entries.len(),
        forall|i: int| 0 <= i < r.0 ==> precedes((#[trigger] pairs_of(entries@)[i]).0, key@),
        r.1 ==> r.0 < entries.len() && pairs_of(entries@)[r.0 as int].0 == key@,
        !r.1 && r.0 < entries.len() ==> precedes(key@, pairs_of(entries@)[r.0 as int].0),
{
    let mut i: usize = 0;
    while i < entries.len()
        invariant
            i <= entries.len(),
            forall|j: int| 0 <= j < i ==> precedes((#[trigger] pairs_of(entries@)[j]).0, key@),
        decreases entries.len() - i,
    {
        match place(entries[i].0.as_str(), key) {
            Placement::Before => {
                i = i + 1;
            },
            Placement::Same => {
                return (i, true);
            },
            Placement::After => {
                return (i, false);
            },
        }
    }
    (i, false)
}

impl Extras {
    /// Every value of the type keeps its keys strictly ascending.
    #[verifier::type_invariant]
    pub open spec fn is_sorted(self) -> bool {
        ascending(self@)
    }

    /// The mapping from key to value that the pairs stand for.
    pub open spec fn map(&self) -> Map<Seq<char>, Seq<char>> {
        as_map(self@)
    }

    /// An empty set of extras.
    pub fn new() -> (r: Self)
        ensures
            r@ == Seq::<(Seq<char>, Seq<char>)>::empty(),
    {
        let r = Extras { entries: Vec::new() };
        assert(r@ =~= Seq::<(Seq<char>, Seq<char>)>::empty());
        r
    }

    /// The number of pairs.
    pub fn len(&self) -> (n: usize)
        ensures
            n == self@.len(),
    {
        self.entries.len()
    }

    /// Whether there is no pair at all.
    pub fn is_empty(&self) -> (b: bool)
        ensures
            b == (self@.len() == 0),
    {
        self.entries.len() == 0
    }

    /// The key of the pair at position `i`.
    pub fn key(&self, i: usize) -> (k: &str)
        requires
            i < self@.len(),
        ensures
            k@ == self@[i as int].0,
    {
        self.entries[i].0.as_str()
    }

    /// The value of the pair at position `i`.
    pub fn value(&self, i: usize) -> (v: &str)
        requires
            i < self@.len(),
        ensures
            v@ == self@[i as int].1,
    {
        self.entries[i].1.as_str()
    }

    /// The value stored under `key`, if there is one.
    pub fn get(&self, key: &str) -> (r: Option<&str>)
        ensures
            match r {
                Some(v) => self.map().dom().contains(key@) && v@ == self.map()[key@],
                None => !self.map().dom().contains(key@),
            },
    {
        proof {
            use_type_invariant(self);
        }
        let (p, found) = locate(&self.entries, key);
        if found {
            proof {
                lemma_lookup(self@, p as int);
            }
            Some(self.entries[p].1.as_str())
        } else {
            proof {
                lemma_absent(self@, p as int, key@);
            }
            None
        }
    }

    /// Stores `value` under `key`, replacing the value of a key already
    /// present; every other key keeps its value.
    pub fn insert(&mut self, key: String, value: String)
        ensures
            final(self).map() == old(self).map().insert(key@, value@),
    {
        proof {
            use_type_invariant(&*self);
        }
        let (p, found) = locate(&self.entries, key.as_str());
        let ghost before = self@;
        let mut entries: Vec<(String, String)> = Vec::new();
        std::mem::swap(&mut entries, &mut self.entries);
        if found {
            proof {
                lemma_replace(before, p as int, value@);
            }
            entries[p] = (key, value);
            assert(pairs_of(entries@) =~= before.update(p as int, (before[p as int].0, value@)));
        } else {
            proof {
                lemma_insert(before, p as int, (key@, value@));
            }
            entries.insert(p, (key, value));
            assert(pairs_of(entries@) =~= before.insert(p as int, (key@, value@)));
        }
        self.entries = entries;
    }

    /// Removes `key` and its value; a key that is absent leaves everything
    /// as it was.
    pub fn remove(&mut self, key: &str)
        ensures
            final(self).map() == old(self).map().remove(key@),
            !old(self).map().dom().contains(key@) ==> final(self)@ == old(self)@,
    {
        proof {
            use_type_invariant(&*self);
        }
        let (p, found) = locate(&self.entries, key);
        let ghost before = self@;
        if found {
            let mut entries: Vec<(String, String)> = Vec::new();
            std::mem::swap(&mut entries, &mut self.entries);
            proof {
                lemma_remove(before, p as int);
            }
            let _ = entries.remove(p);
            assert(pairs_of(entries@) =~= before.remove(p as int));
            self.entries = entries;
        } else {
            proof {
                lemma_absent(before, p as int, key@);
                assert(as_map(before).remove(key@) =~= as_map(before));
            }
        }
    }
}

impl Clone for Extras {
    /// An independent copy with the same pairs.
    fn clone(&self) -> (r: Self)
        ensures
            r@ == self@,
    {
        proof {
            use_type_invariant(self);
        }
        let mut entries: Vec<(String, String)> = Vec::new();
        let mut i: usize = 0;
        while i < self.entries.len()
            invariant
                i <= self.entries.len(),
                entries@.len() == i,
                forall|j: int| 0 <= j < i ==> entries@[j] == self.entries@[j],
            decreases self.entries.len() - i,
        {
            let k = self.entries[i].0.clone();
            let v = self.entries[i].1.clone();
            entries.push((k, v));
            i = i + 1;
        }
        assert(entries@ =~= self.entries@);
        Extras { entries }
    }
}

impl Default for Extras {
    fn default() -> (r: Self)
        ensures
            r@ == Seq::<(Seq<char>, Seq<char>)>::empty(),
    {
        Extras::new()
    }
}

} // verus!
