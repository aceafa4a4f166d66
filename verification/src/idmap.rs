use vstd::prelude::*;
use std::collections::BTreeMap;

verus! {

broadcast use vstd::std_specs::btree::group_btree_axioms, vstd::laws_cmp::group_laws_cmp;

/// A map from numeric identifiers to values: the values are held in a
/// `BTreeMap`, and the keys also in increasing order, so that they can be
/// reached by position.
#[derive(Debug)]
pub struct IdMap<V> {
    keys: Vec<u64>,
    values: BTreeMap<u64, V>,
}

/// Mutable access to the value of a key the map holds, through
/// `BTreeMap::get_mut`: std documents that it returns a reference to that
/// key's value, so what is written through it becomes the key's value and
/// the other keys keep theirs.
#[verifier::external_body]
fn value_mut<V>(m: &mut BTreeMap<u64, V>, k: u64) -> (r: &mut V)
    requires
        old(m)@.contains_key(k),
    ensures
        *r == old(m)@[k],
        final(m)@ == old(m)@.insert(k, *final(r)),
    no_unwind
{
    m.get_mut(&k).unwrap()
}

/// Keys of `s` strictly increase.
pub open spec fn sorted_keys<V>(s: Seq<(u64, V)>) -> bool {
    forall|i: int, j: int| 0 <= i < j < s.len() ==> s[i].0 < s[j].0
}

/// Some entry of `s` has key `k`.
pub open spec fn has_key<V>(s: Seq<(u64, V)>, k: u64) -> bool {
    exists|i: int| 0 <= i < s.len() && s[i].0 == k
}

/// The map that `s` describes.
pub open spec fn entries_map<V>(s: Seq<(u64, V)>) -> Map<u64, V> {
    Map::new(
        |k: u64| has_key(s, k),
        |k: u64| s[choose|i: int| 0 <= i < s.len() && s[i].0 == k].1,
    )
}

/// In a sorted sequence the entry with key `s[i].0` is the one at `i`.
pub proof fn lemma_entries_map_at<V>(s: Seq<(u64, V)>, i: int)
    requires
        sorted_keys(s),
        0 <= i < s.len(),
    ensures
        entries_map(s).contains_key(s[i].0),
        entries_map(s)[s[i].0] == s[i].1,
{
    let k = s[i].0;
    assert(has_key(s, k));
    let j = choose|j: int| 0 <= j < s.len() && s[j].0 == k;
    if j != i {
        if j < i {
            assert(s[j].0 < s[i].0);
        } else {
            assert(s[i].0 < s[j].0);
        }
    }
}

proof fn lemma_all_at<V>(s: Seq<(u64, V)>)
    requires
        sorted_keys(s),
    ensures
        forall|i: int| #![trigger s[i]] 0 <= i < s.len() ==> entries_map(s).contains_key(s[i].0)
            && entries_map(s)[s[i].0] == s[i].1,
{
    assert forall|i: int| #![trigger s[i]] 0 <= i < s.len() implies entries_map(s).contains_key(
        s[i].0,
    ) && entries_map(s)[s[i].0] == s[i].1 by {
        lemma_entries_map_at(s, i);
    }
}

/// Two sorted sequences whose entries agree at every position describe the
/// same map under an update of one position.
proof fn lemma_update_map<V>(s: Seq<(u64, V)>, i: int, v: V)
    requires
        sorted_keys(s),
        0 <= i < s.len(),
    ensures
        sorted_keys(s.update(i, (s[i].0, v))),
        entries_map(s.update(i, (s[i].0, v))) == entries_map(s).insert(s[i].0, v),
{
    let t = s.update(i, (s[i].0, v));
    assert(sorted_keys(t));
    lemma_all_at(s);
    lemma_all_at(t);
    assert forall|k: u64| #[trigger] has_key(t, k) <==> has_key(s, k) || k == s[i].0 by {
        if has_key(s, k) {
            let j = choose|j: int| 0 <= j < s.len() && s[j].0 == k;
            assert(t[j].0 == k);
        }
        if has_key(t, k) {
            let j = choose|j: int| 0 <= j < t.len() && t[j].0 == k;
            assert(s[j].0 == k);
        }
        if k == s[i].0 {
            assert(t[i].0 == k);
        }
    }
    assert forall|k: u64| #[trigger] entries_map(t).contains_key(k) implies entries_map(t)[k] == entries_map(s).insert(s[i].0, v)[k] by {
        let j = choose|j: int| 0 <= j < t.len() && t[j].0 == k;
        assert(t[j] == t[j]);
        assert(s[j] == s[j]);
    }
    assert(entries_map(t) =~= entries_map(s).insert(s[i].0, v));
}

proof fn lemma_insert_map<V>(s: Seq<(u64, V)>, p: int, k: u64, v: V)
    requires
        sorted_keys(s),
        0 <= p <= s.len(),
        forall|i: int| 0 <= i < p ==> s[i].0 < k,
        forall|i: int| p <= i < s.len() ==> s[i].0 > k,
    ensures
        sorted_keys(s.insert(p, (k, v))),
        !entries_map(s).contains_key(k),
        entries_map(s.insert(p, (k, v))) == entries_map(s).insert(k, v),
{
    let t = s.insert(p, (k, v));
    assert forall|i: int, j: int| 0 <= i < j < t.len() implies t[i].0 < t[j].0 by {
        if j < p {
            assert(t[i] == s[i] && t[j] == s[j]);
        } else if j == p {
            assert(t[i] == s[i]);
        } else if i < p {
            assert(t[i] == s[i] && t[j] == s[j - 1]);
        } else if i == p {
            assert(t[j] == s[j - 1]);
        } else {
            assert(t[i] == s[i - 1] && t[j] == s[j - 1]);
        }
    }
    assert(!has_key(s, k)) by {
        if has_key(s, k) {
            let j = choose|j: int| 0 <= j < s.len() && s[j].0 == k;
            assert(s[j].0 == k);
        }
    }
    lemma_all_at(s);
    lemma_all_at(t);
    assert forall|kk: u64| #[trigger] has_key(t, kk) <==> has_key(s, kk) || kk == k by {
        if has_key(s, kk) {
            let j = choose|j: int| 0 <= j < s.len() && s[j].0 == kk;
            if j < p {
                assert(t[j] == s[j]);
            } else {
                assert(t[j + 1] == s[j]);
            }
        }
        if has_key(t, kk) {
            let j = choose|j: int| 0 <= j < t.len() && t[j].0 == kk;
            if j < p {
                assert(t[j] == s[j]);
            } else if j > p {
                assert(t[j] == s[j - 1]);
            }
        }
        if kk == k {
            assert(t[p].0 == k);
        }
    }
    assert forall|kk: u64| #[trigger] entries_map(t).contains_key(kk) implies entries_map(t)[kk]
        == entries_map(s).insert(k, v)[kk] by {
        let j = choose|j: int| 0 <= j < t.len() && t[j].0 == kk;
        if j < p {
            assert(t[j] == s[j]);
        } else if j > p {
            assert(t[j] == s[j - 1]);
        }
    }
    assert(entries_map(t) =~= entries_map(s).insert(k, v));
}

proof fn lemma_remove_map<V>(s: Seq<(u64, V)>, p: int)
    requires
        sorted_keys(s),
        0 <= p < s.len(),
    ensures
        sorted_keys(s.remove(p)),
        entries_map(s.remove(p)) == entries_map(s).remove(s[p].0),
{
    let t = s.remove(p);
    let k = s[p].0;
    assert forall|i: int, j: int| 0 <= i < j < t.len() implies t[i].0 < t[j].0 by {
        if j < p {
            assert(t[i] == s[i] && t[j] == s[j]);
        } else if i < p {
            assert(t[i] == s[i] && t[j] == s[j + 1]);
        } else {
            assert(t[i] == s[i + 1] && t[j] == s[j + 1]);
        }
    }
    lemma_all_at(s);
    lemma_all_at(t);
    assert forall|kk: u64| #[trigger] has_key(t, kk) <==> has_key(s, kk) && kk != k by {
        if has_key(s, kk) && kk != k {
            let j = choose|j: int| 0 <= j < s.len() && s[j].0 == kk;
            if j < p {
                assert(t[j] == s[j]);
            } else {
                assert(j != p);
                assert(t[j - 1] == s[j]);
            }
        }
        if has_key(t, kk) {
            let j = choose|j: int| 0 <= j < t.len() && t[j].0 == kk;
            if j < p {
                assert(t[j] == s[j]);
                assert(s[j].0 < s[p].0);
            } else {
                assert(t[j] == s[j + 1]);
                assert(s[p].0 < s[j + 1].0);
            }
        }
    }
    assert forall|kk: u64| #[trigger] entries_map(t).contains_key(kk) implies entries_map(t)[kk]
        == entries_map(s).remove(k)[kk] by {
        let j = choose|j: int| 0 <= j < t.len() && t[j].0 == kk;
        if j < p {
            assert(t[j] == s[j]);
        } else {
            assert(t[j] == s[j + 1]);
        }
    }
    assert(entries_map(t) =~= entries_map(s).remove(k));
}

/// Sorted entries whose keys are exactly `lo` to `lo + n - 1` have those
/// keys in order.
pub proof fn lemma_dense_keys<V>(s: Seq<(u64, V)>, lo: nat, n: nat)
    requires
        sorted_keys(s),
        lo + n <= u64::MAX + 1,
        forall|k: u64| #[trigger] has_key(s, k) <==> lo <= k < lo + n,
    ensures
        s.len() == n,
        forall|i: int| 0 <= i < s.len() ==> (#[trigger] s[i]).0 == lo + i,
    decreases s.len(),
{
    if n == 0 {
        if s.len() > 0 {
            assert(has_key(s, s[0].0));
        }
    } else {
        let top = (lo + n - 1) as u64;
        assert(has_key(s, top));
        let j = choose|j: int| 0 <= j < s.len() && s[j].0 == top;
        let last = s.len() - 1;
        assert(has_key(s, s[last].0));
        if j < last {
            assert(s[j].0 < s[last].0);
        }
        assert(s[last].0 == top);
        let t = s.drop_last();
        assert forall|k: u64| #[trigger] has_key(t, k) <==> lo <= k < lo + n - 1 by {
            if has_key(t, k) {
                let i = choose|i: int| 0 <= i < t.len() && t[i].0 == k;
                assert(s[i].0 == k);
                assert(has_key(s, k));
                assert(s[i].0 < s[last].0);
            }
            if lo <= k < lo + n - 1 {
                assert(has_key(s, k));
                let i = choose|i: int| 0 <= i < s.len() && s[i].0 == k;
                assert(i != last);
                assert(t[i].0 == k);
            }
        }
        lemma_dense_keys(t, lo, (n - 1) as nat);
        assert forall|i: int| 0 <= i < s.len() implies (#[trigger] s[i]).0 == lo + i by {
            if i < last {
                assert(s[i] == t[i]);
            }
        }
    }
}

impl<V> IdMap<V> {
    /// The entries in increasing key order.
    pub closed spec fn entries(&self) -> Seq<(u64, V)> {
        self.keys@.map_values(|k: u64| (k, self.values@[k]))
    }

    /// Every listed key has its value in the tree.
    #[verifier::type_invariant]
    closed spec fn backed(&self) -> bool {
        forall|i: int| 0 <= i < self.keys@.len() ==> self.values@.contains_key(#[trigger] self.keys@[i])
    }

    /// The map the entries describe.
    pub open spec fn view(&self) -> Map<u64, V> {
        entries_map(self.entries())
    }

    pub open spec fn wf(&self) -> bool {
        sorted_keys(self.entries())
    }

    /// The position of key `k` in the entries.
    pub open spec fn index_of(&self, k: u64) -> int {
        choose|i: int| 0 <= i < self.entries().len() && self.entries()[i].0 == k
    }

    /// In a well-formed map a key has one position.
    pub proof fn lemma_index_of(&self, i: int)
        requires
            self.wf(),
            0 <= i < self.entries().len(),
        ensures
            self.index_of(self.entries()[i].0) == i,
    {
        let k = self.entries()[i].0;
        let j = self.index_of(k);
        if j != i {
            if j < i {
                assert(self.entries()[j].0 < self.entries()[i].0);
            } else {
                assert(self.entries()[i].0 < self.entries()[j].0);
            }
        }
    }

    /// In a well-formed map every entry is found under its key.
    pub proof fn lemma_entry(&self, i: int)
        requires
            self.wf(),
            0 <= i < self.entries().len(),
        ensures
            self.view().contains_key(self.entries()[i].0),
            self.view()[self.entries()[i].0] == self.entries()[i].1,
    {
        lemma_entries_map_at(self.entries(), i);
    }

    /// Every key of the map is the key of some entry.
    pub proof fn lemma_key(&self, k: u64) -> (i: int)
        requires
            self.wf(),
            self.view().contains_key(k),
        ensures
            0 <= i < self.entries().len(),
            self.entries()[i].0 == k,
            self.view()[k] == self.entries()[i].1,
    {
        let i = choose|i: int| 0 <= i < self.entries().len() && self.entries()[i].0 == k;
        lemma_entries_map_at(self.entries(), i);
        i
    }

    pub fn new() -> (r: Self)
        ensures
            r.wf(),
            r.entries() == Seq::<(u64, V)>::empty(),
            r.view() == Map::<u64, V>::empty(),
    {
        let r = IdMap { keys: Vec::new(), values: BTreeMap::new() };
        assert(r.entries() =~= Seq::<(u64, V)>::empty());
        assert(r.view() =~= Map::<u64, V>::empty());
        r
    }

    pub fn len(&self) -> (r: usize)
        ensures
            r == self.entries().len(),
    {
        self.keys.len()
    }

    /// The entry at position `i` in key order.
    pub fn entry_at(&self, i: usize) -> (r: (u64, &V))
        requires
            i < self.entries().len(),
        ensures
            r.0 == self.entries()[i as int].0,
            *r.1 == self.entries()[i as int].1,
    {
        proof { use_type_invariant(self); }
        let k = self.keys[i];
        assert(self.values@.contains_key(self.keys@[i as int]));
        match self.values.get(&k) {
            Some(v) => (k, v),
            None => {
                assert(false);
                (k, self.values.get(&k).unwrap())
            },
        }
    }

    /// The position of key `k`, if present.
    pub fn find(&self, k: u64) -> (r: Option<usize>)
        requires
            self.wf(),
        ensures
            r matches Some(i) ==> i < self.entries().len() && self.entries()[i as int].0 == k,
            r is None <==> !self.view().contains_key(k),
    {
        let mut i: usize = 0;
        while i < self.keys.len()
            invariant
                self.wf(),
                i <= self.entries().len(),
                forall|j: int| 0 <= j < i ==> self.entries()[j].0 != k,
            decreases self.entries().len() - i,
        {
            if self.keys[i] == k {
                proof { self.lemma_entry(i as int); }
                return Some(i);
            }
            i = i + 1;
        }
        proof {
            if self.view().contains_key(k) {
                let j = self.lemma_key(k);
            }
        }
        None
    }

    pub fn contains_key(&self, k: u64) -> (r: bool)
        requires
            self.wf(),
        ensures
            r == self.view().contains_key(k),
    {
        self.find(k).is_some()
    }

    pub fn get(&self, k: u64) -> (r: Option<&V>)
        requires
            self.wf(),
        ensures
            r matches Some(v) ==> self.view().contains_key(k) && *v == self.view()[k],
            r is None <==> !self.view().contains_key(k),
    {
        match self.find(k) {
            Some(i) => {
                proof { self.lemma_entry(i as int); }
                let (_, v) = self.entry_at(i);
                Some(v)
            },
            None => None,
        }
    }

    /// Mutable access to the value at position `i` in key order.
    pub fn value_at_mut(&mut self, i: usize) -> (r: &mut V)
        requires
            old(self).wf(),
            i < old(self).entries().len(),
        ensures
            *r == old(self).entries()[i as int].1,
            final(self).entries() == old(self).entries().update(i as int, (old(self).entries()[i as int].0, *final(r))),
            final(self).wf() && final(self).view() == old(self).view().insert(
                old(self).entries()[i as int].0,
                *final(r),
            ),
    {
        proof { use_type_invariant(&*self); }
        let k = self.keys[i];
        let ghost ks = self.keys@;
        let ghost old_values = self.values@;
        proof {
            assert(self.values@.contains_key(ks[i as int]));
            assert forall|v: V| #![trigger self.entries().update(i as int, (self.entries()[i as int].0, v))]
                sorted_keys(self.entries().update(i as int, (self.entries()[i as int].0, v)))
                && entries_map(self.entries().update(i as int, (self.entries()[i as int].0, v)))
                == entries_map(self.entries()).insert(self.entries()[i as int].0, v) by {
                lemma_update_map(self.entries(), i as int, v);
            }
            assert forall|v: V| #![trigger old_values.insert(k, v)]
                ks.map_values(|x: u64| (x, old_values.insert(k, v)[x]))
                == self.entries().update(i as int, (k, v)) by {
                assert forall|j: int| 0 <= j < ks.len() && j != i implies ks[j] != k by {
                    if j < i {
                        assert(self.entries()[j].0 < self.entries()[i as int].0);
                    } else {
                        assert(self.entries()[i as int].0 < self.entries()[j].0);
                    }
                }
                assert(ks.map_values(|x: u64| (x, old_values.insert(k, v)[x])) =~= self.entries().update(i as int, (k, v)));
            }
        }
        value_mut(&mut self.values, k)
    }

    /// Mutable access to the value of key `k`, if present.
    pub fn get_mut(&mut self, k: u64) -> (r: Option<&mut V>)
        requires
            old(self).wf(),
        ensures
            r is None <==> !old(self).view().contains_key(k),
            r is None ==> final(self).entries() == old(self).entries(),
            r matches Some(v) ==> *v == old(self).view()[k] && final(self).wf() && final(self).view()
                == old(self).view().insert(k, *final(v)) && 0 <= old(self).index_of(k) < old(self).entries().len()
                && old(self).entries()[old(self).index_of(k)] == (k, *v)
                && final(self).entries() == old(self).entries().update(old(self).index_of(k), (k, *final(v))),
    {
        match self.find(k) {
            Some(i) => {
                proof { self.lemma_entry(i as int); self.lemma_index_of(i as int); }
                Some(self.value_at_mut(i))
            },
            None => None,
        }
    }

    /// Sets the value of `k`, adding the key in order when it is new.
    pub fn insert(&mut self, k: u64, v: V)
        requires
            old(self).wf(),
        ensures
            final(self).wf(),
            final(self).view() == old(self).view().insert(k, v),
            old(self).view().contains_key(k) ==> exists|i: int|
                0 <= i < old(self).entries().len() && old(self).entries()[i].0 == k
                    && final(self).entries() == old(self).entries().update(i, (k, v)),
            !old(self).view().contains_key(k) ==> exists|p: int|
                0 <= p <= old(self).entries().len() && final(self).entries() == old(
                    self,
                ).entries().insert(p, (k, v)),
    {
        proof { use_type_invariant(&*self); }
        let mut p: usize = 0;
        while p < self.keys.len() && self.keys[p] < k
            invariant
                p <= self.entries().len(),
                self.wf(),
                forall|j: int| 0 <= j < p ==> self.entries()[j].0 < k,
            decreases self.entries().len() - p,
        {
            p = p + 1;
        }
        let ghost ks = self.keys@;
        let ghost old_values = self.values@;
        if p < self.keys.len() && self.keys[p] == k {
            proof { lemma_update_map(self.entries(), p as int, v); }
            let mut keys = Vec::new();
            std::mem::swap(&mut keys, &mut self.keys);
            let mut values = BTreeMap::new();
            std::mem::swap(&mut values, &mut self.values);
            values.insert(k, v);
            proof {
                assert forall|j: int| 0 <= j < keys@.len() implies values@.contains_key(#[trigger] keys@[j]) by {
                    assert(old_values.contains_key(ks[j]));
                }
            }
            self.values = values;
            self.keys = keys;
            proof {
                assert forall|j: int| 0 <= j < ks.len() && j != p implies ks[j] != k by {
                    if j < p {
                        assert(old(self).entries()[j].0 < old(self).entries()[p as int].0);
                    } else {
                        assert(old(self).entries()[p as int].0 < old(self).entries()[j].0);
                    }
                }
                assert(self.entries() =~= old(self).entries().update(p as int, (k, v)));
                assert forall|j: int| 0 <= j < self.keys@.len() implies self.values@.contains_key(#[trigger] self.keys@[j]) by {
                    assert(old_values.contains_key(ks[j]));
                }
            }
        } else {
            proof {
                assert forall|j: int| p <= j < old(self).entries().len() implies old(self).entries()[j].0 > k by {
                    assert(old(self).entries()[p as int].0 <= old(self).entries()[j].0);
                }
                assert forall|j: int| 0 <= j < ks.len() implies ks[j] != k by {
                    if j >= p {
                        assert(old(self).entries()[j].0 > k);
                    }
                }
                lemma_insert_map(self.entries(), p as int, k, v);
            }
            let mut keys = Vec::new();
            std::mem::swap(&mut keys, &mut self.keys);
            let mut values = BTreeMap::new();
            std::mem::swap(&mut values, &mut self.values);
            values.insert(k, v);
            keys.insert(p, k);
            proof {
                assert(keys@ == ks.insert(p as int, k));
                assert forall|j: int| 0 <= j < keys@.len() implies values@.contains_key(#[trigger] keys@[j]) by {
                    if j < p {
                        assert(old_values.contains_key(ks[j]));
                    } else if j > p {
                        assert(keys@[j] == ks[j - 1]);
                        assert(old_values.contains_key(ks[j - 1]));
                    }
                }
            }
            self.values = values;
            self.keys = keys;
            proof {
                assert(self.keys@ == ks.insert(p as int, k));
                assert(self.entries() =~= old(self).entries().insert(p as int, (k, v)));
                assert forall|j: int| 0 <= j < self.keys@.len() implies self.values@.contains_key(#[trigger] self.keys@[j]) by {
                    if j < p {
                        assert(old_values.contains_key(ks[j]));
                    } else if j > p {
                        assert(self.keys@[j] == ks[j - 1]);
                        assert(old_values.contains_key(ks[j - 1]));
                    }
                }
            }
        }
    }

    /// Removes key `k`, returning its value if it was present.
    pub fn remove(&mut self, k: u64) -> (r: Option<V>)
        requires
            old(self).wf(),
        ensures
            final(self).wf(),
            final(self).view() == old(self).view().remove(k),
            r matches Some(v) ==> old(self).view().contains_key(k) && v == old(self).view()[k],
            r is None <==> !old(self).view().contains_key(k),
            r is None ==> final(self).entries() == old(self).entries(),
            r is Some ==> exists|i: int|
                0 <= i < old(self).entries().len() && old(self).entries()[i].0 == k
                    && final(self).entries() == old(self).entries().remove(i),
    {
        proof { use_type_invariant(&*self); }
        match self.find(k) {
            Some(i) => {
                let ghost ks = self.keys@;
                let ghost old_values = self.values@;
                proof {
                    self.lemma_entry(i as int);
                    lemma_remove_map(self.entries(), i as int);
                    assert forall|j: int| 0 <= j < ks.len() && j != i implies ks[j] != k by {
                        if j < i {
                            assert(old(self).entries()[j].0 < old(self).entries()[i as int].0);
                        } else {
                            assert(old(self).entries()[i as int].0 < old(self).entries()[j].0);
                        }
                    }
                    assert(old_values.contains_key(k));
                }
                let mut keys = Vec::new();
                std::mem::swap(&mut keys, &mut self.keys);
                let mut values = BTreeMap::new();
                std::mem::swap(&mut values, &mut self.values);
                keys.remove(i);
                let removed = values.remove(&k);
                proof {
                    assert(keys@ == ks.remove(i as int));
                    assert forall|j: int| 0 <= j < keys@.len() implies values@.contains_key(#[trigger] keys@[j]) by {
                        if j < i {
                            assert(old_values.contains_key(ks[j]));
                        } else {
                            assert(keys@[j] == ks[j + 1]);
                            assert(old_values.contains_key(ks[j + 1]));
                        }
                    }
                }
                self.values = values;
                self.keys = keys;
                proof {
                    assert(self.keys@ == ks.remove(i as int));
                    assert(self.entries() =~= old(self).entries().remove(i as int));
                    assert forall|j: int| 0 <= j < self.keys@.len() implies self.values@.contains_key(#[trigger] self.keys@[j]) by {
                        if j < i {
                            assert(old_values.contains_key(ks[j]));
                        } else {
                            assert(self.keys@[j] == ks[j + 1]);
                            assert(old_values.contains_key(ks[j + 1]));
                        }
                    }
                }
                match removed {
                    Some(v) => Some(v),
                    None => {
                        assert(false);
                        None
                    },
                }
            },
            None => {
                assert(old(self).view().remove(k) =~= old(self).view());
                None
            },
        }
    }
}


impl<V: Clone> Clone for IdMap<V> {
    /// A copy holding a clone of each value under the same key.
    fn clone(&self) -> (r: Self) {
        let mut r = IdMap::new();
        let mut i: usize = 0;
        while i < self.len()
            invariant
                r.wf(),
                i <= self.entries().len(),
            decreases self.entries().len() - i,
        {
            let (k, v) = self.entry_at(i);
            r.insert(k, v.clone());
            i = i + 1;
        }
        r
    }
}

} // verus!

verus! {

/// The sum of `f` over the values of `s`.
pub open spec fn sum_by<V>(s: Seq<(u64, V)>, f: spec_fn(V) -> nat) -> nat
    decreases s.len(),
{
    if s.len() == 0 { 0 } else { sum_by(s.drop_last(), f) + f(s.last().1) }
}

/// Adding an entry anywhere adds its value's share.
pub proof fn lemma_sum_insert<V>(s: Seq<(u64, V)>, p: int, e: (u64, V), f: spec_fn(V) -> nat)
    requires
        0 <= p <= s.len(),
    ensures
        sum_by(s.insert(p, e), f) == sum_by(s, f) + f(e.1),
    decreases s.len(),
{
    if p == s.len() {
        assert(s.insert(p, e).drop_last() =~= s);
    } else {
        lemma_sum_insert(s.drop_last(), p, e, f);
        assert(s.insert(p, e).drop_last() =~= s.drop_last().insert(p, e));
        assert(s.insert(p, e).last() == s.last());
    }
}

/// Removing an entry subtracts its value's share.
pub proof fn lemma_sum_remove<V>(s: Seq<(u64, V)>, p: int, f: spec_fn(V) -> nat)
    requires
        0 <= p < s.len(),
    ensures
        sum_by(s.remove(p), f) + f(s[p].1) == sum_by(s, f),
{
    assert(s.remove(p).insert(p, s[p]) =~= s);
    lemma_sum_insert(s.remove(p), p, s[p], f);
}

/// Replacing a value changes the sum by the difference of the shares.
pub proof fn lemma_sum_update<V>(s: Seq<(u64, V)>, p: int, e: (u64, V), f: spec_fn(V) -> nat)
    requires
        0 <= p < s.len(),
    ensures
        sum_by(s.update(p, e), f) + f(s[p].1) == sum_by(s, f) + f(e.1),
{
    lemma_sum_remove(s, p, f);
    assert(s.update(p, e) =~= s.remove(p).insert(p, e));
    lemma_sum_insert(s.remove(p), p, e, f);
}

/// Sums agree when the shares agree entry by entry.
pub proof fn lemma_sum_congruent<V>(s: Seq<(u64, V)>, f: spec_fn(V) -> nat, g: spec_fn(V) -> nat)
    requires
        forall|i: int| 0 <= i < s.len() ==> f(#[trigger] s[i].1) == g(s[i].1),
    ensures
        sum_by(s, f) == sum_by(s, g),
    decreases s.len(),
{
    if s.len() > 0 {
        lemma_sum_congruent(s.drop_last(), f, g);
    }
}

/// The sum is zero when every entry's share is zero.
pub proof fn lemma_sum_zero<V>(s: Seq<(u64, V)>, f: spec_fn(V) -> nat)
    requires
        forall|i: int| 0 <= i < s.len() ==> f(#[trigger] s[i].1) == 0,
    ensures
        sum_by(s, f) == 0,
    decreases s.len(),
{
    if s.len() > 0 {
        assert(f(s[s.len() - 1].1) == 0);
        lemma_sum_zero(s.drop_last(), f);
    }
}

/// A single entry's share never exceeds the sum.
pub proof fn lemma_sum_ge_entry<V>(s: Seq<(u64, V)>, p: int, f: spec_fn(V) -> nat)
    requires
        0 <= p < s.len(),
    ensures
        f(s[p].1) <= sum_by(s, f),
{
    lemma_sum_remove(s, p, f);
}

/// Removing an entry keeps the keys increasing.
pub proof fn lemma_sorted_remove<V>(s: Seq<(u64, V)>, p: int)
    requires
        sorted_keys(s),
        0 <= p < s.len(),
    ensures
        sorted_keys(s.remove(p)),
{
    let t = s.remove(p);
    assert forall|i: int, j: int| 0 <= i < j < t.len() implies t[i].0 < t[j].0 by {
        let a = if i < p { i } else { i + 1 };
        let b = if j < p { j } else { j + 1 };
        assert(t[i] == s[a] && t[j] == s[b]);
    }
}

/// When each entry of `s` with a positive share is matched, key for key, by
/// an entry of `t` with the same share, the sum over `s` is at most the sum
/// over `t`.
pub proof fn lemma_sum_matched<A, B>(s: Seq<(u64, A)>, t: Seq<(u64, B)>, f: spec_fn(A) -> nat, g: spec_fn(B) -> nat)
    requires
        sorted_keys(s),
        sorted_keys(t),
        forall|i: int| 0 <= i < s.len() && f(#[trigger] s[i].1) > 0 ==> exists|j: int|
            0 <= j < t.len() && t[j].0 == s[i].0 && g(#[trigger] t[j].1) == f(s[i].1),
    ensures
        sum_by(s, f) <= sum_by(t, g),
    decreases s.len(),
{
    if s.len() > 0 {
        let n = s.len() - 1;
        let s2 = s.drop_last();
        assert(sorted_keys(s2)) by {
            assert forall|i: int, j: int| 0 <= i < j < s2.len() implies s2[i].0 < s2[j].0 by {
                assert(s2[i] == s[i] && s2[j] == s[j]);
            }
        }
        if f(s[n].1) > 0 {
            let j = choose|j: int| 0 <= j < t.len() && t[j].0 == s[n].0 && g(#[trigger] t[j].1) == f(s[n].1);
            let t2 = t.remove(j);
            lemma_sum_remove(t, j, g);
            lemma_sorted_remove(t, j);
            assert forall|i: int| 0 <= i < s2.len() && f(#[trigger] s2[i].1) > 0 implies exists|j2: int|
                0 <= j2 < t2.len() && t2[j2].0 == s2[i].0 && g(#[trigger] t2[j2].1) == f(s2[i].1) by {
                assert(s2[i] == s[i]);
                assert(f(s[i].1) > 0);
                let j1 = choose|j1: int| 0 <= j1 < t.len() && t[j1].0 == s[i].0 && g(#[trigger] t[j1].1) == f(s[i].1);
                assert(s[i].0 < s[n].0);
                if j1 < j {
                    assert(t2[j1] == t[j1]);
                } else {
                    assert(j1 != j);
                    assert(t2[j1 - 1] == t[j1]);
                }
            }
            lemma_sum_matched(s2, t2, f, g);
        } else {
            assert forall|i: int| 0 <= i < s2.len() && f(#[trigger] s2[i].1) > 0 implies exists|j2: int|
                0 <= j2 < t.len() && t[j2].0 == s2[i].0 && g(#[trigger] t[j2].1) == f(s2[i].1) by {
                assert(s2[i] == s[i]);
                assert(f(s[i].1) > 0);
            }
            lemma_sum_matched(s2, t, f, g);
        }
    }
}

} // verus!
