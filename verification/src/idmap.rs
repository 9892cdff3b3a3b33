//! A map keyed by 16-bit ids whose entries are kept in increasing key order.

use vstd::prelude::*;

verus! {

/// Keys strictly increase along the entries.
pub open spec fn keys_increasing<V>(s: Seq<(u16, V)>) -> bool {
    forall|i: int, j: int| 0 <= i < j < s.len() ==> s[i].0 < s[j].0
}

/// Whether some entry has key `k`.
pub open spec fn has_key<V>(s: Seq<(u16, V)>, k: u16) -> bool {
    exists|i: int| 0 <= i < s.len() && s[i].0 == k
}

/// The position of the entry with key `k`.
pub open spec fn key_index<V>(s: Seq<(u16, V)>, k: u16) -> int {
    choose|i: int| 0 <= i < s.len() && s[i].0 == k
}

/// The map the entries stand for.
pub open spec fn as_map<V>(s: Seq<(u16, V)>) -> Map<u16, V> {
    Map::new(|k: u16| has_key(s, k), |k: u16| s[key_index(s, k)].1)
}

/// In an increasing sequence the entry with a key is the one at its position.
pub proof fn lemma_key_index<V>(s: Seq<(u16, V)>, i: int)
    requires
        keys_increasing(s),
        0 <= i < s.len(),
    ensures
        has_key(s, s[i].0),
        key_index(s, s[i].0) == i,
        as_map(s).contains_key(s[i].0),
        as_map(s)[s[i].0] == s[i].1,
{
    let k = s[i].0;
    assert(has_key(s, k));
    let j = key_index(s, k);
    if j != i {
        if j < i {
            assert(s[j].0 < s[i].0);
        } else {
            assert(s[i].0 < s[j].0);
        }
    }
}

/// A map from ids to values, iterated in increasing id order.
#[derive(Debug)]
pub struct IdMap<V> {
    entries: Vec<(u16, V)>,
}

impl<V> IdMap<V> {
    #[verifier::type_invariant]
    spec fn wf(self) -> bool {
        keys_increasing(self.entries@)
    }

    /// The entries in increasing key order.
    pub closed spec fn seq(&self) -> Seq<(u16, V)> {
        self.entries@
    }

    /// The map the entries stand for.
    pub open spec fn view(&self) -> Map<u16, V> {
        as_map(self.seq())
    }

    /// An empty map.
    pub fn new() -> (r: Self)
        ensures
            r.seq() == Seq::<(u16, V)>::empty(),
            r.view() == Map::<u16, V>::empty(),
    {
        let r = IdMap { entries: Vec::new() };
        assert(r.view() =~= Map::<u16, V>::empty());
        r
    }

    /// Number of entries.
    pub fn len(&self) -> (r: usize)
        ensures
            r == self.seq().len(),
    {
        self.entries.len()
    }

    /// The entries in increasing key order.
    pub fn entries(&self) -> (r: &Vec<(u16, V)>)
        ensures
            r@ == self.seq(),
            keys_increasing(self.seq()),
            self.seq().len() <= 0x10000,
    {
        proof {
            use_type_invariant(self);
            lemma_increasing_len(self.entries@);
        }
        &self.entries
    }

    /// The position the key has, or would be inserted at.
    fn position(&self, k: u16) -> (r: (usize, bool))
        ensures
            r.0 <= self.seq().len(),
            forall|i: int| 0 <= i < r.0 ==> self.seq()[i].0 < k,
            r.1 ==> r.0 < self.seq().len() && self.seq()[r.0 as int].0 == k,
            !r.1 ==> forall|i: int| r.0 <= i < self.seq().len() ==> self.seq()[i].0 > k,
    {
        proof { use_type_invariant(self); }
        let mut i: usize = 0;
        while i < self.entries.len()
            invariant
                i <= self.entries@.len(),
                keys_increasing(self.entries@),
                forall|j: int| 0 <= j < i ==> self.entries@[j].0 < k,
            decreases self.entries@.len() - i,
        {
            let key = self.entries[i].0;
            if key == k {
                return (i, true);
            }
            if key > k {
                return (i, false);
            }
            i = i + 1;
        }
        (i, false)
    }

    /// Whether the map has an entry for `k`.
    pub fn contains_key(&self, k: u16) -> (r: bool)
        ensures
            r == self.view().contains_key(k),
    {
        proof { use_type_invariant(self); }
        let (i, found) = self.position(k);
        proof {
            if found {
                lemma_key_index(self.seq(), i as int);
            }
        }
        found
    }

    /// The value for `k`.
    pub fn get(&self, k: u16) -> (r: Option<&V>)
        ensures
            r matches Some(v) ==> self.view().contains_key(k) && *v == self.view()[k],
            r is None ==> !self.view().contains_key(k),
    {
        proof { use_type_invariant(self); }
        let (i, found) = self.position(k);
        if found {
            proof { lemma_key_index(self.seq(), i as int); }
            Some(&self.entries[i].1)
        } else {
            None
        }
    }

    /// Sets the value for `k`, returning the value it replaces.
    pub fn insert(&mut self, k: u16, v: V) -> (r: Option<V>)
        ensures
            final(self).view() == old(self).view().insert(k, v),
            old(self).view().contains_key(k) ==> final(self).seq().len() == old(self).seq().len(),
            r matches Some(x) ==> old(self).view().contains_key(k) && x == old(self).view()[k],
            r is None ==> !old(self).view().contains_key(k),
    {
        proof { use_type_invariant(&*self); }
        let ghost s0 = self.entries@;
        let (i, found) = self.position(k);
        if found {
            proof { lemma_key_index(s0, i as int); }
            let mut e: Vec<(u16, V)> = Vec::new();
            std::mem::swap(&mut e, &mut self.entries);
            let (_, old_v) = e.remove(i);
            e.insert(i, (k, v));
            let ghost s1 = e@;
            assert(s1 =~= s0.update(i as int, (k, v)));
            assert(keys_increasing(s1));
            proof { lemma_update_map(s0, i as int, k, v); }
            self.entries = e;
            Some(old_v)
        } else {
            let mut e: Vec<(u16, V)> = Vec::new();
            std::mem::swap(&mut e, &mut self.entries);
            e.insert(i, (k, v));
            proof { lemma_insert_map(s0, i as int, k, v); }
            self.entries = e;
            None
        }
    }

    /// Removes the entry for `k`, returning its value.
    pub fn remove(&mut self, k: u16) -> (r: Option<V>)
        ensures
            final(self).view() == old(self).view().remove(k),
            r matches Some(x) ==> old(self).view().contains_key(k) && x == old(self).view()[k],
            r is None ==> !old(self).view().contains_key(k),
    {
        proof { use_type_invariant(&*self); }
        let ghost s0 = self.entries@;
        let (i, found) = self.position(k);
        if found {
            proof { lemma_key_index(s0, i as int); }
            let mut e: Vec<(u16, V)> = Vec::new();
            std::mem::swap(&mut e, &mut self.entries);
            let (_, old_v) = e.remove(i);
            proof { lemma_remove_map(s0, i as int); }
            self.entries = e;
            Some(old_v)
        } else {
            proof {
                assert(!has_key(s0, k));
                assert(as_map(s0).remove(k) =~= as_map(s0));
            }
            None
        }
    }
}

/// Keys of an increasing sequence are at least their positions, so there are at most 2^16 of them.
pub proof fn lemma_increasing_len<V>(s: Seq<(u16, V)>)
    requires
        keys_increasing(s),
    ensures
        s.len() <= 0x10000,
{
    assert forall|i: int| 0 <= i < s.len() implies s[i].0 >= i by {
        lemma_key_at_least(s, i);
    }
    if s.len() > 0x10000 {
        assert(s[0x10000].0 >= 0x10000);
    }
}

proof fn lemma_key_at_least<V>(s: Seq<(u16, V)>, i: int)
    requires
        keys_increasing(s),
        0 <= i < s.len(),
    ensures
        s[i].0 >= i,
    decreases i,
{
    if i > 0 {
        lemma_key_at_least(s, i - 1);
    }
}

proof fn lemma_update_map<V>(s: Seq<(u16, V)>, i: int, k: u16, v: V)
    requires
        keys_increasing(s),
        0 <= i < s.len(),
        s[i].0 == k,
    ensures
        as_map(s.update(i, (k, v))) == as_map(s).insert(k, v),
{
    let t = s.update(i, (k, v));
    assert(keys_increasing(t));
    assert forall|key: u16| #[trigger] as_map(t).contains_key(key) == as_map(s).insert(k, v).contains_key(key) by {
        if has_key(s, key) {
            let j = key_index(s, key);
            assert(t[j].0 == key);
        }
        if has_key(t, key) {
            let j = key_index(t, key);
            assert(s[j].0 == key);
        }
    }
    assert forall|key: u16| #[trigger] as_map(t).contains_key(key) implies as_map(t)[key] == as_map(s).insert(k, v)[key] by {
        let j = key_index(t, key);
        lemma_key_index(t, j);
        if key != k {
            assert(s[j].0 == key);
            lemma_key_index(s, j);
        }
    }
    assert(as_map(t) =~= as_map(s).insert(k, v));
}

proof fn lemma_insert_map<V>(s: Seq<(u16, V)>, i: int, k: u16, v: V)
    requires
        keys_increasing(s),
        0 <= i <= s.len(),
        forall|j: int| 0 <= j < i ==> s[j].0 < k,
        forall|j: int| i <= j < s.len() ==> s[j].0 > k,
    ensures
        keys_increasing(s.insert(i, (k, v))),
        as_map(s.insert(i, (k, v))) == as_map(s).insert(k, v),
{
    let t = s.insert(i, (k, v));
    assert(keys_increasing(t));
    assert forall|key: u16| #[trigger] as_map(t).contains_key(key) == as_map(s).insert(k, v).contains_key(key) by {
        if has_key(s, key) {
            let j = key_index(s, key);
            if j < i {
                assert(t[j].0 == key);
            } else {
                assert(t[j + 1].0 == key);
            }
        }
        if has_key(t, key) && key != k {
            let j = key_index(t, key);
            if j < i {
                assert(s[j].0 == key);
            } else {
                assert(s[j - 1].0 == key);
            }
        }
        if key == k {
            assert(t[i].0 == k);
        }
    }
    assert forall|key: u16| #[trigger] as_map(t).contains_key(key) implies as_map(t)[key] == as_map(s).insert(k, v)[key] by {
        let j = key_index(t, key);
        lemma_key_index(t, j);
        if key != k {
            if j < i {
                assert(s[j].0 == key);
                lemma_key_index(s, j);
            } else {
                assert(s[j - 1].0 == key);
                lemma_key_index(s, j - 1);
            }
        }
    }
    assert(as_map(t) =~= as_map(s).insert(k, v));
}

proof fn lemma_remove_map<V>(s: Seq<(u16, V)>, i: int)
    requires
        keys_increasing(s),
        0 <= i < s.len(),
    ensures
        keys_increasing(s.remove(i)),
        as_map(s.remove(i)) == as_map(s).remove(s[i].0),
{
    let k = s[i].0;
    let t = s.remove(i);
    assert(keys_increasing(t));
    assert forall|key: u16| #[trigger] as_map(t).contains_key(key) == as_map(s).remove(k).contains_key(key) by {
        if has_key(s, key) && key != k {
            let j = key_index(s, key);
            if j < i {
                assert(t[j].0 == key);
            } else {
                assert(j != i);
                assert(t[j - 1].0 == key);
            }
        }
        if has_key(t, key) {
            let j = key_index(t, key);
            if j < i {
                assert(s[j].0 == key);
                assert(s[j].0 < s[i].0);
            } else {
                assert(s[j + 1].0 == key);
                assert(s[i].0 < s[j + 1].0);
            }
        }
    }
    assert forall|key: u16| #[trigger] as_map(t).contains_key(key) implies as_map(t)[key] == as_map(s).remove(k)[key] by {
        let j = key_index(t, key);
        lemma_key_index(t, j);
        if j < i {
            lemma_key_index(s, j);
        } else {
            lemma_key_index(s, j + 1);
        }
    }
    assert(as_map(t) =~= as_map(s).remove(k));
}

} // verus!
