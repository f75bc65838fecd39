//! A map keyed by strings, kept as a list of keys and a list of values.

use vstd::prelude::*;

verus! {

/// The map that lists of keys and values stand for (entry `i` maps key `i`
/// to value `i`): a later entry for a key overrides an earlier one.
pub open spec fn entries_map<V>(ks: Seq<Seq<char>>, vs: Seq<V>) -> Map<Seq<char>, V>
    decreases ks.len(),
{
    if ks.len() == 0 || vs.len() == 0 {
        Map::empty()
    } else {
        entries_map(ks.drop_last(), vs.drop_last()).insert(ks.last(), vs.last())
    }
}

proof fn lemma_entries_map_absent<V>(ks: Seq<Seq<char>>, vs: Seq<V>, k: Seq<char>)
    requires
        ks.len() == vs.len(),
        forall|j: int| 0 <= j < ks.len() ==> ks[j] != k,
    ensures
        !entries_map(ks, vs).dom().contains(k),
    decreases ks.len(),
{
    if ks.len() > 0 {
        lemma_entries_map_absent(ks.drop_last(), vs.drop_last(), k);
    }
}

proof fn lemma_entries_map_at<V>(ks: Seq<Seq<char>>, vs: Seq<V>, i: int, k: Seq<char>)
    requires
        ks.len() == vs.len(),
        0 <= i < ks.len(),
        ks[i] == k,
        forall|j: int| i < j < ks.len() ==> ks[j] != k,
    ensures
        entries_map(ks, vs).dom().contains(k),
        entries_map(ks, vs)[k] == vs[i],
    decreases ks.len(),
{
    if i < ks.len() - 1 {
        lemma_entries_map_at(ks.drop_last(), vs.drop_last(), i, k);
    }
}

proof fn lemma_entries_map_update<V>(ks: Seq<Seq<char>>, vs: Seq<V>, i: int, v: V)
    requires
        ks.len() == vs.len(),
        0 <= i < ks.len(),
        forall|j: int| 0 <= j < ks.len() && j != i ==> ks[j] != ks[i],
    ensures
        entries_map(ks, vs.update(i, v)) == entries_map(ks, vs).insert(ks[i], v),
    decreases ks.len(),
{
    let t = vs.update(i, v);
    if i == ks.len() - 1 {
        assert(t.drop_last() =~= vs.drop_last());
        assert(entries_map(ks, t) =~= entries_map(ks, vs).insert(ks[i], v));
    } else {
        lemma_entries_map_update(ks.drop_last(), vs.drop_last(), i, v);
        assert(t.drop_last() =~= vs.drop_last().update(i, v));
        assert(entries_map(ks, t) =~= entries_map(ks, vs).insert(ks[i], v));
    }
}

/// The chars of each key.
pub open spec fn key_views(ks: Seq<String>) -> Seq<Seq<char>> {
    ks.map_values(|k: String| k@)
}

/// A map from strings to values, with each key held once.
#[derive(Debug)]
pub struct StrMap<V> {
    keys: Vec<String>,
    vals: Vec<V>,
}

impl<V> StrMap<V> {
    #[verifier::type_invariant]
    spec fn inv(&self) -> bool {
        &&& self.keys@.len() == self.vals@.len()
        &&& forall|i: int, j: int|
            0 <= i < self.keys@.len() && 0 <= j < self.keys@.len() && i != j
                ==> (#[trigger] self.keys@[i])@ != (#[trigger] self.keys@[j])@
    }

    /// The map of keys (as chars) to values.
    pub closed spec fn view(&self) -> Map<Seq<char>, V> {
        entries_map(key_views(self.keys@), self.vals@)
    }

    /// The keys, in the order they were added.
    pub closed spec fn key_seq(&self) -> Seq<Seq<char>> {
        key_views(self.keys@)
    }

    /// An empty map.
    pub fn new() -> (r: StrMap<V>)
        ensures
            r.view() == Map::<Seq<char>, V>::empty(),
            r.key_seq().len() == 0,
    {
        StrMap { keys: Vec::new(), vals: Vec::new() }
    }

    fn find(&self, key: &String) -> (r: Option<usize>)
        ensures
            match r {
                Some(i) => i < self.keys@.len() && self.keys@[i as int]@ == key@
                    && self.view().dom().contains(key@) && self.view()[key@] == self.vals@[i as int],
                None => !self.view().dom().contains(key@)
                    && forall|j: int| 0 <= j < self.keys@.len() ==> (#[trigger] self.keys@[j])@ != key@,
            },
    {
        proof {
            use_type_invariant(self);
        }
        let mut i: usize = 0;
        while i < self.keys.len()
            invariant
                i <= self.keys@.len(),
                self.keys@.len() == self.vals@.len(),
                forall|j: int| 0 <= j < i ==> (#[trigger] self.keys@[j])@ != key@,
                forall|a: int, b: int|
                    0 <= a < self.keys@.len() && 0 <= b < self.keys@.len() && a != b
                        ==> (#[trigger] self.keys@[a])@ != (#[trigger] self.keys@[b])@,
            decreases self.keys.len() - i,
        {
            if self.keys[i] == *key {
                proof {
                    let ks = key_views(self.keys@);
                    assert forall|j: int| i < j < ks.len() implies ks[j] != key@ by {
                        assert(self.keys@[j]@ != self.keys@[i as int]@);
                    }
                    lemma_entries_map_at(ks, self.vals@, i as int, key@);
                }
                return Some(i);
            }
            i = i + 1;
        }
        proof {
            let ks = key_views(self.keys@);
            assert forall|j: int| 0 <= j < ks.len() implies ks[j] != key@ by {
                assert(self.keys@[j]@ != key@);
            }
            lemma_entries_map_absent(ks, self.vals@, key@);
        }
        None
    }

    /// Whether the key is in the map.
    pub fn contains_key(&self, key: &String) -> (b: bool)
        ensures
            b == self.view().dom().contains(key@),
    {
        self.find(key).is_some()
    }

    /// The value of a key, if the key is in the map.
    pub fn get(&self, key: &String) -> (r: Option<&V>)
        ensures
            match r {
                Some(v) => self.view().dom().contains(key@) && *v == self.view()[key@],
                None => !self.view().dom().contains(key@),
            },
    {
        proof {
            use_type_invariant(self);
        }
        match self.find(key) {
            Some(i) => Some(&self.vals[i]),
            None => None,
        }
    }

    /// The value of a key, to change in place, if the key is in the map.
    pub fn get_mut(&mut self, key: &String) -> (r: Option<&mut V>)
        ensures
            match r {
                Some(v) => old(self).view().dom().contains(key@) && *v == old(self).view()[key@]
                    && final(self).view() == old(self).view().insert(key@, *final(v)),
                None => !old(self).view().dom().contains(key@) && final(self).view() == old(self).view(),
            },
    {
        proof {
            use_type_invariant(&*self);
        }
        match self.find(key) {
            Some(i) => {
                let ghost ks = key_views(self.keys@);
                let ghost v0 = self.vals@;
                proof {
                    assert forall|j: int| 0 <= j < ks.len() && j != i implies ks[j] != ks[i as int] by {
                        assert(self.keys@[j]@ != self.keys@[i as int]@);
                    }
                }
                let r = &mut self.vals[i];
                proof {
                    lemma_entries_map_update(ks, v0, i as int, *final(r));
                }
                Some(r)
            },
            None => None,
        }
    }

    /// Sets the value of a key, adding the key when it is new.
    pub fn insert(&mut self, key: String, v: V)
        ensures
            final(self).view() == old(self).view().insert(key@, v),
    {
        proof {
            use_type_invariant(&*self);
        }
        match self.find(&key) {
            Some(i) => {
                let ghost ks = key_views(self.keys@);
                proof {
                    assert forall|j: int| 0 <= j < ks.len() && j != i implies ks[j] != ks[i as int] by {
                        assert(self.keys@[j]@ != self.keys@[i as int]@);
                    }
                    lemma_entries_map_update(ks, self.vals@, i as int, v);
                }
                let mut old_map = StrMap::new();
                std::mem::swap(&mut old_map, self);
                let StrMap { keys, mut vals } = old_map;
                vals.set(i, v);
                *self = StrMap { keys, vals };
            },
            None => {
                let ghost ks = key_views(self.keys@);
                let ghost vs = self.vals@;
                let mut old_map = StrMap::new();
                std::mem::swap(&mut old_map, self);
                let StrMap { mut keys, mut vals } = old_map;
                keys.push(key);
                vals.push(v);
                proof {
                    assert(key_views(keys@).drop_last() =~= ks);
                    assert(vals@.drop_last() =~= vs);
                    assert forall|a: int, b: int|
                        0 <= a < keys@.len() && 0 <= b < keys@.len() && a != b
                            implies (#[trigger] keys@[a])@ != (#[trigger] keys@[b])@ by {
                        if a < keys@.len() - 1 && b < keys@.len() - 1 {
                            assert(keys@[a] == old(self).keys@[a]);
                            assert(keys@[b] == old(self).keys@[b]);
                        } else if a == keys@.len() - 1 {
                            assert(ks[b] != key@);
                        } else {
                            assert(ks[a] != key@);
                        }
                    }
                }
                *self = StrMap { keys, vals };
            },
        }
    }

    /// The number of keys.
    pub fn len(&self) -> (n: usize)
        ensures
            n == self.key_seq().len(),
            n == self.view().dom().len(),
    {
        proof {
            use_type_invariant(self);
            lemma_entries_map_len(key_views(self.keys@), self.vals@);
        }
        self.keys.len()
    }

    /// The key at a position (keys are in the order they were added).
    pub fn key_at(&self, i: usize) -> (k: &String)
        requires
            i < self.key_seq().len(),
        ensures
            k@ == self.key_seq()[i as int],
            self.view().dom().contains(k@),
    {
        proof {
            use_type_invariant(self);
            let ks = key_views(self.keys@);
            assert forall|j: int| i < j < ks.len() implies ks[j] != ks[i as int] by {
                assert(self.keys@[j]@ != self.keys@[i as int]@);
            }
            lemma_entries_map_at(ks, self.vals@, i as int, ks[i as int]);
        }
        &self.keys[i]
    }
}

proof fn lemma_entries_map_len<V>(ks: Seq<Seq<char>>, vs: Seq<V>)
    requires
        ks.len() == vs.len(),
        forall|i: int, j: int| 0 <= i < ks.len() && 0 <= j < ks.len() && i != j ==> ks[i] != ks[j],
    ensures
        entries_map(ks, vs).dom().len() == ks.len(),
        entries_map(ks, vs).dom().finite(),
    decreases ks.len(),
{
    if ks.len() > 0 {
        let ks2 = ks.drop_last();
        lemma_entries_map_len(ks2, vs.drop_last());
        assert forall|j: int| 0 <= j < ks2.len() implies ks2[j] != ks.last() by {
            assert(ks[j] != ks[ks.len() - 1]);
        }
        lemma_entries_map_absent(ks2, vs.drop_last(), ks.last());
    }
}

impl StrMap<String> {
    /// A copy of a map of strings.
    pub fn clone_strings(&self) -> (r: StrMap<String>)
        ensures
            r.view() == self.view(),
    {
        proof {
            use_type_invariant(self);
        }
        let mut ks: Vec<String> = Vec::new();
        let mut vs: Vec<String> = Vec::new();
        let mut i: usize = 0;
        while i < self.keys.len()
            invariant
                self.keys@.len() == self.vals@.len(),
                i <= self.keys@.len(),
                ks@ == self.keys@.subrange(0, i as int),
                vs@ == self.vals@.subrange(0, i as int),
            decreases self.keys.len() - i,
        {
            ks.push(self.keys[i].clone());
            vs.push(self.vals[i].clone());
            proof {
                assert(ks@ =~= self.keys@.subrange(0, i + 1));
                assert(vs@ =~= self.vals@.subrange(0, i + 1));
            }
            i = i + 1;
        }
        assert(ks@ =~= self.keys@);
        assert(vs@ =~= self.vals@);
        StrMap { keys: ks, vals: vs }
    }
}

} // verus!
