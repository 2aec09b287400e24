//! An insertion-ordered map from strings to values, kept as a vector of
//! entries with pairwise distinct keys.  Its model is a `Map` over the keys'
//! character sequences; the order of the entries is kept as well, because the
//! listings built from it are reported in that order.
use vstd::prelude::*;

verus! {

/// The keys of `s` are pairwise distinct.
pub open spec fn keys_unique<V>(s: Seq<(Seq<char>, V)>) -> bool {
    forall|i: int, j: int| 0 <= i < j < s.len() ==> s[i].0 != s[j].0
}

/// The map that a sequence of entries with distinct keys stands for.
pub open spec fn seq_to_map<V>(s: Seq<(Seq<char>, V)>) -> Map<Seq<char>, V>
    decreases s.len(),
{
    if s.len() == 0 {
        Map::empty()
    } else {
        seq_to_map(s.drop_last()).insert(s.last().0, s.last().1)
    }
}

/// A key is in the map exactly when some entry carries it.
pub proof fn lemma_seq_to_map_contains<V>(s: Seq<(Seq<char>, V)>, k: Seq<char>)
    ensures
        seq_to_map(s).contains_key(k) <==> exists|i: int| 0 <= i < s.len() && #[trigger] s[i].0 == k,
    decreases s.len(),
{
    if s.len() > 0 {
        lemma_seq_to_map_contains(s.drop_last(), k);
        if seq_to_map(s.drop_last()).contains_key(k) {
            let i = choose|i: int| 0 <= i < s.drop_last().len() && #[trigger] s.drop_last()[i].0 == k;
            assert(s[i].0 == k);
        }
        if exists|i: int| 0 <= i < s.len() && #[trigger] s[i].0 == k {
            let i = choose|i: int| 0 <= i < s.len() && #[trigger] s[i].0 == k;
            if i < s.len() - 1 {
                assert(s.drop_last()[i].0 == k);
            }
        }
    }
}

/// With distinct keys, the map sends each entry's key to that entry's value.
pub proof fn lemma_seq_to_map_value<V>(s: Seq<(Seq<char>, V)>, i: int)
    requires
        keys_unique(s),
        0 <= i < s.len(),
    ensures
        seq_to_map(s).contains_key(s[i].0),
        seq_to_map(s)[s[i].0] == s[i].1,
    decreases s.len(),
{
    if i < s.len() - 1 {
        lemma_seq_to_map_value(s.drop_last(), i);
        assert(s.drop_last()[i] == s[i]);
    }
}

/// With distinct keys, the map has as many keys as there are entries.
pub proof fn lemma_seq_to_map_len<V>(s: Seq<(Seq<char>, V)>)
    requires
        keys_unique(s),
    ensures
        seq_to_map(s).dom().finite(),
        seq_to_map(s).dom().len() == s.len(),
    decreases s.len(),
{
    if s.len() > 0 {
        let p = s.drop_last();
        lemma_seq_to_map_len(p);
        lemma_seq_to_map_contains(p, s.last().0);
        if seq_to_map(p).contains_key(s.last().0) {
            let i = choose|i: int| 0 <= i < p.len() && #[trigger] p[i].0 == s.last().0;
            assert(s[i].0 == s[s.len() - 1].0);
        }
    }
}

/// Replacing the value of one entry replaces it in the map.
pub proof fn lemma_seq_to_map_update<V>(s: Seq<(Seq<char>, V)>, i: int, v: V)
    requires
        keys_unique(s),
        0 <= i < s.len(),
    ensures
        keys_unique(s.update(i, (s[i].0, v))),
        seq_to_map(s.update(i, (s[i].0, v))) == seq_to_map(s).insert(s[i].0, v),
    decreases s.len(),
{
    let t = s.update(i, (s[i].0, v));
    assert(keys_unique(t)) by {
        assert forall|a: int, b: int| 0 <= a < b < t.len() implies t[a].0 != t[b].0 by {
            assert(t[a].0 == s[a].0 && t[b].0 == s[b].0);
        }
    }
    if i == s.len() - 1 {
        assert(t.drop_last() =~= s.drop_last());
        assert(seq_to_map(t) =~= seq_to_map(s).insert(s[i].0, v));
    } else {
        let p = s.drop_last();
        assert(t.drop_last() =~= p.update(i, (p[i].0, v)));
        lemma_seq_to_map_update(p, i, v);
        assert(s[i].0 != s.last().0);
        assert(seq_to_map(t) =~= seq_to_map(s).insert(s[i].0, v));
    }
}

/// Removing one entry removes its key from the map.
pub proof fn lemma_seq_to_map_remove<V>(s: Seq<(Seq<char>, V)>, i: int)
    requires
        keys_unique(s),
        0 <= i < s.len(),
    ensures
        keys_unique(s.remove(i)),
        seq_to_map(s.remove(i)) == seq_to_map(s).remove(s[i].0),
    decreases s.len(),
{
    let t = s.remove(i);
    assert(keys_unique(t)) by {
        assert forall|a: int, b: int| 0 <= a < b < t.len() implies t[a].0 != t[b].0 by {
            if a < i {
                if b < i {
                } else {
                    assert(t[b] == s[b + 1]);
                }
            } else {
                assert(t[a] == s[a + 1] && t[b] == s[b + 1]);
            }
        }
    }
    let p = s.drop_last();
    if i == s.len() - 1 {
        assert(t =~= p);
        lemma_seq_to_map_contains(p, s[i].0);
        if seq_to_map(p).contains_key(s[i].0) {
            let j = choose|j: int| 0 <= j < p.len() && #[trigger] p[j].0 == s[i].0;
            assert(s[j].0 == s[i].0);
        }
        assert(seq_to_map(t) =~= seq_to_map(s).remove(s[i].0));
    } else {
        assert(t.drop_last() =~= p.remove(i));
        assert(t.last() == s.last());
        lemma_seq_to_map_remove(p, i);
        assert(s[i].0 != s.last().0);
        assert(seq_to_map(t) =~= seq_to_map(s).remove(s[i].0));
    }
}

/// Values that can be copied with a guarantee that the copy has the same model.
pub trait Duplicate: Sized + View {
    fn duplicate(&self) -> (r: Self)
        ensures
            r@ == self@,
    ;
}

impl Duplicate for String {
    fn duplicate(&self) -> (r: Self) {
        self.clone()
    }
}

/// An insertion-ordered map keyed by strings.
pub struct StrMap<V> {
    entries: Vec<(String, V)>,
}

impl<V> StrMap<V> {
    /// The entries in order, keys taken by their characters.
    pub closed spec fn entries(self) -> Seq<(Seq<char>, V)> {
        self.entries@.map_values(|e: (String, V)| (e.0@, e.1))
    }

    /// Well-formedness: the keys are pairwise distinct.
    pub closed spec fn wf(self) -> bool {
        keys_unique(self.entries())
    }

    /// The keys in order.
    pub open spec fn key_seq(self) -> Seq<Seq<char>> {
        self.entries().map_values(|e: (Seq<char>, V)| e.0)
    }

    /// The values in order.
    pub open spec fn value_seq(self) -> Seq<V> {
        self.entries().map_values(|e: (Seq<char>, V)| e.1)
    }

    /// The map model.
    pub open spec fn view(self) -> Map<Seq<char>, V> {
        seq_to_map(self.entries())
    }

    /// Every map's entries have distinct keys, and the map is finite with
    /// as many keys as entries.
    pub proof fn lemma_wf(self)
        requires
            self.wf(),
        ensures
            keys_unique(self.entries()),
            self@.dom().finite(),
            self@.dom().len() == self.entries().len(),
            forall|k: Seq<char>| #[trigger] self@.contains_key(k) <==> self.key_seq().contains(k),
            forall|i: int| 0 <= i < self.entries().len() ==> #[trigger] self@[self.entries()[i].0] == self.entries()[i].1,
    {
        lemma_seq_to_map_len(self.entries());
        assert forall|k: Seq<char>| #[trigger] self@.contains_key(k) <==> self.key_seq().contains(k) by {
            lemma_seq_to_map_contains(self.entries(), k);
            if self.key_seq().contains(k) {
                let i = choose|i: int| 0 <= i < self.key_seq().len() && self.key_seq()[i] == k;
                assert(self.entries()[i].0 == k);
            }
            if self@.contains_key(k) {
                let i = choose|i: int| 0 <= i < self.entries().len() && #[trigger] self.entries()[i].0 == k;
                assert(self.key_seq()[i] == k);
            }
        }
        assert forall|i: int| 0 <= i < self.entries().len() implies #[trigger] self@[self.entries()[i].0] == self.entries()[i].1 by {
            lemma_seq_to_map_value(self.entries(), i);
        }
    }

    /// An empty map.
    pub fn new() -> (m: Self)
        ensures
            m.wf(),
            m@ == Map::<Seq<char>, V>::empty(),
            m.entries().len() == 0,
    {
        let m = StrMap { entries: Vec::new() };
        assert(m.entries() =~= Seq::<(Seq<char>, V)>::empty());
        m
    }

    /// Number of entries, which is the number of keys.
    pub fn len(&self) -> (n: usize)
        requires
            self.wf(),
        ensures
            n == self.entries().len(),
            n == self@.dom().len(),
    {
        proof { self.lemma_wf(); }
        self.entries.len()
    }

    /// Position of the entry with the given key.
    pub fn index_of(&self, key: &str) -> (r: Option<usize>)
        requires
            self.wf(),
        ensures
            match r {
                Some(i) => i < self.entries().len() && self.entries()[i as int].0 == key@,
                None => !self@.contains_key(key@),
            },
            r is Some <==> self@.contains_key(key@),
    {
        proof { self.lemma_wf(); }
        let target = key.to_owned();
        let mut i: usize = 0;
        while i < self.entries.len()
            invariant
                i <= self.entries@.len(),
                forall|j: int| 0 <= j < i ==> self.entries@[j].0@ != key@,
                target@ == key@,
                self.wf(),
            decreases self.entries@.len() - i,
        {
            if self.entries[i].0 == target {
                assert(self.entries()[i as int].0 == key@);
                assert(self.key_seq()[i as int] == key@);
                proof { self.lemma_wf(); }
                return Some(i);
            }
            i = i + 1;
        }
        proof {
            if self.key_seq().contains(key@) {
                let j = choose|j: int| 0 <= j < self.key_seq().len() && self.key_seq()[j] == key@;
                assert(self.entries@[j].0@ == key@);
            }
        }
        None
    }

    /// Whether the key is present.
    pub fn contains_key(&self, key: &str) -> (b: bool)
        requires
            self.wf(),
        ensures
            b == self@.contains_key(key@),
    {
        self.index_of(key).is_some()
    }

    /// The value stored under the key.
    pub fn get(&self, key: &str) -> (r: Option<&V>)
        requires
            self.wf(),
        ensures
            match r {
                Some(v) => self@.contains_key(key@) && *v == self@[key@],
                None => !self@.contains_key(key@),
            },
    {
        proof { self.lemma_wf(); }
        match self.index_of(key) {
            Some(i) => Some(&self.entries[i].1),
            None => None,
        }
    }

    /// The entry at a position.
    pub fn entry_at(&self, i: usize) -> (r: (&String, &V))
        requires
            i < self.entries().len(),
        ensures
            r.0@ == self.entries()[i as int].0,
            *r.1 == self.entries()[i as int].1,
    {
        (&self.entries[i].0, &self.entries[i].1)
    }

    /// Stores `value` under `key`, in place when the key is present and at
    /// the end otherwise; returns the value it replaces.
    pub fn insert(&mut self, key: String, value: V) -> (old_value: Option<V>)
        requires
            old(self).wf(),
        ensures
            final(self).wf(),
            final(self)@ == old(self)@.insert(key@, value),
            match old_value {
                Some(v) => old(self)@.contains_key(key@) && v == old(self)@[key@],
                None => !old(self)@.contains_key(key@),
            },
            old(self)@.contains_key(key@) ==> final(self).key_seq() == old(self).key_seq(),
            !old(self)@.contains_key(key@) ==> final(self).key_seq() == old(self).key_seq().push(key@),
    {
        proof { self.lemma_wf(); }
        match self.index_of(key.as_str()) {
            Some(i) => {
                let ghost before = self.entries();
                                let (k, old_v) = self.entries.remove(i);
                self.entries.insert(i, (k, value));
                proof {
                    let now = self.entries@.map_values(|e: (String, V)| (e.0@, e.1));
                    assert(now =~= before.update(i as int, (before[i as int].0, value)));
                    lemma_seq_to_map_update(before, i as int, value);
                    lemma_seq_to_map_value(before, i as int);
                    assert(now.map_values(|e: (Seq<char>, V)| e.0) =~= before.map_values(|e: (Seq<char>, V)| e.0));
                }
                Some(old_v)
            },
            None => {
                let ghost before = self.entries();
                let ghost old_keys = self.key_seq();
                let ghost k = key@;
                self.entries.push((key, value));
                proof {
                    let now = self.entries@.map_values(|e: (String, V)| (e.0@, e.1));
                    assert(now =~= before.push((k, value)));
                    assert(now.drop_last() =~= before);
                    assert(keys_unique(now)) by {
                        assert forall|a: int, b: int| 0 <= a < b < now.len() implies now[a].0 != now[b].0 by {
                            if b == now.len() - 1 {
                                assert(before[a].0 == old_keys[a]);
                            }
                        }
                    }
                    assert(now.map_values(|e: (Seq<char>, V)| e.0) =~= before.map_values(|e: (Seq<char>, V)| e.0).push(k));
                }
                None
            },
        }
    }

    /// Removes the entry with the key, keeping the order of the others, and
    /// returns its value.
    pub fn remove(&mut self, key: &str) -> (r: Option<V>)
        requires
            old(self).wf(),
        ensures
            final(self).wf(),
            final(self)@ == old(self)@.remove(key@),
            match r {
                Some(v) => old(self)@.contains_key(key@) && v == old(self)@[key@],
                None => !old(self)@.contains_key(key@) && final(self).entries() == old(self).entries(),
            },
            r is Some ==> exists|i: int| 0 <= i < old(self).key_seq().len() && old(self).key_seq()[i] == key@
                && final(self).key_seq() == old(self).key_seq().remove(i),
    {
        proof { self.lemma_wf(); }
        match self.index_of(key) {
            Some(i) => {
                let ghost before = self.entries();
                                let (_k, v) = self.entries.remove(i);
                proof {
                    let now = self.entries@.map_values(|e: (String, V)| (e.0@, e.1));
                    assert(now =~= before.remove(i as int));
                    lemma_seq_to_map_remove(before, i as int);
                    lemma_seq_to_map_value(before, i as int);
                    let ks = before.map_values(|e: (Seq<char>, V)| e.0);
                    assert(now.map_values(|e: (Seq<char>, V)| e.0) =~= ks.remove(i as int));
                    assert(ks[i as int] == key@);
                }
                Some(v)
            },
            None => {
                proof {
                    assert(self@.remove(key@) =~= self@);
                }
                None
            },
        }
    }

    /// Puts `value` in the entry at position `i`, keeping its key and place,
    /// and returns the value it held.
    pub fn replace_value(&mut self, i: usize, value: V) -> (old_value: V)
        requires
            old(self).wf(),
            i < old(self).entries().len(),
        ensures
            final(self).wf(),
            old_value == old(self).entries()[i as int].1,
            final(self)@ == old(self)@.insert(old(self).entries()[i as int].0, value),
            final(self).key_seq() == old(self).key_seq(),
    {
        let ghost before = self.entries();
        proof { self.lemma_wf(); lemma_seq_to_map_update(before, i as int, value); }
        let (k, old_v) = self.entries.remove(i);
        self.entries.insert(i, (k, value));
        proof {
            let now = self.entries@.map_values(|e: (String, V)| (e.0@, e.1));
            assert(now =~= before.update(i as int, (before[i as int].0, value)));
            assert(now.map_values(|e: (Seq<char>, V)| e.0) =~= before.map_values(|e: (Seq<char>, V)| e.0));
        }
        old_v
    }

    /// Removes every entry.
    pub fn clear(&mut self)
        requires
            old(self).wf(),
        ensures
            final(self).wf(),
            final(self)@ == Map::<Seq<char>, V>::empty(),
            final(self).entries().len() == 0,
    {
        self.entries = Vec::new();
        assert(self.entries() =~= Seq::<(Seq<char>, V)>::empty());
    }

    /// The key of the first entry.
    pub fn first_key(&self) -> (r: Option<String>)
        ensures
            match r {
                Some(k) => self.entries().len() > 0 && k@ == self.entries()[0].0,
                None => self.entries().len() == 0,
            },
    {
        if self.entries.len() == 0 {
            None
        } else {
            Some(self.entries[0].0.clone())
        }
    }

    /// The keys in order.
    pub fn keys(&self) -> (r: Vec<String>)
        requires
            self.wf(),
        ensures
            r@.map_values(|k: String| k@) == self.key_seq(),
    {
        let mut r: Vec<String> = Vec::new();
        let mut i: usize = 0;
        while i < self.entries.len()
            invariant
                i <= self.entries@.len(),
                r@.len() == i,
                forall|j: int| 0 <= j < i ==> #[trigger] r@[j]@ == self.entries@[j].0@,
            decreases self.entries@.len() - i,
        {
            r.push(self.entries[i].0.clone());
            i = i + 1;
        }
        assert(r@.map_values(|k: String| k@) =~= self.key_seq());
        r
    }
}

impl<V: Duplicate> StrMap<V> {
    /// Copies of the values in order.
    pub fn values(&self) -> (r: Vec<V>)
        requires
            self.wf(),
        ensures
            r@.len() == self.value_seq().len(),
            forall|i: int| 0 <= i < r@.len() ==> #[trigger] r@[i]@ == self.value_seq()[i]@,
    {
        let mut r: Vec<V> = Vec::new();
        let mut i: usize = 0;
        while i < self.entries.len()
            invariant
                i <= self.entries@.len(),
                r@.len() == i,
                forall|j: int| 0 <= j < i ==> #[trigger] r@[j]@ == self.entries@[j].1@,
            decreases self.entries@.len() - i,
        {
            r.push(self.entries[i].1.duplicate());
            i = i + 1;
        }
        r
    }

    /// A copy of the whole map, entries in the same order.
    pub fn duplicate_map(&self) -> (r: Self)
        requires
            self.wf(),
        ensures
            r.wf(),
            r.key_seq() == self.key_seq(),
            r@.dom() == self@.dom(),
            forall|k: Seq<char>| #[trigger] r@.contains_key(k) ==> r@[k]@ == self@[k]@,
    {
        let mut entries: Vec<(String, V)> = Vec::new();
        let mut i: usize = 0;
        while i < self.entries.len()
            invariant
                i <= self.entries@.len(),
                entries@.len() == i,
                forall|j: int| 0 <= j < i ==> #[trigger] entries@[j].0@ == self.entries@[j].0@,
                forall|j: int| 0 <= j < i ==> #[trigger] entries@[j].1@ == self.entries@[j].1@,
            decreases self.entries@.len() - i,
        {
            entries.push((self.entries[i].0.clone(), self.entries[i].1.duplicate()));
            i = i + 1;
        }
        let r = StrMap { entries };
        proof {
            assert(r.key_seq() =~= self.key_seq());
            assert(r.wf()) by {
                assert forall|a: int, b: int| 0 <= a < b < r.entries().len() implies r.entries()[a].0 != r.entries()[b].0 by {
                    assert(r.entries()[a].0 == self.key_seq()[a]);
                    assert(r.entries()[b].0 == self.key_seq()[b]);
                    assert(self.entries()[a].0 == self.key_seq()[a]);
                    assert(self.entries()[b].0 == self.key_seq()[b]);
                }
            }
            self.lemma_wf();
            r.lemma_wf();
            assert(r@.dom() =~= self@.dom()) by {
                assert forall|k: Seq<char>| r@.contains_key(k) <==> self@.contains_key(k) by {}
            }
            assert forall|k: Seq<char>| #[trigger] r@.contains_key(k) implies r@[k]@ == self@[k]@ by {
                let j = choose|j: int| 0 <= j < r.key_seq().len() && r.key_seq()[j] == k;
                assert(r.entries()[j].0 == k);
                assert(self.entries()[j].0 == k);
                assert(r@[r.entries()[j].0] == r.entries()[j].1);
                assert(self@[self.entries()[j].0] == self.entries()[j].1);
            }
        }
        r
    }
}

} // verus!
