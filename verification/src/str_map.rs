//! A small map from text keys to copyable values, kept as a list of
//! entries with distinct keys.  It stands in for a hash map keyed by
//! `String` where the number of keys is small (a handful of devices):
//! vstd specifies `HashMap` only for key types it knows to obey its key
//! model (the integers and `bool`); for `String` that fact could only be
//! assumed, so nothing about a `HashMap<String, _>` could be proved.

use vstd::prelude::*;
use crate::text::str_eq;

verus! {

/// No key occurs twice.
pub open spec fn keys_unique<V>(e: Seq<(String, V)>) -> bool {
    forall|i: int, j: int| 0 <= i < j < e.len() ==> (#[trigger] e[i]).0@ != (#[trigger] e[j]).0@
}

/// The map that a list of entries denotes (a later entry wins).
pub open spec fn entries_map<V>(e: Seq<(String, V)>) -> Map<Seq<char>, V>
    decreases e.len(),
{
    if e.len() == 0 {
        Map::empty()
    } else {
        entries_map(e.drop_last()).insert(e.last().0@, e.last().1)
    }
}

/// Map from text keys to values.
#[derive(Debug)]
pub struct StrMap<V> {
    entries: Vec<(String, V)>,
}

impl<V> View for StrMap<V> {
    type V = Map<Seq<char>, V>;

    closed spec fn view(&self) -> Map<Seq<char>, V> {
        entries_map(self.entries@)
    }
}

/// With distinct keys, the map holds exactly the keys of the entries, each
/// with its entry's value.
proof fn lemma_entries_map<V>(e: Seq<(String, V)>)
    requires
        keys_unique(e),
    ensures
        forall|i: int| 0 <= i < e.len() ==> #[trigger] entries_map(e).contains_key(e[i].0@) && entries_map(e)[e[i].0@] == e[i].1,
        forall|k: Seq<char>| #[trigger] entries_map(e).contains_key(k) ==> exists|i: int| 0 <= i < e.len() && e[i].0@ == k,
    decreases e.len(),
{
    if e.len() > 0 {
        let p = e.drop_last();
        assert(keys_unique(p)) by {
            assert forall|i: int, j: int| 0 <= i < j < p.len() implies (#[trigger] p[i]).0@ != (#[trigger] p[j]).0@ by {
                assert(p[i] == e[i] && p[j] == e[j]);
            }
        }
        lemma_entries_map(p);
        assert forall|i: int| 0 <= i < e.len() implies #[trigger] entries_map(e).contains_key(e[i].0@) && entries_map(e)[e[i].0@] == e[i].1 by {
            if i < e.len() - 1 {
                assert(p[i] == e[i]);
                assert(entries_map(p).contains_key(p[i].0@));
                assert(e[i].0@ != e[e.len() - 1].0@);
            }
        }
        assert forall|k: Seq<char>| #[trigger] entries_map(e).contains_key(k) implies exists|i: int| 0 <= i < e.len() && e[i].0@ == k by {
            if k == e.last().0@ {
                assert(e[e.len() - 1].0@ == k);
            } else {
                assert(entries_map(p).contains_key(k));
                let i = choose|i: int| 0 <= i < p.len() && p[i].0@ == k;
                assert(e[i] == p[i]);
            }
        }
    }
}

impl<V> StrMap<V> {
    #[verifier::type_invariant]
    spec fn wf(self) -> bool {
        keys_unique(self.entries@)
    }
}

impl<V: Copy> StrMap<V> {
    /// The empty map.
    pub fn new() -> (m: Self)
        ensures
            m@ == Map::<Seq<char>, V>::empty(),
    {
        StrMap { entries: Vec::new() }
    }

    /// Position of `key`, if present.
    fn find(&self, key: &str) -> (r: Option<usize>)
        ensures
            r matches Some(i) ==> i < self.entries@.len() && self.entries@[i as int].0@ == key@,
            r is None ==> forall|i: int| 0 <= i < self.entries@.len() ==> self.entries@[i].0@ != key@,
    {
        let mut i: usize = 0;
        while i < self.entries.len()
            invariant
                i <= self.entries@.len(),
                forall|j: int| 0 <= j < i ==> self.entries@[j].0@ != key@,
            decreases self.entries@.len() - i,
        {
            if str_eq(self.entries[i].0.as_str(), key) {
                return Some(i);
            }
            i = i + 1;
        }
        None
    }

    /// The value of `key`, if present.
    pub fn get(&self, key: &str) -> (r: Option<V>)
        ensures
            r == (if self@.contains_key(key@) { Some(self@[key@]) } else { None::<V> }),
    {
        proof {
            use_type_invariant(self);
            lemma_entries_map(self.entries@);
        }
        match self.find(key) {
            Some(i) => Some(self.entries[i].1),
            None => None,
        }
    }

    /// Whether `key` is present.
    pub fn contains_key(&self, key: &str) -> (b: bool)
        ensures
            b == self@.contains_key(key@),
    {
        self.get(key).is_some()
    }

    /// Set `key` to `value`.
    pub fn insert(&mut self, key: String, value: V)
        ensures
            final(self)@ == old(self)@.insert(key@, value),
    {
        proof {
            use_type_invariant(&*self);
            lemma_entries_map(self.entries@);
        }
        let pos = self.find(key.as_str());
        let mut e: Vec<(String, V)> = Vec::new();
        std::mem::swap(&mut e, &mut self.entries);
        let ghost old_e = e@;
        if let Some(i) = pos {
            let ghost k = key@;
            e.set(i, (key, value));
            proof {
                assert(keys_unique(e@)) by {
                    assert forall|a: int, b: int| 0 <= a < b < e@.len() implies (#[trigger] e@[a]).0@ != (#[trigger] e@[b]).0@ by {
                        if a != i as int && b != i as int {
                            assert(e@[a] == old_e[a] && e@[b] == old_e[b]);
                        } else if a == i as int {
                            assert(e@[b] == old_e[b]);
                            assert(old_e[a].0@ == k);
                        } else {
                            assert(e@[a] == old_e[a]);
                            assert(old_e[b].0@ == k);
                        }
                    }
                }
                lemma_entries_map(e@);
                assert(entries_map(e@) =~= entries_map(old_e).insert(k, value)) by {
                    assert forall|x: Seq<char>| #[trigger] entries_map(e@).contains_key(x) <==> entries_map(old_e).insert(k, value).contains_key(x) by {
                        if entries_map(e@).contains_key(x) {
                            let j = choose|j: int| 0 <= j < e@.len() && e@[j].0@ == x;
                            if j != i as int {
                                assert(e@[j] == old_e[j]);
                            }
                        }
                        if entries_map(old_e).contains_key(x) && x != k {
                            let j = choose|j: int| 0 <= j < old_e.len() && old_e[j].0@ == x;
                            assert(j != i as int);
                            assert(e@[j] == old_e[j]);
                            assert(entries_map(e@).contains_key(e@[j].0@));
                        }
                        if x == k {
                            assert(e@[i as int].0@ == k);
                            assert(entries_map(e@).contains_key(e@[i as int].0@));
                        }
                    }
                    assert forall|x: Seq<char>| #[trigger] entries_map(e@).contains_key(x) implies entries_map(e@)[x] == entries_map(old_e).insert(k, value)[x] by {
                        let j = choose|j: int| 0 <= j < e@.len() && e@[j].0@ == x;
                        if j != i as int {
                            assert(e@[j] == old_e[j]);
                        }
                    }
                }
            }
        } else {
            e.push((key, value));
            proof {
                assert(keys_unique(e@)) by {
                    assert forall|a: int, b: int| 0 <= a < b < e@.len() implies (#[trigger] e@[a]).0@ != (#[trigger] e@[b]).0@ by {
                        assert(e@[a] == old_e[a]);
                        if b < old_e.len() {
                            assert(e@[b] == old_e[b]);
                        }
                    }
                }
                assert(e@.drop_last() =~= old_e);
            }
        }
        self.entries = e;
    }

    /// Set `key` to `value` unless it is present.
    pub fn insert_if_absent(&mut self, key: String, value: V)
        ensures
            final(self)@ == (if old(self)@.contains_key(key@) { old(self)@ } else { old(self)@.insert(key@, value) }),
    {
        if !self.contains_key(key.as_str()) {
            self.insert(key, value);
        }
    }

    /// Remove `key`, if present.
    pub fn remove(&mut self, key: &str)
        ensures
            final(self)@ == old(self)@.remove(key@),
    {
        proof {
            use_type_invariant(&*self);
            lemma_entries_map(self.entries@);
        }
        match self.find(key) {
            None => {
                assert(self@ =~= self@.remove(key@));
            },
            Some(i) => {
                let mut e: Vec<(String, V)> = Vec::new();
                std::mem::swap(&mut e, &mut self.entries);
                let ghost old_e = e@;
                let ghost k = key@;
                let _ = e.remove(i);
                proof {
                    assert(e@ =~= old_e.remove(i as int));
                    assert(keys_unique(e@)) by {
                        assert forall|a: int, b: int| 0 <= a < b < e@.len() implies (#[trigger] e@[a]).0@ != (#[trigger] e@[b]).0@ by {
                            let oa = if a < i { a } else { a + 1 };
                            let ob = if b < i { b } else { b + 1 };
                            assert(e@[a] == old_e[oa] && e@[b] == old_e[ob]);
                        }
                    }
                    lemma_entries_map(e@);
                    assert(entries_map(e@) =~= entries_map(old_e).remove(k)) by {
                        assert forall|x: Seq<char>| #[trigger] entries_map(e@).contains_key(x) <==> entries_map(old_e).remove(k).contains_key(x) by {
                            if entries_map(e@).contains_key(x) {
                                let j = choose|j: int| 0 <= j < e@.len() && e@[j].0@ == x;
                                let oj = if j < i { j } else { j + 1 };
                                assert(e@[j] == old_e[oj]);
                            }
                            if entries_map(old_e).contains_key(x) && x != k {
                                let j = choose|j: int| 0 <= j < old_e.len() && old_e[j].0@ == x;
                                let nj = if j < i { j } else { j - 1 };
                                assert(e@[nj] == old_e[j]);
                            }
                        }
                        assert forall|x: Seq<char>| #[trigger] entries_map(e@).contains_key(x) implies entries_map(e@)[x] == entries_map(old_e).remove(k)[x] by {
                            let j = choose|j: int| 0 <= j < e@.len() && e@[j].0@ == x;
                            let oj = if j < i { j } else { j + 1 };
                            assert(e@[j] == old_e[oj]);
                        }
                    }
                }
                self.entries = e;
            },
        }
    }

    /// Number of keys.
    pub fn len(&self) -> (n: usize)
        ensures
            n == self@.dom().len(),
    {
        proof {
            use_type_invariant(self);
            lemma_entries_len(self.entries@);
        }
        self.entries.len()
    }

    /// The entries, for serialisation; each key appears once.
    pub fn to_pairs(&self) -> (r: Vec<(String, V)>)
        ensures
            keys_unique(r@),
            entries_map(r@) == self@,
    {
        proof {
            use_type_invariant(self);
        }
        let mut r: Vec<(String, V)> = Vec::new();
        let mut i: usize = 0;
        while i < self.entries.len()
            invariant
                i <= self.entries@.len(),
                r@ == self.entries@.take(i as int),
            decreases self.entries@.len() - i,
        {
            let (k, v) = (self.entries[i].0.clone(), self.entries[i].1);
            r.push((k, v));
            assert(r@ =~= self.entries@.take(i + 1));
            i = i + 1;
        }
        assert(self.entries@.take(self.entries@.len() as int) =~= self.entries@);
        r
    }
}

/// With distinct keys, the map has as many keys as there are entries.
proof fn lemma_entries_len<V>(e: Seq<(String, V)>)
    requires
        keys_unique(e),
    ensures
        entries_map(e).dom().finite(),
        entries_map(e).dom().len() == e.len(),
    decreases e.len(),
{
    if e.len() > 0 {
        let p = e.drop_last();
        assert(keys_unique(p)) by {
            assert forall|i: int, j: int| 0 <= i < j < p.len() implies (#[trigger] p[i]).0@ != (#[trigger] p[j]).0@ by {
                assert(p[i] == e[i] && p[j] == e[j]);
            }
        }
        lemma_entries_len(p);
        lemma_entries_map(p);
        assert(!entries_map(p).contains_key(e.last().0@)) by {
            if entries_map(p).contains_key(e.last().0@) {
                let j = choose|j: int| 0 <= j < p.len() && p[j].0@ == e.last().0@;
                assert(p[j] == e[j]);
            }
        }
    }
}

} // verus!
