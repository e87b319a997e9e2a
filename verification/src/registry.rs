//! A small map from string keys to values, kept as a list of entries in
//! which no key occurs twice.
use vstd::prelude::*;

verus! {

/// Whether `k` is the key of some entry of `e`.
pub open spec fn has_key<V>(e: Seq<(String, V)>, k: Seq<char>) -> bool {
    exists|i: int| 0 <= i < e.len() && (#[trigger] e[i]).0@ == k
}

/// The index of the entry of `e` whose key is `k` (meaningful when it has one).
pub open spec fn index_of_key<V>(e: Seq<(String, V)>, k: Seq<char>) -> int {
    choose|i: int| 0 <= i < e.len() && (#[trigger] e[i]).0@ == k
}

/// The map that a list of entries stands for.
pub open spec fn map_of<V>(e: Seq<(String, V)>) -> Map<Seq<char>, V> {
    Map::new(|k: Seq<char>| has_key(e, k), |k: Seq<char>| e[index_of_key(e, k)].1)
}

/// No key occurs twice in `e`.
pub open spec fn keys_distinct<V>(e: Seq<(String, V)>) -> bool {
    forall|i: int, j: int|
        0 <= i < e.len() && 0 <= j < e.len() && i != j ==> (#[trigger] e[i]).0@ != (#[trigger] e[j]).0@
}

/// The keys of the entries, in the order in which they are kept.
pub open spec fn keys_of<V>(e: Seq<(String, V)>) -> Seq<Seq<char>> {
    Seq::new(e.len(), |i: int| e[i].0@)
}

proof fn lemma_lookup<V>(e: Seq<(String, V)>, i: int)
    requires
        keys_distinct(e),
        0 <= i < e.len(),
    ensures
        map_of(e).contains_key(e[i].0@),
        map_of(e)[e[i].0@] == e[i].1,
{
    let k = e[i].0@;
    assert(has_key(e, k));
    let j = index_of_key(e, k);
    assert(e[j].0@ == k);
}

proof fn lemma_push<V>(e: Seq<(String, V)>, key: String, v: V)
    requires
        keys_distinct(e),
        !has_key(e, key@),
    ensures
        keys_distinct(e.push((key, v))),
        map_of(e.push((key, v))) == map_of(e).insert(key@, v),
{
    let e2 = e.push((key, v));
    assert forall|k: Seq<char>| has_key(e2, k) == (has_key(e, k) || k == key@) by {
        if has_key(e, k) {
            let i = choose|i: int| 0 <= i < e.len() && (#[trigger] e[i]).0@ == k;
            assert(e2[i] == e[i]);
        }
        if k == key@ {
            assert(e2[e.len() as int].0@ == k);
        }
        if has_key(e2, k) && k != key@ {
            let i = choose|i: int| 0 <= i < e2.len() && (#[trigger] e2[i]).0@ == k;
            assert(e[i] == e2[i]);
        }
    }
    assert forall|k: Seq<char>| #[trigger] map_of(e2).contains_key(k) implies map_of(e2)[k] == map_of(
        e,
    ).insert(key@, v)[k] by {
        let j = index_of_key(e2, k);
        if k == key@ {
            assert(e2[j].0@ == k);
            assert(j == e.len());
        } else {
            let i = index_of_key(e, k);
            assert(e[i].0@ == k);
            assert(e2[i] == e[i]);
            assert(j == i);
        }
    }
    assert(map_of(e2) =~= map_of(e).insert(key@, v));
}

proof fn lemma_update<V>(e: Seq<(String, V)>, i: int, key: String, v: V)
    requires
        keys_distinct(e),
        0 <= i < e.len(),
        e[i].0@ == key@,
    ensures
        keys_distinct(e.update(i, (key, v))),
        map_of(e.update(i, (key, v))) == map_of(e).insert(key@, v),
{
    let e2 = e.update(i, (key, v));
    assert forall|k: Seq<char>| has_key(e2, k) == has_key(e, k) by {
        if has_key(e, k) {
            let j = choose|j: int| 0 <= j < e.len() && (#[trigger] e[j]).0@ == k;
            assert(e2[j].0@ == k);
        }
        if has_key(e2, k) {
            let j = choose|j: int| 0 <= j < e2.len() && (#[trigger] e2[j]).0@ == k;
            assert(e[j].0@ == k);
        }
    }
    assert(has_key(e, key@)) by {
        assert(e[i].0@ == key@);
    }
    assert forall|k: Seq<char>| #[trigger] map_of(e2).contains_key(k) implies map_of(e2)[k] == map_of(
        e,
    ).insert(key@, v)[k] by {
        let j = index_of_key(e2, k);
        if k == key@ {
            assert(e2[j].0@ == k);
            assert(j == i);
        } else {
            let l = index_of_key(e, k);
            assert(e[l].0@ == k);
            assert(e2[l] == e[l]);
            assert(j == l);
        }
    }
    assert(map_of(e2) =~= map_of(e).insert(key@, v));
}

proof fn lemma_remove<V>(e: Seq<(String, V)>, i: int)
    requires
        keys_distinct(e),
        0 <= i < e.len(),
    ensures
        keys_distinct(e.remove(i)),
        map_of(e.remove(i)) == map_of(e).remove(e[i].0@),
{
    let e2 = e.remove(i);
    let key = e[i].0@;
    assert forall|a: int, b: int|
        0 <= a < e2.len() && 0 <= b < e2.len() && a != b implies (#[trigger] e2[a]).0@ != (
    #[trigger] e2[b]).0@ by {
        let a1 = if a < i { a } else { a + 1 };
        let b1 = if b < i { b } else { b + 1 };
        assert(e2[a] == e[a1]);
        assert(e2[b] == e[b1]);
    }
    assert forall|k: Seq<char>| has_key(e2, k) == (has_key(e, k) && k != key) by {
        if has_key(e2, k) {
            let j = choose|j: int| 0 <= j < e2.len() && (#[trigger] e2[j]).0@ == k;
            let j1 = if j < i { j } else { j + 1 };
            assert(e2[j] == e[j1]);
            assert(e[j1].0@ == k);
        }
        if has_key(e, k) && k != key {
            let j = choose|j: int| 0 <= j < e.len() && (#[trigger] e[j]).0@ == k;
            assert(j != i);
            let j2 = if j < i { j } else { j - 1 };
            assert(e2[j2] == e[j]);
        }
    }
    assert forall|k: Seq<char>| #[trigger] map_of(e2).contains_key(k) implies map_of(e2)[k] == map_of(
        e,
    ).remove(key)[k] by {
        let j = index_of_key(e2, k);
        assert(e2[j].0@ == k);
        let j1 = if j < i { j } else { j + 1 };
        assert(e2[j] == e[j1]);
        let l = index_of_key(e, k);
        assert(e[l].0@ == k);
        assert(l == j1);
    }
    assert(map_of(e2) =~= map_of(e).remove(key));
}

/// A map from string keys to values.
pub struct Registry<V> {
    entries: Vec<(String, V)>,
}

impl<V> View for Registry<V> {
    type V = Map<Seq<char>, V>;

    closed spec fn view(&self) -> Map<Seq<char>, V> {
        map_of(self.entries@)
    }
}

impl<V> Registry<V> {
    #[verifier::type_invariant]
    spec fn no_key_twice(self) -> bool {
        keys_distinct(self.entries@)
    }

    /// The keys of the map, each once, in the order in which the entries are kept.
    pub closed spec fn keys(&self) -> Seq<Seq<char>> {
        keys_of(self.entries@)
    }

    /// An empty map.
    pub fn new() -> (r: Self)
        ensures
            r@ == Map::<Seq<char>, V>::empty(),
            r.keys().len() == 0,
    {
        let r = Registry { entries: Vec::new() };
        assert(r@ =~= Map::<Seq<char>, V>::empty());
        r
    }

    fn position(&self, key: &String) -> (r: Option<usize>)
        ensures
            match r {
                Some(i) => i < self.entries@.len() && self.entries@[i as int].0@ == key@,
                None => !has_key(self.entries@, key@),
            },
    {
        let n = self.entries.len();
        let mut i: usize = 0;
        while i < n
            invariant
                n == self.entries@.len(),
                i <= n,
                forall|j: int| 0 <= j < i ==> (#[trigger] self.entries@[j]).0@ != key@,
            decreases n - i,
        {
            if self.entries[i].0 == *key {
                return Some(i);
            }
            i = i + 1;
        }
        None
    }

    /// Whether the map has an entry for `key`.
    pub fn contains_key(&self, key: &String) -> (r: bool)
        ensures
            r == self@.contains_key(key@),
    {
        match self.position(key) {
            Some(_) => true,
            None => false,
        }
    }

    /// The value kept under `key`, if any.
    pub fn get(&self, key: &String) -> (r: Option<&V>)
        ensures
            match r {
                Some(v) => self@.contains_key(key@) && *v == self@[key@],
                None => !self@.contains_key(key@),
            },
    {
        proof {
            use_type_invariant(self);
        }
        match self.position(key) {
            Some(i) => {
                proof {
                    lemma_lookup(self.entries@, i as int);
                }
                Some(&self.entries[i].1)
            },
            None => None,
        }
    }

    /// Keeps `value` under `key`, in place of what was kept there before.
    pub fn insert(&mut self, key: String, value: V)
        ensures
            final(self)@ == old(self)@.insert(key@, value),
    {
        proof {
            use_type_invariant(&*self);
        }
        let found = self.position(&key);
        let mut entries: Vec<(String, V)> = Vec::new();
        std::mem::swap(&mut entries, &mut self.entries);
        match found {
            Some(i) => {
                proof {
                    lemma_update(entries@, i as int, key, value);
                }
                entries.set(i, (key, value));
            },
            None => {
                proof {
                    lemma_push(entries@, key, value);
                }
                entries.push((key, value));
            },
        }
        self.entries = entries;
    }

    /// Takes the entry for `key` out of the map and hands back its value, if there was one.
    pub fn remove(&mut self, key: &String) -> (r: Option<V>)
        ensures
            final(self)@ == old(self)@.remove(key@),
            r is None ==> final(self)@ == old(self)@,
            match r {
                Some(v) => old(self)@.contains_key(key@) && v == old(self)@[key@],
                None => !old(self)@.contains_key(key@),
            },
    {
        proof {
            use_type_invariant(&*self);
        }
        match self.position(key) {
            Some(i) => {
                let mut entries: Vec<(String, V)> = Vec::new();
                std::mem::swap(&mut entries, &mut self.entries);
                proof {
                    lemma_lookup(entries@, i as int);
                    lemma_remove(entries@, i as int);
                }
                let (_, v) = entries.remove(i);
                self.entries = entries;
                Some(v)
            },
            None => {
                proof {
                    assert(old(self)@.remove(key@) =~= old(self)@);
                }
                None
            },
        }
    }

    /// The number of entries.
    /// The key sequence holds each key of the map exactly once, and nothing else.
    pub fn count(&self) -> (n: usize)
        ensures
            n == self.keys().len(),
            self.keys().no_duplicates(),
            forall|i: int| 0 <= i < self.keys().len() ==> self@.contains_key(#[trigger] self.keys()[i]),
            forall|k: Seq<char>| #[trigger] self@.contains_key(k) ==> self.keys().contains(k),
            self@.dom().finite(),
            self@.len() == n,
    {
        proof {
            use_type_invariant(self);
            let e = self.entries@;
            assert forall|i: int| 0 <= i < self.keys().len() implies self@.contains_key(
                #[trigger] self.keys()[i],
            ) by {
                lemma_lookup(e, i);
            }
            assert forall|k: Seq<char>| #[trigger] self@.contains_key(k) implies self.keys().contains(k) by {
                let i = index_of_key(e, k);
                assert(self.keys()[i] == k);
            }
            assert(self@.dom() =~= self.keys().to_set());
            vstd::seq_lib::seq_to_set_is_finite(self.keys());
            self.keys().unique_seq_to_set();
        }
        self.entries.len()
    }

    /// The entry at position `i` of the key sequence.
    pub fn entry(&self, i: usize) -> (r: (&String, &V))
        requires
            i < self.keys().len(),
        ensures
            r.0@ == self.keys()[i as int],
            self@.contains_key(r.0@),
            *r.1 == self@[r.0@],
    {
        proof {
            use_type_invariant(self);
            lemma_lookup(self.entries@, i as int);
        }
        let e = &self.entries[i];
        (&e.0, &e.1)
    }
}

} // verus!
