use vstd::prelude::*;

verus! {

/// Whether no two pairs of `s` share a key.
pub open spec fn keys_unique<T>(s: Seq<(Seq<char>, T)>) -> bool {
    forall|i: int, j: int| 0 <= i < s.len() && 0 <= j < s.len() && i != j ==> s[i].0 != s[j].0
}

/// Whether some pair of `s` has key `k`.
pub open spec fn has_key<T>(s: Seq<(Seq<char>, T)>, k: Seq<char>) -> bool {
    exists|i: int| 0 <= i < s.len() && s[i].0 == k
}

/// The map that a sequence of pairs with unique keys stands for.
pub open spec fn keyed<T>(s: Seq<(Seq<char>, T)>) -> Map<Seq<char>, T> {
    Map::new(
        |k: Seq<char>| has_key(s, k),
        |k: Seq<char>| s[choose|i: int| 0 <= i < s.len() && s[i].0 == k].1,
    )
}

/// Where keys are unique, the map holds each pair of the sequence.
pub proof fn lemma_keyed_at<T>(s: Seq<(Seq<char>, T)>, i: int)
    requires
        keys_unique(s),
        0 <= i < s.len(),
    ensures
        keyed(s).contains_key(s[i].0),
        keyed(s)[s[i].0] == s[i].1,
{
    assert(has_key(s, s[i].0));
    let j = choose|j: int| 0 <= j < s.len() && s[j].0 == s[i].0;
    assert(j == i);
}


/// Appending a pair with a new key inserts it into the map.
pub proof fn lemma_keyed_push<T>(s: Seq<(Seq<char>, T)>, p: (Seq<char>, T))
    requires
        keys_unique(s),
        !has_key(s, p.0),
    ensures
        keys_unique(s.push(p)),
        keyed(s.push(p)) == keyed(s).insert(p.0, p.1),
{
    let t = s.push(p);
    assert forall|i: int, j: int| 0 <= i < t.len() && 0 <= j < t.len() && i != j implies t[i].0 != t[j].0 by {
        if i < s.len() && j < s.len() {
            assert(t[i] == s[i] && t[j] == s[j]);
        } else if i < s.len() {
            assert(t[i] == s[i]);
        } else {
            assert(t[j] == s[j]);
        }
    }
    assert forall|k: Seq<char>| has_key(t, k) == (has_key(s, k) || k == p.0) by {
        if has_key(s, k) {
            let i = choose|i: int| 0 <= i < s.len() && s[i].0 == k;
            assert(t[i] == s[i]);
        }
        if k == p.0 {
            assert(t[s.len() as int] == p);
        }
        if has_key(t, k) && k != p.0 {
            let i = choose|i: int| 0 <= i < t.len() && t[i].0 == k;
            assert(t[i] == s[i]);
        }
    }
    assert forall|k: Seq<char>| #[trigger] keyed(t).contains_key(k) implies keyed(t)[k] == keyed(s).insert(p.0, p.1)[k] by {
        let i = choose|i: int| 0 <= i < t.len() && t[i].0 == k;
        lemma_keyed_at(t, i);
        if i < s.len() {
            assert(t[i] == s[i]);
            lemma_keyed_at(s, i);
        }
    }
    assert(keyed(t) =~= keyed(s).insert(p.0, p.1));
}

/// Replacing the value of a pair in place replaces it in the map.
pub proof fn lemma_keyed_update<T>(s: Seq<(Seq<char>, T)>, i: int, v: T)
    requires
        keys_unique(s),
        0 <= i < s.len(),
    ensures
        keys_unique(s.update(i, (s[i].0, v))),
        keyed(s.update(i, (s[i].0, v))) == keyed(s).insert(s[i].0, v),
{
    let t = s.update(i, (s[i].0, v));
    assert forall|a: int, b: int| 0 <= a < t.len() && 0 <= b < t.len() && a != b implies t[a].0 != t[b].0 by {
        assert(t[a].0 == s[a].0 && t[b].0 == s[b].0);
    }
    assert forall|k: Seq<char>| has_key(t, k) == has_key(s, k) by {
        if has_key(s, k) {
            let j = choose|j: int| 0 <= j < s.len() && s[j].0 == k;
            assert(t[j].0 == s[j].0);
        }
        if has_key(t, k) {
            let j = choose|j: int| 0 <= j < t.len() && t[j].0 == k;
            assert(t[j].0 == s[j].0);
        }
    }
    assert forall|k: Seq<char>| #[trigger] keyed(t).contains_key(k) implies keyed(t)[k] == keyed(s).insert(s[i].0, v)[k] by {
        let j = choose|j: int| 0 <= j < t.len() && t[j].0 == k;
        lemma_keyed_at(t, j);
        if j != i {
            lemma_keyed_at(s, j);
        }
    }
    assert(keyed(t) =~= keyed(s).insert(s[i].0, v));
}

/// Taking a pair out of the sequence removes its key from the map.
pub proof fn lemma_keyed_remove<T>(s: Seq<(Seq<char>, T)>, i: int)
    requires
        keys_unique(s),
        0 <= i < s.len(),
    ensures
        keys_unique(s.remove(i)),
        keyed(s.remove(i)) == keyed(s).remove(s[i].0),
{
    let t = s.remove(i);
    assert forall|a: int, b: int| 0 <= a < t.len() && 0 <= b < t.len() && a != b implies t[a].0 != t[b].0 by {
        let a2 = if a < i { a } else { a + 1 };
        let b2 = if b < i { b } else { b + 1 };
        assert(t[a] == s[a2] && t[b] == s[b2]);
    }
    assert forall|k: Seq<char>| has_key(t, k) == (has_key(s, k) && k != s[i].0) by {
        if has_key(s, k) && k != s[i].0 {
            let j = choose|j: int| 0 <= j < s.len() && s[j].0 == k;
            if j < i {
                assert(t[j] == s[j]);
            } else {
                assert(t[j - 1] == s[j]);
            }
        }
        if has_key(t, k) {
            let j = choose|j: int| 0 <= j < t.len() && t[j].0 == k;
            let j2 = if j < i { j } else { j + 1 };
            assert(t[j] == s[j2]);
        }
    }
    assert forall|k: Seq<char>| #[trigger] keyed(t).contains_key(k) implies keyed(t)[k] == keyed(s).remove(s[i].0)[k] by {
        let j = choose|j: int| 0 <= j < t.len() && t[j].0 == k;
        let j2 = if j < i { j } else { j + 1 };
        assert(t[j] == s[j2]);
        lemma_keyed_at(t, j);
        lemma_keyed_at(s, j2);
    }
    assert(keyed(t) =~= keyed(s).remove(s[i].0));
}

/// A map from string keys to values, held as a vector of pairs whose keys are
/// unique. Its view is the map that the pairs stand for.
#[derive(Clone, Debug)]
pub struct Entries<V> {
    pub(crate) pairs: Vec<(String, V)>,
}

impl<V: View> View for Entries<V> {
    type V = Map<Seq<char>, V::V>;

    open(crate) spec fn view(&self) -> Map<Seq<char>, V::V> {
        keyed(self.spec_pairs())
    }
}

impl<V: View> Entries<V> {
    /// The pairs as views, in the order in which they are held.
    pub open(crate) spec fn spec_pairs(&self) -> Seq<(Seq<char>, V::V)> {
        self.pairs@.map_values(|p: (String, V)| (p.0@, p.1@))
    }

    pub open(crate) spec fn wf(&self) -> bool {
        keys_unique(self.spec_pairs())
    }

    /// Whether `v` is one of the values held.
    pub open(crate) spec fn holds(&self, v: V) -> bool {
        exists|i: int| 0 <= i < self.pairs@.len() && self.pairs@[i].1 == v
    }

    pub fn new() -> (r: Self)
        ensures
            r.wf(),
            r@ == Map::<Seq<char>, V::V>::empty(),
            r.spec_pairs().len() == 0,
    {
        let r = Entries { pairs: Vec::new() };
        assert(r@ =~= Map::<Seq<char>, V::V>::empty());
        r
    }

    pub fn len(&self) -> (r: usize)
        ensures
            r == self.spec_pairs().len(),
    {
        self.pairs.len()
    }

    /// The key and value at position `i`.
    pub fn entry(&self, i: usize) -> (r: (&String, &V))
        requires
            i < self.spec_pairs().len(),
        ensures
            r.0@ == self.spec_pairs()[i as int].0,
            r.1@ == self.spec_pairs()[i as int].1,
    {
        let p = &self.pairs[i];
        (&p.0, &p.1)
    }

    fn position(&self, key: &String) -> (r: Option<usize>)
        ensures
            match r {
                Some(i) => i < self.spec_pairs().len() && self.spec_pairs()[i as int].0 == key@,
                None => !has_key(self.spec_pairs(), key@),
            },
    {
        let mut i: usize = 0;
        while i < self.pairs.len()
            invariant
                i <= self.pairs@.len(),
                forall|j: int| 0 <= j < i ==> self.spec_pairs()[j].0 != key@,
            decreases self.pairs@.len() - i,
        {
            if self.pairs[i].0 == *key {
                return Some(i);
            }
            i = i + 1;
        }
        None
    }

    pub fn contains(&self, key: &String) -> (r: bool)
        requires
            self.wf(),
        ensures
            r == self@.contains_key(key@),
    {
        self.position(key).is_some()
    }

    pub fn get(&self, key: &String) -> (r: Option<&V>)
        requires
            self.wf(),
        ensures
            r.is_some() == self@.contains_key(key@),
            r.is_some() ==> r.unwrap()@ == self@[key@],
            r.is_some() ==> self.holds(*r.unwrap()),
    {
        match self.position(key) {
            Some(i) => {
                proof {
                    lemma_keyed_at(self.spec_pairs(), i as int);
                }
                Some(&self.pairs[i].1)
            },
            None => None,
        }
    }

    /// Sets the value under `key`, replacing any value it had.
    pub fn insert(&mut self, key: String, value: V)
        requires
            old(self).wf(),
        ensures
            final(self).wf(),
            final(self)@ == old(self)@.insert(key@, value@),
            forall|v: V| #[trigger] final(self).holds(v) ==> old(self).holds(v) || v == value,
    {
        let pos = self.position(&key);
        let ghost s = self.spec_pairs();
        match pos {
            Some(i) => {
                self.pairs.set(i, (key, value));
                proof {
                    lemma_keyed_update(s, i as int, value@);
                    assert(self.spec_pairs() =~= s.update(i as int, (s[i as int].0, value@)));
                    assert forall|v: V| #[trigger] self.holds(v) implies old(self).holds(v) || v == value by {
                        let j = choose|j: int| 0 <= j < self.pairs@.len() && self.pairs@[j].1 == v;
                        if j != i {
                            assert(old(self).pairs@[j].1 == v);
                        }
                    }
                }
            },
            None => {
                let ghost k = key@;
                self.pairs.push((key, value));
                proof {
                    lemma_keyed_push(s, (k, value@));
                    assert(self.spec_pairs() =~= s.push((k, value@)));
                    assert forall|v: V| #[trigger] self.holds(v) implies old(self).holds(v) || v == value by {
                        let j = choose|j: int| 0 <= j < self.pairs@.len() && self.pairs@[j].1 == v;
                        if j < old(self).pairs@.len() {
                            assert(old(self).pairs@[j].1 == v);
                        }
                    }
                }
            },
        }
    }

    /// Takes out the value under `key`, if there is one.
    pub fn remove(&mut self, key: &String) -> (r: Option<V>)
        requires
            old(self).wf(),
        ensures
            final(self).wf(),
            final(self)@ == old(self)@.remove(key@),
            r.is_some() == old(self)@.contains_key(key@),
            r.is_some() ==> r.unwrap()@ == old(self)@[key@],
            r.is_some() ==> old(self).holds(r.unwrap()),
            forall|v: V| #[trigger] final(self).holds(v) ==> old(self).holds(v),
    {
        let ghost s = self.spec_pairs();
        match self.position(key) {
            Some(i) => {
                proof {
                    lemma_keyed_at(s, i as int);
                    lemma_keyed_remove(s, i as int);
                }
                let p = self.pairs.remove(i);
                proof {
                    assert(self.spec_pairs() =~= s.remove(i as int));
                    assert forall|v: V| #[trigger] self.holds(v) implies old(self).holds(v) by {
                        let j = choose|j: int| 0 <= j < self.pairs@.len() && self.pairs@[j].1 == v;
                        if j < i {
                            assert(old(self).pairs@[j].1 == v);
                        } else {
                            assert(old(self).pairs@[j + 1].1 == v);
                        }
                    }
                }
                Some(p.1)
            },
            None => {
                assert(self@ =~= old(self)@.remove(key@));
                None
            },
        }
    }
}

} // verus!
