use vstd::prelude::*;

use crate::lang::str_eq;

verus! {

/// Whether some entry of `s` has the key `k`.
pub open spec fn has_key<V>(s: Seq<(String, V)>, k: Seq<char>) -> bool {
    exists|i: int| 0 <= i < s.len() && (#[trigger] s[i]).0@ == k
}

/// No two entries of `s` share a key.
pub open spec fn keys_unique<V>(s: Seq<(String, V)>) -> bool {
    forall|i: int, j: int| 0 <= i < j < s.len() ==> (#[trigger] s[i]).0@ != (#[trigger] s[j]).0@
}

/// The map that a list of entries with unique keys stands for.
pub open spec fn map_of<V>(s: Seq<(String, V)>) -> Map<Seq<char>, V> {
    Map::new(
        |k: Seq<char>| has_key(s, k),
        |k: Seq<char>| s[choose|i: int| 0 <= i < s.len() && (#[trigger] s[i]).0@ == k].1,
    )
}

proof fn lemma_map_of_index<V>(s: Seq<(String, V)>, i: int)
    requires
        keys_unique(s),
        0 <= i < s.len(),
    ensures
        map_of(s).contains_key(s[i].0@),
        map_of(s)[s[i].0@] == s[i].1,
{
    let k = s[i].0@;
    assert(has_key(s, k));
    let j = choose|j: int| 0 <= j < s.len() && (#[trigger] s[j]).0@ == k;
    if j != i {
        if i < j {
            assert(s[i].0@ != s[j].0@);
        } else {
            assert(s[j].0@ != s[i].0@);
        }
    }
}

/// A map from names to values, kept as a list of entries with unique names.
#[derive(Debug)]
pub struct Registry<V> {
    entries: Vec<(String, V)>,
}

impl<V> View for Registry<V> {
    type V = Map<Seq<char>, V>;

    closed spec fn view(&self) -> Map<Seq<char>, V> {
        map_of(self.entries@)
    }
}

impl<V> Registry<V> {
    pub closed spec fn wf(&self) -> bool {
        keys_unique(self.entries@)
    }

    pub fn new() -> (r: Registry<V>)
        ensures
            r.wf(),
            r@ == Map::<Seq<char>, V>::empty(),
    {
        let r = Registry { entries: Vec::new() };
        assert(r@ =~= Map::<Seq<char>, V>::empty());
        r
    }

    fn find(&self, key: &str) -> (r: Option<usize>)
        requires
            self.wf(),
        ensures
            match r {
                Some(i) => i < self.entries@.len() && self.entries@[i as int].0@ == key@,
                None => !has_key(self.entries@, key@),
            },
    {
        let mut i: usize = 0;
        while i < self.entries.len()
            invariant
                i <= self.entries@.len(),
                forall|k: int| 0 <= k < i ==> (#[trigger] self.entries@[k]).0@ != key@,
            decreases self.entries@.len() - i,
        {
            if str_eq(self.entries[i].0.as_str(), key) {
                return Some(i);
            }
            i = i + 1;
        }
        None
    }

    /// The value under `key`, if any.
    pub fn get(&self, key: &str) -> (r: Option<&V>)
        requires
            self.wf(),
        ensures
            match r {
                Some(v) => self@.contains_key(key@) && *v == self@[key@],
                None => !self@.contains_key(key@),
            },
    {
        match self.find(key) {
            Some(i) => {
                proof {
                    lemma_map_of_index(self.entries@, i as int);
                }
                Some(&self.entries[i].1)
            },
            None => None,
        }
    }

    /// Whether a value is held under `key`.
    pub fn contains(&self, key: &str) -> (r: bool)
        requires
            self.wf(),
        ensures
            r == self@.contains_key(key@),
    {
        self.find(key).is_some()
    }

    /// Puts `value` under `key`, replacing what was there.
    pub fn insert(&mut self, key: String, value: V)
        requires
            old(self).wf(),
        ensures
            final(self).wf(),
            final(self)@ == old(self)@.insert(key@, value),
    {
        let ghost k = key@;
        let ghost s0 = self.entries@;
        match self.find(key.as_str()) {
            Some(i) => {
                self.entries.set(i, (key, value));
                let ghost s1 = self.entries@;
                assert(s1 == s0.update(i as int, s1[i as int]));
                assert forall|a: int, b: int| 0 <= a < b < s1.len() implies (#[trigger] s1[a]).0@
                    != (#[trigger] s1[b]).0@ by {
                    if a != i && b != i {
                        assert(s0[a].0@ != s0[b].0@);
                    } else if a == i {
                        assert(s0[a].0@ != s0[b].0@);
                    } else {
                        assert(s0[a].0@ != s0[b].0@);
                    }
                }
                assert forall|q: Seq<char>| #[trigger] has_key(s1, q) <==> has_key(s0, q) || q == k by {
                    if has_key(s0, q) {
                        let j = choose|j: int| 0 <= j < s0.len() && (#[trigger] s0[j]).0@ == q;
                        assert(s1[j].0@ == q);
                    }
                    if has_key(s1, q) {
                        let j = choose|j: int| 0 <= j < s1.len() && (#[trigger] s1[j]).0@ == q;
                        assert(s0[j].0@ == q);
                    }
                    if q == k {
                        assert(s1[i as int].0@ == q);
                    }
                }
                assert forall|q: Seq<char>| #[trigger] map_of(s1).contains_key(q) implies map_of(s1)[q]
                    == old(self)@.insert(k, value)[q] by {
                    let j = choose|j: int| 0 <= j < s1.len() && (#[trigger] s1[j]).0@ == q;
                    lemma_map_of_index(s1, j);
                    if j != i {
                        lemma_map_of_index(s0, j);
                    }
                }
                assert(self@ =~= old(self)@.insert(k, value));
            },
            None => {
                self.entries.push((key, value));
                let ghost s1 = self.entries@;
                assert forall|a: int, b: int| 0 <= a < b < s1.len() implies (#[trigger] s1[a]).0@
                    != (#[trigger] s1[b]).0@ by {
                    if b == s0.len() {
                        assert(s1[a] == s0[a]);
                    } else {
                        assert(s0[a].0@ != s0[b].0@);
                    }
                }
                assert forall|q: Seq<char>| #[trigger] has_key(s1, q) <==> has_key(s0, q) || q == k by {
                    if has_key(s0, q) {
                        let j = choose|j: int| 0 <= j < s0.len() && (#[trigger] s0[j]).0@ == q;
                        assert(s1[j].0@ == q);
                    }
                    if has_key(s1, q) {
                        let j = choose|j: int| 0 <= j < s1.len() && (#[trigger] s1[j]).0@ == q;
                        if j < s0.len() {
                            assert(s0[j].0@ == q);
                        }
                    }
                    if q == k {
                        assert(s1[s0.len() as int].0@ == q);
                    }
                }
                assert forall|q: Seq<char>| #[trigger] map_of(s1).contains_key(q) implies map_of(s1)[q]
                    == old(self)@.insert(k, value)[q] by {
                    let j = choose|j: int| 0 <= j < s1.len() && (#[trigger] s1[j]).0@ == q;
                    lemma_map_of_index(s1, j);
                    if j < s0.len() {
                        lemma_map_of_index(s0, j);
                    }
                }
                assert(self@ =~= old(self)@.insert(k, value));
            },
        }
    }

    /// Takes out the value under `key`; the registry is unchanged when there is none.
    pub fn remove(&mut self, key: &str) -> (r: Option<V>)
        requires
            old(self).wf(),
        ensures
            final(self).wf(),
            old(self)@.contains_key(key@) ==> r == Some(old(self)@[key@]) && final(self)@ == old(
                self,
            )@.remove(key@),
            !old(self)@.contains_key(key@) ==> r is None && *final(self) == *old(self),
    {
        let ghost s0 = self.entries@;
        match self.find(key) {
            Some(i) => {
                proof {
                    lemma_map_of_index(s0, i as int);
                }
                let (_, v) = self.entries.remove(i);
                let ghost s1 = self.entries@;
                assert(s1 == s0.remove(i as int));
                assert forall|a: int, b: int| 0 <= a < b < s1.len() implies (#[trigger] s1[a]).0@
                    != (#[trigger] s1[b]).0@ by {
                    let a0 = if a < i { a } else { a + 1 };
                    let b0 = if b < i { b } else { b + 1 };
                    assert(s1[a] == s0[a0]);
                    assert(s1[b] == s0[b0]);
                    assert(s0[a0].0@ != s0[b0].0@);
                }
                assert forall|q: Seq<char>| #[trigger] has_key(s1, q) <==> has_key(s0, q) && q != key@ by {
                    if has_key(s0, q) && q != key@ {
                        let j = choose|j: int| 0 <= j < s0.len() && (#[trigger] s0[j]).0@ == q;
                        assert(j != i);
                        let j1 = if j < i { j } else { j - 1 };
                        assert(s1[j1] == s0[j]);
                    }
                    if has_key(s1, q) {
                        let j = choose|j: int| 0 <= j < s1.len() && (#[trigger] s1[j]).0@ == q;
                        let j0 = if j < i { j } else { j + 1 };
                        assert(s1[j] == s0[j0]);
                        if j0 < i {
                            assert(s0[j0].0@ != s0[i as int].0@);
                        } else {
                            assert(s0[i as int].0@ != s0[j0].0@);
                        }
                    }
                }
                assert forall|q: Seq<char>| #[trigger] map_of(s1).contains_key(q) implies map_of(s1)[q]
                    == old(self)@.remove(key@)[q] by {
                    let j = choose|j: int| 0 <= j < s1.len() && (#[trigger] s1[j]).0@ == q;
                    let j0 = if j < i { j } else { j + 1 };
                    assert(s1[j] == s0[j0]);
                    lemma_map_of_index(s1, j);
                    lemma_map_of_index(s0, j0);
                }
                assert(self@ =~= old(self)@.remove(key@));
                Some(v)
            },
            None => None,
        }
    }
}

} // verus!
