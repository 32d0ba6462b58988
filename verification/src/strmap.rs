use vstd::prelude::*;
use vstd::map::*;

verus! {

/// The map that a sequence of key/value entries denotes: later entries win.
pub open spec fn map_of<V>(entries: Seq<(String, V)>) -> Map<Seq<char>, V>
    decreases entries.len(),
{
    if entries.len() == 0 {
        Map::empty()
    } else {
        map_of(entries.drop_last()).insert(entries.last().0@, entries.last().1)
    }
}

/// No two entries share a key.
pub open spec fn unique_keys<V>(entries: Seq<(String, V)>) -> bool {
    forall|i: int, j: int|
        0 <= i < j < entries.len() ==> (#[trigger] entries[i]).0@ != (#[trigger] entries[j]).0@
}

proof fn lemma_map_of_contains<V>(s: Seq<(String, V)>, k: Seq<char>)
    ensures
        map_of(s).contains_key(k) <==> exists|i: int| 0 <= i < s.len() && (#[trigger] s[i]).0@ == k,
    decreases s.len(),
{
    if s.len() > 0 {
        lemma_map_of_contains(s.drop_last(), k);
        if s.last().0@ == k {
            assert(s[s.len() - 1].0@ == k);
        } else if map_of(s).contains_key(k) {
            let i = choose|i: int| 0 <= i < s.drop_last().len() && (#[trigger] s.drop_last()[i]).0@ == k;
            assert(s[i].0@ == k);
        } else {
            assert forall|i: int| 0 <= i < s.len() implies (#[trigger] s[i]).0@ != k by {
                if i < s.len() - 1 {
                    assert(s.drop_last()[i] == s[i]);
                }
            }
        }
    }
}

proof fn lemma_map_of_index<V>(s: Seq<(String, V)>, i: int)
    requires
        unique_keys(s),
        0 <= i < s.len(),
    ensures
        map_of(s).contains_key(s[i].0@),
        map_of(s)[s[i].0@] == s[i].1,
    decreases s.len(),
{
    if i == s.len() - 1 {
    } else {
        assert(s.drop_last()[i] == s[i]);
        assert(unique_keys(s.drop_last())) by {
            assert forall|p: int, q: int|
                0 <= p < q < s.drop_last().len() implies (#[trigger] s.drop_last()[p]).0@
                != (#[trigger] s.drop_last()[q]).0@ by {
                assert(s.drop_last()[p] == s[p]);
                assert(s.drop_last()[q] == s[q]);
            }
        }
        lemma_map_of_index(s.drop_last(), i);
        assert(s.last().0@ != s[i].0@);
    }
}

proof fn lemma_unique_remove<V>(s: Seq<(String, V)>, i: int)
    requires
        unique_keys(s),
        0 <= i < s.len(),
    ensures
        unique_keys(s.remove(i)),
{
    let t = s.remove(i);
    assert forall|p: int, q: int|
        0 <= p < q < t.len() implies (#[trigger] t[p]).0@ != (#[trigger] t[q]).0@ by {
        let p0: int = if p < i { p } else { p + 1 };
        let q0: int = if q < i { q } else { q + 1 };
        assert(t[p] == s[p0]);
        assert(t[q] == s[q0]);
    }
}

proof fn lemma_map_of_remove<V>(s: Seq<(String, V)>, i: int)
    requires
        unique_keys(s),
        0 <= i < s.len(),
    ensures
        map_of(s.remove(i)) == map_of(s).remove(s[i].0@),
{
    let k = s[i].0@;
    let t = s.remove(i);
    lemma_unique_remove(s, i);
    assert_maps_equal!(map_of(t), map_of(s).remove(k), key => {
        lemma_map_of_contains(t, key);
        lemma_map_of_contains(s, key);
        if map_of(t).contains_key(key) {
            let j = choose|j: int| 0 <= j < t.len() && (#[trigger] t[j]).0@ == key;
            let j0: int = if j < i { j } else { j + 1 };
            assert(t[j] == s[j0]);
            assert(s[j0].0@ == key);
            if j0 < i {
                assert(s[j0].0@ != s[i].0@);
            } else {
                assert(s[i].0@ != s[j0].0@);
            }
            lemma_map_of_index(t, j);
            lemma_map_of_index(s, j0);
            assert(map_of(s).remove(k).contains_key(key));
            assert(map_of(t)[key] == map_of(s).remove(k)[key]);
        }
        if map_of(s).remove(k).contains_key(key) {
            let j0 = choose|j0: int| 0 <= j0 < s.len() && (#[trigger] s[j0]).0@ == key;
            assert(key != k);
            assert(j0 != i);
            let j: int = if j0 < i { j0 } else { j0 - 1 };
            assert(t[j] == s[j0]);
            assert(t[j].0@ == key);
            assert(map_of(t).contains_key(key));
        }
    });
}

proof fn lemma_map_of_push<V>(s: Seq<(String, V)>, p: (String, V))
    ensures
        map_of(s.push(p)) == map_of(s).insert(p.0@, p.1),
{
    assert(s.push(p).drop_last() =~= s);
    assert(s.push(p).last() == p);
}

/// Association list from `String` keys to values, each key held at most once;
/// it backs every keyed table in this crate.
pub struct StrMap<V> {
    entries: Vec<(String, V)>,
}

impl<V> View for StrMap<V> {
    type V = Map<Seq<char>, V>;

    closed spec fn view(&self) -> Map<Seq<char>, V> {
        map_of(self.entries@)
    }
}

impl<V> StrMap<V> {
    /// Keys are pairwise distinct.
    pub closed spec fn inv(&self) -> bool {
        unique_keys(self.entries@)
    }

    pub fn new() -> (m: StrMap<V>)
        ensures
            m.inv(),
            m@ == Map::<Seq<char>, V>::empty(),
    {
        StrMap { entries: Vec::new() }
    }

    fn find(&self, k: &String) -> (r: Option<usize>)
        ensures
            match r {
                Some(i) => i < self.entries@.len() && self.entries@[i as int].0@ == k@,
                None => forall|j: int|
                    0 <= j < self.entries@.len() ==> (#[trigger] self.entries@[j]).0@ != k@,
            },
    {
        let mut i: usize = 0;
        while i < self.entries.len()
            invariant
                i <= self.entries@.len(),
                forall|j: int| 0 <= j < i ==> (#[trigger] self.entries@[j]).0@ != k@,
            decreases self.entries@.len() - i,
        {
            if self.entries[i].0 == *k {
                return Some(i);
            }
            i = i + 1;
        }
        None
    }

    /// Binds `k` to `v`, replacing any prior binding.
    pub fn insert(&mut self, k: String, v: V)
        requires
            old(self).inv(),
        ensures
            final(self).inv(),
            final(self)@ == old(self)@.insert(k@, v),
    {
        let ghost s0 = self.entries@;
        match self.find(&k) {
            Some(i) => {
                self.entries.remove(i);
                proof {
                    lemma_map_of_remove(s0, i as int);
                    lemma_unique_remove(s0, i as int);
                }
                let ghost s1 = self.entries@;
                self.entries.push((k, v));
                proof {
                    lemma_map_of_push(s1, (k, v));
                    assert forall|p: int, q: int|
                        0 <= p < q < self.entries@.len() implies (#[trigger] self.entries@[p]).0@
                        != (#[trigger] self.entries@[q]).0@ by {
                        if q < self.entries@.len() - 1 {
                            assert(self.entries@[p] == s1[p]);
                            assert(self.entries@[q] == s1[q]);
                        } else {
                            assert(self.entries@[p] == s1[p]);
                            lemma_map_of_contains(s1, self.entries@[q].0@);
                            if s1[p].0@ == k@ {
                                lemma_map_of_index(s1, p);
                            }
                        }
                    }
                    assert(map_of(s0).remove(k@).insert(k@, v) =~= map_of(s0).insert(k@, v));
                }
            },
            None => {
                self.entries.push((k, v));
                proof {
                    lemma_map_of_push(s0, (k, v));
                    assert forall|p: int, q: int|
                        0 <= p < q < self.entries@.len() implies (#[trigger] self.entries@[p]).0@
                        != (#[trigger] self.entries@[q]).0@ by {
                        if q == self.entries@.len() - 1 {
                            assert(self.entries@[p] == s0[p]);
                        } else {
                            assert(self.entries@[p] == s0[p]);
                            assert(self.entries@[q] == s0[q]);
                        }
                    }
                }
            },
        }
    }

    /// Looks the key up without changing the table.
    pub fn get(&self, k: &String) -> (r: Option<&V>)
        requires
            self.inv(),
        ensures
            match r {
                Some(v) => self@.contains_key(k@) && *v == self@[k@],
                None => !self@.contains_key(k@),
            },
    {
        proof {
            lemma_map_of_contains(self.entries@, k@);
        }
        match self.find(k) {
            Some(i) => {
                proof {
                    lemma_map_of_index(self.entries@, i as int);
                }
                Some(&self.entries[i].1)
            },
            None => None,
        }
    }

    /// Removes the binding of `k`, if any, and hands its value back.
    pub fn take(&mut self, k: &String) -> (r: Option<V>)
        requires
            old(self).inv(),
        ensures
            final(self).inv(),
            r matches Some(v) ==> old(self)@.contains_key(k@) && v == old(self)@[k@] && final(self)@
                == old(self)@.remove(k@),
            r is None ==> !old(self)@.contains_key(k@) && final(self)@ == old(self)@,
    {
        proof {
            lemma_map_of_contains(self.entries@, k@);
        }
        match self.find(k) {
            Some(i) => {
                proof {
                    lemma_map_of_index(self.entries@, i as int);
                    lemma_map_of_remove(self.entries@, i as int);
                    lemma_unique_remove(self.entries@, i as int);
                }
                let p = self.entries.remove(i);
                Some(p.1)
            },
            None => None,
        }
    }
}

} // verus!
