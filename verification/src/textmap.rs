//! A small map with text keys that keeps the order in which keys came.

use vstd::prelude::*;

use crate::text::same_text;

verus! {

/// The entry `i` has the key `k`.
spec fn holds<V>(entries: Seq<(String, V)>, i: int, k: Seq<char>) -> bool {
    0 <= i < entries.len() && entries[i].0@ == k
}

spec fn keys_of<V>(entries: Seq<(String, V)>) -> Seq<Seq<char>> {
    entries.map_values(|e: (String, V)| e.0@)
}

spec fn map_of<V>(entries: Seq<(String, V)>) -> Map<Seq<char>, V> {
    Map::new(
        |k: Seq<char>| exists|i: int| holds(entries, i, k),
        |k: Seq<char>| entries[choose|i: int| holds(entries, i, k)].1,
    )
}

spec fn distinct<V>(entries: Seq<(String, V)>) -> bool {
    forall|i: int, j: int|
        0 <= i < j < entries.len() ==> (#[trigger] entries[i]).0@ != (#[trigger] entries[j]).0@
}

proof fn lemma_entry<V>(entries: Seq<(String, V)>, i: int)
    requires
        distinct(entries),
        0 <= i < entries.len(),
    ensures
        map_of(entries).contains_key(entries[i].0@),
        map_of(entries)[entries[i].0@] == entries[i].1,
{
    let k = entries[i].0@;
    assert(holds(entries, i, k));
    let j = choose|j: int| holds(entries, j, k);
    assert(j == i) by {
        if j < i {
            assert(entries[j].0@ != entries[i].0@);
        }
        if i < j {
            assert(entries[i].0@ != entries[j].0@);
        }
    }
}

/// A map from texts to values.
#[derive(Clone, Debug)]
pub struct TextMap<V> {
    entries: Vec<(String, V)>,
}

impl<V> View for TextMap<V> {
    type V = Map<Seq<char>, V>;

    closed spec fn view(&self) -> Map<Seq<char>, V> {
        map_of(self.entries@)
    }
}

impl<V> TextMap<V> {
    /// The keys, in the order in which they came.
    pub closed spec fn order(&self) -> Seq<Seq<char>> {
        keys_of(self.entries@)
    }

    /// No key is held twice.
    pub closed spec fn wf(&self) -> bool {
        distinct(self.entries@)
    }

    /// The keys in order are those of the map, each once.
    pub proof fn lemma_order(&self)
        requires
            self.wf(),
        ensures
            self.order().no_duplicates(),
            forall|k: Seq<char>| #[trigger]
                self@.contains_key(k) <==> self.order().contains(k),
            forall|i: int|
                0 <= i < self.order().len() ==> self@.contains_key(#[trigger] self.order()[i]),
    {
        let es = self.entries@;
        assert forall|i: int, j: int|
            0 <= i < self.order().len() && 0 <= j < self.order().len() && i != j
                implies self.order()[i]
            != self.order()[j] by {
            if i < j {
                assert(es[i].0@ != es[j].0@);
            } else {
                assert(es[j].0@ != es[i].0@);
            }
        }
        assert forall|i: int| 0 <= i < self.order().len() implies self@.contains_key(
            #[trigger] self.order()[i],
        ) by {
            lemma_entry(es, i);
        }
        assert forall|k: Seq<char>| #[trigger] self@.contains_key(k) <==> self.order().contains(
            k,
        ) by {
            if self@.contains_key(k) {
                let i = choose|i: int| holds(es, i, k);
                assert(self.order()[i] == k);
            }
            if self.order().contains(k) {
                let i = choose|i: int| 0 <= i < self.order().len() && self.order()[i] == k;
                lemma_entry(es, i);
            }
        }
    }

    /// A map without keys.
    pub fn new() -> (r: Self)
        ensures
            r.wf(),
            r@ == Map::<Seq<char>, V>::empty(),
            r.order() == Seq::<Seq<char>>::empty(),
    {
        let r = TextMap { entries: Vec::new() };
        assert(r@ =~= Map::empty());
        assert(r.order() =~= Seq::empty());
        r
    }

    /// The number of keys.
    pub fn len(&self) -> (r: usize)
        ensures
            r == self.order().len(),
    {
        self.entries.len()
    }

    fn find(&self, key: &str) -> (r: Option<usize>)
        requires
            self.wf(),
        ensures
            r is Some <==> self@.contains_key(key@),
            r matches Some(i) ==> i < self.entries@.len() && self.entries@[i as int].0@ == key@,
            r is None ==> forall|i: int| !holds(self.entries@, i, key@),
    {
        let mut i: usize = 0;
        while i < self.entries.len()
            invariant
                self.wf(),
                i <= self.entries@.len(),
                forall|j: int| 0 <= j < i ==> !holds(self.entries@, j, key@),
            decreases self.entries@.len() - i,
        {
            if same_text(self.entries[i].0.as_str(), key) {
                proof {
                    lemma_entry(self.entries@, i as int);
                }
                return Some(i);
            }
            i = i + 1;
        }
        None
    }

    /// The key is held.
    pub fn contains_key(&self, key: &str) -> (r: bool)
        requires
            self.wf(),
        ensures
            r == self@.contains_key(key@),
    {
        self.find(key).is_some()
    }

    /// The value of a key.
    pub fn get(&self, key: &str) -> (r: Option<&V>)
        requires
            self.wf(),
        ensures
            r is Some <==> self@.contains_key(key@),
            r matches Some(v) ==> *v == self@[key@],
    {
        match self.find(key) {
            None => None,
            Some(i) => {
                proof {
                    lemma_entry(self.entries@, i as int);
                }
                Some(&self.entries[i].1)
            },
        }
    }

    /// The key that came as number `i`, with its value.
    pub fn entry_at(&self, i: usize) -> (r: (&str, &V))
        requires
            self.wf(),
            i < self.order().len(),
        ensures
            r.0@ == self.order()[i as int],
            self@.contains_key(r.0@),
            *r.1 == self@[r.0@],
    {
        proof {
            lemma_entry(self.entries@, i as int);
        }
        let e = &self.entries[i];
        (e.0.as_str(), &e.1)
    }

    /// Sets a key. A key that was held keeps its place.
    pub fn insert(&mut self, key: String, value: V)
        requires
            old(self).wf(),
        ensures
            final(self).wf(),
            final(self)@ == old(self)@.insert(key@, value),
            final(self).order() == (if old(self)@.contains_key(key@) {
                old(self).order()
            } else {
                old(self).order().push(key@)
            }),
    {
        let ghost before = self.entries@;
        let ghost k = key@;
        match self.find(key.as_str()) {
            Some(i) => {
                self.entries[i] = (key, value);
                proof {
                    let after = self.entries@;
                    assert(after =~= before.update(i as int, (key, value)));
                    assert forall|a: int| 0 <= a < before.len() implies (#[trigger] after[a]).0@
                        == before[a].0@ by {}
                    assert(keys_of(after) =~= keys_of(before));
                    assert(distinct(after)) by {
                        assert forall|a: int, b: int| 0 <= a < b < after.len() implies (
                        #[trigger] after[a]).0@ != (#[trigger] after[b]).0@ by {
                            assert(before[a].0@ != before[b].0@);
                        }
                    }
                    lemma_same_but_one(before, after, i as int);
                }
            },
            None => {
                self.entries.push((key, value));
                proof {
                    let after = self.entries@;
                    let n = before.len() as int;
                    assert(keys_of(after) =~= keys_of(before).push(k));
                    assert(distinct(after)) by {
                        assert forall|a: int, b: int| 0 <= a < b < after.len() implies (
                        #[trigger] after[a]).0@ != (#[trigger] after[b]).0@ by {
                            assert(!holds(before, a, k));
                            if b < n {
                                assert(before[a].0@ != before[b].0@);
                            }
                        }
                    }
                    let m = map_of(before).insert(k, value);
                    assert forall|q: Seq<char>| #[trigger]
                        map_of(after).contains_key(q) == m.contains_key(q) by {
                        if m.contains_key(q) {
                            if q == k {
                                assert(holds(after, n, q));
                            } else {
                                let a = choose|a: int| holds(before, a, q);
                                assert(holds(after, a, q));
                            }
                        }
                        if map_of(after).contains_key(q) {
                            let a = choose|a: int| holds(after, a, q);
                            if a < n {
                                assert(holds(before, a, q));
                            }
                        }
                    }
                    assert forall|q: Seq<char>| map_of(after).contains_key(q) implies map_of(
                        after,
                    )[q] == m[q] by {
                        let a = choose|a: int| holds(after, a, q);
                        lemma_entry(after, a);
                        if a < n {
                            lemma_entry(before, a);
                            assert(!holds(before, a, k));
                        }
                    }
                    assert(map_of(after) =~= m);
                }
            },
        }
    }

    /// Takes a key out.
    pub fn remove(&mut self, key: &str) -> (r: Option<V>)
        requires
            old(self).wf(),
        ensures
            final(self).wf(),
            final(self)@ == old(self)@.remove(key@),
            r is Some <==> old(self)@.contains_key(key@),
            r matches Some(v) ==> v == old(self)@[key@],
            final(self).order() == (if old(self)@.contains_key(key@) {
                old(self).order().remove(old(self).order().index_of(key@))
            } else {
                old(self).order()
            }),
    {
        let ghost before = self.entries@;
        let ghost k = key@;
        match self.find(key) {
            None => {
                assert(map_of(before) =~= map_of(before).remove(k));
                None
            },
            Some(i) => {
                proof {
                    lemma_entry(before, i as int);
                    self.lemma_order();
                    assert(self.order()[i as int] == k);
                    let p = self.order().index_of(k);
                    assert(self.order()[p] == k);
                    assert(p == i);
                }
                let e = self.entries.remove(i);
                proof {
                    let after = self.entries@;
                    assert(after =~= before.remove(i as int));
                    assert(keys_of(after) =~= keys_of(before).remove(i as int));
                    assert(distinct(after)) by {
                        assert forall|a: int, b: int| 0 <= a < b < after.len() implies (
                        #[trigger] after[a]).0@ != (#[trigger] after[b]).0@ by {
                            let a2 = if a < i { a } else { a + 1 };
                            let b2 = if b < i { b } else { b + 1 };
                            assert(before[a2].0@ != before[b2].0@);
                        }
                    }
                    let m = map_of(before).remove(k);
                    assert forall|q: Seq<char>| #[trigger]
                        map_of(after).contains_key(q) == m.contains_key(q) by {
                        if m.contains_key(q) {
                            let a = choose|a: int| holds(before, a, q);
                            assert(a != i);
                            assert(holds(after, if a < i { a } else { a - 1 }, q));
                        }
                        if map_of(after).contains_key(q) {
                            let a = choose|a: int| holds(after, a, q);
                            let a2 = if a < i { a } else { a + 1 };
                            assert(holds(before, a2, q));
                            if a2 < i {
                                assert(before[a2].0@ != before[i as int].0@);
                            } else {
                                assert(before[i as int].0@ != before[a2].0@);
                            }
                        }
                    }
                    assert forall|q: Seq<char>| map_of(after).contains_key(q) implies map_of(
                        after,
                    )[q] == m[q] by {
                        let a = choose|a: int| holds(after, a, q);
                        lemma_entry(after, a);
                        lemma_entry(before, if a < i { a } else { a + 1 });
                    }
                    assert(map_of(after) =~= m);
                }
                Some(e.1)
            },
        }
    }
}

proof fn lemma_same_but_one<V>(before: Seq<(String, V)>, after: Seq<(String, V)>, i: int)
    requires
        distinct(before),
        distinct(after),
        before.len() == after.len(),
        0 <= i < before.len(),
        forall|a: int| 0 <= a < before.len() ==> (#[trigger] after[a]).0@ == before[a].0@,
        forall|a: int| 0 <= a < before.len() && a != i ==> #[trigger] after[a] == before[a],
    ensures
        map_of(after) == map_of(before).insert(after[i].0@, after[i].1),
{
    let m = map_of(before).insert(after[i].0@, after[i].1);
    assert forall|q: Seq<char>| #[trigger] map_of(after).contains_key(q) == m.contains_key(q) by {
        if m.contains_key(q) {
            if q == after[i].0@ {
                assert(holds(after, i, q));
            } else {
                let a = choose|a: int| holds(before, a, q);
                assert(holds(after, a, q));
            }
        }
        if map_of(after).contains_key(q) {
            let a = choose|a: int| holds(after, a, q);
            assert(holds(before, a, q));
        }
    }
    assert forall|q: Seq<char>| map_of(after).contains_key(q) implies map_of(after)[q] == m[q] by {
        let a = choose|a: int| holds(after, a, q);
        lemma_entry(after, a);
        lemma_entry(before, a);
        if a != i {
            if a < i {
                assert(after[a].0@ != after[i].0@);
            } else {
                assert(after[i].0@ != after[a].0@);
            }
        }
    }
    assert(map_of(after) =~= m);
}

} // verus!
