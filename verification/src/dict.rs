//! A small map from text to values.
use crate::text::same_text;
use vstd::prelude::*;

verus! {

/// A map with text keys, kept as a list of entries with distinct keys.
pub struct Dict<V> {
    entries: Vec<(String, V)>,
}

impl<V> Dict<V> {
    /// No key occurs twice.
    pub closed spec fn wf(&self) -> bool {
        forall|i: int, j: int|
            0 <= i < j < self.entries@.len() ==> #[trigger] self.entries@[i].0@
                != #[trigger] self.entries@[j].0@
    }

    closed spec fn at(&self, key: Seq<char>, i: int) -> bool {
        0 <= i < self.entries@.len() && self.entries@[i].0@ == key
    }

    /// The keys, in the order in which the entries are kept.
    pub closed spec fn keys(&self) -> Seq<Seq<char>> {
        Seq::new(self.entries@.len(), |i: int| self.entries@[i].0@)
    }

    /// The empty map.
    pub fn new() -> (d: Dict<V>)
        ensures
            d.wf(),
            d@ == Map::<Seq<char>, V>::empty(),
    {
        let d = Dict { entries: Vec::new() };
        assert(d@ =~= Map::<Seq<char>, V>::empty());
        d
    }

    fn find(&self, key: &str) -> (found: Option<usize>)
        ensures
            found matches Some(i) ==> self.at(key@, i as int),
            found is None ==> forall|i: int| !self.at(key@, i),
    {
        let mut i: usize = 0;
        while i < self.entries.len()
            invariant
                i <= self.entries@.len(),
                forall|j: int| 0 <= j < i ==> !self.at(key@, j),
            decreases self.entries@.len() - i,
        {
            if same_text(self.entries[i].0.as_str(), key) {
                return Some(i);
            }
            i += 1;
        }
        None
    }

    /// What the map holds under `key`.
    pub fn get(&self, key: &str) -> (found: Option<&V>)
        requires
            self.wf(),
        ensures
            found == (if self@.dom().contains(key@) {
                Some(&self@[key@])
            } else {
                None
            }),
    {
        match self.find(key) {
            Some(i) => {
                proof {
                    self.lemma_at(key@, i as int);
                }
                Some(&self.entries[i].1)
            },
            None => None,
        }
    }

    /// Whether the map holds something under `key`.
    pub fn contains(&self, key: &str) -> (yes: bool)
        requires
            self.wf(),
        ensures
            yes == self@.dom().contains(key@),
    {
        match self.find(key) {
            Some(i) => {
                proof {
                    self.lemma_at(key@, i as int);
                }
                true
            },
            None => false,
        }
    }

    /// How many entries the map has.
    pub fn len(&self) -> (n: usize)
        requires
            self.wf(),
        ensures
            n == self@.len(),
            n == self.keys().len(),
    {
        proof {
            self.lemma_keys();
        }
        self.entries.len()
    }

    /// The entry at position `i`.
    pub fn entry(&self, i: usize) -> (e: (&String, &V))
        requires
            self.wf(),
            i < self.keys().len(),
        ensures
            e.0@ == self.keys()[i as int],
            self@.dom().contains(e.0@),
            *e.1 == self@[e.0@],
    {
        proof {
            self.lemma_at(self.entries@[i as int].0@, i as int);
        }
        (&self.entries[i].0, &self.entries[i].1)
    }

    /// Puts `value` under `key`, in place of what was there.
    pub fn insert(&mut self, key: String, value: V)
        requires
            old(self).wf(),
        ensures
            final(self).wf(),
            final(self)@ == old(self)@.insert(key@, value),
    {
        self.remove(key.as_str());
        let ghost mid = *self;
        let ghost k = key@;
        self.entries.push((key, value));
        proof {
            assert forall|i: int| 0 <= i < mid.entries@.len() implies #[trigger] self.entries@[i].0@
                != k by {
                mid.lemma_at(mid.entries@[i].0@, i);
            }
            let n = mid.entries@.len() as int;
            assert(self.at(k, n));
            self.lemma_at(k, n);
            assert forall|q: Seq<char>|
                #![trigger self@.dom().contains(q)]
                #![trigger mid@.dom().contains(q)]
                #![trigger self@[q]]
                q != k implies (self@.dom().contains(q) <==> mid@.dom().contains(q)) && (
            mid@.dom().contains(q) ==> self@[q] == mid@[q]) by {
                if mid@.dom().contains(q) {
                    let i = choose|i: int| mid.at(q, i);
                    mid.lemma_at(q, i);
                    assert(self.at(q, i));
                    self.lemma_at(q, i);
                }
                if self@.dom().contains(q) {
                    let i = choose|i: int| self.at(q, i);
                    assert(mid.at(q, i));
                }
            }
            assert(self@ =~= old(self)@.insert(k, value));
        }
    }

    /// Takes `key` and what it holds out of the map.
    pub fn remove(&mut self, key: &str)
        requires
            old(self).wf(),
        ensures
            final(self).wf(),
            final(self)@ == old(self)@.remove(key@),
    {
        match self.find(key) {
            Some(p) => {
                let ghost before = *self;
                let ghost k = key@;
                self.entries.remove(p);
                proof {
                    assert forall|q: Seq<char>|
                        #![trigger self@.dom().contains(q)]
                        #![trigger before@.dom().contains(q)]
                        #![trigger self@[q]]
                        q != k implies (self@.dom().contains(q) <==> before@.dom().contains(q)) && (
                    before@.dom().contains(q) ==> self@[q] == before@[q]) by {
                        if before@.dom().contains(q) {
                            let i = choose|i: int| before.at(q, i);
                            before.lemma_at(q, i);
                            let j = if i < p { i } else { i - 1 };
                            assert(self.at(q, j));
                            self.lemma_at(q, j);
                        }
                        if self@.dom().contains(q) {
                            let i = choose|i: int| self.at(q, i);
                            assert(before.at(q, if i < p { i } else { i + 1 }));
                        }
                    }
                    assert(!self@.dom().contains(k)) by {
                        if self@.dom().contains(k) {
                            let i = choose|i: int| self.at(k, i);
                            let j = if i < p { i } else { i + 1 };
                            assert(before.at(k, j));
                            assert(before.at(k, p as int));
                        }
                    }
                    assert(self@ =~= before@.remove(k));
                }
            },
            None => {
                proof {
                    assert(self@ =~= self@.remove(key@));
                }
            },
        }
    }

    proof fn lemma_at(&self, key: Seq<char>, i: int)
        requires
            self.wf(),
            self.at(key, i),
        ensures
            self@.dom().contains(key),
            self@[key] == self.entries@[i].1,
    {
        let j = choose|j: int| self.at(key, j);
        assert(self.at(key, j));
        if i < j {
            assert(self.entries@[i].0@ != self.entries@[j].0@);
        } else if j < i {
            assert(self.entries@[j].0@ != self.entries@[i].0@);
        }
    }

    /// The keys are those of the map, each once.
    pub proof fn lemma_keys(&self)
        requires
            self.wf(),
        ensures
            self.keys().no_duplicates(),
            self.keys().to_set() == self@.dom(),
            self@.dom().finite(),
            self.keys().len() == self@.len(),
    {
        let ks = self.keys();
        assert forall|q: Seq<char>| ks.to_set().contains(q) <==> self@.dom().contains(q) by {
            if ks.to_set().contains(q) {
                let i = choose|i: int| 0 <= i < ks.len() && ks[i] == q;
                assert(self.at(q, i));
            }
            if self@.dom().contains(q) {
                let i = choose|i: int| self.at(q, i);
                assert(ks[i] == q);
            }
        }
        assert(ks.to_set() =~= self@.dom());
        ks.unique_seq_to_set();
    }
}

impl<V> View for Dict<V> {
    type V = Map<Seq<char>, V>;

    closed spec fn view(&self) -> Map<Seq<char>, V> {
        Map::new(
            |k: Seq<char>| exists|i: int| self.at(k, i),
            |k: Seq<char>| self.entries@[choose|i: int| self.at(k, i)].1,
        )
    }
}

} // verus!
