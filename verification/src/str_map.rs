//! An ordered map from text keys to values, kept as a vector sorted by key
//! and searched by bisection.

use vstd::prelude::*;
use crate::text::{lemma_text_lt_order, text_lt, text_order, KeyOrder};

verus! {

/// A map keyed by text. The entries are strictly increasing by key, so each
/// key occurs at most once and a lookup takes logarithmically many steps.
pub struct StrMap<V> {
    pub entries: Vec<(String, V)>,
}

impl<V> StrMap<V> {
    /// The key at position `i`.
    pub open spec fn key_at(&self, i: int) -> Seq<char> {
        self.entries@[i].0@
    }

    /// Position `i` holds `key`.
    pub open spec fn holds(&self, i: int, key: Seq<char>) -> bool {
        0 <= i < self.entries@.len() && self.key_at(i) == key
    }

    /// The keys are strictly increasing.
    pub open spec fn wf(&self) -> bool {
        forall|i: int, j: int|
            0 <= i < j < self.entries@.len() ==> text_lt(
                #[trigger] self.key_at(i),
                #[trigger] self.key_at(j),
            )
    }

    /// The map that the entries stand for.
    pub open spec fn view(&self) -> Map<Seq<char>, V> {
        Map::new(
            |k: Seq<char>| exists|i: int| self.holds(i, k),
            |k: Seq<char>| self.entries@[choose|i: int| self.holds(i, k)].1,
        )
    }

    /// In a well-formed map a key has one position, which holds its value.
    pub proof fn lemma_position(&self, i: int, key: Seq<char>)
        requires
            self.wf(),
            self.holds(i, key),
        ensures
            self@.contains_key(key),
            self@[key] == self.entries@[i].1,
    {
        let j = choose|j: int| self.holds(j, key);
        if i < j {
            assert(text_lt(self.key_at(i), self.key_at(j)));
            lemma_text_lt_order(key, key, key);
        } else if j < i {
            assert(text_lt(self.key_at(j), self.key_at(i)));
            lemma_text_lt_order(key, key, key);
        }
    }

    /// The empty map.
    pub fn new() -> (m: Self)
        ensures
            m.wf(),
            m@ == Map::<Seq<char>, V>::empty(),
            m.entries@.len() == 0,
    {
        let m = StrMap { entries: Vec::new() };
        assert(m@ =~= Map::<Seq<char>, V>::empty());
        m
    }

    /// The number of entries.
    pub fn len(&self) -> (n: usize)
        ensures
            n == self.entries@.len(),
    {
        self.entries.len()
    }

    /// Bisects for `key`: the position where it stands, or where it would
    /// have to be put.
    pub fn position(&self, key: &str) -> (r: (usize, bool))
        requires
            self.wf(),
        ensures
            r.0 <= self.entries@.len(),
            forall|i: int| 0 <= i < r.0 ==> text_lt(#[trigger] self.key_at(i), key@),
            r.1 ==> self.holds(r.0 as int, key@),
            !r.1 ==> forall|i: int|
                r.0 <= i < self.entries@.len() ==> text_lt(key@, #[trigger] self.key_at(i)),
            r.1 == self@.contains_key(key@),
    {
        let mut lo: usize = 0;
        let mut hi: usize = self.entries.len();
        while lo < hi
            invariant
                self.wf(),
                lo <= hi <= self.entries@.len(),
                forall|i: int| 0 <= i < lo ==> text_lt(#[trigger] self.key_at(i), key@),
                forall|i: int|
                    hi <= i < self.entries@.len() ==> text_lt(key@, #[trigger] self.key_at(i)),
            decreases hi - lo,
        {
            let mid: usize = lo + (hi - lo) / 2;
            match text_order(self.entries[mid].0.as_str(), key) {
                KeyOrder::Same => {
                    proof {
                        assert(self.holds(mid as int, key@));
                        self.lemma_position(mid as int, key@);
                        assert forall|i: int| 0 <= i < mid implies text_lt(
                            #[trigger] self.key_at(i),
                            key@,
                        ) by {
                            assert(text_lt(self.key_at(i), self.key_at(mid as int)));
                        }
                    }
                    return (mid, true);
                },
                KeyOrder::Before => {
                    proof {
                        assert forall|i: int| 0 <= i < mid + 1 implies text_lt(
                            #[trigger] self.key_at(i),
                            key@,
                        ) by {
                            if i < mid {
                                assert(text_lt(self.key_at(i), self.key_at(mid as int)));
                                lemma_text_lt_order(self.key_at(i), self.key_at(mid as int), key@);
                            }
                        }
                    }
                    lo = mid + 1;
                },
                KeyOrder::After => {
                    proof {
                        assert forall|i: int| mid <= i < self.entries@.len() implies text_lt(
                            key@,
                            #[trigger] self.key_at(i),
                        ) by {
                            if mid < i {
                                assert(text_lt(self.key_at(mid as int), self.key_at(i)));
                                lemma_text_lt_order(key@, self.key_at(mid as int), self.key_at(i));
                            }
                        }
                    }
                    hi = mid;
                },
            }
        }
        proof {
            self.lemma_absent(lo as int, key@);
        }
        (lo, false)
    }

    /// A key that falls strictly between two neighbours is not in the map.
    pub proof fn lemma_absent(&self, p: int, key: Seq<char>)
        requires
            0 <= p <= self.entries@.len(),
            forall|i: int| 0 <= i < p ==> text_lt(#[trigger] self.key_at(i), key),
            forall|i: int| p <= i < self.entries@.len() ==> text_lt(key, #[trigger] self.key_at(i)),
        ensures
            !self@.contains_key(key),
    {
        if self@.contains_key(key) {
            let j = choose|j: int| self.holds(j, key);
            if j < p {
                assert(text_lt(self.key_at(j), key));
            } else {
                assert(text_lt(key, self.key_at(j)));
            }
            lemma_text_lt_order(key, key, key);
        }
    }

    /// The value stored under `key`, if there is one.
    pub fn get(&self, key: &str) -> (r: Option<&V>)
        requires
            self.wf(),
        ensures
            r.is_some() == self@.contains_key(key@),
            r.is_some() ==> *r.unwrap() == self@[key@],
    {
        let (p, found) = self.position(key);
        if found {
            proof {
                self.lemma_position(p as int, key@);
            }
            Some(&self.entries[p].1)
        } else {
            None
        }
    }

    /// Whether `key` has a value.
    pub fn contains_key(&self, key: &str) -> (r: bool)
        requires
            self.wf(),
        ensures
            r == self@.contains_key(key@),
    {
        self.position(key).1
    }

    /// Stores `value` under `key`, replacing what was there.
    pub fn insert(&mut self, key: String, value: V)
        requires
            old(self).wf(),
        ensures
            final(self).wf(),
            final(self)@ == old(self)@.insert(key@, value),
    {
        let (p, found) = self.position(key.as_str());
        let ghost before = *self;
        if found {
            self.entries.set(p, (key, value));
            proof {
                assert forall|i: int| 0 <= i < self.entries@.len() implies self.key_at(i)
                    == before.key_at(i) by {}
                assert(self.wf()) by {
                    assert forall|i: int, j: int| 0 <= i < j < self.entries@.len() implies text_lt(
                        #[trigger] self.key_at(i),
                        #[trigger] self.key_at(j),
                    ) by {
                        assert(text_lt(before.key_at(i), before.key_at(j)));
                    }
                }
                assert forall|k: Seq<char>| #[trigger]
                    self@.contains_key(k) == before@.insert(key@, value).contains_key(k) by {
                    if self@.contains_key(k) {
                        let i = choose|i: int| self.holds(i, k);
                        assert(before.holds(i, k));
                    }
                    if before@.contains_key(k) {
                        let i = choose|i: int| before.holds(i, k);
                        assert(self.holds(i, k));
                    }
                    if k == key@ {
                        assert(self.holds(p as int, k));
                    }
                }
                assert forall|k: Seq<char>| #[trigger] self@.contains_key(k) implies self@[k]
                    == before@.insert(key@, value)[k] by {
                    let i = choose|i: int| self.holds(i, k);
                    self.lemma_position(i, k);
                    if k != key@ {
                        assert(before.holds(i, k));
                        before.lemma_position(i, k);
                    } else {
                        self.lemma_position(p as int, k);
                    }
                }
                assert(self@ =~= before@.insert(key@, value));
            }
        } else {
            self.entries.insert(p, (key, value));
            proof {
                assert forall|i: int| 0 <= i < p implies self.key_at(i) == before.key_at(i) by {}
                assert forall|i: int| p < i < self.entries@.len() implies self.key_at(i)
                    == before.key_at(i - 1) by {}
                assert(self.key_at(p as int) == key@);
                assert(self.wf()) by {
                    assert forall|i: int, j: int| 0 <= i < j < self.entries@.len() implies text_lt(
                        #[trigger] self.key_at(i),
                        #[trigger] self.key_at(j),
                    ) by {
                        if j < p {
                            assert(text_lt(before.key_at(i), before.key_at(j)));
                        } else if j == p {
                            assert(text_lt(before.key_at(i), key@));
                        } else if i < p {
                            assert(text_lt(before.key_at(i), before.key_at(j - 1)));
                        } else if i == p {
                            assert(text_lt(key@, before.key_at(j - 1)));
                        } else {
                            assert(text_lt(before.key_at(i - 1), before.key_at(j - 1)));
                        }
                    }
                }
                assert forall|k: Seq<char>| #[trigger]
                    self@.contains_key(k) == before@.insert(key@, value).contains_key(k) by {
                    if self@.contains_key(k) {
                        let i = choose|i: int| self.holds(i, k);
                        if i < p {
                            assert(before.holds(i, k));
                        } else if i > p {
                            assert(before.holds(i - 1, k));
                        }
                    }
                    if before@.contains_key(k) {
                        let i = choose|i: int| before.holds(i, k);
                        if i < p {
                            assert(self.holds(i, k));
                        } else {
                            assert(self.holds(i + 1, k));
                        }
                    }
                    if k == key@ {
                        assert(self.holds(p as int, k));
                    }
                }
                assert forall|k: Seq<char>| #[trigger] self@.contains_key(k) implies self@[k]
                    == before@.insert(key@, value)[k] by {
                    let i = choose|i: int| self.holds(i, k);
                    self.lemma_position(i, k);
                    if i < p {
                        assert(before.holds(i, k));
                        before.lemma_position(i, k);
                    } else if i > p {
                        assert(before.holds(i - 1, k));
                        before.lemma_position(i - 1, k);
                    }
                }
                assert(self@ =~= before@.insert(key@, value));
            }
        }
    }

    /// Takes the entry of `key` out of the map and hands back its value.
    pub fn remove(&mut self, key: &str) -> (r: Option<V>)
        requires
            old(self).wf(),
        ensures
            final(self).wf(),
            final(self)@ == old(self)@.remove(key@),
            r.is_some() == old(self)@.contains_key(key@),
            r.is_some() ==> r.unwrap() == old(self)@[key@],
    {
        let (p, found) = self.position(key);
        let ghost before = *self;
        if !found {
            assert(self@ =~= before@.remove(key@));
            return None;
        }
        proof {
            before.lemma_position(p as int, key@);
        }
        let entry = self.entries.remove(p);
        proof {
            assert forall|i: int| 0 <= i < p implies self.key_at(i) == before.key_at(i) by {}
            assert forall|i: int| p <= i < self.entries@.len() implies self.key_at(i)
                == before.key_at(i + 1) by {}
            assert(self.wf()) by {
                assert forall|i: int, j: int| 0 <= i < j < self.entries@.len() implies text_lt(
                    #[trigger] self.key_at(i),
                    #[trigger] self.key_at(j),
                ) by {
                    if j < p {
                        assert(text_lt(before.key_at(i), before.key_at(j)));
                    } else if i < p {
                        assert(text_lt(before.key_at(i), before.key_at(j + 1)));
                    } else {
                        assert(text_lt(before.key_at(i + 1), before.key_at(j + 1)));
                    }
                }
            }
            assert forall|k: Seq<char>| #[trigger]
                self@.contains_key(k) == before@.remove(key@).contains_key(k) by {
                if self@.contains_key(k) {
                    let i = choose|i: int| self.holds(i, k);
                    if i < p {
                        assert(before.holds(i, k));
                        assert(text_lt(before.key_at(i), before.key_at(p as int)));
                    } else {
                        assert(before.holds(i + 1, k));
                        assert(text_lt(before.key_at(p as int), before.key_at(i + 1)));
                    }
                    lemma_text_lt_order(key@, key@, key@);
                }
                if before@.contains_key(k) && k != key@ {
                    let i = choose|i: int| before.holds(i, k);
                    if i < p {
                        assert(self.holds(i, k));
                    } else {
                        assert(self.holds(i - 1, k));
                    }
                }
            }
            assert forall|k: Seq<char>| #[trigger] self@.contains_key(k) implies self@[k]
                == before@.remove(key@)[k] by {
                let i = choose|i: int| self.holds(i, k);
                self.lemma_position(i, k);
                if i < p {
                    assert(before.holds(i, k));
                    before.lemma_position(i, k);
                } else {
                    assert(before.holds(i + 1, k));
                    before.lemma_position(i + 1, k);
                }
            }
            assert(self@ =~= before@.remove(key@));
        }
        Some(entry.1)
    }
}

impl StrMap<String> {
    /// The map from key to the text stored under it.
    pub open spec fn texts(&self) -> Map<Seq<char>, Seq<char>> {
        Map::new(|k: Seq<char>| self@.contains_key(k), |k: Seq<char>| self@[k]@)
    }
}

} // verus!
