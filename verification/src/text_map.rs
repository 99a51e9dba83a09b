//! A map from texts, kept in the order of its keys.
use crate::order::{ascending, before, place, Place};
use vstd::prelude::*;

verus! {

/// The keys of a list of entries.
pub open spec fn keys_of<V>(entries: Seq<(String, V)>) -> Seq<Seq<char>> {
    entries.map_values(|e: (String, V)| e.0@)
}

/// The map that a list of entries with different keys makes.
pub open spec fn map_of<V>(entries: Seq<(String, V)>) -> Map<Seq<char>, V> {
    Map::new(
        |k: Seq<char>| keys_of(entries).contains(k),
        |k: Seq<char>| entries[keys_of(entries).index_of(k)].1,
    )
}

/// A map from texts to values.
pub struct TextMap<V> {
    entries: Vec<(String, V)>,
}

impl<V> View for TextMap<V> {
    type V = Map<Seq<char>, V>;

    closed spec fn view(&self) -> Map<Seq<char>, V> {
        map_of(self.entries@)
    }
}

/// An entry of a list with different keys is an entry of its map.
proof fn lemma_map_of<V>(entries: Seq<(String, V)>, i: int)
    requires
        ascending(keys_of(entries)),
        0 <= i < entries.len(),
    ensures
        map_of(entries).contains_key(entries[i].0@),
        map_of(entries)[entries[i].0@] == entries[i].1,
{
    let keys = keys_of(entries);
    assert(keys[i] == entries[i].0@);
    let j = keys.index_of(keys[i]);
    assert(keys.contains(keys[i]));
    assert(0 <= j < keys.len() && keys[j] == keys[i]);
    if i != j {
        crate::order::lemma_before_irreflexive(keys[i]);
        if i < j {
            assert(before(keys[i], keys[j]));
        } else {
            assert(before(keys[j], keys[i]));
        }
    }
}

impl<V> TextMap<V> {
    /// The keys in ascending order.
    pub closed spec fn keys(&self) -> Seq<Seq<char>> {
        keys_of(self.entries@)
    }

    /// The keys stand in ascending order, none of them twice.
    pub closed spec fn wf(&self) -> bool {
        ascending(keys_of(self.entries@))
    }

    /// The keys of a map are those that it holds values for, and ascend.
    pub proof fn lemma_keys(&self)
        requires
            self.wf(),
        ensures
            ascending(self.keys()),
            forall|k: Seq<char>| self.keys().contains(k) <==> self@.contains_key(k),
            forall|i: int| 0 <= i < self.keys().len() ==> self@.contains_key(#[trigger] self.keys()[i]),
    {
    }

    /// A map without entries.
    pub fn new() -> (r: Self)
        ensures
            r.wf(),
            r@ == Map::<Seq<char>, V>::empty(),
            r.keys() == Seq::<Seq<char>>::empty(),
    {
        let r = TextMap { entries: Vec::new() };
        proof {
            assert(r.keys() =~= Seq::<Seq<char>>::empty());
            assert(r@ =~= Map::<Seq<char>, V>::empty());
        }
        r
    }

    /// The number of entries.
    pub fn len(&self) -> (r: usize)
        ensures
            r == self.keys().len(),
    {
        self.entries.len()
    }

    /// The `i`th key in ascending order.
    pub fn key(&self, i: usize) -> (r: &str)
        requires
            i < self.keys().len(),
        ensures
            r@ == self.keys()[i as int],
    {
        self.entries[i].0.as_str()
    }

    /// The value of the `i`th key in ascending order.
    pub fn value(&self, i: usize) -> (r: &V)
        requires
            self.wf(),
            i < self.keys().len(),
        ensures
            self@.contains_key(self.keys()[i as int]),
            *r == self@[self.keys()[i as int]],
    {
        proof {
            lemma_map_of(self.entries@, i as int);
        }
        &self.entries[i].1
    }

    /// Where a key stands, or where it would stand.
    fn seek(&self, key: &str) -> (r: (usize, bool))
        requires
            self.wf(),
        ensures
            r.0 <= self.entries@.len(),
            forall|j: int| 0 <= j < r.0 ==> before(#[trigger] self.keys()[j], key@),
            r.1 ==> r.0 < self.entries@.len() && self.keys()[r.0 as int] == key@,
            !r.1 ==> forall|j: int|
                r.0 <= j < self.entries@.len() ==> before(key@, #[trigger] self.keys()[j]),
            r.1 <==> self@.contains_key(key@),
    {
        let mut i: usize = 0;
        while i < self.entries.len()
            invariant
                i <= self.entries@.len(),
                self.wf(),
                forall|j: int| 0 <= j < i ==> before(#[trigger] self.keys()[j], key@),
            decreases self.entries@.len() - i,
        {
            match place(&self.entries[i].0, key) {
                Place::Before => {
                    proof {
                        assert(self.keys()[i as int] == self.entries@[i as int].0@);
                    }
                    i = i + 1;
                },
                Place::Same => {
                    proof {
                        lemma_map_of(self.entries@, i as int);
                    }
                    return (i, true);
                },
                Place::After => {
                    proof {
                        let keys = self.keys();
                        assert(keys[i as int] == self.entries@[i as int].0@);
                        assert forall|j: int| i <= j < keys.len() implies before(
                            key@,
                            #[trigger] keys[j],
                        ) by {
                            if j > i {
                                crate::order::lemma_before_transitive(
                                    key@,
                                    keys[i as int],
                                    keys[j],
                                );
                            }
                        }
                        self.lemma_absent(key@, i as int);
                    }
                    return (i, false);
                },
            }
        }
        proof {
            self.lemma_absent(key@, i as int);
        }
        (i, false)
    }

    proof fn lemma_absent(&self, key: Seq<char>, at: int)
        requires
            0 <= at <= self.keys().len(),
            forall|j: int| 0 <= j < at ==> before(#[trigger] self.keys()[j], key),
            forall|j: int| at <= j < self.keys().len() ==> before(key, #[trigger] self.keys()[j]),
        ensures
            !self@.contains_key(key),
    {
        let keys = self.keys();
        if keys.contains(key) {
            let j = keys.index_of(key);
            assert(keys[j] == key);
            crate::order::lemma_before_irreflexive(key);
        }
    }

    /// The value of a key.
    pub fn get(&self, key: &str) -> (r: Option<&V>)
        requires
            self.wf(),
        ensures
            r is Some <==> self@.contains_key(key@),
            r is Some ==> *r->0 == self@[key@],
    {
        let (i, found) = self.seek(key);
        if found {
            proof {
                lemma_map_of(self.entries@, i as int);
            }
            Some(&self.entries[i].1)
        } else {
            None
        }
    }

    /// The position of a key in ascending order.
    pub fn position(&self, key: &str) -> (r: Option<usize>)
        requires
            self.wf(),
        ensures
            match r {
                None => !self.keys().contains(key@),
                Some(i) => i < self.keys().len() && self.keys()[i as int] == key@,
            },
    {
        let (i, found) = self.seek(key);
        proof {
            self.lemma_keys();
        }
        if found {
            Some(i)
        } else {
            None
        }
    }

    /// Sets the value of a key, whether or not it had one.
    pub fn insert(&mut self, key: String, value: V)
        requires
            old(self).wf(),
        ensures
            final(self).wf(),
            final(self)@ == old(self)@.insert(key@, value),
    {
        let (i, found) = self.seek(&key);
        let ghost old_entries = self.entries@;
        let ghost old_keys = self.keys();
        let ghost k = key@;
        if found {
            self.entries.remove(i);
        }
        proof {
            let mid = self.entries@;
            let keys = keys_of(mid);
            assert forall|j: int| 0 <= j < i implies before(#[trigger] keys[j], k) by {
                assert(keys[j] == old_keys[j]);
            }
            assert forall|j: int| i <= j < keys.len() implies before(k, #[trigger] keys[j]) by {
                if found {
                    assert(keys[j] == old_keys[j + 1]);
                    assert(before(old_keys[i as int], old_keys[j + 1]));
                } else {
                    assert(keys[j] == old_keys[j]);
                }
            }
            assert forall|a: int, b: int| 0 <= a < b < keys.len() implies before(
                #[trigger] keys[a],
                #[trigger] keys[b],
            ) by {
                let oa = if found && a >= i {
                    a + 1
                } else {
                    a
                };
                let ob = if found && b >= i {
                    b + 1
                } else {
                    b
                };
                assert(keys[a] == old_keys[oa] && keys[b] == old_keys[ob]);
            }
        }
        let ghost mid = self.entries@;
        self.entries.insert(i, (key, value));
        proof {
            let now = self.entries@;
            let keys = keys_of(now);
            let mid_keys = keys_of(mid);
            assert forall|a: int, b: int| 0 <= a < b < keys.len() implies before(
                #[trigger] keys[a],
                #[trigger] keys[b],
            ) by {
                if a != i && b != i {
                    let ma = if a > i {
                        a - 1
                    } else {
                        a
                    };
                    let mb = if b > i {
                        b - 1
                    } else {
                        b
                    };
                    assert(keys[a] == mid_keys[ma] && keys[b] == mid_keys[mb]);
                } else if a == i {
                    assert(keys[a] == k && keys[b] == mid_keys[b - 1]);
                } else {
                    assert(keys[b] == k && keys[a] == mid_keys[a]);
                }
            }
            assert(ascending(keys));
            let m = map_of(now);
            let om = map_of(old_entries);
            assert forall|x: Seq<char>| #[trigger]
                m.contains_key(x) <==> om.insert(k, value).contains_key(x) by {
                if m.contains_key(x) {
                    let a = keys.index_of(x);
                    assert(keys[a] == x);
                    if a < i {
                        assert(old_keys[a] == x);
                    } else if a > i {
                        assert(old_keys[if found {
                            a
                        } else {
                            a - 1
                        }] == x);
                    }
                }
                if om.contains_key(x) && x != k {
                    let a = old_keys.index_of(x);
                    assert(old_keys[a] == x);
                    let b = if a < i || found {
                        a
                    } else {
                        a + 1
                    };
                    assert(keys[b] == x);
                }
                if x == k {
                    assert(keys[i as int] == k);
                }
            }
            assert forall|x: Seq<char>| m.contains_key(x) implies #[trigger] m[x]
                == om.insert(k, value)[x] by {
                let a = keys.index_of(x);
                assert(keys[a] == x);
                lemma_map_of(now, a);
                if a != i {
                    let o = if a < i || found {
                        a
                    } else {
                        a - 1
                    };
                    assert(old_entries[o] == now[a]);
                    assert(x != k) by {
                        if x == k {
                            crate::order::lemma_before_irreflexive(x);
                            assert(keys[i as int] == k);
                            if a < i {
                                assert(before(keys[a], keys[i as int]));
                            } else {
                                assert(before(keys[i as int], keys[a]));
                            }
                        }
                    }
                    lemma_map_of(old_entries, o);
                }
            }
            assert(m =~= om.insert(k, value));
        }
    }

    /// Removes a key and its value.
    pub fn remove(&mut self, key: &str)
        requires
            old(self).wf(),
        ensures
            final(self).wf(),
            final(self)@ == old(self)@.remove(key@),
    {
        let (i, found) = self.seek(key);
        let ghost old_entries = self.entries@;
        if found {
            self.entries.remove(i);
        }
        proof {
            let now = self.entries@;
            let keys = keys_of(now);
            let old_keys = keys_of(old_entries);
            let m = map_of(now);
            let om = map_of(old_entries);
            if found {
                assert forall|a: int, b: int| 0 <= a < b < keys.len() implies before(
                    #[trigger] keys[a],
                    #[trigger] keys[b],
                ) by {
                    let oa = if a >= i {
                        a + 1
                    } else {
                        a
                    };
                    let ob = if b >= i {
                        b + 1
                    } else {
                        b
                    };
                    assert(keys[a] == old_keys[oa] && keys[b] == old_keys[ob]);
                }
                assert(ascending(keys));
                assert forall|x: Seq<char>| #[trigger]
                    m.contains_key(x) <==> om.remove(key@).contains_key(x) by {
                    if m.contains_key(x) {
                        let a = keys.index_of(x);
                        let o = if a >= i {
                            a + 1
                        } else {
                            a
                        };
                        assert(keys[a] == x);
                        assert(old_keys[o] == x);
                        crate::order::lemma_before_irreflexive(x);
                        if a >= i {
                            assert(before(old_keys[i as int], old_keys[o]));
                        } else {
                            assert(before(old_keys[o], old_keys[i as int]));
                        }
                    }
                    if om.remove(key@).contains_key(x) {
                        let o = old_keys.index_of(x);
                        assert(old_keys[o] == x);
                        assert(o != i);
                        let a = if o > i {
                            o - 1
                        } else {
                            o
                        };
                        assert(keys[a] == x);
                    }
                }
                assert forall|x: Seq<char>| m.contains_key(x) implies #[trigger] m[x]
                    == om.remove(key@)[x] by {
                    let a = keys.index_of(x);
                    assert(keys[a] == x);
                    let o = if a >= i {
                        a + 1
                    } else {
                        a
                    };
                    assert(old_entries[o] == now[a]);
                    lemma_map_of(now, a);
                    lemma_map_of(old_entries, o);
                }
                assert(m =~= om.remove(key@));
            } else {
                assert(m =~= om.remove(key@));
            }
        }
    }
}

} // verus!
