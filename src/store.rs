use vstd::prelude::*;

verus! {

/// The value bound to `key` among `entries`: that of the first entry under `key`.
pub open spec fn lookup<V>(entries: Seq<(String, V)>, key: Seq<char>) -> Option<V>
    decreases entries.len(),
{
    if entries.len() == 0 {
        None
    } else if entries[0].0@ == key {
        Some(entries[0].1)
    } else {
        lookup(entries.drop_first(), key)
    }
}

/// The value bound to `key` by the last entry under `key`, as when the entries
/// are bound one after another.
pub open spec fn last_lookup<V>(entries: Seq<(String, V)>, key: Seq<char>) -> Option<V>
    decreases entries.len(),
{
    if entries.len() == 0 {
        None
    } else if entries.last().0@ == key {
        Some(entries.last().1)
    } else {
        last_lookup(entries.drop_last(), key)
    }
}

/// No key occurs in two entries.
pub open spec fn keys_unique<V>(entries: Seq<(String, V)>) -> bool {
    forall|i: int, j: int| 0 <= i < j < entries.len() ==> entries[i].0@ != entries[j].0@
}

/// The first entry under `key` decides what `lookup` gives.
pub proof fn lemma_lookup_at<V>(entries: Seq<(String, V)>, key: Seq<char>, i: int)
    requires
        0 <= i < entries.len(),
        entries[i].0@ == key,
        forall|j: int| 0 <= j < i ==> entries[j].0@ != key,
    ensures
        lookup(entries, key) == Some(entries[i].1),
    decreases i,
{
    if i > 0 {
        assert(entries[0].0@ != key);
        lemma_lookup_at(entries.drop_first(), key, i - 1);
    }
}

/// A key that no entry holds has no value.
pub proof fn lemma_lookup_absent<V>(entries: Seq<(String, V)>, key: Seq<char>)
    requires
        forall|j: int| 0 <= j < entries.len() ==> entries[j].0@ != key,
    ensures
        lookup(entries, key) is None,
    decreases entries.len(),
{
    if entries.len() > 0 {
        assert(entries[0].0@ != key);
        lemma_lookup_absent(entries.drop_first(), key);
    }
}

/// Where `key` first occurs among `entries`, if anywhere.
pub fn find_key<V>(entries: &Vec<(String, V)>, key: &String) -> (r: Option<usize>)
    ensures
        match r {
            Some(i) => i < entries@.len() && entries@[i as int].0@ == key@ && forall|j: int|
                0 <= j < i ==> entries@[j].0@ != key@,
            None => forall|j: int| 0 <= j < entries@.len() ==> entries@[j].0@ != key@,
        },
{
    let mut i: usize = 0;
    while i < entries.len()
        invariant
            i <= entries@.len(),
            forall|j: int| 0 <= j < i ==> entries@[j].0@ != key@,
        decreases entries@.len() - i,
    {
        if entries[i].0 == *key {
            return Some(i);
        }
        i += 1;
    }
    None
}

/// The value bound to `key` among `entries`, found by a scan from the front.
pub fn lookup_entry<'a, V>(entries: &'a Vec<(String, V)>, key: &String) -> (r: Option<&'a V>)
    ensures
        match r {
            Some(v) => lookup(entries@, key@) == Some(*v),
            None => lookup(entries@, key@) is None,
        },
{
    match find_key(entries, key) {
        Some(i) => {
            proof {
                lemma_lookup_at(entries@, key@, i as int);
            }
            Some(&entries[i].1)
        },
        None => {
            proof {
                lemma_lookup_absent(entries@, key@);
            }
            None
        },
    }
}

/// An in-memory mapping from string keys to values, each key bound at most once.
pub struct KvStore<V> {
    entries: Vec<(String, V)>,
}

impl<V> View for KvStore<V> {
    type V = Seq<(String, V)>;

    closed spec fn view(&self) -> Seq<(String, V)> {
        self.entries@
    }
}

impl<V> KvStore<V> {
    /// Every key is bound at most once.
    pub open spec fn wf(&self) -> bool {
        keys_unique(self@)
    }

    /// The value bound to `key`, if any.
    pub open spec fn value_of(&self, key: Seq<char>) -> Option<V> {
        lookup(self@, key)
    }

    /// An empty mapping.
    pub fn new() -> (r: Self)
        ensures
            r.wf(),
            r@.len() == 0,
            forall|k: Seq<char>| #[trigger] r.value_of(k) is None,
    {
        KvStore { entries: Vec::new() }
    }

    /// The mapping that binds the entries one after another: where a key
    /// occurs twice, its last entry wins.
    pub fn from_entries(entries: Vec<(String, V)>) -> (r: Self)
        ensures
            r.wf(),
            forall|k: Seq<char>| #[trigger] r.value_of(k) == last_lookup(entries@, k),
    {
        let ghost all = entries@;
        let mut rest = entries;
        let n = rest.len();
        let mut store = KvStore::new();
        let mut i: usize = 0;
        while rest.len() > 0
            invariant
                i <= all.len(),
                all.len() == n,
                rest@ == all.skip(i as int),
                i + rest@.len() == all.len(),
                store.wf(),
                forall|k: Seq<char>| #[trigger] store.value_of(k) == last_lookup(all.take(i as int), k),
            decreases rest@.len(),
        {
            let (key, value) = rest.remove(0);
            proof {
                assert(all.take(i + 1).drop_last() =~= all.take(i as int));
                assert(all.take(i + 1).last() == all[i as int]);
            }
            store.insert(key, value);
            i += 1;
            proof {
                assert(rest@ =~= all.skip(i as int));
            }
        }
        assert(all.take(i as int) =~= all);
        store
    }

    /// The entries in the order they were first bound.
    pub fn entries(&self) -> (r: &Vec<(String, V)>)
        ensures
            r@ == self@,
    {
        &self.entries
    }

    /// The number of keys bound.
    pub fn len(&self) -> (r: usize)
        ensures
            r == self@.len(),
    {
        self.entries.len()
    }

    /// The value bound to `key`, if any.
    pub fn get(&self, key: &String) -> (r: Option<&V>)
        ensures
            match r {
                Some(v) => self.value_of(key@) == Some(*v),
                None => self.value_of(key@) is None,
            },
    {
        lookup_entry(&self.entries, key)
    }

    /// Binds `key` to `value`, replacing what it was bound to.
    pub fn insert(&mut self, key: String, value: V)
        requires
            old(self).wf(),
        ensures
            final(self).wf(),
            forall|k: Seq<char>|
                #[trigger] final(self).value_of(k) == if k == key@ {
                    Some(value)
                } else {
                    old(self).value_of(k)
                },
    {
        let ghost before = self.entries@;
        let ghost key_view = key@;
        match find_key(&self.entries, &key) {
            Some(i) => {
                self.entries.set(i, (key, value));
                let ghost after = self.entries@;
                assert(after == before.update(i as int, after[i as int]));
                assert forall|k: Seq<char>|
                    #[trigger] lookup(after, k) == if k == key_view {
                        Some(value)
                    } else {
                        lookup(before, k)
                    } by {
                    if k == key_view {
                        lemma_lookup_at(after, k, i as int);
                    } else if exists|m: int| 0 <= m < before.len() && before[m].0@ == k {
                        let m = choose|m: int| 0 <= m < before.len() && before[m].0@ == k;
                        lemma_lookup_at(before, k, m);
                        lemma_lookup_at(after, k, m);
                    } else {
                        lemma_lookup_absent(before, k);
                        lemma_lookup_absent(after, k);
                    }
                }
            },
            None => {
                self.entries.push((key, value));
                let ghost after = self.entries@;
                let ghost n = before.len() as int;
                assert forall|k: Seq<char>|
                    #[trigger] lookup(after, k) == if k == key_view {
                        Some(value)
                    } else {
                        lookup(before, k)
                    } by {
                    if k == key_view {
                        lemma_lookup_at(after, k, n);
                    } else if exists|m: int| 0 <= m < before.len() && before[m].0@ == k {
                        let m = choose|m: int| 0 <= m < before.len() && before[m].0@ == k;
                        lemma_lookup_at(before, k, m);
                        lemma_lookup_at(after, k, m);
                    } else {
                        lemma_lookup_absent(before, k);
                        lemma_lookup_absent(after, k);
                    }
                }
            },
        }
    }

    /// Unbinds `key`; tells whether it was bound. An absent key is left alone.
    pub fn delete(&mut self, key: &String) -> (r: bool)
        requires
            old(self).wf(),
        ensures
            final(self).wf(),
            r == old(self).value_of(key@) is Some,
            forall|k: Seq<char>|
                #[trigger] final(self).value_of(k) == if k == key@ {
                    None
                } else {
                    old(self).value_of(k)
                },
    {
        let ghost before = self.entries@;
        match find_key(&self.entries, key) {
            Some(i) => {
                proof {
                    lemma_lookup_at(before, key@, i as int);
                }
                let _ = self.entries.remove(i);
                let ghost after = self.entries@;
                assert(after == before.remove(i as int));
                assert forall|k: Seq<char>|
                    #[trigger] lookup(after, k) == if k == key@ {
                        None
                    } else {
                        lookup(before, k)
                    } by {
                    if k == key@ {
                        assert forall|j: int| 0 <= j < after.len() implies after[j].0@ != k by {
                            if j >= i {
                                assert(after[j] == before[j + 1]);
                            }
                        }
                        lemma_lookup_absent(after, k);
                    } else if exists|m: int| 0 <= m < before.len() && before[m].0@ == k {
                        let m = choose|m: int| 0 <= m < before.len() && before[m].0@ == k;
                        lemma_lookup_at(before, k, m);
                        let m2 = if m < i { m } else { m - 1 };
                        assert(after[m2] == before[m]);
                        assert forall|j: int| 0 <= j < m2 implies after[j].0@ != k by {
                            if j >= i {
                                assert(after[j] == before[j + 1]);
                            }
                        }
                        lemma_lookup_at(after, k, m2);
                    } else {
                        assert forall|j: int| 0 <= j < after.len() implies after[j].0@ != k by {
                            if j >= i {
                                assert(after[j] == before[j + 1]);
                            }
                        }
                        lemma_lookup_absent(before, k);
                        lemma_lookup_absent(after, k);
                    }
                }
                assert forall|a: int, b: int| 0 <= a < b < after.len() implies after[a].0@
                    != after[b].0@ by {
                    let a0 = if a < i { a } else { a + 1 };
                    let b0 = if b < i { b } else { b + 1 };
                    assert(after[a] == before[a0]);
                    assert(after[b] == before[b0]);
                }
                true
            },
            None => {
                proof {
                    lemma_lookup_absent(before, key@);
                }
                false
            },
        }
    }
}

} // verus!
