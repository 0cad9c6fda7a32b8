//! A small map from text to values that keeps its entries in the order in
//! which their keys first came.
//!
//! The model of a table is the sequence of its entries, each a key with its
//! value. A table that is only changed through `insert` and `remove` holds no
//! key twice.

use vstd::prelude::*;

verus! {

/// Entries in the order in which their keys were first inserted.
#[derive(Debug, Clone, PartialEq, Eq)]
pub struct Table<V> {
    pub entries: Vec<(String, V)>,
}

impl<V: DeepView> DeepView for Table<V> {
    type V = Seq<(Seq<char>, V::V)>;

    open spec fn deep_view(&self) -> Seq<(Seq<char>, V::V)> {
        self.entries.deep_view()
    }
}

impl<V: DeepView> View for Table<V> {
    type V = Seq<(Seq<char>, V::V)>;

    open spec fn view(&self) -> Seq<(Seq<char>, V::V)> {
        self.entries.deep_view()
    }
}

/// The index of the first entry with the key `key`, or -1 if there is none.
pub open spec fn key_index<T>(entries: Seq<(Seq<char>, T)>, key: Seq<char>) -> int
    decreases entries.len(),
{
    if entries.len() == 0 {
        -1
    } else {
        let before = key_index(entries.drop_last(), key);
        if before >= 0 {
            before
        } else if entries.last().0 == key {
            entries.len() - 1
        } else {
            -1
        }
    }
}

/// The value of the first entry with the key `key`.
pub open spec fn lookup<T>(entries: Seq<(Seq<char>, T)>, key: Seq<char>) -> Option<T> {
    let i = key_index(entries, key);
    if i < 0 {
        None
    } else {
        Some(entries[i].1)
    }
}

/// The entries with `value` under `key`: in the place of the first entry
/// with that key, or at the end where there is none.
pub open spec fn put<T>(entries: Seq<(Seq<char>, T)>, key: Seq<char>, value: T) -> Seq<
    (Seq<char>, T),
> {
    let i = key_index(entries, key);
    if i < 0 {
        entries.push((key, value))
    } else {
        entries.update(i, (key, value))
    }
}

/// The entries without the first one that has the key `key`.
pub open spec fn without<T>(entries: Seq<(Seq<char>, T)>, key: Seq<char>) -> Seq<(Seq<char>, T)> {
    let i = key_index(entries, key);
    if i < 0 {
        entries
    } else {
        entries.remove(i)
    }
}

/// Whether no key occurs twice.
pub open spec fn distinct_keys<T>(entries: Seq<(Seq<char>, T)>) -> bool {
    forall|i: int, j: int|
        0 <= i < j < entries.len() ==> (#[trigger] entries[i]).0 != (#[trigger] entries[j]).0
}

/// `key_index` finds the first entry with the key, exactly when there is one.
pub proof fn lemma_key_index<T>(entries: Seq<(Seq<char>, T)>, key: Seq<char>)
    ensures
        -1 <= key_index(entries, key) < entries.len(),
        key_index(entries, key) >= 0 ==> entries[key_index(entries, key)].0 == key,
        forall|j: int|
            0 <= j < entries.len() && (key_index(entries, key) < 0 || j < key_index(entries, key))
                ==> (#[trigger] entries[j]).0 != key,
    decreases entries.len(),
{
    if entries.len() > 0 {
        let front = entries.drop_last();
        lemma_key_index(front, key);
        assert forall|j: int|
            0 <= j < entries.len() && (key_index(entries, key) < 0 || j < key_index(
                entries,
                key,
            )) implies (#[trigger] entries[j]).0 != key by {
            if j < front.len() {
                assert(front[j] == entries[j]);
            }
        }
    }
}

/// An entry whose key no earlier entry has is the one that `key_index` finds.
pub proof fn lemma_key_index_is<T>(entries: Seq<(Seq<char>, T)>, key: Seq<char>, i: int)
    requires
        0 <= i < entries.len(),
        entries[i].0 == key,
        forall|j: int| 0 <= j < i ==> (#[trigger] entries[j]).0 != key,
    ensures
        key_index(entries, key) == i,
{
    lemma_key_index(entries, key);
}

/// Laws of a map: what was put under a key is found there, other keys keep
/// what they had, and no key comes to occur twice.
pub proof fn lemma_put<T>(entries: Seq<(Seq<char>, T)>, key: Seq<char>, value: T, other: Seq<char>)
    ensures
        lookup(put(entries, key, value), key) == Some(value),
        other != key ==> lookup(put(entries, key, value), other) == lookup(entries, other),
        distinct_keys(entries) ==> distinct_keys(put(entries, key, value)),
        key_index(entries, key) >= 0 ==> put(entries, key, value).len() == entries.len(),
        key_index(entries, key) < 0 ==> put(entries, key, value).len() == entries.len() + 1,
{
    let after = put(entries, key, value);
    let i = key_index(entries, key);
    lemma_key_index(entries, key);
    lemma_key_index(entries, other);
    lemma_key_index(after, key);
    lemma_key_index(after, other);
    if i < 0 {
        assert(after[entries.len() as int].0 == key);
        assert forall|j: int| 0 <= j < entries.len() implies after[j] == entries[j] by {}
        lemma_key_index_is(after, key, entries.len() as int);
        if other != key {
            let k = key_index(entries, other);
            if k >= 0 {
                assert(after[k] == entries[k]);
                lemma_key_index_is(after, other, k);
            } else {
                let k2 = key_index(after, other);
                if k2 >= 0 {
                    assert(k2 < entries.len());
                    assert(entries[k2].0 == other);
                }
            }
        }
    } else {
        assert forall|j: int| 0 <= j < entries.len() && j != i implies after[j] == entries[j] by {}
        assert(after[i].0 == key);
        lemma_key_index_is(after, key, i);
        if other != key {
            let k = key_index(entries, other);
            if k >= 0 {
                assert(k != i);
                assert(after[k] == entries[k]);
                assert forall|j: int| 0 <= j < k implies (#[trigger] after[j]).0 != other by {
                    if j != i {
                        assert(after[j] == entries[j]);
                    }
                }
                lemma_key_index_is(after, other, k);
            } else {
                let k2 = key_index(after, other);
                if k2 >= 0 {
                    assert(k2 != i);
                    assert(entries[k2].0 == other);
                }
            }
        }
        if distinct_keys(entries) {
            assert forall|a: int, b: int| 0 <= a < b < after.len() implies (#[trigger] after[a]).0
                != (#[trigger] after[b]).0 by {
                assert(after[a].0 == entries[a].0);
                assert(after[b].0 == entries[b].0);
            }
        }
    }
}

/// Taking an entry out brings no key to occur twice.
pub proof fn lemma_without<T>(entries: Seq<(Seq<char>, T)>, key: Seq<char>)
    requires
        distinct_keys(entries),
    ensures
        distinct_keys(without(entries, key)),
        lookup(without(entries, key), key) is None,
{
    let after = without(entries, key);
    let i = key_index(entries, key);
    lemma_key_index(entries, key);
    lemma_key_index(after, key);
    if i >= 0 {
        assert forall|a: int, b: int| 0 <= a < b < after.len() implies (#[trigger] after[a]).0
            != (#[trigger] after[b]).0 by {
            let a0 = if a < i {
                a
            } else {
                a + 1
            };
            let b0 = if b < i {
                b
            } else {
                b + 1
            };
            assert(after[a] == entries[a0]);
            assert(after[b] == entries[b0]);
        }
        let k = key_index(after, key);
        if k >= 0 {
            let k0 = if k < i {
                k
            } else {
                k + 1
            };
            assert(after[k] == entries[k0]);
            if k0 < i {
                assert(entries[k0].0 != entries[i].0);
            } else {
                assert(entries[i].0 != entries[k0].0);
            }
        }
    }
}

impl<V: DeepView> Table<V> {
    /// The table without entries.
    pub fn new() -> (r: Self)
        ensures
            r.deep_view() == Seq::<(Seq<char>, V::V)>::empty(),
    {
        let r = Table { entries: Vec::new() };
        assert(r.deep_view() =~= Seq::<(Seq<char>, V::V)>::empty());
        r
    }

    /// The number of entries.
    pub fn len(&self) -> (n: usize)
        ensures
            n == self.deep_view().len(),
    {
        self.entries.len()
    }

    /// Whether there is no entry.
    pub fn is_empty(&self) -> (b: bool)
        ensures
            b == (self.deep_view().len() == 0),
    {
        self.entries.len() == 0
    }

    /// The place of the first entry with the key `key`.
    pub fn index_of(&self, key: &str) -> (r: Option<usize>)
        ensures
            match r {
                Some(i) => i == key_index(self.deep_view(), key@) && i < self.entries.len(),
                None => key_index(self.deep_view(), key@) == -1,
            },
    {
        let wanted = key.to_owned();
        let mut i: usize = 0;
        while i < self.entries.len()
            invariant
                i <= self.entries.len(),
                wanted@ == key@,
                forall|j: int| 0 <= j < i ==> (#[trigger] self.deep_view()[j]).0 != key@,
            decreases self.entries.len() - i,
        {
            if self.entries[i].0 == wanted {
                proof {
                    assert(self.deep_view()[i as int].0 == key@);
                    lemma_key_index_is(self.deep_view(), key@, i as int);
                }
                return Some(i);
            }
            assert(self.deep_view()[i as int].0 == self.entries@[i as int].0@);
            i += 1;
        }
        proof {
            lemma_key_index(self.deep_view(), key@);
        }
        None
    }

    /// Whether an entry has the key `key`.
    pub fn contains_key(&self, key: &str) -> (b: bool)
        ensures
            b == (lookup(self.deep_view(), key@) is Some),
    {
        self.index_of(key).is_some()
    }

    /// The value under `key`.
    pub fn get(&self, key: &str) -> (r: Option<&V>)
        ensures
            r.deep_view() == lookup(self.deep_view(), key@),
    {
        match self.index_of(key) {
            Some(i) => {
                assert(self.deep_view()[i as int].1 == self.entries@[i as int].1.deep_view());
                Some(&self.entries[i].1)
            },
            None => None,
        }
    }

    /// Puts `value` under `key`: in the place of the value that the key had,
    /// or as a new entry at the end.
    pub fn insert(&mut self, key: String, value: V)
        ensures
            final(self).deep_view() == put(old(self).deep_view(), key@, value.deep_view()),
            distinct_keys(old(self).deep_view()) ==> distinct_keys(final(self).deep_view()),
    {
        proof {
            lemma_put(self.deep_view(), key@, value.deep_view(), key@);
        }
        match self.index_of(key.as_str()) {
            Some(i) => {
                let ghost before = self.deep_view();
                self.entries.remove(i);
                self.entries.insert(i, (key, value));
                assert(self.deep_view() =~= before.update(i as int, (key@, value.deep_view())));
            },
            None => {
                let ghost before = self.deep_view();
                self.entries.push((key, value));
                assert(self.deep_view() =~= before.push((key@, value.deep_view())));
            },
        }
    }

    /// Takes the entry with the key `key` out and hands its value back.
    pub fn remove(&mut self, key: &str) -> (r: Option<V>)
        ensures
            r.deep_view() == lookup(old(self).deep_view(), key@),
            final(self).deep_view() == without(old(self).deep_view(), key@),
            distinct_keys(old(self).deep_view()) ==> distinct_keys(final(self).deep_view()),
    {
        proof {
            if distinct_keys(self.deep_view()) {
                lemma_without(self.deep_view(), key@);
            }
        }
        match self.index_of(key) {
            Some(i) => {
                let ghost before = self.deep_view();
                assert(before[i as int].1 == self.entries@[i as int].1.deep_view());
                let (_, value) = self.entries.remove(i);
                assert(self.deep_view() =~= before.remove(i as int));
                Some(value)
            },
            None => None,
        }
    }
}

impl<V: DeepView> Default for Table<V> {
    /// The table without entries.
    fn default() -> (r: Self)
        ensures
            r.deep_view() == Seq::<(Seq<char>, V::V)>::empty(),
    {
        Table::new()
    }
}

} // verus!
