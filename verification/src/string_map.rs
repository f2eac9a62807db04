//! A small map from text keys to values, kept in insertion order.
//!
//! Where two entries hold the same key, the first one is the one that counts;
//! `insert` never adds a second.

use vstd::prelude::*;

verus! {

/// The value that a sequence of entries gives to `key`: that of the first
/// entry with this key.
pub open spec fn lookup<T>(entries: Seq<(Seq<char>, T)>, key: Seq<char>) -> Option<T>
    decreases entries.len(),
{
    if entries.len() == 0 {
        None
    } else if entries[0].0 == key {
        Some(entries[0].1)
    } else {
        lookup(entries.drop_first(), key)
    }
}

/// The map that a sequence of entries stands for.
pub open spec fn as_map<T>(entries: Seq<(Seq<char>, T)>) -> Map<Seq<char>, T> {
    Map::new(
        |key: Seq<char>| lookup(entries, key) is Some,
        |key: Seq<char>| lookup(entries, key).unwrap(),
    )
}

/// A key that no entry holds has no value.
pub proof fn lemma_lookup_absent<T>(entries: Seq<(Seq<char>, T)>, key: Seq<char>)
    requires
        forall|i: int| 0 <= i < entries.len() ==> (#[trigger] entries[i]).0 != key,
    ensures
        lookup(entries, key) is None,
    decreases entries.len(),
{
    if entries.len() > 0 {
        let rest = entries.drop_first();
        lemma_lookup_absent(rest, key);
    }
}

/// The first entry that holds a key gives the key its value.
pub proof fn lemma_lookup_first<T>(entries: Seq<(Seq<char>, T)>, key: Seq<char>, at: int)
    requires
        0 <= at < entries.len(),
        entries[at].0 == key,
        forall|i: int| 0 <= i < at ==> (#[trigger] entries[i]).0 != key,
    ensures
        lookup(entries, key) == Some(entries[at].1),
    decreases entries.len(),
{
    if at > 0 {
        let rest = entries.drop_first();
        lemma_lookup_first(rest, key, at - 1);
    }
}

/// Adding an entry at the end gives its key that value if the key had none,
/// and changes no other key.
pub proof fn lemma_lookup_push<T>(
    entries: Seq<(Seq<char>, T)>,
    key: Seq<char>,
    value: T,
    other: Seq<char>,
)
    ensures
        lookup(entries.push((key, value)), other) == if lookup(entries, other) is Some {
            lookup(entries, other)
        } else if other == key {
            Some(value)
        } else {
            None
        },
    decreases entries.len(),
{
    let longer = entries.push((key, value));
    if entries.len() == 0 {
        assert(longer.drop_first() =~= Seq::<(Seq<char>, T)>::empty());
    } else {
        assert(longer.drop_first() =~= entries.drop_first().push((key, value)));
        if entries[0].0 != other {
            lemma_lookup_push(entries.drop_first(), key, value, other);
        }
    }
}

/// Replacing the value of the first entry that holds a key changes the value
/// of that key and of no other.
pub proof fn lemma_lookup_update<T>(
    entries: Seq<(Seq<char>, T)>,
    at: int,
    value: T,
    other: Seq<char>,
)
    requires
        0 <= at < entries.len(),
        forall|i: int| 0 <= i < at ==> (#[trigger] entries[i]).0 != entries[at].0,
    ensures
        lookup(entries.update(at, (entries[at].0, value)), other) == if other == entries[at].0 {
            Some(value)
        } else {
            lookup(entries, other)
        },
    decreases entries.len(),
{
    let key = entries[at].0;
    let changed = entries.update(at, (key, value));
    if at == 0 {
        assert(changed.drop_first() =~= entries.drop_first());
    } else {
        let rest = entries.drop_first();
        assert(changed.drop_first() =~= rest.update(at - 1, (key, value)));
        if entries[0].0 != other {
            lemma_lookup_update(rest, at - 1, value, other);
        }
    }
}

/// A map from text keys to values of type `V`.
#[derive(Debug, Clone, PartialEq, Eq)]
pub struct StringMap<V> {
    pub entries: Vec<(String, V)>,
}

impl<V: View> StringMap<V> {
    /// The entries, each key and value by its view.
    pub open spec fn entry_views(&self) -> Seq<(Seq<char>, V::V)> {
        Seq::new(self.entries@.len(), |i: int| (self.entries@[i].0@, self.entries@[i].1@))
    }
}

impl<V: View> View for StringMap<V> {
    type V = Map<Seq<char>, V::V>;

    open spec fn view(&self) -> Self::V {
        as_map(self.entry_views())
    }
}

impl<V: View> StringMap<V> {
    /// The empty map.
    pub fn new() -> (map: Self)
        ensures
            map@ == Map::<Seq<char>, V::V>::empty(),
    {
        let map = StringMap { entries: Vec::new() };
        map
    }

    /// The position of the first entry that holds `key`.
    pub fn position(&self, key: &String) -> (at: Option<usize>)
        ensures
            match at {
                Some(i) => {
                    &&& i < self.entries@.len()
                    &&& self.entries@[i as int].0@ == key@
                    &&& lookup(self.entry_views(), key@) == Some(self.entries@[i as int].1@)
                    &&& forall|j: int| 0 <= j < i ==> (#[trigger] self.entry_views()[j]).0 != key@
                },
                None => lookup(self.entry_views(), key@) is None,
            },
    {
        let mut i: usize = 0;
        while i < self.entries.len()
            invariant
                i <= self.entries@.len(),
                forall|j: int| 0 <= j < i ==> (#[trigger] self.entry_views()[j]).0 != key@,
            decreases self.entries@.len() - i,
        {
            if self.entries[i].0 == *key {
                proof {
                    lemma_lookup_first(self.entry_views(), key@, i as int);
                }
                return Some(i);
            }
            i += 1;
        }
        proof {
            lemma_lookup_absent(self.entry_views(), key@);
        }
        None
    }

    /// The value of `key`, if it has one.
    pub fn get(&self, key: &String) -> (value: Option<&V>)
        ensures
            match value {
                Some(v) => self@.contains_key(key@) && self@[key@] == v@,
                None => !self@.contains_key(key@),
            },
    {
        match self.position(key) {
            Some(i) => Some(&self.entries[i].1),
            None => None,
        }
    }

    /// Whether `key` has a value.
    pub fn contains_key(&self, key: &String) -> (has: bool)
        ensures
            has == self@.contains_key(key@),
    {
        self.position(key).is_some()
    }

    /// Gives `key` the value `value`, in place of any earlier one.
    pub fn insert(&mut self, key: String, value: V)
        ensures
            final(self)@ == old(self)@.insert(key@, value@),
    {
        let ghost before = self.entry_views();
        match self.position(&key) {
            Some(i) => {
                self.entries[i] = (key, value);
                proof {
                    assert(self.entry_views() =~= before.update(i as int, (key@, value@)));
                    assert forall|other: Seq<char>|
                        lookup(self.entry_views(), other) == if other == key@ {
                            Some(value@)
                        } else {
                            lookup(before, other)
                        } by {
                        lemma_lookup_update(before, i as int, value@, other);
                    }
                }
            },
            None => {
                self.entries.push((key, value));
                proof {
                    assert(self.entry_views() =~= before.push((key@, value@)));
                    assert forall|other: Seq<char>|
                        lookup(self.entry_views(), other) == if other == key@ {
                            Some(value@)
                        } else {
                            lookup(before, other)
                        } by {
                        lemma_lookup_push(before, key@, value@, other);
                    }
                }
            },
        }
    }
}

} // verus!
