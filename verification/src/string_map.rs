//! A map from strings that remembers the order in which its keys came.
use vstd::prelude::*;

use crate::text::str_eq;

verus! {

/// The value under the first entry with the given key.
pub open spec fn lookup<V>(entries: Seq<(Seq<char>, V)>, key: Seq<char>) -> Option<V>
    decreases entries.len(),
{
    if entries.len() == 0 {
        None
    } else if entries[0].0 == key {
        Some(entries[0].1)
    } else {
        lookup(entries.drop_first(), key)
    }
}

/// Whether no two entries have the same key.
pub open spec fn distinct_keys<V>(entries: Seq<(Seq<char>, V)>) -> bool {
    forall|i: int, j: int|
        0 <= i < j < entries.len() ==> (#[trigger] entries[i]).0 != (#[trigger] entries[j]).0
}

/// The entries after a key was given a value: in its place where the key was
/// there before, at the end where it was not.
pub open spec fn inserted<V>(entries: Seq<(Seq<char>, V)>, key: Seq<char>, value: V) -> Seq<
    (Seq<char>, V),
>
    decreases entries.len(),
{
    if entries.len() == 0 {
        seq![(key, value)]
    } else if entries[0].0 == key {
        seq![(key, value)] + entries.drop_first()
    } else {
        seq![entries[0]] + inserted(entries.drop_first(), key, value)
    }
}

/// A map from strings to values. Its entries stand in the order in which their
/// keys first came, and no two of them have the same key.
#[derive(Debug)]
pub struct StringMap<V> {
    entries: Vec<(String, V)>,
}

impl<V> View for StringMap<V> {
    type V = Seq<(Seq<char>, V)>;

    /// The entries, each a key and its value.
    closed spec fn view(&self) -> Seq<(Seq<char>, V)> {
        self.entries@.map_values(|entry: (String, V)| (entry.0@, entry.1))
    }
}

/// The first entry with a key gives the key's value, where the entries before it
/// have other keys.
pub proof fn lemma_lookup_at<V>(entries: Seq<(Seq<char>, V)>, key: Seq<char>, at: int)
    requires
        0 <= at < entries.len(),
        entries[at].0 == key,
        forall|j: int| 0 <= j < at ==> (#[trigger] entries[j]).0 != key,
    ensures
        lookup(entries, key) == Some(entries[at].1),
    decreases entries.len(),
{
    if at > 0 {
        assert(entries[0].0 != key);
        let rest = entries.drop_first();
        assert forall|j: int| 0 <= j < at - 1 implies (#[trigger] rest[j]).0 != key by {
            assert(rest[j] == entries[j + 1]);
        }
        lemma_lookup_at(rest, key, at - 1);
    }
}

/// A key that no entry has gives nothing.
pub proof fn lemma_lookup_absent<V>(entries: Seq<(Seq<char>, V)>, key: Seq<char>)
    requires
        forall|j: int| 0 <= j < entries.len() ==> (#[trigger] entries[j]).0 != key,
    ensures
        lookup(entries, key) is None,
    decreases entries.len(),
{
    if entries.len() > 0 {
        assert(entries[0].0 != key);
        let rest = entries.drop_first();
        assert forall|j: int| 0 <= j < rest.len() implies (#[trigger] rest[j]).0 != key by {
            assert(rest[j] == entries[j + 1]);
        }
        lemma_lookup_absent(rest, key);
    }
}

/// A key that is there gets its value in its place, and the other entries stay.
pub proof fn law_insert_replaces<V>(entries: Seq<(Seq<char>, V)>, key: Seq<char>, value: V, at: int)
    requires
        0 <= at < entries.len(),
        entries[at].0 == key,
        forall|j: int| 0 <= j < at ==> (#[trigger] entries[j]).0 != key,
    ensures
        inserted(entries, key, value) == entries.update(at, (key, value)),
    decreases entries.len(),
{
    if at > 0 {
        assert(entries[0].0 != key);
        let rest = entries.drop_first();
        assert forall|j: int| 0 <= j < at - 1 implies (#[trigger] rest[j]).0 != key by {
            assert(rest[j] == entries[j + 1]);
        }
        law_insert_replaces(rest, key, value, at - 1);
    }
    assert(inserted(entries, key, value) =~= entries.update(at, (key, value)));
}

/// A key that is not there gets an entry behind the others, which stay.
pub proof fn law_insert_appends<V>(entries: Seq<(Seq<char>, V)>, key: Seq<char>, value: V)
    requires
        forall|j: int| 0 <= j < entries.len() ==> (#[trigger] entries[j]).0 != key,
    ensures
        inserted(entries, key, value) == entries.push((key, value)),
    decreases entries.len(),
{
    if entries.len() > 0 {
        assert(entries[0].0 != key);
        let rest = entries.drop_first();
        assert forall|j: int| 0 <= j < rest.len() implies (#[trigger] rest[j]).0 != key by {
            assert(rest[j] == entries[j + 1]);
        }
        law_insert_appends(rest, key, value);
    }
    assert(inserted(entries, key, value) =~= entries.push((key, value)));
}

/// What a key was given is what it gives back, and every other key gives what
/// it gave before.
pub proof fn law_lookup_after_insert<V>(
    entries: Seq<(Seq<char>, V)>,
    key: Seq<char>,
    value: V,
    other: Seq<char>,
)
    ensures
        lookup(inserted(entries, key, value), key) == Some(value),
        other != key ==> lookup(inserted(entries, key, value), other) == lookup(entries, other),
    decreases entries.len(),
{
    let after = inserted(entries, key, value);
    if entries.len() == 0 {
        assert(after.drop_first() =~= entries);
    } else {
        if entries[0].0 == key {
            assert(after.drop_first() =~= entries.drop_first());
        } else {
            law_lookup_after_insert(entries.drop_first(), key, value, other);
            assert(after.drop_first() =~= inserted(entries.drop_first(), key, value));
        }
    }
}

impl<V> StringMap<V> {
    #[verifier::type_invariant]
    spec fn keys_are_distinct(self) -> bool {
        distinct_keys(self@)
    }

    /// A map without entries.
    pub fn new() -> (map: StringMap<V>)
        ensures
            map@ == Seq::<(Seq<char>, V)>::empty(),
    {
        let entries: Vec<(String, V)> = Vec::new();
        let map = StringMap { entries };
        assert(map@ =~= Seq::<(Seq<char>, V)>::empty());
        map
    }

    /// Whether the map has no entries.
    pub fn is_empty(&self) -> (empty: bool)
        ensures
            empty == (self@.len() == 0),
    {
        self.entries.len() == 0
    }

    /// The number of entries.
    pub fn len(&self) -> (len: usize)
        ensures
            len == self@.len(),
            distinct_keys(self@),
    {
        proof {
            use_type_invariant(self);
        }
        self.entries.len()
    }

    /// The key of an entry.
    pub fn key_at(&self, i: usize) -> (key: &str)
        requires
            i < self@.len(),
        ensures
            key@ == self@[i as int].0,
    {
        self.entries[i].0.as_str()
    }

    /// The value of an entry.
    pub fn value_at(&self, i: usize) -> (value: &V)
        requires
            i < self@.len(),
        ensures
            *value == self@[i as int].1,
    {
        &self.entries[i].1
    }

    /// The position of a key.
    fn position(&self, key: &str) -> (position: Option<usize>)
        ensures
            match position {
                Some(at) => at < self@.len() && self@[at as int].0 == key@ && forall|j: int|
                    0 <= j < at ==> (#[trigger] self@[j]).0 != key@,
                None => forall|j: int| 0 <= j < self@.len() ==> (#[trigger] self@[j]).0 != key@,
            },
    {
        for i in 0..self.entries.len()
            invariant
                forall|j: int| 0 <= j < i ==> (#[trigger] self@[j]).0 != key@,
        {
            if str_eq(self.entries[i].0.as_str(), key) {
                return Some(i);
            }
        }
        None
    }

    /// The value of a key.
    pub fn get(&self, key: &str) -> (value: Option<&V>)
        ensures
            match value {
                Some(found) => lookup(self@, key@) == Some(*found),
                None => lookup(self@, key@) is None,
            },
    {
        match self.position(key) {
            Some(at) => {
                proof {
                    lemma_lookup_at(self@, key@, at as int);
                }
                Some(&self.entries[at].1)
            },
            None => {
                proof {
                    lemma_lookup_absent(self@, key@);
                }
                None
            },
        }
    }

    /// Give a key a value, in place of the one it had.
    pub fn insert(&mut self, key: String, value: V)
        ensures
            final(self)@ == inserted(old(self)@, key@, value),
            distinct_keys(final(self)@),
    {
        proof {
            use_type_invariant(&*self);
        }
        let ghost before = self@;
        let position = self.position(key.as_str());
        let mut taken = StringMap::new();
        core::mem::swap(self, &mut taken);
        let StringMap { mut entries } = taken;
        match position {
            Some(at) => {
                proof {
                    law_insert_replaces(before, key@, value, at as int);
                }
                entries.set(at, (key, value));
                assert(StringMap { entries }@ =~= before.update(at as int, (key@, value)));
            },
            None => {
                proof {
                    law_insert_appends(before, key@, value);
                }
                entries.push((key, value));
                assert(StringMap { entries }@ =~= before.push((key@, value)));
            },
        }
        *self = StringMap { entries };
    }
}

/// No key occurs twice exactly when no entry was put behind one with its key.
pub proof fn law_distinct_keys<V>(entries: Seq<(Seq<char>, V)>, key: Seq<char>, value: V)
    ensures
        distinct_keys(Seq::<(Seq<char>, V)>::empty()),
        distinct_keys(entries.push((key, value))) <==> distinct_keys(entries) && lookup(
            entries,
            key,
        ) is None,
{
    let longer = entries.push((key, value));
    assert forall|i: int| 0 <= i < entries.len() implies longer[i] == #[trigger] entries[i] by {}
    if distinct_keys(longer) {
        assert forall|j: int| 0 <= j < entries.len() implies (#[trigger] entries[j]).0 != key by {
            assert(longer[j].0 != longer[entries.len() as int].0);
        }
        assert forall|i: int, j: int| 0 <= i < j < entries.len() implies (#[trigger] entries[i]).0
            != (#[trigger] entries[j]).0 by {
            assert(longer[i].0 != longer[j].0);
        }
        lemma_lookup_absent(entries, key);
    }
    if distinct_keys(entries) && lookup(entries, key) is None {
        assert forall|i: int, j: int| 0 <= i < j < longer.len() implies (#[trigger] longer[i]).0 != (
        #[trigger] longer[j]).0 by {
            if j == entries.len() && longer[i].0 == key {
                law_present_key_is_found(entries, key, i);
            } else if j < entries.len() {
                assert(entries[i].0 != entries[j].0);
            }
        }
    }
}

/// A key that some entry has is found.
pub proof fn law_present_key_is_found<V>(entries: Seq<(Seq<char>, V)>, key: Seq<char>, at: int)
    requires
        0 <= at < entries.len(),
        entries[at].0 == key,
    ensures
        lookup(entries, key) is Some,
        distinct_keys(entries) ==> lookup(entries, key) == Some(entries[at].1),
    decreases entries.len(),
{
    if at > 0 && entries[0].0 != key {
        let rest = entries.drop_first();
        assert(rest[at - 1] == entries[at]);
        law_present_key_is_found(rest, key, at - 1);
        if distinct_keys(entries) {
            assert forall|i: int, j: int| 0 <= i < j < rest.len() implies (#[trigger] rest[i]).0 != (
            #[trigger] rest[j]).0 by {
                assert(entries[i + 1].0 != entries[j + 1].0);
            }
        }
    }
}

} // verus!
