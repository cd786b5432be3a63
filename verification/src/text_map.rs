//! A map from texts to values whose entries can be walked in turn.

use vstd::prelude::*;

use crate::outside::{slot_map_get, slot_map_insert, slot_map_new, slot_map_remove, slots};
use crate::seqs::{first_from, lemma_first_from, lemma_first_skips};

verus! {

/// A value under a key.
#[derive(Debug)]
pub struct Entry<V> {
    pub key: String,
    pub value: V,
}

/// A map from texts to values. The entries stand in a row, and a hash map says
/// where in it each key is.
#[derive(Debug)]
pub struct TextMap<V> {
    pub entries: Vec<Entry<V>>,
    /// Where in `entries` each key is.
    pub slots: foldhash::HashMap<String, usize>,
}

pub open spec fn keyed<V>(key: Seq<char>) -> spec_fn(Entry<V>) -> bool {
    |entry: Entry<V>| entry.key@ == key
}

/// Where the entry of `key` stands.
pub open spec fn position<V>(entries: Seq<Entry<V>>, key: Seq<char>) -> Option<int> {
    first_from(entries, keyed(key), 0)
}

/// What is found under each key. In which order the entries stand is no part of
/// it.
impl<V> View for TextMap<V> {
    type V = Map<Seq<char>, V>;

    open spec fn view(&self) -> Map<Seq<char>, V> {
        Map::new(
            |key: Seq<char>| position(self.entries@, key) is Some,
            |key: Seq<char>| self.entries@[position(self.entries@, key)->0].value,
        )
    }
}

/// No key is listed twice.
pub open spec fn keys_differ<V>(entries: Seq<Entry<V>>) -> bool {
    forall|i: int, j: int|
        0 <= i < j < entries.len() ==> (#[trigger] entries[i]).key@ != (#[trigger] entries[j]).key@
}

/// An entry stands where its key is looked up.
pub proof fn lemma_entry_position<V>(entries: Seq<Entry<V>>, index: int)
    requires
        keys_differ(entries),
        0 <= index < entries.len(),
    ensures
        position(entries, entries[index].key@) == Some(index),
{
    let key = entries[index].key@;
    assert forall|i: int| 0 <= i < index implies !keyed::<V>(key)(#[trigger] entries[i]) by {}
    lemma_first_skips(entries, keyed(key), 0, index);
}

/// A key that is found stands where it is found.
pub proof fn lemma_position<V>(entries: Seq<Entry<V>>, key: Seq<char>)
    ensures
        match position(entries, key) {
            Some(index) => 0 <= index < entries.len() && entries[index].key@ == key,
            None => forall|i: int| 0 <= i < entries.len() ==> (#[trigger] entries[i]).key@ != key,
        },
{
    lemma_first_from(entries, keyed(key), 0);
    if position(entries, key) is None {
        assert forall|i: int| 0 <= i < entries.len() implies (#[trigger] entries[i]).key@ != key by {
            assert(!keyed::<V>(key)(entries[i]));
        }
    }
}

impl<V> TextMap<V> {
    /// The hash map gives the place of every entry, and nothing else.
    pub open spec fn indexed(self) -> bool {
        let places = slots(self.slots);
        &&& forall|i: int|
            0 <= i < self.entries@.len() ==> places.dom().contains(
                (#[trigger] self.entries@[i]).key@,
            ) && places[self.entries@[i].key@] == i
        &&& forall|key: Seq<char>| #[trigger]
            places.dom().contains(key) ==> places[key] < self.entries@.len()
                && self.entries@[places[key] as int].key@ == key
    }

    pub open spec fn wf(self) -> bool {
        keys_differ(self.entries@) && self.indexed()
    }

    pub fn new() -> (map: TextMap<V>)
        ensures
            map.wf(),
            map@ == Map::<Seq<char>, V>::empty(),
    {
        let map: TextMap<V> = TextMap { entries: Vec::new(), slots: slot_map_new() };
        assert(map@ =~= Map::<Seq<char>, V>::empty());
        map
    }

    /// Where the entry of `key` stands.
    fn find(&self, key: &str) -> (index: Option<usize>)
        requires
            self.wf(),
        ensures
            position(self.entries@, key@) == match index {
                Some(index) => Some(index as int),
                None => None,
            },
            index matches Some(index) ==> index < self.entries@.len()
                && self.entries@[index as int].key@ == key@,
            index is Some <==> slots(self.slots).dom().contains(key@),
    {
        match slot_map_get(&self.slots, key) {
            Some(slot) => {
                proof {
                    lemma_entry_position(self.entries@, *slot as int);
                }
                Some(*slot)
            },
            None => {
                proof {
                    lemma_position(self.entries@, key@);
                }
                None
            },
        }
    }

    /// The value under `key`.
    pub fn get(&self, key: &str) -> (value: Option<&V>)
        requires
            self.wf(),
        ensures
            match value {
                Some(value) => self@.dom().contains(key@) && *value == self@[key@],
                None => !self@.dom().contains(key@),
            },
    {
        match self.find(key) {
            Some(index) => Some(&self.entries[index].value),
            None => None,
        }
    }

    pub fn contains_key(&self, key: &str) -> (yes: bool)
        requires
            self.wf(),
        ensures
            yes == self@.dom().contains(key@),
    {
        self.find(key).is_some()
    }

    /// Put `value` under `key`, in place of what was there.
    pub fn insert(&mut self, key: String, value: V)
        requires
            old(self).wf(),
        ensures
            final(self).wf(),
            final(self)@ == old(self)@.insert(key@, value),
    {
        let ghost before = self.entries@;
        let ghost name = key@;
        match self.find(key.as_str()) {
            Some(index) => {
                self.entries.set(index, Entry { key, value });
                proof {
                    let after = self.entries@;
                    assert(forall|i: int|
                        0 <= i < after.len() ==> (#[trigger] after[i]).key@ == before[i].key@);
                    assert forall|i: int| 0 <= i < before.len() && before[i].key@
                        != name implies after.contains(#[trigger] before[i]) by {
                        assert(after[i] == before[i]);
                    }
                    assert(after[index as int].key@ == name && after[index as int].value == value);
                    lemma_map_of_entries(before, after, name, Some(value));
                }
            },
            None => {
                slot_map_insert(&mut self.slots, key.as_str().to_string(), self.entries.len());
                self.entries.push(Entry { key, value });
                proof {
                    let after = self.entries@;
                    lemma_position(before, name);
                    assert forall|i: int| 0 <= i < before.len() implies after.contains(
                        #[trigger] before[i],
                    ) by {
                        assert(after[i] == before[i]);
                    }
                    assert(after[before.len() as int].key@ == name);
                    lemma_map_of_entries(before, after, name, Some(value));
                }
            },
        }
        assert(self@ =~= old(self)@.insert(name, value));
    }

    /// Take the entry of `key` out, if there is one. The last entry takes its
    /// place in the row.
    pub fn remove(&mut self, key: &str) -> (value: Option<V>)
        requires
            old(self).wf(),
        ensures
            final(self).wf(),
            final(self)@ == old(self)@.remove(key@),
            match value {
                Some(value) => old(self)@.dom().contains(key@) && value == old(self)@[key@],
                None => !old(self)@.dom().contains(key@),
            },
    {
        let ghost before = self.entries@;
        match self.find(key) {
            Some(index) => {
                slot_map_remove(&mut self.slots, key);
                let entry = self.entries.swap_remove(index);
                if index < self.entries.len() {
                    let moved = self.entries[index].key.as_str().to_string();
                    slot_map_insert(&mut self.slots, moved, index);
                }
                proof {
                    let after = self.entries@;
                    assert forall|i: int| 0 <= i < after.len() implies #[trigger] after[i] == if i
                        == index {
                        before.last()
                    } else {
                        before[i]
                    } by {}
                    assert forall|i: int| 0 <= i < before.len() && i != index implies (
                    #[trigger] before[i]).key@ != key@ by {}
                    assert forall|i: int| 0 <= i < before.len() && i != index implies after.contains(
                        #[trigger] before[i],
                    ) by {
                        if i < after.len() {
                            assert(after[i] == before[i]);
                        } else {
                            assert(after[index as int] == before[i]);
                        }
                    }
                    lemma_map_of_entries(before, after, key@, None);
                }
                assert(self@ =~= old(self)@.remove(key@));
                Some(entry.value)
            },
            None => {
                assert(self@ =~= old(self)@.remove(key@));
                None
            },
        }
    }
}

/// Where `after` holds the entries of `before` but for that of `key`, and for
/// `key` the given value, looking up in it gives that.
proof fn lemma_map_of_entries<V>(
    before: Seq<Entry<V>>,
    after: Seq<Entry<V>>,
    key: Seq<char>,
    value: Option<V>,
)
    requires
        keys_differ(before),
        keys_differ(after),
        forall|i: int|
            0 <= i < before.len() && before[i].key@ != key ==> after.contains(#[trigger] before[i]),
        forall|i: int|
            0 <= i < after.len() && after[i].key@ != key ==> before.contains(#[trigger] after[i]),
        match value {
            Some(value) => exists|i: int|
                0 <= i < after.len() && (#[trigger] after[i]).key@ == key && after[i].value == value,
            None => forall|i: int| 0 <= i < after.len() ==> (#[trigger] after[i]).key@ != key,
        },
    ensures
        match value {
            Some(value) => position(after, key) is Some && after[position(after, key)->0].value
                == value,
            None => position(after, key) is None,
        },
        forall|wanted: Seq<char>|
            wanted != key ==> (#[trigger] position(after, wanted) is Some <==> position(
                before,
                wanted,
            ) is Some) && (position(after, wanted) is Some ==> after[position(after, wanted)->0]
                == before[position(before, wanted)->0]),
{
    lemma_position(after, key);
    if let Some(value) = value {
        let i = choose|i: int|
            0 <= i < after.len() && (#[trigger] after[i]).key@ == key && after[i].value == value;
        lemma_entry_position(after, i);
    }
    assert forall|wanted: Seq<char>| wanted != key implies (#[trigger] position(
        after,
        wanted,
    ) is Some <==> position(before, wanted) is Some) && (position(after, wanted) is Some
        ==> after[position(after, wanted)->0] == before[position(before, wanted)->0]) by {
        lemma_position(before, wanted);
        lemma_position(after, wanted);
        if let Some(at) = position(before, wanted) {
            assert(after.contains(before[at]));
            let i = choose|i: int| 0 <= i < after.len() && after[i] == before[at];
            lemma_entry_position(after, i);
        }
        if let Some(at) = position(after, wanted) {
            assert(before.contains(after[at]));
            let i = choose|i: int| 0 <= i < before.len() && before[i] == after[at];
            lemma_entry_position(before, i);
        }
    }
}

} // verus!
