//! A table, whose keys are compared by what they stand for.

use vstd::hash_map::StringHashMap;
use vstd::prelude::*;

verus! {

/// A key of a [`Table`], with a way to find the place of its pair. Two keys are the same when their views
/// are equal.
pub trait Key: View + Sized {
    /// Holds the places of keys.
    type Index;

    /// The place of each key that an index holds.
    spec fn places(index: &Self::Index) -> Map<Self::V, usize>;

    /// An index that holds nothing.
    fn no_places() -> (index: Self::Index)
        ensures
            Self::places(&index) == Map::<Self::V, usize>::empty(),
    ;

    /// The place of this key.
    fn place_in(&self, index: &Self::Index) -> (res: Option<usize>)
        ensures
            match res {
                Some(place) => Self::places(index).contains_key(self@) && Self::places(
                    index,
                )[self@] == place,
                None => !Self::places(index).contains_key(self@),
            },
    ;

    /// Sets the place of this key.
    fn put_in(&self, index: &mut Self::Index, place: usize)
        ensures
            Self::places(final(index)) == Self::places(old(index)).insert(self@, place),
    ;

    /// Takes this key out of an index.
    fn drop_from(&self, index: &mut Self::Index)
        ensures
            Self::places(final(index)) == Self::places(old(index)).remove(self@),
    ;
}

impl Key for String {
    type Index = StringHashMap<usize>;

    closed spec fn places(index: &StringHashMap<usize>) -> Map<Seq<char>, usize> {
        index@
    }

    fn no_places() -> (index: StringHashMap<usize>) {
        StringHashMap::new()
    }

    fn place_in(&self, index: &StringHashMap<usize>) -> (res: Option<usize>) {
        match index.get(self.as_str()) {
            Some(place) => Some(*place),
            None => None,
        }
    }

    fn put_in(&self, index: &mut StringHashMap<usize>, place: usize) {
        index.insert(self.clone(), place);
    }

    fn drop_from(&self, index: &mut StringHashMap<usize>) {
        index.remove(self.as_str());
    }
}

/// A finite map, kept as a list of pairs with distinct keys and the place of each key in it.
pub struct Table<K: Key, V> {
    entries: Vec<(K, V)>,
    index: K::Index,
}

/// Whether some pair has the key `key`.
spec fn listed<K: Key, V>(entries: Seq<(K, V)>, key: K::V) -> bool {
    exists|i: int| 0 <= i < entries.len() && (#[trigger] entries[i]).0@ == key
}

/// Place of the pair with the key `key`.
spec fn place<K: Key, V>(entries: Seq<(K, V)>, key: K::V) -> int {
    choose|i: int| 0 <= i < entries.len() && (#[trigger] entries[i]).0@ == key
}

/// The map that a list of pairs stands for.
spec fn as_map<K: Key, V>(entries: Seq<(K, V)>) -> Map<K::V, V> {
    Map::new(|key: K::V| listed(entries, key), |key: K::V| entries[place(entries, key)].1)
}

/// No two pairs share a key.
spec fn distinct<K: Key, V>(entries: Seq<(K, V)>) -> bool {
    forall|i: int, j: int|
        0 <= i < j < entries.len() ==> (#[trigger] entries[i]).0@ != (#[trigger] entries[j]).0@
}

/// The places are those of the keys in the list.
spec fn indexed<K: Key, V>(entries: Seq<(K, V)>, places: Map<K::V, usize>) -> bool {
    &&& forall|i: int|
        0 <= i < entries.len() ==> places.contains_key((#[trigger] entries[i]).0@)
            && places[entries[i].0@] == i
    &&& forall|key: K::V| #[trigger]
        places.contains_key(key) ==> places[key] < entries.len()
            && entries[places[key] as int].0@ == key
}

/// Keys with places of their own are distinct.
proof fn lemma_indexed_is_distinct<K: Key, V>(entries: Seq<(K, V)>, places: Map<K::V, usize>)
    requires
        indexed(entries, places),
    ensures
        distinct(entries),
        forall|key: K::V| #[trigger] places.contains_key(key) == listed(entries, key),
{
    assert forall|key: K::V| #[trigger] places.contains_key(key) == listed(entries, key) by {
        if listed(entries, key) {
            assert(entries[place(entries, key)].0@ == key);
        }
    }
}

/// A pair of the list is a pair of the map.
proof fn lemma_pair<K: Key, V>(entries: Seq<(K, V)>, i: int)
    requires
        distinct(entries),
        0 <= i < entries.len(),
    ensures
        as_map(entries).contains_key(entries[i].0@),
        as_map(entries)[entries[i].0@] == entries[i].1,
{
    assert(listed(entries, entries[i].0@));
    assert(place(entries, entries[i].0@) == i);
}

proof fn lemma_push<K: Key, V>(entries: Seq<(K, V)>, pair: (K, V))
    requires
        distinct(entries),
        !listed(entries, pair.0@),
    ensures
        distinct(entries.push(pair)),
        as_map(entries.push(pair)) == as_map(entries).insert(pair.0@, pair.1),
{
    let grown = entries.push(pair);
    assert(distinct(grown));
    assert forall|key: K::V| listed(grown, key) == (key == pair.0@ || listed(entries, key)) by {
        if listed(entries, key) {
            let i = place(entries, key);
            assert(grown[i].0@ == key);
        }
        assert(grown[entries.len() as int].0@ == pair.0@);
        if listed(grown, key) {
            let i = place(grown, key);
            if i < entries.len() {
                assert(entries[i].0@ == key);
            }
        }
    }
    assert forall|key: K::V| listed(grown, key) implies as_map(grown)[key] == as_map(
        entries,
    ).insert(pair.0@, pair.1)[key] by {
        let i = place(grown, key);
        lemma_pair(grown, i);
        if i < entries.len() {
            assert(entries[i].0@ == key);
            lemma_pair(entries, i);
        }
    }
    assert(as_map(grown) =~= as_map(entries).insert(pair.0@, pair.1));
}

proof fn lemma_swap_remove<K: Key, V>(entries: Seq<(K, V)>, rest: Seq<(K, V)>, i: int)
    requires
        distinct(entries),
        0 <= i < entries.len(),
        rest == entries.update(i, entries.last()).drop_last(),
    ensures
        distinct(rest),
        as_map(rest) == as_map(entries).remove(entries[i].0@),
{
    let last = entries.len() - 1;
    assert forall|j: int| 0 <= j < rest.len() implies rest[j] == entries[if j == i {
        last
    } else {
        j
    }] by {}
    assert(distinct(rest)) by {
        assert forall|a: int, b: int| 0 <= a < b < rest.len() implies (#[trigger] rest[a]).0@ != (
        #[trigger] rest[b]).0@ by {
            let x = if a == i { last } else { a };
            let y = if b == i { last } else { b };
            assert(rest[a] == entries[x]);
            assert(rest[b] == entries[y]);
        }
    }
    assert forall|key: K::V| listed(rest, key) == (key != entries[i].0@ && listed(entries, key)) by {
        if listed(rest, key) {
            let j = place(rest, key);
            let x = if j == i { last } else { j };
            assert(rest[j] == entries[x]);
            assert(x != i);
        }
        if key != entries[i].0@ && listed(entries, key) {
            let j = place(entries, key);
            let x = if j == last { i } else { j };
            assert(rest[x] == entries[j]);
        }
    }
    assert forall|key: K::V| listed(rest, key) implies as_map(rest)[key] == as_map(entries)[key] by {
        let j = place(rest, key);
        let x = if j == i { last } else { j };
        assert(rest[j] == entries[x]);
        lemma_pair(rest, j);
        lemma_pair(entries, x);
    }
    assert(as_map(rest) =~= as_map(entries).remove(entries[i].0@));
}

proof fn lemma_update<K: Key, V>(entries: Seq<(K, V)>, i: int, value: V)
    requires
        distinct(entries),
        0 <= i < entries.len(),
    ensures
        distinct(entries.update(i, (entries[i].0, value))),
        as_map(entries.update(i, (entries[i].0, value))) == as_map(entries).insert(
            entries[i].0@,
            value,
        ),
{
    let changed = entries.update(i, (entries[i].0, value));
    assert forall|j: int| 0 <= j < entries.len() implies changed[j].0 == entries[j].0 by {}
    assert(distinct(changed)) by {
        assert forall|a: int, b: int| 0 <= a < b < changed.len() implies (
        #[trigger] changed[a]).0@ != (#[trigger] changed[b]).0@ by {
            assert(entries[a].0@ != entries[b].0@);
        }
    }
    assert forall|key: K::V| listed(changed, key) == listed(entries, key) by {
        if listed(entries, key) {
            assert(changed[place(entries, key)].0@ == key);
        }
        if listed(changed, key) {
            assert(entries[place(changed, key)].0@ == key);
        }
    }
    assert(changed[i].0@ == entries[i].0@);
    assert forall|key: K::V| listed(changed, key) implies as_map(changed)[key] == as_map(
        entries,
    ).insert(entries[i].0@, value)[key] by {
        let j = place(changed, key);
        lemma_pair(changed, j);
        lemma_pair(entries, j);
        assert(entries[j].0@ == key);
    }
    assert(as_map(changed) =~= as_map(entries).insert(entries[i].0@, value));
}

/// The map has as many keys as the list has pairs.
proof fn lemma_len<K: Key, V>(entries: Seq<(K, V)>)
    requires
        distinct(entries),
    ensures
        as_map(entries).dom().finite(),
        as_map(entries).len() == entries.len(),
    decreases entries.len(),
{
    if entries.len() == 0 {
        assert(as_map(entries).dom() =~= Set::empty());
    } else {
        let rest = entries.drop_last();
        let pair = entries.last();
        assert(distinct(rest));
        lemma_len(rest);
        assert(rest.push(pair) =~= entries);
        assert(!listed(rest, pair.0@)) by {
            if listed(rest, pair.0@) {
                let i = place(rest, pair.0@);
                assert(entries[i].0@ != entries[rest.len() as int].0@);
            }
        }
        lemma_push(rest, pair);
    }
}

impl<K: Key, V> View for Table<K, V> {
    type V = Map<K::V, V>;

    closed spec fn view(&self) -> Map<K::V, V> {
        as_map(self.entries@)
    }
}

impl<K: Key, V> Table<K, V> {
    #[verifier::type_invariant]
    spec fn in_place(self) -> bool {
        indexed(self.entries@, K::places(&self.index))
    }

    /// An empty table.
    pub fn new() -> (res: Self)
        ensures
            res@ == Map::<K::V, V>::empty(),
    {
        let res = Table { entries: Vec::new(), index: K::no_places() };
        assert(res@ =~= Map::<K::V, V>::empty());
        res
    }

    /// Number of keys.
    pub fn len(&self) -> (res: usize)
        ensures
            self@.dom().finite(),
            res == self@.len(),
    {
        proof {
            use_type_invariant(self);
            lemma_indexed_is_distinct(self.entries@, K::places(&self.index));
            lemma_len(self.entries@);
        }
        self.entries.len()
    }

    /// Whether there is no key.
    pub fn is_empty(&self) -> (res: bool)
        ensures
            res == (self@ == Map::<K::V, V>::empty()),
    {
        proof {
            use_type_invariant(self);
            lemma_indexed_is_distinct(self.entries@, K::places(&self.index));
            if self.entries@.len() > 0 {
                lemma_pair(self.entries@, 0);
            } else {
                assert(self@ =~= Map::<K::V, V>::empty());
            }
        }
        self.entries.len() == 0
    }

    fn find(&self, key: &K) -> (res: Option<usize>)
        ensures
            indexed(self.entries@, K::places(&self.index)),
            distinct(self.entries@),
            match res {
                Some(i) => i < self.entries@.len() && self.entries@[i as int].0@ == key@
                    && self@.contains_key(key@) && self@[key@] == self.entries@[i as int].1,
                None => !self@.contains_key(key@) && !listed(self.entries@, key@),
            },
    {
        proof {
            use_type_invariant(self);
            lemma_indexed_is_distinct(self.entries@, K::places(&self.index));
        }
        let res = key.place_in(&self.index);
        proof {
            if let Some(i) = res {
                lemma_pair(self.entries@, i as int);
            }
        }
        res
    }

    /// Whether `key` is in the table.
    pub fn contains_key(&self, key: &K) -> (res: bool)
        ensures
            res == self@.contains_key(key@),
    {
        self.find(key).is_some()
    }

    /// The value of `key`.
    pub fn get(&self, key: &K) -> (res: Option<&V>)
        ensures
            match res {
                Some(value) => self@.contains_key(key@) && *value == self@[key@],
                None => !self@.contains_key(key@),
            },
    {
        match self.find(key) {
            Some(i) => Some(&self.entries[i].1),
            None => None,
        }
    }

    /// Sets the value of `key`.
    pub fn insert(&mut self, key: K, value: V) -> (previous: Option<V>)
        ensures
            final(self)@ == old(self)@.insert(key@, value),
            match previous {
                Some(replaced) => old(self)@.contains_key(key@) && replaced == old(self)@[key@],
                None => !old(self)@.contains_key(key@),
            },
    {
        let found = self.find(&key);
        let ghost before = self.entries@;
        let mut taken: Table<K, V> = Table::new();
        std::mem::swap(self, &mut taken);
        let Table { mut entries, mut index } = taken;
        match found {
            Some(i) => {
                proof {
                    lemma_update(before, i as int, value);
                }
                let mut slot = value;
                std::mem::swap(&mut slot, &mut entries[i].1);
                assert(entries@ =~= before.update(i as int, (before[i as int].0, value)));
                *self = Table { entries, index };
                Some(slot)
            },
            None => {
                proof {
                    lemma_push(before, (key, value));
                }
                key.put_in(&mut index, entries.len());
                entries.push((key, value));
                proof {
                    assert forall|i: int| 0 <= i < entries@.len() implies K::places(
                        &index,
                    ).contains_key((#[trigger] entries@[i]).0@) && K::places(
                        &index,
                    )[entries@[i].0@] == i by {
                        if i < before.len() {
                            assert(entries@[i] == before[i]);
                        }
                    }
                }
                *self = Table { entries, index };
                None
            },
        }
    }

    /// Takes the pair at a place out of a list; the last one moves to the place.
    fn take_at(entries: &mut Vec<(K, V)>, index: &mut K::Index, i: usize) -> (pair: (K, V))
        requires
            indexed(old(entries)@, K::places(old(index))),
            i < old(entries)@.len(),
        ensures
            indexed(final(entries)@, K::places(final(index))),
            pair == old(entries)@[i as int],
            as_map(final(entries)@) == as_map(old(entries)@).remove(pair.0@),
    {
        let ghost before = entries@;
        proof {
            lemma_indexed_is_distinct(before, K::places(index));
        }
        let pair = entries.swap_remove(i);
        proof {
            lemma_swap_remove(before, entries@, i as int);
        }
        pair.0.drop_from(index);
        if i < entries.len() {
            entries[i].0.put_in(index, i);
        }
        proof {
            let last = before.len() - 1;
            assert forall|j: int| 0 <= j < entries@.len() implies K::places(index).contains_key(
                (#[trigger] entries@[j]).0@,
            ) && K::places(index)[entries@[j].0@] == j by {
                let x = if j == i { last } else { j };
                assert(entries@[j] == before[x]);
                if i < last {
                    assert(before[last].0@ != before[i as int].0@);
                }
            }
            assert forall|key: K::V| #[trigger] K::places(index).contains_key(key) implies K::places(
                index,
            )[key] < entries@.len() && entries@[K::places(index)[key] as int].0@ == key by {
                if key == before[last].0@ {
                    assert(i < last);
                    assert(entries@[i as int] == before[last]);
                }
            }
        }
        pair
    }

    /// Takes `key` out of the table.
    pub fn remove(&mut self, key: &K) -> (taken: Option<V>)
        ensures
            final(self)@ == old(self)@.remove(key@),
            match taken {
                Some(value) => old(self)@.contains_key(key@) && value == old(self)@[key@],
                None => !old(self)@.contains_key(key@),
            },
    {
        match self.find(key) {
            Some(i) => {
                let mut taken: Table<K, V> = Table::new();
                std::mem::swap(self, &mut taken);
                let Table { mut entries, mut index } = taken;
                let pair = Self::take_at(&mut entries, &mut index, i);
                *self = Table { entries, index };
                Some(pair.1)
            },
            None => {
                assert(self@.remove(key@) =~= self@);
                None
            },
        }
    }

    /// Some key of the table.
    pub fn any_key(&self) -> (res: Option<&K>)
        ensures
            match res {
                Some(key) => self@.contains_key(key@),
                None => self@ == Map::<K::V, V>::empty(),
            },
    {
        proof {
            use_type_invariant(self);
            lemma_indexed_is_distinct(self.entries@, K::places(&self.index));
            if self.entries@.len() > 0 {
                lemma_pair(self.entries@, 0);
            } else {
                assert(self@ =~= Map::<K::V, V>::empty());
            }
        }
        if self.entries.len() == 0 {
            None
        } else {
            Some(&self.entries[0].0)
        }
    }

    /// Takes some pair out of the table.
    pub fn pop(&mut self) -> (taken: Option<(K, V)>)
        ensures
            match taken {
                Some(pair) => old(self)@.contains_key(pair.0@) && pair.1 == old(self)@[pair.0@]
                    && final(self)@ == old(self)@.remove(pair.0@),
                None => old(self)@ == Map::<K::V, V>::empty() && final(self)@ == old(self)@,
            },
    {
        proof {
            use_type_invariant(&*self);
            lemma_indexed_is_distinct(self.entries@, K::places(&self.index));
        }
        let count = self.entries.len();
        if count == 0 {
            assert(self@ =~= Map::<K::V, V>::empty());
            return None;
        }
        proof {
            lemma_pair(self.entries@, count - 1);
        }
        let mut taken: Table<K, V> = Table::new();
        std::mem::swap(self, &mut taken);
        let Table { mut entries, mut index } = taken;
        let pair = Self::take_at(&mut entries, &mut index, count - 1);
        *self = Table { entries, index };
        Some(pair)
    }
}

} // verus!
