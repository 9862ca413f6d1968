//! A map from texts to values that keeps its keys in order.
use vstd::prelude::*;

use crate::text::{chars_of, precedes};

verus! {

/// How two texts compare.
#[derive(Clone, Copy, Debug, Eq, PartialEq, Structural)]
pub enum Order {
    Before,
    Same,
    After,
}

/// No text precedes itself.
pub proof fn lemma_precedes_irreflexive(a: Seq<char>)
    ensures
        !precedes(a, a),
    decreases a.len(),
{
    if a.len() > 0 {
        lemma_precedes_irreflexive(a.drop_first());
    }
}

/// Precedence carries over.
pub proof fn lemma_precedes_transitive(a: Seq<char>, b: Seq<char>, c: Seq<char>)
    requires
        precedes(a, b),
        precedes(b, c),
    ensures
        precedes(a, c),
    decreases a.len(),
{
    if a.len() > 0 && a[0] == b[0] && b[0] == c[0] {
        lemma_precedes_transitive(a.drop_first(), b.drop_first(), c.drop_first());
    }
}

/// Whichever of two texts differ, one of them precedes the other.
pub proof fn lemma_precedes_total(a: Seq<char>, b: Seq<char>)
    ensures
        precedes(a, b) || a == b || precedes(b, a),
    decreases a.len(),
{
    if a.len() == 0 || b.len() == 0 {
        if a.len() == b.len() {
            assert(a =~= b);
        }
    } else if a[0] == b[0] {
        lemma_precedes_total(a.drop_first(), b.drop_first());
        if a.drop_first() == b.drop_first() {
            assert(a =~= seq![a[0]] + a.drop_first());
        }
    }
}

/// Compares two texts character by character.
pub fn text_order(a: &str, b: &str) -> (order: Order)
    ensures
        match order {
            Order::Before => precedes(a@, b@),
            Order::Same => a@ == b@,
            Order::After => precedes(b@, a@),
        },
{
    let left = chars_of(a);
    let right = chars_of(b);
    let mut i: usize = 0;
    proof {
        assert(a@.skip(0) =~= a@);
        assert(b@.skip(0) =~= b@);
    }
    while i < left.len() && i < right.len() && left[i] == right[i]
        invariant
            left@ == a@,
            right@ == b@,
            i <= left@.len(),
            i <= right@.len(),
            left@.take(i as int) == right@.take(i as int),
            precedes(a@, b@) == precedes(a@.skip(i as int), b@.skip(i as int)),
            precedes(b@, a@) == precedes(b@.skip(i as int), a@.skip(i as int)),
        decreases left@.len() - i,
    {
        proof {
            assert(a@.skip(i as int).drop_first() =~= a@.skip(i + 1));
            assert(b@.skip(i as int).drop_first() =~= b@.skip(i + 1));
        }
        i += 1;
    }
    if i == left.len() && i == right.len() {
        Order::Same
    } else if i == left.len() {
        Order::Before
    } else if i == right.len() {
        Order::After
    } else if left[i] < right[i] {
        Order::Before
    } else {
        Order::After
    }
}

/// A map from texts to values, in the order of its keys.
#[derive(Debug)]
pub struct TextMap<V> {
    entries: Vec<(String, V)>,
}

/// The keys of entries.
pub open spec fn keys_of<V>(entries: Seq<(String, V)>) -> Seq<Seq<char>> {
    Seq::new(entries.len(), |i: int| entries[i].0@)
}

/// Whether every key comes strictly before the next ones.
pub open spec fn ascending(keys: Seq<Seq<char>>) -> bool {
    forall|i: int, j: int| 0 <= i < j < keys.len() ==> precedes(#[trigger] keys[i], #[trigger] keys[j])
}

/// The map that entries hold.
pub open spec fn map_of<V>(entries: Seq<(String, V)>) -> Map<Seq<char>, V>
    decreases entries.len(),
{
    if entries.len() == 0 {
        Map::empty()
    } else {
        map_of(entries.drop_last()).insert(entries.last().0@, entries.last().1)
    }
}

/// The keys of ascending entries are distinct, and the map holds each of them with its value.
proof fn lemma_map_of<V>(entries: Seq<(String, V)>)
    requires
        ascending(keys_of(entries)),
    ensures
        forall|i: int|
            0 <= i < entries.len() ==> map_of(entries).dom().contains(#[trigger] entries[i].0@)
                && map_of(entries)[entries[i].0@] == entries[i].1,
        forall|k: Seq<char>| #[trigger] map_of(entries).dom().contains(k) ==> keys_of(entries).contains(k),
    decreases entries.len(),
{
    if entries.len() > 0 {
        let before = entries.drop_last();
        let keys = keys_of(entries);
        assert(keys_of(before) =~= keys.drop_last());
        lemma_map_of(before);
        assert forall|i: int| 0 <= i < entries.len() implies map_of(entries).dom().contains(
            #[trigger] entries[i].0@,
        ) && map_of(entries)[entries[i].0@] == entries[i].1 by {
            if i < before.len() {
                assert(before[i] == entries[i]);
                assert(precedes(keys[i], keys[entries.len() - 1]));
                lemma_precedes_irreflexive(keys[i]);
            }
        }
        assert forall|k: Seq<char>| #[trigger] map_of(entries).dom().contains(k) implies keys.contains(
            k,
        ) by {
            if k == entries.last().0@ {
                assert(keys[entries.len() - 1] == k);
            } else {
                assert(map_of(before).dom().contains(k));
            }
        }
    }
}

/// A key that no entry has is not in the map.
proof fn lemma_absent<V>(entries: Seq<(String, V)>, key: Seq<char>)
    requires
        ascending(keys_of(entries)),
        forall|i: int| 0 <= i < entries.len() ==> (#[trigger] entries[i]).0@ != key,
    ensures
        !map_of(entries).dom().contains(key),
{
    lemma_map_of(entries);
}

impl<V> TextMap<V> {
    /// The keys, in order.
    pub closed spec fn keys(self) -> Seq<Seq<char>> {
        keys_of(self.entries@)
    }

    #[verifier::type_invariant]
    spec fn in_order(self) -> bool {
        ascending(keys_of(self.entries@))
    }

    /// A map without entries.
    pub fn new() -> (map: Self)
        ensures
            map@ == Map::<Seq<char>, V>::empty(),
            map.keys().len() == 0,
    {
        TextMap { entries: Vec::new() }
    }

    /// The number of entries.
    pub fn len(&self) -> (count: usize)
        ensures
            count == self.keys().len(),
            self@.dom() == self.keys().to_set(),
            ascending(self.keys()),
    {
        proof {
            use_type_invariant(self);
            lemma_map_of(self.entries@);
            assert forall|k: Seq<char>| self.keys().to_set().contains(k) implies self@.dom().contains(
                k,
            ) by {
                let i = choose|i: int| 0 <= i < self.keys().len() && self.keys()[i] == k;
            }
        }
        self.entries.len()
    }

    /// Whether there is no entry.
    pub fn is_empty(&self) -> (empty: bool)
        ensures
            empty == (self.keys().len() == 0),
            empty == (self@ == Map::<Seq<char>, V>::empty()),
    {
        proof {
            use_type_invariant(self);
            lemma_map_of(self.entries@);
            if self.entries@.len() > 0 {
                assert(self@.dom().contains(self.entries@[0].0@));
            }
        }
        self.entries.len() == 0
    }

    /// The key at a position.
    pub fn key_at(&self, i: usize) -> (key: &String)
        requires
            i < self.keys().len(),
        ensures
            key@ == self.keys()[i as int],
            self@.dom().contains(key@),
    {
        proof {
            use_type_invariant(self);
            lemma_map_of(self.entries@);
        }
        &self.entries[i].0
    }

    /// The value at a position.
    pub fn value_at(&self, i: usize) -> (value: &V)
        requires
            i < self.keys().len(),
        ensures
            self@.dom().contains(self.keys()[i as int]),
            *value == self@[self.keys()[i as int]],
    {
        proof {
            use_type_invariant(self);
            lemma_map_of(self.entries@);
        }
        &self.entries[i].1
    }

    /// The value under a key.
    pub fn get(&self, key: &str) -> (value: Option<&V>)
        ensures
            match value {
                Some(value) => self@.dom().contains(key@) && *value == self@[key@],
                None => !self@.dom().contains(key@),
            },
    {
        proof {
            use_type_invariant(self);
            lemma_map_of(self.entries@);
        }
        let mut i: usize = 0;
        while i < self.entries.len()
            invariant
                i <= self.entries@.len(),
                self@ == map_of(self.entries@),
                ascending(keys_of(self.entries@)),
                forall|j: int| 0 <= j < i ==> (#[trigger] self.entries@[j]).0@ != key@,
                forall|j: int|
                    0 <= j < self.entries@.len() ==> self@.dom().contains(
                        #[trigger] self.entries@[j].0@,
                    ) && self@[self.entries@[j].0@] == self.entries@[j].1,
            decreases self.entries@.len() - i,
        {
            if text_order(self.entries[i].0.as_str(), key) == Order::Same {
                return Some(&self.entries[i].1);
            }
            proof {
                lemma_precedes_irreflexive(key@);
            }
            i += 1;
        }
        proof {
            lemma_absent(self.entries@, key@);
        }
        None
    }

    /// Sets the value under a key, and gives back the one it replaces.
    pub fn insert(&mut self, key: String, value: V) -> (replaced: Option<V>)
        ensures
            final(self)@ == old(self)@.insert(key@, value),
            match replaced {
                Some(before) => old(self)@.dom().contains(key@) && before == old(self)@[key@],
                None => !old(self)@.dom().contains(key@),
            },
    {
        proof {
            use_type_invariant(&*self);
        }
        let mut entries: Vec<(String, V)> = Vec::new();
        std::mem::swap(&mut entries, &mut self.entries);
        let ghost before = entries@;
        proof {
            lemma_map_of(before);
        }
        let mut i: usize = 0;
        let mut same = false;
        while i < entries.len()
            invariant_except_break
                !same,
            invariant
                i <= entries@.len(),
                entries@ == before,
                ascending(keys_of(before)),
                forall|j: int| 0 <= j < i ==> precedes((#[trigger] before[j]).0@, key@),
            ensures
                i <= entries@.len(),
                entries@ == before,
                same ==> i < before.len() && before[i as int].0@ == key@,
                !same && i < before.len() ==> precedes(key@, before[i as int].0@),
                forall|j: int| 0 <= j < i ==> precedes((#[trigger] before[j]).0@, key@),
            decreases entries@.len() - i,
        {
            match text_order(entries[i].0.as_str(), key.as_str()) {
                Order::Before => {},
                Order::Same => {
                    same = true;
                    break;
                },
                Order::After => {
                    break;
                },
            }
            i += 1;
        }
        let ghost keys = keys_of(before);
        if same {
            let mut entry = (key, value);
            let ghost inserted = entry;
            std::mem::swap(&mut entries[i], &mut entry);
            proof {
                assert(keys_of(entries@) =~= keys);
                lemma_map_of(entries@);
                lemma_same_map(before, entries@, i as int, inserted);
            }
            self.entries = entries;
            Some(entry.1)
        } else {
            let ghost inserted = (key, value);
            entries.insert(i, (key, value));
            proof {
                let after = keys_of(entries@);
                assert forall|a: int, b: int| 0 <= a < b < after.len() implies precedes(
                    #[trigger] after[a],
                    #[trigger] after[b],
                ) by {
                    let ka: int = if a < i { a } else { a - 1 };
                    let kb: int = if b < i { b } else { b - 1 };
                    if a != i && b != i {
                        assert(after[a] == keys[ka] && after[b] == keys[kb]);
                    } else if a == i {
                        if kb > i {
                            lemma_precedes_transitive(key@, keys[i as int], keys[kb]);
                        }
                    } else {
                        assert(after[a] == before[a].0@);
                    }
                }
                assert forall|j: int| 0 <= j < before.len() implies (#[trigger] before[j]).0@
                    != key@ by {
                    lemma_precedes_irreflexive(key@);
                    if j >= i {
                        if j > i {
                            lemma_precedes_transitive(key@, keys[i as int], keys[j]);
                        }
                    }
                }
                lemma_absent(before, key@);
                lemma_map_of(entries@);
                lemma_grown_map(before, entries@, i as int, inserted);
            }
            self.entries = entries;
            None
        }
    }
}

/// Replacing the value of an entry replaces it in the map.
proof fn lemma_same_map<V>(
    before: Seq<(String, V)>,
    after: Seq<(String, V)>,
    i: int,
    entry: (String, V),
)
    requires
        0 <= i < before.len(),
        after == before.update(i, entry),
        before[i].0@ == entry.0@,
        ascending(keys_of(before)),
        ascending(keys_of(after)),
    ensures
        map_of(after) == map_of(before).insert(entry.0@, entry.1),
{
    lemma_map_of(before);
    lemma_map_of(after);
    let left = map_of(after);
    let right = map_of(before).insert(entry.0@, entry.1);
    assert forall|k: Seq<char>| left.dom().contains(k) == right.dom().contains(k) by {
        if map_of(before).dom().contains(k) {
            let j = choose|j: int| 0 <= j < keys_of(before).len() && keys_of(before)[j] == k;
            assert(after[j].0@ == k);
        }
    }
    assert forall|k: Seq<char>| left.dom().contains(k) implies left[k] == right[k] by {
        let j = choose|j: int| 0 <= j < keys_of(after).len() && keys_of(after)[j] == k;
        if j != i {
            if k == entry.0@ {
                if j < i {
                    assert(precedes(keys_of(before)[j], keys_of(before)[i]));
                } else {
                    assert(precedes(keys_of(before)[i], keys_of(before)[j]));
                }
                lemma_precedes_irreflexive(k);
            }
        }
    }
}

/// Adding an entry adds it to the map.
proof fn lemma_grown_map<V>(
    before: Seq<(String, V)>,
    after: Seq<(String, V)>,
    i: int,
    entry: (String, V),
)
    requires
        0 <= i <= before.len(),
        after == before.insert(i, entry),
        ascending(keys_of(before)),
        ascending(keys_of(after)),
    ensures
        map_of(after) == map_of(before).insert(entry.0@, entry.1),
{
    lemma_map_of(before);
    lemma_map_of(after);
    let left = map_of(after);
    let right = map_of(before).insert(entry.0@, entry.1);
    assert(after[i] == entry);
    assert forall|j: int| 0 <= j < before.len() implies before[j] == after[if j < i {
        j
    } else {
        j + 1
    }] by {}
    assert forall|k: Seq<char>| left.dom().contains(k) == right.dom().contains(k) by {
        if left.dom().contains(k) {
            let j = choose|j: int| 0 <= j < keys_of(after).len() && keys_of(after)[j] == k;
            if j < i {
                assert(before[j].0@ == k);
            } else if j > i {
                assert(before[j - 1].0@ == k);
            }
        }
    }
    assert forall|k: Seq<char>| left.dom().contains(k) implies left[k] == right[k] by {
        let j = choose|j: int| 0 <= j < keys_of(after).len() && keys_of(after)[j] == k;
        if j != i {
            if k == entry.0@ {
                if j < i {
                    assert(precedes(keys_of(after)[j], keys_of(after)[i]));
                } else {
                    assert(precedes(keys_of(after)[i], keys_of(after)[j]));
                }
                lemma_precedes_irreflexive(k);
            }
        }
    }
}

impl<V: Clone> Clone for TextMap<V> {
    fn clone(&self) -> (copy: Self)
        ensures
            copy.keys() == self.keys(),
    {
        proof {
            use_type_invariant(self);
        }
        let mut entries: Vec<(String, V)> = Vec::new();
        let mut i: usize = 0;
        while i < self.entries.len()
            invariant
                i <= self.entries@.len(),
                keys_of(entries@) == keys_of(self.entries@).take(i as int),
            decreases self.entries@.len() - i,
        {
            let ghost before = entries@;
            entries.push((self.entries[i].0.clone(), self.entries[i].1.clone()));
            i += 1;
            proof {
                assert(keys_of(entries@) =~= keys_of(before).push(self.entries@[i - 1].0@));
            }
        }
        TextMap { entries }
    }
}

impl<V> View for TextMap<V> {
    type V = Map<Seq<char>, V>;

    closed spec fn view(&self) -> Map<Seq<char>, V> {
        map_of(self.entries@)
    }
}

} // verus!
