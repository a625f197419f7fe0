//! A table keyed by text.

use crate::text::{
    lemma_text_order, lemma_text_strict, lemma_text_trans, same, text_before, text_lt,
};
use vstd::prelude::*;

verus! {

/// What a list of entries maps each key to: a later entry counts before an
/// earlier one.
pub open spec fn entries_map<V: View>(entries: Seq<(String, V)>) -> Map<Seq<char>, V::V>
    decreases entries.len(),
{
    if entries.len() == 0 {
        Map::empty()
    } else {
        entries_map(entries.drop_last()).insert(entries.last().0@, entries.last().1@)
    }
}

/// Values by text.
#[derive(Debug)]
pub struct Table<V> {
    entries: Vec<(String, V)>,
}

impl<V: View> View for Table<V> {
    type V = Map<Seq<char>, V::V>;

    closed spec fn view(&self) -> Map<Seq<char>, V::V> {
        entries_map(self.entries@)
    }
}

proof fn lemma_entries_push<V: View>(entries: Seq<(String, V)>, e: (String, V))
    ensures
        entries_map(entries.push(e)) == entries_map(entries).insert(e.0@, e.1@),
{
    assert(entries.push(e).drop_last() =~= entries);
}

impl<V: View> Table<V> {
    /// An empty table.
    pub fn new() -> (r: Table<V>)
        ensures
            r@ == Map::<Seq<char>, V::V>::empty(),
    {
        Table { entries: Vec::new() }
    }

    /// Takes the value of KEY out.
    pub fn remove(&mut self, key: &str) -> (r: Option<V>)
        ensures
            final(self)@ == old(self)@.remove(key@),
            match r {
                Some(v) => old(self)@.dom().contains(key@) && v@ == old(self)@[key@],
                None => !old(self)@.dom().contains(key@),
            },
    {
        let mut before: Vec<(String, V)> = Vec::new();
        core::mem::swap(&mut before, &mut self.entries);
        let ghost all = before@;
        let ghost map = entries_map(all);
        let mut kept: Vec<(String, V)> = Vec::new();
        let mut found: Option<V> = None;
        assert(entries_map(kept@) =~= entries_map(all.take(0)).remove(key@));
        for e in it: before
            invariant
                it.seq() == all,
                entries_map(kept@) == entries_map(all.take(it.index() as int)).remove(key@),
                match found {
                    Some(v) => entries_map(all.take(it.index() as int)).dom().contains(key@) && v@
                        == entries_map(all.take(it.index() as int))[key@],
                    None => !entries_map(all.take(it.index() as int)).dom().contains(key@),
                },
        {
            proof {
                assert(all.take(it.index() + 1).drop_last() =~= all.take(it.index() as int));
                assert(all.take(it.index() + 1).last() == e);
                lemma_entries_push(kept@, e);
            }
            if same(e.0.as_str(), key) {
                assert(entries_map(kept@) =~= entries_map(all.take(it.index() + 1)).remove(key@));
                found = Some(e.1);
            } else {
                kept.push(e);
                assert(entries_map(kept@) =~= entries_map(all.take(it.index() + 1)).remove(key@));
            }
        }
        assert(all.take(all.len() as int) =~= all);
        self.entries = kept;
        found
    }

    /// Sets the value of KEY.
    pub fn insert(&mut self, key: String, value: V)
        ensures
            final(self)@ == old(self)@.insert(key@, value@),
    {
        let _ = self.remove(key.as_str());
        proof {
            lemma_entries_push(self.entries@, (key, value));
        }
        self.entries.push((key, value));
        assert(self@ =~= old(self)@.insert(key@, value@));
    }
}

// ---- Tables in the order of their keys ---------------------------------

/// Each key of the list comes before those after it.
pub open spec fn keys_ascend<V>(entries: Seq<(Seq<char>, V)>) -> bool {
    forall|i: int, j: int|
        0 <= i < j < entries.len() ==> text_lt(#[trigger] entries[i].0, #[trigger] entries[j].0)
}

/// The value of a key, where the list has it.
pub open spec fn value_of<V>(entries: Seq<(Seq<char>, V)>, key: Seq<char>) -> Option<V>
    decreases entries.len(),
{
    if entries.len() == 0 {
        None
    } else if entries[0].0 == key {
        Some(entries[0].1)
    } else {
        value_of(entries.skip(1), key)
    }
}

/// The list with the value of a key set, in the key's place.
pub open spec fn placed<V>(entries: Seq<(Seq<char>, V)>, key: Seq<char>, value: V) -> Seq<
    (Seq<char>, V),
>
    decreases entries.len(),
{
    if entries.len() == 0 {
        seq![(key, value)]
    } else if entries[0].0 == key {
        seq![(key, value)] + entries.skip(1)
    } else if text_lt(key, entries[0].0) {
        seq![(key, value)] + entries
    } else {
        seq![entries[0]] + placed(entries.skip(1), key, value)
    }
}

/// Where a key belongs in the list.
spec fn place_of<V>(entries: Seq<(Seq<char>, V)>, key: Seq<char>) -> int
    decreases entries.len(),
{
    if entries.len() == 0 || entries[0].0 == key || text_lt(key, entries[0].0) {
        0
    } else {
        1 + place_of(entries.skip(1), key)
    }
}

proof fn lemma_placed<V>(entries: Seq<(Seq<char>, V)>, key: Seq<char>, value: V)
    ensures
        0 <= place_of(entries, key) <= entries.len(),
        ({
            let n = place_of(entries, key);
            placed(entries, key, value) == if n < entries.len() && entries[n].0 == key {
                entries.update(n, (key, value))
            } else {
                entries.insert(n, (key, value))
            }
        }),
    decreases entries.len(),
{
    let n = place_of(entries, key);
    if entries.len() == 0 {
        assert(seq![(key, value)] =~= entries.insert(0, (key, value)));
    } else if entries[0].0 == key {
        assert(seq![(key, value)] + entries.skip(1) =~= entries.update(0, (key, value)));
    } else if text_lt(key, entries[0].0) {
        assert(seq![(key, value)] + entries =~= entries.insert(0, (key, value)));
    } else {
        let rest = entries.skip(1);
        lemma_placed(rest, key, value);
        let m = place_of(rest, key);
        if m < rest.len() && rest[m].0 == key {
            assert(seq![entries[0]] + rest.update(m, (key, value)) =~= entries.update(
                n,
                (key, value),
            ));
        } else {
            assert(seq![entries[0]] + rest.insert(m, (key, value)) =~= entries.insert(
                n,
                (key, value),
            ));
        }
    }
}

proof fn lemma_place_of<V>(entries: Seq<(Seq<char>, V)>, key: Seq<char>)
    requires
        keys_ascend(entries),
    ensures
        0 <= place_of(entries, key) <= entries.len(),
        forall|i: int|
            0 <= i < place_of(entries, key) ==> text_lt(#[trigger] entries[i].0, key),
        forall|i: int|
            place_of(entries, key) <= i < entries.len() && #[trigger] entries[i].0 != key
                ==> text_lt(key, entries[i].0),
        forall|i: int|
            place_of(entries, key) < i < entries.len() ==> text_lt(key, #[trigger] entries[i].0),
    decreases entries.len(),
{
    if entries.len() > 0 {
        let first = entries[0].0;
        lemma_text_order(first, key);
        lemma_text_order(key, first);
        lemma_text_strict(key);
        let rest = entries.skip(1);
        assert forall|i: int, j: int| 0 <= i < j < rest.len() implies text_lt(
            #[trigger] rest[i].0,
            #[trigger] rest[j].0,
        ) by {
            assert(rest[i] == entries[i + 1]);
            assert(rest[j] == entries[j + 1]);
        }
        if first == key || text_lt(key, first) {
            assert forall|i: int| 0 < i < entries.len() implies text_lt(
                key,
                #[trigger] entries[i].0,
            ) by {
                assert(text_lt(entries[0].0, entries[i].0));
                if text_lt(key, first) {
                    lemma_text_trans(key, first, entries[i].0);
                }
            }
        } else {
            lemma_place_of(rest, key);
            let n = place_of(rest, key);
            assert forall|i: int| 0 <= i < n + 1 implies text_lt(#[trigger] entries[i].0, key) by {
                if i > 0 {
                    assert(rest[i - 1] == entries[i]);
                    assert(text_lt(rest[i - 1].0, key));
                }
            }
            assert forall|i: int|
                n + 1 <= i < entries.len() && #[trigger] entries[i].0 != key implies text_lt(
                key,
                entries[i].0,
            ) by {
                assert(rest[i - 1] == entries[i]);
                assert(rest[i - 1].0 != key);
            }
            assert forall|i: int| n + 1 < i < entries.len() implies text_lt(
                key,
                #[trigger] entries[i].0,
            ) by {
                assert(rest[i - 1] == entries[i]);
                assert(text_lt(key, rest[i - 1].0));
            }
        }
    }
}

/// Setting a value keeps the keys in order.
pub proof fn law_placed_keys_ascend<V>(
    entries: Seq<(Seq<char>, V)>,
    key: Seq<char>,
    value: V,
)
    requires
        keys_ascend(entries),
    ensures
        keys_ascend(placed(entries, key, value)),
{
    lemma_placed(entries, key, value);
    lemma_place_of(entries, key);
    let n = place_of(entries, key);
    let after = placed(entries, key, value);
    assert forall|i: int, j: int| 0 <= i < j < after.len() implies text_lt(
        #[trigger] after[i].0,
        #[trigger] after[j].0,
    ) by {
        if n < entries.len() && entries[n].0 == key {
            assert(after[i].0 == entries[i].0);
            assert(after[j].0 == entries[j].0);
        } else {
            let a = if i < n { i } else { i - 1 };
            let b = if j < n { j } else { j - 1 };
            if i != n {
                assert(after[i] == entries[a]);
            }
            if j != n {
                assert(after[j] == entries[b]);
            }
        }
    }
}

proof fn lemma_value_where<V>(entries: Seq<(Seq<char>, V)>, key: Seq<char>, n: int)
    requires
        0 <= n <= entries.len(),
        forall|i: int| 0 <= i < n ==> #[trigger] entries[i].0 != key,
    ensures
        n == entries.len() ==> value_of(entries, key) is None,
        n < entries.len() && entries[n].0 == key ==> value_of(entries, key) == Some(entries[n].1),
    decreases n,
{
    if n > 0 {
        let rest = entries.skip(1);
        assert(entries[0].0 != key);
        assert forall|i: int| 0 <= i < n - 1 implies #[trigger] rest[i].0 != key by {
            assert(rest[i] == entries[i + 1]);
        }
        lemma_value_where(rest, key, n - 1);
    }
}

/// A key's value is what it was set to; the others keep theirs.
pub proof fn law_placed_then_value<V>(
    entries: Seq<(Seq<char>, V)>,
    key: Seq<char>,
    value: V,
    other: Seq<char>,
)
    ensures
        value_of(placed(entries, key, value), key) == Some(value),
        other != key ==> value_of(placed(entries, key, value), other) == value_of(entries, other),
    decreases entries.len(),
{
    let after = placed(entries, key, value);
    if entries.len() == 0 {
        assert(after.skip(1) =~= entries);
    } else if entries[0].0 == key {
        assert(after.skip(1) =~= entries.skip(1));
    } else if text_lt(key, entries[0].0) {
        assert(after.skip(1) =~= entries);
    } else {
        law_placed_then_value(entries.skip(1), key, value, other);
        assert(after.skip(1) =~= placed(entries.skip(1), key, value));
    }
}

/// Values by text, in the order of the texts.
#[derive(Debug)]
pub struct Sorted<V: View> {
    entries: Vec<(String, V)>,
}

/// The entries of a list.
pub open spec fn entry_views<V: View>(entries: Seq<(String, V)>) -> Seq<(Seq<char>, V::V)> {
    Seq::new(entries.len(), |i: int| (entries[i].0@, entries[i].1@))
}

impl<V: View> View for Sorted<V> {
    type V = Seq<(Seq<char>, V::V)>;

    closed spec fn view(&self) -> Seq<(Seq<char>, V::V)> {
        entry_views(self.entries@)
    }
}

impl<V: View> Sorted<V> {
    #[verifier::type_invariant]
    spec fn in_order(self) -> bool {
        keys_ascend(entry_views(self.entries@))
    }

    /// An empty table.
    pub fn new() -> (r: Sorted<V>)
        ensures
            r@ == Seq::<(Seq<char>, V::V)>::empty(),
    {
        let r = Sorted { entries: Vec::new() };
        assert(r@ =~= Seq::<(Seq<char>, V::V)>::empty());
        r
    }

    pub fn len(&self) -> (r: usize)
        ensures
            r == self@.len(),
            keys_ascend(self@),
    {
        proof {
            use_type_invariant(self);
        }
        self.entries.len()
    }

    pub fn key(&self, i: usize) -> (r: &str)
        requires
            i < self@.len(),
        ensures
            r@ == self@[i as int].0,
    {
        self.entries[i].0.as_str()
    }

    pub fn value(&self, i: usize) -> (r: &V)
        requires
            i < self@.len(),
        ensures
            r@ == self@[i as int].1,
    {
        &self.entries[i].1
    }

    /// The value of KEY.
    pub fn get(&self, key: &str) -> (r: Option<&V>)
        ensures
            match r {
                Some(v) => value_of(self@, key@) == Some(v@),
                None => value_of(self@, key@) is None,
            },
    {
        let mut i: usize = 0;
        while i < self.entries.len()
            invariant
                i <= self.entries@.len(),
                forall|k: int| 0 <= k < i ==> #[trigger] self@[k].0 != key@,
            decreases self.entries@.len() - i,
        {
            assert(self@[i as int].0 == self.entries@[i as int].0@);
            if same(self.entries[i].0.as_str(), key) {
                proof {
                    lemma_value_where(self@, key@, i as int);
                }
                return Some(&self.entries[i].1);
            }
            i += 1;
        }
        proof {
            lemma_value_where(self@, key@, i as int);
        }
        None
    }

    /// The table with the value of KEY set.
    pub fn with(self, key: &str, value: V) -> (r: Sorted<V>)
        ensures
            r@ == placed(self@, key@, value@),
    {
        proof {
            use_type_invariant(&self);
        }
        let ghost all = self@;
        let mut entries = self.entries;
        let mut i: usize = 0;
        assert(all.skip(0) =~= all);
        while i < entries.len() && !same(entries[i].0.as_str(), key) && !text_before(
            key,
            entries[i].0.as_str(),
        )
            invariant
                i <= entries@.len(),
                all == entry_views(entries@),
                place_of(all, key@) == i + place_of(all.skip(i as int), key@),
            decreases entries@.len() - i,
        {
            assert(all.skip(i as int)[0] == all[i as int]);
            assert(all.skip(i as int).skip(1) =~= all.skip(i + 1));
            i += 1;
        }
        proof {
            if i < entries@.len() {
                assert(all.skip(i as int)[0] == all[i as int]);
            }
            assert(place_of(all, key@) == i);
            lemma_placed(all, key@, value@);
            law_placed_keys_ascend(all, key@, value@);
        }
        let found = i < entries.len() && same(entries[i].0.as_str(), key);
        if found {
            entries.set(i, (key.to_owned(), value));
            assert(entry_views(entries@) =~= all.update(i as int, (key@, value@)));
        } else {
            entries.insert(i, (key.to_owned(), value));
            assert(entry_views(entries@) =~= all.insert(i as int, (key@, value@)));
        }
        Sorted { entries }
    }
}

impl Sorted<String> {
    /// The same table again.
    pub fn copy(&self) -> (r: Sorted<String>)
        ensures
            r@ == self@,
    {
        proof {
            use_type_invariant(self);
        }
        let mut entries: Vec<(String, String)> = Vec::new();
        for i in 0..self.entries.len()
            invariant
                entries@.len() == i,
                forall|k: int|
                    0 <= k < i ==> (#[trigger] entries@[k]).0@ == self.entries@[k].0@
                        && entries@[k].1@ == self.entries@[k].1@,
        {
            entries.push((self.entries[i].0.clone(), self.entries[i].1.clone()));
        }
        assert(entry_views(entries@) =~= entry_views(self.entries@));
        Sorted { entries }
    }
}

/// The value of a key is that of the first entry with it; without one, there
/// is none.
pub proof fn law_first_entry_counts<V>(entries: Seq<(Seq<char>, V)>, key: Seq<char>, i: int)
    requires
        0 <= i <= entries.len(),
        i < entries.len() ==> entries[i].0 == key,
        forall|k: int| 0 <= k < i ==> #[trigger] entries[k].0 != key,
    ensures
        i < entries.len() ==> value_of(entries, key) == Some(entries[i].1),
        i == entries.len() ==> value_of(entries, key) is None,
{
    lemma_value_where(entries, key, i);
}

} // verus!
