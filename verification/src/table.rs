//! A small table from session keys to values, in which no key occurs twice.

use crate::key::{KeyView, SessionKey};
use vstd::prelude::*;

verus! {

/// One row of a table: a key and what is kept under it.
pub struct Slot<V> {
    key: SessionKey,
    value: V,
}

/// The keys of `rows`, in the order of the rows.
spec fn keys_of<V>(rows: Seq<Slot<V>>) -> Seq<KeyView> {
    Seq::new(rows.len(), |i: int| rows[i].key@)
}

/// The map that `rows` stand for: each key that has a row, with the value
/// of the first row that bears it.
spec fn map_of<V>(rows: Seq<Slot<V>>) -> Map<KeyView, V> {
    Map::new(
        |k: KeyView| keys_of(rows).contains(k),
        |k: KeyView| rows[keys_of(rows).index_of(k)].value,
    )
}

/// Where no key occurs twice, the row at `i` is the row of its key.
proof fn lemma_row<V>(rows: Seq<Slot<V>>, i: int)
    requires
        keys_of(rows).no_duplicates(),
        0 <= i < rows.len(),
    ensures
        map_of(rows).contains_key(rows[i].key@),
        map_of(rows)[rows[i].key@] == rows[i].value,
        keys_of(rows).index_of(rows[i].key@) == i,
{
    let k = rows[i].key@;
    assert(keys_of(rows)[i] == k);
    let j = keys_of(rows).index_of(k);
    assert(0 <= j < keys_of(rows).len() && keys_of(rows)[j] == k);
}

/// What rows stand for after one more row, under a key that they did not
/// have.
proof fn lemma_after_push<V>(before: Seq<Slot<V>>, row: Slot<V>)
    requires
        keys_of(before).no_duplicates(),
        !map_of(before).contains_key(row.key@),
    ensures
        keys_of(before.push(row)).no_duplicates(),
        map_of(before.push(row)) == map_of(before).insert(row.key@, row.value),
{
    let after = before.push(row);
    let n = before.len() as int;
    let k = row.key@;
    assert(after[n] == row);
    assert forall|i: int| 0 <= i < n implies after[i] == before[i] by {}
    assert forall|i: int| 0 <= i < n implies #[trigger] keys_of(after)[i] != k by {
        assert(keys_of(before)[i] == keys_of(after)[i]);
        assert(keys_of(before).contains(keys_of(after)[i]));
    }
    assert(keys_of(after).no_duplicates()) by {
        assert forall|i: int, j: int|
            0 <= i < keys_of(after).len() && 0 <= j < keys_of(after).len() && i
                != j implies keys_of(after)[i] != keys_of(after)[j] by {
            if i < n && j < n {
                assert(keys_of(before)[i] == keys_of(after)[i]);
                assert(keys_of(before)[j] == keys_of(after)[j]);
            }
        }
    }
    let target = map_of(before).insert(k, row.value);
    assert forall|q: KeyView| map_of(after).contains_key(q) <==> target.contains_key(q) by {
        if keys_of(after).contains(q) {
            let j = keys_of(after).index_of(q);
            assert(keys_of(after)[j] == q);
            if j < n {
                assert(keys_of(before)[j] == q);
            }
        }
        if keys_of(before).contains(q) {
            let j = keys_of(before).index_of(q);
            assert(keys_of(before)[j] == q);
            assert(keys_of(after)[j] == q);
        }
        if q == k {
            assert(keys_of(after)[n] == q);
        }
    }
    assert forall|q: KeyView| map_of(after).contains_key(q) implies map_of(after)[q]
        == target[q] by {
        let j = keys_of(after).index_of(q);
        assert(keys_of(after)[j] == q);
        lemma_row(after, j);
        if j < n {
            lemma_row(before, j);
        }
    }
    assert(map_of(after) =~= target);
}

/// What rows stand for after the row at `i` has left and the last row has
/// taken its place.
proof fn lemma_after_swap_remove<V>(before: Seq<Slot<V>>, i: int)
    requires
        keys_of(before).no_duplicates(),
        0 <= i < before.len(),
    ensures
        keys_of(before.update(i, before.last()).drop_last()).no_duplicates(),
        map_of(before.update(i, before.last()).drop_last()) == map_of(before).remove(
            before[i].key@,
        ),
{
    let after = before.update(i, before.last()).drop_last();
    let n = before.len() as int;
    let k = before[i].key@;
    let from = |j: int|
        if j == i {
            n - 1
        } else {
            j
        };
    assert forall|j: int| 0 <= j < n - 1 implies after[j] == before[from(j)] && keys_of(after)[j]
        == keys_of(before)[from(j)] by {}
    assert(keys_of(after).no_duplicates()) by {
        assert forall|a: int, b: int|
            0 <= a < keys_of(after).len() && 0 <= b < keys_of(after).len() && a
                != b implies keys_of(after)[a] != keys_of(after)[b] by {
            assert(keys_of(after)[a] == keys_of(before)[from(a)]);
            assert(keys_of(after)[b] == keys_of(before)[from(b)]);
        }
    }
    let target = map_of(before).remove(k);
    assert forall|q: KeyView| map_of(after).contains_key(q) <==> target.contains_key(q) by {
        if keys_of(after).contains(q) {
            let j = keys_of(after).index_of(q);
            assert(keys_of(after)[j] == q);
            assert(keys_of(before)[from(j)] == q);
            assert(keys_of(before)[i] == k);
        }
        if keys_of(before).contains(q) && q != k {
            let j = keys_of(before).index_of(q);
            assert(keys_of(before)[j] == q);
            assert(keys_of(before)[i] == k);
            if j == n - 1 {
                assert(keys_of(after)[i] == q);
            } else {
                assert(keys_of(after)[j] == q);
            }
        }
    }
    assert forall|q: KeyView| map_of(after).contains_key(q) implies map_of(after)[q]
        == target[q] by {
        let j = keys_of(after).index_of(q);
        assert(keys_of(after)[j] == q);
        assert(after[j] == before[from(j)]);
        assert(keys_of(before)[from(j)] == q);
        assert(keys_of(before)[i] == k);
        assert(q != k);
        lemma_row(after, j);
        lemma_row(before, from(j));
    }
    assert(map_of(after) =~= target);
}

/// A table from session keys to values.
///
/// The rows are kept in a vector and searched from the front. A host has a
/// handful of sessions open at a time, so the search is short; in exchange
/// the table is a plain value whose every operation is proved.
pub struct KeyTable<V> {
    slots: Vec<Slot<V>>,
}

impl<V> KeyTable<V> {
    /// The keys of the rows, in the order in which the rows are kept.
    pub closed spec fn keys(&self) -> Seq<KeyView> {
        keys_of(self.slots@)
    }

    /// No key occurs in two rows. Every table that a program holds is well
    /// formed.
    #[verifier::type_invariant]
    pub closed spec fn wf(&self) -> bool {
        keys_of(self.slots@).no_duplicates()
    }

    /// The table as a map: each key that has a row, with the value of that row.
    pub closed spec fn view(&self) -> Map<KeyView, V> {
        map_of(self.slots@)
    }

    /// A well-formed table holds as many keys as it has rows, and each key
    /// of the map is the key of exactly one row.
    pub proof fn lemma_keys_are_distinct(&self)
        requires
            self.wf(),
        ensures
            self.keys().no_duplicates(),
            self@.dom() =~= self.keys().to_set(),
            self@.dom().finite(),
            self@.len() == self.keys().len(),
    {
        assert(self@.dom() =~= self.keys().to_set());
        self.keys().unique_seq_to_set();
        vstd::seq_lib::seq_to_set_is_finite(self.keys());
    }

    /// An empty table.
    pub fn new() -> (table: Self)
        ensures
            table.wf(),
            table@ == Map::<KeyView, V>::empty(),
    {
        let table = KeyTable { slots: Vec::new() };
        assert(table@ =~= Map::<KeyView, V>::empty());
        table
    }

    /// The number of keys in the table.
    pub fn len(&self) -> (n: usize)
        ensures
            self.wf(),
            n == self@.len(),
            n == self.keys().len(),
    {
        proof {
            use_type_invariant(self);
            self.lemma_keys_are_distinct();
        }
        self.slots.len()
    }

    /// The position of the row of `key`, if it has one.
    fn position(&self, key: &SessionKey) -> (found: Option<usize>)
        ensures
            match found {
                Some(i) => i < self.slots@.len() && self.slots@[i as int].key@ == key@,
                None => !self@.contains_key(key@),
            },
            found is Some <==> self@.contains_key(key@),
    {
        proof {
            use_type_invariant(self);
        }
        let mut i: usize = 0;
        while i < self.slots.len()
            invariant
                self.wf(),
                i <= self.slots@.len(),
                forall|j: int| 0 <= j < i ==> self.slots@[j].key@ != key@,
            decreases self.slots@.len() - i,
        {
            if self.slots[i].key.same_as(key) {
                proof {
                    lemma_row(self.slots@, i as int);
                }
                return Some(i);
            }
            i += 1;
        }
        proof {
            if keys_of(self.slots@).contains(key@) {
                let j = keys_of(self.slots@).index_of(key@);
                assert(keys_of(self.slots@)[j] == key@);
                assert(false);
            }
        }
        None
    }

    /// Whether `key` has a row.
    pub fn contains(&self, key: &SessionKey) -> (present: bool)
        ensures
            present == self@.contains_key(key@),
    {
        self.position(key).is_some()
    }

    /// The value kept under `key`, if there is one.
    pub fn get(&self, key: &SessionKey) -> (found: Option<&V>)
        ensures
            match found {
                Some(value) => self@.contains_key(key@) && *value == self@[key@],
                None => !self@.contains_key(key@),
            },
    {
        match self.position(key) {
            Some(i) => {
                proof {
                    use_type_invariant(self);
                    lemma_row(self.slots@, i as int);
                }
                Some(&self.slots[i].value)
            },
            None => None,
        }
    }

    /// Keeps `value` under `key`, and hands back what was kept there before.
    pub fn put(&mut self, key: SessionKey, value: V) -> (previous: Option<V>)
        ensures
            final(self).wf(),
            final(self)@ == old(self)@.insert(key@, value),
            previous == if old(self)@.contains_key(key@) {
                Some(old(self)@[key@])
            } else {
                None::<V>
            },
    {
        proof {
            use_type_invariant(&*self);
        }
        let found = self.position(&key);
        let mut slots = Vec::new();
        std::mem::swap(&mut slots, &mut self.slots);
        let ghost before = slots@;
        let previous = match found {
            Some(i) => {
                proof {
                    lemma_row(before, i as int);
                    lemma_after_swap_remove(before, i as int);
                }
                Some(slots.swap_remove(i).value)
            },
            None => None,
        };
        let ghost without = slots@;
        let ghost added = Slot { key, value };
        slots.push(Slot { key, value });
        proof {
            lemma_after_push(without, added);
            assert(map_of(slots@) =~= map_of(before).insert(key@, value));
        }
        self.slots = slots;
        previous
    }

    /// Removes the row of `key`, and hands back what was kept under it.
    pub fn take(&mut self, key: &SessionKey) -> (removed: Option<V>)
        ensures
            final(self).wf(),
            final(self)@ == old(self)@.remove(key@),
            removed == if old(self)@.contains_key(key@) {
                Some(old(self)@[key@])
            } else {
                None::<V>
            },
    {
        proof {
            use_type_invariant(&*self);
        }
        match self.position(key) {
            Some(i) => {
                let mut slots = Vec::new();
                std::mem::swap(&mut slots, &mut self.slots);
                proof {
                    lemma_row(slots@, i as int);
                    lemma_after_swap_remove(slots@, i as int);
                }
                let row = slots.swap_remove(i);
                self.slots = slots;
                Some(row.value)
            },
            None => {
                assert(self@ =~= old(self)@.remove(key@));
                None
            },
        }
    }
}

} // verus!
