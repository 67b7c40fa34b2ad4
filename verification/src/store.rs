//! The latest price of each session.

use crate::key::{KeyView, SessionKey};
use crate::price::Price;
use crate::table::KeyTable;
use vstd::prelude::*;

verus! {

/// What a store holds after `price` has been written under `key`.
pub open spec fn after_set(held: Map<KeyView, Price>, key: KeyView, price: Price) -> Map<
    KeyView,
    Price,
> {
    held.insert(key, price)
}

/// What a store answers when asked for the price under `key`.
pub open spec fn lookup(held: Map<KeyView, Price>, key: KeyView) -> Option<Price> {
    if held.contains_key(key) {
        Some(held[key])
    } else {
        None
    }
}

/// The last price that arrived for each session key.
///
/// A write replaces what was there; nothing older is kept. An entry comes into
/// being with the first price for its key and stays for as long as the store
/// lives: the last price of a session can still be shown after the session
/// has closed.
pub struct PriceStore {
    latest: KeyTable<Price>,
}

impl PriceStore {
    /// The store as a map from keys to their latest price.
    pub closed spec fn view(&self) -> Map<KeyView, Price> {
        self.latest@
    }

    /// A store in which no price is known.
    pub fn new() -> (store: PriceStore)
        ensures
            store@ == Map::<KeyView, Price>::empty(),
    {
        PriceStore { latest: KeyTable::new() }
    }

    /// Writes `price` as the latest price of `key`.
    pub fn set(&mut self, key: &SessionKey, price: Price)
        ensures
            final(self)@ == after_set(old(self)@, key@, price),
    {
        let _ = self.latest.put(key.clone(), price);
    }

    /// The latest price of `key`, or `None` if none has arrived yet.
    pub fn get(&self, key: &SessionKey) -> (price: Option<Price>)
        ensures
            price == lookup(self@, key@),
    {
        match self.latest.get(key) {
            Some(price) => Some(*price),
            None => None,
        }
    }

    /// The number of keys for which a price is known.
    pub fn len(&self) -> (n: usize)
        ensures
            n == self@.len(),
            self@.dom().finite(),
    {
        let n = self.latest.len();
        proof {
            self.latest.lemma_keys_are_distinct();
        }
        n
    }
}

/// Nothing is known of a key before its first price.
pub proof fn lemma_unknown_before_first_set(key: KeyView)
    ensures
        lookup(Map::<KeyView, Price>::empty(), key) == None::<Price>,
{
}

/// A read gives the price of the last write to its key, and a write to one
/// key leaves every other key as it was.
pub proof fn lemma_get_after_set(
    held: Map<KeyView, Price>,
    key: KeyView,
    price: Price,
    other: KeyView,
)
    ensures
        lookup(after_set(held, key, price), key) == Some(price),
        other != key ==> lookup(after_set(held, key, price), other) == lookup(held, other),
{
}

/// The last write wins and leaves no trace of the one before: writing
/// `first` and then `second` under one key is the same as writing `second`.
pub proof fn lemma_last_write_wins(
    held: Map<KeyView, Price>,
    key: KeyView,
    first: Price,
    second: Price,
)
    ensures
        after_set(after_set(held, key, first), key, second) == after_set(held, key, second),
        lookup(after_set(after_set(held, key, first), key, second), key) == Some(second),
{
    assert(held.insert(key, first).insert(key, second) =~= held.insert(key, second));
}

} // verus!
