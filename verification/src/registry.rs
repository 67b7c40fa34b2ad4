//! Which sessions are live, and the handle by which each is stopped.

use crate::cancel::CancelHandle;
use crate::error::SessionError;
use crate::key::{KeyView, SessionKey};
use crate::table::KeyTable;
use vstd::prelude::*;

verus! {

/// The live sessions after `key` has been closed.
pub open spec fn after_close(live: Map<KeyView, CancelHandle>, key: KeyView) -> Map<
    KeyView,
    CancelHandle,
> {
    live.remove(key)
}

/// The handle that closing `key` gives up, if the key is live.
pub open spec fn closed_handle(live: Map<KeyView, CancelHandle>, key: KeyView) -> Option<
    CancelHandle,
> {
    if live.contains_key(key) {
        Some(live[key])
    } else {
        None
    }
}

/// The live sessions, each with its cancellation handle.
///
/// A key is live from the `open` that registers it to the `close` that takes
/// its handle out; that a key is present here is the only sign that a worker
/// for it should still be running.
pub struct SessionRegistry {
    live: KeyTable<CancelHandle>,
}

impl SessionRegistry {
    /// No key has two entries. Every registry that a program holds is well
    /// formed: the constructor makes it so and every operation keeps it so.
    pub closed spec fn wf(&self) -> bool {
        self.live.wf()
    }

    /// The registry as a map from live keys to their handles.
    pub closed spec fn view(&self) -> Map<KeyView, CancelHandle> {
        self.live@
    }

    /// The keys of the entries, one for each entry, in the order in which
    /// the entries are kept.
    pub closed spec fn entry_keys(&self) -> Seq<KeyView> {
        self.live.keys()
    }

    /// Whether `key` is live.
    pub open spec fn spec_is_open(&self, key: KeyView) -> bool {
        self@.contains_key(key)
    }

    /// A registry with no live session.
    pub fn new() -> (registry: SessionRegistry)
        ensures
            registry.wf(),
            registry@ == Map::<KeyView, CancelHandle>::empty(),
    {
        SessionRegistry { live: KeyTable::new() }
    }

    /// Registers `key` as live, with `handle` as the way to stop its worker.
    ///
    /// A key that is live already is refused, and the registry stays as it
    /// was: the session that holds the key keeps its own handle.
    pub fn open(&mut self, key: SessionKey, handle: CancelHandle) -> (outcome: Result<
        (),
        SessionError,
    >)
        ensures
            final(self).wf(),
            outcome is Err <==> old(self).spec_is_open(key@),
            outcome is Err ==> outcome == Err::<(), SessionError>(SessionError::DuplicateSession)
                && final(self)@ == old(self)@,
            outcome is Ok ==> final(self)@ == old(self)@.insert(key@, handle),
    {
        if self.live.contains(&key) {
            proof {
                use_type_invariant(&self.live);
            }
            Err(SessionError::DuplicateSession)
        } else {
            let _ = self.live.put(key, handle);
            Ok(())
        }
    }

    /// Takes `key` out of the registry and hands back its handle. A key that
    /// is not live gives `None` and changes nothing.
    pub fn close(&mut self, key: &SessionKey) -> (handle: Option<CancelHandle>)
        ensures
            final(self).wf(),
            final(self)@ == after_close(old(self)@, key@),
            handle == closed_handle(old(self)@, key@),
            !final(self).spec_is_open(key@),
            !old(self).spec_is_open(key@) ==> final(self)@ == old(self)@,
    {
        let handle = self.live.take(key);
        proof {
            if !old(self).spec_is_open(key@) {
                assert(old(self)@.remove(key@) =~= old(self)@);
            }
        }
        handle
    }

    /// Whether `key` is live.
    pub fn is_open(&self, key: &SessionKey) -> (live: bool)
        ensures
            live == self.spec_is_open(key@),
    {
        self.live.contains(key)
    }

    /// The number of live sessions.
    pub fn len(&self) -> (n: usize)
        ensures
            self.wf(),
            n == self@.len(),
            n == self.entry_keys().len(),
            self@.dom().finite(),
    {
        let n = self.live.len();
        proof {
            self.live.lemma_keys_are_distinct();
        }
        n
    }

    /// No key is registered twice: two entries of a well-formed registry
    /// that bear the same key are one entry, and the entries are exactly the
    /// live keys.
    pub proof fn lemma_one_entry_per_key(&self, i: int, j: int)
        requires
            self.wf(),
            0 <= i < self.entry_keys().len(),
            0 <= j < self.entry_keys().len(),
            self.entry_keys()[i] == self.entry_keys()[j],
        ensures
            i == j,
            self.spec_is_open(self.entry_keys()[i]),
            self@.len() == self.entry_keys().len(),
    {
        self.live.lemma_keys_are_distinct();
        assert(self.entry_keys().to_set().contains(self.entry_keys()[i]));
    }
}

/// Closing is idempotent: a second close of the same key finds nothing to
/// hand back and leaves the registry as the first close left it.
pub proof fn lemma_close_twice(live: Map<KeyView, CancelHandle>, key: KeyView)
    ensures
        closed_handle(after_close(live, key), key) == None::<CancelHandle>,
        after_close(after_close(live, key), key) == after_close(live, key),
{
    assert(live.remove(key).remove(key) =~= live.remove(key));
}

/// Closing a key that was never opened hands nothing back and changes
/// nothing.
pub proof fn lemma_close_unopened(live: Map<KeyView, CancelHandle>, key: KeyView)
    requires
        !live.contains_key(key),
    ensures
        closed_handle(live, key) == None::<CancelHandle>,
        after_close(live, key) == live,
{
    assert(live.remove(key) =~= live);
}

/// Once a key is closed it is not live, whatever was live before, and every
/// other key is as live as it was.
pub proof fn lemma_closed_is_not_open(
    live: Map<KeyView, CancelHandle>,
    key: KeyView,
    other: KeyView,
)
    ensures
        !after_close(live, key).contains_key(key),
        other != key ==> (after_close(live, key).contains_key(other) <==> live.contains_key(
            other,
        )),
{
}

} // verus!
