//! Opening and closing sessions.

use crate::cancel::{cancel_pair, CancelHandle, CancelWatch, SignalOutcome};
use crate::error::SessionError;
use crate::key::{KeyView, SessionKey};
use crate::registry::{after_close, closed_handle, SessionRegistry};
use vstd::prelude::*;

verus! {

/// The key that an open of `symbol` gets when `issued` ordinals are used up.
pub open spec fn next_key(symbol: Seq<char>, issued: nat) -> KeyView {
    KeyView { symbol, ordinal: issued }
}

/// The count of used ordinals after one more open. The count stops at the
/// largest ordinal that a key can bear.
pub open spec fn issued_after_open(issued: nat) -> nat {
    if issued < u64::MAX {
        issued + 1
    } else {
        issued
    }
}

/// Whether a close found a live session, and what became of the stop request
/// that it then sent.
pub open spec fn close_report(was_open: bool, sent: SignalOutcome) -> Option<SignalOutcome> {
    if was_open {
        Some(sent)
    } else {
        None
    }
}

/// Opens and closes sessions, and owns the registry of those that are live.
///
/// Every open draws the next ordinal of a counter that only grows, so a new
/// key differs from every key handed out before, live or closed.
pub struct SessionSupervisor {
    registry: SessionRegistry,
    issued: u64,
}

impl SessionSupervisor {
    /// The live sessions, each with its handle.
    pub closed spec fn view(&self) -> Map<KeyView, CancelHandle> {
        self.registry@
    }

    /// How many ordinals have been used up.
    pub closed spec fn issued(&self) -> nat {
        self.issued as nat
    }

    /// The registry is well formed, and every live key bears an ordinal
    /// that is used up (or the counter has reached its end). Every
    /// supervisor that a program holds is well formed.
    #[verifier::type_invariant]
    pub closed spec fn wf(&self) -> bool {
        &&& self.registry.wf()
        &&& self.issued < u64::MAX ==> forall|k: KeyView| #[trigger]
            self.registry@.contains_key(k) ==> k.ordinal < self.issued
    }

    /// Whether `key` is live.
    pub open spec fn spec_is_open(&self, key: KeyView) -> bool {
        self@.contains_key(key)
    }

    /// A supervisor with no live session and no ordinal used.
    pub fn new() -> (supervisor: SessionSupervisor)
        ensures
            supervisor.wf(),
            supervisor@ == Map::<KeyView, CancelHandle>::empty(),
            supervisor.issued() == 0,
    {
        SessionSupervisor { registry: SessionRegistry::new(), issued: 0 }
    }

    /// Opens a session for `symbol`: draws a fresh key, registers it with a
    /// new cancellation handle, and hands back the key and the watch on
    /// which the session's worker waits for its stop request.
    ///
    /// The open fails only if the registry finds the key live already, which
    /// cannot happen before the counter has reached its end.
    pub fn open(&mut self, symbol: &str) -> (opened: Result<
        (SessionKey, CancelWatch),
        SessionError,
    >)
        ensures
            final(self).wf(),
            opened is Err <==> old(self).spec_is_open(next_key(symbol@, old(self).issued())),
            old(self).issued() < u64::MAX ==> opened is Ok,
            match opened {
                Ok((key, _)) => {
                    &&& key@ == next_key(symbol@, old(self).issued())
                    &&& final(self).spec_is_open(key@)
                    &&& after_close(final(self)@, key@) == old(self)@
                    &&& final(self).issued() == issued_after_open(old(self).issued())
                },
                Err(error) => {
                    &&& error == SessionError::DuplicateSession
                    &&& final(self)@ == old(self)@
                    &&& final(self).issued() == old(self).issued()
                },
            },
    {
        proof {
            use_type_invariant(&*self);
        }
        let key = SessionKey::new(symbol, self.issued);
        let (handle, watch) = cancel_pair();
        let mut registry = SessionRegistry::new();
        std::mem::swap(&mut registry, &mut self.registry);
        match registry.open(key.clone(), handle) {
            Ok(()) => {
                if self.issued < u64::MAX {
                    self.issued = self.issued + 1;
                }
                self.registry = registry;
                proof {
                    assert(self@.remove(key@) =~= old(self)@);
                }
                Ok((key, watch))
            },
            Err(_) => {
                self.registry = registry;
                Err(SessionError::DuplicateSession)
            },
        }
    }

    /// Closes the session of `key`: takes it out of the registry and, if it
    /// was live, sends its worker a stop request without waiting for the
    /// worker to go. A key that is not live changes nothing and gives `None`.
    pub fn close(&mut self, key: &SessionKey) -> (report: Option<SignalOutcome>)
        ensures
            final(self).wf(),
            final(self)@ == after_close(old(self)@, key@),
            !final(self).spec_is_open(key@),
            report is Some <==> old(self).spec_is_open(key@),
            exists|sent: SignalOutcome|
                report == #[trigger] close_report(old(self).spec_is_open(key@), sent),
            final(self).issued() == old(self).issued(),
    {
        match self.take_entry(key) {
            Some(handle) => {
                let sent = handle.signal();
                closing_report(true, sent)
            },
            None => {
                assert(None::<SignalOutcome> == close_report(false, SignalOutcome::Delivered));
                None
            },
        }
    }

    /// Takes the entry of `key` out without sending anything: what a worker
    /// does for its own key when its connection has failed, so that the
    /// stale entry does not stand in the way. Says whether the key was live.
    pub fn retire(&mut self, key: &SessionKey) -> (was_open: bool)
        ensures
            final(self).wf(),
            final(self)@ == after_close(old(self)@, key@),
            !final(self).spec_is_open(key@),
            was_open == old(self).spec_is_open(key@),
            final(self).issued() == old(self).issued(),
    {
        self.take_entry(key).is_some()
    }

    /// Takes the entry of `key` out of the registry and hands back its
    /// handle.
    fn take_entry(&mut self, key: &SessionKey) -> (handle: Option<CancelHandle>)
        ensures
            final(self).wf(),
            final(self)@ == after_close(old(self)@, key@),
            handle == closed_handle(old(self)@, key@),
            final(self).issued() == old(self).issued(),
    {
        proof {
            use_type_invariant(&*self);
        }
        let mut registry = SessionRegistry::new();
        std::mem::swap(&mut registry, &mut self.registry);
        let handle = registry.close(key);
        self.registry = registry;
        handle
    }

    /// Whether `key` is live.
    pub fn is_open(&self, key: &SessionKey) -> (live: bool)
        ensures
            live == self.spec_is_open(key@),
    {
        self.registry.is_open(key)
    }

    /// The number of live sessions.
    pub fn live_count(&self) -> (n: usize)
        ensures
            n == self@.len(),
            self@.dom().finite(),
    {
        self.registry.len()
    }

    /// While the counter has not reached its end, the next key is not live:
    /// every live key bears a smaller ordinal.
    pub proof fn lemma_next_key_is_fresh(&self, symbol: Seq<char>)
        requires
            self.wf(),
            self.issued() < u64::MAX,
        ensures
            !self.spec_is_open(next_key(symbol, self.issued())),
            forall|k: KeyView| #[trigger] self.spec_is_open(k) ==> k.ordinal < self.issued(),
    {
    }
}

/// What a close reports, given whether the key was live and what became of
/// the stop request.
pub fn closing_report(was_open: bool, sent: SignalOutcome) -> (report: Option<SignalOutcome>)
    ensures
        report == close_report(was_open, sent),
{
    if was_open {
        Some(sent)
    } else {
        None
    }
}

/// Two opens never give the same key: the later one draws a larger ordinal,
/// whatever the symbols are and whatever was opened or closed in between.
pub proof fn lemma_later_key_differs(
    first_symbol: Seq<char>,
    first_issued: nat,
    second_symbol: Seq<char>,
    second_issued: nat,
)
    requires
        first_issued < u64::MAX,
        issued_after_open(first_issued) <= second_issued,
    ensures
        next_key(first_symbol, first_issued) != next_key(second_symbol, second_issued),
        next_key(first_symbol, first_issued).text() != next_key(
            second_symbol,
            second_issued,
        ).text(),
{
    if next_key(first_symbol, first_issued).text() == next_key(second_symbol, second_issued).text() {
        crate::key::lemma_text_injective(
            next_key(first_symbol, first_issued),
            next_key(second_symbol, second_issued),
        );
    }
}

} // verus!
