//! The stream worker of one session, as a machine that is fed events.
//!
//! The host owns the connection and the waiting: it connects, waits for
//! whichever comes first of an inbound message and a stop request, decodes
//! the message, and feeds the worker what happened. The worker decides what
//! that means: which state comes next, what is written to the price store,
//! and whether the session's registry entry is to go.

use crate::cancel::CancelHandle;
use crate::error::DecodeError;
use crate::key::{KeyView, SessionKey};
use crate::price::Price;
use crate::registry::after_close;
use crate::store::{after_set, PriceStore};
use crate::supervisor::SessionSupervisor;
use vstd::prelude::*;

verus! {

/// Where a worker stands in its life.
#[derive(Clone, Copy, Debug, PartialEq, Eq, Structural)]
pub enum WorkerState {
    /// The connection is being set up.
    Connecting,
    /// The connection stands and messages are read from it.
    Streaming,
    /// A stop request ended the session.
    Cancelled,
    /// The connection could not be set up, or broke.
    Failed,
    /// The other side ended the stream.
    ClosedByPeer,
}

/// What the host reports to the worker.
#[derive(Clone, Copy, Debug, PartialEq, Eq)]
pub enum WorkerEvent {
    /// The connection stands.
    Connected,
    /// The connection could not be set up.
    ConnectFailed,
    /// A message arrived and was put through the decoder.
    Message(Result<Price, DecodeError>),
    /// Reading from the connection gave an error.
    StreamFailed,
    /// The stream came to its end.
    StreamEnded,
    /// A stop request arrived.
    CancelRequested,
}

/// What the host is to do after an event.
#[derive(Clone, Copy, Debug, PartialEq, Eq, Structural)]
pub enum WorkerAction {
    /// Nothing; wait for the next event.
    Continue,
    /// The price is the session's latest; then wait for the next event.
    Publish(Price),
    /// The session is over: let go of the connection and stop. With
    /// `deregister` the session's registry entry goes too.
    Release { deregister: bool },
    /// The session was over before this event; there is nothing left to do.
    Finished,
}

impl WorkerState {
    /// Whether the worker has stopped for good.
    pub open spec fn spec_is_terminal(self) -> bool {
        self == WorkerState::Cancelled || self == WorkerState::Failed || self
            == WorkerState::ClosedByPeer
    }

    /// Whether the worker has stopped for good.
    #[verifier::when_used_as_spec(spec_is_terminal)]
    pub fn is_terminal(self) -> (terminal: bool)
        ensures
            terminal == self.spec_is_terminal(),
    {
        match self {
            WorkerState::Connecting | WorkerState::Streaming => false,
            WorkerState::Cancelled | WorkerState::Failed | WorkerState::ClosedByPeer => true,
        }
    }
}

/// The state that follows `state` on `event`.
///
/// A stop request ends a worker that is still running. A connection that
/// cannot be set up, breaks or ends does so too. A message, decoded or not,
/// leaves a streaming worker streaming. An event that does not belong to the
/// state (a message before the connection stands, anything after the end)
/// changes nothing.
pub open spec fn next_state(state: WorkerState, event: WorkerEvent) -> WorkerState {
    match (state, event) {
        (WorkerState::Connecting, WorkerEvent::Connected) => WorkerState::Streaming,
        (WorkerState::Connecting, WorkerEvent::ConnectFailed) => WorkerState::Failed,
        (WorkerState::Connecting, WorkerEvent::CancelRequested) => WorkerState::Cancelled,
        (WorkerState::Streaming, WorkerEvent::StreamFailed) => WorkerState::Failed,
        (WorkerState::Streaming, WorkerEvent::StreamEnded) => WorkerState::ClosedByPeer,
        (WorkerState::Streaming, WorkerEvent::CancelRequested) => WorkerState::Cancelled,
        _ => state,
    }
}

/// What the host is to do when `event` reaches a worker in `state`.
///
/// The step that ends a session releases the connection, and asks for the
/// registry entry to go unless a stop request ended it: whoever sent the
/// request has taken the entry out already. A decoded message publishes its
/// price; one that could not be decoded is passed over.
pub open spec fn action_for(state: WorkerState, event: WorkerEvent) -> WorkerAction {
    if state.spec_is_terminal() {
        WorkerAction::Finished
    } else if next_state(state, event).spec_is_terminal() {
        WorkerAction::Release {
            deregister: next_state(state, event) != WorkerState::Cancelled,
        }
    } else {
        match (state, event) {
            (WorkerState::Streaming, WorkerEvent::Message(Ok(price))) => WorkerAction::Publish(
                price,
            ),
            _ => WorkerAction::Continue,
        }
    }
}

/// The price store after the host has carried out `action` for `key`.
pub open spec fn store_after(
    held: Map<KeyView, Price>,
    key: KeyView,
    action: WorkerAction,
) -> Map<KeyView, Price> {
    match action {
        WorkerAction::Publish(price) => after_set(held, key, price),
        _ => held,
    }
}

/// The live sessions after the host has carried out `action` for `key`.
pub open spec fn live_after(
    live: Map<KeyView, CancelHandle>,
    key: KeyView,
    action: WorkerAction,
) -> Map<KeyView, CancelHandle> {
    match action {
        WorkerAction::Release { deregister: true } => after_close(live, key),
        _ => live,
    }
}

/// The state of a worker that started in `state` and was fed `events` in
/// order.
pub open spec fn state_after(state: WorkerState, events: Seq<WorkerEvent>) -> WorkerState
    decreases events.len(),
{
    if events.len() == 0 {
        state
    } else {
        next_state(state_after(state, events.drop_last()), events.last())
    }
}

/// The price store after a worker for `key` that started in `state` was fed
/// `events` in order.
pub open spec fn store_after_all(
    held: Map<KeyView, Price>,
    key: KeyView,
    state: WorkerState,
    events: Seq<WorkerEvent>,
) -> Map<KeyView, Price>
    decreases events.len(),
{
    if events.len() == 0 {
        held
    } else {
        store_after(
            store_after_all(held, key, state, events.drop_last()),
            key,
            action_for(state_after(state, events.drop_last()), events.last()),
        )
    }
}

/// How many of the steps through `events` release the connection.
pub open spec fn releases(state: WorkerState, events: Seq<WorkerEvent>) -> nat
    decreases events.len(),
{
    if events.len() == 0 {
        0
    } else {
        let before = releases(state, events.drop_last());
        if action_for(state_after(state, events.drop_last()), events.last())
            is Release {
            before + 1
        } else {
            before
        }
    }
}

/// The worker of one session.
pub struct StreamWorker {
    key: SessionKey,
    state: WorkerState,
}

impl StreamWorker {
    /// The key of the session that this worker serves.
    pub closed spec fn key_view(&self) -> KeyView {
        self.key@
    }

    /// Where the worker stands.
    pub closed spec fn spec_state(&self) -> WorkerState {
        self.state
    }

    /// A worker for `key` that has yet to connect.
    pub fn new(key: SessionKey) -> (worker: StreamWorker)
        ensures
            worker.key_view() == key@,
            worker.spec_state() == WorkerState::Connecting,
    {
        StreamWorker { key, state: WorkerState::Connecting }
    }

    /// The key of the session that this worker serves.
    pub fn key(&self) -> (key: &SessionKey)
        ensures
            key@ == self.key_view(),
    {
        &self.key
    }

    /// Where the worker stands.
    #[verifier::when_used_as_spec(spec_state)]
    pub fn state(&self) -> (state: WorkerState)
        ensures
            state == self.spec_state(),
    {
        self.state
    }

    /// Takes one event: moves to the state that follows and says what the
    /// host is to do. Nothing but the worker changes.
    pub fn step(&mut self, event: WorkerEvent) -> (action: WorkerAction)
        ensures
            final(self).key_view() == old(self).key_view(),
            final(self).spec_state() == next_state(old(self).spec_state(), event),
            action == action_for(old(self).spec_state(), event),
    {
        let before = self.state;
        let after = match (before, event) {
            (WorkerState::Connecting, WorkerEvent::Connected) => WorkerState::Streaming,
            (WorkerState::Connecting, WorkerEvent::ConnectFailed) => WorkerState::Failed,
            (WorkerState::Streaming, WorkerEvent::StreamFailed) => WorkerState::Failed,
            (WorkerState::Streaming, WorkerEvent::StreamEnded) => WorkerState::ClosedByPeer,
            (WorkerState::Connecting, WorkerEvent::CancelRequested) => WorkerState::Cancelled,
            (WorkerState::Streaming, WorkerEvent::CancelRequested) => WorkerState::Cancelled,
            _ => before,
        };
        self.state = after;
        if before.is_terminal() {
            WorkerAction::Finished
        } else if after.is_terminal() {
            match after {
                WorkerState::Cancelled => WorkerAction::Release { deregister: false },
                _ => WorkerAction::Release { deregister: true },
            }
        } else {
            match event {
                WorkerEvent::Message(Ok(price)) => match before {
                    WorkerState::Streaming => WorkerAction::Publish(price),
                    _ => WorkerAction::Continue,
                },
                _ => WorkerAction::Continue,
            }
        }
    }

    /// Takes one event and carries out what follows from it on the price
    /// store and on the supervisor's registry: a decoded price becomes the
    /// latest of this session, and a session that a failure ended loses its
    /// registry entry, if it still has one. The action comes back for the
    /// host, which owns the connection that a `Release` gives up.
    pub fn handle(
        &mut self,
        event: WorkerEvent,
        store: &mut PriceStore,
        supervisor: &mut SessionSupervisor,
    ) -> (action: WorkerAction)
        ensures
            final(self).key_view() == old(self).key_view(),
            final(self).spec_state() == next_state(old(self).spec_state(), event),
            action == action_for(old(self).spec_state(), event),
            final(store)@ == store_after(old(store)@, old(self).key_view(), action),
            final(supervisor)@ == live_after(old(supervisor)@, old(self).key_view(), action),
            final(supervisor).issued() == old(supervisor).issued(),
    {
        let action = self.step(event);
        match action {
            WorkerAction::Publish(price) => {
                store.set(&self.key, price);
            },
            WorkerAction::Release { deregister } => {
                if deregister {
                    let _ = supervisor.retire(&self.key);
                }
            },
            _ => {},
        }
        action
    }
}

/// A message that cannot be decoded does not end the session: the worker
/// stays streaming, nothing is written and nothing is released, and the next
/// message that decodes is published as if the bad one had never come.
pub proof fn lemma_decode_failure_is_skipped(
    held: Map<KeyView, Price>,
    key: KeyView,
    error: DecodeError,
    price: Price,
)
    ensures
        next_state(WorkerState::Streaming, WorkerEvent::Message(Err(error)))
            == WorkerState::Streaming,
        action_for(WorkerState::Streaming, WorkerEvent::Message(Err(error)))
            == WorkerAction::Continue,
        state_after(
            WorkerState::Streaming,
            seq![WorkerEvent::Message(Err(error)), WorkerEvent::Message(Ok(price))],
        ) == WorkerState::Streaming,
        store_after_all(
            held,
            key,
            WorkerState::Streaming,
            seq![WorkerEvent::Message(Err(error)), WorkerEvent::Message(Ok(price))],
        ) == after_set(held, key, price),
{
    let bad = WorkerEvent::Message(Err(error));
    let good = WorkerEvent::Message(Ok(price));
    let both = seq![bad, good];
    let one = seq![bad];
    assert(both.drop_last() =~= one);
    assert(one.drop_last() =~= Seq::<WorkerEvent>::empty());
    assert(both.last() == good);
    assert(one.last() == bad);
    assert(state_after(WorkerState::Streaming, one.drop_last()) == WorkerState::Streaming);
    assert(state_after(WorkerState::Streaming, one) == WorkerState::Streaming);
    assert(store_after_all(held, key, WorkerState::Streaming, one.drop_last()) == held);
    assert(store_after_all(held, key, WorkerState::Streaming, one) == held);
}

/// Messages alone never end a session: a streaming worker that is fed only
/// messages, decodable or not, is still streaming after the last of them.
pub proof fn lemma_messages_keep_streaming(events: Seq<WorkerEvent>)
    requires
        forall|i: int| 0 <= i < events.len() ==> #[trigger] events[i] is Message,
    ensures
        state_after(WorkerState::Streaming, events) == WorkerState::Streaming,
    decreases events.len(),
{
    if events.len() > 0 {
        lemma_messages_keep_streaming(events.drop_last());
        assert(events.last() == events[events.len() - 1]);
    }
}

/// Each price is published in the order of arrival: after a streaming worker
/// has taken a run of messages that ends in one that decodes to `price`,
/// the store holds `price` for the worker's key.
pub proof fn lemma_latest_price_is_held(
    held: Map<KeyView, Price>,
    key: KeyView,
    events: Seq<WorkerEvent>,
    price: Price,
)
    requires
        events.len() > 0,
        forall|i: int| 0 <= i < events.len() ==> #[trigger] events[i] is Message,
        events.last() == WorkerEvent::Message(Ok(price)),
    ensures
        store_after_all(held, key, WorkerState::Streaming, events)[key] == price,
        store_after_all(held, key, WorkerState::Streaming, events).contains_key(key),
{
    assert forall|i: int| 0 <= i < events.drop_last().len() implies #[trigger] events.drop_last()[i]
        is Message by {
        assert(events.drop_last()[i] == events[i]);
    }
    lemma_messages_keep_streaming(events.drop_last());
}

/// A worker that has stopped stays stopped, in the state in which it stopped,
/// and asks for nothing more.
pub proof fn lemma_terminal_is_final(state: WorkerState, event: WorkerEvent)
    requires
        state.spec_is_terminal(),
    ensures
        next_state(state, event) == state,
        action_for(state, event) == WorkerAction::Finished,
{
}

/// The connection is released on the step that ends the session, whatever
/// ended it, and on no other step.
pub proof fn lemma_release_on_ending_step(state: WorkerState, event: WorkerEvent)
    ensures
        action_for(state, event) is Release <==> !state.spec_is_terminal() && next_state(
            state,
            event,
        ).spec_is_terminal(),
        action_for(state, event) == (WorkerAction::Release { deregister: true }) <==> !(
        state.spec_is_terminal()) && (next_state(state, event) == WorkerState::Failed
            || next_state(state, event) == WorkerState::ClosedByPeer),
        action_for(state, event) == (WorkerAction::Release { deregister: false })
            <==> !state.spec_is_terminal() && next_state(state, event)
            == WorkerState::Cancelled,
{
}

/// Over any run of events the connection is released at most once, and
/// exactly once if the run ends the session.
pub proof fn lemma_released_once(state: WorkerState, events: Seq<WorkerEvent>)
    requires
        !state.spec_is_terminal(),
    ensures
        releases(state, events) == if state_after(state, events).spec_is_terminal() {
            1nat
        } else {
            0nat
        },
    decreases events.len(),
{
    if events.len() > 0 {
        lemma_released_once(state, events.drop_last());
    }
}

/// A stop request ends a running worker at once and leaves its registry
/// entry to whoever sent the request.
pub proof fn lemma_cancel_stops_at_once(state: WorkerState)
    requires
        !state.spec_is_terminal(),
    ensures
        next_state(state, WorkerEvent::CancelRequested) == WorkerState::Cancelled,
        action_for(state, WorkerEvent::CancelRequested) == (WorkerAction::Release {
            deregister: false,
        }),
{
}

} // verus!
