use price_sessions::{
    DecodeError, Price, PriceStore, SessionKey, SessionSupervisor, StreamWorker, WorkerAction,
    WorkerEvent, WorkerState,
};

fn price(value: f64) -> Price {
    Price::from_bits(value.to_bits())
}

fn read(store: &PriceStore, key: &SessionKey) -> Option<f64> {
    store.get(key).map(|p| f64::from_bits(p.to_bits()))
}

#[test]
fn prices_reach_the_store_in_the_order_received() {
    let mut supervisor = SessionSupervisor::new();
    let mut store = PriceStore::new();
    let (k0, _watch) = supervisor.open("BTCUSDT").expect("a fresh key");
    let mut worker = StreamWorker::new(k0.clone());
    assert_eq!(
        worker.handle(WorkerEvent::Connected, &mut store, &mut supervisor),
        WorkerAction::Continue
    );
    assert_eq!(read(&store, &k0), None);
    for value in [100.1, 100.3, 99.9] {
        let action = worker.handle(
            WorkerEvent::Message(Ok(price(value))),
            &mut store,
            &mut supervisor,
        );
        assert_eq!(action, WorkerAction::Publish(price(value)));
        assert_eq!(read(&store, &k0), Some(value));
    }
    assert_eq!(worker.state(), WorkerState::Streaming);
    assert!(supervisor.is_open(&k0));
}

#[test]
fn a_decode_failure_does_not_end_the_session() {
    let mut supervisor = SessionSupervisor::new();
    let mut store = PriceStore::new();
    let (key, _watch) = supervisor.open("BTCUSDT").expect("a fresh key");
    let mut worker = StreamWorker::new(key.clone());
    worker.handle(WorkerEvent::Connected, &mut store, &mut supervisor);
    worker.handle(WorkerEvent::Message(Ok(price(10.0))), &mut store, &mut supervisor);
    let action = worker.handle(
        WorkerEvent::Message(Err(DecodeError::Malformed)),
        &mut store,
        &mut supervisor,
    );
    assert_eq!(action, WorkerAction::Continue);
    assert_eq!(worker.state(), WorkerState::Streaming);
    assert_eq!(read(&store, &key), Some(10.0));
    assert!(supervisor.is_open(&key));
    let action = worker.handle(WorkerEvent::Message(Ok(price(11.0))), &mut store, &mut supervisor);
    assert_eq!(action, WorkerAction::Publish(price(11.0)));
    assert_eq!(read(&store, &key), Some(11.0));
}

#[test]
fn a_failed_connection_frees_the_key_for_a_new_open() {
    let mut supervisor = SessionSupervisor::new();
    let mut store = PriceStore::new();
    let (key, _watch) = supervisor.open("BTCUSDT").expect("a fresh key");
    let mut worker = StreamWorker::new(key.clone());
    worker.handle(WorkerEvent::Connected, &mut store, &mut supervisor);
    worker.handle(WorkerEvent::Message(Ok(price(5.0))), &mut store, &mut supervisor);
    let action = worker.handle(WorkerEvent::StreamFailed, &mut store, &mut supervisor);
    assert_eq!(action, WorkerAction::Release { deregister: true });
    assert_eq!(worker.state(), WorkerState::Failed);
    assert!(!supervisor.is_open(&key));
    assert_eq!(supervisor.live_count(), 0);
    // The last price stays in the store.
    assert_eq!(read(&store, &key), Some(5.0));
    let (again, _watch2) = supervisor.open("BTCUSDT").expect("no duplicate session");
    assert_eq!(again.symbol(), "BTCUSDT");
    assert!(supervisor.is_open(&again));
    // Closing the failed session afterwards is a no-op.
    assert_eq!(supervisor.close(&key), None);
}

#[test]
fn a_stream_that_ends_is_closed_by_peer_and_deregistered() {
    let mut supervisor = SessionSupervisor::new();
    let mut store = PriceStore::new();
    let (key, _watch) = supervisor.open("BTCUSDT").expect("a fresh key");
    let mut worker = StreamWorker::new(key.clone());
    worker.handle(WorkerEvent::Connected, &mut store, &mut supervisor);
    let action = worker.handle(WorkerEvent::StreamEnded, &mut store, &mut supervisor);
    assert_eq!(action, WorkerAction::Release { deregister: true });
    assert_eq!(worker.state(), WorkerState::ClosedByPeer);
    assert!(!supervisor.is_open(&key));
}

#[test]
fn a_connection_that_cannot_be_set_up_fails_the_session() {
    let mut supervisor = SessionSupervisor::new();
    let mut store = PriceStore::new();
    let (key, _watch) = supervisor.open("BTCUSDT").expect("a fresh key");
    let mut worker = StreamWorker::new(key.clone());
    assert_eq!(worker.state(), WorkerState::Connecting);
    let action = worker.handle(WorkerEvent::ConnectFailed, &mut store, &mut supervisor);
    assert_eq!(action, WorkerAction::Release { deregister: true });
    assert_eq!(worker.state(), WorkerState::Failed);
    assert!(!supervisor.is_open(&key));
}

#[test]
fn a_stop_request_ends_the_worker_and_leaves_the_registry_alone() {
    let mut supervisor = SessionSupervisor::new();
    let mut store = PriceStore::new();
    let (key, _watch) = supervisor.open("BTCUSDT").expect("a fresh key");
    let (other, _other_watch) = supervisor.open("BTCUSDT").expect("a fresh key");
    let mut worker = StreamWorker::new(key.clone());
    worker.handle(WorkerEvent::Connected, &mut store, &mut supervisor);
    let action = worker.handle(WorkerEvent::CancelRequested, &mut store, &mut supervisor);
    assert_eq!(action, WorkerAction::Release { deregister: false });
    assert_eq!(worker.state(), WorkerState::Cancelled);
    // The worker took nothing out: both entries are as they were.
    assert!(supervisor.is_open(&key));
    assert!(supervisor.is_open(&other));
    assert_eq!(supervisor.live_count(), 2);
}

#[test]
fn a_stop_request_while_connecting_ends_the_worker() {
    let mut worker = StreamWorker::new(SessionKey::new("BTCUSDT", 0));
    assert_eq!(
        worker.step(WorkerEvent::CancelRequested),
        WorkerAction::Release { deregister: false }
    );
    assert_eq!(worker.state(), WorkerState::Cancelled);
}

#[test]
fn nothing_is_processed_after_the_end() {
    let mut supervisor = SessionSupervisor::new();
    let mut store = PriceStore::new();
    let (key, _watch) = supervisor.open("BTCUSDT").expect("a fresh key");
    let mut worker = StreamWorker::new(key.clone());
    worker.handle(WorkerEvent::Connected, &mut store, &mut supervisor);
    worker.handle(WorkerEvent::Message(Ok(price(1.0))), &mut store, &mut supervisor);
    worker.handle(WorkerEvent::CancelRequested, &mut store, &mut supervisor);
    let events = [
        WorkerEvent::Message(Ok(price(2.0))),
        WorkerEvent::Message(Err(DecodeError::Malformed)),
        WorkerEvent::StreamFailed,
        WorkerEvent::StreamEnded,
        WorkerEvent::CancelRequested,
        WorkerEvent::Connected,
        WorkerEvent::ConnectFailed,
    ];
    for event in events {
        assert_eq!(
            worker.handle(event, &mut store, &mut supervisor),
            WorkerAction::Finished
        );
        assert_eq!(worker.state(), WorkerState::Cancelled);
    }
    assert_eq!(read(&store, &key), Some(1.0));
    assert!(supervisor.is_open(&key));
}

#[test]
fn events_that_do_not_belong_to_the_state_change_nothing() {
    let mut supervisor = SessionSupervisor::new();
    let mut store = PriceStore::new();
    let (key, _watch) = supervisor.open("BTCUSDT").expect("a fresh key");
    let mut worker = StreamWorker::new(key.clone());
    let early = [
        WorkerEvent::Message(Ok(price(2.0))),
        WorkerEvent::Message(Err(DecodeError::Malformed)),
        WorkerEvent::StreamFailed,
        WorkerEvent::StreamEnded,
    ];
    for event in early {
        assert_eq!(
            worker.handle(event, &mut store, &mut supervisor),
            WorkerAction::Continue
        );
        assert_eq!(worker.state(), WorkerState::Connecting);
    }
    assert_eq!(read(&store, &key), None);
    worker.handle(WorkerEvent::Connected, &mut store, &mut supervisor);
    for event in [WorkerEvent::Connected, WorkerEvent::ConnectFailed] {
        assert_eq!(
            worker.handle(event, &mut store, &mut supervisor),
            WorkerAction::Continue
        );
        assert_eq!(worker.state(), WorkerState::Streaming);
    }
    assert!(supervisor.is_open(&key));
}

#[test]
fn step_decides_without_touching_store_or_registry() {
    let mut worker = StreamWorker::new(SessionKey::new("BTCUSDT", 3));
    assert_eq!(worker.key().text(), "BTCUSDT-3");
    assert_eq!(worker.step(WorkerEvent::Connected), WorkerAction::Continue);
    assert_eq!(
        worker.step(WorkerEvent::Message(Ok(price(9.5)))),
        WorkerAction::Publish(price(9.5))
    );
    assert_eq!(
        worker.step(WorkerEvent::Message(Err(DecodeError::Malformed))),
        WorkerAction::Continue
    );
    assert_eq!(
        worker.step(WorkerEvent::StreamEnded),
        WorkerAction::Release { deregister: true }
    );
    assert_eq!(worker.step(WorkerEvent::StreamEnded), WorkerAction::Finished);
}

#[test]
fn terminal_states_are_the_three_ends() {
    assert!(!WorkerState::Connecting.is_terminal());
    assert!(!WorkerState::Streaming.is_terminal());
    assert!(WorkerState::Cancelled.is_terminal());
    assert!(WorkerState::Failed.is_terminal());
    assert!(WorkerState::ClosedByPeer.is_terminal());
}

#[test]
fn two_workers_write_to_their_own_keys() {
    let mut supervisor = SessionSupervisor::new();
    let mut store = PriceStore::new();
    let (k0, _w0) = supervisor.open("BTCUSDT").expect("a fresh key");
    let (k1, _w1) = supervisor.open("BTCUSDT").expect("a fresh key");
    let mut first = StreamWorker::new(k0.clone());
    let mut second = StreamWorker::new(k1.clone());
    first.handle(WorkerEvent::Connected, &mut store, &mut supervisor);
    second.handle(WorkerEvent::Connected, &mut store, &mut supervisor);
    first.handle(WorkerEvent::Message(Ok(price(1.0))), &mut store, &mut supervisor);
    second.handle(WorkerEvent::Message(Ok(price(2.0))), &mut store, &mut supervisor);
    first.handle(WorkerEvent::Message(Ok(price(3.0))), &mut store, &mut supervisor);
    assert_eq!(read(&store, &k0), Some(3.0));
    assert_eq!(read(&store, &k1), Some(2.0));
    first.handle(WorkerEvent::StreamFailed, &mut store, &mut supervisor);
    assert!(!supervisor.is_open(&k0));
    assert!(supervisor.is_open(&k1));
    second.handle(WorkerEvent::Message(Ok(price(4.0))), &mut store, &mut supervisor);
    assert_eq!(read(&store, &k1), Some(4.0));
}
