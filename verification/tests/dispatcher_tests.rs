use crossbeam::channel::Receiver;
use matching_engine::engine::command::EngineCommand;
use matching_engine::engine::dispatcher::{dispatch_answer, DispatchError, EngineDispatcher, SendAttempt};
use matching_engine::engine::result_handler::{next_retry_delay_ms, EngineHealth};

const SYMBOL: &str = "BTCUSDT";

fn make_dispatcher_with_receiver(capacity: usize) -> (EngineDispatcher, Receiver<EngineCommand>) {
    let (engine_tx, engine_rx) = crossbeam::channel::bounded(capacity);
    let senders = vec![(SYMBOL.to_string(), engine_tx)];
    (EngineDispatcher::new(senders, EngineHealth::default()), engine_rx)
}

fn make_cmd() -> EngineCommand {
    EngineCommand::generated_cancel(42)
}

#[test]
fn dispatch_reaches_registered_engine() {
    let (dispatcher, engine_rx) = make_dispatcher_with_receiver(1);

    let cmd = make_cmd();
    let order_id = cmd.order_id();
    assert!(dispatcher.dispatch(SYMBOL, cmd).is_ok());

    let received = engine_rx.try_recv().expect("dispatch된 command 수신 실패");
    assert_eq!(received.order_id(), order_id);
}

#[test]
fn dispatch_after_receiver_dropped_reports_engine_stopped() {
    let (dispatcher, engine_rx) = make_dispatcher_with_receiver(1);
    drop(engine_rx);

    let result = dispatcher.dispatch(SYMBOL, make_cmd());

    assert!(matches!(result, Err(DispatchError::EngineStopped { .. })));
}

#[test]
fn dispatch_to_full_channel_reports_channel_full() {
    let (dispatcher, _engine_rx) = make_dispatcher_with_receiver(0);

    let result = dispatcher.dispatch(SYMBOL, make_cmd());

    assert!(matches!(result, Err(DispatchError::ChannelFull { .. })));
}

#[test]
fn dispatch_to_unknown_symbol_is_refused() {
    let (dispatcher, _) = make_dispatcher_with_receiver(1);
    let result = dispatcher.dispatch("ETHUSDT", make_cmd());
    assert!(matches!(result, Err(DispatchError::UnknownSymbol { .. })));
}

#[test]
fn unhealthy_publisher_refuses_commands() {
    let (engine_tx, _engine_rx) = crossbeam::channel::bounded(1);
    let health = EngineHealth::default();
    let dispatcher = EngineDispatcher::new(vec![(SYMBOL.to_string(), engine_tx)], health.clone());
    health.mark_publisher_unhealthy();
    assert!(!health.is_publisher_healthy());
    let result = dispatcher.dispatch(SYMBOL, make_cmd());
    match result {
        Err(DispatchError::PublisherUnhealthy { symbol, order_id }) => {
            assert_eq!(symbol, SYMBOL);
            assert_eq!(order_id, 42);
        }
        other => panic!("unexpected {other:?}"),
    }
    health.mark_publisher_healthy();
    assert!(dispatcher.dispatch(SYMBOL, make_cmd()).is_ok());
}

#[test]
fn retry_delay_doubles_up_to_one_second() {
    assert_eq!(next_retry_delay_ms(10), 20);
    assert_eq!(next_retry_delay_ms(400), 800);
    assert_eq!(next_retry_delay_ms(800), 1000);
    assert_eq!(next_retry_delay_ms(1000), 1000);
}

#[test]
fn route_finds_the_first_queue_of_a_symbol() {
    let (a_tx, _a_rx) = crossbeam::channel::bounded::<EngineCommand>(1);
    let (b_tx, b_rx) = crossbeam::channel::bounded::<EngineCommand>(1);
    let (c_tx, _c_rx) = crossbeam::channel::bounded::<EngineCommand>(1);
    let dispatcher = EngineDispatcher::new(
        vec![("AAA".to_string(), a_tx), ("BBB".to_string(), b_tx), ("BBB".to_string(), c_tx)],
        EngineHealth::default(),
    );
    assert_eq!(dispatcher.route("BBB"), Some(1));
    assert_eq!(dispatcher.route("CCC"), None);
    assert!(dispatcher.dispatch("BBB", make_cmd()).is_ok());
    assert_eq!(b_rx.try_recv().unwrap().order_id(), 42);
    assert!(matches!(dispatch_answer("X", 1, false, true, SendAttempt::Sent), Err(DispatchError::PublisherUnhealthy { .. })));
    assert!(matches!(dispatch_answer("X", 1, true, false, SendAttempt::Sent), Err(DispatchError::UnknownSymbol { .. })));
    assert!(matches!(dispatch_answer("X", 1, true, true, SendAttempt::Full), Err(DispatchError::ChannelFull { .. })));
    assert!(matches!(dispatch_answer("X", 1, true, true, SendAttempt::Disconnected), Err(DispatchError::EngineStopped { .. })));
    assert!(dispatch_answer("X", 1, true, true, SendAttempt::Sent).is_ok());
}
