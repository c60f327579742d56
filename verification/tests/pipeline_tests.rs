use online::message_error::MessageError;
use online::pipeline::process_message;
use online::pipeline::step;
use online::pipeline::LoopCommand;
use online::pipeline::LoopEvent;
use online::pipeline::LoopState;
use online::pipeline::RECONNECT_DELAY_MS;
use online::store::OnlineStore;

#[test]
fn well_formed_message_is_persisted_online() {
    let mut store = OnlineStore::new();
    let body = "{\"uuid\":\"dev-1\",\"apiToken\":\"tok-1\",\"payload\":{}}"
        .as_bytes()
        .to_vec();
    let rec = process_message(&mut store, &body, 100).unwrap();
    assert_eq!(rec.uuid, "dev-1");
    assert_eq!(rec.apiToken, "tok-1");
    assert!(rec.online);
    assert_eq!(store.record_count(), 1);
    let kept = store.find_online("dev-1", "tok-1").unwrap();
    assert!(kept.online);
    assert_eq!(kept.createdAt, "100");
}

#[test]
fn empty_body_mutates_nothing() {
    let mut store = OnlineStore::new();
    let body: Vec<u8> = Vec::new();
    let r = process_message(&mut store, &body, 100);
    assert!(matches!(r, Err(MessageError::EmptyMessageError)));
    assert_eq!(store.record_count(), 0);
}

#[test]
fn malformed_body_mutates_nothing() {
    let mut store = OnlineStore::new();
    let body = "{\"uuid\":\"dev-1\"}".as_bytes().to_vec();
    let r = process_message(&mut store, &body, 100);
    assert!(matches!(r, Err(MessageError::ParseMessageError)));
    assert_eq!(store.record_count(), 0);
}

#[test]
fn repeated_messages_keep_one_record() {
    let mut store = OnlineStore::new();
    let body = "{\"uuid\":\"dev-1\",\"apiToken\":\"tok-1\",\"payload\":{}}"
        .as_bytes()
        .to_vec();
    process_message(&mut store, &body, 100).unwrap();
    let rec = process_message(&mut store, &body, 200).unwrap();
    assert_eq!(store.record_count(), 1);
    assert_eq!(rec.createdAt, "100");
    assert_eq!(rec.modifiedAt, "200");
}

#[test]
fn delivery_is_processed_in_receiving_state() {
    let body = vec![1u8, 2, 3];
    let (state, cmd) = step(LoopState::Receiving, LoopEvent::MessageArrived(body));
    assert!(matches!(state, LoopState::Receiving));
    match cmd {
        LoopCommand::ProcessDelivery(b) => assert_eq!(b, vec![1u8, 2, 3]),
        _ => panic!("expected the delivery to be processed"),
    }
}

#[test]
fn lost_connection_starts_reconnecting() {
    let (state, cmd) = step(LoopState::Receiving, LoopEvent::ConnectionLost);
    assert!(matches!(state, LoopState::Reconnecting));
    assert!(matches!(cmd, LoopCommand::TryReconnect));
}

#[test]
fn failed_reconnect_retries_after_fixed_pause() {
    let (state, cmd) = step(LoopState::Reconnecting, LoopEvent::ReconnectFailed);
    assert!(matches!(state, LoopState::Reconnecting));
    match cmd {
        LoopCommand::RetryReconnectAfter(ms) => assert_eq!(ms, RECONNECT_DELAY_MS),
        _ => panic!("expected a retry after the fixed pause"),
    }
    assert_eq!(RECONNECT_DELAY_MS, 5000);
}

#[test]
fn successful_reconnect_resumes_receiving() {
    let (state, cmd) = step(LoopState::Reconnecting, LoopEvent::ReconnectSucceeded);
    assert!(matches!(state, LoopState::Receiving));
    assert!(matches!(cmd, LoopCommand::AwaitDelivery));
}
