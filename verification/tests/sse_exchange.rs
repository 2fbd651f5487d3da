use open_sse::server::sse_exchange::{
    generate_sse_message, ConnectOutcome, DeliveryOutcome, Event, ExchangeState, StreamClient,
    CONNECTION_ESTABLISHED,
};
use std::sync::mpsc::{sync_channel, Receiver, SyncSender};

/// Drives the exchange as its command loop does, with channels of this process.
fn connect(state: &mut ExchangeState<SyncSender<String>>, client_id: &str) -> (ConnectOutcome, Receiver<String>) {
    let (tx, rx) = sync_channel::<String>(512);
    let client = StreamClient::new(client_id, tx);
    let acknowledged = client.sender().send(CONNECTION_ESTABLISHED.to_string()).is_ok();
    (state.handle_connect(client, acknowledged), rx)
}

fn connect_closed(state: &mut ExchangeState<SyncSender<String>>, client_id: &str) -> ConnectOutcome {
    let (tx, rx) = sync_channel::<String>(512);
    drop(rx);
    let client = StreamClient::new(client_id, tx);
    let acknowledged = client.sender().send(CONNECTION_ESTABLISHED.to_string()).is_ok();
    state.handle_connect(client, acknowledged)
}

fn publish(state: &mut ExchangeState<SyncSender<String>>, event: Event) -> Option<DeliveryOutcome> {
    let delivered = match state.recipient(event.client_id()) {
        Some(tx) => tx.send(generate_sse_message(event.payload())).is_ok(),
        None => return None,
    };
    Some(state.handle_delivery(event.client_id(), delivered))
}

#[test]
fn should_be_able_to_receive_message_when_one_is_sent() {
    let test_payload = "this is a test";
    let test_correlation_id = "0e88139d-5409-4c91-b652-6bf5e54fd81e";
    let test_client_id = "1";
    let expected_connection_message = CONNECTION_ESTABLISHED;
    let expected_payload = generate_sse_message(test_payload);

    let mut state = ExchangeState::new();
    let (outcome, client_rx) = connect(&mut state, test_client_id);
    assert_eq!(outcome, ConnectOutcome::Registered, "unexpected error occur when attempting to connect");

    let published = publish(&mut state, Event::new(test_client_id, test_correlation_id, test_payload));
    assert_eq!(published, Some(DeliveryOutcome::Delivered), "fail to publish");

    assert_eq!(client_rx.recv().unwrap(), expected_connection_message);
    assert_eq!(client_rx.recv().unwrap(), expected_payload);
    assert_eq!(state.client_count(), 1);
}

#[test]
fn should_remove_client_when_client_close_rx() {
    let test_client_id = "1";
    let test_correlation_id = "0e88139d-5409-4c91-b652-6bf5e54fd81e";

    let mut state = ExchangeState::new();
    let (outcome, client_rx) = connect(&mut state, test_client_id);
    assert_eq!(outcome, ConnectOutcome::Registered, "unexpected error occur when attempting to connect");
    assert_eq!(state.client_count(), 1);

    drop(client_rx);

    let published = publish(&mut state, Event::new(test_client_id, test_correlation_id, "dummy"));
    assert_eq!(published, Some(DeliveryOutcome::ClientRemoved));
    assert_eq!(state.client_count(), 0);
}

#[test]
fn should_not_register_client_when_connection_acknowledgement_cannot_be_sent() {
    let test_client_id = "1";
    let mut state = ExchangeState::new();
    let outcome = connect_closed(&mut state, test_client_id);
    assert_eq!(outcome, ConnectOutcome::Rejected);
    assert_eq!(state.client_count(), 0);
}

#[test]
fn generate_sse_message_frames_the_payload() {
    assert_eq!(generate_sse_message("hello"), "data: hello\n\n");
    assert_eq!(generate_sse_message(""), "data: \n\n");
    assert_eq!(CONNECTION_ESTABLISHED, generate_sse_message("connection established"));
}

#[test]
fn publishing_to_an_unknown_client_sends_nothing() {
    let mut state = ExchangeState::new();
    let (_, _rx) = connect(&mut state, "a");
    assert_eq!(publish(&mut state, Event::new("b", "c", "payload")), None);
    assert_eq!(state.client_count(), 1);
}

#[test]
fn reconnecting_a_client_replaces_its_channel() {
    let mut state = ExchangeState::new();
    let (_, old_rx) = connect(&mut state, "a");
    let (_, new_rx) = connect(&mut state, "a");
    assert_eq!(state.client_count(), 1);
    assert_eq!(publish(&mut state, Event::new("a", "c", "x")), Some(DeliveryOutcome::Delivered));
    assert_eq!(old_rx.recv().unwrap(), CONNECTION_ESTABLISHED);
    assert!(old_rx.try_recv().is_err());
    assert_eq!(new_rx.recv().unwrap(), CONNECTION_ESTABLISHED);
    assert_eq!(new_rx.recv().unwrap(), "data: x\n\n");
}

#[test]
fn removing_one_client_leaves_the_others() {
    let mut state = ExchangeState::new();
    let (_, rx_a) = connect(&mut state, "a");
    let (_, rx_b) = connect(&mut state, "b");
    let (_, rx_c) = connect(&mut state, "c");
    assert_eq!(state.client_count(), 3);
    drop(rx_b);
    assert_eq!(publish(&mut state, Event::new("b", "c", "x")), Some(DeliveryOutcome::ClientRemoved));
    assert_eq!(state.client_count(), 2);
    assert_eq!(publish(&mut state, Event::new("a", "c", "to a")), Some(DeliveryOutcome::Delivered));
    assert_eq!(publish(&mut state, Event::new("c", "c", "to c")), Some(DeliveryOutcome::Delivered));
    assert_eq!(rx_a.recv().unwrap(), CONNECTION_ESTABLISHED);
    assert_eq!(rx_a.recv().unwrap(), "data: to a\n\n");
    assert_eq!(rx_c.recv().unwrap(), CONNECTION_ESTABLISHED);
    assert_eq!(rx_c.recv().unwrap(), "data: to c\n\n");
}

#[test]
fn a_successful_delivery_keeps_the_client() {
    let mut state: ExchangeState<u32> = ExchangeState::new();
    assert_eq!(state.handle_connect(StreamClient::new("x", 7), true), ConnectOutcome::Registered);
    assert_eq!(state.recipient("x"), Some(&7));
    assert_eq!(state.handle_delivery("x", true), DeliveryOutcome::Delivered);
    assert_eq!(state.recipient("x"), Some(&7));
    assert_eq!(state.handle_delivery("x", false), DeliveryOutcome::ClientRemoved);
    assert_eq!(state.recipient("x"), None);
    assert_eq!(state.handle_delivery("x", false), DeliveryOutcome::ClientRemoved);
    assert_eq!(state.client_count(), 0);
}

#[test]
fn event_keeps_its_fields() {
    let e = Event::new("client", "corr", "payload");
    assert_eq!(e.client_id(), "client");
    assert_eq!(e.correlation_id(), "corr");
    assert_eq!(e.payload(), "payload");
    let c = StreamClient::new("id", 3u8);
    assert_eq!(c.id(), "id");
    assert_eq!(*c.sender(), 3u8);
}

#[test]
fn the_exchange_chooses_what_to_send() {
    let mut state: ExchangeState<u32> = ExchangeState::new();
    let client = StreamClient::new("x", 9);
    let (to, message) = client.acknowledgement();
    assert_eq!(*to, 9);
    assert_eq!(message, CONNECTION_ESTABLISHED);
    state.handle_connect(client, true);
    let (to, message) = state.publication(&Event::new("x", "c", "hello")).unwrap();
    assert_eq!(*to, 9);
    assert_eq!(message, "data: hello\n\n");
    assert!(state.publication(&Event::new("y", "c", "hello")).is_none());
}
