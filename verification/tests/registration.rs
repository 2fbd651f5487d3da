use open_sse::broker::clients_service::{get_ip_address_string, save_command_arguments, save_reply, SaveFailure};
use open_sse::protocol::SaveClientRequest;
use open_sse::server::routes::{
    connect_reply, connect_step, convert_ipv4_string_to_4bytes, ConnectAction, ConnectEvent, event_stream_headers, save_client_request, send_reply,
    send_request_event, try_convert_ipv4_string_to_4bytes, ConnectReply, SendReply,
};

#[test]
fn converts_dotted_decimal_to_bytes() {
    assert_eq!(convert_ipv4_string_to_4bytes("192.168.1.20"), vec![192, 168, 1, 20]);
    assert_eq!(convert_ipv4_string_to_4bytes("0.0.0.0"), vec![0, 0, 0, 0]);
    assert_eq!(convert_ipv4_string_to_4bytes("255.255.255.255"), vec![255, 255, 255, 255]);
    assert_eq!(convert_ipv4_string_to_4bytes("010.+2.003.4"), vec![10, 2, 3, 4]);
    assert_eq!(convert_ipv4_string_to_4bytes("1.2"), vec![1, 2]);
}

#[test]
fn rejects_pieces_that_are_not_bytes() {
    assert_eq!(try_convert_ipv4_string_to_4bytes("256.1.1.1"), None);
    assert_eq!(try_convert_ipv4_string_to_4bytes("1..1.1"), None);
    assert_eq!(try_convert_ipv4_string_to_4bytes(""), None);
    assert_eq!(try_convert_ipv4_string_to_4bytes("1.2.3.x"), None);
    assert_eq!(try_convert_ipv4_string_to_4bytes("1.2.3.-4"), None);
    assert_eq!(try_convert_ipv4_string_to_4bytes("+.1.1.1"), None);
    assert_eq!(try_convert_ipv4_string_to_4bytes("1.2.3.4:80"), None);
    assert_eq!(try_convert_ipv4_string_to_4bytes("7.7.7.7"), Some(vec![7, 7, 7, 7]));
}

#[test]
fn renders_bytes_as_dotted_decimal() {
    assert_eq!(get_ip_address_string(&vec![10, 0, 0, 1]), "10.0.0.1");
    assert_eq!(get_ip_address_string(&vec![255, 0, 100, 9, 77]), "255.0.100.9");
}

#[test]
fn address_round_trips_through_the_registration() {
    for s in ["127.0.0.1", "10.20.30.40", "0.0.0.0", "255.255.255.255", "192.168.100.7"] {
        let request = save_client_request("client-1", s);
        assert_eq!(request.client_id, "client-1");
        let (key, value) = save_command_arguments(&request);
        assert_eq!(key, "client-1");
        assert_eq!(value, s);
    }
}

#[test]
fn broker_answers_saved_or_internal() {
    let ok = save_reply(true).ok().unwrap();
    assert!(!ok.success);
    assert_eq!(ok.message, "saved");
    assert_eq!(save_reply(false).err(), Some(SaveFailure::Internal));
    let request = SaveClientRequest { client_id: "a".to_string(), server_ipv4_addr: vec![1, 2, 3, 4] };
    assert_eq!(save_command_arguments(&request), ("a".to_string(), "1.2.3.4".to_string()));
}

#[test]
fn connect_replies() {
    assert_eq!(connect_reply(true, true), ConnectReply::EventStream);
    assert_eq!(connect_reply(false, true), ConnectReply::InternalServerError);
    assert_eq!(connect_reply(true, false), ConnectReply::InternalServerError);
    let headers = event_stream_headers();
    assert_eq!(
        headers,
        vec![
            ("content-type", "text/event-stream"),
            ("cache-control", "no-cache"),
            ("connection", "keep-alive"),
            ("access-control-allow-origin", "*"),
        ]
    );
}

#[test]
fn send_requests() {
    let e = send_request_event("c1", Some("corr"), b"hello".to_vec()).ok().unwrap();
    assert_eq!(e.client_id(), "c1");
    assert_eq!(e.correlation_id(), "corr");
    assert_eq!(e.payload(), "hello");
    assert_eq!(send_request_event("c1", None, b"hello".to_vec()).err(), Some(SendReply::BadRequest));
    assert_eq!(send_request_event("c1", Some("corr"), vec![0xff, 0xfe]).err(), Some(SendReply::BadRequest));
    let accented = "caf\u{e9}".as_bytes().to_vec();
    assert_eq!(send_request_event("c1", Some("x"), accented).ok().unwrap().payload(), "caf\u{e9}");
    assert_eq!(send_reply(true), SendReply::Accepted);
    assert_eq!(send_reply(false), SendReply::InternalServerError);
}

#[test]
fn connect_requests_open_the_stream_only_after_the_save() {
    assert_eq!(connect_step(ConnectEvent::Received), ConnectAction::SaveRegistration);
    assert_eq!(connect_step(ConnectEvent::Saved(true)), ConnectAction::OpenStream);
    assert_eq!(connect_step(ConnectEvent::Saved(false)), ConnectAction::Reply(ConnectReply::InternalServerError));
    assert_eq!(connect_step(ConnectEvent::Opened(true)), ConnectAction::Reply(ConnectReply::EventStream));
    assert_eq!(connect_step(ConnectEvent::Opened(false)), ConnectAction::Reply(ConnectReply::InternalServerError));
}
