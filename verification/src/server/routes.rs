use vstd::prelude::*;
use vstd::utf8::{decode_utf8, valid_utf8};
use crate::ipv4::ipv4_bytes;
use crate::protocol::SaveClientRequest;
use crate::server::sse_exchange::Event;
use crate::text::{parse_u8, parse_u8_str, split_on, split_str, views};

verus! {

/// The address in `ipv4_string` as bytes, read as `convert_ipv4_string_to_4bytes`
/// reads it; `None` where a piece between dots is not a byte.
pub fn try_convert_ipv4_string_to_4bytes(ipv4_string: &str) -> (r: Option<Vec<u8>>)
    ensures
        r is Some <==> ipv4_bytes(ipv4_string@) is Some,
        r matches Some(v) ==> Some(v@) == ipv4_bytes(ipv4_string@),
{
    let parts = split_str(ipv4_string, '.');
    let ghost pieces = split_on(ipv4_string@, '.');
    let mut bytes: Vec<u8> = Vec::new();
    let mut i: usize = 0;
    while i < parts.len()
        invariant
            i <= parts@.len(),
            views(parts@) == pieces,
            pieces == split_on(ipv4_string@, '.'),
            bytes@.len() == i,
            forall|j: int| 0 <= j < i ==> (#[trigger] parse_u8(pieces[j])) == Some(bytes@[j]),
        decreases parts@.len() - i,
    {
        assert(pieces[i as int] == parts@[i as int]@);
        match parse_u8_str(parts[i]) {
            Some(b) => {
                bytes.push(b);
            },
            None => {
                return None;
            },
        }
        i = i + 1;
    }
    assert(bytes@ =~= pieces.map_values(|p: Seq<char>| parse_u8(p).unwrap()));
    Some(bytes)
}

/// The address in `ipv4_string` as bytes: each piece between dots read as
/// a `u8`.
pub fn convert_ipv4_string_to_4bytes(ipv4_string: &str) -> (r: Vec<u8>)
    requires
        ipv4_bytes(ipv4_string@) is Some,
    ensures
        Some(r@) == ipv4_bytes(ipv4_string@),
{
    match try_convert_ipv4_string_to_4bytes(ipv4_string) {
        Some(v) => v,
        None => {
            proof {
                assert(false);
            }
            Vec::new()
        },
    }
}

/// The registration a server sends to the broker when `client_id` connects
/// to it, the server being reachable at `ip_address`.
pub fn save_client_request(client_id: &str, ip_address: &str) -> (r: SaveClientRequest)
    requires
        ipv4_bytes(ip_address@) is Some,
    ensures
        r.client_id@ == client_id@,
        Some(r.server_ipv4_addr@) == ipv4_bytes(ip_address@),
{
    SaveClientRequest {
        client_id: client_id.to_owned(),
        server_ipv4_addr: convert_ipv4_string_to_4bytes(ip_address),
    }
}

/// How a connect request is answered.
#[derive(PartialEq, Eq, Structural, Debug, Clone, Copy)]
pub enum ConnectReply {
    /// The client's event stream, with the headers of `event_stream_headers`.
    EventStream,
    InternalServerError,
}

pub open spec fn connect_reply_spec(saved: bool, connected: bool) -> ConnectReply {
    if saved && connected {
        ConnectReply::EventStream
    } else {
        ConnectReply::InternalServerError
    }
}

/// A connect request gets its event stream only when both the broker took
/// the registration and the exchange took the client; a refused
/// registration is a server error whatever the exchange did.
pub proof fn law_stream_only_after_save_and_connect(saved: bool, connected: bool)
    ensures
        connect_reply_spec(saved, connected) == ConnectReply::EventStream <==> saved && connected,
        !saved ==> connect_reply_spec(saved, connected) == ConnectReply::InternalServerError,
        !connected ==> connect_reply_spec(saved, connected) == ConnectReply::InternalServerError,
{
}

/// A connect request is answered with the event stream once the broker took
/// the registration and the exchange took the client; with a server error
/// otherwise.
pub fn connect_reply(saved: bool, connected: bool) -> (r: ConnectReply)
    ensures
        r == connect_reply_spec(saved, connected),
        r == ConnectReply::EventStream <==> saved && connected,
        !saved ==> r == ConnectReply::InternalServerError,
{
    proof {
        law_stream_only_after_save_and_connect(saved, connected);
    }
    if saved && connected {
        ConnectReply::EventStream
    } else {
        ConnectReply::InternalServerError
    }
}

/// What has happened so far while a connect request is handled.
#[derive(PartialEq, Eq, Structural, Debug, Clone, Copy)]
pub enum ConnectEvent {
    /// The request arrived.
    Received,
    /// The broker did, or did not, take the client's registration.
    Saved(bool),
    /// The exchange did, or did not, take the client and open its stream.
    Opened(bool),
}

/// What the handler of a connect request does next.
#[derive(PartialEq, Eq, Structural, Debug, Clone, Copy)]
pub enum ConnectAction {
    /// Send the client's registration to the broker.
    SaveRegistration,
    /// Hand the client to the exchange, which opens its event stream.
    OpenStream,
    /// Answer the request.
    Reply(ConnectReply),
}

/// The next step of a connect request: register the client with the broker
/// first; hand it to the exchange only once the broker took the
/// registration; answer with the stream once the exchange took the client,
/// with a server error as soon as a step failed.
pub fn connect_step(event: ConnectEvent) -> (r: ConnectAction)
    ensures
        r == (match event {
            ConnectEvent::Received => ConnectAction::SaveRegistration,
            ConnectEvent::Saved(true) => ConnectAction::OpenStream,
            ConnectEvent::Saved(false) => ConnectAction::Reply(ConnectReply::InternalServerError),
            ConnectEvent::Opened(opened) => ConnectAction::Reply(connect_reply_spec(true, opened)),
        }),
        r == ConnectAction::OpenStream <==> event == ConnectEvent::Saved(true),
        r == ConnectAction::Reply(ConnectReply::EventStream) <==> event == ConnectEvent::Opened(true),
        event == ConnectEvent::Saved(false) ==> r == ConnectAction::Reply(ConnectReply::InternalServerError),
{
    proof {
        law_stream_only_after_save_and_connect(true, true);
        law_stream_only_after_save_and_connect(true, false);
    }
    match event {
        ConnectEvent::Received => ConnectAction::SaveRegistration,
        ConnectEvent::Saved(saved) => {
            if saved {
                ConnectAction::OpenStream
            } else {
                ConnectAction::Reply(connect_reply(false, false))
            }
        },
        ConnectEvent::Opened(opened) => ConnectAction::Reply(connect_reply(true, opened)),
    }
}

/// The headers an event stream response carries, in order.
pub fn event_stream_headers() -> (r: Vec<(&'static str, &'static str)>)
    ensures
        r@.len() == 4,
        r@[0].0@ == "content-type"@ && r@[0].1@ == "text/event-stream"@,
        r@[1].0@ == "cache-control"@ && r@[1].1@ == "no-cache"@,
        r@[2].0@ == "connection"@ && r@[2].1@ == "keep-alive"@,
        r@[3].0@ == "access-control-allow-origin"@ && r@[3].1@ == "*"@,
{
    let mut r = Vec::new();
    r.push(("content-type", "text/event-stream"));
    r.push(("cache-control", "no-cache"));
    r.push(("connection", "keep-alive"));
    r.push(("access-control-allow-origin", "*"));
    r
}

/// How a publish request is answered.
#[derive(PartialEq, Eq, Structural, Debug, Clone, Copy)]
pub enum SendReply {
    Accepted,
    BadRequest,
    InternalServerError,
}

/// `String::from_utf8`, with `None` in place of its error.
#[verifier::external_body]
fn string_from_utf8(bytes: Vec<u8>) -> (r: Option<String>)
    ensures
        r is Some <==> valid_utf8(bytes@),
        r matches Some(s) ==> s@ == decode_utf8(bytes@),
{
    String::from_utf8(bytes).ok()
}

/// The event a publish request asks for: addressed to `client_id`, with the
/// request's correlation id (`None` when the header is missing or is not
/// visible ASCII) and its body, which must be UTF-8. A request that fails
/// either check is a bad request.
pub fn send_request_event(client_id: &str, correlation_id: Option<&str>, body: Vec<u8>) -> (r: Result<Event, SendReply>)
    ensures
        correlation_id is None ==> r == Err::<Event, SendReply>(SendReply::BadRequest),
        correlation_id is Some && !valid_utf8(body@) ==> r == Err::<Event, SendReply>(SendReply::BadRequest),
        correlation_id is Some && valid_utf8(body@) ==> (r matches Ok(e) && e.spec_client_id()
            == client_id@ && e.spec_correlation_id() == correlation_id->0@ && e.spec_payload()
            == decode_utf8(body@)),
{
    let correlation_id = match correlation_id {
        Some(c) => c,
        None => {
            return Err(SendReply::BadRequest);
        },
    };
    match string_from_utf8(body) {
        Some(payload) => Ok(Event::new(client_id, correlation_id, payload.as_str())),
        None => Err(SendReply::BadRequest),
    }
}

/// A well-formed publish request is answered with success once the exchange
/// took the event, with a server error otherwise.
pub fn send_reply(published: bool) -> (r: SendReply)
    ensures
        r == (if published { SendReply::Accepted } else { SendReply::InternalServerError }),
{
    if published {
        SendReply::Accepted
    } else {
        SendReply::InternalServerError
    }
}

} // verus!
