use vstd::prelude::*;
use crate::ipv4::{dotted_quad, ipv4_bytes, law_dotted_quad_fields, law_ipv4_round_trip};
use crate::text::{canonical_decimal, split_on};
use crate::protocol::{SaveClientRequest, SaveResponse};
use crate::text::append_decimal;

verus! {

/// Dotted-decimal notation of the first four bytes of `raw`.
pub fn get_ip_address_string(raw: &Vec<u8>) -> (s: String)
    requires
        raw@.len() >= 4,
    ensures
        s@ == dotted_quad(raw@),
        split_on(s@, '.').len() == 4,
        forall|i: int| 0 <= i < 4 ==> canonical_decimal(#[trigger] split_on(s@, '.')[i], raw@[i] as nat),
{
    proof {
        law_dotted_quad_fields(raw@.take(4));
        assert(dotted_quad(raw@.take(4)) == dotted_quad(raw@));
    }
    proof {
        reveal_strlit(".");
    }
    let mut s = String::new();
    append_decimal(&mut s, raw[0] as u64);
    s.append(".");
    append_decimal(&mut s, raw[1] as u64);
    s.append(".");
    append_decimal(&mut s, raw[2] as u64);
    s.append(".");
    append_decimal(&mut s, raw[3] as u64);
    assert(s@ =~= dotted_quad(raw@));
    s
}

/// The key and value under which the broker stores a registration: the
/// client id, and the server's address in dotted-decimal notation.
pub open spec fn client_record(client_id: Seq<char>, server_ipv4_addr: Seq<u8>) -> (Seq<char>, Seq<char>) {
    (client_id, dotted_quad(server_ipv4_addr))
}

/// The key and value that a registration is stored under.
pub fn save_command_arguments(request: &SaveClientRequest) -> (r: (String, String))
    requires
        request.server_ipv4_addr@.len() >= 4,
    ensures
        (r.0@, r.1@) == client_record(request.client_id@, request.server_ipv4_addr@),
{
    (request.client_id.clone(), get_ip_address_string(&request.server_ipv4_addr))
}

/// Why a registration was refused.
#[derive(PartialEq, Eq, Structural, Debug, Clone, Copy)]
pub enum SaveFailure {
    /// The store did not take the record.
    Internal,
}

/// The broker's answer once the store did or did not take the record.
pub fn save_reply(stored: bool) -> (r: Result<SaveResponse, SaveFailure>)
    ensures
        stored <==> r is Ok,
        r matches Ok(response) ==> !response.success && response.message@ == "saved"@,
        r matches Err(e) ==> e == SaveFailure::Internal,
{
    if stored {
        Ok(SaveResponse { success: false, message: "saved".to_owned() })
    } else {
        Err(SaveFailure::Internal)
    }
}

/// A server at a dotted-decimal address `dotted_quad(b)` registers a client
/// with the bytes read from that notation; the broker then stores exactly
/// that notation for the client.
pub proof fn law_registration_round_trip(client_id: Seq<char>, b: Seq<u8>)
    requires
        b.len() == 4,
    ensures
        ipv4_bytes(dotted_quad(b)) is Some,
        client_record(client_id, ipv4_bytes(dotted_quad(b))->0) == (client_id, dotted_quad(b)),
{
    law_ipv4_round_trip(b);
}

} // verus!
