use vstd::prelude::*;

verus! {

/// Registration of a client with the broker: the client's id and the IPv4
/// address, as four bytes, of the server that holds its event stream.
#[derive(Clone, Debug)]
pub struct SaveClientRequest {
    pub client_id: String,
    pub server_ipv4_addr: Vec<u8>,
}

/// The broker's answer to a registration.
#[derive(Clone, Debug)]
pub struct SaveResponse {
    pub success: bool,
    pub message: String,
}

} // verus!
