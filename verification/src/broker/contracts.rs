use vstd::prelude::*;

verus! {

/// A registration sent to the broker over HTTP: the client's id and the
/// address of the server that holds its stream.
#[derive(Clone, Debug)]
pub struct SaveClientRequest {
    pub client_id: String,
    pub server_ip: String,
}

} // verus!
