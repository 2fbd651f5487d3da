use vstd::prelude::*;
use crate::text::{decimal, append_decimal};

verus! {

/// Where and how a service serves HTTP.
#[derive(Clone, Debug)]
pub struct HttpSettings {
    pub port: u16,
    pub url_prefix: String,
    pub allowed_origin: String,
}

/// `0.0.0.0:<port>`: every interface of the host, at `port`.
pub open spec fn any_address(port: u16) -> Seq<char> {
    seq!['0', '.', '0', '.', '0', '.', '0', ':'] + decimal(port as nat)
}

/// The socket address that listens on every interface at `port`.
pub fn any_address_string(port: u16) -> (r: String)
    ensures
        r@ == any_address(port),
{
    proof {
        reveal_strlit("0.0.0.0:");
    }
    let mut s = "0.0.0.0:".to_owned();
    append_decimal(&mut s, port as u64);
    assert(s@ =~= any_address(port));
    s
}

impl HttpSettings {
    /// The address the HTTP listener binds to.
    pub fn listener_address(&self) -> (r: String)
        ensures
            r@ == any_address(self.port),
    {
        any_address_string(self.port)
    }
}

} // verus!
