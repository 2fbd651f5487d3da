use vstd::prelude::*;

verus! {

/// Where a service serves gRPC.
#[derive(Clone, Copy, Debug)]
pub struct GrpcSettings {
    pub port: u16,
}

} // verus!
