use vstd::prelude::*;

verus! {

/// Whether a service only checks that what it depends on is reachable, how
/// many times it retries and how long it waits between attempts.
#[derive(Clone, Copy, Debug)]
pub struct ReadinessSettings {
    pub check: bool,
    pub retry_count: u8,
    pub retry_interval_in_seconds: u16,
}

} // verus!
