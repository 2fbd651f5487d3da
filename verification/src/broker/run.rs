use vstd::prelude::*;

verus! {

/// Why the broker process stopped with an error.
#[derive(PartialEq, Eq, Structural, Debug, Clone, Copy)]
pub enum RunError {
    NotReady,
    StartUp,
    Run,
}

/// How a broker started only to check its readiness exits.
pub fn readiness_check_outcome(ready: bool) -> (r: Result<(), RunError>)
    ensures
        r is Ok <==> ready,
        !ready ==> r == Err::<(), RunError>(RunError::NotReady),
{
    if ready {
        Ok(())
    } else {
        Err(RunError::NotReady)
    }
}

} // verus!
