use vstd::prelude::*;

verus! {

/// What the readiness check does after one probe of the store.
#[derive(PartialEq, Eq, Structural, Debug, Clone, Copy)]
pub enum ReadinessStep {
    /// The store answered: the broker is ready.
    Ready,
    /// The store did not answer and no retry is left: the broker is not ready.
    NotReady,
    /// Wait the retry interval, then probe again as retry `next_retry_count`;
    /// `warn` tells whether this failure is worth a warning (every failure
    /// after the first attempt is).
    Retry { next_retry_count: u8, warn: bool },
}

pub open spec fn readiness_decision(retry_count: u8, max_retry_count: u8, reachable: bool) -> ReadinessStep {
    if reachable {
        ReadinessStep::Ready
    } else if retry_count >= max_retry_count {
        ReadinessStep::NotReady
    } else {
        ReadinessStep::Retry { next_retry_count: (retry_count + 1) as u8, warn: retry_count >= 1 }
    }
}

/// The decision taken after probe number `retry_count` (counting from 0)
/// answered `reachable`, with `max_retry_count` retries allowed.
pub fn readiness_step(retry_count: u8, max_retry_count: u8, reachable: bool) -> (r: ReadinessStep)
    ensures
        r == readiness_decision(retry_count, max_retry_count, reachable),
{
    if reachable {
        ReadinessStep::Ready
    } else if retry_count >= max_retry_count {
        ReadinessStep::NotReady
    } else {
        ReadinessStep::Retry { next_retry_count: retry_count + 1, warn: retry_count >= 1 }
    }
}

/// The verdict of the readiness check when its probes answer `probes` in
/// order, starting at retry `retry_count`; `None` when it would need more
/// probes than `probes` holds.
pub open spec fn readiness_verdict(retry_count: u8, max_retry_count: u8, probes: Seq<bool>) -> Option<bool>
    decreases probes.len(),
{
    if probes.len() == 0 {
        None
    } else {
        match readiness_decision(retry_count, max_retry_count, probes[0]) {
            ReadinessStep::Ready => Some(true),
            ReadinessStep::NotReady => Some(false),
            ReadinessStep::Retry { next_retry_count, warn } => readiness_verdict(
                next_retry_count,
                max_retry_count,
                probes.drop_first(),
            ),
        }
    }
}

proof fn lemma_verdict_from(retry_count: u8, max_retry_count: u8, probes: Seq<bool>)
    requires
        retry_count <= max_retry_count,
        probes.len() >= max_retry_count - retry_count + 1,
    ensures
        readiness_verdict(retry_count, max_retry_count, probes) == Some(
            exists|i: int| 0 <= i <= max_retry_count - retry_count && #[trigger] probes[i],
        ),
    decreases max_retry_count - retry_count,
{
    let k = max_retry_count - retry_count;
    if probes[0] {
        assert(exists|i: int| 0 <= i <= k && #[trigger] probes[i]) by {
            assert(probes[0]);
        }
    } else if retry_count >= max_retry_count {
        assert(!exists|i: int| 0 <= i <= k && #[trigger] probes[i]);
    } else {
        let rest = probes.drop_first();
        lemma_verdict_from((retry_count + 1) as u8, max_retry_count, rest);
        assert((exists|i: int| 0 <= i <= k - 1 && #[trigger] rest[i]) == (exists|i: int|
            0 <= i <= k && #[trigger] probes[i])) by {
            if exists|i: int| 0 <= i <= k - 1 && #[trigger] rest[i] {
                let i = choose|i: int| 0 <= i <= k - 1 && #[trigger] rest[i];
                assert(probes[i + 1]);
            }
            if exists|i: int| 0 <= i <= k && #[trigger] probes[i] {
                let i = choose|i: int| 0 <= i <= k && #[trigger] probes[i];
                assert(i != 0);
                assert(rest[i - 1]);
            }
        }
    }
}

/// The readiness check probes the store at most `max_retry_count + 1` times,
/// and reports ready exactly when one of those probes answered.
pub proof fn law_readiness_verdict(max_retry_count: u8, probes: Seq<bool>)
    requires
        probes.len() >= max_retry_count + 1,
    ensures
        readiness_verdict(0, max_retry_count, probes.take(max_retry_count + 1)) == Some(
            exists|i: int| 0 <= i <= max_retry_count && #[trigger] probes[i],
        ),
        readiness_verdict(0, max_retry_count, probes) == readiness_verdict(
            0,
            max_retry_count,
            probes.take(max_retry_count + 1),
        ),
{
    let t = probes.take(max_retry_count + 1);
    lemma_verdict_from(0, max_retry_count, t);
    lemma_verdict_from(0, max_retry_count, probes);
    assert((exists|i: int| 0 <= i <= max_retry_count && #[trigger] t[i]) == (exists|i: int|
        0 <= i <= max_retry_count && #[trigger] probes[i])) by {
        if exists|i: int| 0 <= i <= max_retry_count && #[trigger] t[i] {
            let i = choose|i: int| 0 <= i <= max_retry_count && #[trigger] t[i];
            assert(probes[i]);
        }
        if exists|i: int| 0 <= i <= max_retry_count && #[trigger] probes[i] {
            let i = choose|i: int| 0 <= i <= max_retry_count && #[trigger] probes[i];
            assert(t[i]);
        }
    }
}

} // verus!
