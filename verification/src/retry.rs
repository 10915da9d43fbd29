//! The retry policy of the network layer: exponential backoff with jitter.
//!
//! Every fetch starts from a one-second nominal delay.  After a transport
//! failure the caller sleeps for the current delay, then the delay grows by
//! a random jitter factor scaled so the expected growth is four-fold per
//! attempt.  Once the nominal delay would reach the 64-second ceiling the
//! fetch is abandoned and the last transport error is surfaced.  The policy
//! below takes each failure as an event and decides sleep, retry or give-up;
//! the caller performs the fetch and the sleeping.

use vstd::prelude::*;

verus! {

/// The nominal delay the policy starts from, in milliseconds.
pub const INITIAL_DELAY_MS: u64 = 1000;

/// The ceiling: a nominal delay at or above this abandons the fetch.
pub const CEILING_MS: u64 = 64000;

/// Jitter samples lie below this scale.
pub const JITTER_SCALE: u64 = 1000;

/// What a failure step decides.
#[derive(Clone, Copy, Debug, PartialEq, Eq, Structural)]
pub enum RetryDecision {
    /// Try the fetch again after sleeping.
    Retry,
    /// The ceiling is reached: surface the last transport error.
    GiveUp,
}

/// One processed failure: how long to sleep, and whether to go on.
#[derive(Clone, Copy, Debug, PartialEq, Eq, Structural)]
pub struct FailureStep {
    pub sleep_ms: u64,
    pub decision: RetryDecision,
}

/// The backoff state of one fetch.
#[derive(Clone, Copy, Debug, PartialEq, Eq, Structural)]
pub struct RetryPolicy {
    pub delay_ms: u64,
}

/// The delay after one failure: the old delay scaled by `8 * jitter / 1000`,
/// whose expectation over uniform jitter below 1000 is a four-fold growth.
pub open spec fn grown_delay(delay: int, jitter: u64) -> int {
    (delay * 8 * jitter) / (JITTER_SCALE as int)
}

/// How one failure transforms the policy: sleep the old nominal delay, grow
/// it by the jitter factor, and give up exactly when the grown delay reaches
/// the ceiling.
pub open spec fn failure_post(
    prev: RetryPolicy,
    next: RetryPolicy,
    jitter: u64,
    r: FailureStep,
) -> bool {
    r.sleep_ms == prev.delay_ms && next.delay_ms == grown_delay(prev.delay_ms as int, jitter)
        && r.decision == (if next.delay_ms >= CEILING_MS {
        RetryDecision::GiveUp
    } else {
        RetryDecision::Retry
    })
}

/// The nominal delay after a run of transport failures with the given
/// jitter samples, each failure growing the delay by its sample's factor
/// (exactly what `failure_post` says of each step).
pub open spec fn delay_after(d: int, js: Seq<u64>) -> int
    decreases js.len(),
{
    if js.len() == 0 {
        d
    } else {
        delay_after(grown_delay(d, js[0]), js.drop_first())
    }
}

/// `d` doubled `k` times.
spec fn doubled(d: int, k: nat) -> int
    decreases k,
{
    if k == 0 {
        d
    } else {
        doubled(2 * d, (k - 1) as nat)
    }
}

proof fn lemma_doubled_mono(a: int, b: int, k: nat)
    requires
        a >= b,
    ensures
        doubled(a, k) >= doubled(b, k),
    decreases k,
{
    if k > 0 {
        lemma_doubled_mono(2 * a, 2 * b, (k - 1) as nat);
    }
}

proof fn lemma_grown_at_least_double(d: int, j: u64)
    requires
        d >= 0,
        250 <= j,
    ensures
        grown_delay(d, j) >= 2 * d,
{
    assert(d * 8 * j >= d * 2000) by (nonlinear_arith)
        requires
            d >= 0,
            j >= 250,
    ;
    assert(d * 2000 == 1000 * (2 * d)) by (nonlinear_arith);
    vstd::arithmetic::div_mod::lemma_div_multiples_vanish(2 * d, 1000);
    vstd::arithmetic::div_mod::lemma_div_is_ordered(1000 * (2 * d), d * 8 * j, 1000);
}

proof fn lemma_delay_growth(d: int, js: Seq<u64>)
    requires
        d >= 0,
        forall|i: int| 0 <= i < js.len() ==> 250 <= #[trigger] js[i],
    ensures
        delay_after(d, js) >= doubled(d, js.len()),
    decreases js.len(),
{
    if js.len() > 0 {
        let d1 = grown_delay(d, js[0]);
        lemma_grown_at_least_double(d, js[0]);
        assert forall|i: int| 0 <= i < js.drop_first().len() implies 250 <= #[trigger] js.drop_first()[i] by {
            assert(js.drop_first()[i] == js[i + 1]);
        }
        lemma_delay_growth(d1, js.drop_first());
        lemma_doubled_mono(d1, 2 * d, (js.len() - 1) as nat);
    }
}

/// Termination of retrying: when the transport keeps failing and no jitter
/// sample is degenerate (each at least a quarter of the scale, so every
/// failure at least doubles the nominal delay), six failures drive the
/// delay from its initial second to the 64-second ceiling, where the
/// policy's decision is give-up — the fetch is abandoned rather than
/// retried indefinitely.  Samples below a quarter of the scale are
/// excluded: such a sample can shrink the delay (zero pins it at zero),
/// and then no step bound holds.
pub proof fn lemma_retry_gives_up(js: Seq<u64>)
    requires
        js.len() >= 6,
        forall|i: int| 0 <= i < js.len() ==> 250 <= #[trigger] js[i],
    ensures
        delay_after(INITIAL_DELAY_MS as int, js.take(6)) >= CEILING_MS,
{
    let pre = js.take(6);
    assert forall|i: int| 0 <= i < pre.len() implies 250 <= #[trigger] pre[i] by {
        assert(pre[i] == js[i]);
    }
    lemma_delay_growth(INITIAL_DELAY_MS as int, pre);
    assert(doubled(1000, 6) == doubled(2000, 5));
    assert(doubled(2000, 5) == doubled(4000, 4));
    assert(doubled(4000, 4) == doubled(8000, 3));
    assert(doubled(8000, 3) == doubled(16000, 2));
    assert(doubled(16000, 2) == doubled(32000, 1));
    assert(doubled(32000, 1) == doubled(64000, 0));
    assert(doubled(64000, 0) == 64000);
}

/// Relies on rand::Rng::random_range over an end-exclusive integer range:
/// the sample always lies inside the range.
#[verifier::external_body]
fn sample_jitter() -> (r: u64)
    ensures
        r < JITTER_SCALE,
{
    rand::RngExt::random_range(&mut rand::rng(), 0..JITTER_SCALE)
}

impl RetryPolicy {
    /// A fresh fetch: the one-second nominal delay.
    pub fn new() -> (r: Self)
        ensures
            r.delay_ms == INITIAL_DELAY_MS,
    {
        RetryPolicy { delay_ms: INITIAL_DELAY_MS }
    }

    /// Processes one transport failure with the given jitter sample.  The
    /// sleep is always the pre-growth nominal delay, so no single sleep
    /// reaches the ceiling.
    pub fn on_failure(&mut self, jitter: u64) -> (r: FailureStep)
        requires
            jitter < JITTER_SCALE,
            old(self).delay_ms < CEILING_MS,
        ensures
            failure_post(*old(self), *final(self), jitter, r),
            r.sleep_ms < CEILING_MS,
    {
        let sleep_ms = self.delay_ms;
        proof {
            let d = self.delay_ms as int;
            let j = jitter as int;
            assert(d * 8 * j < 64000 * 8 * 1000) by (nonlinear_arith)
                requires
                    0 <= d < 64000,
                    0 <= j < 1000,
            ;
        }
        self.delay_ms = self.delay_ms * 8 * jitter / JITTER_SCALE;
        let decision = if self.delay_ms >= CEILING_MS {
            RetryDecision::GiveUp
        } else {
            RetryDecision::Retry
        };
        FailureStep { sleep_ms, decision }
    }

    /// Processes one transport failure with a fresh random jitter sample:
    /// whatever was sampled, the step follows the failure rule for it.
    pub fn on_failure_random(&mut self) -> (r: FailureStep)
        requires
            old(self).delay_ms < CEILING_MS,
        ensures
            exists|j: u64| j < JITTER_SCALE && failure_post(*old(self), *final(self), j, r),
            r.sleep_ms < CEILING_MS,
    {
        let jitter = sample_jitter();
        let r = self.on_failure(jitter);
        proof {
            assert(jitter < JITTER_SCALE && failure_post(*old(self), *self, jitter, r));
        }
        r
    }

    /// Whether the policy may still retry.
    pub fn can_retry(&self) -> (r: bool)
        ensures
            r == (self.delay_ms < CEILING_MS),
    {
        self.delay_ms < CEILING_MS
    }
}

} // verus!
