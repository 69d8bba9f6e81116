//! The retry scheduler: how long a task waits after a failed delivery.

use rand::rngs::StdRng;
use rand::Rng;
use vstd::arithmetic::power2::{lemma2_to64, lemma_pow2_strictly_increases, lemma_pow2_unfold, pow2};
use vstd::prelude::*;

verus! {

/// The longest wait, in seconds, that the scheduler ever allows.
pub const CAP: u16 = 900;

/// The base of the exponential growth.
pub const BASE: u16 = 2;

/// The shortest wait, in seconds.
pub const MIN_WAIT: u16 = 1;

/// `rand`'s standard generator, `rand::rngs::StdRng`. The library sees
/// nothing inside it and only hands it on to the one function that draws.
#[verifier::external_type_specification]
#[verifier::external_body]
pub struct ExStdRng(rand::rngs::StdRng);

/// The exclusive upper bound of the wait after `retry_count` earlier failures:
/// `min(CAP, BASE^(retry_count + 1))`.
pub open spec fn max_wait(retry_count: nat) -> nat {
    if pow2(retry_count + 1) < CAP as nat {
        pow2(retry_count + 1)
    } else {
        CAP as nat
    }
}

/// Whether `wait_seconds` is a wait that the scheduler may hand out after
/// `retry_count` earlier failures.
pub open spec fn wait_in_range(retry_count: nat, wait_seconds: nat) -> bool {
    MIN_WAIT as nat <= wait_seconds < max_wait(retry_count)
}

/// `max_wait` grows with the retry count.
pub proof fn lemma_max_wait_increases(r1: nat, r2: nat)
    requires
        r1 <= r2,
    ensures
        max_wait(r1) <= max_wait(r2),
{
    if r1 < r2 {
        lemma_pow2_strictly_increases(r1 + 1, r2 + 1);
    }
}

/// `max_wait` lies between 2 and the cap, so the range `[1, max_wait)` is
/// never empty.
pub proof fn lemma_max_wait_bounds(retry_count: nat)
    ensures
        2 <= max_wait(retry_count) <= CAP,
{
    lemma2_to64();
    if retry_count > 0 {
        lemma_pow2_strictly_increases(1, retry_count + 1);
    }
}

/// Backoff monotonicity: one more failure never shortens the longest wait,
/// and the longest wait never exceeds the cap.
pub proof fn backoff_monotonic(retry_count: nat)
    ensures
        max_wait(retry_count) <= max_wait(retry_count + 1),
        max_wait(retry_count + 1) <= CAP,
{
    lemma_max_wait_increases(retry_count, retry_count + 1);
    lemma_max_wait_bounds(retry_count + 1);
}

/// Computes `max_wait(retry_count)` without ever leaving `u16`.
pub fn max_wait_seconds(retry_count: u16) -> (bound: u16)
    ensures
        bound == max_wait(retry_count as nat),
        2 <= bound <= CAP,
{
    proof {
        lemma2_to64();
        lemma_max_wait_bounds(retry_count as nat);
    }
    let mut bound: u16 = BASE;
    let mut done: u16 = 0;
    while done < retry_count && bound < CAP
        invariant
            done <= retry_count,
            bound == pow2((done + 1) as nat),
            bound <= 1024,
        decreases retry_count - done,
    {
        proof {
            lemma2_to64();
            if done + 1 > 9 {
                if done + 1 > 10 {
                    lemma_pow2_strictly_increases(10, (done + 1) as nat);
                }
            } else if done + 1 < 9 {
                lemma_pow2_strictly_increases((done + 1) as nat, 9);
            }
            lemma_pow2_unfold((done + 2) as nat);
        }
        bound = bound * BASE;
        done = done + 1;
    }
    if bound < CAP {
        bound
    } else {
        proof {
            if done < retry_count {
                lemma_pow2_strictly_increases((done + 1) as nat, (retry_count + 1) as nat);
            }
        }
        CAP
    }
}

/// Draws a number with `rand::Rng::gen_range` on the half-open range
/// `low..high`. `gen_range` panics on an empty range, which `requires` leaves
/// out; of the number drawn the contract claims only that it lies in the range.
#[verifier::external_body]
fn draw_below(rng: &mut StdRng, low: u16, high: u16) -> (drawn: u16)
    requires
        low < high,
    ensures
        low <= drawn < high,
{
    rng.gen_range(low..high)
}

/// The wait before the next attempt and the retry count after this failure.
///
/// The wait is drawn uniformly from `[1, max_wait(retry_count))` seconds, so
/// that tasks which failed together do not come back together.
pub fn compute_backoff(retry_count: u16, rng: &mut StdRng) -> (next: (u16, u16))
    requires
        retry_count < u16::MAX,
    ensures
        wait_in_range(retry_count as nat, next.0 as nat),
        next.1 == retry_count + 1,
{
    let bound: u16 = max_wait_seconds(retry_count);
    let wait_seconds: u16 = draw_below(rng, MIN_WAIT, bound);
    (wait_seconds, retry_count + 1)
}

} // verus!
