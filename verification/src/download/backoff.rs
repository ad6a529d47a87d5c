//! Waiting times between attempts.

use vstd::prelude::*;

use super::types::MILLISECOND;

verus! {

/// Wait before the first repetition, in nanoseconds.
pub const BASE_BACKOFF: u64 = 500_000_000;

/// Longest wait before jitter, in nanoseconds.
pub const MAX_BACKOFF: u64 = 30_000_000_000;

/// Doublings of the base wait before repetition `attempt`.
pub open spec fn doublings(attempt: u32) -> nat {
    if attempt <= 1 {
        0
    } else if attempt - 1 > 6 {
        6
    } else {
        (attempt - 1) as nat
    }
}

/// Wait before repetition `attempt`, without jitter: half a second, doubled
/// with each repetition, at most half a minute.
pub open spec fn base_wait(attempt: u32) -> int {
    let wait = BASE_BACKOFF * vstd::arithmetic::power2::pow2(doublings(attempt));
    if wait > MAX_BACKOFF {
        MAX_BACKOFF as int
    } else {
        wait
    }
}

/// Wait before repetition `attempt`, with jitter; a first attempt does not
/// wait.
pub open spec fn full_wait(attempt: u32, clock_nanos: u32) -> int {
    if attempt == 0 {
        0
    } else {
        base_wait(attempt) + (clock_nanos % 250) * MILLISECOND
    }
}

/// Wait before repetition `attempt`. `clock_nanos` is the sub-second part of
/// the wall clock; it spreads repetitions over a quarter of a second.
pub fn backoff(attempt: u32, clock_nanos: u32) -> (wait: u64)
    ensures
        wait == full_wait(attempt, clock_nanos),
        wait < MAX_BACKOFF + 250 * MILLISECOND,
{
    if attempt == 0 {
        return 0;
    }
    let exponent: u32 = if attempt - 1 > 6 {
        6
    } else {
        attempt - 1
    };
    let mut wait: u64 = BASE_BACKOFF;
    let mut step: u32 = 0;
    proof {
        vstd::arithmetic::power2::lemma2_to64();
    }
    while step < exponent
        invariant
            step <= exponent <= 6,
            wait == BASE_BACKOFF * vstd::arithmetic::power2::pow2(step as nat),
            wait <= BASE_BACKOFF * 64,
        decreases exponent - step,
    {
        proof {
            vstd::arithmetic::power2::lemma2_to64();
            assert(step == 0 || step == 1 || step == 2 || step == 3 || step == 4 || step == 5);
        }
        wait = wait * 2;
        step += 1;
    }
    let base: u64 = if wait > MAX_BACKOFF {
        MAX_BACKOFF
    } else {
        wait
    };
    let jitter: u64 = (clock_nanos % 250) as u64;
    base + jitter * MILLISECOND
}

/// A longer run of failures never shortens the wait before jitter.
pub proof fn waits_grow(earlier: u32, later: u32)
    requires
        1 <= earlier <= later,
    ensures
        base_wait(earlier) <= base_wait(later) <= MAX_BACKOFF,
{
    vstd::arithmetic::power2::lemma2_to64();
    let low = doublings(earlier);
    let high = doublings(later);
    assert(low == 0 || low == 1 || low == 2 || low == 3 || low == 4 || low == 5 || low == 6);
    assert(high == 0 || high == 1 || high == 2 || high == 3 || high == 4 || high == 5 || high
        == 6);
}

/// The first repetition waits half a second, each further one twice as long,
/// and none longer than half a minute.
pub proof fn waits_double(attempt: u32)
    requires
        1 <= attempt < u32::MAX,
    ensures
        base_wait(1) == 500_000_000,
        base_wait((attempt + 1) as u32) == if 2 * base_wait(attempt) > 30_000_000_000 {
            30_000_000_000
        } else {
            2 * base_wait(attempt)
        },
{
    vstd::arithmetic::power2::lemma2_to64();
    vstd::arithmetic::power2::lemma_pow2_unfold(1);
    vstd::arithmetic::power2::lemma_pow2_unfold(2);
    vstd::arithmetic::power2::lemma_pow2_unfold(3);
    vstd::arithmetic::power2::lemma_pow2_unfold(4);
    vstd::arithmetic::power2::lemma_pow2_unfold(5);
    vstd::arithmetic::power2::lemma_pow2_unfold(6);
    let next = (attempt + 1) as u32;
    if attempt >= 7 {
        assert(doublings(attempt) == 6 && doublings(next) == 6);
    } else if attempt == 6 {
        assert(doublings(attempt) == 5 && doublings(next) == 6);
    } else if attempt == 5 {
        assert(doublings(attempt) == 4 && doublings(next) == 5);
    } else if attempt == 4 {
        assert(doublings(attempt) == 3 && doublings(next) == 4);
    } else if attempt == 3 {
        assert(doublings(attempt) == 2 && doublings(next) == 3);
    } else if attempt == 2 {
        assert(doublings(attempt) == 1 && doublings(next) == 2);
    } else {
        assert(doublings(attempt) == 0 && doublings(next) == 1);
    }
}

/// A first attempt starts at once; later ones wait their base time and less
/// than a quarter of a second more, which only the clock decides.
pub proof fn jitter_is_less_than_a_quarter_second(attempt: u32, clock_nanos: u32)
    ensures
        full_wait(0, clock_nanos) == 0,
        attempt > 0 ==> base_wait(attempt) <= full_wait(attempt, clock_nanos) < base_wait(attempt)
            + 250_000_000,
        attempt > 0 && clock_nanos < 250 ==> full_wait(attempt, clock_nanos) - base_wait(attempt)
            == clock_nanos * 1_000_000,
        clock_nanos <= 0xffff_ff00 ==> full_wait(attempt, (clock_nanos + 250) as u32) == full_wait(
            attempt,
            clock_nanos,
        ),
{
}

} // verus!
