//! Concurrency limits.
//!
//! [`Gate`] caps the connections of all downloads together. [`Adaptive`] holds
//! one download's connection target: halved when the server throttles, raised
//! again after a run of successes.

use vstd::prelude::*;

verus! {

/// A counting limit. Waiting for a slot is the host's business.
#[derive(Clone, Copy, Debug, PartialEq, Eq, Structural)]
pub struct Gate {
    pub max: usize,
    pub in_flight: usize,
}

impl Gate {
    /// At least one slot exists and no more are taken than exist.
    pub open spec fn wf(self) -> bool {
        1 <= self.max && self.in_flight <= self.max
    }

    /// A slot was asked for, and taken if one was free.
    pub open spec fn takes(self, after: Gate, taken: bool) -> bool {
        &&& after.max == self.max
        &&& taken == (self.in_flight < self.max)
        &&& after.in_flight == if taken {
            self.in_flight + 1
        } else {
            self.in_flight as int
        }
    }

    /// A slot was given back, if one was taken.
    pub open spec fn gives_back(self, after: Gate) -> bool {
        &&& after.max == self.max
        &&& after.in_flight == if self.in_flight == 0 {
            0
        } else {
            self.in_flight - 1
        }
    }

    /// A gate with `max` slots, at least one.
    pub fn new(max: usize) -> (gate: Gate)
        ensures
            gate.wf(),
            gate.max == if max < 1 {
                1
            } else {
                max
            },
            gate.in_flight == 0,
    {
        Gate {
            max: if max < 1 {
                1
            } else {
                max
            },
            in_flight: 0,
        }
    }

    /// Takes a slot if one is free.
    pub fn acquire(&mut self) -> (taken: bool)
        requires
            old(self).wf(),
        ensures
            final(self).wf(),
            old(self).takes(*final(self), taken),
    {
        if self.in_flight < self.max {
            self.in_flight = self.in_flight + 1;
            true
        } else {
            false
        }
    }

    /// Gives a slot back.
    pub fn release(&mut self)
        requires
            old(self).wf(),
        ensures
            final(self).wf(),
            old(self).gives_back(*final(self)),
    {
        if self.in_flight > 0 {
            self.in_flight = self.in_flight - 1;
        }
    }
}

/// The connection target of one download.
#[derive(Clone, Copy, Debug, PartialEq, Eq, Structural)]
pub struct Adaptive {
    pub min: usize,
    pub max: usize,
    pub target: usize,
    pub grow_after: u32,
    pub successes: usize,
    /// When the target was last halved.
    pub last_change: Option<u64>,
    /// No request starts before this instant.
    pub not_before: u64,
}

/// `low` at least.
pub open spec fn at_least(value: int, low: int) -> int {
    if value < low {
        low
    } else {
        value
    }
}

/// `value` forced into `low..=high`.
pub open spec fn clamped(value: int, low: int, high: int) -> int {
    if value < low {
        low
    } else if value > high {
        high
    } else {
        value
    }
}

/// Half of a count, rounded up.
pub open spec fn half_up(value: int) -> int {
    (value + 1) / 2
}

impl Adaptive {
    pub open spec fn wf(self) -> bool {
        &&& 1 <= self.min <= self.target <= self.max
        &&& self.successes < at_least(self.grow_after as int, 1)
    }

    /// Whether a failure of an attempt started at `attempt_started` halves
    /// the target: an attempt that began before the last halving does not,
    /// and the floor holds.
    pub open spec fn halves(self, attempt_started: u64) -> bool {
        &&& match self.last_change {
            Some(last) => attempt_started > last,
            None => true,
        }
        &&& self.target > self.min
    }

    /// The state after a finished piece: every `grow_after` of them in a row
    /// raise the target by one.
    pub open spec fn after_success(self) -> Adaptive {
        if self.successes + 1 >= self.grow_after {
            Adaptive {
                successes: 0,
                target: if self.target < self.max {
                    (self.target + 1) as usize
                } else {
                    self.target
                },
                ..self
            }
        } else {
            Adaptive { successes: (self.successes + 1) as usize, ..self }
        }
    }

    /// The state after throttling: requests pause for `delay` at least, the
    /// run of successes ends and the target may be halved.
    pub open spec fn after_rate_limit(
        self,
        attempt_started: u64,
        now: u64,
        delay: u64,
    ) -> Adaptive {
        let halved = self.halves(attempt_started);
        Adaptive {
            successes: 0,
            not_before: at_least(self.not_before as int, now + delay) as u64,
            target: if halved {
                at_least(half_up(self.target as int), self.min as int) as usize
            } else {
                self.target
            },
            last_change: if halved {
                Some(now)
            } else {
                self.last_change
            },
            ..self
        }
    }

    /// A target between the limits, starting with `initial`.
    pub fn new(min: usize, initial: usize, max: usize, grow_after: u32, now: u64) -> (adaptive:
        Adaptive)
        ensures
            adaptive.wf(),
            adaptive.min == at_least(min as int, 1),
            adaptive.max == at_least(max as int, adaptive.min as int),
            adaptive.target == clamped(initial as int, adaptive.min as int, adaptive.max as int),
            adaptive.grow_after == grow_after,
            adaptive.successes == 0,
            adaptive.last_change is None,
            adaptive.not_before == now,
    {
        let low: usize = if min < 1 {
            1
        } else {
            min
        };
        let high: usize = if max < low {
            low
        } else {
            max
        };
        let target: usize = if initial < low {
            low
        } else if initial > high {
            high
        } else {
            initial
        };
        Adaptive {
            min: low,
            max: high,
            target,
            grow_after,
            successes: 0,
            last_change: None,
            not_before: now,
        }
    }

    pub fn current(&self) -> (target: usize)
        ensures
            target == self.target,
    {
        self.target
    }

    /// How long requests are still held back at an instant.
    pub open spec fn pause_at(self, now: u64) -> int {
        at_least(self.not_before - now, 0)
    }

    /// How long requests are still held back.
    pub fn remaining_pause(&self, now: u64) -> (pause: u64)
        ensures
            pause == self.pause_at(now),
    {
        if self.not_before > now {
            self.not_before - now
        } else {
            0
        }
    }

    /// Records throttling: requests pause for `delay` at least, and the
    /// target is halved unless that happened after this attempt began.
    pub fn on_rate_limited(&mut self, attempt_started: u64, now: u64, delay: u64)
        requires
            old(self).wf(),
            now + delay <= u64::MAX,
        ensures
            final(self).wf(),
            *final(self) == old(self).after_rate_limit(attempt_started, now, delay),
    {
        let until: u64 = now + delay;
        if self.not_before < until {
            self.not_before = until;
        }
        self.decrease(attempt_started, now);
        self.successes = 0;
    }

    /// Records a finished piece; every `grow_after` of them in a row raise
    /// the target by one.
    pub fn on_success(&mut self)
        requires
            old(self).wf(),
        ensures
            final(self).wf(),
            *final(self) == old(self).after_success(),
    {
        let limit: usize = self.grow_after as usize;
        if limit <= 1 || self.successes >= limit - 1 {
            self.successes = 0;
            if self.target < self.max {
                self.target = self.target + 1;
            }
        } else {
            self.successes = self.successes + 1;
        }
    }

    fn decrease(&mut self, attempt_started: u64, now: u64)
        requires
            old(self).wf(),
        ensures
            final(self).min == old(self).min,
            final(self).max == old(self).max,
            final(self).grow_after == old(self).grow_after,
            final(self).successes == old(self).successes,
            final(self).not_before == old(self).not_before,
            final(self).wf(),
            final(self).target == if old(self).halves(attempt_started) {
                at_least(half_up(old(self).target as int), old(self).min as int)
            } else {
                old(self).target as int
            },
            final(self).last_change == if old(self).halves(attempt_started) {
                Some(now)
            } else {
                old(self).last_change
            },
    {
        if let Some(last) = self.last_change {
            if attempt_started <= last {
                return;
            }
        }
        if self.target <= self.min {
            return;
        }
        let half: usize = self.target / 2 + self.target % 2;
        self.target = if half < self.min {
            self.min
        } else {
            half
        };
        self.last_change = Some(now);
    }
}

/// Whatever happens, the target stays between its limits.
pub proof fn target_stays_within_limits(
    adaptive: Adaptive,
    attempt_started: u64,
    now: u64,
    delay: u64,
)
    requires
        adaptive.wf(),
        now + delay <= u64::MAX,
    ensures
        adaptive.after_success().wf(),
        adaptive.after_rate_limit(attempt_started, now, delay).wf(),
        adaptive.after_success().min == adaptive.min,
        adaptive.after_success().max == adaptive.max,
        adaptive.after_rate_limit(attempt_started, now, delay).min == adaptive.min,
        adaptive.after_rate_limit(attempt_started, now, delay).max == adaptive.max,
{
}

/// After two throttlings of a target that was made before them, requests are
/// held back until the later of the two ends: a shorter delay never shortens
/// the pause, and the pause does not depend on whether the target was halved.
pub proof fn pauses_never_shorten(
    adaptive: Adaptive,
    first_started: u64,
    first_now: u64,
    first_delay: u64,
    second_started: u64,
    second_now: u64,
    second_delay: u64,
    later: u64,
)
    requires
        adaptive.wf(),
        adaptive.not_before <= first_now <= second_now <= later,
        first_now + first_delay <= u64::MAX,
        second_now + second_delay <= u64::MAX,
    ensures
        ({
            let after = adaptive.after_rate_limit(
                first_started,
                first_now,
                first_delay,
            ).after_rate_limit(second_started, second_now, second_delay);
            after.pause_at(later) == at_least(
                at_least(first_now + first_delay, second_now + second_delay) - later,
                0,
            )
        }),
{
}

/// Failures of attempts that began before a halving do not halve again.
pub proof fn one_halving_per_window(
    adaptive: Adaptive,
    first_started: u64,
    first_now: u64,
    first_delay: u64,
    second_started: u64,
)
    requires
        adaptive.wf(),
        first_now + first_delay <= u64::MAX,
        adaptive.halves(first_started),
        second_started <= first_now,
    ensures
        !adaptive.after_rate_limit(first_started, first_now, first_delay).halves(second_started),
{
}

/// A clamped value lies between the limits, and a value that does already is
/// kept; raising to a minimum changes smaller values only; halving rounds up.
pub proof fn limits_hold(value: int, low: int, high: int)
    requires
        low <= high,
    ensures
        low <= clamped(value, low, high) <= high,
        low <= value <= high ==> clamped(value, low, high) == value,
        value < low ==> clamped(value, low, high) == low,
        value > high ==> clamped(value, low, high) == high,
        at_least(value, low) >= low && at_least(value, low) >= value,
        at_least(value, low) == low || at_least(value, low) == value,
        2 * half_up(value) == value || 2 * half_up(value) == value + 1,
{
}

/// A finished piece raises the target by one exactly if it completes a run of
/// `grow_after` and there is room; the run then starts anew. Otherwise it only
/// adds to the run.
pub proof fn successes_raise_the_target(adaptive: Adaptive)
    requires
        adaptive.wf(),
    ensures
        ({
            let after = adaptive.after_success();
            let complete = adaptive.successes + 1 >= adaptive.grow_after;
            &&& after.target == adaptive.target + if complete && adaptive.target < adaptive.max {
                1int
            } else {
                0int
            }
            &&& after.successes == if complete {
                0
            } else {
                adaptive.successes + 1
            }
            &&& after.not_before == adaptive.not_before
            &&& after.last_change == adaptive.last_change
        }),
{
}

/// Throttling halves the target, rounded up and not below the minimum, if the
/// attempt began after the last halving; otherwise the target stays. Requests
/// are held back until the delay is over, or longer if they were already, and
/// the run of successes ends.
pub proof fn throttling_halves_the_target(
    adaptive: Adaptive,
    attempt_started: u64,
    now: u64,
    delay: u64,
)
    requires
        adaptive.wf(),
        now + delay <= u64::MAX,
    ensures
        ({
            let after = adaptive.after_rate_limit(attempt_started, now, delay);
            let counts = adaptive.last_change is None || attempt_started
                > adaptive.last_change->Some_0;
            &&& counts ==> adaptive.min <= after.target && adaptive.target <= 2 * after.target && (
            after.target == adaptive.min || 2 * after.target <= adaptive.target + 1)
            &&& !counts ==> after.target == adaptive.target
            &&& counts && adaptive.target > adaptive.min ==> after.last_change == Some(now)
            &&& !counts || adaptive.target <= adaptive.min ==> after.last_change
                == adaptive.last_change
            &&& after.not_before >= now + delay
            &&& after.not_before >= adaptive.not_before
            &&& after.not_before == now + delay || after.not_before == adaptive.not_before
            &&& after.successes == 0
        }),
{
}

/// Requests are held back exactly until the pause is over.
pub proof fn pauses_end(adaptive: Adaptive, now: u64)
    ensures
        adaptive.pause_at(now) >= 0,
        now < adaptive.not_before ==> now + adaptive.pause_at(now) == adaptive.not_before,
        now >= adaptive.not_before ==> adaptive.pause_at(now) == 0,
{
}

/// A gate lets through exactly while a slot is free, takes one at a time, and
/// giving a slot back undoes taking it.
pub proof fn gates_count_their_slots(gate: Gate, taken: bool, after: Gate, back: Gate)
    requires
        gate.wf(),
        gate.takes(after, taken),
        after.gives_back(back),
    ensures
        taken <==> gate.in_flight < gate.max,
        after.max == gate.max,
        taken ==> after.in_flight == gate.in_flight + 1 && back == gate,
        !taken ==> after == gate && back.in_flight == gate.in_flight - 1,
        after.in_flight <= gate.max,
{
}

} // verus!
