//! Scheduling of pieces over several connections.
//!
//! The host runs one task per spawned piece and hands each report back. Every
//! piece is at any time either settled or in exactly one place: the queue or
//! the running set.

use std::collections::VecDeque;
use vstd::prelude::*;

use super::backoff::{backoff, base_wait, full_wait, BASE_BACKOFF};
use super::control::{all_full, count_of, len_of, piece_len, piece_starts_inside, within_pieces};
use super::error::{cancelled_error, is_cancelled, DownloadError};
use super::http::MAX_RETRY_AFTER;
use super::limiter::{at_least, clamped, Adaptive};
use super::progress::Shared;
use super::types::{DownloadOptions, Outcome, MILLISECOND};

verus! {

/// Why an attempt at a piece ended without finishing it.
#[derive(Debug)]
pub struct WorkerFail {
    pub error: DownloadError,
    pub rate_limited: bool,
    pub retry_after: Option<u64>,
    pub attempt_started: u64,
}

impl WorkerFail {
    /// A failure without throttling.
    pub fn plain(error: DownloadError, attempt_started: u64) -> (fail: WorkerFail)
        ensures
            fail == (WorkerFail { error, rate_limited: false, retry_after: None, attempt_started }),
    {
        WorkerFail { error, rate_limited: false, retry_after: None, attempt_started }
    }

    /// The report of an attempt that was cancelled.
    pub fn cancelled(attempt_started: u64) -> (fail: WorkerFail)
        ensures
            is_cancelled(fail.error),
            !fail.rate_limited,
            fail.retry_after is None,
            fail.attempt_started == attempt_started,
    {
        WorkerFail::plain(cancelled_error(), attempt_started)
    }
}

/// What one attempt at a piece came to.
#[derive(Debug)]
pub struct WorkerReport {
    pub index: u64,
    pub attempt: u32,
    /// What the slot of a finished piece holds.
    pub result: Result<u64, WorkerFail>,
}

/// How long an attempt waits first: its backoff, or what is left of a pause if
/// that is longer.
pub open spec fn delay_of(adaptive: Adaptive, attempt: u32, clock_nanos: u32, now: u64) -> int {
    at_least(at_least(adaptive.not_before - now, 0), full_wait(attempt, clock_nanos))
}

/// How long an attempt waits first: its backoff, or longer if the server
/// asked everyone to pause.
pub fn worker_delay(adaptive: &Adaptive, attempt: u32, clock_nanos: u32, now: u64) -> (delay: u64)
    ensures
        delay == delay_of(*adaptive, attempt, clock_nanos, now),
{
    let wait: u64 = backoff(attempt, clock_nanos);
    let pause: u64 = adaptive.remaining_pause(now);
    if pause < wait {
        wait
    } else {
        pause
    }
}

/// What the host does next.
#[derive(Clone, Copy, Debug, PartialEq, Eq, Structural)]
pub enum SegmentStep {
    /// Start an attempt at a piece.
    Spawn { index: u64, attempt: u32 },
    /// Wait for a report or a cancellation.
    Wait,
    /// Stop all attempts and end.
    Finish(Outcome),
}

/// Pieces waiting and pieces being fetched.
pub struct Scheduler {
    pub pending: VecDeque<(u64, u32)>,
    pub running: Vec<(u64, u32)>,
    pub adaptive: Adaptive,
    pub consecutive_failures: u32,
    pub max_consecutive_failures: u32,
    /// Pieces that were full at the start or were reported finished.
    pub settled: Ghost<Set<int>>,
    /// Number of pieces.
    pub count: Ghost<nat>,
    /// Size of the target.
    pub size: Ghost<u64>,
    pub piece_size: Ghost<u64>,
    /// The slots at the start, with those of finished pieces as reported.
    pub slots: Ghost<Seq<u64>>,
}

/// No index occurs twice.
pub open spec fn distinct(list: Seq<(u64, u32)>) -> bool {
    forall|i: int, j: int|
        0 <= i < j < list.len() ==> (#[trigger] list[i]).0 != (#[trigger] list[j]).0
}

/// The index occurs in the list.
pub open spec fn lists(list: Seq<(u64, u32)>, index: int) -> bool {
    exists|i: int| 0 <= i < list.len() && (#[trigger] list[i]).0 == index
}

/// Pieces that are not full.
pub open spec fn unfinished(pieces: Seq<u64>, size: int, piece_size: int, index: int) -> bool {
    0 <= index < pieces.len() && pieces[index] < len_of(size, piece_size, index)
}

proof fn lists_of_push(list: Seq<(u64, u32)>, entry: (u64, u32), index: int)
    ensures
        lists(list.push(entry), index) <==> lists(list, index) || entry.0 == index,
{
    let longer = list.push(entry);
    if lists(list, index) {
        let i = choose|i: int| 0 <= i < list.len() && (#[trigger] list[i]).0 == index;
        assert(longer[i].0 == index);
    }
    if entry.0 == index {
        assert(longer[list.len() as int].0 == index);
    }
    if lists(longer, index) {
        let i = choose|i: int| 0 <= i < longer.len() && (#[trigger] longer[i]).0 == index;
        if i < list.len() {
            assert(list[i].0 == index);
        }
    }
}

proof fn lists_of_remove(list: Seq<(u64, u32)>, at: int, index: int)
    requires
        0 <= at < list.len(),
        distinct(list),
    ensures
        lists(list.remove(at), index) <==> lists(list, index) && index != list[at].0,
        distinct(list.remove(at)),
{
    let shorter = list.remove(at);
    assert forall|i: int| 0 <= i < shorter.len() implies #[trigger] shorter[i] == list[if i < at {
        i
    } else {
        i + 1
    }] by {}
    if lists(list, index) && index != list[at].0 {
        let i = choose|i: int| 0 <= i < list.len() && (#[trigger] list[i]).0 == index;
        if i < at {
            assert(shorter[i].0 == index);
        } else {
            assert(shorter[i - 1].0 == index);
        }
    }
    if lists(shorter, index) {
        let i = choose|i: int| 0 <= i < shorter.len() && (#[trigger] shorter[i]).0 == index;
        if i < at {
            assert(list[i].0 == index);
        } else {
            assert(list[i + 1].0 == index);
        }
    }
}

/// Once no piece is waiting or being fetched, slots that claim no more than
/// their pieces hold are all full.
pub proof fn settled_pieces_fill_the_target(scheduler: Scheduler)
    requires
        scheduler.wf(),
        scheduler.all_settled(),
        within_pieces(
            scheduler.size@ as int,
            scheduler.piece_size@ as int,
            scheduler.slots@,
        ),
    ensures
        scheduler.slots@.len() == count_of(scheduler.size@ as nat, scheduler.piece_size@ as nat),
        all_full(scheduler.size@ as int, scheduler.piece_size@ as int, scheduler.slots@),
{
    assert forall|i: int| 0 <= i < scheduler.slots@.len() implies #[trigger] scheduler.slots@[i]
        == len_of(scheduler.size@ as int, scheduler.piece_size@ as int, i) by {
        assert(scheduler.settled@.contains(i));
        assert(scheduler.full(i));
    }
}

impl Scheduler {
    /// The slot of a piece says that nothing of it is missing.
    pub open spec fn full(self, index: int) -> bool {
        self.slots@[index] >= len_of(self.size@ as int, self.piece_size@ as int, index)
    }

    /// Every piece is settled or in exactly one place, and the slot of a
    /// settled piece is full.
    pub open spec fn wf(self) -> bool {
        &&& self.adaptive.wf()
        &&& self.slots@.len() == self.count@
        &&& self.count@ == count_of(self.size@ as nat, self.piece_size@ as nat)
        &&& forall|index: int|
            #![trigger self.settled@.contains(index)]
            0 <= index < self.count@ && self.settled@.contains(index) ==> self.full(index)
        &&& self.consecutive_failures <= self.max_consecutive_failures
        &&& distinct(self.pending@)
        &&& distinct(self.running@)
        &&& forall|index: int|
            #![trigger lists(self.pending@, index)]
            #![trigger lists(self.running@, index)]
            !(lists(self.pending@, index) && lists(self.running@, index))
        &&& forall|index: int|
            #![trigger lists(self.pending@, index)]
            #![trigger lists(self.running@, index)]
            lists(self.pending@, index) || lists(self.running@, index) ==> 0 <= index
                < self.count@
        &&& forall|index: int|
            #![trigger self.settled@.contains(index)]
            0 <= index < self.count@ ==> (self.settled@.contains(index) <==> !lists(
                self.pending@,
                index,
            ) && !lists(self.running@, index))
    }

    /// No piece is waiting or being fetched.
    pub open spec fn all_settled(self) -> bool {
        forall|index: int|
            #![trigger self.settled@.contains(index)]
            0 <= index < self.count@ ==> self.settled@.contains(index)
    }

    /// The next step: spawn while connections are free, end when nothing is
    /// left, wait otherwise.
    pub open spec fn stepped(self, after: Scheduler, cancelled: bool, step: SegmentStep) -> bool {
        if cancelled {
            &&& step == SegmentStep::Finish(Outcome::Cancelled)
            &&& after.pending@ == self.pending@
            &&& after.running@ == self.running@
        } else if self.running@.len() < self.adaptive.target
            && self.pending@.len() > 0 {
            &&& step == (SegmentStep::Spawn {
                index: self.pending@[0].0,
                attempt: self.pending@[0].1,
            })
            &&& after.pending@ == self.pending@.drop_first()
            &&& after.running@ == self.running@.push(self.pending@[0])
        } else {
            &&& after.pending@ == self.pending@
            &&& after.running@ == self.running@
            &&& step == if self.running@.len() == 0 {
                SegmentStep::Finish(Outcome::Completed)
            } else {
                SegmentStep::Wait
            }
        }
    }

    /// What a report comes to, with what is shown before and after it.
    pub open spec fn reported(
        self,
        after: Scheduler,
        report: WorkerReport,
        now: u64,
        shared: Shared,
        shown: Shared,
        result: Result<(), DownloadError>,
    ) -> bool {
        match report.result {
            Ok(slot) => {
                &&& result is Ok
                &&& after.wf()
                &&& after.settled@ == self.settled@.insert(report.index as int)
                &&& after.slots@ == self.slots@.update(report.index as int, slot)
                &&& within_pieces(
                    self.size@ as int,
                    self.piece_size@ as int,
                    self.slots@,
                ) ==> within_pieces(
                    self.size@ as int,
                    self.piece_size@ as int,
                    after.slots@,
                )
                &&& after.pending@ == self.pending@
                &&& after.consecutive_failures == 0
                &&& after.adaptive == self.adaptive.after_success()
                &&& shown == (Shared {
                    connections: after.adaptive.target,
                    ..shared
                })
            },
            Err(fail) => if !fail.error.retryable() {
                &&& result == Err::<(), DownloadError>(fail.error)
                &&& shown == shared
            } else {
                let counted = Shared {
                    retries: ((shared.retries + 1) % 0x1_0000_0000) as u32,
                    ..shared
                };
                if self.consecutive_failures + 1 > self.max_consecutive_failures {
                    &&& shown == counted
                    &&& result == Err::<(), DownloadError>(
                        DownloadError::RetriesExhausted {
                            attempts: (self.consecutive_failures + 1) as u32,
                            last: Box::new(fail.error),
                        },
                    )
                } else {
                    &&& result is Ok
                    &&& after.wf()
                    &&& after.settled == self.settled
                    &&& after.slots == self.slots
                    &&& after.consecutive_failures == self.consecutive_failures + 1
                    &&& after.pending@ == self.pending@.push(
                        (report.index, (report.attempt + 1) as u32),
                    )
                    &&& after.adaptive == if fail.rate_limited {
                        self.adaptive.after_rate_limit(
                            fail.attempt_started,
                            now,
                            match fail.retry_after {
                                Some(delay) => delay,
                                None => BASE_BACKOFF,
                            },
                        )
                    } else {
                        self.adaptive
                    }
                    &&& shown == (Shared {
                        connections: after.adaptive.target,
                        ..counted
                    })
                }
            },
        }
    }

    /// Queues the pieces that are not full, in order.
    pub fn new(pieces: &Vec<u64>, size: u64, options: &DownloadOptions, now: u64) -> (scheduler:
        Scheduler)
        requires
            options.usable(),
            pieces@.len() == count_of(size as nat, options.piece_size as nat),
        ensures
            scheduler.wf(),
            scheduler.count@ == pieces@.len(),
            scheduler.size@ == size,
            scheduler.piece_size@ == options.piece_size,
            scheduler.slots@ == pieces@,
            scheduler.running@.len() == 0,
            scheduler.consecutive_failures == 0,
            scheduler.max_consecutive_failures == options.max_consecutive_failures,
            scheduler.adaptive.target == clamped(
                options.initial_connections as int,
                options.min_connections as int,
                options.max_connections as int,
            ),
            scheduler.adaptive.min == options.min_connections,
            scheduler.adaptive.max == options.max_connections,
            scheduler.adaptive.grow_after == options.grow_after_successes,
            scheduler.adaptive.successes == 0,
            scheduler.adaptive.last_change is None,
            scheduler.adaptive.not_before == now,
            forall|index: int|
                #![trigger scheduler.settled@.contains(index)]
                0 <= index < pieces@.len() ==> (scheduler.settled@.contains(index)
                    <==> !unfinished(
                    pieces@,
                    size as int,
                    options.piece_size as int,
                    index,
                )),
            forall|i: int|
                0 <= i < scheduler.pending@.len() ==> unfinished(
                    pieces@,
                    size as int,
                    options.piece_size as int,
                    (#[trigger] scheduler.pending@[i]).0 as int,
                ) && scheduler.pending@[i].1 == 0,
            forall|i: int, j: int|
                0 <= i < j < scheduler.pending@.len() ==> (#[trigger] scheduler.pending@[i]).0 < (
                #[trigger] scheduler.pending@[j]).0,
    {
        let adaptive: Adaptive = Adaptive::new(
            options.min_connections,
            options.clamped_initial(),
            options.max_connections,
            options.grow_after_successes,
            now,
        );
        let mut pending: VecDeque<(u64, u32)> = VecDeque::new();
        let mut at: usize = 0;
        while at < pieces.len()
            invariant
                at <= pieces@.len(),
                options.usable(),
                pieces@.len() == count_of(size as nat, options.piece_size as nat),
                forall|i: int|
                    0 <= i < pending@.len() ==> unfinished(
                        pieces@,
                        size as int,
                        options.piece_size as int,
                        (#[trigger] pending@[i]).0 as int,
                    ) && pending@[i].1 == 0 && pending@[i].0 < at,
                forall|i: int, j: int|
                    0 <= i < j < pending@.len() ==> (#[trigger] pending@[i]).0 < (
                    #[trigger] pending@[j]).0,
                forall|index: int|
                    #![trigger lists(pending@, index)]
                    0 <= index < at ==> (lists(pending@, index) <==> unfinished(
                        pieces@,
                        size as int,
                        options.piece_size as int,
                        index,
                    )),
            decreases pieces@.len() - at,
        {
            proof {
                piece_starts_inside(size as nat, options.piece_size as nat, at as nat);
            }
            let ghost before = pending@;
            if pieces[at] < piece_len(size, options.piece_size, at as u64) {
                pending.push_back((at as u64, 0));
                proof {
                    assert forall|index: int|
                        #![trigger lists(pending@, index)]
                        0 <= index < at + 1 implies (lists(pending@, index) <==> unfinished(
                        pieces@,
                        size as int,
                        options.piece_size as int,
                        index,
                    )) by {
                        lists_of_push(before, (at as u64, 0u32), index);
                        if index < at {
                            assert(lists(before, index) <==> unfinished(
                                pieces@,
                                size as int,
                                options.piece_size as int,
                                index,
                            ));
                        }
                    }
                }
            } else {
                proof {
                    assert(!lists(pending@, at as int)) by {
                        if lists(pending@, at as int) {
                            let i = choose|i: int|
                                0 <= i < pending@.len() && (#[trigger] pending@[i]).0 == at;
                            assert(pending@[i].0 < at);
                        }
                    }
                }
            }
            at += 1;
        }
        let ghost done = Set::new(
            |index: int|
                0 <= index < pieces@.len() && !unfinished(
                    pieces@,
                    size as int,
                    options.piece_size as int,
                    index,
                ),
        );
        let scheduler: Scheduler = Scheduler {
            pending,
            running: Vec::new(),
            adaptive,
            consecutive_failures: 0,
            max_consecutive_failures: options.max_consecutive_failures,
            settled: Ghost(done),
            count: Ghost(pieces@.len()),
            size: Ghost(size),
            piece_size: Ghost(options.piece_size),
            slots: Ghost(pieces@),
        };
        proof {
            assert forall|index: int|
                #![trigger scheduler.settled@.contains(index)]
                0 <= index < scheduler.count@ implies (scheduler.settled@.contains(index)
                <==> !lists(scheduler.pending@, index) && !lists(scheduler.running@, index)) by {
                assert(lists(scheduler.pending@, index) <==> unfinished(
                    pieces@,
                    size as int,
                    options.piece_size as int,
                    index,
                ));
            }
        }
        scheduler
    }

    /// Decides the next step: spawn while connections are free, end when
    /// nothing is left, wait otherwise. `shared` shows the connection target.
    /// A completed transfer has every piece full.
    pub fn next_step(&mut self, cancelled: bool, shared: &mut Shared) -> (step: SegmentStep)
        requires
            old(self).wf(),
        ensures
            final(self).wf(),
            *final(self) == (Scheduler {
                pending: final(self).pending,
                running: final(self).running,
                ..*old(self)
            }),
            *final(shared) == (Shared {
                connections: old(self).adaptive.target,
                ..*old(shared)
            }),
            old(self).stepped(*final(self), cancelled, step),
            step == SegmentStep::Finish(Outcome::Completed) ==> {
                &&& final(self).all_settled()
                &&& forall|index: int|
                    0 <= index < final(self).count@ ==> #[trigger] final(self).full(index)
                &&& within_pieces(
                    final(self).size@ as int,
                    final(self).piece_size@ as int,
                    final(self).slots@,
                ) ==> all_full(
                    final(self).size@ as int,
                    final(self).piece_size@ as int,
                    final(self).slots@,
                )
            },
    {
        shared.set_connections(self.adaptive.current());
        if cancelled {
            return SegmentStep::Finish(Outcome::Cancelled);
        }
        if self.running.len() < self.adaptive.current() {
            let ghost waiting = self.pending@;
            let ghost busy = self.running@;
            if let Some((index, attempt)) = self.pending.pop_front() {
                self.running.push((index, attempt));
                proof {
                    assert(waiting.drop_first() =~= waiting.remove(0));
                    assert forall|other: int| true implies (#[trigger] lists(self.running@, other)
                        <==> lists(busy, other) || other == index) && (lists(self.pending@, other)
                        <==> lists(waiting, other) && other != index) by {
                        lists_of_push(busy, (index, attempt), other);
                        lists_of_remove(waiting, 0, other);
                    }
                    lists_of_remove(waiting, 0, index as int);
                    assert(lists(waiting, index as int)) by {
                        assert(waiting[0].0 == index);
                    }
                    assert(!lists(busy, index as int));
                    assert(distinct(self.running@)) by {
                        assert forall|i: int, j: int|
                            0 <= i < j < self.running@.len() implies (
                        #[trigger] self.running@[i]).0 != (#[trigger] self.running@[j]).0 by {
                            if j == busy.len() {
                                assert(busy[i].0 != index);
                            }
                        }
                    }
                    assert forall|other: int|
                        #![trigger lists(self.pending@, other)]
                        !(lists(self.pending@, other) && lists(self.running@, other)) by {
                        assert(lists(self.running@, other) <==> lists(busy, other) || other
                            == index);
                    }
                    assert forall|other: int|
                        #![trigger self.settled@.contains(other)]
                        0 <= other < self.count@ implies (self.settled@.contains(other) <==> !lists(
                        self.pending@,
                        other,
                    ) && !lists(self.running@, other)) by {
                        assert(lists(self.running@, other) <==> lists(busy, other) || other
                            == index);
                    }
                }
                return SegmentStep::Spawn { index, attempt };
            }
        }
        if self.running.len() == 0 {
            proof {
                assert(self.pending@.len() == 0);
                assert forall|index: int| 0 <= index < self.count@ implies #[trigger] self.full(
                    index,
                ) by {
                    assert(self.settled@.contains(index));
                }
                if within_pieces(self.size@ as int, self.piece_size@ as int, self.slots@) {
                    assert forall|i: int| 0 <= i < self.slots@.len() implies #[trigger] self.slots@[i]
                        == len_of(self.size@ as int, self.piece_size@ as int, i) by {
                        assert(self.full(i));
                    }
                }
            }
            SegmentStep::Finish(Outcome::Completed)
        } else {
            SegmentStep::Wait
        }
    }

    /// Takes the report of one attempt. A finished piece is settled; a
    /// retryable failure puts the piece at the end of the queue; the error
    /// that ends the download comes back. `shared` shows the connection target
    /// that follows.
    pub fn on_report(&mut self, report: WorkerReport, now: u64, shared: &mut Shared) -> (result:
        Result<(), DownloadError>)
        requires
            old(self).wf(),
            lists(old(self).running@, report.index as int),
            report.attempt < u32::MAX,
            old(self).consecutive_failures < u32::MAX,
            report.result matches Ok(slot) ==> slot == len_of(
                old(self).size@ as int,
                old(self).piece_size@ as int,
                report.index as int,
            ),
            report.result matches Err(fail) ==> (fail.retry_after matches Some(delay) ==> delay
                <= MAX_RETRY_AFTER),
            now + MAX_RETRY_AFTER <= u64::MAX,
        ensures
            final(self).count == old(self).count,
            final(self).size == old(self).size,
            final(self).piece_size == old(self).piece_size,
            final(self).max_consecutive_failures == old(self).max_consecutive_failures,
            final(self).adaptive.wf(),
            exists|at: int|
                0 <= at < old(self).running@.len() && (#[trigger] old(self).running@[at]).0
                    == report.index && final(self).running@ == old(self).running@.remove(at),
            old(self).reported(
                *final(self),
                report,
                now,
                *old(shared),
                *final(shared),
                result,
            ),
    {
        let ghost busy = self.running@;
        let ghost waiting = self.pending@;
        let mut at: usize = 0;
        while self.running[at].0 != report.index
            invariant
                at < self.running.len(),
                self.running@ == busy,
                *self == *old(self),
                lists(busy, report.index as int),
                forall|i: int| 0 <= i < at ==> (#[trigger] busy[i]).0 != report.index,
            decreases self.running@.len() - at,
        {
            proof {
                let i = choose|i: int| 0 <= i < busy.len() && (#[trigger] busy[i]).0 == report.index;
                assert(i >= at);
                assert(busy[at as int].0 != report.index);
            }
            at += 1;
        }
        let _ = self.running.remove(at);
        proof {
            assert forall|other: int| true implies (#[trigger] lists(self.running@, other)
                <==> lists(busy, other) && other != report.index) by {
                lists_of_remove(busy, at as int, other);
            }
            lists_of_remove(busy, at as int, 0);
            assert(!lists(waiting, report.index as int));
            assert(old(self).running@[at as int].0 == report.index);
        }
        match report.result {
            Ok(slot) => {
                self.adaptive.on_success();
                self.consecutive_failures = 0;
                shared.set_connections(self.adaptive.current());
                proof {
                    self.slots@ = self.slots@.update(report.index as int, slot);
                    self.settled@ = self.settled@.insert(report.index as int);
                    assert forall|other: int|
                        #![trigger lists(self.pending@, other)]
                        !(lists(self.pending@, other) && lists(self.running@, other)) by {
                        assert(lists(self.running@, other) <==> lists(busy, other) && other
                            != report.index);
                    }
                    assert forall|other: int|
                        #![trigger self.settled@.contains(other)]
                        0 <= other < self.count@ implies (self.settled@.contains(other) <==> !lists(
                        self.pending@,
                        other,
                    ) && !lists(self.running@, other)) by {
                        assert(lists(self.running@, other) <==> lists(busy, other) && other
                            != report.index);
                        if other != report.index {
                            assert(old(self).settled@.contains(other) <==> self.settled@.contains(
                                other,
                            ));
                        }
                    }
                    assert forall|other: int|
                        #![trigger self.settled@.contains(other)]
                        0 <= other < self.count@ && self.settled@.contains(other) implies self.full(
                        other,
                    ) by {
                        if other != report.index {
                            assert(old(self).settled@.contains(other));
                            assert(old(self).full(other));
                        }
                    }
                }
                Ok(())
            },
            Err(fail) => {
                if !fail.error.is_retryable() {
                    return Err(fail.error);
                }
                shared.count_retry();
                let failures: u32 = self.consecutive_failures + 1;
                if failures > self.max_consecutive_failures {
                    return Err(
                        DownloadError::RetriesExhausted {
                            attempts: failures,
                            last: Box::new(fail.error),
                        },
                    );
                }
                self.consecutive_failures = failures;
                if fail.rate_limited {
                    let delay: u64 = match fail.retry_after {
                        Some(delay) => delay,
                        None => BASE_BACKOFF,
                    };
                    self.adaptive.on_rate_limited(fail.attempt_started, now, delay);
                }
                shared.set_connections(self.adaptive.current());
                self.pending.push_back((report.index, report.attempt + 1));
                proof {
                    let entry = (report.index, (report.attempt + 1) as u32);
                    assert forall|other: int| true implies (#[trigger] lists(self.pending@, other)
                        <==> lists(waiting, other) || other == report.index) by {
                        lists_of_push(waiting, entry, other);
                    }
                    assert(distinct(self.pending@)) by {
                        assert forall|i: int, j: int|
                            0 <= i < j < self.pending@.len() implies (
                        #[trigger] self.pending@[i]).0 != (#[trigger] self.pending@[j]).0 by {
                            if j == waiting.len() {
                                assert(waiting[i].0 != report.index);
                            }
                        }
                    }
                    assert forall|other: int|
                        #![trigger lists(self.pending@, other)]
                        !(lists(self.pending@, other) && lists(self.running@, other)) by {
                        assert(lists(self.running@, other) <==> lists(busy, other) && other
                            != report.index);
                        assert(lists(self.pending@, other) <==> lists(waiting, other) || other
                            == report.index);
                    }
                    assert forall|other: int|
                        #![trigger self.settled@.contains(other)]
                        0 <= other < self.count@ implies (self.settled@.contains(other) <==> !lists(
                        self.pending@,
                        other,
                    ) && !lists(self.running@, other)) by {
                        assert(lists(self.running@, other) <==> lists(busy, other) && other
                            != report.index);
                        assert(lists(self.pending@, other) <==> lists(waiting, other) || other
                            == report.index);
                    }
                }
                Ok(())
            },
        }
    }
}

/// An attempt waits for its backoff and for the end of a pause, and for
/// nothing else.
pub proof fn attempts_wait_for_backoff_and_pause(
    adaptive: Adaptive,
    attempt: u32,
    clock_nanos: u32,
    now: u64,
)
    ensures
        ({
            let delay = delay_of(adaptive, attempt, clock_nanos, now);
            let wait = full_wait(attempt, clock_nanos);
            &&& delay >= wait
            &&& now + delay >= adaptive.not_before
            &&& delay == wait || now + delay == adaptive.not_before
            &&& adaptive.not_before <= now ==> delay == wait
        }),
{
    crate::download::backoff::jitter_is_less_than_a_quarter_second(attempt, clock_nanos);
    vstd::arithmetic::power2::lemma_pow2_pos(crate::download::backoff::doublings(attempt));
    assert(base_wait(attempt) >= 0) by (nonlinear_arith)
        requires
            base_wait(attempt) == BASE_BACKOFF * vstd::arithmetic::power2::pow2(
                crate::download::backoff::doublings(attempt),
            ) || base_wait(attempt) == 30_000_000_000,
            BASE_BACKOFF == 500_000_000,
    ;
}

/// Exactly the pieces with bytes missing are unfinished.
pub proof fn unfinished_pieces_miss_bytes(pieces: Seq<u64>, size: int, piece_size: int, index: int)
    requires
        0 <= index < pieces.len(),
    ensures
        unfinished(pieces, size, piece_size, index) <==> pieces[index] < len_of(
            size,
            piece_size,
            index,
        ),
{
}

/// A step never lets more attempts run than connections are wanted, takes the
/// piece that has waited longest, and ends a download that was not cancelled
/// only when nothing runs and nothing can be started.
pub proof fn steps_respect_the_connection_target(
    scheduler: Scheduler,
    after: Scheduler,
    cancelled: bool,
    step: SegmentStep,
)
    requires
        scheduler.wf(),
        scheduler.stepped(after, cancelled, step),
        scheduler.running@.len() <= scheduler.adaptive.target,
    ensures
        after.running@.len() <= scheduler.adaptive.target,
        step == SegmentStep::Finish(Outcome::Cancelled) <==> cancelled,
        step is Spawn <==> !cancelled && scheduler.running@.len() < scheduler.adaptive.target
            && scheduler.pending@.len() > 0,
        step matches SegmentStep::Spawn { index, attempt } ==> scheduler.pending@[0] == (
            index,
            attempt,
        ) && after.running@.last() == (index, attempt),
        step == SegmentStep::Finish(Outcome::Completed) <==> !cancelled && scheduler.running@.len()
            == 0 && scheduler.pending@.len() == 0,
        step is Wait ==> scheduler.running@.len() > 0,
        scheduler.pending@.len() + scheduler.running@.len() == after.pending@.len()
            + after.running@.len(),
{
}

/// A report ends the download exactly if its failure is not worth another
/// attempt or one failure too many came in a row. A piece that failed goes to
/// the end of the queue for its next attempt; one that succeeded is settled
/// and the count of failures starts anew.
pub proof fn reports_end_or_requeue(
    scheduler: Scheduler,
    after: Scheduler,
    report: WorkerReport,
    now: u64,
    shared: Shared,
    shown: Shared,
    result: Result<(), DownloadError>,
)
    requires
        scheduler.wf(),
        scheduler.reported(after, report, now, shared, shown, result),
        report.attempt < u32::MAX,
        scheduler.consecutive_failures < u32::MAX,
    ensures
        result is Err <==> (report.result matches Err(fail) && (!fail.error.retryable()
            || scheduler.consecutive_failures >= scheduler.max_consecutive_failures)),
        (report.result matches Err(fail) && !fail.error.retryable()) ==> result == Err::<
            (),
            DownloadError,
        >(report.result->Err_0.error),
        (report.result matches Err(fail) && fail.error.retryable()) && result is Err ==> (
        result matches Err(DownloadError::RetriesExhausted { attempts, last }) && attempts
            == scheduler.consecutive_failures + 1 && *last == report.result->Err_0.error),
        report.result is Err && result is Ok ==> after.pending@ == scheduler.pending@.push(
            (report.index, (report.attempt + 1) as u32),
        ) && after.consecutive_failures == scheduler.consecutive_failures + 1 && after.slots@
            == scheduler.slots@,
        report.result matches Ok(slot) ==> after.consecutive_failures == 0
            && after.settled@.contains(report.index as int) && after.pending@
            == scheduler.pending@ && shown.retries == shared.retries,
        (report.result matches Err(fail) && !fail.rate_limited) && result is Ok ==> after.adaptive
            == scheduler.adaptive,
        result is Ok ==> shown.connections == after.adaptive.target,
        (report.result matches Err(fail) && fail.error.retryable()) && shared.retries < u32::MAX
            ==> shown.retries == shared.retries + 1,
{
}

} // verus!
