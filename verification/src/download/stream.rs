//! The fallback for servers that ignore ranges: one stream from the start.
//!
//! Progress is still kept per piece, so that the download can switch to
//! segments as soon as the server honours ranges.

use reqwest::header::{HeaderMap, HeaderValue};
use vstd::prelude::*;

use super::control::{
    all_full, count_of, len_of, piece_len, piece_len_bounds, piece_starts_inside, total,
    total_of_zeros, within_pieces,
};
use super::error::DownloadError;
use super::http::{
    content_length, content_length_of, ensure_identity, identity_of, retryable_status,
    status_error,
};
use super::progress::Shared;
use super::types::{MILLISECOND, SECOND};
use crate::text::concat::cat5;
use crate::text::number::{decimal, decimal_text};

verus! {

/// How the single-stream mode ended.
#[derive(Clone, Copy, Debug, PartialEq, Eq, Structural)]
pub enum StreamEnd {
    Completed,
    Cancelled,
    /// The server honours ranges now; segments take over.
    Upgraded,
}

/// How one pass over the whole body ended without a failure.
#[derive(Clone, Copy, Debug, PartialEq, Eq, Structural)]
pub enum StreamPass {
    Complete,
    Cancelled,
    Upgrade,
}

/// What a response to the plain request amounts to.
pub enum StreamAnswer {
    Accepted,
    Status,
    Violation(Seq<char>),
    WrongSize(u64),
}

pub open spec fn stream_answer(
    status: u16,
    headers: HeaderMap<HeaderValue>,
    size: u64,
) -> StreamAnswer {
    if status != 200 {
        StreamAnswer::Status
    } else {
        match identity_of(headers) {
            Err(text) => StreamAnswer::Violation(text),
            Ok(_) => match content_length_of(headers) {
                Err(text) => StreamAnswer::Violation(text),
                Ok(Some(length)) => if length != size {
                    StreamAnswer::WrongSize(length)
                } else {
                    StreamAnswer::Accepted
                },
                Ok(None) => StreamAnswer::Accepted,
            },
        }
    }
}

/// Bytes of piece `index` among the first `absolute` bytes of the target.
pub open spec fn filled(absolute: int, size: int, piece_size: int, index: int) -> int {
    let start = index * piece_size;
    let len = len_of(size, piece_size, index);
    if absolute <= start {
        0
    } else if absolute - start < len {
        absolute - start
    } else {
        len
    }
}

/// The slots describe exactly the first `absolute` bytes.
pub open spec fn contiguous(pieces: Seq<u64>, absolute: int, size: int, piece_size: int) -> bool {
    forall|i: int|
        0 <= i < pieces.len() ==> #[trigger] pieces[i] == filled(absolute, size, piece_size, i)
}

/// Progress of one pass.
#[derive(Clone, Copy, Debug, PartialEq, Eq, Structural)]
pub struct StreamOnce {
    pub size: u64,
    pub piece_size: u64,
    /// Bytes on disk, from the start of the target.
    pub absolute: u64,
}

impl StreamOnce {
    pub open spec fn wf(self) -> bool {
        self.piece_size > 0 && self.absolute <= self.size
    }

    /// A pass that has received nothing.
    pub fn new(size: u64, piece_size: u64) -> (pass: StreamOnce)
        requires
            piece_size > 0,
        ensures
            pass.wf(),
            pass == (StreamOnce { size, piece_size, absolute: 0 }),
    {
        StreamOnce { size, piece_size, absolute: 0 }
    }

    /// Accepts or rejects the response that carries the stream.
    pub fn on_response(&self, status: u16, headers: &HeaderMap<HeaderValue>) -> (result: Result<
        (),
        DownloadError,
    >)
        ensures
            match stream_answer(status, *headers, self.size) {
                StreamAnswer::Accepted => result is Ok,
                StreamAnswer::Status => result == Err::<(), DownloadError>(
                    DownloadError::Http { status, retryable: retryable_status(status) },
                ),
                StreamAnswer::Violation(text) => result matches Err(
                    DownloadError::Protocol(found),
                ) && found@ == text,
                StreamAnswer::WrongSize(actual) => result == Err::<(), DownloadError>(
                    DownloadError::SizeMismatch { expected: self.size, actual },
                ),
            },
    {
        if status != 200 {
            return Err(status_error(status));
        }
        if let Err(error) = ensure_identity(headers) {
            return Err(error);
        }
        match content_length(headers) {
            Err(error) => Err(error),
            Ok(None) => Ok(()),
            Ok(Some(length)) => {
                if length != self.size {
                    Err(DownloadError::SizeMismatch { expected: self.size, actual: length })
                } else {
                    Ok(())
                }
            },
        }
    }

    /// Where to write a received chunk; an empty one is skipped, one that
    /// runs past the target is refused.
    pub fn on_chunk(&self, chunk_len: u64) -> (result: Result<Option<u64>, DownloadError>)
        requires
            self.wf(),
        ensures
            if chunk_len == 0 {
                result == Ok::<Option<u64>, DownloadError>(None)
            } else if self.absolute + chunk_len > self.size {
                result matches Err(DownloadError::Protocol(text)) && text@
                    == "body exceeded expected size"@
            } else {
                result == Ok::<Option<u64>, DownloadError>(Some(self.absolute))
            },
    {
        if chunk_len == 0 {
            return Ok(None);
        }
        if chunk_len > self.size - self.absolute {
            return Err(DownloadError::Protocol("body exceeded expected size".to_owned()));
        }
        Ok(Some(self.absolute))
    }

    /// Counts a chunk that is on disk: the position and every slot that
    /// the stream has reached. An upgrade is looked for only afterwards, so
    /// that no received byte is lost to it.
    pub fn on_written(
        &mut self,
        chunk_len: u64,
        pieces: &mut Vec<u64>,
        shared: &mut Shared,
        upgrade: bool,
    ) -> (ended: Option<StreamPass>)
        requires
            old(self).wf(),
            chunk_len > 0,
            old(self).absolute + chunk_len <= old(self).size,
            old(pieces)@.len() == count_of(old(self).size as nat, old(self).piece_size as nat),
        ensures
            final(self).wf(),
            *final(self) == (StreamOnce {
                absolute: (old(self).absolute + chunk_len) as u64,
                ..*old(self)
            }),
            *final(shared) == old(shared).at(final(self).absolute),
            final(shared).written >= old(shared).written,
            final(pieces)@.len() == old(pieces)@.len(),
            forall|i: int|
                0 <= i < final(pieces)@.len() ==> #[trigger] final(pieces)@[i] == if i
                    * old(self).piece_size < final(self).absolute {
                    filled(
                        final(self).absolute as int,
                        old(self).size as int,
                        old(self).piece_size as int,
                        i,
                    )
                } else {
                    old(pieces)@[i] as int
                },
            contiguous(
                old(pieces)@,
                old(self).absolute as int,
                old(self).size as int,
                old(self).piece_size as int,
            ) ==> contiguous(
                final(pieces)@,
                final(self).absolute as int,
                old(self).size as int,
                old(self).piece_size as int,
            ),
            ended == if upgrade {
                Some(StreamPass::Upgrade)
            } else {
                None
            },
    {
        let absolute: u64 = self.absolute + chunk_len;
        self.absolute = absolute;
        shared.set_position(absolute);
        let size: u64 = self.size;
        let piece_size: u64 = self.piece_size;
        let ghost before = pieces@;
        let mut cursor: u64 = absolute;
        let mut at: usize = 0;
        proof {
            piece_starts_inside(size as nat, piece_size as nat, 0);
        }
        while at < pieces.len() && cursor > 0
            invariant
                at <= pieces@.len(),
                pieces@.len() == before.len(),
                before.len() == count_of(size as nat, piece_size as nat),
                piece_size > 0,
                0 < absolute <= size,
                cursor == if absolute > at * piece_size {
                    absolute - at * piece_size
                } else {
                    0
                },
                at as int > 0 || cursor > 0,
                forall|i: int|
                    0 <= i < pieces@.len() ==> #[trigger] pieces@[i] == if i < at {
                        filled(absolute as int, size as int, piece_size as int, i)
                    } else {
                        before[i] as int
                    },
                forall|i: int|
                    0 <= i < at ==> #[trigger] (i * piece_size) < absolute,
            decreases pieces@.len() - at,
        {
            proof {
                piece_starts_inside(size as nat, piece_size as nat, at as nat);
                piece_len_bounds(size as nat, piece_size as nat, at as nat);
                assert((at + 1) * piece_size == at * piece_size + piece_size) by (nonlinear_arith);
            }
            let len: u64 = piece_len(size, piece_size, at as u64);
            let value: u64 = if cursor < len {
                cursor
            } else {
                len
            };
            pieces.set(at, value);
            cursor = cursor - value;
            at += 1;
        }
        proof {
            assert forall|i: int|
                0 <= i < pieces@.len() implies #[trigger] pieces@[i] == if i * piece_size
                < absolute {
                filled(absolute as int, size as int, piece_size as int, i)
            } else {
                before[i] as int
            } by {
                if i < at {
                    assert(i * piece_size < absolute);
                } else if at < pieces@.len() {
                    assert(absolute <= at * piece_size);
                    assert(at * piece_size <= i * piece_size) by (nonlinear_arith)
                        requires
                            at <= i,
                            piece_size > 0,
                    ;
                }
            }
            if contiguous(before, old(self).absolute as int, size as int, piece_size as int) {
                assert forall|i: int| 0 <= i < pieces@.len() implies #[trigger] pieces@[i]
                    == filled(absolute as int, size as int, piece_size as int, i) by {
                    assert(before[i] == filled(
                        old(self).absolute as int,
                        size as int,
                        piece_size as int,
                        i,
                    ));
                }
            }
        }
        if upgrade {
            Some(StreamPass::Upgrade)
        } else {
            None
        }
    }

    /// The failure of a stream without bytes for too long.
    pub fn on_stall(&self) -> (error: DownloadError)
        ensures
            error matches DownloadError::Network(text) && text@ == "single stream stalled"@,
    {
        DownloadError::Network("single stream stalled".to_owned())
    }

    /// Judges the end of the body: everything must have come.
    pub fn finish(&self) -> (result: Result<StreamPass, DownloadError>)
        ensures
            if self.absolute == self.size {
                result == Ok::<StreamPass, DownloadError>(StreamPass::Complete)
            } else {
                result matches Err(DownloadError::Network(text)) && text@
                    == "single stream ended early: "@ + decimal(self.absolute as nat) + " of "@
                    + decimal(self.size as nat) + " bytes"@
            },
    {
        if self.absolute != self.size {
            return Err(
                DownloadError::Network(
                    cat5(
                        "single stream ended early: ",
                        decimal_text(self.absolute).as_str(),
                        " of ",
                        decimal_text(self.size).as_str(),
                        " bytes",
                    ),
                ),
            );
        }
        Ok(StreamPass::Complete)
    }
}

/// Slots that describe the first bytes of the target stay within their pieces
/// and are all full exactly when the stream is complete.
pub proof fn contiguous_progress_is_sound(
    pieces: Seq<u64>,
    absolute: u64,
    size: u64,
    piece_size: u64,
)
    requires
        piece_size > 0,
        absolute <= size,
        pieces.len() == count_of(size as nat, piece_size as nat),
        contiguous(pieces, absolute as int, size as int, piece_size as int),
    ensures
        within_pieces(size as int, piece_size as int, pieces),
        total(pieces) == absolute,
        absolute == size ==> all_full(size as int, piece_size as int, pieces),
{
    assert forall|i: int| 0 <= i < pieces.len() implies #[trigger] pieces[i] <= len_of(
        size as int,
        piece_size as int,
        i,
    ) by {
        piece_len_bounds(size as nat, piece_size as nat, i as nat);
    }
    if absolute == size {
        assert forall|i: int| 0 <= i < pieces.len() implies #[trigger] pieces[i] == len_of(
            size as int,
            piece_size as int,
            i,
        ) by {
            piece_len_bounds(size as nat, piece_size as nat, i as nat);
        }
    }
    contiguous_total(pieces, absolute, size, piece_size, pieces.len());
    assert(pieces.take(pieces.len() as int) =~= pieces);
    piece_starts_inside(size as nat, piece_size as nat, pieces.len());
}

proof fn contiguous_total(
    pieces: Seq<u64>,
    absolute: u64,
    size: u64,
    piece_size: u64,
    count: nat,
)
    requires
        piece_size > 0,
        absolute <= size,
        pieces.len() == count_of(size as nat, piece_size as nat),
        contiguous(pieces, absolute as int, size as int, piece_size as int),
        count <= pieces.len(),
    ensures
        total(pieces.take(count as int)) == if count * piece_size < absolute {
            (count * piece_size) as int
        } else {
            absolute as int
        },
    decreases count,
{
    if count == 0 {
        assert(count * piece_size == 0) by (nonlinear_arith)
            requires
                count == 0,
        ;
    } else {
        let before = (count - 1) as nat;
        contiguous_total(pieces, absolute, size, piece_size, before);
        assert(pieces.take(count as int).drop_last() =~= pieces.take(before as int));
        assert(count * piece_size == before * piece_size + piece_size) by (nonlinear_arith)
            requires
                count == before + 1,
        ;
        assert(pieces[before as int] == filled(
            absolute as int,
            size as int,
            piece_size as int,
            before as int,
        ));
        piece_len_bounds(size as nat, piece_size as nat, before);
    }
}

/// What to do before a pass.
#[derive(Clone, Copy, Debug, PartialEq, Eq, Structural)]
pub enum BeforePass {
    End(StreamEnd),
    /// Wait out the backoff of this repetition, then run the pass.
    Wait(u32),
    Run,
}

/// What to do after a pass.
#[derive(Debug)]
pub enum AfterPass {
    End(Result<StreamEnd, DownloadError>),
    /// Start over from the first byte.
    Again,
}

/// The repetitions of the single-stream mode.
#[derive(Clone, Copy, Debug, PartialEq, Eq, Structural)]
pub struct SingleStream {
    pub attempt: u32,
    pub max_consecutive_failures: u32,
}

/// Sets every slot to zero.
pub fn clear_pieces(pieces: &mut Vec<u64>)
    ensures
        final(pieces)@ == Seq::new(old(pieces)@.len(), |i: int| 0u64),
        total(final(pieces)@) == 0,
{
    let count: usize = pieces.len();
    let mut at: usize = 0;
    while at < count
        invariant
            at <= count,
            pieces@.len() == count,
            forall|i: int| 0 <= i < at ==> #[trigger] pieces@[i] == 0,
        decreases count - at,
    {
        pieces.set(at, 0);
        at += 1;
    }
    proof {
        assert(pieces@ =~= Seq::new(count as nat, |i: int| 0u64));
        total_of_zeros(pieces@);
    }
}

/// What comes before a pass: cancellation first, then the upgrade, then the
/// backoff.
pub open spec fn pass_step(attempt: u32, cancelled: bool, upgrade: bool) -> BeforePass {
    if cancelled {
        BeforePass::End(StreamEnd::Cancelled)
    } else if upgrade {
        BeforePass::End(StreamEnd::Upgraded)
    } else if attempt > 0 {
        BeforePass::Wait(attempt)
    } else {
        BeforePass::Run
    }
}

/// What a pass came to: the mode, the pieces and what is shown before and
/// after it.
pub open spec fn judged(
    before: SingleStream,
    after: SingleStream,
    result: Result<StreamPass, DownloadError>,
    upgrade: bool,
    pieces: Seq<u64>,
    kept: Seq<u64>,
    shared: Shared,
    shown: Shared,
    next: AfterPass,
) -> bool {
    match result {
        Ok(pass) => {
            &&& next == AfterPass::End(
                Ok(
                    match pass {
                        StreamPass::Complete => StreamEnd::Completed,
                        StreamPass::Cancelled => StreamEnd::Cancelled,
                        StreamPass::Upgrade => StreamEnd::Upgraded,
                    },
                ),
            )
            &&& after == before
            &&& kept == pieces
            &&& shown == shared
        },
        Err(error) => if !error.retryable() {
            &&& next == AfterPass::End(Err(error))
            &&& after == before
            &&& kept == pieces
            &&& shown == shared
        } else {
            let counted = Shared {
                retries: ((shared.retries + 1) % 0x1_0000_0000) as u32,
                ..shared
            };
            &&& after.attempt == before.attempt + 1
            &&& if before.attempt + 1 > before.max_consecutive_failures {
                &&& next == AfterPass::End(
                    Err(
                        DownloadError::RetriesExhausted {
                            attempts: (before.attempt + 1) as u32,
                            last: Box::new(error),
                        },
                    ),
                )
                &&& kept == pieces
                &&& shown == counted
            } else if upgrade {
                &&& next == AfterPass::End(Ok(StreamEnd::Upgraded))
                &&& kept == pieces
                &&& shown == counted
            } else {
                &&& next == AfterPass::Again
                &&& after.wf()
                &&& kept == Seq::new(pieces.len(), |i: int| 0u64)
                &&& shown == (Shared { position: 0, ..counted })
            }
        },
    }
}

impl SingleStream {
    pub open spec fn wf(self) -> bool {
        self.attempt <= self.max_consecutive_failures
    }

    /// The mode at its start; one connection is wanted.
    pub fn new(max_consecutive_failures: u32, shared: &mut Shared) -> (mode: SingleStream)
        ensures
            mode.wf(),
            mode == (SingleStream { attempt: 0, max_consecutive_failures }),
            *final(shared) == (Shared { connections: 1, ..*old(shared) }),
    {
        shared.connections = 1;
        SingleStream { attempt: 0, max_consecutive_failures }
    }

    /// Cancellation first, then the upgrade, then the backoff.
    pub fn before_pass(&self, cancelled: bool, upgrade: bool) -> (step: BeforePass)
        ensures
            step == pass_step(self.attempt, cancelled, upgrade),
    {
        if cancelled {
            BeforePass::End(StreamEnd::Cancelled)
        } else if upgrade {
            BeforePass::End(StreamEnd::Upgraded)
        } else if self.attempt > 0 {
            BeforePass::Wait(self.attempt)
        } else {
            BeforePass::Run
        }
    }

    /// Judges a pass. A retryable failure starts over from zero, unless the
    /// budget is spent or ranges can take over from what is on disk.
    pub fn after_pass(
        &mut self,
        result: Result<StreamPass, DownloadError>,
        upgrade: bool,
        pieces: &mut Vec<u64>,
        shared: &mut Shared,
    ) -> (next: AfterPass)
        requires
            old(self).wf(),
            old(self).attempt < u32::MAX,
        ensures
            final(self).max_consecutive_failures == old(self).max_consecutive_failures,
            final(shared).written >= old(shared).written,
            judged(
                *old(self),
                *final(self),
                result,
                upgrade,
                old(pieces)@,
                final(pieces)@,
                *old(shared),
                *final(shared),
                next,
            ),
    {
        match result {
            Ok(StreamPass::Complete) => AfterPass::End(Ok(StreamEnd::Completed)),
            Ok(StreamPass::Cancelled) => AfterPass::End(Ok(StreamEnd::Cancelled)),
            Ok(StreamPass::Upgrade) => AfterPass::End(Ok(StreamEnd::Upgraded)),
            Err(error) => {
                if !error.is_retryable() {
                    return AfterPass::End(Err(error));
                }
                shared.count_retry();
                self.attempt = self.attempt + 1;
                if self.attempt > self.max_consecutive_failures {
                    return AfterPass::End(
                        Err(
                            DownloadError::RetriesExhausted {
                                attempts: self.attempt,
                                last: Box::new(error),
                            },
                        ),
                    );
                }
                if upgrade {
                    return AfterPass::End(Ok(StreamEnd::Upgraded));
                }
                clear_pieces(pieces);
                shared.set_position(0);
                AfterPass::Again
            },
        }
    }
}

/// Slots of zeros describe an empty stream: a restarted pass begins with
/// sound progress.
pub proof fn restart_is_contiguous(count: nat, size: u64, piece_size: u64)
    requires
        piece_size > 0,
    ensures
        contiguous(Seq::new(count, |i: int| 0u64), 0, size as int, piece_size as int),
{
    let zeros = Seq::new(count, |i: int| 0u64);
    assert forall|i: int| 0 <= i < count implies #[trigger] zeros[i] == filled(
        0,
        size as int,
        piece_size as int,
        i,
    ) by {
        assert(i * piece_size >= 0) by (nonlinear_arith)
            requires
                i >= 0,
                piece_size > 0,
        ;
    }
}

/// The range probes that run beside a single stream.
#[derive(Clone, Copy, Debug, PartialEq, Eq, Structural)]
pub struct UpgradeProber {
    pub interval: u64,
    pub first: bool,
}

/// Time between two probes, as far as it may be set.
pub open spec fn probe_interval(interval: u64) -> u64 {
    if interval < 100 * MILLISECOND {
        (100 * MILLISECOND) as u64
    } else {
        interval
    }
}

/// Time until the next probe.
pub open spec fn probe_delay(prober: UpgradeProber) -> u64 {
    if prober.first && prober.interval > 2 * SECOND {
        (2 * SECOND) as u64
    } else {
        prober.interval
    }
}

/// A probe found that the server answers ranges.
pub open spec fn range_found(probe: Result<super::probe::ProbeResult, DownloadError>) -> bool {
    probe matches Ok(found) && found.range_supported
}

impl UpgradeProber {
    /// At most ten probes a second.
    pub fn new(interval: u64) -> (prober: UpgradeProber)
        ensures
            prober.first,
            prober.interval == probe_interval(interval),
    {
        let least: u64 = 100 * MILLISECOND;
        UpgradeProber {
            interval: if interval < least {
                least
            } else {
                interval
            },
            first: true,
        }
    }

    /// Time until the next probe; the first comes within two seconds.
    pub fn next_delay(&mut self) -> (delay: u64)
        ensures
            *final(self) == (UpgradeProber { first: false, ..*old(self) }),
            delay == probe_delay(*old(self)),
    {
        let early: bool = self.first;
        self.first = false;
        if early && self.interval > 2 * SECOND {
            2 * SECOND
        } else {
            self.interval
        }
    }

    /// Whether a probe's result calls for the upgrade.
    pub fn upgrades(&self, probe: &Result<super::probe::ProbeResult, DownloadError>) -> (upgrade:
        bool)
        ensures
            upgrade == range_found(*probe),
    {
        match probe {
            Ok(found) => found.range_supported,
            Err(_) => false,
        }
    }
}

/// A stream is accepted exactly if it is a plain answer to a plain request,
/// and does not name another length than the wanted one.
pub proof fn streams_have_the_wanted_length(
    status: u16,
    headers: HeaderMap<HeaderValue>,
    size: u64,
)
    ensures
        stream_answer(status, headers, size) is Accepted <==> {
            &&& status == 200
            &&& identity_of(headers) is Ok
            &&& content_length_of(headers) matches Ok(length) && (length is None
                || length->Some_0 == size)
        },
        stream_answer(status, headers, size) is Status <==> status != 200,
{
}

/// Of a piece those bytes are there that lie before the position of the
/// stream: none if it has not reached the piece, all if it is past it.
pub proof fn streams_fill_from_the_front(absolute: int, size: int, piece_size: int, index: int)
    requires
        0 <= len_of(size, piece_size, index),
    ensures
        ({
            let start = index * piece_size;
            let end = start + len_of(size, piece_size, index);
            &&& absolute <= start ==> filled(absolute, size, piece_size, index) == 0
            &&& start < absolute < end ==> start + filled(absolute, size, piece_size, index)
                == absolute
            &&& absolute >= end && absolute > start ==> start + filled(
                absolute,
                size,
                piece_size,
                index,
            ) == end
        }),
{
}

/// A cancelled stream ends whatever else holds, then one that ranges can take
/// over; only a repetition waits.
pub proof fn cancellation_comes_first(attempt: u32, cancelled: bool, upgrade: bool)
    ensures
        pass_step(attempt, cancelled, upgrade) == BeforePass::End(StreamEnd::Cancelled)
            <==> cancelled,
        pass_step(attempt, cancelled, upgrade) == BeforePass::End(StreamEnd::Upgraded)
            <==> !cancelled && upgrade,
        !cancelled && !upgrade ==> (pass_step(attempt, cancelled, upgrade) is Run <==> attempt == 0),
        !cancelled && !upgrade && attempt > 0 ==> pass_step(attempt, cancelled, upgrade)
            == BeforePass::Wait(attempt),
{
}

/// A stream starts over only after a failure that is worth it, within its
/// budget, and while ranges cannot take over; then every piece is empty again.
/// Otherwise it ends and keeps what it has.
pub proof fn streams_start_over_from_nothing(
    before: SingleStream,
    after: SingleStream,
    result: Result<StreamPass, DownloadError>,
    upgrade: bool,
    pieces: Seq<u64>,
    kept: Seq<u64>,
    shared: Shared,
    shown: Shared,
    next: AfterPass,
)
    requires
        judged(before, after, result, upgrade, pieces, kept, shared, shown, next),
    ensures
        next is Again <==> (result matches Err(error) && error.retryable() && before.attempt
            < before.max_consecutive_failures && !upgrade),
        next is Again ==> kept.len() == pieces.len() && forall|i: int|
            0 <= i < kept.len() ==> #[trigger] kept[i] == 0,
        next is Again ==> shown.position == 0 && after.attempt == before.attempt + 1,
        (result matches Err(error) && error.retryable()) && shared.retries < u32::MAX
            ==> shown.retries == shared.retries + 1,
        !(next is Again) ==> kept == pieces && shown.position == shared.position,
        result == Ok::<StreamPass, DownloadError>(StreamPass::Complete) <==> next == AfterPass::End(
            Ok(StreamEnd::Completed),
        ),
        (result matches Err(error) && !error.retryable()) ==> next == AfterPass::End(
            Err(result->Err_0),
        ) && shown.retries == shared.retries,
        (result matches Err(error) && error.retryable()) && before.attempt
            >= before.max_consecutive_failures ==> (next matches AfterPass::End(Err(found)) && found
            is RetriesExhausted),
{
}

/// Probes come at most ten times a second, the first within two seconds.
pub proof fn probes_are_spaced(interval: u64, prober: UpgradeProber)
    ensures
        probe_interval(interval) >= 100_000_000,
        interval >= 100_000_000 ==> probe_interval(interval) == interval,
        interval < 100_000_000 ==> probe_interval(interval) == 100_000_000,
        prober.first ==> probe_delay(prober) <= 2_000_000_000,
        !prober.first || prober.interval <= 2_000_000_000 ==> probe_delay(prober)
            == prober.interval,
        prober.first && prober.interval > 2_000_000_000 ==> probe_delay(prober) == 2_000_000_000,
{
}

/// Only a probe that got an answer with ranges calls for them.
pub proof fn ranges_are_used_once_found(probe: Result<super::probe::ProbeResult, DownloadError>)
    ensures
        probe is Err ==> !range_found(probe),
        probe matches Ok(found) ==> (range_found(probe) <==> found.range_supported),
{
}

} // verus!
