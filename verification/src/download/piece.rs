//! Fetching one piece over one ranged request.

use reqwest::header::{HeaderMap, HeaderValue};
use vstd::prelude::*;

use super::control::{
    count_of, len_of, piece_len, piece_len_bounds, piece_starts_inside, total, total_of_update,
};
use super::error::DownloadError;
use super::http::{
    content_length, content_length_of, content_range, content_range_of, delay_of,
    ensure_identity, header_text, http_date, identity_of, retry_after, retryable_status,
    status_error, MAX_RETRY_AFTER,
};
use super::progress::Shared;
use super::segmented::WorkerFail;
use super::types::SECOND;
use crate::text::concat::{cat4, cat5, cat6, cat7};
use crate::text::number::{decimal, decimal_text};
use crate::text::scan::trimmed;

verus! {

/// One attempt at one piece.
#[derive(Clone, Copy, Debug, PartialEq, Eq, Structural)]
pub struct PieceFetch {
    pub index: u64,
    /// Offset of the piece in the target.
    pub piece_start: u64,
    /// Length of the piece.
    pub len: u64,
    /// Bytes of the piece that were on disk before this attempt.
    pub already: u64,
    /// Bytes of the piece on disk now.
    pub written: u64,
    pub attempt_started: u64,
}

/// What a response to the ranged request amounts to.
pub enum PieceAnswer {
    Accepted,
    Fails(Seq<char>),
    /// Not a partial response.
    Refused,
}

impl PieceFetch {
    /// The attempt lies inside the target and still has bytes to fetch.
    pub open spec fn wf(self, size: u64) -> bool {
        &&& self.already < self.len
        &&& self.already <= self.written <= self.len
        &&& self.piece_start + self.len <= size
    }

    pub open spec fn first(self) -> int {
        self.piece_start + self.already
    }

    pub open spec fn last(self) -> int {
        self.piece_start + self.len - 1
    }

    /// Starts an attempt, unless the piece is full already.
    pub fn begin(
        size: u64,
        piece_size: u64,
        index: u64,
        already: u64,
        attempt_started: u64,
    ) -> (fetch: Option<PieceFetch>)
        requires
            piece_size > 0,
            index < count_of(size as nat, piece_size as nat),
        ensures
            match fetch {
                Some(fetch) => {
                    &&& already < len_of(size as int, piece_size as int, index as int)
                    &&& fetch.wf(size)
                    &&& fetch.index == index
                    &&& fetch.piece_start == index * piece_size
                    &&& fetch.len == len_of(size as int, piece_size as int, index as int)
                    &&& fetch.already == already
                    &&& fetch.written == already
                    &&& fetch.attempt_started == attempt_started
                },
                None => already >= len_of(size as int, piece_size as int, index as int),
            },
    {
        proof {
            piece_starts_inside(size as nat, piece_size as nat, index as nat);
            piece_len_bounds(size as nat, piece_size as nat, index as nat);
        }
        let piece_start: u64 = index * piece_size;
        let len: u64 = piece_len(size, piece_size, index);
        if already >= len {
            return None;
        }
        Some(PieceFetch { index, piece_start, len, already, written: already, attempt_started })
    }

    /// The `Range` header of the request: the missing rest of the piece.
    pub fn range_header(&self) -> (header: String)
        requires
            exists|size: u64| self.wf(size),
        ensures
            header@ == "bytes="@ + decimal(self.first() as nat) + "-"@ + decimal(
                self.last() as nat,
            ),
    {
        let start: u64 = self.piece_start + self.already;
        let end: u64 = self.piece_start + (self.len - 1);
        cat4("bytes=", decimal_text(start).as_str(), "-", decimal_text(end).as_str())
    }

    /// Verdict on a response: the body must be exactly the bytes asked for.
    pub open spec fn answer(self, status: u16, headers: HeaderMap<HeaderValue>) -> PieceAnswer {
        if status != 206 {
            PieceAnswer::Refused
        } else {
            match identity_of(headers) {
                Err(text) => PieceAnswer::Fails(text),
                Ok(_) => match content_range_of(headers) {
                    Err(text) => PieceAnswer::Fails(text),
                    Ok(None) => PieceAnswer::Fails("206 without Content-Range"@),
                    Ok(Some(range)) => if range.start != self.first() || range.end
                        != self.last() {
                        PieceAnswer::Fails(
                            "Content-Range mismatch: asked "@ + decimal(self.first() as nat)
                                + "-"@ + decimal(self.last() as nat) + ", got "@ + decimal(
                                range.start as nat,
                            ) + "-"@ + decimal(range.end as nat),
                        )
                    } else {
                        match content_length_of(headers) {
                            Err(text) => PieceAnswer::Fails(text),
                            Ok(Some(length)) => if length != self.len - self.already {
                                PieceAnswer::Fails(
                                    "Content-Length mismatch for piece "@ + decimal(
                                        self.index as nat,
                                    ) + ": expected "@ + decimal((self.len - self.already) as nat)
                                        + ", got "@ + decimal(length as nat),
                                )
                            } else {
                                PieceAnswer::Accepted
                            },
                            Ok(None) => PieceAnswer::Accepted,
                        }
                    },
                },
            }
        }
    }

    /// Accepts or rejects a response. `now` is the wall clock in nanoseconds
    /// since 1970-01-01.
    pub fn on_response(&self, status: u16, headers: &HeaderMap<HeaderValue>, now: u128) -> (result:
        Result<(), WorkerFail>)
        requires
            exists|size: u64| self.wf(size),
        ensures
            result matches Err(fail) ==> {
                &&& fail.attempt_started == self.attempt_started
                &&& fail.retry_after matches Some(delay) ==> delay <= MAX_RETRY_AFTER
            },
            match self.answer(status, *headers) {
                PieceAnswer::Accepted => result is Ok,
                PieceAnswer::Fails(text) => {
                    &&& result is Err
                    &&& result->Err_0.error matches DownloadError::Protocol(found) && found@ == text
                    &&& !result->Err_0.rate_limited
                    &&& result->Err_0.retry_after is None
                },
                PieceAnswer::Refused => {
                    &&& result is Err
                    &&& result->Err_0.rate_limited == (status == 429)
                    &&& if status == 200 {
                        result->Err_0.error matches DownloadError::Protocol(found) && found@
                            == "server stopped honoring range requests"@
                    } else {
                        result->Err_0.error == (DownloadError::Http {
                            status,
                            retryable: retryable_status(status),
                        })
                    }
                    &&& match header_text(*headers, "retry-after"@) {
                        Some(Ok(text)) => match result->Err_0.retry_after {
                            Some(delay) => delay_of(
                                trimmed(text),
                                http_date(trimmed(text)),
                                now as int,
                            ) == Some(delay as int),
                            None => delay_of(
                                trimmed(text),
                                http_date(trimmed(text)),
                                now as int,
                            ) is None,
                        },
                        _ => result->Err_0.retry_after is None,
                    }
                },
            },
    {
        let start: u64 = self.piece_start + self.already;
        let end: u64 = self.piece_start + (self.len - 1);
        let missing: u64 = self.len - self.already;
        if status != 206 {
            let delay: Option<u64> = retry_after(headers, now);
            let error: DownloadError = if status == 200 {
                DownloadError::Protocol("server stopped honoring range requests".to_owned())
            } else {
                status_error(status)
            };
            return Err(
                WorkerFail {
                    error,
                    rate_limited: status == 429,
                    retry_after: delay,
                    attempt_started: self.attempt_started,
                },
            );
        }
        if let Err(error) = ensure_identity(headers) {
            return Err(WorkerFail::plain(error, self.attempt_started));
        }
        match content_range(headers) {
            Err(error) => {
                return Err(WorkerFail::plain(error, self.attempt_started));
            },
            Ok(None) => {
                return Err(
                    WorkerFail::plain(
                        DownloadError::Protocol("206 without Content-Range".to_owned()),
                        self.attempt_started,
                    ),
                );
            },
            Ok(Some(range)) => {
                if range.start != start || range.end != end {
                    let asked: String = cat4(
                        "Content-Range mismatch: asked ",
                        decimal_text(start).as_str(),
                        "-",
                        decimal_text(end).as_str(),
                    );
                    let text: String = cat5(
                        asked.as_str(),
                        ", got ",
                        decimal_text(range.start).as_str(),
                        "-",
                        decimal_text(range.end).as_str(),
                    );
                    return Err(
                        WorkerFail::plain(DownloadError::Protocol(text), self.attempt_started),
                    );
                }
            },
        }
        match content_length(headers) {
            Err(error) => Err(WorkerFail::plain(error, self.attempt_started)),
            Ok(None) => Ok(()),
            Ok(Some(length)) => {
                if length != missing {
                    let text: String = cat6(
                        "Content-Length mismatch for piece ",
                        decimal_text(self.index).as_str(),
                        ": expected ",
                        decimal_text(missing).as_str(),
                        ", got ",
                        decimal_text(length).as_str(),
                    );
                    Err(WorkerFail::plain(DownloadError::Protocol(text), self.attempt_started))
                } else {
                    Ok(())
                }
            },
        }
    }

    /// Where to write a received chunk; an empty one is skipped, one that
    /// runs past the piece is refused.
    pub fn on_chunk(&self, chunk_len: u64) -> (result: Result<Option<u64>, WorkerFail>)
        requires
            exists|size: u64| self.wf(size),
        ensures
            if chunk_len == 0 {
                result == Ok::<Option<u64>, WorkerFail>(None)
            } else if self.written + chunk_len > self.len {
                &&& result is Err
                &&& result->Err_0.error matches DownloadError::Protocol(text) && text@
                    == "piece "@ + decimal(self.index as nat) + " body exceeded "@ + decimal(
                    self.len as nat,
                ) + " bytes"@
                &&& !result->Err_0.rate_limited
                &&& result->Err_0.retry_after is None
                &&& result->Err_0.attempt_started == self.attempt_started
            } else {
                result matches Ok(Some(offset)) && offset == self.piece_start + self.written
            },
    {
        if chunk_len == 0 {
            return Ok(None);
        }
        if chunk_len > self.len - self.written {
            let text: String = cat5(
                "piece ",
                decimal_text(self.index).as_str(),
                " body exceeded ",
                decimal_text(self.len).as_str(),
                " bytes",
            );
            return Err(WorkerFail::plain(DownloadError::Protocol(text), self.attempt_started));
        }
        Ok(Some(self.piece_start + self.written))
    }

    /// Counts a chunk that is on disk: the position and the piece's slot.
    pub fn on_written(&mut self, chunk_len: u64, pieces: &mut Vec<u64>, shared: &mut Shared)
        requires
            old(self).written + chunk_len <= old(self).len,
            old(self).index < old(pieces)@.len(),
        ensures
            *final(self) == (PieceFetch {
                written: (old(self).written + chunk_len) as u64,
                ..*old(self)
            }),
            forall|size: u64| old(self).wf(size) ==> final(self).wf(size),
            final(pieces)@ == old(pieces)@.update(
                old(self).index as int,
                (old(self).written + chunk_len) as u64,
            ),
            old(pieces)@[old(self).index as int] == old(self).written ==> total(final(pieces)@)
                == total(old(pieces)@) + chunk_len,
            *final(shared) == old(shared).at(
                ((old(shared).position + chunk_len) % 0x1_0000_0000_0000_0000) as u64,
            ),
            final(shared).written >= old(shared).written,
    {
        self.written = self.written + chunk_len;
        let at: usize = self.index as usize;
        proof {
            total_of_update(pieces@, at as int, self.written);
        }
        pieces.set(at, self.written);
        shared.count_written(chunk_len);
    }

    /// The failure of a connection without bytes for `stall_timeout`.
    pub fn on_stall(&self, stall_timeout: u64) -> (fail: WorkerFail)
        ensures
            fail.error matches DownloadError::Network(text) && text@ == "no data for "@ + decimal(
                (stall_timeout / SECOND) as nat,
            ) + " s on piece "@ + decimal(self.index as nat),
            !fail.rate_limited,
            fail.retry_after is None,
            fail.attempt_started == self.attempt_started,
    {
        let text: String = cat4(
            "no data for ",
            decimal_text(stall_timeout / SECOND).as_str(),
            " s on piece ",
            decimal_text(self.index).as_str(),
        );
        WorkerFail::plain(DownloadError::Network(text), self.attempt_started)
    }

    /// Judges the end of the body: the piece must be full. The result is what
    /// its slot holds.
    pub fn finish(&self) -> (result: Result<u64, WorkerFail>)
        ensures
            if self.written == self.len {
                result == Ok::<u64, WorkerFail>(self.len)
            } else {
                &&& result is Err
                &&& result->Err_0.error matches DownloadError::Network(text) && text@ == "piece "@
                    + decimal(self.index as nat) + " ended early: "@ + decimal(
                    self.written as nat,
                ) + " of "@ + decimal(self.len as nat) + " bytes"@
                &&& !result->Err_0.rate_limited
                &&& result->Err_0.retry_after is None
                &&& result->Err_0.attempt_started == self.attempt_started
            },
    {
        if self.written != self.len {
            let text: String = cat7(
                "piece ",
                decimal_text(self.index).as_str(),
                " ended early: ",
                decimal_text(self.written).as_str(),
                " of ",
                decimal_text(self.len).as_str(),
                " bytes",
            );
            return Err(WorkerFail::plain(DownloadError::Network(text), self.attempt_started));
        }
        Ok(self.written)
    }
}

/// A chunk that is accepted lies inside its own piece: no write of one piece
/// touches another or runs past the target.
pub proof fn writes_stay_in_their_piece(
    size: u64,
    piece_size: u64,
    mine: PieceFetch,
    chunk_len: u64,
    other: u64,
    byte: int,
)
    requires
        piece_size > 0,
        mine.index < count_of(size as nat, piece_size as nat),
        mine.piece_start == mine.index * piece_size,
        mine.len == len_of(size as int, piece_size as int, mine.index as int),
        mine.wf(size),
        mine.written + chunk_len <= mine.len,
        mine.piece_start + mine.written <= byte < mine.piece_start + mine.written + chunk_len,
        other != mine.index,
        other < count_of(size as nat, piece_size as nat),
    ensures
        mine.index * piece_size <= byte < mine.index * piece_size + len_of(
            size as int,
            piece_size as int,
            mine.index as int,
        ) <= size,
        !(other * piece_size <= byte < other * piece_size + len_of(
            size as int,
            piece_size as int,
            other as int,
        )),
{
    piece_len_bounds(size as nat, piece_size as nat, mine.index as nat);
    piece_len_bounds(size as nat, piece_size as nat, other as nat);
    if other < mine.index {
        assert(other * piece_size + piece_size <= mine.index * piece_size) by (nonlinear_arith)
            requires
                other + 1 <= mine.index,
                piece_size > 0,
        ;
    } else {
        assert(mine.index * piece_size + piece_size <= other * piece_size) by (nonlinear_arith)
            requires
                mine.index + 1 <= other,
                piece_size > 0,
        ;
    }
}

/// An attempt asks for exactly the bytes of the piece that are missing: from
/// the first one that is not on disk to the last one of the piece.
pub proof fn attempts_ask_for_the_missing_bytes(fetch: PieceFetch, size: u64)
    requires
        fetch.wf(size),
    ensures
        fetch.first() == fetch.piece_start + fetch.already,
        fetch.last() + 1 == fetch.piece_start + fetch.len,
        fetch.last() - fetch.first() + 1 == fetch.len - fetch.already,
        fetch.first() <= fetch.last() < size,
{
}

/// A response is accepted exactly if it is partial and plain, and covers
/// exactly the bytes that are missing: the range it names starts and ends with
/// them, and a length that it names is theirs.
pub proof fn responses_have_to_cover_what_is_missing(
    fetch: PieceFetch,
    status: u16,
    headers: HeaderMap<HeaderValue>,
)
    ensures
        fetch.answer(status, headers) is Accepted <==> {
            &&& status == 206
            &&& identity_of(headers) is Ok
            &&& content_range_of(headers) matches Ok(Some(range)) && range.start
                == fetch.piece_start + fetch.already && range.end + 1 == fetch.piece_start
                + fetch.len
            &&& content_length_of(headers) matches Ok(length) && (length is None
                || length->Some_0 == fetch.len - fetch.already)
        },
        fetch.answer(status, headers) is Refused <==> status != 206,
{
}

} // verus!
