//! Requests, options and outcomes.

use std::ops::RangeInclusive;
use vstd::prelude::*;

use super::error::DownloadError;
use super::limiter::{clamped, Gate};

verus! {

/// Small enough that an interruption costs seconds, large enough that big
/// files do not need too many requests.
pub const DEFAULT_PIECE_SIZE: u64 = 4 * 1024 * 1024;

/// One second.
pub const SECOND: u64 = 1_000_000_000;

/// One millisecond.
pub const MILLISECOND: u64 = 1_000_000;

/// What to download and where to.
#[derive(Clone, Debug)]
pub struct DownloadRequest {
    /// Resuming does not depend on the URL; a retry may use another one.
    pub url: String,
    /// The control file lies next to the target.
    pub target: String,
    /// The size the server has to report.
    pub expected_size: u64,
    /// Names the content, for example `sha256:..`. With it, changed
    /// validators do not stop a resume; the caller checks the hash at the end.
    pub identity: Option<String>,
}

/// Connections that all downloads may use together.
#[derive(Clone, Copy, Debug, PartialEq, Eq, Structural)]
pub struct SharedBudget {
    pub gate: Gate,
}

impl SharedBudget {
    /// A budget of `max` connections, at least one.
    #[must_use]
    pub fn new(max: usize) -> (budget: SharedBudget)
        ensures
            budget.gate.wf(),
            budget.gate.in_flight == 0,
            budget.gate.max == if max < 1 {
                1
            } else {
                max
            },
    {
        SharedBudget { gate: Gate::new(max) }
    }
}

/// Tunables of one download; durations in nanoseconds.
#[derive(Clone, Copy, Debug, PartialEq, Eq, Structural)]
pub struct DownloadOptions {
    pub piece_size: u64,
    pub min_connections: usize,
    pub initial_connections: usize,
    pub max_connections: usize,
    /// A connection without bytes for this long is dropped.
    pub stall_timeout: u64,
    /// Time between two updates of the control file.
    pub commit_interval: u64,
    /// Time between two progress snapshots.
    pub progress_interval: u64,
    /// Pieces in a row that raise the connection target by one.
    pub grow_after_successes: u32,
    /// Retryable failures in a row that are tolerated.
    pub max_consecutive_failures: u32,
    /// Wait before asking again for a range that the server ignored.
    pub range_confirm_delay: u64,
    /// Time between two range probes during a single stream.
    pub upgrade_probe_interval: u64,
}

/// An interval, but at least so many milliseconds.
pub open spec fn paused_for(interval: u64, least: int) -> int {
    if interval < least * MILLISECOND {
        least * MILLISECOND
    } else {
        interval as int
    }
}

/// The tunables that are used unless set.
pub open spec fn default_options() -> DownloadOptions {
    DownloadOptions {
        piece_size: DEFAULT_PIECE_SIZE,
        min_connections: 1,
        initial_connections: 4,
        max_connections: 8,
        stall_timeout: 20_000_000_000,
        commit_interval: 2_000_000_000,
        progress_interval: 250_000_000,
        grow_after_successes: 8,
        max_consecutive_failures: 20,
        range_confirm_delay: 1_500_000_000,
        upgrade_probe_interval: 10_000_000_000,
    }
}

impl Default for DownloadOptions {
    fn default() -> (options: DownloadOptions)
        ensures
            options == default_options(),
            options.usable(),
    {
        DownloadOptions {
            piece_size: DEFAULT_PIECE_SIZE,
            min_connections: 1,
            initial_connections: 4,
            max_connections: 8,
            stall_timeout: 20 * SECOND,
            commit_interval: 2 * SECOND,
            progress_interval: 250 * MILLISECOND,
            grow_after_successes: 8,
            max_consecutive_failures: 20,
            range_confirm_delay: 1500 * MILLISECOND,
            upgrade_probe_interval: 10 * SECOND,
        }
    }
}

impl DownloadOptions {
    pub open spec fn usable(self) -> bool {
        &&& self.piece_size > 0
        &&& self.min_connections > 0
        &&& self.max_connections >= self.min_connections
    }

    /// Outcome of validation, with the message of the first fault.
    pub open spec fn validation(self) -> Result<(), Seq<char>> {
        if self.piece_size == 0 {
            Err("piece_size must be positive"@)
        } else if self.min_connections == 0 {
            Err("min_connections must be >= 1"@)
        } else if self.max_connections < self.min_connections {
            Err("max_connections must be >= min_connections"@)
        } else {
            Ok(())
        }
    }

    /// The allowed connection counts.
    #[must_use]
    pub fn connections(&self) -> (range: RangeInclusive<usize>)
        ensures
            range@.start == self.min_connections,
            range@.end == self.max_connections,
            !range@.exhausted,
    {
        RangeInclusive::new(self.min_connections, self.max_connections)
    }

    pub fn validate(&self) -> (result: Result<(), DownloadError>)
        ensures
            match self.validation() {
                Ok(_) => result is Ok,
                Err(text) => result matches Err(DownloadError::InvalidConfig(found)) && found@
                    == text,
            },
            result is Ok <==> self.usable(),
    {
        if self.piece_size == 0 {
            return Err(DownloadError::InvalidConfig("piece_size must be positive".to_owned()));
        }
        if self.min_connections == 0 {
            return Err(DownloadError::InvalidConfig("min_connections must be >= 1".to_owned()));
        }
        if self.max_connections < self.min_connections {
            return Err(
                DownloadError::InvalidConfig(
                    "max_connections must be >= min_connections".to_owned(),
                ),
            );
        }
        Ok(())
    }

    /// Time between two updates of the control file, as far as it may be set.
    pub open spec fn commit_pause_of(self) -> int {
        paused_for(self.commit_interval, 100)
    }

    /// Time between two snapshots, as far as it may be set.
    pub open spec fn progress_pause_of(self) -> int {
        paused_for(self.progress_interval, 50)
    }

    /// Time between two updates of the control file: at most ten a second.
    pub fn commit_pause(&self) -> (pause: u64)
        ensures
            pause == self.commit_pause_of(),
    {
        let least: u64 = 100 * MILLISECOND;
        if self.commit_interval < least {
            least
        } else {
            self.commit_interval
        }
    }

    /// Time between two progress snapshots: at most twenty a second.
    pub fn progress_pause(&self) -> (pause: u64)
        ensures
            pause == self.progress_pause_of(),
    {
        let least: u64 = 50 * MILLISECOND;
        if self.progress_interval < least {
            least
        } else {
            self.progress_interval
        }
    }

    /// The connection count to start with.
    pub fn clamped_initial(&self) -> (initial: usize)
        requires
            self.min_connections <= self.max_connections,
        ensures
            initial == clamped(
                self.initial_connections as int,
                self.min_connections as int,
                self.max_connections as int,
            ),
    {
        if self.initial_connections < self.min_connections {
            self.min_connections
        } else if self.initial_connections > self.max_connections {
            self.max_connections
        } else {
            self.initial_connections
        }
    }
}

/// How a download ended.
#[derive(Clone, Copy, Debug, PartialEq, Eq, Structural)]
pub enum Outcome {
    /// The target is complete and the control file is gone.
    Completed,
    /// Cancelled; progress is on disk and can be resumed.
    Cancelled,
}

/// Options are usable exactly if pieces have a length and at least one
/// connection is allowed, no fewer at most than at least.
pub proof fn usable_options(options: DownloadOptions)
    ensures
        options.validation() is Ok <==> 1 <= options.piece_size && 1 <= options.min_connections
            <= options.max_connections,
        options.usable() <==> options.validation() is Ok,
{
}

/// Times are counted in nanoseconds, and a piece is 4 MiB unless told
/// otherwise.
pub proof fn units()
    ensures
        SECOND == 1_000_000_000,
        1000 * MILLISECOND == SECOND,
        DEFAULT_PIECE_SIZE == 4_194_304,
{
}

/// Intervals are kept unless they are too short: a tenth of a second between
/// commits and a twentieth between snapshots are the least.
pub proof fn intervals_have_a_least(options: DownloadOptions)
    ensures
        options.commit_interval >= 100_000_000 ==> options.commit_pause_of()
            == options.commit_interval,
        options.commit_interval < 100_000_000 ==> options.commit_pause_of() == 100_000_000,
        options.progress_interval >= 50_000_000 ==> options.progress_pause_of()
            == options.progress_interval,
        options.progress_interval < 50_000_000 ==> options.progress_pause_of() == 50_000_000,
{
}

/// Unless set, a download uses one to eight connections and starts with four,
/// fetches pieces of four mebibytes, commits every two seconds, shows progress
/// four times a second, drops a connection after twenty seconds without bytes
/// and gives up after twenty failures in a row.
pub proof fn defaults_are_moderate()
    ensures
        default_options().piece_size == 4 * 1024 * 1024,
        default_options().min_connections == 1,
        default_options().initial_connections == 4,
        default_options().max_connections == 8,
        default_options().stall_timeout == 20 * 1_000_000_000,
        default_options().commit_interval == 2 * 1_000_000_000,
        4 * default_options().progress_interval == 1_000_000_000,
        default_options().grow_after_successes == 8,
        default_options().max_consecutive_failures == 20,
        2 * default_options().range_confirm_delay == 3 * 1_000_000_000,
        default_options().upgrade_probe_interval == 10 * 1_000_000_000,
{
}

} // verus!
