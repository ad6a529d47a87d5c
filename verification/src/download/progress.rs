//! Progress snapshots. The transfer speed is measured by the host.

use vstd::prelude::*;

verus! {

/// Where a download stands.
#[derive(Clone, Copy, Debug, PartialEq, Eq, Structural)]
pub enum Phase {
    /// The first range request is out.
    Probing,
    /// Pieces are fetched over several connections.
    Downloading,
    /// The server ignores ranges; one stream carries everything.
    SingleStream,
    /// The target is flushed and the control file removed.
    Finalizing,
    Done,
    /// Paused or cancelled.
    Cancelled,
}

impl Phase {
    /// Number of a phase in compact storage.
    pub open spec fn number(self) -> u8 {
        match self {
            Phase::Probing => 0,
            Phase::Downloading => 1,
            Phase::SingleStream => 2,
            Phase::Finalizing => 3,
            Phase::Done => 4,
            Phase::Cancelled => 5,
        }
    }

    pub fn as_u8(self) -> (value: u8)
        ensures
            value == self.number(),
    {
        match self {
            Phase::Probing => 0,
            Phase::Downloading => 1,
            Phase::SingleStream => 2,
            Phase::Finalizing => 3,
            Phase::Done => 4,
            Phase::Cancelled => 5,
        }
    }

    /// The phase with the given number; unknown numbers count as done.
    #[must_use]
    pub fn from_u8(value: u8) -> (phase: Phase)
        ensures
            value <= 5 ==> phase.number() == value,
            value > 5 ==> phase == Phase::Done,
    {
        match value {
            0 => Phase::Probing,
            1 => Phase::Downloading,
            2 => Phase::SingleStream,
            3 => Phase::Finalizing,
            5 => Phase::Cancelled,
            _ => Phase::Done,
        }
    }
}

/// Different phases have different numbers, so a stored phase reads back.
pub proof fn phase_numbers_distinct(left: Phase, right: Phase)
    ensures
        left.number() == right.number() ==> left == right,
        left.number() <= 5,
{
}

/// A snapshot of one download.
#[derive(Clone, Copy, Debug, PartialEq, Eq, Structural)]
pub struct Progress {
    pub phase: Phase,
    /// Control file, target and counters are set up.
    pub initialized: bool,
    /// Total size; zero until the probe is done.
    pub total: u64,
    /// Bytes on disk and recorded in the control file; they survive a crash.
    pub committed: u64,
    /// Bytes handed to the file system; never falls.
    pub written: u64,
    /// The current connection target.
    pub connections: usize,
    /// Attempts repeated so far.
    pub retries: u32,
}

impl Progress {
    /// The snapshot before anything happened.
    #[must_use]
    pub fn initial() -> (progress: Progress)
        ensures
            progress == (Progress {
                phase: Phase::Probing,
                initialized: false,
                total: 0,
                committed: 0,
                written: 0,
                connections: 0,
                retries: 0,
            }),
    {
        Progress {
            phase: Phase::Probing,
            initialized: false,
            total: 0,
            committed: 0,
            written: 0,
            connections: 0,
            retries: 0,
        }
    }
}

/// The counters behind the snapshots.
#[derive(Clone, Copy, Debug, PartialEq, Eq, Structural)]
pub struct Shared {
    pub phase: u8,
    pub initialized: bool,
    pub total: u64,
    /// The highest position so far: what is shown as written.
    pub written: u64,
    /// Bytes in the target that still count. Starting over sets it back.
    pub position: u64,
    pub committed: u64,
    pub connections: usize,
    pub retries: u32,
}

/// The greater of two counts.
pub open spec fn higher(left: u64, right: u64) -> u64 {
    if left < right {
        right
    } else {
        left
    }
}

/// Wherever the position moves, what is shown as written does not fall and is
/// not behind the position.
pub proof fn shown_bytes_never_fall(shared: Shared, position: u64)
    ensures
        shared.at(position).written >= shared.written,
        shared.at(position).written >= shared.at(position).position,
{
}

impl Shared {
    /// The counters with another position; what was shown does not fall.
    pub open spec fn at(self, position: u64) -> Shared {
        Shared { position, written: higher(self.written, position), ..self }
    }

    pub fn new() -> (shared: Shared)
        ensures
            shared == (Shared {
                phase: 0,
                initialized: false,
                total: 0,
                written: 0,
                position: 0,
                committed: 0,
                connections: 0,
                retries: 0,
            }),
    {
        Shared {
            phase: Phase::Probing.as_u8(),
            initialized: false,
            total: 0,
            written: 0,
            position: 0,
            committed: 0,
            connections: 0,
            retries: 0,
        }
    }

    pub fn set_phase(&mut self, phase: Phase)
        ensures
            *final(self) == (Shared { phase: phase.number(), ..*old(self) }),
    {
        self.phase = phase.as_u8();
    }

    /// The probe is done: the size is known.
    pub fn set_total(&mut self, total: u64)
        ensures
            *final(self) == (Shared { total, ..*old(self) }),
    {
        self.total = total;
    }

    pub fn mark_initialized(&mut self)
        ensures
            *final(self) == (Shared { initialized: true, ..*old(self) }),
    {
        self.initialized = true;
    }

    /// Moves the position.
    pub fn set_position(&mut self, position: u64)
        ensures
            *final(self) == old(self).at(position),
            final(self).written >= old(self).written,
    {
        self.position = position;
        if self.written < position {
            self.written = position;
        }
    }

    /// Position and record start from what the control file claims.
    pub fn start_from(&mut self, already: u64)
        ensures
            *final(self) == (Shared { committed: already, ..old(self).at(already) }),
            final(self).written >= old(self).written,
    {
        self.set_position(already);
        self.committed = already;
    }

    /// More bytes are in the target. The position wraps.
    pub fn count_written(&mut self, bytes: u64)
        ensures
            *final(self) == old(self).at(
                ((old(self).position + bytes) % 0x1_0000_0000_0000_0000) as u64,
            ),
            final(self).written >= old(self).written,
    {
        let position: u64 = self.position.wrapping_add(bytes);
        self.set_position(position);
    }

    /// So many connections are wanted.
    pub fn set_connections(&mut self, connections: usize)
        ensures
            *final(self) == (Shared { connections, ..*old(self) }),
    {
        self.connections = connections;
    }

    /// A record that claims so many bytes is on disk.
    pub fn set_committed(&mut self, committed: u64)
        ensures
            *final(self) == (Shared { committed, ..*old(self) }),
    {
        self.committed = committed;
    }

    /// One more attempt was repeated. The counter wraps.
    pub fn count_retry(&mut self)
        ensures
            *final(self) == (Shared {
                retries: ((old(self).retries + 1) % 0x1_0000_0000) as u32,
                ..*old(self)
            }),
    {
        self.retries = if self.retries == u32::MAX {
            0
        } else {
            self.retries + 1
        };
    }

    #[must_use]
    pub fn snapshot(&self) -> (progress: Progress)
        ensures
            self.phase <= 5 ==> progress.phase.number() == self.phase,
            self.phase > 5 ==> progress.phase == Phase::Done,
            progress.initialized == self.initialized,
            progress.total == self.total,
            progress.committed == self.committed,
            progress.written == self.written,
            progress.connections == self.connections,
            progress.retries == self.retries,
    {
        Progress {
            phase: Phase::from_u8(self.phase),
            initialized: self.initialized,
            total: self.total,
            committed: self.committed,
            written: self.written,
            connections: self.connections,
            retries: self.retries,
        }
    }
}

/// The position moves as it is told, and what is shown as written is the
/// highest position ever reached; nothing else changes.
pub proof fn shown_bytes_are_the_highest_position(shared: Shared, position: u64)
    ensures
        shared.at(position).position == position,
        position >= shared.written ==> shared.at(position).written == position,
        position < shared.written ==> shared.at(position).written == shared.written,
        shared.at(position).committed == shared.committed,
        shared.at(position).total == shared.total,
        shared.at(position).phase == shared.phase,
        shared.at(position).retries == shared.retries,
{
}

/// The numbers that phases are stored under.
pub proof fn phases_are_numbered_in_order()
    ensures
        Phase::Probing.number() == 0,
        Phase::Downloading.number() == 1,
        Phase::SingleStream.number() == 2,
        Phase::Finalizing.number() == 3,
        Phase::Done.number() == 4,
        Phase::Cancelled.number() == 5,
{
}

} // verus!
