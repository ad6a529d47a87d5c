//! File steps: positioned writes that may be short, and tolerant removal.

use vstd::prelude::*;

use crate::host::{IoFailure, IoKind};
use crate::text::concat::cat2;

verus! {

/// The name under which a file is written before it replaces `path`.
pub fn temp_path(path: &str) -> (temp: String)
    ensures
        temp@ == path@ + ".tmp"@,
{
    cat2(path, ".tmp")
}

/// What removing a file came to, where nothing has to be there.
pub open spec fn removal(result: Result<(), IoFailure>) -> Result<(), IoFailure> {
    match result {
        Ok(_) => Ok::<(), IoFailure>(()),
        Err(failure) => if failure.kind == IoKind::NotFound {
            Ok(())
        } else {
            Err(failure)
        },
    }
}

/// Removing a file that does not exist counts as success.
pub fn remove_if_exists(result: Result<(), IoFailure>) -> (judged: Result<(), IoFailure>)
    ensures
        judged == removal(result),
{
    match result {
        Ok(_) => Ok(()),
        Err(failure) => {
            if failure.kind == IoKind::NotFound {
                Ok(())
            } else {
                Err(failure)
            }
        },
    }
}

/// What one positioned write came to.
#[derive(Debug)]
pub enum WriteOutcome {
    Wrote(usize),
    Interrupted,
    Failed(IoFailure),
}

/// A buffer on its way to a fixed place in a file.
#[derive(Clone, Copy, Debug, PartialEq, Eq, Structural)]
pub struct PositionedWrite {
    pub offset: u64,
    pub len: usize,
    pub written: usize,
}

impl PositionedWrite {
    pub open spec fn wf(self) -> bool {
        self.written <= self.len && self.offset + self.len <= u64::MAX
    }

    pub fn new(offset: u64, len: usize) -> (write: PositionedWrite)
        requires
            offset + len <= u64::MAX,
        ensures
            write.wf(),
            write == (PositionedWrite { offset, len, written: 0 }),
    {
        PositionedWrite { offset, len, written: 0 }
    }

    /// The write goes on at this position, or is done.
    pub open spec fn continues_at(self, position: Option<u64>) -> bool {
        match position {
            Some(position) => self.written < self.len && position == self.offset
                + self.written,
            None => self.written == self.len,
        }
    }

    /// The file position of the next write, or nothing if all is written. The
    /// bytes to write are those from [`PositionedWrite::written`] on.
    pub fn next_position(&self) -> (position: Option<u64>)
        requires
            self.wf(),
        ensures
            self.continues_at(position),
    {
        if self.written < self.len {
            Some(self.offset + self.written as u64)
        } else {
            None
        }
    }

    /// What the outcome of a write comes to.
    pub open spec fn wrote(
        self,
        after: PositionedWrite,
        outcome: WriteOutcome,
        result: Result<(), IoFailure>,
    ) -> bool {
        match outcome {
            WriteOutcome::Wrote(count) => if count == 0 {
                &&& after == self
                &&& result matches Err(failure) && failure.text@
                    == "positioned write returned zero bytes"@ && failure.kind
                    == IoKind::Other
            } else {
                &&& after == (PositionedWrite {
                    written: (self.written + count) as usize,
                    ..self
                })
                &&& result is Ok
            },
            WriteOutcome::Interrupted => after == self && result is Ok,
            WriteOutcome::Failed(failure) => after == self && result == Err::<
                (),
                IoFailure,
            >(failure),
        }
    }

    /// Takes the outcome of a write. Short writes and interruptions go on;
    /// a write of nothing is a failure.
    pub fn on_write(&mut self, outcome: WriteOutcome) -> (result: Result<(), IoFailure>)
        requires
            old(self).wf(),
            old(self).written < old(self).len,
            outcome matches WriteOutcome::Wrote(count) ==> count <= old(self).len - old(
                self,
            ).written,
        ensures
            final(self).wf(),
            old(self).wrote(*final(self), outcome, result),
    {
        match outcome {
            WriteOutcome::Wrote(count) => {
                if count == 0 {
                    return Err(
                        IoFailure::new(
                            IoKind::Other,
                            "positioned write returned zero bytes".to_owned(),
                        ),
                    );
                }
                self.written = self.written + count;
                Ok(())
            },
            WriteOutcome::Interrupted => Ok(()),
            WriteOutcome::Failed(failure) => Err(failure),
        }
    }
}

/// Only a file that was not there in the first place may fail to be removed.
pub proof fn missing_files_count_as_removed(result: Result<(), IoFailure>)
    ensures
        removal(result) is Ok <==> result is Ok || result->Err_0.kind == IoKind::NotFound,
        removal(result) matches Err(failure) ==> result == Err::<(), IoFailure>(failure),
{
}

/// Writes follow one another without gap or overlap until everything is
/// written: each goes on right behind the bytes that went out, and an
/// interruption repeats it.
pub proof fn writes_leave_no_gap(
    write: PositionedWrite,
    after: PositionedWrite,
    outcome: WriteOutcome,
    result: Result<(), IoFailure>,
    position: Option<u64>,
)
    requires
        write.wf(),
        write.written < write.len,
        outcome matches WriteOutcome::Wrote(count) ==> count <= write.len - write.written,
        write.wrote(after, outcome, result),
        after.continues_at(position),
    ensures
        after.offset == write.offset && after.len == write.len,
        result is Ok <==> outcome is Interrupted || (outcome matches WriteOutcome::Wrote(count)
            && count > 0),
        outcome matches WriteOutcome::Wrote(count) ==> after.written == write.written + count,
        !(outcome is Wrote) ==> after == write,
        position is None <==> after.written == write.len,
        position matches Some(at) ==> at == write.offset + after.written,
{
}

} // verus!
