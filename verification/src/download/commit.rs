//! One periodic commit: the slots are read first, then the data is flushed,
//! then the record is written, and only then it is shown.

use vstd::prelude::*;

use super::control::{total, ControlFile};
use super::error::DownloadError;
use super::progress::Shared;
use super::session::commit_record;

verus! {

/// What a commit waits for, or how it ended.
#[derive(Clone, Copy, Debug, PartialEq, Eq, Structural)]
pub enum CommitStage {
    /// The slots were read; the data is being flushed.
    Flushing,
    /// The record is being written.
    Writing,
    /// The record is on disk and shown.
    Shown,
    Failed,
}

/// The stages that may follow one another.
pub open spec fn commit_edge(from: CommitStage, to: CommitStage) -> bool {
    match from {
        CommitStage::Flushing => to == CommitStage::Writing || to == CommitStage::Failed,
        CommitStage::Writing => to == CommitStage::Shown || to == CommitStage::Failed,
        CommitStage::Shown => false,
        CommitStage::Failed => false,
    }
}

/// A history of stages from the reading of the slots on.
pub open spec fn commit_history(stages: Seq<CommitStage>) -> bool {
    &&& stages.len() > 0
    &&& stages[0] == CommitStage::Flushing
    &&& forall|i: int| 0 < i < stages.len() ==> commit_edge(#[trigger] stages[i - 1], stages[i])
}

/// A record is shown only after it was written, and written only after the
/// data that it claims was flushed.
pub proof fn shown_means_flushed_and_written(stages: Seq<CommitStage>)
    requires
        commit_history(stages),
        stages.last() == CommitStage::Shown,
    ensures
        stages =~= seq![CommitStage::Flushing, CommitStage::Writing, CommitStage::Shown],
{
    let n = stages.len() as int;
    assert(n >= 2);
    assert(commit_edge(stages[(n - 1) - 1], stages[n - 1]));
    assert(n >= 3);
    assert(commit_edge(stages[(n - 2) - 1], stages[n - 2]));
    if n > 3 {
        assert(commit_edge(stages[(n - 3) - 1], stages[n - 3]));
    }
}

/// What the host does next.
#[derive(Debug)]
pub enum CommitAction {
    /// Flush the data of the target.
    SyncData,
    /// Replace the control file by the record.
    SaveControl,
    /// The commit is over.
    Finish(Result<(), DownloadError>),
}

/// A commit under way.
#[derive(Debug)]
pub struct PeriodicCommit {
    pub stage: CommitStage,
    /// The control file to write.
    pub record: ControlFile,
    /// What the slots in it add up to.
    pub recorded: u64,
}

impl PeriodicCommit {
    /// Starts from the slots as they are now; the data is flushed next.
    pub fn begin(template: &ControlFile, snapshot: Vec<u64>) -> (started: (
        PeriodicCommit,
        CommitAction,
    ))
        requires
            total(snapshot@) <= u64::MAX,
        ensures
            started.0 == (PeriodicCommit {
                stage: CommitStage::Flushing,
                record: (ControlFile { pieces: snapshot, ..*template }),
                recorded: total(snapshot@) as u64,
            }),
            started.1 == CommitAction::SyncData,
    {
        let (record, recorded) = commit_record(template, snapshot);
        (PeriodicCommit { stage: CommitStage::Flushing, record, recorded }, CommitAction::SyncData)
    }

    /// The data was flushed, or not.
    pub fn on_synced(&mut self, result: Result<(), DownloadError>) -> (action: CommitAction)
        requires
            old(self).stage == CommitStage::Flushing,
        ensures
            commit_edge(old(self).stage, final(self).stage),
            match result {
                Ok(_) => *final(self) == (PeriodicCommit {
                    stage: CommitStage::Writing,
                    ..*old(self)
                }) && action == CommitAction::SaveControl,
                Err(error) => *final(self) == (PeriodicCommit {
                    stage: CommitStage::Failed,
                    ..*old(self)
                }) && action == CommitAction::Finish(Err(error)),
            },
    {
        match result {
            Ok(_) => {
                self.stage = CommitStage::Writing;
                CommitAction::SaveControl
            },
            Err(error) => {
                self.stage = CommitStage::Failed;
                CommitAction::Finish(Err(error))
            },
        }
    }

    /// The record was written, or not. What it claims is shown from now on.
    pub fn on_saved(&mut self, result: Result<(), DownloadError>, shared: &mut Shared) -> (action:
        CommitAction)
        requires
            old(self).stage == CommitStage::Writing,
        ensures
            commit_edge(old(self).stage, final(self).stage),
            match result {
                Ok(_) => {
                    &&& *final(self) == (PeriodicCommit {
                        stage: CommitStage::Shown,
                        ..*old(self)
                    })
                    &&& *final(shared) == (Shared {
                        committed: old(self).recorded,
                        ..*old(shared)
                    })
                    &&& action matches CommitAction::Finish(Ok(_))
                },
                Err(error) => {
                    &&& *final(self) == (PeriodicCommit {
                        stage: CommitStage::Failed,
                        ..*old(self)
                    })
                    &&& *final(shared) == *old(shared)
                    &&& action == CommitAction::Finish(Err(error))
                },
            },
    {
        match result {
            Ok(_) => {
                self.stage = CommitStage::Shown;
                shared.set_committed(self.recorded);
                CommitAction::Finish(Ok(()))
            },
            Err(error) => {
                self.stage = CommitStage::Failed;
                CommitAction::Finish(Err(error))
            },
        }
    }
}

} // verus!
