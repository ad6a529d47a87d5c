//! Backups that appear under their name only once they are complete.
//!
//! The content is produced under a temporary name beside the target and
//! renamed at the end. An existing target is never replaced.

use vstd::prelude::*;
use vstd::string::*;

use super::common::BackupResult;
use crate::host::{IoFailure, Presence};
use crate::text::concat::{cat2, cat4};

verus! {

/// What is backed up.
#[derive(Clone, Copy, Debug, PartialEq, Eq, Structural)]
pub enum StagedKind {
    /// The database, while it is in use.
    HotDatabase,
    /// The database file, after the connection was closed.
    ColdDatabase,
    /// The custom covers, collected in a scratch directory.
    Covers,
}

impl StagedKind {
    pub open spec fn exists_text(self, path: Seq<char>) -> Seq<char> {
        match self {
            StagedKind::Covers => "备份文件已存在，拒绝覆盖: "@ + path,
            _ => "数据库备份文件已存在，拒绝覆盖: "@ + path,
        }
    }

    pub open spec fn look_text(self, path: Seq<char>, failure: Seq<char>) -> Seq<char> {
        match self {
            StagedKind::Covers => "检查封面备份目标失败 "@ + path + ": "@ + failure,
            _ => "检查数据库备份目标失败 "@ + path + ": "@ + failure,
        }
    }

    pub open spec fn produce_text(self, failure: Seq<char>) -> Seq<char> {
        match self {
            StagedKind::HotDatabase => "VACUUM INTO 备份失败: "@ + failure,
            StagedKind::ColdDatabase => "数据库冷备份失败: "@ + failure,
            StagedKind::Covers => "压缩自定义封面失败: "@ + failure,
        }
    }

    pub open spec fn commit_text(self, failure: Seq<char>) -> Seq<char> {
        match self {
            StagedKind::HotDatabase => "提交数据库备份失败: "@ + failure,
            StagedKind::ColdDatabase => "提交数据库冷备份失败: "@ + failure,
            StagedKind::Covers => "提交自定义封面备份失败: "@ + failure,
        }
    }

    pub open spec fn success_text(self) -> Seq<char> {
        match self {
            StagedKind::Covers => "自定义封面备份成功"@,
            _ => "数据库备份成功"@,
        }
    }

    /// A scratch directory has to be removed at the end.
    pub open spec fn scratch(self) -> bool {
        self == StagedKind::Covers
    }

    fn exists_message(self, path: &str) -> (text: String)
        ensures
            text@ == self.exists_text(path@),
    {
        match self {
            StagedKind::Covers => cat2("备份文件已存在，拒绝覆盖: ", path),
            _ => cat2("数据库备份文件已存在，拒绝覆盖: ", path),
        }
    }

    fn look_message(self, path: &str, failure: &str) -> (text: String)
        ensures
            text@ == self.look_text(path@, failure@),
    {
        match self {
            StagedKind::Covers => cat4("检查封面备份目标失败 ", path, ": ", failure),
            _ => cat4("检查数据库备份目标失败 ", path, ": ", failure),
        }
    }

    fn produce_message(self, failure: &str) -> (text: String)
        ensures
            text@ == self.produce_text(failure@),
    {
        match self {
            StagedKind::HotDatabase => cat2("VACUUM INTO 备份失败: ", failure),
            StagedKind::ColdDatabase => cat2("数据库冷备份失败: ", failure),
            StagedKind::Covers => cat2("压缩自定义封面失败: ", failure),
        }
    }

    fn commit_message(self, failure: &str) -> (text: String)
        ensures
            text@ == self.commit_text(failure@),
    {
        match self {
            StagedKind::HotDatabase => cat2("提交数据库备份失败: ", failure),
            StagedKind::ColdDatabase => cat2("提交数据库冷备份失败: ", failure),
            StagedKind::Covers => cat2("提交自定义封面备份失败: ", failure),
        }
    }

    fn success_message(self) -> (text: String)
        ensures
            text@ == self.success_text(),
    {
        match self {
            StagedKind::Covers => "自定义封面备份成功".to_owned(),
            _ => "数据库备份成功".to_owned(),
        }
    }

    fn has_scratch(self) -> (found: bool)
        ensures
            found == self.scratch(),
    {
        match self {
            StagedKind::Covers => true,
            _ => false,
        }
    }
}

/// Refuses a target that exists, or that cannot be looked at.
pub fn ensure_target_absent(kind: StagedKind, target: &str, seen: &Presence) -> (result: Result<
    (),
    String,
>)
    ensures
        match *seen {
            Presence::Absent => result is Ok,
            Presence::Present => result matches Err(text) && text@ == kind.exists_text(target@),
            Presence::Failed(failure) => result matches Err(text) && text@ == kind.look_text(
                target@,
                failure.text@,
            ),
        },
{
    match seen {
        Presence::Absent => Ok(()),
        Presence::Present => Err(kind.exists_message(target)),
        Presence::Failed(failure) => Err(kind.look_message(target, failure.text.as_str())),
    }
}

/// What a staged backup waits for, or how it ended.
#[derive(Clone, Copy, Debug, PartialEq, Eq, Structural)]
pub enum StagedStage {
    Looking,
    Naming,
    Producing,
    Rechecking,
    Renaming,
    /// Removing the temporary file.
    Dropping,
    /// Removing the scratch directory of a failed backup.
    Clearing,
    /// Removing the scratch directory of a backup that worked.
    ClearingDone,
    Succeeded,
    Failed,
}

/// The changes of stage that a staged backup makes.
pub open spec fn staged_edge(scratch: bool, from: StagedStage, to: StagedStage) -> bool {
    let ended = if scratch {
        to == StagedStage::Clearing
    } else {
        to == StagedStage::Failed
    };
    match from {
        StagedStage::Looking => to == StagedStage::Naming || ended,
        StagedStage::Naming => to == StagedStage::Producing || ended,
        StagedStage::Producing => to == StagedStage::Rechecking || to == StagedStage::Dropping,
        StagedStage::Rechecking => to == StagedStage::Renaming || to == StagedStage::Dropping,
        StagedStage::Renaming => to == StagedStage::Dropping || if scratch {
            to == StagedStage::ClearingDone
        } else {
            to == StagedStage::Succeeded
        },
        StagedStage::Dropping => ended,
        StagedStage::Clearing => scratch && to == StagedStage::Failed,
        StagedStage::ClearingDone => scratch && to == StagedStage::Succeeded,
        StagedStage::Succeeded => false,
        StagedStage::Failed => false,
    }
}

/// A history of stages.
pub open spec fn staged_history(scratch: bool, stages: Seq<StagedStage>) -> bool {
    &&& stages.len() > 0
    &&& stages[0] == StagedStage::Looking
    &&& forall|i: int|
        0 < i < stages.len() ==> staged_edge(scratch, #[trigger] stages[i - 1], stages[i])
}

/// The target is renamed into place only right after it was seen to be
/// absent for the second time.
pub proof fn rename_follows_second_look(scratch: bool, stages: Seq<StagedStage>, at: int)
    requires
        staged_history(scratch, stages),
        0 <= at < stages.len(),
        stages[at] == StagedStage::Renaming,
    ensures
        at >= 4,
        stages[at - 1] == StagedStage::Rechecking,
        stages[at - 2] == StagedStage::Producing,
        stages[at - 3] == StagedStage::Naming,
        stages[at - 4] == StagedStage::Looking,
{
    assert(at >= 1);
    assert(staged_edge(scratch, stages[at - 1], stages[at]));
    assert(at >= 2);
    assert(staged_edge(scratch, stages[(at - 1) - 1], stages[at - 1]));
    assert(at >= 3);
    assert(staged_edge(scratch, stages[(at - 2) - 1], stages[at - 2]));
    assert(at >= 4);
    assert(staged_edge(scratch, stages[(at - 3) - 1], stages[at - 3]));
}

/// A backup that fails after content was produced has removed the temporary
/// file.
pub proof fn failure_leaves_no_temporary(scratch: bool, stages: Seq<StagedStage>, at: int)
    requires
        staged_history(scratch, stages),
        stages.last() == StagedStage::Failed,
        0 <= at < stages.len(),
        stages[at] == StagedStage::Producing,
    ensures
        exists|k: int| at < k < stages.len() && #[trigger] stages[k] == StagedStage::Dropping,
{
    let n = stages.len() as int;
    assert(at < n - 1);
    assert(staged_edge(scratch, stages[(at + 1) - 1], stages[at + 1]));
    if stages[at + 1] != StagedStage::Dropping {
        assert(at + 1 < n - 1);
        assert(staged_edge(scratch, stages[(at + 2) - 1], stages[at + 2]));
        if stages[at + 2] != StagedStage::Dropping {
            assert(stages[at + 2] == StagedStage::Renaming);
            assert(at + 2 < n - 1);
            assert(staged_edge(scratch, stages[(at + 3) - 1], stages[at + 3]));
            if stages[at + 3] != StagedStage::Dropping {
                if at + 3 < n - 1 {
                    assert(staged_edge(scratch, stages[(at + 4) - 1], stages[at + 4]));
                    if at + 4 < n - 1 {
                        assert(staged_edge(scratch, stages[(at + 5) - 1], stages[at + 5]));
                    }
                }
            }
        }
    }
}

/// With a scratch directory, every ended backup has removed it.
pub proof fn scratch_is_always_cleared(stages: Seq<StagedStage>)
    requires
        staged_history(true, stages),
        stages.last() == StagedStage::Succeeded || stages.last() == StagedStage::Failed,
    ensures
        stages.len() >= 2,
        stages[stages.len() - 2] == if stages.last() == StagedStage::Failed {
            StagedStage::Clearing
        } else {
            StagedStage::ClearingDone
        },
{
    let n = stages.len() as int;
    assert(n >= 2);
    assert(staged_edge(true, stages[(n - 1) - 1], stages[n - 1]));
}

/// What the host does next.
#[derive(Debug)]
pub enum StagedAction {
    /// Look at the target without following links.
    LookAtTarget,
    /// Pick a temporary name beside the target.
    PickName,
    /// Produce the content under the temporary name.
    Produce,
    /// Rename the temporary file onto the target.
    Rename,
    /// Remove the temporary file, whether or not that works.
    DropTemporary,
    /// Remove the scratch directory, whether or not that works.
    ClearScratch,
    Finish(Result<BackupResult, String>),
}

/// A backup under way.
pub struct StagedBackup {
    pub kind: StagedKind,
    /// The target as shown to users.
    pub target: String,
    pub stage: StagedStage,
    /// The message to fail with.
    pub failure: Option<String>,
}

/// The result of a backup that worked.
pub open spec fn is_success(kind: StagedKind, target: Seq<char>, result: BackupResult) -> bool {
    &&& result.success
    &&& result.path matches Some(path) && path@ == target
    &&& result.message@ == kind.success_text()
}

impl StagedBackup {
    pub open spec fn wf(self) -> bool {
        match self.stage {
            StagedStage::Dropping => self.failure is Some,
            StagedStage::Clearing => self.kind.scratch() && self.failure is Some,
            StagedStage::ClearingDone => self.kind.scratch(),
            _ => true,
        }
    }

    /// The step of a backup that gives up with this message; the temporary
    /// file is dropped first if it may exist, then the scratch directory.
    pub open spec fn gives_up(
        self,
        after: StagedBackup,
        action: StagedAction,
        message: Seq<char>,
        temporary: bool,
    ) -> bool {
        &&& after.kind == self.kind
        &&& after.target == self.target
        &&& if temporary {
            &&& after.stage == StagedStage::Dropping
            &&& action == StagedAction::DropTemporary
            &&& after.failure matches Some(text) && text@ == message
        } else if self.kind.scratch() {
            &&& after.stage == StagedStage::Clearing
            &&& action == StagedAction::ClearScratch
            &&& after.failure matches Some(text) && text@ == message
        } else {
            &&& after.stage == StagedStage::Failed
            &&& action matches StagedAction::Finish(Err(text)) && text@ == message
        }
    }

    fn give_up(&mut self, message: String, temporary: bool) -> (action: StagedAction)
        ensures
            *final(self) == (StagedBackup {
                stage: final(self).stage,
                failure: final(self).failure,
                ..*old(self)
            }),
            old(self).gives_up(*final(self), action, message@, temporary),
            final(self).wf(),
    {
        if temporary {
            self.failure = Some(message);
            self.stage = StagedStage::Dropping;
            StagedAction::DropTemporary
        } else if self.kind.has_scratch() {
            self.failure = Some(message);
            self.stage = StagedStage::Clearing;
            StagedAction::ClearScratch
        } else {
            self.stage = StagedStage::Failed;
            StagedAction::Finish(Err(message))
        }
    }

    pub fn new(kind: StagedKind, target: String) -> (backup: StagedBackup)
        ensures
            backup.wf(),
            backup == (StagedBackup { kind, target, stage: StagedStage::Looking, failure: None }),
    {
        StagedBackup { kind, target, stage: StagedStage::Looking, failure: None }
    }

    /// The target was looked at: before anything is produced, or once more
    /// before the rename.
    pub fn on_target(&mut self, seen: Presence) -> (action: StagedAction)
        requires
            old(self).wf(),
            old(self).stage == StagedStage::Looking || old(self).stage == StagedStage::Rechecking,
        ensures
            *final(self) == (StagedBackup {
                stage: final(self).stage,
                failure: final(self).failure,
                ..*old(self)
            }),
            final(self).wf(),
            staged_edge(old(self).kind.scratch(), old(self).stage, final(self).stage),
            ({
                let again = old(self).stage == StagedStage::Rechecking;
                match seen {
                    Presence::Absent => {
                        &&& *final(self) == (StagedBackup {
                            stage: if again {
                                StagedStage::Renaming
                            } else {
                                StagedStage::Naming
                            },
                            ..*old(self)
                        })
                        &&& action == if again {
                            StagedAction::Rename
                        } else {
                            StagedAction::PickName
                        }
                    },
                    Presence::Present => old(self).gives_up(
                        *final(self),
                        action,
                        old(self).kind.exists_text(old(self).target@),
                        again,
                    ),
                    Presence::Failed(failure) => old(self).gives_up(
                        *final(self),
                        action,
                        old(self).kind.look_text(old(self).target@, failure.text@),
                        again,
                    ),
                }
            }),
    {
        let again: bool = match self.stage {
            StagedStage::Rechecking => true,
            _ => false,
        };
        match ensure_target_absent(self.kind, self.target.as_str(), &seen) {
            Err(message) => self.give_up(message, again),
            Ok(_) => {
                if again {
                    self.stage = StagedStage::Renaming;
                    StagedAction::Rename
                } else {
                    self.stage = StagedStage::Naming;
                    StagedAction::PickName
                }
            },
        }
    }

    /// A temporary name was picked, or not.
    pub fn on_named(&mut self, result: Result<(), String>) -> (action: StagedAction)
        requires
            old(self).wf(),
            old(self).stage == StagedStage::Naming,
        ensures
            *final(self) == (StagedBackup {
                stage: final(self).stage,
                failure: final(self).failure,
                ..*old(self)
            }),
            final(self).wf(),
            staged_edge(old(self).kind.scratch(), old(self).stage, final(self).stage),
            match result {
                Ok(_) => *final(self) == (StagedBackup {
                    stage: StagedStage::Producing,
                    ..*old(self)
                }) && action == StagedAction::Produce,
                Err(message) => old(self).gives_up(*final(self), action, message@, false),
            },
    {
        match result {
            Ok(_) => {
                self.stage = StagedStage::Producing;
                StagedAction::Produce
            },
            Err(message) => self.give_up(message, false),
        }
    }

    /// The content was produced, or not. A failure may have left a part.
    pub fn on_produced(&mut self, result: Result<(), String>) -> (action: StagedAction)
        requires
            old(self).wf(),
            old(self).stage == StagedStage::Producing,
        ensures
            *final(self) == (StagedBackup {
                stage: final(self).stage,
                failure: final(self).failure,
                ..*old(self)
            }),
            final(self).wf(),
            staged_edge(old(self).kind.scratch(), old(self).stage, final(self).stage),
            match result {
                Ok(_) => *final(self) == (StagedBackup {
                    stage: StagedStage::Rechecking,
                    ..*old(self)
                }) && action == StagedAction::LookAtTarget,
                Err(text) => old(self).gives_up(
                    *final(self),
                    action,
                    old(self).kind.produce_text(text@),
                    true,
                ),
            },
    {
        match result {
            Ok(_) => {
                self.stage = StagedStage::Rechecking;
                StagedAction::LookAtTarget
            },
            Err(text) => {
                let message: String = self.kind.produce_message(text.as_str());
                self.give_up(message, true)
            },
        }
    }

    /// The rename worked, or not.
    pub fn on_renamed(&mut self, result: Result<(), IoFailure>) -> (action: StagedAction)
        requires
            old(self).wf(),
            old(self).stage == StagedStage::Renaming,
        ensures
            *final(self) == (StagedBackup {
                stage: final(self).stage,
                failure: final(self).failure,
                ..*old(self)
            }),
            final(self).wf(),
            staged_edge(old(self).kind.scratch(), old(self).stage, final(self).stage),
            match result {
                Ok(_) => {
                    &&& if old(self).kind.scratch() {
                        &&& final(self).stage == StagedStage::ClearingDone
                        &&& action == StagedAction::ClearScratch
                    } else {
                        &&& final(self).stage == StagedStage::Succeeded
                        &&& action matches StagedAction::Finish(Ok(done)) && is_success(
                            old(self).kind,
                            old(self).target@,
                            done,
                        )
                    }
                },
                Err(failure) => old(self).gives_up(
                    *final(self),
                    action,
                    old(self).kind.commit_text(failure.text@),
                    true,
                ),
            },
    {
        match result {
            Ok(_) => {
                if self.kind.has_scratch() {
                    self.stage = StagedStage::ClearingDone;
                    StagedAction::ClearScratch
                } else {
                    self.stage = StagedStage::Succeeded;
                    StagedAction::Finish(Ok(self.success()))
                }
            },
            Err(failure) => {
                let message: String = self.kind.commit_message(failure.text.as_str());
                self.give_up(message, true)
            },
        }
    }

    fn success(&self) -> (result: BackupResult)
        ensures
            is_success(self.kind, self.target@, result),
    {
        BackupResult {
            success: true,
            path: Some(self.target.clone()),
            message: self.kind.success_message(),
        }
    }

    /// The temporary file was dropped.
    pub fn on_dropped(&mut self) -> (action: StagedAction)
        requires
            old(self).wf(),
            old(self).stage == StagedStage::Dropping,
        ensures
            *final(self) == (StagedBackup {
                stage: final(self).stage,
                failure: final(self).failure,
                ..*old(self)
            }),
            final(self).wf(),
            staged_edge(old(self).kind.scratch(), old(self).stage, final(self).stage),
            old(self).gives_up(*final(self), action, old(self).failure->Some_0@, false),
    {
        match self.failure.take() {
            Some(message) => self.give_up(message, false),
            None => self.give_up(String::new(), false),
        }
    }

    /// The scratch directory was cleared.
    pub fn on_cleared(&mut self) -> (action: StagedAction)
        requires
            old(self).wf(),
            old(self).stage == StagedStage::Clearing || old(self).stage
                == StagedStage::ClearingDone,
        ensures
            *final(self) == (StagedBackup {
                stage: final(self).stage,
                failure: final(self).failure,
                ..*old(self)
            }),
            final(self).wf(),
            staged_edge(old(self).kind.scratch(), old(self).stage, final(self).stage),
            if old(self).stage == StagedStage::Clearing {
                final(self).stage == StagedStage::Failed && action == StagedAction::Finish(
                    Err(old(self).failure->Some_0),
                )
            } else {
                final(self).stage == StagedStage::Succeeded && (action matches
                    StagedAction::Finish(Ok(done)) && is_success(
                    old(self).kind,
                    old(self).target@,
                    done,
                ))
            },
    {
        match self.stage {
            StagedStage::Clearing => {
                self.stage = StagedStage::Failed;
                match self.failure.take() {
                    Some(message) => StagedAction::Finish(Err(message)),
                    None => StagedAction::Finish(Err(String::new())),
                }
            },
            _ => {
                self.stage = StagedStage::Succeeded;
                StagedAction::Finish(Ok(self.success()))
            },
        }
    }
}

/// A backup that gives up carries its message to the end. What it may have
/// written is dropped first, then a scratch directory.
pub proof fn giving_up_tidies_first(
    backup: StagedBackup,
    after: StagedBackup,
    action: StagedAction,
    message: Seq<char>,
    temporary: bool,
)
    requires
        backup.gives_up(after, action, message, temporary),
    ensures
        action == StagedAction::DropTemporary <==> temporary,
        action == StagedAction::ClearScratch <==> !temporary && backup.kind == StagedKind::Covers,
        action is Finish <==> !temporary && backup.kind != StagedKind::Covers,
        action is Finish ==> (action matches StagedAction::Finish(Err(text)) && text@ == message),
        !(action is Finish) ==> (after.failure matches Some(text) && text@ == message),
        after.target == backup.target,
{
}

/// A success names the target that was written.
pub proof fn successes_name_their_target(
    kind: StagedKind,
    target: Seq<char>,
    result: BackupResult,
)
    requires
        is_success(kind, target, result),
    ensures
        result.success,
        result.path is Some,
        result.path->Some_0@ == target,
{
}

/// Messages about a target end with it, those about a failure with the
/// failure, and what was backed up can be told by them.
pub proof fn messages_name_what_failed(kind: StagedKind, path: Seq<char>, failure: Seq<char>)
    ensures
        path.is_suffix_of(kind.exists_text(path)),
        failure.is_suffix_of(kind.look_text(path, failure)),
        failure.is_suffix_of(kind.produce_text(failure)),
        failure.is_suffix_of(kind.commit_text(failure)),
        (kind.success_text() == "自定义封面备份成功"@) <==> kind == StagedKind::Covers,
        (kind.success_text() == "数据库备份成功"@) <==> kind != StagedKind::Covers,
{
    reveal_strlit("自定义封面备份成功");
    reveal_strlit("数据库备份成功");
    let exists_text = kind.exists_text(path);
    assert(path =~= exists_text.subrange(exists_text.len() - path.len(), exists_text.len() as int));
    let look = kind.look_text(path, failure);
    assert(failure =~= look.subrange(look.len() - failure.len(), look.len() as int));
    let produce = kind.produce_text(failure);
    assert(failure =~= produce.subrange(produce.len() - failure.len(), produce.len() as int));
    let commit = kind.commit_text(failure);
    assert(failure =~= commit.subrange(commit.len() - failure.len(), commit.len() as int));
    assert("自定义封面备份成功"@.len() != "数据库备份成功"@.len());
}

} // verus!
