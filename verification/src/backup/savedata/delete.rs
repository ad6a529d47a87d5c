//! Deleting backups, one by one or beyond a game's limit.

use vstd::prelude::*;

use crate::host::{IoFailure, IoKind};
use crate::text::concat::{cat2, cat3, cat4, join, joined, option_view, views};
use crate::text::number::{signed_decimal, signed_decimal_text};

verus! {

#[derive(Clone, Copy, Debug, PartialEq, Eq, Structural)]
pub enum SavedataBackupDeleteStatus {
    Deleted,
    MissingFile,
    FileInaccessible,
}

/// What deleting one backup came to.
#[derive(Clone, Debug)]
pub struct SavedataBackupDeleteResult {
    pub status: SavedataBackupDeleteStatus,
    pub message: Option<String>,
}

/// Why the file of a backup was not deleted.
#[derive(Clone, Debug)]
pub enum BackupFileDeleteFailure {
    /// It is definitely not there.
    MissingFile,
    /// It may still be there.
    FileInaccessible(String),
}

/// What stands at the parent of a file that was not found.
#[derive(Clone, Debug)]
pub enum ParentLook {
    /// The path has no parent.
    NoParent,
    Directory,
    NotDirectory,
    Failed(String),
}

/// What a failed deletion says of the file, given what stands at its parent.
pub open spec fn classified(
    failure: IoFailure,
    parent: ParentLook,
    found: BackupFileDeleteFailure,
) -> bool {
    if failure.kind != IoKind::NotFound {
        found matches BackupFileDeleteFailure::FileInaccessible(text) && text@ == failure.text@
    } else {
        match parent {
            ParentLook::NoParent => found == BackupFileDeleteFailure::MissingFile,
            ParentLook::Directory => found == BackupFileDeleteFailure::MissingFile,
            ParentLook::NotDirectory => found matches BackupFileDeleteFailure::FileInaccessible(
                text,
            ) && text@ == "备份文件所在路径不是目录"@,
            ParentLook::Failed(error) => found matches
                BackupFileDeleteFailure::FileInaccessible(text) && text@
                == "无法访问备份文件所在目录: "@ + error@,
        }
    }
}

/// A file counts as missing only if its directory can be seen.
pub fn classify_backup_file_delete_error(failure: &IoFailure, parent: &ParentLook) -> (found:
    BackupFileDeleteFailure)
    ensures
        classified(*failure, *parent, found),
{
    if failure.kind != IoKind::NotFound {
        return BackupFileDeleteFailure::FileInaccessible(failure.text.clone());
    }
    match parent {
        ParentLook::NoParent | ParentLook::Directory => BackupFileDeleteFailure::MissingFile,
        ParentLook::NotDirectory => BackupFileDeleteFailure::FileInaccessible(
            "备份文件所在路径不是目录".to_owned(),
        ),
        ParentLook::Failed(error) => BackupFileDeleteFailure::FileInaccessible(
            cat2("无法访问备份文件所在目录: ", error.as_str()),
        ),
    }
}

pub open spec fn delete_failure_text(path: Seq<char>, failure: BackupFileDeleteFailure) -> Seq<char> {
    match failure {
        BackupFileDeleteFailure::MissingFile => "备份文件不存在: "@ + path + "，数据库记录未变更"@,
        BackupFileDeleteFailure::FileInaccessible(error) => "无法删除备份文件: "@ + path
            + "，文件可能仍然存在，数据库记录未变更: "@ + error@,
    }
}

/// Words a failed deletion for a list of errors.
pub fn format_backup_file_delete_failure(path: &str, failure: &BackupFileDeleteFailure) -> (text:
    String)
    ensures
        text@ == delete_failure_text(path@, *failure),
{
    match failure {
        BackupFileDeleteFailure::MissingFile => cat3(
            "备份文件不存在: ",
            path,
            "，数据库记录未变更",
        ),
        BackupFileDeleteFailure::FileInaccessible(error) => cat4(
            "无法删除备份文件: ",
            path,
            "，文件可能仍然存在，数据库记录未变更: ",
            error.as_str(),
        ),
    }
}

/// The result of a deletion whose file was not deleted.
pub fn backup_file_delete_result(path: &str, failure: &BackupFileDeleteFailure) -> (result:
    SavedataBackupDeleteResult)
    ensures
        match *failure {
            BackupFileDeleteFailure::MissingFile => result.status
                == SavedataBackupDeleteStatus::MissingFile && option_view(result.message) == Some(
                "备份文件不存在: "@ + path@,
            ),
            BackupFileDeleteFailure::FileInaccessible(error) => result.status
                == SavedataBackupDeleteStatus::FileInaccessible && option_view(result.message)
                == Some("无法删除备份文件: "@ + path@ + "，文件可能仍然存在: "@ + error@),
        },
{
    match failure {
        BackupFileDeleteFailure::MissingFile => SavedataBackupDeleteResult {
            status: SavedataBackupDeleteStatus::MissingFile,
            message: Some(cat2("备份文件不存在: ", path)),
        },
        BackupFileDeleteFailure::FileInaccessible(error) => SavedataBackupDeleteResult {
            status: SavedataBackupDeleteStatus::FileInaccessible,
            message: Some(
                cat4("无法删除备份文件: ", path, "，文件可能仍然存在: ", error.as_str()),
            ),
        },
    }
}

/// What a deletion waits for.
#[derive(Clone, Copy, Debug, PartialEq, Eq, Structural)]
pub enum DeleteStage {
    LookingUp,
    ResolvingRoot,
    RemovingFile,
    DeletingRecord,
    Ended,
}

/// The stages that may follow one another.
pub open spec fn delete_edge(record_only: bool, from: DeleteStage, to: DeleteStage) -> bool {
    match from {
        DeleteStage::LookingUp => to == DeleteStage::Ended || to == if record_only {
            DeleteStage::DeletingRecord
        } else {
            DeleteStage::ResolvingRoot
        },
        DeleteStage::ResolvingRoot => to == DeleteStage::RemovingFile || to == DeleteStage::Ended,
        DeleteStage::RemovingFile => to == DeleteStage::DeletingRecord || to == DeleteStage::Ended,
        DeleteStage::DeletingRecord => to == DeleteStage::Ended,
        DeleteStage::Ended => false,
    }
}

/// A history of stages from the first one on.
pub open spec fn delete_history(record_only: bool, stages: Seq<DeleteStage>) -> bool {
    &&& stages.len() > 0
    &&& stages[0] == DeleteStage::LookingUp
    &&& forall|i: int|
        0 < i < stages.len() ==> delete_edge(record_only, #[trigger] stages[i - 1], stages[i])
}

/// A record is deleted only right after its file was removed, or when only
/// the record was asked for.
pub proof fn record_goes_after_file(record_only: bool, stages: Seq<DeleteStage>, at: int)
    requires
        delete_history(record_only, stages),
        0 <= at < stages.len(),
        stages[at] == DeleteStage::DeletingRecord,
    ensures
        at >= 1,
        !record_only ==> stages[at - 1] == DeleteStage::RemovingFile,
        record_only ==> at == 1,
{
    assert(at >= 1);
    assert(delete_edge(record_only, stages[at - 1], stages[at]));
    if record_only && at > 1 {
        assert(delete_edge(record_only, stages[1 - 1], stages[1]));
        only_the_record(stages, at);
    }
}

proof fn only_the_record(stages: Seq<DeleteStage>, at: int)
    requires
        delete_history(true, stages),
        1 <= at < stages.len(),
    ensures
        stages[at] == DeleteStage::DeletingRecord || stages[at] == DeleteStage::Ended,
        stages[at] == DeleteStage::DeletingRecord ==> at == 1,
    decreases at,
{
    assert(delete_edge(true, stages[at - 1], stages[at]));
    if at > 1 {
        only_the_record(stages, at - 1);
    }
}

/// What the host does next.
#[derive(Debug)]
pub enum DeleteAction {
    /// Resolve the backup root.
    ResolveRoot,
    /// Remove the file.
    RemoveFile,
    /// Delete the record.
    DeleteRecord,
    Finish(Result<SavedataBackupDeleteResult, String>),
}

/// Deleting one backup: the record goes only after the file is gone.
#[derive(Clone, Copy, Debug, PartialEq, Eq, Structural)]
pub struct BackupDeletion {
    pub backup_id: i32,
    /// Only the record is to be deleted.
    pub record_only: bool,
    pub stage: DeleteStage,
}

impl BackupDeletion {
    pub fn new(backup_id: i32, record_only: bool) -> (deletion: BackupDeletion)
        ensures
            deletion == (BackupDeletion { backup_id, record_only, stage: DeleteStage::LookingUp }),
    {
        BackupDeletion { backup_id, record_only, stage: DeleteStage::LookingUp }
    }

    /// The record was looked up: found, absent or failed.
    pub fn on_record(&mut self, found: Result<bool, String>) -> (action: DeleteAction)
        requires
            old(self).stage == DeleteStage::LookingUp,
        ensures
            delete_edge(old(self).record_only, old(self).stage, final(self).stage),
            *final(self) == (BackupDeletion { stage: final(self).stage, ..*old(self) }),
            match found {
                Err(text) => {
                    &&& final(self).stage == DeleteStage::Ended
                    &&& action matches DeleteAction::Finish(Err(message)) && message@
                        == "获取备份记录失败: "@ + text@
                },
                Ok(false) => {
                    &&& final(self).stage == DeleteStage::Ended
                    &&& action matches DeleteAction::Finish(Err(message)) && message@
                        == "备份记录不存在"@
                },
                Ok(true) => if old(self).record_only {
                    final(self).stage == DeleteStage::DeletingRecord && action
                        == DeleteAction::DeleteRecord
                } else {
                    final(self).stage == DeleteStage::ResolvingRoot && action
                        == DeleteAction::ResolveRoot
                },
            },
    {
        match found {
            Err(text) => {
                self.stage = DeleteStage::Ended;
                DeleteAction::Finish(Err(cat2("获取备份记录失败: ", text.as_str())))
            },
            Ok(found) => {
                if !found {
                    self.stage = DeleteStage::Ended;
                    DeleteAction::Finish(Err("备份记录不存在".to_owned()))
                } else if self.record_only {
                    self.stage = DeleteStage::DeletingRecord;
                    DeleteAction::DeleteRecord
                } else {
                    self.stage = DeleteStage::ResolvingRoot;
                    DeleteAction::ResolveRoot
                }
            },
        }
    }

    /// The backup root was resolved, or not; if not, the record stays.
    pub fn on_root(&mut self, result: Result<(), String>) -> (action: DeleteAction)
        requires
            old(self).stage == DeleteStage::ResolvingRoot,
        ensures
            delete_edge(old(self).record_only, old(self).stage, final(self).stage),
            *final(self) == (BackupDeletion { stage: final(self).stage, ..*old(self) }),
            match result {
                Ok(_) => final(self).stage == DeleteStage::RemovingFile && action
                    == DeleteAction::RemoveFile,
                Err(text) => {
                    &&& final(self).stage == DeleteStage::Ended
                    &&& action matches DeleteAction::Finish(Ok(done)) && done.status
                        == SavedataBackupDeleteStatus::FileInaccessible && done.message == Some(
                        text,
                    )
                },
            },
    {
        match result {
            Ok(_) => {
                self.stage = DeleteStage::RemovingFile;
                DeleteAction::RemoveFile
            },
            Err(text) => {
                self.stage = DeleteStage::Ended;
                DeleteAction::Finish(
                    Ok(
                        SavedataBackupDeleteResult {
                            status: SavedataBackupDeleteStatus::FileInaccessible,
                            message: Some(text),
                        },
                    ),
                )
            },
        }
    }

    /// The file was removed, or not; if not, the record stays.
    pub fn on_file(&mut self, path: &str, result: Result<(), BackupFileDeleteFailure>) -> (action:
        DeleteAction)
        requires
            old(self).stage == DeleteStage::RemovingFile,
        ensures
            delete_edge(old(self).record_only, old(self).stage, final(self).stage),
            *final(self) == (BackupDeletion { stage: final(self).stage, ..*old(self) }),
            match result {
                Ok(_) => final(self).stage == DeleteStage::DeletingRecord && action
                    == DeleteAction::DeleteRecord,
                Err(failure) => {
                    &&& final(self).stage == DeleteStage::Ended
                    &&& action matches DeleteAction::Finish(Ok(done)) && match failure {
                        BackupFileDeleteFailure::MissingFile => done.status
                            == SavedataBackupDeleteStatus::MissingFile && option_view(
                            done.message,
                        ) == Some("备份文件不存在: "@ + path@),
                        BackupFileDeleteFailure::FileInaccessible(error) => done.status
                            == SavedataBackupDeleteStatus::FileInaccessible && option_view(
                            done.message,
                        ) == Some(
                            "无法删除备份文件: "@ + path@ + "，文件可能仍然存在: "@ + error@,
                        ),
                    }
                },
            },
    {
        match result {
            Ok(_) => {
                self.stage = DeleteStage::DeletingRecord;
                DeleteAction::DeleteRecord
            },
            Err(failure) => {
                self.stage = DeleteStage::Ended;
                DeleteAction::Finish(Ok(backup_file_delete_result(path, &failure)))
            },
        }
    }

    /// The record was deleted, or not.
    pub fn on_record_deleted(&mut self, result: Result<(), String>) -> (action: DeleteAction)
        requires
            old(self).stage == DeleteStage::DeletingRecord,
        ensures
            delete_edge(old(self).record_only, old(self).stage, final(self).stage),
            *final(self) == (BackupDeletion { stage: final(self).stage, ..*old(self) }),
            final(self).stage == DeleteStage::Ended,
            match result {
                Ok(_) => action == DeleteAction::Finish(
                    Ok(
                        SavedataBackupDeleteResult {
                            status: SavedataBackupDeleteStatus::Deleted,
                            message: None,
                        },
                    ),
                ),
                Err(text) => action matches DeleteAction::Finish(Err(message)) && message@ == (
                if old(self).record_only {
                    "清除备份数据库记录失败 (ID: "@
                } else {
                    "删除数据库记录失败 (ID: "@
                }) + signed_decimal(old(self).backup_id as int) + "): "@ + text@,
            },
    {
        self.stage = DeleteStage::Ended;
        match result {
            Ok(_) => DeleteAction::Finish(
                Ok(
                    SavedataBackupDeleteResult {
                        status: SavedataBackupDeleteStatus::Deleted,
                        message: None,
                    },
                ),
            ),
            Err(text) => {
                let start: &str = if self.record_only {
                    "清除备份数据库记录失败 (ID: "
                } else {
                    "删除数据库记录失败 (ID: "
                };
                DeleteAction::Finish(Err(record_delete_text(start, self.backup_id, text.as_str())))
            },
        }
    }
}

fn record_delete_text(start: &str, backup_id: i32, failure: &str) -> (text: String)
    ensures
        text@ == start@ + signed_decimal(backup_id as int) + "): "@ + failure@,
{
    cat4(start, signed_decimal_text(backup_id as i64).as_str(), "): ", failure)
}

/// A backup record, as far as its age matters.
#[derive(Clone, Debug)]
pub struct BackupRecord {
    pub id: i32,
    pub backup_time: i32,
    pub file: String,
}

/// Older first, by time and then by id.
pub open spec fn older(left: BackupRecord, right: BackupRecord) -> bool {
    left.backup_time < right.backup_time || (left.backup_time == right.backup_time && left.id
        <= right.id)
}

/// Ordered from old to new.
pub open spec fn aged(records: Seq<BackupRecord>) -> bool {
    forall|i: int, j: int|
        0 <= i < j < records.len() ==> older(#[trigger] records[i], #[trigger] records[j])
}

/// The records without the protected one.
pub open spec fn unprotected(records: Seq<BackupRecord>, protected: i32) -> Seq<BackupRecord>
    decreases records.len(),
{
    if records.len() == 0 {
        Seq::empty()
    } else {
        let rest = unprotected(records.drop_last(), protected);
        if records.last().id != protected {
            rest.push(records.last())
        } else {
            rest
        }
    }
}

/// How many backups a game keeps: twenty unless set, at least one.
pub open spec fn backup_limit(setting: Option<i32>) -> nat {
    match setting {
        Some(limit) => if limit < 1 {
            1
        } else {
            limit as nat
        },
        None => 20,
    }
}

fn is_older(left: &BackupRecord, right: &BackupRecord) -> (found: bool)
    ensures
        found == older(*left, *right),
{
    left.backup_time < right.backup_time || (left.backup_time == right.backup_time && left.id
        <= right.id)
}

fn copy_record(record: &BackupRecord) -> (copy: BackupRecord)
    ensures
        copy == *record,
{
    BackupRecord { id: record.id, backup_time: record.backup_time, file: record.file.clone() }
}

fn insert_aged(sorted: &mut Vec<BackupRecord>, record: BackupRecord)
    requires
        aged(old(sorted)@),
    ensures
        aged(final(sorted)@),
        final(sorted)@.to_multiset() == old(sorted)@.to_multiset().insert(record),
        final(sorted)@.len() == old(sorted)@.len() + 1,
{
    let ghost start = sorted@;
    let mut at: usize = sorted.len();
    while at > 0 && !is_older(&sorted[at - 1], &record)
        invariant
            at <= sorted@.len(),
            sorted@ == start,
            aged(start),
            forall|i: int| at <= i < start.len() ==> !older(#[trigger] start[i], record),
        decreases at,
    {
        at -= 1;
    }
    sorted.insert(at, record);
    proof {
        let result = sorted@;
        assert(result =~= start.insert(at as int, record));
        vstd::seq_lib::to_multiset_insert(start, at as int, record);
        assert forall|i: int, j: int| 0 <= i < j < result.len() implies older(
            #[trigger] result[i],
            #[trigger] result[j],
        ) by {
            if j == at {
                assert(result[i] == start[i]);
                if at > 0 && i < at - 1 {
                    assert(older(start[i], start[at - 1]));
                }
            } else if i == at {
                assert(result[j] == start[j - 1]);
                assert(!older(start[j - 1], record));
            } else {
                let a = if i < at {
                    i
                } else {
                    i - 1
                };
                let b = if j < at {
                    j
                } else {
                    j - 1
                };
                assert(older(start[a], start[b]));
            }
        }
    }
}

/// `doomed` are backups beyond a game's limit: the first of those that are
/// not protected, by age.
pub open spec fn trimmed(
    records: Seq<BackupRecord>,
    setting: Option<i32>,
    protected: i32,
    doomed: Seq<BackupRecord>,
) -> bool {
    if records.len() <= backup_limit(setting) {
        doomed.len() == 0
    } else {
        exists|sorted: Seq<BackupRecord>| #[trigger]
            aged(sorted) && sorted.to_multiset() == unprotected(
                records,
                protected,
            ).to_multiset() && doomed == sorted.take(
                records.len() - backup_limit(setting),
            )
    }
}

/// Picks the backups beyond a game's limit: the oldest ones, never the
/// protected one.
pub fn backups_to_delete(
    records: &Vec<BackupRecord>,
    setting: Option<i32>,
    protected: i32,
) -> (doomed: Vec<BackupRecord>)
    requires
        unprotected(records@, protected).len() + backup_limit(setting) >= records@.len(),
    ensures
        trimmed(records@, setting, protected, doomed@),
{
    let limit: usize = match setting {
        Some(limit) => {
            if limit < 1 {
                1
            } else {
                limit as usize
            }
        },
        None => 20,
    };
    if records.len() <= limit {
        return Vec::new();
    }
    let count: usize = records.len() - limit;
    let mut sorted: Vec<BackupRecord> = Vec::new();
    let mut at: usize = 0;
    proof {
        assert(unprotected(records@.take(0), protected) =~= sorted@);
    }
    while at < records.len()
        invariant
            at <= records@.len(),
            aged(sorted@),
            sorted@.to_multiset() == unprotected(
                records@.take(at as int),
                protected,
            ).to_multiset(),
            sorted@.len() == unprotected(records@.take(at as int), protected).len(),
        decreases records@.len() - at,
    {
        proof {
            let next = records@.take(at + 1);
            assert(next.drop_last() =~= records@.take(at as int));
            assert(next.last() == records@[at as int]);
            let rest = unprotected(records@.take(at as int), protected);
            rest.to_multiset_ensures();
            rest.push(records@[at as int]).to_multiset_ensures();
        }
        if records[at].id != protected {
            insert_aged(&mut sorted, copy_record(&records[at]));
            proof {
                let rest = unprotected(records@.take(at as int), protected);
                rest.to_multiset_ensures();
                assert(rest.push(records@[at as int]).to_multiset() =~= rest.to_multiset().insert(
                    records@[at as int],
                ));
            }
        }
        at += 1;
    }
    assert(records@.take(at as int) =~= records@);
    let ghost all = sorted@;
    sorted.truncate(count);
    assert(sorted@ =~= all.take(count as int));
    sorted
}

/// What is deleted is never newer than what stays, and never the protected
/// backup.
pub proof fn oldest_backups_go_first(
    records: Seq<BackupRecord>,
    protected: i32,
    sorted: Seq<BackupRecord>,
    count: int,
    i: int,
    j: int,
)
    requires
        aged(sorted),
        sorted.to_multiset() == unprotected(records, protected).to_multiset(),
        0 <= i < count <= j < sorted.len(),
    ensures
        older(sorted[i], sorted[j]),
        sorted[i].id != protected,
{
    vstd::seq_lib::to_multiset_contains(sorted, sorted[i]);
    vstd::seq_lib::to_multiset_contains(unprotected(records, protected), sorted[i]);
    assert(sorted.contains(sorted[i]));
    assert(unprotected(records, protected).contains(sorted[i]));
    unprotected_ids(records, protected, sorted[i]);
}

proof fn unprotected_ids(records: Seq<BackupRecord>, protected: i32, record: BackupRecord)
    requires
        unprotected(records, protected).contains(record),
    ensures
        record.id != protected,
    decreases records.len(),
{
    if records.len() > 0 {
        let rest = unprotected(records.drop_last(), protected);
        let all = unprotected(records, protected);
        let k = choose|k: int| 0 <= k < all.len() && all[k] == record;
        if records.last().id != protected && k == rest.len() {
        } else {
            assert(rest[k] == record);
            unprotected_ids(records.drop_last(), protected, record);
        }
    }
}

/// Words the errors of a cleanup; no error means success.
pub fn cleanup_result(errors: &Vec<String>) -> (result: Result<(), String>)
    ensures
        if errors@.len() == 0 {
            result is Ok
        } else {
            result matches Err(text) && text@ == "清理旧备份时遇到错误:\n"@ + joined(
                views(errors@),
                "\n"@,
            )
        },
{
    if errors.len() == 0 {
        return Ok(());
    }
    Err(cat2("清理旧备份时遇到错误:\n", join(errors, "\n").as_str()))
}

/// What a cleanup waits for.
#[derive(Clone, Copy, Debug, PartialEq, Eq, Structural)]
pub enum CleanupStage {
    /// The file of the next backup is being removed.
    RemovingFile,
    /// That file is gone; its record is being deleted.
    DeletingRecord,
    Ended,
}

/// The stages that may follow one another.
pub open spec fn cleanup_edge(from: CleanupStage, to: CleanupStage) -> bool {
    match from {
        CleanupStage::RemovingFile => true,
        CleanupStage::DeletingRecord => to != CleanupStage::DeletingRecord,
        CleanupStage::Ended => false,
    }
}

/// A history of stages.
pub open spec fn cleanup_history(stages: Seq<CleanupStage>) -> bool {
    &&& stages.len() > 0
    &&& stages[0] != CleanupStage::DeletingRecord
    &&& forall|i: int| 0 < i < stages.len() ==> cleanup_edge(#[trigger] stages[i - 1], stages[i])
}

/// A cleanup deletes a record only right after the file was removed.
pub proof fn cleaned_record_goes_after_file(stages: Seq<CleanupStage>, at: int)
    requires
        cleanup_history(stages),
        0 <= at < stages.len(),
        stages[at] == CleanupStage::DeletingRecord,
    ensures
        at >= 1,
        stages[at - 1] == CleanupStage::RemovingFile,
{
    assert(at >= 1);
    assert(cleanup_edge(stages[at - 1], stages[at]));
}

/// What the host does next.
#[derive(Debug)]
pub enum CleanupAction {
    /// Remove the file with this name in the game's directory.
    RemoveFile(String),
    /// Delete the record with this id.
    DeleteRecord(i32),
    Finish(Result<(), String>),
}

/// A removal of surplus backups under way. One that fails does not stop the
/// others.
#[derive(Debug)]
pub struct BackupCleanup {
    /// The backups to delete, in order.
    pub doomed: Vec<BackupRecord>,
    /// The one that is due.
    pub at: usize,
    pub stage: CleanupStage,
    pub errors: Vec<String>,
}

impl BackupCleanup {
    pub open spec fn wf(self) -> bool {
        &&& self.at <= self.doomed@.len()
        &&& self.stage == CleanupStage::Ended <==> self.at == self.doomed@.len()
    }

    /// The backup that is due is the next one, or all are done.
    pub open spec fn asks(self, action: CleanupAction) -> bool {
        if self.at < self.doomed@.len() {
            &&& self.stage == CleanupStage::RemovingFile
            &&& action matches CleanupAction::RemoveFile(file) && file@
                == self.doomed@[self.at as int].file@
        } else {
            &&& self.stage == CleanupStage::Ended
            &&& action matches CleanupAction::Finish(result) && if self.errors@.len() == 0 {
                result is Ok
            } else {
                result matches Err(text) && text@ == "清理旧备份时遇到错误:\n"@ + joined(
                    views(self.errors@),
                    "\n"@,
                )
            }
        }
    }

    /// The step that goes on with the next backup.
    pub open spec fn goes_on(self, after: BackupCleanup, action: CleanupAction) -> bool {
        &&& after == (BackupCleanup {
            at: (self.at + 1) as usize,
            stage: after.stage,
            errors: after.errors,
            ..self
        })
        &&& after.wf()
        &&& after.asks(action)
    }

    fn next_action(&mut self) -> (action: CleanupAction)
        requires
            old(self).at <= old(self).doomed@.len(),
        ensures
            *final(self) == (BackupCleanup { stage: final(self).stage, ..*old(self) }),
            final(self).wf(),
            final(self).asks(action),
    {
        if self.at < self.doomed.len() {
            self.stage = CleanupStage::RemovingFile;
            CleanupAction::RemoveFile(self.doomed[self.at].file.clone())
        } else {
            self.stage = CleanupStage::Ended;
            CleanupAction::Finish(cleanup_result(&self.errors))
        }
    }

    /// The file was removed, or not; if not, the record stays. `path` is the
    /// file as shown to users.
    pub fn on_file(&mut self, path: &str, result: Result<(), BackupFileDeleteFailure>) -> (action:
        CleanupAction)
        requires
            old(self).wf(),
            old(self).stage == CleanupStage::RemovingFile,
        ensures
            final(self).wf(),
            cleanup_edge(old(self).stage, final(self).stage),
            match result {
                Ok(_) => {
                    &&& *final(self) == (BackupCleanup {
                        stage: CleanupStage::DeletingRecord,
                        ..*old(self)
                    })
                    &&& action == CleanupAction::DeleteRecord(
                        old(self).doomed@[old(self).at as int].id,
                    )
                },
                Err(failure) => {
                    &&& old(self).goes_on(*final(self), action)
                    &&& views(final(self).errors@) == views(old(self).errors@).push(
                        delete_failure_text(path@, failure),
                    )
                },
            },
    {
        let count: usize = self.doomed.len();
        assert(self.at < count);
        match result {
            Ok(_) => {
                self.stage = CleanupStage::DeletingRecord;
                CleanupAction::DeleteRecord(self.doomed[self.at].id)
            },
            Err(failure) => {
                let text: String = format_backup_file_delete_failure(path, &failure);
                self.errors.push(text);
                assert(views(self.errors@) =~= views(old(self).errors@).push(text@));
                self.at = self.at + 1;
                self.next_action()
            },
        }
    }

    /// The record was deleted, or not.
    pub fn on_record_deleted(&mut self, result: Result<(), String>) -> (action: CleanupAction)
        requires
            old(self).wf(),
            old(self).stage == CleanupStage::DeletingRecord,
        ensures
            cleanup_edge(old(self).stage, final(self).stage),
            old(self).goes_on(*final(self), action),
            views(final(self).errors@) == match result {
                Ok(_) => views(old(self).errors@),
                Err(text) => views(old(self).errors@).push(
                    "删除数据库记录失败 (ID: "@ + signed_decimal(
                        old(self).doomed@[old(self).at as int].id as int,
                    ) + "): "@ + text@,
                ),
            },
    {
        let count: usize = self.doomed.len();
        assert(self.at < count);
        if let Err(text) = result {
            let message: String = record_delete_text(
                "删除数据库记录失败 (ID: ",
                self.doomed[self.at].id,
                text.as_str(),
            );
            self.errors.push(message);
            assert(views(self.errors@) =~= views(old(self).errors@).push(message@));
        }
        self.at = self.at + 1;
        self.next_action()
    }
}

/// Begins to delete the backups beyond a game's limit.
pub fn cleanup_old_backups(
    records: &Vec<BackupRecord>,
    setting: Option<i32>,
    protected: i32,
) -> (started: (BackupCleanup, CleanupAction))
    requires
        unprotected(records@, protected).len() + backup_limit(setting) >= records@.len(),
    ensures
        started.0.wf(),
        started.0.at == 0,
        started.0.errors@.len() == 0,
        started.0.stage != CleanupStage::DeletingRecord,
        started.0.asks(started.1),
        trimmed(records@, setting, protected, started.0.doomed@),
{
    let mut cleanup: BackupCleanup = BackupCleanup {
        doomed: backups_to_delete(records, setting, protected),
        at: 0,
        stage: CleanupStage::Ended,
        errors: Vec::new(),
    };
    let action: CleanupAction = cleanup.next_action();
    (cleanup, action)
}

/// Name of the directory that holds the backups of a game.
pub fn game_directory(game_id: i32) -> (name: String)
    ensures
        name@ == "game_"@ + signed_decimal(game_id as int),
{
    cat2("game_", signed_decimal_text(game_id as i64).as_str())
}

/// A file counts as missing exactly if it was not found and no directory was
/// seen to be unreachable; in all other cases it may still be there.
pub proof fn missing_files_have_visible_directories(
    failure: IoFailure,
    parent: ParentLook,
    found: BackupFileDeleteFailure,
)
    requires
        classified(failure, parent, found),
    ensures
        found is MissingFile <==> failure.kind == IoKind::NotFound && (parent is Directory
            || parent is NoParent),
        failure.kind != IoKind::NotFound ==> (found matches
            BackupFileDeleteFailure::FileInaccessible(text) && text@ == failure.text@),
{
}

/// A game keeps as many backups as its setting says, but at least one, and
/// twenty without a setting.
pub proof fn games_keep_at_least_one_backup(setting: Option<i32>)
    ensures
        setting is None ==> backup_limit(setting) == 20,
        setting matches Some(limit) ==> (limit >= 1 ==> backup_limit(setting) == limit) && (limit
            < 1 ==> backup_limit(setting) == 1),
{
}

proof fn unprotected_records_stay(records: Seq<BackupRecord>, protected: i32, record: BackupRecord)
    ensures
        unprotected(records, protected).contains(record) <==> records.contains(record) && record.id
            != protected,
    decreases records.len(),
{
    if records.len() > 0 {
        let front = records.drop_last();
        let rest = unprotected(front, protected);
        let all = unprotected(records, protected);
        unprotected_records_stay(front, protected, record);
        assert(records =~= front.push(records.last()));
        if all.contains(record) {
            let k = choose|k: int| 0 <= k < all.len() && all[k] == record;
            if records.last().id != protected && k == rest.len() {
                assert(records[records.len() - 1] == record);
            } else {
                assert(rest[k] == record);
                let j = choose|j: int| 0 <= j < front.len() && front[j] == record;
                assert(records[j] == record);
            }
        }
        if records.contains(record) && record.id != protected {
            let j = choose|j: int| 0 <= j < records.len() && records[j] == record;
            if j == records.len() - 1 {
                assert(all[rest.len() as int] == record);
            } else {
                assert(front[j] == record);
                let k = choose|k: int| 0 <= k < rest.len() && rest[k] == record;
                assert(all[k] == record);
            }
        }
    }
}

/// A cleanup leaves exactly as many backups as the limit allows, or all if
/// there are no more than that.
pub proof fn cleanups_leave_the_limit(
    records: Seq<BackupRecord>,
    setting: Option<i32>,
    protected: i32,
    doomed: Seq<BackupRecord>,
)
    requires
        unprotected(records, protected).len() + backup_limit(setting) >= records.len(),
        trimmed(records, setting, protected, doomed),
    ensures
        records.len() > backup_limit(setting) ==> records.len() - doomed.len() == backup_limit(
            setting,
        ),
        records.len() <= backup_limit(setting) ==> doomed.len() == 0,
{
    if records.len() > backup_limit(setting) {
        let left = unprotected(records, protected);
        let sorted = choose|sorted: Seq<BackupRecord>| #[trigger]
            aged(sorted) && sorted.to_multiset() == left.to_multiset() && doomed == sorted.take(
                records.len() - backup_limit(setting),
            );
        vstd::seq_lib::to_multiset_len(sorted);
        vstd::seq_lib::to_multiset_len(left);
    }
}

/// Only records of the game are deleted, never the protected one, and none
/// that is newer than one that stays.
pub proof fn cleanups_start_with_the_oldest(
    records: Seq<BackupRecord>,
    setting: Option<i32>,
    protected: i32,
    doomed: Seq<BackupRecord>,
    gone: BackupRecord,
    kept: BackupRecord,
)
    requires
        unprotected(records, protected).len() + backup_limit(setting) >= records.len(),
        trimmed(records, setting, protected, doomed),
        doomed.contains(gone),
    ensures
        records.contains(gone),
        gone.id != protected,
        records.contains(kept) && kept.id != protected && !doomed.contains(kept) ==> gone.backup_time
            < kept.backup_time || (gone.backup_time == kept.backup_time && gone.id <= kept.id),
{
    let left = unprotected(records, protected);
    let count = records.len() - backup_limit(setting);
    let sorted = choose|sorted: Seq<BackupRecord>| #[trigger]
        aged(sorted) && sorted.to_multiset() == left.to_multiset() && doomed == sorted.take(
            records.len() - backup_limit(setting),
        );
    vstd::seq_lib::to_multiset_len(sorted);
    vstd::seq_lib::to_multiset_len(left);
    let i = choose|i: int| 0 <= i < doomed.len() && doomed[i] == gone;
    assert(sorted[i] == gone);
    vstd::seq_lib::to_multiset_contains(sorted, gone);
    vstd::seq_lib::to_multiset_contains(left, gone);
    unprotected_records_stay(records, protected, gone);
    if records.contains(kept) && kept.id != protected && !doomed.contains(kept) {
        unprotected_records_stay(records, protected, kept);
        vstd::seq_lib::to_multiset_contains(left, kept);
        vstd::seq_lib::to_multiset_contains(sorted, kept);
        let j = choose|j: int| 0 <= j < sorted.len() && sorted[j] == kept;
        if j < count {
            assert(doomed[j] == kept);
        }
        assert(older(sorted[i], sorted[j]));
    }
}

/// A cleanup that has backups left asks for the file of the next one; it ends
/// well exactly if nothing went wrong.
pub proof fn cleanups_go_through_their_list(cleanup: BackupCleanup, action: CleanupAction)
    requires
        cleanup.wf(),
        cleanup.asks(action),
    ensures
        cleanup.at < cleanup.doomed@.len() ==> (action matches CleanupAction::RemoveFile(file)
            && file@ == cleanup.doomed@[cleanup.at as int].file@),
        cleanup.at == cleanup.doomed@.len() ==> (action matches CleanupAction::Finish(result) && (
        result is Ok <==> cleanup.errors@.len() == 0)),
{
}

/// A message about a file that was not deleted names the file, and the cause
/// if there is one.
pub proof fn delete_failures_name_the_file(path: Seq<char>, failure: BackupFileDeleteFailure)
    ensures
        exists|head: Seq<char>, tail: Seq<char>|
            delete_failure_text(path, failure) == #[trigger] (head + path + tail),
        failure matches BackupFileDeleteFailure::FileInaccessible(error) ==> error@.is_suffix_of(
            delete_failure_text(path, failure),
        ),
{
    let text = delete_failure_text(path, failure);
    match failure {
        BackupFileDeleteFailure::MissingFile => {
            assert(text == "备份文件不存在: "@ + path + "，数据库记录未变更"@);
        },
        BackupFileDeleteFailure::FileInaccessible(error) => {
            let tail = "，文件可能仍然存在，数据库记录未变更: "@ + error@;
            assert(text =~= "无法删除备份文件: "@ + path + tail);
            assert(error@ =~= text.subrange(text.len() - error@.len(), text.len() as int));
        },
    }
}

} // verus!
