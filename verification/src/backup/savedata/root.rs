//! Changing the backup root: the new place is prepared first, then the
//! setting is switched, and only then the old place is removed.

use vstd::prelude::*;

use super::failure::{
    about_source, about_target, both, fail_both, fail_source, fail_target, failure_views,
    failures_text, format_migration_failures, note, note_all, single, FailureView,
    SavedataBackupMigrationFailure,
};
use super::migration::{
    cleanup_copied_entries, cleanup_failures, collect_missing_savedata_records,
    ensure_existing_directory, existing_directory_verdict, missing_ids, record_failures,
    replaceable, CleanupFailure, PreparedMigration, PreparedTargetCommit, RecordLook, TargetState,
};
use super::tree::{
    copied, copy_check_is_exact, copy_failures, verify_copy, SourceScan, TargetScan,
};
use crate::host::Metadata;
use crate::text::chars::is_whitespace;
use crate::text::concat::{cat2, copy_option, option_view};
use crate::text::number::{decimal_text, wide_decimal_text};
use crate::text::scan::{trim, trimmed};
use vstd::string::*;

verus! {

#[derive(Clone, Copy, Debug, PartialEq, Eq, Structural)]
pub enum SavedataBackupMigrationStatus {
    Completed,
    SavedWithWarning,
}

/// What a change of the backup root came to.
#[derive(Debug)]
pub struct SavedataBackupRootMigrationResult {
    pub status: SavedataBackupMigrationStatus,
    pub old_path: Option<String>,
    pub new_path: Option<String>,
    pub message: String,
    pub failures: Vec<SavedataBackupMigrationFailure>,
    /// The old place, if it could not be removed.
    pub residue_path: Option<String>,
    pub cleaned_record_count: u64,
}

/// What resolving a root came to.
#[derive(Debug)]
pub enum RootLookup {
    /// A configured path that resolves.
    Resolved(String),
    /// A configured path that names an undefined variable.
    UndefinedVariable { variable: String, text: String },
    /// A configured path that does not resolve otherwise.
    Invalid(String),
    /// The default path.
    Default(String),
    /// The default path cannot be determined.
    NoDefault(String),
}

/// The path, or why there is none.
pub open spec fn root_of(lookup: RootLookup) -> Result<Seq<char>, Seq<char>> {
    match lookup {
        RootLookup::Resolved(path) => Ok(path@),
        RootLookup::UndefinedVariable { variable, text } => Err(
            "存档备份根目录解析失败: "@ + text@,
        ),
        RootLookup::Invalid(text) => Err("存档备份根目录解析失败: "@ + text@),
        RootLookup::Default(path) => Ok(path@),
        RootLookup::NoDefault(text) => Err(text@),
    }
}

/// Judges the root in use.
pub fn resolve_configured_backup_root(lookup: &RootLookup) -> (result: Result<String, String>)
    ensures
        match root_of(*lookup) {
            Ok(path) => result matches Ok(found) && found@ == path,
            Err(text) => result matches Err(found) && found@ == text,
        },
{
    match lookup {
        RootLookup::Resolved(path) => Ok(path.clone()),
        RootLookup::UndefinedVariable { variable: _, text } => Err(
            cat2("存档备份根目录解析失败: ", text.as_str()),
        ),
        RootLookup::Invalid(text) => Err(cat2("存档备份根目录解析失败: ", text.as_str())),
        RootLookup::Default(path) => Ok(path.clone()),
        RootLookup::NoDefault(text) => Err(text.clone()),
    }
}

/// The root asked for.
#[derive(Debug)]
pub enum RequestedBackupRoot {
    Resolved(String),
    UndefinedVariable(String),
}

/// `result` is the root asked for, as far as it could be resolved.
pub open spec fn requested_as(
    lookup: RootLookup,
    result: Result<RequestedBackupRoot, String>,
) -> bool {
    match lookup {
        RootLookup::UndefinedVariable { variable, text } => result matches Ok(
            RequestedBackupRoot::UndefinedVariable(found),
        ) && found@ == variable@,
        _ => match root_of(lookup) {
            Ok(path) => result matches Ok(RequestedBackupRoot::Resolved(found)) && found@
                == path,
            Err(text) => result matches Err(found) && found@ == text,
        },
    }
}

/// Judges the root asked for; an undefined variable is told apart.
pub fn resolve_requested_backup_root(lookup: &RootLookup) -> (result: Result<
    RequestedBackupRoot,
    String,
>)
    ensures
        requested_as(*lookup, result),
{
    match lookup {
        RootLookup::UndefinedVariable { variable, text: _ } => Ok(
            RequestedBackupRoot::UndefinedVariable(variable.clone()),
        ),
        other => match resolve_configured_backup_root(other) {
            Ok(path) => Ok(RequestedBackupRoot::Resolved(path)),
            Err(text) => Err(text),
        },
    }
}

/// The old root in messages: the path if there is one, else the setting.
pub open spec fn shown_root(lookup: RootLookup, configured: Option<Seq<char>>) -> Option<
    Seq<char>,
> {
    match root_of(lookup) {
        Ok(path) => Some(path),
        Err(_) => configured,
    }
}

/// The old root as named in messages: resolved if possible, else as
/// configured.
pub fn configured_backup_path_for_message(lookup: &RootLookup, configured: &Option<String>) -> (
path: Option<String>)
    ensures
        option_view(path) == shown_root(*lookup, option_view(*configured)),
{
    match resolve_configured_backup_root(lookup) {
        Ok(path) => Some(path),
        Err(_) => copy_option(configured),
    }
}

/// The setting that a text asks for: nothing for the default.
pub open spec fn configured_text(text: Seq<char>) -> Option<Seq<char>> {
    if trimmed(text).len() == 0 {
        None
    } else {
        Some(trimmed(text))
    }
}

/// The result of a change without trouble.
pub open spec fn is_completed(
    result: SavedataBackupRootMigrationResult,
    old_path: Option<Seq<char>>,
    new_path: Option<Seq<char>>,
    message: Seq<char>,
    cleaned: int,
) -> bool {
    &&& result.status == SavedataBackupMigrationStatus::Completed
    &&& option_view(result.old_path) == old_path
    &&& option_view(result.new_path) == new_path
    &&& result.message@ == message
    &&& result.failures@.len() == 0
    &&& result.residue_path is None
    &&& result.cleaned_record_count == cleaned
}

fn completed_migration_result(
    old_path: Option<String>,
    new_path: Option<String>,
    message: &str,
    cleaned_record_count: u64,
) -> (result: SavedataBackupRootMigrationResult)
    ensures
        is_completed(
            result,
            option_view(old_path),
            option_view(new_path),
            message@,
            cleaned_record_count as int,
        ),
{
    SavedataBackupRootMigrationResult {
        status: SavedataBackupMigrationStatus::Completed,
        old_path,
        new_path,
        message: message.to_owned(),
        failures: Vec::new(),
        residue_path: None,
        cleaned_record_count,
    }
}

/// What a change waits for, or how it ended.
#[derive(Clone, Copy, Debug, PartialEq, Eq, Structural)]
pub enum RootStage {
    ResolvingNew,
    SavingOnly,
    ResolvingOld,
    CheckingOld,
    CheckingRecords,
    Preparing,
    Updating,
    RollingBack,
    RemovingOld,
    Changed,
    Failed,
}

/// The changes of stage that a change of root makes. `history` tells whether
/// there are records.
pub open spec fn root_edge(history: bool, from: RootStage, to: RootStage) -> bool {
    match from {
        RootStage::ResolvingNew => to == RootStage::Failed || if history {
            to == RootStage::ResolvingOld
        } else {
            to == RootStage::SavingOnly || to == RootStage::Updating
        },
        RootStage::SavingOnly => to == RootStage::Changed || to == RootStage::Failed,
        RootStage::ResolvingOld => to == RootStage::CheckingOld || to == RootStage::Failed,
        RootStage::CheckingOld => to == RootStage::CheckingRecords || to == RootStage::Failed,
        RootStage::CheckingRecords => to == RootStage::Preparing || to == RootStage::Failed,
        RootStage::Preparing => to == RootStage::Updating || to == RootStage::Failed,
        RootStage::Updating => to == RootStage::RollingBack || to == RootStage::RemovingOld || to
            == RootStage::Changed || to == RootStage::Failed,
        RootStage::RollingBack => to == RootStage::Failed,
        RootStage::RemovingOld => to == RootStage::Changed,
        RootStage::Changed => false,
        RootStage::Failed => false,
    }
}

pub open spec fn root_history(history: bool, stages: Seq<RootStage>) -> bool {
    &&& stages.len() > 0
    &&& stages[0] == RootStage::ResolvingNew
    &&& forall|i: int|
        0 < i < stages.len() ==> root_edge(history, #[trigger] stages[i - 1], stages[i])
}

/// With records, the setting is switched only right after the new place was
/// prepared.
pub proof fn switch_follows_preparation(stages: Seq<RootStage>, at: int)
    requires
        root_history(true, stages),
        0 <= at < stages.len(),
        stages[at] == RootStage::Updating || stages[at] == RootStage::SavingOnly,
    ensures
        at >= 1,
        stages[at] == RootStage::Updating,
        stages[at - 1] == RootStage::Preparing,
{
    assert(at >= 1);
    assert(root_edge(true, stages[at - 1], stages[at]));
}

/// The old place is removed only right after the setting was switched.
pub proof fn removal_follows_switch(history: bool, stages: Seq<RootStage>, at: int)
    requires
        root_history(history, stages),
        0 <= at < stages.len(),
        stages[at] == RootStage::RemovingOld,
    ensures
        at >= 1,
        stages[at - 1] == RootStage::Updating,
{
    assert(at >= 1);
    assert(root_edge(history, stages[at - 1], stages[at]));
}

/// What the host does next.
#[derive(Debug)]
pub enum RootAction {
    /// Store [`RootChange::new_path`] as the setting.
    SaveOnly,
    /// Resolve the root in use.
    ResolveOld,
    /// Look at the type of the old root.
    LookAtOld,
    /// Look at the file of every record.
    LookAtRecords,
    /// Prepare the move.
    Prepare,
    /// Store [`RootChange::new_path`] as the setting, and delete the records
    /// in [`RootChange::missing`] in the same transaction.
    Update,
    /// Take the prepared target back.
    RollBack,
    /// Remove the old root with everything in it.
    RemoveOld,
    Finish(Result<SavedataBackupRootMigrationResult, String>),
}

/// A change of the backup root under way.
pub struct RootChange {
    pub stage: RootStage,
    /// The setting so far.
    pub old_configured: Option<String>,
    /// The setting asked for.
    pub new_path: Option<String>,
    /// Number of records.
    pub record_count: u64,
    /// Old and new root as shown to users.
    pub old_root: String,
    pub new_root: String,
    /// Records whose files are gone.
    pub missing: Vec<i32>,
    pub prepared: Option<PreparedMigration>,
    /// Why the setting is saved without a move.
    pub reason: String,
    pub failures: Vec<SavedataBackupMigrationFailure>,
}

impl RootChange {
    pub open spec fn has_history(self) -> bool {
        self.record_count > 0
    }

    /// The step ends the change with this message.
    pub open spec fn fails(after: RootChange, action: RootAction, message: Seq<char>) -> bool {
        &&& after.stage == RootStage::Failed
        &&& action matches RootAction::Finish(Err(text)) && text@ == message
    }

    /// A change to what `new_path` asks for.
    pub fn begin(new_path: &str, old_configured: Option<String>, record_count: u64) -> (change:
        RootChange)
        ensures
            change.stage == RootStage::ResolvingNew,
            option_view(change.new_path) == configured_text(new_path@),
            change.old_configured == old_configured,
            change.record_count == record_count,
            change.missing@.len() == 0,
            change.prepared is None,
            change.failures@.len() == 0,
    {
        let text: &str = trim(new_path);
        let wanted: Option<String> = if text.unicode_len() == 0 {
            None
        } else {
            Some(text.to_owned())
        };
        RootChange {
            stage: RootStage::ResolvingNew,
            old_configured,
            new_path: wanted,
            record_count,
            old_root: String::new(),
            new_root: String::new(),
            missing: Vec::new(),
            prepared: None,
            reason: String::new(),
            failures: Vec::new(),
        }
    }

    fn fail(&mut self, message: String) -> (action: RootAction)
        ensures
            *final(self) == (RootChange { stage: final(self).stage, ..*old(self) }),
            RootChange::fails(*final(self), action, message@),
    {
        self.stage = RootStage::Failed;
        RootAction::Finish(Err(message))
    }

    /// The root asked for was resolved, or not. An undefined variable is
    /// accepted only while there is nothing to move.
    pub fn on_requested(&mut self, lookup: &RootLookup) -> (action: RootAction)
        requires
            old(self).stage == RootStage::ResolvingNew,
        ensures
            *final(self) == (RootChange {
                stage: final(self).stage,
                new_root: final(self).new_root,
                prepared: final(self).prepared,
                reason: final(self).reason,
                ..*old(self)
            }),
            root_edge(old(self).has_history(), old(self).stage, final(self).stage),
            match *lookup {
                RootLookup::UndefinedVariable { variable, text } => if old(self).record_count
                    == 0 {
                    &&& *final(self) == (RootChange {
                        stage: RootStage::SavingOnly,
                        reason: final(self).reason,
                        ..*old(self)
                    })
                    &&& action == RootAction::SaveOnly
                    &&& final(self).reason@ == "存档备份根目录解析失败: 环境变量未定义: "@ + variable@
                } else {
                    RootChange::fails(
                        *final(self),
                        action,
                        "存档备份目录迁移失败，配置未切换: 存档备份根目录解析失败: 环境变量未定义: "@
                            + variable@,
                    )
                },
                _ => match root_of(*lookup) {
                    Err(text) => RootChange::fails(
                        *final(self),
                        action,
                        "存档备份目录迁移失败，配置未切换: "@ + text,
                    ),
                    Ok(path) => {
                        &&& final(self).new_root@ == path
                        &&& if old(self).record_count == 0 {
                            &&& final(self).stage == RootStage::Updating
                            &&& final(self).prepared == Some(PreparedMigration::NoSource)
                            &&& action == RootAction::Update
                        } else {
                            &&& *final(self) == (RootChange {
                                stage: RootStage::ResolvingOld,
                                new_root: final(self).new_root,
                                ..*old(self)
                            })
                            &&& action == RootAction::ResolveOld
                        }
                    },
                },
            },
    {
        match resolve_requested_backup_root(lookup) {
            Ok(RequestedBackupRoot::UndefinedVariable(variable)) => {
                if self.record_count == 0 {
                    self.reason = cat2(
                        "存档备份根目录解析失败: 环境变量未定义: ",
                        variable.as_str(),
                    );
                    self.stage = RootStage::SavingOnly;
                    RootAction::SaveOnly
                } else {
                    let message: String = cat2(
                        "存档备份目录迁移失败，配置未切换: 存档备份根目录解析失败: 环境变量未定义: ",
                        variable.as_str(),
                    );
                    self.fail(message)
                }
            },
            Err(text) => {
                let message: String = cat2("存档备份目录迁移失败，配置未切换: ", text.as_str());
                self.fail(message)
            },
            Ok(RequestedBackupRoot::Resolved(path)) => {
                self.new_root = path;
                if self.record_count == 0 {
                    self.prepared = Some(PreparedMigration::NoSource);
                    self.stage = RootStage::Updating;
                    RootAction::Update
                } else {
                    self.stage = RootStage::ResolvingOld;
                    RootAction::ResolveOld
                }
            },
        }
    }

    /// The setting was saved without a move, or not.
    pub fn on_saved_only(&mut self, result: Result<(), String>, lookup: &RootLookup) -> (action:
        RootAction)
        requires
            old(self).stage == RootStage::SavingOnly,
        ensures
            *final(self) == (RootChange { stage: final(self).stage, ..*old(self) }),
            root_edge(old(self).has_history(), old(self).stage, final(self).stage),
            match result {
                Err(text) => RootChange::fails(
                    *final(self),
                    action,
                    "保存新的存档备份路径失败: "@ + text@,
                ),
                Ok(_) => {
                    &&& final(self).stage == RootStage::Changed
                    &&& action matches RootAction::Finish(Ok(done)) && done.status
                        == SavedataBackupMigrationStatus::SavedWithWarning && option_view(
                        done.old_path,
                    ) == (match root_of(*lookup) {
                        Ok(path) => Some(path),
                        Err(_) => option_view(old(self).old_configured),
                    }) && done.new_path == old(self).new_path && done.message@ == old(
                        self,
                    ).reason@ && done.failures@.len() == 0 && done.residue_path is None
                        && done.cleaned_record_count == 0
                },
            },
    {
        match result {
            Err(text) => {
                let message: String = cat2("保存新的存档备份路径失败: ", text.as_str());
                self.fail(message)
            },
            Ok(_) => {
                self.stage = RootStage::Changed;
                let old_path: Option<String> = configured_backup_path_for_message(
                    lookup,
                    &self.old_configured,
                );
                RootAction::Finish(
                    Ok(
                        SavedataBackupRootMigrationResult {
                            status: SavedataBackupMigrationStatus::SavedWithWarning,
                            old_path,
                            new_path: copy_option(&self.new_path),
                            message: self.reason.clone(),
                            failures: Vec::new(),
                            residue_path: None,
                            cleaned_record_count: 0,
                        },
                    ),
                )
            },
        }
    }

    /// The root in use was resolved, or not.
    pub fn on_old(&mut self, lookup: &RootLookup) -> (action: RootAction)
        requires
            old(self).stage == RootStage::ResolvingOld,
        ensures
            *final(self) == (RootChange {
                stage: final(self).stage,
                old_root: final(self).old_root,
                ..*old(self)
            }),
            root_edge(old(self).has_history(), old(self).stage, final(self).stage),
            match root_of(*lookup) {
                Err(text) => RootChange::fails(
                    *final(self),
                    action,
                    "存档备份目录迁移失败，配置未切换: "@ + text,
                ),
                Ok(path) => {
                    &&& final(self).stage == RootStage::CheckingOld
                    &&& action == RootAction::LookAtOld
                    &&& final(self).old_root@ == path
                    &&& *final(self) == (RootChange {
                        stage: RootStage::CheckingOld,
                        old_root: final(self).old_root,
                        ..*old(self)
                    })
                },
            },
    {
        match resolve_configured_backup_root(lookup) {
            Err(text) => {
                let message: String = cat2("存档备份目录迁移失败，配置未切换: ", text.as_str());
                self.fail(message)
            },
            Ok(path) => {
                self.old_root = path;
                self.stage = RootStage::CheckingOld;
                RootAction::LookAtOld
            },
        }
    }

    fn fail_list(&mut self, failures: &Vec<SavedataBackupMigrationFailure>) -> (action: RootAction)
        ensures
            *final(self) == (RootChange { stage: final(self).stage, ..*old(self) }),
            RootChange::fails(*final(self), action, failures_text(failure_views(failures@))),
    {
        self.stage = RootStage::Failed;
        RootAction::Finish(Err(format_migration_failures(failures)))
    }

    /// The old root was looked at.
    pub fn on_old_seen(&mut self, seen: &Metadata) -> (action: RootAction)
        requires
            old(self).stage == RootStage::CheckingOld,
        ensures
            *final(self) == (RootChange { stage: final(self).stage, ..*old(self) }),
            root_edge(old(self).has_history(), old(self).stage, final(self).stage),
            match existing_directory_verdict(old(self).old_root@, *seen) {
                Some(failure) => RootChange::fails(
                    *final(self),
                    action,
                    failures_text(seq![failure]),
                ),
                None => *final(self) == (RootChange {
                    stage: RootStage::CheckingRecords,
                    ..*old(self)
                }) && action == RootAction::LookAtRecords,
            },
    {
        match ensure_existing_directory(self.old_root.as_str(), seen) {
            Err(failures) => self.fail_list(&failures),
            Ok(_) => {
                self.stage = RootStage::CheckingRecords;
                RootAction::LookAtRecords
            },
        }
    }

    /// The files of the records were looked at.
    pub fn on_records(&mut self, records: &Vec<RecordLook>) -> (action: RootAction)
        requires
            old(self).stage == RootStage::CheckingRecords,
        ensures
            *final(self) == (RootChange {
                stage: final(self).stage,
                missing: final(self).missing,
                ..*old(self)
            }),
            root_edge(old(self).has_history(), old(self).stage, final(self).stage),
            if record_failures(records@).len() > 0 {
                RootChange::fails(*final(self), action, failures_text(record_failures(records@)))
            } else {
                &&& final(self).missing@ == missing_ids(records@)
                &&& *final(self) == (RootChange {
                    stage: RootStage::Preparing,
                    missing: final(self).missing,
                    ..*old(self)
                })
                &&& action == RootAction::Prepare
            },
    {
        match collect_missing_savedata_records(records) {
            Err(failures) => {
                let action: RootAction = self.fail_list(&failures);
                action
            },
            Ok(ids) => {
                self.missing = ids;
                self.stage = RootStage::Preparing;
                RootAction::Prepare
            },
        }
    }

    /// The move was prepared, or not.
    pub fn on_prepared(
        &mut self,
        result: Result<PreparedMigration, Vec<SavedataBackupMigrationFailure>>,
    ) -> (action: RootAction)
        requires
            old(self).stage == RootStage::Preparing,
        ensures
            *final(self) == (RootChange {
                stage: final(self).stage,
                prepared: final(self).prepared,
                ..*old(self)
            }),
            root_edge(old(self).has_history(), old(self).stage, final(self).stage),
            match result {
                Err(failures) => RootChange::fails(
                    *final(self),
                    action,
                    failures_text(failure_views(failures@)),
                ),
                Ok(prepared) => *final(self) == (RootChange {
                    stage: RootStage::Updating,
                    prepared: Some(prepared),
                    ..*old(self)
                }) && action == RootAction::Update,
            },
    {
        match result {
            Err(failures) => self.fail_list(&failures),
            Ok(prepared) => {
                self.prepared = Some(prepared);
                self.stage = RootStage::Updating;
                RootAction::Update
            },
        }
    }

    /// Something was made at the target.
    pub open spec fn ready(self) -> bool {
        self.prepared matches Some(PreparedMigration::Ready(_))
    }

    fn is_ready(&self) -> (found: bool)
        ensures
            found == self.ready(),
    {
        match &self.prepared {
            Some(PreparedMigration::Ready(_)) => true,
            _ => false,
        }
    }

    /// The setting was switched, or not. Without the switch, what was
    /// prepared is taken back.
    pub fn on_updated(&mut self, result: Result<(), String>) -> (action: RootAction)
        requires
            old(self).stage == RootStage::Updating,
        ensures
            *final(self) == (RootChange {
                stage: final(self).stage,
                failures: final(self).failures,
                ..*old(self)
            }),
            root_edge(old(self).has_history(), old(self).stage, final(self).stage),
            match result {
                Err(text) => {
                    let failure = about_target(
                        old(self).new_root@,
                        "保存新的存档备份路径失败: "@ + text@,
                    );
                    if old(self).ready() {
                        &&& final(self).stage == RootStage::RollingBack
                        &&& action == RootAction::RollBack
                        &&& failure_views(final(self).failures@) == seq![failure]
                    } else {
                        RootChange::fails(*final(self), action, failures_text(seq![failure]))
                    }
                },
                Ok(_) => if old(self).ready() {
                    &&& *final(self) == (RootChange {
                        stage: RootStage::RemovingOld,
                        ..*old(self)
                    })
                    &&& action == RootAction::RemoveOld
                } else {
                    &&& final(self).stage == RootStage::Changed
                    &&& action matches RootAction::Finish(Ok(done)) && is_completed(
                        done,
                        option_view(old(self).old_configured),
                        option_view(old(self).new_path),
                        if old(self).missing@.len() > 0 {
                            "已清理失效备份记录并更新配置"@
                        } else {
                            "没有需要迁移的历史存档备份，已更新配置"@
                        },
                        old(self).missing@.len() as int,
                    )
                },
            },
    {
        match result {
            Err(text) => {
                let message: String = cat2("保存新的存档备份路径失败: ", text.as_str());
                let failures: Vec<SavedataBackupMigrationFailure> = single(
                    fail_target(self.new_root.as_str(), message.as_str()),
                );
                if self.is_ready() {
                    self.failures = failures;
                    self.stage = RootStage::RollingBack;
                    RootAction::RollBack
                } else {
                    self.fail_list(&failures)
                }
            },
            Ok(_) => {
                if self.is_ready() {
                    self.stage = RootStage::RemovingOld;
                    RootAction::RemoveOld
                } else {
                    self.stage = RootStage::Changed;
                    let message: &str = if self.missing.len() > 0 {
                        "已清理失效备份记录并更新配置"
                    } else {
                        "没有需要迁移的历史存档备份，已更新配置"
                    };
                    RootAction::Finish(
                        Ok(
                            completed_migration_result(
                                copy_option(&self.old_configured),
                                copy_option(&self.new_path),
                                message,
                                self.missing.len() as u64,
                            ),
                        ),
                    )
                }
            },
        }
    }

    /// What was prepared has been taken back, as far as possible.
    pub fn on_rolled_back(
        &mut self,
        result: Result<Vec<SavedataBackupMigrationFailure>, String>,
    ) -> (action: RootAction)
        requires
            old(self).stage == RootStage::RollingBack,
        ensures
            *final(self) == (RootChange {
                stage: final(self).stage,
                failures: final(self).failures,
                ..*old(self)
            }),
            root_edge(old(self).has_history(), old(self).stage, final(self).stage),
            RootChange::fails(
                *final(self),
                action,
                failures_text(
                    match result {
                        Ok(more) => failure_views(old(self).failures@) + failure_views(more@),
                        Err(text) => failure_views(old(self).failures@).push(
                            both(
                                old(self).old_root@,
                                old(self).new_root@,
                                "回滚新备份目录任务失败: "@ + text@,
                            ),
                        ),
                    },
                ),
            ),
    {
        match result {
            Ok(more) => {
                note_all(&mut self.failures, more);
            },
            Err(text) => {
                let message: String = cat2("回滚新备份目录任务失败: ", text.as_str());
                let failure: SavedataBackupMigrationFailure = fail_both(
                    self.old_root.as_str(),
                    self.new_root.as_str(),
                    message.as_str(),
                );
                note(&mut self.failures, failure);
            },
        }
        self.stage = RootStage::Failed;
        RootAction::Finish(Err(format_migration_failures(&self.failures)))
    }

    /// The old root was removed, or not; the change stands either way.
    pub fn on_old_removed(&mut self, result: Result<(), String>) -> (action: RootAction)
        requires
            old(self).stage == RootStage::RemovingOld,
        ensures
            *final(self) == (RootChange { stage: final(self).stage, ..*old(self) }),
            root_edge(old(self).has_history(), old(self).stage, final(self).stage),
            final(self).stage == RootStage::Changed,
            match result {
                Ok(_) => action matches RootAction::Finish(Ok(done)) && is_completed(
                    done,
                    Some(old(self).old_root@),
                    option_view(old(self).new_path),
                    "存档备份目录迁移完成，配置已更新"@,
                    old(self).missing@.len() as int,
                ),
                Err(text) => action matches RootAction::Finish(Ok(done)) && done.status
                    == SavedataBackupMigrationStatus::SavedWithWarning && option_view(
                    done.old_path,
                ) == Some(old(self).old_root@) && done.new_path == old(self).new_path
                    && done.message@ == "配置已更新，但旧备份目录清理不完整: "@ + text@
                    && failure_views(done.failures@) == seq![
                    about_source(old(self).old_root@, "删除旧备份目录失败: "@ + text@),
                ] && option_view(done.residue_path) == Some(old(self).old_root@)
                    && done.cleaned_record_count == old(self).missing@.len(),
            },
    {
        self.stage = RootStage::Changed;
        match result {
            Ok(_) => RootAction::Finish(
                Ok(
                    completed_migration_result(
                        Some(self.old_root.clone()),
                        copy_option(&self.new_path),
                        "存档备份目录迁移完成，配置已更新",
                        self.missing.len() as u64,
                    ),
                ),
            ),
            Err(text) => {
                let detail: String = cat2("删除旧备份目录失败: ", text.as_str());
                RootAction::Finish(
                    Ok(
                        SavedataBackupRootMigrationResult {
                            status: SavedataBackupMigrationStatus::SavedWithWarning,
                            old_path: Some(self.old_root.clone()),
                            new_path: copy_option(&self.new_path),
                            message: cat2(
                                "配置已更新，但旧备份目录清理不完整: ",
                                text.as_str(),
                            ),
                            failures: single(fail_source(self.old_root.as_str(), detail.as_str())),
                            residue_path: Some(self.old_root.clone()),
                            cleaned_record_count: self.missing.len() as u64,
                        },
                    ),
                )
            },
        }
    }
}

/// How a prepared target is given up.
#[derive(Clone, Copy, Debug, PartialEq, Eq, Structural)]
pub enum RollbackPlan {
    /// Move the copy away, and make the empty directory again if there was
    /// one.
    TakeOut { target_existed: bool },
    /// Remove the entries that were copied.
    RemoveEntries,
    /// The copy was there before.
    Nothing,
}

/// How what was done at a target is given up.
pub open spec fn rollback_plan(commit: PreparedTargetCommit) -> RollbackPlan {
    match commit {
        PreparedTargetCommit::Replaced { target_existed } => RollbackPlan::TakeOut {
            target_existed,
        },
        PreparedTargetCommit::FlattenedNestedRoot { .. } => RollbackPlan::RemoveEntries,
        PreparedTargetCommit::ExistingVerifiedCopy => RollbackPlan::Nothing,
    }
}

/// Chooses how to give a prepared target up. Only what the preparation put
/// there is touched.
pub fn rollback_prepared_migration(commit: &PreparedTargetCommit) -> (plan: RollbackPlan)
    ensures
        plan == rollback_plan(*commit),
{
    match commit {
        PreparedTargetCommit::Replaced { target_existed } => RollbackPlan::TakeOut {
            target_existed: *target_existed,
        },
        PreparedTargetCommit::FlattenedNestedRoot { .. } => RollbackPlan::RemoveEntries,
        PreparedTargetCommit::ExistingVerifiedCopy => RollbackPlan::Nothing,
    }
}

impl RollbackPlan {
    /// What lies at the target after a rollback without failures.
    pub open spec fn leaves(self, lies: TargetState) -> TargetState {
        match self {
            RollbackPlan::TakeOut { target_existed } => replaceable(target_existed),
            RollbackPlan::RemoveEntries => TargetState::OnlySource,
            RollbackPlan::Nothing => lies,
        }
    }
}

/// A rollback without failures leaves at the target what the preparation had
/// found there: nothing, an empty directory, only the old root, or the copy
/// that was already there.
pub proof fn rollback_undoes_preparation(
    commit: PreparedTargetCommit,
    found: TargetState,
    plan: RollbackPlan,
)
    requires
        commit.made_from(found),
        plan == rollback_plan(commit),
    ensures
        plan.leaves(commit.leaves(found)) == found,
{
}

/// Words what went wrong while copied entries were removed.
pub fn rollback_flattened_nested_root(cleanup: &Vec<CleanupFailure>) -> (failures: Vec<
    SavedataBackupMigrationFailure,
>)
    ensures
        failure_views(failures@) == cleanup_failures(cleanup@),
        failures@.len() == cleanup@.len(),
{
    let mut failures: Vec<SavedataBackupMigrationFailure> = Vec::new();
    cleanup_copied_entries(cleanup, &mut failures);
    proof {
        assert(failure_views(failures@) =~= cleanup_failures(cleanup@));
        assert(failure_views(failures@).len() == failures@.len());
    }
    failures
}

/// What taking a replaced target back waits for.
#[derive(Clone, Copy, Debug, PartialEq, Eq, Structural)]
pub enum RollbackStage {
    Naming,
    MovingOut,
    Restoring,
    Verifying,
    Removing,
    Done,
}

/// The stages that may follow one another.
pub open spec fn rollback_edge(
    target_existed: bool,
    from: RollbackStage,
    to: RollbackStage,
) -> bool {
    match from {
        RollbackStage::Naming => to == RollbackStage::MovingOut || to == RollbackStage::Done,
        RollbackStage::MovingOut => to == RollbackStage::Done || to == if target_existed {
            RollbackStage::Restoring
        } else {
            RollbackStage::Verifying
        },
        RollbackStage::Restoring => to == RollbackStage::Verifying,
        RollbackStage::Verifying => to == RollbackStage::Removing || to == RollbackStage::Done,
        RollbackStage::Removing => to == RollbackStage::Done,
        RollbackStage::Done => false,
    }
}

/// A history of stages from the first one on.
pub open spec fn rollback_history(target_existed: bool, stages: Seq<RollbackStage>) -> bool {
    &&& stages.len() > 0
    &&& stages[0] == RollbackStage::Naming
    &&& forall|i: int|
        0 < i < stages.len() ==> rollback_edge(
            target_existed,
            #[trigger] stages[i - 1],
            stages[i],
        )
}

/// A moved copy is removed only right after it was held against the source,
/// and by then an empty target that had been there was made again.
pub proof fn removal_follows_comparison(
    target_existed: bool,
    stages: Seq<RollbackStage>,
    at: int,
)
    requires
        rollback_history(target_existed, stages),
        0 <= at < stages.len(),
        stages[at] == RollbackStage::Removing,
    ensures
        at >= 3,
        stages[at - 1] == RollbackStage::Verifying,
        target_existed ==> stages[at - 2] == RollbackStage::Restoring,
        !target_existed ==> stages[at - 2] == RollbackStage::MovingOut,
{
    assert(at >= 1);
    assert(rollback_edge(target_existed, stages[at - 1], stages[at]));
    assert(at >= 2);
    assert(rollback_edge(target_existed, stages[(at - 1) - 1], stages[at - 1]));
    assert(at >= 3);
    assert(rollback_edge(target_existed, stages[(at - 2) - 1], stages[at - 2]));
}

/// What the host does next.
#[derive(Debug)]
pub enum RollbackAction {
    /// Pick a temporary name beside the target.
    PickName,
    /// Rename the target to the temporary name.
    MoveOut,
    /// Create the empty target directory again.
    RestoreTarget,
    /// Hold the moved copy against the source.
    Verify,
    /// Remove the moved copy.
    RemoveCopy,
    Finish(Vec<SavedataBackupMigrationFailure>),
}

/// Taking back a target that was replaced: the copy is moved out, and removed
/// only if it still equals the source.
pub struct Rollback {
    pub source: String,
    pub target: String,
    pub target_existed: bool,
    /// The moved copy as shown to users.
    pub moved: String,
    pub stage: RollbackStage,
    pub failures: Vec<SavedataBackupMigrationFailure>,
    /// What lies at the target now, after what the host reported.
    pub lies: Ghost<TargetState>,
}

impl Rollback {
    /// What lies at the target at each stage, as long as nothing failed.
    pub open spec fn wf(self) -> bool {
        match self.stage {
            RollbackStage::Naming | RollbackStage::MovingOut => self.failures@.len() == 0
                && self.lies@ == TargetState::Copy,
            RollbackStage::Restoring => self.failures@.len() == 0 && self.target_existed
                && self.lies@ == TargetState::Absent,
            RollbackStage::Verifying | RollbackStage::Removing => self.failures@.len() == 0
                ==> self.lies@ == replaceable(self.target_existed),
            RollbackStage::Done => true,
        }
    }

    pub fn new(source: String, target: String, target_existed: bool) -> (rollback: Rollback)
        ensures
            rollback.source == source,
            rollback.target == target,
            rollback.target_existed == target_existed,
            rollback.stage == RollbackStage::Naming,
            rollback.failures@.len() == 0,
            rollback.wf(),
    {
        Rollback {
            source,
            target,
            target_existed,
            moved: String::new(),
            stage: RollbackStage::Naming,
            failures: Vec::new(),
            lies: Ghost(TargetState::Copy),
        }
    }

    /// The step ends with these failures.
    pub open spec fn ends(after: Rollback, action: RollbackAction, failures: Seq<FailureView>) -> bool {
        &&& after.stage == RollbackStage::Done
        &&& action matches RollbackAction::Finish(found) && failure_views(found@) == failures
    }

    fn finish(&mut self) -> (action: RollbackAction)
        ensures
            *final(self) == (Rollback {
                stage: final(self).stage,
                failures: final(self).failures,
                ..*old(self)
            }),
            Rollback::ends(*final(self), action, failure_views(old(self).failures@)),
            action matches RollbackAction::Finish(found) && found@ == old(self).failures@,
    {
        let ghost kept = self.failures@;
        let mut failures: Vec<SavedataBackupMigrationFailure> = Vec::new();
        failures.append(&mut self.failures);
        assert(failures@ =~= kept);
        self.stage = RollbackStage::Done;
        RollbackAction::Finish(failures)
    }

    /// A temporary name was picked, or not.
    pub fn on_named(&mut self, result: Result<String, String>) -> (action: RollbackAction)
        requires
            old(self).wf(),
            old(self).stage == RollbackStage::Naming,
        ensures
            *final(self) == (Rollback {
                moved: final(self).moved,
                stage: final(self).stage,
                failures: final(self).failures,
                ..*old(self)
            }),
            final(self).wf(),
            action matches RollbackAction::Finish(failures) ==> (failures@.len() == 0
                ==> final(self).lies@ == replaceable(old(self).target_existed)),
            rollback_edge(old(self).target_existed, old(self).stage, final(self).stage),
            match result {
                Ok(moved) => *final(self) == (Rollback {
                    moved,
                    stage: RollbackStage::MovingOut,
                    ..*old(self)
                }) && action == RollbackAction::MoveOut,
                Err(text) => Rollback::ends(
                    *final(self),
                    action,
                    failure_views(old(self).failures@).push(
                        both(
                            old(self).source@,
                            old(self).target@,
                            "无法准备回滚目录，新备份副本保留在目标位置: "@ + text@,
                        ),
                    ),
                ),
            },
    {
        match result {
            Ok(moved) => {
                self.moved = moved;
                self.stage = RollbackStage::MovingOut;
                RollbackAction::MoveOut
            },
            Err(text) => {
                let message: String = cat2(
                    "无法准备回滚目录，新备份副本保留在目标位置: ",
                    text.as_str(),
                );
                let failure: SavedataBackupMigrationFailure = fail_both(
                    self.source.as_str(),
                    self.target.as_str(),
                    message.as_str(),
                );
                note(&mut self.failures, failure);
                self.finish()
            },
        }
    }

    /// The target was moved out, or not.
    pub fn on_moved(&mut self, result: Result<(), String>) -> (action: RollbackAction)
        requires
            old(self).wf(),
            old(self).stage == RollbackStage::MovingOut,
        ensures
            *final(self) == (Rollback {
                stage: final(self).stage,
                failures: final(self).failures,
                lies: final(self).lies,
                ..*old(self)
            }),
            final(self).wf(),
            action matches RollbackAction::Finish(failures) ==> (failures@.len() == 0
                ==> final(self).lies@ == replaceable(old(self).target_existed)),
            rollback_edge(old(self).target_existed, old(self).stage, final(self).stage),
            match result {
                Ok(_) => {
                    &&& *final(self) == (Rollback {
                        stage: if old(self).target_existed {
                            RollbackStage::Restoring
                        } else {
                            RollbackStage::Verifying
                        },
                        lies: Ghost(TargetState::Absent),
                        ..*old(self)
                    })
                    &&& action == if old(self).target_existed {
                        RollbackAction::RestoreTarget
                    } else {
                        RollbackAction::Verify
                    }
                },
                Err(text) => Rollback::ends(
                    *final(self),
                    action,
                    failure_views(old(self).failures@).push(
                        both(
                            old(self).source@,
                            old(self).target@,
                            "无法移出已提交的新备份目录，副本保留在目标位置: "@ + text@,
                        ),
                    ),
                ),
            },
    {
        match result {
            Ok(_) => {
                self.lies = Ghost(TargetState::Absent);
                if self.target_existed {
                    self.stage = RollbackStage::Restoring;
                    RollbackAction::RestoreTarget
                } else {
                    self.stage = RollbackStage::Verifying;
                    RollbackAction::Verify
                }
            },
            Err(text) => {
                let message: String = cat2(
                    "无法移出已提交的新备份目录，副本保留在目标位置: ",
                    text.as_str(),
                );
                let failure: SavedataBackupMigrationFailure = fail_both(
                    self.source.as_str(),
                    self.target.as_str(),
                    message.as_str(),
                );
                note(&mut self.failures, failure);
                self.finish()
            },
        }
    }

    /// The empty target was put back, or not.
    pub fn on_restored(&mut self, result: Result<(), String>) -> (action: RollbackAction)
        requires
            old(self).wf(),
            old(self).stage == RollbackStage::Restoring,
        ensures
            *final(self) == (Rollback {
                stage: final(self).stage,
                failures: final(self).failures,
                lies: Ghost(
                    if result is Ok {
                        TargetState::EmptyDirectory
                    } else {
                        TargetState::Absent
                    },
                ),
                ..*old(self)
            }),
            final(self).wf(),
            action matches RollbackAction::Finish(failures) ==> (failures@.len() == 0
                ==> final(self).lies@ == replaceable(old(self).target_existed)),
            rollback_edge(old(self).target_existed, old(self).stage, final(self).stage),
            final(self).stage == RollbackStage::Verifying,
            action == RollbackAction::Verify,
            failure_views(final(self).failures@) == match result {
                Ok(_) => failure_views(old(self).failures@),
                Err(text) => failure_views(old(self).failures@).push(
                    about_target(old(self).target@, "无法恢复迁移前的空目标目录: "@ + text@),
                ),
            },
    {
        if let Err(text) = result {
            let message: String = cat2("无法恢复迁移前的空目标目录: ", text.as_str());
            let failure: SavedataBackupMigrationFailure = fail_target(
                self.target.as_str(),
                message.as_str(),
            );
            note(&mut self.failures, failure);
        } else {
            self.lies = Ghost(TargetState::EmptyDirectory);
        }
        self.stage = RollbackStage::Verifying;
        RollbackAction::Verify
    }

    /// The moved copy was read beside the source; one that differs is kept.
    pub fn on_verified(&mut self, forward: &SourceScan, backward: &TargetScan) -> (action:
        RollbackAction)
        requires
            old(self).wf(),
            old(self).stage == RollbackStage::Verifying,
        ensures
            *final(self) == (Rollback {
                stage: final(self).stage,
                failures: final(self).failures,
                ..*old(self)
            }),
            final(self).wf(),
            action matches RollbackAction::Finish(failures) ==> (failures@.len() == 0
                ==> final(self).lies@ == replaceable(old(self).target_existed)),
            rollback_edge(old(self).target_existed, old(self).stage, final(self).stage),
            if copied(*forward, *backward) {
                *final(self) == (Rollback { stage: RollbackStage::Removing, ..*old(self) })
                    && action == RollbackAction::RemoveCopy
            } else {
                Rollback::ends(
                    *final(self),
                    action,
                    failure_views(old(self).failures@).push(
                        both(
                            old(self).source@,
                            old(self).moved@,
                            "回滚副本与旧备份目录不一致，已保留回滚副本以避免数据丢失"@,
                        ),
                    ) + copy_failures(old(self).source@, old(self).moved@, *forward, *backward),
                )
            },
    {
        let source: &str = self.source.as_str();
        let moved: &str = self.moved.as_str();
        let failures: Vec<SavedataBackupMigrationFailure> = verify_copy(
            source,
            moved,
            forward,
            backward,
        );
        proof {
            copy_check_is_exact(source@, moved@, *forward, *backward);
        }
        if failures.len() == 0 {
            self.stage = RollbackStage::Removing;
            RollbackAction::RemoveCopy
        } else {
            let failure: SavedataBackupMigrationFailure = fail_both(
                self.source.as_str(),
                self.moved.as_str(),
                "回滚副本与旧备份目录不一致，已保留回滚副本以避免数据丢失",
            );
            note(&mut self.failures, failure);
            note_all(&mut self.failures, failures);
            self.finish()
        }
    }

    /// The moved copy was removed, or not.
    pub fn on_copy_removed(&mut self, result: Result<(), String>) -> (action: RollbackAction)
        requires
            old(self).wf(),
            old(self).stage == RollbackStage::Removing,
        ensures
            *final(self) == (Rollback {
                stage: final(self).stage,
                failures: final(self).failures,
                ..*old(self)
            }),
            final(self).wf(),
            action matches RollbackAction::Finish(failures) ==> (failures@.len() == 0
                ==> final(self).lies@ == replaceable(old(self).target_existed)),
            rollback_edge(old(self).target_existed, old(self).stage, final(self).stage),
            Rollback::ends(
                *final(self),
                action,
                match result {
                    Ok(_) => failure_views(old(self).failures@),
                    Err(text) => failure_views(old(self).failures@).push(
                        about_target(old(self).moved@, "删除已验证的回滚副本失败: "@ + text@),
                    ),
                },
            ),
    {
        if let Err(text) = result {
            let message: String = cat2("删除已验证的回滚副本失败: ", text.as_str());
            let failure: SavedataBackupMigrationFailure = fail_target(
                self.moved.as_str(),
                message.as_str(),
            );
            note(&mut self.failures, failure);
        }
        self.finish()
    }
}

/// Name of a temporary directory beside the target of a move.
pub open spec fn migration_name(name: Seq<char>, process_id: u32, clock: u128, index: nat) -> Seq<
    char,
> {
    super::super::common::temporary_name(name, "reina-migrating"@, process_id, clock, index)
}

/// The lookup found something under this name, or not.
pub open spec fn occupied<F: Fn(&str) -> bool>(lookup: F, name: Seq<char>, found: bool) -> bool {
    exists|text: &str| text@ == name && #[trigger] call_ensures(lookup, (text,), found)
}

/// The names before `index` were all found taken.
pub open spec fn names_taken<F: Fn(&str) -> bool>(
    lookup: F,
    name: Seq<char>,
    process_id: u32,
    clock: u128,
    index: nat,
) -> bool {
    forall|j: nat|
        j < index ==> occupied(lookup, #[trigger] migration_name(name, process_id, clock, j), true)
}

/// Picks the name of a temporary directory beside the target of a move; the
/// first free index wins.
pub fn temporary_migration_path<F: Fn(&str) -> bool>(
    has_parent: bool,
    file_name: &Option<String>,
    process_id: u32,
    clock_nanos: &Result<u128, String>,
    exists_at: &F,
) -> (result: Result<String, String>)
    requires
        forall|text: &str| #[trigger] call_requires(*exists_at, (text,)),
    ensures
        if !has_parent {
            result matches Err(text) && text@ == "目标备份目录缺少父目录"@
        } else {
            match (*file_name, *clock_nanos) {
                (None, _) => result matches Err(text) && text@ == "目标备份目录缺少有效名称"@,
                (Some(_), Err(error)) => result matches Err(text) && text@
                    == "获取迁移临时目录时间失败: "@ + error@,
                (Some(name), Ok(clock)) => migration_search(
                    *exists_at,
                    name@,
                    process_id,
                    clock,
                    super::super::common::text_result(result),
                ),
            }
        },
{
    if !has_parent {
        return Err("目标备份目录缺少父目录".to_owned());
    }
    match file_name {
        None => Err("目标备份目录缺少有效名称".to_owned()),
        Some(name) => match clock_nanos {
            Err(error) => Err(cat2("获取迁移临时目录时间失败: ", error.as_str())),
            Ok(clock) => search_migration_name(name.as_str(), process_id, *clock, exists_at),
        },
    }
}

/// What the search for a name may come to, given what the lookups said.
pub open spec fn migration_search<F: Fn(&str) -> bool>(
    lookup: F,
    name: Seq<char>,
    process_id: u32,
    clock: u128,
    result: Result<Seq<char>, Seq<char>>,
) -> bool {
    match result {
        Ok(found) => exists|k: nat|
            k < 100 && found == #[trigger] migration_name(name, process_id, clock, k) && occupied(
                lookup,
                found,
                false,
            ) && names_taken(lookup, name, process_id, clock, k),
        Err(message) => message == "无法生成唯一的迁移临时目录"@ && names_taken(
            lookup,
            name,
            process_id,
            clock,
            100,
        ),
    }
}

fn search_migration_name<F: Fn(&str) -> bool>(
    name: &str,
    process_id: u32,
    clock: u128,
    exists_at: &F,
) -> (result: Result<String, String>)
    requires
        forall|text: &str| #[trigger] call_requires(*exists_at, (text,)),
    ensures
        migration_search(
            *exists_at,
            name@,
            process_id,
            clock,
            super::super::common::text_result(result),
        ),
{
    let mut index: u64 = 0;
    while index < 100
        invariant
            index <= 100,
            forall|text: &str| #[trigger] call_requires(*exists_at, (text,)),
            names_taken(*exists_at, name@, process_id, clock, index as nat),
        decreases 100 - index,
    {
        let stem: String = crate::text::concat::cat4(".", name, ".", "reina-migrating");
        let candidate: String = crate::text::concat::cat7(
            stem.as_str(),
            "-",
            decimal_text(process_id as u64).as_str(),
            "-",
            wide_decimal_text(clock).as_str(),
            "-",
            decimal_text(index).as_str(),
        );
        let ghost wanted = migration_name(name@, process_id, clock, index as nat);
        assert(candidate@ == wanted);
        let probe: &str = candidate.as_str();
        let found: bool = exists_at(probe);
        assert(occupied(*exists_at, wanted, found));
        if !found {
            return Ok(candidate);
        }
        index += 1;
    }
    Err("无法生成唯一的迁移临时目录".to_owned())
}

/// A root is known exactly if it resolved or is the default, and is then that
/// very path.
pub proof fn roots_are_configured_or_default(lookup: RootLookup)
    ensures
        root_of(lookup) is Ok <==> lookup is Resolved || lookup is Default,
        lookup matches RootLookup::Resolved(path) ==> root_of(lookup) == Ok::<Seq<char>, Seq<char>>(
            path@,
        ),
        lookup matches RootLookup::Default(path) ==> root_of(lookup) == Ok::<Seq<char>, Seq<char>>(
            path@,
        ),
{
}

/// A root asked for is accepted if it resolves, or if just a variable in it is
/// undefined, which is then named.
pub proof fn undefined_variables_are_told_apart(
    lookup: RootLookup,
    result: Result<RequestedBackupRoot, String>,
)
    requires
        requested_as(lookup, result),
    ensures
        result is Ok <==> lookup is Resolved || lookup is Default || lookup is UndefinedVariable,
        lookup matches RootLookup::UndefinedVariable { variable, text } ==> (result matches Ok(
            RequestedBackupRoot::UndefinedVariable(found),
        ) && found@ == variable@),
        lookup matches RootLookup::Resolved(path) ==> (result matches Ok(
            RequestedBackupRoot::Resolved(found),
        ) && found@ == path@),
        lookup matches RootLookup::Default(path) ==> (result matches Ok(
            RequestedBackupRoot::Resolved(found),
        ) && found@ == path@),
{
}

/// Messages name the old root by its path, or as it was configured if it has
/// none.
pub proof fn messages_name_the_old_root(lookup: RootLookup, configured: Option<Seq<char>>)
    ensures
        lookup matches RootLookup::Resolved(path) ==> shown_root(lookup, configured) == Some(path@),
        lookup matches RootLookup::Default(path) ==> shown_root(lookup, configured) == Some(path@),
        lookup is UndefinedVariable || lookup is Invalid || lookup is NoDefault ==> shown_root(
            lookup,
            configured,
        ) == configured,
{
}

/// A setting is the text that was asked for without blanks around it, and the
/// default if nothing is left.
pub proof fn settings_have_no_blanks_around(text: Seq<char>)
    ensures
        configured_text(text) is None <==> trimmed(text).len() == 0,
        configured_text(text) matches Some(path) ==> path.len() > 0 && !is_whitespace(path[0])
            && !is_whitespace(path.last()) && path == trimmed(text),
{
    crate::text::scan::trimming_is_exact(text);
}

/// A completed change names both roots and leaves nothing behind.
pub proof fn completed_changes_leave_nothing_behind(
    result: SavedataBackupRootMigrationResult,
    old_path: Option<Seq<char>>,
    new_path: Option<Seq<char>>,
    message: Seq<char>,
    cleaned: int,
)
    requires
        is_completed(result, old_path, new_path, message, cleaned),
    ensures
        result.status == SavedataBackupMigrationStatus::Completed,
        result.residue_path is None,
        result.failures@.len() == 0,
        result.cleaned_record_count == cleaned,
        option_view(result.old_path) == old_path,
        option_view(result.new_path) == new_path,
        result.message@ == message,
{
}

/// Only what a preparation put at the target is taken back: a copy is taken
/// out, with the empty directory made again if there was one; copied entries
/// are removed; a copy that was there before stays.
pub proof fn rollbacks_touch_only_what_was_made(commit: PreparedTargetCommit)
    ensures
        commit matches PreparedTargetCommit::Replaced { target_existed } ==> rollback_plan(commit)
            == (RollbackPlan::TakeOut { target_existed }),
        commit is FlattenedNestedRoot <==> rollback_plan(commit) == RollbackPlan::RemoveEntries,
        commit is ExistingVerifiedCopy <==> rollback_plan(commit) == RollbackPlan::Nothing,
{
}

/// A temporary directory lies beside the target under a name of its own that
/// was seen to be free; no attempt gives a name twice.
pub proof fn migration_names_are_free<F: Fn(&str) -> bool>(
    lookup: F,
    name: Seq<char>,
    process_id: u32,
    clock: u128,
    found: Seq<char>,
    first: nat,
    second: nat,
)
    requires
        migration_search(lookup, name, process_id, clock, Ok(found)),
    ensures
        occupied(lookup, found, false),
        ("."@ + name + "."@ + "reina-migrating"@ + "-"@).is_prefix_of(found),
        first != second ==> migration_name(name, process_id, clock, first) != migration_name(
            name,
            process_id,
            clock,
            second,
        ),
{
    let k = choose|k: nat|
        k < 100 && found == #[trigger] migration_name(name, process_id, clock, k) && occupied(
            lookup,
            found,
            false,
        ) && names_taken(lookup, name, process_id, clock, k);
    super::super::common::temporary_names_differ(
        name,
        "reina-migrating"@,
        process_id,
        clock,
        k,
        first,
    );
    super::super::common::temporary_names_differ(
        name,
        "reina-migrating"@,
        process_id,
        clock,
        first,
        second,
    );
}

/// A search gives up only after a hundred names were seen to be taken.
pub proof fn searches_try_a_hundred_names<F: Fn(&str) -> bool>(
    lookup: F,
    name: Seq<char>,
    process_id: u32,
    clock: u128,
    message: Seq<char>,
    index: nat,
)
    requires
        migration_search(lookup, name, process_id, clock, Err(message)),
        index < 100,
    ensures
        occupied(lookup, migration_name(name, process_id, clock, index), true),
{
}

} // verus!
