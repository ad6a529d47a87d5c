//! Automatic backups: one batch of a database and, if wanted, covers, under a
//! shared id.

use vstd::prelude::*;
use vstd::string::*;

use super::common::{
    allocation, batch_of, batches_are_in_the_names, ensure_database_backup_available,
    mark_database_backup_unavailable, next_backup_id, text_result, BackupAvailability,
    BackupResult, NameLookup, COVERS_AUTO_EXTENSION, COVERS_AUTO_PREFIX, DATABASE_AUTO_EXTENSION,
    DATABASE_AUTO_PREFIX,
};
use crate::text::concat::{cat2, cat3, views};

verus! {

/// Why a batch is made.
#[derive(Clone, Copy, Debug, PartialEq, Eq, Structural)]
pub enum AutoBackupTrigger {
    Scheduled,
    /// The application ends; the database is closed and copied.
    Exit,
}

#[derive(Clone, Copy, Debug, PartialEq, Eq, Structural)]
pub struct AutoBackupRequest {
    pub trigger: AutoBackupTrigger,
    pub include_covers: bool,
    pub max_auto_backups: usize,
}

#[derive(Clone, Debug)]
pub struct AutoBackupResult {
    pub batch_id: String,
    pub database: BackupResult,
    pub covers: Option<BackupResult>,
    /// What went wrong without spoiling the batch.
    pub warnings: Vec<String>,
}

/// Prefix and extension of both files of a batch.
pub fn batch_artifacts() -> (artifacts: Vec<(String, String)>)
    ensures
        artifacts@.len() == 2,
        artifacts@[0].0@ == DATABASE_AUTO_PREFIX@,
        artifacts@[0].1@ == DATABASE_AUTO_EXTENSION@,
        artifacts@[1].0@ == COVERS_AUTO_PREFIX@,
        artifacts@[1].1@ == COVERS_AUTO_EXTENSION@,
{
    let mut artifacts: Vec<(String, String)> = Vec::new();
    artifacts.push((DATABASE_AUTO_PREFIX.to_owned(), DATABASE_AUTO_EXTENSION.to_owned()));
    artifacts.push((COVERS_AUTO_PREFIX.to_owned(), COVERS_AUTO_EXTENSION.to_owned()));
    artifacts
}

/// What a batch waits for, or how it ended.
#[derive(Clone, Copy, Debug, PartialEq, Eq, Structural)]
pub enum AutoStage {
    BackingUpCovers,
    BackingUpHot,
    ClosingDatabase,
    BackingUpCold,
    RemovingCovers,
    CleaningUp,
    Succeeded,
    Failed,
}

/// The stages that may follow one another. `archive` says whether there is an
/// archive of covers once the covers are done.
pub open spec fn auto_edge(archive: bool, from: AutoStage, to: AutoStage) -> bool {
    let failing = if archive {
        AutoStage::RemovingCovers
    } else {
        AutoStage::Failed
    };
    match from {
        AutoStage::BackingUpCovers => to == AutoStage::BackingUpHot || to
            == AutoStage::ClosingDatabase,
        AutoStage::BackingUpHot => to == AutoStage::CleaningUp || to == failing,
        AutoStage::ClosingDatabase => to == AutoStage::BackingUpCold || to == failing,
        AutoStage::BackingUpCold => to == AutoStage::CleaningUp || to == failing,
        AutoStage::RemovingCovers => to == AutoStage::Failed,
        AutoStage::CleaningUp => to == AutoStage::Succeeded,
        AutoStage::Succeeded => false,
        AutoStage::Failed => false,
    }
}

/// A history of stages from the first one on.
pub open spec fn auto_history(archive: bool, stages: Seq<AutoStage>) -> bool {
    &&& stages.len() > 0
    &&& stages[0] == AutoStage::BackingUpCovers || stages[0] == AutoStage::BackingUpHot || stages[0]
        == AutoStage::ClosingDatabase
    &&& forall|i: int|
        0 < i < stages.len() ==> auto_edge(archive, #[trigger] stages[i - 1], stages[i])
}

/// The covers archive of a batch that failed was taken back right before, and
/// that of a batch that worked never was.
pub proof fn failed_batches_take_their_covers_back(archive: bool, stages: Seq<AutoStage>)
    requires
        auto_history(archive, stages),
    ensures
        archive && stages.last() == AutoStage::Failed ==> stages.len() >= 2 && stages[stages.len()
            - 2] == AutoStage::RemovingCovers,
        stages.last() == AutoStage::Succeeded ==> forall|i: int|
            0 <= i < stages.len() ==> #[trigger] stages[i] != AutoStage::RemovingCovers,
{
    let n = stages.len() as int;
    if archive && stages.last() == AutoStage::Failed {
        assert(n >= 2);
        assert(auto_edge(archive, stages[(n - 1) - 1], stages[n - 1]));
    }
    if stages.last() == AutoStage::Succeeded {
        assert forall|i: int| 0 <= i < stages.len() implies #[trigger] stages[i]
            != AutoStage::RemovingCovers by {
            if stages[i] == AutoStage::RemovingCovers {
                assert(i + 1 < n);
                assert(auto_edge(archive, stages[(i + 1) - 1], stages[i + 1]));
                if i + 2 < n {
                    assert(auto_edge(archive, stages[(i + 2) - 1], stages[i + 2]));
                }
            }
        }
    }
}

/// What the host does next.
#[derive(Debug)]
pub enum AutoAction {
    /// Back up the covers under this name.
    BackUpCovers(String),
    /// Back up the open database under this name.
    BackUpHot(String),
    /// Close the connection.
    CloseDatabase,
    /// Copy the closed database under this name.
    BackUpCold(String),
    /// Remove the covers of this batch, whether or not that works.
    RemoveCovers(String),
    /// Remove batches beyond this number.
    CleanUp(usize),
    Finish(Result<AutoBackupResult, String>),
}

/// A batch under way.
pub struct AutoBackup {
    pub request: AutoBackupRequest,
    pub batch_id: String,
    pub stage: AutoStage,
    pub covers: Option<BackupResult>,
    pub database: Option<BackupResult>,
    pub warnings: Vec<String>,
    /// The message to fail with.
    pub failure: Option<String>,
}

impl AutoBackup {
    pub open spec fn wf(self) -> bool {
        match self.stage {
            AutoStage::RemovingCovers => self.failure is Some,
            AutoStage::CleaningUp => self.database is Some,
            _ => true,
        }
    }

    /// There is an archive of covers.
    pub open spec fn has_archive(self) -> bool {
        self.covers matches Some(covers) && covers.path is Some
    }

    pub open spec fn database_name(self) -> Seq<char> {
        "reina_manager_auto_"@ + self.batch_id@ + ".db"@
    }

    /// The step that begins the backup of the database.
    pub open spec fn starts_database(self, after: AutoBackup, action: AutoAction) -> bool {
        &&& after.request == self.request
        &&& after.batch_id == self.batch_id
        &&& match self.request.trigger {
            AutoBackupTrigger::Scheduled => after.stage == AutoStage::BackingUpHot && (
            action matches AutoAction::BackUpHot(name) && name@ == self.database_name()),
            AutoBackupTrigger::Exit => after.stage == AutoStage::ClosingDatabase && action
                == AutoAction::CloseDatabase,
        }
    }

    fn start_database(&mut self) -> (action: AutoAction)
        ensures
            *final(self) == (AutoBackup { stage: final(self).stage, ..*old(self) }),
            old(self).starts_database(*final(self), action),
            final(self).wf(),
    {
        match self.request.trigger {
            AutoBackupTrigger::Scheduled => {
                self.stage = AutoStage::BackingUpHot;
                AutoAction::BackUpHot(cat3("reina_manager_auto_", self.batch_id.as_str(), ".db"))
            },
            AutoBackupTrigger::Exit => {
                self.stage = AutoStage::ClosingDatabase;
                AutoAction::CloseDatabase
            },
        }
    }

    /// Starts a batch under an id that is free for both files.
    pub fn begin<F: Fn(&str) -> NameLookup>(
        request: AutoBackupRequest,
        state: &BackupAvailability,
        timestamp: &str,
        lookup: &F,
    ) -> (result: Result<(AutoBackup, AutoAction), String>)
        requires
            forall|text: &str| #[trigger] call_requires(*lookup, (text,)),
        ensures
            if !state.available {
                result matches Err(text) && text@
                    == "数据库正在关闭或等待应用重启，无法继续备份"@
            } else {
                exists|artifacts: Seq<(String, String)>, id: Result<Seq<char>, Seq<char>>|
                    artifacts.len() == 2 && artifacts[0].0@ == DATABASE_AUTO_PREFIX@
                        && artifacts[0].1@ == DATABASE_AUTO_EXTENSION@ && artifacts[1].0@
                        == COVERS_AUTO_PREFIX@ && artifacts[1].1@ == COVERS_AUTO_EXTENSION@
                        && #[trigger] allocation(*lookup, artifacts, timestamp@, id) && match (
                        id,
                        result,
                    ) {
                        (Err(message), Err(text)) => text@ == message,
                        (Ok(id), Ok((backup, action))) => {
                            &&& backup.wf()
                            &&& backup.batch_id@ == id
                            &&& backup.request == request
                            &&& backup.covers is None
                            &&& backup.warnings@.len() == 0
                            &&& if request.include_covers {
                                backup.stage == AutoStage::BackingUpCovers && (action matches
                                    AutoAction::BackUpCovers(name) && name@
                                    == "custom_covers_auto_"@ + id + ".7z"@)
                            } else {
                                backup.starts_database(backup, action)
                            }
                        },
                        _ => false,
                    }
            },
    {
        if let Err(message) = ensure_database_backup_available(state) {
            return Err(message);
        }
        let artifacts: Vec<(String, String)> = batch_artifacts();
        let allocated: Result<String, String> = next_backup_id(timestamp, &artifacts, lookup);
        assert(allocation(*lookup, artifacts@, timestamp@, text_result(allocated)));
        match allocated {
            Err(message) => Err(message),
            Ok(batch_id) => {
                let mut backup: AutoBackup = AutoBackup {
                    request,
                    batch_id,
                    stage: AutoStage::BackingUpCovers,
                    covers: None,
                    database: None,
                    warnings: Vec::new(),
                    failure: None,
                };
                let action: AutoAction = if request.include_covers {
                    AutoAction::BackUpCovers(
                        cat3("custom_covers_auto_", backup.batch_id.as_str(), ".7z"),
                    )
                } else {
                    backup.start_database()
                };
                Ok((backup, action))
            },
        }
    }

    /// The covers were backed up, or not; a failure is only a warning.
    pub fn on_covers(&mut self, result: Result<BackupResult, String>) -> (action: AutoAction)
        requires
            old(self).wf(),
            old(self).stage == AutoStage::BackingUpCovers,
        ensures
            auto_edge(old(self).has_archive(), old(self).stage, final(self).stage),
            *final(self) == (AutoBackup {
                stage: final(self).stage,
                covers: final(self).covers,
                warnings: final(self).warnings,
                ..*old(self)
            }),
            final(self).wf(),
            old(self).starts_database(*final(self), action),
            match result {
                Ok(done) => final(self).covers == Some(done) && views(final(self).warnings@)
                    == views(old(self).warnings@),
                Err(text) => final(self).covers is None && views(final(self).warnings@) == views(
                    old(self).warnings@,
                ).push("自定义封面备份失败: "@ + text@),
            },
    {
        match result {
            Ok(done) => {
                self.covers = Some(done);
            },
            Err(text) => {
                let ghost before = self.warnings@;
                let warning: String = cat2("自定义封面备份失败: ", text.as_str());
                let ghost added = warning@;
                self.warnings.push(warning);
                self.covers = None;
                assert(views(self.warnings@) =~= views(before).push(added));
            },
        }
        self.start_database()
    }

    /// The connection was closed, or not. Once closed, no backup can start.
    pub fn on_closed(&mut self, result: Result<(), String>, state: &mut BackupAvailability) -> (
    action: AutoAction)
        requires
            old(self).wf(),
            old(self).stage == AutoStage::ClosingDatabase,
        ensures
            auto_edge(old(self).has_archive(), old(self).stage, final(self).stage),
            *final(self) == (AutoBackup {
                stage: final(self).stage,
                failure: final(self).failure,
                ..*old(self)
            }),
            final(self).wf(),
            match result {
                Ok(_) => {
                    &&& !final(state).available
                    &&& *final(self) == (AutoBackup {
                        stage: AutoStage::BackingUpCold,
                        ..*old(self)
                    })
                    &&& action matches AutoAction::BackUpCold(name) && name@ == old(
                        self,
                    ).database_name()
                },
                Err(text) => {
                    &&& *final(state) == *old(state)
                    &&& old(self).fails(
                        *final(self),
                        action,
                        "关闭数据库连接失败: "@ + text@,
                    )
                },
            },
    {
        match result {
            Ok(_) => {
                mark_database_backup_unavailable(state);
                self.stage = AutoStage::BackingUpCold;
                AutoAction::BackUpCold(cat3("reina_manager_auto_", self.batch_id.as_str(), ".db"))
            },
            Err(text) => {
                let message: String = cat2("关闭数据库连接失败: ", text.as_str());
                self.fail(message)
            },
        }
    }

    /// A batch without its database fails, and takes its covers with it.
    pub open spec fn fails(self, after: AutoBackup, action: AutoAction, message: Seq<char>) -> bool {
        match self.covers {
            Some(covers) => match covers.path {
                Some(path) => {
                    &&& after.stage == AutoStage::RemovingCovers
                    &&& after.failure matches Some(text) && text@ == message
                    &&& action matches AutoAction::RemoveCovers(found) && found@ == path@
                },
                None => after.stage == AutoStage::Failed && (action matches AutoAction::Finish(
                    Err(text),
                ) && text@ == message),
            },
            None => after.stage == AutoStage::Failed && (action matches AutoAction::Finish(
                Err(text),
            ) && text@ == message),
        }
    }

    fn fail(&mut self, message: String) -> (action: AutoAction)
        ensures
            *final(self) == (AutoBackup {
                stage: final(self).stage,
                failure: final(self).failure,
                ..*old(self)
            }),
            old(self).fails(*final(self), action, message@),
            final(self).wf(),
    {
        if let Some(covers) = &self.covers {
            if let Some(path) = &covers.path {
                let path: String = path.clone();
                self.failure = Some(message);
                self.stage = AutoStage::RemovingCovers;
                return AutoAction::RemoveCovers(path);
            }
        }
        self.stage = AutoStage::Failed;
        AutoAction::Finish(Err(message))
    }

    /// The database was backed up, or not.
    pub fn on_database(&mut self, result: Result<BackupResult, String>) -> (action: AutoAction)
        requires
            old(self).wf(),
            old(self).stage == AutoStage::BackingUpHot || old(self).stage
                == AutoStage::BackingUpCold,
        ensures
            auto_edge(old(self).has_archive(), old(self).stage, final(self).stage),
            *final(self) == (AutoBackup {
                stage: final(self).stage,
                database: final(self).database,
                failure: final(self).failure,
                ..*old(self)
            }),
            final(self).wf(),
            match result {
                Ok(done) => {
                    &&& *final(self) == (AutoBackup {
                        stage: AutoStage::CleaningUp,
                        database: Some(done),
                        ..*old(self)
                    })
                    &&& action == AutoAction::CleanUp(old(self).request.max_auto_backups)
                },
                Err(text) => old(self).fails(*final(self), action, text@),
            },
    {
        match result {
            Ok(done) => {
                self.database = Some(done);
                self.stage = AutoStage::CleaningUp;
                AutoAction::CleanUp(self.request.max_auto_backups)
            },
            Err(text) => self.fail(text),
        }
    }

    /// The covers of a failed batch were removed.
    pub fn on_covers_removed(&mut self) -> (action: AutoAction)
        requires
            old(self).wf(),
            old(self).stage == AutoStage::RemovingCovers,
        ensures
            auto_edge(old(self).has_archive(), old(self).stage, final(self).stage),
            *final(self) == (AutoBackup {
                stage: final(self).stage,
                failure: final(self).failure,
                ..*old(self)
            }),
            final(self).wf(),
            final(self).stage == AutoStage::Failed,
            action == AutoAction::Finish(Err(old(self).failure->Some_0)),
    {
        self.stage = AutoStage::Failed;
        match self.failure.take() {
            Some(message) => AutoAction::Finish(Err(message)),
            None => AutoAction::Finish(Err(String::new())),
        }
    }

    /// Old batches were removed, or not; a failure is only a warning.
    pub fn on_cleaned(&mut self, result: Result<Vec<String>, String>) -> (action: AutoAction)
        requires
            old(self).wf(),
            old(self).stage == AutoStage::CleaningUp,
        ensures
            auto_edge(old(self).has_archive(), old(self).stage, final(self).stage),
            *final(self) == (AutoBackup {
                stage: final(self).stage,
                covers: final(self).covers,
                database: final(self).database,
                ..*old(self)
            }),
            final(self).stage == AutoStage::Succeeded,
            action matches AutoAction::Finish(Ok(done)) && done.batch_id@ == old(self).batch_id@
                && Some(done.database) == old(self).database && done.covers == old(self).covers
                && views(done.warnings@) == match result {
                Ok(_) => views(old(self).warnings@),
                Err(text) => views(old(self).warnings@).push("清理旧自动备份失败: "@ + text@),
            },
    {
        let mut warnings: Vec<String> = Vec::new();
        let mut at: usize = 0;
        while at < self.warnings.len()
            invariant
                at <= self.warnings@.len(),
                *self == *old(self),
                warnings@ == self.warnings@.take(at as int),
            decreases self.warnings@.len() - at,
        {
            warnings.push(self.warnings[at].clone());
            at += 1;
        }
        assert(warnings@ =~= self.warnings@);
        if let Err(text) = result {
            let ghost before = warnings@;
            let warning: String = cat2("清理旧自动备份失败: ", text.as_str());
            let ghost added = warning@;
            warnings.push(warning);
            assert(views(warnings@) =~= views(before).push(added));
        }
        self.stage = AutoStage::Succeeded;
        let covers: Option<BackupResult> = self.covers.take();
        match self.database.take() {
            Some(database) => AutoAction::Finish(
                Ok(
                    AutoBackupResult {
                        batch_id: self.batch_id.clone(),
                        database,
                        covers,
                        warnings,
                    },
                ),
            ),
            None => AutoAction::Finish(Err(String::new())),
        }
    }
}

/// A scheduled batch backs up the open database, under a name that the batch
/// is found by again; at the end of the application the database is closed
/// first.
pub proof fn triggers_select_hot_or_cold(
    backup: AutoBackup,
    after: AutoBackup,
    action: AutoAction,
)
    requires
        backup.starts_database(after, action),
        backup.batch_id@.len() > 0,
    ensures
        backup.request.trigger == AutoBackupTrigger::Scheduled ==> (action matches
            AutoAction::BackUpHot(name) && batch_of(name@) == Some(backup.batch_id@)),
        backup.request.trigger == AutoBackupTrigger::Exit ==> action == AutoAction::CloseDatabase,
        after.batch_id@ == backup.batch_id@,
{
    if backup.request.trigger == AutoBackupTrigger::Scheduled {
        batches_are_in_the_names(action->BackUpHot_0@, backup.batch_id@);
    }
}

/// The names of both files of a batch belong to the batch.
pub proof fn batch_files_belong_together(backup: AutoBackup)
    requires
        backup.batch_id@.len() > 0,
    ensures
        batch_of(backup.database_name()) == Some(backup.batch_id@),
        batch_of(COVERS_AUTO_PREFIX@ + backup.batch_id@ + COVERS_AUTO_EXTENSION@) == Some(
            backup.batch_id@,
        ),
{
    batches_are_in_the_names(backup.database_name(), backup.batch_id@);
    batches_are_in_the_names(
        COVERS_AUTO_PREFIX@ + backup.batch_id@ + COVERS_AUTO_EXTENSION@,
        backup.batch_id@,
    );
}

/// A batch that fails ends at once with its message, unless it left an archive
/// of covers: then just that archive is removed first, and the message kept.
pub proof fn failures_name_their_cause(
    backup: AutoBackup,
    after: AutoBackup,
    action: AutoAction,
    message: Seq<char>,
)
    requires
        backup.fails(after, action, message),
    ensures
        backup.covers is None || backup.covers->Some_0.path is None ==> (action matches
            AutoAction::Finish(Err(text)) && text@ == message),
        backup.covers is Some && backup.covers->Some_0.path is Some ==> (action matches
            AutoAction::RemoveCovers(found) && found@ == backup.covers->Some_0.path->Some_0@) && (
        after.failure matches Some(text) && text@ == message),
{
}

} // verus!
