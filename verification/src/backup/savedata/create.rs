//! Making and registering a backup of a game's save data.

use vstd::prelude::*;
use vstd::string::*;

use crate::backup::common::{
    allocated_names_were_free, allocation, answered, next_backup_filename as allocate_filename,
    text_result, NameLookup,
};
use crate::text::concat::{cat2, cat3, option_view};
use crate::text::number::{signed_decimal, signed_decimal_text};

verus! {

/// A registered backup.
#[derive(Clone, Debug)]
pub struct BackupInfo {
    pub folder_name: String,
    pub backup_time: i64,
    pub file_size: u64,
    pub backup_path: String,
}

/// How the time of a backup is written in its name.
pub const STAMP_PATTERN: &'static str = "%Y%m%d_%H%M%S";

/// UTC date and time of a Unix time in the form that a pattern asks for,
/// within the range of the calendar.
pub uninterp spec fn utc_stamp(seconds: i64, pattern: Seq<char>) -> Option<Seq<char>>;

/// Every percent sign of a pattern stands before the letter of a year, month,
/// day, hour, minute or second.
pub open spec fn plain_pattern(pattern: Seq<char>) -> bool {
    forall|i: int|
        0 <= i < pattern.len() && #[trigger] pattern[i] == '%' ==> i + 1 < pattern.len() && (
        pattern[i + 1] == 'Y' || pattern[i + 1] == 'm' || pattern[i + 1] == 'd' || pattern[i + 1]
            == 'H' || pattern[i + 1] == 'M' || pattern[i + 1] == 'S')
}

/// Calls `chrono::DateTime::from_timestamp` and formats the result with the
/// pattern; nothing for a time beyond the calendar of the crate. The result
/// depends on time and pattern alone. A pattern that is not plain might not
/// be one of the crate's, which panics on such.
#[verifier::external_body]
fn format_utc(seconds: i64, pattern: &str) -> (stamp: Option<String>)
    requires
        plain_pattern(pattern@),
    ensures
        option_view(stamp) == utc_stamp(seconds, pattern@),
{
    let time = chrono::DateTime::from_timestamp(seconds, 0)?;
    Some(time.format(pattern).to_string())
}

/// The stamp in the name of a backup made at a Unix time.
pub open spec fn backup_stamp(now: i64) -> Option<Seq<char>> {
    utc_stamp(now, STAMP_PATTERN@)
}

/// Prefix of the backups of a game.
pub open spec fn filename_prefix(game_id: i64) -> Seq<char> {
    "savedata_v2_"@ + signed_decimal(game_id as int) + "_"@
}

/// What naming a backup after a timestamp may come to, given what the lookups
/// said: the name is free in the directory.
pub open spec fn named_after<F: Fn(&str) -> NameLookup>(
    lookup: F,
    game_id: i64,
    stamp: Seq<char>,
    result: Result<Seq<char>, Seq<char>>,
) -> bool {
    exists|artifacts: Seq<(String, String)>, id: Result<Seq<char>, Seq<char>>|
        artifacts.len() == 1 && artifacts[0].0@ == filename_prefix(game_id) && artifacts[0].1@
            == ".7z"@ && #[trigger] allocation(lookup, artifacts, stamp, id) && result
            == match id {
            Ok(id) => Ok::<Seq<char>, Seq<char>>(filename_prefix(game_id) + id + ".7z"@),
            Err(message) => Err(message),
        }
}

/// Names a backup after a timestamp.
pub fn filename_for<F: Fn(&str) -> NameLookup>(game_id: i64, stamp: &str, lookup: &F) -> (result:
    Result<String, String>)
    requires
        forall|text: &str| #[trigger] call_requires(*lookup, (text,)),
    ensures
        named_after(*lookup, game_id, stamp@, text_result(result)),
{
    let prefix: String = cat3("savedata_v2_", signed_decimal_text(game_id).as_str(), "_");
    allocate_filename(prefix.as_str(), stamp, ".7z", lookup)
}

/// Names a backup made at a Unix time; nothing beyond the calendar.
pub fn next_backup_filename<F: Fn(&str) -> NameLookup>(game_id: i64, now: i64, lookup: &F) -> (
result: Option<Result<String, String>>)
    requires
        forall|text: &str| #[trigger] call_requires(*lookup, (text,)),
    ensures
        match result {
            None => backup_stamp(now) is None,
            Some(found) => backup_stamp(now) is Some && named_after(
                *lookup,
                game_id,
                backup_stamp(now)->Some_0,
                text_result(found),
            ),
        },
{
    proof {
        reveal_strlit("%Y%m%d_%H%M%S");
    }
    match format_utc(now, STAMP_PATTERN) {
        None => None,
        Some(stamp) => Some(filename_for(game_id, stamp.as_str(), lookup)),
    }
}

/// What making a backup waits for, or how it ended.
#[derive(Clone, Copy, Debug, PartialEq, Eq, Structural)]
pub enum CreateStage {
    ResolvingSource,
    LookingAtSource,
    ResolvingRoot,
    PreparingDirectory,
    Naming,
    Archiving,
    Saving,
    CleaningUp,
    Removing,
    Created,
    Failed,
}

pub open spec fn create_edge(from: CreateStage, to: CreateStage) -> bool {
    match from {
        CreateStage::ResolvingSource => to == CreateStage::LookingAtSource || to
            == CreateStage::Failed,
        CreateStage::LookingAtSource => to == CreateStage::ResolvingRoot || to
            == CreateStage::Failed,
        CreateStage::ResolvingRoot => to == CreateStage::PreparingDirectory || to
            == CreateStage::Failed,
        CreateStage::PreparingDirectory => to == CreateStage::Naming || to == CreateStage::Failed,
        CreateStage::Naming => to == CreateStage::Archiving || to == CreateStage::Failed,
        CreateStage::Archiving => to == CreateStage::Saving || to == CreateStage::Removing || to
            == CreateStage::Failed,
        CreateStage::Saving => to == CreateStage::CleaningUp || to == CreateStage::Removing,
        CreateStage::CleaningUp => to == CreateStage::Created,
        CreateStage::Removing => to == CreateStage::Failed,
        CreateStage::Created => false,
        CreateStage::Failed => false,
    }
}

pub open spec fn create_history(stages: Seq<CreateStage>) -> bool {
    &&& stages.len() > 0
    &&& stages[0] == CreateStage::ResolvingSource
    &&& forall|i: int| 0 < i < stages.len() ==> create_edge(#[trigger] stages[i - 1], stages[i])
}

/// An archive that cannot be registered is removed.
pub proof fn unregistered_archives_are_removed(stages: Seq<CreateStage>, at: int)
    requires
        create_history(stages),
        stages.last() == CreateStage::Failed,
        0 <= at < stages.len(),
        stages[at] == CreateStage::Saving,
    ensures
        stages[stages.len() - 2] == CreateStage::Removing,
        stages.len() == at + 3,
{
    assert(at + 1 < stages.len());
    assert(create_edge(stages[(at + 1) - 1], stages[at + 1]));
    assert(at + 2 < stages.len());
    assert(create_edge(stages[(at + 2) - 1], stages[at + 2]));
    if at + 3 < stages.len() {
        assert(create_edge(stages[(at + 3) - 1], stages[at + 3]));
        if at + 4 < stages.len() {
            assert(create_edge(stages[(at + 4) - 1], stages[at + 4]));
        }
    }
}

/// Old backups are cleaned up only after the new one was registered.
pub proof fn cleanup_follows_registration(stages: Seq<CreateStage>, at: int)
    requires
        create_history(stages),
        0 <= at < stages.len(),
        stages[at] == CreateStage::CleaningUp,
    ensures
        at >= 1,
        stages[at - 1] == CreateStage::Saving,
{
    assert(at >= 1);
    assert(create_edge(stages[at - 1], stages[at]));
}

/// What stands at the source.
#[derive(Debug)]
pub enum SourceSeen {
    Present,
    Missing,
    Failed(String),
}

/// What making the archive came to.
#[derive(Debug)]
pub enum ArchiveOutcome {
    Done(u64),
    /// It failed and removed what it had written.
    Failed(String),
    /// It broke off.
    Crashed(String),
}

/// What removing an archive came to.
#[derive(Debug)]
pub enum RemoveOutcome {
    Removed,
    Missing,
    Failed(String),
    /// The removal broke off.
    Crashed(String),
}

/// What the host does next.
#[derive(Debug)]
pub enum CreateAction {
    LookAtSource,
    ResolveRoot,
    /// Create the backup directory of the game.
    PrepareDirectory,
    /// Pick a file name.
    PickName,
    /// Make the archive.
    Archive,
    /// Register the archive.
    SaveRecord { game_id: i32, file_size: i64 },
    /// Clean up old backups, but not this one; a failure is only logged.
    CleanUp { game_id: i32, backup_id: i32 },
    /// Remove the archive.
    Remove,
    Finish(Result<BackupInfo, String>),
}

/// A backup under way.
pub struct SavedataCreation {
    pub game_id: i64,
    pub backup_time: i64,
    pub stage: CreateStage,
    pub filename: String,
    /// The archive as shown to users.
    pub backup_path: String,
    pub file_size: u64,
    pub failure: Option<String>,
}

/// The archive with this name is shown as this path.
pub open spec fn shown_as<G: Fn(&str) -> String>(shown: G, name: Seq<char>, path: String) -> bool {
    exists|text: &str| text@ == name && #[trigger] call_ensures(shown, (text,), path)
}

impl SavedataCreation {
    pub open spec fn wf(self) -> bool {
        &&& self.stage == CreateStage::Removing ==> self.failure is Some
        &&& self.stage == CreateStage::Saving || self.stage == CreateStage::CleaningUp
            ==> i32::MIN <= self.game_id <= i32::MAX
    }

    pub open spec fn fails(after: SavedataCreation, action: CreateAction, message: Seq<char>) -> bool {
        after.stage == CreateStage::Failed && (action matches CreateAction::Finish(Err(text))
            && text@ == message)
    }

    /// The step removes the archive that was named, and will fail with this
    /// message.
    pub open spec fn removes(
        self,
        after: SavedataCreation,
        action: CreateAction,
        message: Seq<char>,
    ) -> bool {
        &&& after == (SavedataCreation {
            stage: CreateStage::Removing,
            failure: after.failure,
            ..self
        })
        &&& action == CreateAction::Remove
        &&& after.failure matches Some(text) && text@ == message
    }

    pub fn new(game_id: i64, backup_time: i64) -> (creation: SavedataCreation)
        ensures
            creation.wf(),
            creation.game_id == game_id,
            creation.backup_time == backup_time,
            creation.stage == CreateStage::ResolvingSource,
    {
        SavedataCreation {
            game_id,
            backup_time,
            stage: CreateStage::ResolvingSource,
            filename: String::new(),
            backup_path: String::new(),
            file_size: 0,
            failure: None,
        }
    }

    fn fail(&mut self, message: String) -> (action: CreateAction)
        ensures
            *final(self) == (SavedataCreation { stage: final(self).stage, ..*old(self) }),
            SavedataCreation::fails(*final(self), action, message@),
            final(self).wf(),
    {
        self.stage = CreateStage::Failed;
        CreateAction::Finish(Err(message))
    }

    fn remove(&mut self, message: String) -> (action: CreateAction)
        ensures
            old(self).removes(*final(self), action, message@),
            final(self).wf(),
    {
        self.failure = Some(message);
        self.stage = CreateStage::Removing;
        CreateAction::Remove
    }

    /// The source path was resolved, or not.
    pub fn on_source_path(&mut self, result: Result<(), String>) -> (action: CreateAction)
        requires
            old(self).wf(),
            old(self).stage == CreateStage::ResolvingSource,
        ensures
            *final(self) == (SavedataCreation { stage: final(self).stage, ..*old(self) }),
            final(self).wf(),
            create_edge(old(self).stage, final(self).stage),
            match result {
                Ok(_) => *final(self) == (SavedataCreation {
                    stage: CreateStage::LookingAtSource,
                    ..*old(self)
                }) && action == CreateAction::LookAtSource,
                Err(text) => SavedataCreation::fails(
                    *final(self),
                    action,
                    "存档路径解析失败: "@ + text@,
                ),
            },
    {
        match result {
            Ok(_) => {
                self.stage = CreateStage::LookingAtSource;
                CreateAction::LookAtSource
            },
            Err(text) => {
                let message: String = cat2("存档路径解析失败: ", text.as_str());
                self.fail(message)
            },
        }
    }

    /// The source was looked at.
    pub fn on_source(&mut self, seen: SourceSeen) -> (action: CreateAction)
        requires
            old(self).wf(),
            old(self).stage == CreateStage::LookingAtSource,
        ensures
            *final(self) == (SavedataCreation { stage: final(self).stage, ..*old(self) }),
            final(self).wf(),
            create_edge(old(self).stage, final(self).stage),
            match seen {
                SourceSeen::Present => *final(self) == (SavedataCreation {
                    stage: CreateStage::ResolvingRoot,
                    ..*old(self)
                }) && action == CreateAction::ResolveRoot,
                SourceSeen::Missing => SavedataCreation::fails(
                    *final(self),
                    action,
                    "源存档文件或文件夹不存在"@,
                ),
                SourceSeen::Failed(text) => SavedataCreation::fails(
                    *final(self),
                    action,
                    "检查源存档失败: "@ + text@,
                ),
            },
    {
        match seen {
            SourceSeen::Present => {
                self.stage = CreateStage::ResolvingRoot;
                CreateAction::ResolveRoot
            },
            SourceSeen::Missing => self.fail("源存档文件或文件夹不存在".to_owned()),
            SourceSeen::Failed(text) => {
                let message: String = cat2("检查源存档失败: ", text.as_str());
                self.fail(message)
            },
        }
    }

    /// The backup root was resolved, or not.
    pub fn on_root(&mut self, result: Result<(), String>) -> (action: CreateAction)
        requires
            old(self).wf(),
            old(self).stage == CreateStage::ResolvingRoot,
        ensures
            *final(self) == (SavedataCreation { stage: final(self).stage, ..*old(self) }),
            final(self).wf(),
            create_edge(old(self).stage, final(self).stage),
            match result {
                Ok(_) => *final(self) == (SavedataCreation {
                    stage: CreateStage::PreparingDirectory,
                    ..*old(self)
                }) && action == CreateAction::PrepareDirectory,
                Err(text) => SavedataCreation::fails(*final(self), action, text@),
            },
    {
        match result {
            Ok(_) => {
                self.stage = CreateStage::PreparingDirectory;
                CreateAction::PrepareDirectory
            },
            Err(text) => self.fail(text),
        }
    }

    /// The directory was created, or not.
    pub fn on_directory(&mut self, result: Result<(), String>) -> (action: CreateAction)
        requires
            old(self).wf(),
            old(self).stage == CreateStage::PreparingDirectory,
        ensures
            *final(self) == (SavedataCreation { stage: final(self).stage, ..*old(self) }),
            final(self).wf(),
            create_edge(old(self).stage, final(self).stage),
            match result {
                Ok(_) => *final(self) == (SavedataCreation {
                    stage: CreateStage::Naming,
                    ..*old(self)
                }) && action == CreateAction::PickName,
                Err(text) => SavedataCreation::fails(
                    *final(self),
                    action,
                    "创建备份目录失败: "@ + text@,
                ),
            },
    {
        match result {
            Ok(_) => {
                self.stage = CreateStage::Naming;
                CreateAction::PickName
            },
            Err(text) => {
                let message: String = cat2("创建备份目录失败: ", text.as_str());
                self.fail(message)
            },
        }
    }

    /// Names the archive after game and time: `lookup` says which names are
    /// free, `shown` how the archive with a name is shown to users. Nothing
    /// happens for a time beyond the calendar.
    pub fn on_named<F: Fn(&str) -> NameLookup, G: Fn(&str) -> String>(
        &mut self,
        lookup: &F,
        shown: &G,
    ) -> (action: Option<CreateAction>)
        requires
            old(self).wf(),
            old(self).stage == CreateStage::Naming,
            forall|text: &str| #[trigger] call_requires(*lookup, (text,)),
            forall|text: &str| #[trigger] call_requires(*shown, (text,)),
        ensures
            final(self).wf(),
            match action {
                None => backup_stamp(old(self).backup_time) is None && *final(self) == *old(self),
                Some(action) => {
                    &&& backup_stamp(old(self).backup_time) is Some
                    &&& create_edge(old(self).stage, final(self).stage)
                    &&& exists|name: Result<Seq<char>, Seq<char>>| #[trigger]
                        named_after(
                            *lookup,
                            old(self).game_id,
                            backup_stamp(old(self).backup_time)->Some_0,
                            name,
                        ) && match name {
                            Ok(name) => {
                                &&& *final(self) == (SavedataCreation {
                                    stage: CreateStage::Archiving,
                                    filename: final(self).filename,
                                    backup_path: final(self).backup_path,
                                    ..*old(self)
                                })
                                &&& final(self).filename@ == name
                                &&& shown_as(*shown, name, final(self).backup_path)
                                &&& action == CreateAction::Archive
                            },
                            Err(text) => SavedataCreation::fails(*final(self), action, text)
                                && *final(self) == (SavedataCreation {
                                stage: CreateStage::Failed,
                                ..*old(self)
                            }),
                        }
                },
            },
    {
        match next_backup_filename(self.game_id, self.backup_time, lookup) {
            None => None,
            Some(Err(text)) => {
                proof {
                    assert(text_result(Err::<String, String>(text)) == Err::<
                        Seq<char>,
                        Seq<char>,
                    >(text@));
                }
                Some(self.fail(text))
            },
            Some(Ok(name)) => {
                proof {
                    assert(text_result(Ok::<String, String>(name)) == Ok::<Seq<char>, Seq<char>>(
                        name@,
                    ));
                }
                let probe: &str = name.as_str();
                let path: String = shown(probe);
                assert(shown_as(*shown, name@, path));
                self.backup_path = path;
                self.filename = name;
                self.stage = CreateStage::Archiving;
                Some(CreateAction::Archive)
            },
        }
    }

    /// The archive was made, or not. Game and size have to fit the database.
    pub fn on_archived(&mut self, outcome: ArchiveOutcome) -> (action: CreateAction)
        requires
            old(self).wf(),
            old(self).stage == CreateStage::Archiving,
        ensures
            *final(self) == (SavedataCreation {
                stage: final(self).stage,
                file_size: final(self).file_size,
                failure: final(self).failure,
                ..*old(self)
            }),
            final(self).wf(),
            create_edge(old(self).stage, final(self).stage),
            match outcome {
                ArchiveOutcome::Failed(text) => SavedataCreation::fails(
                    *final(self),
                    action,
                    "创建压缩包失败: "@ + text@,
                ),
                ArchiveOutcome::Crashed(text) => old(self).removes(
                    *final(self),
                    action,
                    "备份任务异常退出: "@ + text@,
                ),
                ArchiveOutcome::Done(size) => if !(i32::MIN <= old(self).game_id <= i32::MAX) {
                    old(self).removes(*final(self), action, "游戏 ID 超出数据库范围"@)
                } else if size > i64::MAX {
                    old(self).removes(*final(self), action, "备份文件大小超出数据库范围"@)
                } else {
                    &&& *final(self) == (SavedataCreation {
                        stage: CreateStage::Saving,
                        file_size: size,
                        ..*old(self)
                    })
                    &&& action matches CreateAction::SaveRecord { game_id, file_size } && game_id
                        == old(self).game_id && file_size == size
                },
            },
    {
        match outcome {
            ArchiveOutcome::Failed(text) => {
                let message: String = cat2("创建压缩包失败: ", text.as_str());
                self.fail(message)
            },
            ArchiveOutcome::Crashed(text) => {
                let message: String = cat2("备份任务异常退出: ", text.as_str());
                self.remove(message)
            },
            ArchiveOutcome::Done(size) => {
                if self.game_id < -0x8000_0000 || self.game_id > 0x7fff_ffff {
                    return self.remove("游戏 ID 超出数据库范围".to_owned());
                }
                if size > 0x7fff_ffff_ffff_ffff {
                    return self.remove("备份文件大小超出数据库范围".to_owned());
                }
                self.file_size = size;
                self.stage = CreateStage::Saving;
                CreateAction::SaveRecord {
                    game_id: self.game_id as i32,
                    file_size: size as i64,
                }
            },
        }
    }

    /// The record was saved, or not.
    pub fn on_saved(&mut self, result: Result<i32, String>) -> (action: CreateAction)
        requires
            old(self).wf(),
            old(self).stage == CreateStage::Saving,
        ensures
            *final(self) == (SavedataCreation {
                stage: final(self).stage,
                failure: final(self).failure,
                ..*old(self)
            }),
            final(self).wf(),
            create_edge(old(self).stage, final(self).stage),
            match result {
                Ok(id) => {
                    &&& *final(self) == (SavedataCreation {
                        stage: CreateStage::CleaningUp,
                        ..*old(self)
                    })
                    &&& action matches CreateAction::CleanUp { game_id, backup_id } && game_id
                        == old(self).game_id && backup_id == id
                },
                Err(text) => old(self).removes(
                    *final(self),
                    action,
                    "保存存档备份记录失败: "@ + text@,
                ),
            },
    {
        match result {
            Ok(backup_id) => {
                self.stage = CreateStage::CleaningUp;
                CreateAction::CleanUp { game_id: self.game_id as i32, backup_id }
            },
            Err(text) => {
                let message: String = cat2("保存存档备份记录失败: ", text.as_str());
                self.remove(message)
            },
        }
    }

    /// Old backups were cleaned up, or not; the new backup stands either way.
    pub fn on_cleaned(&mut self) -> (action: CreateAction)
        requires
            old(self).wf(),
            old(self).stage == CreateStage::CleaningUp,
        ensures
            *final(self) == (SavedataCreation { stage: final(self).stage, ..*old(self) }),
            final(self).wf(),
            create_edge(old(self).stage, final(self).stage),
            final(self).stage == CreateStage::Created,
            action == CreateAction::Finish(
                Ok(
                    BackupInfo {
                        folder_name: old(self).filename,
                        backup_time: old(self).backup_time,
                        file_size: old(self).file_size,
                        backup_path: old(self).backup_path,
                    },
                ),
            ),
    {
        self.stage = CreateStage::Created;
        CreateAction::Finish(
            Ok(
                BackupInfo {
                    folder_name: self.filename.clone(),
                    backup_time: self.backup_time,
                    file_size: self.file_size,
                    backup_path: self.backup_path.clone(),
                },
            ),
        )
    }

    /// The archive was removed, or not.
    pub fn on_removed(&mut self, outcome: RemoveOutcome) -> (action: CreateAction)
        requires
            old(self).wf(),
            old(self).stage == CreateStage::Removing,
        ensures
            *final(self) == (SavedataCreation {
                stage: final(self).stage,
                failure: final(self).failure,
                ..*old(self)
            }),
            final(self).wf(),
            create_edge(old(self).stage, final(self).stage),
            SavedataCreation::fails(
                *final(self),
                action,
                old(self).failure->Some_0@ + match outcome {
                    RemoveOutcome::Removed => Seq::empty(),
                    RemoveOutcome::Missing => Seq::empty(),
                    RemoveOutcome::Failed(text) => "；同时清理未登记归档失败: "@ + text@,
                    RemoveOutcome::Crashed(text) => "；同时清理未登记归档任务失败: "@ + text@,
                },
            ),
    {
        let message: String = match self.failure.take() {
            Some(text) => text,
            None => String::new(),
        };
        let extended: String = match outcome {
            RemoveOutcome::Removed | RemoveOutcome::Missing => {
                assert(message@ + Seq::<char>::empty() =~= message@);
                message
            },
            RemoveOutcome::Failed(text) => {
                let suffix: String = cat2("；同时清理未登记归档失败: ", text.as_str());
                cat2(message.as_str(), suffix.as_str())
            },
            RemoveOutcome::Crashed(text) => {
                let suffix: String = cat2("；同时清理未登记归档任务失败: ", text.as_str());
                cat2(message.as_str(), suffix.as_str())
            },
        };
        self.fail(extended)
    }
}

/// A backup is named after its game and time, was free when it was named, and
/// is an archive.
pub proof fn backups_are_named_after_game_and_time<F: Fn(&str) -> NameLookup>(
    lookup: F,
    game_id: i64,
    stamp: Seq<char>,
    name: Seq<char>,
)
    requires
        named_after(lookup, game_id, stamp, Ok(name)),
    ensures
        exists|number: Seq<char>|
            name == #[trigger] ("savedata_v2_"@ + signed_decimal(game_id as int) + "_"@ + stamp
                + number + ".7z"@) && (number.len() == 0 || number[0] == '_'),
        answered(lookup, name, NameLookup::Free),
{
    let (artifacts, id) = choose|
        artifacts: Seq<(String, String)>,
        id: Result<Seq<char>, Seq<char>>,
    |
        artifacts.len() == 1 && artifacts[0].0@ == filename_prefix(game_id) && artifacts[0].1@
            == ".7z"@ && #[trigger] allocation(lookup, artifacts, stamp, id) && Ok::<
            Seq<char>,
            Seq<char>,
        >(name) == match id {
            Ok(id) => Ok::<Seq<char>, Seq<char>>(filename_prefix(game_id) + id + ".7z"@),
            Err(message) => Err(message),
        };
    let found = id->Ok_0;
    allocated_names_were_free(lookup, artifacts, stamp, found, 0);
    reveal_strlit("_");
    let number = found.skip(stamp.len() as int);
    if found != stamp {
        assert((stamp + "_"@) =~= found.subrange(0, stamp.len() as int + 1));
        assert(found[stamp.len() as int] == (stamp + "_"@)[stamp.len() as int]);
        assert(number[0] == '_');
        assert(found.take(stamp.len() as int) =~= stamp) by {
            assert forall|i: int| 0 <= i < stamp.len() implies found[i] == stamp[i] by {
                assert(found[i] == (stamp + "_"@)[i]);
            }
        }
    }
    assert(found =~= stamp + number);
    let head = "savedata_v2_"@ + signed_decimal(game_id as int) + "_"@;
    assert(name =~= head + stamp + number + ".7z"@);
}

/// The time in a name is year, month and day, then hour, minute and second.
pub proof fn stamps_are_ordered_like_times()
    ensures
        STAMP_PATTERN@ == "%Y%m%d"@ + "_"@ + "%H%M%S"@,
{
    reveal_strlit("%Y%m%d_%H%M%S");
    reveal_strlit("%Y%m%d");
    reveal_strlit("%H%M%S");
    reveal_strlit("_");
    assert(STAMP_PATTERN@ =~= "%Y%m%d"@ + "_"@ + "%H%M%S"@);
}

/// A step that removes the archive forgets nothing else of the backup and
/// keeps the message for the end; one that fails ends with its message.
pub proof fn failed_backups_keep_their_message(
    creation: SavedataCreation,
    after: SavedataCreation,
    action: CreateAction,
    message: Seq<char>,
)
    ensures
        creation.removes(after, action, message) ==> action == CreateAction::Remove && after.failure
            is Some && after.failure->Some_0@ == message && after.filename == creation.filename
            && after.game_id == creation.game_id,
        SavedataCreation::fails(after, action, message) ==> (action matches CreateAction::Finish(
            Err(text),
        ) && text@ == message),
{
}

} // verus!
