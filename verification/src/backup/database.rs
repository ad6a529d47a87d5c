//! Hot and cold database backups, and importing a database.

use vstd::prelude::*;
use vstd::string::*;

use super::common::{
    ensure_database_backup_available, mark_database_backup_unavailable, BackupAvailability,
    BackupResult,
};
use crate::host::IoFailure;
use crate::text::chars::same;
use crate::text::concat::{cat2, cat3, cat4, cat5, cat6};
use crate::text::number::{decimal, decimal_text};
use crate::text::scan::{replace, replaced};

verus! {

/// What an import came to.
#[derive(Clone, Debug)]
pub struct ImportResult {
    pub success: bool,
    pub message: String,
    pub backup_path: Option<String>,
}

/// A path as the body of an SQL string literal: forward slashes, and single
/// quotes doubled.
pub open spec fn sql_path(path: Seq<char>) -> Seq<char> {
    replaced(replaced(path, '\\', "/"@), '\'', "''"@)
}

/// The statement that writes a copy of the database to `path`; a path that is
/// not text is refused.
pub fn vacuum_statement(path: Option<&str>) -> (sql: Result<String, String>)
    ensures
        match path {
            Some(path) => sql matches Ok(sql) && sql@ == "VACUUM INTO '"@ + sql_path(path@) + "'"@,
            None => sql matches Err(message) && message@ == "备份路径包含无效字符"@,
        },
{
    let path: &str = match path {
        Some(path) => path,
        None => {
            return Err("备份路径包含无效字符".to_owned());
        },
    };
    let slashed: String = replace(path, '\\', "/");
    let escaped: String = replace(slashed.as_str(), '\'', "''");
    Ok(cat3("VACUUM INTO '", escaped.as_str(), "'"))
}

/// Reads the body of an SQL string literal: doubled quotes stand for one, and
/// a single quote would end the literal.
pub open spec fn literal_value(body: Seq<char>) -> Option<Seq<char>>
    decreases body.len(),
{
    if body.len() == 0 {
        Some(Seq::empty())
    } else if body.last() != '\'' {
        match literal_value(body.drop_last()) {
            Some(value) => Some(value.push(body.last())),
            None => None,
        }
    } else if body.len() >= 2 && body[body.len() - 2] == '\'' {
        match literal_value(body.take(body.len() - 2)) {
            Some(value) => Some(value.push('\'')),
            None => None,
        }
    } else {
        None
    }
}

proof fn quoted_value(text: Seq<char>)
    ensures
        literal_value(replaced(text, '\'', "''"@)) == Some(text),
    decreases text.len(),
{
    reveal_strlit("''");
    if text.len() > 0 {
        let rest = text.drop_last();
        quoted_value(rest);
        let inner = replaced(rest, '\'', "''"@);
        let body = replaced(text, '\'', "''"@);
        assert(text =~= rest.push(text.last()));
        if text.last() == '\'' {
            assert(body.last() == '\'');
            assert(body[body.len() - 2] == '\'');
            assert(body.take(body.len() - 2) =~= inner);
        } else {
            assert(body.drop_last() =~= inner);
        }
    } else {
        assert(replaced(text, '\'', "''"@) =~= Seq::<char>::empty());
        assert(text =~= Seq::<char>::empty());
    }
}

/// No path can end the literal early: the statement names exactly the path,
/// with forward slashes.
pub proof fn path_cannot_escape_its_literal(path: Seq<char>)
    ensures
        literal_value(sql_path(path)) == Some(replaced(path, '\\', "/"@)),
{
    quoted_value(replaced(path, '\\', "/"@));
}

/// Message of a database file that is not there.
pub fn missing_database_message(path: &str) -> (text: String)
    ensures
        text@ == "当前数据库文件不存在: "@ + path@,
{
    cat2("当前数据库文件不存在: ", path)
}

/// A file copied whole: its length is read first, compared with what was
/// copied, and the copy is flushed.
#[derive(Debug)]
pub struct FullCopy {
    pub source: String,
    pub target: String,
    pub expected: u64,
}

impl FullCopy {
    /// The length of the source was read, or not.
    pub fn begin(source: String, target: String, len: Result<u64, IoFailure>) -> (copy: Result<
        FullCopy,
        String,
    >)
        ensures
            match len {
                Ok(len) => copy == Ok::<FullCopy, String>(
                    FullCopy { source, target, expected: len },
                ),
                Err(failure) => copy matches Err(text) && text@ == "读取源文件失败 "@ + source@
                    + ": "@ + failure.text@,
            },
    {
        match len {
            Ok(expected) => Ok(FullCopy { source, target, expected }),
            Err(failure) => Err(
                cat4("读取源文件失败 ", source.as_str(), ": ", failure.text.as_str()),
            ),
        }
    }

    /// The bytes were copied, or not; all of them have to be.
    pub fn on_copied(&self, copied: Result<u64, IoFailure>) -> (result: Result<(), String>)
        ensures
            match copied {
                Ok(count) => if count == self.expected {
                    result is Ok
                } else {
                    result matches Err(text) && text@ == "复制文件大小不一致，期望 "@ + decimal(
                        self.expected as nat,
                    ) + " 字节，实际 "@ + decimal(count as nat) + " 字节"@
                },
                Err(failure) => result matches Err(text) && text@ == "复制文件失败 "@
                    + self.source@ + " -> "@ + self.target@ + ": "@ + failure.text@,
            },
    {
        match copied {
            Ok(count) => {
                if count != self.expected {
                    return Err(
                        cat5(
                            "复制文件大小不一致，期望 ",
                            decimal_text(self.expected).as_str(),
                            " 字节，实际 ",
                            decimal_text(count).as_str(),
                            " 字节",
                        ),
                    );
                }
                Ok(())
            },
            Err(failure) => Err(
                cat6(
                    "复制文件失败 ",
                    self.source.as_str(),
                    " -> ",
                    self.target.as_str(),
                    ": ",
                    failure.text.as_str(),
                ),
            ),
        }
    }

    /// The copy was flushed, or not.
    pub fn on_synced(&self, result: Result<(), IoFailure>) -> (judged: Result<(), String>)
        ensures
            match result {
                Ok(_) => judged is Ok,
                Err(failure) => judged matches Err(text) && text@ == "同步临时文件失败 "@
                    + self.target@ + ": "@ + failure.text@,
            },
    {
        match result {
            Ok(_) => Ok(()),
            Err(failure) => Err(
                cat4(
                    "同步临时文件失败 ",
                    self.target.as_str(),
                    ": ",
                    failure.text.as_str(),
                ),
            ),
        }
    }
}

/// What is known of a file that is to be imported.
#[derive(Clone, Debug)]
pub struct ImportSource {
    /// The path as shown to users.
    pub path: String,
    pub absolute: bool,
    pub is_file: bool,
    pub extension: Option<String>,
    /// It is the database in use.
    pub current: bool,
}

/// Verdict on a file that is to be imported; the first fault counts.
pub open spec fn import_verdict(source: ImportSource) -> Result<(), Seq<char>> {
    if !source.absolute {
        Err("源数据库路径必须是绝对路径"@)
    } else if !source.is_file {
        Err("源数据库文件不存在或不是文件: "@ + source.path@)
    } else if !(source.extension matches Some(extension) && extension@ == "db"@) {
        Err("无效的数据库文件，请选择 .db 文件"@)
    } else if source.current {
        Err("不能导入当前正在使用的数据库文件"@)
    } else {
        Ok(())
    }
}

/// Judges a file that is to be imported.
pub fn validate_import(source: &ImportSource) -> (result: Result<(), String>)
    ensures
        match import_verdict(*source) {
            Ok(_) => result is Ok,
            Err(text) => result matches Err(found) && found@ == text,
        },
{
    if !source.absolute {
        return Err("源数据库路径必须是绝对路径".to_owned());
    }
    if !source.is_file {
        return Err(cat2("源数据库文件不存在或不是文件: ", source.path.as_str()));
    }
    let known: bool = match &source.extension {
        Some(extension) => same(extension.as_str(), "db"),
        None => false,
    };
    if !known {
        return Err("无效的数据库文件，请选择 .db 文件".to_owned());
    }
    if source.current {
        return Err("不能导入当前正在使用的数据库文件".to_owned());
    }
    Ok(())
}

/// What an import waits for, or how it ended.
#[derive(Clone, Copy, Debug, PartialEq, Eq, Structural)]
pub enum ImportStage {
    ResolvingDirectory,
    BackingUpCovers,
    ClosingDatabase,
    BackingUpDatabase,
    DeletingCovers,
    CopyingDatabase,
    Imported,
    Failed,
}

pub open spec fn import_edge(from: ImportStage, to: ImportStage) -> bool {
    match from {
        ImportStage::ResolvingDirectory => to == ImportStage::BackingUpCovers || to
            == ImportStage::Failed,
        ImportStage::BackingUpCovers => to == ImportStage::ClosingDatabase || to
            == ImportStage::Failed,
        ImportStage::ClosingDatabase => to == ImportStage::BackingUpDatabase || to
            == ImportStage::Failed,
        ImportStage::BackingUpDatabase => to == ImportStage::DeletingCovers,
        ImportStage::DeletingCovers => to == ImportStage::CopyingDatabase || to
            == ImportStage::Failed,
        ImportStage::CopyingDatabase => to == ImportStage::Imported || to == ImportStage::Failed,
        ImportStage::Imported => false,
        ImportStage::Failed => false,
    }
}

pub open spec fn import_history(stages: Seq<ImportStage>) -> bool {
    &&& stages.len() > 0
    &&& stages[0] == ImportStage::ResolvingDirectory
    &&& forall|i: int|
        0 < i < stages.len() ==> import_edge(#[trigger] stages[i - 1], stages[i])
}

/// Covers are deleted only after they were backed up, the connection was
/// closed and a backup of the database was tried; the database is replaced
/// only after that.
pub proof fn import_destroys_last(stages: Seq<ImportStage>, at: int)
    requires
        import_history(stages),
        0 <= at < stages.len(),
        stages[at] == ImportStage::CopyingDatabase,
    ensures
        at == 5,
        stages[4] == ImportStage::DeletingCovers,
        stages[3] == ImportStage::BackingUpDatabase,
        stages[2] == ImportStage::ClosingDatabase,
        stages[1] == ImportStage::BackingUpCovers,
{
    assert(at >= 1);
    assert(import_edge(stages[at - 1], stages[at]));
    assert(at >= 2);
    assert(import_edge(stages[(at - 1) - 1], stages[at - 1]));
    assert(at >= 3);
    assert(import_edge(stages[(at - 2) - 1], stages[at - 2]));
    assert(at >= 4);
    assert(import_edge(stages[(at - 3) - 1], stages[at - 3]));
    assert(at >= 5);
    assert(import_edge(stages[(at - 4) - 1], stages[at - 4]));
    if at > 5 {
        assert(import_edge(stages[(at - 5) - 1], stages[at - 5]));
    }
}

/// What the host does next.
#[derive(Debug)]
pub enum ImportAction {
    ResolveDirectory,
    BackUpCovers,
    CloseDatabase,
    BackUpDatabase,
    DeleteCovers,
    CopyDatabase,
    Finish(Result<ImportResult, String>),
}

/// An import under way.
pub struct Import {
    pub stage: ImportStage,
    pub backup_path: Option<String>,
}

impl Import {
    /// Starts an import of a file that will do, if backups are still
    /// possible.
    pub fn begin(source: &ImportSource, state: &BackupAvailability) -> (import: Result<
        Import,
        String,
    >)
        ensures
            match import_verdict(*source) {
                Err(text) => import matches Err(found) && found@ == text,
                Ok(_) => if state.available {
                    import == Ok::<Import, String>(
                        Import { stage: ImportStage::ResolvingDirectory, backup_path: None },
                    )
                } else {
                    import matches Err(found) && found@
                        == "数据库正在关闭或等待应用重启，无法继续备份"@
                },
            },
    {
        if let Err(message) = validate_import(source) {
            return Err(message);
        }
        if let Err(message) = ensure_database_backup_available(state) {
            return Err(message);
        }
        Ok(Import { stage: ImportStage::ResolvingDirectory, backup_path: None })
    }

    /// The backup directory is known, or not.
    pub fn on_directory(&mut self, result: Result<(), String>) -> (action: ImportAction)
        requires
            old(self).stage == ImportStage::ResolvingDirectory,
        ensures
            *final(self) == (Import { stage: final(self).stage, ..*old(self) }),
            import_edge(old(self).stage, final(self).stage),
            match result {
                Ok(_) => final(self).stage == ImportStage::BackingUpCovers && action
                    == ImportAction::BackUpCovers,
                Err(text) => final(self).stage == ImportStage::Failed && action
                    == ImportAction::Finish(Err(text)),
            },
    {
        match result {
            Ok(_) => {
                self.stage = ImportStage::BackingUpCovers;
                ImportAction::BackUpCovers
            },
            Err(text) => {
                self.stage = ImportStage::Failed;
                ImportAction::Finish(Err(text))
            },
        }
    }

    /// The covers were backed up, or not.
    pub fn on_covers(&mut self, result: Result<BackupResult, String>) -> (action: ImportAction)
        requires
            old(self).stage == ImportStage::BackingUpCovers,
        ensures
            *final(self) == (Import { stage: final(self).stage, ..*old(self) }),
            import_edge(old(self).stage, final(self).stage),
            match result {
                Ok(_) => final(self).stage == ImportStage::ClosingDatabase && action
                    == ImportAction::CloseDatabase,
                Err(text) => final(self).stage == ImportStage::Failed && action
                    == ImportAction::Finish(Err(text)),
            },
    {
        match result {
            Ok(_) => {
                self.stage = ImportStage::ClosingDatabase;
                ImportAction::CloseDatabase
            },
            Err(text) => {
                self.stage = ImportStage::Failed;
                ImportAction::Finish(Err(text))
            },
        }
    }

    /// The connection was closed, or not. Once closed, no backup can start.
    pub fn on_closed(&mut self, result: Result<(), String>, state: &mut BackupAvailability) -> (
    action: ImportAction)
        requires
            old(self).stage == ImportStage::ClosingDatabase,
        ensures
            *final(self) == (Import { stage: final(self).stage, ..*old(self) }),
            import_edge(old(self).stage, final(self).stage),
            match result {
                Ok(_) => {
                    &&& final(self).stage == ImportStage::BackingUpDatabase
                    &&& action == ImportAction::BackUpDatabase
                    &&& !final(state).available
                },
                Err(text) => {
                    &&& final(self).stage == ImportStage::Failed
                    &&& *final(state) == *old(state)
                    &&& action matches ImportAction::Finish(Err(found)) && found@
                        == "关闭数据库连接失败: "@ + text@
                },
            },
    {
        match result {
            Ok(_) => {
                mark_database_backup_unavailable(state);
                self.stage = ImportStage::BackingUpDatabase;
                ImportAction::BackUpDatabase
            },
            Err(text) => {
                self.stage = ImportStage::Failed;
                ImportAction::Finish(Err(cat2("关闭数据库连接失败: ", text.as_str())))
            },
        }
    }

    /// A backup of the database was tried; the import goes on either way.
    pub fn on_database(&mut self, result: Result<BackupResult, String>) -> (action: ImportAction)
        requires
            old(self).stage == ImportStage::BackingUpDatabase,
        ensures
            import_edge(old(self).stage, final(self).stage),
            final(self).stage == ImportStage::DeletingCovers,
            final(self).backup_path == match result {
                Ok(done) => done.path,
                Err(_) => None,
            },
            action == ImportAction::DeleteCovers,
    {
        self.backup_path = match result {
            Ok(done) => done.path,
            Err(_) => None,
        };
        self.stage = ImportStage::DeletingCovers;
        ImportAction::DeleteCovers
    }

    /// The covers were deleted, or not.
    pub fn on_covers_deleted(&mut self, result: Result<(), String>) -> (action: ImportAction)
        requires
            old(self).stage == ImportStage::DeletingCovers,
        ensures
            *final(self) == (Import { stage: final(self).stage, ..*old(self) }),
            import_edge(old(self).stage, final(self).stage),
            match result {
                Ok(_) => final(self).stage == ImportStage::CopyingDatabase && action
                    == ImportAction::CopyDatabase,
                Err(text) => final(self).stage == ImportStage::Failed && action
                    == ImportAction::Finish(Err(text)),
            },
    {
        match result {
            Ok(_) => {
                self.stage = ImportStage::CopyingDatabase;
                ImportAction::CopyDatabase
            },
            Err(text) => {
                self.stage = ImportStage::Failed;
                ImportAction::Finish(Err(text))
            },
        }
    }

    /// The database was copied into place, or not.
    pub fn on_copied(&mut self, result: Result<(), IoFailure>) -> (action: ImportAction)
        requires
            old(self).stage == ImportStage::CopyingDatabase,
        ensures
            import_edge(old(self).stage, final(self).stage),
            match result {
                Ok(_) => {
                    &&& final(self).stage == ImportStage::Imported
                    &&& action matches ImportAction::Finish(Ok(done)) && done.success
                        && done.message@
                        == "数据库导入成功，已备份自定义封面并清空封面缓存，应用将自动重启"@
                        && done.backup_path == old(self).backup_path
                },
                Err(failure) => {
                    &&& final(self).stage == ImportStage::Failed
                    &&& action matches ImportAction::Finish(Err(found)) && found@
                        == "复制数据库文件失败: "@ + failure.text@
                },
            },
    {
        match result {
            Ok(_) => {
                self.stage = ImportStage::Imported;
                let backup_path: Option<String> = self.backup_path.take();
                ImportAction::Finish(
                    Ok(
                        ImportResult {
                            success: true,
                            message:
                                "数据库导入成功，已备份自定义封面并清空封面缓存，应用将自动重启".to_owned(),
                            backup_path,
                        },
                    ),
                )
            },
            Err(failure) => {
                self.stage = ImportStage::Failed;
                ImportAction::Finish(Err(cat2("复制数据库文件失败: ", failure.text.as_str())))
            },
        }
    }
}

/// A file is imported exactly if it is an absolute path of a file that ends in
/// `db` and is not the database in use.
pub proof fn imports_need_another_database_file(source: ImportSource)
    ensures
        import_verdict(source) is Ok <==> source.absolute && source.is_file && !source.current && (
        source.extension matches Some(extension) && extension@ == "db"@),
{
}

/// In a statement every backslash of a path is a slash and every quote stands
/// twice; all other characters are kept, one after the other.
pub proof fn sql_paths_keep_their_letters(path: Seq<char>, letter: char)
    ensures
        sql_path(Seq::empty()) == Seq::<char>::empty(),
        sql_path(path.push(letter)) == sql_path(path) + if letter == '\\' {
            seq!['/']
        } else if letter == '\'' {
            seq!['\'', '\'']
        } else {
            seq![letter]
        },
{
    reveal_strlit("/");
    reveal_strlit("''");
    let inner = replaced(path, '\\', "/"@);
    assert(path.push(letter).drop_last() =~= path);
    if letter == '\\' {
        assert(inner + "/"@ =~= inner.push('/'));
        assert(inner.push('/').drop_last() =~= inner);
    } else {
        assert(inner + seq![letter] =~= inner.push(letter));
        assert(inner.push(letter).drop_last() =~= inner);
    }
    assert("/"@ =~= seq!['/']);
    assert("''"@ =~= seq!['\'', '\'']);
}

} // verus!
