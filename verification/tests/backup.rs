use reina_manager::backup::automatic::{
    batch_artifacts, AutoAction, AutoBackup, AutoBackupRequest, AutoBackupTrigger, AutoStage,
};
use reina_manager::backup::common::{
    batches_to_remove, choose_backup_dir, cleanup_auto_backup_batches,
    ensure_database_backup_available, extract_auto_backup_batch_id,
    mark_database_backup_unavailable, next_backup_filename, next_backup_id,
    temporary_sibling_path, BackupAvailability, BackupResult, BatchAction, CustomDirectory,
    NameLookup, RemoveFailure,
};
use reina_manager::backup::covers::{
    custom_cover, delete_covers_message, game_directory, no_covers_result, scan_custom_covers,
    CoverDirectory, CoverEntry,
};
use reina_manager::backup::database::{
    missing_database_message, vacuum_statement, validate_import, FullCopy, Import, ImportAction,
    ImportSource,
};
use reina_manager::backup::staged::{
    ensure_target_absent, StagedAction, StagedBackup, StagedKind, StagedStage,
};
use reina_manager::host::{IoFailure, IoKind, Presence};

fn texts(names: &[&str]) -> Vec<String> {
    names.iter().map(|name| name.to_string()).collect()
}

fn io(text: &str) -> IoFailure {
    IoFailure::new(IoKind::Other, text.to_string())
}

fn directory(names: &[&str]) -> impl Fn(&str) -> NameLookup {
    let names = texts(names);
    move |name: &str| {
        if names.iter().any(|known| known == name) {
            NameLookup::Taken
        } else {
            NameLookup::Free
        }
    }
}

fn done(path: Option<&str>) -> BackupResult {
    BackupResult {
        success: true,
        path: path.map(str::to_string),
        message: "ok".to_string(),
    }
}

#[test]
fn cleans_database_and_cover_files_by_shared_batch() {
    let mut files = Vec::new();
    for batch in ["20260101_000000_000", "20260102_000000_000"] {
        files.push(format!("reina_manager_auto_{batch}.db"));
        files.push(format!("custom_covers_auto_{batch}.7z"));
    }
    files.push("reina_manager_20250101_000000.db".to_string());
    let mut removed = Vec::new();
    let (mut cleanup, mut action) = cleanup_auto_backup_batches(&files, 1);
    let deleted = loop {
        action = match action {
            BatchAction::Finish(result) => break result.unwrap(),
            BatchAction::Remove(name) => {
                removed.push(name);
                cleanup.on_removed(None)
            }
        };
    };
    assert_eq!(deleted.len(), 2);
    assert_eq!(
        removed,
        vec![
            "reina_manager_auto_20260101_000000_000.db",
            "custom_covers_auto_20260101_000000_000.7z"
        ]
    );
    assert_eq!(deleted, removed);
}

#[test]
fn at_least_one_batch_is_kept() {
    let files = texts(&[
        "reina_manager_auto_c.db",
        "reina_manager_auto_a.db",
        "custom_covers_auto_b.7z",
        "reina_manager_auto_.db",
        "notes.txt",
    ]);
    assert_eq!(
        batches_to_remove(&files, 0),
        vec!["reina_manager_auto_a.db", "custom_covers_auto_b.7z"]
    );
    assert_eq!(batches_to_remove(&files, 2), vec!["reina_manager_auto_a.db"]);
    assert!(batches_to_remove(&files, 3).is_empty());
    assert_eq!(extract_auto_backup_batch_id("reina_manager_auto_x.7z"), None);
    assert_eq!(
        extract_auto_backup_batch_id("custom_covers_auto_x.7z").as_deref(),
        Some("x")
    );
}

#[test]
fn cleanup_stops_at_the_first_failure() {
    let files = texts(&["reina_manager_auto_a.db", "reina_manager_auto_b.db", "reina_manager_auto_c.db"]);
    let (mut cleanup, action) = cleanup_auto_backup_batches(&files, 1);
    assert!(matches!(action, BatchAction::Remove(name) if name == "reina_manager_auto_a.db"));
    let action = cleanup.on_removed(Some(RemoveFailure {
        path: "/b/a.db".to_string(),
        text: "busy".to_string(),
    }));
    match action {
        BatchAction::Finish(Err(error)) => {
            assert_eq!(error, "删除旧自动备份失败 /b/a.db: busy")
        }
        _ => panic!("nothing more is removed"),
    }
    let (_, action) = cleanup_auto_backup_batches(&files, 3);
    assert!(matches!(action, BatchAction::Finish(Ok(names)) if names.is_empty()));
}

#[test]
fn allocates_one_id_for_every_artifact_in_a_batch() {
    let lookup = directory(&["custom_covers_auto_20260922_193000.7z"]);
    let batch_id = next_backup_id("20260922_193000", &batch_artifacts(), &lookup).unwrap();
    assert_eq!(batch_id, "20260922_193000_001");
}

#[test]
fn allocates_suffix_for_a_manual_backup_collision() {
    let lookup = directory(&["reina_manager_20260922_193000.db"]);
    let filename =
        next_backup_filename("reina_manager_", "20260922_193000", ".db", &lookup).unwrap();
    assert_eq!(filename, "reina_manager_20260922_193000_001.db");
}

#[test]
fn allocation_can_fail() {
    let error = next_backup_filename("p", "t", ".x", &|_: &str| NameLookup::Taken).unwrap_err();
    assert_eq!(error, "同一时间生成的备份文件过多，请稍后重试");
    let error = next_backup_filename("p", "t", ".x", &|name: &str| NameLookup::Failed {
        path: format!("/d/{name}"),
        failure: io("denied"),
    })
    .unwrap_err();
    assert_eq!(error, "检查备份文件名是否冲突失败 /d/pt.x: denied");
    assert_eq!(next_backup_filename("p", "t", ".x", &|_: &str| NameLookup::Free).unwrap(), "pt.x");
}

#[test]
fn temporary_names_lie_beside_their_target() {
    let name = Some("a.db".to_string());
    let clock = Ok(77u128);
    let pick = |lookup: &dyn Fn(&str) -> NameLookup| {
        temporary_sibling_path("/d/a.db", true, &name, "reina-creating", 5, &clock, &|text: &str| {
            lookup(text)
        })
    };
    assert_eq!(pick(&|_| NameLookup::Free).unwrap(), ".a.db.reina-creating-5-77-0");
    let used = directory(&[".a.db.reina-creating-5-77-0"]);
    assert_eq!(pick(&used).unwrap(), ".a.db.reina-creating-5-77-1");
    assert_eq!(pick(&|_| NameLookup::Taken).unwrap_err(), "无法生成唯一的临时文件路径");
    let free = |_: &str| NameLookup::Free;
    let error = temporary_sibling_path("/", false, &name, "m", 5, &clock, &free).unwrap_err();
    assert_eq!(error, "目标文件缺少父目录: /");
    let error = temporary_sibling_path("/..", true, &None, "m", 5, &clock, &free).unwrap_err();
    assert_eq!(error, "目标文件缺少有效名称: /..");
    let broken = Err("no clock".to_string());
    let error = temporary_sibling_path("/d/a", true, &name, "m", 5, &broken, &free).unwrap_err();
    assert_eq!(error, "获取临时文件时间失败: no clock");
}

#[test]
fn backups_end_with_the_connection() {
    let mut state = BackupAvailability::new();
    assert!(ensure_database_backup_available(&state).is_ok());
    mark_database_backup_unavailable(&mut state);
    assert_eq!(
        ensure_database_backup_available(&state).unwrap_err(),
        "数据库正在关闭或等待应用重启，无法继续备份"
    );
}

#[test]
fn the_configured_directory_is_used_if_it_can_be() {
    assert_eq!(
        choose_backup_dir(CustomDirectory::Usable("/b".to_string())).as_deref(),
        Some("/b")
    );
    assert_eq!(choose_backup_dir(CustomDirectory::Unusable), None);
    assert_eq!(choose_backup_dir(CustomDirectory::Unset), None);
}

fn finished(action: StagedAction) -> Result<BackupResult, String> {
    match action {
        StagedAction::Finish(result) => result,
        other => panic!("not finished: {other:?}"),
    }
}

#[test]
fn staged_backups_appear_complete() {
    let mut backup = StagedBackup::new(StagedKind::HotDatabase, "/b/x.db".to_string());
    assert!(matches!(backup.on_target(Presence::Absent), StagedAction::PickName));
    assert!(matches!(backup.on_named(Ok(())), StagedAction::Produce));
    assert!(matches!(backup.on_produced(Ok(())), StagedAction::LookAtTarget));
    assert!(matches!(backup.on_target(Presence::Absent), StagedAction::Rename));
    let result = finished(backup.on_renamed(Ok(()))).unwrap();
    assert_eq!(result.path.as_deref(), Some("/b/x.db"));
    assert_eq!(result.message, "数据库备份成功");
}

#[test]
fn hot_backup_never_removes_an_existing_target() {
    let mut backup = StagedBackup::new(StagedKind::HotDatabase, "existing.db".to_string());
    let error = finished(backup.on_target(Presence::Present)).unwrap_err();
    assert_eq!(error, "数据库备份文件已存在，拒绝覆盖: existing.db");
    assert_eq!(backup.stage, StagedStage::Failed);
}

#[test]
fn cold_backup_never_overwrites_an_existing_target() {
    let mut backup = StagedBackup::new(StagedKind::ColdDatabase, "existing.db".to_string());
    assert!(finished(backup.on_target(Presence::Present)).is_err());
    let mut backup = StagedBackup::new(StagedKind::ColdDatabase, "existing.db".to_string());
    backup.on_target(Presence::Absent);
    backup.on_named(Ok(()));
    backup.on_produced(Ok(()));
    assert!(matches!(backup.on_target(Presence::Present), StagedAction::DropTemporary));
    assert_eq!(
        finished(backup.on_dropped()).unwrap_err(),
        "数据库备份文件已存在，拒绝覆盖: existing.db"
    );
}

#[test]
fn staged_failures_are_worded_and_cleaned_up() {
    let mut backup = StagedBackup::new(StagedKind::ColdDatabase, "x".to_string());
    backup.on_target(Presence::Absent);
    backup.on_named(Ok(()));
    assert!(matches!(
        backup.on_produced(Err("short".to_string())),
        StagedAction::DropTemporary
    ));
    assert_eq!(finished(backup.on_dropped()).unwrap_err(), "数据库冷备份失败: short");

    let mut backup = StagedBackup::new(StagedKind::Covers, "x.7z".to_string());
    backup.on_target(Presence::Absent);
    assert!(matches!(backup.on_named(Err("none".to_string())), StagedAction::ClearScratch));
    assert_eq!(finished(backup.on_cleared()).unwrap_err(), "none");

    let mut backup = StagedBackup::new(StagedKind::Covers, "x.7z".to_string());
    backup.on_target(Presence::Absent);
    backup.on_named(Ok(()));
    backup.on_produced(Ok(()));
    backup.on_target(Presence::Absent);
    assert!(matches!(backup.on_renamed(Err(io("busy"))), StagedAction::DropTemporary));
    assert!(matches!(backup.on_dropped(), StagedAction::ClearScratch));
    assert_eq!(
        finished(backup.on_cleared()).unwrap_err(),
        "提交自定义封面备份失败: busy"
    );

    let mut backup = StagedBackup::new(StagedKind::Covers, "x.7z".to_string());
    backup.on_target(Presence::Absent);
    backup.on_named(Ok(()));
    backup.on_produced(Ok(()));
    backup.on_target(Presence::Absent);
    assert!(matches!(backup.on_renamed(Ok(())), StagedAction::ClearScratch));
    assert_eq!(finished(backup.on_cleared()).unwrap().message, "自定义封面备份成功");

    let failed = Presence::Failed(io("denied"));
    assert_eq!(
        ensure_target_absent(StagedKind::Covers, "x", &failed).unwrap_err(),
        "检查封面备份目标失败 x: denied"
    );
    assert_eq!(
        ensure_target_absent(StagedKind::HotDatabase, "x", &failed).unwrap_err(),
        "检查数据库备份目标失败 x: denied"
    );
    assert_eq!(
        ensure_target_absent(StagedKind::Covers, "x", &Presence::Present).unwrap_err(),
        "备份文件已存在，拒绝覆盖: x"
    );
}

#[test]
fn only_custom_covers_are_collected() {
    assert!(game_directory("game_7") && game_directory("game_"));
    assert!(!game_directory("cloud") && !game_directory("my_game_7"));
    assert!(custom_cover("game_1", "cover_1_jpg_17.jpg"));
    assert!(!custom_cover("game_1", "cover_10_jpg_17.jpg"));
    assert!(!custom_cover("game_1", "cover_1.jpg"));
    assert!(!custom_cover("game_1", "cloud_1_x.jpg"));
    assert!(!custom_cover("other", "cover__x"));
    let entry = |name: &str, is_file: bool| CoverEntry {
        name: name.to_string(),
        is_file,
    };
    let dirs = vec![
        CoverDirectory {
            name: "game_1".to_string(),
            is_dir: true,
            entries: vec![
                entry("cloud_1_a", true),
                entry("cover_1_a", true),
                entry("cover_1_dir", false),
                entry("cover_1_b", true),
            ],
        },
        CoverDirectory {
            name: "game_2".to_string(),
            is_dir: true,
            entries: vec![entry("cloud_2_a", true)],
        },
        CoverDirectory {
            name: "game_3".to_string(),
            is_dir: false,
            entries: vec![entry("cover_3_a", true)],
        },
        CoverDirectory {
            name: "game_4".to_string(),
            is_dir: true,
            entries: vec![entry("cover_4_a", true)],
        },
    ];
    let copies: Vec<(String, String, bool)> = scan_custom_covers(&dirs)
        .into_iter()
        .map(|copy| (copy.directory, copy.file, copy.first))
        .collect();
    let expected = [
        ("game_1", "cover_1_a", true),
        ("game_1", "cover_1_b", false),
        ("game_4", "cover_4_a", true),
    ];
    assert_eq!(copies.len(), expected.len());
    for (copy, wanted) in copies.iter().zip(expected) {
        assert_eq!((copy.0.as_str(), copy.1.as_str(), copy.2), wanted);
    }
    let nothing = no_covers_result();
    assert!(nothing.success && nothing.path.is_none());
    assert_eq!(nothing.message, "没有自定义封面需要备份");
    assert_eq!(delete_covers_message("/c", "busy"), "无法删除封面目录 /c: busy");
}

#[test]
fn vacuum_statements_quote_their_path() {
    assert_eq!(
        vacuum_statement(Some("C:\\it's\\x.db")).unwrap(),
        "VACUUM INTO 'C:/it''s/x.db'"
    );
    assert_eq!(
        vacuum_statement(Some("/a/b")).unwrap(),
        "VACUUM INTO '/a/b'"
    );
    assert_eq!(vacuum_statement(None).unwrap_err(), "备份路径包含无效字符");
}

#[test]
fn files_are_copied_whole() {
    let copy = FullCopy::begin("s".to_string(), "t".to_string(), Ok(5)).unwrap();
    assert!(copy.on_copied(Ok(5)).is_ok());
    assert_eq!(
        copy.on_copied(Ok(4)).unwrap_err(),
        "复制文件大小不一致，期望 5 字节，实际 4 字节"
    );
    assert_eq!(copy.on_copied(Err(io("full"))).unwrap_err(), "复制文件失败 s -> t: full");
    assert!(copy.on_synced(Ok(())).is_ok());
    assert_eq!(copy.on_synced(Err(io("lost"))).unwrap_err(), "同步临时文件失败 t: lost");
    let error = FullCopy::begin("s".to_string(), "t".to_string(), Err(io("gone"))).unwrap_err();
    assert_eq!(error, "读取源文件失败 s: gone");
    assert_eq!(missing_database_message("/d"), "当前数据库文件不存在: /d");
}

fn source() -> ImportSource {
    ImportSource {
        path: "/in.db".to_string(),
        absolute: true,
        is_file: true,
        extension: Some("db".to_string()),
        current: false,
    }
}

#[test]
fn imports_are_validated() {
    let fault = |change: fn(&mut ImportSource)| {
        let mut source = source();
        change(&mut source);
        validate_import(&source).unwrap_err()
    };
    assert!(validate_import(&source()).is_ok());
    assert_eq!(fault(|source| source.absolute = false), "源数据库路径必须是绝对路径");
    assert_eq!(
        fault(|source| source.is_file = false),
        "源数据库文件不存在或不是文件: /in.db"
    );
    assert_eq!(
        fault(|source| source.extension = Some("DB".to_string())),
        "无效的数据库文件，请选择 .db 文件"
    );
    assert_eq!(fault(|source| source.extension = None), "无效的数据库文件，请选择 .db 文件");
    assert_eq!(fault(|source| source.current = true), "不能导入当前正在使用的数据库文件");
}

#[test]
fn imports_destroy_last() {
    let mut state = BackupAvailability::new();
    let mut import = Import::begin(&source(), &state).unwrap();
    assert!(matches!(import.on_directory(Ok(())), ImportAction::BackUpCovers));
    assert!(matches!(import.on_covers(Ok(done(None))), ImportAction::CloseDatabase));
    assert!(state.available);
    assert!(matches!(import.on_closed(Ok(()), &mut state), ImportAction::BackUpDatabase));
    assert!(!state.available);
    assert!(matches!(
        import.on_database(Ok(done(Some("/b.db")))),
        ImportAction::DeleteCovers
    ));
    assert!(matches!(import.on_covers_deleted(Ok(())), ImportAction::CopyDatabase));
    match import.on_copied(Ok(())) {
        ImportAction::Finish(Ok(result)) => {
            assert!(result.success);
            assert_eq!(result.backup_path.as_deref(), Some("/b.db"));
        }
        _ => panic!("the import is done"),
    }
    assert!(Import::begin(&source(), &state).is_err());

    let mut state = BackupAvailability::new();
    let mut import = Import::begin(&source(), &state).unwrap();
    import.on_directory(Ok(()));
    import.on_covers(Ok(done(None)));
    match import.on_closed(Err("busy".to_string()), &mut state) {
        ImportAction::Finish(Err(text)) => assert_eq!(text, "关闭数据库连接失败: busy"),
        _ => panic!("an open database cannot be replaced"),
    }
    assert!(state.available);
    let mut import = Import::begin(&source(), &state).unwrap();
    import.on_directory(Ok(()));
    import.on_covers(Ok(done(None)));
    import.on_closed(Ok(()), &mut state);
    import.on_database(Err("skipped".to_string()));
    import.on_covers_deleted(Ok(()));
    match import.on_copied(Err(io("full"))) {
        ImportAction::Finish(Err(text)) => assert_eq!(text, "复制数据库文件失败: full"),
        _ => panic!("the copy failed"),
    }
}

fn automatic(trigger: AutoBackupTrigger, covers: bool) -> (AutoBackup, AutoAction) {
    let request = AutoBackupRequest {
        trigger,
        include_covers: covers,
        max_auto_backups: 5,
    };
    AutoBackup::begin(request, &BackupAvailability::new(), "t", &|_: &str| NameLookup::Free).unwrap()
}

#[test]
fn scheduled_batches_share_an_id() {
    let (mut backup, action) = automatic(AutoBackupTrigger::Scheduled, true);
    assert!(matches!(action, AutoAction::BackUpCovers(name) if name == "custom_covers_auto_t.7z"));
    let action = backup.on_covers(Ok(done(Some("/c.7z"))));
    assert!(matches!(action, AutoAction::BackUpHot(name) if name == "reina_manager_auto_t.db"));
    let action = backup.on_database(Ok(done(Some("/d.db"))));
    assert!(matches!(action, AutoAction::CleanUp(5)));
    match backup.on_cleaned(Err("busy".to_string())) {
        AutoAction::Finish(Ok(result)) => {
            assert_eq!(result.batch_id, "t");
            assert_eq!(result.covers.unwrap().path.as_deref(), Some("/c.7z"));
            assert_eq!(result.warnings, vec!["清理旧自动备份失败: busy"]);
        }
        _ => panic!("the batch is done"),
    }
}

#[test]
fn a_batch_without_its_database_takes_its_covers_with_it() {
    let (mut backup, _) = automatic(AutoBackupTrigger::Scheduled, true);
    backup.on_covers(Ok(done(Some("/c.7z"))));
    let action = backup.on_database(Err("full".to_string()));
    assert!(matches!(action, AutoAction::RemoveCovers(path) if path == "/c.7z"));
    assert!(matches!(
        backup.on_covers_removed(),
        AutoAction::Finish(Err(text)) if text == "full"
    ));
    let (mut backup, action) = automatic(AutoBackupTrigger::Exit, false);
    assert!(matches!(action, AutoAction::CloseDatabase));
    let mut state = BackupAvailability::new();
    let action = backup.on_closed(Ok(()), &mut state);
    assert!(matches!(action, AutoAction::BackUpCold(name) if name == "reina_manager_auto_t.db"));
    assert!(!state.available);
    assert!(matches!(backup.on_database(Err("x".to_string())), AutoAction::Finish(Err(_))));
    let (mut backup, _) = automatic(AutoBackupTrigger::Exit, true);
    let action = backup.on_covers(Err("broken".to_string()));
    assert!(matches!(action, AutoAction::CloseDatabase));
    assert_eq!(backup.warnings, vec!["自定义封面备份失败: broken"]);
    let mut state = BackupAvailability::new();
    let action = backup.on_closed(Err("busy".to_string()), &mut state);
    assert!(matches!(action, AutoAction::Finish(Err(text)) if text == "关闭数据库连接失败: busy"));
    assert_eq!(backup.stage, AutoStage::Failed);
}
