use reina_manager::backup::common::NameLookup;
use reina_manager::backup::savedata::create::{
    filename_for, next_backup_filename, ArchiveOutcome, CreateAction, RemoveOutcome,
    SavedataCreation, SourceSeen,
};
use reina_manager::backup::savedata::delete::{
    backups_to_delete, classify_backup_file_delete_error, cleanup_old_backups, cleanup_result,
    format_backup_file_delete_failure, game_directory, BackupDeletion, BackupFileDeleteFailure,
    BackupRecord, CleanupAction, DeleteAction, ParentLook, SavedataBackupDeleteStatus,
};
use reina_manager::backup::savedata::failure::{
    fail_both, format_migration_failures, SavedataBackupMigrationFailure,
};
use reina_manager::backup::savedata::fs_safety::{
    is_name_surrogate_reparse_tag, reject_path_redirector, RedirectLook, ReparseTag,
};
use reina_manager::backup::savedata::migration::{
    cleanup_step, collect_missing_savedata_records, ensure_existing_directory, CleanupFailure,
    CleanupStep, Migration, MigrationAction, NestedEntryLook, NestedItem, NestedLook,
    PreparedMigration, PreparedTargetCommit, RecordLook, TargetListing,
};
use reina_manager::backup::savedata::paths::{
    components_equal, is_path_prefix, normalize_for_overlap, parent, paths_overlap,
    resolve_for_overlap, same_path, Canonical, NameRules, PathComponent,
};
use reina_manager::backup::savedata::root::{
    configured_backup_path_for_message, resolve_configured_backup_root,
    resolve_requested_backup_root, rollback_flattened_nested_root, rollback_prepared_migration,
    temporary_migration_path, RequestedBackupRoot, Rollback, RollbackAction, RollbackPlan,
    RootAction, RootChange, RootLookup, SavedataBackupMigrationStatus,
};
use reina_manager::backup::savedata::tree::{
    compare_chunks, files_equal, judge_flatten, judge_source, judge_target, verify_copy,
    verify_nested_flatten_copy, wraps, ContentsLook, CopyAction, CopyEntry, CopyKind, FlattenItem,
    FlattenScan, SourceItem, SourceScan, SourceStep, TargetItem, TargetScan, TargetStep, TreeCopy,
};
use reina_manager::host::{IoFailure, IoKind, Metadata, Presence, TypeFlags};

const DIRECTORY: TypeFlags = TypeFlags {
    is_symlink: false,
    is_dir: true,
    is_file: false,
};

const FILE: TypeFlags = TypeFlags {
    is_symlink: false,
    is_dir: false,
    is_file: true,
};

const LINK: TypeFlags = TypeFlags {
    is_symlink: true,
    is_dir: false,
    is_file: false,
};

fn path(text: &str) -> Vec<PathComponent> {
    let mut components = Vec::new();
    if text.starts_with('/') {
        components.push(PathComponent::RootDir);
    }
    for part in text.split('/').filter(|part| !part.is_empty()) {
        components.push(match part {
            "." => PathComponent::CurDir,
            ".." => PathComponent::ParentDir,
            name => PathComponent::Normal(name.as_bytes().to_vec()),
        });
    }
    components
}

fn shown(path: &[PathComponent]) -> String {
    let mut text = String::new();
    for component in path {
        match component {
            PathComponent::RootDir => text.push('/'),
            PathComponent::Normal(name) => {
                if !text.is_empty() && !text.ends_with('/') {
                    text.push('/');
                }
                text.push_str(&String::from_utf8_lossy(name));
            }
            _ => text.push('?'),
        }
    }
    text
}

fn migration(source: &str, target: &str, count: u64) -> Migration {
    Migration::new(
        NameRules::Exact,
        source.to_string(),
        target.to_string(),
        path(source),
        path(target),
        count,
    )
}

fn resolved(source: &str, target: &str) -> (Migration, MigrationAction) {
    let mut migration = migration(source, target, 1);
    let action = migration.on_source(Metadata::Found(DIRECTORY));
    assert!(matches!(action, MigrationAction::ResolveRoots));
    let action = migration.on_resolved(Ok(path(source)), Ok(path(target)));
    (migration, action)
}

fn failures(action: MigrationAction) -> Vec<SavedataBackupMigrationFailure> {
    match action {
        MigrationAction::Finish(Err(failures)) => failures,
        other => panic!("no failure: {other:?}"),
    }
}

fn broken() -> Vec<SavedataBackupMigrationFailure> {
    vec![fail_both("s", "t", "broken")]
}

const OTHER: TypeFlags = TypeFlags {
    is_symlink: false,
    is_dir: false,
    is_file: false,
};

fn unread() -> ContentsLook {
    ContentsLook {
        source_len: Err("unread".to_string()),
        target_len: Err("unread".to_string()),
        equal: Err("unread".to_string()),
    }
}

fn lengths(source: u64, target: u64, equal: Result<bool, String>) -> ContentsLook {
    ContentsLook {
        source_len: Ok(source),
        target_len: Ok(target),
        equal,
    }
}

fn source_item(
    name: &str,
    kind: Result<TypeFlags, &str>,
    copy: Result<TypeFlags, &str>,
    contents: ContentsLook,
    below: SourceScan,
) -> SourceItem {
    SourceItem::Entry {
        source: format!("s/{name}"),
        target: format!("t/{name}"),
        kind: kind.map_err(str::to_string),
        copy: copy.map_err(str::to_string),
        contents,
        below,
    }
}

fn unlisted() -> SourceScan {
    SourceScan::Failed("unread".to_string())
}

fn typed(name: &str, kind: Result<TypeFlags, &str>, copy: Result<TypeFlags, &str>) -> SourceItem {
    source_item(name, kind, copy, unread(), unlisted())
}

fn file_pair(name: &str, contents: ContentsLook) -> SourceItem {
    source_item(name, Ok(FILE), Ok(FILE), contents, unlisted())
}

fn target_item(
    name: &str,
    kind: Result<TypeFlags, &str>,
    origin: Metadata,
    below: TargetScan,
) -> TargetItem {
    TargetItem::Entry {
        source: format!("s/{name}"),
        target: format!("t/{name}"),
        kind: kind.map_err(str::to_string),
        origin,
        below,
    }
}

fn unlisted_copy() -> TargetScan {
    TargetScan::Failed("unread".to_string())
}

fn flatten_item(
    place: &str,
    kind: Result<TypeFlags, &str>,
    origin: Result<TypeFlags, &str>,
    below: TargetScan,
) -> FlattenItem {
    FlattenItem::Entry {
        path: path(place),
        source: "s".to_string(),
        target: "t".to_string(),
        kind: kind.map_err(str::to_string),
        origin: origin.map_err(str::to_string),
        below,
    }
}

fn messages(failures: Vec<SavedataBackupMigrationFailure>) -> Vec<String> {
    failures.into_iter().map(|failure| failure.message).collect()
}

fn same_file() -> SourceScan {
    SourceScan::Listed(vec![source_item(
        "game_1",
        Ok(DIRECTORY),
        Ok(DIRECTORY),
        unread(),
        SourceScan::Listed(vec![file_pair("game_1/backup.7z", lengths(6, 6, Ok(true)))]),
    )])
}

fn changed_file() -> SourceScan {
    SourceScan::Listed(vec![file_pair("backup.7z", lengths(6, 6, Ok(false)))])
}

/// The directory around a nested root whose entries were copied up.
fn around(wrapper: &str) -> FlattenScan {
    let parent = &wrapper[..wrapper.rfind('/').unwrap()];
    FlattenScan::Listed(vec![
        flatten_item(wrapper, Ok(DIRECTORY), Err("gone"), unlisted_copy()),
        flatten_item(&format!("{parent}/game_1"), Ok(DIRECTORY), Ok(DIRECTORY), nothing_extra()),
    ])
}

fn nothing_extra() -> TargetScan {
    TargetScan::Listed(vec![target_item(
        "game_1",
        Ok(DIRECTORY),
        Metadata::Found(DIRECTORY),
        TargetScan::Listed(vec![target_item(
            "game_1/backup.7z",
            Ok(FILE),
            Metadata::Found(FILE),
            unlisted_copy(),
        )]),
    )])
}

#[test]
fn distinguishes_path_redirectors_from_cloud_and_wof_tags() {
    assert!(is_name_surrogate_reparse_tag(0xA000_0003));
    assert!(is_name_surrogate_reparse_tag(0xA000_000C));
    assert!(!is_name_surrogate_reparse_tag(0x9000_001A));
    assert!(!is_name_surrogate_reparse_tag(0x8000_0017));
}

#[test]
fn redirecting_paths_are_refused() {
    let look = |is_symlink, reparse| RedirectLook {
        is_symlink,
        reparse,
    };
    assert!(reject_path_redirector(&look(false, None), "p").is_ok());
    assert_eq!(
        reject_path_redirector(&look(true, None), "p").unwrap_err(),
        "路径不能是符号链接: p"
    );
    let junction = look(false, Some(ReparseTag::Tag(0xA000_0003)));
    assert_eq!(
        reject_path_redirector(&junction, "p").unwrap_err(),
        "路径不能是 junction 或其他重定向型 reparse 对象: p"
    );
    let cloud = look(false, Some(ReparseTag::Tag(0x9000_001A)));
    assert!(reject_path_redirector(&cloud, "p").is_ok());
    let unread = look(false, Some(ReparseTag::Failed("denied".to_string())));
    assert_eq!(reject_path_redirector(&unread, "p").unwrap_err(), "denied");
}

#[test]
fn paths_are_normalized_and_compared() {
    assert_eq!(shown(&normalize_for_overlap(&path("/a/./b/../c"))), "/a/c");
    assert_eq!(shown(&normalize_for_overlap(&path("/../a"))), "/a");
    assert_eq!(shown(&normalize_for_overlap(&path("../a"))), "a");
    assert!(paths_overlap(NameRules::Exact, &path("/a"), &path("/a/b")));
    assert!(paths_overlap(NameRules::Exact, &path("/a/b"), &path("/a")));
    assert!(!paths_overlap(NameRules::Exact, &path("/a/b"), &path("/a/bc")));
    assert!(!is_path_prefix(NameRules::Exact, &path("/a/b"), &path("/a")));
    assert!(same_path(NameRules::IgnoreCase, &path("/A/b"), &path("/a/B")));
    assert!(!same_path(NameRules::Exact, &path("/A/b"), &path("/a/B")));
    assert_eq!(shown(&parent(&path("/a/b")).unwrap()), "/a");
    assert!(parent(&path("/")).is_none());
    assert!(parent(&Vec::new()).is_none());
    assert!(components_equal(
        NameRules::IgnoreCase,
        &PathComponent::Prefix(b"C:".to_vec()),
        &PathComponent::Prefix(b"c:".to_vec())
    ));
    assert!(!components_equal(
        NameRules::Exact,
        &PathComponent::RootDir,
        &PathComponent::CurDir
    ));
}

#[test]
fn missing_tails_are_put_back_behind_the_real_path() {
    let canonicalize = |asked: &Vec<PathComponent>| match shown(asked).as_str() {
        "/link" => Canonical::Found(path("/real/place")),
        "/denied" => Canonical::Failed("denied".to_string()),
        _ => Canonical::Missing,
    };
    let found = resolve_for_overlap(&path("/link/x/y"), "/link/x/y", &canonicalize).unwrap();
    assert_eq!(shown(&found), "/real/place/x/y");
    let error = resolve_for_overlap(&path("/denied/x"), "/denied/x", &canonicalize).unwrap_err();
    assert_eq!(error, "/denied/x: denied");
    let error = resolve_for_overlap(&path("/none/x"), "/none/x", &canonicalize).unwrap_err();
    assert_eq!(error, "无法解析路径: /none/x");
}

#[test]
fn prepares_and_verifies_directory_copy() {
    let (mut migration, action) = resolved("/old", "/new");
    assert!(matches!(action, MigrationAction::LookAtTarget));
    assert!(matches!(migration.on_target(Metadata::Missing), MigrationAction::CreateParent));
    assert!(matches!(migration.on_parent("/", Ok(())), MigrationAction::PickTemporary));
    let action = migration.on_temporary(Ok("/.new.tmp".to_string()));
    assert!(matches!(action, MigrationAction::CopyTemporary));
    assert!(matches!(
        migration.on_temporary_copied(Vec::new()),
        MigrationAction::VerifyTemporary
    ));
    let checked = verify_copy("/old", "/.new.tmp", &same_file(), &nothing_extra());
    assert!(checked.is_empty());
    let action = migration.on_temporary_checked(&same_file(), &nothing_extra());
    assert!(matches!(action, MigrationAction::Rename));
    assert!(matches!(
        migration.on_renamed(Ok(())),
        MigrationAction::Finish(Ok(PreparedMigration::Ready(PreparedTargetCommit::Replaced {
            target_existed: false
        })))
    ));
}

#[test]
fn replaces_an_existing_empty_target_with_verified_copy() {
    let (mut migration, _) = resolved("/old", "/new");
    assert!(matches!(
        migration.on_target(Metadata::Found(DIRECTORY)),
        MigrationAction::ListTarget
    ));
    assert!(matches!(
        migration.on_target_listed(TargetListing::Empty),
        MigrationAction::CreateParent
    ));
    migration.on_parent("/", Ok(()));
    migration.on_temporary(Ok("/tmp".to_string()));
    migration.on_temporary_copied(Vec::new());
    assert!(matches!(
        migration.on_temporary_checked(&same_file(), &nothing_extra()),
        MigrationAction::RemoveEmptyTarget
    ));
    assert!(matches!(migration.on_empty_removed(Ok(())), MigrationAction::Rename));
    assert!(matches!(
        migration.on_renamed(Ok(())),
        MigrationAction::Finish(Ok(PreparedMigration::Ready(PreparedTargetCommit::Replaced {
            target_existed: true
        })))
    ));
}

#[test]
fn resumes_when_target_is_already_a_verified_copy() {
    let (mut migration, _) = resolved("/old", "/new");
    migration.on_target(Metadata::Found(DIRECTORY));
    assert!(matches!(
        migration.on_target_listed(TargetListing::HasEntries),
        MigrationAction::VerifyTarget
    ));
    let action = migration.on_target_verified(&same_file(), &nothing_extra());
    assert!(matches!(action, MigrationAction::CreateParent));
    assert!(matches!(
        migration.on_parent("/", Ok(())),
        MigrationAction::Finish(Ok(PreparedMigration::Ready(
            PreparedTargetCommit::ExistingVerifiedCopy
        )))
    ));
}

fn nested_look(source: &str) -> NestedLook {
    NestedLook {
        source: source.to_string(),
        target: "/normalized".to_string(),
        outer: Ok(DIRECTORY),
        entries: Ok(vec![Ok(NestedEntryLook {
            path: source.to_string(),
            kind: Ok(DIRECTORY),
            actual: Ok(path(source)),
        })]),
        expected: Ok(path(source)),
    }
}

fn nested_item(name: &str, seen: Presence) -> NestedItem {
    NestedItem::Entry {
        name: name.as_bytes().to_vec(),
        source: format!("s/{name}"),
        target: format!("t/{name}"),
        seen,
    }
}

fn flattened(source: &str, target: &str) -> Migration {
    let (mut migration, action) = resolved(source, target);
    assert!(matches!(action, MigrationAction::LookAtNested));
    assert!(matches!(
        migration.on_nested(&nested_look(source)),
        MigrationAction::CreateParent
    ));
    assert!(matches!(migration.on_parent("/", Ok(())), MigrationAction::ListNested));
    let items = vec![nested_item("game_1", Presence::Absent)];
    assert!(matches!(migration.on_nested_listed(Ok(items)), MigrationAction::CopyNested));
    migration
}

#[test]
fn flattens_a_nested_backup_root_when_it_is_the_only_entry() {
    let mut migration = flattened("/configured/backups", "/configured");
    assert!(matches!(migration.on_nested_copied(Vec::new()), MigrationAction::VerifyNested));
    let outer = around("/configured/backups");
    let wrapper = path("/configured/backups");
    let rules = NameRules::Exact;
    let checked = verify_nested_flatten_copy(rules, &wrapper, "s", "t", &same_file(), &outer);
    assert!(checked.is_empty());
    match migration.on_nested_checked(&same_file(), &outer) {
        MigrationAction::Finish(Ok(PreparedMigration::Ready(
            PreparedTargetCommit::FlattenedNestedRoot { copied_entries },
        ))) => assert_eq!(copied_entries, vec![b"game_1".to_vec()]),
        other => panic!("not flattened: {other:?}"),
    }
}

#[test]
fn flattens_an_arbitrarily_named_child_directory() {
    let mut migration = flattened("/configured/archive", "/configured");
    migration.on_nested_copied(Vec::new());
    assert!(matches!(
        migration.on_nested_checked(&same_file(), &around("/configured/archive")),
        MigrationAction::Finish(Ok(PreparedMigration::Ready(
            PreparedTargetCommit::FlattenedNestedRoot { .. }
        )))
    ));
}

#[test]
fn rejects_nested_flatten_when_the_outer_directory_has_extra_entries() {
    let (mut migration, _) = resolved("/configured/backups", "/configured");
    let mut look = nested_look("/configured/backups");
    if let Ok(entries) = &mut look.entries {
        entries.push(Ok(NestedEntryLook {
            path: "/configured/keep.txt".to_string(),
            kind: Ok(FILE),
            actual: Err("unused".to_string()),
        }));
    }
    assert!(matches!(migration.on_nested(&look), MigrationAction::VerifyNested));
    let outer = FlattenScan::Listed(vec![
        flatten_item("/configured/backups", Ok(DIRECTORY), Err("gone"), unlisted_copy()),
        flatten_item("/configured/keep.txt", Ok(FILE), Err("gone"), unlisted_copy()),
    ]);
    let found = failures(migration.on_nested_verified(&same_file(), &outer));
    assert!(found[0].message.contains("仅包含"));
    assert!(found[0].message.ends_with("发现额外目录项: /configured/keep.txt"));
    assert_eq!(found[0].source_path.as_deref(), Some("/configured/backups"));
    assert_eq!(found[0].target_path.as_deref(), Some("/normalized"));
}

#[test]
fn resumes_an_already_copied_nested_flatten() {
    let (mut migration, _) = resolved("/configured/archive", "/configured");
    let mut look = nested_look("/configured/archive");
    look.entries = Ok(vec![
        Ok(NestedEntryLook {
            path: "/configured/archive".to_string(),
            kind: Ok(DIRECTORY),
            actual: Ok(path("/configured/archive")),
        }),
        Err("unread".to_string()),
    ]);
    migration.on_nested(&look);
    assert!(matches!(
        migration.on_nested_verified(&same_file(), &around("/configured/archive")),
        MigrationAction::CreateParent
    ));
    assert!(matches!(
        migration.on_parent("/", Ok(())),
        MigrationAction::Finish(Ok(PreparedMigration::Ready(
            PreparedTargetCommit::ExistingVerifiedCopy
        )))
    ));
}

#[test]
fn rejects_a_multi_level_nested_source() {
    let (_, action) = resolved("/configured/level_1/level_2", "/configured");
    assert!(failures(action)[0].message.contains("不受支持"));
}

#[test]
fn rejects_a_non_empty_target() {
    let (mut migration, _) = resolved("/old", "/new");
    migration.on_target(Metadata::Found(DIRECTORY));
    migration.on_target_listed(TargetListing::HasEntries);
    let found = failures(migration.on_target_verified(&changed_file(), &nothing_extra()));
    assert!(found[0].message.contains("空目录"));
}

#[test]
fn rejects_parent_directory_overlap() {
    let (_, action) = resolved("/backups", "/backups/nested/backups");
    assert!(failures(action)[0].message.contains("父子"));
}

#[test]
fn rejects_missing_source_when_records_exist() {
    let mut missing = migration("/missing", "/new", 1);
    let found = failures(missing.on_source(Metadata::Missing));
    assert!(found[0].message.contains("数据库仍有"));
    assert_eq!(found[0].message, "旧备份目录不存在，但数据库仍有 1 条备份记录");
    let mut missing = migration("/missing", "/new", 0);
    assert_eq!(failures(missing.on_source(Metadata::Missing))[0].message, "旧备份目录不存在");
}

#[test]
fn equal_roots_need_no_move() {
    let (_, action) = resolved("/a/b", "/a/b");
    assert!(matches!(
        action,
        MigrationAction::Finish(Ok(PreparedMigration::NoSource))
    ));
}

#[test]
fn unusable_roots_are_refused() {
    let seen = |seen: Metadata| failures(migration("/old", "/new", 1).on_source(seen))[0].message.clone();
    assert_eq!(seen(Metadata::Found(LINK)), "旧备份目录不能是符号链接");
    assert_eq!(seen(Metadata::Found(FILE)), "旧备份路径不是目录");
    assert_eq!(seen(Metadata::Failed("x".to_string())), "无法读取旧备份目录: x");
    let target = |seen: Metadata| failures(resolved("/old", "/new").0.on_target(seen))[0].message.clone();
    assert_eq!(target(Metadata::Found(LINK)), "目标备份目录不能是符号链接");
    assert_eq!(target(Metadata::Found(FILE)), "目标备份路径存在但不是目录");
    assert_eq!(target(Metadata::Failed("x".to_string())), "无法检查目标备份目录: x");
    let listed = |listing: TargetListing| {
        let (mut migration, _) = resolved("/old", "/new");
        migration.on_target(Metadata::Found(DIRECTORY));
        failures(migration.on_target_listed(listing))[0].message.clone()
    };
    assert_eq!(
        listed(TargetListing::Failed("x".to_string())),
        "无法检查目标备份目录是否为空: x"
    );
    assert_eq!(
        listed(TargetListing::EntryFailed("x".to_string())),
        "读取目标备份目录失败: x"
    );
    let (mut migration, _) = resolved("/old", "/");
    let action = migration.on_target(Metadata::Missing);
    assert!(matches!(action, MigrationAction::Finish(Err(_))) || migration.nested);
    let mut unresolved = self::migration("/old", "/new", 1);
    unresolved.on_source(Metadata::Found(DIRECTORY));
    let found = failures(unresolved.on_resolved(Err("a".to_string()), Err("b".to_string())));
    assert_eq!(found[0].message, "无法确认新旧备份目录是否重叠: a");
}

#[test]
fn failed_copies_are_taken_back() {
    let (mut migration, _) = resolved("/old", "/new");
    migration.on_target(Metadata::Missing);
    migration.on_parent("/", Ok(()));
    migration.on_temporary(Ok("/tmp".to_string()));
    assert!(matches!(
        migration.on_temporary_copied(broken()),
        MigrationAction::RemoveTemporary
    ));
    let found = failures(migration.on_temporary_removed(Err("busy".to_string())));
    assert_eq!(found[1].message, "清理迁移临时目录失败: busy");
    assert_eq!(found[1].target_path.as_deref(), Some("/tmp"));

    let (mut migration, _) = resolved("/old", "/new");
    migration.on_target(Metadata::Found(DIRECTORY));
    migration.on_target_listed(TargetListing::Empty);
    migration.on_parent("/", Ok(()));
    migration.on_temporary(Ok("/tmp".to_string()));
    migration.on_temporary_copied(Vec::new());
    migration.on_temporary_checked(&same_file(), &nothing_extra());
    migration.on_empty_removed(Ok(()));
    assert!(matches!(
        migration.on_renamed(Err("cross".to_string())),
        MigrationAction::RestoreTarget
    ));
    assert!(matches!(
        migration.on_restored(Err("gone".to_string())),
        MigrationAction::RemoveTemporary
    ));
    let found = failures(migration.on_temporary_removed(Ok(())));
    assert_eq!(found[0].message, "临时目录切换到目标位置失败: cross");
    assert_eq!(found[1].message, "恢复原空目标目录失败: gone");

    let mut migration = flattened("/c/b", "/c");
    assert!(matches!(migration.on_nested_copied(broken()), MigrationAction::CleanNested));
    let cleanup = vec![CleanupFailure {
        path: "/c/game_1".to_string(),
        text: "busy".to_string(),
    }];
    let found = failures(migration.on_nested_cleaned(&cleanup));
    assert_eq!(found[1].message, "清理扁平迁移副本失败: busy");

    let mut migration = flattened("/c/b", "/c");
    migration.on_nested_copied(Vec::new());
    let action = migration.on_nested_checked(&changed_file(), &around("/c/b"));
    assert!(matches!(action, MigrationAction::CleanNested));
    let found = failures(migration.on_nested_cleaned(&Vec::new()));
    assert_eq!(messages(found), vec!["复制结果文件内容不一致"]);

    let (mut migration, _) = resolved("/old", "/new");
    migration.on_target(Metadata::Missing);
    migration.on_parent("/", Ok(()));
    migration.on_temporary(Ok("/tmp".to_string()));
    migration.on_temporary_copied(Vec::new());
    let extra = TargetScan::Listed(vec![target_item("x", Ok(FILE), Metadata::Missing, unlisted_copy())]);
    let action = migration.on_temporary_checked(&same_file(), &extra);
    assert!(matches!(action, MigrationAction::RemoveTemporary));
    let found = failures(migration.on_temporary_removed(Ok(())));
    assert_eq!(messages(found), vec!["目标目录包含源目录不存在的文件"]);
}

#[test]
fn nothing_is_copied_over_an_existing_entry() {
    let (mut migration, _) = resolved("/c/b", "/c");
    migration.on_nested(&nested_look("/c/b"));
    migration.on_parent("/", Ok(()));
    let items = vec![
        nested_item("a", Presence::Absent),
        nested_item("b", Presence::Present),
        NestedItem::Unreadable("later".to_string()),
    ];
    let found = failures(migration.on_nested_listed(Ok(items)));
    assert_eq!(found[0].message, "扁平迁移目标出现同名目录项");
    assert_eq!(found[0].target_path.as_deref(), Some("t/b"));
}

#[test]
fn nested_outer_directories_are_judged_in_order() {
    let fault = |change: fn(&mut NestedLook)| {
        let (mut migration, _) = resolved("/c/b", "/c");
        let mut look = nested_look("/c/b");
        change(&mut look);
        migration.on_nested(&look);
        let outer = FlattenScan::Failed("unread".to_string());
        failures(migration.on_nested_verified(&same_file(), &outer))[0].message.clone()
    };
    assert_eq!(
        fault(|look| look.outer = Err("x".to_string())),
        "无法检查嵌套备份目标目录: x"
    );
    assert_eq!(fault(|look| look.outer = Ok(LINK)), "嵌套备份目标必须是真实目录");
    assert_eq!(
        fault(|look| look.entries = Err("x".to_string())),
        "无法读取嵌套备份目标目录: x"
    );
    assert_eq!(
        fault(|look| look.entries = Ok(Vec::new())),
        "嵌套备份目标目录没有包含旧备份根"
    );
    assert_eq!(
        fault(|look| look.entries = Ok(vec![Err("x".to_string())])),
        "读取嵌套备份目录项失败: x"
    );
    assert_eq!(
        fault(|look| look.expected = Err("x".to_string())),
        "解析旧备份根失败: x"
    );
    assert_eq!(
        fault(|look| look.expected = Ok(Vec::new())),
        "目标中的唯一目录项不是当前旧备份根"
    );
}

#[test]
fn copies_are_compared_in_both_directions() {
    let forward = SourceScan::Listed(vec![
        SourceItem::Unreadable("x".to_string()),
        file_pair("a", lengths(6, 6, Ok(false))),
        typed("b", Ok(DIRECTORY), Err("gone")),
        typed("c", Ok(LINK), Err("gone")),
        typed("d", Ok(OTHER), Err("gone")),
    ]);
    let backward = TargetScan::Listed(vec![
        target_item("e", Ok(FILE), Metadata::Missing, unlisted_copy()),
        target_item("f", Ok(DIRECTORY), Metadata::Missing, unlisted_copy()),
        target_item("g", Ok(DIRECTORY), Metadata::Failed("x".to_string()), unlisted_copy()),
    ]);
    assert_eq!(
        messages(verify_copy("s", "t", &forward, &backward)),
        vec![
            "验证源目录项失败: x",
            "复制结果文件内容不一致",
            "复制结果缺少目录: gone",
            "备份目录中不允许包含符号链接",
            "目标目录包含源目录不存在的文件",
            "目标目录包含源目录不存在的目录",
        ]
    );
    let failed = verify_copy(
        "s",
        "t",
        &SourceScan::Failed("a".to_string()),
        &TargetScan::Failed("b".to_string()),
    );
    assert_eq!(failed[0].message, "验证源目录失败: a");
    assert_eq!(failed[1].message, "验证目标目录失败: b");
    let outer = FlattenScan::Listed(vec![flatten_item("/t/x", Ok(FILE), Err("none"), unlisted_copy())]);
    let wrapper = path("/t/old");
    let rules = NameRules::Exact;
    let failed = verify_nested_flatten_copy(rules, &wrapper, "s", "t", &same_file(), &outer);
    assert_eq!(failed[0].message, "扁平迁移目标包含源中不存在的目录项: none");
}

#[test]
fn every_difference_of_a_copy_has_its_message() {
    let forward = SourceScan::Listed(vec![
        typed("a", Err("lost"), Ok(FILE)),
        typed("b", Ok(DIRECTORY), Ok(FILE)),
        typed("c", Ok(FILE), Err("gone")),
        typed("d", Ok(FILE), Ok(LINK)),
        file_pair("e", lengths(6, 7, Ok(true))),
        file_pair("f", lengths(6, 6, Err("io".to_string()))),
        file_pair("g", unread()),
        source_item("h", Ok(DIRECTORY), Ok(DIRECTORY), unread(), SourceScan::Failed("x".to_string())),
    ]);
    let backward = TargetScan::Listed(vec![
        TargetItem::Unreadable("y".to_string()),
        target_item("i", Err("lost"), Metadata::Missing, unlisted_copy()),
        target_item("j", Ok(LINK), Metadata::Missing, unlisted_copy()),
        target_item("k", Ok(OTHER), Metadata::Missing, unlisted_copy()),
        target_item("l", Ok(FILE), Metadata::Failed("x".to_string()), unlisted_copy()),
        target_item("m", Ok(DIRECTORY), Metadata::Found(FILE), TargetScan::Failed("z".to_string())),
    ]);
    let failures = verify_copy("s", "t", &forward, &backward);
    assert_eq!(failures[7].source_path.as_deref(), Some("s/h"));
    assert_eq!(
        messages(failures),
        vec![
            "验证文件类型失败: lost",
            "复制结果中的目录类型不匹配",
            "复制结果缺少文件: gone",
            "复制结果中的文件类型不匹配",
            "复制结果文件内容不一致",
            "验证文件内容失败: io",
            "验证文件内容失败: unread",
            "验证源目录失败: x",
            "验证目标目录项失败: y",
            "验证目标文件类型失败: lost",
            "目标目录中出现不允许的符号链接",
            "验证目标目录失败: z",
        ]
    );
    let rules = NameRules::Exact;
    let wrapper = path("/t/old");
    let outer = FlattenScan::Listed(vec![
        FlattenItem::Unreadable("y".to_string()),
        flatten_item("/t/./old", Err("lost"), Err("gone"), unlisted_copy()),
        flatten_item("/t/a", Err("lost"), Ok(FILE), unlisted_copy()),
        flatten_item("/t/b", Ok(FILE), Ok(DIRECTORY), unlisted_copy()),
        flatten_item("/t/c", Ok(LINK), Ok(LINK), unlisted_copy()),
        flatten_item("/t/d", Ok(FILE), Ok(FILE), unlisted_copy()),
        flatten_item("/t/e", Ok(DIRECTORY), Ok(DIRECTORY), TargetScan::Failed("z".to_string())),
    ]);
    assert_eq!(
        messages(verify_nested_flatten_copy(rules, &wrapper, "s", "t", &same_file(), &outer)),
        vec![
            "验证扁平迁移目标目录项失败: y",
            "验证扁平迁移目标类型失败: lost",
            "扁平迁移目标中的目录项类型与源不一致",
            "扁平迁移目标中的目录项类型与源不一致",
            "验证目标目录失败: z",
        ]
    );
    let outer = FlattenScan::Failed("x".to_string());
    let failed = verify_nested_flatten_copy(rules, &wrapper, "s", "t", &same_file(), &outer);
    assert_eq!(failed[0].message, "验证扁平迁移目标目录失败: x");
}

#[test]
fn looks_decide_what_is_read_next() {
    assert!(matches!(judge_source(&Ok(DIRECTORY), &Ok(DIRECTORY)), SourceStep::Below));
    assert!(matches!(judge_source(&Ok(FILE), &Ok(FILE)), SourceStep::Contents));
    assert!(matches!(judge_source(&Ok(OTHER), &Ok(FILE)), SourceStep::Nothing));
    assert!(matches!(judge_source(&Ok(LINK), &Ok(LINK)), SourceStep::Fault(_)));
    assert!(matches!(judge_target(&Ok(DIRECTORY), &Metadata::Found(LINK)), TargetStep::Below));
    assert!(matches!(judge_target(&Ok(FILE), &Metadata::Found(LINK)), TargetStep::Nothing));
    assert!(matches!(judge_flatten(&Ok(DIRECTORY), &Ok(DIRECTORY)), TargetStep::Below));
    assert!(matches!(judge_flatten(&Ok(OTHER), &Ok(OTHER)), TargetStep::Fault(_)));
    assert_eq!(files_equal(&lengths(1, 1, Ok(true))), Ok(true));
    assert_eq!(files_equal(&lengths(1, 2, Ok(true))), Ok(false));
    let mut look = lengths(1, 1, Ok(true));
    look.target_len = Err("t".to_string());
    assert_eq!(files_equal(&look), Err("t".to_string()));
    look.source_len = Err("s".to_string());
    assert_eq!(files_equal(&look), Err("s".to_string()));
    assert!(wraps(NameRules::Exact, &path("/t/old"), &path("/t/x/../old")));
    assert!(!wraps(NameRules::Exact, &path("/t/old"), &path("/t/new")));
}

#[test]
fn chunks_decide_as_soon_as_they_differ() {
    assert_eq!(compare_chunks(b"ab", b"ab"), None);
    assert_eq!(compare_chunks(b"ab", b"ac"), Some(false));
    assert_eq!(compare_chunks(b"ab", b"a"), Some(false));
    assert_eq!(compare_chunks(b"", b""), Some(true));
}

fn entry(id: u64, kind: CopyKind) -> CopyEntry {
    CopyEntry {
        id,
        source: format!("s{id}"),
        target: format!("t{id}"),
        kind,
    }
}

#[test]
fn trees_are_copied_in_order() {
    let mut copy = TreeCopy::new(0, "s".to_string(), "t".to_string());
    assert_eq!(copy.next_action(), CopyAction::MakeDirectory(0));
    assert_eq!(copy.on_made(Ok(())), Some(CopyAction::List(0)));
    copy.on_listed(Ok(vec![
        entry(1, CopyKind::Typed(LINK)),
        entry(2, CopyKind::Typed(DIRECTORY)),
        entry(3, CopyKind::Typed(OTHER)),
        entry(4, CopyKind::Typed(FILE)),
        entry(5, CopyKind::Unreadable("x".to_string())),
    ]));
    assert_eq!(copy.next_action(), CopyAction::MakeDirectory(2));
    assert_eq!(copy.on_made(Err("full".to_string())), None);
    assert_eq!(copy.next_action(), CopyAction::CopyFile(4));
    copy.on_copied(Err("full".to_string()));
    assert_eq!(copy.next_action(), CopyAction::Done);
    let messages: Vec<&str> = copy.failures.iter().map(|failure| failure.message.as_str()).collect();
    assert_eq!(
        messages,
        vec![
            "备份目录中不允许包含符号链接",
            "创建目标目录失败: full",
            "不支持的文件类型",
            "复制文件失败: full",
            "读取源目录项失败: x",
        ]
    );
    let mut copy = TreeCopy::new(0, "s".to_string(), "t".to_string());
    copy.next_action();
    copy.on_made(Ok(()));
    copy.on_listed(Err("denied".to_string()));
    assert_eq!(copy.next_action(), CopyAction::Done);
    assert_eq!(copy.failures[0].message, "读取源目录失败: denied");
}

#[test]
fn rolls_back_to_the_original_empty_target() {
    let mut rollback = Rollback::new("/old".to_string(), "/new".to_string(), true);
    assert!(matches!(
        rollback.on_named(Ok("/.new.tmp".to_string())),
        RollbackAction::MoveOut
    ));
    assert!(matches!(rollback.on_moved(Ok(())), RollbackAction::RestoreTarget));
    assert!(matches!(rollback.on_restored(Ok(())), RollbackAction::Verify));
    let action = rollback.on_verified(&same_file(), &nothing_extra());
    assert!(matches!(action, RollbackAction::RemoveCopy));
    match rollback.on_copy_removed(Ok(())) {
        RollbackAction::Finish(failures) => assert!(failures.is_empty()),
        _ => panic!("rolled back"),
    }
}

#[test]
fn a_changed_copy_survives_the_rollback() {
    let mut rollback = Rollback::new("/old".to_string(), "/new".to_string(), false);
    rollback.on_named(Ok("/.new.tmp".to_string()));
    assert!(matches!(rollback.on_moved(Ok(())), RollbackAction::Verify));
    match rollback.on_verified(&changed_file(), &nothing_extra()) {
        RollbackAction::Finish(failures) => {
            assert_eq!(failures.len(), 2);
            assert_eq!(
                failures[0].message,
                "回滚副本与旧备份目录不一致，已保留回滚副本以避免数据丢失"
            );
        }
        _ => panic!("the copy is kept"),
    }
    let mut rollback = Rollback::new("/old".to_string(), "/new".to_string(), false);
    match rollback.on_named(Err("none".to_string())) {
        RollbackAction::Finish(failures) => {
            assert_eq!(
                failures[0].message,
                "无法准备回滚目录，新备份副本保留在目标位置: none"
            );
        }
        _ => panic!("nothing was moved"),
    }
}

#[test]
fn rolls_back_a_nested_root_flatten() {
    let mut migration = flattened("/configured/backups", "/configured");
    migration.on_nested_copied(Vec::new());
    let MigrationAction::Finish(Ok(PreparedMigration::Ready(commit))) =
        migration.on_nested_checked(&same_file(), &around("/configured/backups"))
    else {
        panic!("应准备原地扁平迁移");
    };
    assert_eq!(rollback_prepared_migration(&commit), RollbackPlan::RemoveEntries);
    assert_eq!(cleanup_step(&Metadata::Found(DIRECTORY)), CleanupStep::RemoveTree);
    assert!(rollback_flattened_nested_root(&Vec::new()).is_empty());
}

#[test]
fn rollbacks_touch_only_what_was_prepared() {
    assert_eq!(
        rollback_prepared_migration(&PreparedTargetCommit::ExistingVerifiedCopy),
        RollbackPlan::Nothing
    );
    let replaced = PreparedTargetCommit::Replaced {
        target_existed: true,
    };
    assert_eq!(
        rollback_prepared_migration(&replaced),
        RollbackPlan::TakeOut {
            target_existed: true
        }
    );
    assert_eq!(cleanup_step(&Metadata::Found(LINK)), CleanupStep::RemoveFile);
    assert_eq!(cleanup_step(&Metadata::Found(FILE)), CleanupStep::RemoveFile);
    assert_eq!(cleanup_step(&Metadata::Missing), CleanupStep::Skip);
    assert_eq!(cleanup_step(&Metadata::Failed("x".to_string())), CleanupStep::Report);
    let cleanup = vec![CleanupFailure {
        path: "/configured/game_1".to_string(),
        text: "busy".to_string(),
    }];
    let failures = rollback_flattened_nested_root(&cleanup);
    assert_eq!(failures.len(), 1);
    assert_eq!(failures[0].target_path.as_deref(), Some("/configured/game_1"));
    assert_eq!(failures[0].message, "清理扁平迁移副本失败: busy");
}

fn record(id: i32, seen: Metadata) -> RecordLook {
    RecordLook {
        id,
        path: format!("/b/{id}"),
        seen,
    }
}

#[test]
fn collects_missing_savedata_records_without_deleting_them() {
    let records = vec![record(1, Metadata::Found(FILE)), record(2, Metadata::Missing)];
    assert_eq!(collect_missing_savedata_records(&records).unwrap(), vec![2]);
    let records = vec![
        record(1, Metadata::Found(DIRECTORY)),
        record(2, Metadata::Missing),
        record(3, Metadata::Failed("x".to_string())),
    ];
    let found = collect_missing_savedata_records(&records).unwrap_err();
    assert_eq!(found.len(), 2);
    assert_eq!(found[0].message, "数据库记录对应的备份路径不是普通文件");
    assert_eq!(found[1].message, "检查数据库记录对应的备份文件失败: x");
}

#[test]
fn old_roots_have_to_be_directories() {
    assert!(ensure_existing_directory("/b", &Metadata::Found(DIRECTORY)).is_ok());
    let message = |seen: Metadata| ensure_existing_directory("/b", &seen).unwrap_err()[0].message.clone();
    assert_eq!(message(Metadata::Found(LINK)), "路径是符号链接，无法确认目录是否可访问");
    assert_eq!(message(Metadata::Found(FILE)), "路径存在但不是目录");
    assert_eq!(message(Metadata::Missing), "目录不存在，已跳过旧备份迁移");
    assert_eq!(
        message(Metadata::Failed("x".to_string())),
        "无法访问目录，已跳过旧备份迁移: x"
    );
}

#[test]
fn failures_are_joined_for_users() {
    assert_eq!(format_migration_failures(&Vec::new()), "存档备份目录迁移失败，配置未切换");
    let failures = vec![
        fail_both("a", "b", "c"),
        SavedataBackupMigrationFailure {
            source_path: None,
            target_path: Some("d".to_string()),
            message: "e".to_string(),
        },
    ];
    assert_eq!(
        format_migration_failures(&failures),
        "存档备份目录迁移失败，配置未切换: a → b → c；d → e"
    );
}

fn resolved_root(text: &str) -> RootLookup {
    RootLookup::Resolved(text.to_string())
}

fn undefined() -> RootLookup {
    RootLookup::UndefinedVariable {
        variable: "VAR".to_string(),
        text: "环境变量未定义: VAR".to_string(),
    }
}

#[test]
fn rejects_invalid_requested_backup_root_syntax() {
    let lookup = RootLookup::Invalid("路径必须是绝对路径: relative/path".to_string());
    assert!(resolve_requested_backup_root(&lookup).is_err());
}

#[test]
fn distinguishes_an_undefined_variable_from_invalid_paths() {
    let lookup = RootLookup::UndefinedVariable {
        variable: "REINA_TEST_UNDEFINED_BACKUP_ROOT".to_string(),
        text: "环境变量未定义: REINA_TEST_UNDEFINED_BACKUP_ROOT".to_string(),
    };
    assert!(matches!(
        resolve_requested_backup_root(&lookup),
        Ok(RequestedBackupRoot::UndefinedVariable(variable))
            if variable == "REINA_TEST_UNDEFINED_BACKUP_ROOT"
    ));
}

#[test]
fn roots_are_resolved_or_explained() {
    assert_eq!(resolve_configured_backup_root(&resolved_root("/a")).unwrap(), "/a");
    assert_eq!(
        resolve_configured_backup_root(&RootLookup::Invalid("relative".to_string())).unwrap_err(),
        "存档备份根目录解析失败: relative"
    );
    assert_eq!(
        resolve_configured_backup_root(&RootLookup::NoDefault("none".to_string())).unwrap_err(),
        "none"
    );
    assert!(matches!(
        resolve_requested_backup_root(&undefined()),
        Ok(RequestedBackupRoot::UndefinedVariable(variable)) if variable == "VAR"
    ));
    assert!(resolve_requested_backup_root(&RootLookup::Invalid("x".to_string())).is_err());
    let configured = Some("$VAR/b".to_string());
    assert_eq!(
        configured_backup_path_for_message(&undefined(), &configured).as_deref(),
        Some("$VAR/b")
    );
}

#[test]
fn an_undefined_variable_is_saved_only_without_history() {
    let mut change = RootChange::begin("  $VAR/b ", Some("/old".to_string()), 0);
    assert_eq!(change.new_path.as_deref(), Some("$VAR/b"));
    assert!(matches!(change.on_requested(&undefined()), RootAction::SaveOnly));
    match change.on_saved_only(Ok(()), &resolved_root("/old")) {
        RootAction::Finish(Ok(result)) => {
            assert_eq!(result.status, SavedataBackupMigrationStatus::SavedWithWarning);
            assert_eq!(result.message, "存档备份根目录解析失败: 环境变量未定义: VAR");
            assert_eq!(result.old_path.as_deref(), Some("/old"));
        }
        _ => panic!("saved"),
    }
    let mut change = RootChange::begin("$VAR/b", None, 1);
    match change.on_requested(&undefined()) {
        RootAction::Finish(Err(text)) => assert_eq!(
            text,
            "存档备份目录迁移失败，配置未切换: 存档备份根目录解析失败: 环境变量未定义: VAR"
        ),
        _ => panic!("history forbids it"),
    }
}

fn changing() -> RootChange {
    let mut change = RootChange::begin("/new", Some("/old".to_string()), 2);
    assert!(matches!(change.on_requested(&resolved_root("/new")), RootAction::ResolveOld));
    assert!(matches!(change.on_old(&resolved_root("/old")), RootAction::LookAtOld));
    assert!(matches!(
        change.on_old_seen(&Metadata::Found(DIRECTORY)),
        RootAction::LookAtRecords
    ));
    let records = vec![record(1, Metadata::Found(FILE)), record(2, Metadata::Missing)];
    assert!(matches!(change.on_records(&records), RootAction::Prepare));
    change
}

fn ready() -> PreparedMigration {
    PreparedMigration::Ready(PreparedTargetCommit::ExistingVerifiedCopy)
}

#[test]
fn the_setting_switches_after_preparation() {
    let mut change = changing();
    assert!(matches!(change.on_prepared(Ok(ready())), RootAction::Update));
    assert_eq!(change.missing, vec![2]);
    assert!(matches!(change.on_updated(Ok(())), RootAction::RemoveOld));
    match change.on_old_removed(Ok(())) {
        RootAction::Finish(Ok(result)) => {
            assert_eq!(result.status, SavedataBackupMigrationStatus::Completed);
            assert_eq!(result.cleaned_record_count, 1);
            assert_eq!(result.message, "存档备份目录迁移完成，配置已更新");
        }
        _ => panic!("changed"),
    }
    let mut change = changing();
    change.on_prepared(Ok(ready()));
    change.on_updated(Ok(()));
    match change.on_old_removed(Err("busy".to_string())) {
        RootAction::Finish(Ok(result)) => {
            assert_eq!(result.status, SavedataBackupMigrationStatus::SavedWithWarning);
            assert_eq!(result.residue_path.as_deref(), Some("/old"));
            assert_eq!(result.failures[0].message, "删除旧备份目录失败: busy");
        }
        _ => panic!("changed with a warning"),
    }
}

#[test]
fn a_failed_switch_is_rolled_back() {
    let mut change = changing();
    change.on_prepared(Ok(ready()));
    assert!(matches!(change.on_updated(Err("locked".to_string())), RootAction::RollBack));
    match change.on_rolled_back(Ok(Vec::new())) {
        RootAction::Finish(Err(text)) => assert_eq!(
            text,
            "存档备份目录迁移失败，配置未切换: /new → 保存新的存档备份路径失败: locked"
        ),
        _ => panic!("failed"),
    }
    let mut change = changing();
    change.on_prepared(Ok(PreparedMigration::NoSource));
    assert!(matches!(
        change.on_updated(Err("locked".to_string())),
        RootAction::Finish(Err(_))
    ));
    let mut change = changing();
    assert!(matches!(change.on_prepared(Err(broken())), RootAction::Finish(Err(_))));
    let mut change = changing();
    change.on_prepared(Ok(PreparedMigration::NoSource));
    match change.on_updated(Ok(())) {
        RootAction::Finish(Ok(result)) => {
            assert_eq!(result.message, "已清理失效备份记录并更新配置")
        }
        _ => panic!("changed"),
    }
    let mut change = RootChange::begin(" ", None, 0);
    assert!(change.new_path.is_none());
    let action = change.on_requested(&RootLookup::Default("/default".to_string()));
    assert!(matches!(action, RootAction::Update));
    match change.on_updated(Ok(())) {
        RootAction::Finish(Ok(result)) => {
            assert_eq!(result.message, "没有需要迁移的历史存档备份，已更新配置")
        }
        _ => panic!("changed"),
    }
}

#[test]
fn migration_names_are_unique() {
    let name = Some("new".to_string());
    let clock = Ok(9u128);
    let free = temporary_migration_path(true, &name, 3, &clock, &|_: &str| false).unwrap();
    assert_eq!(free, ".new.reina-migrating-3-9-0");
    let next = temporary_migration_path(true, &name, 3, &clock, &|text: &str| text.ends_with("-0"));
    assert_eq!(next.unwrap(), ".new.reina-migrating-3-9-1");
    let none = temporary_migration_path(true, &name, 3, &clock, &|_: &str| true);
    assert_eq!(none.unwrap_err(), "无法生成唯一的迁移临时目录");
    let none = temporary_migration_path(false, &name, 3, &clock, &|_: &str| false);
    assert_eq!(none.unwrap_err(), "目标备份目录缺少父目录");
    let none = temporary_migration_path(true, &None, 3, &clock, &|_: &str| false);
    assert_eq!(none.unwrap_err(), "目标备份目录缺少有效名称");
}

#[test]
fn deletions_keep_the_record_of_a_file_that_may_exist() {
    let missing = IoFailure::new(IoKind::NotFound, "none".to_string());
    let denied = IoFailure::new(IoKind::PermissionDenied, "denied".to_string());
    assert!(matches!(
        classify_backup_file_delete_error(&missing, &ParentLook::Directory),
        BackupFileDeleteFailure::MissingFile
    ));
    assert!(matches!(
        classify_backup_file_delete_error(&missing, &ParentLook::NoParent),
        BackupFileDeleteFailure::MissingFile
    ));
    assert!(matches!(
        classify_backup_file_delete_error(&missing, &ParentLook::Failed("x".to_string())),
        BackupFileDeleteFailure::FileInaccessible(text) if text == "无法访问备份文件所在目录: x"
    ));
    assert!(matches!(
        classify_backup_file_delete_error(&missing, &ParentLook::NotDirectory),
        BackupFileDeleteFailure::FileInaccessible(text) if text == "备份文件所在路径不是目录"
    ));
    assert!(matches!(
        classify_backup_file_delete_error(&denied, &ParentLook::Directory),
        BackupFileDeleteFailure::FileInaccessible(text) if text == "denied"
    ));
    let mut deletion = BackupDeletion::new(7, false);
    assert!(matches!(deletion.on_record(Ok(true)), DeleteAction::ResolveRoot));
    assert!(matches!(deletion.on_root(Ok(())), DeleteAction::RemoveFile));
    match deletion.on_file("/b", Err(BackupFileDeleteFailure::MissingFile)) {
        DeleteAction::Finish(Ok(result)) => {
            assert_eq!(result.status, SavedataBackupDeleteStatus::MissingFile);
            assert_eq!(result.message.as_deref(), Some("备份文件不存在: /b"));
        }
        _ => panic!("the record stays"),
    }
    let mut deletion = BackupDeletion::new(7, false);
    deletion.on_record(Ok(true));
    deletion.on_root(Ok(()));
    assert!(matches!(deletion.on_file("/b", Ok(())), DeleteAction::DeleteRecord));
    assert!(matches!(
        deletion.on_record_deleted(Err("x".to_string())),
        DeleteAction::Finish(Err(text)) if text == "删除数据库记录失败 (ID: 7): x"
    ));
    let mut deletion = BackupDeletion::new(7, true);
    assert!(matches!(deletion.on_record(Ok(true)), DeleteAction::DeleteRecord));
    assert!(matches!(
        deletion.on_record_deleted(Err("x".to_string())),
        DeleteAction::Finish(Err(text)) if text == "清除备份数据库记录失败 (ID: 7): x"
    ));
    let mut deletion = BackupDeletion::new(7, false);
    assert!(matches!(
        deletion.on_record(Ok(false)),
        DeleteAction::Finish(Err(text)) if text == "备份记录不存在"
    ));
    let mut deletion = BackupDeletion::new(7, false);
    deletion.on_record(Ok(true));
    match deletion.on_root(Err("unset".to_string())) {
        DeleteAction::Finish(Ok(result)) => {
            assert_eq!(result.status, SavedataBackupDeleteStatus::FileInaccessible)
        }
        _ => panic!("the record stays"),
    }
}

fn backup(id: i32, backup_time: i32) -> BackupRecord {
    BackupRecord {
        id,
        backup_time,
        file: format!("{id}.7z"),
    }
}

#[test]
fn the_oldest_backups_go_first() {
    let records = vec![backup(4, 40), backup(1, 10), backup(3, 20), backup(2, 20)];
    let ids = |setting, protected| -> Vec<i32> {
        backups_to_delete(&records, setting, protected)
            .iter()
            .map(|record| record.id)
            .collect()
    };
    assert_eq!(ids(Some(2), 4), vec![1, 2]);
    assert_eq!(ids(Some(0), 1), vec![2, 3, 4]);
    assert_eq!(ids(Some(4), 4), Vec::<i32>::new());
    assert_eq!(ids(None, 4), Vec::<i32>::new());
    let failure = BackupFileDeleteFailure::FileInaccessible("busy".to_string());
    assert_eq!(
        format_backup_file_delete_failure("/b", &failure),
        "无法删除备份文件: /b，文件可能仍然存在，数据库记录未变更: busy"
    );
    assert!(cleanup_result(&Vec::new()).is_ok());
    let errors = vec!["a".to_string(), "b".to_string()];
    assert_eq!(cleanup_result(&errors).unwrap_err(), "清理旧备份时遇到错误:\na\nb");
    assert_eq!(game_directory(12), "game_12");
}

#[test]
fn surplus_records_go_only_after_their_files() {
    let records = vec![backup(4, 40), backup(1, 10), backup(3, 20), backup(2, 20)];
    let (mut cleanup, action) = cleanup_old_backups(&records, Some(1), 4);
    assert!(matches!(action, CleanupAction::RemoveFile(file) if file == "1.7z"));
    let action = cleanup.on_file("/b/1.7z", Err(BackupFileDeleteFailure::MissingFile));
    assert!(matches!(action, CleanupAction::RemoveFile(file) if file == "2.7z"));
    let action = cleanup.on_file("/b/2.7z", Ok(()));
    assert!(matches!(action, CleanupAction::DeleteRecord(2)));
    let action = cleanup.on_record_deleted(Err("x".to_string()));
    assert!(matches!(action, CleanupAction::RemoveFile(file) if file == "3.7z"));
    let action = cleanup.on_file("/b/3.7z", Ok(()));
    assert!(matches!(action, CleanupAction::DeleteRecord(3)));
    match cleanup.on_record_deleted(Ok(())) {
        CleanupAction::Finish(Err(text)) => assert_eq!(
            text,
            "清理旧备份时遇到错误:\n备份文件不存在: /b/1.7z，数据库记录未变更\n删除数据库记录失败 (ID: 2): x"
        ),
        _ => panic!("all records were tried"),
    }
    let (mut cleanup, action) = cleanup_old_backups(&records, Some(3), 4);
    assert!(matches!(action, CleanupAction::RemoveFile(file) if file == "1.7z"));
    assert!(matches!(cleanup.on_file("/b/1.7z", Ok(())), CleanupAction::DeleteRecord(1)));
    assert!(matches!(cleanup.on_record_deleted(Ok(())), CleanupAction::Finish(Ok(()))));
    let (_, action) = cleanup_old_backups(&records, None, 4);
    assert!(matches!(action, CleanupAction::Finish(Ok(()))));
}

#[test]
fn new_backups_take_the_first_free_name() {
    let mut creation = SavedataCreation::new(7, 1_000_000_000);
    creation.on_source_path(Ok(()));
    creation.on_source(SourceSeen::Present);
    creation.on_root(Ok(()));
    creation.on_directory(Ok(()));
    let taken = |name: &str| {
        if name == "savedata_v2_7_20010909_014640.7z" {
            NameLookup::Taken
        } else {
            NameLookup::Free
        }
    };
    let action = creation.on_named(&taken, &|name: &str| format!("/b/{name}"));
    assert!(matches!(action, Some(CreateAction::Archive)));
    assert_eq!(creation.filename, "savedata_v2_7_20010909_014640_001.7z");
    let mut creation = SavedataCreation::new(7, i64::MAX);
    creation.on_source_path(Ok(()));
    creation.on_source(SourceSeen::Present);
    creation.on_root(Ok(()));
    creation.on_directory(Ok(()));
    assert!(creation.on_named(&taken, &|name: &str| name.to_string()).is_none());
}

#[test]
fn backups_are_named_after_their_time() {
    let free = |_: &str| NameLookup::Free;
    assert_eq!(
        next_backup_filename(7, 1_000_000_000, &free).unwrap().unwrap(),
        "savedata_v2_7_20010909_014640.7z"
    );
    assert!(next_backup_filename(7, i64::MAX, &free).is_none());
    let taken = |name: &str| {
        if name == "savedata_v2_-1_t.7z" {
            NameLookup::Taken
        } else {
            NameLookup::Free
        }
    };
    assert_eq!(filename_for(-1, "t", &taken).unwrap(), "savedata_v2_-1_t_001.7z");
}

fn creating(game_id: i64) -> SavedataCreation {
    let mut creation = SavedataCreation::new(game_id, 99);
    assert!(matches!(creation.on_source_path(Ok(())), CreateAction::LookAtSource));
    assert!(matches!(creation.on_source(SourceSeen::Present), CreateAction::ResolveRoot));
    assert!(matches!(creation.on_root(Ok(())), CreateAction::PrepareDirectory));
    assert!(matches!(creation.on_directory(Ok(())), CreateAction::PickName));
    let named = creation.on_named(&|_: &str| NameLookup::Free, &|name: &str| format!("/b/{name}"));
    assert!(matches!(named, Some(CreateAction::Archive)));
    creation
}

#[test]
fn backups_are_registered_or_removed() {
    let mut creation = creating(7);
    assert!(matches!(
        creation.on_archived(ArchiveOutcome::Done(5)),
        CreateAction::SaveRecord {
            game_id: 7,
            file_size: 5
        }
    ));
    assert!(matches!(
        creation.on_saved(Ok(3)),
        CreateAction::CleanUp {
            game_id: 7,
            backup_id: 3
        }
    ));
    match creation.on_cleaned() {
        CreateAction::Finish(Ok(info)) => {
            assert_eq!(info.folder_name, "savedata_v2_7_19700101_000139.7z");
            assert_eq!(info.backup_path, "/b/savedata_v2_7_19700101_000139.7z");
            assert_eq!((info.backup_time, info.file_size), (99, 5));
        }
        _ => panic!("created"),
    }
    let fault = |creation: &mut SavedataCreation, outcome: RemoveOutcome| match creation.on_removed(outcome) {
        CreateAction::Finish(Err(text)) => text,
        _ => panic!("failed"),
    };
    let mut creation = creating(i64::MAX);
    assert!(matches!(
        creation.on_archived(ArchiveOutcome::Done(5)),
        CreateAction::Remove
    ));
    assert_eq!(fault(&mut creation, RemoveOutcome::Removed), "游戏 ID 超出数据库范围");
    let mut creation = creating(7);
    creation.on_archived(ArchiveOutcome::Done(u64::MAX));
    assert_eq!(fault(&mut creation, RemoveOutcome::Missing), "备份文件大小超出数据库范围");
    let mut creation = creating(7);
    creation.on_archived(ArchiveOutcome::Done(5));
    creation.on_saved(Err("locked".to_string()));
    assert_eq!(
        fault(&mut creation, RemoveOutcome::Failed("busy".to_string())),
        "保存存档备份记录失败: locked；同时清理未登记归档失败: busy"
    );
    let mut creation = creating(7);
    creation.on_archived(ArchiveOutcome::Crashed("panic".to_string()));
    assert_eq!(
        fault(&mut creation, RemoveOutcome::Crashed("x".to_string())),
        "备份任务异常退出: panic；同时清理未登记归档任务失败: x"
    );
    let mut creation = creating(7);
    assert!(matches!(
        creation.on_archived(ArchiveOutcome::Failed("bad".to_string())),
        CreateAction::Finish(Err(text)) if text == "创建压缩包失败: bad"
    ));
    let mut creation = SavedataCreation::new(7, 99);
    creation.on_source_path(Ok(()));
    assert!(matches!(
        creation.on_source(SourceSeen::Missing),
        CreateAction::Finish(Err(text)) if text == "源存档文件或文件夹不存在"
    ));
}
