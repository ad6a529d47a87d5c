use reina_manager::backup::common::NameLookup;
use reina_manager::backup::savedata::archive::create::SourceLook;
use reina_manager::backup::savedata::archive::inspect::{
    ArchiveEntry, ArchiveSaveInfo, SaveEntryKind,
};
use reina_manager::backup::savedata::fs_safety::RedirectLook;
use reina_manager::backup::savedata::paths::NameRules;
use reina_manager::backup::savedata::restore::common::{
    check_extracted_size, create_restore_sibling_path, create_restore_temp_dir, entry_output,
    ensure_safe_existing_ancestors, ensure_safe_existing_object, validate_extracted_tree,
    AncestorLook, Commit, CommitAction, ExtractedChildren, ExtractedEntry, ExtractedNode,
    MakeOutcome, ObjectSeen, RestorePlan, StagingAction,
};
use reina_manager::backup::savedata::restore::rooted::{
    plan_legacy_restore, plan_restore, save_name_eq, validate_payload, PayloadLook,
    StagingListing, TargetLook,
};
use reina_manager::backup::savedata::restore::session::{Restore, RestoreAction};
use reina_manager::host::{IoFailure, IoKind, Presence};

fn look(is_dir: bool) -> SourceLook {
    SourceLook {
        redirect: RedirectLook {
            is_symlink: false,
            reparse: None,
        },
        is_file: !is_dir,
        is_dir,
    }
}

fn link() -> SourceLook {
    let mut found = look(true);
    found.redirect.is_symlink = true;
    found
}

fn missing() -> ObjectSeen {
    ObjectSeen::Missing("not found".to_string())
}

fn object(path: &str, is_dir: bool, children: Vec<ExtractedEntry>) -> ExtractedNode {
    ExtractedNode::Object {
        path: path.to_string(),
        look: look(is_dir),
        children: ExtractedChildren::Listed(children),
    }
}

fn entry(name: &str, is_directory: bool) -> ArchiveEntry {
    ArchiveEntry {
        name: name.to_string(),
        has_stream: !is_directory,
        is_directory,
        is_anti_item: false,
        has_windows_attributes: false,
        windows_attributes: 0,
        size: 0,
    }
}

fn info(name: &str, kind: SaveEntryKind) -> ArchiveSaveInfo {
    ArchiveSaveInfo {
        root_name: name.to_string(),
        root_kind: kind,
        entry_count: 1,
        total_size: 0,
    }
}

fn target(name: &str, seen: ObjectSeen, alternate_seen: Presence) -> TargetLook {
    TargetLook {
        path: format!("/game/{name}"),
        name: Some(name.to_string()),
        has_parent: true,
        seen,
        alternate: "/game/SaveData".to_string(),
        alternate_seen,
    }
}

fn payload(names: &[&str], is_dir: bool) -> PayloadLook {
    PayloadLook {
        listing: StagingListing::Names(names.iter().map(|name| name.to_string()).collect()),
        path: "/staging/SaveData".to_string(),
        seen: ObjectSeen::Found(look(is_dir)),
        tree: object("/staging/SaveData", is_dir, Vec::new()),
    }
}

fn finished(
    action: CommitAction,
) -> Result<Option<String>, String> {
    match action {
        CommitAction::Finish(result) => result,
        other => panic!("not finished: {other:?}"),
    }
}

#[test]
fn save_names_follow_windows_ascii_case_semantics() {
    assert!(save_name_eq(NameRules::IgnoreCase, "savedata", "SaveData"));
    assert!(!save_name_eq(NameRules::Exact, "savedata", "SaveData"));
    assert!(save_name_eq(NameRules::Exact, "SaveData", "SaveData"));
}

#[test]
fn failed_install_rolls_back_and_reports_preserved_old_object() {
    for rollback_fails in [false, true] {
        let plan = RestorePlan {
            final_path: "/root/save".to_string(),
            replace_existing: true,
            restored_to_alternate: false,
        };
        let mut commit = Commit::new(&plan, SaveEntryKind::File);
        let action = commit.on_parent(&Some(Vec::new()));
        assert!(matches!(action, CommitAction::LookAtFinal));
        let action = commit.on_final(&ObjectSeen::Found(look(false)));
        assert!(matches!(action, CommitAction::PickStash));
        let old = "/root/.reina_old_1_0";
        assert!(matches!(commit.on_named(Ok(old.to_string())), CommitAction::Stash));
        assert!(matches!(commit.on_stashed(Ok(())), CommitAction::Install));
        let fault = "注入 rename 故障".to_string();
        assert!(matches!(commit.on_installed(Err(fault.clone())), CommitAction::RollBack));
        let error = finished(commit.on_rolled_back(if rollback_fails {
            Err(fault)
        } else {
            Ok(())
        }))
        .unwrap_err();
        assert_eq!(rollback_fails, error.contains(old));
        assert!(error.starts_with(if rollback_fails {
            "安装恢复内容失败且回滚失败；原存档保留在 "
        } else {
            "安装恢复内容失败，已回滚原存档: "
        }));
    }
}

#[test]
fn exchanges_report_leftovers() {
    let plan = RestorePlan {
        final_path: "/f".to_string(),
        replace_existing: true,
        restored_to_alternate: false,
    };
    let mut commit = Commit::new(&plan, SaveEntryKind::Directory);
    commit.on_parent(&Some(Vec::new()));
    commit.on_final(&ObjectSeen::Found(look(true)));
    commit.on_named(Ok("/old".to_string()));
    commit.on_stashed(Ok(()));
    assert!(matches!(commit.on_installed(Ok(())), CommitAction::ClearStash));
    assert_eq!(
        finished(commit.on_cleared(Err("busy".to_string()))).unwrap().as_deref(),
        Some("恢复成功，但清理旧存档 /old 失败: busy")
    );
    let mut commit = Commit::new(&plan, SaveEntryKind::Directory);
    commit.on_parent(&Some(Vec::new()));
    assert_eq!(
        finished(commit.on_final(&ObjectSeen::Found(look(false)))).unwrap_err(),
        "恢复目标类型在解压期间发生变化，拒绝替换"
    );
    let fresh = RestorePlan {
        final_path: "/f".to_string(),
        replace_existing: false,
        restored_to_alternate: false,
    };
    let mut commit = Commit::new(&fresh, SaveEntryKind::Directory);
    commit.on_parent(&Some(Vec::new()));
    assert_eq!(
        finished(commit.on_final(&ObjectSeen::Found(look(true)))).unwrap_err(),
        "恢复目标已存在，拒绝覆盖: /f"
    );
    let mut commit = Commit::new(&fresh, SaveEntryKind::Directory);
    commit.on_parent(&Some(Vec::new()));
    assert!(matches!(commit.on_final(&missing()), CommitAction::Install));
    assert_eq!(
        finished(commit.on_installed(Err("x".to_string()))).unwrap_err(),
        "安装恢复内容失败: x"
    );
    let mut commit = Commit::new(&fresh, SaveEntryKind::Directory);
    assert_eq!(finished(commit.on_parent(&None)).unwrap_err(), "恢复目标没有父目录");
}

#[test]
fn only_plain_objects_are_safe() {
    let kind = |seen: ObjectSeen| ensure_safe_existing_object(&seen, "/p");
    assert_eq!(kind(ObjectSeen::Found(look(true))).unwrap(), SaveEntryKind::Directory);
    assert_eq!(kind(ObjectSeen::Found(look(false))).unwrap(), SaveEntryKind::File);
    assert_eq!(kind(ObjectSeen::Found(link())).unwrap_err(), "路径不能是符号链接: /p");
    assert_eq!(kind(missing()).unwrap_err(), "读取存档路径失败 /p: not found");
    let mut special = look(false);
    special.is_file = false;
    assert_eq!(
        kind(ObjectSeen::Found(special)).unwrap_err(),
        "存档路径必须是普通文件或目录: /p"
    );
    let ancestor = |path: &str, has_parent: bool, seen: ObjectSeen| AncestorLook {
        path: path.to_string(),
        has_parent,
        seen,
    };
    let safe = vec![
        ancestor("/a/b", true, missing()),
        ancestor("/a", true, ObjectSeen::Found(look(true))),
        ancestor("/", false, ObjectSeen::Found(look(true))),
    ];
    assert!(ensure_safe_existing_ancestors(&safe).is_ok());
    let file = vec![ancestor("/a", true, ObjectSeen::Found(look(false)))];
    assert_eq!(
        ensure_safe_existing_ancestors(&file).unwrap_err(),
        "恢复父路径不是目录: /a"
    );
    let denied = vec![ancestor("/a", true, ObjectSeen::Failed("denied".to_string()))];
    assert_eq!(
        ensure_safe_existing_ancestors(&denied).unwrap_err(),
        "检查恢复路径失败 /a: denied"
    );
}

#[test]
fn unpacked_trees_are_plain() {
    let tree = object(
        "/s",
        true,
        vec![
            ExtractedEntry::Node(object("/s/a", false, Vec::new())),
            ExtractedEntry::Node(object("/s/b", true, Vec::new())),
        ],
    );
    assert!(validate_extracted_tree(&tree).is_ok());
    let fault = |child: ExtractedEntry| {
        validate_extracted_tree(&object("/s", true, vec![child])).unwrap_err()
    };
    assert_eq!(
        fault(ExtractedEntry::Unreadable("x".to_string())),
        "读取解压条目失败: x"
    );
    assert_eq!(
        fault(ExtractedEntry::Node(ExtractedNode::Unreadable("x".to_string()))),
        "读取解压内容失败: x"
    );
    assert_eq!(
        fault(ExtractedEntry::Node(ExtractedNode::Object {
            path: "/s/l".to_string(),
            look: link(),
            children: ExtractedChildren::Listed(Vec::new()),
        })),
        "解压内容包含路径重定向对象: 路径不能是符号链接: /s/l"
    );
    assert_eq!(
        fault(ExtractedEntry::Node(ExtractedNode::Object {
            path: "/s/d".to_string(),
            look: look(true),
            children: ExtractedChildren::Failed("x".to_string()),
        })),
        "读取解压目录失败: x"
    );
    assert_eq!(entry_output("a\\b/c"), "a/b/c");
    assert!(check_extracted_size(3, 3).is_ok());
    assert_eq!(check_extracted_size(3, 4).unwrap_err(), "解压文件大小与归档声明不符");
}

#[test]
fn fresh_names_are_picked() {
    let clock = Ok(5u128);
    let make = |outcome: &dyn Fn(&str) -> MakeOutcome| {
        let (mut search, mut action) = create_restore_temp_dir(&clock).unwrap();
        let mut tried = 0;
        loop {
            action = match action {
                StagingAction::Finish(result) => return (tried, result),
                StagingAction::Make(name) => {
                    tried += 1;
                    search.on_made(outcome(&name))
                }
            };
        }
    };
    let made = make(&|name: &str| {
        if name.ends_with("_0") {
            MakeOutcome::Exists
        } else {
            MakeOutcome::Made
        }
    });
    assert_eq!(made, (2, Ok(".reina_restore_5_1".to_string())));
    let full = make(&|_: &str| MakeOutcome::Failed("full".to_string()));
    assert_eq!(full, (1, Err("创建恢复临时目录失败: full".to_string())));
    let none = make(&|_: &str| MakeOutcome::Exists);
    assert_eq!(none, (100, Err("无法创建唯一恢复临时目录".to_string())));
    let picked = create_restore_sibling_path(".reina_old", &clock, &|_: &str| NameLookup::Free);
    assert_eq!(picked.unwrap(), ".reina_old_5_0");
    let none = create_restore_sibling_path(".reina_old", &clock, &|_: &str| NameLookup::Taken);
    assert_eq!(none.unwrap_err(), "无法创建唯一原存档暂存路径");
    let stopped = Err("stopped".to_string());
    match create_restore_temp_dir(&stopped) {
        Err(text) => assert_eq!(text, "获取临时目录时间失败: stopped"),
        Ok(_) => panic!("there is no clock"),
    }
}

#[test]
fn name_and_type_rules_prevent_unknown_overwrites() {
    let saved = info("SaveData", SaveEntryKind::Directory);
    let plan = |look: TargetLook| plan_restore(NameRules::Exact, &saved, &look);
    let directory = || ObjectSeen::Found(look(true));
    let found = plan(target("UserData", directory(), Presence::Absent)).unwrap();
    assert_eq!(found.final_path, "/game/SaveData");
    assert!(!found.replace_existing && found.restored_to_alternate);
    assert_eq!(
        plan(target("UserData", directory(), Presence::Present)).err().unwrap(),
        "备份原名目标已存在，拒绝覆盖未知存档: /game/SaveData"
    );
    assert_eq!(
        plan(target("UserData", ObjectSeen::Found(look(false)), Presence::Absent)).err().unwrap(),
        "当前存档与备份类型不一致，拒绝恢复"
    );
    let found = plan(target("SaveData", directory(), Presence::Present)).unwrap();
    assert_eq!(found.final_path, "/game/SaveData");
    assert!(found.replace_existing && !found.restored_to_alternate);
    let found = plan(target("SaveData", missing(), Presence::Absent)).unwrap();
    assert!(!found.replace_existing);
    let denied = Presence::Failed(IoFailure::new(IoKind::Other, "denied".to_string()));
    assert_eq!(
        plan(target("UserData", missing(), denied)).err().unwrap(),
        "检查备份原名目标失败: denied"
    );
    let mut unnamed = target("x", missing(), Presence::Absent);
    unnamed.name = None;
    assert_eq!(plan(unnamed).err().unwrap(), "当前存档路径没有有效名称");
    let mut top = target("x", missing(), Presence::Absent);
    top.has_parent = false;
    assert_eq!(plan(top).err().unwrap(), "当前存档路径没有父目录");
    assert_eq!(
        plan(target("x", ObjectSeen::Failed("denied".to_string()), Presence::Absent)).err().unwrap(),
        "读取当前存档路径失败: denied"
    );
}

#[test]
fn rejects_file_target_without_touching_it() {
    let error = plan_legacy_restore("/game/save.dat", &ObjectSeen::Found(look(false))).err().unwrap();
    assert_eq!(error, "旧版备份一定是目录备份，当前存档路径不是目录，拒绝恢复");
    assert!(plan_legacy_restore("/g", &ObjectSeen::Found(look(true))).unwrap().replace_existing);
    assert!(!plan_legacy_restore("/g", &missing()).unwrap().replace_existing);
}

#[test]
fn unpacked_backups_hold_exactly_their_root() {
    let saved = info("SaveData", SaveEntryKind::Directory);
    let fault = |look: PayloadLook| validate_payload(&look, &saved).unwrap_err();
    assert!(validate_payload(&payload(&["SaveData"], true), &saved).is_ok());
    assert_eq!(
        fault(payload(&["SaveData", "extra"], true)),
        "解压临时目录没有且仅有预期顶层对象"
    );
    assert_eq!(fault(payload(&["Other"], true)), "解压临时目录没有且仅有预期顶层对象");
    assert_eq!(fault(payload(&["SaveData"], false)), "解压后的顶层对象类型不一致");
    let mut unread = payload(&["SaveData"], true);
    unread.listing = StagingListing::EntryFailed("x".to_string());
    assert_eq!(fault(unread), "读取解压临时目录条目失败: x");
}

fn committing() -> Restore {
    let mut restore = Restore::new(NameRules::Exact, false);
    let entries = vec![entry("SaveData", true), entry("SaveData/slot", false)];
    assert!(matches!(restore.on_entries(&entries), RestoreAction::LookAtTarget));
    let look = target("SaveData", ObjectSeen::Found(look(true)), Presence::Present);
    assert!(matches!(restore.on_target(&look), RestoreAction::LookAtParents));
    assert!(matches!(restore.on_parents(&Some(Vec::new())), RestoreAction::CreateParent));
    assert!(matches!(restore.on_parent_created(Ok(())), RestoreAction::LookAtParents));
    assert!(matches!(restore.on_parents(&Some(Vec::new())), RestoreAction::CreateStaging));
    assert!(matches!(
        restore.on_staging(Ok("/game/.staging".to_string())),
        RestoreAction::Extract
    ));
    assert!(matches!(restore.on_extracted(Ok(())), RestoreAction::LookAtPayload));
    assert!(matches!(restore.on_payload(&payload(&["SaveData"], true)), RestoreAction::Commit));
    restore
}

#[test]
fn same_name_replaces_files_and_directories_without_merging() {
    let mut restore = committing();
    let action = restore.on_committed(Ok(Some("leftover".to_string())));
    assert!(matches!(action, RestoreAction::RemoveStaging));
    let busy = IoFailure::new(IoKind::Other, "busy".to_string());
    match restore.on_staging_removed(Err(busy)) {
        RestoreAction::Finish(Ok(result)) => {
            assert!(result.replaced_existing);
            assert_eq!(result.restored_path, "/game/SaveData");
            assert_eq!(
                result.cleanup_warning.as_deref(),
                Some("leftover；恢复成功，但清理临时目录 /game/.staging 失败: busy")
            );
        }
        _ => panic!("restored"),
    }
    let mut restore = committing();
    restore.on_committed(Ok(None));
    let gone = IoFailure::new(IoKind::NotFound, "gone".to_string());
    match restore.on_staging_removed(Err(gone)) {
        RestoreAction::Finish(Ok(result)) => assert!(result.cleanup_warning.is_none()),
        _ => panic!("restored"),
    }
}

#[test]
fn damaged_payload_does_not_touch_existing_target() {
    let mut restore = Restore::new(NameRules::Exact, false);
    restore.on_entries(&vec![entry("save.dat", false)]);
    restore.on_target(&target("save.dat", ObjectSeen::Found(look(false)), Presence::Present));
    restore.on_parents(&Some(Vec::new()));
    restore.on_parent_created(Ok(()));
    restore.on_parents(&Some(Vec::new()));
    restore.on_staging(Ok("/s".to_string()));
    assert!(matches!(
        restore.on_extracted(Err("crc".to_string())),
        RestoreAction::RemoveStaging
    ));
    assert!(matches!(
        restore.on_staging_removed(Ok(())),
        RestoreAction::Finish(Err(text)) if text == "解压备份失败: crc"
    ));
    let mut restore = committing();
    restore.on_committed(Err("busy".to_string()));
    assert!(matches!(
        restore.on_staging_removed(Ok(())),
        RestoreAction::Finish(Err(text)) if text == "busy"
    ));
}

#[test]
fn unsafe_archive_does_not_touch_existing_target() {
    let mut restore = Restore::new(NameRules::Exact, true);
    assert!(matches!(
        restore.on_entries(&vec![entry("../escape", false)]),
        RestoreAction::Finish(Err(text))
            if text == "旧版备份预检失败: 路径不是安全的相对路径: ../escape"
    ));
}

#[test]
fn restores_single_multiple_and_empty_contents_as_directories() {
    for entries in [
        vec![entry("save.dat", false)],
        vec![entry("save.dat", false), entry("system/settings.dat", false)],
        Vec::new(),
    ] {
        let mut restore = Restore::new(NameRules::Exact, true);
        assert!(matches!(restore.on_entries(&entries), RestoreAction::LookAtTarget));
        restore.on_target(&target("SaveData", missing(), Presence::Absent));
        restore.on_parents(&Some(Vec::new()));
        restore.on_parent_created(Ok(()));
        restore.on_parents(&Some(Vec::new()));
        restore.on_staging(Ok("/s".to_string()));
        restore.on_extracted(Ok(()));
        assert!(matches!(restore.on_payload(&payload(&[], true)), RestoreAction::Commit));
        match restore.on_committed(Ok(None)) {
            RestoreAction::Finish(Ok(result)) => {
                assert!(!result.replaced_existing);
                assert_eq!(result.restored_path, "/game/SaveData");
            }
            _ => panic!("restored"),
        }
    }
}
