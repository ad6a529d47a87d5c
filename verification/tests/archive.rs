use reina_manager::backup::savedata::archive::create::{
    push_directory, reject_archive_inside_source, ArchiveAction, ArchiveCreation, SaveNode,
    SourceLook, ZSTD_COMPRESSION_LEVEL,
};
use reina_manager::backup::savedata::archive::inspect::{
    inspect_legacy_entries, inspect_rooted_entries, is_windows_device_name, parse_entry_path,
    reject_entry_kind, validate_entries, ArchiveEntry, SaveEntryKind, MAX_ENTRIES, MAX_SIZE,
};
use reina_manager::backup::savedata::fs_safety::RedirectLook;
use reina_manager::backup::savedata::paths::PathComponent;

fn converted(entry: sevenz_rust2::ArchiveEntry) -> ArchiveEntry {
    ArchiveEntry {
        name: entry.name,
        has_stream: entry.has_stream,
        is_directory: entry.is_directory,
        is_anti_item: entry.is_anti_item,
        has_windows_attributes: entry.has_windows_attributes,
        windows_attributes: entry.windows_attributes,
        size: entry.size,
    }
}

fn file(name: &str) -> ArchiveEntry {
    converted(sevenz_rust2::ArchiveEntry::new_file(name))
}

fn directory(name: &str) -> ArchiveEntry {
    converted(sevenz_rust2::ArchiveEntry::new_directory(name))
}

fn fault(entries: Vec<ArchiveEntry>) -> String {
    validate_entries(&entries, true).err().unwrap()
}

#[test]
fn distinguishes_legacy_shape_and_v2_invariants() {
    let entries = vec![
        file("save.dat"),
        file("config.ini"),
        file("system/settings.dat"),
    ];
    assert!(validate_entries(&entries, true).is_ok());
    assert!(validate_entries(&Vec::new(), true).is_ok());
    assert!(inspect_rooted_entries(&entries).is_err());
    for name in [
        "../save",
        "/save",
        "C:/save",
        "//server/save",
        "SaveData/x:stream",
        "NUL.dat",
        "SaveData/x.",
    ] {
        assert!(validate_entries(&vec![file(name)], true).is_err());
    }
    let mut symlink = sevenz_rust2::ArchiveEntry::new_file("save.dat");
    symlink.has_windows_attributes = true;
    symlink.windows_attributes = (0o120777 << 16) | 0x8000;
    assert!(validate_entries(&vec![converted(symlink)], true).is_err());
    assert!(validate_entries(&vec![file("x"), file("x/y")], true).is_err());
}

#[test]
fn rooted_archives_have_one_root() {
    let mut slot = file("SaveData/slot");
    slot.size = 7;
    let info = inspect_rooted_entries(&vec![directory("SaveData"), slot]).unwrap();
    assert_eq!(info.root_name, "SaveData");
    assert_eq!(info.root_kind, SaveEntryKind::Directory);
    assert_eq!((info.entry_count, info.total_size), (2, 7));
    let info = inspect_rooted_entries(&vec![file("save.dat")]).unwrap();
    assert_eq!(info.root_kind, SaveEntryKind::File);
    let fault = |entries| inspect_rooted_entries(&entries).err().unwrap();
    assert_eq!(fault(Vec::new()), "V2 存档归档为空");
    assert_eq!(fault(vec![file("a"), file("b")]), "V2 存档归档必须只有一个顶层对象");
    assert_eq!(fault(vec![file("a/b")]), "V2 存档归档缺少顶层对象");
    let info = inspect_legacy_entries(&Vec::new()).unwrap();
    assert_eq!((info.entry_count, info.total_size), (0, 0));
}

#[test]
fn unsafe_paths_are_refused() {
    let fault = |name: &str| parse_entry_path(name).unwrap_err();
    assert_eq!(parse_entry_path("a\\b/c").unwrap(), vec!["a", "b", "c"]);
    assert_eq!(fault("../save"), "路径不是安全的相对路径: ../save");
    assert_eq!(fault("a\\..\\b"), "路径不是安全的相对路径: a\\..\\b");
    assert_eq!(fault(""), "路径不是安全的相对路径: ");
    assert_eq!(fault("\\a"), "路径不是安全的相对路径: \\a");
    assert_eq!(fault("a/"), "存档归档路径不是普通相对路径: a/");
    assert_eq!(fault("a/b "), "存档归档路径包含盘符、尾随点或空格: a/b ");
    assert_eq!(fault("C:/a"), "存档归档路径包含盘符、尾随点或空格: C:/a");
    assert_eq!(fault("./a"), "存档归档路径包含盘符、尾随点或空格: ./a");
    assert_eq!(fault("a/com1.txt"), "存档归档路径包含 Windows 设备名: a/com1.txt");
    assert_eq!(fault("a?b"), "存档归档路径包含非法字符: a?b");
    assert_eq!(fault("a\u{7}b"), "存档归档路径包含非法字符: a\u{7}b");
    let deep = vec!["d"; 257].join("/");
    assert_eq!(fault(&deep), "存档归档目录层级过深");
    assert_eq!(parse_entry_path(&vec!["d"; 256].join("/")).unwrap().len(), 256);
    for name in ["con", "PRN .x", "LPT¹", "conout$", "aux.tar.gz"] {
        assert!(is_windows_device_name(name), "{name}");
    }
    for name in ["console", "com0", "lpt", "nul1", ""] {
        assert!(!is_windows_device_name(name), "{name}");
    }
}

#[test]
fn unusual_entries_are_refused() {
    let mut anti = file("a");
    anti.is_anti_item = true;
    assert_eq!(reject_entry_kind(&anti).unwrap_err(), "存档归档包含 anti-item: a");
    let mut device = file("a");
    device.has_windows_attributes = true;
    device.windows_attributes = 0x40;
    assert_eq!(reject_entry_kind(&device).unwrap_err(), "存档归档包含特殊文件: a");
    let mut pipe = file("a");
    pipe.has_windows_attributes = true;
    pipe.windows_attributes = 0x1000_0000;
    assert_eq!(reject_entry_kind(&pipe).unwrap_err(), "存档归档包含 Unix 特殊文件: a");
    let mut streamed = directory("a");
    streamed.has_stream = true;
    assert_eq!(reject_entry_kind(&streamed).unwrap_err(), "存档归档目录包含数据流: a");
    let mut plain = directory("a");
    plain.has_windows_attributes = true;
    plain.windows_attributes = 0x41ed_0010;
    assert!(reject_entry_kind(&plain).is_ok());
}

#[test]
fn aliases_conflicts_and_limits_are_refused() {
    assert_eq!(
        fault(vec![file("a"), file("A")]),
        "存档归档包含重复或别名路径: A"
    );
    assert_eq!(
        fault(vec![file("É"), file("é")]),
        "存档归档包含重复或别名路径: é"
    );
    assert_eq!(
        fault(vec![file("Dir/a"), file("dir/b")]),
        "归档包含大小写冲突的路径: dir"
    );
    assert_eq!(
        fault(vec![file("x/y"), file("x")]),
        "归档中的文件不能包含子条目: x"
    );
    let mut huge = file("a");
    huge.size = MAX_SIZE + 1;
    assert_eq!(fault(vec![huge.clone()]), "存档归档解压大小超出限制");
    let mut most = file("a");
    most.size = MAX_SIZE;
    let mut wrap = file("b");
    wrap.size = u64::MAX;
    assert_eq!(fault(vec![most.clone(), wrap]), "存档归档解压大小溢出");
    assert_eq!(validate_entries(&vec![most], true).unwrap().1, MAX_SIZE);
    let many = (0..=MAX_ENTRIES).map(|index| file(&format!("f{index}"))).collect();
    assert_eq!(fault(many), "存档归档条目数量超出限制");
}

fn look(is_dir: bool) -> SourceLook {
    SourceLook {
        redirect: RedirectLook {
            is_symlink: false,
            reparse: None,
        },
        is_file: !is_dir,
        is_dir,
    }
}

fn node(id: u64, name: &str, children: Option<Vec<SaveNode>>) -> SaveNode {
    SaveNode {
        id,
        key: name.as_bytes().to_vec(),
        name: Some(name.to_string()),
        path: format!("/save/{name}"),
        look: Ok(look(children.is_some())),
        children: Ok(children.unwrap_or_default()),
    }
}

#[test]
fn trees_are_archived_by_name() {
    let tree = node(
        0,
        "save",
        Some(vec![
            node(1, "b", None),
            node(2, "a", Some(vec![node(3, "z", None)])),
            node(4, "B", None),
        ]),
    );
    let mut entries = Vec::new();
    push_directory(&tree, "save", &mut entries).unwrap();
    let found: Vec<(&str, u64, bool)> = entries
        .iter()
        .map(|entry| (entry.name.as_str(), entry.id, entry.directory))
        .collect();
    assert_eq!(
        found,
        vec![
            ("save", 0, true),
            ("save/B", 4, false),
            ("save/a", 2, true),
            ("save/a/z", 3, false),
            ("save/b", 1, false),
        ]
    );
    let archived: Vec<ArchiveEntry> = found
        .iter()
        .map(|(name, _, is_dir)| if *is_dir { directory(name) } else { file(name) })
        .collect();
    assert_eq!(fault(archived), "存档归档包含重复或别名路径: save/b");

    let mut link = node(5, "link", None);
    if let Ok(look) = &mut link.look {
        look.redirect.is_symlink = true;
    }
    let tree = node(0, "save", Some(vec![link]));
    assert_eq!(
        push_directory(&tree, "save", &mut Vec::new()).unwrap_err(),
        "路径不能是符号链接: /save/link"
    );
    let mut unnamed = node(6, "x", None);
    unnamed.name = None;
    let tree = node(0, "save", Some(vec![unnamed]));
    assert_eq!(
        push_directory(&tree, "save", &mut Vec::new()).unwrap_err(),
        "存档路径包含无效文件名"
    );
    assert_eq!(ZSTD_COMPRESSION_LEVEL, 3);
}

#[test]
fn preserves_file_and_empty_directory_roots() {
    for (name, kind) in [
        ("save.dat", SaveEntryKind::File),
        ("SaveData", SaveEntryKind::Directory),
    ] {
        let mut creation = ArchiveCreation::new(format!("/s/{name}"), Some(name.to_string()));
        let entry = if kind == SaveEntryKind::File {
            assert!(matches!(creation.on_source(Ok(look(false))), ArchiveAction::CreateParent));
            file(name)
        } else {
            assert!(matches!(creation.on_source(Ok(look(true))), ArchiveAction::ResolvePlaces));
            let places = (
                vec![PathComponent::RootDir, PathComponent::Normal(b"s".to_vec())],
                vec![PathComponent::RootDir, PathComponent::Normal(b"b".to_vec())],
            );
            assert!(matches!(creation.on_places(Ok(places)), ArchiveAction::CreateParent));
            directory(name)
        };
        assert!(matches!(creation.on_parent(Ok(())), ArchiveAction::CreateFile));
        assert!(matches!(creation.on_created(Ok(())), ArchiveAction::Write));
        assert!(matches!(creation.on_written(Ok(())), ArchiveAction::ReadEntries));
        let info = inspect_rooted_entries(&vec![entry.clone()]).unwrap();
        assert_eq!((info.root_name.as_str(), info.root_kind), (name, kind));
        assert!(matches!(creation.on_entries(Ok(vec![entry])), ArchiveAction::Measure));
        assert!(matches!(creation.on_measured(Ok(9)), ArchiveAction::Finish(Ok(9))));
    }
}

#[test]
fn failed_archives_are_removed() {
    let mut creation = ArchiveCreation::new("/s/a".to_string(), Some("a".to_string()));
    creation.on_source(Ok(look(false)));
    creation.on_parent(Ok(()));
    creation.on_created(Ok(()));
    creation.on_written(Ok(()));
    assert!(matches!(
        creation.on_entries(Ok(vec![file("a"), file("b")])),
        ArchiveAction::Remove
    ));
    assert!(matches!(
        creation.on_removed(),
        ArchiveAction::Finish(Err(text)) if text == "V2 存档归档必须只有一个顶层对象"
    ));
    let mut creation = ArchiveCreation::new("/s/a".to_string(), Some("a".to_string()));
    creation.on_source(Ok(look(false)));
    creation.on_parent(Ok(()));
    assert!(matches!(
        creation.on_created(Err("exists".to_string())),
        ArchiveAction::Finish(Err(text)) if text == "exists"
    ));
    let mut creation = ArchiveCreation::new("/".to_string(), None);
    assert!(matches!(
        creation.on_source(Ok(look(false))),
        ArchiveAction::Finish(Err(text)) if text == "存档路径没有有效名称"
    ));
    let mut special = look(false);
    special.is_file = false;
    let mut creation = ArchiveCreation::new("/dev/x".to_string(), Some("x".to_string()));
    assert!(matches!(
        creation.on_source(Ok(special)),
        ArchiveAction::Finish(Err(text)) if text == "存档包含特殊文件: /dev/x"
    ));
    let inner = vec![PathComponent::RootDir, PathComponent::Normal(b"s".to_vec())];
    assert_eq!(
        reject_archive_inside_source(&inner, &inner).unwrap_err(),
        "7z 归档不能位于源存档目录内部"
    );
}
