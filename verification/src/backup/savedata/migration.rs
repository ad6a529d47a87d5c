//! Preparing a move of the backup root: a verified copy at the new place.
//!
//! The old root is only read. The copy is made under a temporary name beside
//! the target and renamed into place, or, where the old root lies directly in
//! the new one, its entries are copied one level up.

use vstd::prelude::*;

use super::failure::{
    about_source, about_target, both, fail_both, fail_source, fail_target, failure_views, note,
    single, FailureView, SavedataBackupMigrationFailure,
};
use super::paths::{
    copy_bytes, normalize_for_overlap, normalized, overlapping, parent, parent_of, path_view, paths_overlap,
    same_path, same_paths, ComponentView, NameRules, PathComponent,
};
use super::tree::{
    copied, copy_check_is_exact, copy_failures, flatten_check_is_exact, flatten_failures,
    flattened, verify_copy, verify_nested_flatten_copy, FlattenScan, SourceScan, TargetScan,
};
use crate::host::{Metadata, Presence, TypeFlags};
use crate::text::concat::{cat2, cat3};
use crate::text::number::{decimal, decimal_text};

verus! {

/// What has been done at the target.
#[derive(Debug)]
pub enum PreparedTargetCommit {
    /// The copy was renamed into place; the target may have been an empty
    /// directory before.
    Replaced { target_existed: bool },
    /// These entries of the nested root were copied into the target.
    FlattenedNestedRoot { copied_entries: Vec<Vec<u8>> },
    /// The target already was a verified copy.
    ExistingVerifiedCopy,
}

/// What the preparation came to.
#[derive(Debug)]
pub enum PreparedMigration {
    /// Old and new root are the same.
    NoSource,
    Ready(PreparedTargetCommit),
}

/// Judges the old root before its records are looked at.
pub open spec fn existing_directory_verdict(path: Seq<char>, seen: Metadata) -> Option<FailureView> {
    match seen {
        Metadata::Found(flags) => if flags.real_directory() {
            None
        } else if flags.is_symlink {
            Some(about_source(path, "路径是符号链接，无法确认目录是否可访问"@))
        } else {
            Some(about_source(path, "路径存在但不是目录"@))
        },
        Metadata::Missing => Some(about_source(path, "目录不存在，已跳过旧备份迁移"@)),
        Metadata::Failed(text) => Some(
            about_source(path, "无法访问目录，已跳过旧备份迁移: "@ + text@),
        ),
    }
}

/// Requires a real directory.
pub fn ensure_existing_directory(path: &str, seen: &Metadata) -> (result: Result<
    (),
    Vec<SavedataBackupMigrationFailure>,
>)
    ensures
        match existing_directory_verdict(path@, *seen) {
            None => result is Ok,
            Some(failure) => result matches Err(failures) && failure_views(failures@)
                == seq![failure],
        },
{
    match seen {
        Metadata::Found(flags) => {
            if flags.is_real_directory() {
                Ok(())
            } else if flags.is_symlink {
                Err(single(fail_source(path, "路径是符号链接，无法确认目录是否可访问")))
            } else {
                Err(single(fail_source(path, "路径存在但不是目录")))
            }
        },
        Metadata::Missing => Err(single(fail_source(path, "目录不存在，已跳过旧备份迁移"))),
        Metadata::Failed(text) => Err(
            single(
                fail_source(path, cat2("无法访问目录，已跳过旧备份迁移: ", text.as_str()).as_str()),
            ),
        ),
    }
}

/// A backup record, and what stands at its path.
#[derive(Debug)]
pub struct RecordLook {
    pub id: i32,
    pub path: String,
    pub seen: Metadata,
}

/// The failure of a record whose file is neither there nor known to be gone.
pub open spec fn record_failure(record: RecordLook) -> Option<FailureView> {
    match record.seen {
        Metadata::Found(flags) => if flags.real_file() {
            None
        } else {
            Some(about_source(record.path@, "数据库记录对应的备份路径不是普通文件"@))
        },
        Metadata::Missing => None,
        Metadata::Failed(text) => Some(
            about_source(record.path@, "检查数据库记录对应的备份文件失败: "@ + text@),
        ),
    }
}

pub open spec fn record_failures(records: Seq<RecordLook>) -> Seq<FailureView>
    decreases records.len(),
{
    if records.len() == 0 {
        Seq::empty()
    } else {
        let rest = record_failures(records.drop_last());
        match record_failure(records.last()) {
            Some(failure) => rest.push(failure),
            None => rest,
        }
    }
}

/// The ids of the records whose files are gone.
pub open spec fn missing_ids(records: Seq<RecordLook>) -> Seq<i32>
    decreases records.len(),
{
    if records.len() == 0 {
        Seq::empty()
    } else {
        let rest = missing_ids(records.drop_last());
        if records.last().seen is Missing {
            rest.push(records.last().id)
        } else {
            rest
        }
    }
}

/// Finds the records whose files are definitely gone; a record that cannot be
/// judged stops the move.
pub fn collect_missing_savedata_records(records: &Vec<RecordLook>) -> (result: Result<
    Vec<i32>,
    Vec<SavedataBackupMigrationFailure>,
>)
    ensures
        if record_failures(records@).len() == 0 {
            result matches Ok(ids) && ids@ == missing_ids(records@)
        } else {
            result matches Err(failures) && failure_views(failures@) == record_failures(records@)
        },
{
    let mut ids: Vec<i32> = Vec::new();
    let mut failures: Vec<SavedataBackupMigrationFailure> = Vec::new();
    let mut at: usize = 0;
    assert(failure_views(failures@) =~= record_failures(records@.take(0)));
    while at < records.len()
        invariant
            at <= records@.len(),
            ids@ == missing_ids(records@.take(at as int)),
            failure_views(failures@) == record_failures(records@.take(at as int)),
        decreases records@.len() - at,
    {
        let record: &RecordLook = &records[at];
        assert(records@.take(at + 1).drop_last() =~= records@.take(at as int));
        assert(records@.take(at + 1).last() == *record);
        match &record.seen {
            Metadata::Found(flags) => {
                if !flags.is_real_file() {
                    note(
                        &mut failures,
                        fail_source(record.path.as_str(), "数据库记录对应的备份路径不是普通文件"),
                    );
                }
            },
            Metadata::Missing => {
                ids.push(record.id);
            },
            Metadata::Failed(text) => {
                let message: String = cat2("检查数据库记录对应的备份文件失败: ", text.as_str());
                note(&mut failures, fail_source(record.path.as_str(), message.as_str()));
            },
        }
        at += 1;
    }
    assert(records@.take(at as int) =~= records@);
    if failures.len() == 0 {
        assert(failure_views(failures@).len() == 0);
        Ok(ids)
    } else {
        assert(failure_views(failures@).len() > 0);
        Err(failures)
    }
}

/// A record is dropped only if its file is definitely gone.
pub proof fn only_missing_records_are_dropped(records: Seq<RecordLook>, id: i32)
    requires
        missing_ids(records).contains(id),
    ensures
        exists|i: int|
            0 <= i < records.len() && (#[trigger] records[i]).id == id && records[i].seen
                is Missing,
    decreases records.len(),
{
    if records.len() > 0 {
        let last = records.last();
        let rest = missing_ids(records.drop_last());
        if last.seen is Missing && last.id == id {
            assert(records[records.len() - 1].id == id);
        } else {
            let all = missing_ids(records);
            let k = choose|k: int| 0 <= k < all.len() && all[k] == id;
            if k < rest.len() {
                assert(rest[k] == id);
            }
            only_missing_records_are_dropped(records.drop_last(), id);
            let i = choose|i: int|
                0 <= i < records.drop_last().len() && (#[trigger] records.drop_last()[i]).id == id
                    && records.drop_last()[i].seen is Missing;
            assert(records[i].id == id);
        }
    }
}

/// The outer directory of a nested root, as far as it was looked at.
#[derive(Debug)]
pub struct NestedLook {
    /// Old and new root, normalized, as shown to users.
    pub source: String,
    pub target: String,
    /// The type of the outer directory.
    pub outer: Result<TypeFlags, String>,
    /// Its first entries, two at most.
    pub entries: Result<Vec<Result<NestedEntryLook, String>>, String>,
    /// The real path of the old root.
    pub expected: Result<Vec<PathComponent>, String>,
}

/// One entry of the outer directory.
#[derive(Debug)]
pub struct NestedEntryLook {
    pub path: String,
    pub kind: Result<TypeFlags, String>,
    /// The real path of the entry.
    pub actual: Result<Vec<PathComponent>, String>,
}

/// Why the outer directory cannot take the entries of the nested root: it has
/// to be a real directory whose only entry is the old root.
pub open spec fn nested_fault(rules: NameRules, look: NestedLook) -> Option<Seq<char>> {
    match look.outer {
        Err(text) => Some("无法检查嵌套备份目标目录: "@ + text@),
        Ok(flags) => if !flags.real_directory() {
            Some("嵌套备份目标必须是真实目录"@)
        } else {
            match look.entries {
                Err(text) => Some("无法读取嵌套备份目标目录: "@ + text@),
                Ok(entries) => if entries@.len() == 0 {
                    Some("嵌套备份目标目录没有包含旧备份根"@)
                } else {
                    match entries@[0] {
                        Err(text) => Some("读取嵌套备份目录项失败: "@ + text@),
                        Ok(entry) => if entries@.len() > 1 {
                            Some(
                                "只有目标仅包含旧备份根目录时才能扁平迁移；"@ + match entries@[1] {
                                    Ok(extra) => "发现额外目录项: "@ + extra.path@,
                                    Err(text) => "读取额外目录项失败: "@ + text@,
                                },
                            )
                        } else {
                            match entry.kind {
                                Err(text) => Some("读取嵌套备份目录类型失败: "@ + text@),
                                Ok(kind) => if !kind.real_directory() {
                                    Some("目标中的唯一目录项不是可迁移的真实目录"@)
                                } else {
                                    match (entry.actual, look.expected) {
                                        (Err(text), _) => Some(
                                            "解析目标中的旧备份根失败: "@ + text@,
                                        ),
                                        (Ok(_), Err(text)) => Some("解析旧备份根失败: "@ + text@),
                                        (Ok(actual), Ok(expected)) => if same_paths(
                                            rules,
                                            path_view(actual@),
                                            path_view(expected@),
                                        ) {
                                            None
                                        } else {
                                            Some("目标中的唯一目录项不是当前旧备份根"@)
                                        },
                                    }
                                },
                            }
                        },
                    }
                },
            }
        },
    }
}

/// Requires that the outer directory holds the old root and nothing else.
pub fn ensure_direct_nested_source_is_only_entry(
    rules: NameRules,
    look: &NestedLook,
) -> (result: Result<(), Vec<SavedataBackupMigrationFailure>>)
    ensures
        match nested_fault(rules, *look) {
            None => result is Ok,
            Some(message) => result matches Err(failures) && failure_views(failures@) == seq![
                both(look.source@, look.target@, message),
            ],
        },
{
    match nested_fault_message(rules, look) {
        None => Ok(()),
        Some(message) => Err(
            single(fail_both(look.source.as_str(), look.target.as_str(), message.as_str())),
        ),
    }
}

fn nested_fault_message(rules: NameRules, look: &NestedLook) -> (message: Option<String>)
    ensures
        crate::text::concat::option_view(message) == nested_fault(rules, *look),
{
    let flags: &TypeFlags = match &look.outer {
        Ok(flags) => flags,
        Err(text) => {
            return Some(cat2("无法检查嵌套备份目标目录: ", text.as_str()));
        },
    };
    if !flags.is_real_directory() {
        return Some("嵌套备份目标必须是真实目录".to_owned());
    }
    let entries: &Vec<Result<NestedEntryLook, String>> = match &look.entries {
        Ok(entries) => entries,
        Err(text) => {
            return Some(cat2("无法读取嵌套备份目标目录: ", text.as_str()));
        },
    };
    if entries.len() == 0 {
        return Some("嵌套备份目标目录没有包含旧备份根".to_owned());
    }
    let entry: &NestedEntryLook = match &entries[0] {
        Ok(entry) => entry,
        Err(text) => {
            return Some(cat2("读取嵌套备份目录项失败: ", text.as_str()));
        },
    };
    if entries.len() > 1 {
        let detail: String = match &entries[1] {
            Ok(extra) => cat2("发现额外目录项: ", extra.path.as_str()),
            Err(text) => cat2("读取额外目录项失败: ", text.as_str()),
        };
        return Some(cat2("只有目标仅包含旧备份根目录时才能扁平迁移；", detail.as_str()));
    }
    let kind: &TypeFlags = match &entry.kind {
        Ok(kind) => kind,
        Err(text) => {
            return Some(cat2("读取嵌套备份目录类型失败: ", text.as_str()));
        },
    };
    if !kind.is_real_directory() {
        return Some("目标中的唯一目录项不是可迁移的真实目录".to_owned());
    }
    let actual: &Vec<PathComponent> = match &entry.actual {
        Ok(actual) => actual,
        Err(text) => {
            return Some(cat2("解析目标中的旧备份根失败: ", text.as_str()));
        },
    };
    let expected: &Vec<PathComponent> = match &look.expected {
        Ok(expected) => expected,
        Err(text) => {
            return Some(cat2("解析旧备份根失败: ", text.as_str()));
        },
    };
    if same_path(rules, actual, expected) {
        None
    } else {
        Some("目标中的唯一目录项不是当前旧备份根".to_owned())
    }
}

/// How old and new root lie to each other.
#[derive(Clone, Copy, Debug, PartialEq, Eq, Structural)]
pub enum RootRelation {
    Separate,
    Same,
    /// The old root lies directly in the new one, by name and in fact.
    DirectlyNested,
    /// Any other overlap.
    Overlapping,
}

/// The relation, from the normalized and the resolved paths.
pub open spec fn relation(
    rules: NameRules,
    source: Seq<ComponentView>,
    target: Seq<ComponentView>,
    real_source: Seq<ComponentView>,
    real_target: Seq<ComponentView>,
) -> RootRelation {
    if !overlapping(rules, real_source, real_target) {
        RootRelation::Separate
    } else if same_paths(rules, real_source, real_target) {
        RootRelation::Same
    } else if (parent_of(real_source) matches Some(outer) && same_paths(
        rules,
        outer,
        real_target,
    )) && (parent_of(source) matches Some(outer) && same_paths(rules, outer, target)) {
        RootRelation::DirectlyNested
    } else {
        RootRelation::Overlapping
    }
}

fn parent_is(rules: NameRules, path: &Vec<PathComponent>, outer: &Vec<PathComponent>) -> (found:
    bool)
    ensures
        found == (parent_of(path_view(path@)) matches Some(up) && same_paths(
            rules,
            up,
            path_view(outer@),
        )),
{
    match parent(path) {
        Some(up) => same_path(rules, &up, outer),
        None => false,
    }
}

/// Determines how old and new root lie to each other.
pub fn root_relation(
    rules: NameRules,
    source: &Vec<PathComponent>,
    target: &Vec<PathComponent>,
    real_source: &Vec<PathComponent>,
    real_target: &Vec<PathComponent>,
) -> (found: RootRelation)
    ensures
        found == relation(
            rules,
            path_view(source@),
            path_view(target@),
            path_view(real_source@),
            path_view(real_target@),
        ),
{
    if !paths_overlap(rules, real_source, real_target) {
        RootRelation::Separate
    } else if same_path(rules, real_source, real_target) {
        RootRelation::Same
    } else if parent_is(rules, real_source, real_target) && parent_is(rules, source, target) {
        RootRelation::DirectlyNested
    } else {
        RootRelation::Overlapping
    }
}

/// The entries of an existing target directory, as far as they were read.
#[derive(Debug)]
pub enum TargetListing {
    /// The directory could not be listed.
    Failed(String),
    Empty,
    HasEntries,
    /// The first entry could not be read.
    EntryFailed(String),
}

/// One entry of the nested root, and what stands at its new place.
#[derive(Debug)]
pub enum NestedItem {
    /// The entry could not be read.
    Unreadable(String),
    Entry { name: Vec<u8>, source: String, target: String, seen: Presence },
}

/// The failure of the first entry that cannot be moved up.
pub open spec fn first_collision(
    source: Seq<char>,
    target: Seq<char>,
    items: Seq<NestedItem>,
) -> Option<FailureView>
    decreases items.len(),
{
    if items.len() == 0 {
        None
    } else {
        let earlier = first_collision(source, target, items.drop_last());
        if earlier is Some {
            earlier
        } else {
            match items.last() {
                NestedItem::Unreadable(text) => Some(
                    both(source, target, "读取嵌套备份目录项失败: "@ + text@),
                ),
                NestedItem::Entry { name, source, target, seen } => match seen {
                    Presence::Absent => None,
                    Presence::Present => Some(
                        both(source@, target@, "扁平迁移目标出现同名目录项"@),
                    ),
                    Presence::Failed(failure) => Some(
                        both(source@, target@, "检查扁平迁移目标失败: "@ + failure.text@),
                    ),
                },
            }
        }
    }
}

pub open spec fn name_views(names: Seq<Vec<u8>>) -> Seq<Seq<u8>> {
    Seq::new(names.len(), |i: int| names[i]@)
}

/// The names of readable entries.
pub open spec fn item_names(items: Seq<NestedItem>) -> Seq<Seq<u8>>
    decreases items.len(),
{
    if items.len() == 0 {
        Seq::empty()
    } else {
        let rest = item_names(items.drop_last());
        match items.last() {
            NestedItem::Unreadable(_) => rest,
            NestedItem::Entry { name, source, target, seen } => rest.push(name@),
        }
    }
}

/// Lists the names to copy up, unless one of them is taken.
pub fn plan_flatten(source: &str, target: &str, items: &Vec<NestedItem>) -> (result: Result<
    Vec<Vec<u8>>,
    SavedataBackupMigrationFailure,
>)
    ensures
        match first_collision(source@, target@, items@) {
            Some(failure) => result matches Err(found) && found@ == failure,
            None => result matches Ok(names) && name_views(names@) == item_names(items@),
        },
{
    let mut names: Vec<Vec<u8>> = Vec::new();
    let mut at: usize = 0;
    assert(name_views(names@) =~= item_names(items@.take(0)));
    while at < items.len()
        invariant
            at <= items@.len(),
            first_collision(source@, target@, items@.take(at as int)) is None,
            name_views(names@) == item_names(items@.take(at as int)),
        decreases items@.len() - at,
    {
        let ghost before = names@;
        proof {
            assert(items@.take(at + 1).drop_last() =~= items@.take(at as int));
            assert(items@.take(at + 1).last() == items@[at as int]);
            if first_collision(source@, target@, items@.take(at + 1)) is Some {
                collision_persists(source@, target@, items@, at + 1);
            }
        }
        match &items[at] {
            NestedItem::Unreadable(text) => {
                let message: String = cat2("读取嵌套备份目录项失败: ", text.as_str());
                return Err(fail_both(source, target, message.as_str()));
            },
            NestedItem::Entry { name, source: from, target: to, seen } => {
                match seen {
                    Presence::Absent => {},
                    Presence::Present => {
                        return Err(
                            fail_both(from.as_str(), to.as_str(), "扁平迁移目标出现同名目录项"),
                        );
                    },
                    Presence::Failed(failure) => {
                        let message: String = cat2(
                            "检查扁平迁移目标失败: ",
                            failure.text.as_str(),
                        );
                        return Err(fail_both(from.as_str(), to.as_str(), message.as_str()));
                    },
                }
                names.push(copy_bytes(name));
                assert(name_views(names@) =~= name_views(before).push(name@));
            },
        }
        at += 1;
    }
    assert(items@.take(at as int) =~= items@);
    Ok(names)
}

proof fn collision_persists(source: Seq<char>, target: Seq<char>, items: Seq<NestedItem>, at: int)
    requires
        0 <= at <= items.len(),
        first_collision(source, target, items.take(at)) is Some,
    ensures
        first_collision(source, target, items) == first_collision(source, target, items.take(at)),
    decreases items.len(),
{
    if at == items.len() {
        assert(items.take(at) =~= items);
    } else {
        assert(items.drop_last().take(at) =~= items.take(at));
        collision_persists(source, target, items.drop_last(), at);
    }
}

/// How a copied entry is taken back.
#[derive(Clone, Copy, Debug, PartialEq, Eq, Structural)]
pub enum CleanupStep {
    RemoveTree,
    RemoveFile,
    /// There is nothing to remove.
    Skip,
    /// It could not be looked at, which is a failure.
    Report,
}

/// How an entry is taken back, by what stands there.
pub open spec fn cleaned_by(seen: Metadata) -> CleanupStep {
    match seen {
        Metadata::Found(flags) => if flags.real_directory() {
            CleanupStep::RemoveTree
        } else {
            CleanupStep::RemoveFile
        },
        Metadata::Missing => CleanupStep::Skip,
        Metadata::Failed(_) => CleanupStep::Report,
    }
}

/// Decides how a copied entry is taken back: links are removed, never
/// followed.
pub fn cleanup_step(seen: &Metadata) -> (step: CleanupStep)
    ensures
        step == cleaned_by(*seen),
{
    match seen {
        Metadata::Found(flags) => {
            if flags.is_real_directory() {
                CleanupStep::RemoveTree
            } else {
                CleanupStep::RemoveFile
            }
        },
        Metadata::Missing => CleanupStep::Skip,
        Metadata::Failed(_) => CleanupStep::Report,
    }
}

/// A copied entry that could not be taken back.
#[derive(Debug)]
pub struct CleanupFailure {
    pub path: String,
    pub text: String,
}

pub open spec fn cleanup_failures(failures: Seq<CleanupFailure>) -> Seq<FailureView> {
    Seq::new(
        failures.len(),
        |i: int| about_target(failures[i].path@, "清理扁平迁移副本失败: "@ + failures[i].text@),
    )
}

/// Words the failures of taking copied entries back.
pub fn cleanup_copied_entries(
    cleanup: &Vec<CleanupFailure>,
    failures: &mut Vec<SavedataBackupMigrationFailure>,
)
    ensures
        failure_views(final(failures)@) == failure_views(old(failures)@) + cleanup_failures(
            cleanup@,
        ),
{
    let ghost start = failure_views(failures@);
    let mut at: usize = 0;
    assert(start =~= start + cleanup_failures(cleanup@).take(0));
    while at < cleanup.len()
        invariant
            at <= cleanup@.len(),
            failure_views(failures@) == start + cleanup_failures(cleanup@).take(at as int),
        decreases cleanup@.len() - at,
    {
        let message: String = cat2("清理扁平迁移副本失败: ", cleanup[at].text.as_str());
        note(failures, fail_target(cleanup[at].path.as_str(), message.as_str()));
        proof {
            let done = cleanup_failures(cleanup@).take(at as int);
            assert(cleanup_failures(cleanup@).take(at + 1) =~= done.push(
                cleanup_failures(cleanup@)[at as int],
            ));
            assert(failure_views(failures@) =~= start + cleanup_failures(cleanup@).take(at + 1));
        }
        at += 1;
    }
    assert(cleanup_failures(cleanup@).take(at as int) =~= cleanup_failures(cleanup@));
}

/// What a preparation waits for, or how it ended.
#[derive(Clone, Copy, Debug, PartialEq, Eq, Structural)]
pub enum MigrationStage {
    LookingAtSource,
    Resolving,
    CheckingNested,
    VerifyingNestedCopy,
    LookingAtTarget,
    ListingTarget,
    VerifyingTarget,
    CreatingParent,
    ListingNested,
    CopyingNested,
    VerifyingNested,
    CleaningNested,
    NamingTemporary,
    CopyingTemporary,
    VerifyingTemporary,
    RemovingEmptyTarget,
    Renaming,
    RestoringTarget,
    RemovingTemporary,
    Prepared,
    Failed,
}

/// The changes of stage that a preparation makes.
pub open spec fn migration_edge(from: MigrationStage, to: MigrationStage) -> bool {
    match from {
        MigrationStage::LookingAtSource => to == MigrationStage::Resolving || to
            == MigrationStage::Failed,
        MigrationStage::Resolving => to == MigrationStage::CheckingNested || to
            == MigrationStage::LookingAtTarget || to == MigrationStage::Prepared || to
            == MigrationStage::Failed,
        MigrationStage::CheckingNested => to == MigrationStage::VerifyingNestedCopy || to
            == MigrationStage::CreatingParent || to == MigrationStage::Failed,
        MigrationStage::VerifyingNestedCopy => to == MigrationStage::CreatingParent || to
            == MigrationStage::Failed,
        MigrationStage::LookingAtTarget => to == MigrationStage::ListingTarget || to
            == MigrationStage::CreatingParent || to == MigrationStage::Failed,
        MigrationStage::ListingTarget => to == MigrationStage::VerifyingTarget || to
            == MigrationStage::CreatingParent || to == MigrationStage::Failed,
        MigrationStage::VerifyingTarget => to == MigrationStage::CreatingParent || to
            == MigrationStage::Failed,
        MigrationStage::CreatingParent => to == MigrationStage::ListingNested || to
            == MigrationStage::NamingTemporary || to == MigrationStage::Prepared || to
            == MigrationStage::Failed,
        MigrationStage::ListingNested => to == MigrationStage::CopyingNested || to
            == MigrationStage::Failed,
        MigrationStage::CopyingNested => to == MigrationStage::VerifyingNested || to
            == MigrationStage::CleaningNested,
        MigrationStage::VerifyingNested => to == MigrationStage::Prepared || to
            == MigrationStage::CleaningNested,
        MigrationStage::CleaningNested => to == MigrationStage::Failed,
        MigrationStage::NamingTemporary => to == MigrationStage::CopyingTemporary || to
            == MigrationStage::Failed,
        MigrationStage::CopyingTemporary => to == MigrationStage::VerifyingTemporary || to
            == MigrationStage::RemovingTemporary,
        MigrationStage::VerifyingTemporary => to == MigrationStage::RemovingEmptyTarget || to
            == MigrationStage::Renaming || to == MigrationStage::RemovingTemporary,
        MigrationStage::RemovingEmptyTarget => to == MigrationStage::Renaming || to
            == MigrationStage::RemovingTemporary,
        MigrationStage::Renaming => to == MigrationStage::Prepared || to
            == MigrationStage::RestoringTarget || to == MigrationStage::RemovingTemporary,
        MigrationStage::RestoringTarget => to == MigrationStage::RemovingTemporary,
        MigrationStage::RemovingTemporary => to == MigrationStage::Failed,
        MigrationStage::Prepared => false,
        MigrationStage::Failed => false,
    }
}

pub open spec fn migration_history(stages: Seq<MigrationStage>) -> bool {
    &&& stages.len() > 0
    &&& stages[0] == MigrationStage::LookingAtSource
    &&& forall|i: int|
        0 < i < stages.len() ==> migration_edge(#[trigger] stages[i - 1], stages[i])
}

/// A copy is renamed into place only after it was verified without a failure.
pub proof fn rename_follows_verification(stages: Seq<MigrationStage>, at: int)
    requires
        migration_history(stages),
        0 <= at < stages.len(),
        stages[at] == MigrationStage::Renaming,
    ensures
        at >= 2,
        stages[at - 1] == MigrationStage::VerifyingTemporary || (stages[at - 1]
            == MigrationStage::RemovingEmptyTarget && stages[at - 2]
            == MigrationStage::VerifyingTemporary),
{
    assert(at >= 1);
    assert(migration_edge(stages[at - 1], stages[at]));
    assert(at >= 2);
    assert(migration_edge(stages[(at - 1) - 1], stages[at - 1]));
}

/// The stages in which a temporary copy may exist.
pub open spec fn temporary_exists(stage: MigrationStage) -> bool {
    ||| stage == MigrationStage::CopyingTemporary
    ||| stage == MigrationStage::VerifyingTemporary
    ||| stage == MigrationStage::RemovingEmptyTarget
    ||| stage == MigrationStage::Renaming
    ||| stage == MigrationStage::RestoringTarget
}

/// A preparation that fails once a temporary copy may exist removes it as its
/// last step; one that fails while entries are being copied up takes them
/// back as its last step.
pub proof fn failure_takes_copies_back(stages: Seq<MigrationStage>, at: int)
    requires
        migration_history(stages),
        stages.last() == MigrationStage::Failed,
        0 <= at < stages.len(),
    ensures
        temporary_exists(stages[at]) ==> stages.len() >= 2 && stages[stages.len() - 2]
            == MigrationStage::RemovingTemporary,
        stages[at] == MigrationStage::CopyingNested || stages[at]
            == MigrationStage::VerifyingNested ==> stages.len() >= 2 && stages[stages.len() - 2]
            == MigrationStage::CleaningNested,
{
    follow_temporary(stages, at);
    follow_nested(stages, at);
}

proof fn follow_temporary(stages: Seq<MigrationStage>, at: int)
    requires
        migration_history(stages),
        stages.last() == MigrationStage::Failed,
        0 <= at < stages.len(),
    ensures
        temporary_exists(stages[at]) || stages[at] == MigrationStage::RemovingTemporary
            ==> stages.len() >= 2 && stages[stages.len() - 2]
            == MigrationStage::RemovingTemporary,
    decreases stages.len() - at,
{
    if temporary_exists(stages[at]) || stages[at] == MigrationStage::RemovingTemporary {
        assert(at + 1 < stages.len());
        assert(migration_edge(stages[(at + 1) - 1], stages[at + 1]));
        if at + 2 < stages.len() {
            assert(migration_edge(stages[(at + 2) - 1], stages[at + 2]));
            follow_temporary(stages, at + 1);
        }
    }
}

proof fn follow_nested(stages: Seq<MigrationStage>, at: int)
    requires
        migration_history(stages),
        stages.last() == MigrationStage::Failed,
        0 <= at < stages.len(),
    ensures
        stages[at] == MigrationStage::CopyingNested || stages[at]
            == MigrationStage::VerifyingNested || stages[at] == MigrationStage::CleaningNested
            ==> stages.len() >= 2 && stages[stages.len() - 2] == MigrationStage::CleaningNested,
    decreases stages.len() - at,
{
    if stages[at] == MigrationStage::CopyingNested || stages[at] == MigrationStage::VerifyingNested
        || stages[at] == MigrationStage::CleaningNested {
        assert(at + 1 < stages.len());
        assert(migration_edge(stages[(at + 1) - 1], stages[at + 1]));
        if at + 2 < stages.len() {
            assert(migration_edge(stages[(at + 2) - 1], stages[at + 2]));
            follow_nested(stages, at + 1);
        }
    }
}

/// What the host does next.
#[derive(Debug)]
pub enum MigrationAction {
    /// Resolve both roots through their longest existing ancestors.
    ResolveRoots,
    /// Look at the outer directory of the nested root.
    LookAtNested,
    /// Hold the nested root against the outer directory.
    VerifyNested,
    /// Look at the type of the target.
    LookAtTarget,
    /// Read the first entry of the target.
    ListTarget,
    /// Hold the target against the source.
    VerifyTarget,
    /// Create the parent of the target.
    CreateParent,
    /// List the nested root, and look at the new place of each entry.
    ListNested,
    /// Copy the nested root into the outer directory.
    CopyNested,
    /// Take the copied entries back.
    CleanNested,
    /// Pick a temporary name beside the target.
    PickTemporary,
    /// Copy the source to the temporary name.
    CopyTemporary,
    /// Hold the temporary copy against the source.
    VerifyTemporary,
    /// Remove the target, which is an empty directory.
    RemoveEmptyTarget,
    /// Rename the temporary copy onto the target.
    Rename,
    /// Create the empty target directory again.
    RestoreTarget,
    /// Remove the temporary copy.
    RemoveTemporary,
    Finish(Result<PreparedMigration, Vec<SavedataBackupMigrationFailure>>),
}

/// What lies at the target of a move.
#[derive(Clone, Copy, Debug, PartialEq, Eq, Structural)]
pub enum TargetState {
    Absent,
    EmptyDirectory,
    /// The old root and nothing else.
    OnlySource,
    /// A copy of the old root.
    Copy,
    /// The old root, and copies of its entries around it.
    CopyAroundSource,
}

impl PreparedTargetCommit {
    /// This is what a preparation of a target in that state comes to.
    pub open spec fn made_from(self, found: TargetState) -> bool {
        match self {
            PreparedTargetCommit::Replaced { target_existed } => found == replaceable(
                target_existed,
            ),
            PreparedTargetCommit::FlattenedNestedRoot { .. } => found == TargetState::OnlySource,
            PreparedTargetCommit::ExistingVerifiedCopy => found == TargetState::Copy || found
                == TargetState::CopyAroundSource,
        }
    }

    /// What lies at the target afterwards.
    pub open spec fn leaves(self, found: TargetState) -> TargetState {
        match self {
            PreparedTargetCommit::Replaced { .. } => TargetState::Copy,
            PreparedTargetCommit::FlattenedNestedRoot { .. } => TargetState::CopyAroundSource,
            PreparedTargetCommit::ExistingVerifiedCopy => found,
        }
    }
}

/// A target that a copy can be renamed onto: nothing, or an empty directory.
pub open spec fn replaceable(target_existed: bool) -> TargetState {
    if target_existed {
        TargetState::EmptyDirectory
    } else {
        TargetState::Absent
    }
}

/// A preparation under way.
pub struct Migration {
    pub rules: NameRules,
    /// Old and new root as shown to users.
    pub source: String,
    pub target: String,
    pub source_path: Vec<PathComponent>,
    pub target_path: Vec<PathComponent>,
    /// Records that refer to the old root.
    pub savedata_count: u64,
    pub stage: MigrationStage,
    /// The old root lies directly in the new one.
    pub nested: bool,
    /// The target already is a verified copy.
    pub existing_copy: bool,
    /// The target is an empty directory.
    pub target_existed: bool,
    /// The temporary copy as shown to users.
    pub temporary: String,
    /// Entries that were copied up.
    pub copied_entries: Vec<Vec<u8>>,
    pub failures: Vec<SavedataBackupMigrationFailure>,
    /// What was found at the target.
    pub found: Ghost<TargetState>,
    /// What lies at the target now, after what the host reported.
    pub lies: Ghost<TargetState>,
}

/// Words the absence of the old root.
pub open spec fn missing_source_text(savedata_count: u64) -> Seq<char> {
    if savedata_count > 0 {
        "旧备份目录不存在，但数据库仍有 "@ + decimal(savedata_count as nat) + " 条备份记录"@
    } else {
        "旧备份目录不存在"@
    }
}

impl Migration {
    /// What was found at the target, and what lies there now, at each stage
    /// from the looks at the target on.
    pub open spec fn wf(self) -> bool {
        let found = self.found@;
        let lies = self.lies@;
        match self.stage {
            MigrationStage::CreatingParent => {
                &&& lies == found
                &&& if self.existing_copy {
                    found == TargetState::Copy || found == TargetState::CopyAroundSource
                } else if self.nested {
                    found == TargetState::OnlySource
                } else {
                    found == replaceable(self.target_existed)
                }
            },
            MigrationStage::ListingNested | MigrationStage::CopyingNested => lies == found && found
                == TargetState::OnlySource,
            MigrationStage::VerifyingNested | MigrationStage::CleaningNested => found
                == TargetState::OnlySource && lies == TargetState::CopyAroundSource,
            MigrationStage::NamingTemporary
            | MigrationStage::CopyingTemporary
            | MigrationStage::VerifyingTemporary => lies == found && found == replaceable(
                self.target_existed,
            ),
            MigrationStage::RemovingEmptyTarget => self.target_existed && lies == found && found
                == TargetState::EmptyDirectory,
            MigrationStage::Renaming => found == replaceable(self.target_existed) && lies
                == TargetState::Absent,
            MigrationStage::RestoringTarget => self.target_existed && found
                == TargetState::EmptyDirectory && lies == TargetState::Absent,
            MigrationStage::CheckingNested | MigrationStage::VerifyingNestedCopy => self.nested
                && !self.existing_copy,
            MigrationStage::LookingAtSource | MigrationStage::Resolving =>
                !self.nested && !self.existing_copy && !self.target_existed,
            MigrationStage::LookingAtTarget
            | MigrationStage::ListingTarget
            | MigrationStage::VerifyingTarget => !self.nested && !self.existing_copy
                && !self.target_existed,
            _ => true,
        }
    }

    /// The look at the target came to this.
    pub open spec fn finds(self, state: TargetState) -> Migration {
        Migration { found: Ghost(state), lies: Ghost(state), ..self }
    }

    /// The step ends the preparation with these failures.
    pub open spec fn ends_with(
        self,
        after: Migration,
        action: MigrationAction,
        failures: Seq<FailureView>,
    ) -> bool {
        &&& after.stage == MigrationStage::Failed
        &&& action matches MigrationAction::Finish(Err(found)) && failure_views(found@) == failures
    }

    fn end_both(&mut self, message: &str) -> (action: MigrationAction)
        ensures
            *final(self) == (Migration { stage: final(self).stage, ..*old(self) }),
            old(self).ends_with(
                *final(self),
                action,
                seq![both(old(self).source@, old(self).target@, message@)],
            ),
    {
        self.stage = MigrationStage::Failed;
        MigrationAction::Finish(
            Err(single(fail_both(self.source.as_str(), self.target.as_str(), message))),
        )
    }

    pub fn new(
        rules: NameRules,
        source: String,
        target: String,
        source_path: Vec<PathComponent>,
        target_path: Vec<PathComponent>,
        savedata_count: u64,
    ) -> (migration: Migration)
        ensures
            migration.rules == rules,
            migration.source == source,
            migration.target == target,
            migration.source_path == source_path,
            migration.target_path == target_path,
            migration.savedata_count == savedata_count,
            migration.stage == MigrationStage::LookingAtSource,
            !migration.nested,
            !migration.existing_copy,
            !migration.target_existed,
            migration.copied_entries@.len() == 0,
            migration.failures@.len() == 0,
            migration.wf(),
    {
        Migration {
            rules,
            source,
            target,
            source_path,
            target_path,
            savedata_count,
            stage: MigrationStage::LookingAtSource,
            nested: false,
            existing_copy: false,
            target_existed: false,
            temporary: String::new(),
            copied_entries: Vec::new(),
            failures: Vec::new(),
            found: Ghost(TargetState::Absent),
            lies: Ghost(TargetState::Absent),
        }
    }

    /// The old root was looked at.
    pub fn on_source(&mut self, seen: Metadata) -> (action: MigrationAction)
        requires
            old(self).wf(),
            old(self).stage == MigrationStage::LookingAtSource,
        ensures
            *final(self) == (Migration { stage: final(self).stage, ..*old(self) }),
            final(self).wf(),
            migration_edge(old(self).stage, final(self).stage),
            match seen {
                Metadata::Found(flags) => if flags.is_symlink {
                    old(self).ends_with(
                        *final(self),
                        action,
                        seq![
                            both(
                                old(self).source@,
                                old(self).target@,
                                "旧备份目录不能是符号链接"@,
                            ),
                        ],
                    )
                } else if flags.is_dir {
                    *final(self) == (Migration { stage: MigrationStage::Resolving, ..*old(self) })
                        && action == MigrationAction::ResolveRoots
                } else {
                    old(self).ends_with(
                        *final(self),
                        action,
                        seq![both(old(self).source@, old(self).target@, "旧备份路径不是目录"@)],
                    )
                },
                Metadata::Missing => old(self).ends_with(
                    *final(self),
                    action,
                    seq![
                        about_source(
                            old(self).source@,
                            missing_source_text(old(self).savedata_count),
                        ),
                    ],
                ),
                Metadata::Failed(text) => old(self).ends_with(
                    *final(self),
                    action,
                    seq![about_source(old(self).source@, "无法读取旧备份目录: "@ + text@)],
                ),
            },
    {
        match seen {
            Metadata::Found(flags) => {
                if flags.is_symlink {
                    self.end_both("旧备份目录不能是符号链接")
                } else if flags.is_dir {
                    self.stage = MigrationStage::Resolving;
                    MigrationAction::ResolveRoots
                } else {
                    self.end_both("旧备份路径不是目录")
                }
            },
            Metadata::Missing => {
                let message: String = if self.savedata_count > 0 {
                    cat3(
                        "旧备份目录不存在，但数据库仍有 ",
                        decimal_text(self.savedata_count).as_str(),
                        " 条备份记录",
                    )
                } else {
                    "旧备份目录不存在".to_owned()
                };
                self.stage = MigrationStage::Failed;
                MigrationAction::Finish(
                    Err(single(fail_source(self.source.as_str(), message.as_str()))),
                )
            },
            Metadata::Failed(text) => {
                let message: String = cat2("无法读取旧备份目录: ", text.as_str());
                self.stage = MigrationStage::Failed;
                MigrationAction::Finish(
                    Err(single(fail_source(self.source.as_str(), message.as_str()))),
                )
            },
        }
    }

    /// Both roots were resolved, or not.
    pub fn on_resolved(
        &mut self,
        real_source: Result<Vec<PathComponent>, String>,
        real_target: Result<Vec<PathComponent>, String>,
    ) -> (action: MigrationAction)
        requires
            old(self).wf(),
            old(self).stage == MigrationStage::Resolving,
        ensures
            *final(self) == (Migration {
                stage: final(self).stage,
                nested: final(self).nested,
                ..*old(self)
            }),
            final(self).wf(),
            migration_edge(old(self).stage, final(self).stage),
            match (real_source, real_target) {
                (Err(text), _) => old(self).ends_with(
                    *final(self),
                    action,
                    seq![
                        both(
                            old(self).source@,
                            old(self).target@,
                            "无法确认新旧备份目录是否重叠: "@ + text@,
                        ),
                    ],
                ),
                (Ok(_), Err(text)) => old(self).ends_with(
                    *final(self),
                    action,
                    seq![
                        both(
                            old(self).source@,
                            old(self).target@,
                            "无法确认新旧备份目录是否重叠: "@ + text@,
                        ),
                    ],
                ),
                (Ok(real_source), Ok(real_target)) => match relation(
                    old(self).rules,
                    normalized(path_view(old(self).source_path@)),
                    normalized(path_view(old(self).target_path@)),
                    path_view(real_source@),
                    path_view(real_target@),
                ) {
                    RootRelation::Same => {
                        &&& final(self).stage == MigrationStage::Prepared
                        &&& action == MigrationAction::Finish(Ok(PreparedMigration::NoSource))
                    },
                    RootRelation::DirectlyNested => {
                        &&& *final(self) == (Migration {
                            stage: MigrationStage::CheckingNested,
                            nested: true,
                            ..*old(self)
                        })
                        &&& action == MigrationAction::LookAtNested
                    },
                    RootRelation::Separate => {
                        &&& *final(self) == (Migration {
                            stage: MigrationStage::LookingAtTarget,
                            ..*old(self)
                        })
                        &&& action == MigrationAction::LookAtTarget
                    },
                    RootRelation::Overlapping => old(self).ends_with(
                        *final(self),
                        action,
                        seq![
                            both(
                                old(self).source@,
                                old(self).target@,
                                "新旧备份目录存在不受支持的父子或符号链接重叠关系，已拒绝迁移"@,
                            ),
                        ],
                    ),
                },
            },
    {
        let real_source: Vec<PathComponent> = match real_source {
            Ok(path) => path,
            Err(text) => {
                let message: String = cat2("无法确认新旧备份目录是否重叠: ", text.as_str());
                return self.end_both(message.as_str());
            },
        };
        let real_target: Vec<PathComponent> = match real_target {
            Ok(path) => path,
            Err(text) => {
                let message: String = cat2("无法确认新旧备份目录是否重叠: ", text.as_str());
                return self.end_both(message.as_str());
            },
        };
        let source: Vec<PathComponent> = normalize_for_overlap(&self.source_path);
        let target: Vec<PathComponent> = normalize_for_overlap(&self.target_path);
        match root_relation(self.rules, &source, &target, &real_source, &real_target) {
            RootRelation::Same => {
                self.stage = MigrationStage::Prepared;
                MigrationAction::Finish(Ok(PreparedMigration::NoSource))
            },
            RootRelation::DirectlyNested => {
                self.nested = true;
                self.stage = MigrationStage::CheckingNested;
                MigrationAction::LookAtNested
            },
            RootRelation::Separate => {
                self.stage = MigrationStage::LookingAtTarget;
                MigrationAction::LookAtTarget
            },
            RootRelation::Overlapping => self.end_both(
                "新旧备份目录存在不受支持的父子或符号链接重叠关系，已拒绝迁移",
            ),
        }
    }

    /// The step that goes on to the parent of the target.
    pub open spec fn goes_to_parent(self, after: Migration, action: MigrationAction) -> bool {
        if parent_of(path_view(self.target_path@)) is None {
            self.ends_with(
                after,
                action,
                seq![both(self.source@, self.target@, "目标备份目录缺少父目录"@)],
            )
        } else {
            &&& after == (Migration { stage: MigrationStage::CreatingParent, ..self })
            &&& action == MigrationAction::CreateParent
        }
    }

    fn find(&mut self, state: Ghost<TargetState>)
        ensures
            *final(self) == old(self).finds(state@),
    {
        self.found = state;
        self.lies = state;
    }

    fn go_to_parent(&mut self) -> (action: MigrationAction)
        ensures
            *final(self) == (Migration { stage: final(self).stage, ..*old(self) }),
            old(self).goes_to_parent(*final(self), action),
            final(self).stage == MigrationStage::CreatingParent || final(self).stage
                == MigrationStage::Failed,
    {
        match parent(&self.target_path) {
            None => self.end_both("目标备份目录缺少父目录"),
            Some(_) => {
                self.stage = MigrationStage::CreatingParent;
                MigrationAction::CreateParent
            },
        }
    }

    /// The outer directory of a nested root was looked at. If it cannot take
    /// the entries, it may still be a finished copy.
    pub fn on_nested(&mut self, look: &NestedLook) -> (action: MigrationAction)
        requires
            old(self).wf(),
            old(self).stage == MigrationStage::CheckingNested,
        ensures
            *final(self) == (Migration {
                stage: final(self).stage,
                failures: final(self).failures,
                found: final(self).found,
                lies: final(self).lies,
                ..*old(self)
            }),
            final(self).wf(),
            migration_edge(old(self).stage, final(self).stage),
            match nested_fault(old(self).rules, *look) {
                None => old(self).finds(TargetState::OnlySource).goes_to_parent(
                    *final(self),
                    action,
                ),
                Some(message) => {
                    &&& final(self).stage == MigrationStage::VerifyingNestedCopy
                    &&& action == MigrationAction::VerifyNested
                    &&& failure_views(final(self).failures@) == seq![
                        both(look.source@, look.target@, message),
                    ]
                },
            },
    {
        match ensure_direct_nested_source_is_only_entry(self.rules, look) {
            Ok(_) => {
                self.find(Ghost(TargetState::OnlySource));
                self.go_to_parent()
            },
            Err(failures) => {
                self.failures = failures;
                self.stage = MigrationStage::VerifyingNestedCopy;
                MigrationAction::VerifyNested
            },
        }
    }

    /// The nested root without detours.
    pub open spec fn wrapper(self) -> Seq<ComponentView> {
        normalized(path_view(self.source_path@))
    }

    /// Holds the nested root against the outer directory.
    fn check_nested(&self, forward: &SourceScan, outer: &FlattenScan) -> (failures: Vec<
        SavedataBackupMigrationFailure,
    >)
        ensures
            failure_views(failures@) == flatten_failures(
                self.rules,
                self.wrapper(),
                self.source@,
                self.target@,
                *forward,
                *outer,
            ),
            failures@.len() == 0 <==> flattened(self.rules, self.wrapper(), *forward, *outer),
    {
        let wrapper: Vec<PathComponent> = normalize_for_overlap(&self.source_path);
        proof {
            flatten_check_is_exact(
                self.rules,
                self.wrapper(),
                self.source@,
                self.target@,
                *forward,
                *outer,
            );
        }
        verify_nested_flatten_copy(
            self.rules,
            &wrapper,
            self.source.as_str(),
            self.target.as_str(),
            forward,
            outer,
        )
    }

    /// The outer directory was read beside the nested root; it counts as a
    /// finished copy only if it holds the entries of the root and no others.
    pub fn on_nested_verified(&mut self, forward: &SourceScan, outer: &FlattenScan) -> (action:
        MigrationAction)
        requires
            old(self).wf(),
            old(self).stage == MigrationStage::VerifyingNestedCopy,
        ensures
            *final(self) == (Migration {
                stage: final(self).stage,
                existing_copy: final(self).existing_copy,
                failures: final(self).failures,
                found: final(self).found,
                lies: final(self).lies,
                ..*old(self)
            }),
            final(self).wf(),
            migration_edge(old(self).stage, final(self).stage),
            if flattened(old(self).rules, old(self).wrapper(), *forward, *outer) {
                (Migration { existing_copy: true, ..*old(self) }).finds(
                    TargetState::CopyAroundSource,
                ).goes_to_parent(*final(self), action)
            } else {
                old(self).ends_with(*final(self), action, failure_views(old(self).failures@))
            },
    {
        let failures: Vec<SavedataBackupMigrationFailure> = self.check_nested(forward, outer);
        if failures.len() == 0 {
            self.existing_copy = true;
            self.find(Ghost(TargetState::CopyAroundSource));
            self.go_to_parent()
        } else {
            self.give_up()
        }
    }

    fn give_up(&mut self) -> (action: MigrationAction)
        ensures
            *final(self) == (Migration {
                stage: final(self).stage,
                failures: final(self).failures,
                ..*old(self)
            }),
            old(self).ends_with(*final(self), action, failure_views(old(self).failures@)),
    {
        let mut failures: Vec<SavedataBackupMigrationFailure> = Vec::new();
        let ghost kept = self.failures@;
        failures.append(&mut self.failures);
        assert(failures@ =~= kept);
        self.stage = MigrationStage::Failed;
        MigrationAction::Finish(Err(failures))
    }

    /// The target was looked at.
    pub fn on_target(&mut self, seen: Metadata) -> (action: MigrationAction)
        requires
            old(self).wf(),
            old(self).stage == MigrationStage::LookingAtTarget,
        ensures
            *final(self) == (Migration {
                stage: final(self).stage,
                found: final(self).found,
                lies: final(self).lies,
                ..*old(self)
            }),
            final(self).wf(),
            migration_edge(old(self).stage, final(self).stage),
            ({
                let source = old(self).source@;
                let target = old(self).target@;
                match seen {
                    Metadata::Found(flags) => if flags.is_symlink {
                        old(self).ends_with(
                            *final(self),
                            action,
                            seq![both(source, target, "目标备份目录不能是符号链接"@)],
                        )
                    } else if flags.is_dir {
                        *final(self) == (Migration {
                            stage: MigrationStage::ListingTarget,
                            ..*old(self)
                        }) && action == MigrationAction::ListTarget
                    } else {
                        old(self).ends_with(
                            *final(self),
                            action,
                            seq![both(source, target, "目标备份路径存在但不是目录"@)],
                        )
                    },
                    Metadata::Missing => old(self).finds(TargetState::Absent).goes_to_parent(
                        *final(self),
                        action,
                    ),
                    Metadata::Failed(text) => old(self).ends_with(
                        *final(self),
                        action,
                        seq![both(source, target, "无法检查目标备份目录: "@ + text@)],
                    ),
                }
            }),
    {
        match seen {
            Metadata::Found(flags) => {
                if flags.is_symlink {
                    self.end_both("目标备份目录不能是符号链接")
                } else if flags.is_dir {
                    self.stage = MigrationStage::ListingTarget;
                    MigrationAction::ListTarget
                } else {
                    self.end_both("目标备份路径存在但不是目录")
                }
            },
            Metadata::Missing => {
                self.find(Ghost(TargetState::Absent));
                self.go_to_parent()
            },
            Metadata::Failed(text) => {
                let message: String = cat2("无法检查目标备份目录: ", text.as_str());
                self.end_both(message.as_str())
            },
        }
    }

    /// The target directory was listed: an empty one can be replaced, one
    /// with entries may already be a finished copy.
    pub fn on_target_listed(&mut self, listing: TargetListing) -> (action: MigrationAction)
        requires
            old(self).wf(),
            old(self).stage == MigrationStage::ListingTarget,
        ensures
            *final(self) == (Migration {
                stage: final(self).stage,
                target_existed: final(self).target_existed,
                found: final(self).found,
                lies: final(self).lies,
                ..*old(self)
            }),
            final(self).wf(),
            migration_edge(old(self).stage, final(self).stage),
            ({
                let source = old(self).source@;
                let target = old(self).target@;
                match listing {
                    TargetListing::Failed(text) => old(self).ends_with(
                        *final(self),
                        action,
                        seq![both(source, target, "无法检查目标备份目录是否为空: "@ + text@)],
                    ),
                    TargetListing::EntryFailed(text) => old(self).ends_with(
                        *final(self),
                        action,
                        seq![both(source, target, "读取目标备份目录失败: "@ + text@)],
                    ),
                    TargetListing::Empty => (Migration {
                        target_existed: true,
                        ..*old(self)
                    }).finds(TargetState::EmptyDirectory).goes_to_parent(*final(self), action),
                    TargetListing::HasEntries => *final(self) == (Migration {
                        stage: MigrationStage::VerifyingTarget,
                        ..*old(self)
                    }) && action == MigrationAction::VerifyTarget,
                }
            }),
    {
        match listing {
            TargetListing::Failed(text) => {
                let message: String = cat2("无法检查目标备份目录是否为空: ", text.as_str());
                self.end_both(message.as_str())
            },
            TargetListing::EntryFailed(text) => {
                let message: String = cat2("读取目标备份目录失败: ", text.as_str());
                self.end_both(message.as_str())
            },
            TargetListing::Empty => {
                self.target_existed = true;
                self.find(Ghost(TargetState::EmptyDirectory));
                self.go_to_parent()
            },
            TargetListing::HasEntries => {
                self.stage = MigrationStage::VerifyingTarget;
                MigrationAction::VerifyTarget
            },
        }
    }

    /// The target was read beside the source; it counts as a finished copy
    /// only if it reproduces the source and holds nothing extra.
    pub fn on_target_verified(&mut self, forward: &SourceScan, backward: &TargetScan) -> (action:
        MigrationAction)
        requires
            old(self).wf(),
            old(self).stage == MigrationStage::VerifyingTarget,
        ensures
            *final(self) == (Migration {
                stage: final(self).stage,
                existing_copy: final(self).existing_copy,
                found: final(self).found,
                lies: final(self).lies,
                ..*old(self)
            }),
            final(self).wf(),
            migration_edge(old(self).stage, final(self).stage),
            if copied(*forward, *backward) {
                (Migration { existing_copy: true, ..*old(self) }).finds(
                    TargetState::Copy,
                ).goes_to_parent(*final(self), action)
            } else {
                old(self).ends_with(
                    *final(self),
                    action,
                    seq![
                        both(
                            old(self).source@,
                            old(self).target@,
                            "目标备份目录不是空目录，请选择空目录"@,
                        ),
                    ],
                )
            },
    {
        let source: &str = self.source.as_str();
        let target: &str = self.target.as_str();
        let failures: Vec<SavedataBackupMigrationFailure> = verify_copy(
            source,
            target,
            forward,
            backward,
        );
        proof {
            copy_check_is_exact(source@, target@, *forward, *backward);
        }
        if failures.len() == 0 {
            self.existing_copy = true;
            self.find(Ghost(TargetState::Copy));
            self.go_to_parent()
        } else {
            self.end_both("目标备份目录不是空目录，请选择空目录")
        }
    }

    /// The parent of the target was created, or not; `parent` is that path as
    /// shown to users.
    pub fn on_parent(&mut self, parent: &str, result: Result<(), String>) -> (action:
        MigrationAction)
        requires
            old(self).wf(),
            old(self).stage == MigrationStage::CreatingParent,
        ensures
            *final(self) == (Migration { stage: final(self).stage, ..*old(self) }),
            final(self).wf(),
            action matches MigrationAction::Finish(Ok(PreparedMigration::Ready(commit))) ==> {
                &&& commit.made_from(final(self).found@)
                &&& final(self).lies@ == commit.leaves(final(self).found@)
            },
            migration_edge(old(self).stage, final(self).stage),
            match result {
                Err(text) => old(self).ends_with(
                    *final(self),
                    action,
                    seq![both(old(self).source@, parent@, "无法创建目标父目录: "@ + text@)],
                ),
                Ok(_) => if old(self).existing_copy {
                    &&& final(self).stage == MigrationStage::Prepared
                    &&& action == MigrationAction::Finish(
                        Ok(
                            PreparedMigration::Ready(PreparedTargetCommit::ExistingVerifiedCopy),
                        ),
                    )
                } else if old(self).nested {
                    &&& *final(self) == (Migration {
                        stage: MigrationStage::ListingNested,
                        ..*old(self)
                    })
                    &&& action == MigrationAction::ListNested
                } else {
                    &&& *final(self) == (Migration {
                        stage: MigrationStage::NamingTemporary,
                        ..*old(self)
                    })
                    &&& action == MigrationAction::PickTemporary
                },
            },
    {
        if let Err(text) = result {
            let message: String = cat2("无法创建目标父目录: ", text.as_str());
            self.stage = MigrationStage::Failed;
            return MigrationAction::Finish(
                Err(single(fail_both(self.source.as_str(), parent, message.as_str()))),
            );
        }
        if self.existing_copy {
            self.stage = MigrationStage::Prepared;
            MigrationAction::Finish(
                Ok(PreparedMigration::Ready(PreparedTargetCommit::ExistingVerifiedCopy)),
            )
        } else if self.nested {
            self.stage = MigrationStage::ListingNested;
            MigrationAction::ListNested
        } else {
            self.stage = MigrationStage::NamingTemporary;
            MigrationAction::PickTemporary
        }
    }

    /// The nested root was listed, or not; nothing is copied over an existing
    /// entry.
    pub fn on_nested_listed(&mut self, result: Result<Vec<NestedItem>, String>) -> (action:
        MigrationAction)
        requires
            old(self).wf(),
            old(self).stage == MigrationStage::ListingNested,
        ensures
            *final(self) == (Migration {
                stage: final(self).stage,
                copied_entries: final(self).copied_entries,
                ..*old(self)
            }),
            final(self).wf(),
            migration_edge(old(self).stage, final(self).stage),
            match result {
                Err(text) => old(self).ends_with(
                    *final(self),
                    action,
                    seq![
                        both(
                            old(self).source@,
                            old(self).target@,
                            "读取嵌套备份根目录失败: "@ + text@,
                        ),
                    ],
                ),
                Ok(items) => match first_collision(old(self).source@, old(self).target@, items@) {
                    Some(failure) => old(self).ends_with(*final(self), action, seq![failure]),
                    None => {
                        &&& final(self).stage == MigrationStage::CopyingNested
                        &&& action == MigrationAction::CopyNested
                        &&& name_views(final(self).copied_entries@) == item_names(items@)
                    },
                },
            },
    {
        match result {
            Err(text) => {
                let message: String = cat2("读取嵌套备份根目录失败: ", text.as_str());
                self.end_both(message.as_str())
            },
            Ok(items) => match plan_flatten(self.source.as_str(), self.target.as_str(), &items) {
                Err(failure) => {
                    self.stage = MigrationStage::Failed;
                    MigrationAction::Finish(Err(single(failure)))
                },
                Ok(names) => {
                    self.copied_entries = names;
                    self.stage = MigrationStage::CopyingNested;
                    MigrationAction::CopyNested
                },
            },
        }
    }

    /// The entries were copied up; a failure takes them back.
    pub fn on_nested_copied(&mut self, failures: Vec<SavedataBackupMigrationFailure>) -> (action:
        MigrationAction)
        requires
            old(self).wf(),
            old(self).stage == MigrationStage::CopyingNested,
        ensures
            final(self).wf(),
            migration_edge(old(self).stage, final(self).stage),
            if failures@.len() > 0 {
                &&& *final(self) == (Migration {
                    stage: MigrationStage::CleaningNested,
                    failures,
                    lies: Ghost(TargetState::CopyAroundSource),
                    ..*old(self)
                })
                &&& action == MigrationAction::CleanNested
            } else {
                &&& *final(self) == (Migration {
                    stage: MigrationStage::VerifyingNested,
                    lies: Ghost(TargetState::CopyAroundSource),
                    ..*old(self)
                })
                &&& action == MigrationAction::VerifyNested
            },
    {
        self.lies = Ghost(TargetState::CopyAroundSource);
        if failures.len() > 0 {
            self.failures = failures;
            self.stage = MigrationStage::CleaningNested;
            return MigrationAction::CleanNested;
        }
        self.stage = MigrationStage::VerifyingNested;
        MigrationAction::VerifyNested
    }

    /// The target was read beside the nested root. The move is prepared only
    /// if the entries lie there as they are in the root, and no others do;
    /// else the copies are taken back.
    pub fn on_nested_checked(&mut self, forward: &SourceScan, outer: &FlattenScan) -> (action:
        MigrationAction)
        requires
            old(self).wf(),
            old(self).stage == MigrationStage::VerifyingNested,
        ensures
            *final(self) == (Migration {
                stage: final(self).stage,
                copied_entries: final(self).copied_entries,
                failures: final(self).failures,
                ..*old(self)
            }),
            final(self).wf(),
            action matches MigrationAction::Finish(Ok(PreparedMigration::Ready(commit))) ==> {
                &&& commit.made_from(final(self).found@)
                &&& final(self).lies@ == commit.leaves(final(self).found@)
            },
            migration_edge(old(self).stage, final(self).stage),
            if flattened(old(self).rules, old(self).wrapper(), *forward, *outer) {
                &&& final(self).stage == MigrationStage::Prepared
                &&& action matches MigrationAction::Finish(
                    Ok(
                        PreparedMigration::Ready(
                            PreparedTargetCommit::FlattenedNestedRoot { copied_entries },
                        ),
                    ),
                ) && copied_entries@ == old(self).copied_entries@
            } else {
                &&& *final(self) == (Migration {
                    stage: MigrationStage::CleaningNested,
                    failures: final(self).failures,
                    ..*old(self)
                })
                &&& failure_views(final(self).failures@) == flatten_failures(
                    old(self).rules,
                    old(self).wrapper(),
                    old(self).source@,
                    old(self).target@,
                    *forward,
                    *outer,
                )
                &&& action == MigrationAction::CleanNested
            },
    {
        let failures: Vec<SavedataBackupMigrationFailure> = self.check_nested(forward, outer);
        if failures.len() > 0 {
            self.failures = failures;
            self.stage = MigrationStage::CleaningNested;
            return MigrationAction::CleanNested;
        }
        self.stage = MigrationStage::Prepared;
        let ghost entries = self.copied_entries@;
        let mut copied_entries: Vec<Vec<u8>> = Vec::new();
        copied_entries.append(&mut self.copied_entries);
        assert(copied_entries@ =~= entries);
        MigrationAction::Finish(
            Ok(
                PreparedMigration::Ready(
                    PreparedTargetCommit::FlattenedNestedRoot { copied_entries },
                ),
            ),
        )
    }

    /// The copied entries were taken back, as far as possible.
    pub fn on_nested_cleaned(&mut self, cleanup: &Vec<CleanupFailure>) -> (action: MigrationAction)
        requires
            old(self).wf(),
            old(self).stage == MigrationStage::CleaningNested,
        ensures
            *final(self) == (Migration {
                stage: final(self).stage,
                failures: final(self).failures,
                lies: final(self).lies,
                ..*old(self)
            }),
            cleanup@.len() == 0 ==> final(self).lies == final(self).found,
            final(self).wf(),
            migration_edge(old(self).stage, final(self).stage),
            old(self).ends_with(
                *final(self),
                action,
                failure_views(old(self).failures@) + cleanup_failures(cleanup@),
            ),
    {
        if cleanup.len() == 0 {
            self.lies = Ghost(TargetState::OnlySource);
        }
        cleanup_copied_entries(cleanup, &mut self.failures);
        self.give_up()
    }

    /// A temporary name was picked, or not.
    pub fn on_temporary(&mut self, result: Result<String, String>) -> (action: MigrationAction)
        requires
            old(self).wf(),
            old(self).stage == MigrationStage::NamingTemporary,
        ensures
            *final(self) == (Migration {
                stage: final(self).stage,
                temporary: final(self).temporary,
                ..*old(self)
            }),
            final(self).wf(),
            migration_edge(old(self).stage, final(self).stage),
            match result {
                Ok(temporary) => {
                    &&& *final(self) == (Migration {
                        stage: MigrationStage::CopyingTemporary,
                        temporary,
                        ..*old(self)
                    })
                    &&& action == MigrationAction::CopyTemporary
                },
                Err(text) => old(self).ends_with(
                    *final(self),
                    action,
                    seq![both(old(self).source@, old(self).target@, text@)],
                ),
            },
    {
        match result {
            Ok(temporary) => {
                self.temporary = temporary;
                self.stage = MigrationStage::CopyingTemporary;
                MigrationAction::CopyTemporary
            },
            Err(text) => self.end_both(text.as_str()),
        }
    }

    /// The temporary copy was made; a failure removes it.
    pub fn on_temporary_copied(&mut self, failures: Vec<SavedataBackupMigrationFailure>) -> (action:
        MigrationAction)
        requires
            old(self).wf(),
            old(self).stage == MigrationStage::CopyingTemporary,
        ensures
            final(self).wf(),
            migration_edge(old(self).stage, final(self).stage),
            if failures@.len() > 0 {
                &&& *final(self) == (Migration {
                    stage: MigrationStage::RemovingTemporary,
                    failures,
                    ..*old(self)
                })
                &&& action == MigrationAction::RemoveTemporary
            } else {
                &&& *final(self) == (Migration {
                    stage: MigrationStage::VerifyingTemporary,
                    ..*old(self)
                })
                &&& action == MigrationAction::VerifyTemporary
            },
    {
        if failures.len() > 0 {
            self.failures = failures;
            self.stage = MigrationStage::RemovingTemporary;
            return MigrationAction::RemoveTemporary;
        }
        self.stage = MigrationStage::VerifyingTemporary;
        MigrationAction::VerifyTemporary
    }

    /// The temporary copy was read beside the source. It goes on to its place
    /// only if it reproduces the source and holds nothing extra; else it is
    /// removed.
    pub fn on_temporary_checked(&mut self, forward: &SourceScan, backward: &TargetScan) -> (action:
        MigrationAction)
        requires
            old(self).wf(),
            old(self).stage == MigrationStage::VerifyingTemporary,
        ensures
            *final(self) == (Migration {
                stage: final(self).stage,
                failures: final(self).failures,
                ..*old(self)
            }),
            final(self).wf(),
            migration_edge(old(self).stage, final(self).stage),
            if !copied(*forward, *backward) {
                &&& final(self).stage == MigrationStage::RemovingTemporary
                &&& failure_views(final(self).failures@) == copy_failures(
                    old(self).source@,
                    old(self).temporary@,
                    *forward,
                    *backward,
                )
                &&& action == MigrationAction::RemoveTemporary
            } else if old(self).target_existed {
                &&& *final(self) == (Migration {
                    stage: MigrationStage::RemovingEmptyTarget,
                    ..*old(self)
                })
                &&& action == MigrationAction::RemoveEmptyTarget
            } else {
                &&& *final(self) == (Migration { stage: MigrationStage::Renaming, ..*old(self) })
                &&& action == MigrationAction::Rename
            },
    {
        let source: &str = self.source.as_str();
        let temporary: &str = self.temporary.as_str();
        let failures: Vec<SavedataBackupMigrationFailure> = verify_copy(
            source,
            temporary,
            forward,
            backward,
        );
        proof {
            copy_check_is_exact(source@, temporary@, *forward, *backward);
        }
        if failures.len() > 0 {
            self.failures = failures;
            self.stage = MigrationStage::RemovingTemporary;
            return MigrationAction::RemoveTemporary;
        }
        if self.target_existed {
            self.stage = MigrationStage::RemovingEmptyTarget;
            MigrationAction::RemoveEmptyTarget
        } else {
            self.stage = MigrationStage::Renaming;
            MigrationAction::Rename
        }
    }

    /// The empty target was removed, or not.
    pub fn on_empty_removed(&mut self, result: Result<(), String>) -> (action: MigrationAction)
        requires
            old(self).wf(),
            old(self).stage == MigrationStage::RemovingEmptyTarget,
        ensures
            *final(self) == (Migration {
                stage: final(self).stage,
                failures: final(self).failures,
                lies: final(self).lies,
                ..*old(self)
            }),
            final(self).wf(),
            migration_edge(old(self).stage, final(self).stage),
            match result {
                Ok(_) => *final(self) == (Migration {
                    stage: MigrationStage::Renaming,
                    lies: Ghost(TargetState::Absent),
                    ..*old(self)
                }) && action == MigrationAction::Rename,
                Err(text) => {
                    &&& final(self).stage == MigrationStage::RemovingTemporary
                    &&& final(self).lies == old(self).lies
                    &&& action == MigrationAction::RemoveTemporary
                    &&& failure_views(final(self).failures@) == seq![
                        both(
                            old(self).source@,
                            old(self).target@,
                            "提交迁移前删除空目标目录失败: "@ + text@,
                        ),
                    ]
                },
            },
    {
        match result {
            Ok(_) => {
                self.lies = Ghost(TargetState::Absent);
                self.stage = MigrationStage::Renaming;
                MigrationAction::Rename
            },
            Err(text) => {
                let message: String = cat2("提交迁移前删除空目标目录失败: ", text.as_str());
                self.failures = single(
                    fail_both(self.source.as_str(), self.target.as_str(), message.as_str()),
                );
                self.stage = MigrationStage::RemovingTemporary;
                MigrationAction::RemoveTemporary
            },
        }
    }

    /// The copy was renamed into place, or not; if not, an empty target is
    /// put back and the copy removed.
    pub fn on_renamed(&mut self, result: Result<(), String>) -> (action: MigrationAction)
        requires
            old(self).wf(),
            old(self).stage == MigrationStage::Renaming,
        ensures
            *final(self) == (Migration {
                stage: final(self).stage,
                failures: final(self).failures,
                lies: Ghost(
                    if result is Ok {
                        TargetState::Copy
                    } else {
                        TargetState::Absent
                    },
                ),
                ..*old(self)
            }),
            final(self).wf(),
            action matches MigrationAction::Finish(Ok(PreparedMigration::Ready(commit))) ==> {
                &&& commit.made_from(final(self).found@)
                &&& final(self).lies@ == commit.leaves(final(self).found@)
            },
            migration_edge(old(self).stage, final(self).stage),
            match result {
                Ok(_) => {
                    &&& final(self).stage == MigrationStage::Prepared
                    &&& action == MigrationAction::Finish(
                        Ok(
                            PreparedMigration::Ready(
                                PreparedTargetCommit::Replaced {
                                    target_existed: old(self).target_existed,
                                },
                            ),
                        ),
                    )
                },
                Err(text) => {
                    &&& failure_views(final(self).failures@) == seq![
                        both(
                            old(self).source@,
                            old(self).target@,
                            "临时目录切换到目标位置失败: "@ + text@,
                        ),
                    ]
                    &&& if old(self).target_existed {
                        &&& final(self).stage == MigrationStage::RestoringTarget
                        &&& action == MigrationAction::RestoreTarget
                    } else {
                        &&& final(self).stage == MigrationStage::RemovingTemporary
                        &&& action == MigrationAction::RemoveTemporary
                    }
                },
            },
    {
        match result {
            Ok(_) => {
                self.lies = Ghost(TargetState::Copy);
                self.stage = MigrationStage::Prepared;
                MigrationAction::Finish(
                    Ok(
                        PreparedMigration::Ready(
                            PreparedTargetCommit::Replaced { target_existed: self.target_existed },
                        ),
                    ),
                )
            },
            Err(text) => {
                let message: String = cat2("临时目录切换到目标位置失败: ", text.as_str());
                self.failures = single(
                    fail_both(self.source.as_str(), self.target.as_str(), message.as_str()),
                );
                if self.target_existed {
                    self.stage = MigrationStage::RestoringTarget;
                    MigrationAction::RestoreTarget
                } else {
                    self.stage = MigrationStage::RemovingTemporary;
                    MigrationAction::RemoveTemporary
                }
            },
        }
    }

    /// The empty target was put back, or not.
    pub fn on_restored(&mut self, result: Result<(), String>) -> (action: MigrationAction)
        requires
            old(self).wf(),
            old(self).stage == MigrationStage::RestoringTarget,
        ensures
            *final(self) == (Migration {
                stage: final(self).stage,
                failures: final(self).failures,
                lies: Ghost(
                    if result is Ok {
                        TargetState::EmptyDirectory
                    } else {
                        TargetState::Absent
                    },
                ),
                ..*old(self)
            }),
            result is Ok ==> final(self).lies == final(self).found,
            final(self).wf(),
            migration_edge(old(self).stage, final(self).stage),
            final(self).stage == MigrationStage::RemovingTemporary,
            action == MigrationAction::RemoveTemporary,
            failure_views(final(self).failures@) == match result {
                Ok(_) => failure_views(old(self).failures@),
                Err(text) => failure_views(old(self).failures@).push(
                    about_target(old(self).target@, "恢复原空目标目录失败: "@ + text@),
                ),
            },
    {
        if let Err(text) = result {
            let message: String = cat2("恢复原空目标目录失败: ", text.as_str());
            let failure: SavedataBackupMigrationFailure = fail_target(
                self.target.as_str(),
                message.as_str(),
            );
            note(&mut self.failures, failure);
        } else {
            self.lies = Ghost(TargetState::EmptyDirectory);
        }
        self.stage = MigrationStage::RemovingTemporary;
        MigrationAction::RemoveTemporary
    }

    /// The temporary copy was removed, or not.
    pub fn on_temporary_removed(&mut self, result: Result<(), String>) -> (action: MigrationAction)
        requires
            old(self).wf(),
            old(self).stage == MigrationStage::RemovingTemporary,
        ensures
            *final(self) == (Migration {
                stage: final(self).stage,
                failures: final(self).failures,
                ..*old(self)
            }),
            final(self).wf(),
            migration_edge(old(self).stage, final(self).stage),
            old(self).ends_with(
                *final(self),
                action,
                match result {
                    Ok(_) => failure_views(old(self).failures@),
                    Err(text) => failure_views(old(self).failures@).push(
                        about_target(old(self).temporary@, "清理迁移临时目录失败: "@ + text@),
                    ),
                },
            ),
    {
        if let Err(text) = result {
            let message: String = cat2("清理迁移临时目录失败: ", text.as_str());
            let failure: SavedataBackupMigrationFailure = fail_target(
                self.temporary.as_str(),
                message.as_str(),
            );
            note(&mut self.failures, failure);
        }
        self.give_up()
    }
}

/// An old root will do exactly if it is a real directory; a fault names it.
pub proof fn old_roots_are_real_directories(path: Seq<char>, seen: Metadata)
    ensures
        existing_directory_verdict(path, seen) is None <==> (seen matches Metadata::Found(flags)
            && flags.is_dir && !flags.is_symlink),
        existing_directory_verdict(path, seen) matches Some(failure) ==> failure.source == Some(path)
            && failure.target is None,
{
}

/// A record stops the move exactly if something other than a regular file
/// stands at its path, or nobody can tell; a missing file does not.
pub proof fn records_have_files_or_none(record: RecordLook)
    ensures
        record_failure(record) is None <==> record.seen is Missing || (record.seen matches
            Metadata::Found(flags) && flags.is_file && !flags.is_symlink),
        record_failure(record) matches Some(failure) ==> failure.source == Some(record.path@),
{
}

/// Each record decides for itself, in order: one whose file is missing is
/// dropped, and one that cannot be judged is a failure.
pub proof fn records_are_judged_one_by_one(records: Seq<RecordLook>, record: RecordLook)
    ensures
        missing_ids(Seq::empty()).len() == 0,
        record_failures(Seq::empty()).len() == 0,
        record.seen is Missing ==> missing_ids(records.push(record)) == missing_ids(records).push(
            record.id,
        ) && record_failures(records.push(record)) == record_failures(records),
        !(record.seen is Missing) ==> missing_ids(records.push(record)) == missing_ids(records),
        record.seen is Failed ==> record_failures(records.push(record)).len() == record_failures(
            records,
        ).len() + 1,
        (record.seen matches Metadata::Found(flags) && flags.is_file && !flags.is_symlink)
            ==> record_failures(records.push(record)) == record_failures(records),
        (record.seen matches Metadata::Found(flags) && (!flags.is_file || flags.is_symlink))
            ==> record_failures(records.push(record)).len() == record_failures(records).len() + 1,
{
    assert(records.push(record).drop_last() =~= records);
}

/// The entries of a nested root can be moved up exactly if the outer directory
/// is a real one whose single entry is a real directory, and in fact the old
/// root.
pub proof fn nested_roots_stand_alone(rules: NameRules, look: NestedLook)
    ensures
        nested_fault(rules, look) is None <==> {
            &&& look.outer matches Ok(flags) && flags.is_dir && !flags.is_symlink
            &&& look.entries matches Ok(entries) && entries@.len() == 1 && (entries@[0] matches Ok(
                entry,
            ) && (entry.kind matches Ok(kind) && kind.is_dir && !kind.is_symlink) && (
            entry.actual matches Ok(actual) && (look.expected matches Ok(expected) && same_paths(
                rules,
                path_view(actual@),
                path_view(expected@),
            ))))
        },
{
}

/// Roots that are the same path are the same, whatever they are called, and
/// roots that part at some component are separate.
pub proof fn roots_relate_by_their_real_paths(
    rules: NameRules,
    source: Seq<ComponentView>,
    target: Seq<ComponentView>,
    real_source: Seq<ComponentView>,
    real_target: Seq<ComponentView>,
)
    ensures
        relation(rules, source, target, real_source, real_target) is Same <==> same_paths(
            rules,
            real_source,
            real_target,
        ),
        relation(rules, source, target, real_source, real_source) is Same,
        relation(rules, source, target, real_source, real_target) is Separate <==> !overlapping(
            rules,
            real_source,
            real_target,
        ),
        relation(rules, source, target, real_source, real_target) is DirectlyNested
            ==> real_source.len() == real_target.len() + 1 && source.len() == target.len() + 1,
        real_source.len() < real_target.len() ==> !(relation(
            rules,
            source,
            target,
            real_source,
            real_target,
        ) is DirectlyNested),
{
    super::paths::path_relations(rules, real_source, real_target);
    super::paths::path_relations(rules, real_source, real_source);
}

/// A root that lies directly in the other, by name and in fact, is directly
/// nested; one that lies deeper or contains the other merely overlaps it.
pub proof fn nested_roots_lie_one_level_down(
    rules: NameRules,
    outer: Seq<ComponentView>,
    real_outer: Seq<ComponentView>,
    name: Seq<u8>,
    real_name: Seq<u8>,
    deeper: Seq<u8>,
)
    ensures
        ({
            let source = outer.push(ComponentView::Normal(name));
            let real_source = real_outer.push(ComponentView::Normal(real_name));
            let below = real_source.push(ComponentView::Normal(deeper));
            &&& relation(rules, source, outer, real_source, real_outer) is DirectlyNested
            &&& relation(rules, source, outer, below, real_outer) is Overlapping
            &&& relation(rules, outer, source, real_outer, real_source) is Overlapping
            &&& relation(
                rules,
                source.push(ComponentView::Normal(deeper)),
                outer,
                real_source,
                real_outer,
            ) is Overlapping
        }),
{
    let source = outer.push(ComponentView::Normal(name));
    let real_source = real_outer.push(ComponentView::Normal(real_name));
    let below = real_source.push(ComponentView::Normal(deeper));
    let one = seq![ComponentView::Normal(real_name)];
    let two = seq![ComponentView::Normal(real_name), ComponentView::Normal(deeper)];
    assert(real_source =~= real_outer + one);
    assert(below =~= real_outer + two);
    super::paths::paths_overlap_what_they_contain(rules, real_outer, one);
    super::paths::paths_overlap_what_they_contain(rules, real_outer, two);
    super::paths::path_relations(rules, outer, outer);
    super::paths::path_relations(rules, real_outer, real_outer);
    assert(source.drop_last() =~= outer);
    assert(real_source.drop_last() =~= real_outer);
    assert(below.drop_last() =~= real_source);
    assert(source.push(ComponentView::Normal(deeper)).drop_last() =~= source);
}

/// Entries can be moved up exactly if each was read and its new place is seen
/// to be empty; the first that cannot is the one reported. Their names are
/// taken over in order.
pub proof fn entries_move_up_to_empty_places(
    source: Seq<char>,
    target: Seq<char>,
    items: Seq<NestedItem>,
    item: NestedItem,
)
    ensures
        first_collision(source, target, Seq::empty()) is None,
        first_collision(source, target, items) is Some ==> first_collision(
            source,
            target,
            items.push(item),
        ) == first_collision(source, target, items),
        first_collision(source, target, items.push(item)) is None <==> first_collision(
            source,
            target,
            items,
        ) is None && item is Entry && item->Entry_seen is Absent,
        item is Entry ==> item_names(items.push(item)) == item_names(items).push(item->name@),
        item_names(Seq::empty()).len() == 0,
{
    assert(items.push(item).drop_last() =~= items);
}

/// A copied tree is removed with what is in it, anything else there as a file,
/// so that links are never followed; only what cannot be seen is reported.
pub proof fn copies_are_taken_back_without_following_links(seen: Metadata)
    ensures
        cleaned_by(seen) == CleanupStep::RemoveTree <==> (seen matches Metadata::Found(flags)
            && flags.is_dir && !flags.is_symlink),
        cleaned_by(seen) == CleanupStep::RemoveFile <==> (seen matches Metadata::Found(flags) && (
        !flags.is_dir || flags.is_symlink)),
        cleaned_by(seen) == CleanupStep::Skip <==> seen is Missing,
        cleaned_by(seen) == CleanupStep::Report <==> seen is Failed,
{
}

/// Every entry that could not be taken back is reported, with its path.
pub proof fn cleanup_failures_name_their_paths(failures: Seq<CleanupFailure>, at: int)
    requires
        0 <= at < failures.len(),
    ensures
        cleanup_failures(failures).len() == failures.len(),
        cleanup_failures(failures)[at].target == Some(failures[at].path@),
        cleanup_failures(failures)[at].source is None,
        failures[at].text@.is_suffix_of(cleanup_failures(failures)[at].message),
{
    let message = cleanup_failures(failures)[at].message;
    let text = failures[at].text@;
    assert(text =~= message.subrange(message.len() - text.len(), message.len() as int));
}

/// What each kind of preparation starts from and leaves: a copy takes the
/// place of nothing or of an empty directory, entries are copied around the
/// old root, and a verified copy stays as it was.
pub proof fn preparations_keep_what_was_there(
    commit: PreparedTargetCommit,
    found: TargetState,
)
    ensures
        replaceable(true) == TargetState::EmptyDirectory,
        replaceable(false) == TargetState::Absent,
        commit.made_from(found) ==> {
            &&& commit is Replaced <==> found is Absent || found is EmptyDirectory
            &&& commit is FlattenedNestedRoot <==> found is OnlySource
            &&& commit is ExistingVerifiedCopy <==> found is Copy || found is CopyAroundSource
            &&& commit matches PreparedTargetCommit::Replaced { target_existed } ==> (target_existed
                <==> found is EmptyDirectory)
            &&& commit.leaves(found) is Copy || commit.leaves(found) is CopyAroundSource
            &&& commit.leaves(found) is CopyAroundSource <==> found is OnlySource || found
                is CopyAroundSource
        },
{
}

/// A preparation goes on exactly if the target has a parent; if not, it ends
/// with a failure that names both roots.
pub proof fn targets_need_a_parent(migration: Migration, after: Migration, action: MigrationAction)
    requires
        migration.goes_to_parent(after, action),
    ensures
        action == MigrationAction::CreateParent <==> {
            let path = path_view(migration.target_path@);
            path.len() > 0 && !(path.last() is RootDir) && !(path.last() is Prefix)
        },
        action == MigrationAction::CreateParent || (action matches MigrationAction::Finish(Err(
            failures,
        )) && failures@.len() == 1 && failures@[0]@.source == Some(migration.source@)
            && failures@[0]@.target == Some(migration.target@)),
{
    if action != MigrationAction::CreateParent {
        let found = action->Finish_0->Err_0;
        assert(failure_views(found@).len() == 1);
        assert(failure_views(found@)[0] == found@[0]@);
    }
}

/// A missing old root is told apart by whether records still refer to it, and
/// their number is named.
pub proof fn missing_roots_count_their_records(savedata_count: u64)
    ensures
        savedata_count == 0 ==> missing_source_text(savedata_count) == "旧备份目录不存在"@,
        savedata_count > 0 ==> missing_source_text(savedata_count)
            == "旧备份目录不存在，但数据库仍有 "@ + decimal(savedata_count as nat)
            + " 条备份记录"@,
{
}

} // verus!
