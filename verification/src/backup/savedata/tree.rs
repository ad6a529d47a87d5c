//! Copying a backup tree, and holding the copy against its source.
//!
//! The host lists directories, looks at both sides of each entry and reads
//! files; what it saw comes in as a scan. Paths in scans are as shown to
//! users.

use vstd::prelude::*;

use super::failure::{
    both, fail_both, failure_views, note, FailureView, SavedataBackupMigrationFailure,
};
use super::paths::{
    normalize_for_overlap, normalized, path_view, same_path, same_paths, ComponentView,
    NameRules, PathComponent,
};
use crate::host::{EntryType, Metadata, TypeFlags};
use crate::text::concat::cat2;

verus! {

/// A source directory, seen next to the directory that should copy it.
#[derive(Debug)]
pub enum SourceScan {
    /// The directory could not be listed.
    Failed(String),
    Listed(Vec<SourceItem>),
}

/// One entry of a source directory, and what stands in its place in the copy.
#[derive(Debug)]
pub enum SourceItem {
    /// The entry could not be read.
    Unreadable(String),
    Entry {
        source: String,
        target: String,
        /// The type of the entry, links not followed.
        kind: Result<TypeFlags, String>,
        /// The type of what stands in its place, links not followed.
        copy: Result<TypeFlags, String>,
        /// Both files; looked at only if [`judge_source`] says so.
        contents: ContentsLook,
        /// The directory itself; looked at only if [`judge_source`] says so.
        below: SourceScan,
    },
}

/// What reading two files gave.
#[derive(Debug)]
pub struct ContentsLook {
    pub source_len: Result<u64, String>,
    pub target_len: Result<u64, String>,
    /// Whether the bytes are the same; read only for equal lengths.
    pub equal: Result<bool, String>,
}

/// Whether two files are equal: by length first, then by content.
pub open spec fn contents_equal(look: ContentsLook) -> Result<bool, Seq<char>> {
    match (look.source_len, look.target_len) {
        (Err(text), _) => Err(text@),
        (Ok(_), Err(text)) => Err(text@),
        (Ok(source), Ok(target)) => if source != target {
            Ok(false)
        } else {
            match look.equal {
                Ok(equal) => Ok(equal),
                Err(text) => Err(text@),
            }
        },
    }
}

/// Decides whether two files are equal.
pub fn files_equal(look: &ContentsLook) -> (result: Result<bool, String>)
    ensures
        match contents_equal(*look) {
            Ok(equal) => result == Ok::<bool, String>(equal),
            Err(text) => result matches Err(found) && found@ == text,
        },
{
    let source: u64 = match &look.source_len {
        Ok(len) => *len,
        Err(text) => {
            return Err(text.clone());
        },
    };
    let target: u64 = match &look.target_len {
        Ok(len) => *len,
        Err(text) => {
            return Err(text.clone());
        },
    };
    if source != target {
        return Ok(false);
    }
    match &look.equal {
        Ok(equal) => Ok(*equal),
        Err(text) => Err(text.clone()),
    }
}

/// What the types on both sides say about an entry.
pub enum SourceVerdict {
    Fault(Seq<char>),
    /// What lies below decides.
    Below,
    /// The contents decide.
    Contents,
    /// There is nothing to check.
    Nothing,
}

/// A directory has to stand for a directory and a file for a file; links are
/// refused, anything else is left out of a copy.
pub open spec fn source_verdict(
    kind: Result<TypeFlags, String>,
    copy: Result<TypeFlags, String>,
) -> SourceVerdict {
    match kind {
        Err(text) => SourceVerdict::Fault("验证文件类型失败: "@ + text@),
        Ok(flags) => match flags.kind() {
            EntryType::Symlink => SourceVerdict::Fault("备份目录中不允许包含符号链接"@),
            EntryType::Directory => match copy {
                Err(text) => SourceVerdict::Fault("复制结果缺少目录: "@ + text@),
                Ok(copy) => if copy.real_directory() {
                    SourceVerdict::Below
                } else {
                    SourceVerdict::Fault("复制结果中的目录类型不匹配"@)
                },
            },
            EntryType::File => match copy {
                Err(text) => SourceVerdict::Fault("复制结果缺少文件: "@ + text@),
                Ok(copy) => if copy.real_file() {
                    SourceVerdict::Contents
                } else {
                    SourceVerdict::Fault("复制结果中的文件类型不匹配"@)
                },
            },
            EntryType::Other => SourceVerdict::Nothing,
        },
    }
}

/// What is to be looked at next of an entry.
#[derive(Debug)]
pub enum SourceStep {
    Fault(String),
    Below,
    Contents,
    Nothing,
}

/// Judges an entry by the types on both sides.
pub fn judge_source(kind: &Result<TypeFlags, String>, copy: &Result<TypeFlags, String>) -> (step:
    SourceStep)
    ensures
        match source_verdict(*kind, *copy) {
            SourceVerdict::Fault(text) => step matches SourceStep::Fault(found) && found@ == text,
            SourceVerdict::Below => step == SourceStep::Below,
            SourceVerdict::Contents => step == SourceStep::Contents,
            SourceVerdict::Nothing => step == SourceStep::Nothing,
        },
{
    let flags: &TypeFlags = match kind {
        Ok(flags) => flags,
        Err(text) => {
            return SourceStep::Fault(cat2("验证文件类型失败: ", text.as_str()));
        },
    };
    match flags.entry_type() {
        EntryType::Symlink => SourceStep::Fault("备份目录中不允许包含符号链接".to_owned()),
        EntryType::Directory => match copy {
            Err(text) => SourceStep::Fault(cat2("复制结果缺少目录: ", text.as_str())),
            Ok(copy) => {
                if copy.is_real_directory() {
                    SourceStep::Below
                } else {
                    SourceStep::Fault("复制结果中的目录类型不匹配".to_owned())
                }
            },
        },
        EntryType::File => match copy {
            Err(text) => SourceStep::Fault(cat2("复制结果缺少文件: ", text.as_str())),
            Ok(copy) => {
                if copy.is_real_file() {
                    SourceStep::Contents
                } else {
                    SourceStep::Fault("复制结果中的文件类型不匹配".to_owned())
                }
            },
        },
        EntryType::Other => SourceStep::Nothing,
    }
}

/// The failures of a directory scan.
pub open spec fn source_failures(
    source: Seq<char>,
    target: Seq<char>,
    scan: SourceScan,
) -> Seq<FailureView>
    decreases scan, 0int,
{
    match scan {
        SourceScan::Failed(text) => seq![both(source, target, "验证源目录失败: "@ + text@)],
        SourceScan::Listed(items) => source_items_failures(source, target, items, items@.len()),
    }
}

/// The failures of the first `count` entries.
pub open spec fn source_items_failures(
    source: Seq<char>,
    target: Seq<char>,
    items: Vec<SourceItem>,
    count: nat,
) -> Seq<FailureView>
    decreases items, count,
{
    if count == 0 || count > items@.len() {
        Seq::empty()
    } else {
        source_items_failures(source, target, items, (count - 1) as nat) + source_item_failures(
            source,
            target,
            items[count - 1],
        )
    }
}

/// The failures of one entry.
pub open spec fn source_item_failures(
    source: Seq<char>,
    target: Seq<char>,
    item: SourceItem,
) -> Seq<FailureView>
    decreases item, 0int,
{
    match item {
        SourceItem::Unreadable(text) => seq![
            both(source, target, "验证源目录项失败: "@ + text@),
        ],
        SourceItem::Entry { source, target, kind, copy, contents, below } => match source_verdict(
            kind,
            copy,
        ) {
            SourceVerdict::Fault(text) => seq![both(source@, target@, text)],
            SourceVerdict::Below => source_failures(source@, target@, below),
            SourceVerdict::Contents => match contents_equal(contents) {
                Ok(true) => Seq::empty(),
                Ok(false) => seq![both(source@, target@, "复制结果文件内容不一致"@)],
                Err(text) => seq![both(source@, target@, "验证文件内容失败: "@ + text)],
            },
            SourceVerdict::Nothing => Seq::empty(),
        },
    }
}

/// Checks that everything in the source tree is in the copy.
pub fn verify_source_tree(
    source: &str,
    target: &str,
    scan: &SourceScan,
    failures: &mut Vec<SavedataBackupMigrationFailure>,
)
    ensures
        failure_views(final(failures)@) == failure_views(old(failures)@) + source_failures(
            source@,
            target@,
            *scan,
        ),
    decreases *scan, 0int,
{
    let ghost start = failure_views(failures@);
    match scan {
        SourceScan::Failed(text) => {
            note(
                failures,
                fail_both(source, target, cat2("验证源目录失败: ", text.as_str()).as_str()),
            );
            assert(failure_views(failures@) =~= start + source_failures(source@, target@, *scan));
        },
        SourceScan::Listed(items) => {
            let mut at: usize = 0;
            assert(start =~= start + source_items_failures(source@, target@, *items, 0));
            while at < items.len()
                invariant
                    at <= items@.len(),
                    decreases_to!(*scan => *items),
                    failure_views(failures@) == start + source_items_failures(
                        source@,
                        target@,
                        *items,
                        at as nat,
                    ),
                decreases items@.len() - at,
            {
                verify_source_item(source, target, &items[at], failures);
                proof {
                    let done = source_items_failures(source@, target@, *items, at as nat);
                    let more = source_item_failures(source@, target@, items@[at as int]);
                    assert(start + (done + more) =~= start + done + more);
                }
                at += 1;
            }
        },
    }
}

fn verify_source_item(
    source: &str,
    target: &str,
    item: &SourceItem,
    failures: &mut Vec<SavedataBackupMigrationFailure>,
)
    ensures
        failure_views(final(failures)@) == failure_views(old(failures)@) + source_item_failures(
            source@,
            target@,
            *item,
        ),
    decreases *item, 0int,
{
    let ghost start = failure_views(failures@);
    match item {
        SourceItem::Unreadable(text) => {
            note(
                failures,
                fail_both(source, target, cat2("验证源目录项失败: ", text.as_str()).as_str()),
            );
        },
        SourceItem::Entry { source, target, kind, copy, contents, below } => {
            let from: &str = source.as_str();
            let to: &str = target.as_str();
            match judge_source(kind, copy) {
                SourceStep::Fault(text) => {
                    note(failures, fail_both(from, to, text.as_str()));
                },
                SourceStep::Below => {
                    verify_source_tree(from, to, below, failures);
                },
                SourceStep::Contents => match files_equal(contents) {
                    Ok(equal) => {
                        if !equal {
                            note(failures, fail_both(from, to, "复制结果文件内容不一致"));
                        }
                    },
                    Err(text) => {
                        note(
                            failures,
                            fail_both(from, to, cat2("验证文件内容失败: ", text.as_str()).as_str()),
                        );
                    },
                },
                SourceStep::Nothing => {},
            }
        },
    }
    assert(failure_views(failures@) =~= start + source_item_failures(source@, target@, *item));
}

/// Everything the scan saw is in the copy: directories as directories, files
/// with the same content, no links, nothing unreadable.
pub open spec fn reproduced(scan: SourceScan) -> bool
    decreases scan, 0int,
{
    match scan {
        SourceScan::Failed(_) => false,
        SourceScan::Listed(items) => items_reproduced(items, items@.len()),
    }
}

pub open spec fn items_reproduced(items: Vec<SourceItem>, count: nat) -> bool
    decreases items, count,
{
    if count == 0 || count > items@.len() {
        true
    } else {
        items_reproduced(items, (count - 1) as nat) && item_reproduced(items[count - 1])
    }
}

pub open spec fn item_reproduced(item: SourceItem) -> bool
    decreases item, 0int,
{
    match item {
        SourceItem::Unreadable(_) => false,
        SourceItem::Entry { source, target, kind, copy, contents, below } => {
            &&& kind is Ok
            &&& !kind->Ok_0.is_symlink
            &&& kind->Ok_0.real_directory() ==> (copy matches Ok(copy) && copy.real_directory())
                && reproduced(below)
            &&& !kind->Ok_0.is_dir && kind->Ok_0.real_file() ==> (copy matches Ok(copy)
                && copy.real_file()) && contents_equal(contents) == Ok::<bool, Seq<char>>(true)
        },
    }
}

/// The check of the source tree is silent exactly if the copy reproduces it.
pub proof fn source_check_is_exact(source: Seq<char>, target: Seq<char>, scan: SourceScan)
    ensures
        source_failures(source, target, scan).len() == 0 <==> reproduced(scan),
    decreases scan, 0int,
{
    if let SourceScan::Listed(items) = scan {
        source_items_exact(source, target, items, items@.len());
    }
}

proof fn source_items_exact(
    source: Seq<char>,
    target: Seq<char>,
    items: Vec<SourceItem>,
    count: nat,
)
    ensures
        source_items_failures(source, target, items, count).len() == 0 <==> items_reproduced(
            items,
            count,
        ),
    decreases items, count,
{
    if count > 0 && count <= items@.len() {
        source_items_exact(source, target, items, (count - 1) as nat);
        source_item_exact(source, target, items[count - 1]);
    }
}

proof fn source_item_exact(source: Seq<char>, target: Seq<char>, item: SourceItem)
    ensures
        source_item_failures(source, target, item).len() == 0 <==> item_reproduced(item),
    decreases item, 0int,
{
    if let SourceItem::Entry { source, target, kind, copy, contents, below } = item {
        source_check_is_exact(source@, target@, below);
    }
}

/// A copied directory, seen next to its source.
#[derive(Debug)]
pub enum TargetScan {
    /// The directory could not be listed.
    Failed(String),
    Listed(Vec<TargetItem>),
}

/// One entry of a copied directory, and what stands in its place in the
/// source.
#[derive(Debug)]
pub enum TargetItem {
    /// The entry could not be read.
    Unreadable(String),
    Entry {
        source: String,
        target: String,
        /// The type of the entry, links not followed.
        kind: Result<TypeFlags, String>,
        /// What stands in its place in the source.
        origin: Metadata,
        /// The directory itself; looked at only if [`judge_target`] says so.
        below: TargetScan,
    },
}

/// What the looks at both sides say about an entry of the copy.
pub enum TargetVerdict {
    Fault(Seq<char>),
    /// What lies below decides.
    Below,
    /// There is nothing to check.
    Nothing,
}

/// Links are refused, and so are directories and files that the source is
/// known not to have.
pub open spec fn target_verdict(kind: Result<TypeFlags, String>, origin: Metadata) -> TargetVerdict {
    match kind {
        Err(text) => TargetVerdict::Fault("验证目标文件类型失败: "@ + text@),
        Ok(flags) => match flags.kind() {
            EntryType::Symlink => TargetVerdict::Fault("目标目录中出现不允许的符号链接"@),
            EntryType::Directory => match origin {
                Metadata::Missing => TargetVerdict::Fault("目标目录包含源目录不存在的目录"@),
                Metadata::Failed(_) => TargetVerdict::Nothing,
                Metadata::Found(_) => TargetVerdict::Below,
            },
            EntryType::File => match origin {
                Metadata::Missing => TargetVerdict::Fault("目标目录包含源目录不存在的文件"@),
                _ => TargetVerdict::Nothing,
            },
            EntryType::Other => TargetVerdict::Nothing,
        },
    }
}

/// What is to be looked at next of an entry.
#[derive(Debug)]
pub enum TargetStep {
    Fault(String),
    Below,
    Nothing,
}

/// Judges an entry of the copy by the looks at both sides.
pub fn judge_target(kind: &Result<TypeFlags, String>, origin: &Metadata) -> (step: TargetStep)
    ensures
        match target_verdict(*kind, *origin) {
            TargetVerdict::Fault(text) => step matches TargetStep::Fault(found) && found@ == text,
            TargetVerdict::Below => step == TargetStep::Below,
            TargetVerdict::Nothing => step == TargetStep::Nothing,
        },
{
    let flags: &TypeFlags = match kind {
        Ok(flags) => flags,
        Err(text) => {
            return TargetStep::Fault(cat2("验证目标文件类型失败: ", text.as_str()));
        },
    };
    match flags.entry_type() {
        EntryType::Symlink => TargetStep::Fault("目标目录中出现不允许的符号链接".to_owned()),
        EntryType::Directory => match origin {
            Metadata::Missing => TargetStep::Fault("目标目录包含源目录不存在的目录".to_owned()),
            Metadata::Failed(_) => TargetStep::Nothing,
            Metadata::Found(_) => TargetStep::Below,
        },
        EntryType::File => match origin {
            Metadata::Missing => TargetStep::Fault("目标目录包含源目录不存在的文件".to_owned()),
            _ => TargetStep::Nothing,
        },
        EntryType::Other => TargetStep::Nothing,
    }
}

/// The failures of a scan of the copy.
pub open spec fn target_failures(
    target: Seq<char>,
    source: Seq<char>,
    scan: TargetScan,
) -> Seq<FailureView>
    decreases scan, 0int,
{
    match scan {
        TargetScan::Failed(text) => seq![both(source, target, "验证目标目录失败: "@ + text@)],
        TargetScan::Listed(items) => target_items_failures(target, source, items, items@.len()),
    }
}

pub open spec fn target_items_failures(
    target: Seq<char>,
    source: Seq<char>,
    items: Vec<TargetItem>,
    count: nat,
) -> Seq<FailureView>
    decreases items, count,
{
    if count == 0 || count > items@.len() {
        Seq::empty()
    } else {
        target_items_failures(target, source, items, (count - 1) as nat) + target_item_failures(
            target,
            source,
            items[count - 1],
        )
    }
}

pub open spec fn target_item_failures(
    target: Seq<char>,
    source: Seq<char>,
    item: TargetItem,
) -> Seq<FailureView>
    decreases item, 0int,
{
    match item {
        TargetItem::Unreadable(text) => seq![
            both(source, target, "验证目标目录项失败: "@ + text@),
        ],
        TargetItem::Entry { source, target, kind, origin, below } => match target_verdict(
            kind,
            origin,
        ) {
            TargetVerdict::Fault(text) => seq![both(source@, target@, text)],
            TargetVerdict::Below => target_failures(target@, source@, below),
            TargetVerdict::Nothing => Seq::empty(),
        },
    }
}

/// Checks that the copy holds nothing that the source does not.
pub fn verify_target_tree(
    target: &str,
    source: &str,
    scan: &TargetScan,
    failures: &mut Vec<SavedataBackupMigrationFailure>,
)
    ensures
        failure_views(final(failures)@) == failure_views(old(failures)@) + target_failures(
            target@,
            source@,
            *scan,
        ),
    decreases *scan, 0int,
{
    let ghost start = failure_views(failures@);
    match scan {
        TargetScan::Failed(text) => {
            note(
                failures,
                fail_both(source, target, cat2("验证目标目录失败: ", text.as_str()).as_str()),
            );
            assert(failure_views(failures@) =~= start + target_failures(target@, source@, *scan));
        },
        TargetScan::Listed(items) => {
            let mut at: usize = 0;
            assert(start =~= start + target_items_failures(target@, source@, *items, 0));
            while at < items.len()
                invariant
                    at <= items@.len(),
                    decreases_to!(*scan => *items),
                    failure_views(failures@) == start + target_items_failures(
                        target@,
                        source@,
                        *items,
                        at as nat,
                    ),
                decreases items@.len() - at,
            {
                verify_target_item(target, source, &items[at], failures);
                proof {
                    let done = target_items_failures(target@, source@, *items, at as nat);
                    let more = target_item_failures(target@, source@, items@[at as int]);
                    assert(start + (done + more) =~= start + done + more);
                }
                at += 1;
            }
        },
    }
}

fn verify_target_item(
    target: &str,
    source: &str,
    item: &TargetItem,
    failures: &mut Vec<SavedataBackupMigrationFailure>,
)
    ensures
        failure_views(final(failures)@) == failure_views(old(failures)@) + target_item_failures(
            target@,
            source@,
            *item,
        ),
    decreases *item, 0int,
{
    let ghost start = failure_views(failures@);
    match item {
        TargetItem::Unreadable(text) => {
            note(
                failures,
                fail_both(source, target, cat2("验证目标目录项失败: ", text.as_str()).as_str()),
            );
        },
        TargetItem::Entry { source, target, kind, origin, below } => {
            let from: &str = source.as_str();
            let to: &str = target.as_str();
            match judge_target(kind, origin) {
                TargetStep::Fault(text) => {
                    note(failures, fail_both(from, to, text.as_str()));
                },
                TargetStep::Below => {
                    verify_target_tree(to, from, below, failures);
                },
                TargetStep::Nothing => {},
            }
        },
    }
    assert(failure_views(failures@) =~= start + target_item_failures(target@, source@, *item));
}

/// The copy holds nothing that the source is known not to have, no links and
/// nothing unreadable.
pub open spec fn nothing_extra(scan: TargetScan) -> bool
    decreases scan, 0int,
{
    match scan {
        TargetScan::Failed(_) => false,
        TargetScan::Listed(items) => items_known(items, items@.len()),
    }
}

pub open spec fn items_known(items: Vec<TargetItem>, count: nat) -> bool
    decreases items, count,
{
    if count == 0 || count > items@.len() {
        true
    } else {
        items_known(items, (count - 1) as nat) && item_known(items[count - 1])
    }
}

pub open spec fn item_known(item: TargetItem) -> bool
    decreases item, 0int,
{
    match item {
        TargetItem::Unreadable(_) => false,
        TargetItem::Entry { source, target, kind, origin, below } => {
            &&& kind is Ok
            &&& !kind->Ok_0.is_symlink
            &&& kind->Ok_0.is_dir || kind->Ok_0.is_file ==> !(origin is Missing)
            &&& kind->Ok_0.is_dir && origin is Found ==> nothing_extra(below)
        },
    }
}

/// The check of the copy is silent exactly if it holds nothing extra.
pub proof fn target_check_is_exact(target: Seq<char>, source: Seq<char>, scan: TargetScan)
    ensures
        target_failures(target, source, scan).len() == 0 <==> nothing_extra(scan),
    decreases scan, 0int,
{
    if let TargetScan::Listed(items) = scan {
        target_items_exact(target, source, items, items@.len());
    }
}

proof fn target_items_exact(
    target: Seq<char>,
    source: Seq<char>,
    items: Vec<TargetItem>,
    count: nat,
)
    ensures
        target_items_failures(target, source, items, count).len() == 0 <==> items_known(
            items,
            count,
        ),
    decreases items, count,
{
    if count > 0 && count <= items@.len() {
        target_items_exact(target, source, items, (count - 1) as nat);
        target_item_exact(target, source, items[count - 1]);
    }
}

proof fn target_item_exact(target: Seq<char>, source: Seq<char>, item: TargetItem)
    ensures
        target_item_failures(target, source, item).len() == 0 <==> item_known(item),
    decreases item, 0int,
{
    if let TargetItem::Entry { source, target, kind, origin, below } = item {
        target_check_is_exact(target@, source@, below);
    }
}

/// The failures of a comparison in both directions.
pub open spec fn copy_failures(
    source: Seq<char>,
    target: Seq<char>,
    forward: SourceScan,
    backward: TargetScan,
) -> Seq<FailureView> {
    source_failures(source, target, forward) + target_failures(target, source, backward)
}

/// Holds a copy against its source in both directions.
pub fn verify_copy(source: &str, target: &str, forward: &SourceScan, backward: &TargetScan) -> (
failures: Vec<SavedataBackupMigrationFailure>)
    ensures
        failure_views(failures@) == copy_failures(source@, target@, *forward, *backward),
{
    let mut failures: Vec<SavedataBackupMigrationFailure> = Vec::new();
    assert(failure_views(failures@) =~= Seq::<FailureView>::empty());
    verify_source_tree(source, target, forward, &mut failures);
    assert(failure_views(failures@) =~= source_failures(source@, target@, *forward));
    verify_target_tree(target, source, backward, &mut failures);
    failures
}

/// The copy reproduces the source and holds nothing extra.
pub open spec fn copied(forward: SourceScan, backward: TargetScan) -> bool {
    reproduced(forward) && nothing_extra(backward)
}

/// The comparison in both directions is silent exactly if the copy reproduces
/// the source and holds nothing extra.
pub proof fn copy_check_is_exact(
    source: Seq<char>,
    target: Seq<char>,
    forward: SourceScan,
    backward: TargetScan,
)
    ensures
        copy_failures(source, target, forward, backward).len() == 0 <==> copied(forward, backward),
{
    source_check_is_exact(source, target, forward);
    target_check_is_exact(target, source, backward);
}

/// The outer directory after its nested backup root was copied into it.
#[derive(Debug)]
pub enum FlattenScan {
    Failed(String),
    Listed(Vec<FlattenItem>),
}

/// One entry of the outer directory, and its counterpart in the nested root.
#[derive(Debug)]
pub enum FlattenItem {
    /// The entry could not be read.
    Unreadable(String),
    Entry {
        /// Where the entry lies.
        path: Vec<PathComponent>,
        source: String,
        target: String,
        /// The type of the entry, links not followed.
        kind: Result<TypeFlags, String>,
        /// The type of the counterpart, links not followed.
        origin: Result<TypeFlags, String>,
        /// The directory itself; looked at only if [`judge_flatten`] says so.
        below: TargetScan,
    },
}

/// Whether an entry is the nested root itself, which may be extra.
pub open spec fn is_wrapper(
    rules: NameRules,
    wrapper: Seq<ComponentView>,
    path: Seq<PathComponent>,
) -> bool {
    same_paths(rules, normalized(path_view(path)), wrapper)
}

/// Whether an entry is the nested root itself.
pub fn wraps(rules: NameRules, wrapper: &Vec<PathComponent>, path: &Vec<PathComponent>) -> (found:
    bool)
    ensures
        found == is_wrapper(rules, path_view(wrapper@), path@),
{
    same_path(rules, &normalize_for_overlap(path), wrapper)
}

/// Both sides have to be real directories, or both regular files.
pub open spec fn flatten_verdict(
    kind: Result<TypeFlags, String>,
    origin: Result<TypeFlags, String>,
) -> TargetVerdict {
    match (kind, origin) {
        (Err(text), _) => TargetVerdict::Fault("验证扁平迁移目标类型失败: "@ + text@),
        (Ok(_), Err(text)) => TargetVerdict::Fault(
            "扁平迁移目标包含源中不存在的目录项: "@ + text@,
        ),
        (Ok(kind), Ok(origin)) => if kind.real_directory() && origin.real_directory() {
            TargetVerdict::Below
        } else if kind.real_file() && origin.real_file() {
            TargetVerdict::Nothing
        } else {
            TargetVerdict::Fault("扁平迁移目标中的目录项类型与源不一致"@)
        },
    }
}

/// Judges an entry of the outer directory by the types on both sides.
pub fn judge_flatten(kind: &Result<TypeFlags, String>, origin: &Result<TypeFlags, String>) -> (step:
    TargetStep)
    ensures
        match flatten_verdict(*kind, *origin) {
            TargetVerdict::Fault(text) => step matches TargetStep::Fault(found) && found@ == text,
            TargetVerdict::Below => step == TargetStep::Below,
            TargetVerdict::Nothing => step == TargetStep::Nothing,
        },
{
    match (kind, origin) {
        (Err(text), _) => TargetStep::Fault(cat2("验证扁平迁移目标类型失败: ", text.as_str())),
        (Ok(_), Err(text)) => TargetStep::Fault(
            cat2("扁平迁移目标包含源中不存在的目录项: ", text.as_str()),
        ),
        (Ok(kind), Ok(origin)) => {
            if kind.is_real_directory() && origin.is_real_directory() {
                TargetStep::Below
            } else if kind.is_real_file() && origin.is_real_file() {
                TargetStep::Nothing
            } else {
                TargetStep::Fault("扁平迁移目标中的目录项类型与源不一致".to_owned())
            }
        },
    }
}

pub open spec fn flatten_item_failures(
    rules: NameRules,
    wrapper: Seq<ComponentView>,
    source: Seq<char>,
    target: Seq<char>,
    item: FlattenItem,
) -> Seq<FailureView> {
    match item {
        FlattenItem::Unreadable(text) => seq![
            both(source, target, "验证扁平迁移目标目录项失败: "@ + text@),
        ],
        FlattenItem::Entry { path, source, target, kind, origin, below } => if is_wrapper(
            rules,
            wrapper,
            path@,
        ) {
            Seq::empty()
        } else {
            match flatten_verdict(kind, origin) {
                TargetVerdict::Fault(text) => seq![both(source@, target@, text)],
                TargetVerdict::Below => target_failures(target@, source@, below),
                TargetVerdict::Nothing => Seq::empty(),
            }
        },
    }
}

pub open spec fn flatten_items_failures(
    rules: NameRules,
    wrapper: Seq<ComponentView>,
    source: Seq<char>,
    target: Seq<char>,
    items: Seq<FlattenItem>,
) -> Seq<FailureView>
    decreases items.len(),
{
    if items.len() == 0 {
        Seq::empty()
    } else {
        flatten_items_failures(rules, wrapper, source, target, items.drop_last())
            + flatten_item_failures(rules, wrapper, source, target, items.last())
    }
}

/// The failures of a flattened copy.
pub open spec fn flatten_failures(
    rules: NameRules,
    wrapper: Seq<ComponentView>,
    source: Seq<char>,
    target: Seq<char>,
    forward: SourceScan,
    outer: FlattenScan,
) -> Seq<FailureView> {
    source_failures(source, target, forward) + match outer {
        FlattenScan::Failed(text) => seq![
            both(source, target, "验证扁平迁移目标目录失败: "@ + text@),
        ],
        FlattenScan::Listed(items) => flatten_items_failures(
            rules,
            wrapper,
            source,
            target,
            items@,
        ),
    }
}

/// Holds a nested backup root against the outer directory that it was copied
/// into. The nested root itself, at `wrapper`, is the one entry that may be
/// extra.
pub fn verify_nested_flatten_copy(
    rules: NameRules,
    wrapper: &Vec<PathComponent>,
    source: &str,
    target: &str,
    forward: &SourceScan,
    outer: &FlattenScan,
) -> (failures: Vec<SavedataBackupMigrationFailure>)
    ensures
        failure_views(failures@) == flatten_failures(
            rules,
            path_view(wrapper@),
            source@,
            target@,
            *forward,
            *outer,
        ),
{
    let mut failures: Vec<SavedataBackupMigrationFailure> = Vec::new();
    assert(failure_views(failures@) =~= Seq::<FailureView>::empty());
    verify_source_tree(source, target, forward, &mut failures);
    let ghost start = source_failures(source@, target@, *forward);
    assert(failure_views(failures@) =~= start);
    match outer {
        FlattenScan::Failed(text) => {
            note(
                &mut failures,
                fail_both(source, target, cat2("验证扁平迁移目标目录失败: ", text.as_str()).as_str()),
            );
            assert(failure_views(failures@) =~= flatten_failures(
                rules,
                path_view(wrapper@),
                source@,
                target@,
                *forward,
                *outer,
            ));
        },
        FlattenScan::Listed(items) => {
            let mut at: usize = 0;
            proof {
                assert(items@.take(0) =~= Seq::<FlattenItem>::empty());
                assert(start =~= start + flatten_items_failures(
                    rules,
                    path_view(wrapper@),
                    source@,
                    target@,
                    items@.take(0),
                ));
            }
            while at < items.len()
                invariant
                    at <= items@.len(),
                    failure_views(failures@) == start + flatten_items_failures(
                        rules,
                        path_view(wrapper@),
                        source@,
                        target@,
                        items@.take(at as int),
                    ),
                decreases items@.len() - at,
            {
                verify_flatten_item(rules, wrapper, source, target, &items[at], &mut failures);
                proof {
                    let next = items@.take(at + 1);
                    assert(next.drop_last() =~= items@.take(at as int));
                    assert(next.last() == items@[at as int]);
                    let done = flatten_items_failures(
                        rules,
                        path_view(wrapper@),
                        source@,
                        target@,
                        items@.take(at as int),
                    );
                    let more = flatten_item_failures(
                        rules,
                        path_view(wrapper@),
                        source@,
                        target@,
                        items@[at as int],
                    );
                    assert(start + (done + more) =~= start + done + more);
                }
                at += 1;
            }
            assert(items@.take(at as int) =~= items@);
        },
    }
    failures
}

fn verify_flatten_item(
    rules: NameRules,
    wrapper: &Vec<PathComponent>,
    source: &str,
    target: &str,
    item: &FlattenItem,
    failures: &mut Vec<SavedataBackupMigrationFailure>,
)
    ensures
        failure_views(final(failures)@) == failure_views(old(failures)@) + flatten_item_failures(
            rules,
            path_view(wrapper@),
            source@,
            target@,
            *item,
        ),
{
    let ghost start = failure_views(failures@);
    match item {
        FlattenItem::Unreadable(text) => {
            note(
                failures,
                fail_both(source, target, cat2("验证扁平迁移目标目录项失败: ", text.as_str()).as_str()),
            );
        },
        FlattenItem::Entry { path, source, target, kind, origin, below } => {
            if !wraps(rules, wrapper, path) {
                let from: &str = source.as_str();
                let to: &str = target.as_str();
                match judge_flatten(kind, origin) {
                    TargetStep::Fault(text) => {
                        note(failures, fail_both(from, to, text.as_str()));
                    },
                    TargetStep::Below => {
                        verify_target_tree(to, from, below, failures);
                    },
                    TargetStep::Nothing => {},
                }
            }
        },
    }
    assert(failure_views(failures@) =~= start + flatten_item_failures(
        rules,
        path_view(wrapper@),
        source@,
        target@,
        *item,
    ));
}

/// An entry of the outer directory is the nested root, or the copy of one of
/// its entries.
pub open spec fn flatten_item_known(
    rules: NameRules,
    wrapper: Seq<ComponentView>,
    item: FlattenItem,
) -> bool {
    match item {
        FlattenItem::Unreadable(_) => false,
        FlattenItem::Entry { path, source, target, kind, origin, below } => is_wrapper(
            rules,
            wrapper,
            path@,
        ) || (kind matches Ok(kind) && origin matches Ok(origin) && ((kind.real_directory()
            && origin.real_directory() && nothing_extra(below)) || (kind.real_file()
            && origin.real_file() && !(kind.real_directory() && origin.real_directory())))),
    }
}

proof fn flatten_items_exact(
    rules: NameRules,
    wrapper: Seq<ComponentView>,
    source: Seq<char>,
    target: Seq<char>,
    items: Seq<FlattenItem>,
)
    ensures
        flatten_items_failures(rules, wrapper, source, target, items).len() == 0 <==> forall|i: int|
            0 <= i < items.len() ==> flatten_item_known(rules, wrapper, #[trigger] items[i]),
    decreases items.len(),
{
    if items.len() > 0 {
        let earlier = items.drop_last();
        flatten_items_exact(rules, wrapper, source, target, earlier);
        if let FlattenItem::Entry { path, source, target, kind, origin, below } = items.last() {
            target_check_is_exact(target@, source@, below);
        }
        assert(forall|i: int| 0 <= i < earlier.len() ==> #[trigger] earlier[i] == items[i]);
        if forall|i: int|
            0 <= i < items.len() ==> flatten_item_known(rules, wrapper, #[trigger] items[i]) {
            assert forall|i: int| 0 <= i < earlier.len() implies flatten_item_known(
                rules,
                wrapper,
                #[trigger] earlier[i],
            ) by {
                assert(flatten_item_known(rules, wrapper, items[i]));
            }
            assert(flatten_item_known(rules, wrapper, items[items.len() - 1]));
        }
        if (forall|i: int|
            0 <= i < earlier.len() ==> flatten_item_known(rules, wrapper, #[trigger] earlier[i]))
            && flatten_item_known(rules, wrapper, items.last()) {
            assert forall|i: int| 0 <= i < items.len() implies flatten_item_known(
                rules,
                wrapper,
                #[trigger] items[i],
            ) by {
                if i < earlier.len() {
                    assert(flatten_item_known(rules, wrapper, earlier[i]));
                }
            }
        }
    }
}

/// The outer directory reproduces the nested root and holds nothing else but
/// the root itself.
pub open spec fn flattened(
    rules: NameRules,
    wrapper: Seq<ComponentView>,
    forward: SourceScan,
    outer: FlattenScan,
) -> bool {
    &&& reproduced(forward)
    &&& outer matches FlattenScan::Listed(items) && forall|i: int|
        0 <= i < items@.len() ==> flatten_item_known(rules, wrapper, #[trigger] items@[i])
}

/// The check of a flattened copy is silent exactly if the outer directory
/// reproduces the nested root and holds nothing else but the root itself.
pub proof fn flatten_check_is_exact(
    rules: NameRules,
    wrapper: Seq<ComponentView>,
    source: Seq<char>,
    target: Seq<char>,
    forward: SourceScan,
    outer: FlattenScan,
)
    ensures
        flatten_failures(rules, wrapper, source, target, forward, outer).len() == 0 <==> flattened(
            rules,
            wrapper,
            forward,
            outer,
        ),
{
    source_check_is_exact(source, target, forward);
    if let FlattenScan::Listed(items) = outer {
        flatten_items_exact(rules, wrapper, source, target, items@);
    }
}

/// What a pair of chunks says of two files that agreed so far.
pub open spec fn chunks_decide(source: Seq<u8>, target: Seq<u8>) -> Option<bool> {
    if source != target {
        Some(false)
    } else if source.len() == 0 {
        Some(true)
    } else {
        None
    }
}

/// Compares one chunk of two files, read in step: a decision once they
/// differ or both end, nothing while they agree.
pub fn compare_chunks(source: &[u8], target: &[u8]) -> (decided: Option<bool>)
    ensures
        decided == chunks_decide(source@, target@),
{
    if source.len() != target.len() {
        return Some(false);
    }
    if source.len() == 0 {
        assert(source@ =~= target@);
        return Some(true);
    }
    let mut at: usize = 0;
    while at < source.len()
        invariant
            at <= source@.len(),
            source@.len() == target@.len(),
            forall|i: int| 0 <= i < at ==> source@[i] == target@[i],
        decreases source@.len() - at,
    {
        if source[at] != target[at] {
            return Some(false);
        }
        at += 1;
    }
    assert(source@ =~= target@);
    None
}

/// One entry of a directory that is being copied. The host finds the pair of
/// paths again by `id`.
#[derive(Debug)]
pub struct CopyEntry {
    pub id: u64,
    pub source: String,
    pub target: String,
    pub kind: CopyKind,
}

/// What an entry is.
#[derive(Debug)]
pub enum CopyKind {
    /// The entry could not be read; the paths are those of the directory.
    Unreadable(String),
    /// The type could not be read.
    Unknown(String),
    /// The type, links not followed.
    Typed(TypeFlags),
}

/// What the host does next.
#[derive(Clone, Copy, Debug, PartialEq, Eq, Structural)]
pub enum CopyAction {
    /// Create the target directory of the pair.
    MakeDirectory(u64),
    /// List the source directory of the pair.
    List(u64),
    /// Copy the source file of the pair.
    CopyFile(u64),
    Done,
}

/// A tree copy under way. `pending` holds what is left, the next entry last.
pub struct TreeCopy {
    pub pending: Vec<CopyEntry>,
    /// The entry that the last action is about.
    pub current: Option<CopyEntry>,
    pub failures: Vec<SavedataBackupMigrationFailure>,
}

/// The failure of an entry that is neither a directory nor a file.
pub open spec fn refused(entry: CopyEntry) -> Option<FailureView> {
    match entry.kind {
        CopyKind::Unreadable(text) => Some(
            both(entry.source@, entry.target@, "读取源目录项失败: "@ + text@),
        ),
        CopyKind::Unknown(text) => Some(
            both(entry.source@, entry.target@, "读取文件类型失败: "@ + text@),
        ),
        CopyKind::Typed(flags) => match flags.kind() {
            EntryType::Symlink => Some(
                both(entry.source@, entry.target@, "备份目录中不允许包含符号链接"@),
            ),
            EntryType::Other => Some(both(entry.source@, entry.target@, "不支持的文件类型"@)),
            _ => None,
        },
    }
}

/// The type of a directory.
pub open spec fn directory_flags() -> TypeFlags {
    TypeFlags { is_symlink: false, is_dir: true, is_file: false }
}

/// How many entries at the end of the list are refused in a row.
pub open spec fn refused_run(pending: Seq<CopyEntry>) -> nat
    decreases pending.len(),
{
    if pending.len() == 0 || refused(pending.last()) is None {
        0
    } else {
        1 + refused_run(pending.drop_last())
    }
}

/// The failures of that run, in the order in which they are met.
pub open spec fn refused_failures(pending: Seq<CopyEntry>) -> Seq<FailureView>
    decreases pending.len(),
{
    if pending.len() == 0 || refused(pending.last()) is None {
        Seq::empty()
    } else {
        seq![refused(pending.last())->Some_0] + refused_failures(pending.drop_last())
    }
}

proof fn refused_run_bound(pending: Seq<CopyEntry>)
    ensures
        refused_run(pending) <= pending.len(),
        refused_run(pending) < pending.len() ==> refused(
            pending[pending.len() - refused_run(pending) - 1],
        ) is None,
    decreases pending.len(),
{
    if pending.len() > 0 && refused(pending.last()) is Some {
        refused_run_bound(pending.drop_last());
    }
}

/// No entry is passed over in silence: each refused one is a failure.
pub proof fn refused_entries_are_reported(pending: Seq<CopyEntry>)
    ensures
        refused_failures(pending).len() == refused_run(pending),
    decreases pending.len(),
{
    if pending.len() > 0 && refused(pending.last()) is Some {
        refused_entries_are_reported(pending.drop_last());
    }
}

impl TreeCopy {
    /// A copy of the directory pair `id`.
    pub fn new(id: u64, source: String, target: String) -> (copy: TreeCopy)
        ensures
            copy.pending@ == seq![
                CopyEntry { id, source, target, kind: CopyKind::Typed(directory_flags()) },
            ],
            copy.current is None,
            failure_views(copy.failures@) == Seq::<FailureView>::empty(),
    {
        let mut pending: Vec<CopyEntry> = Vec::new();
        let flags: TypeFlags = TypeFlags { is_symlink: false, is_dir: true, is_file: false };
        pending.push(CopyEntry { id, source, target, kind: CopyKind::Typed(flags) });
        let copy: TreeCopy = TreeCopy { pending, current: None, failures: Vec::new() };
        assert(copy.pending@ =~= seq![
            CopyEntry { id, source, target, kind: CopyKind::Typed(directory_flags()) },
        ]);
        assert(failure_views(copy.failures@) =~= Seq::<FailureView>::empty());
        copy
    }

    /// Takes the next entry: refused ones are noted, the first other one
    /// gives the action.
    pub fn next_action(&mut self) -> (action: CopyAction)
        ensures
            failure_views(final(self).failures@) == failure_views(old(self).failures@)
                + refused_failures(old(self).pending@),
            ({
                let waiting = old(self).pending@;
                let run = refused_run(waiting);
                if run >= waiting.len() {
                    &&& action == CopyAction::Done
                    &&& final(self).pending@.len() == 0
                    &&& final(self).current is None
                } else {
                    let at = waiting.len() - run - 1;
                    &&& final(self).pending@ == waiting.take(at)
                    &&& final(self).current == Some(waiting[at])
                    &&& action == if waiting[at].kind matches CopyKind::Typed(flags)
                        && flags.real_directory() {
                        CopyAction::MakeDirectory(waiting[at].id)
                    } else {
                        CopyAction::CopyFile(waiting[at].id)
                    }
                }
            }),
    {
        let ghost waiting = self.pending@;
        let ghost start = failure_views(self.failures@);
        proof {
            refused_run_bound(waiting);
            assert(waiting.take(waiting.len() as int) =~= waiting);
            assert(start + refused_failures(waiting) =~= failure_views(self.failures@)
                + refused_failures(self.pending@));
        }
        loop
            invariant
                waiting == old(self).pending@,
                start == failure_views(old(self).failures@),
                self.pending@.len() <= waiting.len(),
                self.pending@ == waiting.take(self.pending@.len() as int),
                refused_run(waiting) == waiting.len() - self.pending@.len() + refused_run(
                    self.pending@,
                ),
                start + refused_failures(waiting) == failure_views(self.failures@)
                    + refused_failures(self.pending@),
                refused_run(waiting) <= waiting.len(),
            decreases self.pending@.len(),
        {
            let ghost left = self.pending@;
            proof {
                refused_run_bound(left);
            }
            match self.pending.pop() {
                None => {
                    self.current = None;
                    assert(failure_views(self.failures@) + refused_failures(left)
                        =~= failure_views(self.failures@));
                    return CopyAction::Done;
                },
                Some(entry) => {
                    let ghost met = left.last();
                    assert(self.pending@ =~= left.drop_last());
                    assert(left.drop_last() =~= waiting.take(left.len() - 1));
                    assert(met == waiting[left.len() - 1]);
                    let message: String = match &entry.kind {
                        CopyKind::Unreadable(text) => cat2("读取源目录项失败: ", text.as_str()),
                        CopyKind::Unknown(text) => cat2("读取文件类型失败: ", text.as_str()),
                        CopyKind::Typed(flags) => match flags.entry_type() {
                            EntryType::Directory => {
                                let id: u64 = entry.id;
                                self.current = Some(entry);
                                assert(failure_views(self.failures@) + refused_failures(left)
                                    =~= failure_views(self.failures@));
                                return CopyAction::MakeDirectory(id);
                            },
                            EntryType::File => {
                                let id: u64 = entry.id;
                                self.current = Some(entry);
                                assert(failure_views(self.failures@) + refused_failures(left)
                                    =~= failure_views(self.failures@));
                                return CopyAction::CopyFile(id);
                            },
                            EntryType::Symlink => "备份目录中不允许包含符号链接".to_owned(),
                            EntryType::Other => "不支持的文件类型".to_owned(),
                        },
                    };
                    let ghost noted = failure_views(self.failures@);
                    note(
                        &mut self.failures,
                        fail_both(entry.source.as_str(), entry.target.as_str(), message.as_str()),
                    );
                    proof {
                        let view = refused(met)->Some_0;
                        let rest = refused_failures(left.drop_last());
                        assert(noted + (seq![view] + rest) =~= noted.push(view) + rest);
                    }
                },
            }
        }
    }

    /// The target directory was created, or not; without it the directory is
    /// left out.
    pub fn on_made(&mut self, result: Result<(), String>) -> (action: Option<CopyAction>)
        requires
            old(self).current is Some,
        ensures
            final(self).pending@ == old(self).pending@,
            ({
                let entry = old(self).current->Some_0;
                match result {
                    Ok(_) => {
                        &&& action == Some(CopyAction::List(entry.id))
                        &&& final(self).current == old(self).current
                        &&& final(self).failures == old(self).failures
                    },
                    Err(text) => {
                        &&& action is None
                        &&& final(self).current is None
                        &&& failure_views(final(self).failures@) == failure_views(
                            old(self).failures@,
                        ).push(both(entry.source@, entry.target@, "创建目标目录失败: "@ + text@))
                    },
                }
            }),
    {
        match result {
            Ok(_) => match &self.current {
                Some(entry) => Some(CopyAction::List(entry.id)),
                None => None,
            },
            Err(text) => {
                if let Some(entry) = self.current.take() {
                    let message: String = cat2("创建目标目录失败: ", text.as_str());
                    note(
                        &mut self.failures,
                        fail_both(entry.source.as_str(), entry.target.as_str(), message.as_str()),
                    );
                }
                None
            },
        }
    }

    /// The source directory was listed, or not; its entries come next, in the
    /// order of the list.
    pub fn on_listed(&mut self, result: Result<Vec<CopyEntry>, String>)
        requires
            old(self).current is Some,
        ensures
            final(self).current is None,
            ({
                let entry = old(self).current->Some_0;
                match result {
                    Ok(entries) => {
                        &&& final(self).pending@ == old(self).pending@ + entries@.reverse()
                        &&& final(self).failures == old(self).failures
                    },
                    Err(text) => {
                        &&& final(self).pending@ == old(self).pending@
                        &&& failure_views(final(self).failures@) == failure_views(
                            old(self).failures@,
                        ).push(both(entry.source@, entry.target@, "读取源目录失败: "@ + text@))
                    },
                }
            }),
    {
        let finished: Option<CopyEntry> = self.current.take();
        match result {
            Ok(entries) => {
                let mut entries: Vec<CopyEntry> = entries;
                let ghost all = entries@;
                let ghost before = self.pending@;
                while entries.len() > 0
                    invariant
                        entries@.len() <= all.len(),
                        entries@ == all.take(entries@.len() as int),
                        self.pending@ == before + all.skip(entries@.len() as int).reverse(),
                        self.current is None,
                        self.failures == old(self).failures,
                    decreases entries@.len(),
                {
                    let ghost left = entries@;
                    if let Some(entry) = entries.pop() {
                        self.pending.push(entry);
                        proof {
                            let n = left.len() as int;
                            assert(entries@ =~= all.take(n - 1));
                            assert(all.skip(n - 1).reverse() =~= all.skip(n).reverse().push(
                                all[n - 1],
                            ));
                            assert(self.pending@ =~= before + all.skip(n - 1).reverse());
                        }
                    }
                }
                assert(all.skip(0) =~= all);
            },
            Err(text) => {
                if let Some(entry) = finished {
                    let message: String = cat2("读取源目录失败: ", text.as_str());
                    note(
                        &mut self.failures,
                        fail_both(entry.source.as_str(), entry.target.as_str(), message.as_str()),
                    );
                }
            },
        }
    }

    /// The file was copied, or not.
    pub fn on_copied(&mut self, result: Result<(), String>)
        requires
            old(self).current is Some,
        ensures
            final(self).current is None,
            final(self).pending@ == old(self).pending@,
            ({
                let entry = old(self).current->Some_0;
                match result {
                    Ok(_) => final(self).failures == old(self).failures,
                    Err(text) => failure_views(final(self).failures@) == failure_views(
                        old(self).failures@,
                    ).push(both(entry.source@, entry.target@, "复制文件失败: "@ + text@)),
                }
            }),
    {
        let finished: Option<CopyEntry> = self.current.take();
        if let Err(text) = result {
            if let Some(entry) = finished {
                let message: String = cat2("复制文件失败: ", text.as_str());
                note(
                    &mut self.failures,
                    fail_both(entry.source.as_str(), entry.target.as_str(), message.as_str()),
                );
            }
        }
    }
}

/// Two files are equal exactly if both lengths and the comparison say so.
pub proof fn equal_files_are_equal_throughout(look: ContentsLook)
    ensures
        contents_equal(look) == Ok::<bool, Seq<char>>(true) <==> look.source_len is Ok
            && look.target_len is Ok && look.source_len->Ok_0 == look.target_len->Ok_0 && look.equal
            == Ok::<bool, String>(true),
        look.source_len is Ok && look.target_len is Ok && look.source_len->Ok_0
            != look.target_len->Ok_0 ==> contents_equal(look) == Ok::<bool, Seq<char>>(false),
        look.source_len is Err || look.target_len is Err ==> contents_equal(look) is Err,
{
}

/// What both sides of an entry of the source have to be: a directory is gone
/// through exactly if both are real directories, a file is compared exactly if
/// both are real files, and only what is neither is passed over.
pub proof fn sources_have_counterparts(
    kind: Result<TypeFlags, String>,
    copy: Result<TypeFlags, String>,
)
    ensures
        source_verdict(kind, copy) is Below <==> kind is Ok && copy is Ok && kind->Ok_0.is_dir
            && !kind->Ok_0.is_symlink && copy->Ok_0.is_dir && !copy->Ok_0.is_symlink,
        source_verdict(kind, copy) is Contents <==> kind is Ok && copy is Ok && kind->Ok_0.is_file
            && !kind->Ok_0.is_dir && !kind->Ok_0.is_symlink && copy->Ok_0.is_file
            && !copy->Ok_0.is_symlink,
        source_verdict(kind, copy) is Nothing <==> kind is Ok && !kind->Ok_0.is_symlink
            && !kind->Ok_0.is_dir && !kind->Ok_0.is_file,
{
}

/// An entry of the copy is a fault if its type is unknown or a link, or if the
/// source lacks the file or directory; a directory that the source has is gone
/// through.
pub proof fn copies_have_origins(kind: Result<TypeFlags, String>, origin: Metadata)
    ensures
        target_verdict(kind, origin) is Fault <==> kind is Err || kind->Ok_0.is_symlink || ((
        kind->Ok_0.is_dir || kind->Ok_0.is_file) && origin is Missing),
        target_verdict(kind, origin) is Below <==> kind is Ok && kind->Ok_0.is_dir
            && !kind->Ok_0.is_symlink && origin is Found,
{
}

/// In a flattened copy both sides are real directories or both real files;
/// anything else is a fault.
pub proof fn flattened_entries_match(
    kind: Result<TypeFlags, String>,
    origin: Result<TypeFlags, String>,
)
    ensures
        flatten_verdict(kind, origin) is Below <==> kind is Ok && origin is Ok && kind->Ok_0.is_dir
            && !kind->Ok_0.is_symlink && origin->Ok_0.is_dir && !origin->Ok_0.is_symlink,
        flatten_verdict(kind, origin) is Nothing ==> kind is Ok && origin is Ok
            && kind->Ok_0.is_file && !kind->Ok_0.is_symlink && origin->Ok_0.is_file
            && !origin->Ok_0.is_symlink,
        kind is Ok && origin is Ok && kind->Ok_0.is_file && !kind->Ok_0.is_symlink
            && origin->Ok_0.is_file && !origin->Ok_0.is_symlink ==> !(flatten_verdict(
            kind,
            origin,
        ) is Fault),
{
}

/// A check of a listed directory is silent exactly if it is silent about each
/// entry, and never about one that could not be listed.
pub proof fn checks_look_at_every_entry(
    source: Seq<char>,
    target: Seq<char>,
    items: Vec<SourceItem>,
    text: String,
)
    ensures
        source_failures(source, target, SourceScan::Failed(text)).len() == 1,
        source_failures(source, target, SourceScan::Listed(items)).len() == 0 <==> forall|i: int|
            0 <= i < items@.len() ==> source_item_failures(
                source,
                target,
                #[trigger] items@[i],
            ).len() == 0,
{
    every_source_entry(source, target, items, items@.len());
    let all = source_failures(source, target, SourceScan::Listed(items));
    assert(all == source_items_failures(source, target, items, items@.len()));
}

proof fn every_source_entry(
    source: Seq<char>,
    target: Seq<char>,
    items: Vec<SourceItem>,
    count: nat,
)
    requires
        count <= items@.len(),
    ensures
        source_items_failures(source, target, items, count).len() == 0 <==> forall|i: int|
            0 <= i < count ==> source_item_failures(source, target, #[trigger] items@[i]).len()
                == 0,
    decreases count,
{
    let all = source_items_failures(source, target, items, count);
    if count > 0 {
        every_source_entry(source, target, items, (count - 1) as nat);
        let last = source_item_failures(source, target, items@[count - 1]);
        let rest = source_items_failures(source, target, items, (count - 1) as nat);
        assert(all == rest + last);
        assert(all.len() == rest.len() + last.len());
    }
}

/// The same of a check of the copy.
pub proof fn checks_look_at_every_copied_entry(
    target: Seq<char>,
    source: Seq<char>,
    items: Vec<TargetItem>,
    text: String,
)
    ensures
        target_failures(target, source, TargetScan::Failed(text)).len() == 1,
        target_failures(target, source, TargetScan::Listed(items)).len() == 0 <==> forall|i: int|
            0 <= i < items@.len() ==> target_item_failures(
                target,
                source,
                #[trigger] items@[i],
            ).len() == 0,
{
    every_target_entry(target, source, items, items@.len());
    let all = target_failures(target, source, TargetScan::Listed(items));
    assert(all == target_items_failures(target, source, items, items@.len()));
}

proof fn every_target_entry(
    target: Seq<char>,
    source: Seq<char>,
    items: Vec<TargetItem>,
    count: nat,
)
    requires
        count <= items@.len(),
    ensures
        target_items_failures(target, source, items, count).len() == 0 <==> forall|i: int|
            0 <= i < count ==> target_item_failures(target, source, #[trigger] items@[i]).len()
                == 0,
    decreases count,
{
    let all = target_items_failures(target, source, items, count);
    if count > 0 {
        every_target_entry(target, source, items, (count - 1) as nat);
        let last = target_item_failures(target, source, items@[count - 1]);
        let rest = target_items_failures(target, source, items, (count - 1) as nat);
        assert(all == rest + last);
        assert(all.len() == rest.len() + last.len());
    }
}

/// The check is silent about a file exactly if the copy is a real file with
/// the same bytes, about a directory exactly if the copy is a real directory
/// and everything below agrees, and never about a link or what could not be
/// read.
pub proof fn entries_are_reproduced_or_reported(
    source: Seq<char>,
    target: Seq<char>,
    item: SourceItem,
)
    ensures
        item is Unreadable ==> source_item_failures(source, target, item).len() == 1,
        item matches SourceItem::Entry { source: from, target: to, kind, copy, contents, below }
            ==> {
            let found = source_item_failures(source, target, item);
            &&& kind is Err ==> found.len() == 1
            &&& kind is Ok && kind->Ok_0.is_symlink ==> found.len() == 1
            &&& kind is Ok && !kind->Ok_0.is_symlink && !kind->Ok_0.is_dir && kind->Ok_0.is_file
                ==> (found.len() == 0 <==> copy is Ok && copy->Ok_0.is_file
                && !copy->Ok_0.is_symlink && contents.source_len is Ok && contents.target_len is Ok
                && contents.source_len->Ok_0 == contents.target_len->Ok_0 && contents.equal == Ok::<
                bool,
                String,
            >(true))
            &&& kind is Ok && !kind->Ok_0.is_symlink && kind->Ok_0.is_dir ==> (found.len() == 0
                <==> copy is Ok && copy->Ok_0.is_dir && !copy->Ok_0.is_symlink && source_failures(
                from@,
                to@,
                below,
            ).len() == 0)
        },
{
    let found = source_item_failures(source, target, item);
    match item {
        SourceItem::Unreadable(_) => {},
        SourceItem::Entry { source: from, target: to, kind, copy, contents, below } => {
            sources_have_counterparts(kind, copy);
            equal_files_are_equal_throughout(contents);
            let verdict = source_verdict(kind, copy);
            assert(verdict is Fault ==> found.len() == 1);
            assert(verdict is Below ==> found == source_failures(from@, to@, below));
        },
    }
}

/// The check of the copy is silent about an entry exactly if it is a known
/// type, no link, and the source is not known to lack it; what lies below a
/// directory that the source has is looked at too.
pub proof fn copies_hold_nothing_unknown(
    target: Seq<char>,
    source: Seq<char>,
    item: TargetItem,
)
    ensures
        item is Unreadable ==> target_item_failures(target, source, item).len() == 1,
        item matches TargetItem::Entry { source: from, target: to, kind, origin, below } ==> {
            let found = target_item_failures(target, source, item);
            &&& kind is Err || kind->Ok_0.is_symlink ==> found.len() == 1
            &&& kind is Ok && !kind->Ok_0.is_symlink && (kind->Ok_0.is_dir || kind->Ok_0.is_file)
                && origin is Missing ==> found.len() == 1
            &&& kind is Ok && !kind->Ok_0.is_symlink && kind->Ok_0.is_dir && origin is Found
                ==> found == target_failures(to@, from@, below)
            &&& kind is Ok && !kind->Ok_0.is_symlink && !kind->Ok_0.is_dir && !(origin is Missing)
                ==> found.len() == 0
        },
{
    let found = target_item_failures(target, source, item);
    match item {
        TargetItem::Unreadable(_) => {},
        TargetItem::Entry { source: from, target: to, kind, origin, below } => {
            copies_have_origins(kind, origin);
            let verdict = target_verdict(kind, origin);
            assert(verdict is Fault ==> found.len() == 1);
            assert(verdict is Below ==> found == target_failures(to@, from@, below));
            assert(verdict is Nothing ==> found.len() == 0);
        },
    }
}

/// A copy refuses exactly what is neither a directory nor a file, and links;
/// the failure names both paths of the entry.
pub proof fn copies_refuse_links_and_devices(entry: CopyEntry)
    ensures
        refused(entry) is None <==> (entry.kind matches CopyKind::Typed(flags) && !flags.is_symlink
            && (flags.is_dir || flags.is_file)),
        refused(entry) matches Some(failure) ==> failure == both(
            entry.source@,
            entry.target@,
            failure.message,
        ),
{
}

/// Entries are taken from the end of the list; the run of refused ones there
/// is as long as can be, and each is reported, the last first.
pub proof fn refused_entries_are_passed_over(pending: Seq<CopyEntry>, at: int)
    ensures
        refused_run(pending) <= pending.len(),
        pending.len() - refused_run(pending) <= at < pending.len() ==> refused(pending[at]) is Some
            && refused_failures(pending).len() == refused_run(pending) && refused_failures(
            pending,
        )[pending.len() - 1 - at] == refused(pending[at])->Some_0,
        refused_run(pending) < pending.len() ==> refused(
            pending[pending.len() - refused_run(pending) - 1],
        ) is None,
    decreases pending.len(),
{
    refused_run_bound(pending);
    refused_entries_are_reported(pending);
    if pending.len() > 0 && refused(pending.last()) is Some {
        let front = pending.drop_last();
        refused_entries_are_passed_over(front, at);
        if pending.len() - refused_run(pending) <= at < pending.len() - 1 {
            assert(front[at] == pending[at]);
        }
    }
}

/// Chunks settle the comparison at the first difference or at a common end,
/// and not before.
pub proof fn chunks_decide_at_difference_or_end(source: Seq<u8>, target: Seq<u8>)
    ensures
        chunks_decide(source, target) == Some(true) <==> source.len() == 0 && target.len() == 0,
        chunks_decide(source, target) is None <==> source.len() > 0 && source.len() == target.len()
            && forall|i: int| 0 <= i < source.len() ==> #[trigger] source[i] == target[i],
        source.len() != target.len() ==> chunks_decide(source, target) == Some(false),
        (exists|i: int|
            0 <= i < source.len() && i < target.len() && #[trigger] source[i] != target[i])
            ==> chunks_decide(source, target) == Some(false),
{
    if source.len() == target.len() && forall|i: int|
        0 <= i < source.len() ==> #[trigger] source[i] == target[i] {
        assert(source =~= target);
    }
    if source.len() == 0 && target.len() == 0 {
        assert(source =~= target);
    }
}

/// The nested root is the one entry of the outer directory that may be extra;
/// every other one needs a counterpart in it.
pub proof fn only_the_nested_root_is_extra(
    rules: NameRules,
    wrapper: Seq<ComponentView>,
    source: Seq<char>,
    target: Seq<char>,
    item: FlattenItem,
)
    ensures
        item is Unreadable ==> flatten_item_failures(rules, wrapper, source, target, item).len()
            == 1,
        item matches FlattenItem::Entry { path, source: from, target: to, kind, origin, below } ==> {
            let found = flatten_item_failures(rules, wrapper, source, target, item);
            let extra = same_paths(rules, normalized(path_view(path@)), wrapper);
            &&& extra ==> found.len() == 0
            &&& !extra && (kind is Err || origin is Err) ==> found.len() == 1
            &&& !extra && kind is Ok && origin is Ok && (kind->Ok_0.is_symlink
                || origin->Ok_0.is_symlink) ==> found.len() == 1
            &&& !extra && kind is Ok && origin is Ok && !kind->Ok_0.is_symlink
                && !origin->Ok_0.is_symlink && kind->Ok_0.is_dir && origin->Ok_0.is_dir ==> found
                == target_failures(to@, from@, below)
            &&& !extra && kind is Ok && origin is Ok && kind->Ok_0.is_dir != origin->Ok_0.is_dir
                && kind->Ok_0.is_file != origin->Ok_0.is_file && kind->Ok_0.is_dir
                != kind->Ok_0.is_file ==> found.len() == 1
        },
{
}

/// A check of a flattened copy looks at every entry.
pub proof fn flatten_checks_look_at_every_entry(
    rules: NameRules,
    wrapper: Seq<ComponentView>,
    source: Seq<char>,
    target: Seq<char>,
    items: Seq<FlattenItem>,
    item: FlattenItem,
)
    ensures
        flatten_items_failures(rules, wrapper, source, target, items.push(item))
            == flatten_items_failures(rules, wrapper, source, target, items)
            + flatten_item_failures(rules, wrapper, source, target, item),
        flatten_items_failures(rules, wrapper, source, target, Seq::empty()).len() == 0,
{
    assert(items.push(item).drop_last() =~= items);
}

} // verus!
