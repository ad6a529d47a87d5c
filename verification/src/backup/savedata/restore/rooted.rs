//! Where a backup with a single root is restored to, and what may have been
//! unpacked from it.

use vstd::prelude::*;

use super::common::{
    accepted_trees_are_plain, all_plain, ensure_safe_existing_object, extracted_fault, object_kind,
    plain, validate_extracted_tree,
    ExtractedNode, ObjectSeen, RestorePlan,
};
use crate::backup::savedata::archive::create::SourceLook;
use crate::backup::savedata::archive::inspect::{ArchiveSaveInfo, SaveEntryKind};
use crate::backup::savedata::paths::NameRules;
use crate::host::Presence;
use crate::text::chars::{same, same_ignoring_case, upper};
use crate::text::concat::cat2;

verus! {

/// Whether two names of save data are the same on the platform.
pub open spec fn same_name(rules: NameRules, current: Seq<char>, archived: Seq<char>) -> bool {
    match rules {
        NameRules::Exact => current == archived,
        NameRules::IgnoreCase => upper(current) == upper(archived),
    }
}

/// Compares the configured name with the one in the backup.
pub fn save_name_eq(rules: NameRules, current: &str, archived: &str) -> (same_names: bool)
    ensures
        same_names == same_name(rules, current@, archived@),
{
    match rules {
        NameRules::Exact => same(current, archived),
        NameRules::IgnoreCase => same_ignoring_case(current, archived),
    }
}

/// The configured place, and the place with the original name beside it.
#[derive(Debug)]
pub struct TargetLook {
    /// The configured path as shown to users.
    pub path: String,
    /// Its last component, if it is text.
    pub name: Option<String>,
    pub has_parent: bool,
    pub seen: ObjectSeen,
    /// The sibling with the name in the backup, as shown to users.
    pub alternate: String,
    pub alternate_seen: Presence,
}

/// What stands at a path, if it is safe.
pub open spec fn existing_kind(seen: ObjectSeen, path: Seq<char>) -> Result<
    Option<SaveEntryKind>,
    Seq<char>,
> {
    match seen {
        ObjectSeen::Missing(_) => Ok(None),
        ObjectSeen::Failed(text) => Err("读取当前存档路径失败: "@ + text@),
        ObjectSeen::Found(_) => match object_kind(seen, path) {
            Ok(kind) => Ok(Some(kind)),
            Err(text) => Err(text),
        },
    }
}

/// What stands at the configured path.
pub fn look_at_existing(seen: &ObjectSeen, path: &str) -> (result: Result<
    Option<SaveEntryKind>,
    String,
>)
    ensures
        match existing_kind(*seen, path@) {
            Ok(kind) => result == Ok::<Option<SaveEntryKind>, String>(kind),
            Err(text) => result matches Err(found) && found@ == text,
        },
{
    match seen {
        ObjectSeen::Missing(_) => Ok(None),
        ObjectSeen::Failed(text) => Err(cat2("读取当前存档路径失败: ", text.as_str())),
        ObjectSeen::Found(_) => match ensure_safe_existing_object(seen, path) {
            Ok(kind) => Ok(Some(kind)),
            Err(text) => Err(text),
        },
    }
}

/// The plan as plain values: place, whether something is replaced, whether
/// the place is the alternate one.
pub open spec fn plan_verdict(rules: NameRules, info: ArchiveSaveInfo, look: TargetLook) -> Result<
    (Seq<char>, bool, bool),
    Seq<char>,
> {
    match look.name {
        None => Err("当前存档路径没有有效名称"@),
        Some(name) => match existing_kind(look.seen, look.path@) {
            Err(text) => Err(text),
            Ok(existing) => if existing matches Some(kind) && kind != info.root_kind {
                Err("当前存档与备份类型不一致，拒绝恢复"@)
            } else if !look.has_parent {
                Err("当前存档路径没有父目录"@)
            } else if same_name(rules, name@, info.root_name@) {
                Ok((look.path@, existing is Some, false))
            } else {
                match look.alternate_seen {
                    Presence::Present => Err(
                        "备份原名目标已存在，拒绝覆盖未知存档: "@ + look.alternate@,
                    ),
                    Presence::Absent => Ok((look.alternate@, false, true)),
                    Presence::Failed(failure) => Err(
                        "检查备份原名目标失败: "@ + failure.text@,
                    ),
                }
            },
        },
    }
}

/// `result` is the plan for a backup, or why there is none.
pub open spec fn planned(
    rules: NameRules,
    info: ArchiveSaveInfo,
    look: TargetLook,
    result: Result<RestorePlan, String>,
) -> bool {
    match plan_verdict(rules, info, look) {
        Ok((path, replaces, alternate)) => result matches Ok(plan) && plan.final_path@ == path
            && plan.replace_existing == replaces && plan.restored_to_alternate == alternate,
        Err(text) => result matches Err(found) && found@ == text,
    }
}

/// Decides where a backup goes: to the configured place if the names agree,
/// else beside it under its original name, where nothing may exist.
pub fn plan_restore(rules: NameRules, info: &ArchiveSaveInfo, look: &TargetLook) -> (result: Result<
    RestorePlan,
    String,
>)
    ensures
        planned(rules, *info, *look, result),
{
    let name: &String = match &look.name {
        Some(name) => name,
        None => {
            return Err("当前存档路径没有有效名称".to_owned());
        },
    };
    let existing: Option<SaveEntryKind> = match look_at_existing(&look.seen, look.path.as_str()) {
        Ok(existing) => existing,
        Err(text) => {
            return Err(text);
        },
    };
    if let Some(kind) = existing {
        if kind != info.root_kind {
            return Err("当前存档与备份类型不一致，拒绝恢复".to_owned());
        }
    }
    if !look.has_parent {
        return Err("当前存档路径没有父目录".to_owned());
    }
    if save_name_eq(rules, name.as_str(), info.root_name.as_str()) {
        return Ok(
            RestorePlan {
                final_path: look.path.clone(),
                replace_existing: existing.is_some(),
                restored_to_alternate: false,
            },
        );
    }
    match &look.alternate_seen {
        Presence::Present => Err(
            cat2("备份原名目标已存在，拒绝覆盖未知存档: ", look.alternate.as_str()),
        ),
        Presence::Absent => Ok(
            RestorePlan {
                final_path: look.alternate.clone(),
                replace_existing: false,
                restored_to_alternate: true,
            },
        ),
        Presence::Failed(failure) => Err(
            cat2("检查备份原名目标失败: ", failure.text.as_str()),
        ),
    }
}

/// A plan replaces something only at the configured place, under the same
/// name, and only something of the same kind.
pub proof fn plans_replace_only_the_same_save(
    rules: NameRules,
    info: ArchiveSaveInfo,
    look: TargetLook,
)
    requires
        plan_verdict(rules, info, look) is Ok,
        plan_verdict(rules, info, look)->Ok_0.1,
    ensures
        plan_verdict(rules, info, look)->Ok_0.0 == look.path@,
        !plan_verdict(rules, info, look)->Ok_0.2,
        look.name is Some,
        same_name(rules, look.name->Some_0@, info.root_name@),
        object_kind(look.seen, look.path@) == Ok::<SaveEntryKind, Seq<char>>(info.root_kind),
{
}

/// `result` is the plan for a backup without a root, or why there is none.
pub open spec fn legacy_planned(
    path: Seq<char>,
    seen: ObjectSeen,
    result: Result<RestorePlan, String>,
) -> bool {
    match existing_kind(seen, path) {
        Err(text) => result matches Err(found) && found@ == text,
        Ok(Some(SaveEntryKind::File)) => result matches Err(found) && found@
            == "旧版备份一定是目录备份，当前存档路径不是目录，拒绝恢复"@,
        Ok(existing) => result matches Ok(plan) && plan.final_path@ == path
            && plan.replace_existing == (existing is Some) && !plan.restored_to_alternate,
    }
}

/// The place of a backup without a root: the configured directory itself.
pub fn plan_legacy_restore(path: &str, seen: &ObjectSeen) -> (result: Result<RestorePlan, String>)
    ensures
        legacy_planned(path@, *seen, result),
{
    let existing: Option<SaveEntryKind> = match look_at_existing(seen, path) {
        Ok(existing) => existing,
        Err(text) => {
            return Err(text);
        },
    };
    if let Some(kind) = existing {
        if kind != SaveEntryKind::Directory {
            return Err("旧版备份一定是目录备份，当前存档路径不是目录，拒绝恢复".to_owned());
        }
    }
    Ok(
        RestorePlan {
            final_path: path.to_owned(),
            replace_existing: existing.is_some(),
            restored_to_alternate: false,
        },
    )
}

/// The top level of an unpacked backup.
#[derive(Debug)]
pub enum StagingListing {
    Failed(String),
    EntryFailed(String),
    Names(Vec<String>),
}

/// What was unpacked.
#[derive(Debug)]
pub struct PayloadLook {
    pub listing: StagingListing,
    /// The root object: its path as shown to users, and what it is.
    pub path: String,
    pub seen: ObjectSeen,
    pub tree: ExtractedNode,
}

/// Why an unpacked backup is refused.
pub open spec fn payload_fault(look: PayloadLook, info: ArchiveSaveInfo) -> Option<Seq<char>> {
    match look.listing {
        StagingListing::Failed(text) => Some("读取解压临时目录失败: "@ + text@),
        StagingListing::EntryFailed(text) => Some("读取解压临时目录条目失败: "@ + text@),
        StagingListing::Names(names) => if names@.len() != 1 || names@[0]@ != info.root_name@ {
            Some("解压临时目录没有且仅有预期顶层对象"@)
        } else {
            match object_kind(look.seen, look.path@) {
                Err(text) => Some(text),
                Ok(kind) => if kind != info.root_kind {
                    Some("解压后的顶层对象类型不一致"@)
                } else {
                    extracted_fault(look.tree)
                },
            }
        },
    }
}

/// Requires that exactly the announced root was unpacked, of the announced
/// kind, with nothing unsafe below it.
pub fn validate_payload(look: &PayloadLook, info: &ArchiveSaveInfo) -> (result: Result<(), String>)
    ensures
        match payload_fault(*look, *info) {
            None => result is Ok,
            Some(text) => result matches Err(found) && found@ == text,
        },
{
    match &look.listing {
        StagingListing::Failed(text) => {
            return Err(cat2("读取解压临时目录失败: ", text.as_str()));
        },
        StagingListing::EntryFailed(text) => {
            return Err(cat2("读取解压临时目录条目失败: ", text.as_str()));
        },
        StagingListing::Names(names) => {
            if names.len() != 1 || names[0] != info.root_name {
                return Err("解压临时目录没有且仅有预期顶层对象".to_owned());
            }
        },
    }
    match ensure_safe_existing_object(&look.seen, look.path.as_str()) {
        Err(text) => Err(text),
        Ok(kind) => {
            if kind != info.root_kind {
                return Err("解压后的顶层对象类型不一致".to_owned());
            }
            validate_extracted_tree(&look.tree)
        },
    }
}

/// If the names agree and a plain object of the archived kind stands at the
/// configured place, the plan replaces it there, be it a file or a directory.
pub proof fn the_same_save_is_replaced(
    info: ArchiveSaveInfo,
    look: TargetLook,
    found: SourceLook,
    result: Result<RestorePlan, String>,
)
    requires
        look.has_parent,
        look.name is Some,
        look.name->Some_0@ == info.root_name@,
        look.seen == ObjectSeen::Found(found),
        plain(found, info.root_kind),
        planned(NameRules::Exact, info, look, result),
    ensures
        result matches Ok(plan) && plan.final_path@ == look.path@ && plan.replace_existing
            && !plan.restored_to_alternate,
{
}

/// If the names agree and nothing stands at the configured place, the backup
/// goes there and replaces nothing.
pub proof fn a_missing_save_is_put_back(
    info: ArchiveSaveInfo,
    look: TargetLook,
    result: Result<RestorePlan, String>,
)
    requires
        look.has_parent,
        look.name is Some,
        look.name->Some_0@ == info.root_name@,
        look.seen is Missing,
        planned(NameRules::Exact, info, look, result),
    ensures
        result matches Ok(plan) && plan.final_path@ == look.path@ && !plan.replace_existing
            && !plan.restored_to_alternate,
{
}

/// Under another name a backup goes beside the configured place, and only if
/// nothing is there; it never replaces anything.
pub proof fn another_name_goes_beside(
    info: ArchiveSaveInfo,
    look: TargetLook,
    result: Result<RestorePlan, String>,
)
    requires
        look.name is Some,
        look.name->Some_0@ != info.root_name@,
        planned(NameRules::Exact, info, look, result),
    ensures
        result matches Ok(plan) ==> plan.final_path@ == look.alternate@ && !plan.replace_existing
            && plan.restored_to_alternate,
        result is Ok <==> {
            &&& look.has_parent
            &&& look.alternate_seen is Absent
            &&& match look.seen {
                ObjectSeen::Missing(_) => true,
                ObjectSeen::Failed(_) => false,
                ObjectSeen::Found(found) => plain(found, info.root_kind),
            }
        },
{
}

/// Whatever the names, a backup is refused if something else than a plain
/// object of its kind stands at the configured place, if that place cannot be
/// looked at, has no name or no parent.
pub proof fn other_things_are_not_touched(
    rules: NameRules,
    info: ArchiveSaveInfo,
    look: TargetLook,
    result: Result<RestorePlan, String>,
)
    requires
        planned(rules, info, look, result),
        look.name is None || !look.has_parent || look.seen is Failed || (look.seen matches
            ObjectSeen::Found(found) && !plain(found, info.root_kind)),
    ensures
        result is Err,
{
}

/// Where case does not count, names that differ only in the case of ASCII
/// letters are treated as the same name, and others as different ones.
pub proof fn names_agree_but_for_case(
    info: ArchiveSaveInfo,
    look: TargetLook,
    result: Result<RestorePlan, String>,
)
    requires
        look.has_parent,
        look.name is Some,
        look.seen is Missing || (look.seen matches ObjectSeen::Found(found) && plain(
            found,
            info.root_kind,
        )),
        planned(NameRules::IgnoreCase, info, look, result),
    ensures
        upper(look.name->Some_0@) == upper(info.root_name@) ==> (result matches Ok(plan)
            && plan.final_path@ == look.path@ && plan.replace_existing == (look.seen is Found)
            && !plan.restored_to_alternate),
        upper(look.name->Some_0@) != upper(info.root_name@) ==> (result matches Ok(plan)
            ==> plan.final_path@ == look.alternate@ && !plan.replace_existing),
{
}

/// An unpacked backup is accepted exactly if it is the announced root alone,
/// a plain object of the announced kind, with plain objects only below it.
pub proof fn accepted_payloads_are_what_was_announced(look: PayloadLook, info: ArchiveSaveInfo)
    ensures
        payload_fault(look, info) is None <==> {
            &&& look.listing matches StagingListing::Names(names) && names@.len() == 1
                && names@[0]@ == info.root_name@
            &&& look.seen matches ObjectSeen::Found(found) && plain(found, info.root_kind)
            &&& all_plain(look.tree)
        },
{
    accepted_trees_are_plain(look.tree);
}

/// A backup without a root goes to the configured place, and nowhere else: a
/// plain directory there is replaced, a missing one is put back, and anything
/// else is refused.
pub proof fn legacy_backups_replace_directories(
    path: Seq<char>,
    seen: ObjectSeen,
    result: Result<RestorePlan, String>,
)
    requires
        legacy_planned(path, seen, result),
    ensures
        result is Ok <==> match seen {
            ObjectSeen::Missing(_) => true,
            ObjectSeen::Failed(_) => false,
            ObjectSeen::Found(found) => plain(found, SaveEntryKind::Directory),
        },
        result matches Ok(plan) ==> plan.final_path@ == path && plan.replace_existing == (seen
            is Found) && !plan.restored_to_alternate,
{
}

} // verus!
