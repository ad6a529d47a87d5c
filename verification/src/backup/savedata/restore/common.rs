//! Safe objects, unpacked trees and the final exchange.

use vstd::prelude::*;

use crate::backup::common::NameLookup;
use crate::backup::savedata::archive::create::SourceLook;
use crate::backup::savedata::archive::inspect::{slashed, SaveEntryKind};
use crate::backup::savedata::fs_safety::{redirect_fault, reject_path_redirector};
use crate::text::concat::{cat2, cat4, cat7, option_view};
use crate::text::number::{decimal, decimal_text, wide_decimal_text};
use crate::text::scan::replace;

verus! {

/// What a restore came to.
#[derive(Clone, Debug)]
pub struct RestoreSavedataResult {
    pub restored_path: String,
    pub replaced_existing: bool,
    pub restored_to_alternate: bool,
    pub cleanup_warning: Option<String>,
}

/// Where a restore goes.
#[derive(Debug)]
pub struct RestorePlan {
    /// The final place as shown to users.
    pub final_path: String,
    /// Something of the same kind is there and will be replaced.
    pub replace_existing: bool,
    /// The final place is not the configured one.
    pub restored_to_alternate: bool,
}

/// What stands at a path; a failed look keeps its text.
#[derive(Clone, Debug)]
pub enum ObjectSeen {
    Found(SourceLook),
    Missing(String),
    Failed(String),
}

/// The kind of an object that is safe to work with, or why it is not.
pub open spec fn object_kind(seen: ObjectSeen, path: Seq<char>) -> Result<SaveEntryKind, Seq<char>> {
    match seen {
        ObjectSeen::Missing(text) => Err("读取存档路径失败 "@ + path + ": "@ + text@),
        ObjectSeen::Failed(text) => Err("读取存档路径失败 "@ + path + ": "@ + text@),
        ObjectSeen::Found(look) => match redirect_fault(look.redirect, path) {
            Some(text) => Err(text),
            None => if look.is_dir {
                Ok(SaveEntryKind::Directory)
            } else if look.is_file {
                Ok(SaveEntryKind::File)
            } else {
                Err("存档路径必须是普通文件或目录: "@ + path)
            },
        },
    }
}

/// Requires a plain file or directory that does not redirect.
pub fn ensure_safe_existing_object(seen: &ObjectSeen, path: &str) -> (result: Result<
    SaveEntryKind,
    String,
>)
    ensures
        match object_kind(*seen, path@) {
            Ok(kind) => result == Ok::<SaveEntryKind, String>(kind),
            Err(text) => result matches Err(found) && found@ == text,
        },
{
    match seen {
        ObjectSeen::Missing(text) | ObjectSeen::Failed(text) => Err(
            cat4("读取存档路径失败 ", path, ": ", text.as_str()),
        ),
        ObjectSeen::Found(look) => {
            if let Err(text) = reject_path_redirector(&look.redirect, path) {
                return Err(text);
            }
            if look.is_dir {
                Ok(SaveEntryKind::Directory)
            } else if look.is_file {
                Ok(SaveEntryKind::File)
            } else {
                Err(cat2("存档路径必须是普通文件或目录: ", path))
            }
        },
    }
}

/// One directory on the way up from a path.
#[derive(Debug)]
pub struct AncestorLook {
    pub path: String,
    /// It is not the topmost one.
    pub has_parent: bool,
    pub seen: ObjectSeen,
}

/// Why an ancestor is refused: what exists has to be a real directory.
pub open spec fn ancestor_fault(look: AncestorLook) -> Option<Seq<char>> {
    match look.seen {
        ObjectSeen::Missing(_) => None,
        ObjectSeen::Failed(text) => Some("检查恢复路径失败 "@ + look.path@ + ": "@ + text@),
        ObjectSeen::Found(_) => match object_kind(look.seen, look.path@) {
            Err(text) => Some(text),
            Ok(kind) => if kind != SaveEntryKind::Directory && look.has_parent {
                Some("恢复父路径不是目录: "@ + look.path@)
            } else {
                None
            },
        },
    }
}

/// The fault of the first refused ancestor.
pub open spec fn ancestors_fault(looks: Seq<AncestorLook>) -> Option<Seq<char>>
    decreases looks.len(),
{
    if looks.len() == 0 {
        None
    } else {
        let earlier = ancestors_fault(looks.drop_last());
        if earlier is Some {
            earlier
        } else {
            ancestor_fault(looks.last())
        }
    }
}

proof fn ancestors_fault_persists(looks: Seq<AncestorLook>, at: int)
    requires
        0 <= at <= looks.len(),
        ancestors_fault(looks.take(at)) is Some,
    ensures
        ancestors_fault(looks) == ancestors_fault(looks.take(at)),
    decreases looks.len(),
{
    if at == looks.len() {
        assert(looks.take(at) =~= looks);
    } else {
        assert(looks.drop_last().take(at) =~= looks.take(at));
        ancestors_fault_persists(looks.drop_last(), at);
    }
}

fn judge_ancestor(look: &AncestorLook) -> (fault: Option<String>)
    ensures
        option_view(fault) == ancestor_fault(*look),
{
    match &look.seen {
        ObjectSeen::Missing(_) => None,
        ObjectSeen::Failed(text) => Some(
            cat4("检查恢复路径失败 ", look.path.as_str(), ": ", text.as_str()),
        ),
        ObjectSeen::Found(_) => match ensure_safe_existing_object(
            &look.seen,
            look.path.as_str(),
        ) {
            Err(text) => Some(text),
            Ok(kind) => {
                if kind != SaveEntryKind::Directory && look.has_parent {
                    Some(cat2("恢复父路径不是目录: ", look.path.as_str()))
                } else {
                    None
                }
            },
        },
    }
}

/// Requires that a path and everything above it are real directories, as far
/// as they exist. The looks go from the path up.
pub fn ensure_safe_existing_ancestors(looks: &Vec<AncestorLook>) -> (result: Result<(), String>)
    ensures
        match ancestors_fault(looks@) {
            None => result is Ok,
            Some(text) => result matches Err(found) && found@ == text,
        },
{
    let mut at: usize = 0;
    assert(looks@.take(0) =~= Seq::<AncestorLook>::empty());
    while at < looks.len()
        invariant
            at <= looks@.len(),
            ancestors_fault(looks@.take(at as int)) is None,
        decreases looks@.len() - at,
    {
        let fault: Option<String> = judge_ancestor(&looks[at]);
        proof {
            assert(looks@.take(at + 1).drop_last() =~= looks@.take(at as int));
            assert(looks@.take(at + 1).last() == looks@[at as int]);
            if ancestor_fault(looks@[at as int]) is Some {
                ancestors_fault_persists(looks@, at + 1);
            }
        }
        if let Some(text) = fault {
            return Err(text);
        }
        at += 1;
    }
    assert(looks@.take(at as int) =~= looks@);
    Ok(())
}

/// An object of an unpacked tree.
#[derive(Debug)]
pub enum ExtractedNode {
    /// It could not be looked at.
    Unreadable(String),
    Object { path: String, look: SourceLook, children: ExtractedChildren },
}

/// What an unpacked directory holds.
#[derive(Debug)]
pub enum ExtractedChildren {
    /// It could not be listed.
    Failed(String),
    Listed(Vec<ExtractedEntry>),
}

/// One entry of an unpacked directory.
#[derive(Debug)]
pub enum ExtractedEntry {
    /// It could not be read.
    Unreadable(String),
    Node(ExtractedNode),
}

/// The first fault of an unpacked tree: links, redirects, special objects, or
/// what cannot be read.
pub open spec fn extracted_fault(node: ExtractedNode) -> Option<Seq<char>>
    decreases node, 1int, 0nat,
{
    match node {
        ExtractedNode::Unreadable(text) => Some("读取解压内容失败: "@ + text@),
        ExtractedNode::Object { path, look, children } => match redirect_fault(
            look.redirect,
            path@,
        ) {
            Some(text) => Some("解压内容包含路径重定向对象: "@ + text),
            None => if look.is_dir {
                match children {
                    ExtractedChildren::Failed(text) => Some("读取解压目录失败: "@ + text@),
                    ExtractedChildren::Listed(entries) => entries_fault(entries, entries@.len()),
                }
            } else if !look.is_file {
                Some("解压内容包含特殊对象: "@ + path@)
            } else {
                None
            },
        },
    }
}

pub open spec fn entries_fault(entries: Vec<ExtractedEntry>, count: nat) -> Option<Seq<char>>
    decreases entries, 0int, count,
{
    if count == 0 || count > entries@.len() {
        None
    } else {
        let earlier = entries_fault(entries, (count - 1) as nat);
        if earlier is Some {
            earlier
        } else {
            match entries@[count - 1] {
                ExtractedEntry::Unreadable(text) => Some("读取解压条目失败: "@ + text@),
                ExtractedEntry::Node(node) => extracted_fault(node),
            }
        }
    }
}

proof fn entries_fault_persists(entries: Vec<ExtractedEntry>, count: nat, whole: nat)
    requires
        count <= whole <= entries@.len(),
        entries_fault(entries, count) is Some,
    ensures
        entries_fault(entries, whole) == entries_fault(entries, count),
    decreases whole,
{
    if count < whole {
        entries_fault_persists(entries, count, (whole - 1) as nat);
    }
}

/// Requires plain files and directories all the way down.
pub fn validate_extracted_tree(node: &ExtractedNode) -> (result: Result<(), String>)
    ensures
        match extracted_fault(*node) {
            None => result is Ok,
            Some(text) => result matches Err(found) && found@ == text,
        },
    decreases *node, 1int, 0nat,
{
    match node {
        ExtractedNode::Unreadable(text) => Err(cat2("读取解压内容失败: ", text.as_str())),
        ExtractedNode::Object { path, look, children } => {
            if let Err(text) = reject_path_redirector(&look.redirect, path.as_str()) {
                return Err(cat2("解压内容包含路径重定向对象: ", text.as_str()));
            }
            if look.is_dir {
                match children {
                    ExtractedChildren::Failed(text) => Err(
                        cat2("读取解压目录失败: ", text.as_str()),
                    ),
                    ExtractedChildren::Listed(entries) => {
                        let mut at: usize = 0;
                        while at < entries.len()
                            invariant
                                at <= entries@.len(),
                                decreases_to!(*node => *entries),
                                *node == (ExtractedNode::Object {
                                    path: *path,
                                    look: *look,
                                    children: ExtractedChildren::Listed(*entries),
                                }),
                                redirect_fault(look.redirect, path@) is None,
                                look.is_dir,
                                entries_fault(*entries, at as nat) is None,
                            decreases entries@.len() - at,
                        {
                            proof {
                                if entries_fault(*entries, (at + 1) as nat) is Some {
                                    entries_fault_persists(
                                        *entries,
                                        (at + 1) as nat,
                                        entries@.len(),
                                    );
                                }
                            }
                            match &entries[at] {
                                ExtractedEntry::Unreadable(text) => {
                                    return Err(cat2("读取解压条目失败: ", text.as_str()));
                                },
                                ExtractedEntry::Node(child) => {
                                    if let Err(text) = validate_extracted_tree(child) {
                                        return Err(text);
                                    }
                                },
                            }
                            at += 1;
                        }
                        Ok(())
                    },
                }
            } else if !look.is_file {
                Err(cat2("解压内容包含特殊对象: ", path.as_str()))
            } else {
                Ok(())
            }
        },
    }
}

/// Path of an entry below the directory it is unpacked to.
pub fn entry_output(name: &str) -> (path: String)
    ensures
        path@ == slashed(name@),
{
    replace(name, '\\', "/")
}

/// `result` tells whether an unpacked file has its declared size.
pub open spec fn size_judged(copied: u64, declared: u64, result: Result<(), String>) -> bool {
    if copied == declared {
        result is Ok
    } else {
        result matches Err(text) && text@ == "解压文件大小与归档声明不符"@
    }
}

/// Requires that an unpacked file has the size that the archive declares.
pub fn check_extracted_size(copied: u64, declared: u64) -> (result: Result<(), String>)
    ensures
        size_judged(copied, declared, result),
{
    if copied != declared {
        return Err("解压文件大小与归档声明不符".to_owned());
    }
    Ok(())
}

/// Name of the directory that a backup is unpacked to.
pub open spec fn staging_name(stamp: u128, index: nat) -> Seq<char> {
    ".reina_restore_"@ + decimal(stamp as nat) + "_"@ + decimal(index)
}

/// What trying to create a directory came to.
#[derive(Debug)]
pub enum MakeOutcome {
    Made,
    Exists,
    Failed(String),
}

/// What the host does next.
#[derive(Debug)]
pub enum StagingAction {
    /// Create the directory with this name.
    Make(String),
    /// The name of the new directory, or why there is none.
    Finish(Result<String, String>),
}

/// A search for the name of a fresh directory.
#[derive(Clone, Copy, Debug, PartialEq, Eq, Structural)]
pub struct StagingSearch {
    pub stamp: u128,
    /// The index that is tried; all below it exist.
    pub index: u64,
}

impl StagingSearch {
    pub open spec fn wf(self) -> bool {
        self.index < 100
    }

    /// The directory that is due.
    pub open spec fn name(self) -> Seq<char> {
        staging_name(self.stamp, self.index as nat)
    }

    fn current(&self) -> (name: String)
        ensures
            name@ == self.name(),
    {
        cat4(
            ".reina_restore_",
            wide_decimal_text(self.stamp).as_str(),
            "_",
            decimal_text(self.index).as_str(),
        )
    }

    /// The directory that was due was created, existed already, or could not
    /// be created. Only an existing one leads to another name.
    pub fn on_made(&mut self, outcome: MakeOutcome) -> (action: StagingAction)
        requires
            old(self).wf(),
        ensures
            match outcome {
                MakeOutcome::Made => {
                    &&& *final(self) == *old(self)
                    &&& action matches StagingAction::Finish(Ok(name)) && name@ == old(self).name()
                },
                MakeOutcome::Failed(text) => {
                    &&& *final(self) == *old(self)
                    &&& action matches StagingAction::Finish(Err(message)) && message@
                        == "创建恢复临时目录失败: "@ + text@
                },
                MakeOutcome::Exists => {
                    &&& *final(self) == (StagingSearch {
                        index: (old(self).index + 1) as u64,
                        ..*old(self)
                    })
                    &&& if old(self).index + 1 < 100 {
                        &&& final(self).wf()
                        &&& action matches StagingAction::Make(name) && name@ == final(self).name()
                    } else {
                        action matches StagingAction::Finish(Err(message)) && message@
                            == "无法创建唯一恢复临时目录"@
                    }
                },
            },
    {
        match outcome {
            MakeOutcome::Made => StagingAction::Finish(Ok(self.current())),
            MakeOutcome::Failed(text) => StagingAction::Finish(
                Err(cat2("创建恢复临时目录失败: ", text.as_str())),
            ),
            MakeOutcome::Exists => {
                self.index = self.index + 1;
                if self.index < 100 {
                    StagingAction::Make(self.current())
                } else {
                    StagingAction::Finish(Err("无法创建唯一恢复临时目录".to_owned()))
                }
            },
        }
    }
}

/// Begins to create a fresh directory to unpack to; the first free index
/// wins. `clock_nanos` is the wall clock, if it can be read.
pub fn create_restore_temp_dir(clock_nanos: &Result<u128, String>) -> (started: Result<
    (StagingSearch, StagingAction),
    String,
>)
    ensures
        match *clock_nanos {
            Err(error) => started matches Err(text) && text@ == "获取临时目录时间失败: "@ + error@,
            Ok(stamp) => {
                &&& started matches Ok((search, action)) && search == (StagingSearch {
                    stamp,
                    index: 0,
                }) && search.wf() && (action matches StagingAction::Make(name) && name@
                    == search.name())
            },
        },
{
    match clock_nanos {
        Err(error) => Err(cat2("获取临时目录时间失败: ", error.as_str())),
        Ok(stamp) => {
            let search: StagingSearch = StagingSearch { stamp: *stamp, index: 0 };
            let action: StagingAction = StagingAction::Make(search.current());
            Ok((search, action))
        },
    }
}

/// Name under which old save data is set aside.
pub open spec fn stash_name(prefix: Seq<char>, stamp: u128, index: nat) -> Seq<char> {
    prefix + "_"@ + decimal(stamp as nat) + "_"@ + decimal(index)
}

pub open spec fn stash_taken<F: Fn(&str) -> NameLookup>(
    lookup: F,
    prefix: Seq<char>,
    stamp: u128,
    index: nat,
) -> bool {
    forall|j: nat|
        j < index ==> crate::backup::common::answered(
            lookup,
            #[trigger] stash_name(prefix, stamp, j),
            NameLookup::Taken,
        )
}

/// What the search for a name may come to, given what the lookups said.
pub open spec fn stash_result<F: Fn(&str) -> NameLookup>(
    lookup: F,
    prefix: Seq<char>,
    stamp: u128,
    result: Result<Seq<char>, Seq<char>>,
) -> bool {
    match result {
        Ok(found) => exists|k: nat|
            k < 100 && found == #[trigger] stash_name(prefix, stamp, k)
                && crate::backup::common::answered(lookup, found, NameLookup::Free) && stash_taken(
                lookup,
                prefix,
                stamp,
                k,
            ),
        Err(message) => {
            ||| message == "无法创建唯一原存档暂存路径"@ && stash_taken(lookup, prefix, stamp, 100)
            ||| exists|k: nat, path: String, failure: crate::host::IoFailure|
                k < 100 && #[trigger] crate::backup::common::answered(
                    lookup,
                    stash_name(prefix, stamp, k),
                    NameLookup::Failed { path, failure },
                ) && message == "检查暂存路径失败 "@ + path@ + ": "@ + failure.text@
                    && stash_taken(lookup, prefix, stamp, k)
        },
    }
}

/// Picks a name under which old save data is set aside; the first free index
/// wins.
pub fn create_restore_sibling_path<F: Fn(&str) -> NameLookup>(
    prefix: &str,
    clock_nanos: &Result<u128, String>,
    lookup: &F,
) -> (result: Result<String, String>)
    requires
        forall|text: &str| #[trigger] call_requires(*lookup, (text,)),
    ensures
        match *clock_nanos {
            Err(error) => result matches Err(text) && text@ == "获取暂存路径时间失败: "@ + error@,
            Ok(stamp) => stash_result(
                *lookup,
                prefix@,
                stamp,
                crate::backup::common::text_result(result),
            ),
        },
{
    match clock_nanos {
        Err(error) => Err(cat2("获取暂存路径时间失败: ", error.as_str())),
        Ok(stamp) => find_stash(prefix, *stamp, lookup),
    }
}

fn find_stash<F: Fn(&str) -> NameLookup>(prefix: &str, stamp: u128, lookup: &F) -> (result: Result<
    String,
    String,
>)
    requires
        forall|text: &str| #[trigger] call_requires(*lookup, (text,)),
    ensures
        stash_result(*lookup, prefix@, stamp, crate::backup::common::text_result(result)),
{
    let mut index: u64 = 0;
    while index < 100
        invariant
            index <= 100,
            forall|text: &str| #[trigger] call_requires(*lookup, (text,)),
            stash_taken(*lookup, prefix@, stamp, index as nat),
        decreases 100 - index,
    {
        let head: String = cat2(prefix, "_");
        let name: String = cat4(
            head.as_str(),
            wide_decimal_text(stamp).as_str(),
            "_",
            decimal_text(index).as_str(),
        );
        let ghost wanted = stash_name(prefix@, stamp, index as nat);
        assert(name@ == wanted);
        let probe: &str = name.as_str();
        let answer: NameLookup = lookup(probe);
        assert(crate::backup::common::answered(*lookup, wanted, answer));
        match answer {
            NameLookup::Free => {
                return Ok(name);
            },
            NameLookup::Taken => {},
            NameLookup::Failed { path, failure } => {
                return Err(
                    cat4("检查暂存路径失败 ", path.as_str(), ": ", failure.text.as_str()),
                );
            },
        }
        index += 1;
    }
    Err("无法创建唯一原存档暂存路径".to_owned())
}

/// What the exchange waits for, or how it ended.
#[derive(Clone, Copy, Debug, PartialEq, Eq, Structural)]
pub enum CommitStage {
    CheckingParent,
    LookingAtFinal,
    Naming,
    Stashing,
    Installing,
    RollingBack,
    Clearing,
    Installed,
    Failed,
}

pub open spec fn commit_edge(replace: bool, from: CommitStage, to: CommitStage) -> bool {
    match from {
        CommitStage::CheckingParent => to == CommitStage::LookingAtFinal || to
            == CommitStage::Failed,
        CommitStage::LookingAtFinal => to == CommitStage::Failed || if replace {
            to == CommitStage::Naming
        } else {
            to == CommitStage::Installing
        },
        CommitStage::Naming => to == CommitStage::Stashing || to == CommitStage::Failed,
        CommitStage::Stashing => to == CommitStage::Installing || to == CommitStage::Failed,
        CommitStage::Installing => if replace {
            to == CommitStage::Clearing || to == CommitStage::RollingBack
        } else {
            to == CommitStage::Installed || to == CommitStage::Failed
        },
        CommitStage::RollingBack => to == CommitStage::Failed,
        CommitStage::Clearing => to == CommitStage::Installed,
        CommitStage::Installed => false,
        CommitStage::Failed => false,
    }
}

pub open spec fn commit_history(replace: bool, stages: Seq<CommitStage>) -> bool {
    &&& stages.len() > 0
    &&& stages[0] == CommitStage::CheckingParent
    &&& forall|i: int|
        0 < i < stages.len() ==> commit_edge(replace, #[trigger] stages[i - 1], stages[i])
}

/// Old save data is removed only right after the new one was installed.
pub proof fn old_data_outlives_installation(replace: bool, stages: Seq<CommitStage>, at: int)
    requires
        commit_history(replace, stages),
        0 <= at < stages.len(),
        stages[at] == CommitStage::Clearing,
    ensures
        at >= 1,
        stages[at - 1] == CommitStage::Installing,
{
    assert(at >= 1);
    assert(commit_edge(replace, stages[at - 1], stages[at]));
}

/// An exchange that set old save data aside and then failed tried to put it
/// back as its last step.
pub proof fn failed_exchange_rolls_back(stages: Seq<CommitStage>, at: int)
    requires
        commit_history(true, stages),
        stages.last() == CommitStage::Failed,
        0 <= at < stages.len(),
        stages[at] == CommitStage::Installing,
    ensures
        stages.len() == at + 3,
        stages[at + 1] == CommitStage::RollingBack,
{
    assert(at + 1 < stages.len());
    assert(commit_edge(true, stages[(at + 1) - 1], stages[at + 1]));
    assert(at + 2 < stages.len());
    assert(commit_edge(true, stages[(at + 2) - 1], stages[at + 2]));
    if at + 3 < stages.len() {
        assert(commit_edge(true, stages[(at + 3) - 1], stages[at + 3]));
        if at + 4 < stages.len() {
            assert(commit_edge(true, stages[(at + 4) - 1], stages[at + 4]));
        }
    }
}

/// What the host does next.
#[derive(Debug)]
pub enum CommitAction {
    /// Look at the final place.
    LookAtFinal,
    /// Pick a name to set the old save data aside.
    PickStash,
    /// Rename the old save data to that name.
    Stash,
    /// Rename the new save data to the final place.
    Install,
    /// Rename the old save data back.
    RollBack,
    /// Remove the old save data.
    ClearStash,
    Finish(Result<Option<String>, String>),
}

/// The exchange of old and new save data.
pub struct Commit {
    pub final_path: String,
    pub replace_existing: bool,
    pub kind: SaveEntryKind,
    pub stage: CommitStage,
    /// Where the old save data was set aside, as shown to users.
    pub stash: String,
    /// Why the installation failed.
    pub failure: String,
}

impl Commit {
    pub open spec fn fails(after: Commit, action: CommitAction, message: Seq<char>) -> bool {
        after.stage == CommitStage::Failed && (action matches CommitAction::Finish(Err(text))
            && text@ == message)
    }

    pub fn new(plan: &RestorePlan, kind: SaveEntryKind) -> (commit: Commit)
        ensures
            commit.final_path@ == plan.final_path@,
            commit.replace_existing == plan.replace_existing,
            commit.kind == kind,
            commit.stage == CommitStage::CheckingParent,
    {
        Commit {
            final_path: plan.final_path.clone(),
            replace_existing: plan.replace_existing,
            kind,
            stage: CommitStage::CheckingParent,
            stash: String::new(),
            failure: String::new(),
        }
    }

    fn fail(&mut self, message: String) -> (action: CommitAction)
        ensures
            *final(self) == (Commit { stage: final(self).stage, ..*old(self) }),
            Commit::fails(*final(self), action, message@),
    {
        self.stage = CommitStage::Failed;
        CommitAction::Finish(Err(message))
    }

    /// The parent and everything above it were looked at; `None` if the
    /// final place has no parent.
    pub fn on_parent(&mut self, looks: &Option<Vec<AncestorLook>>) -> (action: CommitAction)
        requires
            old(self).stage == CommitStage::CheckingParent,
        ensures
            *final(self) == (Commit { stage: final(self).stage, ..*old(self) }),
            commit_edge(old(self).replace_existing, old(self).stage, final(self).stage),
            match *looks {
                None => Commit::fails(*final(self), action, "恢复目标没有父目录"@),
                Some(looks) => match ancestors_fault(looks@) {
                    Some(text) => Commit::fails(*final(self), action, text),
                    None => *final(self) == (Commit {
                        stage: CommitStage::LookingAtFinal,
                        ..*old(self)
                    }) && action == CommitAction::LookAtFinal,
                },
            },
    {
        match looks {
            None => self.fail("恢复目标没有父目录".to_owned()),
            Some(looks) => match ensure_safe_existing_ancestors(looks) {
                Err(text) => self.fail(text),
                Ok(_) => {
                    self.stage = CommitStage::LookingAtFinal;
                    CommitAction::LookAtFinal
                },
            },
        }
    }

    /// Why what stands at the final place forbids the exchange.
    pub open spec fn final_fault(self, seen: ObjectSeen) -> Option<Seq<char>> {
        match seen {
            ObjectSeen::Failed(text) => Some("检查恢复目标失败: "@ + text@),
            ObjectSeen::Missing(_) => None,
            ObjectSeen::Found(_) => if !self.replace_existing {
                Some("恢复目标已存在，拒绝覆盖: "@ + self.final_path@)
            } else {
                match object_kind(seen, self.final_path@) {
                    Err(text) => Some(text),
                    Ok(kind) => if kind != self.kind {
                        Some("恢复目标类型在解压期间发生变化，拒绝替换"@)
                    } else {
                        None
                    },
                }
            },
        }
    }

    fn judge_final(&self, seen: &ObjectSeen) -> (fault: Option<String>)
        ensures
            option_view(fault) == self.final_fault(*seen),
    {
        match seen {
            ObjectSeen::Failed(text) => Some(cat2("检查恢复目标失败: ", text.as_str())),
            ObjectSeen::Missing(_) => None,
            ObjectSeen::Found(_) => {
                if !self.replace_existing {
                    return Some(cat2("恢复目标已存在，拒绝覆盖: ", self.final_path.as_str()));
                }
                match ensure_safe_existing_object(seen, self.final_path.as_str()) {
                    Err(text) => Some(text),
                    Ok(kind) => {
                        if kind != self.kind {
                            Some("恢复目标类型在解压期间发生变化，拒绝替换".to_owned())
                        } else {
                            None
                        }
                    },
                }
            },
        }
    }

    /// The final place was looked at once more.
    pub fn on_final(&mut self, seen: &ObjectSeen) -> (action: CommitAction)
        requires
            old(self).stage == CommitStage::LookingAtFinal,
        ensures
            *final(self) == (Commit { stage: final(self).stage, ..*old(self) }),
            commit_edge(old(self).replace_existing, old(self).stage, final(self).stage),
            match old(self).final_fault(*seen) {
                Some(text) => Commit::fails(*final(self), action, text),
                None => if old(self).replace_existing {
                    *final(self) == (Commit { stage: CommitStage::Naming, ..*old(self) })
                        && action == CommitAction::PickStash
                } else {
                    *final(self) == (Commit { stage: CommitStage::Installing, ..*old(self) })
                        && action == CommitAction::Install
                },
            },
    {
        match self.judge_final(seen) {
            Some(text) => self.fail(text),
            None => {
                if self.replace_existing {
                    self.stage = CommitStage::Naming;
                    CommitAction::PickStash
                } else {
                    self.stage = CommitStage::Installing;
                    CommitAction::Install
                }
            },
        }
    }

    /// A name for the old save data was picked, or not.
    pub fn on_named(&mut self, result: Result<String, String>) -> (action: CommitAction)
        requires
            old(self).stage == CommitStage::Naming,
        ensures
            *final(self) == (Commit {
                stage: final(self).stage,
                stash: final(self).stash,
                ..*old(self)
            }),
            commit_edge(old(self).replace_existing, old(self).stage, final(self).stage),
            match result {
                Ok(stash) => *final(self) == (Commit {
                    stage: CommitStage::Stashing,
                    stash,
                    ..*old(self)
                }) && action == CommitAction::Stash,
                Err(text) => Commit::fails(*final(self), action, text@),
            },
    {
        match result {
            Ok(stash) => {
                self.stash = stash;
                self.stage = CommitStage::Stashing;
                CommitAction::Stash
            },
            Err(text) => self.fail(text),
        }
    }

    /// The old save data was set aside, or not.
    pub fn on_stashed(&mut self, result: Result<(), String>) -> (action: CommitAction)
        requires
            old(self).stage == CommitStage::Stashing,
        ensures
            *final(self) == (Commit { stage: final(self).stage, ..*old(self) }),
            commit_edge(old(self).replace_existing, old(self).stage, final(self).stage),
            match result {
                Ok(_) => *final(self) == (Commit { stage: CommitStage::Installing, ..*old(self) })
                    && action == CommitAction::Install,
                Err(text) => Commit::fails(*final(self), action, "暂存原存档失败: "@ + text@),
            },
    {
        match result {
            Ok(_) => {
                self.stage = CommitStage::Installing;
                CommitAction::Install
            },
            Err(text) => {
                let message: String = cat2("暂存原存档失败: ", text.as_str());
                self.fail(message)
            },
        }
    }

    /// The new save data was installed, or not.
    pub fn on_installed(&mut self, result: Result<(), String>) -> (action: CommitAction)
        requires
            old(self).stage == CommitStage::Installing,
        ensures
            *final(self) == (Commit {
                stage: final(self).stage,
                failure: final(self).failure,
                ..*old(self)
            }),
            commit_edge(old(self).replace_existing, old(self).stage, final(self).stage),
            match result {
                Ok(_) => if old(self).replace_existing {
                    *final(self) == (Commit { stage: CommitStage::Clearing, ..*old(self) })
                        && action == CommitAction::ClearStash
                } else {
                    final(self).stage == CommitStage::Installed && action == CommitAction::Finish(
                        Ok(None),
                    )
                },
                Err(text) => if old(self).replace_existing {
                    *final(self) == (Commit {
                        stage: CommitStage::RollingBack,
                        failure: text,
                        ..*old(self)
                    }) && action == CommitAction::RollBack
                } else {
                    Commit::fails(*final(self), action, "安装恢复内容失败: "@ + text@)
                },
            },
    {
        match result {
            Ok(_) => {
                if self.replace_existing {
                    self.stage = CommitStage::Clearing;
                    CommitAction::ClearStash
                } else {
                    self.stage = CommitStage::Installed;
                    CommitAction::Finish(Ok(None))
                }
            },
            Err(text) => {
                if self.replace_existing {
                    self.failure = text;
                    self.stage = CommitStage::RollingBack;
                    CommitAction::RollBack
                } else {
                    let message: String = cat2("安装恢复内容失败: ", text.as_str());
                    self.fail(message)
                }
            },
        }
    }

    /// The old save data was put back, or not; if not, the message says where
    /// it is.
    pub fn on_rolled_back(&mut self, result: Result<(), String>) -> (action: CommitAction)
        requires
            old(self).stage == CommitStage::RollingBack,
        ensures
            *final(self) == (Commit { stage: final(self).stage, ..*old(self) }),
            commit_edge(old(self).replace_existing, old(self).stage, final(self).stage),
            Commit::fails(
                *final(self),
                action,
                match result {
                    Ok(_) => "安装恢复内容失败，已回滚原存档: "@ + old(self).failure@,
                    Err(text) => "安装恢复内容失败且回滚失败；原存档保留在 "@ + old(self).stash@
                        + "（恢复错误: "@ + old(self).failure@ + "; 回滚错误: "@ + text@ + "）"@,
                },
            ),
    {
        let message: String = match result {
            Ok(_) => cat2("安装恢复内容失败，已回滚原存档: ", self.failure.as_str()),
            Err(text) => cat7(
                "安装恢复内容失败且回滚失败；原存档保留在 ",
                self.stash.as_str(),
                "（恢复错误: ",
                self.failure.as_str(),
                "; 回滚错误: ",
                text.as_str(),
                "）",
            ),
        };
        self.fail(message)
    }

    /// The old save data was removed, or not; that is only a warning.
    pub fn on_cleared(&mut self, result: Result<(), String>) -> (action: CommitAction)
        requires
            old(self).stage == CommitStage::Clearing,
        ensures
            *final(self) == (Commit { stage: final(self).stage, ..*old(self) }),
            commit_edge(old(self).replace_existing, old(self).stage, final(self).stage),
            final(self).stage == CommitStage::Installed,
            action matches CommitAction::Finish(Ok(warning)) && option_view(warning)
                == match result {
                Ok(_) => None,
                Err(text) => Some(
                    "恢复成功，但清理旧存档 "@ + old(self).stash@ + " 失败: "@ + text@,
                ),
            },
    {
        self.stage = CommitStage::Installed;
        match result {
            Ok(_) => CommitAction::Finish(Ok(None)),
            Err(text) => CommitAction::Finish(
                Ok(
                    Some(
                        cat4(
                            "恢复成功，但清理旧存档 ",
                            self.stash.as_str(),
                            " 失败: ",
                            text.as_str(),
                        ),
                    ),
                ),
            ),
        }
    }
}

/// A plain object: no link, nothing that redirects, and a directory or a
/// regular file.
pub open spec fn plain(look: SourceLook, kind: SaveEntryKind) -> bool {
    &&& !look.redirect.is_symlink
    &&& match look.redirect.reparse {
        None => true,
        Some(crate::backup::savedata::fs_safety::ReparseTag::Tag(tag)) => tag & 0x2000_0000u32 == 0,
        Some(crate::backup::savedata::fs_safety::ReparseTag::Failed(_)) => false,
    }
    &&& match kind {
        SaveEntryKind::Directory => look.is_dir,
        SaveEntryKind::File => look.is_file && !look.is_dir,
    }
}

/// An object is safe, and of a kind, exactly if it was found and is a plain
/// object of that kind.
pub proof fn safe_objects_are_plain(seen: ObjectSeen, path: Seq<char>, kind: SaveEntryKind)
    ensures
        object_kind(seen, path) == Ok::<SaveEntryKind, Seq<char>>(kind) <==> (seen matches
            ObjectSeen::Found(look) && plain(look, kind)),
{
}

/// The way to the target is accepted exactly if everything on it that exists
/// could be looked at and is a plain directory; only the topmost one may be
/// something else.
pub proof fn ways_are_directories(looks: Seq<AncestorLook>)
    ensures
        ancestors_fault(looks) is None <==> forall|i: int|
            0 <= i < looks.len() ==> match (#[trigger] looks[i]).seen {
                ObjectSeen::Missing(_) => true,
                ObjectSeen::Failed(_) => false,
                ObjectSeen::Found(look) => plain(look, SaveEntryKind::Directory) || (
                !looks[i].has_parent && plain(look, SaveEntryKind::File)),
            },
    decreases looks.len(),
{
    if looks.len() > 0 {
        let earlier = looks.drop_last();
        ways_are_directories(earlier);
        assert forall|i: int| 0 <= i < earlier.len() implies #[trigger] earlier[i] == looks[i] by {}
        let last = looks[looks.len() - 1];
        if ancestors_fault(looks) is None {
            assert forall|i: int| 0 <= i < looks.len() implies match (#[trigger] looks[i]).seen {
                ObjectSeen::Missing(_) => true,
                ObjectSeen::Failed(_) => false,
                ObjectSeen::Found(look) => plain(look, SaveEntryKind::Directory) || (
                !looks[i].has_parent && plain(look, SaveEntryKind::File)),
            } by {
                if i < earlier.len() {
                    assert(earlier[i] == looks[i]);
                }
            }
        }
    }
}

/// Everything in an unpacked tree could be read and is a plain file or
/// directory.
pub open spec fn all_plain(node: ExtractedNode) -> bool
    decreases node, 1int, 0nat,
{
    match node {
        ExtractedNode::Unreadable(_) => false,
        ExtractedNode::Object { path, look, children } => if look.is_dir {
            plain(look, SaveEntryKind::Directory) && (children matches ExtractedChildren::Listed(
                entries,
            ) && entries_plain(entries, entries@.len()))
        } else {
            plain(look, SaveEntryKind::File)
        },
    }
}

pub open spec fn entries_plain(entries: Vec<ExtractedEntry>, count: nat) -> bool
    decreases entries, 0int, count,
{
    if count == 0 || count > entries@.len() {
        true
    } else {
        entries_plain(entries, (count - 1) as nat) && match entries@[count - 1] {
            ExtractedEntry::Unreadable(_) => false,
            ExtractedEntry::Node(node) => all_plain(node),
        }
    }
}

/// An unpacked tree is accepted exactly if all of it is plain.
pub proof fn accepted_trees_are_plain(node: ExtractedNode)
    ensures
        extracted_fault(node) is None <==> all_plain(node),
    decreases node, 1int, 0nat,
{
    if let ExtractedNode::Object { path, look, children } = node {
        if let ExtractedChildren::Listed(entries) = children {
            accepted_entries_are_plain(entries, entries@.len());
        }
    }
}

proof fn accepted_entries_are_plain(entries: Vec<ExtractedEntry>, count: nat)
    ensures
        entries_fault(entries, count) is None <==> entries_plain(entries, count),
    decreases entries, 0int, count,
{
    if count > 0 && count <= entries@.len() {
        accepted_entries_are_plain(entries, (count - 1) as nat);
        if let ExtractedEntry::Node(node) = entries@[count - 1] {
            accepted_trees_are_plain(node);
        }
    }
}

/// The exchange goes on exactly if nothing stands at the final place, or if
/// something is to be replaced and a plain object of the restored kind still
/// stands there. Nothing unknown is ever overwritten.
pub proof fn exchanges_replace_only_what_was_planned(commit: Commit, seen: ObjectSeen)
    ensures
        commit.final_fault(seen) is None <==> match seen {
            ObjectSeen::Missing(_) => true,
            ObjectSeen::Failed(_) => false,
            ObjectSeen::Found(look) => commit.replace_existing && plain(look, commit.kind),
        },
{
}

/// Different attempts use different names, and each name carries the stamp.
pub proof fn staging_names_differ(stamp: u128, first: nat, second: nat)
    ensures
        staging_name(stamp, first) == ".reina_restore_"@ + decimal(stamp as nat) + "_"@ + decimal(
            first,
        ),
        first != second ==> staging_name(stamp, first) != staging_name(stamp, second),
{
    if staging_name(stamp, first) == staging_name(stamp, second) {
        let head = ".reina_restore_"@ + decimal(stamp as nat) + "_"@;
        assert(staging_name(stamp, first).skip(head.len() as int) =~= decimal(first));
        assert(staging_name(stamp, second).skip(head.len() as int) =~= decimal(second));
        crate::text::number::decimals_differ(first, second);
    }
}

/// A place for the old save data was seen to be free, and begins with what it
/// is for; a search gives up only after a hundred names.
pub proof fn stashes_are_free<F: Fn(&str) -> NameLookup>(
    lookup: F,
    prefix: Seq<char>,
    stamp: u128,
    found: Seq<char>,
)
    requires
        stash_result(lookup, prefix, stamp, Ok(found)),
    ensures
        crate::backup::common::answered(lookup, found, NameLookup::Free),
        (prefix + "_"@ + decimal(stamp as nat) + "_"@).is_prefix_of(found),
{
    let k = choose|k: nat|
        k < 100 && found == #[trigger] stash_name(prefix, stamp, k)
            && crate::backup::common::answered(lookup, found, NameLookup::Free) && stash_taken(
            lookup,
            prefix,
            stamp,
            k,
        );
    let head = prefix + "_"@ + decimal(stamp as nat) + "_"@;
    assert(found.subrange(0, head.len() as int) =~= head);
}

/// An unpacked file is accepted exactly if not a byte is missing or extra.
pub proof fn unpacked_files_have_their_size(
    copied: u64,
    declared: u64,
    result: Result<(), String>,
)
    requires
        size_judged(copied, declared, result),
    ensures
        result is Ok <==> copied == declared,
{
}

} // verus!
