//! A restore from the first look at the archive to the result.

use vstd::prelude::*;

use super::common::{
    ancestors_fault, ensure_safe_existing_ancestors, extracted_fault, validate_extracted_tree,
    AncestorLook, RestorePlan, RestoreSavedataResult,
};
use super::rooted::{
    existing_kind, payload_fault, plan_legacy_restore, plan_restore, plan_verdict,
    validate_payload, PayloadLook, TargetLook,
};
use crate::backup::savedata::archive::inspect::{
    entries_verdict, inspect_legacy_entries, inspect_rooted_entries, rooted_verdict,
    ArchiveEntry, ArchiveSaveInfo, SaveEntryKind,
};
use crate::backup::savedata::paths::NameRules;
use crate::host::{IoFailure, IoKind};
use crate::text::concat::{cat2, cat3, cat4, option_view};

verus! {

/// What a restore waits for, or how it ended.
#[derive(Clone, Copy, Debug, PartialEq, Eq, Structural)]
pub enum RestoreStage {
    Inspecting,
    Planning,
    CheckingParent,
    CreatingParent,
    RecheckingParent,
    Staging,
    Extracting,
    Validating,
    Committing,
    /// Removing what was unpacked, after a failure.
    Discarding,
    /// Removing the empty staging directory, after success.
    Tidying,
    Restored,
    Failed,
}

pub open spec fn restore_edge(from: RestoreStage, to: RestoreStage) -> bool {
    match from {
        RestoreStage::Inspecting => to == RestoreStage::Planning || to == RestoreStage::Failed,
        RestoreStage::Planning => to == RestoreStage::CheckingParent || to == RestoreStage::Failed,
        RestoreStage::CheckingParent => to == RestoreStage::CreatingParent || to
            == RestoreStage::Failed,
        RestoreStage::CreatingParent => to == RestoreStage::RecheckingParent || to
            == RestoreStage::Failed,
        RestoreStage::RecheckingParent => to == RestoreStage::Staging || to
            == RestoreStage::Failed,
        RestoreStage::Staging => to == RestoreStage::Extracting || to == RestoreStage::Failed,
        RestoreStage::Extracting => to == RestoreStage::Validating || to
            == RestoreStage::Discarding,
        RestoreStage::Validating => to == RestoreStage::Committing || to
            == RestoreStage::Discarding,
        RestoreStage::Committing => to == RestoreStage::Tidying || to == RestoreStage::Restored
            || to == RestoreStage::Discarding,
        RestoreStage::Discarding => to == RestoreStage::Failed,
        RestoreStage::Tidying => to == RestoreStage::Restored,
        RestoreStage::Restored => false,
        RestoreStage::Failed => false,
    }
}

pub open spec fn restore_history(stages: Seq<RestoreStage>) -> bool {
    &&& stages.len() > 0
    &&& stages[0] == RestoreStage::Inspecting
    &&& forall|i: int|
        0 < i < stages.len() ==> restore_edge(#[trigger] stages[i - 1], stages[i])
}

/// The exchange begins only after the archive was inspected, unpacked and
/// checked: a bad archive never touches the save data.
pub proof fn exchange_follows_validation(stages: Seq<RestoreStage>, at: int)
    requires
        restore_history(stages),
        0 <= at < stages.len(),
        stages[at] == RestoreStage::Committing,
    ensures
        at == 8,
        stages[7] == RestoreStage::Validating,
        stages[6] == RestoreStage::Extracting,
        stages[1] == RestoreStage::Planning,
{
    assert(at >= 1);
    assert(restore_edge(stages[at - 1], stages[at]));
    assert(at >= 2);
    assert(restore_edge(stages[(at - 1) - 1], stages[at - 1]));
    assert(at >= 3);
    assert(restore_edge(stages[(at - 2) - 1], stages[at - 2]));
    assert(at >= 4);
    assert(restore_edge(stages[(at - 3) - 1], stages[at - 3]));
    assert(at >= 5);
    assert(restore_edge(stages[(at - 4) - 1], stages[at - 4]));
    assert(at >= 6);
    assert(restore_edge(stages[(at - 5) - 1], stages[at - 5]));
    assert(at >= 7);
    assert(restore_edge(stages[(at - 6) - 1], stages[at - 6]));
    assert(at >= 8);
    assert(restore_edge(stages[(at - 7) - 1], stages[at - 7]));
    if at > 8 {
        assert(restore_edge(stages[(at - 8) - 1], stages[at - 8]));
    }
}

/// A restore that fails after unpacking began removes what was unpacked.
pub proof fn failed_restore_discards(stages: Seq<RestoreStage>, at: int)
    requires
        restore_history(stages),
        stages.last() == RestoreStage::Failed,
        0 <= at < stages.len(),
        stages[at] == RestoreStage::Extracting || stages[at] == RestoreStage::Validating
            || stages[at] == RestoreStage::Committing || stages[at] == RestoreStage::Discarding
            || stages[at] == RestoreStage::Tidying,
    ensures
        stages.len() >= 2,
        stages[stages.len() - 2] == RestoreStage::Discarding,
    decreases stages.len() - at,
{
    assert(at + 1 < stages.len());
    assert(restore_edge(stages[(at + 1) - 1], stages[at + 1]));
    if at + 2 < stages.len() {
        assert(restore_edge(stages[(at + 2) - 1], stages[at + 2]));
        failed_restore_discards(stages, at + 1);
    }
}

/// What the host does next.
#[derive(Debug)]
pub enum RestoreAction {
    /// Look at the configured place, and at the one with the original name.
    LookAtTarget,
    /// Look at the parent of the final place and everything above it.
    LookAtParents,
    /// Create the parent of the final place.
    CreateParent,
    /// Create a staging directory beside the final place.
    CreateStaging,
    /// Unpack the archive.
    Extract,
    /// Look at what was unpacked.
    LookAtPayload,
    /// Exchange old and new save data.
    Commit,
    /// Remove the staging directory with everything in it.
    RemoveStaging,
    Finish(Result<RestoreSavedataResult, String>),
}

/// A restore under way.
pub struct Restore {
    pub rules: NameRules,
    pub stage: RestoreStage,
    /// The archive has a single root; nothing for one without.
    pub info: Option<ArchiveSaveInfo>,
    /// The archive has no root: its content is the content of the target.
    pub legacy: bool,
    pub plan: Option<RestorePlan>,
    /// The staging directory as shown to users.
    pub staging: String,
    pub warning: Option<String>,
    pub failure: Option<String>,
}

impl Restore {
    pub open spec fn wf(self) -> bool {
        let planned = self.plan is Some && (!self.legacy ==> self.info is Some);
        &&& self.legacy ==> self.info is None
        &&& match self.stage {
            RestoreStage::Inspecting => true,
            RestoreStage::Planning => !self.legacy ==> self.info is Some,
            RestoreStage::Discarding => planned && self.failure is Some,
            RestoreStage::Restored => true,
            RestoreStage::Failed => true,
            _ => planned,
        }
    }

    pub open spec fn fails(after: Restore, action: RestoreAction, message: Seq<char>) -> bool {
        after.stage == RestoreStage::Failed && (action matches RestoreAction::Finish(Err(text))
            && text@ == message)
    }

    /// The step discards what was unpacked and will fail with this message.
    pub open spec fn discards(
        self,
        after: Restore,
        action: RestoreAction,
        message: Seq<char>,
    ) -> bool {
        &&& after == (Restore {
            stage: RestoreStage::Discarding,
            failure: after.failure,
            ..self
        })
        &&& after.failure matches Some(text) && text@ == message
        &&& action == RestoreAction::RemoveStaging
    }

    pub fn new(rules: NameRules, legacy: bool) -> (restore: Restore)
        ensures
            restore.wf(),
            restore == (Restore {
                rules,
                stage: RestoreStage::Inspecting,
                info: None,
                legacy,
                plan: None,
                staging: restore.staging,
                warning: None,
                failure: None,
            }),
    {
        Restore {
            rules,
            stage: RestoreStage::Inspecting,
            info: None,
            legacy,
            plan: None,
            staging: String::new(),
            warning: None,
            failure: None,
        }
    }

    fn fail(&mut self, message: String) -> (action: RestoreAction)
        requires
            old(self).legacy ==> old(self).info is None,
        ensures
            Restore::fails(*final(self), action, message@),
            final(self).wf(),
            *final(self) == (Restore { stage: RestoreStage::Failed, ..*old(self) }),
    {
        self.stage = RestoreStage::Failed;
        RestoreAction::Finish(Err(message))
    }

    fn discard(&mut self, message: String) -> (action: RestoreAction)
        requires
            old(self).plan is Some,
            !old(self).legacy ==> old(self).info is Some,
            old(self).legacy ==> old(self).info is None,
        ensures
            *final(self) == (Restore {
                stage: final(self).stage,
                failure: final(self).failure,
                ..*old(self)
            }),
            old(self).discards(*final(self), action, message@),
            final(self).wf(),
    {
        self.failure = Some(message);
        self.stage = RestoreStage::Discarding;
        RestoreAction::RemoveStaging
    }

    /// The entries of the archive were read, or not.
    pub fn on_entries(&mut self, entries: &Vec<ArchiveEntry>) -> (action: RestoreAction)
        requires
            old(self).wf(),
            old(self).stage == RestoreStage::Inspecting,
        ensures
            *final(self) == (Restore {
                stage: final(self).stage,
                info: final(self).info,
                ..*old(self)
            }),
            final(self).wf(),
            restore_edge(old(self).stage, final(self).stage),
            if old(self).legacy {
                match entries_verdict(entries@, true) {
                    Err(text) => Restore::fails(
                        *final(self),
                        action,
                        "旧版备份预检失败: "@ + text,
                    ),
                    Ok(_) => *final(self) == (Restore {
                        stage: RestoreStage::Planning,
                        ..*old(self)
                    }) && action == RestoreAction::LookAtTarget,
                }
            } else {
                match rooted_verdict(entries@) {
                    Err(text) => Restore::fails(*final(self), action, "备份预检失败: "@ + text),
                    Ok((root, kind, size)) => {
                        &&& final(self).stage == RestoreStage::Planning
                        &&& action == RestoreAction::LookAtTarget
                        &&& final(self).info matches Some(info) && info.root_name@ == root
                            && info.root_kind == kind && info.total_size == size
                            && info.entry_count == entries@.len()
                    },
                }
            },
    {
        if self.legacy {
            match inspect_legacy_entries(entries) {
                Err(text) => {
                    let message: String = cat2("旧版备份预检失败: ", text.as_str());
                    self.fail(message)
                },
                Ok(_) => {
                    self.stage = RestoreStage::Planning;
                    RestoreAction::LookAtTarget
                },
            }
        } else {
            match inspect_rooted_entries(entries) {
                Err(text) => {
                    let message: String = cat2("备份预检失败: ", text.as_str());
                    self.fail(message)
                },
                Ok(info) => {
                    self.info = Some(info);
                    self.stage = RestoreStage::Planning;
                    RestoreAction::LookAtTarget
                },
            }
        }
    }

    /// The target was looked at.
    pub fn on_target(&mut self, look: &TargetLook) -> (action: RestoreAction)
        requires
            old(self).wf(),
            old(self).stage == RestoreStage::Planning,
        ensures
            *final(self) == (Restore {
                stage: final(self).stage,
                plan: final(self).plan,
                ..*old(self)
            }),
            final(self).wf(),
            restore_edge(old(self).stage, final(self).stage),
            if old(self).legacy {
                match existing_kind(look.seen, look.path@) {
                    Err(text) => Restore::fails(*final(self), action, text),
                    Ok(Some(SaveEntryKind::File)) => Restore::fails(
                        *final(self),
                        action,
                        "旧版备份一定是目录备份，当前存档路径不是目录，拒绝恢复"@,
                    ),
                    Ok(existing) => {
                        &&& final(self).stage == RestoreStage::CheckingParent
                        &&& action == RestoreAction::LookAtParents
                        &&& final(self).plan matches Some(plan) && plan.final_path@ == look.path@
                            && plan.replace_existing == (existing is Some)
                            && !plan.restored_to_alternate
                    },
                }
            } else {
                match plan_verdict(old(self).rules, old(self).info->Some_0, *look) {
                    Err(text) => Restore::fails(*final(self), action, text),
                    Ok((path, replaces, alternate)) => {
                        &&& final(self).stage == RestoreStage::CheckingParent
                        &&& action == RestoreAction::LookAtParents
                        &&& final(self).plan matches Some(plan) && plan.final_path@ == path
                            && plan.replace_existing == replaces && plan.restored_to_alternate
                            == alternate
                    },
                }
            },
    {
        let planned: Result<RestorePlan, String> = if self.legacy {
            plan_legacy_restore(look.path.as_str(), &look.seen)
        } else {
            match &self.info {
                Some(info) => plan_restore(self.rules, info, look),
                None => Err(String::new()),
            }
        };
        match planned {
            Err(text) => self.fail(text),
            Ok(plan) => {
                self.plan = Some(plan);
                self.stage = RestoreStage::CheckingParent;
                RestoreAction::LookAtParents
            },
        }
    }

    /// The parents of the final place were looked at, before and after the
    /// parent was created; `None` if there is no parent.
    pub fn on_parents(&mut self, looks: &Option<Vec<AncestorLook>>) -> (action: RestoreAction)
        requires
            old(self).wf(),
            old(self).stage == RestoreStage::CheckingParent || old(self).stage
                == RestoreStage::RecheckingParent,
        ensures
            *final(self) == (Restore { stage: final(self).stage, ..*old(self) }),
            final(self).wf(),
            restore_edge(old(self).stage, final(self).stage),
            match *looks {
                None => Restore::fails(*final(self), action, "恢复目标没有父目录"@),
                Some(looks) => match ancestors_fault(looks@) {
                    Some(text) => Restore::fails(*final(self), action, text),
                    None => if old(self).stage == RestoreStage::CheckingParent {
                        *final(self) == (Restore {
                            stage: RestoreStage::CreatingParent,
                            ..*old(self)
                        }) && action == RestoreAction::CreateParent
                    } else {
                        *final(self) == (Restore { stage: RestoreStage::Staging, ..*old(self) })
                            && action == RestoreAction::CreateStaging
                    },
                },
            },
    {
        match looks {
            None => self.fail("恢复目标没有父目录".to_owned()),
            Some(looks) => match ensure_safe_existing_ancestors(looks) {
                Err(text) => self.fail(text),
                Ok(_) => match self.stage {
                    RestoreStage::CheckingParent => {
                        self.stage = RestoreStage::CreatingParent;
                        RestoreAction::CreateParent
                    },
                    _ => {
                        self.stage = RestoreStage::Staging;
                        RestoreAction::CreateStaging
                    },
                },
            },
        }
    }

    /// The parent was created, or not.
    pub fn on_parent_created(&mut self, result: Result<(), String>) -> (action: RestoreAction)
        requires
            old(self).wf(),
            old(self).stage == RestoreStage::CreatingParent,
        ensures
            *final(self) == (Restore { stage: final(self).stage, ..*old(self) }),
            final(self).wf(),
            restore_edge(old(self).stage, final(self).stage),
            match result {
                Ok(_) => *final(self) == (Restore {
                    stage: RestoreStage::RecheckingParent,
                    ..*old(self)
                }) && action == RestoreAction::LookAtParents,
                Err(text) => Restore::fails(*final(self), action, "创建恢复目录失败: "@ + text@),
            },
    {
        match result {
            Ok(_) => {
                self.stage = RestoreStage::RecheckingParent;
                RestoreAction::LookAtParents
            },
            Err(text) => {
                let message: String = cat2("创建恢复目录失败: ", text.as_str());
                self.fail(message)
            },
        }
    }

    /// The staging directory was created, or not.
    pub fn on_staging(&mut self, result: Result<String, String>) -> (action: RestoreAction)
        requires
            old(self).wf(),
            old(self).stage == RestoreStage::Staging,
        ensures
            *final(self) == (Restore {
                stage: final(self).stage,
                staging: final(self).staging,
                ..*old(self)
            }),
            final(self).wf(),
            restore_edge(old(self).stage, final(self).stage),
            match result {
                Ok(staging) => *final(self) == (Restore {
                    stage: RestoreStage::Extracting,
                    staging,
                    ..*old(self)
                }) && action == RestoreAction::Extract,
                Err(text) => Restore::fails(*final(self), action, text@),
            },
    {
        match result {
            Ok(staging) => {
                self.staging = staging;
                self.stage = RestoreStage::Extracting;
                RestoreAction::Extract
            },
            Err(text) => self.fail(text),
        }
    }

    /// The archive was unpacked, or not.
    pub fn on_extracted(&mut self, result: Result<(), String>) -> (action: RestoreAction)
        requires
            old(self).wf(),
            old(self).stage == RestoreStage::Extracting,
        ensures
            *final(self) == (Restore {
                stage: final(self).stage,
                failure: final(self).failure,
                ..*old(self)
            }),
            final(self).wf(),
            restore_edge(old(self).stage, final(self).stage),
            match result {
                Ok(_) => *final(self) == (Restore {
                    stage: RestoreStage::Validating,
                    ..*old(self)
                }) && action == RestoreAction::LookAtPayload,
                Err(text) => old(self).discards(
                    *final(self),
                    action,
                    if old(self).legacy {
                        "解压旧版备份失败: "@ + text@
                    } else {
                        "解压备份失败: "@ + text@
                    },
                ),
            },
    {
        match result {
            Ok(_) => {
                self.stage = RestoreStage::Validating;
                RestoreAction::LookAtPayload
            },
            Err(text) => {
                let message: String = if self.legacy {
                    cat2("解压旧版备份失败: ", text.as_str())
                } else {
                    cat2("解压备份失败: ", text.as_str())
                };
                self.discard(message)
            },
        }
    }

    /// What was unpacked was looked at. For an archive without a root only
    /// the tree counts.
    pub fn on_payload(&mut self, look: &PayloadLook) -> (action: RestoreAction)
        requires
            old(self).wf(),
            old(self).stage == RestoreStage::Validating,
        ensures
            *final(self) == (Restore {
                stage: final(self).stage,
                failure: final(self).failure,
                ..*old(self)
            }),
            final(self).wf(),
            restore_edge(old(self).stage, final(self).stage),
            ({
                let fault = if old(self).legacy {
                    extracted_fault(look.tree)
                } else {
                    payload_fault(*look, old(self).info->Some_0)
                };
                match fault {
                    None => *final(self) == (Restore {
                        stage: RestoreStage::Committing,
                        ..*old(self)
                    }) && action == RestoreAction::Commit,
                    Some(text) => old(self).discards(
                        *final(self),
                        action,
                        if old(self).legacy {
                            "旧版备份解压内容校验失败: "@ + text
                        } else {
                            "解压内容校验失败: "@ + text
                        },
                    ),
                }
            }),
    {
        let checked: Result<(), String> = if self.legacy {
            validate_extracted_tree(&look.tree)
        } else {
            match &self.info {
                Some(info) => validate_payload(look, info),
                None => Err(String::new()),
            }
        };
        match checked {
            Ok(_) => {
                self.stage = RestoreStage::Committing;
                RestoreAction::Commit
            },
            Err(text) => {
                let message: String = if self.legacy {
                    cat2("旧版备份解压内容校验失败: ", text.as_str())
                } else {
                    cat2("解压内容校验失败: ", text.as_str())
                };
                self.discard(message)
            },
        }
    }

    /// The result that the plan announces, with a warning.
    pub open spec fn announces(
        plan: RestorePlan,
        result: RestoreSavedataResult,
        warning: Option<Seq<char>>,
    ) -> bool {
        &&& result.restored_path@ == plan.final_path@
        &&& result.replaced_existing == plan.replace_existing
        &&& result.restored_to_alternate == plan.restored_to_alternate
        &&& option_view(result.cleanup_warning) == warning
    }

    fn finish(&mut self, warning: Option<String>) -> (action: RestoreAction)
        requires
            old(self).plan is Some,
            old(self).legacy ==> old(self).info is None,
        ensures
            *final(self) == (Restore {
                stage: final(self).stage,
                plan: final(self).plan,
                ..*old(self)
            }),
            final(self).wf(),
            final(self).stage == RestoreStage::Restored,
            action matches RestoreAction::Finish(Ok(done)) && Restore::announces(
                old(self).plan->Some_0,
                done,
                option_view(warning),
            ),
    {
        self.stage = RestoreStage::Restored;
        match self.plan.take() {
            Some(plan) => RestoreAction::Finish(
                Ok(
                    RestoreSavedataResult {
                        restored_path: plan.final_path,
                        replaced_existing: plan.replace_existing,
                        restored_to_alternate: plan.restored_to_alternate,
                        cleanup_warning: warning,
                    },
                ),
            ),
            None => RestoreAction::Finish(Err(String::new())),
        }
    }

    /// The exchange worked, perhaps with a warning, or not.
    pub fn on_committed(&mut self, result: Result<Option<String>, String>) -> (action:
        RestoreAction)
        requires
            old(self).wf(),
            old(self).stage == RestoreStage::Committing,
        ensures
            *final(self) == (Restore {
                stage: final(self).stage,
                plan: final(self).plan,
                warning: final(self).warning,
                failure: final(self).failure,
                ..*old(self)
            }),
            final(self).wf(),
            restore_edge(old(self).stage, final(self).stage),
            match result {
                Err(text) => old(self).discards(*final(self), action, text@),
                Ok(warning) => if old(self).legacy {
                    &&& final(self).stage == RestoreStage::Restored
                    &&& action matches RestoreAction::Finish(Ok(done)) && Restore::announces(
                        old(self).plan->Some_0,
                        done,
                        option_view(warning),
                    )
                } else {
                    &&& *final(self) == (Restore {
                        stage: RestoreStage::Tidying,
                        warning,
                        ..*old(self)
                    })
                    &&& action == RestoreAction::RemoveStaging
                },
            },
    {
        match result {
            Err(text) => self.discard(text),
            Ok(warning) => {
                if self.legacy {
                    self.finish(warning)
                } else {
                    self.warning = warning;
                    self.stage = RestoreStage::Tidying;
                    RestoreAction::RemoveStaging
                }
            },
        }
    }

    /// The staging directory was removed, or not. After success a failure is
    /// only a warning, unless the directory was gone anyway.
    pub fn on_staging_removed(&mut self, result: Result<(), IoFailure>) -> (action: RestoreAction)
        requires
            old(self).wf(),
            old(self).stage == RestoreStage::Discarding || old(self).stage
                == RestoreStage::Tidying,
        ensures
            *final(self) == (Restore {
                stage: final(self).stage,
                plan: final(self).plan,
                warning: final(self).warning,
                failure: final(self).failure,
                ..*old(self)
            }),
            final(self).wf(),
            restore_edge(old(self).stage, final(self).stage),
            if old(self).stage == RestoreStage::Discarding {
                Restore::fails(*final(self), action, old(self).failure->Some_0@)
            } else {
                &&& final(self).stage == RestoreStage::Restored
                &&& action matches RestoreAction::Finish(Ok(done)) && Restore::announces(
                    old(self).plan->Some_0,
                    done,
                    match result {
                        Err(failure) => if failure.kind != IoKind::NotFound {
                            let text = "恢复成功，但清理临时目录 "@ + old(self).staging@
                                + " 失败: "@ + failure.text@;
                            match old(self).warning {
                                Some(earlier) => Some(earlier@ + "；"@ + text),
                                None => Some(text),
                            }
                        } else {
                            option_view(old(self).warning)
                        },
                        Ok(_) => option_view(old(self).warning),
                    },
                )
            },
    {
        match self.stage {
            RestoreStage::Discarding => match self.failure.take() {
                Some(text) => self.fail(text),
                None => self.fail(String::new()),
            },
            _ => {
                let earlier: Option<String> = self.warning.take();
                let warning: Option<String> = match result {
                    Ok(_) => earlier,
                    Err(failure) => {
                        if failure.kind != IoKind::NotFound {
                            let text: String = cat4(
                                "恢复成功，但清理临时目录 ",
                                self.staging.as_str(),
                                " 失败: ",
                                failure.text.as_str(),
                            );
                            match earlier {
                                Some(earlier) => Some(cat3(earlier.as_str(), "；", text.as_str())),
                                None => Some(text),
                            }
                        } else {
                            earlier
                        }
                    },
                };
                self.finish(warning)
            },
        }
    }
}

/// A restore reports the place that was planned, whether something was
/// replaced there and whether it is another place than configured.
pub proof fn restores_report_what_was_planned(
    plan: RestorePlan,
    result: RestoreSavedataResult,
    warning: Option<Seq<char>>,
)
    requires
        Restore::announces(plan, result, warning),
    ensures
        result.restored_path@ == plan.final_path@,
        result.replaced_existing <==> plan.replace_existing,
        result.restored_to_alternate <==> plan.restored_to_alternate,
        result.cleanup_warning is Some <==> warning is Some,
        warning matches Some(text) ==> result.cleanup_warning->Some_0@ == text,
{
}

/// A restore that fails says why; what was unpacked is removed first, and the
/// cause kept until then.
pub proof fn failed_restores_keep_their_cause(
    restore: Restore,
    after: Restore,
    action: RestoreAction,
    message: Seq<char>,
)
    ensures
        Restore::fails(after, action, message) ==> (action matches RestoreAction::Finish(Err(text))
            && text@ == message),
        restore.discards(after, action, message) ==> action == RestoreAction::RemoveStaging
            && after.failure is Some && after.failure->Some_0@ == message && after.plan
            == restore.plan && after.staging == restore.staging,
{
}

} // verus!
