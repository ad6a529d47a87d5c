//! Failures of a move of the backup root, and how they are worded.

use vstd::prelude::*;
use vstd::string::*;

use crate::text::concat::{cat2, join, joined, option_view, views};

verus! {

/// One thing that went wrong, with the paths it concerns.
#[derive(Clone, Debug)]
pub struct SavedataBackupMigrationFailure {
    pub source_path: Option<String>,
    pub target_path: Option<String>,
    pub message: String,
}

/// A failure as plain values.
pub struct FailureView {
    pub source: Option<Seq<char>>,
    pub target: Option<Seq<char>>,
    pub message: Seq<char>,
}

impl View for SavedataBackupMigrationFailure {
    type V = FailureView;

    open spec fn view(&self) -> FailureView {
        FailureView {
            source: option_view(self.source_path),
            target: option_view(self.target_path),
            message: self.message@,
        }
    }
}

/// Plain values of a list of failures.
pub open spec fn failure_views(failures: Seq<SavedataBackupMigrationFailure>) -> Seq<FailureView> {
    Seq::new(failures.len(), |i: int| failures[i]@)
}

/// A failure that concerns both paths.
pub open spec fn both(source: Seq<char>, target: Seq<char>, message: Seq<char>) -> FailureView {
    FailureView { source: Some(source), target: Some(target), message }
}

/// A failure that concerns the source.
pub open spec fn about_source(source: Seq<char>, message: Seq<char>) -> FailureView {
    FailureView { source: Some(source), target: None, message }
}

/// A failure that concerns the target.
pub open spec fn about_target(target: Seq<char>, message: Seq<char>) -> FailureView {
    FailureView { source: None, target: Some(target), message }
}

pub fn fail_both(source: &str, target: &str, message: &str) -> (failure:
    SavedataBackupMigrationFailure)
    ensures
        failure@ == both(source@, target@, message@),
{
    SavedataBackupMigrationFailure {
        source_path: Some(source.to_owned()),
        target_path: Some(target.to_owned()),
        message: message.to_owned(),
    }
}

pub fn fail_source(source: &str, message: &str) -> (failure: SavedataBackupMigrationFailure)
    ensures
        failure@ == about_source(source@, message@),
{
    SavedataBackupMigrationFailure {
        source_path: Some(source.to_owned()),
        target_path: None,
        message: message.to_owned(),
    }
}

pub fn fail_target(target: &str, message: &str) -> (failure: SavedataBackupMigrationFailure)
    ensures
        failure@ == about_target(target@, message@),
{
    SavedataBackupMigrationFailure {
        source_path: None,
        target_path: Some(target.to_owned()),
        message: message.to_owned(),
    }
}

/// Adds one failure to a list.
pub fn note(failures: &mut Vec<SavedataBackupMigrationFailure>, failure: SavedataBackupMigrationFailure)
    ensures
        failure_views(final(failures)@) == failure_views(old(failures)@).push(failure@),
        final(failures)@.len() == old(failures)@.len() + 1,
{
    failures.push(failure);
    assert(failure_views(failures@) =~= failure_views(old(failures)@).push(failure@));
}

/// Adds a list of failures to another.
pub fn note_all(
    failures: &mut Vec<SavedataBackupMigrationFailure>,
    mut more: Vec<SavedataBackupMigrationFailure>,
)
    ensures
        failure_views(final(failures)@) == failure_views(old(failures)@) + failure_views(more@),
        final(failures)@.len() == old(failures)@.len() + more@.len(),
{
    let ghost added = more@;
    failures.append(&mut more);
    assert(failure_views(failures@) =~= failure_views(old(failures)@) + failure_views(added));
}

/// A list of one failure.
pub fn single(failure: SavedataBackupMigrationFailure) -> (failures: Vec<
    SavedataBackupMigrationFailure,
>)
    ensures
        failure_views(failures@) == seq![failure@],
{
    let ghost view = failure@;
    let mut failures: Vec<SavedataBackupMigrationFailure> = Vec::new();
    failures.push(failure);
    assert(failure_views(failures@) =~= seq![view]);
    failures
}

/// The present parts of a failure, joined by arrows.
pub open spec fn failure_text(failure: FailureView) -> Seq<char> {
    let source = match failure.source {
        Some(path) => seq![path],
        None => Seq::empty(),
    };
    let target = match failure.target {
        Some(path) => seq![path],
        None => Seq::empty(),
    };
    joined(source + target + seq![failure.message], " → "@)
}

/// The message of a move that did not happen.
pub open spec fn failures_text(failures: Seq<FailureView>) -> Seq<char> {
    let details = joined(
        Seq::new(failures.len(), |i: int| failure_text(failures[i])),
        "；"@,
    );
    if details.len() == 0 {
        "存档备份目录迁移失败，配置未切换"@
    } else {
        "存档备份目录迁移失败，配置未切换: "@ + details
    }
}

fn one_failure(failure: &SavedataBackupMigrationFailure) -> (text: String)
    ensures
        text@ == failure_text(failure@),
{
    let mut parts: Vec<String> = Vec::new();
    if let Some(path) = &failure.source_path {
        parts.push(path.clone());
    }
    if let Some(path) = &failure.target_path {
        parts.push(path.clone());
    }
    parts.push(failure.message.clone());
    proof {
        let view = failure@;
        let source = match view.source {
            Some(path) => seq![path],
            None => Seq::empty(),
        };
        let target = match view.target {
            Some(path) => seq![path],
            None => Seq::empty(),
        };
        assert(views(parts@) =~= source + target + seq![view.message]);
    }
    join(&parts, " → ")
}

/// Words a list of failures for users.
pub fn format_migration_failures(failures: &Vec<SavedataBackupMigrationFailure>) -> (text: String)
    ensures
        text@ == failures_text(failure_views(failures@)),
{
    let mut details: Vec<String> = Vec::new();
    let mut at: usize = 0;
    let ghost all = failure_views(failures@);
    while at < failures.len()
        invariant
            at <= failures@.len(),
            all == failure_views(failures@),
            views(details@) == Seq::new(at as nat, |i: int| failure_text(all[i])),
        decreases failures@.len() - at,
    {
        let ghost before = details@;
        let text: String = one_failure(&failures[at]);
        let ghost added = text@;
        details.push(text);
        assert(views(details@) =~= views(before).push(added));
        at += 1;
        assert(views(details@) =~= Seq::new(at as nat, |i: int| failure_text(all[i])));
    }
    assert(views(details@) =~= Seq::new(all.len(), |i: int| failure_text(all[i])));
    let joined_details: String = join(&details, "；");
    if joined_details.as_str().unicode_len() == 0 {
        "存档备份目录迁移失败，配置未切换".to_owned()
    } else {
        cat2("存档备份目录迁移失败，配置未切换: ", joined_details.as_str())
    }
}

/// A failure is worded with the paths it concerns, the source first, and then
/// its message.
pub proof fn failures_name_their_paths(source: Seq<char>, target: Seq<char>, message: Seq<char>)
    ensures
        failure_text(both(source, target, message)) == source + " → "@ + target + " → "@ + message,
        failure_text(about_source(source, message)) == source + " → "@ + message,
        failure_text(about_target(target, message)) == target + " → "@ + message,
        failure_text(FailureView { source: None, target: None, message }) == message,
{
    reveal_with_fuel(joined, 3);
    let three = seq![source] + seq![target] + seq![message];
    assert(three.drop_last() =~= seq![source, target]);
    assert(seq![source, target].drop_last() =~= seq![source]);
    assert(three.last() == message);
    assert(joined(three, " → "@) == joined(three.drop_last(), " → "@) + " → "@ + message);
    assert(joined(seq![source, target], " → "@) == source + " → "@ + target);
    let left = seq![source] + Seq::<Seq<char>>::empty() + seq![message];
    assert(left.drop_last() =~= seq![source]);
    assert(left.last() == message);
    let right = Seq::<Seq<char>>::empty() + seq![target] + seq![message];
    assert(right.drop_last() =~= seq![target]);
    assert(right.last() == message);
    let none = Seq::<Seq<char>>::empty() + Seq::<Seq<char>>::empty() + seq![message];
    assert(none =~= seq![message]);
}

/// A move that did not happen says so first; each failure is added behind the
/// ones before it.
pub proof fn failures_are_listed_in_order(failures: Seq<FailureView>, failure: FailureView)
    ensures
        failures_text(Seq::empty()) == "存档备份目录迁移失败，配置未切换"@,
        failure_text(failure).len() > 0 ==> failures_text(seq![failure])
            == "存档备份目录迁移失败，配置未切换: "@ + failure_text(failure),
        failures.len() > 1 || (failures.len() == 1 && failure_text(failures[0]).len() > 0)
            ==> failures_text(failures.push(failure)) == failures_text(failures) + "；"@
            + failure_text(failure),
{
    reveal_with_fuel(joined, 2);
    reveal_strlit("；");
    let texts = Seq::new(failures.len(), |i: int| failure_text(failures[i]));
    let more = failures.push(failure);
    let longer = Seq::new(more.len(), |i: int| failure_text(more[i]));
    assert(longer.drop_last() =~= texts);
    let one = seq![failure];
    assert(Seq::new(one.len(), |i: int| failure_text(one[i])) =~= seq![failure_text(failure)]);
    let none = Seq::<FailureView>::empty();
    assert(Seq::new(none.len(), |i: int| failure_text(none[i])) =~= Seq::<Seq<char>>::empty());
    if failures.len() > 0 {
        assert(longer.last() == failure_text(failure));
        assert(joined(longer, "；"@) == joined(texts, "；"@) + "；"@ + failure_text(failure));
        if failures.len() > 1 || failure_text(failures[0]).len() > 0 {
            assert(texts.len() > 1 ==> joined(texts, "；"@) == joined(texts.drop_last(), "；"@)
                + "；"@ + texts.last());
            assert(joined(texts, "；"@).len() > 0);
            assert(failures_text(more) =~= failures_text(failures) + "；"@ + failure_text(failure));
        }
    }
}

/// Every failure of a list is seen, in its place, with both paths.
pub proof fn views_show_every_failure(failures: Seq<SavedataBackupMigrationFailure>, at: int)
    requires
        0 <= at < failures.len(),
    ensures
        failure_views(failures).len() == failures.len(),
        failure_views(failures)[at].source == option_view(failures[at].source_path),
        failure_views(failures)[at].target == option_view(failures[at].target_path),
        failure_views(failures)[at].message == failures[at].message@,
{
}

} // verus!
