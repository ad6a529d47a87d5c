//! What all backups share: names that do not collide, batches of automatic
//! backups, and the switch that ends backups before the database goes away.

use vstd::prelude::*;

use crate::host::IoFailure;
use crate::text::concat::{cat2, cat3, cat4, cat7, views};
use crate::text::number::{decimal, decimal3, decimal3_text, decimal_text, wide_decimal_text};
use crate::text::order::{ascending, before, before_irreflexive, insert_ascending};
use crate::text::scan::{strip_prefix, strip_suffix, without_prefix, without_suffix};

verus! {

pub const DATABASE_AUTO_PREFIX: &'static str = "reina_manager_auto_";

pub const DATABASE_AUTO_EXTENSION: &'static str = ".db";

pub const COVERS_AUTO_PREFIX: &'static str = "custom_covers_auto_";

pub const COVERS_AUTO_EXTENSION: &'static str = ".7z";

/// A finished backup.
#[derive(Clone, Debug)]
pub struct BackupResult {
    pub success: bool,
    pub path: Option<String>,
    pub message: String,
}

/// Whether the database can still be backed up. Starts out true and turns
/// false for good once the connection is closed.
#[derive(Clone, Copy, Debug, PartialEq, Eq, Structural)]
pub struct BackupAvailability {
    pub available: bool,
}

impl BackupAvailability {
    pub fn new() -> (state: BackupAvailability)
        ensures
            state.available,
    {
        BackupAvailability { available: true }
    }
}

/// Refuses backups once the database is being closed.
pub fn ensure_database_backup_available(state: &BackupAvailability) -> (result: Result<(), String>)
    ensures
        if state.available {
            result is Ok
        } else {
            result matches Err(text) && text@ == "数据库正在关闭或等待应用重启，无法继续备份"@
        },
{
    if state.available {
        Ok(())
    } else {
        Err("数据库正在关闭或等待应用重启，无法继续备份".to_owned())
    }
}

/// Ends backups for the rest of the process.
pub fn mark_database_backup_unavailable(state: &mut BackupAvailability)
    ensures
        !final(state).available,
{
    state.available = false;
}

/// The answer to a look at one candidate name in a directory.
#[derive(Debug)]
pub enum NameLookup {
    Taken,
    Free,
    /// The look itself failed; `path` is the path as shown to users.
    Failed { path: String, failure: IoFailure },
}

/// The lookup gave this answer for this name.
pub open spec fn answered<F: Fn(&str) -> NameLookup>(
    lookup: F,
    name: Seq<char>,
    answer: NameLookup,
) -> bool {
    exists|text: &str| text@ == name && #[trigger] call_ensures(lookup, (text,), answer)
}

/// The id of attempt `suffix`: the timestamp, with a number from the second
/// attempt on.
pub open spec fn backup_id(timestamp: Seq<char>, suffix: nat) -> Seq<char> {
    if suffix == 0 {
        timestamp
    } else {
        timestamp + "_"@ + decimal3(suffix)
    }
}

/// The file name of one artifact under an id.
pub open spec fn artifact_name(artifact: (String, String), id: Seq<char>) -> Seq<char> {
    artifact.0@ + id + artifact.1@
}

/// The first `count` artifacts were found free under the id.
pub open spec fn first_free<F: Fn(&str) -> NameLookup>(
    lookup: F,
    artifacts: Seq<(String, String)>,
    id: Seq<char>,
    count: int,
) -> bool {
    forall|i: int|
        0 <= i < count ==> answered(
            lookup,
            artifact_name(#[trigger] artifacts[i], id),
            NameLookup::Free,
        )
}

/// Some artifact was found taken under the id, those before it free.
pub open spec fn id_taken<F: Fn(&str) -> NameLookup>(
    lookup: F,
    artifacts: Seq<(String, String)>,
    id: Seq<char>,
) -> bool {
    exists|i: int|
        0 <= i < artifacts.len() && answered(
            lookup,
            artifact_name(#[trigger] artifacts[i], id),
            NameLookup::Taken,
        ) && first_free(lookup, artifacts, id, i)
}

/// The attempts before `suffix` were all found taken.
pub open spec fn earlier_taken<F: Fn(&str) -> NameLookup>(
    lookup: F,
    artifacts: Seq<(String, String)>,
    timestamp: Seq<char>,
    suffix: nat,
) -> bool {
    forall|j: nat|
        j < suffix ==> id_taken(lookup, artifacts, #[trigger] backup_id(timestamp, j))
}

/// The look at artifact `index` under attempt `suffix` failed with this text.
pub open spec fn lookup_failed<F: Fn(&str) -> NameLookup>(
    lookup: F,
    artifacts: Seq<(String, String)>,
    id: Seq<char>,
    index: int,
    message: Seq<char>,
) -> bool {
    exists|path: String, failure: IoFailure|
        #[trigger] answered(
            lookup,
            artifact_name(artifacts[index], id),
            NameLookup::Failed { path, failure },
        ) && message == "检查备份文件名是否冲突失败 "@ + path@ + ": "@ + failure.text@
}

/// What the allocation of an id may come to, given what the lookups said.
pub open spec fn allocation<F: Fn(&str) -> NameLookup>(
    lookup: F,
    artifacts: Seq<(String, String)>,
    timestamp: Seq<char>,
    result: Result<Seq<char>, Seq<char>>,
) -> bool {
    match result {
        Ok(id) => exists|k: nat|
            k < 1000 && id == #[trigger] backup_id(timestamp, k) && first_free(
                lookup,
                artifacts,
                id,
                artifacts.len() as int,
            ) && earlier_taken(lookup, artifacts, timestamp, k),
        Err(message) => {
            ||| message == "同一时间生成的备份文件过多，请稍后重试"@ && earlier_taken(
                lookup,
                artifacts,
                timestamp,
                1000,
            )
            ||| exists|k: nat, i: int|
                k < 1000 && 0 <= i < artifacts.len() && #[trigger] lookup_failed(
                    lookup,
                    artifacts,
                    backup_id(timestamp, k),
                    i,
                    message,
                ) && first_free(lookup, artifacts, backup_id(timestamp, k), i)
                    && earlier_taken(lookup, artifacts, timestamp, k)
        },
    }
}

/// Views of a textual result.
pub open spec fn text_result(result: Result<String, String>) -> Result<Seq<char>, Seq<char>> {
    match result {
        Ok(text) => Ok(text@),
        Err(text) => Err(text@),
    }
}

/// Allocates an id under which none of the artifacts exists yet: the bare
/// timestamp, or the timestamp with the smallest free number. `artifacts`
/// lists prefix and extension of every file that will share the id.
pub fn next_backup_id<F: Fn(&str) -> NameLookup>(
    timestamp: &str,
    artifacts: &Vec<(String, String)>,
    lookup: &F,
) -> (result: Result<String, String>)
    requires
        forall|text: &str| #[trigger] call_requires(*lookup, (text,)),
    ensures
        allocation(*lookup, artifacts@, timestamp@, text_result(result)),
{
    let mut suffix: u64 = 0;
    while suffix < 1000
        invariant
            suffix <= 1000,
            forall|text: &str| #[trigger] call_requires(*lookup, (text,)),
            earlier_taken(*lookup, artifacts@, timestamp@, suffix as nat),
        decreases 1000 - suffix,
    {
        let id: String = if suffix == 0 {
            timestamp.to_owned()
        } else {
            cat3(timestamp, "_", decimal3_text(suffix).as_str())
        };
        assert(id@ == backup_id(timestamp@, suffix as nat));
        let mut taken: bool = false;
        let mut at: usize = 0;
        while at < artifacts.len() && !taken
            invariant
                at <= artifacts@.len(),
                suffix < 1000,
                forall|text: &str| #[trigger] call_requires(*lookup, (text,)),
                earlier_taken(*lookup, artifacts@, timestamp@, suffix as nat),
                id@ == backup_id(timestamp@, suffix as nat),
                !taken ==> first_free(*lookup, artifacts@, id@, at as int),
                taken ==> id_taken(*lookup, artifacts@, id@),
            decreases artifacts@.len() - at,
        {
            let name: String = cat3(
                artifacts[at].0.as_str(),
                id.as_str(),
                artifacts[at].1.as_str(),
            );
            assert(name@ == artifact_name(artifacts@[at as int], id@));
            let probe: &str = name.as_str();
            let answer: NameLookup = lookup(probe);
            assert(answered(*lookup, artifact_name(artifacts@[at as int], id@), answer));
            match answer {
                NameLookup::Taken => {
                    taken = true;
                    assert(id_taken(*lookup, artifacts@, id@));
                },
                NameLookup::Free => {
                    assert(first_free(*lookup, artifacts@, id@, at + 1));
                },
                NameLookup::Failed { path, failure } => {
                    let message: String = cat4(
                        "检查备份文件名是否冲突失败 ",
                        path.as_str(),
                        ": ",
                        failure.text.as_str(),
                    );
                    assert(lookup_failed(
                        *lookup,
                        artifacts@,
                        backup_id(timestamp@, suffix as nat),
                        at as int,
                        message@,
                    ));
                    return Err(message);
                },
            }
            at += 1;
        }
        if !taken {
            return Ok(id);
        }
        assert(id_taken(*lookup, artifacts@, backup_id(timestamp@, suffix as nat)));
        suffix += 1;
    }
    Err("同一时间生成的备份文件过多，请稍后重试".to_owned())
}

/// Allocates the file name of a backup with a single artifact.
pub fn next_backup_filename<F: Fn(&str) -> NameLookup>(
    prefix: &str,
    timestamp: &str,
    extension: &str,
    lookup: &F,
) -> (result: Result<String, String>)
    requires
        forall|text: &str| #[trigger] call_requires(*lookup, (text,)),
    ensures
        exists|artifacts: Seq<(String, String)>, id: Result<Seq<char>, Seq<char>>|
            artifacts.len() == 1 && artifacts[0].0@ == prefix@ && artifacts[0].1@ == extension@
                && #[trigger] allocation(*lookup, artifacts, timestamp@, id) && text_result(result)
                == match id {
                Ok(id) => Ok::<Seq<char>, Seq<char>>(prefix@ + id + extension@),
                Err(message) => Err(message),
            },
{
    let mut artifacts: Vec<(String, String)> = Vec::new();
    artifacts.push((prefix.to_owned(), extension.to_owned()));
    let allocated: Result<String, String> = next_backup_id(timestamp, &artifacts, lookup);
    let ghost id = text_result(allocated);
    assert(allocation(*lookup, artifacts@, timestamp@, id));
    match allocated {
        Ok(id) => Ok(cat3(prefix, id.as_str(), extension)),
        Err(message) => Err(message),
    }
}

/// Name of a temporary file beside a target.
pub open spec fn temporary_name(
    name: Seq<char>,
    marker: Seq<char>,
    process_id: u32,
    clock_nanos: u128,
    index: nat,
) -> Seq<char> {
    "."@ + name + "."@ + marker + "-"@ + decimal(process_id as nat) + "-"@ + decimal(
        clock_nanos as nat,
    ) + "-"@ + decimal(index)
}

/// The names before `index` were all found taken.
pub open spec fn temporary_taken<F: Fn(&str) -> NameLookup>(
    lookup: F,
    name: Seq<char>,
    marker: Seq<char>,
    process_id: u32,
    clock_nanos: u128,
    index: nat,
) -> bool {
    forall|j: nat|
        j < index ==> answered(
            lookup,
            #[trigger] temporary_name(name, marker, process_id, clock_nanos, j),
            NameLookup::Taken,
        )
}

/// What the search for a temporary name may come to, given what the lookups
/// said.
pub open spec fn temporary_search<F: Fn(&str) -> NameLookup>(
    lookup: F,
    name: Seq<char>,
    marker: Seq<char>,
    process_id: u32,
    clock_nanos: u128,
    result: Result<Seq<char>, Seq<char>>,
) -> bool {
    match result {
        Ok(found) => exists|k: nat|
            k < 1000 && found == #[trigger] temporary_name(
                name,
                marker,
                process_id,
                clock_nanos,
                k,
            ) && answered(lookup, found, NameLookup::Free) && temporary_taken(
                lookup,
                name,
                marker,
                process_id,
                clock_nanos,
                k,
            ),
        Err(message) => {
            ||| message == "无法生成唯一的临时文件路径"@ && temporary_taken(
                lookup,
                name,
                marker,
                process_id,
                clock_nanos,
                1000,
            )
            ||| exists|k: nat, path: String, failure: IoFailure|
                k < 1000 && #[trigger] answered(
                    lookup,
                    temporary_name(name, marker, process_id, clock_nanos, k),
                    NameLookup::Failed { path, failure },
                ) && message == "检查临时文件路径失败 "@ + path@ + ": "@ + failure.text@
                    && temporary_taken(lookup, name, marker, process_id, clock_nanos, k)
        },
    }
}

fn search_temporary<F: Fn(&str) -> NameLookup>(
    name: &str,
    marker: &str,
    process_id: u32,
    clock: u128,
    lookup: &F,
) -> (result: Result<String, String>)
    requires
        forall|text: &str| #[trigger] call_requires(*lookup, (text,)),
    ensures
        temporary_search(*lookup, name@, marker@, process_id, clock, text_result(result)),
{
    let mut index: u64 = 0;
    while index < 1000
        invariant
            index <= 1000,
            forall|text: &str| #[trigger] call_requires(*lookup, (text,)),
            temporary_taken(*lookup, name@, marker@, process_id, clock, index as nat),
        decreases 1000 - index,
    {
        let stem: String = cat4(".", name, ".", marker);
        let candidate: String = cat7(
            stem.as_str(),
            "-",
            decimal_text(process_id as u64).as_str(),
            "-",
            wide_decimal_text(clock).as_str(),
            "-",
            decimal_text(index).as_str(),
        );
        let ghost wanted = temporary_name(name@, marker@, process_id, clock, index as nat);
        assert(candidate@ == wanted);
        let probe: &str = candidate.as_str();
        let answer: NameLookup = lookup(probe);
        assert(answered(*lookup, wanted, answer));
        match answer {
            NameLookup::Taken => {},
            NameLookup::Free => {
                return Ok(candidate);
            },
            NameLookup::Failed { path, failure } => {
                return Err(
                    cat4(
                        "检查临时文件路径失败 ",
                        path.as_str(),
                        ": ",
                        failure.text.as_str(),
                    ),
                );
            },
        }
        index += 1;
    }
    Err("无法生成唯一的临时文件路径".to_owned())
}

/// Picks the name of a temporary file next to a target, so that it can be
/// renamed onto the target later. The first free index wins. `clock_nanos` is
/// the wall clock, if it can be read.
pub fn temporary_sibling_path<F: Fn(&str) -> NameLookup>(
    target: &str,
    has_parent: bool,
    file_name: &Option<String>,
    marker: &str,
    process_id: u32,
    clock_nanos: &Result<u128, String>,
    lookup: &F,
) -> (result: Result<String, String>)
    requires
        forall|text: &str| #[trigger] call_requires(*lookup, (text,)),
    ensures
        if !has_parent {
            result matches Err(text) && text@ == "目标文件缺少父目录: "@ + target@
        } else {
            match (*file_name, *clock_nanos) {
                (None, _) => result matches Err(text) && text@ == "目标文件缺少有效名称: "@ + target@,
                (Some(_), Err(error)) => result matches Err(text) && text@
                    == "获取临时文件时间失败: "@ + error@,
                (Some(name), Ok(clock)) => temporary_search(
                    *lookup,
                    name@,
                    marker@,
                    process_id,
                    clock,
                    text_result(result),
                ),
            }
        },
{
    if !has_parent {
        return Err(cat2("目标文件缺少父目录: ", target));
    }
    match file_name {
        None => Err(cat2("目标文件缺少有效名称: ", target)),
        Some(name) => match clock_nanos {
            Err(error) => Err(cat2("获取临时文件时间失败: ", error.as_str())),
            Ok(clock) => search_temporary(name.as_str(), marker, process_id, *clock, lookup),
        },
    }
}

/// The batch that an automatic backup file belongs to.
pub open spec fn batch_of(file_name: Seq<char>) -> Option<Seq<char>> {
    let database = match without_prefix(file_name, DATABASE_AUTO_PREFIX@) {
        Some(rest) => without_suffix(rest, DATABASE_AUTO_EXTENSION@),
        None => None,
    };
    let covers = match without_prefix(file_name, COVERS_AUTO_PREFIX@) {
        Some(rest) => without_suffix(rest, COVERS_AUTO_EXTENSION@),
        None => None,
    };
    let found = if database is Some {
        database
    } else {
        covers
    };
    match found {
        Some(id) => if id.len() == 0 {
            None
        } else {
            Some(id)
        },
        None => None,
    }
}

/// The batch id in the name of an automatic backup file.
pub fn extract_auto_backup_batch_id(file_name: &str) -> (batch: Option<String>)
    ensures
        crate::text::concat::option_view(batch) == batch_of(file_name@),
{
    let database: Option<&str> = match strip_prefix(file_name, DATABASE_AUTO_PREFIX) {
        Some(rest) => strip_suffix(rest, DATABASE_AUTO_EXTENSION),
        None => None,
    };
    let found: Option<&str> = match database {
        Some(id) => Some(id),
        None => match strip_prefix(file_name, COVERS_AUTO_PREFIX) {
            Some(rest) => strip_suffix(rest, COVERS_AUTO_EXTENSION),
            None => None,
        },
    };
    match found {
        Some(id) => {
            if id.unicode_len() == 0 {
                None
            } else {
                Some(id.to_owned())
            }
        },
        None => None,
    }
}

/// The files of one batch, in the order of the listing.
pub open spec fn members(files: Seq<Seq<char>>, id: Seq<char>) -> Seq<Seq<char>>
    decreases files.len(),
{
    if files.len() == 0 {
        Seq::empty()
    } else {
        let rest = members(files.drop_last(), id);
        if batch_of(files.last()) == Some(id) {
            rest.push(files.last())
        } else {
            rest
        }
    }
}

/// The files of several batches, batch by batch.
pub open spec fn gathered(files: Seq<Seq<char>>, ids: Seq<Seq<char>>) -> Seq<Seq<char>>
    decreases ids.len(),
{
    if ids.len() == 0 {
        Seq::empty()
    } else {
        gathered(files, ids.drop_last()) + members(files, ids.last())
    }
}

/// `ids` are the batches of the files, in ascending order.
pub open spec fn are_batches(files: Seq<Seq<char>>, ids: Seq<Seq<char>>) -> bool {
    &&& ascending(ids)
    &&& forall|id: Seq<char>|
        #![trigger ids.contains(id)]
        ids.contains(id) <==> exists|i: int|
            0 <= i < files.len() && #[trigger] batch_of(files[i]) == Some(id)
}

/// How many batches are kept: at least one.
pub open spec fn kept_batches(max_count: usize) -> nat {
    if max_count < 1 {
        1
    } else {
        max_count as nat
    }
}

/// The files to remove, given the batches in ascending order.
pub open spec fn surplus(files: Seq<Seq<char>>, ids: Seq<Seq<char>>, max_count: usize) -> Seq<
    Seq<char>,
> {
    if ids.len() <= kept_batches(max_count) {
        Seq::empty()
    } else {
        gathered(files, ids.take(ids.len() - kept_batches(max_count)))
    }
}

/// `removed` is what a rotation takes away.
pub open spec fn rotated(
    files: Seq<Seq<char>>,
    max_count: usize,
    removed: Seq<Seq<char>>,
) -> bool {
    exists|ids: Seq<Seq<char>>| #[trigger]
        are_batches(files, ids) && removed == surplus(files, ids, max_count)
}

proof fn members_belong(files: Seq<Seq<char>>, id: Seq<char>, name: Seq<char>)
    ensures
        members(files, id).contains(name) <==> files.contains(name) && batch_of(name) == Some(id),
    decreases files.len(),
{
    if files.len() > 0 {
        let rest = files.drop_last();
        members_belong(rest, id, name);
        assert(files =~= rest.push(files.last()));
        if files.contains(name) {
            let i = choose|i: int| 0 <= i < files.len() && files[i] == name;
            if i < rest.len() {
                assert(rest[i] == name);
            }
        }
        if rest.contains(name) {
            let i = choose|i: int| 0 <= i < rest.len() && rest[i] == name;
            assert(files[i] == name);
        }
        if name == files.last() {
            assert(files[files.len() - 1] == name);
        }
        let inner = members(rest, id);
        if batch_of(files.last()) == Some(id) {
            let longer = inner.push(files.last());
            if inner.contains(name) {
                let i = choose|i: int| 0 <= i < inner.len() && inner[i] == name;
                assert(longer[i] == name);
            }
            if name == files.last() {
                assert(longer[inner.len() as int] == name);
            }
            if longer.contains(name) {
                let i = choose|i: int| 0 <= i < longer.len() && longer[i] == name;
                if i < inner.len() {
                    assert(inner[i] == name);
                }
            }
        }
    }
}

proof fn gathered_belong(files: Seq<Seq<char>>, ids: Seq<Seq<char>>, name: Seq<char>)
    ensures
        gathered(files, ids).contains(name) <==> files.contains(name) && batch_of(name) is Some
            && ids.contains(batch_of(name)->Some_0),
    decreases ids.len(),
{
    if ids.len() > 0 {
        let rest = ids.drop_last();
        gathered_belong(files, rest, name);
        members_belong(files, ids.last(), name);
        let left = gathered(files, rest);
        let right = members(files, ids.last());
        let all = left + right;
        if left.contains(name) {
            let i = choose|i: int| 0 <= i < left.len() && left[i] == name;
            assert(all[i] == name);
        }
        if right.contains(name) {
            let i = choose|i: int| 0 <= i < right.len() && right[i] == name;
            assert(all[left.len() + i] == name);
        }
        if all.contains(name) {
            let i = choose|i: int| 0 <= i < all.len() && all[i] == name;
            if i < left.len() {
                assert(left[i] == name);
            } else {
                assert(right[i - left.len()] == name);
            }
        }
        if batch_of(name) is Some {
            let id = batch_of(name)->Some_0;
            if ids.contains(id) {
                let i = choose|i: int| 0 <= i < ids.len() && ids[i] == id;
                if i < rest.len() {
                    assert(rest[i] == id);
                }
            }
            if rest.contains(id) {
                let i = choose|i: int| 0 <= i < rest.len() && rest[i] == id;
                assert(ids[i] == id);
            }
            if id == ids.last() {
                assert(ids[ids.len() - 1] == id);
            }
        }
    }
}

/// A file that is not part of an automatic batch is never removed.
pub proof fn other_files_survive(
    files: Seq<Seq<char>>,
    ids: Seq<Seq<char>>,
    max_count: usize,
    name: Seq<char>,
)
    requires
        are_batches(files, ids),
        batch_of(name) is None,
    ensures
        !surplus(files, ids, max_count).contains(name),
{
    if ids.len() > kept_batches(max_count) {
        gathered_belong(files, ids.take(ids.len() - kept_batches(max_count)), name);
    }
}

/// A batch is removed as a whole or kept as a whole.
pub proof fn batches_stay_together(
    files: Seq<Seq<char>>,
    ids: Seq<Seq<char>>,
    max_count: usize,
    left: Seq<char>,
    right: Seq<char>,
)
    requires
        are_batches(files, ids),
        files.contains(left),
        files.contains(right),
        batch_of(left) == batch_of(right),
    ensures
        surplus(files, ids, max_count).contains(left) <==> surplus(files, ids, max_count).contains(
            right,
        ),
{
    if ids.len() > kept_batches(max_count) {
        let stale = ids.take(ids.len() - kept_batches(max_count));
        gathered_belong(files, stale, left);
        gathered_belong(files, stale, right);
    }
}

/// Whatever is removed is older than whatever is kept: a batch with a later
/// id than a kept one is kept too.
pub proof fn oldest_batches_go_first(
    files: Seq<Seq<char>>,
    ids: Seq<Seq<char>>,
    max_count: usize,
    kept: Seq<char>,
    removed: Seq<char>,
)
    requires
        are_batches(files, ids),
        files.contains(kept),
        files.contains(removed),
        batch_of(kept) is Some,
        !surplus(files, ids, max_count).contains(kept),
        surplus(files, ids, max_count).contains(removed),
    ensures
        batch_of(removed) is Some,
        before(batch_of(removed)->Some_0, batch_of(kept)->Some_0),
{
    let count = ids.len() - kept_batches(max_count);
    let stale = ids.take(count);
    gathered_belong(files, stale, kept);
    gathered_belong(files, stale, removed);
    let a = batch_of(removed)->Some_0;
    let b = batch_of(kept)->Some_0;
    let k = choose|k: int| 0 <= k < files.len() && files[k] == kept;
    assert(batch_of(files[k]) == Some(b));
    assert(ids.contains(b));
    let i = choose|i: int| 0 <= i < stale.len() && stale[i] == a;
    let j = choose|j: int| 0 <= j < ids.len() && ids[j] == b;
    if j < count {
        assert(stale[j] == b);
    }
    assert(ids[i] == a);
    assert(before(ids[i], ids[j]));
}

/// The wanted number of newest batches survives.
pub proof fn newest_batches_survive(files: Seq<Seq<char>>, ids: Seq<Seq<char>>, max_count: usize, at: int)
    requires
        are_batches(files, ids),
        0 <= at < ids.len(),
        at >= ids.len() - kept_batches(max_count),
    ensures
        forall|name: Seq<char>|
            batch_of(name) == Some(ids[at]) ==> !(#[trigger] surplus(
                files,
                ids,
                max_count,
            ).contains(name)),
{
    assert forall|name: Seq<char>| batch_of(name) == Some(ids[at]) implies !(#[trigger] surplus(
        files,
        ids,
        max_count,
    ).contains(name)) by {
        if ids.len() > kept_batches(max_count) {
            let count = ids.len() - kept_batches(max_count);
            let stale = ids.take(count);
            gathered_belong(files, stale, name);
            if stale.contains(ids[at]) {
                let i = choose|i: int| 0 <= i < stale.len() && stale[i] == ids[at];
                assert(ids[i] == ids[at]);
                assert(before(ids[i], ids[at]));
                before_irreflexive(ids[at]);
            }
        }
    }
}

fn collect_ids(files: &Vec<String>) -> (ids: Vec<String>)
    ensures
        are_batches(views(files@), views(ids@)),
{
    let mut ids: Vec<String> = Vec::new();
    let mut at: usize = 0;
    while at < files.len()
        invariant
            at <= files@.len(),
            ascending(views(ids@)),
            forall|id: Seq<char>|
                #![trigger views(ids@).contains(id)]
                views(ids@).contains(id) <==> exists|i: int|
                    0 <= i < at && #[trigger] batch_of(views(files@)[i]) == Some(id),
        decreases files@.len() - at,
    {
        let ghost earlier = views(ids@);
        let batch: Option<String> = extract_auto_backup_batch_id(files[at].as_str());
        if let Some(id) = batch {
            insert_ascending(&mut ids, id.as_str());
            proof {
                assert(batch_of(views(files@)[at as int]) == Some(id@));
                assert forall|other: Seq<char>|
                    #![trigger views(ids@).contains(other)]
                    views(ids@).contains(other) <==> exists|i: int|
                        0 <= i < at + 1 && #[trigger] batch_of(views(files@)[i]) == Some(other) by {
                    assert(earlier.contains(other) <==> exists|i: int|
                        0 <= i < at && #[trigger] batch_of(views(files@)[i]) == Some(other));
                }
            }
        } else {
            proof {
                assert(batch_of(views(files@)[at as int]) is None);
            }
        }
        at += 1;
    }
    ids
}

/// Lists the automatic backup files beyond the newest `max_count` batches, in
/// the order in which they are removed: oldest batch first.
pub fn batches_to_remove(files: &Vec<String>, max_count: usize) -> (removed: Vec<String>)
    ensures
        rotated(views(files@), max_count, views(removed@)),
{
    let keep: usize = if max_count < 1 {
        1
    } else {
        max_count
    };
    let ids: Vec<String> = collect_ids(files);
    let mut removed: Vec<String> = Vec::new();
    let ghost all = views(files@);
    assert(views(removed@) =~= Seq::<Seq<char>>::empty());
    if ids.len() <= keep {
        assert(are_batches(all, views(ids@)));
        return removed;
    }
    let count: usize = ids.len() - keep;
    let mut batch: usize = 0;
    while batch < count
        invariant
            batch <= count <= ids@.len(),
            all == views(files@),
            views(removed@) == gathered(all, views(ids@).take(batch as int)),
        decreases count - batch,
    {
        let ghost done = views(removed@);
        let ghost id = views(ids@)[batch as int];
        let mut at: usize = 0;
        assert(all.take(0) =~= Seq::<Seq<char>>::empty());
        assert(done + members(all.take(0), id) =~= done);
        while at < files.len()
            invariant
                at <= files@.len(),
                batch < count <= ids@.len(),
                all == views(files@),
                id == ids@[batch as int]@,
                views(removed@) == done + members(all.take(at as int), id),
            decreases files@.len() - at,
        {
            let found: Option<String> = extract_auto_backup_batch_id(files[at].as_str());
            let ghost earlier = removed@;
            assert(all.take(at + 1).drop_last() =~= all.take(at as int));
            assert(all.take(at + 1).last() == files@[at as int]@);
            if let Some(found) = found {
                if found == ids[batch] {
                    removed.push(files[at].clone());
                    assert(views(removed@) =~= views(earlier).push(files@[at as int]@));
                    assert(views(removed@) =~= done + members(all.take(at + 1), id));
                }
            }
            at += 1;
        }
        assert(all.take(at as int) =~= all);
        assert(views(ids@).take(batch + 1).drop_last() =~= views(ids@).take(batch as int));
        batch += 1;
    }
    assert(are_batches(all, views(ids@)));
    removed
}

/// A failed removal, with the path as shown to users.
#[derive(Debug)]
pub struct RemoveFailure {
    pub path: String,
    pub text: String,
}

fn copy_texts(texts: &Vec<String>) -> (copy: Vec<String>)
    ensures
        views(copy@) == views(texts@),
{
    let mut copy: Vec<String> = Vec::new();
    let mut at: usize = 0;
    while at < texts.len()
        invariant
            at <= texts@.len(),
            views(copy@) == views(texts@).take(at as int),
        decreases texts@.len() - at,
    {
        let ghost before = copy@;
        copy.push(texts[at].clone());
        proof {
            assert(views(copy@) =~= views(before).push(texts@[at as int]@));
            assert(views(texts@).take(at + 1) =~= views(texts@).take(at as int).push(
                texts@[at as int]@,
            ));
        }
        at += 1;
    }
    assert(views(texts@).take(at as int) =~= views(texts@));
    copy
}

/// What the host does next.
#[derive(Debug)]
pub enum BatchAction {
    /// Remove the file with this name.
    Remove(String),
    /// The names of the removed files, or why the rest stays.
    Finish(Result<Vec<String>, String>),
}

/// A removal of old automatic batches under way.
#[derive(Debug)]
pub struct BatchCleanup {
    /// The files to remove, in order.
    pub doomed: Vec<String>,
    /// How many of them are gone.
    pub removed: usize,
}

impl BatchCleanup {
    pub open spec fn wf(self) -> bool {
        self.removed <= self.doomed@.len()
    }

    /// The step that is due: the next file to remove, or the end.
    pub open spec fn asks(self, action: BatchAction) -> bool {
        if self.removed < self.doomed@.len() {
            action matches BatchAction::Remove(name) && name@ == self.doomed@[self.removed as int]@
        } else {
            action matches BatchAction::Finish(Ok(deleted)) && views(deleted@) == views(
                self.doomed@,
            )
        }
    }

    fn next_action(&self) -> (action: BatchAction)
        requires
            self.wf(),
        ensures
            self.asks(action),
    {
        if self.removed < self.doomed.len() {
            BatchAction::Remove(self.doomed[self.removed].clone())
        } else {
            BatchAction::Finish(Ok(copy_texts(&self.doomed)))
        }
    }

    /// The file that was due is gone, or could not be removed; then the rest
    /// stays.
    pub fn on_removed(&mut self, failure: Option<RemoveFailure>) -> (action: BatchAction)
        requires
            old(self).removed < old(self).doomed@.len(),
        ensures
            match failure {
                None => {
                    &&& *final(self) == (BatchCleanup {
                        removed: (old(self).removed + 1) as usize,
                        ..*old(self)
                    })
                    &&& final(self).wf()
                    &&& final(self).asks(action)
                },
                Some(failure) => {
                    &&& *final(self) == *old(self)
                    &&& action matches BatchAction::Finish(Err(message)) && message@
                        == "删除旧自动备份失败 "@ + failure.path@ + ": "@ + failure.text@
                },
            },
    {
        let count: usize = self.doomed.len();
        assert(self.removed < count);
        match failure {
            None => {
                self.removed = self.removed + 1;
                self.next_action()
            },
            Some(failure) => BatchAction::Finish(
                Err(
                    cat4(
                        "删除旧自动备份失败 ",
                        failure.path.as_str(),
                        ": ",
                        failure.text.as_str(),
                    ),
                ),
            ),
        }
    }
}

/// Begins to remove the automatic batches beyond the newest `max_count`,
/// oldest first. No other file is asked for, and the first one that cannot be
/// removed ends it.
pub fn cleanup_auto_backup_batches(files: &Vec<String>, max_count: usize) -> (started: (
    BatchCleanup,
    BatchAction,
))
    ensures
        started.0.wf(),
        started.0.removed == 0,
        rotated(views(files@), max_count, views(started.0.doomed@)),
        started.0.asks(started.1),
{
    let cleanup: BatchCleanup = BatchCleanup {
        doomed: batches_to_remove(files, max_count),
        removed: 0,
    };
    let action: BatchAction = cleanup.next_action();
    (cleanup, action)
}

proof fn members_once(files: Seq<Seq<char>>, id: Seq<char>)
    requires
        files.no_duplicates(),
    ensures
        members(files, id).no_duplicates(),
    decreases files.len(),
{
    if files.len() > 0 {
        let earlier = files.drop_last();
        assert(earlier.no_duplicates());
        members_once(earlier, id);
        let rest = members(earlier, id);
        if batch_of(files.last()) == Some(id) {
            members_belong(earlier, id, files.last());
            assert(!earlier.contains(files.last())) by {
                if earlier.contains(files.last()) {
                    let i = choose|i: int| 0 <= i < earlier.len() && earlier[i] == files.last();
                    assert(files[i] == files[files.len() - 1]);
                }
            }
            assert(!rest.contains(files.last()));
            let all = rest.push(files.last());
            assert forall|i: int, j: int|
                0 <= i < all.len() && 0 <= j < all.len() && i != j implies all[i] != all[j] by {
                if i == rest.len() {
                    assert(rest.contains(rest[j]));
                } else if j == rest.len() {
                    assert(rest.contains(rest[i]));
                }
            }
        }
    }
}

proof fn gathered_once(files: Seq<Seq<char>>, ids: Seq<Seq<char>>)
    requires
        files.no_duplicates(),
        ids.no_duplicates(),
    ensures
        gathered(files, ids).no_duplicates(),
    decreases ids.len(),
{
    if ids.len() > 0 {
        let earlier = ids.drop_last();
        assert(earlier.no_duplicates());
        gathered_once(files, earlier);
        members_once(files, ids.last());
        let left = gathered(files, earlier);
        let right = members(files, ids.last());
        let all = left + right;
        assert forall|i: int, j: int|
            0 <= i < all.len() && 0 <= j < all.len() && i != j implies all[i] != all[j] by {
            if i < left.len() && j >= left.len() {
                assert(left.contains(all[i]) && right.contains(all[j]));
                apart(files, ids, all[i], all[j]);
            } else if j < left.len() && i >= left.len() {
                assert(left.contains(all[j]) && right.contains(all[i]));
                apart(files, ids, all[j], all[i]);
            } else if i < left.len() {
                assert(left[i] != left[j]);
            } else {
                assert(right[i - left.len()] != right[j - left.len()]);
            }
        }
    }
}

proof fn apart(files: Seq<Seq<char>>, ids: Seq<Seq<char>>, left: Seq<char>, right: Seq<char>)
    requires
        ids.len() > 0,
        ids.no_duplicates(),
        gathered(files, ids.drop_last()).contains(left),
        members(files, ids.last()).contains(right),
    ensures
        left != right,
{
    gathered_belong(files, ids.drop_last(), left);
    members_belong(files, ids.last(), right);
    if left == right {
        let earlier = ids.drop_last();
        let i = choose|i: int| 0 <= i < earlier.len() && earlier[i] == ids.last();
        assert(ids[i] == ids[ids.len() - 1]);
    }
}

/// The removed files are exactly those of the batches beyond the newest ones,
/// each listed once: whatever lies in a kept batch, or in none, stays.
pub proof fn removals_are_exact(
    files: Seq<Seq<char>>,
    ids: Seq<Seq<char>>,
    max_count: usize,
    name: Seq<char>,
)
    requires
        are_batches(files, ids),
        files.no_duplicates(),
    ensures
        surplus(files, ids, max_count).no_duplicates(),
        surplus(files, ids, max_count).contains(name) <==> files.contains(name) && exists|i: int|
            0 <= i < ids.len() - kept_batches(max_count) && batch_of(name) == Some(
                #[trigger] ids[i],
            ),
{
    if ids.len() > kept_batches(max_count) {
        let count = ids.len() - kept_batches(max_count);
        let stale = ids.take(count);
        assert forall|i: int, j: int|
            0 <= i < stale.len() && 0 <= j < stale.len() && i != j implies stale[i] != stale[j] by {
            if i < j {
                assert(before(ids[i], ids[j]));
            } else {
                assert(before(ids[j], ids[i]));
            }
            before_irreflexive(ids[i]);
        }
        gathered_once(files, stale);
        gathered_belong(files, stale, name);
        if batch_of(name) is Some && stale.contains(batch_of(name)->Some_0) {
            let i = choose|i: int| 0 <= i < stale.len() && stale[i] == batch_of(name)->Some_0;
            assert(ids[i] == stale[i]);
        }
        if exists|i: int| 0 <= i < count && batch_of(name) == Some(#[trigger] ids[i]) {
            let i = choose|i: int| 0 <= i < count && batch_of(name) == Some(#[trigger] ids[i]);
            assert(stale[i] == ids[i]);
        }
    }
}

/// What the configured backup directory came to.
#[derive(Debug)]
pub enum CustomDirectory {
    /// None is configured.
    Unset,
    /// It resolves to an existing directory.
    Usable(String),
    /// It does not resolve, or not to a directory.
    Unusable,
}

/// The configured directory, if it can be used.
pub open spec fn chosen_dir(custom: CustomDirectory) -> Option<String> {
    match custom {
        CustomDirectory::Usable(path) => Some(path),
        _ => None,
    }
}

/// Picks the backup directory: a usable configured one, else the default.
/// `None` means that the default one is to be created and used.
pub fn choose_backup_dir(custom: CustomDirectory) -> (chosen: Option<String>)
    ensures
        chosen == chosen_dir(custom),
{
    match custom {
        CustomDirectory::Usable(path) => Some(path),
        _ => None,
    }
}

/// The file is an automatic backup of the database or of the covers, and part
/// of this batch.
pub open spec fn named_for(name: Seq<char>, id: Seq<char>) -> bool {
    &&& id.len() > 0
    &&& name == "reina_manager_auto_"@ + id + ".db"@ || name == "custom_covers_auto_"@ + id
        + ".7z"@
}

/// A file belongs to a batch exactly if it is named for it: prefix, id and
/// extension, of the database or of the covers. No other file belongs to any.
pub proof fn batches_are_in_the_names(name: Seq<char>, id: Seq<char>)
    ensures
        batch_of(name) == Some(id) <==> named_for(name, id),
{
    reveal_strlit("reina_manager_auto_");
    reveal_strlit("custom_covers_auto_");
    let database = without_prefix(name, DATABASE_AUTO_PREFIX@);
    let covers = without_prefix(name, COVERS_AUTO_PREFIX@);
    crate::text::scan::prefix_and_rest(name, "reina_manager_auto_"@, id + ".db"@);
    crate::text::scan::prefix_and_rest(name, "custom_covers_auto_"@, id + ".7z"@);
    assert("reina_manager_auto_"@ + id + ".db"@ =~= "reina_manager_auto_"@ + (id + ".db"@));
    assert("custom_covers_auto_"@ + id + ".7z"@ =~= "custom_covers_auto_"@ + (id + ".7z"@));
    if database is Some {
        crate::text::scan::prefix_and_rest(name, "reina_manager_auto_"@, database->Some_0);
        crate::text::scan::rest_and_suffix(database->Some_0, ".db"@, id);
        assert(name[0] == 'r');
    }
    if covers is Some {
        crate::text::scan::prefix_and_rest(name, "custom_covers_auto_"@, covers->Some_0);
        crate::text::scan::rest_and_suffix(covers->Some_0, ".7z"@, id);
        assert(name[0] == 'c');
    }
    if name == "reina_manager_auto_"@ + id + ".db"@ {
        crate::text::scan::rest_and_suffix(id + ".db"@, ".db"@, id);
    }
    if name == "custom_covers_auto_"@ + id + ".7z"@ {
        crate::text::scan::rest_and_suffix(id + ".7z"@, ".7z"@, id);
    }
}

proof fn ascending_lists_are_equal(left: Seq<Seq<char>>, right: Seq<Seq<char>>)
    requires
        ascending(left),
        ascending(right),
        forall|id: Seq<char>| #[trigger] left.contains(id) <==> right.contains(id),
    ensures
        left == right,
    decreases left.len(),
{
    if left.len() == 0 {
        if right.len() > 0 {
            assert(right.contains(right[0]));
            assert(left.contains(right[0]));
        }
        assert(left =~= right);
    } else {
        let a = left.last();
        assert(left[left.len() - 1] == a);
        assert(left.contains(a));
        assert(right.contains(a));
        let b = right.last();
        assert(right[right.len() - 1] == b);
        assert(right.contains(b));
        assert(left.contains(b));
        let i = choose|i: int| 0 <= i < right.len() && right[i] == a;
        let j = choose|j: int| 0 <= j < left.len() && left[j] == b;
        if i < right.len() - 1 && j < left.len() - 1 {
            assert(before(right[i], right[right.len() - 1]));
            assert(before(left[j], left[left.len() - 1]));
            crate::text::order::before_transitive(a, b, a);
            before_irreflexive(a);
        }
        assert(a == b);
        let (shorter, other) = (left.drop_last(), right.drop_last());
        assert forall|id: Seq<char>| #[trigger] shorter.contains(id) <==> other.contains(id) by {
            if shorter.contains(id) {
                let k = choose|k: int| 0 <= k < shorter.len() && shorter[k] == id;
                assert(left[k] == id);
                assert(left.contains(id));
                assert(right.contains(id));
                let m = choose|m: int| 0 <= m < right.len() && right[m] == id;
                if m == right.len() - 1 {
                    assert(before(left[k], left[left.len() - 1]));
                    before_irreflexive(a);
                }
                assert(other[m] == id);
            }
            if other.contains(id) {
                let k = choose|k: int| 0 <= k < other.len() && other[k] == id;
                assert(right[k] == id);
                assert(right.contains(id));
                assert(left.contains(id));
                let m = choose|m: int| 0 <= m < left.len() && left[m] == id;
                if m == left.len() - 1 {
                    assert(before(right[k], right[right.len() - 1]));
                    before_irreflexive(b);
                }
                assert(shorter[m] == id);
            }
        }
        assert forall|i: int, j: int| 0 <= i < j < shorter.len() implies before(
            #[trigger] shorter[i],
            #[trigger] shorter[j],
        ) by {
            assert(before(left[i], left[j]));
        }
        assert forall|i: int, j: int| 0 <= i < j < other.len() implies before(
            #[trigger] other[i],
            #[trigger] other[j],
        ) by {
            assert(before(right[i], right[j]));
        }
        ascending_lists_are_equal(shorter, other);
        assert(left =~= shorter.push(a));
        assert(right =~= other.push(b));
    }
}

/// The batches among the files, oldest first.
pub open spec fn batches_among(files: Seq<Seq<char>>, ids: Seq<Seq<char>>) -> bool {
    &&& ascending(ids)
    &&& forall|id: Seq<char>| #[trigger]
        ids.contains(id) <==> exists|i: int|
            0 <= i < files.len() && named_for(#[trigger] files[i], id)
}

proof fn batches_are_those_among(files: Seq<Seq<char>>, ids: Seq<Seq<char>>)
    ensures
        are_batches(files, ids) <==> batches_among(files, ids),
{
    assert forall|id: Seq<char>|
        #![trigger ids.contains(id)]
        (exists|i: int| 0 <= i < files.len() && #[trigger] batch_of(files[i]) == Some(id)) == (
        exists|i: int| 0 <= i < files.len() && named_for(#[trigger] files[i], id)) by {
        if exists|i: int| 0 <= i < files.len() && #[trigger] batch_of(files[i]) == Some(id) {
            let i = choose|i: int|
                0 <= i < files.len() && #[trigger] batch_of(files[i]) == Some(id);
            batches_are_in_the_names(files[i], id);
            assert(named_for(files[i], id));
        }
        if exists|i: int| 0 <= i < files.len() && named_for(#[trigger] files[i], id) {
            let i = choose|i: int| 0 <= i < files.len() && named_for(#[trigger] files[i], id);
            batches_are_in_the_names(files[i], id);
            assert(batch_of(files[i]) == Some(id));
        }
    }
}

/// A rotation keeps as many of the newest batches as the user asked for: with
/// at most `max_count` batches nothing is removed, with more exactly the files
/// of those that have `max_count` newer ones. Every other file stays.
pub proof fn the_wanted_number_of_batches_stays(
    files: Seq<Seq<char>>,
    ids: Seq<Seq<char>>,
    max_count: usize,
    removed: Seq<Seq<char>>,
    name: Seq<char>,
)
    requires
        max_count >= 1,
        batches_among(files, ids),
        rotated(files, max_count, removed),
    ensures
        ids.len() <= max_count ==> removed.len() == 0,
        removed.contains(name) <==> files.contains(name) && exists|i: int|
            0 <= i && i + max_count < ids.len() && named_for(name, #[trigger] ids[i]),
{
    let own = choose|own: Seq<Seq<char>>| #[trigger]
        are_batches(files, own) && removed == surplus(files, own, max_count);
    batches_are_those_among(files, own);
    assert forall|id: Seq<char>| #[trigger] own.contains(id) <==> ids.contains(id) by {}
    ascending_lists_are_equal(own, ids);
    if ids.len() > max_count {
        let stale = ids.take(ids.len() - max_count);
        gathered_belong(files, stale, name);
        if removed.contains(name) {
            let id = batch_of(name)->Some_0;
            batches_are_in_the_names(name, id);
            let i = choose|i: int| 0 <= i < stale.len() && stale[i] == id;
            assert(ids[i] == id);
        }
        if files.contains(name) && exists|i: int|
            0 <= i && i + max_count < ids.len() && named_for(name, #[trigger] ids[i]) {
            let i = choose|i: int|
                0 <= i && i + max_count < ids.len() && named_for(name, #[trigger] ids[i]);
            batches_are_in_the_names(name, ids[i]);
            assert(stale[i] == ids[i]);
        }
    }
}

/// Asking for no batch at all keeps the newest one.
pub proof fn one_batch_always_stays(files: Seq<Seq<char>>, removed: Seq<Seq<char>>)
    ensures
        rotated(files, 0, removed) <==> rotated(files, 1, removed),
{
    if rotated(files, 0, removed) {
        let ids = choose|ids: Seq<Seq<char>>| #[trigger]
            are_batches(files, ids) && removed == surplus(files, ids, 0);
        assert(are_batches(files, ids) && removed == surplus(files, ids, 1));
    }
    if rotated(files, 1, removed) {
        let ids = choose|ids: Seq<Seq<char>>| #[trigger]
            are_batches(files, ids) && removed == surplus(files, ids, 1);
        assert(are_batches(files, ids) && removed == surplus(files, ids, 0));
    }
}

proof fn gathered_in_order(files: Seq<Seq<char>>, ids: Seq<Seq<char>>, first: int, second: int)
    requires
        ascending(ids),
        0 <= first < second < gathered(files, ids).len(),
    ensures
        batch_of(gathered(files, ids)[first]) is Some,
        batch_of(gathered(files, ids)[second]) is Some,
        !before(
            batch_of(gathered(files, ids)[second])->Some_0,
            batch_of(gathered(files, ids)[first])->Some_0,
        ),
    decreases ids.len(),
{
    let earlier = ids.drop_last();
    let left = gathered(files, earlier);
    let right = members(files, ids.last());
    let all = gathered(files, ids);
    assert forall|i: int, j: int| 0 <= i < j < earlier.len() implies before(
        #[trigger] earlier[i],
        #[trigger] earlier[j],
    ) by {
        assert(before(ids[i], ids[j]));
    }
    if second < left.len() {
        gathered_in_order(files, earlier, first, second);
    } else {
        assert(right.contains(all[second])) by {
            assert(right[second - left.len()] == all[second]);
        }
        members_belong(files, ids.last(), all[second]);
        before_irreflexive(ids.last());
        if first < left.len() {
            assert(left.contains(all[first])) by {
                assert(left[first] == all[first]);
            }
            gathered_belong(files, earlier, all[first]);
            let id = batch_of(all[first])->Some_0;
            let i = choose|i: int| 0 <= i < earlier.len() && earlier[i] == id;
            assert(before(ids[i], ids[ids.len() - 1]));
            if before(ids.last(), id) {
                crate::text::order::before_transitive(ids.last(), id, ids.last());
            }
        } else {
            assert(right.contains(all[first])) by {
                assert(right[first - left.len()] == all[first]);
            }
            members_belong(files, ids.last(), all[first]);
        }
    }
}

/// The oldest batch is removed first.
pub proof fn rotations_start_with_the_oldest(
    files: Seq<Seq<char>>,
    max_count: usize,
    removed: Seq<Seq<char>>,
    first: int,
    second: int,
    early: Seq<char>,
    late: Seq<char>,
)
    requires
        rotated(files, max_count, removed),
        0 <= first < second < removed.len(),
        named_for(removed[first], early),
        named_for(removed[second], late),
    ensures
        !before(late, early),
{
    let ids = choose|ids: Seq<Seq<char>>| #[trigger]
        are_batches(files, ids) && removed == surplus(files, ids, max_count);
    let stale = ids.take(ids.len() - kept_batches(max_count));
    assert forall|i: int, j: int| 0 <= i < j < stale.len() implies before(
        #[trigger] stale[i],
        #[trigger] stale[j],
    ) by {
        assert(before(ids[i], ids[j]));
    }
    gathered_in_order(files, stale, first, second);
    batches_are_in_the_names(removed[first], early);
    batches_are_in_the_names(removed[second], late);
}

/// An id is the timestamp itself, or the timestamp, an underscore and three
/// digits at least; different attempts have different ids.
pub proof fn attempts_have_their_own_ids(timestamp: Seq<char>, first: nat, second: nat)
    ensures
        backup_id(timestamp, 0) == timestamp,
        first > 0 ==> backup_id(timestamp, first) == timestamp + "_"@ + decimal3(first),
        first < 1000 && second < 1000 && first != second ==> backup_id(timestamp, first)
            != backup_id(timestamp, second),
{
    reveal_strlit("_");
    if first < 1000 && second < 1000 && backup_id(timestamp, first) == backup_id(timestamp, second) {
        crate::text::number::three_digits_are_padded(first);
        crate::text::number::three_digits_are_padded(second);
        let head = timestamp + "_"@;
        if first > 0 && second > 0 {
            assert(backup_id(timestamp, first).skip(head.len() as int) =~= decimal3(first));
            assert(backup_id(timestamp, second).skip(head.len() as int) =~= decimal3(second));
        } else if first > 0 {
            assert(backup_id(timestamp, first).len() > timestamp.len());
        } else if second > 0 {
            assert(backup_id(timestamp, second).len() > timestamp.len());
        }
    }
}

/// Whatever is allocated was found free, for every artifact; no existing
/// backup is overwritten.
pub proof fn allocated_names_were_free<F: Fn(&str) -> NameLookup>(
    lookup: F,
    artifacts: Seq<(String, String)>,
    timestamp: Seq<char>,
    id: Seq<char>,
    at: int,
)
    requires
        allocation(lookup, artifacts, timestamp, Ok(id)),
        0 <= at < artifacts.len(),
    ensures
        answered(lookup, artifacts[at].0@ + id + artifacts[at].1@, NameLookup::Free),
        id == timestamp || (timestamp + "_"@).is_prefix_of(id),
{
    let k = choose|k: nat|
        k < 1000 && id == #[trigger] backup_id(timestamp, k) && first_free(
            lookup,
            artifacts,
            id,
            artifacts.len() as int,
        ) && earlier_taken(lookup, artifacts, timestamp, k);
    assert(answered(lookup, artifact_name(artifacts[at], id), NameLookup::Free));
    if k > 0 {
        assert(id.take((timestamp + "_"@).len() as int) =~= timestamp + "_"@);
    }
}

/// Where nothing is in the way, a backup is named by its timestamp alone.
pub proof fn free_timestamps_are_taken_as_they_are<F: Fn(&str) -> NameLookup>(
    lookup: F,
    artifacts: Seq<(String, String)>,
    timestamp: Seq<char>,
    result: Result<Seq<char>, Seq<char>>,
)
    requires
        allocation(lookup, artifacts, timestamp, result),
        forall|i: int, answer: NameLookup|
            0 <= i < artifacts.len() && #[trigger] answered(
                lookup,
                artifacts[i].0@ + timestamp + artifacts[i].1@,
                answer,
            ) ==> answer == NameLookup::Free,
    ensures
        result == Ok::<Seq<char>, Seq<char>>(timestamp),
{
    let bare = backup_id(timestamp, 0);
    assert(!id_taken(lookup, artifacts, bare)) by {
        if id_taken(lookup, artifacts, bare) {
            let i = choose|i: int|
                0 <= i < artifacts.len() && answered(
                    lookup,
                    artifact_name(#[trigger] artifacts[i], bare),
                    NameLookup::Taken,
                ) && first_free(lookup, artifacts, bare, i);
            assert(answered(
                lookup,
                artifacts[i].0@ + timestamp + artifacts[i].1@,
                NameLookup::Taken,
            ));
        }
    }
    match result {
        Ok(id) => {
            let k = choose|k: nat|
                k < 1000 && id == #[trigger] backup_id(timestamp, k) && first_free(
                    lookup,
                    artifacts,
                    id,
                    artifacts.len() as int,
                ) && earlier_taken(lookup, artifacts, timestamp, k);
            if k > 0 {
                assert(id_taken(lookup, artifacts, backup_id(timestamp, 0)));
            }
        },
        Err(message) => {
            if earlier_taken(lookup, artifacts, timestamp, 1000) {
                assert(id_taken(lookup, artifacts, backup_id(timestamp, 0)));
            } else {
                let (k, i) = choose|k: nat, i: int|
                    k < 1000 && 0 <= i < artifacts.len() && #[trigger] lookup_failed(
                        lookup,
                        artifacts,
                        backup_id(timestamp, k),
                        i,
                        message,
                    ) && first_free(lookup, artifacts, backup_id(timestamp, k), i)
                        && earlier_taken(lookup, artifacts, timestamp, k);
                if k > 0 {
                    assert(id_taken(lookup, artifacts, backup_id(timestamp, 0)));
                } else {
                    let (path, failure) = choose|path: String, failure: IoFailure|
                        #[trigger] answered(
                            lookup,
                            artifact_name(artifacts[i], backup_id(timestamp, k)),
                            NameLookup::Failed { path, failure },
                        ) && message == "检查备份文件名是否冲突失败 "@ + path@ + ": "@
                            + failure.text@;
                    assert(answered(
                        lookup,
                        artifacts[i].0@ + timestamp + artifacts[i].1@,
                        NameLookup::Failed { path, failure },
                    ));
                }
            }
        },
    }
}

/// A temporary name is hidden, carries the name of its target and its marker,
/// and differs from attempt to attempt.
pub proof fn temporary_names_differ(
    name: Seq<char>,
    marker: Seq<char>,
    process_id: u32,
    clock_nanos: u128,
    first: nat,
    second: nat,
)
    ensures
        ("."@ + name + "."@ + marker + "-"@).is_prefix_of(
            temporary_name(name, marker, process_id, clock_nanos, first),
        ),
        first != second ==> temporary_name(name, marker, process_id, clock_nanos, first)
            != temporary_name(name, marker, process_id, clock_nanos, second),
{
    let start = "."@ + name + "."@ + marker + "-"@;
    let left = temporary_name(name, marker, process_id, clock_nanos, first);
    let right = temporary_name(name, marker, process_id, clock_nanos, second);
    assert(left.take(start.len() as int) =~= start);
    let head = start + decimal(process_id as nat) + "-"@ + decimal(clock_nanos as nat) + "-"@;
    if left == right {
        assert(left.skip(head.len() as int) =~= decimal(first));
        assert(right.skip(head.len() as int) =~= decimal(second));
        crate::text::number::decimals_differ(first, second);
    }
}

/// A configured directory is used exactly if it can be.
pub proof fn usable_directories_are_used(custom: CustomDirectory)
    ensures
        chosen_dir(custom) is Some <==> custom is Usable,
        custom matches CustomDirectory::Usable(path) ==> chosen_dir(custom) == Some(path),
{
}

/// A temporary name was seen to be free, and carries the name and marker that
/// it is for; a search gives up only after a thousand names were taken.
pub proof fn temporary_searches_find_free_names<F: Fn(&str) -> NameLookup>(
    lookup: F,
    name: Seq<char>,
    marker: Seq<char>,
    process_id: u32,
    clock_nanos: u128,
    found: Seq<char>,
)
    requires
        temporary_search(lookup, name, marker, process_id, clock_nanos, Ok(found)),
    ensures
        answered(lookup, found, NameLookup::Free),
        ("."@ + name + "."@ + marker + "-"@).is_prefix_of(found),
{
    let k = choose|k: nat|
        k < 1000 && found == #[trigger] temporary_name(name, marker, process_id, clock_nanos, k)
            && answered(lookup, found, NameLookup::Free) && temporary_taken(
            lookup,
            name,
            marker,
            process_id,
            clock_nanos,
            k,
        );
    temporary_names_differ(name, marker, process_id, clock_nanos, k, k);
}

/// Some file was seen to be there under this id.
pub open spec fn some_file_exists<F: Fn(&str) -> NameLookup>(
    lookup: F,
    artifacts: Seq<(String, String)>,
    id: Seq<char>,
) -> bool {
    exists|at: int|
        0 <= at < artifacts.len() && answered(
            lookup,
            (#[trigger] artifacts[at]).0@ + id + artifacts[at].1@,
            NameLookup::Taken,
        )
}

/// The first free id wins: under every id before the one that was allocated,
/// some file was seen to be there.
pub proof fn the_first_free_id_wins<F: Fn(&str) -> NameLookup>(
    lookup: F,
    artifacts: Seq<(String, String)>,
    timestamp: Seq<char>,
    id: Seq<char>,
) -> (attempt: nat)
    requires
        allocation(lookup, artifacts, timestamp, Ok(id)),
    ensures
        attempt < 1000,
        id == backup_id(timestamp, attempt),
        forall|j: nat|
            j < attempt ==> some_file_exists(
                lookup,
                artifacts,
                #[trigger] backup_id(timestamp, j),
            ),
{
    let k = choose|k: nat|
        k < 1000 && id == #[trigger] backup_id(timestamp, k) && first_free(
            lookup,
            artifacts,
            id,
            artifacts.len() as int,
        ) && earlier_taken(lookup, artifacts, timestamp, k);
    assert forall|j: nat| j < k implies some_file_exists(
        lookup,
        artifacts,
        #[trigger] backup_id(timestamp, j),
    ) by {
        let earlier = backup_id(timestamp, j);
        assert(id_taken(lookup, artifacts, earlier));
        let at = choose|at: int|
            0 <= at < artifacts.len() && answered(
                lookup,
                artifact_name(#[trigger] artifacts[at], earlier),
                NameLookup::Taken,
            ) && first_free(lookup, artifacts, earlier, at);
        assert(answered(
            lookup,
            artifacts[at].0@ + earlier + artifacts[at].1@,
            NameLookup::Taken,
        ));
    }
    k
}

} // verus!
