//! Custom covers: which files are backed up, and the result without any.

use vstd::prelude::*;
use vstd::string::*;

use super::common::BackupResult;
use crate::text::concat::{cat3, cat4};
use crate::text::scan::{starts_with, strip_prefix, without_prefix};

verus! {

/// A custom cover of a game lies in `game_{id}` and is named `cover_{id}_..`.
pub open spec fn is_custom_cover(dir: Seq<char>, file: Seq<char>) -> bool {
    match without_prefix(dir, "game_"@) {
        Some(id) => ("cover_"@ + id + "_"@).is_prefix_of(file),
        None => false,
    }
}

/// Whether a file in a cover directory is a custom cover. The id must match
/// as a whole: `cover_10_..` is not a cover of game 1.
pub fn custom_cover(dir: &str, file: &str) -> (found: bool)
    ensures
        found == is_custom_cover(dir@, file@),
{
    match strip_prefix(dir, "game_") {
        Some(id) => {
            let prefix: String = cat3("cover_", id, "_");
            starts_with(file, prefix.as_str())
        },
        None => false,
    }
}

/// The covers of a game lie in a directory named `game_{id}`.
pub open spec fn is_game_directory(dir: Seq<char>) -> bool {
    "game_"@.is_prefix_of(dir)
}

/// Whether a directory is that of a game; no other has to be read.
pub fn game_directory(dir: &str) -> (found: bool)
    ensures
        found == is_game_directory(dir@),
{
    starts_with(dir, "game_")
}

/// Covers of one game are never taken for those of another.
pub proof fn covers_belong_to_one_game(first: Seq<char>, second: Seq<char>, file: Seq<char>)
    requires
        !first.contains('_'),
        !second.contains('_'),
        is_custom_cover("game_"@ + first, file),
        is_custom_cover("game_"@ + second, file),
    ensures
        first == second,
{
    reveal_strlit("game_");
    reveal_strlit("cover_");
    reveal_strlit("_");
    assert(("game_"@ + first).skip(5) =~= first);
    assert(("game_"@ + second).skip(5) =~= second);
    assert("game_"@ =~= ("game_"@ + first).subrange(0, 5));
    assert("game_"@ =~= ("game_"@ + second).subrange(0, 5));
    let a = "cover_"@ + first + "_"@;
    let b = "cover_"@ + second + "_"@;
    assert forall|i: int| 0 <= i < a.len() && i < b.len() implies a[i] == b[i] by {
        assert(a[i] == file[i]);
        assert(b[i] == file[i]);
    }
    if first.len() < second.len() {
        let at = 6 + first.len() as int;
        assert(a[at] == '_');
        assert(b[at] == second[first.len() as int]);
        assert(second.contains('_'));
    } else if second.len() < first.len() {
        let at = 6 + second.len() as int;
        assert(b[at] == '_');
        assert(a[at] == first[second.len() as int]);
        assert(first.contains('_'));
    }
    assert forall|i: int| 0 <= i < first.len() implies first[i] == second[i] by {
        assert(a[6 + i] == first[i]);
        assert(b[6 + i] == second[i]);
    }
    assert(first =~= second);
}

/// One entry of a cover directory.
#[derive(Clone, Debug)]
pub struct CoverEntry {
    pub name: String,
    pub is_file: bool,
}

/// One entry of the directory of all covers, with its own entries if it is a
/// directory.
#[derive(Clone, Debug)]
pub struct CoverDirectory {
    pub name: String,
    pub is_dir: bool,
    pub entries: Vec<CoverEntry>,
}

/// A file to copy, by directory and name.
#[derive(Clone, Debug)]
pub struct CoverCopy {
    pub directory: String,
    pub file: String,
    /// It is the first of its directory, which has to be created.
    pub first: bool,
}

/// The copies of one directory: its custom cover files, in order.
pub open spec fn directory_copies(dir: Seq<char>, entries: Seq<CoverEntry>) -> Seq<Seq<char>>
    decreases entries.len(),
{
    if entries.len() == 0 {
        Seq::empty()
    } else {
        let rest = directory_copies(dir, entries.drop_last());
        let entry = entries.last();
        if entry.is_file && is_custom_cover(dir, entry.name@) {
            rest.push(entry.name@)
        } else {
            rest
        }
    }
}

/// Directory, file and whether the directory is new, for each copy.
pub open spec fn tagged(dir: Seq<char>, files: Seq<Seq<char>>) -> Seq<(Seq<char>, Seq<char>, bool)> {
    Seq::new(files.len(), |i: int| (dir, files[i], i == 0))
}

/// A directory that is not that of a game gives no copies, whatever it holds.
pub proof fn only_game_directories_hold_covers(dir: Seq<char>, entries: Seq<CoverEntry>)
    requires
        !is_game_directory(dir),
    ensures
        directory_copies(dir, entries) == Seq::<Seq<char>>::empty(),
    decreases entries.len(),
{
    if entries.len() > 0 {
        only_game_directories_hold_covers(dir, entries.drop_last());
    }
}

/// All copies, directory by directory.
pub open spec fn all_copies(dirs: Seq<CoverDirectory>) -> Seq<(Seq<char>, Seq<char>, bool)>
    decreases dirs.len(),
{
    if dirs.len() == 0 {
        Seq::empty()
    } else {
        let rest = all_copies(dirs.drop_last());
        let dir = dirs.last();
        if dir.is_dir {
            rest + tagged(dir.name@, directory_copies(dir.name@, dir.entries@))
        } else {
            rest
        }
    }
}

pub open spec fn copy_view(copy: CoverCopy) -> (Seq<char>, Seq<char>, bool) {
    (copy.directory@, copy.file@, copy.first)
}

pub open spec fn copy_views(copies: Seq<CoverCopy>) -> Seq<(Seq<char>, Seq<char>, bool)> {
    Seq::new(copies.len(), |i: int| copy_view(copies[i]))
}

/// Lists the custom covers to copy; cloud covers and other files stay out,
/// and directories without custom covers are not created.
pub fn scan_custom_covers(dirs: &Vec<CoverDirectory>) -> (copies: Vec<CoverCopy>)
    ensures
        copy_views(copies@) == all_copies(dirs@),
{
    let mut copies: Vec<CoverCopy> = Vec::new();
    let mut at: usize = 0;
    assert(copy_views(copies@) =~= all_copies(dirs@.take(0)));
    while at < dirs.len()
        invariant
            at <= dirs@.len(),
            copy_views(copies@) == all_copies(dirs@.take(at as int)),
        decreases dirs@.len() - at,
    {
        let ghost done = copy_views(copies@);
        let dir: &CoverDirectory = &dirs[at];
        assert(dirs@.take(at + 1).drop_last() =~= dirs@.take(at as int));
        assert(dirs@.take(at + 1).last() == *dir);
        if dir.is_dir {
            let mut first: bool = true;
            let mut index: usize = 0;
            assert(directory_copies(dir.name@, dir.entries@.take(0)) =~= Seq::<Seq<char>>::empty());
            assert(done =~= done + tagged(
                dir.name@,
                directory_copies(dir.name@, dir.entries@.take(0)),
            ));
            while index < dir.entries.len()
                invariant
                    index <= dir.entries@.len(),
                    first == (directory_copies(
                        dir.name@,
                        dir.entries@.take(index as int),
                    ).len() == 0),
                    copy_views(copies@) == done + tagged(
                        dir.name@,
                        directory_copies(dir.name@, dir.entries@.take(index as int)),
                    ),
                decreases dir.entries@.len() - index,
            {
                let entry: &CoverEntry = &dir.entries[index];
                let ghost earlier = copies@;
                let ghost found = directory_copies(dir.name@, dir.entries@.take(index as int));
                assert(dir.entries@.take(index + 1).drop_last() =~= dir.entries@.take(
                    index as int,
                ));
                assert(dir.entries@.take(index + 1).last() == *entry);
                if entry.is_file && custom_cover(dir.name.as_str(), entry.name.as_str()) {
                    copies.push(
                        CoverCopy {
                            directory: dir.name.clone(),
                            file: entry.name.clone(),
                            first,
                        },
                    );
                    proof {
                        assert(copy_views(copies@) =~= copy_views(earlier).push(
                            (dir.name@, entry.name@, first),
                        ));
                        assert(tagged(dir.name@, found.push(entry.name@)) =~= tagged(
                            dir.name@,
                            found,
                        ).push((dir.name@, entry.name@, first)));
                        assert(copy_views(copies@) =~= done + tagged(
                            dir.name@,
                            found.push(entry.name@),
                        ));
                    }
                    first = false;
                }
                index += 1;
            }
            assert(dir.entries@.take(index as int) =~= dir.entries@);
        }
        at += 1;
    }
    assert(dirs@.take(at as int) =~= dirs@);
    copies
}

/// The result when there is nothing to back up.
pub fn no_covers_result() -> (result: BackupResult)
    ensures
        result.success,
        result.path is None,
        result.message@ == "没有自定义封面需要备份"@,
{
    BackupResult { success: true, path: None, message: "没有自定义封面需要备份".to_owned() }
}

/// Message of a cover directory that could not be removed.
pub fn delete_covers_message(path: &str, failure: &str) -> (text: String)
    ensures
        text@ == "无法删除封面目录 "@ + path@ + ": "@ + failure@,
{
    cat4("无法删除封面目录 ", path, ": ", failure)
}

/// A file is a custom cover exactly if its name is `cover_`, the id after the
/// `game_` of its directory, an underscore and anything.
pub proof fn covers_are_named_for_their_game(dir: Seq<char>, file: Seq<char>)
    ensures
        is_custom_cover(dir, file) <==> exists|id: Seq<char>, rest: Seq<char>|
            dir == #[trigger] ("game_"@ + id) && file == #[trigger] ("cover_"@ + id + "_"@ + rest),
        is_game_directory(dir) <==> exists|id: Seq<char>| dir == #[trigger] ("game_"@ + id),
{
    if is_game_directory(dir) {
        let id = dir.skip("game_"@.len() as int);
        crate::text::scan::prefix_and_rest(dir, "game_"@, id);
        assert(dir == "game_"@ + id);
    }
    if exists|id: Seq<char>| dir == #[trigger] ("game_"@ + id) {
        let id = choose|id: Seq<char>| dir == #[trigger] ("game_"@ + id);
        crate::text::scan::prefix_and_rest(dir, "game_"@, id);
    }
    if is_custom_cover(dir, file) {
        let id = without_prefix(dir, "game_"@)->Some_0;
        let head = "cover_"@ + id + "_"@;
        let rest = file.skip(head.len() as int);
        crate::text::scan::prefix_and_rest(dir, "game_"@, id);
        crate::text::scan::prefix_and_rest(file, head, rest);
        assert(dir == "game_"@ + id && file == "cover_"@ + id + "_"@ + rest);
    }
    if exists|id: Seq<char>, rest: Seq<char>|
        dir == #[trigger] ("game_"@ + id) && file == #[trigger] ("cover_"@ + id + "_"@ + rest) {
        let (id, rest) = choose|id: Seq<char>, rest: Seq<char>|
            dir == #[trigger] ("game_"@ + id) && file == #[trigger] ("cover_"@ + id + "_"@ + rest);
        crate::text::scan::prefix_and_rest(dir, "game_"@, id);
        crate::text::scan::prefix_and_rest(file, "cover_"@ + id + "_"@, rest);
    }
}

/// Each entry of a directory decides for itself: a custom cover that is a
/// file is copied, once and in its place; nothing else is.
pub proof fn covers_are_copied_one_by_one(
    dir: Seq<char>,
    entries: Seq<CoverEntry>,
    entry: CoverEntry,
)
    ensures
        directory_copies(dir, Seq::empty()).len() == 0,
        entry.is_file && is_custom_cover(dir, entry.name@) ==> directory_copies(
            dir,
            entries.push(entry),
        ) == directory_copies(dir, entries).push(entry.name@),
        !entry.is_file || !is_custom_cover(dir, entry.name@) ==> directory_copies(
            dir,
            entries.push(entry),
        ) == directory_copies(dir, entries),
{
    assert(entries.push(entry).drop_last() =~= entries);
}

/// Each directory decides for itself too. The copies of one stand behind those
/// of the directories before it, under its name, and only the first of them
/// asks for the directory.
pub proof fn directories_are_copied_one_by_one(
    dirs: Seq<CoverDirectory>,
    dir: CoverDirectory,
    at: int,
)
    ensures
        all_copies(Seq::empty()).len() == 0,
        ({
            let before = all_copies(dirs);
            let after = all_copies(dirs.push(dir));
            let files = directory_copies(dir.name@, dir.entries@);
            &&& !dir.is_dir ==> after == before
            &&& dir.is_dir ==> after.len() == before.len() + files.len()
            &&& 0 <= at < before.len() ==> after[at] == before[at]
            &&& dir.is_dir && 0 <= at < files.len() ==> {
                let copy = after[before.len() + at];
                &&& copy.0 == dir.name@
                &&& copy.1 == files[at]
                &&& copy.2 <==> at == 0
            }
        }),
{
    assert(dirs.push(dir).drop_last() =~= dirs);
}

/// Every copy of a list is seen, in its place.
pub proof fn views_show_every_copy(copies: Seq<CoverCopy>, at: int)
    requires
        0 <= at < copies.len(),
    ensures
        copy_views(copies).len() == copies.len(),
        copy_views(copies)[at].0 == copies[at].directory@,
        copy_views(copies)[at].1 == copies[at].file@,
        copy_views(copies)[at].2 == copies[at].first,
{
}

} // verus!
