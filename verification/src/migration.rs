//! Changes of stored data between versions.

use vstd::prelude::*;
use vstd::string::*;

use crate::text::chars::same;
use crate::text::concat::{cat2, cat3, join, joined, views};
use crate::text::scan::{split, split_parts, strip_prefix, without_prefix};

verus! {

/// The component that used to be appended to a backup root at run time.
pub const BACKUP_SUBDIR: &'static str = "backups";

/// Selects the backup roots that are set.
pub const SELECT_ROOTS: &'static str =
    "SELECT id, save_root_path FROM user WHERE save_root_path IS NOT NULL AND trim(save_root_path) <> ''";

/// Stores a backup root.
pub const UPDATE_ROOT: &'static str = "UPDATE user SET save_root_path = ? WHERE id = ?";

/// How a platform separates the components of a path.
#[derive(Clone, Copy, Debug, PartialEq, Eq, Structural)]
pub enum Separators {
    /// Only slashes.
    Slash,
    /// Backslashes are written, both are read.
    Backslash,
}

/// A component can be appended without a separator: the path is empty, ends
/// with one, or is a bare drive.
pub open spec fn open_ended(path: Seq<char>, separators: Separators) -> bool {
    ||| path.len() == 0
    ||| path.last() == '/'
    ||| separators == Separators::Backslash && (path.last() == '\\' || (path.len() == 2 && path[1]
        == ':' && (('a' <= path[0] <= 'z') || ('A' <= path[0] <= 'Z'))))
}

/// Starts a Windows path that is handed on as it is.
pub const VERBATIM_PREFIX: &'static str = "\\\\?\\";

/// How many leading components of such a path are its prefix as far as empty
/// ones count: a share has a server behind `UNC`.
pub open spec fn verbatim_head(parts: Seq<Seq<char>>) -> nat {
    if parts.len() >= 2 && parts[0] == "UNC"@ {
        2
    } else {
        1
    }
}

/// The components without the empty ones behind the first `head`.
pub open spec fn tidied(parts: Seq<Seq<char>>, head: nat) -> Seq<Seq<char>>
    decreases parts.len(),
{
    if parts.len() <= head {
        parts
    } else {
        let rest = tidied(parts.drop_last(), head);
        if parts.last().len() == 0 {
            rest
        } else {
            rest.push(parts.last())
        }
    }
}

/// A verbatim path with one more component. Only backslashes separate, and
/// the path is written anew without doubled ones.
pub open spec fn with_verbatim_component(rest: Seq<char>, component: Seq<char>) -> Seq<char> {
    let parts = split_parts(rest, '\\');
    VERBATIM_PREFIX@ + joined(tidied(parts, verbatim_head(parts)).push(component), "\\"@)
}

/// The path with one more component.
pub open spec fn with_component(
    path: Seq<char>,
    component: Seq<char>,
    separators: Separators,
) -> Seq<char> {
    if separators == Separators::Backslash && without_prefix(path, VERBATIM_PREFIX@) is Some {
        with_verbatim_component(without_prefix(path, VERBATIM_PREFIX@)->Some_0, component)
    } else if open_ended(path, separators) {
        path + component
    } else {
        path + (if separators == Separators::Slash {
            "/"@
        } else {
            "\\"@
        }) + component
    }
}

fn append_verbatim(rest: &str, component: &str) -> (result: String)
    ensures
        result@ == with_verbatim_component(rest@, component@),
{
    let parts: Vec<String> = split(rest, '\\');
    let head: usize = if parts.len() >= 2 && same(parts[0].as_str(), "UNC") {
        2
    } else {
        1
    };
    proof {
        assert(views(parts@)[0] == parts@[0]@);
    }
    let mut kept: Vec<String> = Vec::new();
    let mut at: usize = 0;
    assert(views(kept@) =~= tidied(views(parts@).take(0), head as nat));
    while at < parts.len()
        invariant
            at <= parts@.len(),
            views(kept@) == tidied(views(parts@).take(at as int), head as nat),
        decreases parts@.len() - at,
    {
        let ghost before = kept@;
        proof {
            let next = views(parts@).take(at + 1);
            assert(next.drop_last() =~= views(parts@).take(at as int));
            assert(next.last() == parts@[at as int]@);
            if at < head {
                assert(next =~= views(parts@).take(at as int).push(parts@[at as int]@));
            }
            reveal_strlit("");
            if parts@[at as int]@.len() == 0 {
                assert(parts@[at as int]@ =~= ""@);
            }
        }
        if at < head || !same(parts[at].as_str(), "") {
            kept.push(parts[at].clone());
            assert(views(kept@) =~= views(before).push(parts@[at as int]@));
        }
        at += 1;
    }
    let ghost before = kept@;
    kept.push(component.to_owned());
    proof {
        assert(views(parts@).take(at as int) =~= views(parts@));
        assert(views(kept@) =~= views(before).push(component@));
    }
    cat2(VERBATIM_PREFIX, join(&kept, "\\").as_str())
}

/// Appends the component that used to be implied, as text: nothing is
/// expanded or resolved.
pub fn append_backup_component(path: &str, separators: Separators) -> (result: String)
    ensures
        result@ == with_component(path@, BACKUP_SUBDIR@, separators),
{
    if separators == Separators::Backslash {
        if let Some(rest) = strip_prefix(path, VERBATIM_PREFIX) {
            return append_verbatim(rest, BACKUP_SUBDIR);
        }
    }
    let chars: Vec<char> = crate::text::chars::to_chars(path);
    let count: usize = chars.len();
    let ends: bool = if count == 0 {
        true
    } else {
        let last: char = chars[count - 1];
        last == '/' || match separators {
            Separators::Slash => false,
            Separators::Backslash => last == '\\' || (count == 2 && chars[1] == ':' && (('a'
                <= chars[0] && chars[0] <= 'z') || ('A' <= chars[0] && chars[0] <= 'Z'))),
        }
    };
    if ends {
        cat2(path, BACKUP_SUBDIR)
    } else {
        match separators {
            Separators::Slash => cat3(path, "/", BACKUP_SUBDIR),
            Separators::Backslash => cat3(path, "\\", BACKUP_SUBDIR),
        }
    }
}

/// A stored backup root of one user.
#[derive(Clone, Debug)]
pub struct RootRow {
    pub id: i32,
    pub save_root_path: String,
}

/// The rows as they have to be stored.
pub fn migrate_savedata_backup_roots(rows: &Vec<RootRow>, separators: Separators) -> (updates: Vec<
    RootRow,
>)
    ensures
        updates@.len() == rows@.len(),
        forall|i: int|
            0 <= i < rows@.len() ==> (#[trigger] updates@[i]).id == rows@[i].id
                && updates@[i].save_root_path@ == with_component(
                rows@[i].save_root_path@,
                BACKUP_SUBDIR@,
                separators,
            ),
{
    let mut updates: Vec<RootRow> = Vec::new();
    let mut at: usize = 0;
    while at < rows.len()
        invariant
            at <= rows@.len(),
            updates@.len() == at,
            forall|i: int|
                0 <= i < at ==> (#[trigger] updates@[i]).id == rows@[i].id
                    && updates@[i].save_root_path@ == with_component(
                    rows@[i].save_root_path@,
                    BACKUP_SUBDIR@,
                    separators,
                ),
        decreases rows@.len() - at,
    {
        updates.push(
            RootRow {
                id: rows[at].id,
                save_root_path: append_backup_component(
                    rows[at].save_root_path.as_str(),
                    separators,
                ),
            },
        );
        at += 1;
    }
    updates
}

/// Replaces one value of the `clear` column by another.
#[derive(Clone, Copy, Debug, PartialEq, Eq, Structural)]
pub struct ClearUpdate {
    pub from: i32,
    pub to: i32,
}

impl ClearUpdate {
    /// What the update makes of a value.
    pub open spec fn applied(self, value: i32) -> i32 {
        if value == self.from {
            self.to
        } else {
            value
        }
    }

    /// The statement that does it.
    pub fn statement(&self) -> (sql: String)
        ensures
            sql@ == "UPDATE games SET clear = "@ + crate::text::number::signed_decimal(
                self.to as int,
            ) + " WHERE clear = "@ + crate::text::number::signed_decimal(self.from as int),
    {
        crate::text::concat::cat4(
            "UPDATE games SET clear = ",
            crate::text::number::signed_decimal_text(self.to as i64).as_str(),
            " WHERE clear = ",
            crate::text::number::signed_decimal_text(self.from as i64).as_str(),
        )
    }
}

/// The two steps: cleared games become played, then the others wished for.
pub open spec fn status_updates() -> Seq<ClearUpdate> {
    seq![ClearUpdate { from: 1, to: 3 }, ClearUpdate { from: 0, to: 1 }]
}

/// Turns "cleared or not" into a play status, in two steps: cleared games
/// first, so that the second step cannot touch them.
pub fn clear_updates() -> (updates: Vec<ClearUpdate>)
    ensures
        updates@ == status_updates(),
{
    let updates: Vec<ClearUpdate> = vec![
        ClearUpdate { from: 1, to: 3 },
        ClearUpdate { from: 0, to: 1 },
    ];
    assert(updates@ =~= seq![ClearUpdate { from: 1, to: 3 }, ClearUpdate { from: 0, to: 1 }]);
    updates
}

/// The value after a list of updates, one after the other.
pub open spec fn applied_all(updates: Seq<ClearUpdate>, value: i32) -> i32
    decreases updates.len(),
{
    if updates.len() == 0 {
        value
    } else {
        updates.last().applied(applied_all(updates.drop_last(), value))
    }
}

/// Games not cleared become wished for, cleared ones become played, and any
/// other value stays.
pub proof fn clear_becomes_play_status(value: i32)
    ensures
        applied_all(
            seq![ClearUpdate { from: 1, to: 3 }, ClearUpdate { from: 0, to: 1 }],
            value,
        ) == if value == 0 {
            1
        } else if value == 1 {
            3
        } else {
            value
        },
{
    let first = ClearUpdate { from: 1, to: 3 };
    let second = ClearUpdate { from: 0, to: 1 };
    let updates = seq![first, second];
    assert(updates.drop_last() =~= seq![first]);
    assert(seq![first].drop_last() =~= Seq::<ClearUpdate>::empty());
    assert(applied_all(Seq::<ClearUpdate>::empty(), value) == value);
    assert(applied_all(seq![first], value) == first.applied(value));
}

/// What the updates make of the column: games not cleared become wished for,
/// cleared ones played, and no other value changes.
pub proof fn play_statuses_follow_clear(value: i32)
    ensures
        applied_all(status_updates(), 0) == 1,
        applied_all(status_updates(), 1) == 3,
        value != 0 && value != 1 ==> applied_all(status_updates(), value) == value,
{
    clear_becomes_play_status(value);
    clear_becomes_play_status(0);
    clear_becomes_play_status(1);
    assert(status_updates() =~= seq![
        ClearUpdate { from: 1, to: 3 },
        ClearUpdate { from: 0, to: 1 },
    ]);
}

/// With slashes alone a component is appended behind exactly one separator,
/// unless there is nothing before it.
pub proof fn slash_paths_are_appended_to(path: Seq<char>, component: Seq<char>)
    ensures
        path.len() == 0 ==> with_component(path, component, Separators::Slash) == component,
        path.len() > 0 && path.last() == '/' ==> with_component(path, component, Separators::Slash)
            == path + component,
        path.len() > 0 && path.last() != '/' ==> with_component(path, component, Separators::Slash)
            == path + seq!['/'] + component,
{
    reveal_strlit("/");
    assert("/"@ =~= seq!['/']);
    if path.len() == 0 {
        assert(path + component =~= component);
    }
}

/// With backslashes a component is appended behind a separator of either kind
/// or a bare drive as it is, and behind anything else with a backslash.
pub proof fn backslash_paths_are_appended_to(path: Seq<char>, component: Seq<char>, drive: char)
    requires
        !"\\\\?\\"@.is_prefix_of(path),
    ensures
        path.len() == 0 ==> with_component(path, component, Separators::Backslash) == component,
        path.len() > 0 && (path.last() == '/' || path.last() == '\\') ==> with_component(
            path,
            component,
            Separators::Backslash,
        ) == path + component,
        path == seq![drive, ':'] && (('a' <= drive <= 'z') || ('A' <= drive <= 'Z'))
            ==> with_component(path, component, Separators::Backslash) == path + component,
        path.len() > 0 && path.last() != '/' && path.last() != '\\' && !(path.len() == 2 && path[1]
            == ':' && (('a' <= path[0] <= 'z') || ('A' <= path[0] <= 'Z'))) ==> with_component(
            path,
            component,
            Separators::Backslash,
        ) == path + seq!['\\'] + component,
{
    reveal_strlit("\\");
    assert("\\"@ =~= seq!['\\']);
    if path.len() == 0 {
        assert(path + component =~= component);
    }
}

/// Of a list of components exactly the empty ones behind the head are left
/// out; all others keep their order.
pub proof fn empty_components_are_left_out(parts: Seq<Seq<char>>, part: Seq<char>, head: nat)
    ensures
        parts.len() <= head ==> tidied(parts, head) == parts,
        parts.len() >= head && part.len() == 0 ==> tidied(parts.push(part), head) == tidied(
            parts,
            head,
        ),
        parts.len() >= head && part.len() > 0 ==> tidied(parts.push(part), head) == tidied(
            parts,
            head,
        ).push(part),
        parts.len() >= 2 && parts[0] == "UNC"@ ==> verbatim_head(parts) == 2,
        parts.len() < 2 || parts[0] != "UNC"@ ==> verbatim_head(parts) == 1,
{
    assert(parts.push(part).drop_last() =~= parts);
}

proof fn tidied_parts_are_parts(parts: Seq<Seq<char>>, head: nat)
    requires
        parts.len() > 0,
        head > 0,
        forall|i: int| 0 <= i < parts.len() ==> !(#[trigger] parts[i]).contains('\\'),
    ensures
        tidied(parts, head).len() > 0,
        tidied(parts, head)[0] == parts[0],
        forall|i: int|
            0 <= i < tidied(parts, head).len() ==> !(#[trigger] tidied(parts, head)[i]).contains(
                '\\',
            ),
    decreases parts.len(),
{
    if parts.len() > head {
        let front = parts.drop_last();
        assert forall|i: int| 0 <= i < front.len() implies !(#[trigger] front[i]).contains(
            '\\',
        ) by {
            assert(front[i] == parts[i]);
        }
        tidied_parts_are_parts(front, head);
        let rest = tidied(front, head);
        let all = tidied(parts, head);
        assert forall|i: int| 0 <= i < all.len() implies !(#[trigger] all[i]).contains('\\') by {
            if i < rest.len() {
                assert(all[i] == rest[i]);
            } else {
                assert(all[i] == parts.last());
            }
        }
    }
}

/// The components of a verbatim path with one more are those it had, without
/// empty ones behind the prefix, and the new one; only backslashes separate.
pub proof fn verbatim_paths_gain_one_component(rest: Seq<char>, component: Seq<char>)
    requires
        !component.contains('\\'),
    ensures
        ({
            let longer = with_component("\\\\?\\"@ + rest, component, Separators::Backslash);
            let parts = split_parts(rest, '\\');
            &&& without_prefix(longer, "\\\\?\\"@) is Some
            &&& split_parts(without_prefix(longer, "\\\\?\\"@)->Some_0, '\\') == tidied(
                parts,
                if parts.len() >= 2 && parts[0] == "UNC"@ {
                    2
                } else {
                    1
                },
            ).push(component)
        }),
{
    reveal_strlit("\\");
    assert("\\"@ =~= seq!['\\']);
    let path = "\\\\?\\"@ + rest;
    crate::text::scan::prefix_and_rest(path, "\\\\?\\"@, rest);
    crate::text::scan::split_parts_nonempty(rest, '\\');
    crate::text::scan::split_parts_free(rest, '\\');
    let parts = split_parts(rest, '\\');
    tidied_parts_are_parts(parts, verbatim_head(parts));
    let all = tidied(parts, verbatim_head(parts)).push(component);
    assert forall|i: int| 0 <= i < all.len() implies !(#[trigger] all[i]).contains('\\') by {
        if i < all.len() - 1 {
            assert(all[i] == tidied(parts, verbatim_head(parts))[i]);
        }
    }
    crate::text::scan::join_then_split(all, '\\');
    crate::text::scan::prefix_and_rest(
        with_component(path, component, Separators::Backslash),
        "\\\\?\\"@,
        joined(all, seq!['\\']),
    );
}

/// The component that every stored root gains.
pub proof fn roots_gain_the_backup_directory()
    ensures
        BACKUP_SUBDIR@ == seq!['b', 'a', 'c', 'k', 'u', 'p', 's'],
{
    reveal_strlit("backups");
    assert(BACKUP_SUBDIR@ =~= seq!['b', 'a', 'c', 'k', 'u', 'p', 's']);
}

} // verus!
