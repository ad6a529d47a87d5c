//! Making an archive of one file or directory.

use vstd::prelude::*;

use super::inspect::{inspect_rooted_entries, rooted_verdict, ArchiveEntry};
use crate::backup::savedata::fs_safety::{reject_path_redirector, redirect_fault, RedirectLook};
use crate::backup::savedata::paths::{is_path_prefix, path_view, prefix_of, NameRules, PathComponent};
use crate::text::concat::{cat2, cat3};

verus! {

/// Compression level: fast, with a fair ratio.
pub const ZSTD_COMPRESSION_LEVEL: u32 = 3;

/// What a look at one source object says.
#[derive(Clone, Debug)]
pub struct SourceLook {
    pub redirect: RedirectLook,
    pub is_file: bool,
    pub is_dir: bool,
}

/// Why a source object is refused: links, redirects and special files.
pub open spec fn special_fault(look: SourceLook, path: Seq<char>) -> Option<Seq<char>> {
    match redirect_fault(look.redirect, path) {
        Some(text) => Some(text),
        None => if !look.is_file && !look.is_dir {
            Some("存档包含特殊文件: "@ + path)
        } else {
            None
        },
    }
}

/// Refuses everything but plain files and directories.
pub fn reject_special_metadata(look: &SourceLook, path: &str) -> (result: Result<(), String>)
    ensures
        match special_fault(*look, path@) {
            None => result is Ok,
            Some(text) => result matches Err(found) && found@ == text,
        },
{
    if let Err(text) = reject_path_redirector(&look.redirect, path) {
        return Err(text);
    }
    if !look.is_file && !look.is_dir {
        return Err(cat2("存档包含特殊文件: ", path));
    }
    Ok(())
}

/// Refuses an archive inside the directory that it is made of. Both paths are
/// the real ones.
pub fn reject_archive_inside_source(source: &Vec<PathComponent>, archive: &Vec<PathComponent>) -> (
result: Result<(), String>)
    ensures
        if prefix_of(NameRules::Exact, path_view(source@), path_view(archive@)) {
            result matches Err(text) && text@ == "7z 归档不能位于源存档目录内部"@
        } else {
            result is Ok
        },
{
    if is_path_prefix(NameRules::Exact, source, archive) {
        return Err("7z 归档不能位于源存档目录内部".to_owned());
    }
    Ok(())
}

/// One object of a source tree. The host finds it again by `id`.
#[derive(Debug)]
pub struct SaveNode {
    pub id: u64,
    /// The file name in the platform's encoding, by which siblings are
    /// ordered.
    pub key: Vec<u8>,
    /// The file name as text, if it is text.
    pub name: Option<String>,
    /// The path as shown to users.
    pub path: String,
    pub look: Result<SourceLook, String>,
    /// What a directory holds.
    pub children: Result<Vec<SaveNode>, String>,
}

/// An entry to write.
#[derive(Debug)]
pub struct PlannedEntry {
    pub name: String,
    pub id: u64,
    pub directory: bool,
}

/// Plain values of a planned entry.
pub struct PlannedView {
    pub name: Seq<char>,
    pub id: u64,
    pub directory: bool,
}

pub open spec fn planned_view(entry: PlannedEntry) -> PlannedView {
    PlannedView { name: entry.name@, id: entry.id, directory: entry.directory }
}

pub open spec fn planned_views(entries: Seq<PlannedEntry>) -> Seq<PlannedView> {
    Seq::new(entries.len(), |i: int| planned_view(entries[i]))
}

/// The order of file names: byte by byte, shorter first.
pub open spec fn key_before(left: Seq<u8>, right: Seq<u8>) -> bool
    decreases left.len(),
{
    if right.len() == 0 {
        false
    } else if left.len() == 0 {
        true
    } else if left[0] != right[0] {
        left[0] < right[0]
    } else {
        key_before(left.drop_first(), right.drop_first())
    }
}

fn is_key_before(left: &Vec<u8>, right: &Vec<u8>) -> (found: bool)
    ensures
        found == key_before(left@, right@),
{
    let mut at: usize = 0;
    assert(left@.skip(0) =~= left@);
    assert(right@.skip(0) =~= right@);
    while at < left.len() && at < right.len()
        invariant
            at <= left@.len(),
            at <= right@.len(),
            key_before(left@, right@) == key_before(left@.skip(at as int), right@.skip(at as int)),
        decreases left@.len() - at,
    {
        assert(left@.skip(at as int)[0] == left@[at as int]);
        assert(right@.skip(at as int)[0] == right@[at as int]);
        if left[at] != right[at] {
            return left[at] < right[at];
        }
        assert(left@.skip(at as int).drop_first() =~= left@.skip(at + 1));
        assert(right@.skip(at as int).drop_first() =~= right@.skip(at + 1));
        at += 1;
    }
    at < right.len()
}

/// Where an object goes in an ordered list: behind everything that does not
/// come after it.
pub open spec fn place(nodes: Seq<SaveNode>, order: Seq<usize>, key: Seq<u8>) -> nat
    decreases order.len(),
{
    if order.len() == 0 || !key_before(key, nodes[order.last() as int].key@) {
        order.len()
    } else {
        place(nodes, order.drop_last(), key)
    }
}

/// The positions of the first `count` objects, ordered by file name.
pub open spec fn ordered(nodes: Seq<SaveNode>, count: nat) -> Seq<usize>
    decreases count,
{
    if count == 0 {
        Seq::empty()
    } else {
        let earlier = ordered(nodes, (count - 1) as nat);
        earlier.insert(
            place(nodes, earlier, nodes[count - 1].key@) as int,
            (count - 1) as usize,
        )
    }
}

proof fn place_bound(nodes: Seq<SaveNode>, order: Seq<usize>, key: Seq<u8>)
    ensures
        place(nodes, order, key) <= order.len(),
    decreases order.len(),
{
    if order.len() > 0 {
        place_bound(nodes, order.drop_last(), key);
    }
}

proof fn ordered_len(nodes: Seq<SaveNode>, count: nat)
    ensures
        ordered(nodes, count).len() == count,
    decreases count,
{
    if count > 0 {
        ordered_len(nodes, (count - 1) as nat);
        let earlier = ordered(nodes, (count - 1) as nat);
        place_bound(nodes, earlier, nodes[count - 1].key@);
    }
}

proof fn key_before_total(left: Seq<u8>, right: Seq<u8>)
    ensures
        left == right || key_before(left, right) || key_before(right, left),
        !(key_before(left, right) && key_before(right, left)),
    decreases left.len(),
{
    if left.len() == 0 || right.len() == 0 {
        if left.len() == 0 && right.len() == 0 {
            assert(left =~= right);
        }
    } else if left[0] == right[0] {
        key_before_total(left.drop_first(), right.drop_first());
        if left.drop_first() == right.drop_first() {
            assert(left =~= seq![left[0]] + left.drop_first());
            assert(right =~= seq![right[0]] + right.drop_first());
        }
    }
}

proof fn key_before_transitive(first: Seq<u8>, second: Seq<u8>, third: Seq<u8>)
    requires
        key_before(first, second),
        key_before(second, third),
    ensures
        key_before(first, third),
    decreases first.len(),
{
    if first.len() > 0 && first[0] == second[0] && second[0] == third[0] {
        key_before_transitive(first.drop_first(), second.drop_first(), third.drop_first());
    }
}

/// No object comes before one that is listed earlier.
pub open spec fn sorted_by_key(nodes: Seq<SaveNode>, order: Seq<usize>) -> bool {
    forall|i: int, j: int|
        0 <= i < j < order.len() ==> !key_before(
            nodes[(#[trigger] order[j]) as int].key@,
            nodes[(#[trigger] order[i]) as int].key@,
        )
}

proof fn place_splits(nodes: Seq<SaveNode>, order: Seq<usize>, key: Seq<u8>)
    requires
        sorted_by_key(nodes, order),
    ensures
        forall|i: int|
            0 <= i < order.len() ==> (i < place(nodes, order, key) <==> !key_before(
                key,
                nodes[(#[trigger] order[i]) as int].key@,
            )),
    decreases order.len(),
{
    if order.len() > 0 {
        let last = nodes[order.last() as int].key@;
        if key_before(key, last) {
            let shorter = order.drop_last();
            assert(sorted_by_key(nodes, shorter)) by {
                assert forall|i: int, j: int| 0 <= i < j < shorter.len() implies !key_before(
                    nodes[(#[trigger] shorter[j]) as int].key@,
                    nodes[(#[trigger] shorter[i]) as int].key@,
                ) by {
                    assert(shorter[i] == order[i] && shorter[j] == order[j]);
                }
            }
            place_splits(nodes, shorter, key);
            place_bound(nodes, shorter, key);
            assert forall|i: int| 0 <= i < order.len() implies (i < place(nodes, order, key)
                <==> !key_before(key, nodes[(#[trigger] order[i]) as int].key@)) by {
                if i < shorter.len() {
                    assert(shorter[i] == order[i]);
                }
            }
        } else {
            assert forall|i: int| 0 <= i < order.len() implies !key_before(
                key,
                nodes[(#[trigger] order[i]) as int].key@,
            ) by {
                if i < order.len() - 1 {
                    let other = nodes[order[i] as int].key@;
                    assert(!key_before(nodes[order[order.len() - 1] as int].key@, other));
                    key_before_total(last, other);
                    key_before_total(key, last);
                    if key_before(key, other) && key_before(other, last) {
                        key_before_transitive(key, other, last);
                    }
                }
            }
        }
    }
}

/// The order of the objects lists each of them once, sorted by file name.
pub proof fn ordered_is_a_sorted_permutation(nodes: Seq<SaveNode>, count: nat)
    requires
        count <= nodes.len() <= usize::MAX,
    ensures
        ordered(nodes, count).len() == count,
        sorted_by_key(nodes, ordered(nodes, count)),
        ordered(nodes, count).no_duplicates(),
        forall|i: int| 0 <= i < count ==> (#[trigger] ordered(nodes, count)[i]) < count,
        forall|at: usize| at < count ==> #[trigger] ordered(nodes, count).contains(at),
    decreases count,
{
    if count > 0 {
        let before = (count - 1) as nat;
        ordered_is_a_sorted_permutation(nodes, before);
        let earlier = ordered(nodes, before);
        let new = before as usize;
        let key = nodes[before as int].key@;
        let p = place(nodes, earlier, key) as int;
        place_bound(nodes, earlier, key);
        place_splits(nodes, earlier, key);
        let order = ordered(nodes, count);
        assert(order == earlier.insert(p, new));
        assert forall|i: int| 0 <= i < count implies #[trigger] order[i] == if i < p {
            earlier[i]
        } else if i == p {
            new
        } else {
            earlier[i - 1]
        } by {}
        assert forall|i: int, j: int| 0 <= i < j < order.len() implies !key_before(
            nodes[(#[trigger] order[j]) as int].key@,
            nodes[(#[trigger] order[i]) as int].key@,
        ) by {
            if j == p {
                assert(earlier[i] == order[i]);
            } else if i == p {
                assert(earlier[j - 1] == order[j]);
                key_before_total(key, nodes[earlier[j - 1] as int].key@);
            } else {
                let a = if i < p {
                    i
                } else {
                    i - 1
                };
                let b = if j < p {
                    j
                } else {
                    j - 1
                };
                assert(earlier[a] == order[i] && earlier[b] == order[j]);
            }
        }
        assert forall|i: int, j: int| 0 <= i < order.len() && 0 <= j < order.len() && i
            != j implies order[i] != order[j] by {
            let a = if i < p {
                i
            } else {
                i - 1
            };
            let b = if j < p {
                j
            } else {
                j - 1
            };
            if i == p {
                assert(earlier[b] < before);
            } else if j == p {
                assert(earlier[a] < before);
            } else {
                assert(earlier[a] != earlier[b]);
            }
        }
        assert forall|i: int| 0 <= i < count implies (#[trigger] order[i]) < count by {
            if i < p {
                assert(earlier[i] < before);
            } else if i > p {
                assert(earlier[i - 1] < before);
            }
        }
        assert forall|at: usize| at < count implies #[trigger] order.contains(at) by {
            if at == new {
                assert(order[p] == at);
            } else {
                assert(earlier.contains(at));
                let i = choose|i: int| 0 <= i < earlier.len() && earlier[i] == at;
                if i < p {
                    assert(order[i] == at);
                } else {
                    assert(order[i + 1] == at);
                }
            }
        }
    }
}

fn find_place(nodes: &Vec<SaveNode>, order: &Vec<usize>, key: &Vec<u8>) -> (at: usize)
    requires
        forall|i: int| 0 <= i < order@.len() ==> (#[trigger] order@[i]) < nodes@.len(),
    ensures
        at == place(nodes@, order@, key@),
        at <= order@.len(),
{
    let mut at: usize = order.len();
    assert(order@.take(at as int) =~= order@);
    while at > 0 && is_key_before(key, &nodes[order[at - 1]].key)
        invariant
            at <= order@.len(),
            forall|i: int| 0 <= i < order@.len() ==> (#[trigger] order@[i]) < nodes@.len(),
            place(nodes@, order@, key@) == place(nodes@, order@.take(at as int), key@),
        decreases at,
    {
        assert(order@.take(at as int).drop_last() =~= order@.take(at - 1));
        assert(order@.take(at as int).last() == order@[at - 1]);
        at -= 1;
    }
    proof {
        if at > 0 {
            assert(order@.take(at as int).last() == order@[at - 1]);
        }
    }
    at
}

fn order_nodes(nodes: &Vec<SaveNode>) -> (order: Vec<usize>)
    ensures
        order@ == ordered(nodes@, nodes@.len()),
        order@.len() == nodes@.len(),
        forall|i: int| 0 <= i < order@.len() ==> (#[trigger] order@[i]) < nodes@.len(),
{
    let mut order: Vec<usize> = Vec::new();
    let mut at: usize = 0;
    while at < nodes.len()
        invariant
            at <= nodes@.len(),
            order@ == ordered(nodes@, at as nat),
            order@.len() == at,
            forall|i: int| 0 <= i < order@.len() ==> (#[trigger] order@[i]) < nodes@.len(),
        decreases nodes@.len() - at,
    {
        let position: usize = find_place(nodes, &order, &nodes[at].key);
        let ghost before = order@;
        order.insert(position, at);
        assert(order@ =~= before.insert(position as int, at));
        assert forall|i: int| 0 <= i < order@.len() implies (#[trigger] order@[i]) < nodes@.len() by {
            if i < position {
                assert(order@[i] == before[i]);
            } else if i > position {
                assert(order@[i] == before[i - 1]);
            }
        }
        at += 1;
    }
    order
}

/// The entries of a directory and everything below it, or the first fault.
pub open spec fn directory_plan(node: SaveNode, name: Seq<char>) -> Result<
    Seq<PlannedView>,
    Seq<char>,
>
    decreases node, 1int, 0nat,
{
    match node.children {
        Err(text) => Err(text@),
        Ok(children) => match children_plan(
            children,
            ordered(children@, children@.len()),
            name,
            children@.len(),
        ) {
            Err(text) => Err(text),
            Ok(below) => Ok(
                seq![PlannedView { name, id: node.id, directory: true }] + below,
            ),
        },
    }
}

/// The entries of the first `count` children in order.
pub open spec fn children_plan(
    children: Vec<SaveNode>,
    order: Seq<usize>,
    parent: Seq<char>,
    count: nat,
) -> Result<Seq<PlannedView>, Seq<char>>
    decreases children, 0int, count,
{
    if count == 0 || count > order.len() {
        Ok(Seq::empty())
    } else {
        match children_plan(children, order, parent, (count - 1) as nat) {
            Err(text) => Err(text),
            Ok(earlier) => {
                let index = order[count - 1] as int;
                if 0 <= index < children@.len() {
                    match child_plan(children@[index], parent) {
                        Err(text) => Err(text),
                        Ok(entries) => Ok(earlier + entries),
                    }
                } else {
                    Ok(earlier)
                }
            },
        }
    }
}

/// The entries of one child.
pub open spec fn child_plan(child: SaveNode, parent: Seq<char>) -> Result<
    Seq<PlannedView>,
    Seq<char>,
>
    decreases child, 2int, 0nat,
{
    match child.name {
        None => Err("存档路径包含无效文件名"@),
        Some(name) => match child.look {
            Err(text) => Err(text@),
            Ok(look) => match special_fault(look, child.path@) {
                Some(text) => Err(text),
                None => if look.is_dir {
                    directory_plan(child, parent + "/"@ + name@)
                } else {
                    Ok(
                        seq![
                            PlannedView {
                                name: parent + "/"@ + name@,
                                id: child.id,
                                directory: false,
                            },
                        ],
                    )
                },
            },
        },
    }
}

/// Plans the entries of a directory: itself first, then its children by file
/// name, each with everything below it.
pub fn push_directory(node: &SaveNode, name: &str, entries: &mut Vec<PlannedEntry>) -> (result:
    Result<(), String>)
    ensures
        match directory_plan(*node, name@) {
            Ok(plan) => result is Ok && planned_views(final(entries)@) == planned_views(
                old(entries)@,
            ) + plan,
            Err(text) => result matches Err(found) && found@ == text,
        },
    decreases *node, 1int, 0nat,
{
    let children: &Vec<SaveNode> = match &node.children {
        Ok(children) => children,
        Err(text) => {
            return Err(text.clone());
        },
    };
    let ghost start = planned_views(entries@);
    let ghost before = entries@;
    entries.push(PlannedEntry { name: name.to_owned(), id: node.id, directory: true });
    let ghost root = seq![PlannedView { name: name@, id: node.id, directory: true }];
    assert(planned_views(entries@) =~= start + root);
    let order: Vec<usize> = order_nodes(children);
    let mut at: usize = 0;
    assert(planned_views(entries@) =~= start + root + Seq::<PlannedView>::empty());
    while at < order.len()
        invariant
            at <= order@.len(),
            decreases_to!(*node => *children),
            order@ == ordered(children@, children@.len()),
            order@.len() == children@.len(),
            forall|i: int| 0 <= i < order@.len() ==> (#[trigger] order@[i]) < children@.len(),
            node.children == Ok::<Vec<SaveNode>, String>(*children),
            children_plan(*children, order@, name@, at as nat) is Ok,
            planned_views(entries@) == start + root + children_plan(
                *children,
                order@,
                name@,
                at as nat,
            )->Ok_0,
        decreases order@.len() - at,
    {
        let child: &SaveNode = &children[order[at]];
        let ghost done = children_plan(*children, order@, name@, at as nat)->Ok_0;
        let ghost plan = child_plan(*child, name@);
        let ghost earlier = entries@;
        let outcome: Result<(), String> = push_child(child, name, entries);
        proof {
            if plan is Err {
                children_fault_persists(*children, order@, name@, (at + 1) as nat, children@.len());
            } else {
                assert(start + root + (done + plan->Ok_0) =~= start + root + done + plan->Ok_0);
            }
        }
        if let Err(text) = outcome {
            return Err(text);
        }
        at += 1;
    }
    proof {
        let below = children_plan(*children, order@, name@, at as nat)->Ok_0;
        assert(start + root + below =~= start + (root + below));
    }
    Ok(())
}

proof fn children_fault_persists(
    children: Vec<SaveNode>,
    order: Seq<usize>,
    parent: Seq<char>,
    count: nat,
    whole: nat,
)
    requires
        count <= whole <= order.len(),
        children_plan(children, order, parent, count) is Err,
    ensures
        children_plan(children, order, parent, whole) == children_plan(
            children,
            order,
            parent,
            count,
        ),
    decreases whole,
{
    if count < whole {
        children_fault_persists(children, order, parent, count, (whole - 1) as nat);
    }
}

fn push_child(child: &SaveNode, parent: &str, entries: &mut Vec<PlannedEntry>) -> (result: Result<
    (),
    String,
>)
    ensures
        match child_plan(*child, parent@) {
            Ok(plan) => result is Ok && planned_views(final(entries)@) == planned_views(
                old(entries)@,
            ) + plan,
            Err(text) => result matches Err(found) && found@ == text,
        },
    decreases *child, 2int, 0nat,
{
    let name: &String = match &child.name {
        Some(name) => name,
        None => {
            return Err("存档路径包含无效文件名".to_owned());
        },
    };
    let look: &SourceLook = match &child.look {
        Ok(look) => look,
        Err(text) => {
            return Err(text.clone());
        },
    };
    if let Err(text) = reject_special_metadata(look, child.path.as_str()) {
        return Err(text);
    }
    let entry_name: String = cat3(parent, "/", name.as_str());
    if look.is_dir {
        push_directory(child, entry_name.as_str(), entries)
    } else {
        let ghost start = planned_views(entries@);
        let ghost plan = seq![
            PlannedView { name: entry_name@, id: child.id, directory: false },
        ];
        entries.push(PlannedEntry { name: entry_name, id: child.id, directory: false });
        assert(planned_views(entries@) =~= start + plan);
        Ok(())
    }
}

/// The name is the given one or lies below it.
pub open spec fn below(name: Seq<char>, root: Seq<char>) -> bool {
    name == root || (root + "/"@).is_prefix_of(name)
}

/// Everything planned for a directory lies below its name, and the directory
/// itself comes first: the archive has a single root.
pub proof fn planned_entries_lie_below_root(node: SaveNode, name: Seq<char>)
    requires
        directory_plan(node, name) is Ok,
    ensures
        directory_plan(node, name)->Ok_0.len() >= 1,
        directory_plan(node, name)->Ok_0[0].name == name,
        directory_plan(node, name)->Ok_0[0].directory,
        forall|i: int|
            0 <= i < directory_plan(node, name)->Ok_0.len() ==> below(
                (#[trigger] directory_plan(node, name)->Ok_0[i]).name,
                name,
            ),
    decreases node, 1int, 0nat,
{
    let children = node.children->Ok_0;
    let order = ordered(children@, children@.len());
    ordered_len(children@, children@.len());
    children_lie_below(children, order, name, children@.len());
    let plan = directory_plan(node, name)->Ok_0;
    let rest = children_plan(children, order, name, children@.len())->Ok_0;
    assert forall|i: int| 0 <= i < plan.len() implies below((#[trigger] plan[i]).name, name) by {
        if i > 0 {
            assert(plan[i] == rest[i - 1]);
        }
    }
}

proof fn children_lie_below(
    children: Vec<SaveNode>,
    order: Seq<usize>,
    parent: Seq<char>,
    count: nat,
)
    requires
        children_plan(children, order, parent, count) is Ok,
    ensures
        forall|i: int|
            0 <= i < children_plan(children, order, parent, count)->Ok_0.len() ==> below(
                (#[trigger] children_plan(children, order, parent, count)->Ok_0[i]).name,
                parent,
            ),
    decreases children, 0int, count,
{
    if count > 0 && count <= order.len() {
        children_lie_below(children, order, parent, (count - 1) as nat);
        let earlier = children_plan(children, order, parent, (count - 1) as nat)->Ok_0;
        let index = order[count - 1] as int;
        if 0 <= index < children@.len() {
            let child = children@[index];
            let entries = child_plan(child, parent)->Ok_0;
            let inner = parent + "/"@ + child.name->Some_0@;
            if child.look->Ok_0.is_dir {
                planned_entries_lie_below_root(child, inner);
            }
            let all = children_plan(children, order, parent, count)->Ok_0;
            assert forall|i: int| 0 <= i < all.len() implies below((#[trigger] all[i]).name, parent) by {
                if i >= earlier.len() {
                    let entry = entries[i - earlier.len()];
                    assert(all[i] == entry);
                    assert(below(entry.name, inner));
                    below_is_transitive(entry.name, parent, child.name->Some_0@);
                } else {
                    assert(all[i] == earlier[i]);
                }
            }
        }
    }
}

proof fn below_is_transitive(name: Seq<char>, root: Seq<char>, part: Seq<char>)
    requires
        below(name, root + "/"@ + part),
    ensures
        below(name, root),
{
    let near = root + "/"@;
    let far = near + part;
    if name == far {
        assert(near =~= name.subrange(0, near.len() as int));
    } else {
        let longer = far + "/"@;
        assert(longer =~= name.subrange(0, longer.len() as int));
        assert(near =~= longer.subrange(0, near.len() as int));
        assert(near =~= name.subrange(0, near.len() as int));
    }
}

/// What making an archive waits for, or how it ended.
#[derive(Clone, Copy, Debug, PartialEq, Eq, Structural)]
pub enum ArchiveStage {
    LookingAtSource,
    CheckingPlace,
    CreatingParent,
    CreatingFile,
    Writing,
    Inspecting,
    Measuring,
    Removing,
    Created,
    Failed,
}

pub open spec fn archive_edge(from: ArchiveStage, to: ArchiveStage) -> bool {
    match from {
        ArchiveStage::LookingAtSource => to == ArchiveStage::CheckingPlace || to
            == ArchiveStage::CreatingParent || to == ArchiveStage::Failed,
        ArchiveStage::CheckingPlace => to == ArchiveStage::CreatingParent || to
            == ArchiveStage::Failed,
        ArchiveStage::CreatingParent => to == ArchiveStage::CreatingFile || to
            == ArchiveStage::Failed,
        ArchiveStage::CreatingFile => to == ArchiveStage::Writing || to == ArchiveStage::Failed,
        ArchiveStage::Writing => to == ArchiveStage::Inspecting || to == ArchiveStage::Removing,
        ArchiveStage::Inspecting => to == ArchiveStage::Measuring || to == ArchiveStage::Removing,
        ArchiveStage::Measuring => to == ArchiveStage::Created || to == ArchiveStage::Removing,
        ArchiveStage::Removing => to == ArchiveStage::Failed,
        ArchiveStage::Created => false,
        ArchiveStage::Failed => false,
    }
}

pub open spec fn archive_history(stages: Seq<ArchiveStage>) -> bool {
    &&& stages.len() > 0
    &&& stages[0] == ArchiveStage::LookingAtSource
    &&& forall|i: int|
        0 < i < stages.len() ==> archive_edge(#[trigger] stages[i - 1], stages[i])
}

/// An archive is reported as created only after it was read back and found to
/// have a single root.
pub proof fn created_archives_were_inspected(stages: Seq<ArchiveStage>)
    requires
        archive_history(stages),
        stages.last() == ArchiveStage::Created,
    ensures
        stages.len() >= 3,
        stages[stages.len() - 2] == ArchiveStage::Measuring,
        stages[stages.len() - 3] == ArchiveStage::Inspecting,
{
    let n = stages.len() as int;
    assert(n >= 2);
    assert(archive_edge(stages[(n - 1) - 1], stages[n - 1]));
    assert(n >= 3);
    assert(archive_edge(stages[(n - 2) - 1], stages[n - 2]));
}

/// Once the file was created, a failure removes it.
pub proof fn failed_archives_are_removed(stages: Seq<ArchiveStage>, at: int)
    requires
        archive_history(stages),
        stages.last() == ArchiveStage::Failed,
        0 <= at < stages.len(),
        stages[at] == ArchiveStage::Writing || stages[at] == ArchiveStage::Inspecting || stages[at]
            == ArchiveStage::Measuring || stages[at] == ArchiveStage::Removing,
    ensures
        stages.len() >= 2,
        stages[stages.len() - 2] == ArchiveStage::Removing,
    decreases stages.len() - at,
{
    assert(at + 1 < stages.len());
    assert(archive_edge(stages[(at + 1) - 1], stages[at + 1]));
    if at + 2 < stages.len() {
        assert(archive_edge(stages[(at + 2) - 1], stages[at + 2]));
        failed_archives_are_removed(stages, at + 1);
    }
}

/// What the host does next.
#[derive(Debug)]
pub enum ArchiveAction {
    /// Find the real paths of source and archive.
    ResolvePlaces,
    /// Create the parent directory of the archive, if it has one.
    CreateParent,
    /// Create the archive; it must not exist.
    CreateFile,
    /// Write the source into it.
    Write,
    /// Read its entries back.
    ReadEntries,
    /// Read its length.
    Measure,
    /// Remove it, whether or not that works.
    Remove,
    Finish(Result<u64, String>),
}

/// Making an archive.
pub struct ArchiveCreation {
    pub stage: ArchiveStage,
    /// The source as shown to users.
    pub source: String,
    /// The name of the source, if it is text.
    pub root_name: Option<String>,
    pub failure: Option<String>,
}

impl ArchiveCreation {
    pub open spec fn wf(self) -> bool {
        self.stage == ArchiveStage::Removing ==> self.failure is Some
    }

    pub open spec fn fails(after: ArchiveCreation, action: ArchiveAction, message: Seq<char>) -> bool {
        after.stage == ArchiveStage::Failed && (action matches ArchiveAction::Finish(Err(text))
            && text@ == message)
    }

    pub open spec fn removes(
        after: ArchiveCreation,
        action: ArchiveAction,
        message: Seq<char>,
    ) -> bool {
        &&& after.stage == ArchiveStage::Removing
        &&& action == ArchiveAction::Remove
        &&& after.failure matches Some(text) && text@ == message
    }

    pub fn new(source: String, root_name: Option<String>) -> (creation: ArchiveCreation)
        ensures
            creation.wf(),
            creation == (ArchiveCreation {
                stage: ArchiveStage::LookingAtSource,
                source,
                root_name,
                failure: None,
            }),
    {
        ArchiveCreation { stage: ArchiveStage::LookingAtSource, source, root_name, failure: None }
    }

    fn fail(&mut self, message: String) -> (action: ArchiveAction)
        ensures
            *final(self) == (ArchiveCreation { stage: final(self).stage, ..*old(self) }),
            ArchiveCreation::fails(*final(self), action, message@),
            final(self).wf(),
    {
        self.stage = ArchiveStage::Failed;
        ArchiveAction::Finish(Err(message))
    }

    fn remove(&mut self, message: String) -> (action: ArchiveAction)
        ensures
            *final(self) == (ArchiveCreation {
                stage: final(self).stage,
                failure: final(self).failure,
                ..*old(self)
            }),
            ArchiveCreation::removes(*final(self), action, message@),
            final(self).wf(),
    {
        self.failure = Some(message);
        self.stage = ArchiveStage::Removing;
        ArchiveAction::Remove
    }

    /// The step behind the checks of the source.
    pub open spec fn goes_on(self, after: ArchiveCreation, action: ArchiveAction) -> bool {
        if self.root_name is None {
            ArchiveCreation::fails(after, action, "存档路径没有有效名称"@)
        } else {
            after == (ArchiveCreation { stage: ArchiveStage::CreatingParent, ..self }) && action
                == ArchiveAction::CreateParent
        }
    }

    fn go_on(&mut self) -> (action: ArchiveAction)
        requires
            old(self).wf(),
        ensures
            *final(self) == (ArchiveCreation { stage: final(self).stage, ..*old(self) }),
            old(self).goes_on(*final(self), action),
            final(self).wf(),
            final(self).stage == ArchiveStage::CreatingParent || final(self).stage
                == ArchiveStage::Failed,
    {
        if self.root_name.is_none() {
            return self.fail("存档路径没有有效名称".to_owned());
        }
        self.stage = ArchiveStage::CreatingParent;
        ArchiveAction::CreateParent
    }

    /// The source was looked at, or not.
    pub fn on_source(&mut self, look: Result<SourceLook, String>) -> (action: ArchiveAction)
        requires
            old(self).wf(),
            old(self).stage == ArchiveStage::LookingAtSource,
        ensures
            *final(self) == (ArchiveCreation { stage: final(self).stage, ..*old(self) }),
            final(self).wf(),
            archive_edge(old(self).stage, final(self).stage),
            match look {
                Err(text) => ArchiveCreation::fails(*final(self), action, text@),
                Ok(look) => match special_fault(look, old(self).source@) {
                    Some(text) => ArchiveCreation::fails(*final(self), action, text),
                    None => if look.is_dir {
                        *final(self) == (ArchiveCreation {
                            stage: ArchiveStage::CheckingPlace,
                            ..*old(self)
                        }) && action == ArchiveAction::ResolvePlaces
                    } else {
                        old(self).goes_on(*final(self), action)
                    },
                },
            },
    {
        let look: SourceLook = match look {
            Ok(look) => look,
            Err(text) => {
                return self.fail(text);
            },
        };
        if let Err(text) = reject_special_metadata(&look, self.source.as_str()) {
            return self.fail(text);
        }
        if look.is_dir {
            self.stage = ArchiveStage::CheckingPlace;
            ArchiveAction::ResolvePlaces
        } else {
            self.go_on()
        }
    }

    /// The real paths of source and archive are known, or not.
    pub fn on_places(
        &mut self,
        places: Result<(Vec<PathComponent>, Vec<PathComponent>), String>,
    ) -> (action: ArchiveAction)
        requires
            old(self).wf(),
            old(self).stage == ArchiveStage::CheckingPlace,
        ensures
            *final(self) == (ArchiveCreation { stage: final(self).stage, ..*old(self) }),
            final(self).wf(),
            archive_edge(old(self).stage, final(self).stage),
            match places {
                Err(text) => ArchiveCreation::fails(*final(self), action, text@),
                Ok((source, archive)) => if prefix_of(
                    NameRules::Exact,
                    path_view(source@),
                    path_view(archive@),
                ) {
                    ArchiveCreation::fails(
                        *final(self),
                        action,
                        "7z 归档不能位于源存档目录内部"@,
                    )
                } else {
                    old(self).goes_on(*final(self), action)
                },
            },
    {
        let (source, archive) = match places {
            Ok(places) => places,
            Err(text) => {
                return self.fail(text);
            },
        };
        if let Err(text) = reject_archive_inside_source(&source, &archive) {
            return self.fail(text);
        }
        self.go_on()
    }

    /// The parent directory was created, or not.
    pub fn on_parent(&mut self, result: Result<(), String>) -> (action: ArchiveAction)
        requires
            old(self).wf(),
            old(self).stage == ArchiveStage::CreatingParent,
        ensures
            *final(self) == (ArchiveCreation { stage: final(self).stage, ..*old(self) }),
            final(self).wf(),
            archive_edge(old(self).stage, final(self).stage),
            match result {
                Ok(_) => *final(self) == (ArchiveCreation {
                    stage: ArchiveStage::CreatingFile,
                    ..*old(self)
                }) && action == ArchiveAction::CreateFile,
                Err(text) => ArchiveCreation::fails(*final(self), action, text@),
            },
    {
        match result {
            Ok(_) => {
                self.stage = ArchiveStage::CreatingFile;
                ArchiveAction::CreateFile
            },
            Err(text) => self.fail(text),
        }
    }

    /// The file was created, or not; one that exists is left alone.
    pub fn on_created(&mut self, result: Result<(), String>) -> (action: ArchiveAction)
        requires
            old(self).wf(),
            old(self).stage == ArchiveStage::CreatingFile,
        ensures
            *final(self) == (ArchiveCreation { stage: final(self).stage, ..*old(self) }),
            final(self).wf(),
            archive_edge(old(self).stage, final(self).stage),
            match result {
                Ok(_) => *final(self) == (ArchiveCreation {
                    stage: ArchiveStage::Writing,
                    ..*old(self)
                }) && action == ArchiveAction::Write,
                Err(text) => ArchiveCreation::fails(*final(self), action, text@),
            },
    {
        match result {
            Ok(_) => {
                self.stage = ArchiveStage::Writing;
                ArchiveAction::Write
            },
            Err(text) => self.fail(text),
        }
    }

    /// The source was written, or not.
    pub fn on_written(&mut self, result: Result<(), String>) -> (action: ArchiveAction)
        requires
            old(self).wf(),
            old(self).stage == ArchiveStage::Writing,
        ensures
            *final(self) == (ArchiveCreation {
                stage: final(self).stage,
                failure: final(self).failure,
                ..*old(self)
            }),
            final(self).wf(),
            archive_edge(old(self).stage, final(self).stage),
            match result {
                Ok(_) => *final(self) == (ArchiveCreation {
                    stage: ArchiveStage::Inspecting,
                    ..*old(self)
                }) && action == ArchiveAction::ReadEntries,
                Err(text) => ArchiveCreation::removes(*final(self), action, text@),
            },
    {
        match result {
            Ok(_) => {
                self.stage = ArchiveStage::Inspecting;
                ArchiveAction::ReadEntries
            },
            Err(text) => self.remove(text),
        }
    }

    /// The entries were read back, or not; they have to form a single root.
    pub fn on_entries(&mut self, entries: Result<Vec<ArchiveEntry>, String>) -> (action:
        ArchiveAction)
        requires
            old(self).wf(),
            old(self).stage == ArchiveStage::Inspecting,
        ensures
            *final(self) == (ArchiveCreation {
                stage: final(self).stage,
                failure: final(self).failure,
                ..*old(self)
            }),
            final(self).wf(),
            archive_edge(old(self).stage, final(self).stage),
            match entries {
                Err(text) => ArchiveCreation::removes(*final(self), action, text@),
                Ok(entries) => match rooted_verdict(entries@) {
                    Err(text) => ArchiveCreation::removes(*final(self), action, text),
                    Ok(_) => *final(self) == (ArchiveCreation {
                        stage: ArchiveStage::Measuring,
                        ..*old(self)
                    }) && action == ArchiveAction::Measure,
                },
            },
    {
        match entries {
            Err(text) => self.remove(text),
            Ok(entries) => match inspect_rooted_entries(&entries) {
                Err(text) => self.remove(text),
                Ok(_) => {
                    self.stage = ArchiveStage::Measuring;
                    ArchiveAction::Measure
                },
            },
        }
    }

    /// The length was read, or not.
    pub fn on_measured(&mut self, len: Result<u64, String>) -> (action: ArchiveAction)
        requires
            old(self).wf(),
            old(self).stage == ArchiveStage::Measuring,
        ensures
            *final(self) == (ArchiveCreation {
                stage: final(self).stage,
                failure: final(self).failure,
                ..*old(self)
            }),
            final(self).wf(),
            archive_edge(old(self).stage, final(self).stage),
            match len {
                Ok(len) => final(self).stage == ArchiveStage::Created && action
                    == ArchiveAction::Finish(Ok(len)),
                Err(text) => ArchiveCreation::removes(*final(self), action, text@),
            },
    {
        match len {
            Ok(len) => {
                self.stage = ArchiveStage::Created;
                ArchiveAction::Finish(Ok(len))
            },
            Err(text) => self.remove(text),
        }
    }

    /// The failed archive was removed.
    pub fn on_removed(&mut self) -> (action: ArchiveAction)
        requires
            old(self).wf(),
            old(self).stage == ArchiveStage::Removing,
        ensures
            *final(self) == (ArchiveCreation {
                stage: final(self).stage,
                failure: final(self).failure,
                ..*old(self)
            }),
            final(self).wf(),
            archive_edge(old(self).stage, final(self).stage),
            ArchiveCreation::fails(*final(self), action, old(self).failure->Some_0@),
    {
        match self.failure.take() {
            Some(text) => self.fail(text),
            None => self.fail(String::new()),
        }
    }
}

/// A source object is archived exactly if it is a file or a directory and
/// neither a link nor anything else that leads elsewhere.
pub proof fn only_plain_objects_are_archived(look: SourceLook, path: Seq<char>)
    ensures
        special_fault(look, path) is None <==> {
            &&& !look.redirect.is_symlink
            &&& match look.redirect.reparse {
                None => true,
                Some(crate::backup::savedata::fs_safety::ReparseTag::Tag(tag)) => tag & 0x2000_0000u32
                    == 0,
                Some(crate::backup::savedata::fs_safety::ReparseTag::Failed(_)) => false,
            }
            &&& look.is_file || look.is_dir
        },
{
}

/// A file name comes before another exactly if, behind a common beginning, it
/// ends first or has the smaller byte.
pub proof fn key_order_is_by_bytes(left: Seq<u8>, right: Seq<u8>)
    ensures
        key_before(left, right) <==> exists|k: int|
            0 <= k <= left.len() && k < right.len() && #[trigger] left.take(k) == right.take(k) && (k
                == left.len() || left[k] < right[k]),
    decreases left.len(),
{
    if key_before(left, right) {
        if left.len() == 0 || left[0] != right[0] {
            assert(left.take(0) =~= right.take(0));
        } else {
            let (a, b) = (left.drop_first(), right.drop_first());
            key_order_is_by_bytes(a, b);
            let k = choose|k: int|
                0 <= k <= a.len() && k < b.len() && #[trigger] a.take(k) == b.take(k) && (k
                    == a.len() || a[k] < b[k]);
            assert(left.take(k + 1) =~= seq![left[0]] + a.take(k));
            assert(right.take(k + 1) =~= seq![right[0]] + b.take(k));
        }
    }
    if exists|k: int|
        0 <= k <= left.len() && k < right.len() && #[trigger] left.take(k) == right.take(k) && (k
            == left.len() || left[k] < right[k]) {
        let k = choose|k: int|
            0 <= k <= left.len() && k < right.len() && #[trigger] left.take(k) == right.take(k) && (
            k == left.len() || left[k] < right[k]);
        if k > 0 {
            let (a, b) = (left.drop_first(), right.drop_first());
            assert(left.take(k)[0] == right.take(k)[0]);
            assert(a.take(k - 1) =~= left.take(k).drop_first());
            assert(b.take(k - 1) =~= right.take(k).drop_first());
            key_order_is_by_bytes(a, b);
        }
    }
}

/// The object could be looked at, has a name in text and is plain, and so is
/// everything below it.
pub open spec fn archivable(node: SaveNode) -> bool
    decreases node, 1int, 0nat,
{
    &&& node.name is Some
    &&& node.look matches Ok(look) && special_fault(look, node.path@) is None && (look.is_dir
        ==> contents_archivable(node))
}

/// A directory could be listed, and all it holds is archivable.
pub open spec fn contents_archivable(node: SaveNode) -> bool
    decreases node, 0int, 1nat,
{
    node.children matches Ok(children) && all_archivable(children, children@.len())
}

pub open spec fn all_archivable(nodes: Vec<SaveNode>, count: nat) -> bool
    decreases nodes, 0int, count,
{
    if count == 0 || count > nodes@.len() {
        true
    } else {
        all_archivable(nodes, (count - 1) as nat) && archivable(nodes@[count - 1])
    }
}

proof fn archivable_each(nodes: Vec<SaveNode>, count: nat)
    requires
        count <= nodes@.len(),
    ensures
        all_archivable(nodes, count) <==> forall|i: int|
            0 <= i < count ==> archivable(#[trigger] nodes@[i]),
    decreases count,
{
    if count > 0 {
        archivable_each(nodes, (count - 1) as nat);
    }
}

/// A directory is archived exactly if everything in it is archivable; one
/// object that is not stops the archive.
pub proof fn archives_need_archivable_contents(node: SaveNode, name: Seq<char>)
    ensures
        directory_plan(node, name) is Ok <==> contents_archivable(node),
    decreases node, 1int, 0nat,
{
    if let Ok(children) = node.children {
        let order = ordered(children@, children@.len());
        assert(children.len() == children@.len());
        ordered_is_a_sorted_permutation(children@, children@.len());
        archivable_each(children, children@.len());
        children_need_archivable_contents(children, order, name, children@.len());
        if directory_plan(node, name) is Ok {
            assert forall|i: int| 0 <= i < children@.len() implies archivable(
                #[trigger] children@[i],
            ) by {
                assert(order.contains(i as usize));
                let k = choose|k: int| 0 <= k < order.len() && order[k] == i as usize;
                assert(archivable(children@[order[k] as int]));
            }
        }
    }
}

proof fn children_need_archivable_contents(
    children: Vec<SaveNode>,
    order: Seq<usize>,
    parent: Seq<char>,
    count: nat,
)
    requires
        count <= order.len(),
        forall|k: int| 0 <= k < order.len() ==> (#[trigger] order[k]) < children@.len(),
    ensures
        children_plan(children, order, parent, count) is Ok <==> forall|k: int|
            0 <= k < count ==> archivable(children@[(#[trigger] order[k]) as int]),
    decreases children, 0int, count,
{
    if count > 0 {
        children_need_archivable_contents(children, order, parent, (count - 1) as nat);
        let index = order[count - 1] as int;
        let child = children@[index];
        let own = child_plan(child, parent);
        if child.name is Some {
            archives_need_archivable_contents(child, parent + "/"@ + child.name->Some_0@);
        }
        assert(own is Ok <==> archivable(child));
        assert(children_plan(children, order, parent, count) is Ok <==> children_plan(
            children,
            order,
            parent,
            (count - 1) as nat,
        ) is Ok && own is Ok);
    }
}

/// How many objects an object and everything below it are.
pub open spec fn objects(node: SaveNode) -> nat
    decreases node, 1int, 0nat,
{
    if node.look matches Ok(look) && look.is_dir {
        contents(node) + 1
    } else {
        1
    }
}

pub open spec fn contents(node: SaveNode) -> nat
    decreases node, 0int, 1nat,
{
    match node.children {
        Ok(children) => objects_of(children, ordered(children@, children@.len()), children@.len()),
        Err(_) => 0,
    }
}

pub open spec fn objects_of(nodes: Vec<SaveNode>, order: Seq<usize>, count: nat) -> nat
    decreases nodes, 0int, count,
{
    if count == 0 || count > order.len() {
        0
    } else {
        objects_of(nodes, order, (count - 1) as nat) + if (order[count - 1] as int) < nodes@.len() {
            objects(nodes@[order[count - 1] as int])
        } else {
            0
        }
    }
}

/// The archive of a directory has one entry for each object in it, and no
/// others.
pub proof fn archives_have_one_entry_per_object(node: SaveNode, name: Seq<char>)
    requires
        directory_plan(node, name) is Ok,
    ensures
        directory_plan(node, name)->Ok_0.len() == contents(node) + 1,
    decreases node, 1int, 0nat,
{
    if let Ok(children) = node.children {
        children_have_one_entry_each(
            children,
            ordered(children@, children@.len()),
            name,
            children@.len(),
        );
    }
}

proof fn children_have_one_entry_each(
    children: Vec<SaveNode>,
    order: Seq<usize>,
    parent: Seq<char>,
    count: nat,
)
    requires
        children_plan(children, order, parent, count) is Ok,
    ensures
        children_plan(children, order, parent, count)->Ok_0.len() == objects_of(
            children,
            order,
            count,
        ),
    decreases children, 0int, count,
{
    if count > 0 && count <= order.len() {
        children_have_one_entry_each(children, order, parent, (count - 1) as nat);
        let index = order[count - 1] as int;
        if 0 <= index < children@.len() {
            let child = children@[index];
            let own = child_plan(child, parent)->Ok_0;
            if child.look->Ok_0.is_dir {
                archives_have_one_entry_per_object(child, parent + "/"@ + child.name->Some_0@);
            }
            assert(own.len() == objects(child));
        }
    }
}

/// Nothing is left out: each object in an archived directory has an entry with
/// its own name below that of the directory, and what lies in a directory of
/// it is archived along.
pub proof fn nothing_is_left_out(node: SaveNode, name: Seq<char>, children: Vec<SaveNode>, at: int)
    requires
        directory_plan(node, name) is Ok,
        node.children == Ok::<Vec<SaveNode>, String>(children),
        0 <= at < children@.len(),
    ensures
        ({
            let child = children@[at];
            let plan = directory_plan(node, name)->Ok_0;
            let path = name + "/"@ + child.name->Some_0@;
            &&& child.name is Some
            &&& child.look is Ok
            &&& plan.contains(
                PlannedView { name: path, id: child.id, directory: child.look->Ok_0.is_dir },
            )
            &&& child.look->Ok_0.is_dir ==> directory_plan(child, path) is Ok && forall|i: int|
                0 <= i < directory_plan(child, path)->Ok_0.len() ==> plan.contains(
                    #[trigger] directory_plan(child, path)->Ok_0[i],
                )
        }),
{
    let order = ordered(children@, children@.len());
    assert(children.len() == children@.len());
    ordered_is_a_sorted_permutation(children@, children@.len());
    assert(order.contains(at as usize));
    let k = choose|k: int| 0 <= k < order.len() && order[k] == at as usize;
    child_is_among(children, order, name, children@.len(), k);
    let below = children_plan(children, order, name, children@.len())->Ok_0;
    let plan = directory_plan(node, name)->Ok_0;
    let child = children@[at];
    let own = child_plan(child, name)->Ok_0;
    assert forall|i: int| 0 <= i < own.len() implies plan.contains(#[trigger] own[i]) by {
        assert(below.contains(own[i]));
        let m = choose|m: int| 0 <= m < below.len() && below[m] == own[i];
        assert(plan[m + 1] == own[i]);
    }
    assert(own.len() > 0) by {
        if child.look->Ok_0.is_dir {
            planned_entries_lie_below_root(child, name + "/"@ + child.name->Some_0@);
        }
    }
    assert(plan.contains(own[0]));
    if child.look->Ok_0.is_dir {
        assert(own[0] == (PlannedView {
            name: name + "/"@ + child.name->Some_0@,
            id: child.id,
            directory: true,
        }));
    }
}

proof fn child_is_among(
    children: Vec<SaveNode>,
    order: Seq<usize>,
    parent: Seq<char>,
    count: nat,
    at: int,
)
    requires
        children_plan(children, order, parent, count) is Ok,
        0 <= at < count <= order.len(),
        order[at] < children@.len(),
    ensures
        child_plan(children@[order[at] as int], parent) is Ok,
        forall|i: int|
            0 <= i < child_plan(children@[order[at] as int], parent)->Ok_0.len()
                ==> children_plan(children, order, parent, count)->Ok_0.contains(
                #[trigger] child_plan(children@[order[at] as int], parent)->Ok_0[i],
            ),
    decreases count,
{
    let earlier = children_plan(children, order, parent, (count - 1) as nat)->Ok_0;
    let all = children_plan(children, order, parent, count)->Ok_0;
    let own = child_plan(children@[order[at] as int], parent)->Ok_0;
    if at < count - 1 {
        child_is_among(children, order, parent, (count - 1) as nat, at);
        assert forall|i: int| 0 <= i < own.len() implies all.contains(#[trigger] own[i]) by {
            assert(earlier.contains(own[i]));
            let m = choose|m: int| 0 <= m < earlier.len() && earlier[m] == own[i];
            assert(all[m] == own[i]);
        }
    } else {
        assert forall|i: int| 0 <= i < own.len() implies all.contains(#[trigger] own[i]) by {
            assert(all[earlier.len() + i] == own[i]);
        }
    }
}

/// Archives are compressed at level three.
pub proof fn archives_are_compressed_moderately()
    ensures
        ZSTD_COMPRESSION_LEVEL == 3,
{
}

/// An archive that fails is removed before its failure is told; one whose
/// source has a name goes on to the directory that it is written to.
pub proof fn failed_archives_are_removed_first(
    creation: ArchiveCreation,
    after: ArchiveCreation,
    action: ArchiveAction,
    message: Seq<char>,
)
    ensures
        ArchiveCreation::removes(after, action, message) ==> action == ArchiveAction::Remove
            && after.failure is Some && after.failure->Some_0@ == message,
        ArchiveCreation::fails(after, action, message) ==> (action matches ArchiveAction::Finish(
            Err(text),
        ) && text@ == message),
        creation.goes_on(after, action) ==> (action == ArchiveAction::CreateParent
            <==> creation.root_name is Some),
        creation.goes_on(after, action) && creation.root_name is Some ==> after.source
            == creation.source && after.root_name == creation.root_name,
{
}

} // verus!
