//! Paths as component lists, and how two of them relate.
//!
//! Names are kept in the platform's own encoding, so that paths that are not
//! text can be told apart too.

use vstd::prelude::*;

use crate::text::chars::{same_bytes, same_bytes_ignoring_case, upper_bytes};
use crate::text::concat::{cat2, cat3};

verus! {

/// How names are compared.
#[derive(Clone, Copy, Debug, PartialEq, Eq, Structural)]
pub enum NameRules {
    /// Byte for byte.
    Exact,
    /// Without regard to ASCII case.
    IgnoreCase,
}

/// One component of a path.
#[derive(Clone, Debug)]
pub enum PathComponent {
    Prefix(Vec<u8>),
    RootDir,
    CurDir,
    ParentDir,
    Normal(Vec<u8>),
}

pub enum ComponentView {
    Prefix(Seq<u8>),
    RootDir,
    CurDir,
    ParentDir,
    Normal(Seq<u8>),
}

impl View for PathComponent {
    type V = ComponentView;

    open spec fn view(&self) -> ComponentView {
        match *self {
            PathComponent::Prefix(bytes) => ComponentView::Prefix(bytes@),
            PathComponent::RootDir => ComponentView::RootDir,
            PathComponent::CurDir => ComponentView::CurDir,
            PathComponent::ParentDir => ComponentView::ParentDir,
            PathComponent::Normal(bytes) => ComponentView::Normal(bytes@),
        }
    }
}

/// Plain values of a path.
pub open spec fn path_view(path: Seq<PathComponent>) -> Seq<ComponentView> {
    Seq::new(path.len(), |i: int| path[i]@)
}

/// A copy of a byte string.
pub fn copy_bytes(bytes: &Vec<u8>) -> (copy: Vec<u8>)
    ensures
        copy@ == bytes@,
{
    let mut copy: Vec<u8> = Vec::new();
    let mut at: usize = 0;
    while at < bytes.len()
        invariant
            at <= bytes@.len(),
            copy@ == bytes@.take(at as int),
        decreases bytes@.len() - at,
    {
        copy.push(bytes[at]);
        assert(copy@ =~= bytes@.take(at + 1));
        at += 1;
    }
    assert(copy@ =~= bytes@);
    copy
}

fn copy_component(component: &PathComponent) -> (copy: PathComponent)
    ensures
        copy@ == component@,
{
    match component {
        PathComponent::Prefix(bytes) => PathComponent::Prefix(copy_bytes(bytes)),
        PathComponent::RootDir => PathComponent::RootDir,
        PathComponent::CurDir => PathComponent::CurDir,
        PathComponent::ParentDir => PathComponent::ParentDir,
        PathComponent::Normal(bytes) => PathComponent::Normal(copy_bytes(bytes)),
    }
}

/// A copy of the components `from..to`.
pub fn copy_path(path: &Vec<PathComponent>, from: usize, to: usize) -> (copy: Vec<PathComponent>)
    requires
        from <= to <= path@.len(),
    ensures
        path_view(copy@) == path_view(path@).subrange(from as int, to as int),
{
    let mut copy: Vec<PathComponent> = Vec::new();
    let mut at: usize = from;
    while at < to
        invariant
            from <= at <= to <= path@.len(),
            path_view(copy@) == path_view(path@).subrange(from as int, at as int),
        decreases to - at,
    {
        let ghost before = copy@;
        copy.push(copy_component(&path[at]));
        assert(path_view(copy@) =~= path_view(before).push(path@[at as int]@));
        assert(path_view(copy@) =~= path_view(path@).subrange(from as int, at + 1));
        at += 1;
    }
    assert(path_view(copy@) =~= path_view(path@).subrange(from as int, to as int));
    copy
}

/// The spelling of a component.
pub open spec fn component_bytes(component: ComponentView) -> Seq<u8> {
    match component {
        ComponentView::Prefix(bytes) => bytes,
        ComponentView::RootDir => seq![92u8],
        ComponentView::CurDir => seq![46u8],
        ComponentView::ParentDir => seq![46u8, 46u8],
        ComponentView::Normal(bytes) => bytes,
    }
}

/// Two components name the same thing: they are equal, or, without regard to
/// case, spelled alike.
pub open spec fn equal_components(rules: NameRules, left: ComponentView, right: ComponentView) -> bool {
    match rules {
        NameRules::Exact => left == right,
        NameRules::IgnoreCase => upper_bytes(component_bytes(left)) == upper_bytes(
            component_bytes(right),
        ),
    }
}

fn spelling(component: &PathComponent) -> (bytes: Vec<u8>)
    ensures
        bytes@ == component_bytes(component@),
{
    match component {
        PathComponent::Prefix(bytes) => copy_bytes(bytes),
        PathComponent::RootDir => {
            let bytes: Vec<u8> = vec![92];
            assert(bytes@ =~= seq![92u8]);
            bytes
        },
        PathComponent::CurDir => {
            let bytes: Vec<u8> = vec![46];
            assert(bytes@ =~= seq![46u8]);
            bytes
        },
        PathComponent::ParentDir => {
            let bytes: Vec<u8> = vec![46, 46];
            assert(bytes@ =~= seq![46u8, 46u8]);
            bytes
        },
        PathComponent::Normal(bytes) => copy_bytes(bytes),
    }
}

/// Whether two components name the same thing.
pub fn components_equal(rules: NameRules, left: &PathComponent, right: &PathComponent) -> (equal:
    bool)
    ensures
        equal == equal_components(rules, left@, right@),
{
    match rules {
        NameRules::Exact => match (left, right) {
            (PathComponent::Prefix(a), PathComponent::Prefix(b)) => same_bytes(a, b),
            (PathComponent::RootDir, PathComponent::RootDir) => true,
            (PathComponent::CurDir, PathComponent::CurDir) => true,
            (PathComponent::ParentDir, PathComponent::ParentDir) => true,
            (PathComponent::Normal(a), PathComponent::Normal(b)) => same_bytes(a, b),
            _ => false,
        },
        NameRules::IgnoreCase => same_bytes_ignoring_case(&spelling(left), &spelling(right)),
    }
}

/// `prefix` is `path` or one of its ancestors.
pub open spec fn prefix_of(
    rules: NameRules,
    prefix: Seq<ComponentView>,
    path: Seq<ComponentView>,
) -> bool {
    &&& prefix.len() <= path.len()
    &&& forall|i: int|
        0 <= i < prefix.len() ==> equal_components(rules, #[trigger] prefix[i], path[i])
}

/// Both paths are the same.
pub open spec fn same_paths(
    rules: NameRules,
    left: Seq<ComponentView>,
    right: Seq<ComponentView>,
) -> bool {
    left.len() == right.len() && prefix_of(rules, left, right)
}

/// One path contains the other, or they are the same.
pub open spec fn overlapping(
    rules: NameRules,
    left: Seq<ComponentView>,
    right: Seq<ComponentView>,
) -> bool {
    prefix_of(rules, left, right) || prefix_of(rules, right, left)
}

/// Whether one path is another or one of its ancestors.
pub fn is_path_prefix(rules: NameRules, prefix: &Vec<PathComponent>, path: &Vec<PathComponent>) -> (
found: bool)
    ensures
        found == prefix_of(rules, path_view(prefix@), path_view(path@)),
{
    if prefix.len() > path.len() {
        return false;
    }
    let mut at: usize = 0;
    while at < prefix.len()
        invariant
            at <= prefix@.len() <= path@.len(),
            forall|i: int|
                0 <= i < at ==> equal_components(
                    rules,
                    #[trigger] path_view(prefix@)[i],
                    path_view(path@)[i],
                ),
        decreases prefix@.len() - at,
    {
        if !components_equal(rules, &prefix[at], &path[at]) {
            assert(!equal_components(
                rules,
                path_view(prefix@)[at as int],
                path_view(path@)[at as int],
            ));
            return false;
        }
        at += 1;
    }
    true
}

/// Whether two paths are the same.
pub fn same_path(rules: NameRules, left: &Vec<PathComponent>, right: &Vec<PathComponent>) -> (same:
    bool)
    ensures
        same == same_paths(rules, path_view(left@), path_view(right@)),
{
    left.len() == right.len() && is_path_prefix(rules, left, right)
}

/// Whether one path contains the other.
pub fn paths_overlap(rules: NameRules, left: &Vec<PathComponent>, right: &Vec<PathComponent>) -> (
overlap: bool)
    ensures
        overlap == overlapping(rules, path_view(left@), path_view(right@)),
{
    is_path_prefix(rules, left, right) || is_path_prefix(rules, right, left)
}

/// Being the same path is reflexive and symmetric, and overlap is symmetric.
pub proof fn path_relations(rules: NameRules, left: Seq<ComponentView>, right: Seq<ComponentView>)
    ensures
        same_paths(rules, left, left),
        same_paths(rules, left, right) == same_paths(rules, right, left),
        overlapping(rules, left, right) == overlapping(rules, right, left),
        same_paths(rules, left, right) ==> overlapping(rules, left, right),
{
    if same_paths(rules, left, right) {
        assert forall|i: int| 0 <= i < right.len() implies equal_components(
            rules,
            #[trigger] right[i],
            left[i],
        ) by {
            assert(equal_components(rules, left[i], right[i]));
        }
    }
    if same_paths(rules, right, left) {
        assert forall|i: int| 0 <= i < left.len() implies equal_components(
            rules,
            #[trigger] left[i],
            right[i],
        ) by {
            assert(equal_components(rules, right[i], left[i]));
        }
    }
}

/// Two paths that contain each other are the same path.
pub proof fn mutual_prefixes_are_same(
    rules: NameRules,
    left: Seq<ComponentView>,
    right: Seq<ComponentView>,
)
    requires
        prefix_of(rules, left, right),
        prefix_of(rules, right, left),
    ensures
        same_paths(rules, left, right),
{
}

/// The path without `.` and with `..` resolved by name. A `..` at the root,
/// or with nothing before it, is dropped.
pub open spec fn normalized(path: Seq<ComponentView>) -> Seq<ComponentView>
    decreases path.len(),
{
    if path.len() == 0 {
        Seq::empty()
    } else {
        let rest = normalized(path.drop_last());
        match path.last() {
            ComponentView::CurDir => rest,
            ComponentView::ParentDir => if rest.len() > 0 && rest.last() is Normal {
                rest.drop_last()
            } else {
                rest
            },
            other => rest.push(other),
        }
    }
}

/// Neither `.` nor `..` occurs.
pub open spec fn plain(path: Seq<ComponentView>) -> bool {
    forall|i: int|
        0 <= i < path.len() ==> !(#[trigger] path[i] is CurDir) && !(path[i] is ParentDir)
}

/// A normalized path has neither `.` nor `..`.
pub proof fn normalized_is_plain(path: Seq<ComponentView>)
    ensures
        plain(normalized(path)),
    decreases path.len(),
{
    if path.len() > 0 {
        normalized_is_plain(path.drop_last());
    }
}

/// A path without `.` and `..` is its own normalized form; so normalizing
/// twice is normalizing once.
pub proof fn plain_is_normalized(path: Seq<ComponentView>)
    requires
        plain(path),
    ensures
        normalized(path) == path,
    decreases path.len(),
{
    if path.len() > 0 {
        assert forall|i: int| 0 <= i < path.drop_last().len() implies !(
        #[trigger] path.drop_last()[i] is CurDir) && !(path.drop_last()[i] is ParentDir) by {
            assert(path.drop_last()[i] == path[i]);
        }
        plain_is_normalized(path.drop_last());
        assert(!(path[path.len() - 1] is CurDir));
        assert(path =~= path.drop_last().push(path.last()));
    } else {
        assert(normalized(path) =~= path);
    }
}

/// Resolves `.` and `..` by name.
pub fn normalize_for_overlap(path: &Vec<PathComponent>) -> (result: Vec<PathComponent>)
    ensures
        path_view(result@) == normalized(path_view(path@)),
{
    let mut result: Vec<PathComponent> = Vec::new();
    let mut at: usize = 0;
    assert(path_view(path@).take(0) =~= Seq::<ComponentView>::empty());
    assert(path_view(result@) =~= Seq::<ComponentView>::empty());
    while at < path.len()
        invariant
            at <= path@.len(),
            path_view(result@) == normalized(path_view(path@).take(at as int)),
        decreases path@.len() - at,
    {
        let ghost before = result@;
        let ghost next = path_view(path@).take(at + 1);
        assert(next.drop_last() =~= path_view(path@).take(at as int));
        assert(next.last() == path@[at as int]@);
        match &path[at] {
            PathComponent::CurDir => {},
            PathComponent::ParentDir => {
                let named: bool = if result.len() > 0 {
                    match &result[result.len() - 1] {
                        PathComponent::Normal(_) => true,
                        _ => false,
                    }
                } else {
                    false
                };
                assert(named == (path_view(before).len() > 0 && path_view(before).last()
                    is Normal));
                if named {
                    let _ = result.pop();
                    assert(path_view(result@) =~= path_view(before).drop_last());
                }
            },
            other => {
                result.push(copy_component(other));
                assert(path_view(result@) =~= path_view(before).push(path@[at as int]@));
            },
        }
        at += 1;
    }
    assert(path_view(path@).take(at as int) =~= path_view(path@));
    result
}

/// The parent of a path: none for a root, a prefix or an empty path.
pub open spec fn parent_of(path: Seq<ComponentView>) -> Option<Seq<ComponentView>> {
    if path.len() == 0 || path.last() is RootDir || path.last() is Prefix {
        None
    } else {
        Some(path.drop_last())
    }
}

/// The parent of a path.
pub fn parent(path: &Vec<PathComponent>) -> (found: Option<Vec<PathComponent>>)
    ensures
        match found {
            Some(found) => parent_of(path_view(path@)) == Some(path_view(found@)),
            None => parent_of(path_view(path@)) is None,
        },
{
    if path.len() == 0 {
        return None;
    }
    assert(path_view(path@).last() == path@.last()@);
    match &path[path.len() - 1] {
        PathComponent::RootDir | PathComponent::Prefix(_) => None,
        _ => {
            let found: Vec<PathComponent> = copy_path(path, 0, path.len() - 1);
            assert(path_view(found@) =~= path_view(path@).drop_last());
            Some(found)
        },
    }
}

/// What looking for the real path came to.
#[derive(Debug)]
pub enum Canonical {
    Found(Vec<PathComponent>),
    Missing,
    Failed(String),
}

/// The lookup gave this answer for this path.
pub open spec fn resolves<F: Fn(&Vec<PathComponent>) -> Canonical>(
    canonicalize: F,
    path: Seq<ComponentView>,
    answer: Canonical,
) -> bool {
    exists|argument: &Vec<PathComponent>|
        path_view(argument@) == path && #[trigger] call_ensures(canonicalize, (argument,), answer)
}

/// The last `count` components were found missing, one after the other, and
/// all are names.
pub open spec fn tail_missing<F: Fn(&Vec<PathComponent>) -> Canonical>(
    canonicalize: F,
    path: Seq<ComponentView>,
    count: int,
) -> bool {
    forall|k: int|
        path.len() - count < k <= path.len() ==> resolves(
            canonicalize,
            #[trigger] path.take(k),
            Canonical::Missing,
        ) && path[k - 1] is Normal
}

proof fn one_more_missing<F: Fn(&Vec<PathComponent>) -> Canonical>(
    canonicalize: F,
    path: Seq<ComponentView>,
    len: int,
)
    requires
        0 < len <= path.len(),
        tail_missing(canonicalize, path, path.len() - len),
        resolves(canonicalize, path.take(len), Canonical::Missing),
        path.take(len).last() is Normal,
    ensures
        tail_missing(canonicalize, path, path.len() - (len - 1)),
{
    let count = path.len() - (len - 1);
    assert forall|k: int| path.len() - count < k <= path.len() implies resolves(
        canonicalize,
        #[trigger] path.take(k),
        Canonical::Missing,
    ) && path[k - 1] is Normal by {
        if k == len {
            assert(path[k - 1] == path.take(len).last());
            assert(resolves(canonicalize, path.take(k), Canonical::Missing));
        } else {
            let before = path.len() - len;
            assert(path.len() - before < k <= path.len());
            assert(resolves(canonicalize, path.take(k), Canonical::Missing));
            assert(path[k - 1] is Normal);
        }
    }
}

/// What resolving a path through its longest existing ancestor may come to.
pub open spec fn resolution<F: Fn(&Vec<PathComponent>) -> Canonical>(
    canonicalize: F,
    path: Seq<ComponentView>,
    display: Seq<char>,
    result: Result<Seq<ComponentView>, Seq<char>>,
) -> bool {
    exists|count: int|
        0 <= count <= path.len() && #[trigger] tail_missing(canonicalize, path, count) && {
            let head = path.take(path.len() - count);
            match result {
                Ok(resolved) => exists|found: Vec<PathComponent>| #[trigger]
                    resolves(canonicalize, head, Canonical::Found(found)) && resolved == path_view(
                        found@,
                    ) + path.skip(path.len() - count),
                Err(message) => {
                    ||| exists|text: String| #[trigger]
                        resolves(canonicalize, head, Canonical::Failed(text)) && message == display
                            + ": "@ + text@
                    ||| resolves(canonicalize, head, Canonical::Missing) && !(head.len() > 0
                        && head.last() is Normal) && message == "无法解析路径: "@ + display
                },
            }
        }
}

/// Plain values of a resolved path.
pub open spec fn path_result(result: Result<Vec<PathComponent>, String>) -> Result<
    Seq<ComponentView>,
    Seq<char>,
> {
    match result {
        Ok(path) => Ok(path_view(path@)),
        Err(text) => Err(text@),
    }
}

/// Resolves a path that need not exist: the longest existing ancestor is
/// made canonical, and the missing names are put back behind it.
pub fn resolve_for_overlap<F: Fn(&Vec<PathComponent>) -> Canonical>(
    path: &Vec<PathComponent>,
    display: &str,
    canonicalize: &F,
) -> (result: Result<Vec<PathComponent>, String>)
    requires
        forall|argument: &Vec<PathComponent>| #[trigger] call_requires(*canonicalize, (argument,)),
    ensures
        resolution(*canonicalize, path_view(path@), display@, path_result(result)),
{
    let ghost whole = path_view(path@);
    let mut len: usize = path.len();
    loop
        invariant
            len <= path@.len(),
            whole == path_view(path@),
            forall|argument: &Vec<PathComponent>| #[trigger]
                call_requires(*canonicalize, (argument,)),
            tail_missing(*canonicalize, whole, whole.len() - len),
        decreases len,
    {
        let current: Vec<PathComponent> = copy_path(path, 0, len);
        let ghost head = whole.take(len as int);
        assert(path_view(current@) =~= head);
        assert(whole.take(whole.len() - (whole.len() - len)) =~= head);
        let argument: &Vec<PathComponent> = &current;
        let answer: Canonical = canonicalize(argument);
        assert(resolves(*canonicalize, head, answer));
        match answer {
            Canonical::Found(found) => {
                let ghost start = path_view(found@);
                assert(resolves(*canonicalize, head, Canonical::Found(found)));
                let mut resolved: Vec<PathComponent> = copy_path(&found, 0, found.len());
                let mut rest: Vec<PathComponent> = copy_path(path, len, path.len());
                let ghost tail = path_view(rest@);
                assert(path_view(resolved@) =~= start);
                assert(tail =~= whole.skip(len as int));
                resolved.append(&mut rest);
                assert(path_view(resolved@) =~= start + tail);
                assert(whole.len() - (whole.len() - len) == len);
                return Ok(resolved);
            },
            Canonical::Missing => {
                let named: bool = if len > 0 {
                    match &path[len - 1] {
                        PathComponent::Normal(_) => true,
                        _ => false,
                    }
                } else {
                    false
                };
                assert(named == (head.len() > 0 && head.last() is Normal)) by {
                    if len > 0 {
                        assert(head.last() == path@[len - 1]@);
                    }
                }
                if !named {
                    return Err(cat2("无法解析路径: ", display));
                }
                proof {
                    assert(resolves(*canonicalize, head, Canonical::Missing));
                    one_more_missing(*canonicalize, whole, len as int);
                }
                len -= 1;
            },
            Canonical::Failed(text) => {
                assert(resolves(*canonicalize, head, Canonical::Failed(text)));
                return Err(cat3(display, ": ", text.as_str()));
            },
        }
    }
}

/// Names agree exactly if their bytes do, or, where case does not count, if
/// they are as long and differ at most in the case of ASCII letters.
pub proof fn names_agree_byte_by_byte(left: Seq<u8>, right: Seq<u8>)
    ensures
        equal_components(
            NameRules::Exact,
            ComponentView::Normal(left),
            ComponentView::Normal(right),
        ) <==> left == right,
        equal_components(
            NameRules::IgnoreCase,
            ComponentView::Normal(left),
            ComponentView::Normal(right),
        ) <==> left.len() == right.len() && forall|i: int|
            0 <= i < left.len() ==> ({
                let (a, b) = (#[trigger] left[i], right[i]);
                ||| a == b
                ||| 97 <= a <= 122 && b == a - 32
                ||| 97 <= b <= 122 && a == b - 32
            }),
{
    crate::text::chars::ignoring_byte_case_is_letter_by_letter(left, right);
}

/// Components of different kinds differ where spelling is exact, and each
/// agrees with itself everywhere.
pub proof fn components_agree_with_themselves(left: ComponentView, right: ComponentView)
    ensures
        equal_components(NameRules::Exact, left, right) <==> left == right,
        equal_components(NameRules::IgnoreCase, left, left),
        equal_components(NameRules::IgnoreCase, left, right) <==> equal_components(
            NameRules::IgnoreCase,
            right,
            left,
        ),
        component_bytes(ComponentView::RootDir) == seq![92u8],
        component_bytes(ComponentView::CurDir) == seq![46u8],
        component_bytes(ComponentView::ParentDir) == seq![46u8, 46u8],
{
}

/// A path lies below another exactly if it is that path followed by more
/// components; where case does not count, each may be spelled in another case.
pub proof fn descendants_continue_their_ancestors(
    rules: NameRules,
    path: Seq<ComponentView>,
    rest: Seq<ComponentView>,
    other: Seq<ComponentView>,
)
    ensures
        prefix_of(rules, path, path + rest),
        prefix_of(NameRules::Exact, path, other) <==> exists|more: Seq<ComponentView>|
            other == #[trigger] (path + more),
        prefix_of(NameRules::Exact, path, other) ==> prefix_of(rules, path, other),
        same_paths(NameRules::Exact, path, other) <==> path == other,
        prefix_of(rules, path, other) && path.len() == other.len() <==> same_paths(
            rules,
            path,
            other,
        ),
        rest.len() > 0 ==> !prefix_of(rules, path + rest, path) && !same_paths(
            rules,
            path + rest,
            path,
        ),
{
    if prefix_of(NameRules::Exact, path, other) {
        let more = other.skip(path.len() as int);
        assert(other =~= path + more);
    }
    if exists|more: Seq<ComponentView>| other == #[trigger] (path + more) {
        let more = choose|more: Seq<ComponentView>| other == #[trigger] (path + more);
        assert forall|i: int| 0 <= i < path.len() implies equal_components(
            NameRules::Exact,
            #[trigger] path[i],
            other[i],
        ) by {}
    }
    if same_paths(NameRules::Exact, path, other) {
        assert(path =~= other);
    }
}

/// Paths that part at some component do not overlap, in either direction.
pub proof fn parted_paths_do_not_overlap(
    rules: NameRules,
    left: Seq<ComponentView>,
    right: Seq<ComponentView>,
    at: int,
)
    requires
        0 <= at < left.len(),
        at < right.len(),
        !equal_components(rules, left[at], right[at]),
        !equal_components(rules, right[at], left[at]),
    ensures
        !overlapping(rules, left, right),
        !prefix_of(rules, left, right),
        !prefix_of(rules, right, left),
        !same_paths(rules, left, right),
{
}

/// A path overlaps everything below it and everything above it.
pub proof fn paths_overlap_what_they_contain(
    rules: NameRules,
    path: Seq<ComponentView>,
    rest: Seq<ComponentView>,
)
    ensures
        overlapping(rules, path, path + rest),
        overlapping(rules, path + rest, path),
{
    descendants_continue_their_ancestors(rules, path, rest, path);
}

/// Normalizing goes from left to right: `.` adds nothing, a name, root or
/// prefix is put behind, and `..` takes back the name before it, if any.
pub proof fn dots_are_resolved_by_name(
    path: Seq<ComponentView>,
    name: Seq<u8>,
    component: ComponentView,
)
    ensures
        normalized(Seq::empty()) == Seq::<ComponentView>::empty(),
        normalized(path.push(ComponentView::CurDir)) == normalized(path),
        normalized(path.push(ComponentView::Normal(name)).push(ComponentView::ParentDir))
            == normalized(path),
        !(component is CurDir) && !(component is ParentDir) ==> normalized(path.push(component))
            == normalized(path).push(component),
        component is RootDir || component is Prefix ==> normalized(
            path.push(component).push(ComponentView::ParentDir),
        ) == normalized(path).push(component),
        normalized(seq![ComponentView::ParentDir]) == Seq::<ComponentView>::empty(),
{
    reveal_with_fuel(normalized, 3);
    let named = path.push(ComponentView::Normal(name));
    assert(path.push(ComponentView::CurDir).drop_last() =~= path);
    assert(named.drop_last() =~= path);
    assert(named.push(ComponentView::ParentDir).drop_last() =~= named);
    assert(normalized(named) == normalized(path).push(ComponentView::Normal(name)));
    assert(normalized(named).drop_last() =~= normalized(path));
    assert(path.push(component).drop_last() =~= path);
    assert(path.push(component).push(ComponentView::ParentDir).drop_last() =~= path.push(component));
    assert(seq![ComponentView::ParentDir].drop_last() =~= Seq::<ComponentView>::empty());
}

/// The parent of a path with one more name is the path; roots and prefixes
/// have none.
pub proof fn parents_drop_the_last_name(path: Seq<ComponentView>, component: ComponentView)
    ensures
        component is RootDir || component is Prefix ==> parent_of(path.push(component)) is None,
        !(component is RootDir) && !(component is Prefix) ==> parent_of(path.push(component))
            == Some(path),
        parent_of(Seq::empty()) is None,
{
    assert(path.push(component).drop_last() =~= path);
}

/// A path that exists is resolved by the lookup alone, and a missing name is
/// put back behind what its parent is resolved to.
pub proof fn existing_paths_are_resolved_whole<F: Fn(&Vec<PathComponent>) -> Canonical>(
    canonicalize: F,
    path: Seq<ComponentView>,
    display: Seq<char>,
    resolved: Seq<ComponentView>,
)
    requires
        resolution(canonicalize, path, display, Ok(resolved)),
    ensures
        !resolves(canonicalize, path, Canonical::Missing) ==> exists|found: Vec<PathComponent>|
            #[trigger]
            resolves(canonicalize, path, Canonical::Found(found)) && resolved == path_view(found@),
        (forall|found: Vec<PathComponent>|
            !#[trigger] resolves(canonicalize, path, Canonical::Found(found))) ==> path.len() > 0
            && path.last() is Normal && resolved.len() > 0 && resolved.last() == path.last()
            && resolution(canonicalize, path.drop_last(), display, Ok(resolved.drop_last())),
{
    let count = choose|count: int|
        0 <= count <= path.len() && #[trigger] tail_missing(canonicalize, path, count)
            && exists|found: Vec<PathComponent>| #[trigger]
            resolves(
                canonicalize,
                path.take(path.len() - count),
                Canonical::Found(found),
            ) && resolved == path_view(found@) + path.skip(path.len() - count);
    let head = path.take(path.len() - count);
    let found = choose|found: Vec<PathComponent>| #[trigger]
        resolves(canonicalize, head, Canonical::Found(found)) && resolved == path_view(found@)
            + path.skip(path.len() - count);
    assert(path.take(path.len() as int) =~= path);
    if count == 0 {
        assert(head =~= path);
        assert(resolved =~= path_view(found@));
    } else {
        assert(resolves(canonicalize, path.take(path.len() as int), Canonical::Missing));
        if forall|found: Vec<PathComponent>|
            !#[trigger] resolves(canonicalize, path, Canonical::Found(found)) {
            let front = path.drop_last();
            assert forall|k: int| front.len() - (count - 1) < k <= front.len() implies resolves(
                canonicalize,
                #[trigger] front.take(k),
                Canonical::Missing,
            ) && front[k - 1] is Normal by {
                assert(front.take(k) =~= path.take(k));
            }
            assert(tail_missing(canonicalize, front, count - 1));
            assert(front.take(front.len() - (count - 1)) =~= head);
            assert(resolved.drop_last() =~= path_view(found@) + front.skip(
                front.len() - (count - 1),
            ));
            assert(resolution(canonicalize, front, display, Ok(resolved.drop_last())));
        }
    }
}

} // verus!
