//! What an archive may hold before anything of it is unpacked.

use vstd::hash_map::StringHashMap;
use vstd::hash_set::StringHashSet;
use vstd::prelude::*;
use vstd::string::*;

use crate::text::chars::{control, is_control, lowercase, same, to_chars, to_lowercase, to_upper, upper};
use crate::text::concat::{cat2, join, join_first, joined, views};
use crate::text::scan::{
    contains_char, first_at, first_at_is, find_char, replace, replaced, split, split_parts,
    split_parts_free, split_parts_nonempty, trim_end, trimmed_end,
};

verus! {

/// File or directory.
#[derive(Clone, Copy, Debug, PartialEq, Eq, Structural)]
pub enum SaveEntryKind {
    File,
    Directory,
}

/// What an archive with a single root holds.
#[derive(Clone, Debug)]
pub struct ArchiveSaveInfo {
    pub root_name: String,
    pub root_kind: SaveEntryKind,
    pub entry_count: usize,
    pub total_size: u64,
}

/// What an archive without a root holds.
#[derive(Clone, Copy, Debug, PartialEq, Eq, Structural)]
pub struct LegacyArchiveInfo {
    pub entry_count: usize,
    pub total_size: u64,
}

/// One entry of an archive, as far as it is judged.
#[derive(Clone, Debug)]
pub struct ArchiveEntry {
    pub name: String,
    pub has_stream: bool,
    pub is_directory: bool,
    pub is_anti_item: bool,
    pub has_windows_attributes: bool,
    pub windows_attributes: u32,
    /// Size when unpacked.
    pub size: u64,
}

pub const MAX_ENTRIES: usize = 100_000;

pub const MAX_SIZE: u64 = 128 * 1024 * 1024 * 1024;

/// Deepest nesting of a path.
pub const MAX_DEPTH: usize = 256;

/// The path with forward slashes.
pub open spec fn slashed(name: Seq<char>) -> Seq<char> {
    replaced(name, '\\', "/"@)
}

/// A relative path without `..`.
pub open spec fn safe_relative(name: Seq<char>) -> bool {
    let parts = split_parts(slashed(name), '/');
    &&& slashed(name).len() > 0
    &&& slashed(name)[0] != '/'
    &&& forall|i: int| 0 <= i < parts.len() ==> #[trigger] parts[i] != ".."@
}

/// Requires a relative path without `..`.
pub fn validate_safe_relative_path(name: &str) -> (result: Result<(), String>)
    ensures
        if safe_relative(name@) {
            result is Ok
        } else {
            result matches Err(text) && text@ == "路径不是安全的相对路径: "@ + name@
        },
{
    let path: String = replace(name, '\\', "/");
    let chars: Vec<char> = to_chars(path.as_str());
    if chars.len() == 0 || chars[0] == '/' {
        return Err(cat2("路径不是安全的相对路径: ", name));
    }
    let parts: Vec<String> = split(path.as_str(), '/');
    let mut at: usize = 0;
    while at < parts.len()
        invariant
            at <= parts@.len(),
            path@ == slashed(name@),
            views(parts@) == split_parts(slashed(name@), '/'),
            slashed(name@).len() > 0,
            slashed(name@)[0] != '/',
            forall|i: int| 0 <= i < at ==> #[trigger] views(parts@)[i] != ".."@,
        decreases parts@.len() - at,
    {
        if same(parts[at].as_str(), "..") {
            assert(split_parts(slashed(name@), '/')[at as int] == ".."@);
            return Err(cat2("路径不是安全的相对路径: ", name));
        }
        at += 1;
    }
    Ok(())
}

/// The reserved device names of Windows.
pub open spec fn is_device(stem: Seq<char>) -> bool {
    ||| stem == "CON"@
    ||| stem == "PRN"@
    ||| stem == "AUX"@
    ||| stem == "NUL"@
    ||| stem == "CONIN$"@
    ||| stem == "CONOUT$"@
    ||| stem == "COM¹"@
    ||| stem == "COM²"@
    ||| stem == "COM³"@
    ||| stem == "LPT¹"@
    ||| stem == "LPT²"@
    ||| stem == "LPT³"@
    ||| stem == "COM1"@
    ||| stem == "COM2"@
    ||| stem == "COM3"@
    ||| stem == "COM4"@
    ||| stem == "COM5"@
    ||| stem == "COM6"@
    ||| stem == "COM7"@
    ||| stem == "COM8"@
    ||| stem == "COM9"@
    ||| stem == "LPT1"@
    ||| stem == "LPT2"@
    ||| stem == "LPT3"@
    ||| stem == "LPT4"@
    ||| stem == "LPT5"@
    ||| stem == "LPT6"@
    ||| stem == "LPT7"@
    ||| stem == "LPT8"@
    ||| stem == "LPT9"@
}

/// The part of a name that decides whether it is a device: what stands before
/// the first dot, without trailing whitespace, in upper case.
pub open spec fn device_stem(part: Seq<char>) -> Seq<char> {
    upper(trimmed_end(part.take(first_at(part, '.') as int)))
}

fn device(stem: &str) -> (found: bool)
    ensures
        found == is_device(stem@),
{
    same(stem, "CON") || same(stem, "PRN") || same(stem, "AUX") || same(stem, "NUL") || same(
        stem,
        "CONIN$",
    ) || same(stem, "CONOUT$") || same(stem, "COM¹") || same(stem, "COM²") || same(stem, "COM³")
        || same(stem, "LPT¹") || same(stem, "LPT²") || same(stem, "LPT³") || same(stem, "COM1")
        || same(stem, "COM2") || same(stem, "COM3") || same(stem, "COM4") || same(stem, "COM5")
        || same(stem, "COM6") || same(stem, "COM7") || same(stem, "COM8") || same(stem, "COM9")
        || same(stem, "LPT1") || same(stem, "LPT2") || same(stem, "LPT3") || same(stem, "LPT4")
        || same(stem, "LPT5") || same(stem, "LPT6") || same(stem, "LPT7") || same(stem, "LPT8")
        || same(stem, "LPT9")
}

/// Whether a name stands for a device on Windows.
pub fn is_windows_device_name(part: &str) -> (found: bool)
    ensures
        found == is_device(device_stem(part@)),
{
    let chars: Vec<char> = to_chars(part);
    let end: usize = match find_char(&chars, '.') {
        Some(at) => {
            proof {
                first_at_is(part@, '.', at as int);
            }
            at
        },
        None => {
            proof {
                assert(part@.take(part@.len() as int) =~= part@);
                first_at_is(part@, '.', part@.len() as int);
            }
            chars.len()
        },
    };
    let stem: &str = part.substring_char(0, end);
    assert(stem@ =~= part@.take(first_at(part@, '.') as int));
    let raised: String = to_upper(trim_end(stem));
    device(raised.as_str())
}

/// Characters that no file name may hold on Windows.
pub open spec fn is_forbidden(ch: char) -> bool {
    is_control(ch) || ch == '<' || ch == '>' || ch == '"' || ch == '|' || ch == '?' || ch == '*'
}

pub open spec fn has_forbidden(part: Seq<char>) -> bool {
    exists|i: int| 0 <= i < part.len() && is_forbidden(#[trigger] part[i])
}

/// Why one component of a path is refused.
pub open spec fn part_fault(part: Seq<char>, name: Seq<char>) -> Option<Seq<char>> {
    if part.contains(':') || (part.len() > 0 && (part.last() == ' ' || part.last() == '.')) {
        Some("存档归档路径包含盘符、尾随点或空格: "@ + name)
    } else if is_device(device_stem(part)) {
        Some("存档归档路径包含 Windows 设备名: "@ + name)
    } else if has_forbidden(part) {
        Some("存档归档路径包含非法字符: "@ + name)
    } else {
        None
    }
}

fn forbidden(part: &str) -> (found: bool)
    ensures
        found == has_forbidden(part@),
{
    let chars: Vec<char> = to_chars(part);
    let mut at: usize = 0;
    while at < chars.len()
        invariant
            at <= chars@.len(),
            chars@ == part@,
            forall|i: int| 0 <= i < at ==> !is_forbidden(#[trigger] part@[i]),
        decreases chars@.len() - at,
    {
        let ch: char = chars[at];
        if control(ch) || ch == '<' || ch == '>' || ch == '"' || ch == '|' || ch == '?' || ch
            == '*' {
            assert(is_forbidden(part@[at as int]));
            return true;
        }
        at += 1;
    }
    false
}

fn judge_part(part: &str, name: &str) -> (fault: Option<String>)
    ensures
        crate::text::concat::option_view(fault) == part_fault(part@, name@),
{
    let count: usize = part.unicode_len();
    let trailing: bool = if count > 0 {
        let last: char = part.get_char(count - 1);
        last == ' ' || last == '.'
    } else {
        false
    };
    if contains_char(part, ':') || trailing {
        return Some(cat2("存档归档路径包含盘符、尾随点或空格: ", name));
    }
    if is_windows_device_name(part) {
        return Some(cat2("存档归档路径包含 Windows 设备名: ", name));
    }
    if forbidden(part) {
        return Some(cat2("存档归档路径包含非法字符: ", name));
    }
    None
}

/// Fault of the first refused component.
pub open spec fn parts_fault(parts: Seq<Seq<char>>, name: Seq<char>) -> Option<Seq<char>>
    decreases parts.len(),
{
    if parts.len() == 0 {
        None
    } else {
        let earlier = parts_fault(parts.drop_last(), name);
        if earlier is Some {
            earlier
        } else {
            part_fault(parts.last(), name)
        }
    }
}

proof fn parts_fault_persists(parts: Seq<Seq<char>>, name: Seq<char>, at: int)
    requires
        0 <= at <= parts.len(),
        parts_fault(parts.take(at), name) is Some,
    ensures
        parts_fault(parts, name) == parts_fault(parts.take(at), name),
    decreases parts.len(),
{
    if at == parts.len() {
        assert(parts.take(at) =~= parts);
    } else {
        assert(parts.drop_last().take(at) =~= parts.take(at));
        parts_fault_persists(parts.drop_last(), name, at);
    }
}

/// The components of an entry's path, or why it is refused.
pub open spec fn entry_path(name: Seq<char>) -> Result<Seq<Seq<char>>, Seq<char>> {
    let parts = split_parts(slashed(name), '/');
    if !safe_relative(name) {
        Err("路径不是安全的相对路径: "@ + name)
    } else if slashed(name).last() == '/' {
        Err("存档归档路径不是普通相对路径: "@ + name)
    } else {
        match parts_fault(parts, name) {
            Some(text) => Err(text),
            None => if parts.len() > MAX_DEPTH {
                Err("存档归档目录层级过深"@)
            } else {
                Ok(parts)
            },
        }
    }
}

/// Splits the path of an entry into components that are safe on every
/// platform.
pub fn parse_entry_path(name: &str) -> (result: Result<Vec<String>, String>)
    ensures
        match entry_path(name@) {
            Ok(parts) => result matches Ok(found) && views(found@) == parts && found@.len() >= 1,
            Err(text) => result matches Err(found) && found@ == text,
        },
{
    if let Err(text) = validate_safe_relative_path(name) {
        return Err(text);
    }
    let path: String = replace(name, '\\', "/");
    let chars: Vec<char> = to_chars(path.as_str());
    if chars[chars.len() - 1] == '/' {
        return Err(cat2("存档归档路径不是普通相对路径: ", name));
    }
    let parts: Vec<String> = split(path.as_str(), '/');
    let ghost all = views(parts@);
    let mut at: usize = 0;
    assert(all.take(0) =~= Seq::<Seq<char>>::empty());
    while at < parts.len()
        invariant
            at <= parts@.len(),
            all == views(parts@),
            all == split_parts(slashed(name@), '/'),
            safe_relative(name@),
            slashed(name@).last() != '/',
            parts_fault(all.take(at as int), name@) is None,
        decreases parts@.len() - at,
    {
        let fault: Option<String> = judge_part(parts[at].as_str(), name);
        proof {
            assert(all.take(at + 1).drop_last() =~= all.take(at as int));
            assert(all.take(at + 1).last() == parts@[at as int]@);
            if part_fault(parts@[at as int]@, name@) is Some {
                parts_fault_persists(all, name@, at + 1);
            }
        }
        if let Some(text) = fault {
            return Err(text);
        }
        at += 1;
    }
    assert(all.take(at as int) =~= all);
    if parts.len() > MAX_DEPTH {
        return Err("存档归档目录层级过深".to_owned());
    }
    Ok(parts)
}

/// An accepted path stays below the place it is unpacked to: it is not
/// absolute, and no component is `.`, `..` or names a drive or a stream.
pub proof fn accepted_paths_stay_inside(name: Seq<char>, at: int)
    requires
        entry_path(name) is Ok,
        0 <= at < entry_path(name)->Ok_0.len(),
    ensures
        slashed(name)[0] != '/',
        ({
            let part = entry_path(name)->Ok_0[at];
            &&& part != ".."@
            &&& part != "."@
            &&& !part.contains(':')
            &&& !part.contains('/')
        }),
{
    let parts = split_parts(slashed(name), '/');
    no_part_faults(parts, name, at);
    split_parts_free(slashed(name), '/');
    reveal_strlit(".");
    assert("."@.last() == '.');
}

proof fn no_part_faults(parts: Seq<Seq<char>>, name: Seq<char>, at: int)
    requires
        parts_fault(parts, name) is None,
        0 <= at < parts.len(),
    ensures
        part_fault(parts[at], name) is None,
    decreases parts.len(),
{
    if at < parts.len() - 1 {
        no_part_faults(parts.drop_last(), name, at);
    }
}

/// Why the kind of an entry is refused.
pub open spec fn kind_fault(entry: ArchiveEntry) -> Option<Seq<char>> {
    let unix_type = (entry.windows_attributes >> 16u32) & 0xf000u32;
    if entry.is_anti_item {
        Some("存档归档包含 anti-item: "@ + entry.name@)
    } else if entry.has_windows_attributes && entry.windows_attributes & 0x40u32 != 0 {
        Some("存档归档包含特殊文件: "@ + entry.name@)
    } else if entry.has_windows_attributes && unix_type != 0 && ((!entry.is_directory && unix_type
        != 0x8000) || (entry.is_directory && unix_type != 0x4000)) {
        Some("存档归档包含 Unix 特殊文件: "@ + entry.name@)
    } else if entry.is_directory && entry.has_stream {
        Some("存档归档目录包含数据流: "@ + entry.name@)
    } else {
        None
    }
}

/// Refuses everything but plain files and directories.
pub fn reject_entry_kind(entry: &ArchiveEntry) -> (result: Result<(), String>)
    ensures
        match kind_fault(*entry) {
            None => result is Ok,
            Some(text) => result matches Err(found) && found@ == text,
        },
{
    if entry.is_anti_item {
        return Err(cat2("存档归档包含 anti-item: ", entry.name.as_str()));
    }
    if entry.has_windows_attributes && entry.windows_attributes & 0x40u32 != 0 {
        return Err(cat2("存档归档包含特殊文件: ", entry.name.as_str()));
    }
    if entry.has_windows_attributes {
        let unix_type: u32 = (entry.windows_attributes >> 16u32) & 0xf000u32;
        if unix_type != 0 && ((!entry.is_directory && unix_type != 0x8000) || (entry.is_directory
            && unix_type != 0x4000)) {
            return Err(cat2("存档归档包含 Unix 特殊文件: ", entry.name.as_str()));
        }
    }
    if entry.is_directory && entry.has_stream {
        return Err(cat2("存档归档目录包含数据流: ", entry.name.as_str()));
    }
    Ok(())
}

/// The components of an entry that was accepted.
pub open spec fn parts_of(entry: ArchiveEntry) -> Seq<Seq<char>> {
    entry_path(entry.name@)->Ok_0
}

/// What two paths have in common if they name the same thing on a platform
/// that ignores case.
pub open spec fn alias_key(parts: Seq<Seq<char>>) -> Seq<char> {
    joined(Seq::new(parts.len(), |i: int| lowercase(parts[i])), "/"@)
}

/// Some earlier entry has this key.
pub open spec fn key_taken(entries: Seq<ArchiveEntry>, key: Seq<char>) -> bool {
    exists|i: int| 0 <= i < entries.len() && alias_key(parts_of(#[trigger] entries[i])) == key
}

/// The total size of the entries, or the first fault.
pub open spec fn scan_entries(entries: Seq<ArchiveEntry>) -> Result<nat, Seq<char>>
    decreases entries.len(),
{
    if entries.len() == 0 {
        Ok(0)
    } else {
        let earlier = entries.drop_last();
        let entry = entries.last();
        match scan_entries(earlier) {
            Err(text) => Err(text),
            Ok(size) => match entry_path(entry.name@) {
                Err(text) => Err(text),
                Ok(parts) => if key_taken(earlier, alias_key(parts)) {
                    Err("存档归档包含重复或别名路径: "@ + entry.name@)
                } else {
                    match kind_fault(entry) {
                        Some(text) => Err(text),
                        None => if size + entry.size > u64::MAX {
                            Err("存档归档解压大小溢出"@)
                        } else if size + entry.size > MAX_SIZE {
                            Err("存档归档解压大小超出限制"@)
                        } else {
                            Ok(size + entry.size as nat)
                        },
                    }
                },
            },
        }
    }
}

proof fn scan_fault_persists(entries: Seq<ArchiveEntry>, at: int)
    requires
        0 <= at <= entries.len(),
        scan_entries(entries.take(at)) is Err,
    ensures
        scan_entries(entries) == scan_entries(entries.take(at)),
    decreases entries.len(),
{
    if at == entries.len() {
        assert(entries.take(at) =~= entries);
    } else {
        assert(entries.drop_last().take(at) =~= entries.take(at));
        scan_fault_persists(entries.drop_last(), at);
    }
}

/// Components and type of each accepted entry.
#[derive(Debug)]
pub struct ParsedEntry {
    pub parts: Vec<String>,
    pub is_directory: bool,
}

/// Plain values of a parsed entry.
pub struct ParsedView {
    pub parts: Seq<Seq<char>>,
    pub is_directory: bool,
}

pub open spec fn parsed_view(entry: ParsedEntry) -> ParsedView {
    ParsedView { parts: views(entry.parts@), is_directory: entry.is_directory }
}

pub open spec fn parsed_views(parsed: Seq<ParsedEntry>) -> Seq<ParsedView> {
    Seq::new(parsed.len(), |i: int| parsed_view(parsed[i]))
}

/// What parsing makes of the entries.
pub open spec fn parsed_of(entries: Seq<ArchiveEntry>) -> Seq<ParsedView> {
    Seq::new(
        entries.len(),
        |i: int| ParsedView { parts: parts_of(entries[i]), is_directory: entries[i].is_directory },
    )
}

/// Whether the path is a directory, for each path that an entry names.
pub open spec fn kinds_of(parsed: Seq<ParsedView>) -> Map<Seq<char>, bool>
    decreases parsed.len(),
{
    if parsed.len() == 0 {
        Map::empty()
    } else {
        kinds_of(parsed.drop_last()).insert(
            joined(parsed.last().parts, "/"@),
            parsed.last().is_directory,
        )
    }
}

/// The path of the first `depth` components.
pub open spec fn ancestor(parts: Seq<Seq<char>>, depth: nat) -> Seq<char> {
    joined(parts.take(depth as int), "/"@)
}

/// Takes in one ancestor path: it must not be a file with something below it,
/// nor differ only in case from one seen before.
pub open spec fn ancestor_step(
    kinds: Map<Seq<char>, bool>,
    parts: Seq<Seq<char>>,
    depth: nat,
    names: Map<Seq<char>, Seq<char>>,
) -> Result<Map<Seq<char>, Seq<char>>, Seq<char>> {
    let name = ancestor(parts, depth);
    let key = lowercase(name);
    if depth < parts.len() && kinds.contains_pair(name, false) {
        Err("归档中的文件不能包含子条目: "@ + name)
    } else if names.contains_key(key) && names[key] != name {
        Err("归档包含大小写冲突的路径: "@ + name)
    } else {
        Ok(names.insert(key, name))
    }
}

/// Takes in the first `depth` ancestor paths of an entry.
pub open spec fn entry_steps(
    kinds: Map<Seq<char>, bool>,
    parts: Seq<Seq<char>>,
    depth: nat,
    names: Map<Seq<char>, Seq<char>>,
) -> Result<Map<Seq<char>, Seq<char>>, Seq<char>>
    decreases depth,
{
    if depth == 0 {
        Ok(names)
    } else {
        match entry_steps(kinds, parts, (depth - 1) as nat, names) {
            Err(text) => Err(text),
            Ok(names) => ancestor_step(kinds, parts, depth, names),
        }
    }
}

/// Takes in all entries.
pub open spec fn tree_steps(kinds: Map<Seq<char>, bool>, parsed: Seq<ParsedView>) -> Result<
    Map<Seq<char>, Seq<char>>,
    Seq<char>,
>
    decreases parsed.len(),
{
    if parsed.len() == 0 {
        Ok(Map::empty())
    } else {
        match tree_steps(kinds, parsed.drop_last()) {
            Err(text) => Err(text),
            Ok(names) => entry_steps(kinds, parsed.last().parts, parsed.last().parts.len(), names),
        }
    }
}

/// The fault of the tree that the entries form, if any.
pub open spec fn tree_fault(parsed: Seq<ParsedView>) -> Option<Seq<char>> {
    match tree_steps(kinds_of(parsed), parsed) {
        Ok(_) => None,
        Err(text) => Some(text),
    }
}

proof fn tree_fault_persists(kinds: Map<Seq<char>, bool>, parsed: Seq<ParsedView>, at: int)
    requires
        0 <= at <= parsed.len(),
        tree_steps(kinds, parsed.take(at)) is Err,
    ensures
        tree_steps(kinds, parsed) == tree_steps(kinds, parsed.take(at)),
    decreases parsed.len(),
{
    if at == parsed.len() {
        assert(parsed.take(at) =~= parsed);
    } else {
        assert(parsed.drop_last().take(at) =~= parsed.take(at));
        tree_fault_persists(kinds, parsed.drop_last(), at);
    }
}

proof fn entry_fault_persists(
    kinds: Map<Seq<char>, bool>,
    parts: Seq<Seq<char>>,
    depth: nat,
    whole: nat,
    names: Map<Seq<char>, Seq<char>>,
)
    requires
        depth <= whole,
        entry_steps(kinds, parts, depth, names) is Err,
    ensures
        entry_steps(kinds, parts, whole, names) == entry_steps(kinds, parts, depth, names),
    decreases whole,
{
    if depth < whole {
        entry_fault_persists(kinds, parts, depth, (whole - 1) as nat, names);
    }
}

fn collect_kinds(parsed: &Vec<ParsedEntry>) -> (kinds: StringHashMap<bool>)
    ensures
        kinds@ == kinds_of(parsed_views(parsed@)),
{
    let mut kinds: StringHashMap<bool> = StringHashMap::new();
    let mut at: usize = 0;
    assert(parsed_views(parsed@).take(0) =~= Seq::<ParsedView>::empty());
    while at < parsed.len()
        invariant
            at <= parsed@.len(),
            kinds@ == kinds_of(parsed_views(parsed@).take(at as int)),
        decreases parsed@.len() - at,
    {
        let ghost next = parsed_views(parsed@).take(at + 1);
        assert(next.drop_last() =~= parsed_views(parsed@).take(at as int));
        assert(next.last() == parsed_view(parsed@[at as int]));
        let path: String = join(&parsed[at].parts, "/");
        kinds.insert(path, parsed[at].is_directory);
        at += 1;
    }
    assert(parsed_views(parsed@).take(at as int) =~= parsed_views(parsed@));
    kinds
}

/// The plain values of a map of texts.
pub open spec fn text_map(names: Map<Seq<char>, String>) -> Map<Seq<char>, Seq<char>> {
    names.map_values(|name: String| name@)
}

/// Requires that files have nothing below them, and that no two paths differ
/// only in case.
pub fn validate_entry_tree(parsed: &Vec<ParsedEntry>) -> (result: Result<(), String>)
    ensures
        match tree_fault(parsed_views(parsed@)) {
            None => result is Ok,
            Some(text) => result matches Err(found) && found@ == text,
        },
{
    let kinds: StringHashMap<bool> = collect_kinds(parsed);
    let mut names: StringHashMap<String> = StringHashMap::new();
    let ghost all = parsed_views(parsed@);
    let mut at: usize = 0;
    proof {
        assert(all.take(0) =~= Seq::<ParsedView>::empty());
        assert(text_map(names@) =~= Map::<Seq<char>, Seq<char>>::empty());
    }
    while at < parsed.len()
        invariant
            at <= parsed@.len(),
            all == parsed_views(parsed@),
            kinds@ == kinds_of(all),
            tree_steps(kinds@, all.take(at as int)) == Ok::<Map<Seq<char>, Seq<char>>, Seq<char>>(
                text_map(names@),
            ),
        decreases parsed@.len() - at,
    {
        let ghost start = text_map(names@);
        let ghost parts = all[at as int].parts;
        let count: usize = parsed[at].parts.len();
        let mut done: usize = 0;
        proof {
            let next = all.take(at + 1);
            assert(next.drop_last() =~= all.take(at as int));
            assert(next.last() == all[at as int]);
            assert(entry_steps(kinds@, parts, 0, start) == Ok::<
                Map<Seq<char>, Seq<char>>,
                Seq<char>,
            >(text_map(names@)));
        }
        while done < count
            invariant
                at < parsed@.len(),
                done <= count,
                count == parsed@[at as int].parts.len(),
                all == parsed_views(parsed@),
                kinds@ == kinds_of(all),
                parts == all[at as int].parts,
                parts == views(parsed@[at as int].parts@),
                parts.len() == count,
                tree_steps(kinds@, all.take(at as int)) == Ok::<
                    Map<Seq<char>, Seq<char>>,
                    Seq<char>,
                >(start),
                entry_steps(kinds@, parts, done as nat, start) == Ok::<
                    Map<Seq<char>, Seq<char>>,
                    Seq<char>,
                >(text_map(names@)),
            decreases count - done,
        {
            let depth: usize = done + 1;
            let name: String = join_first(&parsed[at].parts, depth, "/");
            let ghost before = names@;
            assert(name@ == ancestor(parts, depth as nat));
            let file: bool = match kinds.get(name.as_str()) {
                Some(directory) => !*directory,
                None => false,
            };
            assert(file == kinds@.contains_pair(name@, false));
            let key: String = to_lowercase(name.as_str());
            proof {
                let step = ancestor_step(kinds@, parts, depth as nat, text_map(before));
                if step is Err {
                    entry_fault_persists(kinds@, parts, depth as nat, parts.len(), start);
                    let next = all.take(at + 1);
                    assert(next.drop_last() =~= all.take(at as int));
                    assert(next.last() == all[at as int]);
                    tree_fault_persists(kinds@, all, at + 1);
                }
            }
            if depth < count && file {
                return Err(cat2("归档中的文件不能包含子条目: ", name.as_str()));
            }
            let clash: bool = match names.get(key.as_str()) {
                Some(previous) => *previous != name,
                None => false,
            };
            assert(clash == (text_map(before).contains_key(key@) && text_map(before)[key@]
                != name@));
            if clash {
                return Err(cat2("归档包含大小写冲突的路径: ", name.as_str()));
            }
            names.insert(key, name);
            proof {
                assert(text_map(names@) =~= text_map(before).insert(
                    lowercase(ancestor(parts, depth as nat)),
                    ancestor(parts, depth as nat),
                ));
            }
            done = depth;
        }
        at += 1;
    }
    assert(all.take(at as int) =~= all);
    Ok(())
}

/// The entries were accepted with this total size.
pub open spec fn entries_verdict(entries: Seq<ArchiveEntry>, allow_empty: bool) -> Result<
    nat,
    Seq<char>,
> {
    if entries.len() == 0 && !allow_empty {
        Err("V2 存档归档为空"@)
    } else if entries.len() > MAX_ENTRIES {
        Err("存档归档条目数量超出限制"@)
    } else {
        match scan_entries(entries) {
            Err(text) => Err(text),
            Ok(size) => match tree_fault(parsed_of(entries)) {
                Some(text) => Err(text),
                None => Ok(size),
            },
        }
    }
}

fn alias_of(parts: &Vec<String>) -> (key: String)
    ensures
        key@ == alias_key(views(parts@)),
{
    let mut lowered: Vec<String> = Vec::new();
    let mut at: usize = 0;
    while at < parts.len()
        invariant
            at <= parts@.len(),
            views(lowered@) == Seq::new(at as nat, |i: int| lowercase(views(parts@)[i])),
        decreases parts@.len() - at,
    {
        let ghost before = lowered@;
        lowered.push(to_lowercase(parts[at].as_str()));
        assert(views(lowered@) =~= views(before).push(lowercase(views(parts@)[at as int])));
        at += 1;
        assert(views(lowered@) =~= Seq::new(at as nat, |i: int| lowercase(views(parts@)[i])));
    }
    assert(views(lowered@) =~= Seq::new(
        views(parts@).len(),
        |i: int| lowercase(views(parts@)[i]),
    ));
    join(&lowered, "/")
}

/// Judges all entries of an archive: paths, kinds, sizes and the tree they
/// form.
pub fn validate_entries(entries: &Vec<ArchiveEntry>, allow_empty: bool) -> (result: Result<
    (Vec<ParsedEntry>, u64),
    String,
>)
    ensures
        match entries_verdict(entries@, allow_empty) {
            Ok(size) => result matches Ok((parsed, found)) && found == size && parsed_views(
                parsed@,
            ) == parsed_of(entries@),
            Err(text) => result matches Err(found) && found@ == text,
        },
{
    if entries.len() == 0 && !allow_empty {
        return Err("V2 存档归档为空".to_owned());
    }
    if entries.len() > MAX_ENTRIES {
        return Err("存档归档条目数量超出限制".to_owned());
    }
    let mut aliases: StringHashSet = StringHashSet::new();
    let mut parsed: Vec<ParsedEntry> = Vec::new();
    let mut total_size: u64 = 0;
    let mut at: usize = 0;
    proof {
        assert(entries@.take(0) =~= Seq::<ArchiveEntry>::empty());
        assert(parsed_views(parsed@) =~= parsed_of(entries@.take(0)));
    }
    while at < entries.len()
        invariant
            at <= entries@.len() <= MAX_ENTRIES,
            entries@.len() > 0 || allow_empty,
            scan_entries(entries@.take(at as int)) == Ok::<nat, Seq<char>>(total_size as nat),
            parsed_views(parsed@) == parsed_of(entries@.take(at as int)),
            forall|key: Seq<char>| #[trigger]
                aliases@.contains(key) <==> key_taken(entries@.take(at as int), key),
        decreases entries@.len() - at,
    {
        let entry: &ArchiveEntry = &entries[at];
        let ghost earlier = entries@.take(at as int);
        let ghost next = entries@.take(at + 1);
        proof {
            assert(next.drop_last() =~= earlier);
            assert(next.last() == *entry);
            if scan_entries(next) is Err {
                scan_fault_persists(entries@, at + 1);
            }
        }
        let parts: Vec<String> = match parse_entry_path(entry.name.as_str()) {
            Ok(parts) => parts,
            Err(text) => {
                return Err(text);
            },
        };
        let key: String = alias_of(&parts);
        let ghost known = aliases@;
        let ghost added = key@;
        assert(added == alias_key(parts_of(*entry)));
        if !aliases.insert(key) {
            return Err(cat2("存档归档包含重复或别名路径: ", entry.name.as_str()));
        }
        if let Err(text) = reject_entry_kind(entry) {
            return Err(text);
        }
        if entry.size > u64::MAX - total_size {
            return Err("存档归档解压大小溢出".to_owned());
        }
        total_size = total_size + entry.size;
        if total_size > MAX_SIZE {
            return Err("存档归档解压大小超出限制".to_owned());
        }
        let ghost before = parsed@;
        parsed.push(ParsedEntry { parts, is_directory: entry.is_directory });
        proof {
            let view = ParsedView { parts: parts_of(*entry), is_directory: entry.is_directory };
            assert(parsed_views(parsed@) =~= parsed_views(before).push(view));
            assert(parsed_of(next) =~= parsed_of(earlier).push(view));
            assert forall|other: Seq<char>| #[trigger]
                aliases@.contains(other) <==> key_taken(next, other) by {
                if key_taken(earlier, other) {
                    let i = choose|i: int|
                        0 <= i < earlier.len() && alias_key(parts_of(#[trigger] earlier[i]))
                            == other;
                    assert(alias_key(parts_of(next[i])) == other);
                }
                if other == added {
                    assert(alias_key(parts_of(next[at as int])) == other);
                }
                if key_taken(next, other) {
                    let i = choose|i: int|
                        0 <= i < next.len() && alias_key(parts_of(#[trigger] next[i])) == other;
                    if i < at {
                        assert(alias_key(parts_of(earlier[i])) == other);
                    }
                }
                assert(known.contains(other) <==> key_taken(earlier, other));
            }
        }
        at += 1;
    }
    assert(entries@.take(at as int) =~= entries@);
    if let Err(text) = validate_entry_tree(&parsed) {
        return Err(text);
    }
    Ok((parsed, total_size))
}

/// The kind of the single root, or why there is none.
pub open spec fn root_scan(parsed: Seq<ParsedView>, root: Seq<char>) -> Result<
    Option<bool>,
    Seq<char>,
>
    decreases parsed.len(),
{
    if parsed.len() == 0 {
        Ok(None)
    } else {
        match root_scan(parsed.drop_last(), root) {
            Err(text) => Err(text),
            Ok(kind) => if parsed.last().parts[0] != root {
                Err("V2 存档归档必须只有一个顶层对象"@)
            } else if parsed.last().parts.len() == 1 {
                if kind is Some {
                    Err("V2 存档归档顶层对象重复"@)
                } else {
                    Ok(Some(parsed.last().is_directory))
                }
            } else {
                Ok(kind)
            },
        }
    }
}

pub open spec fn has_children(parsed: Seq<ParsedView>) -> bool {
    exists|i: int| 0 <= i < parsed.len() && (#[trigger] parsed[i]).parts.len() > 1
}

/// What an archive with a single root amounts to.
pub open spec fn rooted_verdict(entries: Seq<ArchiveEntry>) -> Result<
    (Seq<char>, SaveEntryKind, nat),
    Seq<char>,
> {
    match entries_verdict(entries, false) {
        Err(text) => Err(text),
        Ok(size) => {
            let parsed = parsed_of(entries);
            let root = parsed[0].parts[0];
            match root_scan(parsed, root) {
                Err(text) => Err(text),
                Ok(None) => Err("V2 存档归档缺少顶层对象"@),
                Ok(Some(directory)) => if !directory && has_children(parsed) {
                    Err("文件型存档不能包含子条目"@)
                } else {
                    Ok(
                        (
                            root,
                            if directory {
                                SaveEntryKind::Directory
                            } else {
                                SaveEntryKind::File
                            },
                            size,
                        ),
                    )
                },
            }
        },
    }
}

proof fn root_fault_persists(parsed: Seq<ParsedView>, root: Seq<char>, at: int)
    requires
        0 <= at <= parsed.len(),
        root_scan(parsed.take(at), root) is Err,
    ensures
        root_scan(parsed, root) == root_scan(parsed.take(at), root),
    decreases parsed.len(),
{
    if at == parsed.len() {
        assert(parsed.take(at) =~= parsed);
    } else {
        assert(parsed.drop_last().take(at) =~= parsed.take(at));
        root_fault_persists(parsed.drop_last(), root, at);
    }
}

/// Every accepted entry has at least one component.
proof fn parts_present(entries: Seq<ArchiveEntry>, at: int)
    requires
        scan_entries(entries) is Ok,
        0 <= at < entries.len(),
    ensures
        entry_path(entries[at].name@) is Ok,
        parts_of(entries[at]).len() >= 1,
    decreases entries.len(),
{
    if at == entries.len() - 1 {
        split_parts_nonempty(slashed(entries[at].name@), '/');
    } else {
        parts_present(entries.drop_last(), at);
    }
}

/// Requires an archive with a single root: a file, or a directory with
/// everything else below it.
pub fn inspect_rooted_entries(entries: &Vec<ArchiveEntry>) -> (result: Result<
    ArchiveSaveInfo,
    String,
>)
    ensures
        match rooted_verdict(entries@) {
            Ok((root, kind, size)) => {
                &&& result is Ok
                &&& result->Ok_0.root_name@ == root
                &&& result->Ok_0.root_kind == kind
                &&& result->Ok_0.entry_count == entries@.len()
                &&& result->Ok_0.total_size == size
            },
            Err(text) => result matches Err(found) && found@ == text,
        },
{
    let (parsed, total_size) = match validate_entries(entries, false) {
        Ok(found) => found,
        Err(text) => {
            return Err(text);
        },
    };
    let ghost all = parsed_of(entries@);
    proof {
        assert(parsed_views(parsed@).len() == all.len());
        assert forall|i: int| 0 <= i < all.len() implies (#[trigger] all[i]).parts.len() >= 1 by {
            parts_present(entries@, i);
        }
        assert(all[0].parts.len() >= 1);
        assert(all[0] == parsed_view(parsed@[0]));
    }
    let root_name: String = parsed[0].parts[0].clone();
    let ghost root = all[0].parts[0];
    assert(root_name@ == root);
    let mut root_kind: Option<bool> = None;
    let mut children: bool = false;
    let mut at: usize = 0;
    assert(all.take(0) =~= Seq::<ParsedView>::empty());
    while at < parsed.len()
        invariant
            at <= parsed@.len(),
            all == parsed_views(parsed@),
            all == parsed_of(entries@),
            forall|i: int| 0 <= i < all.len() ==> (#[trigger] all[i]).parts.len() >= 1,
            root_name@ == root,
            root == all[0].parts[0],
            entries_verdict(entries@, false) is Ok,
            root_scan(all.take(at as int), root) == Ok::<Option<bool>, Seq<char>>(root_kind),
            children == has_children(all.take(at as int)),
        decreases parsed@.len() - at,
    {
        let ghost next = all.take(at + 1);
        proof {
            assert(next.drop_last() =~= all.take(at as int));
            assert(next.last() == parsed_view(parsed@[at as int]));
            assert(all[at as int].parts.len() >= 1);
            if root_scan(next, root) is Err {
                root_fault_persists(all, root, at + 1);
            }
        }
        if parsed[at].parts[0] != root_name {
            return Err("V2 存档归档必须只有一个顶层对象".to_owned());
        }
        if parsed[at].parts.len() == 1 {
            if root_kind.is_some() {
                return Err("V2 存档归档顶层对象重复".to_owned());
            }
            root_kind = Some(parsed[at].is_directory);
        }
        let deeper: bool = parsed[at].parts.len() > 1;
        proof {
            let seen = all.take(at as int);
            if has_children(seen) {
                let i = choose|i: int| 0 <= i < seen.len() && (#[trigger] seen[i]).parts.len() > 1;
                assert(next[i].parts.len() > 1);
            }
            if deeper {
                assert(next[at as int].parts.len() > 1);
            }
            if has_children(next) {
                let i = choose|i: int| 0 <= i < next.len() && (#[trigger] next[i]).parts.len() > 1;
                if i < at {
                    assert(seen[i].parts.len() > 1);
                }
            }
        }
        children = children || deeper;
        at += 1;
    }
    assert(all.take(at as int) =~= all);
    match root_kind {
        None => Err("V2 存档归档缺少顶层对象".to_owned()),
        Some(directory) => {
            if !directory && children {
                return Err("文件型存档不能包含子条目".to_owned());
            }
            Ok(
                ArchiveSaveInfo {
                    root_name,
                    root_kind: if directory {
                        SaveEntryKind::Directory
                    } else {
                        SaveEntryKind::File
                    },
                    entry_count: entries.len(),
                    total_size,
                },
            )
        },
    }
}

/// Accepts an archive without a root, also an empty one.
pub fn inspect_legacy_entries(entries: &Vec<ArchiveEntry>) -> (result: Result<
    LegacyArchiveInfo,
    String,
>)
    ensures
        match entries_verdict(entries@, true) {
            Ok(size) => result matches Ok(info) && info.entry_count == entries@.len()
                && info.total_size == size,
            Err(text) => result matches Err(found) && found@ == text,
        },
{
    match validate_entries(entries, true) {
        Ok((_, total_size)) => Ok(LegacyArchiveInfo { entry_count: entries.len(), total_size }),
        Err(text) => Err(text),
    }
}

/// Whatever is accepted is bounded in number and in size.
pub proof fn accepted_archives_are_bounded(entries: Seq<ArchiveEntry>, allow_empty: bool)
    requires
        entries_verdict(entries, allow_empty) is Ok,
    ensures
        entries.len() <= MAX_ENTRIES,
        entries_verdict(entries, allow_empty)->Ok_0 <= MAX_SIZE,
{
}

proof fn names_kept(
    kinds: Map<Seq<char>, bool>,
    parts: Seq<Seq<char>>,
    depth: nat,
    names: Map<Seq<char>, Seq<char>>,
)
    requires
        entry_steps(kinds, parts, depth, names) is Ok,
    ensures
        forall|key: Seq<char>|
            names.contains_key(key) ==> #[trigger] (entry_steps(
                kinds,
                parts,
                depth,
                names,
            )->Ok_0).contains_key(key) && (entry_steps(kinds, parts, depth, names)->Ok_0)[key]
                == names[key],
    decreases depth,
{
    if depth > 0 {
        names_kept(kinds, parts, (depth - 1) as nat, names);
    }
}

proof fn ancestor_recorded(
    kinds: Map<Seq<char>, bool>,
    parts: Seq<Seq<char>>,
    depth: nat,
    whole: nat,
    names: Map<Seq<char>, Seq<char>>,
)
    requires
        1 <= depth <= whole,
        entry_steps(kinds, parts, whole, names) is Ok,
    ensures
        entry_steps(kinds, parts, whole, names)->Ok_0.contains_pair(
            lowercase(ancestor(parts, depth)),
            ancestor(parts, depth),
        ),
        !(depth < parts.len() && kinds.contains_pair(ancestor(parts, depth), false)),
    decreases whole,
{
    if depth < whole {
        ancestor_recorded(kinds, parts, depth, (whole - 1) as nat, names);
    }
}

proof fn entry_recorded(
    kinds: Map<Seq<char>, bool>,
    parsed: Seq<ParsedView>,
    at: int,
    depth: nat,
)
    requires
        tree_steps(kinds, parsed) is Ok,
        0 <= at < parsed.len(),
        1 <= depth <= parsed[at].parts.len(),
    ensures
        tree_steps(kinds, parsed)->Ok_0.contains_pair(
            lowercase(ancestor(parsed[at].parts, depth)),
            ancestor(parsed[at].parts, depth),
        ),
        !(depth < parsed[at].parts.len() && kinds.contains_pair(
            ancestor(parsed[at].parts, depth),
            false,
        )),
    decreases parsed.len(),
{
    let last = parsed.last();
    let names = tree_steps(kinds, parsed.drop_last())->Ok_0;
    if at == parsed.len() - 1 {
        ancestor_recorded(kinds, last.parts, depth, last.parts.len(), names);
    } else {
        entry_recorded(kinds, parsed.drop_last(), at, depth);
        names_kept(kinds, last.parts, last.parts.len(), names);
        let key = lowercase(ancestor(parsed[at].parts, depth));
        assert(names.contains_key(key));
    }
}

/// In an accepted tree no two paths, of entries or of their ancestors, differ
/// only in case.
pub proof fn accepted_trees_have_no_case_conflicts(
    parsed: Seq<ParsedView>,
    left: int,
    left_depth: nat,
    right: int,
    right_depth: nat,
)
    requires
        tree_fault(parsed) is None,
        0 <= left < parsed.len(),
        0 <= right < parsed.len(),
        1 <= left_depth <= parsed[left].parts.len(),
        1 <= right_depth <= parsed[right].parts.len(),
        lowercase(ancestor(parsed[left].parts, left_depth)) == lowercase(
            ancestor(parsed[right].parts, right_depth),
        ),
    ensures
        ancestor(parsed[left].parts, left_depth) == ancestor(parsed[right].parts, right_depth),
{
    entry_recorded(kinds_of(parsed), parsed, left, left_depth);
    entry_recorded(kinds_of(parsed), parsed, right, right_depth);
}

/// In an accepted tree nothing lies below a file.
pub proof fn accepted_trees_have_no_children_of_files(
    parsed: Seq<ParsedView>,
    at: int,
    depth: nat,
)
    requires
        tree_fault(parsed) is None,
        0 <= at < parsed.len(),
        1 <= depth < parsed[at].parts.len(),
    ensures
        !kinds_of(parsed).contains_pair(ancestor(parsed[at].parts, depth), false),
{
    entry_recorded(kinds_of(parsed), parsed, at, depth);
}

/// `name` is the path of an entry or of one of its ancestors.
pub open spec fn is_path_of(parsed: Seq<ParsedView>, at: int, depth: nat, name: Seq<char>) -> bool {
    0 <= at < parsed.len() && 1 <= depth <= parsed[at].parts.len() && name == ancestor(
        parsed[at].parts,
        depth,
    )
}

/// No two paths, of entries or of their ancestors, differ only in case, and
/// nothing lies below a file.
pub open spec fn sound_tree(parsed: Seq<ParsedView>) -> bool {
    &&& forall|i: int, m: nat, left: Seq<char>, j: int, n: nat, right: Seq<char>|
        #[trigger] is_path_of(parsed, i, m, left) && #[trigger] is_path_of(parsed, j, n, right)
            && lowercase(left) == lowercase(right) ==> left == right
    &&& forall|i: int, m: nat, name: Seq<char>|
        #[trigger] is_path_of(parsed, i, m, name) && m < parsed[i].parts.len() ==> !kinds_of(
            parsed,
        ).contains_pair(name, false)
}

/// Every remembered path is that of an entry or of an ancestor.
spec fn remembered(parsed: Seq<ParsedView>, names: Map<Seq<char>, Seq<char>>) -> bool {
    forall|key: Seq<char>| #[trigger]
        names.contains_key(key) ==> key == lowercase(names[key]) && exists|at: int, depth: nat|
            is_path_of(parsed, at, depth, names[key])
}

proof fn sound_entry_accepted(
    parsed: Seq<ParsedView>,
    at: int,
    depth: nat,
    names: Map<Seq<char>, Seq<char>>,
)
    requires
        sound_tree(parsed),
        remembered(parsed, names),
        0 <= at < parsed.len(),
        depth <= parsed[at].parts.len(),
    ensures
        entry_steps(kinds_of(parsed), parsed[at].parts, depth, names) is Ok,
        remembered(
            parsed,
            entry_steps(kinds_of(parsed), parsed[at].parts, depth, names)->Ok_0,
        ),
    decreases depth,
{
    if depth > 0 {
        sound_entry_accepted(parsed, at, (depth - 1) as nat, names);
        let parts = parsed[at].parts;
        let earlier = entry_steps(kinds_of(parsed), parts, (depth - 1) as nat, names)->Ok_0;
        let name = ancestor(parts, depth);
        let key = lowercase(name);
        assert(is_path_of(parsed, at, depth, name));
        if earlier.contains_key(key) {
            let (i, m) = choose|i: int, m: nat| is_path_of(parsed, i, m, earlier[key]);
            assert(is_path_of(parsed, i, m, earlier[key]));
            assert(earlier[key] == name);
        }
        let later = earlier.insert(key, name);
        assert(entry_steps(kinds_of(parsed), parts, depth, names) == Ok::<
            Map<Seq<char>, Seq<char>>,
            Seq<char>,
        >(later));
        assert forall|other: Seq<char>| #[trigger] later.contains_key(other) implies other
            == lowercase(later[other]) && exists|i: int, m: nat|
            is_path_of(parsed, i, m, later[other]) by {
            if other == key {
                assert(is_path_of(parsed, at, depth, later[other]));
            } else {
                assert(earlier.contains_key(other));
            }
        }
    }
}

proof fn sound_entries_accepted(parsed: Seq<ParsedView>, count: nat)
    requires
        sound_tree(parsed),
        count <= parsed.len(),
    ensures
        tree_steps(kinds_of(parsed), parsed.take(count as int)) is Ok,
        remembered(parsed, tree_steps(kinds_of(parsed), parsed.take(count as int))->Ok_0),
    decreases count,
{
    if count > 0 {
        let before = (count - 1) as nat;
        sound_entries_accepted(parsed, before);
        let some = parsed.take(count as int);
        assert(some.drop_last() =~= parsed.take(before as int));
        assert(some.last() == parsed[before as int]);
        sound_entry_accepted(
            parsed,
            before as int,
            parsed[before as int].parts.len(),
            tree_steps(kinds_of(parsed), parsed.take(before as int))->Ok_0,
        );
    }
}

/// A tree is accepted exactly if it is sound.
pub proof fn accepted_means_sound(parsed: Seq<ParsedView>)
    ensures
        tree_fault(parsed) is None <==> sound_tree(parsed),
{
    if sound_tree(parsed) {
        sound_entries_accepted(parsed, parsed.len());
        assert(parsed.take(parsed.len() as int) =~= parsed);
    }
    if tree_fault(parsed) is None {
        assert forall|i: int, m: nat, left: Seq<char>, j: int, n: nat, right: Seq<char>|
            #[trigger] is_path_of(parsed, i, m, left) && #[trigger] is_path_of(
                parsed,
                j,
                n,
                right,
            ) && lowercase(left) == lowercase(right) implies left == right by {
            accepted_trees_have_no_case_conflicts(parsed, i, m, j, n);
        }
        assert forall|i: int, m: nat, name: Seq<char>|
            #[trigger] is_path_of(parsed, i, m, name) && m
                < parsed[i].parts.len() implies !kinds_of(parsed).contains_pair(name, false) by {
            accepted_trees_have_no_children_of_files(parsed, i, m);
        }
    }
}

/// A character that no Windows file name may hold is a control character or
/// one of `<`, `>`, `"`, `|`, `?` and `*`; a blank, a letter, a digit or any
/// other sign is allowed inside a name.
pub proof fn forbidden_characters(ch: char)
    ensures
        is_forbidden(ch) <==> {
            ||| ch < ' '
            ||| '\u{7f}' <= ch <= '\u{9f}'
            ||| ch == '<'
            ||| ch == '>'
            ||| ch == '"'
            ||| ch == '|'
            ||| ch == '?'
            ||| ch == '*'
        },
{
    crate::text::chars::control_is_unprintable(ch);
}

/// A device is one of six words, or `COM` or `LPT` with one more character:
/// a digit from 1 to 9, or a raised 1, 2 or 3.
pub proof fn device_names(stem: Seq<char>)
    ensures
        is_device(stem) <==> {
            ||| stem == "CON"@
            ||| stem == "PRN"@
            ||| stem == "AUX"@
            ||| stem == "NUL"@
            ||| stem == "CONIN$"@
            ||| stem == "CONOUT$"@
            ||| {
                &&& stem.len() == 4
                &&& stem.take(3) == "COM"@ || stem.take(3) == "LPT"@
                &&& '1' <= stem[3] <= '9' || stem[3] == '¹' || stem[3] == '²' || stem[3] == '³'
            }
        },
{
    reveal_strlit("COM");
    reveal_strlit("LPT");
    reveal_strlit("COM¹");
    reveal_strlit("COM²");
    reveal_strlit("COM³");
    reveal_strlit("LPT¹");
    reveal_strlit("LPT²");
    reveal_strlit("LPT³");
    reveal_strlit("COM1");
    reveal_strlit("COM2");
    reveal_strlit("COM3");
    reveal_strlit("COM4");
    reveal_strlit("COM5");
    reveal_strlit("COM6");
    reveal_strlit("COM7");
    reveal_strlit("COM8");
    reveal_strlit("COM9");
    reveal_strlit("LPT1");
    reveal_strlit("LPT2");
    reveal_strlit("LPT3");
    reveal_strlit("LPT4");
    reveal_strlit("LPT5");
    reveal_strlit("LPT6");
    reveal_strlit("LPT7");
    reveal_strlit("LPT8");
    reveal_strlit("LPT9");
    if stem.len() == 4 {
        assert(stem =~= stem.take(3).push(stem[3]));
        assert("COM¹"@ =~= "COM"@.push('¹'));
        assert("COM²"@ =~= "COM"@.push('²'));
        assert("COM³"@ =~= "COM"@.push('³'));
        assert("LPT¹"@ =~= "LPT"@.push('¹'));
        assert("LPT²"@ =~= "LPT"@.push('²'));
        assert("LPT³"@ =~= "LPT"@.push('³'));
        assert("COM1"@ =~= "COM"@.push('1'));
        assert("COM2"@ =~= "COM"@.push('2'));
        assert("COM3"@ =~= "COM"@.push('3'));
        assert("COM4"@ =~= "COM"@.push('4'));
        assert("COM5"@ =~= "COM"@.push('5'));
        assert("COM6"@ =~= "COM"@.push('6'));
        assert("COM7"@ =~= "COM"@.push('7'));
        assert("COM8"@ =~= "COM"@.push('8'));
        assert("COM9"@ =~= "COM"@.push('9'));
        assert("LPT1"@ =~= "LPT"@.push('1'));
        assert("LPT2"@ =~= "LPT"@.push('2'));
        assert("LPT3"@ =~= "LPT"@.push('3'));
        assert("LPT4"@ =~= "LPT"@.push('4'));
        assert("LPT5"@ =~= "LPT"@.push('5'));
        assert("LPT6"@ =~= "LPT"@.push('6'));
        assert("LPT7"@ =~= "LPT"@.push('7'));
        assert("LPT8"@ =~= "LPT"@.push('8'));
        assert("LPT9"@ =~= "LPT"@.push('9'));
        if is_device(stem) {
            assert(stem.take(3) =~= "COM"@ || stem.take(3) =~= "LPT"@ || stem == "CON"@ || stem
                == "PRN"@ || stem == "AUX"@ || stem == "NUL"@ || stem == "CONIN$"@ || stem
                == "CONOUT$"@);
        }
    }
}

/// Neither case, nor an extension, nor blanks before it make a device name
/// harmless.
pub proof fn device_stems_drop_extensions(base: Seq<char>, extension: Seq<char>)
    requires
        !base.contains('.'),
        extension.len() == 0 || extension[0] == '.',
    ensures
        device_stem(base + extension) == upper(trimmed_end(base)),
{
    let part = base + extension;
    assert(part.take(base.len() as int) =~= base);
    first_at_is(part, '.', base.len() as int);
}

/// A component that is safe on every platform: no drive or stream, no dot or
/// blank at the end, no device, and no forbidden character anywhere.
pub open spec fn harmless(part: Seq<char>) -> bool {
    &&& !part.contains(':')
    &&& part.len() > 0 ==> part.last() != '.' && part.last() != ' '
    &&& !is_device(device_stem(part))
    &&& forall|i: int|
        0 <= i < part.len() ==> {
            &&& #[trigger] part[i] >= ' '
            &&& !('\u{7f}' <= part[i] <= '\u{9f}')
            &&& part[i] != '<'
            &&& part[i] != '>'
            &&& part[i] != '"'
            &&& part[i] != '|'
            &&& part[i] != '?'
            &&& part[i] != '*'
        }
}

proof fn faultless_parts_are_harmless(part: Seq<char>, name: Seq<char>)
    ensures
        part_fault(part, name) is None <==> harmless(part),
{
    assert forall|i: int| 0 <= i < part.len() implies (is_forbidden(#[trigger] part[i]) <==> {
        ||| part[i] < ' '
        ||| '\u{7f}' <= part[i] <= '\u{9f}'
        ||| part[i] == '<'
        ||| part[i] == '>'
        ||| part[i] == '"'
        ||| part[i] == '|'
        ||| part[i] == '?'
        ||| part[i] == '*'
    }) by {
        forbidden_characters(part[i]);
    }
    if has_forbidden(part) {
        let i = choose|i: int| 0 <= i < part.len() && is_forbidden(#[trigger] part[i]);
        assert(is_forbidden(part[i]));
        assert(part[i] >= ' ' || part[i] < ' ');
    }
}

proof fn parts_without_faults(parts: Seq<Seq<char>>, name: Seq<char>)
    ensures
        parts_fault(parts, name) is None <==> forall|i: int|
            0 <= i < parts.len() ==> harmless(#[trigger] parts[i]),
    decreases parts.len(),
{
    if parts.len() > 0 {
        let earlier = parts.drop_last();
        parts_without_faults(earlier, name);
        faultless_parts_are_harmless(parts.last(), name);
        assert forall|i: int| 0 <= i < earlier.len() implies #[trigger] earlier[i] == parts[i] by {}
        if parts_fault(parts, name) is None {
            assert forall|i: int| 0 <= i < parts.len() implies harmless(#[trigger] parts[i]) by {
                if i < earlier.len() {
                    assert(harmless(earlier[i]));
                }
            }
        }
        if forall|i: int| 0 <= i < parts.len() ==> harmless(#[trigger] parts[i]) {
            assert(harmless(parts[parts.len() - 1]));
            assert forall|i: int| 0 <= i < earlier.len() implies harmless(#[trigger] earlier[i]) by {
                assert(harmless(parts[i]));
            }
        }
    }
}

proof fn joined_avoids(parts: Seq<Seq<char>>, ch: char)
    requires
        ch != '/',
        forall|i: int| 0 <= i < parts.len() ==> !(#[trigger] parts[i]).contains(ch),
    ensures
        !joined(parts, seq!['/']).contains(ch),
    decreases parts.len(),
{
    let text = joined(parts, seq!['/']);
    if parts.len() == 1 {
        assert(!parts[0].contains(ch));
    } else if parts.len() > 1 {
        let earlier = parts.drop_last();
        assert forall|i: int| 0 <= i < earlier.len() implies !(#[trigger] earlier[i]).contains(
            ch,
        ) by {
            assert(!parts[i].contains(ch));
        }
        joined_avoids(earlier, ch);
        let head = joined(earlier, seq!['/']);
        let last = parts[parts.len() - 1];
        assert(!last.contains(ch));
        if text.contains(ch) {
            let k = choose|k: int| 0 <= k < text.len() && text[k] == ch;
            if k < head.len() {
                assert(head[k] == ch);
            } else if k > head.len() {
                assert(last[k - head.len() - 1] == ch);
            }
        }
    }
}

/// A path with forward slashes is accepted exactly if it is relative, ends in
/// a name, goes at most 256 levels deep, and every component is harmless; its
/// components are then what stands between the slashes.
pub proof fn paths_are_accepted_by_their_components(parts: Seq<Seq<char>>)
    requires
        parts.len() > 0,
        forall|i: int|
            0 <= i < parts.len() ==> !(#[trigger] parts[i]).contains('/') && !parts[i].contains(
                '\\',
            ),
    ensures
        ({
            let name = joined(parts, seq!['/']);
            &&& entry_path(name) is Ok <==> {
                &&& parts[0].len() > 0
                &&& parts.last().len() > 0
                &&& parts.len() <= 256
                &&& forall|i: int| 0 <= i < parts.len() ==> harmless(#[trigger] parts[i])
            }
            &&& entry_path(name) is Ok ==> entry_path(name)->Ok_0 == parts
        }),
{
    let name = joined(parts, seq!['/']);
    reveal_strlit("/");
    reveal_strlit("..");
    assert("/"@ =~= seq!['/']);
    assert forall|i: int| 0 <= i < parts.len() implies !(#[trigger] parts[i]).contains('\\') by {}
    joined_avoids(parts, '\\');
    crate::text::scan::replacing_keeps_places(name, '\\', '/');
    assert forall|i: int| 0 <= i < name.len() implies name[i] != '\\' by {
        if name[i] == '\\' {
            assert(name.contains('\\'));
        }
    }
    assert(slashed(name) =~= name);
    assert forall|i: int| 0 <= i < parts.len() implies !(#[trigger] parts[i]).contains('/') by {}
    crate::text::scan::join_then_split(parts, '/');
    parts_without_faults(parts, name);
    let rest = parts.drop_first();
    assert(parts =~= seq![parts[0]] + rest);
    crate::text::concat::joined_from_the_front(parts[0], rest, seq!['/']);
    if rest.len() == 0 {
        assert(name =~= parts[0]);
    }
    if parts[0].len() > 0 {
        assert(name[0] == parts[0][0]);
        assert(name[0] != '/') by {
            if parts[0][0] == '/' {
                assert(parts[0].contains('/'));
            }
        }
    }
    let last = parts.last();
    assert(parts[parts.len() - 1] == last);
    if last.len() > 0 {
        assert(name.last() == last.last());
        assert(name.last() != '/') by {
            if last[last.len() - 1] == '/' {
                assert(last.contains('/'));
            }
        }
    }
    if forall|i: int| 0 <= i < parts.len() ==> harmless(#[trigger] parts[i]) {
        assert forall|i: int| 0 <= i < parts.len() implies #[trigger] parts[i] != ".."@ by {
            assert(harmless(parts[i]));
            if parts[i] == ".."@ {
                assert(parts[i].last() == '.');
            }
        }
    }
}

/// A backslash parts components just as a slash does.
pub proof fn backslashes_are_slashes(left: Seq<char>, right: Seq<char>)
    requires
        left.len() == right.len(),
        forall|i: int|
            0 <= i < left.len() ==> #[trigger] left[i] == right[i] || (left[i] == '\\' && right[i]
                == '/') || (left[i] == '/' && right[i] == '\\'),
    ensures
        entry_path(left) is Ok <==> entry_path(right) is Ok,
        entry_path(left) is Ok ==> entry_path(left)->Ok_0 == entry_path(right)->Ok_0,
{
    reveal_strlit("/");
    assert("/"@ =~= seq!['/']);
    crate::text::scan::replacing_keeps_places(left, '\\', '/');
    crate::text::scan::replacing_keeps_places(right, '\\', '/');
    assert forall|i: int| 0 <= i < left.len() implies #[trigger] slashed(left)[i] == slashed(
        right,
    )[i] by {
        assert(left[i] == left[i]);
    }
    assert(slashed(left) =~= slashed(right));
    let parts = split_parts(slashed(left), '/');
    parts_without_faults(parts, left);
    parts_without_faults(parts, right);
}

/// An entry is a plain file or directory exactly if it takes nothing away, is
/// not marked as a device, carries no Unix type or that of its own kind, and
/// has no data if it is a directory.
pub proof fn plain_entries(entry: ArchiveEntry)
    ensures
        kind_fault(entry) is None <==> {
            &&& !entry.is_anti_item
            &&& entry.has_windows_attributes ==> {
                let unix_type = entry.windows_attributes >> 28u32;
                &&& (entry.windows_attributes >> 6u32) & 1u32 == 0
                &&& unix_type == 0 || unix_type == (if entry.is_directory {
                    4u32
                } else {
                    8u32
                })
            }
            &&& !(entry.is_directory && entry.has_stream)
        },
{
    let bits = entry.windows_attributes;
    assert((bits & 0x40u32 != 0) <==> ((bits >> 6u32) & 1u32 != 0)) by (bit_vector);
    assert(((bits >> 16u32) & 0xf000u32 == 0) <==> (bits >> 28u32 == 0)) by (bit_vector);
    assert(((bits >> 16u32) & 0xf000u32 == 0x8000u32) <==> (bits >> 28u32 == 8)) by (bit_vector);
    assert(((bits >> 16u32) & 0xf000u32 == 0x4000u32) <==> (bits >> 28u32 == 4)) by (bit_vector);
}

/// The sizes of all entries together.
pub open spec fn sizes(entries: Seq<ArchiveEntry>) -> nat
    decreases entries.len(),
{
    if entries.len() == 0 {
        0
    } else {
        entries[0].size as nat + sizes(entries.drop_first())
    }
}

proof fn sizes_of_push(entries: Seq<ArchiveEntry>)
    requires
        entries.len() > 0,
    ensures
        sizes(entries) == sizes(entries.drop_last()) + entries.last().size,
    decreases entries.len(),
{
    if entries.len() > 1 {
        sizes_of_push(entries.drop_first());
        assert(entries.drop_first().drop_last() =~= entries.drop_last().drop_first());
    } else {
        assert(entries.drop_first() =~= Seq::<ArchiveEntry>::empty());
        assert(entries.drop_last() =~= Seq::<ArchiveEntry>::empty());
    }
}

/// The components in lower case, with slashes between them.
pub open spec fn lowered_path(parts: Seq<Seq<char>>) -> Seq<char> {
    joined(Seq::new(parts.len(), |k: int| lowercase(parts[k])), "/"@)
}

/// Every path and kind is accepted, no two paths are the same in lower case,
/// and together the entries stay within 128 GiB.
pub open spec fn acceptable(entries: Seq<ArchiveEntry>) -> bool {
    &&& forall|i: int|
        0 <= i < entries.len() ==> entry_path((#[trigger] entries[i]).name@) is Ok && kind_fault(
            entries[i],
        ) is None
    &&& forall|i: int, j: int|
        0 <= i < j < entries.len() ==> lowered_path(
            entry_path((#[trigger] entries[i]).name@)->Ok_0,
        ) != lowered_path(entry_path((#[trigger] entries[j]).name@)->Ok_0)
    &&& sizes(entries) <= 137_438_953_472
}

proof fn scanned_means_acceptable(entries: Seq<ArchiveEntry>)
    ensures
        scan_entries(entries) is Ok <==> acceptable(entries),
        scan_entries(entries) is Ok ==> scan_entries(entries)->Ok_0 == sizes(entries),
    decreases entries.len(),
{
    if entries.len() > 0 {
        let earlier = entries.drop_last();
        let entry = entries.last();
        let at = entries.len() - 1;
        scanned_means_acceptable(earlier);
        sizes_of_push(entries);
        assert(entries[at] == entry);
        assert forall|i: int| 0 <= i < earlier.len() implies #[trigger] earlier[i] == entries[i] by {}
        let key = alias_key(parts_of(entry));
        assert forall|i: int| 0 <= i < entries.len() implies alias_key(
            parts_of(#[trigger] entries[i]),
        ) == lowered_path(entry_path(entries[i].name@)->Ok_0) by {}
        if scan_entries(entries) is Ok {
            assert forall|i: int| 0 <= i < entries.len() implies entry_path(
                (#[trigger] entries[i]).name@,
            ) is Ok && kind_fault(entries[i]) is None by {
                if i < at {
                    assert(earlier[i] == entries[i]);
                }
            }
            assert forall|i: int, j: int| 0 <= i < j < entries.len() implies lowered_path(
                entry_path((#[trigger] entries[i]).name@)->Ok_0,
            ) != lowered_path(entry_path((#[trigger] entries[j]).name@)->Ok_0) by {
                assert(earlier[i] == entries[i]);
                if j < at {
                    assert(earlier[j] == entries[j]);
                } else {
                    assert(!key_taken(earlier, key));
                    assert(alias_key(parts_of(earlier[i])) != key);
                }
            }
        }
        if acceptable(entries) {
            assert forall|i: int| 0 <= i < earlier.len() implies entry_path(
                (#[trigger] earlier[i]).name@,
            ) is Ok && kind_fault(earlier[i]) is None by {
                assert(entries[i] == earlier[i]);
            }
            assert forall|i: int, j: int| 0 <= i < j < earlier.len() implies lowered_path(
                entry_path((#[trigger] earlier[i]).name@)->Ok_0,
            ) != lowered_path(entry_path((#[trigger] earlier[j]).name@)->Ok_0) by {
                assert(entries[i] == earlier[i]);
                assert(entries[j] == earlier[j]);
            }
            assert(acceptable(earlier));
            if key_taken(earlier, key) {
                let i = choose|i: int|
                    0 <= i < earlier.len() && alias_key(parts_of(#[trigger] earlier[i])) == key;
                assert(entries[i] == earlier[i]);
                assert(lowered_path(entry_path(entries[i].name@)->Ok_0) != lowered_path(
                    entry_path(entries[at].name@)->Ok_0,
                ));
            }
        }
    }
}

/// An archive is accepted exactly if it has at most 100 000 entries (and at
/// least one where that is asked for), all acceptable, that form a sound
/// tree. Its size is that of its entries together.
pub proof fn archives_are_accepted_by_their_entries(entries: Seq<ArchiveEntry>, allow_empty: bool)
    ensures
        entries_verdict(entries, allow_empty) is Ok <==> {
            &&& entries.len() > 0 || allow_empty
            &&& entries.len() <= 100_000
            &&& acceptable(entries)
            &&& sound_tree(parsed_of(entries))
        },
        entries_verdict(entries, allow_empty) is Ok ==> entries_verdict(entries, allow_empty)->Ok_0
            == sizes(entries),
{
    scanned_means_acceptable(entries);
    accepted_means_sound(parsed_of(entries));
}

/// All entries lie at or below this root.
pub open spec fn under(parsed: Seq<ParsedView>, root: Seq<char>) -> bool {
    forall|i: int| 0 <= i < parsed.len() ==> (#[trigger] parsed[i]).parts[0] == root
}

/// The entry that is the root itself, and the only such entry.
pub open spec fn sole_root(parsed: Seq<ParsedView>, at: int) -> bool {
    &&& 0 <= at < parsed.len()
    &&& parsed[at].parts.len() == 1
    &&& forall|i: int|
        0 <= i < parsed.len() && (#[trigger] parsed[i]).parts.len() == 1 ==> i == at
}

proof fn root_scan_finds(parsed: Seq<ParsedView>, root: Seq<char>)
    ensures
        root_scan(parsed, root) is Ok ==> under(parsed, root),
        root_scan(parsed, root) matches Ok(None) ==> forall|i: int|
            0 <= i < parsed.len() ==> (#[trigger] parsed[i]).parts.len() != 1,
        root_scan(parsed, root) matches Ok(Some(directory)) ==> exists|at: int|
            #[trigger] sole_root(parsed, at) && parsed[at].is_directory == directory,
        under(parsed, root) && (forall|i: int|
            0 <= i < parsed.len() ==> (#[trigger] parsed[i]).parts.len() != 1) ==> root_scan(
            parsed,
            root,
        ) == Ok::<Option<bool>, Seq<char>>(None),
        forall|at: int|
            under(parsed, root) && #[trigger] sole_root(parsed, at) ==> root_scan(parsed, root)
                == Ok::<Option<bool>, Seq<char>>(Some(parsed[at].is_directory)),
    decreases parsed.len(),
{
    if parsed.len() > 0 {
        let earlier = parsed.drop_last();
        let last = parsed.len() - 1;
        root_scan_finds(earlier, root);
        assert forall|i: int| 0 <= i < earlier.len() implies #[trigger] earlier[i] == parsed[i] by {}
        if root_scan(parsed, root) is Ok {
            assert forall|i: int| 0 <= i < parsed.len() implies (#[trigger] parsed[i]).parts[0]
                == root by {
                if i < last {
                    assert(earlier[i] == parsed[i]);
                }
            }
            if root_scan(parsed, root)->Ok_0 is None {
                assert forall|i: int| 0 <= i < parsed.len() implies (
                #[trigger] parsed[i]).parts.len() != 1 by {
                    if i < last {
                        assert(earlier[i] == parsed[i]);
                    }
                }
            } else if parsed[last].parts.len() == 1 {
                assert forall|i: int|
                    0 <= i < parsed.len() && (#[trigger] parsed[i]).parts.len() == 1 implies i
                    == last by {
                    if i < last {
                        assert(earlier[i] == parsed[i]);
                    }
                }
                assert(sole_root(parsed, last));
            } else {
                let directory = root_scan(parsed, root)->Ok_0->Some_0;
                let at = choose|at: int|
                    #[trigger] sole_root(earlier, at) && earlier[at].is_directory == directory;
                assert(earlier[at] == parsed[at]);
                assert forall|i: int|
                    0 <= i < parsed.len() && (#[trigger] parsed[i]).parts.len() == 1 implies i
                    == at by {
                    if i < last {
                        assert(earlier[i] == parsed[i]);
                    }
                }
                assert(sole_root(parsed, at));
            }
        }
        if under(parsed, root) {
            assert forall|i: int| 0 <= i < earlier.len() implies (#[trigger] earlier[i]).parts[0]
                == root by {
                assert(earlier[i] == parsed[i]);
            }
            assert(under(earlier, root));
            assert(parsed[last].parts[0] == root);
            if forall|i: int| 0 <= i < parsed.len() ==> (#[trigger] parsed[i]).parts.len() != 1 {
                assert forall|i: int| 0 <= i < earlier.len() implies (
                #[trigger] earlier[i]).parts.len() != 1 by {
                    assert(earlier[i] == parsed[i]);
                }
                assert(parsed[last].parts.len() != 1);
            }
            assert forall|at: int| #[trigger] sole_root(parsed, at) implies root_scan(parsed, root)
                == Ok::<Option<bool>, Seq<char>>(Some(parsed[at].is_directory)) by {
                if at < last {
                    assert(parsed[last].parts.len() != 1);
                    assert(earlier[at] == parsed[at]);
                    assert forall|i: int|
                        0 <= i < earlier.len() && (#[trigger] earlier[i]).parts.len()
                            == 1 implies i == at by {
                        assert(earlier[i] == parsed[i]);
                    }
                    assert(sole_root(earlier, at));
                } else {
                    assert forall|i: int| 0 <= i < earlier.len() implies (
                    #[trigger] earlier[i]).parts.len() != 1 by {
                        assert(earlier[i] == parsed[i]);
                    }
                }
            }
        }
    }
}

/// An archive counts as one save exactly if it is accepted, all entries lie at
/// or below one root, one entry is the root itself, and nothing lies below a
/// root that is a file. The root gives name and kind.
pub proof fn saves_have_one_root(entries: Seq<ArchiveEntry>, at: int)
    requires
        entries_verdict(entries, false) is Ok,
    ensures
        ({
            let parsed = parsed_of(entries);
            let root = parsed[0].parts[0];
            &&& sole_root(parsed, at) && under(parsed, root) && (parsed[at].is_directory
                || parsed.len() == 1) ==> rooted_verdict(entries) == Ok::<
                (Seq<char>, SaveEntryKind, nat),
                Seq<char>,
            >(
                (
                    root,
                    if parsed[at].is_directory {
                        SaveEntryKind::Directory
                    } else {
                        SaveEntryKind::File
                    },
                    sizes(entries),
                ),
            )
            &&& rooted_verdict(entries) is Ok ==> under(parsed, root) && exists|k: int|
                #[trigger] sole_root(parsed, k) && (parsed[k].is_directory || parsed.len() == 1)
        }),
{
    let parsed = parsed_of(entries);
    let root = parsed[0].parts[0];
    root_scan_finds(parsed, root);
    archives_are_accepted_by_their_entries(entries, false);
    if sole_root(parsed, at) && parsed.len() == 1 && !parsed[at].is_directory {
        assert(!has_children(parsed)) by {
            if has_children(parsed) {
                let i = choose|i: int| 0 <= i < parsed.len() && (#[trigger] parsed[i]).parts.len()
                    > 1;
                assert(i == at);
            }
        }
    }
    if rooted_verdict(entries) is Ok {
        let directory = root_scan(parsed, root)->Ok_0->Some_0;
        let k = choose|k: int|
            #[trigger] sole_root(parsed, k) && parsed[k].is_directory == directory;
        assert(sole_root(parsed, k));
        if !directory && parsed.len() > 1 {
            let other = if k == 0 {
                1
            } else {
                0
            };
            assert(parsed[other].parts.len() != 1);
            parts_present(entries, other);
            assert(parsed[other].parts == parts_of(entries[other]));
            assert(parsed[other].parts.len() > 1);
            assert(has_children(parsed));
        }
    }
}

proof fn kind_of_last(parsed: Seq<ParsedView>, at: int)
    requires
        0 <= at < parsed.len(),
        forall|i: int|
            at < i < parsed.len() ==> joined((#[trigger] parsed[i]).parts, "/"@) != joined(
                parsed[at].parts,
                "/"@,
            ),
    ensures
        kinds_of(parsed).contains_pair(joined(parsed[at].parts, "/"@), parsed[at].is_directory),
    decreases parsed.len(),
{
    if at < parsed.len() - 1 {
        let earlier = parsed.drop_last();
        assert(parsed[parsed.len() - 1] == parsed.last());
        assert(earlier[at] == parsed[at]);
        assert forall|i: int| at < i < earlier.len() implies joined(
            (#[trigger] earlier[i]).parts,
            "/"@,
        ) != joined(earlier[at].parts, "/"@) by {
            assert(earlier[i] == parsed[i]);
        }
        kind_of_last(earlier, at);
    }
}

/// In an accepted archive no entry lies below another one that is a file.
pub proof fn files_hold_nothing(
    entries: Seq<ArchiveEntry>,
    allow_empty: bool,
    file: int,
    below: int,
)
    requires
        0 <= file < entries.len(),
        0 <= below < entries.len(),
        !entries[file].is_directory,
        parts_of(entries[file]).len() < parts_of(entries[below]).len(),
        parts_of(entries[below]).take(parts_of(entries[file]).len() as int) == parts_of(
            entries[file],
        ),
    ensures
        entries_verdict(entries, allow_empty) is Err,
{
    if entries_verdict(entries, allow_empty) is Ok {
        archives_are_accepted_by_their_entries(entries, allow_empty);
        let parsed = parsed_of(entries);
        let path = joined(parts_of(entries[file]), "/"@);
        reveal_strlit("/");
        assert("/"@ =~= seq!['/']);
        assert forall|i: int| file < i < parsed.len() implies joined(
            (#[trigger] parsed[i]).parts,
            "/"@,
        ) != joined(parsed[file].parts, "/"@) by {
            if joined(parsed[i].parts, "/"@) == path {
                crate::text::scan::split_then_join(slashed(entries[i].name@), '/');
                crate::text::scan::split_then_join(slashed(entries[file].name@), '/');
                assert(parts_of(entries[i]) == parts_of(entries[file]));
                assert(lowered_path(entry_path(entries[file].name@)->Ok_0) != lowered_path(
                    entry_path(entries[i].name@)->Ok_0,
                ));
            }
        }
        kind_of_last(parsed, file);
        parts_present(entries, file);
        let depth = parts_of(entries[file]).len();
        assert(is_path_of(parsed, below, depth, path));
    }
}

/// In an accepted archive no two directories or entries differ only in case:
/// where the first components of two paths are the same in lower case, they
/// are the same.
pub proof fn paths_do_not_differ_in_case_alone(
    entries: Seq<ArchiveEntry>,
    allow_empty: bool,
    left: int,
    left_depth: nat,
    right: int,
    right_depth: nat,
)
    requires
        entries_verdict(entries, allow_empty) is Ok,
        0 <= left < entries.len(),
        0 <= right < entries.len(),
        1 <= left_depth <= parts_of(entries[left]).len(),
        1 <= right_depth <= parts_of(entries[right]).len(),
        lowercase(joined(parts_of(entries[left]).take(left_depth as int), "/"@)) == lowercase(
            joined(parts_of(entries[right]).take(right_depth as int), "/"@),
        ),
    ensures
        joined(parts_of(entries[left]).take(left_depth as int), "/"@) == joined(
            parts_of(entries[right]).take(right_depth as int),
            "/"@,
        ),
{
    accepted_trees_have_no_case_conflicts(
        parsed_of(entries),
        left,
        left_depth,
        right,
        right_depth,
    );
}

} // verus!
