//! What the host application reports about its file system calls.

use vstd::prelude::*;

verus! {

/// The failure classes that decisions depend on.
#[derive(Clone, Copy, Debug, PartialEq, Eq, Structural)]
pub enum IoKind {
    NotFound,
    AlreadyExists,
    PermissionDenied,
    InvalidData,
    Other,
}

/// A failed file system call: its class and the text shown to users.
#[derive(Clone, Debug)]
pub struct IoFailure {
    pub kind: IoKind,
    pub text: String,
}

impl IoFailure {
    pub fn new(kind: IoKind, text: String) -> (failure: IoFailure)
        ensures
            failure.kind == kind,
            failure.text == text,
    {
        IoFailure { kind, text }
    }

    /// A copy with the same class and text.
    pub fn copy(&self) -> (failure: IoFailure)
        ensures
            failure == *self,
    {
        IoFailure { kind: self.kind, text: self.text.clone() }
    }
}

/// The answer to a look at one path that does not follow symbolic links.
#[derive(Clone, Debug)]
pub enum Presence {
    Present,
    Absent,
    Failed(IoFailure),
}

/// What a look at an existing path says about its type.
#[derive(Clone, Copy, Debug, PartialEq, Eq, Structural)]
pub struct TypeFlags {
    pub is_symlink: bool,
    pub is_dir: bool,
    pub is_file: bool,
}

impl TypeFlags {
    pub open spec fn real_directory(self) -> bool {
        self.is_dir && !self.is_symlink
    }

    pub open spec fn real_file(self) -> bool {
        self.is_file && !self.is_symlink
    }

    pub fn is_real_directory(self) -> (found: bool)
        ensures
            found == self.real_directory(),
    {
        self.is_dir && !self.is_symlink
    }

    pub fn is_real_file(self) -> (found: bool)
        ensures
            found == self.real_file(),
    {
        self.is_file && !self.is_symlink
    }

    /// The type that counts: a link is a link, whatever it points to.
    pub open spec fn kind(self) -> EntryType {
        if self.is_symlink {
            EntryType::Symlink
        } else if self.is_dir {
            EntryType::Directory
        } else if self.is_file {
            EntryType::File
        } else {
            EntryType::Other
        }
    }

    /// The type that counts, for callers.
    pub fn entry_type(self) -> (kind: EntryType)
        ensures
            kind == self.kind(),
    {
        if self.is_symlink {
            EntryType::Symlink
        } else if self.is_dir {
            EntryType::Directory
        } else if self.is_file {
            EntryType::File
        } else {
            EntryType::Other
        }
    }
}

/// The type of a directory entry.
#[derive(Clone, Copy, Debug, PartialEq, Eq, Structural)]
pub enum EntryType {
    Symlink,
    Directory,
    File,
    Other,
}

/// The answer to a look at the type of one path.
#[derive(Clone, Debug)]
pub enum Metadata {
    Found(TypeFlags),
    Missing,
    Failed(String),
}

/// A link is never taken for what it points to; all else goes by its flags,
/// directories first.
pub proof fn links_are_not_followed(flags: TypeFlags)
    ensures
        flags.is_symlink ==> flags.kind() == EntryType::Symlink && !flags.real_directory()
            && !flags.real_file(),
        !flags.is_symlink && flags.is_dir ==> flags.kind() == EntryType::Directory
            && flags.real_directory(),
        !flags.is_symlink && flags.is_file ==> flags.real_file(),
        !flags.is_symlink && !flags.is_dir ==> !flags.real_directory() && (flags.kind()
            == EntryType::File <==> flags.is_file),
        !flags.is_symlink && !flags.is_dir && !flags.is_file ==> flags.kind() == EntryType::Other
            && !flags.real_file(),
{
}

} // verus!
