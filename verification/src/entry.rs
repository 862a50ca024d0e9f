//! The kinds of file-system entries.
use vstd::prelude::*;

verus! {

/// File system entry type.
#[derive(Clone, Copy, PartialEq, Eq, Debug, Structural)]
pub enum EntryType {
    /// Unknown.
    Unknown,
    /// File (or hard-link on Windows).
    File,
    /// Directory
    Directory,
    /// Symbolic link (or junction on Windows) to a file.
    SymlinkFile,
    /// Symbolic link (or junction on Windows) to a directory.
    SymlinkDirectory,
}

impl Default for EntryType {
    fn default() -> (r: Self)
        ensures
            r == EntryType::Unknown,
    {
        EntryType::Unknown
    }
}

impl EntryType {
    /// Check if the entry refers to a file, either directly or via a symlink
    pub fn is_file(&self) -> (r: bool)
        ensures
            r == (*self == EntryType::File || *self == EntryType::SymlinkFile),
    {
        matches!(*self, EntryType::File | EntryType::SymlinkFile)
    }

    /// Check if the entry refers to a directory, either directly or via a symlink
    pub fn is_dir(&self) -> (r: bool)
        ensures
            r == (*self == EntryType::Directory || *self == EntryType::SymlinkDirectory),
    {
        matches!(*self, EntryType::Directory | EntryType::SymlinkDirectory)
    }

    /// Check if the entry is a symlink, to either a file or directory
    pub fn is_symlink(&self) -> (r: bool)
        ensures
            r == (*self == EntryType::SymlinkFile || *self == EntryType::SymlinkDirectory),
    {
        matches!(*self, EntryType::SymlinkFile | EntryType::SymlinkDirectory)
    }

    /// The name of the entry type.
    pub fn name(&self) -> (r: &'static str)
        ensures
            r@ == entry_type_name(*self),
    {
        match *self {
            EntryType::Unknown => "Unknown",
            EntryType::File => "File",
            EntryType::Directory => "Directory",
            EntryType::SymlinkFile => "SymlinkFile",
            EntryType::SymlinkDirectory => "SymlinkDirectory",
        }
    }
}

/// The type of an entry from its attributes: a reparse point is a symbolic link, to a
/// directory where the directory attribute is set too.
pub fn entry_type_from_attributes(is_reparse_point: bool, is_directory: bool) -> (r: EntryType)
    ensures
        r == if is_reparse_point {
            if is_directory {
                EntryType::SymlinkDirectory
            } else {
                EntryType::SymlinkFile
            }
        } else if is_directory {
            EntryType::Directory
        } else {
            EntryType::File
        },
{
    match (is_reparse_point, is_directory) {
        (true, true) => EntryType::SymlinkDirectory,
        (true, false) => EntryType::SymlinkFile,
        (false, true) => EntryType::Directory,
        (false, false) => EntryType::File,
    }
}

/// The name each entry type is displayed with.
pub open spec fn entry_type_name(t: EntryType) -> Seq<char> {
    match t {
        EntryType::Unknown => "Unknown"@,
        EntryType::File => "File"@,
        EntryType::Directory => "Directory"@,
        EntryType::SymlinkFile => "SymlinkFile"@,
        EntryType::SymlinkDirectory => "SymlinkDirectory"@,
    }
}

/// A symlink refers to a file or to a directory, never both; an entry that is neither a file
/// nor a directory is of unknown type.
pub proof fn lemma_entry_type_kinds(t: EntryType)
    ensures
        (t == EntryType::SymlinkFile || t == EntryType::SymlinkDirectory) ==> ((t == EntryType::File
            || t == EntryType::SymlinkFile) != (t == EntryType::Directory || t
            == EntryType::SymlinkDirectory)),
        !(t == EntryType::File || t == EntryType::SymlinkFile) && !(t == EntryType::Directory || t
            == EntryType::SymlinkDirectory) ==> t == EntryType::Unknown,
{
}

} // verus!
