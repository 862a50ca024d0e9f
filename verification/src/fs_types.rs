//! Plain data of the file-system API: open modes, flags, metadata and change reports.
use vstd::prelude::*;
use crate::entry::EntryType;
use crate::path_buf::PathBuf;
use crate::name_filter::{filter_spec, NameFilter, NameFilterView};

verus! {

/// File open mode.
#[derive(Clone, Copy, PartialEq, Eq, Debug, Structural)]
pub enum OpenMode {
    /// Create a file if one does not exists, otherwise just open it.
    OpenOrCreate,
    /// Open a file if it exists, return an error otherwise.
    OpenExisting,
    /// Only create a new file if no file exists, return an error otherwise.
    CreateNonExisting,
    /// Always create the file, if it already exists, truncate the content of the file.
    CreateAlways,
    /// Opens a file and truncates it if it exists, returns an error otherwise.
    TruncateExisting,
}

impl Default for OpenMode {
    fn default() -> (r: Self)
        ensures
            r == OpenMode::OpenOrCreate,
    {
        OpenMode::OpenOrCreate
    }
}

/// How a view of a memory-mapped file may be accessed.
#[derive(Clone, Copy, PartialEq, Eq, Debug, Structural)]
pub enum MappedViewAccess {
    Read,
    ReadWrite,
}

/// Memory tags of the file system.
#[derive(Clone, Copy, PartialEq, Eq, Debug, Structural)]
pub enum FsMemTag {
    General,
    Temporary,
    Path,
    Async,
}

/// The memory category of the file system.
pub const FS_MEM_TAG_CATEGORY: u8 = 1;

/// File creation flags, as a set of flags.
#[derive(Clone, Copy, PartialEq, Eq, Debug, Default, Structural)]
pub struct FileCreateFlags(pub u32);

/// The file is read-only.
pub const CREATE_READ_ONLY: u32 = 0x1;

/// The file is hidden.
pub const CREATE_HIDDEN: u32 = 0x2;

/// The file can be backed up.
pub const CREATE_ALLOW_BACKUP: u32 = 0x4;

/// The file can be encrypted.
pub const CREATE_ENCRYPTED: u32 = 0x8;

/// Delete the file when closed (needs the delete share mode).
pub const CREATE_DELETE_ON_CLOSE: u32 = 0x10;

/// File access flags, as a set of flags.
#[derive(Clone, Copy, PartialEq, Eq, Debug, Default, Structural)]
pub struct FileAccessFlags(pub u32);

/// Disable OS file buffering of the file.
pub const ACCESS_NO_BUFFERING: u32 = 0x1;

/// Support asynchronous file I/O.
pub const ACCESS_SUPPORT_ASYNC: u32 = 0x2;

/// Hint that the file will be accessed randomly.
pub const ACCESS_RANDOM_ACCESS: u32 = 0x4;

/// Hint that the file will be accessed from begin to end.
pub const ACCESS_SEQUENTIAL_ACCESS: u32 = 0x8;

/// Skip drive caching and write directly to the drive.
pub const ACCESS_WRITE_THROUGH: u32 = 0x10;

/// Allow the file to be memory mapped.
pub const ACCESS_MEMORY_MAPPABLE: u32 = 0x20;

/// File watcher change filter, as a set of flags.
#[derive(Clone, Copy, PartialEq, Eq, Debug, Default, Structural)]
pub struct FileWatcherFilter(pub u32);

/// Watch for any file being added.
pub const WATCH_FILE_ADDED: u32 = 0x1;

/// Watch for any file being deleted.
pub const WATCH_FILE_DELETED: u32 = 0x2;

/// Watch for any file being renamed.
pub const WATCH_FILE_RENAME: u32 = 0x4;

/// Watch for any directory being added.
pub const WATCH_DIR_ADDED: u32 = 0x8;

/// Watch for any directory being deleted.
pub const WATCH_DIR_DELETED: u32 = 0x10;

/// Watch for any directory being renamed.
pub const WATCH_DIR_RENAME: u32 = 0x20;

/// Watch for any attribute changes.
pub const WATCH_ATTRIBUTES: u32 = 0x40;

/// Watch for any file size changes.
pub const WATCH_SIZE: u32 = 0x80;

/// Watch for any last write time changes.
pub const WATCH_LAST_WRITE: u32 = 0x100;

/// Watch for any last access time changes.
pub const WATCH_LAST_ACCESS: u32 = 0x200;

/// Watch for directory/file creation.
pub const WATCH_CREATION: u32 = 0x400;

/// Flags of a file system entry's metadata, as a set of flags.
#[derive(Clone, Copy, PartialEq, Eq, Debug, Default, Structural)]
pub struct EntryFlags(pub u32);

/// The entry is read-only.
pub const ENTRY_READ_ONLY: u32 = 0x1;

/// The entry is hidden.
pub const ENTRY_HIDDEN: u32 = 0x2;

/// The operating system uses the entry.
pub const ENTRY_SYSTEM: u32 = 0x4;

/// The entry is a directory.
pub const ENTRY_DIRECTORY: u32 = 0x8;

/// The entry is marked for backup or removal.
pub const ENTRY_ARCHIVE: u32 = 0x10;

/// The entry represents a device.
pub const ENTRY_DEVICE: u32 = 0x20;

/// The file is used for temporary storage.
pub const ENTRY_TEMPORARY: u32 = 0x40;

/// The file is sparse.
pub const ENTRY_SPARSE: u32 = 0x80;

/// The entry has a reparse point, or is a symbolic link.
pub const ENTRY_REPARSE_POINT: u32 = 0x100;

/// The entry is compressed.
pub const ENTRY_COMPRESSED: u32 = 0x200;

/// The data of the file is not immediately available.
pub const ENTRY_OFFLINE: u32 = 0x400;

/// The entry is not to be indexed by content indexing.
pub const ENTRY_NOT_CONTENT_INDEXED: u32 = 0x800;

/// The entry is encrypted.
pub const ENTRY_ENCRYPTED: u32 = 0x1000;

/// The entry is virtual and does not exist on the drive.
pub const ENTRY_VIRTUAL: u32 = 0x2000;

/// The entry has no physical representation on the local system.
pub const ENTRY_RECALL_ON_OPEN: u32 = 0x4000;

/// The entry is not fully present locally.
pub const ENTRY_RECALL_ON_DATA_ACCESS: u32 = 0x8000;

/// The file is append only.
pub const ENTRY_APPEND_ONLY: u32 = 0x10000;

/// The file is marked for delete.
pub const ENTRY_MARKED_FOR_DELETE: u32 = 0x20000;

/// File/directory permissions of the user, as a set of flags.
#[derive(Clone, Copy, PartialEq, Eq, Debug, Default, Structural)]
pub struct Permission(pub u32);

/// Allow the file to be read from.
pub const PERMISSION_READ: u32 = 0x1;

/// Allow the file to be appended to.
pub const PERMISSION_APPEND: u32 = 0x2;

/// Allow the file to be written to (implicitly includes appending).
pub const PERMISSION_WRITE: u32 = 0x4;

/// Allow the file to be executed.
pub const PERMISSION_EXECUTE: u32 = 0x8;

/// Allow the file to be deleted.
pub const PERMISSION_DELETE: u32 = 0x10;

/// Storage flags, as a set of flags.
#[derive(Clone, Copy, PartialEq, Eq, Debug, Default, Structural)]
pub struct StorageFlags(pub u32);

/// The logical sectors are aligned to physical sector boundaries.
pub const STORAGE_ALIGNED_DEVICE: u32 = 0x1;

/// The partition is aligned to physical sector boundaries.
pub const STORAGE_PARTITION_ALIGNED_ON_DEVICE: u32 = 0x2;

/// Volume and file id.
#[derive(Clone, Copy, PartialEq, Eq, Debug, Default, Structural)]
pub struct VolumeFileId {
    /// Volume id.
    pub volume_id: u64,
    /// File id (a 128-bit GUID).
    pub file_id: u128,
}

/// Number of file links.
#[derive(Clone, Copy, PartialEq, Eq, Debug, Structural)]
pub enum FileLinkCount {
    /// Unknown number of file links.
    Unknown,
    /// Known (non-zero) number of file links.
    Known(u32),
}

/// File time.
#[derive(Clone, Copy, PartialEq, Eq, Default, Debug, Structural)]
pub struct FileTime(pub u64);

/// File storage info.
#[derive(Clone, Copy, Debug)]
pub struct StorageInfo {
    /// Storage flags
    pub flags: StorageFlags,
    /// Logical bytes per sector reported by physical storage.
    pub logical_bytes_per_sector: u32,
    /// Bytes per sector for atomic writes.
    pub physical_bytes_per_sector_for_atomicity: u32,
    /// Bytes per sector for optimal performance for writes.
    pub physical_bytes_per_sector_for_performance: u32,
    /// The size of the block used for atomicity by the file system.
    pub effective_physical_bytes_per_sector_for_atomicity: u32,
    /// Logical sector offset within the first physical sector where the first logical sector is placed (in bytes).
    pub byte_offset_per_sector_alignment: Option<u32>,
    /// Offset used to align the partition to a physical sector boundary on the storage device (in bytes).
    pub byte_offset_for_partition_alignment: Option<u32>,
}

/// An alignment offset as the platform reports it: all ones means there is none.
pub fn alignment_offset(raw: u32) -> (r: Option<u32>)
    ensures
        r == if raw == u32::MAX {
            None
        } else {
            Some(raw)
        },
{
    if raw == u32::MAX {
        None
    } else {
        Some(raw)
    }
}

/// File/directory metadata.
#[derive(Clone, Copy, Debug)]
pub struct MetaData {
    /// Entry type.
    pub entry_type: EntryType,
    /// Flags.
    pub flags: EntryFlags,
    /// File creation time.
    pub creation_time: FileTime,
    /// File last access time.
    pub last_access_time: FileTime,
    /// File last write time.
    pub last_write_time: FileTime,
    /// File last change time.
    pub last_change_time: FileTime,
    /// Size of the (uncompressed) file.
    pub file_size: u64,
    /// Amount of space allocated for the file.
    pub alloc_size: u64,
    /// Size of the compressed file; `None` when the file is not compressed.
    pub compressed_size: Option<u64>,
    /// Number of links to the file.
    pub num_links: FileLinkCount,
    /// Minimum alignment of the file (in bytes).
    pub min_align: u32,
    /// Volume and file id.
    pub volume_file_id: VolumeFileId,
    /// File storage info
    pub storage_info: Option<StorageInfo>,
}

/// Metadata of a changed file, as a file watcher reports it.
#[derive(Clone, Copy, Debug)]
pub struct FileChangeMetadata {
    /// Entry type.
    pub entry_type: EntryType,
    /// Flags.
    pub flags: EntryFlags,
    /// File creation time.
    pub creation_time: FileTime,
    /// File last access time.
    pub last_access_time: FileTime,
    /// File last write time.
    pub last_write_time: FileTime,
    /// Size of the file.
    pub file_size: u64,
    /// Amount of space allocated for the file.
    pub alloc_size: u64,
}

/// File watcher change info.
#[derive(Debug)]
pub enum FileChangeInfo {
    /// A file was added
    FileAdded(PathBuf),
    /// A file was deleted
    FileDeleted(PathBuf),
    /// A file was renamed from `old` to `new`
    FileRenamed { old: PathBuf, new: PathBuf },
    /// A file was modified
    FileModified { path: PathBuf, metadata: FileChangeMetadata },
    /// A directory was added
    DirAdded(PathBuf),
    /// A directory was removed
    DirDeleted(PathBuf),
    /// A directory was renamed
    DirRenamed { old: PathBuf, new: PathBuf },
    /// A directory was modified
    DirModified { path: PathBuf, metadata: FileChangeMetadata },
}

/// The 64-bit number made of a high and a low 32-bit half, as the platform reports sizes and
/// times.
pub fn high_low_to_u64(high: u32, low: u32) -> (r: u64)
    ensures
        r == high * 0x1_0000_0000 + low,
{
    let r = ((high as u64) << 32) | (low as u64);
    assert(r == high * 0x1_0000_0000 + low) by (bit_vector)
        requires
            r == ((high as u64) << 32) | (low as u64),
    ;
    r
}

impl FileWatcherFilter {
    /// All flags of `other` are set in `self`.
    pub fn contains(self, other: FileWatcherFilter) -> (r: bool)
        ensures
            r == (self.0 & other.0 == other.0),
    {
        self.0 & other.0 == other.0
    }
}

/// The flags a change of metadata is watched with: attributes, size, creation, last access
/// and last write, all of them.
pub const WATCH_METADATA: u32 = WATCH_ATTRIBUTES | WATCH_SIZE | WATCH_CREATION | WATCH_LAST_ACCESS
    | WATCH_LAST_WRITE;

/// The flags a watcher needs for a change to be reported.
pub open spec fn change_flags(c: FileChangeInfo) -> u32 {
    match c {
        FileChangeInfo::FileAdded(_) => WATCH_FILE_ADDED,
        FileChangeInfo::FileDeleted(_) => WATCH_FILE_DELETED,
        FileChangeInfo::FileRenamed { .. } => WATCH_FILE_RENAME,
        FileChangeInfo::FileModified { .. } => WATCH_METADATA,
        FileChangeInfo::DirAdded(_) => WATCH_DIR_ADDED,
        FileChangeInfo::DirDeleted(_) => WATCH_DIR_DELETED,
        FileChangeInfo::DirRenamed { .. } => WATCH_DIR_RENAME,
        FileChangeInfo::DirModified { .. } => WATCH_METADATA,
    }
}

/// The paths a change names: one, or the old and the new one of a rename.
pub open spec fn change_paths(c: FileChangeInfo) -> (Seq<u8>, Option<Seq<u8>>) {
    match c {
        FileChangeInfo::FileAdded(p) => (p@, None),
        FileChangeInfo::FileDeleted(p) => (p@, None),
        FileChangeInfo::FileRenamed { old, new } => (old@, Some(new@)),
        FileChangeInfo::FileModified { path, .. } => (path@, None),
        FileChangeInfo::DirAdded(p) => (p@, None),
        FileChangeInfo::DirDeleted(p) => (p@, None),
        FileChangeInfo::DirRenamed { old, new } => (old@, Some(new@)),
        FileChangeInfo::DirModified { path, .. } => (path@, None),
    }
}

/// Can the name filter check the paths of a change, as far as they are looked at: none
/// where the flags are not watched, and the new path of a rename only where the old one
/// does not pass?
pub open spec fn change_checkable(filter: FileWatcherFilter, f: NameFilterView, c: FileChangeInfo) -> bool {
    let (first, second) = change_paths(c);
    filter.0 & change_flags(c) == change_flags(c) ==> (filter_spec(f, first) is Some && (second matches Some(
        q,
    ) ==> (filter_spec(f, first)->0 || filter_spec(f, q) is Some)))
}

/// Is a change reported: are its flags watched, and does its path pass the name filter (for
/// a rename, the old or the new one)?
pub open spec fn change_reported(filter: FileWatcherFilter, f: NameFilterView, c: FileChangeInfo) -> bool {
    let (first, second) = change_paths(c);
    filter.0 & change_flags(c) == change_flags(c) && (filter_spec(f, first)->0 || (second matches Some(q)
        && filter_spec(f, q)->0))
}

/// Is the change reported by a watcher with these filters?
pub fn change_passes(filter: FileWatcherFilter, name_filter: &NameFilter, change: &FileChangeInfo) -> (r: bool)
    requires
        change_checkable(filter, name_filter@, *change),
    ensures
        r == change_reported(filter, name_filter@, *change),
{
    match change {
        FileChangeInfo::FileAdded(path) => filter.contains(FileWatcherFilter(WATCH_FILE_ADDED))
            && name_filter.filter(path.as_path().as_str()),
        FileChangeInfo::FileDeleted(path) => filter.contains(FileWatcherFilter(WATCH_FILE_DELETED))
            && name_filter.filter(path.as_path().as_str()),
        FileChangeInfo::FileRenamed { old, new } => filter.contains(FileWatcherFilter(WATCH_FILE_RENAME))
            && (name_filter.filter(old.as_path().as_str()) || name_filter.filter(new.as_path().as_str())),
        FileChangeInfo::FileModified { path, .. } => filter.contains(FileWatcherFilter(WATCH_METADATA))
            && name_filter.filter(path.as_path().as_str()),
        FileChangeInfo::DirAdded(path) => filter.contains(FileWatcherFilter(WATCH_DIR_ADDED))
            && name_filter.filter(path.as_path().as_str()),
        FileChangeInfo::DirDeleted(path) => filter.contains(FileWatcherFilter(WATCH_DIR_DELETED))
            && name_filter.filter(path.as_path().as_str()),
        FileChangeInfo::DirRenamed { old, new } => filter.contains(FileWatcherFilter(WATCH_DIR_RENAME))
            && (name_filter.filter(old.as_path().as_str()) || name_filter.filter(new.as_path().as_str())),
        FileChangeInfo::DirModified { path, .. } => filter.contains(FileWatcherFilter(WATCH_METADATA))
            && name_filter.filter(path.as_path().as_str()),
    }
}

/// A watcher that watches every kind of change, with no name filter, reports every change;
/// one that watches no kind of change reports none.
pub proof fn law_watch_all_or_nothing(c: FileChangeInfo)
    ensures
        change_reported(FileWatcherFilter(0x7FF), NameFilterView::Any, c),
        !change_reported(FileWatcherFilter(0), NameFilterView::Any, c),
{
    let all: u32 = 0x7FF;
    let none: u32 = 0;
    assert(all & WATCH_METADATA == WATCH_METADATA && all & WATCH_FILE_ADDED == WATCH_FILE_ADDED
        && all & WATCH_FILE_DELETED == WATCH_FILE_DELETED && all & WATCH_FILE_RENAME == WATCH_FILE_RENAME
        && all & WATCH_DIR_ADDED == WATCH_DIR_ADDED && all & WATCH_DIR_DELETED == WATCH_DIR_DELETED
        && all & WATCH_DIR_RENAME == WATCH_DIR_RENAME) by (bit_vector)
        requires
            all == 0x7FFu32,
    ;
    assert(none & WATCH_METADATA != WATCH_METADATA && none & WATCH_FILE_ADDED != WATCH_FILE_ADDED
        && none & WATCH_FILE_DELETED != WATCH_FILE_DELETED && none & WATCH_FILE_RENAME != WATCH_FILE_RENAME
        && none & WATCH_DIR_ADDED != WATCH_DIR_ADDED && none & WATCH_DIR_DELETED != WATCH_DIR_DELETED
        && none & WATCH_DIR_RENAME != WATCH_DIR_RENAME) by (bit_vector)
        requires
            none == 0u32,
    ;
}

} // verus!
