//! What the Windows file-system calls are handed and what they report, as plain numbers: the
//! access rights, share modes, creation dispositions and flags a file is opened with, the
//! permissions an access mask grants, the entry flags of file attributes, and the kind of
//! change a watcher's notification reports.
use vstd::prelude::*;
use crate::fs_types::{
    EntryFlags, FileAccessFlags, FileCreateFlags, OpenMode, Permission, ACCESS_NO_BUFFERING,
    ACCESS_RANDOM_ACCESS, ACCESS_SEQUENTIAL_ACCESS, ACCESS_SUPPORT_ASYNC, ACCESS_WRITE_THROUGH,
    CREATE_ALLOW_BACKUP, CREATE_DELETE_ON_CLOSE, CREATE_ENCRYPTED, CREATE_HIDDEN,
    CREATE_READ_ONLY, ENTRY_ARCHIVE, ENTRY_COMPRESSED, ENTRY_DEVICE, ENTRY_DIRECTORY,
    ENTRY_ENCRYPTED, ENTRY_HIDDEN, ENTRY_NOT_CONTENT_INDEXED, ENTRY_OFFLINE, ENTRY_READ_ONLY,
    ENTRY_RECALL_ON_DATA_ACCESS, ENTRY_RECALL_ON_OPEN, ENTRY_REPARSE_POINT, ENTRY_SPARSE,
    ENTRY_SYSTEM, ENTRY_TEMPORARY, ENTRY_VIRTUAL, PERMISSION_APPEND, PERMISSION_DELETE,
    PERMISSION_EXECUTE, PERMISSION_READ, PERMISSION_WRITE,
};

verus! {

/// Access right `FILE_READ_DATA`.
pub const FILE_READ_DATA: u32 = 0x1;
/// Access right `FILE_WRITE_DATA`.
pub const FILE_WRITE_DATA: u32 = 0x2;
/// Access right `FILE_APPEND_DATA`.
pub const FILE_APPEND_DATA: u32 = 0x4;
/// Access right `FILE_WRITE_EA`.
pub const FILE_WRITE_EA: u32 = 0x10;
/// Access right `FILE_EXECUTE`.
pub const FILE_EXECUTE: u32 = 0x20;
/// Access right `FILE_READ_ATTRIBUTES`.
pub const FILE_READ_ATTRIBUTES: u32 = 0x80;
/// Access right `FILE_WRITE_ATTRIBUTES`.
pub const FILE_WRITE_ATTRIBUTES: u32 = 0x100;
/// Access right `DELETE`.
pub const DELETE: u32 = 0x1_0000;
/// Access rights `FILE_GENERIC_READ`.
pub const FILE_GENERIC_READ: u32 = 0x12_0089;
/// Access rights `FILE_GENERIC_WRITE`.
pub const FILE_GENERIC_WRITE: u32 = 0x12_0116;
/// Access rights `FILE_GENERIC_EXECUTE`.
pub const FILE_GENERIC_EXECUTE: u32 = 0x12_00A0;

/// Share mode `FILE_SHARE_READ`.
pub const FILE_SHARE_READ: u32 = 0x1;
/// Share mode `FILE_SHARE_WRITE`.
pub const FILE_SHARE_WRITE: u32 = 0x2;

/// Creation disposition `CREATE_NEW`.
pub const CREATE_NEW: u32 = 1;
/// Creation disposition `CREATE_ALWAYS`.
pub const CREATE_ALWAYS: u32 = 2;
/// Creation disposition `OPEN_EXISTING`.
pub const OPEN_EXISTING: u32 = 3;
/// Creation disposition `OPEN_ALWAYS`.
pub const OPEN_ALWAYS: u32 = 4;
/// Creation disposition `TRUNCATE_EXISTING`.
pub const TRUNCATE_EXISTING: u32 = 5;

/// Windows file attribute `FILE_ATTRIBUTE_READONLY`.
pub const FILE_ATTRIBUTE_READONLY: u32 = 0x1;

/// Windows file attribute `FILE_ATTRIBUTE_HIDDEN`.
pub const FILE_ATTRIBUTE_HIDDEN: u32 = 0x2;

/// Windows file attribute `FILE_ATTRIBUTE_SYSTEM`.
pub const FILE_ATTRIBUTE_SYSTEM: u32 = 0x4;

/// Windows file attribute `FILE_ATTRIBUTE_DIRECTORY`.
pub const FILE_ATTRIBUTE_DIRECTORY: u32 = 0x10;

/// Windows file attribute `FILE_ATTRIBUTE_ARCHIVE`.
pub const FILE_ATTRIBUTE_ARCHIVE: u32 = 0x20;

/// Windows file attribute `FILE_ATTRIBUTE_DEVICE`.
pub const FILE_ATTRIBUTE_DEVICE: u32 = 0x40;

/// Windows file attribute `FILE_ATTRIBUTE_TEMPORARY`.
pub const FILE_ATTRIBUTE_TEMPORARY: u32 = 0x100;

/// Windows file attribute `FILE_ATTRIBUTE_SPARSE_FILE`.
pub const FILE_ATTRIBUTE_SPARSE_FILE: u32 = 0x200;

/// Windows file attribute `FILE_ATTRIBUTE_REPARSE_POINT`.
pub const FILE_ATTRIBUTE_REPARSE_POINT: u32 = 0x400;

/// Windows file attribute `FILE_ATTRIBUTE_COMPRESSED`.
pub const FILE_ATTRIBUTE_COMPRESSED: u32 = 0x800;

/// Windows file attribute `FILE_ATTRIBUTE_OFFLINE`.
pub const FILE_ATTRIBUTE_OFFLINE: u32 = 0x1000;

/// Windows file attribute `FILE_ATTRIBUTE_NOT_CONTENT_INDEXED`.
pub const FILE_ATTRIBUTE_NOT_CONTENT_INDEXED: u32 = 0x2000;

/// Windows file attribute `FILE_ATTRIBUTE_ENCRYPTED`.
pub const FILE_ATTRIBUTE_ENCRYPTED: u32 = 0x4000;

/// Windows file attribute `FILE_ATTRIBUTE_VIRTUAL`.
pub const FILE_ATTRIBUTE_VIRTUAL: u32 = 0x10000;

/// Windows file attribute `FILE_ATTRIBUTE_RECALL_ON_OPEN`.
pub const FILE_ATTRIBUTE_RECALL_ON_OPEN: u32 = 0x40000;

/// Windows file attribute `FILE_ATTRIBUTE_RECALL_ON_DATA_ACCESS`.
pub const FILE_ATTRIBUTE_RECALL_ON_DATA_ACCESS: u32 = 0x400000;

/// File flag `FILE_FLAG_OPEN_REPARSE_POINT`.
pub const FILE_FLAG_OPEN_REPARSE_POINT: u32 = 0x20_0000;
/// File flag `FILE_FLAG_BACKUP_SEMANTICS`.
pub const FILE_FLAG_BACKUP_SEMANTICS: u32 = 0x200_0000;
/// File flag `FILE_FLAG_DELETE_ON_CLOSE`.
pub const FILE_FLAG_DELETE_ON_CLOSE: u32 = 0x400_0000;
/// File flag `FILE_FLAG_SEQUENTIAL_SCAN`.
pub const FILE_FLAG_SEQUENTIAL_SCAN: u32 = 0x800_0000;
/// File flag `FILE_FLAG_RANDOM_ACCESS`.
pub const FILE_FLAG_RANDOM_ACCESS: u32 = 0x1000_0000;
/// File flag `FILE_FLAG_NO_BUFFERING`.
pub const FILE_FLAG_NO_BUFFERING: u32 = 0x2000_0000;
/// File flag `FILE_FLAG_OVERLAPPED`.
pub const FILE_FLAG_OVERLAPPED: u32 = 0x4000_0000;
/// File flag `FILE_FLAG_WRITE_THROUGH`.
pub const FILE_FLAG_WRITE_THROUGH: u32 = 0x8000_0000;

/// Watcher action `FILE_ACTION_ADDED`.
pub const FILE_ACTION_ADDED: u32 = 1;
/// Watcher action `FILE_ACTION_REMOVED`.
pub const FILE_ACTION_REMOVED: u32 = 2;
/// Watcher action `FILE_ACTION_MODIFIED`.
pub const FILE_ACTION_MODIFIED: u32 = 3;
/// Watcher action `FILE_ACTION_RENAMED_OLD_NAME`.
pub const FILE_ACTION_RENAMED_OLD_NAME: u32 = 4;
/// Watcher action `FILE_ACTION_RENAMED_NEW_NAME`.
pub const FILE_ACTION_RENAMED_NEW_NAME: u32 = 5;

/// All bits of `flags` are set in `value`.
pub open spec fn has_flags(value: u32, flags: u32) -> bool {
    value & flags == flags
}

/// `flags` where `cond` holds, else nothing.
pub open spec fn flag_if(cond: bool, flags: u32) -> u32 {
    if cond {
        flags
    } else {
        0
    }
}

/// The access rights a file is opened with for the permissions asked: generic read, generic
/// write (or appending alone where only append is asked), generic execute, and delete.
pub fn win32_access(perms: Permission) -> (r: u32)
    ensures
        r == flag_if(has_flags(perms.0, PERMISSION_READ), FILE_GENERIC_READ) | (if has_flags(
            perms.0,
            PERMISSION_WRITE,
        ) {
            FILE_GENERIC_WRITE
        } else {
            flag_if(has_flags(perms.0, PERMISSION_APPEND), FILE_APPEND_DATA)
        }) | flag_if(has_flags(perms.0, PERMISSION_EXECUTE), FILE_GENERIC_EXECUTE) | flag_if(
            has_flags(perms.0, PERMISSION_DELETE),
            DELETE,
        ),
{
    let read: u32 = if perms.0 & PERMISSION_READ == PERMISSION_READ { FILE_GENERIC_READ } else { 0 };
    let write: u32 = if perms.0 & PERMISSION_WRITE == PERMISSION_WRITE {
        FILE_GENERIC_WRITE
    } else if perms.0 & PERMISSION_APPEND == PERMISSION_APPEND {
        FILE_APPEND_DATA
    } else {
        0
    };
    let execute: u32 = if perms.0 & PERMISSION_EXECUTE == PERMISSION_EXECUTE {
        FILE_GENERIC_EXECUTE
    } else {
        0
    };
    let delete: u32 = if perms.0 & PERMISSION_DELETE == PERMISSION_DELETE { DELETE } else { 0 };
    read | write | execute | delete
}

/// The share mode a file is opened with for the permissions shared: reading, and writing where
/// writing or appending is shared.  Execute permission cannot be shared.
pub fn win32_share(perms: Permission) -> (r: u32)
    requires
        !has_flags(perms.0, PERMISSION_EXECUTE),
    ensures
        r == flag_if(has_flags(perms.0, PERMISSION_READ), FILE_SHARE_READ) | flag_if(
            has_flags(perms.0, PERMISSION_WRITE) || has_flags(perms.0, PERMISSION_APPEND),
            FILE_SHARE_WRITE,
        ),
{
    let read: u32 = if perms.0 & PERMISSION_READ == PERMISSION_READ { FILE_SHARE_READ } else { 0 };
    let write: u32 = if perms.0 & PERMISSION_WRITE == PERMISSION_WRITE || perms.0 & PERMISSION_APPEND
        == PERMISSION_APPEND {
        FILE_SHARE_WRITE
    } else {
        0
    };
    read | write
}

/// The creation disposition of each open mode.
pub open spec fn disposition_of(mode: OpenMode) -> u32 {
    match mode {
        OpenMode::OpenOrCreate => OPEN_ALWAYS,
        OpenMode::OpenExisting => OPEN_EXISTING,
        OpenMode::CreateNonExisting => CREATE_NEW,
        OpenMode::CreateAlways => CREATE_ALWAYS,
        OpenMode::TruncateExisting => TRUNCATE_EXISTING,
    }
}

/// The creation disposition a file is opened with.
pub fn win32_create_disposition(mode: OpenMode) -> (r: u32)
    ensures
        r == disposition_of(mode),
{
    match mode {
        OpenMode::OpenOrCreate => OPEN_ALWAYS,
        OpenMode::OpenExisting => OPEN_EXISTING,
        OpenMode::CreateNonExisting => CREATE_NEW,
        OpenMode::CreateAlways => CREATE_ALWAYS,
        OpenMode::TruncateExisting => TRUNCATE_EXISTING,
    }
}

/// The attributes and flags a file is created with: one for each creation and access flag
/// asked (backup both archives the file and opens it with backup semantics), and the reparse
/// point itself rather than its target where `open_link` is set.
pub fn win32_file_flags(create: FileCreateFlags, access: FileAccessFlags, open_link: bool) -> (r:
    u32)
    ensures
        r == flag_if(has_flags(create.0, CREATE_READ_ONLY), FILE_ATTRIBUTE_READONLY)
        | flag_if(has_flags(create.0, CREATE_HIDDEN), FILE_ATTRIBUTE_HIDDEN)
        | flag_if(has_flags(create.0, CREATE_ALLOW_BACKUP), FILE_ATTRIBUTE_ARCHIVE)
        | flag_if(has_flags(create.0, CREATE_ENCRYPTED), FILE_ATTRIBUTE_ENCRYPTED)
        | flag_if(has_flags(create.0, CREATE_DELETE_ON_CLOSE), FILE_FLAG_DELETE_ON_CLOSE)
        | flag_if(has_flags(access.0, ACCESS_NO_BUFFERING), FILE_FLAG_NO_BUFFERING)
        | flag_if(has_flags(access.0, ACCESS_SUPPORT_ASYNC), FILE_FLAG_OVERLAPPED)
        | flag_if(has_flags(access.0, ACCESS_RANDOM_ACCESS), FILE_FLAG_RANDOM_ACCESS)
        | flag_if(has_flags(access.0, ACCESS_SEQUENTIAL_ACCESS), FILE_FLAG_SEQUENTIAL_SCAN)
        | flag_if(has_flags(access.0, ACCESS_WRITE_THROUGH), FILE_FLAG_WRITE_THROUGH)
        | flag_if(has_flags(create.0, CREATE_ALLOW_BACKUP), FILE_FLAG_BACKUP_SEMANTICS)
        | flag_if(open_link, FILE_FLAG_OPEN_REPARSE_POINT),
{
    let f0: u32 = if create.0 & CREATE_READ_ONLY == CREATE_READ_ONLY { FILE_ATTRIBUTE_READONLY } else { 0 };
    let f1: u32 = if create.0 & CREATE_HIDDEN == CREATE_HIDDEN { FILE_ATTRIBUTE_HIDDEN } else { 0 };
    let f2: u32 = if create.0 & CREATE_ALLOW_BACKUP == CREATE_ALLOW_BACKUP { FILE_ATTRIBUTE_ARCHIVE } else { 0 };
    let f3: u32 = if create.0 & CREATE_ENCRYPTED == CREATE_ENCRYPTED { FILE_ATTRIBUTE_ENCRYPTED } else { 0 };
    let f4: u32 = if create.0 & CREATE_DELETE_ON_CLOSE == CREATE_DELETE_ON_CLOSE { FILE_FLAG_DELETE_ON_CLOSE } else { 0 };
    let f5: u32 = if access.0 & ACCESS_NO_BUFFERING == ACCESS_NO_BUFFERING { FILE_FLAG_NO_BUFFERING } else { 0 };
    let f6: u32 = if access.0 & ACCESS_SUPPORT_ASYNC == ACCESS_SUPPORT_ASYNC { FILE_FLAG_OVERLAPPED } else { 0 };
    let f7: u32 = if access.0 & ACCESS_RANDOM_ACCESS == ACCESS_RANDOM_ACCESS { FILE_FLAG_RANDOM_ACCESS } else { 0 };
    let f8: u32 = if access.0 & ACCESS_SEQUENTIAL_ACCESS == ACCESS_SEQUENTIAL_ACCESS { FILE_FLAG_SEQUENTIAL_SCAN } else { 0 };
    let f9: u32 = if access.0 & ACCESS_WRITE_THROUGH == ACCESS_WRITE_THROUGH { FILE_FLAG_WRITE_THROUGH } else { 0 };
    let f10: u32 = if create.0 & CREATE_ALLOW_BACKUP == CREATE_ALLOW_BACKUP { FILE_FLAG_BACKUP_SEMANTICS } else { 0 };
    let f11: u32 = if open_link { FILE_FLAG_OPEN_REPARSE_POINT } else { 0 };
    f0 | f1 | f2 | f3 | f4 | f5 | f6 | f7 | f8 | f9 | f10 | f11
}

/// The permissions an access mask grants: each where the mask holds all the rights it needs
/// (reading data and attributes; writing data, attributes and extended attributes; appending;
/// reading data and executing; deleting).
pub fn permissions_from_mask(mask: u32) -> (r: Permission)
    ensures
        r.0 == flag_if(has_flags(mask, FILE_READ_DATA | FILE_READ_ATTRIBUTES), PERMISSION_READ)
            | flag_if(
            has_flags(mask, FILE_WRITE_DATA | FILE_WRITE_ATTRIBUTES | FILE_WRITE_EA),
            PERMISSION_WRITE,
        ) | flag_if(has_flags(mask, FILE_APPEND_DATA), PERMISSION_APPEND) | flag_if(
            has_flags(mask, FILE_READ_DATA | FILE_EXECUTE),
            PERMISSION_EXECUTE,
        ) | flag_if(has_flags(mask, DELETE), PERMISSION_DELETE),
{
    let read_mask: u32 = FILE_READ_DATA | FILE_READ_ATTRIBUTES;
    let write_mask: u32 = FILE_WRITE_DATA | FILE_WRITE_ATTRIBUTES | FILE_WRITE_EA;
    let execute_mask: u32 = FILE_READ_DATA | FILE_EXECUTE;
    let read: u32 = if mask & read_mask == read_mask { PERMISSION_READ } else { 0 };
    let write: u32 = if mask & write_mask == write_mask { PERMISSION_WRITE } else { 0 };
    let append: u32 = if mask & FILE_APPEND_DATA == FILE_APPEND_DATA { PERMISSION_APPEND } else { 0 };
    let execute: u32 = if mask & execute_mask == execute_mask { PERMISSION_EXECUTE } else { 0 };
    let delete: u32 = if mask & DELETE == DELETE { PERMISSION_DELETE } else { 0 };
    Permission(read | write | append | execute | delete)
}

/// The entry flags of a file's attributes: one for each attribute that has one.
pub fn entry_flags_from_attributes(attributes: u32) -> (r: EntryFlags)
    ensures
        r.0 == flag_if(has_flags(attributes, FILE_ATTRIBUTE_READONLY), ENTRY_READ_ONLY)
        | flag_if(has_flags(attributes, FILE_ATTRIBUTE_HIDDEN), ENTRY_HIDDEN)
        | flag_if(has_flags(attributes, FILE_ATTRIBUTE_SYSTEM), ENTRY_SYSTEM)
        | flag_if(has_flags(attributes, FILE_ATTRIBUTE_DIRECTORY), ENTRY_DIRECTORY)
        | flag_if(has_flags(attributes, FILE_ATTRIBUTE_ARCHIVE), ENTRY_ARCHIVE)
        | flag_if(has_flags(attributes, FILE_ATTRIBUTE_DEVICE), ENTRY_DEVICE)
        | flag_if(has_flags(attributes, FILE_ATTRIBUTE_TEMPORARY), ENTRY_TEMPORARY)
        | flag_if(has_flags(attributes, FILE_ATTRIBUTE_SPARSE_FILE), ENTRY_SPARSE)
        | flag_if(has_flags(attributes, FILE_ATTRIBUTE_REPARSE_POINT), ENTRY_REPARSE_POINT)
        | flag_if(has_flags(attributes, FILE_ATTRIBUTE_COMPRESSED), ENTRY_COMPRESSED)
        | flag_if(has_flags(attributes, FILE_ATTRIBUTE_OFFLINE), ENTRY_OFFLINE)
        | flag_if(has_flags(attributes, FILE_ATTRIBUTE_NOT_CONTENT_INDEXED), ENTRY_NOT_CONTENT_INDEXED)
        | flag_if(has_flags(attributes, FILE_ATTRIBUTE_ENCRYPTED), ENTRY_ENCRYPTED)
        | flag_if(has_flags(attributes, FILE_ATTRIBUTE_VIRTUAL), ENTRY_VIRTUAL)
        | flag_if(has_flags(attributes, FILE_ATTRIBUTE_RECALL_ON_OPEN), ENTRY_RECALL_ON_OPEN)
        | flag_if(has_flags(attributes, FILE_ATTRIBUTE_RECALL_ON_DATA_ACCESS), ENTRY_RECALL_ON_DATA_ACCESS),
{
    let a0: u32 = if attributes & FILE_ATTRIBUTE_READONLY == FILE_ATTRIBUTE_READONLY { ENTRY_READ_ONLY } else { 0 };
    let a1: u32 = if attributes & FILE_ATTRIBUTE_HIDDEN == FILE_ATTRIBUTE_HIDDEN { ENTRY_HIDDEN } else { 0 };
    let a2: u32 = if attributes & FILE_ATTRIBUTE_SYSTEM == FILE_ATTRIBUTE_SYSTEM { ENTRY_SYSTEM } else { 0 };
    let a3: u32 = if attributes & FILE_ATTRIBUTE_DIRECTORY == FILE_ATTRIBUTE_DIRECTORY { ENTRY_DIRECTORY } else { 0 };
    let a4: u32 = if attributes & FILE_ATTRIBUTE_ARCHIVE == FILE_ATTRIBUTE_ARCHIVE { ENTRY_ARCHIVE } else { 0 };
    let a5: u32 = if attributes & FILE_ATTRIBUTE_DEVICE == FILE_ATTRIBUTE_DEVICE { ENTRY_DEVICE } else { 0 };
    let a6: u32 = if attributes & FILE_ATTRIBUTE_TEMPORARY == FILE_ATTRIBUTE_TEMPORARY { ENTRY_TEMPORARY } else { 0 };
    let a7: u32 = if attributes & FILE_ATTRIBUTE_SPARSE_FILE == FILE_ATTRIBUTE_SPARSE_FILE { ENTRY_SPARSE } else { 0 };
    let a8: u32 = if attributes & FILE_ATTRIBUTE_REPARSE_POINT == FILE_ATTRIBUTE_REPARSE_POINT { ENTRY_REPARSE_POINT } else { 0 };
    let a9: u32 = if attributes & FILE_ATTRIBUTE_COMPRESSED == FILE_ATTRIBUTE_COMPRESSED { ENTRY_COMPRESSED } else { 0 };
    let a10: u32 = if attributes & FILE_ATTRIBUTE_OFFLINE == FILE_ATTRIBUTE_OFFLINE { ENTRY_OFFLINE } else { 0 };
    let a11: u32 = if attributes & FILE_ATTRIBUTE_NOT_CONTENT_INDEXED == FILE_ATTRIBUTE_NOT_CONTENT_INDEXED { ENTRY_NOT_CONTENT_INDEXED } else { 0 };
    let a12: u32 = if attributes & FILE_ATTRIBUTE_ENCRYPTED == FILE_ATTRIBUTE_ENCRYPTED { ENTRY_ENCRYPTED } else { 0 };
    let a13: u32 = if attributes & FILE_ATTRIBUTE_VIRTUAL == FILE_ATTRIBUTE_VIRTUAL { ENTRY_VIRTUAL } else { 0 };
    let a14: u32 = if attributes & FILE_ATTRIBUTE_RECALL_ON_OPEN == FILE_ATTRIBUTE_RECALL_ON_OPEN { ENTRY_RECALL_ON_OPEN } else { 0 };
    let a15: u32 = if attributes & FILE_ATTRIBUTE_RECALL_ON_DATA_ACCESS == FILE_ATTRIBUTE_RECALL_ON_DATA_ACCESS { ENTRY_RECALL_ON_DATA_ACCESS } else { 0 };
    EntryFlags(a0 | a1 | a2 | a3 | a4 | a5 | a6 | a7 | a8 | a9 | a10 | a11 | a12 | a13 | a14 | a15)
}

/// The kind of change a watcher's notification reports.
#[derive(Clone, Copy, PartialEq, Eq, Debug, Structural)]
pub enum ChangeKind {
    FileAdded,
    FileDeleted,
    FileModified,
    FileRenamed,
    DirAdded,
    DirDeleted,
    DirModified,
    DirRenamed,
    /// The old name of a renamed entry; its new name follows in the next notification.
    RenameFrom,
}

/// The change an action reports on an entry with the given attributes: a directory where the
/// directory attribute is set, else a file.
pub open spec fn change_kind_of(action: u32, attributes: u32) -> Option<ChangeKind> {
    let dir = has_flags(attributes, FILE_ATTRIBUTE_DIRECTORY);
    if action == FILE_ACTION_ADDED {
        Some(if dir { ChangeKind::DirAdded } else { ChangeKind::FileAdded })
    } else if action == FILE_ACTION_REMOVED {
        Some(if dir { ChangeKind::DirDeleted } else { ChangeKind::FileDeleted })
    } else if action == FILE_ACTION_MODIFIED {
        Some(if dir { ChangeKind::DirModified } else { ChangeKind::FileModified })
    } else if action == FILE_ACTION_RENAMED_OLD_NAME {
        Some(ChangeKind::RenameFrom)
    } else if action == FILE_ACTION_RENAMED_NEW_NAME {
        Some(if dir { ChangeKind::DirRenamed } else { ChangeKind::FileRenamed })
    } else {
        None
    }
}

/// The kind of change a watcher's notification reports; none for an action the platform does
/// not define.
pub fn change_kind(action: u32, attributes: u32) -> (r: Option<ChangeKind>)
    ensures
        r == change_kind_of(action, attributes),
{
    let dir = attributes & FILE_ATTRIBUTE_DIRECTORY == FILE_ATTRIBUTE_DIRECTORY;
    if action == FILE_ACTION_ADDED {
        Some(if dir { ChangeKind::DirAdded } else { ChangeKind::FileAdded })
    } else if action == FILE_ACTION_REMOVED {
        Some(if dir { ChangeKind::DirDeleted } else { ChangeKind::FileDeleted })
    } else if action == FILE_ACTION_MODIFIED {
        Some(if dir { ChangeKind::DirModified } else { ChangeKind::FileModified })
    } else if action == FILE_ACTION_RENAMED_OLD_NAME {
        Some(ChangeKind::RenameFrom)
    } else if action == FILE_ACTION_RENAMED_NEW_NAME {
        Some(if dir { ChangeKind::DirRenamed } else { ChangeKind::FileRenamed })
    } else {
        None
    }
}

} // verus!
