use onca::fs_types::{
    FileAccessFlags, FileCreateFlags, OpenMode, Permission, ACCESS_SUPPORT_ASYNC,
    CREATE_ALLOW_BACKUP, ENTRY_DIRECTORY, ENTRY_REPARSE_POINT, PERMISSION_APPEND,
    PERMISSION_DELETE, PERMISSION_EXECUTE, PERMISSION_READ, PERMISSION_WRITE,
};
use onca::win32_flags::{
    change_kind, entry_flags_from_attributes, permissions_from_mask, win32_access,
    win32_create_disposition, win32_file_flags, win32_share, ChangeKind,
};

#[test]
fn access_rights_for_permissions() {
    assert_eq!(win32_access(Permission(PERMISSION_READ | PERMISSION_APPEND)), 0x12_0089 | 0x4);
    assert_eq!(win32_access(Permission(PERMISSION_WRITE | PERMISSION_APPEND)), 0x12_0116);
    assert_eq!(win32_access(Permission(PERMISSION_EXECUTE | PERMISSION_DELETE)), 0x12_00A0 | 0x1_0000);
    assert_eq!(win32_access(Permission(0)), 0);
}

#[test]
fn share_modes_for_permissions() {
    assert_eq!(win32_share(Permission(PERMISSION_READ | PERMISSION_APPEND)), 0x3);
    assert_eq!(win32_share(Permission(PERMISSION_WRITE)), 0x2);
    assert_eq!(win32_share(Permission(PERMISSION_DELETE)), 0);
}

#[test]
fn creation_dispositions_and_file_flags() {
    assert_eq!(win32_create_disposition(OpenMode::OpenOrCreate), 4);
    assert_eq!(win32_create_disposition(OpenMode::CreateNonExisting), 1);
    assert_eq!(win32_create_disposition(OpenMode::TruncateExisting), 5);
    assert_eq!(
        win32_file_flags(FileCreateFlags(CREATE_ALLOW_BACKUP), FileAccessFlags(ACCESS_SUPPORT_ASYNC), true),
        0x20 | 0x200_0000 | 0x4000_0000 | 0x20_0000
    );
    assert_eq!(win32_file_flags(FileCreateFlags(0), FileAccessFlags(0), false), 0);
}

#[test]
fn permissions_granted_by_a_mask() {
    assert_eq!(permissions_from_mask(0x1F_01FF).0, 0x1F);
    // reading needs the attributes too
    assert_eq!(permissions_from_mask(0x1).0, 0);
    assert_eq!(permissions_from_mask(0x81).0, PERMISSION_READ);
    assert_eq!(permissions_from_mask(0x21).0, PERMISSION_EXECUTE);
}

#[test]
fn entry_flags_of_attributes() {
    assert_eq!(entry_flags_from_attributes(0x10 | 0x400).0, ENTRY_DIRECTORY | ENTRY_REPARSE_POINT);
    assert_eq!(entry_flags_from_attributes(0x80).0, 0);
    assert_eq!(entry_flags_from_attributes(0x40_0000).0, 0x8000);
}

#[test]
fn watcher_actions() {
    assert_eq!(change_kind(1, 0x10), Some(ChangeKind::DirAdded));
    assert_eq!(change_kind(1, 0x20), Some(ChangeKind::FileAdded));
    assert_eq!(change_kind(2, 0x10), Some(ChangeKind::DirDeleted));
    assert_eq!(change_kind(3, 0), Some(ChangeKind::FileModified));
    assert_eq!(change_kind(4, 0x10), Some(ChangeKind::RenameFrom));
    assert_eq!(change_kind(5, 0x10), Some(ChangeKind::DirRenamed));
    assert_eq!(change_kind(9, 0), None);
}
