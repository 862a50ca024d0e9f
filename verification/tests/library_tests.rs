use std::cmp::Ordering;
use std::hash::Hasher;
use onca::entry::EntryType;
use onca::hid_usages::{HidUsage, HidUsagePage, Usage, UsageId, UsagePageId};
use onca::input_definitions::{
    DefinitionKind, UsageDef, DEFINITION_GAMEPAD, DEFINITION_NONE, DEFINITION_SENSOR,
    DEFINITION_TOUCH,
};
use onca::name_filter::NameFilter;
use onca::fs_types::{
    change_passes, EntryFlags, FileChangeInfo, FileChangeMetadata, FileTime, FileWatcherFilter,
    WATCH_FILE_ADDED, WATCH_FILE_RENAME, WATCH_METADATA, WATCH_SIZE,
};
use onca::normalize::NormalizeError;
use onca::path::{Path, PathForm, StripPrefixError};
use onca::path_buf::PathBuf;
use onca::path_component::{Component, VFSComponent, VFSMacro, VFSPart};
use onca::path_root::{parse_root, Root};
use onca::vfs::{
    MountPoint, SubSystemSupport, SUPPORT_CREATE_DELETE_DIRECTORY, SUPPORT_CREATE_DELETE_FILE,
    SUPPORT_FILEWATCHER,
};

fn p(s: &str) -> Path<'_> {
    Path::new(s).unwrap()
}

#[test]
fn invalid_path_messages() {
    let e = Path::new("").unwrap_err();
    assert_eq!(e.0 .0, "A path slice cannot be empty.");
    assert_eq!(e.0 .1, 0);
    let e = Path::new("a/b:").unwrap_err();
    assert_eq!(e.0 .0, "Path contains invalid `:`");
    let e = Path::new("a|b").unwrap_err();
    assert_eq!(e.0 .1, 1);
    let e = Path::new("a<b").unwrap_err();
    assert_eq!(e.0 .0, "Macro has not been closed");
    assert_eq!(e.0 .1, 3);
    let e = Path::new("a>b").unwrap_err();
    assert_eq!(e.0 .0, "Invalid macro start");
    // a wildcard is allowed after the first separator only
    assert!(Path::new("a/b*").is_ok());
    assert!(Path::new("b*").is_err());
}

#[test]
fn parse_root_kinds() {
    assert_eq!(parse_root("c:/x"), Some(Root::Drive(b'C')));
    assert_eq!(parse_root("/x"), Some(Root::Common));
    assert_eq!(parse_root("\\\\srv\\shr\\x"), Some(Root::WinShare { server: "srv", share: "shr" }));
    assert_eq!(parse_root("mnt:/x"), Some(Root::VFS("mnt")));
    assert_eq!(parse_root("x/y:z"), None);
    assert_eq!(Root::WinShare { server: "srv", share: "shr" }.len(), 9);
    assert_eq!(Root::WinShare { server: "server", share: "share" }.len(), 14);
    assert_eq!(Root::WinShare { server: "srv", share: "" }.len(), 5);
    assert_eq!(parse_root("vfs:").unwrap().len(), 4);
    assert_eq!(Root::Drive(b'C').len(), 2);
    assert_eq!(Root::VFS("mnt").len(), 4);
}

#[test]
fn path_equality_by_components() {
    assert_eq!(p("a/b/"), p("a/b"));
    assert_eq!(p("a//b"), p("a/b"));
    assert_ne!(p("./a/b"), p("a/b"));
    assert_eq!(p("./a/b"), p("./a//b/"));
    assert_ne!(p("a/b"), p("a/c"));
    assert_ne!(p("a/b"), p("a/b/c"));
    assert_eq!(p("c:/a"), p("C:/a"));
    let a = PathBuf::from_str("a/b").unwrap();
    let b = PathBuf::from_str("a/b/").unwrap();
    assert!(a != b);
    assert_eq!(a, PathBuf::from_path(p("a/b")));
}

#[test]
fn components_and_iter() {
    let path = p("C:/a/./b/../c");
    let mut comps = path.components();
    assert!(matches!(comps.next(), Some(Component::Root(_))));
    assert_eq!(comps.next(), Some(Component::Normal("a")));
    assert_eq!(comps.next(), Some(Component::Normal("b")));
    assert_eq!(comps.next(), Some(Component::ParentDir));
    assert_eq!(comps.next(), Some(Component::Normal("c")));
    assert_eq!(comps.next(), None);

    let mut it = p("./a/b").iter();
    assert_eq!(it.next(), Some("."));
    assert_eq!(it.next_back(), Some("b"));
    assert_eq!(it.as_path().as_str(), "a");
    assert_eq!(Component::ParentDir.as_str(), "..");
    assert_eq!(Component::CurDir.as_str(), ".");
}

#[test]
fn parent_and_ancestors() {
    assert_eq!(p("/").parent(), None);
    assert_eq!(p("/a").parent(), Some(p("/")));
    assert_eq!(p("a/b/").parent(), Some(p("a")));
    assert_eq!(p("a").parent(), None);
    let path = p("C:/x/y");
    let mut anc = path.ancestors();
    assert_eq!(anc.next(), Some(p("C:/x/y")));
    assert_eq!(anc.next(), Some(p("C:/x")));
    assert_eq!(anc.next(), Some(p("C:/")));
    assert_eq!(anc.next(), None);
}

#[test]
fn file_name_parts() {
    let path = p("dir/.hidden");
    assert_eq!(path.file_name(), Some(".hidden"));
    assert_eq!(path.file_stem(), Some(".hidden"));
    assert_eq!(path.extension(), None);
    assert_eq!(path.file_prefix(), Some(".hidden"));
    let path = p("dir/archive.tar.gz");
    assert_eq!(path.file_stem(), Some("archive.tar"));
    assert_eq!(path.extension(), Some("gz"));
    assert_eq!(path.file_prefix(), Some("archive"));
    assert_eq!(p("dir/..").file_name(), None);
    assert_eq!(p("dir/ünï.cödé").extension(), Some("cödé"));
    assert_eq!(p("dir/ünï.cödé").file_prefix(), Some("ünï"));
}

#[test]
fn prefixes_and_suffixes() {
    let path = p("a/b/c");
    assert!(path.starts_with(p("a")));
    assert!(path.starts_with(path));
    assert!(!path.starts_with(p("a/c")));
    assert!(path.ends_with(p("b/c")));
    assert!(!path.ends_with(p("a/b")));
    assert_eq!(path.strip_prefix(p("a/b")), Ok(p("c")));
    assert_eq!(path.strip_prefix(p("b")), Err(StripPrefixError(())));
}

#[test]
fn path_kinds_and_forms() {
    assert!(p("//srv/shr/a").is_windows_path());
    assert!(p("d:/a").is_windows_path());
    assert!(!p("/a").is_windows_path());
    assert!(p("a/<m>").has_macros());
    assert!(p("mnt:/a").has_vfs_root());
    assert!(p("mnt:/a").is_vfs_path());
    assert!(p("a/<m>").is_vfs_path());
    assert!(p("a/b*").is_search_path());
    assert_eq!(p("/a/b").is_absolute_on(true), false);
    assert_eq!(p("/a/b").is_absolute_on(false), true);
    assert_eq!(p("a/b*").get_form_on(false), PathForm::Unnormalized);
    assert_eq!(p("a/<m>/b").get_form_on(false), PathForm::Raw);
    assert_eq!(p("/a/b").get_form_on(false), PathForm::FullyQualified);
    assert_eq!(p("/a/b").get_form_on(true), PathForm::Unnormalized);
    assert_eq!(p("<m>:/a").get_form_on(true), PathForm::Raw);
    assert_eq!(p("<m>:/a").get_form_on(false), PathForm::Raw);
    assert_eq!(p("//s/<t>/a").get_form_on(true), PathForm::Raw);
}

#[test]
fn pathbuf_edits() {
    let mut buf = PathBuf::from_str("C:/").unwrap();
    buf.push(p("dir"));
    assert_eq!(buf.as_path().as_str(), "C:/dir");
    buf.push(p("file.txt"));
    assert_eq!(buf.as_path().as_str(), "C:/dir/file.txt");
    assert!(buf.set_extension("md"));
    assert_eq!(buf.as_path().as_str(), "C:/dir/file.md");
    assert!(buf.set_extension(""));
    assert_eq!(buf.as_path().as_str(), "C:/dir/file");
    buf.set_file_name("other.bin");
    assert_eq!(buf.as_path().as_str(), "C:/dir/other.bin");
    assert!(buf.pop());
    assert!(buf.pop());
    assert_eq!(buf.as_path().as_str(), "C:");
    assert!(!buf.pop());
    let joined = p("a/b").join(p("c"));
    assert_eq!(joined.as_path().as_str(), "a/b/c");
    assert_eq!(p("a/b.txt").with_extension("rs").as_path().as_str(), "a/b.rs");
    assert_eq!(p("a/b.txt").with_file_name("c").as_path().as_str(), "a/c");
    let s = PathBuf::from_str("x/y").unwrap().into_string();
    assert_eq!(s, "x/y");
    let mut buf = PathBuf::from_str("x").unwrap();
    buf.clear();
    assert_eq!(buf.as_path().len(), 0);
    assert!(PathBuf::from_utf8_lossy(b"a/\xffb").is_ok());
    assert_eq!(PathBuf::from_utf8_lossy(b"a/\xffb").unwrap().as_path().as_str(), "a/\u{FFFD}b");
    assert!(PathBuf::from_str("a|b").is_err());
    let mut buf = PathBuf::new();
    buf.reserve(16);
    assert!(buf.capacity() >= 16);
    buf.shrink_to_fit();
    assert!(buf.try_reserve(4).is_ok());
    assert!(buf.try_reserve_exact(4).is_ok());
    buf.reserve_exact(2);
    buf.shrink_to(0);
    assert_eq!(PathBuf::default(), PathBuf::new());
}

#[test]
fn normalize_paths() {
    let wd = p("/work/dir");
    let mut buf = PathBuf::from_str("a/./b/../c").unwrap();
    assert_eq!(buf.normalize_on(wd, false), Ok(()));
    assert_eq!(buf.as_path().as_str(), "/work/dir/a/c");

    let mut buf = PathBuf::from_str("/x/../../y").unwrap();
    assert_eq!(buf.normalize_on(wd, false), Ok(()));
    assert_eq!(buf.as_path().as_str(), "/y");

    let mut buf = PathBuf::from_str("c:/x/y/..").unwrap();
    assert_eq!(buf.normalize_on(wd, true), Ok(()));
    assert_eq!(buf.as_path().as_str(), "C:/x");

    let mut buf = PathBuf::from_str("//srv/shr/x").unwrap();
    assert_eq!(buf.normalize_on(wd, true), Ok(()));
    assert_eq!(buf.as_path().as_str(), "//srv/shr/x");

    let mut buf = PathBuf::from_str("c:/x").unwrap();
    assert_eq!(buf.normalize_on(wd, false), Err(NormalizeError::WindowsPathOnOtherOs));
    assert_eq!(buf.as_path().as_str(), "c:/x");

    let mut buf = PathBuf::from_str("/x").unwrap();
    assert_eq!(buf.normalize_on(wd, true), Err(NormalizeError::NonWindowsPathOnWindows));

    let mut buf = PathBuf::from_str("mnt:/x").unwrap();
    assert_eq!(buf.normalize_on(wd, false), Err(NormalizeError::VirtualRoot));
    assert_eq!(buf.normalize_internal_on(wd, false, true), Ok(()));
    assert_eq!(buf.as_path().as_str(), "mnt:/x");

    let mut buf = PathBuf::from_str("a/<m>/b").unwrap();
    assert_eq!(buf.normalize_on(wd, false), Err(NormalizeError::Macro));
    let mut buf = PathBuf::from_str("a/b*").unwrap();
    assert_eq!(buf.normalize_on(wd, false), Err(NormalizeError::Wildcard));
    assert_eq!(
        NormalizeError::Wildcard.message(),
        "Cannot normalize a path that includes a wildcard"
    );
}

#[test]
fn vfs_parts_both_ways() {
    let mut fwd = VFSComponent("x<a>y<b>");
    assert_eq!(fwd.next(), Some(VFSPart::Text("x")));
    assert_eq!(fwd.next(), Some(VFSPart::Macro(VFSMacro { name: "a", raw: "<a>" })));
    assert_eq!(fwd.next(), Some(VFSPart::Text("y")));
    assert_eq!(fwd.next(), Some(VFSPart::Macro(VFSMacro::new("b", "<b>"))));
    assert_eq!(fwd.next(), None);
    let mut bwd = VFSComponent("x<a>y<b>");
    assert_eq!(bwd.next_back(), Some(VFSPart::Macro(VFSMacro { name: "b", raw: "<b>" })));
    assert_eq!(bwd.next_back(), Some(VFSPart::Text("y")));
    assert_eq!(bwd.next_back(), Some(VFSPart::Macro(VFSMacro { name: "a", raw: "<a>" })));
    assert_eq!(bwd.next_back(), Some(VFSPart::Text("x")));
    assert_eq!(bwd.next_back(), None);
    // a `>` without a `<` before it cannot be taken from the back
    let mut odd = VFSComponent("ab>");
    assert_eq!(odd.next_back(), None);
    assert_eq!(odd.as_str(), "ab>");
    let m = VFSMacro::new("name", "<name>");
    assert_eq!(m.len(), 6);
    assert_eq!(m.name(), "name");
    assert_eq!(VFSPart::Macro(m).as_str(), "<name>");
    assert_eq!(VFSPart::Text("abc").len(), 3);
}

#[test]
fn mount_point_entries() {
    let mut mp = MountPoint::new();
    assert_eq!(mp.num_entries(), 0);
    assert_eq!(mp.mount_point(5, p("C:/assets")), Ok(()));
    assert_eq!(mp.mount_point(5, p("C:/other")), Err(()));
    assert_eq!(mp.mount_point(2, p("C:/other")), Ok(()));
    assert_eq!(mp.mount_point(9, p("C:/other/")), Ok(()));
    assert_eq!(mp.num_entries(), 3);
    // the entry with the lowest priority among those naming the path goes first
    assert!(mp.unmount_point(p("C:/other")));
    assert_eq!(mp.num_entries(), 2);
    assert!(mp.unmount_point(p("C:/other")));
    assert!(!mp.unmount_point(p("C:/other")));
    assert_eq!(mp.mount_point(2, p("D:/x")), Ok(()));
    assert_eq!(mp.num_entries(), 2);
}

#[test]
fn sub_system_support_flags() {
    let both = SubSystemSupport(SUPPORT_CREATE_DELETE_DIRECTORY | SUPPORT_CREATE_DELETE_FILE);
    assert!(both.modifies_filesystem());
    assert!(!SubSystemSupport(SUPPORT_CREATE_DELETE_FILE | SUPPORT_FILEWATCHER).modifies_filesystem());
    assert!(both.contains(SubSystemSupport(SUPPORT_CREATE_DELETE_FILE)));
    assert!(!both.contains(SubSystemSupport(SUPPORT_FILEWATCHER)));
}

#[test]
fn entry_type_queries() {
    assert!(EntryType::SymlinkFile.is_file());
    assert!(EntryType::SymlinkFile.is_symlink());
    assert!(!EntryType::SymlinkFile.is_dir());
    assert!(EntryType::Directory.is_dir());
    assert!(!EntryType::Unknown.is_file() && !EntryType::Unknown.is_dir());
    assert_eq!(EntryType::default(), EntryType::Unknown);
    assert_eq!(EntryType::SymlinkDirectory.name(), "SymlinkDirectory");
}

#[test]
fn name_filters() {
    assert!(NameFilter::new(None).filter("anything"));
    let full = NameFilter::new(Some("file.txt"));
    assert!(full.filter("file.txt"));
    assert!(!full.filter("file.txd"));
    let f = NameFilter::new(Some("ab*yz"));
    assert!(f.filter("abcxyz"));
    assert!(!f.filter("abcxy"));
    assert!(!f.filter("xbcxyz"));
    let f = NameFilter::new(Some("*.rs"));
    assert!(f.filter("main.rs"));
    assert!(!f.filter("main.rc"));
    let f = NameFilter::new(Some("a*mid*"));
    assert!(f.filter("a_mid_z"));
    assert!(!f.filter("a_other"));
    match NameFilter::new(Some("*a*b*")) {
        NameFilter::Partial { start_with, end_with, parts } => {
            assert_eq!(start_with, None);
            assert_eq!(end_with, None);
            assert_eq!(parts, vec!["".to_string(), "a".to_string(), "b".to_string(), "".to_string()]);
        },
        _ => panic!("expected a pattern filter"),
    }
}

#[test]
fn hid_usage_lookup() {
    static USAGES: [HidUsage<'static>; 3] = [
        HidUsage { id: UsageId(0x01), name: "Pointer" },
        HidUsage { id: UsageId(0x02), name: "Mouse" },
        HidUsage { id: UsageId(0x30), name: "X" },
    ];
    static PAGES: [HidUsagePage<'static>; 2] = [
        HidUsagePage { id: UsagePageId(0x01), name: "Generic Desktop", usages: Some(&USAGES) },
        HidUsagePage { id: UsagePageId(0x09), name: "Button", usages: None },
    ];
    let page = HidUsagePage::new(&PAGES, UsagePageId::new(0x01)).unwrap();
    assert_eq!(page.name, "Generic Desktop");
    assert_eq!(page.get_usage(UsageId::new(0x30)).unwrap().name, "X");
    assert!(page.get_usage(UsageId::new(0x31)).is_none());
    let buttons = HidUsagePage::new(&PAGES, UsagePageId::new(0x09)).unwrap();
    assert!(buttons.get_usage(UsageId::new(0x01)).is_none());
    assert!(HidUsagePage::new(&PAGES, UsagePageId::new(0x05)).is_none());
    let usage = Usage::from_u16(0x01, 0x02);
    assert_eq!(usage, Usage::new(UsagePageId(0x01), UsageId(0x02)));
    assert_eq!(usage.page.as_u16(), 0x01);
    assert_eq!(usage.usage.as_u16(), 0x02);
}

#[test]
fn input_definition_kinds() {
    assert_eq!(DefinitionKind::from_single_str("gamepad"), DefinitionKind(DEFINITION_GAMEPAD));
    assert_eq!(DefinitionKind::from_single_str("touch"), DefinitionKind(DEFINITION_TOUCH));
    assert_eq!(DefinitionKind::from_single_str("sensor"), DefinitionKind(DEFINITION_SENSOR));
    assert_eq!(DefinitionKind::from_single_str("Gamepad"), DefinitionKind(DEFINITION_NONE));
    assert!(DefinitionKind::from_single_str("mouse").is_none());
    let both = DefinitionKind(DEFINITION_GAMEPAD).union(DefinitionKind(DEFINITION_TOUCH));
    assert!(both.contains(DefinitionKind(DEFINITION_TOUCH)));
    assert!(!both.contains(DefinitionKind(DEFINITION_SENSOR)));
    let def = UsageDef::new(Usage::from_u16(1, 0x30), 3);
    assert_eq!(def.report, 3);
    assert_eq!(def.usage.usage, UsageId(0x30));
}

fn hash_of<T: std::hash::Hash>(t: &T) -> u64 {
    let mut h = std::collections::hash_map::DefaultHasher::new();
    t.hash(&mut h);
    h.finish()
}

#[test]
fn path_hash_follows_equality() {
    assert_eq!(hash_of(&p("a/b/")), hash_of(&p("a//b")));
    assert_eq!(hash_of(&p("C:/x/./y")), hash_of(&p("c:/x/y")));
    assert_eq!(p("a/b").hash_bytes(), vec![b'a', 0xff, b'b', 0xff]);
    assert_eq!(p("/a").hash_bytes(), vec![2, b'a', 0xff]);
    assert_ne!(p("a/b").hash_bytes(), p("a/c").hash_bytes());
    let buf = PathBuf::from_str("a/b").unwrap();
    assert_eq!(hash_of(&buf), hash_of(&p("a/b")));
}

#[test]
fn path_order() {
    assert_eq!(p("a/b").partial_cmp(&p("a/c")), Some(Ordering::Less));
    assert_eq!(p("a/b/").partial_cmp(&p("a/b")), Some(Ordering::Equal));
    assert_eq!(p("a").partial_cmp(&p("a/b")), Some(Ordering::Less));
    assert!(p("/z") < p("a"));
    assert!(p("C:/a") < p("/a"));
    assert!(p("a/..") < p("a/b"));
    assert!(p("a/b") > p("a/B"));
}

#[test]
fn strip_prefix_then_join_gives_the_path_back() {
    let path = p("C:/games//engine/./assets/");
    let base = p("C:/games");
    let rest = path.strip_prefix(base).unwrap();
    assert_eq!(rest.as_str(), "engine/./assets");
    assert_eq!(base.join(rest).as_path(), path);
    assert_eq!(base.join(rest).into_string(), "C:/games/engine/./assets");
    // the whole path stripped leaves nothing, and joining nothing gives the base back
    let rest = path.strip_prefix(path).unwrap();
    assert_eq!(rest.as_str(), "");
    assert_eq!(path.join(rest).as_path(), path);
    // after a bare drive, what is left would read as rooted itself: that is refused
    let odd = p("C:a:b");
    assert_eq!(odd.strip_prefix(p("C:")), Err(StripPrefixError(())));
    // with no base, nothing is stripped and the whole path is given back
    let nothing = odd.strip_prefix(odd).unwrap();
    assert_eq!(nothing.as_str(), "");
    assert_eq!(odd.strip_prefix(nothing), Ok(odd));
}

#[test]
fn pathbuf_extend_pushes_in_order() {
    let mut buf = PathBuf::from_str("C:/base").unwrap();
    buf.extend(&[p("a"), p("b/c"), p("d.txt")]);
    assert_eq!(buf.into_string(), "C:/base/a/b/c/d.txt");
    let buf = PathBuf::from_iter(&[p("x"), p("D:/y"), p("z")]);
    assert_eq!(buf.into_string(), "D:/y/z");
    let buf = PathBuf::from_iter(&[]);
    assert_eq!(buf.into_string(), "");
}

#[test]
fn high_low_halves() {
    assert_eq!(onca::fs_types::high_low_to_u64(1, 2), 0x1_0000_0002);
    assert_eq!(onca::fs_types::high_low_to_u64(0, u32::MAX), 0xFFFF_FFFF);
    assert_eq!(onca::fs_types::high_low_to_u64(u32::MAX, u32::MAX), u64::MAX);
}

#[test]
fn normalized_paths_are_fully_qualified() {
    let mut a = PathBuf::from_str("a/./b/../c").unwrap();
    assert_eq!(a.normalize_on(p("C:/work"), true), Ok(()));
    assert_eq!(a.as_path().as_str(), "C:/work/a/c");
    assert_eq!(a.as_path().get_form_on(true), PathForm::FullyQualified);
    let mut b = PathBuf::from_str("//server/share/x/../y").unwrap();
    assert_eq!(b.normalize_on(p("C:/work"), true), Ok(()));
    assert_eq!(b.as_path().as_str(), "//server/share/y");
    assert_eq!(b.as_path().get_form_on(true), PathForm::FullyQualified);
    let mut c = PathBuf::from_str("/usr/./lib").unwrap();
    assert_eq!(c.normalize_on(p("/home"), false), Ok(()));
    assert_eq!(c.as_path().get_form_on(false), PathForm::FullyQualified);
    // a name holding `:` is pushed as a rooted path of its own
    let mut d = PathBuf::from_str("C:ab:c").unwrap();
    assert_eq!(d.normalize_on(p("C:/work"), true), Ok(()));
    assert_eq!(d.as_path().as_str(), "ab:c");
    assert_eq!(d.as_path().get_form_on(true), PathForm::Normalized);
    // a lone `/` as the working directory makes a share root of the first name
    let mut e = PathBuf::from_str("a").unwrap();
    assert_eq!(e.normalize_on(p("/"), false), Ok(()));
    assert_eq!(e.as_path().as_str(), "//a");
    assert_eq!(e.as_path().get_form_on(false), PathForm::Normalized);
}

#[test]
fn set_extension_reads_back() {
    for (text, stem) in [
        ("dir/name.txt", "name"),
        ("C:/dir/archive.tar.gz", "archive.tar"),
        ("vfs:/dir/.bashrc", ".bashrc"),
        ("plain", "plain"),
        ("./a/b./", "b"),
    ] {
        let mut buf = PathBuf::from_str(text).unwrap();
        assert!(buf.set_extension("bak"));
        let path = buf.as_path();
        assert_eq!(path.extension(), Some("bak"));
        assert_eq!(path.file_stem(), Some(stem));
    }
}

fn change_path(s: &str) -> PathBuf {
    PathBuf::from_str(s).unwrap()
}

#[test]
fn file_watcher_reports_changes_by_filter() {
    let all = FileWatcherFilter(0x7FF);
    let files_only = FileWatcherFilter(WATCH_FILE_ADDED | WATCH_FILE_RENAME);
    let rs = NameFilter::new(Some("*.rs"));
    let any = NameFilter::new(None);
    let added = FileChangeInfo::FileAdded(change_path("src/lib.rs"));
    let dir_added = FileChangeInfo::DirAdded(change_path("src/sub.rs"));
    let renamed = FileChangeInfo::FileRenamed { old: change_path("a.txt"), new: change_path("a.rs") };
    let renamed_txt = FileChangeInfo::FileRenamed { old: change_path("a.txt"), new: change_path("b.txt") };
    let meta = FileChangeMetadata {
        entry_type: EntryType::File,
        flags: EntryFlags(0),
        creation_time: FileTime(0),
        last_access_time: FileTime(0),
        last_write_time: FileTime(0),
        file_size: 0,
        alloc_size: 0,
    };
    let modified = FileChangeInfo::FileModified { path: change_path("x.rs"), metadata: meta };
    assert!(change_passes(all, &any, &added));
    assert!(change_passes(files_only, &rs, &added));
    assert!(!change_passes(files_only, &rs, &dir_added));
    assert!(change_passes(all, &rs, &dir_added));
    assert!(change_passes(files_only, &rs, &renamed));
    assert!(!change_passes(files_only, &rs, &renamed_txt));
    assert!(!change_passes(files_only, &any, &modified));
    assert!(!change_passes(FileWatcherFilter(WATCH_SIZE), &any, &modified));
    assert!(change_passes(FileWatcherFilter(WATCH_METADATA), &any, &modified));
    assert!(!change_passes(FileWatcherFilter(0), &any, &added));
    assert!(FileWatcherFilter(WATCH_METADATA).contains(FileWatcherFilter(WATCH_SIZE)));
    assert_eq!(WATCH_METADATA, 0x7C0);
}

#[test]
fn pathbuf_reserving_beyond_the_limit_fails() {
    let mut buf = PathBuf::from_str("a/b").unwrap();
    assert!(buf.try_reserve(usize::MAX).is_err());
    assert!(buf.try_reserve_exact(isize::MAX as usize).is_err());
    assert!(buf.try_reserve(16).is_ok());
    assert!(buf.capacity() >= 19);
    assert_eq!(buf.as_path().as_str(), "a/b");
}

#[test]
fn parent_of_macro_and_wildcard_components() {
    assert_eq!(p("a/<m>").parent(), Some(p("a")));
    assert_eq!(p("a/*.txt").parent(), Some(p("a")));
    assert_eq!(p("a//b").parent(), Some(p("a")));
    assert_eq!(p("<m>").parent(), None);
    let mut buf = PathBuf::from_path(p("a/<m>"));
    buf.set_file_name("x");
    assert_eq!(buf.into_string(), "a/x");
    let mut buf = PathBuf::from_path(p("a/<m>"));
    assert!(buf.pop());
    assert_eq!(buf.into_string(), "a");
}

#[test]
fn iter_as_path_starts_from_the_whole_path() {
    let path = p("a/b/");
    let it = path.iter();
    assert_eq!(it.as_path().as_str(), "a/b");
    let mut comps = it.as_path().components();
    assert_eq!(comps.next(), Some(Component::Normal("a")));
    assert_eq!(comps.next(), Some(Component::Normal("b")));
    assert_eq!(comps.next(), None);
}

#[test]
fn strip_then_join_onto_a_share_root_without_its_share() {
    // the base's root is not written in full: joining what is left reads it as the share
    let path = p("//s//x");
    let base = p("//s");
    let rest = path.strip_prefix(base).unwrap();
    assert_eq!(rest.as_str(), "x");
    let joined = base.join(rest);
    assert_eq!(joined.as_path().as_str(), "//s/x");
    assert!(joined.as_path() != path);
}

#[test]
fn push_drops_a_leading_cur_dir() {
    let mut buf = PathBuf::from_str("b").unwrap();
    buf.push(p("./a"));
    let mut comps = buf.as_path().components();
    assert_eq!(comps.next(), Some(Component::Normal("b")));
    assert_eq!(comps.next(), Some(Component::Normal("a")));
    assert_eq!(comps.next(), None);
    let mut buf = PathBuf::from_str("b").unwrap();
    buf.push(p("C:/a"));
    assert_eq!(buf.as_path().as_str(), "C:/a");
}

#[test]
fn validate_reports_the_first_fault() {
    assert!(p("a/<m>/b").validate().is_ok());
    assert_eq!(Path::new("a/b:c").unwrap_err().0 .1, 3);
    assert_eq!(Path::new("a<b").unwrap_err().0 .1, 3);
    assert_eq!(Path::new("").unwrap_err().0 .1, 0);
}
