use onca::macro_subst::{component_macros_closed, macros_are_closed};
use onca::normalize::NormalizeError;
use onca::path::Path;
use onca::path_buf::PathBuf;
use onca::path_component::VFSComponent;
use onca::vfs::{MountPoint, MountQueryError, SubSystemSupport, VirtualFileSystem, SUPPORT_CREATE_DELETE_FILE};

fn p(s: &str) -> Path<'_> {
    Path::new(s).unwrap()
}

#[test]
pub fn macro_replace() {
    let mut vfs = VirtualFileSystem::new();

    vfs.add_macro("macro0".to_string(), PathBuf::from_str("hello").unwrap());
    vfs.add_macro("macro1".to_string(), PathBuf::from_str("world").unwrap());

    let path = Path::new("C:/say/<macro0>_<macro1>").unwrap();
    let expected = Path::new("C:/say/hello_world").unwrap();

    let pathbuf = vfs.replace_path_macros(path);
    assert_eq!(pathbuf.as_path(), expected);

    let path = Path::new("C:/<macro2>/<macro0>_<macro1>").unwrap();
    let expected = Path::new("C:/print/line/hello_world").unwrap();

    let pathbuf = vfs.replace_path_macros_local(path, |val| {
        if val == "macro2" {
            Some(Path::new("print/line").unwrap())
        } else {
            None
        }
    });
    assert_eq!(pathbuf.as_path(), expected);
}

#[test]
fn macro_replace_pushes_components_one_by_one() {
    let mut vfs = VirtualFileSystem::new();
    vfs.add_macro("m".to_string(), PathBuf::from_str("x/y").unwrap());
    // the drive root is pushed as written, and the next component follows it directly
    let r = vfs.replace_path_macros(p("C:/a/<m>/b"));
    assert_eq!(r.into_string(), "C:a/x/y/b");
    // an unknown macro is removed
    let r = vfs.replace_path_macros(p("a/<unknown>b/c"));
    assert_eq!(r.into_string(), "a/b/c");
    // a local answer wins over the global value
    let r = vfs.replace_path_macros_local(p("a/<m>"), |name| {
        if name == "m" {
            Some(Path::new("local").unwrap())
        } else {
            None
        }
    });
    assert_eq!(r.into_string(), "a/local");
    // a rooted macro value replaces what came before it
    vfs.add_macro("root".to_string(), PathBuf::from_str("D:/data").unwrap());
    let r = vfs.replace_path_macros(p("a/<root>/file.txt"));
    assert_eq!(r.into_string(), "D:/data/file.txt");
}

#[test]
fn macro_add_then_get() {
    let mut vfs = VirtualFileSystem::new();
    assert!(vfs.get_macro("assets").is_none());
    assert!(vfs.add_macro("assets".to_string(), PathBuf::from_str("C:/game/assets").unwrap()).is_none());
    assert_eq!(vfs.get_macro("assets").unwrap().as_str(), "C:/game/assets");
    let old = vfs.add_macro("assets".to_string(), PathBuf::from_str("D:/assets").unwrap());
    assert_eq!(old.unwrap().into_string(), "C:/game/assets");
    assert_eq!(vfs.get_macro("assets").unwrap().as_str(), "D:/assets");
    assert!(vfs.get_macro("asset").is_none());
}

#[test]
fn vfs_mount_points() {
    let mut vfs = VirtualFileSystem::new();
    assert!(!vfs.is_mounted("data"));
    assert!(!vfs.is_direct_mount_point("data"));
    assert_eq!(vfs.mount("data", 1, p("C:/game/data")), Ok(()));
    assert!(vfs.is_mounted("data"));
    assert!(vfs.is_direct_mount_point("data"));
    assert_eq!(vfs.mount("data", 1, p("C:/mods/data")), Err(()));
    assert_eq!(vfs.mount("data", 0, p("C:/mods/data")), Ok(()));
    assert!(!vfs.is_direct_mount_point("data"));
    assert!(!vfs.unmount("data", p("C:/elsewhere")));
    assert!(!vfs.unmount("other", p("C:/mods/data")));
    assert!(vfs.unmount("data", p("C:/mods/data/")));
    assert!(vfs.is_direct_mount_point("data"));
    assert!(vfs.unmount("data", p("C:/game/data")));
    // an emptied mount point stays mounted
    assert!(vfs.is_mounted("data"));
    assert!(!vfs.is_direct_mount_point("data"));
}

#[test]
fn vfs_normalize_path() {
    let mut vfs = VirtualFileSystem::new();
    vfs.add_macro("m".to_string(), PathBuf::from_str("x/y").unwrap());
    let r = vfs.normalize_path_on(p("vfs:/a/<m>/../b"), p("C:/work"), true).unwrap();
    assert_eq!(r.into_string(), "vfs:/a/x/b");
    let r = vfs.normalize_path_on(p("rel/<m>/./z"), p("C:/work"), true).unwrap();
    assert_eq!(r.into_string(), "C:/work/rel/x/y/z");
    let r = vfs.normalize_path_on(p("/abs/<m>"), p("C:/work"), true);
    assert_eq!(r.unwrap_err(), NormalizeError::NonWindowsPathOnWindows);
    let r = vfs.normalize_path_on(p("C:/a/<missing>*"), p("C:/work"), true);
    assert_eq!(r.unwrap_err(), NormalizeError::Wildcard);
    let r = vfs.normalize_path_local_on(p("<here>/a"), |name| {
        if name == "here" {
            Some(Path::new("C:/local").unwrap())
        } else {
            None
        }
    }, p("D:/work"), true).unwrap();
    assert_eq!(r.into_string(), "C:/local/a");
}

#[test]
fn macros_closed_checks() {
    assert!(macros_are_closed(p("a/<m>/b<n>c")));
    assert!(macros_are_closed(p("C:/plain/path")));
    assert!(component_macros_closed(VFSComponent("x<m>y")));
    assert!(!component_macros_closed(VFSComponent("x<m>y<open")));
    assert!(!component_macros_closed(VFSComponent("<open")));
}

#[test]
fn mount_entries_are_tried_highest_priority_first() {
    let mut mount = MountPoint::new();
    assert_eq!(mount.mount_point(3, p("C:/b")), Ok(()));
    assert_eq!(mount.mount_point(10, p("C:/c")), Ok(()));
    assert_eq!(mount.mount_point(1, p("C:/a")), Ok(()));
    let order: Vec<(u16, String)> =
        mount.entries_by_priority().into_iter().map(|(k, v)| (k, v.into_string())).collect();
    assert_eq!(order, vec![(10, "C:/c".to_string()), (3, "C:/b".to_string()), (1, "C:/a".to_string())]);
    assert!(MountPoint::new().entries_by_priority().is_empty());
}

#[test]
fn mount_roots_of_queries() {
    let mut vfs = VirtualFileSystem::new();
    let read = SubSystemSupport(0);
    let write = SubSystemSupport(SUPPORT_CREATE_DELETE_FILE);
    assert_eq!(vfs.mount_roots("data", read).unwrap_err(), MountQueryError::Missing);
    assert_eq!(vfs.mount("data", 1, p("C:/game/data")), Ok(()));
    let roots = vfs.mount_roots("data", write).unwrap();
    assert_eq!(roots.len(), 1);
    assert_eq!(roots[0].0, 1);
    assert_eq!(vfs.mount("data", 5, p("C:/mods/data")), Ok(()));
    assert_eq!(vfs.mount_roots("data", write).unwrap_err(), MountQueryError::MultiEntryModification);
    let roots = vfs.mount_roots("data", read).unwrap();
    let texts: Vec<String> = roots.into_iter().map(|(_, v)| v.into_string()).collect();
    assert_eq!(texts, vec!["C:/mods/data".to_string(), "C:/game/data".to_string()]);
}
