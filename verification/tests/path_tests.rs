use onca::path::{Path, InvalidPathError, PathForm, WINDOWS_PATHS};
use onca::path_buf::PathBuf;
use onca::path_component::{Component, VFSMacro, VFSPart};
use onca::path_root::Root;

#[test]
fn create_path() {
    let valid = Path::new("test/path");
    assert!(valid.is_ok());

    let invalid = Path::new("");
    assert!(invalid.is_err());

    // invalid chars: :\"|?*
    let invalid = Path::new("bl/h:");
    match invalid {
        Ok(_) => panic!("Found Ok(_), expected Err(_)"),
        Err(InvalidPathError((_, idx))) => assert_eq!(idx, 4),
    }
    let invalid = Path::new("blah\"");
    match invalid {
        Ok(_) => panic!("Found Ok(_), expected Err(_)"),
        Err(InvalidPathError((_, idx))) => assert_eq!(idx, 4),
    }
    let invalid = Path::new("blah|");
    match invalid {
        Ok(_) => panic!("Found Ok(_), expected Err(_)"),
        Err(InvalidPathError((_, idx))) => assert_eq!(idx, 4),
    }
    let invalid = Path::new("blah?");
    match invalid {
        Ok(_) => panic!("Found Ok(_), expected Err(_)"),
        Err(InvalidPathError((_, idx))) => assert_eq!(idx, 4),
    }
    let invalid = Path::new("blah*");
    match invalid {
        Ok(_) => panic!("Found Ok(_), expected Err(_)"),
        Err(InvalidPathError((_, idx))) => assert_eq!(idx, 4),
    }

    // valid with "invalid" char
    let valid = Path::new("C:/test");
    assert!(valid.is_ok());

    // Valid macro
    let valid = Path::new("<macro>");
    assert!(valid.is_ok());

    // Invalid macro
    let invalid = Path::new("blah>");
    match invalid {
        Ok(_) => panic!("Found Ok(_), expected Err(_)"),
        Err(InvalidPathError((_, idx))) => assert_eq!(idx, 4),
    }
    let invalid = Path::new("blah<<");
    match invalid {
        Ok(_) => panic!("Found Ok(_), expected Err(_)"),
        Err(InvalidPathError((_, idx))) => assert_eq!(idx, 5),
    }
    let invalid = Path::new("<blah");
    match invalid {
        Ok(_) => panic!("Found Ok(_), expected Err(_)"),
        Err(InvalidPathError((_, idx))) => assert_eq!(idx, 5),
    }
}

#[test]
fn path_components() {
    let path = Path::new("a/b").unwrap();
    let mut comp = path.components();
    assert_eq!(comp.next(), Some(Component::Normal("a")));
    assert_eq!(comp.next(), Some(Component::Normal("b")));
    assert_eq!(comp.next(), None);

    let path = Path::new("C:/a/b").unwrap();
    let mut comp = path.components();
    match comp.next() {
        Some(comp) => match comp {
            Component::Root(root) => assert!(matches!(root.kind(), Root::Drive(b'C'))),
            _ => panic!("Expected root component"),
        },
        None => panic!("Root expected"),
    }
    assert_eq!(comp.next(), Some(Component::Normal("a")));
    assert_eq!(comp.next(), Some(Component::Normal("b")));
    assert_eq!(comp.next(), None);

    let path = Path::new("//server/share/a/b").unwrap();
    let mut comp = path.components();
    match comp.next() {
        Some(comp) => match comp {
            Component::Root(root) => assert!(matches!(root.kind(), Root::WinShare{ server: "server", share: "share" })),
            _ => panic!("Expected root component"),
        },
        None => panic!("Root expected"),
    }
    assert_eq!(comp.next(), Some(Component::Normal("a")));
    assert_eq!(comp.next(), Some(Component::Normal("b")));
    assert_eq!(comp.next(), None);

    let path = Path::new("/a/b").unwrap();
    let mut comp = path.components();
    match comp.next() {
        Some(comp) => match comp {
            Component::Root(root) => assert!(matches!(root.kind(), Root::Common)),
            _ => panic!("Expected root component"),
        },
        None => panic!("Root expected"),
    }
    assert_eq!(comp.next(), Some(Component::Normal("a")));
    assert_eq!(comp.next(), Some(Component::Normal("b")));
    assert_eq!(comp.next(), None);

    let path = Path::new("vfs:/a/b").unwrap();
    let mut comp = path.components();
    match comp.next() {
        Some(comp) => match comp {
            Component::Root(root) => assert!(matches!(root.kind(), Root::VFS("vfs"))),
            _ => panic!("Expected root component"),
        },
        None => panic!("Root expected"),
    }
    assert_eq!(comp.next(), Some(Component::Normal("a")));
    assert_eq!(comp.next(), Some(Component::Normal("b")));
    assert_eq!(comp.next(), None);

    let path = Path::new("a/../b").unwrap();
    let mut comp = path.components();
    assert_eq!(comp.next(), Some(Component::Normal("a")));
    assert_eq!(comp.next(), Some(Component::ParentDir));
    assert_eq!(comp.next(), Some(Component::Normal("b")));
    assert_eq!(comp.next(), None);

    let path = Path::new("a/b*").unwrap();
    let mut comp = path.components();
    assert_eq!(comp.next(), Some(Component::Normal("a")));
    assert_eq!(comp.next(), Some(Component::Wildcard("b*")));
    assert_eq!(comp.next(), None);
    
    let path = Path::new("a/b?").unwrap();
    let mut comp = path.components();
    assert_eq!(comp.next(), Some(Component::Normal("a")));
    assert_eq!(comp.next(), Some(Component::Wildcard("b?")));
    assert_eq!(comp.next(), None);
    
    let path = Path::new("a/b<macro>").unwrap();
    let mut comp = path.components();
    assert_eq!(comp.next(), Some(Component::Normal("a")));
    assert!(matches!(comp.next(), Some(Component::VFS(_))));
    assert_eq!(comp.next(), None);
}

#[test]
fn path_components_rev() {
    let path = Path::new("a/b").unwrap();
    let mut comp = path.components();
    assert_eq!(comp.next_back(), Some(Component::Normal("b")));
    assert_eq!(comp.next_back(), Some(Component::Normal("a")));
    assert_eq!(comp.next_back(), None);

    let path = Path::new("C:/a/b").unwrap();
    let mut comp = path.components();
    match comp.next() {
        Some(comp) => match comp {
            Component::Root(root) => assert!(matches!(root.kind(), Root::Drive(b'C'))),
            _ => panic!("Expected root component"),
        },
        None => panic!("Root expected"),
    }
    assert_eq!(comp.next_back(), Some(Component::Normal("b")));
    assert_eq!(comp.next_back(), Some(Component::Normal("a")));
    assert_eq!(comp.next_back(), None);

    let path = Path::new("//server/share/a/b").unwrap();
    let mut comp = path.components();
    match comp.next() {
        Some(comp) => match comp {
            Component::Root(root) => assert!(matches!(root.kind(), Root::WinShare{ server: "server", share: "share" })),
            _ => panic!("Expected root component"),
        },
        None => panic!("Root expected"),
    }
    assert_eq!(comp.next_back(), Some(Component::Normal("b")));
    assert_eq!(comp.next_back(), Some(Component::Normal("a")));
    assert_eq!(comp.next_back(), None);

    let path = Path::new("/a/b").unwrap();
    let mut comp = path.components();
    match comp.next() {
        Some(comp) => match comp {
            Component::Root(root) => assert!(matches!(root.kind(), Root::Common)),
            _ => panic!("Expected root component"),
        },
        None => panic!("Root expected"),
    }
    assert_eq!(comp.next_back(), Some(Component::Normal("b")));
    assert_eq!(comp.next_back(), Some(Component::Normal("a")));
    assert_eq!(comp.next_back(), None);

    let path = Path::new("vfs:/a/b").unwrap();
    let mut comp = path.components();
    match comp.next() {
        Some(comp) => match comp {
            Component::Root(root) => assert!(matches!(root.kind(), Root::VFS("vfs"))),
            _ => panic!("Expected root component"),
        },
        None => panic!("Root expected"),
    }
    assert_eq!(comp.next_back(), Some(Component::Normal("b")));
    assert_eq!(comp.next_back(), Some(Component::Normal("a")));
    assert_eq!(comp.next_back(), None);

    let path = Path::new("a/../b").unwrap();
    let mut comp = path.components();
    assert_eq!(comp.next_back(), Some(Component::Normal("b")));
    assert_eq!(comp.next_back(), Some(Component::ParentDir));
    assert_eq!(comp.next_back(), Some(Component::Normal("a")));
    assert_eq!(comp.next_back(), None);

    let path = Path::new("a/b*").unwrap();
    let mut comp = path.components();
    assert_eq!(comp.next_back(), Some(Component::Wildcard("b*")));
    assert_eq!(comp.next_back(), Some(Component::Normal("a")));
    assert_eq!(comp.next_back(), None);
    
    let path = Path::new("a/b?").unwrap();
    let mut comp = path.components();
    assert_eq!(comp.next_back(), Some(Component::Wildcard("b?")));
    assert_eq!(comp.next_back(), Some(Component::Normal("a")));
    assert_eq!(comp.next_back(), None);
    
    let path = Path::new("a/b<macro>").unwrap();
    let mut comp = path.components();
    assert!(matches!(comp.next_back(), Some(Component::VFS(_))));
    assert_eq!(comp.next_back(), Some(Component::Normal("a")));
    assert_eq!(comp.next_back(), None);
}

#[test]
fn path_macro() {
    let path = Path::new("<macro>").unwrap();
    let comp = path.components().next().unwrap();
    if let Component::VFS(mut vfs) = comp {
        assert_eq!(vfs.next(), Some(VFSPart::Macro(VFSMacro { name: "macro", raw: "<macro>" })));
        assert_eq!(vfs.next(), None)
    } else {
        panic!("Expected a VFS component");
    }
     
    let path = Path::new("<macro>test").unwrap();
    let comp = path.components().next().unwrap();
    if let Component::VFS(mut vfs) = comp {
        assert_eq!(vfs.next(), Some(VFSPart::Macro(VFSMacro { name: "macro", raw: "<macro>" })));
        assert_eq!(vfs.next(), Some(VFSPart::Text("test")));
        assert_eq!(vfs.next(), None)
    } else {
        panic!("Expected a VFS component");
    }
     
    let path = Path::new("test<macro>").unwrap();
    let comp = path.components().next().unwrap();
    if let Component::VFS(mut vfs) = comp {
        assert_eq!(vfs.next(), Some(VFSPart::Text("test")));
        assert_eq!(vfs.next(), Some(VFSPart::Macro(VFSMacro { name: "macro", raw: "<macro>" })));
        assert_eq!(vfs.next(), None)
    } else {
        panic!("Expected a VFS component");
    }

    let path = Path::new("a<macro>b").unwrap();
    let comp = path.components().next().unwrap();
    if let Component::VFS(mut vfs) = comp {
        assert_eq!(vfs.next(), Some(VFSPart::Text("a")));
        assert_eq!(vfs.next(), Some(VFSPart::Macro(VFSMacro { name: "macro", raw: "<macro>" })));
        assert_eq!(vfs.next(), Some(VFSPart::Text("b")));
        assert_eq!(vfs.next(), None)
    } else {
        panic!("Expected a VFS component");
    }

    let path = Path::new("a<macro><macro2>").unwrap();
    let comp = path.components().next().unwrap();
    if let Component::VFS(mut vfs) = comp {
        assert_eq!(vfs.next(), Some(VFSPart::Text("a")));
        assert_eq!(vfs.next(), Some(VFSPart::Macro(VFSMacro { name: "macro", raw: "<macro>" })));
        assert_eq!(vfs.next(), Some(VFSPart::Macro(VFSMacro { name: "macro2", raw: "<macro2>" })));
        assert_eq!(vfs.next(), None)
    } else {
        panic!("Expected a VFS component");
    }
}

#[test]
fn path_macro_rev() {
    let path = Path::new("<macro>").unwrap();
    let comp = path.components().next().unwrap();
    if let Component::VFS(mut vfs) = comp {
        assert_eq!(vfs.next_back(), Some(VFSPart::Macro(VFSMacro { name: "macro", raw: "<macro>" })));
        assert_eq!(vfs.next_back(), None)
    } else {
        panic!("Expected a VFS component");
    }
     
    let path = Path::new("<macro>test").unwrap();
    let comp = path.components().next().unwrap();
    if let Component::VFS(mut vfs) = comp {
        assert_eq!(vfs.next_back(), Some(VFSPart::Text("test")));
        assert_eq!(vfs.next_back(), Some(VFSPart::Macro(VFSMacro { name: "macro", raw: "<macro>" })));
        assert_eq!(vfs.next_back(), None)
    } else {
        panic!("Expected a VFS component");
    }
     
    let path = Path::new("test<macro>").unwrap();
    let comp = path.components().next().unwrap();
    if let Component::VFS(mut vfs) = comp {
        assert_eq!(vfs.next_back(), Some(VFSPart::Macro(VFSMacro { name: "macro", raw: "<macro>" })));
        assert_eq!(vfs.next_back(), Some(VFSPart::Text("test")));
        assert_eq!(vfs.next_back(), None)
    } else {
        panic!("Expected a VFS component");
    }

    let path = Path::new("a<macro>b").unwrap();
    let comp = path.components().next().unwrap();
    if let Component::VFS(mut vfs) = comp {
        assert_eq!(vfs.next_back(), Some(VFSPart::Text("b")));
        assert_eq!(vfs.next_back(), Some(VFSPart::Macro(VFSMacro { name: "macro", raw: "<macro>" })));
        assert_eq!(vfs.next_back(), Some(VFSPart::Text("a")));
        assert_eq!(vfs.next_back(), None)
    } else {
        panic!("Expected a VFS component");
    }

    let path = Path::new("a<macro><macro2>").unwrap();
    let comp = path.components().next().unwrap();
    if let Component::VFS(mut vfs) = comp {
        assert_eq!(vfs.next_back(), Some(VFSPart::Macro(VFSMacro { name: "macro2", raw: "<macro2>" })));
        assert_eq!(vfs.next_back(), Some(VFSPart::Macro(VFSMacro { name: "macro", raw: "<macro>" })));
        assert_eq!(vfs.next_back(), Some(VFSPart::Text("a")));
        assert_eq!(vfs.next_back(), None)
    } else {
        panic!("Expected a VFS component");
    }
}

#[test]
fn path_misc() {
    let path = Path::new("relative/path").unwrap();
    assert!(path.is_relative());

    let path = Path::new("C:/win/abs/path").unwrap();
    assert!(path.is_absolute());
    assert!(path.has_root());
    let path = Path::new("//server/share/win/abs/path").unwrap();
    assert!(path.is_absolute());
    assert!(path.has_root());
    let path = Path::new("vfs:/win/abs/path").unwrap();
    assert!(path.is_absolute());
    assert!(path.has_root());
    
    // This path is only relative on windows
    let path = Path::new("/win/abs/path").unwrap();
    assert_eq!(path.is_absolute(), !WINDOWS_PATHS);
    assert!(path.has_root());

    let path = Path::new("some/path/name.file.txt").unwrap();
    let parent = path.parent();
    assert_eq!(parent, Some(Path::new("some/path").unwrap()));
    let parent = parent.unwrap().parent();
    assert_eq!(parent, Some(Path::new("some").unwrap()));
    let parent = parent.unwrap().parent();
    assert_eq!(parent, None);

    let mut ancestors = path.ancestors();
    assert_eq!(ancestors.next(), Some(path));
    assert_eq!(ancestors.next(), Some(Path::new("some/path").unwrap()));
    assert_eq!(ancestors.next(), Some(Path::new("some").unwrap()));
    assert_eq!(ancestors.next(), None);

    assert_eq!(path.file_name(), Some("name.file.txt"));
    assert_eq!(path.extension(), Some("txt"));
    assert_eq!(path.file_stem(), Some("name.file"));
    assert_eq!(path.file_prefix(), Some("name"));

    assert!(path.starts_with(Path::new("some/path").unwrap()));
    assert!(path.ends_with(Path::new("name.file.txt").unwrap()));

    assert_eq!(path.strip_prefix(Path::new("some").unwrap()), Ok(Path::new("path/name.file.txt").unwrap()));


    let path = Path::new("relative/<path>").unwrap();
    assert_eq!(path.get_form(), PathForm::Raw);

    let path = Path::new("relative/path").unwrap();
    assert_eq!(path.get_form(), PathForm::Unnormalized);

    let path = Path::new("C:/absolute/../path").unwrap();
    assert_eq!(path.get_form(), PathForm::Unnormalized);

    let path = Path::new("vfs:/absolute/path").unwrap();
    assert_eq!(path.get_form(), PathForm::Normalized);

    let path = Path::new("C:/absolute/path").unwrap();
    assert_eq!(path.get_form(), PathForm::FullyQualified);
}

#[test]
fn pathbuf() {
    // New
    let pathbuf = PathBuf::new();
    assert_eq!(pathbuf.capacity(), 0);

    let pathbuf = PathBuf::with_capacity(8);
    assert!(pathbuf.capacity() >= 8);

    let path = Path::new("some/path/file.txt").unwrap();
    let pathbuf = PathBuf::from_path(path);
    assert_eq!(path, pathbuf.as_path());

    // push

    let path0 = Path::new("some/path").unwrap();
    let path1 = Path::new("file.txt").unwrap();
    let mut pathbuf = PathBuf::from_path(path0);
    pathbuf.push(path1);
    assert_eq!(path, pathbuf.as_path());

    let path1 = Path::new("C:/file.txt").unwrap();
    let mut pathbuf = PathBuf::from_path(path0);
    pathbuf.push(path1);
    assert_eq!(path1, pathbuf.as_path());

    let path0 = Path::new("some/path/").unwrap();
    let path1 = Path::new("C:/file.txt").unwrap();
    let mut pathbuf = PathBuf::from_path(path0);
    pathbuf.push(path1);
    assert_eq!(path1, pathbuf.as_path());

    // pop

    let mut pathbuf = PathBuf::from_path(path);
    pathbuf.pop();
    assert_eq!(path0, pathbuf.as_path());

    // set_file_name

    let path1 = Path::new("some/path/other_file.png").unwrap();
    let mut pathbuf = PathBuf::from_path(path);
    pathbuf.set_file_name("other_file.png");
    assert_eq!(path1, pathbuf.as_path());
    
    let path0 = Path::new("some/..").unwrap();
    let path1 = Path::new("some/../other_file.png").unwrap();
    let mut pathbuf = PathBuf::from_path(path0);
    pathbuf.set_file_name("other_file.png");
    assert_eq!(path1, pathbuf.as_path());

    // set extension
    let path1 = Path::new("some/path/file.txt").unwrap();
    let mut pathbuf = PathBuf::from_path(path);
    pathbuf.set_extension("png");
}
