use geckolib::vfs::{split_path, FileSource, Vfs, VfsError, VfsErrorKind};

fn err(kind: VfsErrorKind, path: &str) -> VfsError {
    VfsError { kind, path: path.to_string() }
}

fn buffer(bytes: &[u8]) -> FileSource {
    FileSource::Buffer(bytes.to_vec())
}

#[test]
fn add_file_creates_missing_parents() {
    let mut fs = Vfs::new();
    assert_eq!(fs.add_file("a/b/c.bin", buffer(b"x")), Ok(()));
    assert_eq!(fs.lookup("a"), Some(true));
    assert_eq!(fs.lookup("a/b"), Some(true));
    assert_eq!(fs.lookup("a/b/c.bin"), Some(false));
    assert_eq!(fs.len(), 3);
    assert_eq!(fs.add_file("a/d.bin", FileSource::Disc { offset: 0x440, len: 4 }), Ok(()));
    assert_eq!(fs.len(), 4);
}

#[test]
fn adding_over_a_directory_is_a_name_conflict() {
    let mut fs = Vfs::new();
    fs.add_file("a/b/c.bin", buffer(b"x")).unwrap();
    assert_eq!(fs.add_file("a/b", buffer(b"y")), Err(err(VfsErrorKind::NameConflict, "a/b")));
    assert_eq!(fs.add_file("a/b/c.bin", buffer(b"y")), Err(err(VfsErrorKind::NameConflict, "a/b/c.bin")));
    assert_eq!(fs.add_file("a/b/c.bin/d", buffer(b"y")), Err(err(VfsErrorKind::NameConflict, "a/b/c.bin/d")));
    assert_eq!(fs.len(), 3);
}

#[test]
fn removing_a_missing_path_fails() {
    let mut fs = Vfs::new();
    assert_eq!(fs.remove_file("nope"), Err(err(VfsErrorKind::NotFound, "nope")));
    fs.add_file("a/b.bin", buffer(b"x")).unwrap();
    assert_eq!(fs.remove_file("a"), Err(err(VfsErrorKind::NotFound, "a")));
    assert_eq!(fs.remove_file("a/b.bin"), Ok(()));
    assert_eq!(fs.lookup("a/b.bin"), None);
    assert_eq!(fs.remove_file("a/b.bin"), Err(err(VfsErrorKind::NotFound, "a/b.bin")));
}

#[test]
fn sources_are_stored_and_replaced() {
    let mut fs = Vfs::new();
    fs.add_file("a/b/c.bin", buffer(b"abc")).unwrap();
    fs.add_file("a/d.bin", FileSource::Disc { offset: 0x440, len: 4 }).unwrap();
    assert_eq!(fs.source_of("a/b/c.bin"), Some(&buffer(b"abc")));
    assert_eq!(fs.source_of("a/d.bin"), Some(&FileSource::Disc { offset: 0x440, len: 4 }));
    assert_eq!(fs.source_of("a/b"), None);
    assert_eq!(fs.source_of("missing"), None);
    fs.replace_file("a/b/c.bin", FileSource::HostPath("new/c.bin".to_string())).unwrap();
    assert_eq!(fs.source_of("a/b/c.bin"), Some(&FileSource::HostPath("new/c.bin".to_string())));
    assert_eq!(fs.source_of("a/d.bin"), Some(&FileSource::Disc { offset: 0x440, len: 4 }));
    fs.remove_file("a/b/c.bin").unwrap();
    assert_eq!(fs.source_of("a/d.bin"), Some(&FileSource::Disc { offset: 0x440, len: 4 }));
}

#[test]
fn replace_keeps_the_shape() {
    let mut fs = Vfs::new();
    fs.add_file("sys/main.dol", buffer(b"x")).unwrap();
    assert_eq!(fs.replace_file("sys/main.dol", FileSource::HostPath("build/main.dol".to_string())), Ok(()));
    assert_eq!(fs.replace_file("sys/other.dol", buffer(b"z")), Err(err(VfsErrorKind::NotFound, "sys/other.dol")));
    assert_eq!(fs.replace_file("sys", buffer(b"z")), Err(err(VfsErrorKind::NotFound, "sys")));
    assert_eq!(fs.len(), 2);
}

#[test]
fn empty_path_is_invalid() {
    let mut fs = Vfs::new();
    assert_eq!(fs.add_file("", buffer(b"x")), Err(err(VfsErrorKind::InvalidPath, "")));
    assert_eq!(fs.add_file("//", buffer(b"x")), Err(err(VfsErrorKind::InvalidPath, "//")));
}

#[test]
fn path_components_drop_empty_parts() {
    assert_eq!(split_path("/a//b/"), vec!["a".to_string(), "b".to_string()]);
    assert!(split_path("").is_empty());
}
