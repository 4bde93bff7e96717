use dicom_batch::walker::{DirEntry, PathKind, Walk, WalkError};

// A directory tree without a file system: what each directory lists.
fn listing(directory: &str) -> Vec<DirEntry> {
    let file = PathKind::File;
    let dir = PathKind::Directory;
    let entries: &[(&str, PathKind)] = match directory {
        "root" => &[
            ("root/a.dcm", file),
            ("root/sub", dir),
            ("root/fifo", PathKind::Other),
            ("root/b.dcm", file),
            ("root/empty", dir),
        ],
        "root/sub" => &[("root/sub/deep", dir), ("root/sub/c.dcm", file)],
        "root/sub/deep" => &[
            ("root/sub/deep/d.dcm", file),
            ("root/sub/deep/gone", PathKind::Missing),
            ("root/sub/deep/e.txt", file),
        ],
        "root/empty" => &[],
        other => panic!("{} is no directory", other),
    };
    entries.iter().map(|(path, kind)| DirEntry { path: path.to_string(), kind: *kind }).collect()
}

fn walk(root: &str, kind: PathKind) -> Result<Vec<String>, WalkError> {
    let mut walk = Walk::start(root.to_string(), kind)?;
    let mut listed = 0;
    while let Some(directory) = walk.next_directory() {
        walk.record_listing(listing(&directory));
        listed += 1;
        assert!(listed <= 4);
    }
    assert!(walk.is_done());
    Ok(walk.into_files())
}

#[test]
fn walk_finds_every_file_once_and_no_directory() {
    let mut files = walk("root", PathKind::Directory).unwrap();
    files.sort();
    assert_eq!(
        files,
        vec![
            "root/a.dcm",
            "root/b.dcm",
            "root/sub/c.dcm",
            "root/sub/deep/d.dcm",
            "root/sub/deep/e.txt",
        ]
    );
}

#[test]
fn walk_of_a_single_file() {
    assert_eq!(walk("one.dcm", PathKind::File), Ok(vec!["one.dcm".to_string()]));
}

#[test]
fn walk_of_a_path_that_does_not_exist() {
    assert_eq!(walk("nowhere", PathKind::Missing), Err(WalkError::NotFound));
    assert!(matches!(
        Walk::start("nowhere".to_string(), PathKind::Missing),
        Err(WalkError::NotFound)
    ));
}

#[test]
fn walk_of_something_else_and_of_an_empty_directory() {
    assert_eq!(walk("socket", PathKind::Other), Ok(Vec::new()));
    assert_eq!(walk("root/empty", PathKind::Directory), Ok(Vec::new()));
}

#[test]
fn walk_step_by_step() {
    let mut walk = Walk::start("root".to_string(), PathKind::Directory).ok().unwrap();
    assert_eq!(walk.pending, vec!["root"]);
    assert!(walk.files.is_empty());
    assert!(!walk.is_done());
    assert_eq!(walk.next_directory(), Some("root".to_string()));
    assert!(walk.pending.is_empty());
    walk.record_listing(listing("root"));
    assert_eq!(walk.pending, vec!["root/sub", "root/empty"]);
    assert_eq!(walk.files, vec!["root/a.dcm", "root/b.dcm"]);
    assert_eq!(walk.next_directory(), Some("root/empty".to_string()));
    walk.record_listing(listing("root/empty"));
    assert_eq!(walk.pending, vec!["root/sub"]);
    assert_eq!(walk.files, vec!["root/a.dcm", "root/b.dcm"]);
    assert_eq!(walk.next_directory(), Some("root/sub".to_string()));
    walk.record_listing(listing("root/sub"));
    assert_eq!(walk.pending, vec!["root/sub/deep"]);
    assert_eq!(walk.files, vec!["root/a.dcm", "root/b.dcm", "root/sub/c.dcm"]);
    assert_eq!(walk.next_directory(), Some("root/sub/deep".to_string()));
    walk.record_listing(listing("root/sub/deep"));
    assert_eq!(walk.next_directory(), None);
    assert_eq!(walk.next_directory(), None);
    assert!(walk.is_done());
    assert_eq!(walk.into_files().len(), 5);
}

#[test]
fn walk_passes_over_what_is_neither_file_nor_directory() {
    let mut walk = Walk::start("d".to_string(), PathKind::Directory).ok().unwrap();
    assert_eq!(walk.next_directory(), Some("d".to_string()));
    walk.record_listing(vec![
        DirEntry { path: "d/fifo".to_string(), kind: PathKind::Other },
        DirEntry { path: "d/socket".to_string(), kind: PathKind::Other },
        DirEntry { path: "d/dangling".to_string(), kind: PathKind::Missing },
    ]);
    assert!(walk.is_done());
    assert!(walk.into_files().is_empty());
}
