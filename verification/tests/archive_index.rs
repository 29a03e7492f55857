use mc_rs::archive_index::{member_key, normalize_key, ArchiveFormat, ArchiveIndex, ArchiveMember};
use mc_rs::entry::EntryKind;
use mc_rs::error::Error;
use mc_rs::path::VPath;

fn member(path: &str, kind: EntryKind, size: u64) -> ArchiveMember {
    ArchiveMember { path: path.into(), kind, size, mode: None, mtime: None, target: None }
}

fn names(index: &ArchiveIndex, dir: &str) -> Vec<String> {
    index.read_dir(dir).unwrap().into_iter().map(|e| e.name).collect()
}

fn vfs_message(e: Error) -> String {
    match e {
        Error::Vfs(m) => m,
        other => panic!("unexpected {other:?}"),
    }
}

#[test]
fn tar_listing_and_lookup() {
    let index = ArchiveIndex::build(
        ArchiveFormat::Tar,
        "tar",
        vec![member("dir/", EntryKind::Dir, 0), member("dir/file.txt", EntryKind::File, 11)],
    );
    let root = index.read_dir("/").unwrap();
    assert_eq!(root.len(), 1);
    assert_eq!(root[0].name, "dir");
    assert_eq!(root[0].kind, EntryKind::Dir);
    let inner = index.read_dir("/dir").unwrap();
    assert_eq!(inner.len(), 1);
    assert_eq!(inner[0].name, "file.txt");
    assert_eq!(inner[0].size, 11);
    assert_eq!(index.stat("/dir/file.txt").unwrap().size, 11);
    assert_eq!(index.stat("/").unwrap().name, "/");
    assert_eq!(index.file_entry("/dir/file.txt").unwrap().name, "file.txt");
    assert_eq!(vfs_message(index.file_entry("/dir").unwrap_err()), "not a regular file: /dir");
    assert_eq!(vfs_message(index.file_entry("/nope").unwrap_err()), "not found: /nope");
    assert_eq!(vfs_message(index.stat("/nope").unwrap_err()), "not found: /nope");
    assert_eq!(vfs_message(index.read_dir("/dir/file.txt").unwrap_err()), "not a directory: /dir/file.txt");
}

#[test]
fn missing_directories_are_synthesised() {
    let index = ArchiveIndex::build(ArchiveFormat::Tar, "tar", vec![member("a/b/c.txt", EntryKind::File, 3)]);
    assert_eq!(names(&index, "/"), vec!["a"]);
    assert_eq!(names(&index, "/a"), vec!["b"]);
    assert_eq!(names(&index, "/a/b"), vec!["c.txt"]);
    let b = index.stat("/a/b").unwrap();
    assert_eq!(b.name, "b");
    assert_eq!(b.kind, EntryKind::Dir);
    assert!(index.read_dir("/a").unwrap()[0].mode.is_none());
}

#[test]
fn names_sorted_once_and_later_member_wins() {
    let index = ArchiveIndex::build(
        ArchiveFormat::Tar,
        "tar",
        vec![
            member("z", EntryKind::File, 1),
            member("a", EntryKind::File, 2),
            member("m/", EntryKind::Dir, 0),
            member("a", EntryKind::File, 5),
            member("m/x", EntryKind::File, 1),
        ],
    );
    assert_eq!(names(&index, "/"), vec!["a", "m", "z"]);
    assert_eq!(index.stat("/a").unwrap().size, 5);
    assert_eq!(index.stat("/m").unwrap().kind, EntryKind::Dir);
}

#[test]
fn zip_skips_traversal_members() {
    let index = ArchiveIndex::build(
        ArchiveFormat::Zip,
        "zip",
        vec![member("../../etc/passwd", EntryKind::File, 3), member("/", EntryKind::Dir, 0)],
    );
    assert!(index.read_dir("/").unwrap().is_empty());
    let ok = ArchiveIndex::build(
        ArchiveFormat::Zip,
        "zip",
        vec![member("dir/", EntryKind::Dir, 0), member("dir/hello.txt", EntryKind::File, 6)],
    );
    assert!(ok.read_dir("/").unwrap().iter().any(|e| e.name == "dir"));
    assert!(ok.read_dir("/dir").unwrap().iter().any(|e| e.name == "hello.txt"));
}

#[test]
fn sevenz_root_is_unnamed() {
    let index = ArchiveIndex::build(ArchiveFormat::SevenZ, "7z", vec![member("d/f", EntryKind::File, 1)]);
    assert_eq!(index.stat("/").unwrap().name, "");
    assert_eq!(names(&index, "/d"), vec!["f"]);
}

#[test]
fn member_keys_per_format() {
    assert_eq!(member_key(ArchiveFormat::Tar, ""), None);
    assert_eq!(member_key(ArchiveFormat::Tar, "/"), None);
    assert_eq!(member_key(ArchiveFormat::Tar, "./"), None);
    assert_eq!(member_key(ArchiveFormat::Tar, "dir/").as_deref(), Some("/dir"));
    assert_eq!(member_key(ArchiveFormat::Zip, "///"), None);
    assert_eq!(member_key(ArchiveFormat::Zip, "a/../b"), None);
    assert_eq!(member_key(ArchiveFormat::Zip, "./a//b/").as_deref(), Some("/a/b"));
    assert_eq!(member_key(ArchiveFormat::Zip, "."), None);
    assert_eq!(member_key(ArchiveFormat::SevenZ, "").as_deref(), Some("/"));
    assert_eq!(member_key(ArchiveFormat::SevenZ, "x/y").as_deref(), Some("/x/y"));
}

#[test]
fn normalised_keys() {
    assert_eq!(normalize_key(""), "/");
    assert_eq!(normalize_key("//"), "/");
    assert_eq!(normalize_key("a/b/"), "/a/b");
    assert_eq!(normalize_key("/a"), "/a");
}

#[test]
fn keys_of_paths() {
    let tar = ArchiveIndex::build(ArchiveFormat::Tar, "tar", Vec::new());
    let p: VPath = "local:/a.tar!tar:/dir/".parse().unwrap();
    assert_eq!(tar.key_for(&p).unwrap(), "/dir");
    let q: VPath = "local:/a.zip".parse().unwrap();
    match tar.key_for(&q) {
        Err(Error::InvalidPath(m)) => assert_eq!(m, "vpath has no tar layer"),
        other => panic!("unexpected {other:?}"),
    }
    let zip = ArchiveIndex::build(ArchiveFormat::Zip, "zip", Vec::new());
    let ok: VPath = "local:/a.zip!zip:/x/./y".parse().unwrap();
    assert_eq!(zip.key_for(&ok).unwrap(), "/x/y");
    let bad: VPath = "local:/a.zip!zip:/x/../../y".parse().unwrap();
    match zip.key_for(&bad) {
        Err(Error::InvalidPath(m)) => assert_eq!(m, "path traversal in local:/a.zip!zip:/x/../../y"),
        other => panic!("unexpected {other:?}"),
    }
}
