use tulfs::attrs::{attr_from_stat, project_attr, RemoteStat, ROOT_INODE};
use tulfs::engine::{Engine, OpenPlan, ReleaseOutcome, O_ACCMODE, O_RDONLY, O_RDWR};
use tulfs::errors::FsError;

fn engine() -> Engine {
    Engine::new(
        "alice@host",
        String::from("/srv/data"),
        String::from("/var/tmp/stage"),
    )
}

fn sample_stat(size: u64) -> RemoteStat {
    RemoteStat {
        size: Some(size),
        uid: Some(1000),
        gid: Some(1000),
        perm: Some(0o644),
        atime: Some(1),
        mtime: Some(2),
    }
}

/// Opens `name` under the root, handing `content` to the engine when the
/// open misses the staging store.
fn open_file(e: &mut Engine, name: &str, flags: u32, content: &[u8]) -> (u64, u64, u32) {
    let step = e.lookup_prepare(ROOT_INODE, name).unwrap();
    let ino = step.ino;
    match e.open_prepare(ino).unwrap() {
        OpenPlan::Fetch { .. } => {
            let (fh, eff) = e.open_finish_fetch(ino, flags, content.to_vec()).unwrap();
            (ino, fh, eff)
        }
        OpenPlan::Cached => {
            let (fh, eff) = e.open_cached(ino, flags).unwrap();
            (ino, fh, eff)
        }
    }
}

#[test]
fn mount_and_read_scenario() {
    // a mount of alice@host:/srv/data holding hello.txt = "hello\n"
    let mut e = engine();
    e.init();
    let step = e.lookup_prepare(ROOT_INODE, "hello.txt").unwrap();
    assert_eq!(step.child, "hello.txt");
    assert_eq!(step.remote_path, "/srv/data/hello.txt");
    // the remote stat reports six bytes; the attribute record shows them
    let attr = attr_from_stat(&Some(sample_stat(6)), false, step.ino, 9, 0, 0).unwrap();
    assert_eq!(attr.size, 6);
    // first open misses and fetches
    let plan = e.open_prepare(step.ino).unwrap();
    let (local, remote) = match plan {
        OpenPlan::Fetch { local_path, remote_path } => (local_path, remote_path),
        OpenPlan::Cached => panic!("first open must fetch"),
    };
    assert_eq!(remote, "/srv/data/hello.txt");
    let tag = tulfs::digest::server_tag("alice@host");
    assert_eq!(local, format!("/var/tmp/stage/{}/hello.txt", tag));
    let (fh, eff) = e.open_finish_fetch(step.ino, O_RDONLY, b"hello\n".to_vec()).unwrap();
    assert_eq!(eff, O_RDONLY);
    assert_eq!(e.read(fh, 0, 4096).unwrap(), b"hello\n".to_vec());
    // a second open hits the staging store: no fetch
    let plan2 = e.open_prepare(step.ino).unwrap();
    assert!(matches!(plan2, OpenPlan::Cached));
}

#[test]
fn write_then_flush_uploads_written_bytes() {
    // write "WORLD" at offset zero of "hello\n", flush, and the upload
    // carries "WORLD\n" while the staged size is unchanged
    let mut e = engine();
    let (_ino, fh, eff) = open_file(&mut e, "hello.txt", O_RDWR, b"hello\n");
    assert_eq!(eff, O_RDWR);
    assert_eq!(e.write(fh, 0, b"WORLD").unwrap(), 5);
    let plan = e.flush_prepare(fh).unwrap().expect("dirty handle must upload");
    assert_eq!(plan.remote_path, "/srv/data/hello.txt");
    assert_eq!(plan.content, b"WORLD\n".to_vec());
    assert_eq!(e.read(fh, 0, 4096).unwrap().len(), 6);
    e.flush_commit(fh);
    // the dirty bit is clear after a successful flush
    assert!(e.flush_prepare(fh).unwrap().is_none());
}

#[test]
fn concurrent_open_of_dirty_file_is_downgraded() {
    // a second read-write open of a file with an unflushed write is
    // downgraded to read-only, and its writes are refused
    let mut e = engine();
    let (ino, fh1, _) = open_file(&mut e, "hello.txt", O_RDWR, b"hello\n");
    assert_eq!(e.write(fh1, 0, b"X").unwrap(), 1);
    let plan = e.open_prepare(ino).unwrap();
    assert!(matches!(plan, OpenPlan::Cached));
    let (fh2, eff2) = e.open_cached(ino, O_RDWR).unwrap();
    assert_ne!(fh2, fh1);
    assert_eq!(eff2 & O_ACCMODE, O_RDONLY);
    assert_eq!(e.write(fh2, 0, b"Y"), Err(FsError::PermissionDenied));
    // the downgraded handle observes the dirty staged content
    assert_eq!(e.read(fh2, 0, 1).unwrap(), b"X".to_vec());
}

#[test]
fn release_without_flush_still_uploads() {
    // a dirty handle released without an explicit flush hands the write
    // to the upload the release performs
    let mut e = engine();
    let (_ino, fh, _) = open_file(&mut e, "hello.txt", O_RDWR, b"hello\n");
    e.write(fh, 0, b"WORLD").unwrap();
    let plan = e.release_prepare(fh).unwrap().expect("dirty handle must upload");
    assert_eq!(plan.content, b"WORLD\n".to_vec());
    assert!(matches!(
        e.release_commit(fh).unwrap(),
        ReleaseOutcome::Evicted { .. }
    ));
}

#[test]
fn lookup_of_unknown_parent_is_not_found() {
    let mut e = engine();
    assert_eq!(
        e.lookup_prepare(777, "x").unwrap_err(),
        FsError::NotFound
    );
}

#[test]
fn stat_failure_after_mount_is_not_found() {
    // a path whose remote stat fails resolves to not-found
    let mut e = engine();
    let step = e.lookup_prepare(ROOT_INODE, "gone.txt").unwrap();
    assert_eq!(
        attr_from_stat(&None, false, step.ino, 0, 0, 0),
        Err(FsError::NotFound)
    );
}

#[test]
fn reopen_after_release_fetches_fresh_content() {
    // open, write, release successfully: the staged copy is evicted, so
    // a re-open fetches fresh remote content instead of stale local data
    let mut e = engine();
    let (ino, fh, _) = open_file(&mut e, "hello.txt", O_RDWR, b"hello\n");
    e.write(fh, 0, b"WORLD").unwrap();
    assert!(e.release_prepare(fh).unwrap().is_some());
    let outcome = e.release_commit(fh).unwrap();
    match outcome {
        ReleaseOutcome::Evicted { local_path } => {
            assert!(local_path.starts_with("/var/tmp/stage/"));
            assert!(local_path.ends_with("/hello.txt"));
        }
        ReleaseOutcome::StillOpen => panic!("last handle must evict"),
    }
    // the registry mapping is gone with the last handle
    assert_eq!(e.getattr_prepare(ino).unwrap_err(), FsError::NotFound);
    // a fresh lookup re-interns and the open misses the staging store
    let step = e.lookup_prepare(ROOT_INODE, "hello.txt").unwrap();
    assert_eq!(step.ino, ino);
    assert!(matches!(e.open_prepare(ino).unwrap(), OpenPlan::Fetch { .. }));
    let (fh2, _) = e.open_finish_fetch(ino, O_RDONLY, b"WORLD\n".to_vec()).unwrap();
    assert_eq!(e.read(fh2, 0, 4096).unwrap(), b"WORLD\n".to_vec());
}

#[test]
fn handle_identifiers_strictly_increase() {
    let mut e = engine();
    let (ino, fh1, _) = open_file(&mut e, "a.txt", O_RDONLY, b"a");
    let (_, fh2, _) = open_file(&mut e, "b.txt", O_RDONLY, b"b");
    assert!(fh2 > fh1);
    e.release_commit(fh1).unwrap();
    let plan = e.open_prepare(ino);
    // the first file's mapping is gone; re-open of the second file still
    // issues a larger handle
    assert_eq!(plan.unwrap_err(), FsError::NotFound);
    let (_, fh3, _) = open_file(&mut e, "b.txt", O_RDONLY, b"b");
    assert!(fh3 > fh2);
}

#[test]
fn open_handles_are_counted_until_release() {
    let mut e = engine();
    let (ino, fh1, _) = open_file(&mut e, "a.txt", O_RDONLY, b"a");
    assert!(e.table.any_for_inode(ino));
    let (_, fh2, _) = open_file(&mut e, "a.txt", O_RDONLY, b"a");
    assert!(matches!(
        e.release_commit(fh1).unwrap(),
        ReleaseOutcome::StillOpen
    ));
    assert!(e.table.any_for_inode(ino));
    assert!(matches!(
        e.release_commit(fh2).unwrap(),
        ReleaseOutcome::Evicted { .. }
    ));
    assert!(!e.table.any_for_inode(ino));
}

#[test]
fn read_write_boundaries() {
    let mut e = engine();
    let (_ino, fh, _) = open_file(&mut e, "empty.txt", O_RDWR, b"");
    // read of a zero-length file is empty
    assert!(e.read(fh, 0, 4096).unwrap().is_empty());
    // write past end-of-file extends and zero-fills
    assert_eq!(e.write(fh, 3, b"ab").unwrap(), 2);
    assert_eq!(e.read(fh, 0, 4096).unwrap(), vec![0, 0, 0, b'a', b'b']);
    // read past the new end-of-file is empty
    assert!(e.read(fh, 5, 1).unwrap().is_empty());
    assert!(e.read(fh, 100, 1).unwrap().is_empty());
}

#[test]
fn unknown_handles_are_invalid_arguments() {
    let mut e = engine();
    assert_eq!(e.read(5, 0, 1).unwrap_err(), FsError::InvalidArgument);
    assert_eq!(e.write(5, 0, b"x").unwrap_err(), FsError::InvalidArgument);
    assert_eq!(e.flush_prepare(5).unwrap_err(), FsError::InvalidArgument);
    assert_eq!(e.release_commit(5).unwrap_err(), FsError::InvalidArgument);
}

#[test]
fn unaddressable_write_is_io_error() {
    let mut e = engine();
    let (_ino, fh, _) = open_file(&mut e, "a.txt", O_RDWR, b"a");
    assert_eq!(e.write(fh, u64::MAX, b"x").unwrap_err(), FsError::Io);
}

#[test]
fn getattr_of_root_uses_synthetic_record() {
    let e = engine();
    assert_eq!(e.getattr_prepare(ROOT_INODE).unwrap(), None);
}

#[test]
fn getattr_of_open_file_stats_remote_path() {
    let mut e = engine();
    let (ino, _fh, _) = open_file(&mut e, "d.txt", O_RDONLY, b"d");
    assert_eq!(
        e.getattr_prepare(ino).unwrap(),
        Some(String::from("/srv/data/d.txt"))
    );
}

#[test]
fn lookup_in_subdirectory_joins_paths() {
    let mut e = engine();
    let dir = e.lookup_prepare(ROOT_INODE, "docs").unwrap();
    let file = e.lookup_prepare(dir.ino, "notes.txt").unwrap();
    assert_eq!(file.child, "docs/notes.txt");
    assert_eq!(file.remote_path, "/srv/data/docs/notes.txt");
    // the staging path of the child names the parent hierarchy a first
    // open must create under the cache root
    let tag = tulfs::digest::server_tag("alice@host");
    match e.open_prepare(file.ino).unwrap() {
        OpenPlan::Fetch { local_path, .. } => {
            assert_eq!(local_path, format!("/var/tmp/stage/{}/docs/notes.txt", tag));
            assert_eq!(
                tulfs::paths::parent_dir(&local_path).unwrap(),
                format!("/var/tmp/stage/{}/docs", tag)
            );
        }
        OpenPlan::Cached => panic!("first open must fetch"),
    }
    // a directory attribute record comes from a directory probe
    let attr = project_attr(&sample_stat(4096), true, dir.ino, 0, 0, 0);
    assert_eq!(attr.size, 0);
}
