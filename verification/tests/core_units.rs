use tulfs::attrs::{attr_from_stat, project_attr, root_attr, FileKind, RemoteStat, ROOT_INODE};
use tulfs::bytes::{read_at, write_at};
use tulfs::digest::{hex_string, inode_for_path, server_tag};
use tulfs::errors::{kernel_code, FsError};
use tulfs::paths::{extract_hostname_and_path, join_child, local_path_for, parent_dir,
                   remote_path_for, split_user_host};
use tulfs::registry::Registry;

#[test]
fn kernel_codes_match_error_table() {
    assert_eq!(kernel_code(FsError::NotFound), 2);
    assert_eq!(kernel_code(FsError::Io), 5);
    assert_eq!(kernel_code(FsError::PermissionDenied), 13);
    assert_eq!(kernel_code(FsError::AlreadyExists), 17);
    assert_eq!(kernel_code(FsError::NotADirectory), 20);
    assert_eq!(kernel_code(FsError::InvalidArgument), 22);
}

#[test]
fn project_attr_fills_missing_fields() {
    let stat = RemoteStat {
        size: Some(6),
        uid: None,
        gid: Some(7),
        perm: None,
        atime: Some(10),
        mtime: None,
    };
    let a = project_attr(&stat, false, 42, 99, 5, 6);
    assert_eq!(a.ino, 42);
    assert_eq!(a.size, 6);
    assert_eq!(a.kind, FileKind::Regular);
    assert_eq!(a.perm, 0o644);
    assert_eq!(a.nlink, 1);
    assert_eq!(a.uid, 5);
    assert_eq!(a.gid, 7);
    assert_eq!(a.atime, 10);
    assert_eq!(a.mtime, 99);
    assert_eq!(a.ctime, 99);
    assert_eq!(a.crtime, 99);
    assert_eq!(a.blksize, 512);
}

#[test]
fn project_attr_directory_reports_zero_size() {
    let stat = RemoteStat {
        size: Some(4096),
        uid: Some(1),
        gid: Some(1),
        perm: None,
        atime: None,
        mtime: Some(3),
    };
    let a = project_attr(&stat, true, 9, 50, 0, 0);
    assert_eq!(a.size, 0);
    assert_eq!(a.kind, FileKind::Directory);
    assert_eq!(a.perm, 0o755);
    assert_eq!(a.nlink, 2);
    assert_eq!(a.atime, 50);
    assert_eq!(a.mtime, 3);
}

#[test]
fn attr_from_failed_stat_is_not_found() {
    let r = attr_from_stat(&None, false, 7, 0, 0, 0);
    assert_eq!(r, Err(FsError::NotFound));
}

#[test]
fn root_attr_is_synthetic_directory() {
    let a = root_attr(1234, 10, 20);
    assert_eq!(a.ino, ROOT_INODE);
    assert_eq!(a.size, 0);
    assert_eq!(a.kind, FileKind::Directory);
    assert_eq!(a.perm, 0o755);
    assert_eq!(a.nlink, 2);
    assert_eq!(a.uid, 10);
    assert_eq!(a.gid, 20);
    assert_eq!(a.atime, 1234);
    assert_eq!(a.mtime, 1234);
}

#[test]
fn extract_hostname_and_path_splits_on_first_colon() {
    let r = extract_hostname_and_path("alice@host:/srv/data").unwrap();
    assert_eq!(r.0, "alice@host");
    assert_eq!(r.1, "/srv/data");
    let r2 = extract_hostname_and_path("h:a:b").unwrap();
    assert_eq!(r2.0, "h");
    assert_eq!(r2.1, "a:b");
    assert!(extract_hostname_and_path("no-colon-here").is_none());
}

#[test]
fn split_user_host_splits_on_first_at_sign() {
    let r = split_user_host("alice@host").unwrap();
    assert_eq!(r.0, "alice");
    assert_eq!(r.1, "host");
    assert!(split_user_host("nouser").is_none());
}

#[test]
fn join_child_forms_canonical_paths() {
    assert_eq!(join_child("", "hello.txt"), "hello.txt");
    assert_eq!(join_child("dir", "a.txt"), "dir/a.txt");
    assert_eq!(join_child("dir/sub", "b"), "dir/sub/b");
}

#[test]
fn local_and_remote_paths_are_prefixed() {
    assert_eq!(local_path_for("/var/tmp/stage", "abcd", "d/f.txt"), "/var/tmp/stage/abcd/d/f.txt");
    assert_eq!(local_path_for("/var/tmp/stage", "abcd", ""), "/var/tmp/stage/abcd");
    assert_eq!(remote_path_for("/srv/data", "f.txt"), "/srv/data/f.txt");
    assert_eq!(remote_path_for("/srv/data", ""), "/srv/data");
}

#[test]
fn parent_dir_is_prefix_before_last_separator() {
    assert_eq!(parent_dir("/var/tmp/stage/abcd/d/f.txt").unwrap(), "/var/tmp/stage/abcd/d");
    assert_eq!(parent_dir("a/b").unwrap(), "a");
    assert!(parent_dir("f.txt").is_none());
    assert!(parent_dir("").is_none());
}

#[test]
fn hex_string_encodes_two_digits_per_byte() {
    assert_eq!(hex_string(&vec![0x00, 0xff, 0x1a]), "00ff1a");
    assert_eq!(hex_string(&vec![]), "");
}

#[test]
fn server_tag_is_hex_digest_of_connection_string() {
    // the digest of "abc" is the well-known value below; a tag that
    // echoed its argument back would fail here
    assert_eq!(server_tag("abc"), "900150983cd24fb0d6963f7d28e17f72");
    assert_eq!(server_tag(""), "d41d8cd98f00b204e9800998ecf8427e");
}

#[test]
fn inode_is_big_endian_prefix_of_path_digest() {
    assert_eq!(inode_for_path("abc"), 0x900150983cd24fb0);
}

#[test]
fn read_of_zero_length_content_is_empty() {
    let c: Vec<u8> = Vec::new();
    assert!(read_at(&c, 0, 16).is_empty());
}

#[test]
fn read_past_end_of_file_is_empty() {
    let c = vec![1u8, 2, 3];
    assert!(read_at(&c, 3, 4).is_empty());
    assert!(read_at(&c, 100, 4).is_empty());
}

#[test]
fn read_at_end_of_file_is_short() {
    let c = vec![1u8, 2, 3];
    assert_eq!(read_at(&c, 1, 10), vec![2, 3]);
}

#[test]
fn write_beyond_end_of_file_zero_fills_the_gap() {
    let c = vec![9u8];
    let w = write_at(&c, 3, &[7, 8]).unwrap();
    assert_eq!(w, vec![9, 0, 0, 7, 8]);
}

#[test]
fn write_then_read_returns_bytes_written() {
    let c = vec![1u8, 2, 3, 4];
    let w = write_at(&c, 1, &[7, 8]).unwrap();
    assert_eq!(w, vec![1, 7, 8, 4]);
    assert_eq!(read_at(&w, 1, 2), vec![7, 8]);
}

#[test]
fn registry_intern_then_resolve_round_trips() {
    let mut r = Registry::new();
    let ino = r.intern("hello.txt");
    assert_ne!(ino, ROOT_INODE);
    assert_eq!(r.resolve(ino).unwrap(), "hello.txt");
    // interning again returns the same inode
    assert_eq!(r.intern("hello.txt"), ino);
}

#[test]
fn registry_root_is_implicit() {
    let mut r = Registry::new();
    assert_eq!(r.intern(""), ROOT_INODE);
    assert_eq!(r.resolve(ROOT_INODE).unwrap(), "");
}

#[test]
fn registry_forget_is_idempotent() {
    let mut r = Registry::new();
    let ino = r.intern("a/b");
    r.forget(ino, "a/b");
    assert!(r.resolve(ino).is_none());
    r.forget(ino, "a/b");
    assert!(r.resolve(ino).is_none());
}
