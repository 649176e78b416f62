//! Projection of remote stat results into kernel-facing attribute records.
//!
//! A remote stat may leave any field unset; the projection supplies the
//! documented fallbacks: the calling process's effective owner and group,
//! default permission bits by kind, and the current time for missing
//! timestamps.  Creation and change times mirror the modification time.

use vstd::prelude::*;

use crate::errors::FsError;

verus! {

/// The reserved inode number of the mount root.
pub const ROOT_INODE: u64 = 1;

/// Default permission bits for a directory whose stat carries none.
pub const DEFAULT_DIR_PERM: u32 = 0o755;

/// Default permission bits for a regular file whose stat carries none.
pub const DEFAULT_FILE_PERM: u32 = 0o644;

/// Block size reported for every attribute record.
pub const BLOCK_SIZE: u32 = 512;

/// The kind of a filesystem object, as reported to the kernel.
#[derive(Clone, Copy, Debug, PartialEq, Eq, Structural)]
pub enum FileKind {
    Regular,
    Directory,
}

/// The fields of a remote stat result, each possibly missing.
/// Timestamps are seconds since the epoch.
#[derive(Clone, Copy, Debug, PartialEq, Eq, Structural)]
pub struct RemoteStat {
    pub size: Option<u64>,
    pub uid: Option<u32>,
    pub gid: Option<u32>,
    pub perm: Option<u32>,
    pub atime: Option<u64>,
    pub mtime: Option<u64>,
}

/// A kernel-facing attribute record.  Timestamps are seconds since the
/// epoch; the surrounding program converts them to system time values.
#[derive(Clone, Copy, Debug, PartialEq, Eq, Structural)]
pub struct FileAttrData {
    pub ino: u64,
    pub size: u64,
    pub kind: FileKind,
    pub perm: u16,
    pub nlink: u32,
    pub uid: u32,
    pub gid: u32,
    pub atime: u64,
    pub mtime: u64,
    pub ctime: u64,
    pub crtime: u64,
    pub blksize: u32,
}

/// The attribute record projected from a remote stat: missing owner and
/// group default to the process's effective ids, missing permission bits
/// default by kind, missing times default to `now`, change and creation
/// times mirror the modification time, directories report size zero, and
/// the link count is two for directories and one for regular files.
pub open spec fn spec_project_attr(
    stat: RemoteStat,
    is_dir: bool,
    ino: u64,
    now: u64,
    proc_uid: u32,
    proc_gid: u32,
) -> FileAttrData {
    let kind = if is_dir {
        FileKind::Directory
    } else {
        FileKind::Regular
    };
    let perm_bits = match stat.perm {
        Some(p) => p,
        None => if is_dir {
            DEFAULT_DIR_PERM
        } else {
            DEFAULT_FILE_PERM
        },
    };
    let mtime = match stat.mtime {
        Some(t) => t,
        None => now,
    };
    FileAttrData {
        ino,
        size: if is_dir {
            0
        } else {
            match stat.size {
                Some(s) => s,
                None => 0,
            }
        },
        kind,
        perm: (perm_bits % 0x10000) as u16,
        nlink: if is_dir {
            2
        } else {
            1
        },
        uid: match stat.uid {
            Some(u) => u,
            None => proc_uid,
        },
        gid: match stat.gid {
            Some(g) => g,
            None => proc_gid,
        },
        atime: match stat.atime {
            Some(t) => t,
            None => now,
        },
        mtime,
        ctime: mtime,
        crtime: mtime,
        blksize: BLOCK_SIZE,
    }
}

/// Projects a remote stat result into an attribute record for inode `ino`.
pub fn project_attr(
    stat: &RemoteStat,
    is_dir: bool,
    ino: u64,
    now: u64,
    proc_uid: u32,
    proc_gid: u32,
) -> (r: FileAttrData)
    ensures
        r == spec_project_attr(*stat, is_dir, ino, now, proc_uid, proc_gid),
{
    let kind = if is_dir {
        FileKind::Directory
    } else {
        FileKind::Regular
    };
    let perm_bits: u32 = match stat.perm {
        Some(p) => p,
        None => if is_dir {
            DEFAULT_DIR_PERM
        } else {
            DEFAULT_FILE_PERM
        },
    };
    let mtime: u64 = match stat.mtime {
        Some(t) => t,
        None => now,
    };
    FileAttrData {
        ino,
        size: if is_dir {
            0
        } else {
            match stat.size {
                Some(s) => s,
                None => 0,
            }
        },
        kind,
        perm: (perm_bits % 0x10000) as u16,
        nlink: if is_dir {
            2
        } else {
            1
        },
        uid: match stat.uid {
            Some(u) => u,
            None => proc_uid,
        },
        gid: match stat.gid {
            Some(g) => g,
            None => proc_gid,
        },
        atime: match stat.atime {
            Some(t) => t,
            None => now,
        },
        mtime,
        ctime: mtime,
        crtime: mtime,
        blksize: BLOCK_SIZE,
    }
}

/// The attribute record produced from an optional remote stat result:
/// a failed stat yields not-found, a successful one yields the projection.
/// A remote stat that fails maps to not-found whatever the other inputs
/// are, so a lookup of a nonexistent child reports not-found.
pub fn attr_from_stat(
    stat: &Option<RemoteStat>,
    is_dir: bool,
    ino: u64,
    now: u64,
    proc_uid: u32,
    proc_gid: u32,
) -> (r: Result<FileAttrData, FsError>)
    ensures
        match *stat {
            Some(s) => r == Result::<FileAttrData, FsError>::Ok(
                spec_project_attr(s, is_dir, ino, now, proc_uid, proc_gid),
            ),
            None => r == Result::<FileAttrData, FsError>::Err(FsError::NotFound),
        },
{
    match stat {
        Some(s) => Ok(project_attr(s, is_dir, ino, now, proc_uid, proc_gid)),
        None => Err(FsError::NotFound),
    }
}

/// The synthetic attribute record of the mount root: a directory with
/// permission bits `0o755`, current-time stamps, and size zero.
pub open spec fn spec_root_attr(now: u64, proc_uid: u32, proc_gid: u32) -> FileAttrData {
    FileAttrData {
        ino: ROOT_INODE,
        size: 0,
        kind: FileKind::Directory,
        perm: 0o755,
        nlink: 2,
        uid: proc_uid,
        gid: proc_gid,
        atime: now,
        mtime: now,
        ctime: now,
        crtime: now,
        blksize: BLOCK_SIZE,
    }
}

/// Builds the synthetic attribute record of the mount root.
pub fn root_attr(now: u64, proc_uid: u32, proc_gid: u32) -> (r: FileAttrData)
    ensures
        r == spec_root_attr(now, proc_uid, proc_gid),
{
    FileAttrData {
        ino: ROOT_INODE,
        size: 0,
        kind: FileKind::Directory,
        perm: 0o755,
        nlink: 2,
        uid: proc_uid,
        gid: proc_gid,
        atime: now,
        mtime: now,
        ctime: now,
        crtime: now,
        blksize: BLOCK_SIZE,
    }
}

} // verus!
