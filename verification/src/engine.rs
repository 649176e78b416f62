//! The VFS-bridge engine: kernel request handling over the registry, the
//! open-file table, and the staging store.
//!
//! Each kernel callback is served by one engine call, or by a prepare
//! call, a remote operation performed by the surrounding program, and a
//! finish call.  The engine itself performs no I/O: a prepare call
//! returns the paths and bytes the surrounding program needs, and a
//! finish call installs what came back.  Every call preserves the engine
//! invariant: the registry is a bijection, handles are distinct and
//! monotonically issued, and every open entry's staged content is
//! present in the store.

use vstd::prelude::*;

use crate::attrs::ROOT_INODE;
use crate::bytes::lemma_write_then_read;
use crate::bytes::read_at;
use crate::bytes::spec_read_at;
use crate::bytes::spec_write_at;
use crate::bytes::write_at;
use crate::cache::CacheStore;
use crate::cache::cache_content;
use crate::cache::cache_has;
use crate::cache::clone_bytes;
use crate::digest::server_tag;
use crate::digest::spec_server_tag;
use crate::errors::FsError;
use crate::paths::join_child;
use crate::paths::local_path_for;
use crate::paths::remote_path_for;
use crate::paths::spec_join_child;
use crate::paths::spec_local_path;
use crate::paths::spec_remote_path;
use crate::digest::spec_ino_of_path;
use crate::registry::Registry;
use crate::registry::reg_has_path;
use crate::registry::spec_resolve;
use crate::table::EntryModel;
use crate::table::OpenEntry;
use crate::table::OpenTable;
use crate::table::model_of;
use crate::table::spec_any_dirty_for_inode;
use crate::table::spec_any_for_inode;
use crate::table::spec_any_for_path;
use crate::table::tbl_get;
use crate::table::tbl_has;

verus! {

/// Access-mode values of the platform's open interface: the two low bits
/// of the flags select read-only, write-only, or read-write access.
pub const O_RDONLY: u32 = 0;

pub const O_WRONLY: u32 = 1;

pub const O_RDWR: u32 = 2;

pub const O_ACCMODE: u32 = 3;

/// Whether access mode flags request write access.
pub open spec fn spec_write_capable(flags: u32) -> bool {
    flags % 4 == O_WRONLY || flags % 4 == O_RDWR
}

/// The effective flags of an open: the requested flags, or the requested
/// flags with the access mode cleared to read-only when write access is
/// denied.
pub open spec fn spec_effective_flags(flags: u32, allow_write: bool) -> u32 {
    if allow_write {
        flags
    } else {
        (flags - flags % 4) as u32
    }
}

/// Reports whether access mode flags request write access.
pub fn write_capable(flags: u32) -> (r: bool)
    ensures
        r == spec_write_capable(flags),
{
    flags % 4 == O_WRONLY || flags % 4 == O_RDWR
}

/// Process-wide configuration: the remote backing root, the local cache
/// root, and the server namespace tag partitioning the cache.
pub struct EngineConfig {
    pub backing_root: String,
    pub cache_root: String,
    pub server_tag: String,
}

/// What an open must do before an entry can be installed: nothing when
/// the staged copy is present, or fetch the remote file into the named
/// local path.
#[derive(Debug)]
pub enum OpenPlan {
    Cached,
    Fetch { local_path: String, remote_path: String },
}

/// What a flush of a dirty handle must upload: the whole staged content,
/// to the named remote path.
#[derive(Debug)]
pub struct UploadPlan {
    pub remote_path: String,
    pub content: Vec<u8>,
}

/// The resolution of a lookup: the child's inode, its backing-relative
/// path, and the remote path to stat.
#[derive(Debug)]
pub struct LookupStep {
    pub ino: u64,
    pub child: String,
    pub remote_path: String,
}

/// The outcome of releasing a handle: other handles still reference the
/// inode, or this was the last one and the staged copy at the named
/// local path may be deleted.
#[derive(Debug)]
pub enum ReleaseOutcome {
    StillOpen,
    Evicted { local_path: String },
}

/// The engine state: registry, open-file table, staging store, and
/// configuration.
pub struct Engine {
    pub registry: Registry,
    pub table: OpenTable,
    pub cache: CacheStore,
    pub config: EngineConfig,
}

/// Whether an open of `ino` would fetch: nothing for an unknown inode,
/// and otherwise whether the staged copy is absent.
pub open spec fn spec_open_needs_fetch(e: Engine, ino: u64) -> Option<bool> {
    match spec_resolve(e.registry.entries@, ino) {
        Some(p) => Some(!cache_has(e.cache.slots@, p)),
        None => None,
    }
}

impl Engine {
    /// The engine invariant: registry, table and store are well-formed,
    /// and every open entry's staged content is present in the store for
    /// the lifetime of the entry.
    pub open spec fn wf(self) -> bool {
        &&& self.registry.wf()
        &&& self.table.wf()
        &&& self.cache.wf()
        &&& forall|i: int|
            0 <= i < self.table.slots@.len() ==> cache_has(
                self.cache.slots@,
                (#[trigger] self.table.slots@[i]).entry.path@,
            )
    }

    /// Creates an engine for the given connection string and roots, with
    /// no mappings, no handles, and nothing staged.
    pub fn new(user_host: &str, backing_root: String, cache_root: String) -> (r: Engine)
        ensures
            r.wf(),
            r.config.backing_root@ == backing_root@,
            r.config.cache_root@ == cache_root@,
            r.config.server_tag@ == spec_server_tag(user_host@),
            r.registry.entries@.len() == 0,
            r.table.slots@.len() == 0,
            r.table.next_fh == 1,
            r.cache.slots@.len() == 0,
    {
        Engine {
            registry: Registry::new(),
            table: OpenTable::new(),
            cache: CacheStore::new(),
            config: EngineConfig { backing_root, cache_root, server_tag: server_tag(user_host) },
        }
    }

    /// Serves the initialize callback: the root mapping exists, with no
    /// possible error.  The root inode resolves without consulting
    /// storage, so there is nothing to install.
    pub fn init(&self)
        requires
            self.wf(),
        ensures
            spec_resolve(self.registry.entries@, ROOT_INODE) == Some(Seq::<char>::empty()),
    {
    }

    /// Resolves a lookup: the parent's path is joined with the entry
    /// name, the child path is interned, and the remote path to stat is
    /// returned.  Fails with not-found when the parent inode is unknown.
    pub fn lookup_prepare(&mut self, parent: u64, name: &str) -> (r: Result<LookupStep, FsError>)
        requires
            old(self).wf(),
        ensures
            final(self).wf(),
            final(self).table.slots@ == old(self).table.slots@,
            final(self).table.next_fh == old(self).table.next_fh,
            final(self).cache.slots@ == old(self).cache.slots@,
            final(self).config == old(self).config,
            match r {
                Ok(step) => {
                    &&& spec_resolve(old(self).registry.entries@, parent) is Some
                    &&& step.child@ == spec_join_child(
                        spec_resolve(old(self).registry.entries@, parent)->Some_0,
                        name@,
                    )
                    &&& step.remote_path@ == spec_remote_path(
                        old(self).config.backing_root@,
                        step.child@,
                    )
                    &&& (step.child@.len() == 0 ==> step.ino == ROOT_INODE)
                    &&& (step.child@.len() > 0 && step.ino == ROOT_INODE
                        ==> !reg_has_path(old(self).registry.entries@, step.child@)
                        && spec_ino_of_path(step.child@) == ROOT_INODE)
                    &&& (step.ino != ROOT_INODE ==> spec_resolve(
                        final(self).registry.entries@,
                        step.ino,
                    ) == Some(step.child@))
                },
                Err(e) => {
                    &&& e == FsError::NotFound
                    &&& spec_resolve(old(self).registry.entries@, parent) is None
                    &&& final(self).registry.entries@ == old(self).registry.entries@
                },
            },
    {
        let parent_path = match self.registry.resolve(parent) {
            Some(p) => p,
            None => {
                return Err(FsError::NotFound);
            },
        };
        let child = join_child(parent_path.as_str(), name);
        let ino = self.registry.intern(child.as_str());
        let remote = remote_path_for(self.config.backing_root.as_str(), child.as_str());
        Ok(LookupStep { ino, child, remote_path: remote })
    }

    /// Resolves a get-attributes request: nothing to stat for the root
    /// inode, whose synthetic record the caller builds; otherwise the
    /// remote path to stat.  Fails with not-found for an unknown inode.
    pub fn getattr_prepare(&self, ino: u64) -> (r: Result<Option<String>, FsError>)
        requires
            self.wf(),
        ensures
            match r {
                Ok(opt) => match opt {
                    None => ino == ROOT_INODE,
                    Some(remote) => ino != ROOT_INODE && spec_resolve(
                        self.registry.entries@,
                        ino,
                    ) is Some && remote@ == spec_remote_path(
                        self.config.backing_root@,
                        spec_resolve(self.registry.entries@, ino)->Some_0,
                    ),
                },
                Err(e) => e == FsError::NotFound && spec_resolve(
                    self.registry.entries@,
                    ino,
                ) is None,
            },
    {
        if ino == ROOT_INODE {
            return Ok(None);
        }
        let path = match self.registry.resolve(ino) {
            Some(p) => p,
            None => {
                return Err(FsError::NotFound);
            },
        };
        Ok(Some(remote_path_for(self.config.backing_root.as_str(), path.as_str())))
    }

    /// Decides how an open of `ino` proceeds: use the staged copy when
    /// present, otherwise fetch the remote file into the named local
    /// path.  Fails with not-found for an unknown inode.  A file whose
    /// staged copy was evicted is therefore opened by fetching fresh
    /// remote content, never from stale local data.
    pub fn open_prepare(&self, ino: u64) -> (r: Result<OpenPlan, FsError>)
        requires
            self.wf(),
        ensures
            match r {
                Ok(plan) => {
                    &&& spec_resolve(self.registry.entries@, ino) is Some
                    &&& (match plan {
                        OpenPlan::Cached => spec_open_needs_fetch(*self, ino) == Some(false),
                        OpenPlan::Fetch { local_path, remote_path } => {
                            &&& spec_open_needs_fetch(*self, ino) == Some(true)
                            &&& local_path@ == spec_local_path(
                                self.config.cache_root@,
                                self.config.server_tag@,
                                spec_resolve(self.registry.entries@, ino)->Some_0,
                            )
                            &&& remote_path@ == spec_remote_path(
                                self.config.backing_root@,
                                spec_resolve(self.registry.entries@, ino)->Some_0,
                            )
                        },
                    })
                },
                Err(e) => e == FsError::NotFound && spec_resolve(
                    self.registry.entries@,
                    ino,
                ) is None,
            },
    {
        let path = match self.registry.resolve(ino) {
            Some(p) => p,
            None => {
                return Err(FsError::NotFound);
            },
        };
        if self.cache.has(path.as_str()) {
            Ok(OpenPlan::Cached)
        } else {
            let local = local_path_for(
                self.config.cache_root.as_str(),
                self.config.server_tag.as_str(),
                path.as_str(),
            );
            let remote = remote_path_for(self.config.backing_root.as_str(), path.as_str());
            Ok(OpenPlan::Fetch { local_path: local, remote_path: remote })
        }
    }

    /// Finishes an open that missed the staging store: the fetched
    /// content is staged and an entry is installed under a fresh handle
    /// with the caller's original access flags and a clear dirty bit.
    pub fn open_finish_fetch(&mut self, ino: u64, flags: u32, content: Vec<u8>) -> (r: Result<
        (u64, u32),
        FsError,
    >)
        requires
            old(self).wf(),
        ensures
            final(self).wf(),
            final(self).registry.entries@ == old(self).registry.entries@,
            final(self).config == old(self).config,
            match r {
                Ok(pair) => {
                    &&& spec_resolve(old(self).registry.entries@, ino) is Some
                    &&& pair.1 == flags
                    &&& pair.0 == old(self).table.next_fh
                    &&& final(self).table.next_fh == old(self).table.next_fh + 1
                    &&& tbl_get(final(self).table.slots@, pair.0) == Some(
                        EntryModel {
                            ino,
                            path: spec_resolve(old(self).registry.entries@, ino)->Some_0,
                            flags,
                            dirty: false,
                        },
                    )
                    &&& cache_content(
                        final(self).cache.slots@,
                        spec_resolve(old(self).registry.entries@, ino)->Some_0,
                    ) == Some(content@)
                    &&& forall|p2: Seq<char>|
                        p2 != spec_resolve(old(self).registry.entries@, ino)->Some_0
                            ==> cache_content(final(self).cache.slots@, p2) == cache_content(
                            old(self).cache.slots@,
                            p2,
                        )
                    &&& forall|fh2: u64|
                        fh2 != pair.0 ==> tbl_get(final(self).table.slots@, fh2) == tbl_get(
                            old(self).table.slots@,
                            fh2,
                        )
                    &&& spec_any_for_inode(final(self).table.slots@, ino)
                },
                Err(e) => {
                    &&& final(self).table.slots@ == old(self).table.slots@
                    &&& final(self).table.next_fh == old(self).table.next_fh
                    &&& final(self).cache.slots@ == old(self).cache.slots@
                    &&& (e == FsError::NotFound ==> spec_resolve(
                        old(self).registry.entries@,
                        ino,
                    ) is None)
                    &&& (e == FsError::Io ==> old(self).table.next_fh == u64::MAX)
                    &&& (e == FsError::NotFound || e == FsError::Io)
                },
            },
    {
        let path = match self.registry.resolve(ino) {
            Some(p) => p,
            None => {
                return Err(FsError::NotFound);
            },
        };
        if self.table.next_fh == u64::MAX {
            return Err(FsError::Io);
        }
        let ghost pre_cache = self.cache.slots@;
        self.cache.install(path.as_str(), content);
        let ghost mid_cache = self.cache.slots@;
        let entry = OpenEntry { ino, path, flags, dirty: false };
        let fh = match self.table.insert(entry) {
            Ok(fh) => fh,
            Err(e) => {
                proof {
                    assert(false);
                }
                return Err(e);
            },
        };
        proof {
            let s = self.table.slots@;
            assert forall|i: int| 0 <= i < s.len() implies cache_has(
                mid_cache,
                (#[trigger] s[i]).entry.path@,
            ) by {
                if i < s.len() - 1 {
                    assert(s[i] == old(self).table.slots@[i]);
                    assert(cache_has(pre_cache, s[i].entry.path@));
                    if s[i].entry.path@ != spec_resolve(old(self).registry.entries@, ino)->Some_0 {
                        assert(cache_content(mid_cache, s[i].entry.path@) == cache_content(
                            pre_cache,
                            s[i].entry.path@,
                        ));
                    }
                }
            }
        }
        Ok((fh, flags))
    }

    /// Finishes an open that hit the staging store: write access is
    /// granted when the requested mode asks for it and no other handle
    /// for the inode is dirty; otherwise the open is downgraded to
    /// read-only.  The entry is installed under a fresh handle with the
    /// effective flags and a clear dirty bit.
    pub fn open_cached(&mut self, ino: u64, flags: u32) -> (r: Result<(u64, u32), FsError>)
        requires
            old(self).wf(),
        ensures
            final(self).wf(),
            final(self).registry.entries@ == old(self).registry.entries@,
            final(self).cache.slots@ == old(self).cache.slots@,
            final(self).config == old(self).config,
            match r {
                Ok(pair) => {
                    &&& spec_resolve(old(self).registry.entries@, ino) is Some
                    &&& cache_has(
                        old(self).cache.slots@,
                        spec_resolve(old(self).registry.entries@, ino)->Some_0,
                    )
                    &&& pair.1 == spec_effective_flags(
                        flags,
                        spec_write_capable(flags) && !spec_any_dirty_for_inode(
                            old(self).table.slots@,
                            ino,
                        ),
                    )
                    &&& pair.0 == old(self).table.next_fh
                    &&& final(self).table.next_fh == old(self).table.next_fh + 1
                    &&& tbl_get(final(self).table.slots@, pair.0) == Some(
                        EntryModel {
                            ino,
                            path: spec_resolve(old(self).registry.entries@, ino)->Some_0,
                            flags: pair.1,
                            dirty: false,
                        },
                    )
                    &&& forall|fh2: u64|
                        fh2 != pair.0 ==> tbl_get(final(self).table.slots@, fh2) == tbl_get(
                            old(self).table.slots@,
                            fh2,
                        )
                    &&& spec_any_for_inode(final(self).table.slots@, ino)
                },
                Err(e) => {
                    &&& final(self).table.slots@ == old(self).table.slots@
                    &&& final(self).table.next_fh == old(self).table.next_fh
                    &&& (e == FsError::NotFound ==> spec_resolve(
                        old(self).registry.entries@,
                        ino,
                    ) is None)
                    &&& (e == FsError::Io ==> spec_resolve(old(self).registry.entries@, ino) is Some
                        && (!cache_has(
                        old(self).cache.slots@,
                        spec_resolve(old(self).registry.entries@, ino)->Some_0,
                    ) || old(self).table.next_fh == u64::MAX))
                    &&& (e == FsError::NotFound || e == FsError::Io)
                },
            },
    {
        let path = match self.registry.resolve(ino) {
            Some(p) => p,
            None => {
                return Err(FsError::NotFound);
            },
        };
        if !self.cache.has(path.as_str()) {
            return Err(FsError::Io);
        }
        if self.table.next_fh == u64::MAX {
            return Err(FsError::Io);
        }
        let allow = write_capable(flags) && !self.table.any_dirty_for_inode(ino);
        let eff: u32 = if allow {
            flags
        } else {
            flags - flags % 4
        };
        let entry = OpenEntry { ino, path, flags: eff, dirty: false };
        let fh = match self.table.insert(entry) {
            Ok(fh) => fh,
            Err(e) => {
                proof {
                    assert(false);
                }
                return Err(e);
            },
        };
        proof {
            let s = self.table.slots@;
            assert forall|i: int| 0 <= i < s.len() implies cache_has(
                self.cache.slots@,
                (#[trigger] s[i]).entry.path@,
            ) by {
                if i < s.len() - 1 {
                    assert(s[i] == old(self).table.slots@[i]);
                }
            }
        }
        Ok((fh, eff))
    }

    /// Reads up to `size` bytes at `offset` from the staged content of
    /// the handle's file, returning the slice actually available.  Fails
    /// with invalid-argument for an unknown handle.
    pub fn read(&self, fh: u64, offset: u64, size: u32) -> (r: Result<Vec<u8>, FsError>)
        requires
            self.wf(),
        ensures
            match r {
                Ok(data) => {
                    &&& tbl_get(self.table.slots@, fh) is Some
                    &&& data@ == spec_read_at(
                        cache_content(
                            self.cache.slots@,
                            tbl_get(self.table.slots@, fh)->Some_0.path,
                        )->Some_0,
                        offset as int,
                        size as int,
                    )
                },
                Err(e) => e == FsError::InvalidArgument && tbl_get(self.table.slots@, fh) is None,
            },
    {
        let entry = match self.table.get(fh) {
            Some(e) => e,
            None => {
                return Err(FsError::InvalidArgument);
            },
        };
        proof {
            lemma_entry_path_cached(*self, fh, model_of(*entry));
        }
        let content = match self.cache.get_ref(entry.path.as_str()) {
            Some(c) => c,
            None => {
                proof {
                    assert(false);
                }
                return Err(FsError::InvalidArgument);
            },
        };
        Ok(read_at(content, offset, size))
    }

    /// Writes `data` at `offset` into the staged content of the handle's
    /// file and latches the dirty bit.  Fails with invalid-argument for
    /// an unknown handle, with permission-denied when the handle's
    /// effective mode is not write-capable, and with an I/O error when
    /// the end of the write cannot be addressed on this machine.
    pub fn write(&mut self, fh: u64, offset: u64, data: &[u8]) -> (r: Result<usize, FsError>)
        requires
            old(self).wf(),
        ensures
            final(self).wf(),
            final(self).registry.entries@ == old(self).registry.entries@,
            final(self).config == old(self).config,
            final(self).table.next_fh == old(self).table.next_fh,
            match r {
                Ok(n) => {
                    &&& tbl_get(old(self).table.slots@, fh) is Some
                    &&& spec_write_capable(tbl_get(old(self).table.slots@, fh)->Some_0.flags)
                    &&& n == data@.len()
                    &&& offset + data@.len() <= usize::MAX
                    &&& cache_content(
                        final(self).cache.slots@,
                        tbl_get(old(self).table.slots@, fh)->Some_0.path,
                    ) == Some(
                        spec_write_at(
                            cache_content(
                                old(self).cache.slots@,
                                tbl_get(old(self).table.slots@, fh)->Some_0.path,
                            )->Some_0,
                            offset as int,
                            data@,
                        ),
                    )
                    &&& tbl_get(final(self).table.slots@, fh) == Some(
                        EntryModel { dirty: true, ..tbl_get(old(self).table.slots@, fh)->Some_0 },
                    )
                    &&& forall|fh2: u64|
                        fh2 != fh ==> tbl_get(final(self).table.slots@, fh2) == tbl_get(
                            old(self).table.slots@,
                            fh2,
                        )
                    &&& forall|p2: Seq<char>|
                        p2 != tbl_get(old(self).table.slots@, fh)->Some_0.path ==> cache_content(
                            final(self).cache.slots@,
                            p2,
                        ) == cache_content(old(self).cache.slots@, p2)
                },
                Err(e) => {
                    &&& final(self).table.slots@ == old(self).table.slots@
                    &&& final(self).cache.slots@ == old(self).cache.slots@
                    &&& (e == FsError::InvalidArgument ==> tbl_get(
                        old(self).table.slots@,
                        fh,
                    ) is None)
                    &&& (e == FsError::PermissionDenied ==> tbl_get(old(self).table.slots@, fh)
                        is Some && !spec_write_capable(
                        tbl_get(old(self).table.slots@, fh)->Some_0.flags,
                    ))
                    &&& (e == FsError::Io ==> offset + data@.len() > usize::MAX)
                    &&& (e == FsError::InvalidArgument || e == FsError::PermissionDenied || e
                        == FsError::Io)
                },
            },
    {
        let (path, can_write) = match self.table.get(fh) {
            Some(e) => (e.path.clone(), write_capable(e.flags)),
            None => {
                return Err(FsError::InvalidArgument);
            },
        };
        if !can_write {
            return Err(FsError::PermissionDenied);
        }
        proof {
            lemma_entry_path_cached(*self, fh, tbl_get(self.table.slots@, fh)->Some_0);
        }
        let new_content = {
            let content = match self.cache.get_ref(path.as_str()) {
                Some(c) => c,
                None => {
                    proof {
                        assert(false);
                    }
                    return Err(FsError::InvalidArgument);
                },
            };
            match write_at(content, offset, data) {
                Some(v) => v,
                None => {
                    return Err(FsError::Io);
                },
            }
        };
        let ghost pre_cache = self.cache.slots@;
        self.cache.install(path.as_str(), new_content);
        self.table.set_dirty(fh, true);
        proof {
            let s = self.table.slots@;
            assert forall|i: int| 0 <= i < s.len() implies cache_has(
                self.cache.slots@,
                (#[trigger] s[i]).entry.path@,
            ) by {
                let p = s[i].entry.path@;
                assert(p == old(self).table.slots@[i].entry.path@);
                assert(cache_has(pre_cache, p));
                if p != path@ {
                    assert(cache_content(self.cache.slots@, p) == cache_content(pre_cache, p));
                }
            }
        }
        Ok(data.len())
    }

    /// Decides what a flush of the handle must upload: nothing when the
    /// entry is clean, otherwise the whole staged content and the remote
    /// path to replace.  Fails with invalid-argument for an unknown
    /// handle, with not-found when the inode no longer resolves, and
    /// with an I/O error when the resolved path has no staged content.
    pub fn flush_prepare(&self, fh: u64) -> (r: Result<Option<UploadPlan>, FsError>)
        requires
            self.wf(),
        ensures
            flush_prepare_post(*self, fh, r),
    {
        let (ino, dirty) = match self.table.get(fh) {
            Some(e) => (e.ino, e.dirty),
            None => {
                return Err(FsError::InvalidArgument);
            },
        };
        if !dirty {
            return Ok(None);
        }
        let path = match self.registry.resolve(ino) {
            Some(p) => p,
            None => {
                return Err(FsError::NotFound);
            },
        };
        let content = match self.cache.get_ref(path.as_str()) {
            Some(c) => clone_bytes(c),
            None => {
                return Err(FsError::Io);
            },
        };
        let remote = remote_path_for(self.config.backing_root.as_str(), path.as_str());
        Ok(Some(UploadPlan { remote_path: remote, content }))
    }

    /// Marks the handle clean after a successful upload.  The dirty bit
    /// clears only here, so a failed upload leaves it latched and the
    /// staged content intact for a later retry.
    pub fn flush_commit(&mut self, fh: u64)
        requires
            old(self).wf(),
        ensures
            final(self).wf(),
            final(self).registry.entries@ == old(self).registry.entries@,
            final(self).cache.slots@ == old(self).cache.slots@,
            final(self).config == old(self).config,
            final(self).table.next_fh == old(self).table.next_fh,
            tbl_has(old(self).table.slots@, fh) ==> tbl_get(final(self).table.slots@, fh) == Some(
                EntryModel { dirty: false, ..tbl_get(old(self).table.slots@, fh)->Some_0 },
            ),
            !tbl_has(old(self).table.slots@, fh) ==> final(self).table.slots@ == old(
                self,
            ).table.slots@,
            forall|fh2: u64|
                fh2 != fh ==> tbl_get(final(self).table.slots@, fh2) == tbl_get(
                    old(self).table.slots@,
                    fh2,
                ),
    {
        self.table.set_dirty(fh, false);
        proof {
            let s = self.table.slots@;
            assert forall|i: int| 0 <= i < s.len() implies cache_has(
                self.cache.slots@,
                (#[trigger] s[i]).entry.path@,
            ) by {
                assert(s[i].entry.path@ == old(self).table.slots@[i].entry.path@);
            }
        }
    }

    /// Decides what a release of the handle must upload before the entry
    /// may be removed: the same plan a flush would make.
    pub fn release_prepare(&self, fh: u64) -> (r: Result<Option<UploadPlan>, FsError>)
        requires
            self.wf(),
        ensures
            flush_prepare_post(*self, fh, r),
    {
        self.flush_prepare(fh)
    }

    /// Removes the handle's entry after any required upload succeeded.
    /// When other handles still reference the inode nothing else
    /// changes; when this was the last one, both registry directions for
    /// the inode are forgotten and the staged content is evicted (unless
    /// another open entry still stages the same path), and the local
    /// path of the staged copy is returned for deletion.  Fails with
    /// invalid-argument for an unknown handle and with not-found when
    /// the inode no longer resolves, changing nothing.
    pub fn release_commit(&mut self, fh: u64) -> (r: Result<ReleaseOutcome, FsError>)
        requires
            old(self).wf(),
        ensures
            final(self).wf(),
            final(self).config == old(self).config,
            final(self).table.next_fh == old(self).table.next_fh,
            match r {
                Ok(outcome) => {
                    &&& tbl_get(old(self).table.slots@, fh) is Some
                    &&& spec_resolve(
                        old(self).registry.entries@,
                        tbl_get(old(self).table.slots@, fh)->Some_0.ino,
                    ) is Some
                    &&& tbl_get(final(self).table.slots@, fh) is None
                    &&& forall|fh2: u64|
                        fh2 != fh ==> tbl_get(final(self).table.slots@, fh2) == tbl_get(
                            old(self).table.slots@,
                            fh2,
                        )
                    &&& (match outcome {
                        ReleaseOutcome::StillOpen => {
                            &&& spec_any_for_inode(
                                final(self).table.slots@,
                                tbl_get(old(self).table.slots@, fh)->Some_0.ino,
                            )
                            &&& final(self).registry.entries@ == old(self).registry.entries@
                            &&& final(self).cache.slots@ == old(self).cache.slots@
                        },
                        ReleaseOutcome::Evicted { local_path } => {
                            let ino = tbl_get(old(self).table.slots@, fh)->Some_0.ino;
                            let p = spec_resolve(old(self).registry.entries@, ino)->Some_0;
                            &&& !spec_any_for_inode(final(self).table.slots@, ino)
                            &&& (ino != ROOT_INODE ==> spec_resolve(
                                final(self).registry.entries@,
                                ino,
                            ) is None)
                            &&& local_path@ == spec_local_path(
                                old(self).config.cache_root@,
                                old(self).config.server_tag@,
                                p,
                            )
                            &&& (!spec_any_for_path(final(self).table.slots@, p) ==> cache_content(
                                final(self).cache.slots@,
                                p,
                            ) is None)
                            &&& forall|p2: Seq<char>|
                                p2 != p ==> cache_content(final(self).cache.slots@, p2)
                                    == cache_content(old(self).cache.slots@, p2)
                        },
                    })
                },
                Err(e) => {
                    &&& final(self).table.slots@ == old(self).table.slots@
                    &&& final(self).registry.entries@ == old(self).registry.entries@
                    &&& final(self).cache.slots@ == old(self).cache.slots@
                    &&& (e == FsError::InvalidArgument ==> tbl_get(
                        old(self).table.slots@,
                        fh,
                    ) is None)
                    &&& (e == FsError::NotFound ==> tbl_get(old(self).table.slots@, fh) is Some
                        && spec_resolve(
                        old(self).registry.entries@,
                        tbl_get(old(self).table.slots@, fh)->Some_0.ino,
                    ) is None)
                    &&& (e == FsError::InvalidArgument || e == FsError::NotFound)
                },
            },
    {
        let ino = match self.table.get(fh) {
            Some(e) => e.ino,
            None => {
                return Err(FsError::InvalidArgument);
            },
        };
        let path = match self.registry.resolve(ino) {
            Some(p) => p,
            None => {
                return Err(FsError::NotFound);
            },
        };
        self.table.remove(fh);
        proof {
            let s = self.table.slots@;
            assert forall|i: int| 0 <= i < s.len() implies cache_has(
                self.cache.slots@,
                (#[trigger] s[i]).entry.path@,
            ) by {
                assert(s[i] == old(self).table.slots@[i] || s[i] == old(self).table.slots@[i + 1]);
            }
        }
        if self.table.any_for_inode(ino) {
            return Ok(ReleaseOutcome::StillOpen);
        }
        self.registry.forget(ino, path.as_str());
        let ghost pre_cache = self.cache.slots@;
        if !self.table.any_for_path(path.as_str()) {
            self.cache.evict(path.as_str());
            proof {
                let s = self.table.slots@;
                assert forall|i: int| 0 <= i < s.len() implies cache_has(
                    self.cache.slots@,
                    (#[trigger] s[i]).entry.path@,
                ) by {
                    assert(s[i].entry.path@ != path@);
                    assert(cache_content(self.cache.slots@, s[i].entry.path@) == cache_content(
                        pre_cache,
                        s[i].entry.path@,
                    ));
                }
            }
        }
        let local = local_path_for(
            self.config.cache_root.as_str(),
            self.config.server_tag.as_str(),
            path.as_str(),
        );
        Ok(ReleaseOutcome::Evicted { local_path: local })
    }
}

/// What `flush_prepare` and `release_prepare` guarantee about their
/// result: a clean handle uploads nothing, a dirty one uploads the whole
/// staged content of its resolved path to the remote path under the
/// backing root, and the errors come exactly from an unknown handle, an
/// unresolved inode, or missing staged content.
pub open spec fn flush_prepare_post(e: Engine, fh: u64, r: Result<Option<UploadPlan>, FsError>) -> bool {
    match r {
        Ok(opt) => {
            &&& tbl_get(e.table.slots@, fh) is Some
            &&& (match opt {
                None => !tbl_get(e.table.slots@, fh)->Some_0.dirty,
                Some(plan) => {
                    let ino = tbl_get(e.table.slots@, fh)->Some_0.ino;
                    &&& tbl_get(e.table.slots@, fh)->Some_0.dirty
                    &&& spec_resolve(e.registry.entries@, ino) is Some
                    &&& plan.remote_path@ == spec_remote_path(
                        e.config.backing_root@,
                        spec_resolve(e.registry.entries@, ino)->Some_0,
                    )
                    &&& cache_content(
                        e.cache.slots@,
                        spec_resolve(e.registry.entries@, ino)->Some_0,
                    ) == Some(plan.content@)
                },
            })
        },
        Err(err) => {
            ||| (err == FsError::InvalidArgument && tbl_get(e.table.slots@, fh) is None)
            ||| (err == FsError::NotFound && tbl_get(e.table.slots@, fh) is Some && tbl_get(
                e.table.slots@,
                fh,
            )->Some_0.dirty && spec_resolve(
                e.registry.entries@,
                tbl_get(e.table.slots@, fh)->Some_0.ino,
            ) is None)
            ||| (err == FsError::Io && tbl_get(e.table.slots@, fh) is Some && tbl_get(
                e.table.slots@,
                fh,
            )->Some_0.dirty && spec_resolve(
                e.registry.entries@,
                tbl_get(e.table.slots@, fh)->Some_0.ino,
            ) is Some && cache_content(
                e.cache.slots@,
                spec_resolve(
                    e.registry.entries@,
                    tbl_get(e.table.slots@, fh)->Some_0.ino,
                )->Some_0,
            ) is None)
        },
    }
}

/// Every open entry's staged content is present in the store: the data
/// model invariant tying the table to the staging store.
pub proof fn lemma_entry_path_cached(e: Engine, fh: u64, m: EntryModel)
    requires
        e.wf(),
        tbl_get(e.table.slots@, fh) == Some(m),
    ensures
        cache_has(e.cache.slots@, m.path),
        cache_content(e.cache.slots@, m.path) is Some,
{
    let k = choose|i: int| 0 <= i < e.table.slots@.len() && e.table.slots@[i].fh == fh;
    assert(e.table.slots@[k].entry.path@ == m.path);
    assert(cache_has(e.cache.slots@, e.table.slots@[k].entry.path@));
}

/// Law: a write followed by a read on the same handle at the same offset
/// returns the bytes written.  The staged content after the write is
/// what the handle's next read consults, and reading the write window
/// out of it yields the written bytes.
pub proof fn lemma_write_then_read_handle(
    pre: Engine,
    post: Engine,
    fh: u64,
    e: EntryModel,
    offset: u64,
    data: Seq<u8>,
)
    requires
        tbl_get(pre.table.slots@, fh) == Some(e),
        tbl_get(post.table.slots@, fh) == Some(EntryModel { dirty: true, ..e }),
        cache_content(post.cache.slots@, e.path) == Some(
            spec_write_at(
                cache_content(pre.cache.slots@, e.path)->Some_0,
                offset as int,
                data,
            ),
        ),
    ensures
        spec_read_at(
            cache_content(post.cache.slots@, tbl_get(post.table.slots@, fh)->Some_0.path)->Some_0,
            offset as int,
            data.len() as int,
        ) == data,
{
    lemma_write_then_read(cache_content(pre.cache.slots@, e.path)->Some_0, offset as int, data);
}

/// Law: a file whose staged copy is gone is re-opened by fetching from
/// the remote side, so an open after the last release observes remote
/// content, never stale local data.
pub proof fn lemma_reopen_fetches_fresh(e: Engine, ino: u64, p: Seq<char>)
    requires
        e.wf(),
        spec_resolve(e.registry.entries@, ino) == Some(p),
        !cache_has(e.cache.slots@, p),
    ensures
        spec_open_needs_fetch(e, ino) == Some(true),
{
}

} // verus!
