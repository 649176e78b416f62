//! The table of active open-file handles.
//!
//! Each handle names one open-file entry: the owning inode, the staged
//! file it reads and writes (named by its backing-relative path), the
//! effective access mode flags, and the dirty bit.  Handle identifiers
//! are issued monotonically from one and are never reused within a
//! process lifetime.

use vstd::prelude::*;

use crate::errors::FsError;

verus! {

/// One open-file entry: owning inode, staged file path, effective access
/// mode flags, and the dirty bit.
pub struct OpenEntry {
    pub ino: u64,
    pub path: String,
    pub flags: u32,
    pub dirty: bool,
}

/// The mathematical model of an open-file entry.
pub struct EntryModel {
    pub ino: u64,
    pub path: Seq<char>,
    pub flags: u32,
    pub dirty: bool,
}

/// The model of an entry.
pub open spec fn model_of(e: OpenEntry) -> EntryModel {
    EntryModel { ino: e.ino, path: e.path@, flags: e.flags, dirty: e.dirty }
}

/// A handle identifier paired with its entry.
pub struct HandleSlot {
    pub fh: u64,
    pub entry: OpenEntry,
}

/// Whether some slot of `s` carries handle `fh`.
pub open spec fn tbl_has(s: Seq<HandleSlot>, fh: u64) -> bool {
    exists|i: int| 0 <= i < s.len() && s[i].fh == fh
}

/// The entry model a handle names, if any.
pub open spec fn tbl_get(s: Seq<HandleSlot>, fh: u64) -> Option<EntryModel> {
    if tbl_has(s, fh) {
        Some(model_of(s[choose|i: int| 0 <= i < s.len() && s[i].fh == fh].entry))
    } else {
        None
    }
}

/// Whether some entry's owning inode is `ino`.
pub open spec fn spec_any_for_inode(s: Seq<HandleSlot>, ino: u64) -> bool {
    exists|i: int| 0 <= i < s.len() && s[i].entry.ino == ino
}

/// Whether some dirty entry's owning inode is `ino`.
pub open spec fn spec_any_dirty_for_inode(s: Seq<HandleSlot>, ino: u64) -> bool {
    exists|i: int| 0 <= i < s.len() && s[i].entry.ino == ino && s[i].entry.dirty
}

/// Whether some entry's staged file path is `p`.
pub open spec fn spec_any_for_path(s: Seq<HandleSlot>, p: Seq<char>) -> bool {
    exists|i: int| 0 <= i < s.len() && s[i].entry.path@ == p
}

/// The table of active handles and the next identifier to issue.
pub struct OpenTable {
    pub slots: Vec<HandleSlot>,
    pub next_fh: u64,
}

/// Well-formedness: handles are pairwise distinct and every issued handle
/// lies strictly below the next identifier, which starts at one.
pub open spec fn tbl_wf(t: OpenTable) -> bool {
    &&& t.next_fh >= 1
    &&& forall|i: int| 0 <= i < t.slots@.len() ==> 1 <= #[trigger] t.slots@[i].fh < t.next_fh
    &&& forall|i: int, j: int|
        0 <= i < j < t.slots@.len() ==> t.slots@[i].fh != t.slots@[j].fh
}

/// In a well-formed table a handle occurs in at most one slot.
pub proof fn lemma_tbl_fh_unique(t: OpenTable, i: int, j: int)
    requires
        tbl_wf(t),
        0 <= i < t.slots@.len(),
        0 <= j < t.slots@.len(),
        t.slots@[i].fh == t.slots@[j].fh,
    ensures
        i == j,
{
    if i < j {
        assert(t.slots@[i].fh != t.slots@[j].fh);
    } else if j < i {
        assert(t.slots@[j].fh != t.slots@[i].fh);
    }
}

/// Law: the identifier a well-formed table will issue next is strictly
/// greater than every handle it holds, so handle identifiers issued over
/// a process lifetime are strictly increasing and never reused.
pub proof fn lemma_handles_strictly_increase(t: OpenTable)
    requires
        tbl_wf(t),
    ensures
        forall|i: int| 0 <= i < t.slots@.len() ==> #[trigger] t.slots@[i].fh < t.next_fh,
        !tbl_has(t.slots@, t.next_fh),
{
}

/// Law: a handle present in the table names an entry whose owning inode
/// is referenced, so `any_for_inode` of an open handle's inode holds
/// until that handle is released.
pub proof fn lemma_open_handle_counted(s: Seq<HandleSlot>, fh: u64, e: EntryModel)
    requires
        tbl_get(s, fh) == Some(e),
    ensures
        spec_any_for_inode(s, e.ino),
{
    let k = choose|i: int| 0 <= i < s.len() && s[i].fh == fh;
    assert(s[k].entry.ino == e.ino);
}

impl OpenTable {
    /// Well-formedness of the table.
    pub open spec fn wf(self) -> bool {
        tbl_wf(self)
    }

    /// Creates an empty table whose first handle will be one.
    pub fn new() -> (r: OpenTable)
        ensures
            r.wf(),
            r.slots@.len() == 0,
            r.next_fh == 1,
    {
        OpenTable { slots: Vec::new(), next_fh: 1 }
    }

    /// Installs an entry under the next handle identifier and returns the
    /// handle.  Fails only when the identifier space is exhausted, in
    /// which case the table is unchanged.
    pub fn insert(&mut self, entry: OpenEntry) -> (r: Result<u64, FsError>)
        requires
            old(self).wf(),
        ensures
            final(self).wf(),
            match r {
                Ok(fh) => {
                    &&& fh == old(self).next_fh
                    &&& final(self).next_fh == old(self).next_fh + 1
                    &&& !tbl_has(old(self).slots@, fh)
                    &&& final(self).slots@ == old(self).slots@.push(
                        HandleSlot { fh, entry },
                    )
                    &&& tbl_get(final(self).slots@, fh) == Some(model_of(entry))
                    &&& forall|fh2: u64|
                        fh2 != fh ==> tbl_get(final(self).slots@, fh2) == tbl_get(
                            old(self).slots@,
                            fh2,
                        )
                    &&& forall|ino2: u64|
                        spec_any_for_inode(final(self).slots@, ino2) <==> (spec_any_for_inode(
                            old(self).slots@,
                            ino2,
                        ) || ino2 == entry.ino)
                },
                Err(e) => e == FsError::Io && old(self).next_fh == u64::MAX
                    && final(self).slots@ == old(self).slots@
                    && final(self).next_fh == old(self).next_fh,
            },
    {
        if self.next_fh == u64::MAX {
            return Err(FsError::Io);
        }
        let fh = self.next_fh;
        let ghost prev = self.slots@;
        let ghost m = model_of(entry);
        let ghost ino = entry.ino;
        self.slots.push(HandleSlot { fh, entry });
        self.next_fh = self.next_fh + 1;
        proof {
            let s = self.slots@;
            let last = s.len() - 1;
            assert(s[last].fh == fh);
            assert(tbl_has(s, fh));
            let k = choose|i: int| 0 <= i < s.len() && s[i].fh == fh;
            lemma_tbl_fh_unique(*self, k, last);
            assert forall|fh2: u64| fh2 != fh implies tbl_get(s, fh2) == tbl_get(
                prev,
                fh2,
            ) by {
                if tbl_has(prev, fh2) {
                    let a = choose|i: int| 0 <= i < prev.len() && prev[i].fh == fh2;
                    assert(s[a].fh == fh2);
                    assert(tbl_has(s, fh2));
                    let b = choose|i: int| 0 <= i < s.len() && s[i].fh == fh2;
                    lemma_tbl_fh_unique(*self, a, b);
                } else {
                    if tbl_has(s, fh2) {
                        let b = choose|i: int| 0 <= i < s.len() && s[i].fh == fh2;
                        assert(b != last);
                        assert(prev[b].fh == fh2);
                    }
                }
            }
            assert forall|ino2: u64|
                spec_any_for_inode(s, ino2) <==> (spec_any_for_inode(prev, ino2) || ino2
                    == ino) by {
                if spec_any_for_inode(prev, ino2) {
                    let a = choose|i: int| 0 <= i < prev.len() && prev[i].entry.ino == ino2;
                    assert(s[a].entry.ino == ino2);
                }
                if ino2 == ino {
                    assert(s[last].entry.ino == ino2);
                }
                if spec_any_for_inode(s, ino2) {
                    let b = choose|i: int| 0 <= i < s.len() && s[i].entry.ino == ino2;
                    if b != last {
                        assert(prev[b].entry.ino == ino2);
                    }
                }
            }
        }
        Ok(fh)
    }

    /// Returns the entry a handle names, if any.
    pub fn get(&self, fh: u64) -> (r: Option<&OpenEntry>)
        requires
            self.wf(),
        ensures
            match r {
                Some(e) => tbl_get(self.slots@, fh) == Some(model_of(*e)),
                None => tbl_get(self.slots@, fh) is None,
            },
    {
        let n = self.slots.len();
        let mut i: usize = 0;
        while i < n
            invariant
                self.wf(),
                n == self.slots@.len(),
                i <= n,
                forall|j: int| 0 <= j < i ==> self.slots@[j].fh != fh,
            decreases n - i,
        {
            if self.slots[i].fh == fh {
                proof {
                    assert(tbl_has(self.slots@, fh));
                    let k = choose|k: int| 0 <= k < self.slots@.len() && self.slots@[k].fh == fh;
                    lemma_tbl_fh_unique(*self, i as int, k);
                }
                return Some(&self.slots[i].entry);
            }
            i = i + 1;
        }
        None
    }

    /// Sets the dirty bit of the entry a handle names; a table without
    /// the handle is left unchanged.
    pub fn set_dirty(&mut self, fh: u64, dirty: bool)
        requires
            old(self).wf(),
        ensures
            final(self).wf(),
            final(self).next_fh == old(self).next_fh,
            !tbl_has(old(self).slots@, fh) ==> final(self).slots@ == old(self).slots@,
            tbl_has(old(self).slots@, fh) ==> tbl_get(final(self).slots@, fh) == Some(
                EntryModel { dirty, ..tbl_get(old(self).slots@, fh)->Some_0 },
            ),
            forall|fh2: u64|
                fh2 != fh ==> tbl_get(final(self).slots@, fh2) == tbl_get(
                    old(self).slots@,
                    fh2,
                ),
            forall|ino2: u64|
                spec_any_for_inode(final(self).slots@, ino2) == spec_any_for_inode(
                    old(self).slots@,
                    ino2,
                ),
            final(self).slots@.len() == old(self).slots@.len(),
            forall|k: int|
                0 <= k < final(self).slots@.len() ==> (#[trigger] final(self).slots@[k]).fh == old(
                    self,
                ).slots@[k].fh && final(self).slots@[k].entry.ino == old(
                    self,
                ).slots@[k].entry.ino && final(self).slots@[k].entry.path@ == old(
                    self,
                ).slots@[k].entry.path@ && final(self).slots@[k].entry.flags == old(
                    self,
                ).slots@[k].entry.flags,
    {
        let n = self.slots.len();
        let mut i: usize = 0;
        while i < n
            invariant
                self.wf(),
                self.slots@ == old(self).slots@,
                self.next_fh == old(self).next_fh,
                n == self.slots@.len(),
                i <= n,
                forall|j: int| 0 <= j < i ==> self.slots@[j].fh != fh,
            decreases n - i,
        {
            if self.slots[i].fh == fh {
                let ghost prev = self.slots@;
                let slot = self.slots.remove(i);
                let new_slot = HandleSlot {
                    fh: slot.fh,
                    entry: OpenEntry {
                        ino: slot.entry.ino,
                        path: slot.entry.path,
                        flags: slot.entry.flags,
                        dirty,
                    },
                };
                self.slots.insert(i, new_slot);
                proof {
                    let s = self.slots@;
                    assert forall|k: int| 0 <= k < s.len() && k != i implies s[k]
                        == prev[k] by {
                        if k < i {
                        } else {
                            assert(s[k] == prev.remove(i as int).insert(i as int, new_slot)[k]);
                        }
                    }
                    assert(s.len() == prev.len());
                    assert(s[i as int].fh == fh);
                    assert(tbl_has(prev, fh));
                    assert(tbl_has(s, fh));
                    let a = choose|k: int| 0 <= k < prev.len() && prev[k].fh == fh;
                    lemma_tbl_fh_unique(*old(self), a, i as int);
                    assert forall|a2: int, b2: int| 0 <= a2 < b2 < s.len() implies s[a2].fh
                        != s[b2].fh by {
                        assert(prev[a2].fh == s[a2].fh && prev[b2].fh == s[b2].fh);
                    }
                    assert forall|k: int| 0 <= k < s.len() implies 1 <= #[trigger] s[k].fh
                        < self.next_fh by {
                        assert(s[k].fh == prev[k].fh);
                    }
                    let b = choose|k: int| 0 <= k < s.len() && s[k].fh == fh;
                    lemma_tbl_fh_unique(*self, b, i as int);
                    assert(tbl_get(s, fh) == Some(
                        EntryModel { dirty, ..tbl_get(prev, fh)->Some_0 },
                    ));
                    assert forall|fh2: u64| fh2 != fh implies tbl_get(s, fh2) == tbl_get(
                        prev,
                        fh2,
                    ) by {
                        if tbl_has(prev, fh2) {
                            let c = choose|k: int| 0 <= k < prev.len() && prev[k].fh == fh2;
                            assert(c != i);
                            assert(s[c].fh == fh2);
                            let d = choose|k: int| 0 <= k < s.len() && s[k].fh == fh2;
                            lemma_tbl_fh_unique(*self, c, d);
                        } else {
                            if tbl_has(s, fh2) {
                                let d = choose|k: int| 0 <= k < s.len() && s[k].fh == fh2;
                                assert(prev[d].fh == fh2);
                            }
                        }
                    }
                    assert forall|ino2: u64|
                        spec_any_for_inode(s, ino2) == spec_any_for_inode(prev, ino2) by {
                        if spec_any_for_inode(prev, ino2) {
                            let c = choose|k: int|
                                0 <= k < prev.len() && prev[k].entry.ino == ino2;
                            assert(s[c].entry.ino == ino2);
                        }
                        if spec_any_for_inode(s, ino2) {
                            let d = choose|k: int| 0 <= k < s.len() && s[k].entry.ino == ino2;
                            assert(prev[d].entry.ino == ino2);
                        }
                    }
                }
                return ;
            }
            i = i + 1;
        }
    }

    /// Removes the entry a handle names; a table without the handle is
    /// left unchanged.
    pub fn remove(&mut self, fh: u64)
        requires
            old(self).wf(),
        ensures
            final(self).wf(),
            final(self).next_fh == old(self).next_fh,
            !tbl_has(old(self).slots@, fh) ==> final(self).slots@ == old(self).slots@,
            tbl_get(final(self).slots@, fh) is None,
            forall|fh2: u64|
                fh2 != fh ==> tbl_get(final(self).slots@, fh2) == tbl_get(
                    old(self).slots@,
                    fh2,
                ),
            forall|ino2: u64|
                spec_any_for_inode(final(self).slots@, ino2) ==> spec_any_for_inode(
                    old(self).slots@,
                    ino2,
                ),
            forall|ino2: u64|
                spec_any_dirty_for_inode(final(self).slots@, ino2) ==> spec_any_dirty_for_inode(
                    old(self).slots@,
                    ino2,
                ),
            final(self).slots@.len() <= old(self).slots@.len(),
            forall|k: int|
                0 <= k < final(self).slots@.len() ==> (#[trigger] final(self).slots@[k]) == old(
                    self,
                ).slots@[k] || (k + 1 < old(self).slots@.len() && final(self).slots@[k] == old(
                    self,
                ).slots@[k + 1]),
    {
        let n = self.slots.len();
        let mut i: usize = 0;
        while i < n
            invariant
                self.wf(),
                self.slots@ == old(self).slots@,
                self.next_fh == old(self).next_fh,
                n == self.slots@.len(),
                i <= n,
                forall|j: int| 0 <= j < i ==> self.slots@[j].fh != fh,
            decreases n - i,
        {
            if self.slots[i].fh == fh {
                let ghost prev = self.slots@;
                self.slots.remove(i);
                proof {
                    let s = self.slots@;
                    assert forall|k: int| 0 <= k < s.len() implies (if k < i {
                        s[k] == prev[k]
                    } else {
                        s[k] == prev[k + 1]
                    }) by {}
                    assert forall|k: int| 0 <= k < s.len() implies s[k].fh != fh by {
                        if k >= i {
                            if prev[k + 1].fh == fh {
                                lemma_tbl_fh_unique(*old(self), i as int, k + 1);
                            }
                        }
                    }
                    assert forall|fh2: u64| fh2 != fh implies tbl_get(s, fh2) == tbl_get(
                        prev,
                        fh2,
                    ) by {
                        if tbl_has(prev, fh2) {
                            let c = choose|k: int| 0 <= k < prev.len() && prev[k].fh == fh2;
                            assert(c != i);
                            if c < i {
                                assert(s[c].fh == fh2 && s[c] == prev[c]);
                                let d = choose|k: int| 0 <= k < s.len() && s[k].fh == fh2;
                                lemma_tbl_fh_unique(*self, c, d);
                            } else {
                                assert(s[c - 1] == prev[c]);
                                assert(tbl_has(s, fh2));
                                let d = choose|k: int| 0 <= k < s.len() && s[k].fh == fh2;
                                lemma_tbl_fh_unique(*self, c - 1, d);
                            }
                        } else {
                            if tbl_has(s, fh2) {
                                let d = choose|k: int| 0 <= k < s.len() && s[k].fh == fh2;
                                if d < i {
                                    assert(prev[d].fh == fh2);
                                } else {
                                    assert(prev[d + 1].fh == fh2);
                                }
                            }
                        }
                    }
                    assert forall|ino2: u64|
                        spec_any_for_inode(s, ino2) implies spec_any_for_inode(prev, ino2) by {
                        let d = choose|k: int| 0 <= k < s.len() && s[k].entry.ino == ino2;
                        if d < i {
                            assert(prev[d].entry.ino == ino2);
                        } else {
                            assert(prev[d + 1].entry.ino == ino2);
                        }
                    }
                    assert forall|ino2: u64|
                        spec_any_dirty_for_inode(s, ino2) implies spec_any_dirty_for_inode(
                        prev,
                        ino2,
                    ) by {
                        let d = choose|k: int|
                            0 <= k < s.len() && s[k].entry.ino == ino2 && s[k].entry.dirty;
                        if d < i {
                            assert(prev[d].entry.ino == ino2 && prev[d].entry.dirty);
                        } else {
                            assert(prev[d + 1].entry.ino == ino2 && prev[d + 1].entry.dirty);
                        }
                    }
                }
                return ;
            }
            i = i + 1;
        }
    }

    /// Reports whether any entry's owning inode is `ino`.
    pub fn any_for_inode(&self, ino: u64) -> (r: bool)
        requires
            self.wf(),
        ensures
            r == spec_any_for_inode(self.slots@, ino),
    {
        let n = self.slots.len();
        let mut i: usize = 0;
        while i < n
            invariant
                n == self.slots@.len(),
                i <= n,
                forall|j: int| 0 <= j < i ==> self.slots@[j].entry.ino != ino,
            decreases n - i,
        {
            if self.slots[i].entry.ino == ino {
                return true;
            }
            i = i + 1;
        }
        false
    }

    /// Reports whether any entry's staged file path is `path`.
    pub fn any_for_path(&self, path: &str) -> (r: bool)
        requires
            self.wf(),
        ensures
            r == spec_any_for_path(self.slots@, path@),
    {
        let key = String::from_str(path);
        let n = self.slots.len();
        let mut i: usize = 0;
        while i < n
            invariant
                key@ == path@,
                n == self.slots@.len(),
                i <= n,
                forall|j: int| 0 <= j < i ==> self.slots@[j].entry.path@ != path@,
            decreases n - i,
        {
            if self.slots[i].entry.path == key {
                return true;
            }
            i = i + 1;
        }
        false
    }

    /// Reports whether any dirty entry's owning inode is `ino`.
    pub fn any_dirty_for_inode(&self, ino: u64) -> (r: bool)
        requires
            self.wf(),
        ensures
            r == spec_any_dirty_for_inode(self.slots@, ino),
    {
        let n = self.slots.len();
        let mut i: usize = 0;
        while i < n
            invariant
                n == self.slots@.len(),
                i <= n,
                forall|j: int|
                    0 <= j < i ==> !(self.slots@[j].entry.ino == ino
                        && self.slots@[j].entry.dirty),
            decreases n - i,
        {
            if self.slots[i].entry.ino == ino && self.slots[i].entry.dirty {
                return true;
            }
            i = i + 1;
        }
        false
    }
}

} // verus!
