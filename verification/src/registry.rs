//! The two-way mapping between inode numbers and backing-relative paths.
//!
//! The registry is a bijection: every non-root inode it holds stands for
//! exactly one non-empty path and vice versa.  The root inode and the
//! empty path are mapped to each other implicitly, without consulting
//! storage.  Inode numbers are assigned deterministically from the path's
//! digest; a fresh path whose digest collides with an installed inode
//! evicts the older pair, and one whose digest collides with the root
//! inode is left uninstalled, so the bijection is kept in either case.

use vstd::prelude::*;

use crate::attrs::ROOT_INODE;
use crate::digest::inode_for_path;
use crate::digest::spec_ino_of_path;

verus! {

/// One pair of the registry: a non-root inode and the non-empty
/// backing-relative path it stands for.
pub struct RegEntry {
    pub ino: u64,
    pub path: String,
}

/// Whether some pair of `s` carries inode `ino`.
pub open spec fn reg_has_ino(s: Seq<RegEntry>, ino: u64) -> bool {
    exists|i: int| 0 <= i < s.len() && s[i].ino == ino
}

/// Whether some pair of `s` carries path `p`.
pub open spec fn reg_has_path(s: Seq<RegEntry>, p: Seq<char>) -> bool {
    exists|i: int| 0 <= i < s.len() && s[i].path@ == p
}

/// Whether `s` maps inode `ino` to path `p`.
pub open spec fn reg_maps(s: Seq<RegEntry>, ino: u64, p: Seq<char>) -> bool {
    exists|i: int| 0 <= i < s.len() && s[i].ino == ino && s[i].path@ == p
}

/// Well-formedness of the stored pairs: inodes and paths are each
/// pairwise distinct, no pair carries the root inode, and no pair
/// carries the empty path.
pub open spec fn reg_wf(s: Seq<RegEntry>) -> bool {
    &&& forall|i: int, j: int|
        0 <= i < j < s.len() ==> s[i].ino != s[j].ino && s[i].path@ != s[j].path@
    &&& forall|i: int| 0 <= i < s.len() ==> s[i].ino != ROOT_INODE && s[i].path@.len() > 0
}

/// The path an inode resolves to: the empty path for the root inode, the
/// stored pair's path for an installed inode, nothing otherwise.
pub open spec fn spec_resolve(s: Seq<RegEntry>, ino: u64) -> Option<Seq<char>> {
    if ino == ROOT_INODE {
        Some(Seq::empty())
    } else if reg_has_ino(s, ino) {
        Some(s[choose|i: int| 0 <= i < s.len() && s[i].ino == ino].path@)
    } else {
        None
    }
}

/// In a well-formed registry an inode occurs in at most one pair.
pub proof fn lemma_reg_ino_unique(s: Seq<RegEntry>, i: int, j: int)
    requires
        reg_wf(s),
        0 <= i < s.len(),
        0 <= j < s.len(),
        s[i].ino == s[j].ino,
    ensures
        i == j,
{
    if i < j {
        assert(s[i].ino != s[j].ino);
    } else if j < i {
        assert(s[j].ino != s[i].ino);
    }
}

/// In a well-formed registry a path occurs in at most one pair.
pub proof fn lemma_reg_path_unique(s: Seq<RegEntry>, i: int, j: int)
    requires
        reg_wf(s),
        0 <= i < s.len(),
        0 <= j < s.len(),
        s[i].path@ == s[j].path@,
    ensures
        i == j,
{
    if i < j {
        assert(s[i].path@ != s[j].path@);
    } else if j < i {
        assert(s[j].path@ != s[i].path@);
    }
}

/// Law: a registry pair mapping a non-root inode to a path is resolved
/// back to that path, so interning a path and resolving the inode it
/// returned yields the path again.
pub proof fn lemma_intern_resolve_round_trip(s: Seq<RegEntry>, ino: u64, p: Seq<char>)
    requires
        reg_wf(s),
        ino != ROOT_INODE,
        reg_maps(s, ino, p),
    ensures
        spec_resolve(s, ino) == Some(p),
{
    let i = choose|i: int| 0 <= i < s.len() && s[i].ino == ino && s[i].path@ == p;
    assert(reg_has_ino(s, ino));
    let k = choose|k: int| 0 <= k < s.len() && s[k].ino == ino;
    lemma_reg_ino_unique(s, i, k);
}

/// The two-way inode/path mapping.
pub struct Registry {
    pub entries: Vec<RegEntry>,
}

impl Registry {
    /// Well-formedness: the stored pairs form a bijection away from the
    /// implicit root pair.
    pub open spec fn wf(self) -> bool {
        reg_wf(self.entries@)
    }

    /// Creates an empty registry.
    pub fn new() -> (r: Registry)
        ensures
            r.wf(),
            r.entries@.len() == 0,
    {
        Registry { entries: Vec::new() }
    }

    /// Returns the path `ino` stands for: the empty path for the root
    /// inode, the installed path otherwise, or nothing for an unknown
    /// inode.
    pub fn resolve(&self, ino: u64) -> (r: Option<String>)
        requires
            self.wf(),
        ensures
            match r {
                Some(p) => spec_resolve(self.entries@, ino) == Some(p@),
                None => spec_resolve(self.entries@, ino) is None,
            },
    {
        if ino == ROOT_INODE {
            return Some(String::new());
        }
        let n = self.entries.len();
        let mut i: usize = 0;
        while i < n
            invariant
                self.wf(),
                n == self.entries@.len(),
                i <= n,
                forall|j: int| 0 <= j < i ==> self.entries@[j].ino != ino,
            decreases n - i,
        {
            if self.entries[i].ino == ino {
                let p = self.entries[i].path.clone();
                proof {
                    assert(reg_has_ino(self.entries@, ino));
                    let k = choose|k: int|
                        0 <= k < self.entries@.len() && self.entries@[k].ino == ino;
                    lemma_reg_ino_unique(self.entries@, i as int, k);
                }
                return Some(p);
            }
            i = i + 1;
        }
        None
    }

    /// Removes the pair carrying inode `ino`, if any.
    fn remove_ino(&mut self, ino: u64)
        requires
            old(self).wf(),
        ensures
            final(self).wf(),
            !reg_has_ino(final(self).entries@, ino),
            forall|ino2: u64, p2: Seq<char>|
                reg_maps(old(self).entries@, ino2, p2) && ino2 != ino ==> reg_maps(
                    final(self).entries@,
                    ino2,
                    p2,
                ),
            forall|ino2: u64, p2: Seq<char>|
                reg_maps(final(self).entries@, ino2, p2) ==> reg_maps(old(self).entries@, ino2, p2)
                    && ino2 != ino,
    {
        let n = self.entries.len();
        let mut i: usize = 0;
        while i < n
            invariant
                self.wf(),
                self.entries@ == old(self).entries@,
                n == self.entries@.len(),
                i <= n,
                forall|j: int| 0 <= j < i ==> self.entries@[j].ino != ino,
            decreases n - i,
        {
            if self.entries[i].ino == ino {
                let ghost prev = self.entries@;
                self.entries.remove(i);
                proof {
                    let s = self.entries@;
                    assert forall|k: int| 0 <= k < s.len() implies s[k].ino != ino by {
                        if k < i {
                            assert(s[k] == prev[k]);
                        } else {
                            assert(s[k] == prev[k + 1]);
                            if prev[k + 1].ino == ino {
                                lemma_reg_ino_unique(prev, i as int, k + 1);
                            }
                        }
                    }
                    assert forall|ino2: u64, p2: Seq<char>|
                        reg_maps(prev, ino2, p2) && ino2 != ino implies reg_maps(
                        s,
                        ino2,
                        p2,
                    ) by {
                        let k = choose|k: int|
                            0 <= k < prev.len() && prev[k].ino == ino2 && prev[k].path@ == p2;
                        if k < i {
                            assert(s[k] == prev[k]);
                        } else {
                            assert(s[k - 1] == prev[k]);
                        }
                    }
                    assert forall|ino2: u64, p2: Seq<char>| reg_maps(s, ino2, p2) implies reg_maps(
                        prev,
                        ino2,
                        p2,
                    ) && ino2 != ino by {
                        let k = choose|k: int|
                            0 <= k < s.len() && s[k].ino == ino2 && s[k].path@ == p2;
                        if k < i {
                            assert(s[k] == prev[k]);
                        } else {
                            assert(s[k] == prev[k + 1]);
                        }
                    }
                }
                return ;
            }
            i = i + 1;
        }
    }

    /// Removes the pair carrying path `p`, if any.
    fn remove_path(&mut self, p: &str)
        requires
            old(self).wf(),
        ensures
            final(self).wf(),
            !reg_has_path(final(self).entries@, p@),
            forall|ino2: u64, p2: Seq<char>|
                reg_maps(old(self).entries@, ino2, p2) && p2 != p@ ==> reg_maps(
                    final(self).entries@,
                    ino2,
                    p2,
                ),
            forall|ino2: u64, p2: Seq<char>|
                reg_maps(final(self).entries@, ino2, p2) ==> reg_maps(old(self).entries@, ino2, p2) && p2
                    != p@,
    {
        let key = String::from_str(p);
        let n = self.entries.len();
        let mut i: usize = 0;
        while i < n
            invariant
                self.wf(),
                self.entries@ == old(self).entries@,
                key@ == p@,
                n == self.entries@.len(),
                i <= n,
                forall|j: int| 0 <= j < i ==> self.entries@[j].path@ != p@,
            decreases n - i,
        {
            if self.entries[i].path == key {
                let ghost prev = self.entries@;
                self.entries.remove(i);
                proof {
                    let s = self.entries@;
                    assert forall|k: int| 0 <= k < s.len() implies s[k].path@ != p@ by {
                        if k < i {
                            assert(s[k] == prev[k]);
                        } else {
                            assert(s[k] == prev[k + 1]);
                            if prev[k + 1].path@ == p@ {
                                lemma_reg_path_unique(prev, i as int, k + 1);
                            }
                        }
                    }
                    assert forall|ino2: u64, p2: Seq<char>|
                        reg_maps(prev, ino2, p2) && p2 != p@ implies reg_maps(s, ino2, p2) by {
                        let k = choose|k: int|
                            0 <= k < prev.len() && prev[k].ino == ino2 && prev[k].path@ == p2;
                        if k < i {
                            assert(s[k] == prev[k]);
                        } else {
                            assert(s[k - 1] == prev[k]);
                        }
                    }
                    assert forall|ino2: u64, p2: Seq<char>| reg_maps(s, ino2, p2) implies reg_maps(
                        prev,
                        ino2,
                        p2,
                    ) && p2 != p@ by {
                        let k = choose|k: int|
                            0 <= k < s.len() && s[k].ino == ino2 && s[k].path@ == p2;
                        if k < i {
                            assert(s[k] == prev[k]);
                        } else {
                            assert(s[k] == prev[k + 1]);
                        }
                    }
                }
                return ;
            }
            i = i + 1;
        }
    }

    /// Interns a path: the root inode for the empty path, the installed
    /// inode for a known path, and otherwise a fresh inode derived from
    /// the path's digest, installed in both directions.  A fresh inode
    /// that collides with an installed one evicts the older pair; one
    /// that collides with the root inode is returned uninstalled.
    pub fn intern(&mut self, path: &str) -> (r: u64)
        requires
            old(self).wf(),
        ensures
            final(self).wf(),
            path@.len() == 0 ==> r == ROOT_INODE && final(self).entries@ == old(self).entries@,
            path@.len() > 0 && reg_has_path(old(self).entries@, path@) ==> final(self).entries@ == old(
                self,
            ).entries@ && r != ROOT_INODE && reg_maps(final(self).entries@, r, path@) && spec_resolve(
                final(self).entries@,
                r,
            ) == Some(path@),
            path@.len() > 0 && !reg_has_path(old(self).entries@, path@) ==> {
                &&& r == spec_ino_of_path(path@)
                &&& (r == ROOT_INODE ==> final(self).entries@ == old(self).entries@)
                &&& (r != ROOT_INODE ==> reg_maps(final(self).entries@, r, path@) && spec_resolve(
                    final(self).entries@,
                    r,
                ) == Some(path@))
            },
            forall|ino2: u64, p2: Seq<char>|
                reg_maps(old(self).entries@, ino2, p2) && ino2 != r && p2 != path@ ==> reg_maps(
                    final(self).entries@,
                    ino2,
                    p2,
                ),
            forall|ino2: u64, p2: Seq<char>|
                reg_maps(final(self).entries@, ino2, p2) ==> reg_maps(old(self).entries@, ino2, p2) || (
                ino2 == r && p2 == path@),
    {
        if path.unicode_len() == 0 {
            return ROOT_INODE;
        }
        let key = String::from_str(path);
        let n = self.entries.len();
        let mut i: usize = 0;
        while i < n
            invariant
                self.wf(),
                self.entries@ == old(self).entries@,
                key@ == path@,
                n == self.entries@.len(),
                i <= n,
                forall|j: int| 0 <= j < i ==> self.entries@[j].path@ != path@,
            decreases n - i,
        {
            if self.entries[i].path == key {
                let r = self.entries[i].ino;
                proof {
                    assert(reg_maps(self.entries@, r, path@));
                    lemma_intern_resolve_round_trip(self.entries@, r, path@);
                }
                return r;
            }
            i = i + 1;
        }
        let ino = inode_for_path(path);
        if ino == ROOT_INODE {
            return ino;
        }
        let ghost before = self.entries@;
        self.remove_ino(ino);
        let ghost mid = self.entries@;
        self.entries.push(RegEntry { ino, path: key });
        proof {
            let s = self.entries@;
            assert(s[s.len() - 1].ino == ino && s[s.len() - 1].path@ == path@);
            assert(reg_maps(s, ino, path@));
            // the pushed pair is fresh in both directions, so well-formedness holds
            assert forall|a: int, b: int| 0 <= a < b < s.len() implies s[a].ino != s[b].ino
                && s[a].path@ != s[b].path@ by {
                if b == s.len() - 1 {
                    assert(s[a] == mid[a]);
                    assert(reg_maps(mid, mid[a].ino, mid[a].path@));
                    if mid[a].ino == ino {
                        assert(reg_has_ino(mid, ino));
                    }
                    if mid[a].path@ == path@ {
                        assert(reg_maps(before, mid[a].ino, path@));
                        assert(reg_has_path(before, path@));
                    }
                } else {
                    assert(s[a] == mid[a] && s[b] == mid[b]);
                }
            }
            assert forall|k: int| 0 <= k < s.len() implies s[k].ino != ROOT_INODE
                && s[k].path@.len() > 0 by {
                if k < s.len() - 1 {
                    assert(s[k] == mid[k]);
                }
            }
            lemma_intern_resolve_round_trip(s, ino, path@);
            assert forall|ino2: u64, p2: Seq<char>|
                reg_maps(before, ino2, p2) && ino2 != ino && p2 != path@ implies reg_maps(
                s,
                ino2,
                p2,
            ) by {
                assert(reg_maps(mid, ino2, p2));
                let k = choose|k: int|
                    0 <= k < mid.len() && mid[k].ino == ino2 && mid[k].path@ == p2;
                assert(s[k] == mid[k]);
            }
            assert forall|ino2: u64, p2: Seq<char>| reg_maps(s, ino2, p2) implies reg_maps(
                before,
                ino2,
                p2,
            ) || (ino2 == ino && p2 == path@) by {
                let k = choose|k: int| 0 <= k < s.len() && s[k].ino == ino2 && s[k].path@ == p2;
                if k < s.len() - 1 {
                    assert(s[k] == mid[k]);
                    assert(reg_maps(mid, ino2, p2));
                }
            }
        }
        ino
    }

    /// Removes both directions of the mappings carrying `ino` or `path`,
    /// if present; absence is not an error, and the call is idempotent.
    pub fn forget(&mut self, ino: u64, path: &str)
        requires
            old(self).wf(),
        ensures
            final(self).wf(),
            !reg_has_ino(final(self).entries@, ino),
            !reg_has_path(final(self).entries@, path@),
            spec_resolve(final(self).entries@, ino) == if ino == ROOT_INODE {
                Some(Seq::<char>::empty())
            } else {
                None::<Seq<char>>
            },
            forall|ino2: u64, p2: Seq<char>|
                reg_maps(old(self).entries@, ino2, p2) && ino2 != ino && p2 != path@ ==> reg_maps(
                    final(self).entries@,
                    ino2,
                    p2,
                ),
            forall|ino2: u64, p2: Seq<char>|
                reg_maps(final(self).entries@, ino2, p2) ==> reg_maps(old(self).entries@, ino2, p2)
                    && ino2 != ino && p2 != path@,
    {
        self.remove_ino(ino);
        let ghost mid = self.entries@;
        self.remove_path(path);
        proof {
            let s = self.entries@;
            assert forall|k: int| 0 <= k < s.len() implies s[k].ino != ino by {
                assert(reg_maps(s, s[k].ino, s[k].path@));
                if s[k].ino == ino {
                    assert(reg_maps(mid, ino, s[k].path@));
                    assert(reg_has_ino(mid, ino));
                }
            }
        }
    }
}

} // verus!
