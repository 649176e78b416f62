//! The staging area of fetched file contents.
//!
//! The store maps a backing-relative path to the staged content of the
//! file, the sole medium for reads and writes during an open session.
//! Entries are created when a first open misses, replaced by a later
//! fetch, and evicted when the last handle for their file closes;
//! evicting an absent path is not an error.

use vstd::prelude::*;

verus! {

/// One staged file: a backing-relative path and its content.
pub struct CacheSlot {
    pub path: String,
    pub content: Vec<u8>,
}

/// Whether some slot of `s` stages path `p`.
pub open spec fn cache_has(s: Seq<CacheSlot>, p: Seq<char>) -> bool {
    exists|i: int| 0 <= i < s.len() && s[i].path@ == p
}

/// The staged content of path `p`, if any.
pub open spec fn cache_content(s: Seq<CacheSlot>, p: Seq<char>) -> Option<Seq<u8>> {
    if cache_has(s, p) {
        Some(s[choose|i: int| 0 <= i < s.len() && s[i].path@ == p].content@)
    } else {
        None
    }
}

/// Well-formedness: staged paths are pairwise distinct.
pub open spec fn cache_wf(s: Seq<CacheSlot>) -> bool {
    forall|i: int, j: int| 0 <= i < j < s.len() ==> s[i].path@ != s[j].path@
}

/// In a well-formed store a path occurs in at most one slot.
pub proof fn lemma_cache_path_unique(s: Seq<CacheSlot>, i: int, j: int)
    requires
        cache_wf(s),
        0 <= i < s.len(),
        0 <= j < s.len(),
        s[i].path@ == s[j].path@,
    ensures
        i == j,
{
    if i < j {
        assert(s[i].path@ != s[j].path@);
    } else if j < i {
        assert(s[j].path@ != s[i].path@);
    }
}

/// Copies a byte vector.
pub fn clone_bytes(v: &Vec<u8>) -> (r: Vec<u8>)
    ensures
        r@ == v@,
{
    let mut r: Vec<u8> = Vec::new();
    let mut i: usize = 0;
    while i < v.len()
        invariant
            i <= v@.len(),
            r@ == v@.subrange(0, i as int),
        decreases v@.len() - i,
    {
        r.push(v[i]);
        i = i + 1;
        assert(r@ =~= v@.subrange(0, i as int));
    }
    assert(r@ =~= v@);
    r
}

/// The staging store of fetched file contents.
pub struct CacheStore {
    pub slots: Vec<CacheSlot>,
}

impl CacheStore {
    /// Well-formedness of the store.
    pub open spec fn wf(self) -> bool {
        cache_wf(self.slots@)
    }

    /// Creates an empty store.
    pub fn new() -> (r: CacheStore)
        ensures
            r.wf(),
            r.slots@.len() == 0,
    {
        CacheStore { slots: Vec::new() }
    }

    /// Reports whether `path` is staged.
    pub fn has(&self, path: &str) -> (r: bool)
        requires
            self.wf(),
        ensures
            r == cache_has(self.slots@, path@),
    {
        let key = String::from_str(path);
        let n = self.slots.len();
        let mut i: usize = 0;
        while i < n
            invariant
                key@ == path@,
                n == self.slots@.len(),
                i <= n,
                forall|j: int| 0 <= j < i ==> self.slots@[j].path@ != path@,
            decreases n - i,
        {
            if self.slots[i].path == key {
                return true;
            }
            i = i + 1;
        }
        false
    }

    /// Returns a reference to the staged content of `path`, if any.
    pub fn get_ref(&self, path: &str) -> (r: Option<&Vec<u8>>)
        requires
            self.wf(),
        ensures
            match r {
                Some(c) => cache_content(self.slots@, path@) == Some(c@),
                None => cache_content(self.slots@, path@) is None,
            },
    {
        let key = String::from_str(path);
        let n = self.slots.len();
        let mut i: usize = 0;
        while i < n
            invariant
                self.wf(),
                key@ == path@,
                n == self.slots@.len(),
                i <= n,
                forall|j: int| 0 <= j < i ==> self.slots@[j].path@ != path@,
            decreases n - i,
        {
            if self.slots[i].path == key {
                proof {
                    assert(cache_has(self.slots@, path@));
                    let k = choose|k: int|
                        0 <= k < self.slots@.len() && self.slots@[k].path@ == path@;
                    lemma_cache_path_unique(self.slots@, i as int, k);
                }
                return Some(&self.slots[i].content);
            }
            i = i + 1;
        }
        None
    }

    /// Stages `content` under `path`, replacing any older staged content.
    pub fn install(&mut self, path: &str, content: Vec<u8>)
        requires
            old(self).wf(),
        ensures
            final(self).wf(),
            cache_content(final(self).slots@, path@) == Some(content@),
            forall|p2: Seq<char>|
                p2 != path@ ==> cache_content(final(self).slots@, p2) == cache_content(
                    old(self).slots@,
                    p2,
                ),
    {
        self.evict(path);
        let ghost mid = self.slots@;
        self.slots.push(CacheSlot { path: String::from_str(path), content });
        proof {
            let s = self.slots@;
            let last = s.len() - 1;
            assert(s[last].path@ == path@);
            assert(cache_has(s, path@));
            assert forall|a: int, b: int| 0 <= a < b < s.len() implies s[a].path@
                != s[b].path@ by {
                if b == last {
                    assert(s[a] == mid[a]);
                    assert(cache_has(mid, mid[a].path@));
                } else {
                    assert(s[a] == mid[a] && s[b] == mid[b]);
                }
            }
            let k = choose|k: int| 0 <= k < s.len() && s[k].path@ == path@;
            lemma_cache_path_unique(s, k, last);
            assert forall|p2: Seq<char>| p2 != path@ implies cache_content(s, p2)
                == cache_content(mid, p2) by {
                if cache_has(mid, p2) {
                    let a = choose|i: int| 0 <= i < mid.len() && mid[i].path@ == p2;
                    assert(s[a].path@ == p2);
                    let b = choose|i: int| 0 <= i < s.len() && s[i].path@ == p2;
                    lemma_cache_path_unique(s, a, b);
                } else {
                    if cache_has(s, p2) {
                        let b = choose|i: int| 0 <= i < s.len() && s[i].path@ == p2;
                        assert(b != last);
                        assert(mid[b].path@ == p2);
                    }
                }
            }
        }
    }

    /// Removes the staged content of `path`; absence is not an error.
    pub fn evict(&mut self, path: &str)
        requires
            old(self).wf(),
        ensures
            final(self).wf(),
            !cache_has(final(self).slots@, path@),
            cache_content(final(self).slots@, path@) is None,
            forall|p2: Seq<char>|
                p2 != path@ ==> cache_content(final(self).slots@, p2) == cache_content(
                    old(self).slots@,
                    p2,
                ),
    {
        let key = String::from_str(path);
        let n = self.slots.len();
        let mut i: usize = 0;
        while i < n
            invariant
                self.wf(),
                self.slots@ == old(self).slots@,
                key@ == path@,
                n == self.slots@.len(),
                i <= n,
                forall|j: int| 0 <= j < i ==> self.slots@[j].path@ != path@,
            decreases n - i,
        {
            if self.slots[i].path == key {
                let ghost prev = self.slots@;
                self.slots.remove(i);
                proof {
                    let s = self.slots@;
                    assert forall|k: int| 0 <= k < s.len() implies s[k].path@ != path@ by {
                        if k < i {
                            assert(s[k] == prev[k]);
                        } else {
                            assert(s[k] == prev[k + 1]);
                            if prev[k + 1].path@ == path@ {
                                lemma_cache_path_unique(prev, i as int, k + 1);
                            }
                        }
                    }
                    assert forall|p2: Seq<char>| p2 != path@ implies cache_content(s, p2)
                        == cache_content(prev, p2) by {
                        if cache_has(prev, p2) {
                            let a = choose|k: int| 0 <= k < prev.len() && prev[k].path@ == p2;
                            assert(a != i);
                            if a < i {
                                assert(s[a] == prev[a]);
                                let b = choose|k: int| 0 <= k < s.len() && s[k].path@ == p2;
                                lemma_cache_path_unique(s, a, b);
                            } else {
                                assert(s[a - 1] == prev[a]);
                                assert(cache_has(s, p2));
                                let b = choose|k: int| 0 <= k < s.len() && s[k].path@ == p2;
                                lemma_cache_path_unique(s, a - 1, b);
                            }
                        } else {
                            if cache_has(s, p2) {
                                let b = choose|k: int| 0 <= k < s.len() && s[k].path@ == p2;
                                if b < i {
                                    assert(prev[b].path@ == p2);
                                } else {
                                    assert(prev[b + 1].path@ == p2);
                                }
                            }
                        }
                    }
                }
                return ;
            }
            i = i + 1;
        }
    }
}

} // verus!
