//! Backing-relative paths and the places they map to.
//!
//! A backing-relative path is canonical: no leading separator, and the
//! empty path denotes the backing root.  This module forms child paths,
//! the local staging path under the cache root, and the absolute remote
//! path under the backing root, and splits the connection string.

use vstd::prelude::*;

verus! {

/// The child path of `parent` and entry `name`: the entry name itself at
/// the backing root, otherwise the parent, a separator, and the name.
pub open spec fn spec_join_child(parent: Seq<char>, name: Seq<char>) -> Seq<char> {
    if parent.len() == 0 {
        name
    } else {
        parent + seq!['/'] + name
    }
}

/// Forms the canonical child path of `parent` and `name`.
pub fn join_child(parent: &str, name: &str) -> (r: String)
    ensures
        r@ == spec_join_child(parent@, name@),
{
    if parent.unicode_len() == 0 {
        String::from_str(name)
    } else {
        let mut s = String::from_str(parent);
        s.append("/");
        s.append(name);
        proof {
            reveal_strlit("/");
        }
        assert(s@ =~= spec_join_child(parent@, name@));
        s
    }
}

/// The local staging path of a backing-relative path: the cache root,
/// the server namespace tag, and the path, separated.
pub open spec fn spec_local_path(cache_root: Seq<char>, tag: Seq<char>, rel: Seq<char>) -> Seq<
    char,
> {
    if rel.len() == 0 {
        cache_root + seq!['/'] + tag
    } else {
        cache_root + seq!['/'] + tag + seq!['/'] + rel
    }
}

/// Forms the local staging path of a backing-relative path.
pub fn local_path_for(cache_root: &str, tag: &str, rel: &str) -> (r: String)
    ensures
        r@ == spec_local_path(cache_root@, tag@, rel@),
{
    let mut s = String::from_str(cache_root);
    s.append("/");
    s.append(tag);
    if rel.unicode_len() > 0 {
        s.append("/");
        s.append(rel);
    }
    proof {
        reveal_strlit("/");
    }
    assert(s@ =~= spec_local_path(cache_root@, tag@, rel@));
    s
}

/// The absolute remote path of a backing-relative path: the backing root
/// itself for the empty path, otherwise the backing root, a separator,
/// and the path.
pub open spec fn spec_remote_path(backing: Seq<char>, rel: Seq<char>) -> Seq<char> {
    if rel.len() == 0 {
        backing
    } else {
        backing + seq!['/'] + rel
    }
}

/// Forms the absolute remote path of a backing-relative path.
pub fn remote_path_for(backing: &str, rel: &str) -> (r: String)
    ensures
        r@ == spec_remote_path(backing@, rel@),
{
    let mut s = String::from_str(backing);
    if rel.unicode_len() > 0 {
        s.append("/");
        s.append(rel);
    }
    proof {
        reveal_strlit("/");
    }
    assert(s@ =~= spec_remote_path(backing@, rel@));
    s
}

/// The directory part of a path: everything before the last separator,
/// or nothing for a path without one.  A first open that misses staging
/// creates this hierarchy under the cache root before the fetch.
pub fn parent_dir(p: &str) -> (r: Option<String>)
    ensures
        match r {
            Some(d) => {
                &&& d@.len() < p@.len()
                &&& p@[d@.len() as int] == '/'
                &&& d@ == p@.subrange(0, d@.len() as int)
                &&& forall|j: int| d@.len() < j < p@.len() ==> p@[j] != '/'
            },
            None => forall|j: int| 0 <= j < p@.len() ==> p@[j] != '/',
        },
{
    let n = p.unicode_len();
    let mut i: usize = n;
    while i > 0
        invariant
            i <= n,
            n == p@.len(),
            forall|j: int| i <= j < n ==> p@[j] != '/',
        decreases i,
    {
        if p.get_char(i - 1) == '/' {
            return Some(String::from_str(p.substring_char(0, i - 1)));
        }
        i = i - 1;
    }
    None
}

/// Splits `s` at the first occurrence of `c`, returning the parts before
/// and after it, or nothing when `c` does not occur.
pub fn split_first(s: &str, c: char) -> (r: Option<(String, String)>)
    ensures
        match r {
            Some(parts) => {
                &&& parts.0@ + seq![c] + parts.1@ == s@
                &&& forall|j: int| 0 <= j < parts.0@.len() ==> s@[j] != c
                &&& s@[parts.0@.len() as int] == c
            },
            None => forall|j: int| 0 <= j < s@.len() ==> s@[j] != c,
        },
{
    let n = s.unicode_len();
    let mut i: usize = 0;
    while i < n
        invariant
            i <= n,
            n == s@.len(),
            forall|j: int| 0 <= j < i ==> s@[j] != c,
        decreases n - i,
    {
        if s.get_char(i) == c {
            let a = String::from_str(s.substring_char(0, i));
            let b = String::from_str(s.substring_char(i + 1, n));
            assert(a@ + seq![c] + b@ =~= s@);
            return Some((a, b));
        }
        i = i + 1;
    }
    None
}

/// Splits a backing argument `host:directory` at the first `:` into the
/// remote endpoint and the backing directory, or returns nothing when the
/// argument holds no `:`.
pub fn extract_hostname_and_path(backing: &str) -> (r: Option<(String, String)>)
    ensures
        match r {
            Some(parts) => {
                &&& parts.0@ + seq![':'] + parts.1@ == backing@
                &&& forall|j: int| 0 <= j < parts.0@.len() ==> backing@[j] != ':'
                &&& backing@[parts.0@.len() as int] == ':'
            },
            None => forall|j: int| 0 <= j < backing@.len() ==> backing@[j] != ':',
        },
{
    split_first(backing, ':')
}

/// Splits a connection string `user@host` at the first `@` into the user
/// and the host, or returns nothing when the string holds no `@`.
pub fn split_user_host(hostname: &str) -> (r: Option<(String, String)>)
    ensures
        match r {
            Some(parts) => {
                &&& parts.0@ + seq!['@'] + parts.1@ == hostname@
                &&& forall|j: int| 0 <= j < parts.0@.len() ==> hostname@[j] != '@'
                &&& hostname@[parts.0@.len() as int] == '@'
            },
            None => forall|j: int| 0 <= j < hostname@.len() ==> hostname@[j] != '@',
        },
{
    split_first(hostname, '@')
}

} // verus!
