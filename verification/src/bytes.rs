//! Byte-level read and write semantics of a staged file.
//!
//! A staged file is modelled as a sequence of bytes.  Reads return the
//! slice actually available, reporting short reads at end-of-file
//! honestly; writes at an offset beyond end-of-file extend the file and
//! zero-fill the gap, as the local filesystem does.

use vstd::prelude::*;

verus! {

/// The bytes a read of `size` bytes at `off` returns: the available
/// slice, empty past end-of-file, short at end-of-file.
pub open spec fn spec_read_at(c: Seq<u8>, off: int, size: int) -> Seq<u8> {
    if off >= c.len() || off < 0 || size <= 0 {
        Seq::empty()
    } else if off + size >= c.len() {
        c.subrange(off, c.len() as int)
    } else {
        c.subrange(off, off + size)
    }
}

/// The content after writing `d` at offset `off`: bytes of the write
/// window come from `d`, bytes before it keep their old value, and any
/// gap between the old end-of-file and the write offset is zero-filled.
pub open spec fn spec_write_at(c: Seq<u8>, off: int, d: Seq<u8>) -> Seq<u8> {
    let n = if c.len() >= off + d.len() {
        c.len() as int
    } else {
        off + d.len()
    };
    Seq::new(n as nat, |i: int|
        if off <= i < off + d.len() {
            d[i - off]
        } else if i < c.len() {
            c[i]
        } else {
            0u8
        }
    )
}

/// Reads up to `size` bytes of `c` at offset `offset`, returning the
/// slice actually available.
pub fn read_at(c: &Vec<u8>, offset: u64, size: u32) -> (r: Vec<u8>)
    ensures
        r@ == spec_read_at(c@, offset as int, size as int),
{
    if offset >= c.len() as u64 || size == 0 {
        let r: Vec<u8> = Vec::new();
        assert(r@ =~= spec_read_at(c@, offset as int, size as int));
        return r;
    }
    let start: usize = offset as usize;
    let end: usize = if size as u64 >= (c.len() - start) as u64 {
        c.len()
    } else {
        start + size as usize
    };
    let mut r: Vec<u8> = Vec::new();
    let mut i: usize = start;
    while i < end
        invariant
            start <= i <= end <= c.len(),
            r@ == c@.subrange(start as int, i as int),
        decreases end - i,
    {
        r.push(c[i]);
        i = i + 1;
        assert(r@ =~= c@.subrange(start as int, i as int));
    }
    assert(r@ =~= spec_read_at(c@, offset as int, size as int));
    r
}

/// Writes `d` into `c` at offset `offset`, extending and zero-filling as
/// needed.  Returns the new content, or nothing when the end of the write
/// window cannot be addressed on this machine.
pub fn write_at(c: &Vec<u8>, offset: u64, d: &[u8]) -> (r: Option<Vec<u8>>)
    ensures
        match r {
            Some(v) => offset + d@.len() <= usize::MAX && v@ == spec_write_at(
                c@,
                offset as int,
                d@,
            ),
            None => offset + d@.len() > usize::MAX,
        },
{
    if offset > (usize::MAX - d.len()) as u64 {
        return None;
    }
    let off: usize = offset as usize;
    let end_w: usize = off + d.len();
    let total: usize = if c.len() >= end_w {
        c.len()
    } else {
        end_w
    };
    let ghost w = spec_write_at(c@, offset as int, d@);
    assert(w.len() == total);
    let mut r: Vec<u8> = Vec::new();
    let mut i: usize = 0;
    while i < total
        invariant
            i <= total,
            off + d@.len() == end_w <= total,
            total == w.len(),
            w == spec_write_at(c@, off as int, d@),
            r@.len() == i as int,
            forall|j: int| 0 <= j < i ==> r@[j] == w[j],
        decreases total - i,
    {
        let b: u8 = if off <= i && i < end_w {
            d[i - off]
        } else if i < c.len() {
            c[i]
        } else {
            0u8
        };
        r.push(b);
        i = i + 1;
    }
    assert(r@ =~= w);
    Some(r)
}

/// Law: a read at the offset of a just-written window, of exactly the
/// window's length, returns the bytes written.
pub proof fn lemma_write_then_read(c: Seq<u8>, off: int, d: Seq<u8>)
    requires
        off >= 0,
    ensures
        spec_read_at(spec_write_at(c, off, d), off, d.len() as int) == d,
{
    let w = spec_write_at(c, off, d);
    if d.len() == 0 {
        assert(spec_read_at(w, off, 0) =~= d);
    } else {
        assert(off + d.len() <= w.len());
        assert(spec_read_at(w, off, d.len() as int) =~= d);
    }
}

/// Law: the content after a write holds the written bytes at the write
/// offset, so uploading the whole staged content after a flush hands the
/// remote side the bytes written, and a remote read returns them.
pub proof fn lemma_upload_carries_written_bytes(c: Seq<u8>, off: int, d: Seq<u8>)
    requires
        off >= 0,
    ensures
        spec_write_at(c, off, d).subrange(off, off + d.len()) == d,
{
    assert(spec_write_at(c, off, d).subrange(off, off + d.len()) =~= d);
}

/// Law: a read at or past end-of-file returns an empty slice; in
/// particular any read of empty content is empty.
pub proof fn lemma_read_past_eof(c: Seq<u8>, off: int, size: int)
    requires
        off >= c.len(),
    ensures
        spec_read_at(c, off, size) == Seq::<u8>::empty(),
{
}

/// Law: a write at an offset beyond end-of-file extends the file, keeps
/// the old prefix, and zero-fills the bytes between the old end and the
/// write offset.
pub proof fn lemma_write_beyond_eof_zero_fills(c: Seq<u8>, off: int, d: Seq<u8>)
    requires
        off >= c.len(),
    ensures
        spec_write_at(c, off, d).len() == off + d.len(),
        spec_write_at(c, off, d).subrange(0, c.len() as int) == c,
        forall|i: int|
            c.len() <= i < off ==> spec_write_at(c, off, d)[i] == 0u8,
        spec_write_at(c, off, d).subrange(off, off + d.len()) == d,
{
    let w = spec_write_at(c, off, d);
    assert(w.subrange(0, c.len() as int) =~= c);
    assert(w.subrange(off, off + d.len()) =~= d);
}

} // verus!
