//! Deterministic identifiers derived from 128-bit digests.
//!
//! Inode numbers other than the reserved root are the first eight bytes of
//! the digest of the backing-relative path, read big-endian.  The server
//! namespace tag that partitions the local cache is the hexadecimal form
//! of the digest of the connection string.

use vstd::prelude::*;

verus! {

/// The 128-bit digest of a string's bytes; a function of the characters
/// alone.
pub uninterp spec fn md5_of(s: Seq<char>) -> Seq<u8>;

/// Relies on md5::compute: the 128-bit digest of the argument's bytes,
/// sixteen bytes long, a function of the argument alone.
#[verifier::external_body]
fn md5_digest(s: &str) -> (r: Vec<u8>)
    ensures
        r@ == md5_of(s@),
        r@.len() == 16,
{
    md5::compute(s.as_bytes()).0.to_vec()
}

/// The lowercase hexadecimal digit of a value below sixteen.
pub open spec fn hex_digit(n: int) -> char {
    if n == 0 {
        '0'
    } else if n == 1 {
        '1'
    } else if n == 2 {
        '2'
    } else if n == 3 {
        '3'
    } else if n == 4 {
        '4'
    } else if n == 5 {
        '5'
    } else if n == 6 {
        '6'
    } else if n == 7 {
        '7'
    } else if n == 8 {
        '8'
    } else if n == 9 {
        '9'
    } else if n == 10 {
        'a'
    } else if n == 11 {
        'b'
    } else if n == 12 {
        'c'
    } else if n == 13 {
        'd'
    } else if n == 14 {
        'e'
    } else {
        'f'
    }
}

/// The lowercase hexadecimal form of a byte sequence: two digits per byte,
/// high nibble first.
pub open spec fn hex_of(b: Seq<u8>) -> Seq<char> {
    Seq::new((2 * b.len()) as nat, |i: int|
        if i % 2 == 0 {
            hex_digit(b[i / 2] as int / 16)
        } else {
            hex_digit(b[i / 2] as int % 16)
        }
    )
}

/// One lowercase hexadecimal digit as a string slice.
fn hex_digit_str(n: u8) -> (r: &'static str)
    requires
        n < 16,
    ensures
        r@.len() == 1,
        r@[0] == hex_digit(n as int),
{
    let r = match n {
        0 => "0",
        1 => "1",
        2 => "2",
        3 => "3",
        4 => "4",
        5 => "5",
        6 => "6",
        7 => "7",
        8 => "8",
        9 => "9",
        10 => "a",
        11 => "b",
        12 => "c",
        13 => "d",
        14 => "e",
        _ => "f",
    };
    proof {
        reveal_strlit("0");
        reveal_strlit("1");
        reveal_strlit("2");
        reveal_strlit("3");
        reveal_strlit("4");
        reveal_strlit("5");
        reveal_strlit("6");
        reveal_strlit("7");
        reveal_strlit("8");
        reveal_strlit("9");
        reveal_strlit("a");
        reveal_strlit("b");
        reveal_strlit("c");
        reveal_strlit("d");
        reveal_strlit("e");
        reveal_strlit("f");
    }
    r
}

/// Encodes a byte sequence as lowercase hexadecimal, two digits per byte.
pub fn hex_string(b: &Vec<u8>) -> (r: String)
    ensures
        r@ == hex_of(b@),
{
    let mut s = String::new();
    let mut i: usize = 0;
    while i < b.len()
        invariant
            i <= b.len(),
            s@ == hex_of(b@).subrange(0, 2 * i as int),
        decreases b.len() - i,
    {
        let byte = b[i];
        s.append(hex_digit_str(byte / 16));
        s.append(hex_digit_str(byte % 16));
        i = i + 1;
        assert(s@ =~= hex_of(b@).subrange(0, 2 * i as int));
    }
    assert(s@ =~= hex_of(b@));
    s
}

/// The value of the first eight bytes of a sequence, read big-endian.
pub open spec fn spec_be64(b: Seq<u8>) -> int {
    b[0] * 0x100000000000000 + b[1] * 0x1000000000000 + b[2] * 0x10000000000 + b[3] * 0x100000000
        + b[4] * 0x1000000 + b[5] * 0x10000 + b[6] * 0x100 + b[7]
}

/// Reads the first eight bytes of `b` as a big-endian 64-bit value.
fn be64(b: &Vec<u8>) -> (r: u64)
    requires
        b@.len() >= 8,
    ensures
        r as int == spec_be64(b@),
{
    (b[0] as u64) * 0x100000000000000 + (b[1] as u64) * 0x1000000000000 + (b[2] as u64)
        * 0x10000000000 + (b[3] as u64) * 0x100000000 + (b[4] as u64) * 0x1000000 + (b[5] as u64)
        * 0x10000 + (b[6] as u64) * 0x100 + (b[7] as u64)
}

/// The inode number derived from a backing-relative path: the first eight
/// bytes of the path's digest, read big-endian.
pub open spec fn spec_ino_of_path(p: Seq<char>) -> u64 {
    spec_be64(md5_of(p)) as u64
}

/// Derives the inode number of a backing-relative path from its digest.
pub fn inode_for_path(p: &str) -> (r: u64)
    ensures
        r == spec_ino_of_path(p@),
{
    let d = md5_digest(p);
    be64(&d)
}

/// The server namespace tag of a connection string: the hexadecimal form
/// of its digest.
pub open spec fn spec_server_tag(conn: Seq<char>) -> Seq<char> {
    hex_of(md5_of(conn))
}

/// Computes the server namespace tag of a connection string.
pub fn server_tag(conn: &str) -> (r: String)
    ensures
        r@ == spec_server_tag(conn@),
{
    let d = md5_digest(conn);
    hex_string(&d)
}

} // verus!
