//! Byte-buffer primitives shared by the image analyser, the hook installer
//! and the mapper: little-endian reads, in-place writes of byte ranges, and
//! their mathematical counterparts over `Seq<u8>`.

use vstd::prelude::*;

verus! {

/// Little-endian value of the two bytes at `off`.
pub open spec fn le16(b: Seq<u8>, off: int) -> int {
    b[off] as int + b[off + 1] as int * 0x100
}

/// Little-endian value of the four bytes at `off`.
pub open spec fn le32(b: Seq<u8>, off: int) -> int {
    b[off] as int
        + b[off + 1] as int * 0x100
        + b[off + 2] as int * 0x1_0000
        + b[off + 3] as int * 0x100_0000
}

/// Little-endian value of the eight bytes at `off`.
pub open spec fn le64(b: Seq<u8>, off: int) -> int {
    le32(b, off) + le32(b, off + 4) * 0x1_0000_0000
}

/// The eight little-endian bytes of `v`.
pub open spec fn le64_bytes(v: u64) -> Seq<u8> {
    seq![
        (v as int % 0x100) as u8,
        (v as int / 0x100 % 0x100) as u8,
        (v as int / 0x1_0000 % 0x100) as u8,
        (v as int / 0x100_0000 % 0x100) as u8,
        (v as int / 0x1_0000_0000 % 0x100) as u8,
        (v as int / 0x100_0000_0000 % 0x100) as u8,
        (v as int / 0x1_0000_0000_0000 % 0x100) as u8,
        (v as int / 0x100_0000_0000_0000 % 0x100) as u8,
    ]
}

/// `b` with the bytes of `v` written at `off`; everything else unchanged.
pub open spec fn splice(b: Seq<u8>, off: int, v: Seq<u8>) -> Seq<u8> {
    Seq::new(b.len(), |j: int| if off <= j < off + v.len() { v[j - off] } else { b[j] })
}

/// Reads the little-endian 16-bit value at `off`.
pub fn read_u16(b: &Vec<u8>, off: usize) -> (r: u64)
    requires
        off + 2 <= b@.len(),
    ensures
        r == le16(b@, off as int),
        r < 0x1_0000,
{
    let _n: usize = b.len();
    b[off] as u64 + b[off + 1] as u64 * 0x100
}

/// Reads the little-endian 32-bit value at `off`.
pub fn read_u32(b: &Vec<u8>, off: usize) -> (r: u64)
    requires
        off + 4 <= b@.len(),
    ensures
        r == le32(b@, off as int),
        r < 0x1_0000_0000,
{
    let _n: usize = b.len();
    b[off] as u64
        + b[off + 1] as u64 * 0x100
        + b[off + 2] as u64 * 0x1_0000
        + b[off + 3] as u64 * 0x100_0000
}

/// Reads the little-endian 64-bit value at `off`.
pub fn read_u64(b: &Vec<u8>, off: usize) -> (r: u64)
    requires
        off + 8 <= b@.len(),
    ensures
        r == le64(b@, off as int),
{
    let _n: usize = b.len();
    let lo = read_u32(b, off);
    let hi = read_u32(b, off + 4);
    lo + hi * 0x1_0000_0000
}

/// The little-endian bytes of `v`, as a vector of length eight.
pub fn u64_to_le_bytes(v: u64) -> (r: Vec<u8>)
    ensures
        r@ == le64_bytes(v),
{
    let mut r: Vec<u8> = Vec::new();
    r.push((v % 0x100) as u8);
    r.push((v / 0x100 % 0x100) as u8);
    r.push((v / 0x1_0000 % 0x100) as u8);
    r.push((v / 0x100_0000 % 0x100) as u8);
    r.push((v / 0x1_0000_0000 % 0x100) as u8);
    r.push((v / 0x100_0000_0000 % 0x100) as u8);
    r.push((v / 0x1_0000_0000_0000 % 0x100) as u8);
    r.push((v / 0x100_0000_0000_0000 % 0x100) as u8);
    proof {
        assert(r@ =~= le64_bytes(v));
    }
    r
}

/// Overwrites `dst[off .. off + src.len()]` with `src`.
pub fn write_bytes(dst: &mut Vec<u8>, off: usize, src: &Vec<u8>)
    requires
        off + src@.len() <= old(dst)@.len(),
    ensures
        final(dst)@ == splice(old(dst)@, off as int, src@),
{
    let mut i: usize = 0;
    while i < src.len()
        invariant
            i <= src@.len(),
            off + src@.len() <= dst@.len(),
            dst@.len() == old(dst)@.len(),
            forall|j: int|
                0 <= j < dst@.len() ==> dst@[j] == (if off <= j < off + i {
                    src@[j - off]
                } else {
                    old(dst)@[j]
                }),
        decreases src@.len() - i,
    {
        let _n: usize = dst.len();
        dst.set(off + i, src[i]);
        i += 1;
    }
    proof {
        assert(dst@ =~= splice(old(dst)@, off as int, src@));
    }
}

/// Copies `src[start .. end]` into a fresh vector.
pub fn copy_range(src: &Vec<u8>, start: usize, end: usize) -> (r: Vec<u8>)
    requires
        start <= end <= src@.len(),
    ensures
        r@ == src@.subrange(start as int, end as int),
{
    let mut r: Vec<u8> = Vec::new();
    let mut i: usize = start;
    while i < end
        invariant
            start <= i <= end <= src@.len(),
            r@ == src@.subrange(start as int, i as int),
        decreases end - i,
    {
        r.push(src[i]);
        i += 1;
        proof {
            assert(r@ =~= src@.subrange(start as int, i as int));
        }
    }
    r
}

/// Whether the two byte vectors hold the same bytes.
pub fn bytes_eq(a: &Vec<u8>, b: &Vec<u8>) -> (r: bool)
    ensures
        r == (a@ == b@),
{
    if a.len() != b.len() {
        proof {
            assert(a@ != b@);
        }
        return false;
    }
    let mut i: usize = 0;
    while i < a.len()
        invariant
            i <= a@.len(),
            a@.len() == b@.len(),
            forall|j: int| 0 <= j < i ==> a@[j] == b@[j],
        decreases a@.len() - i,
    {
        if a[i] != b[i] {
            proof {
                assert(a@[i as int] != b@[i as int]);
            }
            return false;
        }
        i += 1;
    }
    proof {
        assert(a@ =~= b@);
    }
    true
}

} // verus!
