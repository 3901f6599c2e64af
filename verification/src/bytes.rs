//! Little-endian words inside a byte buffer.
//!
//! Every multi-byte field of a PE image — header members, relocation entries,
//! import thunks, TLS callback slots — is a little-endian word at some offset
//! of a byte buffer. The spec functions here say what such a word is worth,
//! and the executable functions read and write them against those specs.

use vstd::arithmetic::div_mod::lemma_mod_breakdown;
use vstd::arithmetic::div_mod::lemma_small_mod;
use vstd::prelude::*;

verus! {

/// The little-endian 16-bit word starting at `off`.
pub open spec fn le16(s: Seq<u8>, off: int) -> int {
    s[off] + 0x100 * s[off + 1]
}

/// The little-endian 32-bit word starting at `off`.
pub open spec fn le32(s: Seq<u8>, off: int) -> int {
    s[off] + 0x100 * s[off + 1] + 0x10000 * s[off + 2] + 0x1000000 * s[off + 3]
}

/// The little-endian 64-bit word starting at `off`.
pub open spec fn le64(s: Seq<u8>, off: int) -> int {
    le32(s, off) + 0x100000000 * le32(s, off + 4)
}

/// `s` with the eight bytes at `off` replaced by `val`, little-endian.
pub open spec fn store_le64(s: Seq<u8>, off: int, val: u64) -> Seq<u8> {
    s.update(off, (val as int % 0x100) as u8)
        .update(off + 1, (val as int / 0x100 % 0x100) as u8)
        .update(off + 2, (val as int / 0x10000 % 0x100) as u8)
        .update(off + 3, (val as int / 0x1000000 % 0x100) as u8)
        .update(off + 4, (val as int / 0x100000000 % 0x100) as u8)
        .update(off + 5, (val as int / 0x10000000000 % 0x100) as u8)
        .update(off + 6, (val as int / 0x1000000000000 % 0x100) as u8)
        .update(off + 7, (val as int / 0x100000000000000 % 0x100) as u8)
}

pub fn read_u16(v: &Vec<u8>, off: usize) -> (r: u16)
    requires
        off + 2 <= v.len(),
    ensures
        r == le16(v@, off as int),
{
    let b0 = v[off] as u16;
    let b1 = v[off + 1] as u16;
    b0 + 0x100 * b1
}

pub fn read_u32(v: &Vec<u8>, off: usize) -> (r: u32)
    requires
        off + 4 <= v.len(),
    ensures
        r == le32(v@, off as int),
{
    let b0 = v[off] as u32;
    let b1 = v[off + 1] as u32;
    let b2 = v[off + 2] as u32;
    let b3 = v[off + 3] as u32;
    b0 + 0x100 * b1 + 0x10000 * b2 + 0x1000000 * b3
}

pub fn read_u64(v: &Vec<u8>, off: usize) -> (r: u64)
    requires
        off + 8 <= v.len(),
    ensures
        r == le64(v@, off as int),
{
    let lo = read_u32(v, off) as u64;
    let hi = read_u32(v, off + 4) as u64;
    lo + 0x100000000 * hi
}

pub fn write_u64(v: &mut Vec<u8>, off: usize, val: u64)
    requires
        off + 8 <= old(v).len(),
    ensures
        final(v)@ == store_le64(old(v)@, off as int, val),
        final(v)@.len() == old(v)@.len(),
{
    v.set(off, (val % 0x100) as u8);
    v.set(off + 1, (val / 0x100 % 0x100) as u8);
    v.set(off + 2, (val / 0x10000 % 0x100) as u8);
    v.set(off + 3, (val / 0x1000000 % 0x100) as u8);
    v.set(off + 4, (val / 0x100000000 % 0x100) as u8);
    v.set(off + 5, (val / 0x10000000000 % 0x100) as u8);
    v.set(off + 6, (val / 0x1000000000000 % 0x100) as u8);
    v.set(off + 7, (val / 0x100000000000000 % 0x100) as u8);
}

/// Reading back a stored 64-bit word yields the stored value.
pub proof fn lemma_store_le64_read(s: Seq<u8>, off: int, val: u64)
    requires
        0 <= off,
        off + 8 <= s.len(),
    ensures
        le64(store_le64(s, off, val), off) == val,
{
    let v = val as int;
    lemma_mod_breakdown(v, 0x100, 0x100);
    lemma_mod_breakdown(v, 0x10000, 0x100);
    lemma_mod_breakdown(v, 0x1000000, 0x100);
    lemma_mod_breakdown(v, 0x100000000, 0x100);
    lemma_mod_breakdown(v, 0x10000000000, 0x100);
    lemma_mod_breakdown(v, 0x1000000000000, 0x100);
    lemma_mod_breakdown(v, 0x100000000000000, 0x100);
    lemma_small_mod(val as nat, 0x10000000000000000);
}

/// Storing a 64-bit word changes nothing outside its eight bytes.
pub proof fn lemma_store_le64_frame(s: Seq<u8>, off: int, val: u64)
    requires
        0 <= off,
        off + 8 <= s.len(),
    ensures
        store_le64(s, off, val).len() == s.len(),
        forall|k: int|
            0 <= k < s.len() && !(off <= k < off + 8) ==> store_le64(s, off, val)[k] == s[k],
{
}

/// A 64-bit word read from outside a store's eight bytes is unchanged.
pub proof fn lemma_le64_over_disjoint_store(s: Seq<u8>, off: int, val: u64, off2: int)
    requires
        0 <= off,
        off + 8 <= s.len(),
        0 <= off2,
        off2 + 8 <= s.len(),
        off2 + 8 <= off || off + 8 <= off2,
    ensures
        le64(store_le64(s, off, val), off2) == le64(s, off2),
{
}

} // verus!
