//! Fixed-width integers stored in byte sequences.
use vstd::prelude::*;

verus! {

/// A big-endian 16-bit value at `at`.
pub open spec fn be16(s: Seq<u8>, at: int) -> nat {
    (s[at] as nat) * 0x100 + (s[at + 1] as nat)
}

/// A big-endian 32-bit value at `at`.
pub open spec fn be32(s: Seq<u8>, at: int) -> nat {
    be16(s, at) * 0x10000 + be16(s, at + 2)
}

/// A big-endian 64-bit value at `at`.
pub open spec fn be64(s: Seq<u8>, at: int) -> nat {
    be32(s, at) * 0x1_0000_0000 + be32(s, at + 4)
}

pub(crate) fn read_be16(p: &[u8], at: usize) -> (r: u16)
    requires
        at + 2 <= p.len(),
    ensures
        r == be16(p@, at as int),
{
    (p[at] as u16) * 0x100 + (p[at + 1] as u16)
}

pub(crate) fn read_be32(p: &[u8], at: usize) -> (r: u32)
    requires
        at + 4 <= p.len(),
    ensures
        r == be32(p@, at as int),
{
    (read_be16(p, at) as u32) * 0x10000 + (read_be16(p, at + 2) as u32)
}

pub(crate) fn read_be64(p: &[u8], at: usize) -> (r: u64)
    requires
        at + 8 <= p.len(),
    ensures
        r == be64(p@, at as int),
{
    (read_be32(p, at) as u64) * 0x1_0000_0000 + (read_be32(p, at + 4) as u64)
}

/// A little-endian 32-bit value at `at`.
pub open spec fn le32(s: Seq<u8>, at: int) -> nat {
    (s[at] as nat) + (s[at + 1] as nat) * 0x100 + (s[at + 2] as nat) * 0x10000 + (s[at + 3] as nat)
        * 0x100_0000
}

pub(crate) fn read_le32(p: &[u8], at: usize) -> (r: u32)
    requires
        at + 4 <= p.len(),
    ensures
        r == le32(p@, at as int),
{
    (p[at] as u32) + (p[at + 1] as u32) * 0x100 + (p[at + 2] as u32) * 0x10000 + (p[at + 3] as u32)
        * 0x100_0000
}

/// The four little-endian bytes of `v`.
pub open spec fn le32_bytes(v: nat) -> Seq<u8> {
    seq![(v % 0x100) as u8, ((v / 0x100) % 0x100) as u8, ((v / 0x10000) % 0x100) as u8, ((v / 0x100_0000) % 0x100) as u8]
}

pub(crate) fn le32_to_bytes(v: u32) -> (r: [u8; 4])
    ensures
        r@ == le32_bytes(v as nat),
        le32(r@, 0) == v,
{
    let r = [(v % 0x100) as u8, ((v / 0x100) % 0x100) as u8, ((v / 0x10000) % 0x100) as u8, (v / 0x100_0000) as u8];
    assert(r@ =~= le32_bytes(v as nat));
    r
}

} // verus!
