//! Computes the encoded size of data before it is written, so that a buffer
//! of exactly the right capacity can be reserved.

use vstd::prelude::*;
use vstd::string::StringSliceAdditionalSpecFns;
use crate::varint::{vint_size, vint_enc, lemma_vint_enc};

verus! {

/// The size table of the base-128 encoding: one byte per seven bits.
pub proof fn lemma_vint_size_table(v: u64)
    ensures
        v < 0x80 ==> vint_size(v as nat) == 1,
        0x80 <= v < 0x4000 ==> vint_size(v as nat) == 2,
        0x4000 <= v < 0x200000 ==> vint_size(v as nat) == 3,
        0x200000 <= v < 0x10000000 ==> vint_size(v as nat) == 4,
        0x10000000 <= v < 0x800000000 ==> vint_size(v as nat) == 5,
        0x800000000 <= v < 0x40000000000 ==> vint_size(v as nat) == 6,
        0x40000000000 <= v < 0x2000000000000 ==> vint_size(v as nat) == 7,
        0x2000000000000 <= v < 0x100000000000000 ==> vint_size(v as nat) == 8,
        0x100000000000000 <= v < 0x8000000000000000 ==> vint_size(v as nat) == 9,
        0x8000000000000000 <= v ==> vint_size(v as nat) == 10,
{
    reveal_with_fuel(vint_size, 11);
}

/// Computes the binary size of the varint encoding of `v`.
pub fn sizeof_varint(v: u64) -> (r: usize)
    ensures
        r == vint_size(v as nat),
        r == vint_enc(v as nat).len(),
        1 <= r <= 10,
{
    proof {
        lemma_vint_size_table(v);
        lemma_vint_enc(v as nat);
    }
    if v < 0x80 {
        1
    } else if v < 0x4000 {
        2
    } else if v < 0x200000 {
        3
    } else if v < 0x10000000 {
        4
    } else if v < 0x800000000 {
        5
    } else if v < 0x40000000000 {
        6
    } else if v < 0x2000000000000 {
        7
    } else if v < 0x100000000000000 {
        8
    } else if v < 0x8000000000000000 {
        9
    } else {
        10
    }
}

/// Size of a length prefix (the prefix itself, not what it counts).
pub fn sizeof_len(len: usize) -> (r: usize)
    ensures
        r == vint_size(len as nat),
        1 <= r <= 10,
{
    sizeof_varint(len as u64)
}

pub fn sizeof_tag(tag: u64) -> (r: usize)
    ensures
        r == vint_size(tag as nat),
        1 <= r <= 10,
{
    sizeof_varint(tag)
}

pub fn sizeof_u8(_v: u8) -> (r: usize)
    ensures
        r == 1,
{
    1
}

pub fn sizeof_i8(_v: i8) -> (r: usize)
    ensures
        r == 1,
{
    1
}

pub fn sizeof_u16(v: u16) -> (r: usize)
    ensures
        r == vint_size(v as nat),
        1 <= r <= 3,
{
    let r = sizeof_varint(v as u64);
    proof {
        lemma_vint_size_table(v as u64);
    }
    r
}

pub fn sizeof_i16(v: i16) -> (r: usize)
    ensures
        r == vint_size(((v as u16) as u64) as nat),
        1 <= r <= 3,
{
    let w = #[verifier::truncate] (v as u16);
    proof {
        assert((v as u16) as u64 == w as u64) by (bit_vector)
            requires
                w == v as u16,
        ;
    }
    sizeof_u16(w)
}

pub fn sizeof_u32(v: u32) -> (r: usize)
    ensures
        r == vint_size(v as nat),
        1 <= r <= 5,
{
    let r = sizeof_varint(v as u64);
    proof {
        lemma_vint_size_table(v as u64);
    }
    r
}

pub fn sizeof_i32(v: i32) -> (r: usize)
    ensures
        r == vint_size(((v as u32) as u64) as nat),
        1 <= r <= 5,
{
    let w = #[verifier::truncate] (v as u32);
    proof {
        assert((v as u32) as u64 == w as u64) by (bit_vector)
            requires
                w == v as u32,
        ;
    }
    sizeof_u32(w)
}

pub fn sizeof_u64(v: u64) -> (r: usize)
    ensures
        r == vint_size(v as nat),
        1 <= r <= 10,
{
    sizeof_varint(v)
}

pub fn sizeof_i64(v: i64) -> (r: usize)
    ensures
        r == vint_size(((v as u64)) as nat),
        1 <= r <= 10,
{
    sizeof_varint(#[verifier::truncate] (v as u64))
}

pub fn sizeof_bool(_v: bool) -> (r: usize)
    ensures
        r == 1,
{
    1
}

/// Size of a length-prefixed string: the prefix plus the UTF-8 bytes.
pub fn sizeof_string(v: &str) -> (r: usize)
    requires
        v.spec_bytes().len() + 10 <= usize::MAX,
    ensures
        r == v.spec_bytes().len() + vint_size(v.spec_bytes().len()),
{
    let sl = v.as_bytes();
    let len = sl.len();
    len + sizeof_len(len)
}

} // verus!
