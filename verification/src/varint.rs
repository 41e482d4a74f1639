//! Mathematical model of the variable-length integer encoding used by the
//! wire format: seven payload bits per byte, little-endian, the high bit of
//! every byte but the last marking continuation.

use vstd::prelude::*;
use vstd::arithmetic::div_mod::{lemma_fundamental_div_mod, lemma_div_is_ordered};
use vstd::arithmetic::power2::{pow2, lemma_pow2_adds, lemma2_to64};

verus! {

/// The encoding of `v`: its base-128 digits, least significant first, with
/// the continuation bit set on every byte but the last.
pub open spec fn vint_enc(v: nat) -> Seq<u8>
    decreases v,
{
    if v < 128 {
        seq![v as u8]
    } else {
        seq![(128 + v % 128) as u8] + vint_enc(v / 128)
    }
}

/// The value carried by the payload bits of `s`, combined little-endian;
/// continuation bits are ignored.
pub open spec fn vint_value(s: Seq<u8>) -> nat
    decreases s.len(),
{
    if s.len() == 0 {
        0
    } else {
        (s[0] as nat) % 128 + 128 * vint_value(s.skip(1))
    }
}

/// `s` is exactly one whole varint: every byte but the last marks
/// continuation, and the last does not.
pub open spec fn is_vint(s: Seq<u8>) -> bool {
    &&& s.len() >= 1
    &&& (forall|i: int| 0 <= i < s.len() - 1 ==> s[i] >= 128)
    &&& s[s.len() - 1] < 128
}

/// The number of bytes the encoding of `v` takes.
pub open spec fn vint_size(v: nat) -> nat
    decreases v,
{
    if v < 128 {
        1
    } else {
        1 + vint_size(v / 128)
    }
}

/// The encoding of any value is a whole varint, its length is `vint_size`,
/// and decoding it gives the value back.
pub proof fn lemma_vint_enc(v: nat)
    ensures
        is_vint(vint_enc(v)),
        vint_enc(v).len() == vint_size(v),
        vint_value(vint_enc(v)) == v,
    decreases v,
{
    if v < 128 {
        assert(vint_enc(v) == seq![v as u8]);
        assert(seq![v as u8].skip(1) =~= Seq::<u8>::empty());
        assert(vint_value(Seq::<u8>::empty()) == 0);
        assert(vint_value(vint_enc(v)) == (v as u8) as nat % 128);
    } else {
        lemma_vint_enc(v / 128);
        let head = seq![(128 + v % 128) as u8];
        let tail = vint_enc(v / 128);
        let s = head + tail;
        assert(s.skip(1) =~= tail);
        assert(s[0] == (128 + v % 128) as u8);
        assert((s[0] as nat) % 128 == v % 128);
        lemma_fundamental_div_mod(v as int, 128);
        assert(vint_value(s) == v % 128 + 128 * (v / 128));
        assert(forall|i: int| 0 <= i < s.len() - 1 ==> s[i] >= 128) by {
            assert(forall|i: int| 1 <= i < s.len() - 1 ==> s[i] == tail[i - 1]);
        }
    }
}

/// The payload bits of `k` bytes can carry no more than `2^(7k) - 1`.
pub proof fn lemma_vint_value_bound(s: Seq<u8>)
    ensures
        vint_value(s) < pow2(7 * s.len()),
    decreases s.len(),
{
    if s.len() == 0 {
        assert(pow2(0) == 1) by { lemma2_to64(); }
    } else {
        lemma_vint_value_bound(s.skip(1));
        let t = vint_value(s.skip(1));
        assert(pow2(7) == 128) by { lemma2_to64(); }
        lemma_pow2_adds(7, 7 * (s.len() - 1) as nat);
        assert(7 * s.len() == 7 + 7 * (s.len() - 1));
        assert((s[0] as nat) % 128 < 128);
        assert(128 * t + 128 <= 128 * pow2(7 * (s.len() - 1) as nat)) by (nonlinear_arith)
            requires
                t < pow2(7 * (s.len() - 1) as nat),
        ;
    }
}

/// Appending one byte to a varint prefix adds its payload at the next
/// seven-bit position.
pub proof fn lemma_vint_value_snoc(s: Seq<u8>, b: u8)
    ensures
        vint_value(s.push(b)) == vint_value(s) + pow2(7 * s.len()) * ((b as nat) % 128),
    decreases s.len(),
{
    if s.len() == 0 {
        assert(s.push(b).len() == 1);
        assert(s.push(b)[0] == b);
        assert(s.push(b).skip(1) =~= Seq::<u8>::empty());
        assert(vint_value(Seq::<u8>::empty()) == 0);
        assert(s =~= Seq::<u8>::empty());
        assert(vint_value(s.push(b)) == (b as nat) % 128);
        assert(pow2(0) == 1) by { lemma2_to64(); }
    } else {
        lemma_vint_value_snoc(s.skip(1), b);
        assert(s.push(b).skip(1) =~= s.skip(1).push(b));
        assert(pow2(7) == 128) by { lemma2_to64(); }
        lemma_pow2_adds(7, 7 * (s.len() - 1) as nat);
        assert(7 * s.len() == 7 + 7 * (s.len() - 1));
        let p = pow2(7 * (s.len() - 1) as nat);
        let d = (b as nat) % 128;
        let s0 = (s[0] as nat) % 128;
        assert(s.push(b)[0] == s[0]);
        assert(vint_value(s.push(b)) == s0 + 128 * vint_value(s.skip(1).push(b)));
        assert(vint_value(s.skip(1).push(b)) == vint_value(s.skip(1)) + p * d);
        assert(128 * (vint_value(s.skip(1)) + p * d) == 128 * vint_value(s.skip(1)) + (128 * p)
            * d) by (nonlinear_arith);
        assert(pow2(7 * s.len()) == 128 * p);
        assert(vint_value(s) == s0 + 128 * vint_value(s.skip(1)));
    }
}

/// Within one byte stream, only one leading varint exists: the first byte
/// without the continuation bit ends it.
pub proof fn lemma_is_vint_unique(s: Seq<u8>, k1: int, k2: int)
    requires
        0 <= k1 <= s.len(),
        0 <= k2 <= s.len(),
        is_vint(s.subrange(0, k1)),
        is_vint(s.subrange(0, k2)),
    ensures
        k1 == k2,
{
    if k1 < k2 {
        assert(s.subrange(0, k1)[k1 - 1] == s[k1 - 1]);
        assert(s.subrange(0, k2)[k1 - 1] == s[k1 - 1]);
    }
    if k2 < k1 {
        assert(s.subrange(0, k1)[k2 - 1] == s[k2 - 1]);
        assert(s.subrange(0, k2)[k2 - 1] == s[k2 - 1]);
    }
}

/// A value below `2^(7k)` encodes in at most `k` bytes.
pub proof fn lemma_vint_size_bound(v: nat, k: nat)
    requires
        1 <= k,
        v < pow2(7 * k),
    ensures
        vint_size(v) <= k,
    decreases k,
{
    if v >= 128 {
        assert(pow2(7) == 128) by { lemma2_to64(); }
        if k == 1 {
            assert(false);
        } else {
            lemma_pow2_adds(7, 7 * (k - 1) as nat);
            assert(7 * k == 7 + 7 * (k - 1));
            assert(v / 128 < pow2(7 * (k - 1) as nat)) by (nonlinear_arith)
                requires
                    v < 128 * pow2(7 * (k - 1) as nat),
            ;
            lemma_vint_size_bound(v / 128, (k - 1) as nat);
        }
    }
}

/// A 16-bit value encodes in at most three bytes.
pub proof fn lemma_size_u16(v: nat)
    requires
        v < 0x10000,
    ensures
        vint_size(v) <= 3,
{
    assert(pow2(21) == 0x200000) by {
        lemma_pow2_adds(7, 14);
        lemma2_to64();
    }
    lemma_vint_size_bound(v, 3);
}

/// A 32-bit value encodes in at most five bytes.
pub proof fn lemma_size_u32(v: nat)
    requires
        v < 0x100000000,
    ensures
        vint_size(v) <= 5,
{
    assert(pow2(35) == 0x800000000) by {
        lemma_pow2_adds(32, 3);
        lemma2_to64();
    }
    lemma_vint_size_bound(v, 5);
}

/// Every 64-bit value encodes in at most ten bytes.
pub proof fn lemma_vint_size_u64(v: u64)
    ensures
        vint_size(v as nat) <= 10,
{
    assert((v as nat) < pow2(70)) by {
        lemma_pow2_adds(64, 6);
        lemma2_to64();
        assert(pow2(64) == 0x10000000000000000);
    }
    lemma_vint_size_bound(v as nat, 10);
}

/// Truncating a 128-bit value to 64 bits keeps its low 64 bits.
pub proof fn lemma_trunc_u128_u64(x: u128)
    ensures
        (x as u64) as u128 == x % 0x10000000000000000,
{
    assert((x as u64) as u128 == x % 0x10000000000000000) by (bit_vector);
}

/// Truncating a 64-bit value to 32 bits keeps its low 32 bits.
pub proof fn lemma_trunc_u64_u32(x: u64)
    ensures
        (x as u32) as u64 == x % 0x100000000,
{
    assert((x as u32) as u64 == x % 0x100000000) by (bit_vector);
}

/// Truncating a 64-bit value to 16 bits keeps its low 16 bits.
pub proof fn lemma_trunc_u64_u16(x: u64)
    ensures
        (x as u16) as u64 == x % 0x10000,
{
    assert((x as u16) as u64 == x % 0x10000) by (bit_vector);
}

} // verus!
