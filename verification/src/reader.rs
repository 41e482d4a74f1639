//! Byte-level reader for the binary message encoding: variable-length
//! integers, booleans and length-prefixed UTF-8 strings, read from a byte
//! slice at a moving cursor.

use vstd::prelude::*;
use vstd::arithmetic::div_mod::lemma_mod_mod;
use vstd::arithmetic::power2::{pow2, lemma_pow2_adds, lemma2_to64, lemma2_to64_rest, lemma_pow2_pos, lemma_pow2_strictly_increases};
use vstd::slice::slice_subrange;
use vstd::string::StringSliceAdditionalSpecFns;
use vstd::utf8::{valid_utf8, encode_utf8};
use crate::errors::{Error, Result};
use crate::varint::{is_vint, vint_value, lemma_vint_value_bound, lemma_vint_value_snoc, lemma_trunc_u128_u64, lemma_trunc_u64_u32, lemma_trunc_u64_u16};

verus! {

/// A cursor over a byte buffer: `start` is the next byte to read, `end` the
/// position one past the region this reader is meant to cover.
#[derive(Debug, Clone)]
pub struct BytesReader {
    pub start: usize,
    pub end: usize,
}

/// A read of one varint succeeded: between `from` and `to` the stream holds
/// exactly one whole varint of at most `maxb` bytes, and `v` is its value
/// reduced to `width` bits.
pub open spec fn varint_read_ok(
    bytes: Seq<u8>,
    from: int,
    to: int,
    maxb: int,
    v: nat,
    width: nat,
) -> bool {
    &&& from < to <= bytes.len()
    &&& to - from <= maxb
    &&& is_vint(bytes.subrange(from, to))
    &&& v == vint_value(bytes.subrange(from, to)) % pow2(width)
}

/// A read of one length-prefixed string succeeded: a length varint of at
/// most five bytes, then that many bytes of valid UTF-8 encoding `schars`.
pub open spec fn string_read_ok(bytes: Seq<u8>, from: int, to: int, schars: Seq<char>) -> bool {
    exists|k: int|
        {
            &&& from < k <= to <= bytes.len()
            &&& k - from <= 5
            &&& #[trigger] is_vint(bytes.subrange(from, k))
            &&& (to - k) as nat == vint_value(bytes.subrange(from, k)) % pow2(32)
            &&& valid_utf8(bytes.subrange(k, to))
            &&& encode_utf8(schars) == bytes.subrange(k, to)
        }
}

/// A read of one length-prefixed string failed: either its length varint
/// failed, or the buffer is shorter than the announced length, or those
/// bytes are not valid UTF-8. In the latter two cases the cursor stands
/// right after the length varint.
pub open spec fn string_read_err(bytes: Seq<u8>, from: int, to: int, e: Error) -> bool {
    ||| varint_read_err(bytes, from, to, 5, e)
    ||| (exists|n: nat|
        {
            &&& #[trigger] varint_read_ok(bytes, from, to, 5, n, 32)
            &&& {
                ||| (e is UnexpectedEndOfBuffer && to + n > bytes.len())
                ||| (e is Utf8 && to + n <= bytes.len() && !valid_utf8(
                    bytes.subrange(to, to + n),
                ))
            }
        })
}

/// A read of one varint failed: every byte scanned carried the continuation
/// bit, and either the widest allowed form was exhausted or the buffer ended.
pub open spec fn varint_read_err(bytes: Seq<u8>, from: int, to: int, maxb: int, e: Error) -> bool {
    &&& from <= to
    &&& (forall|j: int| from <= j < to ==> 0 <= j < bytes.len() && bytes[j] >= 128)
    &&& (e is UnexpectedEndOfBuffer || e is Varint)
    &&& (e is UnexpectedEndOfBuffer ==> to - from < maxb && to >= bytes.len())
    &&& (e is Varint ==> to - from == maxb && to <= bytes.len())
}

impl BytesReader {
    pub fn new(start: usize, len: usize) -> (r: BytesReader)
        ensures
            r.start == start,
            r.end == len,
    {
        BytesReader { start, end: len }
    }

    pub fn get_read_start(&self) -> (r: usize)
        ensures
            r == self.start,
    {
        self.start
    }

    pub fn get_read_end(&self) -> (r: usize)
        ensures
            r == self.end,
    {
        self.end
    }

    /// Moves the cursor forward by `size` bytes.
    pub fn step(&mut self, size: usize)
        requires
            old(self).start + size <= usize::MAX,
        ensures
            final(self).start == old(self).start + size,
            final(self).end == old(self).end,
    {
        self.start += size;
    }

    /// True once the cursor has reached or passed the end of the region.
    pub fn is_eof(&self) -> (r: bool)
        ensures
            r == (self.start >= self.end),
    {
        self.start >= self.end
    }

    /// True exactly when the cursor stands at the end of the region.
    pub fn is_complete(&self) -> (r: bool)
        ensures
            r == (self.start == self.end),
    {
        self.start == self.end
    }

    pub fn read_u8(&mut self, bytes: &[u8]) -> (r: Result<u8>)
        ensures
            final(self).end == old(self).end,
            match r {
                Ok(b) => {
                    &&& old(self).start < bytes@.len()
                    &&& b == bytes@[old(self).start as int]
                    &&& final(self).start == old(self).start + 1
                },
                Err(e) => {
                    &&& e is UnexpectedEndOfBuffer
                    &&& old(self).start >= bytes@.len()
                    &&& final(self).start == old(self).start
                },
            },
    {
        if self.start < bytes.len() {
            let b = bytes[self.start];
            self.start += 1;
            Ok(b)
        } else {
            Err(Error::UnexpectedEndOfBuffer)
        }
    }

    /// Reads one varint of at most `maxb` bytes; `tname` names the integer
    /// type for the error payload.
    fn read_varint(&mut self, bytes: &[u8], maxb: usize, tname: &'static str) -> (r: Result<u64>)
        requires
            1 <= maxb <= 10,
        ensures
            final(self).end == old(self).end,
            match r {
                Ok(v) => varint_read_ok(
                    bytes@,
                    old(self).start as int,
                    final(self).start as int,
                    maxb as int,
                    v as nat,
                    64,
                ),
                Err(e) => varint_read_err(
                    bytes@,
                    old(self).start as int,
                    final(self).start as int,
                    maxb as int,
                    e,
                ),
            },
    {
        if self.start >= bytes.len() {
            return Err(Error::UnexpectedEndOfBuffer);
        }
        let ghost start0 = self.start as int;
        let mut idx: usize = 0;
        let mut acc: u64 = 0;
        let mut mult: u128 = 1;
        proof {
            assert(bytes@.subrange(start0, start0) =~= Seq::<u8>::empty());
            assert(pow2(0) == 1) by { lemma2_to64(); }
        }
        while idx < maxb
            invariant
                1 <= maxb <= 10,
                idx <= maxb,
                start0 == old(self).start as int,
                self.end == old(self).end,
                self.start as int == start0 + idx,
                0 <= start0,
                start0 + idx <= bytes@.len(),
                forall|j: int| start0 <= j < start0 + idx ==> bytes@[j] >= 128,
                mult == pow2((7 * idx) as nat),
                idx < 10 ==> acc as nat == vint_value(bytes@.subrange(start0, start0 + idx)),
                idx < 10 ==> (acc as nat) < pow2((7 * idx) as nat),
            decreases maxb - idx,
        {
            let b = match self.read_u8(bytes) {
                Ok(b) => b,
                Err(_) => {
                    return Err(Error::UnexpectedEndOfBuffer);
                },
            };
            let d = b & 0x7f;
            proof {
                assert(b & 0x7f == b % 128) by (bit_vector);
                assert(bytes@.subrange(start0, start0 + idx + 1) =~= bytes@.subrange(
                    start0,
                    start0 + idx,
                ).push(b));
                lemma_vint_value_snoc(bytes@.subrange(start0, start0 + idx), b);
                lemma_vint_value_bound(bytes@.subrange(start0, start0 + idx + 1));
                lemma_pow2_adds((7 * idx) as nat, 7);
                assert(pow2(7) == 128) by { lemma2_to64(); }
                // the new accumulator value stays under pow2(7 * (idx + 1))
                assert(acc as nat + (d as nat) * pow2((7 * idx) as nat) < pow2(
                    (7 * idx) as nat,
                ) * 128) by (nonlinear_arith)
                    requires
                        (acc as nat) < pow2((7 * idx) as nat),
                        (d as nat) < 128,
                ;
                if 7 * idx + 7 < 70 {
                    lemma_pow2_strictly_increases((7 * idx + 7) as nat, 70);
                }
                assert(pow2(70) == 0x8000000000000000 * 128) by {
                    lemma_pow2_adds(63, 7);
                    lemma2_to64();
                    lemma2_to64_rest();
                }
            }
            let sum: u128 = acc as u128 + (d as u128) * mult;
            let v = #[verifier::truncate] (sum as u64);
            proof {
                let s = bytes@.subrange(start0, start0 + idx);
                assert(s.len() == idx);
                assert(d as nat == (b as nat) % 128);
                assert(sum as nat == acc as nat + (d as nat) * (mult as nat));
                assert((d as nat) * (mult as nat) == pow2((7 * idx) as nat) * ((b as nat)
                    % 128)) by (nonlinear_arith)
                    requires
                        d as nat == (b as nat) % 128,
                        mult as nat == pow2((7 * idx) as nat),
                ;
                assert(sum as nat == vint_value(bytes@.subrange(start0, start0 + idx + 1)));
                assert(pow2(64) == 0x10000000000000000) by { lemma2_to64_rest(); }
                lemma_trunc_u128_u64(sum);
                assert(v as nat == sum as nat % pow2(64));
            }
            if b & 0x80 == 0 {
                proof {
                    assert(b < 128) by (bit_vector)
                        requires
                            b & 0x80 == 0,
                    ;
                    let s = bytes@.subrange(start0, start0 + idx + 1);
                    assert(forall|i: int| 0 <= i < s.len() - 1 ==> s[i] >= 128);
                    assert(s[s.len() - 1] < 128);
                }
                return Ok(v);
            }
            proof {
                assert(b >= 128) by (bit_vector)
                    requires
                        b & 0x80 != 0,
                ;
            }
            acc = v;
            mult = mult * 128;
            idx = idx + 1;
            proof {
                assert(7 * idx == 7 * (idx - 1) + 7);
                assert(bytes@.subrange(start0, start0 + idx).len() == idx);
                if idx < 10 {
                    lemma_pow2_strictly_increases((7 * idx) as nat, 64);
                    assert(vint_value(bytes@.subrange(start0, start0 + idx)) < pow2(
                        (7 * idx) as nat,
                    ));
                    assert(sum < pow2(64));
                    assert(acc as nat == sum as nat);
                }
            }
        }
        Err(Error::Varint(tname))
    }

    pub fn read_u16(&mut self, bytes: &[u8]) -> (r: Result<u16>)
        ensures
            final(self).end == old(self).end,
            match r {
                Ok(v) => varint_read_ok(
                    bytes@,
                    old(self).start as int,
                    final(self).start as int,
                    3,
                    v as nat,
                    16,
                ),
                Err(e) => varint_read_err(
                    bytes@,
                    old(self).start as int,
                    final(self).start as int,
                    3,
                    e,
                ),
            },
    {
        let v = self.read_varint(bytes, 3, "u16")?;
        proof {
            lemma_pow2_adds(16, 48);
            lemma_pow2_pos(16);
            lemma_pow2_pos(48);
            lemma_mod_mod(
                vint_value(bytes@.subrange(old(self).start as int, self.start as int)) as int,
                pow2(16) as int,
                pow2(48) as int,
            );
            assert(pow2(16) == 0x10000) by { lemma2_to64(); }
            assert(pow2(64) == 0x10000000000000000) by { lemma2_to64_rest(); }
            lemma_trunc_u64_u16(v);
        }
        Ok(#[verifier::truncate] (v as u16))
    }

    pub fn read_i16(&mut self, bytes: &[u8]) -> (r: Result<i16>)
        ensures
            final(self).end == old(self).end,
            match r {
                Ok(v) => varint_read_ok(
                    bytes@,
                    old(self).start as int,
                    final(self).start as int,
                    3,
                    (v as u16) as nat,
                    16,
                ),
                Err(e) => varint_read_err(
                    bytes@,
                    old(self).start as int,
                    final(self).start as int,
                    3,
                    e,
                ),
            },
    {
        let v = self.read_u16(bytes)?;
        proof {
            assert((v as i16) as u16 == v) by (bit_vector);
        }
        Ok(#[verifier::truncate] (v as i16))
    }

    pub fn read_u32(&mut self, bytes: &[u8]) -> (r: Result<u32>)
        ensures
            final(self).end == old(self).end,
            match r {
                Ok(v) => varint_read_ok(
                    bytes@,
                    old(self).start as int,
                    final(self).start as int,
                    5,
                    v as nat,
                    32,
                ),
                Err(e) => varint_read_err(
                    bytes@,
                    old(self).start as int,
                    final(self).start as int,
                    5,
                    e,
                ),
            },
    {
        let v = self.read_varint(bytes, 5, "u32")?;
        proof {
            lemma_pow2_adds(32, 32);
            lemma_pow2_pos(32);
            lemma_mod_mod(
                vint_value(bytes@.subrange(old(self).start as int, self.start as int)) as int,
                pow2(32) as int,
                pow2(32) as int,
            );
            assert(pow2(32) == 0x100000000) by { lemma2_to64(); }
            assert(pow2(64) == 0x10000000000000000) by { lemma2_to64_rest(); }
            lemma_trunc_u64_u32(v);
        }
        Ok(#[verifier::truncate] (v as u32))
    }

    pub fn read_i32(&mut self, bytes: &[u8]) -> (r: Result<i32>)
        ensures
            final(self).end == old(self).end,
            match r {
                Ok(v) => varint_read_ok(
                    bytes@,
                    old(self).start as int,
                    final(self).start as int,
                    5,
                    (v as u32) as nat,
                    32,
                ),
                Err(e) => varint_read_err(
                    bytes@,
                    old(self).start as int,
                    final(self).start as int,
                    5,
                    e,
                ),
            },
    {
        let v = self.read_u32(bytes)?;
        proof {
            assert((v as i32) as u32 == v) by (bit_vector);
        }
        Ok(#[verifier::truncate] (v as i32))
    }

    pub fn read_u64(&mut self, bytes: &[u8]) -> (r: Result<u64>)
        ensures
            final(self).end == old(self).end,
            match r {
                Ok(v) => varint_read_ok(
                    bytes@,
                    old(self).start as int,
                    final(self).start as int,
                    10,
                    v as nat,
                    64,
                ),
                Err(e) => varint_read_err(
                    bytes@,
                    old(self).start as int,
                    final(self).start as int,
                    10,
                    e,
                ),
            },
    {
        self.read_varint(bytes, 10, "u64")
    }

    pub fn read_i64(&mut self, bytes: &[u8]) -> (r: Result<i64>)
        ensures
            final(self).end == old(self).end,
            match r {
                Ok(v) => varint_read_ok(
                    bytes@,
                    old(self).start as int,
                    final(self).start as int,
                    10,
                    (v as u64) as nat,
                    64,
                ),
                Err(e) => varint_read_err(
                    bytes@,
                    old(self).start as int,
                    final(self).start as int,
                    10,
                    e,
                ),
            },
    {
        let v = self.read_u64(bytes)?;
        proof {
            assert((v as i64) as u64 == v) by (bit_vector);
        }
        Ok(#[verifier::truncate] (v as i64))
    }

    pub fn read_i8(&mut self, bytes: &[u8]) -> (r: Result<i8>)
        ensures
            final(self).end == old(self).end,
            match r {
                Ok(v) => {
                    &&& old(self).start < bytes@.len()
                    &&& v == bytes@[old(self).start as int] as i8
                    &&& final(self).start == old(self).start + 1
                },
                Err(e) => {
                    &&& e is UnexpectedEndOfBuffer
                    &&& old(self).start >= bytes@.len()
                    &&& final(self).start == old(self).start
                },
            },
    {
        let b = self.read_u8(bytes)?;
        Ok(#[verifier::truncate] (b as i8))
    }

    pub fn read_bool(&mut self, bytes: &[u8]) -> (r: Result<bool>)
        ensures
            final(self).end == old(self).end,
            match r {
                Ok(v) => {
                    &&& old(self).start < bytes@.len()
                    &&& v == (bytes@[old(self).start as int] != 0)
                    &&& final(self).start == old(self).start + 1
                },
                Err(e) => {
                    &&& e is UnexpectedEndOfBuffer
                    &&& old(self).start >= bytes@.len()
                    &&& final(self).start == old(self).start
                },
            },
    {
        let b = self.read_u8(bytes)?;
        Ok(b != 0)
    }

    /// Reads a length prefix: a varint reduced to 32 bits, as the wire
    /// format stores lengths.
    pub fn get_len(&mut self, bytes: &[u8]) -> (r: Result<usize>)
        ensures
            final(self).end == old(self).end,
            match r {
                Ok(v) => varint_read_ok(
                    bytes@,
                    old(self).start as int,
                    final(self).start as int,
                    5,
                    v as nat,
                    32,
                ),
                Err(e) => varint_read_err(
                    bytes@,
                    old(self).start as int,
                    final(self).start as int,
                    5,
                    e,
                ),
            },
    {
        let v = self.read_u32(bytes)?;
        Ok(v as usize)
    }

    /// Reads the tag in front of a field: `(field_number << 3) | wire_type`.
    pub fn next_tag(&mut self, bytes: &[u8]) -> (r: Result<u64>)
        ensures
            final(self).end == old(self).end,
            match r {
                Ok(v) => varint_read_ok(
                    bytes@,
                    old(self).start as int,
                    final(self).start as int,
                    10,
                    v as nat,
                    64,
                ),
                Err(e) => varint_read_err(
                    bytes@,
                    old(self).start as int,
                    final(self).start as int,
                    10,
                    e,
                ),
            },
    {
        self.read_u64(bytes)
    }

    /// Reads a length-prefixed UTF-8 string: a 32-bit length varint, then
    /// that many bytes.
    pub fn read_string(&mut self, bytes: &[u8]) -> (r: Result<String>)
        ensures
            final(self).end == old(self).end,
            match r {
                Ok(s) => string_read_ok(
                    bytes@,
                    old(self).start as int,
                    final(self).start as int,
                    s@,
                ),
                Err(e) => string_read_err(
                    bytes@,
                    old(self).start as int,
                    final(self).start as int,
                    e,
                ),
            },
    {
        let ghost from = self.start as int;
        let len = self.get_len(bytes)?;
        let ghost k = self.start as int;
        let ghost n = len as nat;
        if len > bytes.len() || self.start > bytes.len() - len {
            proof {
                assert(varint_read_ok(bytes@, from, k, 5, n, 32));
                assert(k + n > bytes@.len());
            }
            return Err(Error::UnexpectedEndOfBuffer);
        }
        let sl = slice_subrange(bytes, self.start, self.start + len);
        match bytes_to_str(sl) {
            Some(st) => {
                let s = st.to_owned();
                self.step(len);
                proof {
                    assert(is_vint(bytes@.subrange(from, k)));
                    assert(encode_utf8(s@) == bytes@.subrange(k, k + len));
                    assert(string_read_ok(bytes@, from, self.start as int, s@));
                }
                Ok(s)
            },
            None => {
                proof {
                    assert(varint_read_ok(bytes@, from, k, 5, n, 32));
                }
                Err(Error::Utf8)
            },
        }
    }

    /// A field whose wire type is not understood cannot be skipped safely:
    /// always an error naming that wire type.
    pub fn read_unknow(&mut self, _bytes: &[u8], tag: u64) -> (r: Result<()>)
        ensures
            *final(self) == *old(self),
            r matches Err(e) && e matches Error::UnknownWireType(w) && w == (tag % 8) as u8,
    {
        let w = #[verifier::truncate] ((tag & 0x7) as u8);
        proof {
            assert((tag & 0x7) as u8 == (tag % 8) as u8) by (bit_vector);
        }
        Err(Error::UnknownWireType(w))
    }
}

/// Relies on core::str::from_utf8: it returns `Ok` exactly on valid UTF-8,
/// and the returned slice is a view of those same bytes.
#[verifier::external_body]
fn bytes_to_str(v: &[u8]) -> (r: Option<&str>)
    ensures
        match r {
            Some(s) => s.spec_bytes() == v@ && valid_utf8(v@),
            None => !valid_utf8(v@),
        },
{
    core::str::from_utf8(v).ok()
}

} // verus!
