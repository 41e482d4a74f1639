//! Byte-level writer for the binary message encoding: the mirror of the
//! reader. It owns a growable buffer with a fixed capacity limit, set when
//! the writer is made; writing past that limit is an error, as a frame body
//! has a hard size bound on the wire.

use vstd::prelude::*;
use vstd::string::StringSliceAdditionalSpecFns;
use crate::errors::{Error, Result};
use crate::varint::{vint_enc, vint_size, lemma_vint_enc, lemma_size_u16, lemma_size_u32, lemma_vint_size_u64};

verus! {

/// A writer with a cursor over an owned buffer; `cap` is the most bytes it
/// will take, the bound a caller fixes when reserving space for one message.
#[derive(Debug)]
pub struct BytesWriter {
    cursor: usize,
    buf: Vec<u8>,
    cap: usize,
}

impl BytesWriter {
    /// The cursor counts exactly the bytes written, and never passes `cap`.
    pub closed spec fn wf(&self) -> bool {
        &&& self.cursor == self.buf@.len()
        &&& self.buf@.len() <= self.cap
    }

    pub closed spec fn spec_cap(&self) -> int {
        self.cap as int
    }

    pub closed spec fn bytes(&self) -> Seq<u8> {
        self.buf@
    }

    /// A well-formed writer never holds more than its capacity.
    pub proof fn lemma_wf_cap(&self)
        requires
            self.wf(),
        ensures
            self.bytes().len() <= self.spec_cap(),
    {
    }

    pub fn new(cap: usize) -> (r: BytesWriter)
        ensures
            r.wf(),
            r.spec_cap() == cap,
            r.bytes() == Seq::<u8>::empty(),
    {
        BytesWriter { cursor: 0, buf: Vec::new(), cap }
    }

    pub fn get_write_pos(&self) -> (r: usize)
        requires
            self.wf(),
        ensures
            r == self.bytes().len(),
    {
        self.cursor
    }

    /// Gives the written bytes away.
    pub fn into_vec(self) -> (r: Vec<u8>)
        ensures
            r@ == self.bytes(),
    {
        self.buf
    }

    pub fn write_u8(&mut self, val: u8) -> (r: Result<()>)
        requires
            old(self).wf(),
        ensures
            final(self).wf(),
            final(self).spec_cap() == old(self).spec_cap(),
            match r {
                Ok(_) => {
                    &&& old(self).bytes().len() + 1 <= old(self).spec_cap()
                    &&& final(self).bytes() == old(self).bytes().push(val)
                },
                Err(e) => {
                    &&& e matches Error::OutputBufferTooSmall(c, a, k) && c == old(
                        self,
                    ).bytes().len() && a == 1 && k == old(self).spec_cap()
                    &&& old(self).bytes().len() == old(self).spec_cap()
                    &&& final(self).bytes() == old(self).bytes()
                },
            },
    {
        if self.cursor >= self.cap {
            return Err(Error::OutputBufferTooSmall(self.cursor, 1, self.cap));
        }
        self.buf.push(val);
        self.cursor = self.cursor + 1;
        Ok(())
    }

    /// Writes `val` as a varint. `maxbytes` is the most continuation bytes
    /// the caller expects; handing a value whose encoding runs past
    /// `maxbytes + 1` bytes is the caller's fault, so it is a precondition.
    #[verifier::loop_isolation(false)]
    pub fn write_vint(&mut self, val: u64, maxbytes: i32) -> (r: Result<()>)
        requires
            old(self).wf(),
            0 <= maxbytes <= 16,
            vint_size(val as nat) <= maxbytes + 1,
        ensures
            final(self).wf(),
            final(self).spec_cap() == old(self).spec_cap(),
            r is Ok <==> old(self).bytes().len() + vint_size(val as nat) <= old(self).spec_cap(),
            match r {
                Ok(_) => final(self).bytes() == old(self).bytes() + vint_enc(val as nat),
                Err(e) => {
                    &&& e is OutputBufferTooSmall
                    &&& final(self).bytes().len() == final(self).spec_cap()
                    &&& final(self).bytes() == old(self).bytes() + vint_enc(val as nat).subrange(
                        0,
                        old(self).spec_cap() - old(self).bytes().len(),
                    )
                },
            },
    {
        let ghost val0 = val as nat;
        let ghost buf0 = self.buf@;
        let mut val = val;
        let mut maxbytes = maxbytes;
        let ghost maxbytes0 = maxbytes as int;
        proof {
            lemma_vint_enc(val as nat);
        }
        while val > 0x7f
            invariant
                self.wf(),
                self.cap == old(self).cap,
                buf0.len() <= self.buf@.len() <= buf0.len() + (maxbytes0 - maxbytes),
                maxbytes0 - 16 <= maxbytes <= maxbytes0,
                buf0 == self.buf@.subrange(0, buf0.len() as int),
                vint_enc(val0) == self.buf@.skip(buf0.len() as int) + vint_enc(val as nat),
                vint_size(val0) == (self.buf@.len() - buf0.len()) + vint_size(val as nat),
                maxbytes == maxbytes0 - (self.buf@.len() - buf0.len()),
                vint_size(val as nat) <= maxbytes + 1,
            decreases val,
        {
            let b: u8 = ((#[verifier::truncate] (val as u8)) & 0x7f) | 0x80;
            proof {
                assert(b == 128 + (val as u8) % 128 && (val as u8) % 128 == val % 128 && (val
                    >> 7) == val / 128 && val / 128 < val) by (bit_vector)
                    requires
                        val > 0x7f,
                        b == ((val as u8) & 0x7f) | 0x80,
                ;
                lemma_vint_enc((val / 128) as nat);
                assert(vint_enc(val as nat) == seq![b] + vint_enc((val / 128) as nat));
            }
            let ghost pre = self.buf@;
            match self.write_u8(b) {
                Ok(_) => {},
                Err(e) => {
                    proof {
                        let done = pre.skip(buf0.len() as int);
                        assert(vint_enc(val0) == done + vint_enc(val as nat));
                        assert(done == vint_enc(val0).subrange(0, done.len() as int)) by {
                            assert(done =~= vint_enc(val0).subrange(0, done.len() as int));
                        }
                        assert(pre =~= buf0 + vint_enc(val0).subrange(
                            0,
                            self.cap - buf0.len(),
                        ));
                    }
                    return Err(e);
                },
            }
            proof {
                assert(self.buf@.skip(buf0.len() as int) =~= pre.skip(buf0.len() as int).push(b));
                assert(pre.skip(buf0.len() as int).push(b) + vint_enc((val >> 7) as nat)
                    =~= pre.skip(buf0.len() as int) + (seq![b] + vint_enc((val >> 7) as nat)));
                assert(buf0 =~= self.buf@.subrange(0, buf0.len() as int));
            }
            val = val >> 7;
            maxbytes = maxbytes - 1;
        }
        proof {
            assert(vint_enc(val as nat) == seq![val as u8]);
        }
        let ghost pre = self.buf@;
        match self.write_u8(#[verifier::truncate] (val as u8)) {
            Ok(_) => {
                proof {
                    assert(self.buf@ =~= buf0 + self.buf@.skip(buf0.len() as int));
                    assert(self.buf@.skip(buf0.len() as int) =~= pre.skip(buf0.len() as int).push(
                        (val as u8),
                    ));
                    assert(pre.skip(buf0.len() as int).push((val as u8)) =~= pre.skip(
                        buf0.len() as int,
                    ) + seq![val as u8]);
                    assert(self.buf@ =~= buf0 + vint_enc(val0));
                }
                Ok(())
            },
            Err(e) => {
                proof {
                    let done = pre.skip(buf0.len() as int);
                    assert(done == vint_enc(val0).subrange(0, done.len() as int)) by {
                        assert(done =~= vint_enc(val0).subrange(0, done.len() as int));
                    }
                    assert(pre =~= buf0 + vint_enc(val0).subrange(0, self.cap - buf0.len()));
                }
                Err(e)
            },
        }
    }

    /// Writes the tag in front of a field: `(field_number << 3) | wire_type`.
    pub fn write_tag(&mut self, tag: u64) -> (r: Result<()>)
        requires
            old(self).wf(),
        ensures
            final(self).wf(),
            final(self).spec_cap() == old(self).spec_cap(),
            r is Ok <==> old(self).bytes().len() + vint_size(tag as nat) <= old(self).spec_cap(),
            match r {
                Ok(_) => final(self).bytes() == old(self).bytes() + vint_enc(tag as nat),
                Err(e) => {
                    &&& e is OutputBufferTooSmall
                    &&& final(self).bytes().len() == final(self).spec_cap()
                },
            },
    {
        proof {
            lemma_vint_size_u64(tag);
        }
        self.write_vint(tag, 9)
    }

    pub fn write_u64(&mut self, val: u64) -> (r: Result<()>)
        requires
            old(self).wf(),
        ensures
            final(self).wf(),
            final(self).spec_cap() == old(self).spec_cap(),
            r is Ok <==> old(self).bytes().len() + vint_size(val as nat) <= old(self).spec_cap(),
            match r {
                Ok(_) => final(self).bytes() == old(self).bytes() + vint_enc(val as nat),
                Err(e) => {
                    &&& e is OutputBufferTooSmall
                    &&& final(self).bytes().len() == final(self).spec_cap()
                },
            },
    {
        proof {
            lemma_vint_size_u64(val);
        }
        self.write_vint(val, 9)
    }

    pub fn write_i64(&mut self, val: i64) -> (r: Result<()>)
        requires
            old(self).wf(),
        ensures
            final(self).wf(),
            final(self).spec_cap() == old(self).spec_cap(),
            r is Ok <==> old(self).bytes().len() + vint_size((val as u64) as nat) <= old(self).spec_cap(),
            match r {
                Ok(_) => final(self).bytes() == old(self).bytes() + vint_enc((val as u64) as nat),
                Err(e) => {
                    &&& e is OutputBufferTooSmall
                    &&& final(self).bytes().len() == final(self).spec_cap()
                },
            },
    {
        self.write_u64(#[verifier::truncate] (val as u64))
    }

    pub fn write_u32(&mut self, val: u32) -> (r: Result<()>)
        requires
            old(self).wf(),
        ensures
            final(self).wf(),
            final(self).spec_cap() == old(self).spec_cap(),
            r is Ok <==> old(self).bytes().len() + vint_size(val as nat) <= old(self).spec_cap(),
            match r {
                Ok(_) => final(self).bytes() == old(self).bytes() + vint_enc(val as nat),
                Err(e) => {
                    &&& e is OutputBufferTooSmall
                    &&& final(self).bytes().len() == final(self).spec_cap()
                },
            },
    {
        proof {
            lemma_size_u32(val as nat);
        }
        self.write_vint(val as u64, 4)
    }

    pub fn write_i32(&mut self, val: i32) -> (r: Result<()>)
        requires
            old(self).wf(),
        ensures
            final(self).wf(),
            final(self).spec_cap() == old(self).spec_cap(),
            r is Ok <==> old(self).bytes().len() + vint_size((val as u32) as nat) <= old(self).spec_cap(),
            match r {
                Ok(_) => final(self).bytes() == old(self).bytes() + vint_enc((val as u32) as nat),
                Err(e) => {
                    &&& e is OutputBufferTooSmall
                    &&& final(self).bytes().len() == final(self).spec_cap()
                },
            },
    {
        self.write_u32(#[verifier::truncate] (val as u32))
    }

    pub fn write_u16(&mut self, val: u16) -> (r: Result<()>)
        requires
            old(self).wf(),
        ensures
            final(self).wf(),
            final(self).spec_cap() == old(self).spec_cap(),
            r is Ok <==> old(self).bytes().len() + vint_size(val as nat) <= old(self).spec_cap(),
            match r {
                Ok(_) => final(self).bytes() == old(self).bytes() + vint_enc(val as nat),
                Err(e) => {
                    &&& e is OutputBufferTooSmall
                    &&& final(self).bytes().len() == final(self).spec_cap()
                },
            },
    {
        proof {
            lemma_size_u16(val as nat);
        }
        self.write_vint(val as u64, 2)
    }

    pub fn write_i16(&mut self, val: i16) -> (r: Result<()>)
        requires
            old(self).wf(),
        ensures
            final(self).wf(),
            final(self).spec_cap() == old(self).spec_cap(),
            r is Ok <==> old(self).bytes().len() + vint_size((val as u16) as nat) <= old(self).spec_cap(),
            match r {
                Ok(_) => final(self).bytes() == old(self).bytes() + vint_enc((val as u16) as nat),
                Err(e) => {
                    &&& e is OutputBufferTooSmall
                    &&& final(self).bytes().len() == final(self).spec_cap()
                },
            },
    {
        self.write_u16(#[verifier::truncate] (val as u16))
    }

    pub fn write_i8(&mut self, val: i8) -> (r: Result<()>)
        requires
            old(self).wf(),
        ensures
            final(self).wf(),
            final(self).spec_cap() == old(self).spec_cap(),
            match r {
                Ok(_) => {
                    &&& old(self).bytes().len() + 1 <= old(self).spec_cap()
                    &&& final(self).bytes() == old(self).bytes().push(val as u8)
                },
                Err(e) => {
                    &&& e is OutputBufferTooSmall
                    &&& old(self).bytes().len() == old(self).spec_cap()
                    &&& final(self).bytes() == old(self).bytes()
                },
            },
    {
        self.write_u8(#[verifier::truncate] (val as u8))
    }

    pub fn write_bool(&mut self, val: bool) -> (r: Result<()>)
        requires
            old(self).wf(),
        ensures
            final(self).wf(),
            final(self).spec_cap() == old(self).spec_cap(),
            match r {
                Ok(_) => {
                    &&& old(self).bytes().len() + 1 <= old(self).spec_cap()
                    &&& final(self).bytes() == old(self).bytes().push(
                        if val {
                            1u8
                        } else {
                            0u8
                        },
                    )
                },
                Err(e) => {
                    &&& e is OutputBufferTooSmall
                    &&& old(self).bytes().len() == old(self).spec_cap()
                    &&& final(self).bytes() == old(self).bytes()
                },
            },
    {
        let b: u8 = if val {
            1
        } else {
            0
        };
        self.write_u8(b)
    }

    /// Writes a length prefix. Lengths at or above `u32::MAX` are refused,
    /// as the wire format stores lengths in 32 bits.
    pub fn write_len(&mut self, val: usize) -> (r: Result<()>)
        requires
            old(self).wf(),
        ensures
            final(self).wf(),
            final(self).spec_cap() == old(self).spec_cap(),
            match r {
                Ok(_) => {
                    &&& val < 0xffffffff
                    &&& old(self).bytes().len() + vint_size(val as nat) <= old(self).spec_cap()
                    &&& final(self).bytes() == old(self).bytes() + vint_enc(val as nat)
                },
                Err(e) => {
                    &&& (e is Message || e is OutputBufferTooSmall)
                    &&& (e is Message <==> val >= 0xffffffff)
                    &&& (e is Message ==> final(self).bytes() == old(self).bytes())
                    &&& (e is OutputBufferTooSmall ==> val < 0xffffffff && old(self).bytes().len()
                        + vint_size(val as nat) > old(self).spec_cap() && final(self).bytes().len() == final(self).spec_cap()
                        && final(self).bytes() == old(self).bytes() + vint_enc(
                        val as nat,
                    ).subrange(0, old(self).spec_cap() - old(self).bytes().len()))
                },
            },
    {
        if val >= 0xffffffff {
            return Err(Error::Message("len beyond max".to_owned()));
        }
        proof {
            lemma_size_u32(val as nat);
            assert((val as u32 as u64) as nat == val as nat);
        }
        self.write_vint(#[verifier::truncate] (val as u32) as u64, 4)
    }

    /// Writes a length prefix and then the raw bytes of `val`. Nothing of the
    /// body is written when it cannot fit whole.
    #[verifier::loop_isolation(false)]
    pub fn write_bytes(&mut self, val: &[u8]) -> (r: Result<()>)
        requires
            old(self).wf(),
        ensures
            final(self).wf(),
            final(self).spec_cap() == old(self).spec_cap(),
            match r {
                Ok(_) => {
                    &&& val@.len() < 0xffffffff
                    &&& final(self).bytes() == old(self).bytes() + vint_enc(val@.len()) + val@
                },
                Err(e) => {
                    &&& (e is Message || e is OutputBufferTooSmall)
                    &&& (e is Message <==> val@.len() >= 0xffffffff)
                    &&& (e is Message ==> final(self).bytes() == old(self).bytes())
                    &&& (e is OutputBufferTooSmall ==> old(self).bytes().len() + vint_size(
                        val@.len(),
                    ) + val@.len() > old(self).spec_cap())
                    // no rollback: the length prefix stays as far as it got
                    &&& (e is OutputBufferTooSmall && old(self).bytes().len() + vint_size(
                        val@.len(),
                    ) > old(self).spec_cap() ==> final(self).bytes() == old(self).bytes()
                        + vint_enc(val@.len()).subrange(
                        0,
                        old(self).spec_cap() - old(self).bytes().len(),
                    ))
                    &&& (e is OutputBufferTooSmall && old(self).bytes().len() + vint_size(
                        val@.len(),
                    ) <= old(self).spec_cap() ==> final(self).bytes() == old(self).bytes()
                        + vint_enc(val@.len()))
                },
            },
    {
        let len = val.len();
        let ghost pre = self.buf@;
        proof {
            lemma_vint_enc(len as nat);
        }
        self.write_len(len)?;
        if len > self.cap - self.cursor {
            return Err(Error::OutputBufferTooSmall(self.cursor, len, self.cap));
        }
        let mut i: usize = 0;
        while i < len
            invariant
                self.wf(),
                self.cap == old(self).cap,
                i <= len,
                len == val@.len(),
                self.buf@.len() + (len - i) <= self.cap,
                self.buf@ == pre + vint_enc(val@.len()) + val@.subrange(0, i as int),
            decreases len - i,
        {
            let b = val[i];
            let res = self.write_u8(b);
            proof {
                assert(res is Ok);
                assert((pre + vint_enc(val@.len()) + val@.subrange(0, i as int)).push(b) =~= pre
                    + vint_enc(val@.len()) + val@.subrange(0, i + 1));
            }
            i = i + 1;
        }
        proof {
            assert(val@.subrange(0, len as int) =~= val@);
        }
        Ok(())
    }

    /// Writes a length prefix and then the UTF-8 bytes of `val`. Nothing of
    /// the body is written when it cannot fit whole.
    #[verifier::loop_isolation(false)]
    pub fn write_string(&mut self, val: &str) -> (r: Result<()>)
        requires
            old(self).wf(),
        ensures
            final(self).wf(),
            final(self).spec_cap() == old(self).spec_cap(),
            match r {
                Ok(_) => {
                    &&& val.spec_bytes().len() < 0xffffffff
                    &&& final(self).bytes() == old(self).bytes() + vint_enc(
                        val.spec_bytes().len(),
                    ) + val.spec_bytes()
                },
                Err(e) => {
                    &&& (e is Message || e is OutputBufferTooSmall)
                    &&& (e is Message <==> val.spec_bytes().len() >= 0xffffffff)
                    &&& (e is Message ==> final(self).bytes() == old(self).bytes())
                    &&& (e is OutputBufferTooSmall ==> old(self).bytes().len() + vint_size(
                        val.spec_bytes().len(),
                    ) + val.spec_bytes().len() > old(self).spec_cap())
                    // no rollback: the length prefix stays as far as it got
                    &&& (e is OutputBufferTooSmall && old(self).bytes().len() + vint_size(
                        val.spec_bytes().len(),
                    ) > old(self).spec_cap() ==> final(self).bytes() == old(self).bytes()
                        + vint_enc(val.spec_bytes().len()).subrange(
                        0,
                        old(self).spec_cap() - old(self).bytes().len(),
                    ))
                    &&& (e is OutputBufferTooSmall && old(self).bytes().len() + vint_size(
                        val.spec_bytes().len(),
                    ) <= old(self).spec_cap() ==> final(self).bytes() == old(self).bytes()
                        + vint_enc(val.spec_bytes().len()))
                },
            },
    {
        let sl = val.as_bytes();
        let len = sl.len();
        let ghost pre = self.buf@;
        proof {
            lemma_vint_enc(len as nat);
        }
        self.write_len(len)?;
        if len > self.cap - self.cursor {
            return Err(Error::OutputBufferTooSmall(self.cursor, len, self.cap));
        }
        let mut i: usize = 0;
        while i < len
            invariant
                self.wf(),
                self.cap == old(self).cap,
                i <= len,
                sl@ == val.spec_bytes(),
                len == val.spec_bytes().len(),
                self.buf@.len() + (len - i) <= self.cap,
                self.buf@ == pre + vint_enc(val.spec_bytes().len()) + val.spec_bytes().subrange(
                    0,
                    i as int,
                ),
            decreases len - i,
        {
            let b = sl[i];
            let res = self.write_u8(b);
            proof {
                assert(res is Ok);
                assert((pre + vint_enc(val.spec_bytes().len()) + val.spec_bytes().subrange(
                    0,
                    i as int,
                )).push(b) =~= pre + vint_enc(val.spec_bytes().len())
                    + val.spec_bytes().subrange(0, i + 1));
            }
            i = i + 1;
        }
        proof {
            assert(val.spec_bytes().subrange(0, len as int) =~= val.spec_bytes());
        }
        Ok(())
    }
}

} // verus!

// --- the tagged field writers ---

verus! {

impl BytesWriter {

    pub fn write_u8_with_tag(&mut self, tag: u64, val: u8) -> (r: Result<()>)
        requires
            old(self).wf(),
        ensures
            final(self).wf(),
            final(self).spec_cap() == old(self).spec_cap(),
            r is Ok <==> old(self).bytes().len() + vint_size(tag as nat) + 1 <= old(
                self,
            ).spec_cap(),
            match r {
                Ok(_) => final(self).bytes() == old(self).bytes() + vint_enc(tag as nat)
                    + seq![val],
                Err(e) => e is OutputBufferTooSmall,
            },
    {
        proof {
            lemma_vint_enc(tag as nat);
        }
        self.write_tag(tag)?;
        self.write_u8(val)
    }


    pub fn write_i8_with_tag(&mut self, tag: u64, val: i8) -> (r: Result<()>)
        requires
            old(self).wf(),
        ensures
            final(self).wf(),
            final(self).spec_cap() == old(self).spec_cap(),
            r is Ok <==> old(self).bytes().len() + vint_size(tag as nat) + 1 <= old(
                self,
            ).spec_cap(),
            match r {
                Ok(_) => final(self).bytes() == old(self).bytes() + vint_enc(tag as nat)
                    + seq![val as u8],
                Err(e) => e is OutputBufferTooSmall,
            },
    {
        proof {
            lemma_vint_enc(tag as nat);
        }
        self.write_tag(tag)?;
        self.write_i8(val)
    }


    pub fn write_u16_with_tag(&mut self, tag: u64, val: u16) -> (r: Result<()>)
        requires
            old(self).wf(),
        ensures
            final(self).wf(),
            final(self).spec_cap() == old(self).spec_cap(),
            r is Ok <==> old(self).bytes().len() + vint_size(tag as nat) + vint_size(val as nat) <= old(
                self,
            ).spec_cap(),
            match r {
                Ok(_) => final(self).bytes() == old(self).bytes() + vint_enc(tag as nat)
                    + vint_enc(val as nat),
                Err(e) => e is OutputBufferTooSmall,
            },
    {
        proof {
            lemma_vint_enc(tag as nat);
        }
        self.write_tag(tag)?;
        self.write_u16(val)
    }


    pub fn write_i16_with_tag(&mut self, tag: u64, val: i16) -> (r: Result<()>)
        requires
            old(self).wf(),
        ensures
            final(self).wf(),
            final(self).spec_cap() == old(self).spec_cap(),
            r is Ok <==> old(self).bytes().len() + vint_size(tag as nat) + vint_size(((val as u16)) as nat) <= old(
                self,
            ).spec_cap(),
            match r {
                Ok(_) => final(self).bytes() == old(self).bytes() + vint_enc(tag as nat)
                    + vint_enc(((val as u16)) as nat),
                Err(e) => e is OutputBufferTooSmall,
            },
    {
        proof {
            lemma_vint_enc(tag as nat);
        }
        self.write_tag(tag)?;
        self.write_i16(val)
    }


    pub fn write_u32_with_tag(&mut self, tag: u64, val: u32) -> (r: Result<()>)
        requires
            old(self).wf(),
        ensures
            final(self).wf(),
            final(self).spec_cap() == old(self).spec_cap(),
            r is Ok <==> old(self).bytes().len() + vint_size(tag as nat) + vint_size(val as nat) <= old(
                self,
            ).spec_cap(),
            match r {
                Ok(_) => final(self).bytes() == old(self).bytes() + vint_enc(tag as nat)
                    + vint_enc(val as nat),
                Err(e) => e is OutputBufferTooSmall,
            },
    {
        proof {
            lemma_vint_enc(tag as nat);
        }
        self.write_tag(tag)?;
        self.write_u32(val)
    }


    pub fn write_i32_with_tag(&mut self, tag: u64, val: i32) -> (r: Result<()>)
        requires
            old(self).wf(),
        ensures
            final(self).wf(),
            final(self).spec_cap() == old(self).spec_cap(),
            r is Ok <==> old(self).bytes().len() + vint_size(tag as nat) + vint_size(((val as u32)) as nat) <= old(
                self,
            ).spec_cap(),
            match r {
                Ok(_) => final(self).bytes() == old(self).bytes() + vint_enc(tag as nat)
                    + vint_enc(((val as u32)) as nat),
                Err(e) => e is OutputBufferTooSmall,
            },
    {
        proof {
            lemma_vint_enc(tag as nat);
        }
        self.write_tag(tag)?;
        self.write_i32(val)
    }


    pub fn write_u64_with_tag(&mut self, tag: u64, val: u64) -> (r: Result<()>)
        requires
            old(self).wf(),
        ensures
            final(self).wf(),
            final(self).spec_cap() == old(self).spec_cap(),
            r is Ok <==> old(self).bytes().len() + vint_size(tag as nat) + vint_size(val as nat) <= old(
                self,
            ).spec_cap(),
            match r {
                Ok(_) => final(self).bytes() == old(self).bytes() + vint_enc(tag as nat)
                    + vint_enc(val as nat),
                Err(e) => e is OutputBufferTooSmall,
            },
    {
        proof {
            lemma_vint_enc(tag as nat);
        }
        self.write_tag(tag)?;
        self.write_u64(val)
    }


    pub fn write_i64_with_tag(&mut self, tag: u64, val: i64) -> (r: Result<()>)
        requires
            old(self).wf(),
        ensures
            final(self).wf(),
            final(self).spec_cap() == old(self).spec_cap(),
            r is Ok <==> old(self).bytes().len() + vint_size(tag as nat) + vint_size(((val as u64)) as nat) <= old(
                self,
            ).spec_cap(),
            match r {
                Ok(_) => final(self).bytes() == old(self).bytes() + vint_enc(tag as nat)
                    + vint_enc(((val as u64)) as nat),
                Err(e) => e is OutputBufferTooSmall,
            },
    {
        proof {
            lemma_vint_enc(tag as nat);
        }
        self.write_tag(tag)?;
        self.write_i64(val)
    }


    pub fn write_bool_with_tag(&mut self, tag: u64, val: bool) -> (r: Result<()>)
        requires
            old(self).wf(),
        ensures
            final(self).wf(),
            final(self).spec_cap() == old(self).spec_cap(),
            r is Ok <==> old(self).bytes().len() + vint_size(tag as nat) + 1 <= old(
                self,
            ).spec_cap(),
            match r {
                Ok(_) => final(self).bytes() == old(self).bytes() + vint_enc(tag as nat)
                    + seq![if val { 1u8 } else { 0u8 }],
                Err(e) => e is OutputBufferTooSmall,
            },
    {
        proof {
            lemma_vint_enc(tag as nat);
        }
        self.write_tag(tag)?;
        self.write_bool(val)
    }


    pub fn write_string_with_tag(&mut self, tag: u64, val: &str) -> (r: Result<()>)
        requires
            old(self).wf(),
        ensures
            final(self).wf(),
            final(self).spec_cap() == old(self).spec_cap(),
            r is Ok <==> (val.spec_bytes().len() < 0xffffffff && old(self).bytes().len()
                + vint_size(tag as nat) + vint_size(val.spec_bytes().len())
                + val.spec_bytes().len() <= old(self).spec_cap()),
            match r {
                Ok(_) => final(self).bytes() == old(self).bytes() + vint_enc(tag as nat)
                    + vint_enc(val.spec_bytes().len()) + val.spec_bytes(),
                Err(e) => e is OutputBufferTooSmall || e is Message,
            },
    {
        proof {
            lemma_vint_enc(tag as nat);
            lemma_vint_enc(val.spec_bytes().len());
        }
        self.write_tag(tag)?;
        match self.write_string(val) {
            Ok(_) => {
                proof {
                    assert(self.bytes() =~= old(self).bytes() + vint_enc(tag as nat) + vint_enc(
                        val.spec_bytes().len(),
                    ) + val.spec_bytes());
                }
                Ok(())
            },
            Err(e) => Err(e),
        }
    }
}

} // verus!
