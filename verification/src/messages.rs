//! The closed set of wire messages the server speaks, with their binary
//! encoding: fields in declaration order, integers as varints, strings and
//! byte blobs length-prefixed, repeated fields as a count followed by the
//! elements. `parse_proto` and `serialize` are the two ends every frame
//! passes through.

use vstd::prelude::*;
use vstd::arithmetic::power2::{pow2, lemma2_to64, lemma2_to64_rest};
use vstd::slice::slice_subrange;
use vstd::slice::slice_to_vec;
use vstd::string::StringSliceAdditionalSpecFns;
use vstd::utf8::{valid_utf8, encode_utf8, encode_utf8_valid_utf8, encode_utf8_decode_utf8};
use crate::errors::{Error, Result};
use crate::reader::{BytesReader, varint_read_ok, varint_read_err, string_read_err};
use crate::varint::{
    is_vint, vint_enc, vint_value, vint_size, lemma_vint_enc, lemma_is_vint_unique, lemma_size_u32,
    lemma_vint_size_u64,
};

verus! {

/// The encoding `e` stands whole at offset `o` of `bytes`.
pub open spec fn canonical_at(bytes: Seq<u8>, o: int, e: Seq<u8>) -> bool {
    &&& 0 <= o
    &&& o + e.len() <= bytes.len()
    &&& bytes.subrange(o, o + e.len()) == e
}

/// Encoding of one length-prefixed chunk: the byte count, then the bytes.
pub open spec fn enc_bytes(b: Seq<u8>) -> Seq<u8> {
    vint_enc(b.len()) + b
}

/// Encoding of one string field: its UTF-8 bytes, length-prefixed.
pub open spec fn enc_str(s: Seq<char>) -> Seq<u8> {
    enc_bytes(encode_utf8(s))
}

/// An encoding made of two parts standing whole at `o` has each part
/// standing whole at its own offset.
pub proof fn lemma_canonical_split(bytes: Seq<u8>, o: int, e1: Seq<u8>, e2: Seq<u8>)
    requires
        canonical_at(bytes, o, e1 + e2),
    ensures
        canonical_at(bytes, o, e1),
        canonical_at(bytes, o + e1.len(), e2),
{
    let e = e1 + e2;
    assert forall|i: int| 0 <= i < e1.len() implies bytes.subrange(o, o + e1.len())[i] == e1[i] by {
        assert(bytes.subrange(o, o + e.len())[i] == bytes[o + i]);
        assert((e1 + e2)[i] == e1[i]);
    }
    assert(bytes.subrange(o, o + e1.len()) =~= e1);
    assert forall|j: int| 0 <= j < e2.len() implies bytes.subrange(o + e1.len(), o + e.len())[j]
        == e2[j] by {
        assert(bytes.subrange(o, o + e.len())[e1.len() + j] == bytes[o + e1.len() + j]);
        assert((e1 + e2)[e1.len() + j] == e2[j]);
    }
    assert(bytes.subrange(o + e1.len(), o + e.len()) =~= e2);
}

/// A whole varint standing at `o` is the only varint reading can find there:
/// the cursor after the read and the value are forced.
proof fn lemma_canonical_vint(bytes: Seq<u8>, o: int, to: int, maxb: int, got: nat, w: nat, v: nat)
    requires
        canonical_at(bytes, o, vint_enc(v)),
        vint_size(v) <= maxb,
        v < pow2(w),
        varint_read_ok(bytes, o, to, maxb, got, w),
    ensures
        to == o + vint_enc(v).len(),
        got == v,
{
    lemma_vint_enc(v);
    let e = vint_enc(v);
    let s = bytes.subrange(o, bytes.len() as int);
    assert(bytes.subrange(o, o + e.len()) =~= s.subrange(0, e.len() as int));
    assert(bytes.subrange(o, to) =~= s.subrange(0, to - o));
    lemma_is_vint_unique(s, e.len() as int, to - o);
    assert(vint_value(bytes.subrange(o, to)) == v);
    vstd::arithmetic::div_mod::lemma_small_mod(v, pow2(w));
}

/// A whole varint standing at `o` rules every failure out.
proof fn lemma_canonical_vint_no_err(
    bytes: Seq<u8>,
    o: int,
    to: int,
    maxb: int,
    e0: Error,
    v: nat,
)
    requires
        canonical_at(bytes, o, vint_enc(v)),
        vint_size(v) <= maxb,
    ensures
        !varint_read_err(bytes, o, to, maxb, e0),
{
    lemma_vint_enc(v);
    let e = vint_enc(v);
    let last = o + e.len() - 1;
    assert(bytes.subrange(o, o + e.len())[e.len() - 1] == bytes[last]);
    assert(bytes[last] < 128);
    if varint_read_err(bytes, o, to, maxb, e0) {
        if e0 is Varint {
            assert(last < o + maxb);
        } else {
            assert(to >= bytes.len() >= o + e.len());
            assert(last < to);
        }
    }
}

/// Reads one u64 field; on a canonical encoding the result is forced.
fn rf_u64(rd: &mut BytesReader, bytes: &[u8]) -> (r: Result<u64>)
    ensures
        final(rd).end == old(rd).end,
        old(rd).start <= final(rd).start,
        r is Ok ==> old(rd).start < final(rd).start && final(rd).start <= bytes@.len(),
        forall|v: u64| #[trigger]
            canonical_at(bytes@, old(rd).start as int, vint_enc(v as nat)) ==> r == Ok::<
                u64,
                Error,
            >(v) && final(rd).start == old(rd).start + vint_enc(v as nat).len(),
{
    let res = rd.read_u64(bytes);
    proof {
        let o = old(rd).start as int;
        assert forall|v: u64| #[trigger]
            canonical_at(bytes@, o, vint_enc(v as nat)) implies res == Ok::<u64, Error>(v)
            && rd.start == o + vint_enc(v as nat).len() by {
            lemma_vint_size_u64(v);
            assert((v as nat) < pow2(64)) by { lemma2_to64_rest(); }
            match res {
                Ok(got) => {
                    lemma_canonical_vint(
                        bytes@,
                        o,
                        rd.start as int,
                        10,
                        got as nat,
                        64,
                        v as nat,
                    );
                },
                Err(e0) => {
                    lemma_canonical_vint_no_err(bytes@, o, rd.start as int, 10, e0, v as nat);
                },
            }
        }
    }
    res
}

/// Reads one u32 field; on a canonical encoding the result is forced.
fn rf_u32(rd: &mut BytesReader, bytes: &[u8]) -> (r: Result<u32>)
    ensures
        final(rd).end == old(rd).end,
        old(rd).start <= final(rd).start,
        r is Ok ==> old(rd).start < final(rd).start && final(rd).start <= bytes@.len(),
        forall|v: u32| #[trigger]
            canonical_at(bytes@, old(rd).start as int, vint_enc(v as nat)) ==> r == Ok::<
                u32,
                Error,
            >(v) && final(rd).start == old(rd).start + vint_enc(v as nat).len(),
{
    let res = rd.read_u32(bytes);
    proof {
        let o = old(rd).start as int;
        assert forall|v: u32| #[trigger]
            canonical_at(bytes@, o, vint_enc(v as nat)) implies res == Ok::<u32, Error>(v)
            && rd.start == o + vint_enc(v as nat).len() by {
            lemma_size_u32(v as nat);
            assert((v as nat) < pow2(32)) by { lemma2_to64(); }
            match res {
                Ok(got) => {
                    lemma_canonical_vint(bytes@, o, rd.start as int, 5, got as nat, 32, v as nat);
                },
                Err(e0) => {
                    lemma_canonical_vint_no_err(bytes@, o, rd.start as int, 5, e0, v as nat);
                },
            }
        }
    }
    res
}

/// Reads one i32 field, wire-encoded as its 32-bit two's complement varint.
fn rf_i32(rd: &mut BytesReader, bytes: &[u8]) -> (r: Result<i32>)
    ensures
        final(rd).end == old(rd).end,
        old(rd).start <= final(rd).start,
        r is Ok ==> old(rd).start < final(rd).start && final(rd).start <= bytes@.len(),
        forall|v: i32| #[trigger]
            canonical_at(bytes@, old(rd).start as int, vint_enc(((v as u32)) as nat)) ==> r == Ok::<
                i32,
                Error,
            >(v) && final(rd).start == old(rd).start + vint_enc(((v as u32)) as nat).len(),
{
    let res = rd.read_i32(bytes);
    proof {
        let o = old(rd).start as int;
        assert forall|v: i32| #[trigger]
            canonical_at(bytes@, o, vint_enc(((v as u32)) as nat)) implies res == Ok::<
            i32,
            Error,
        >(v) && rd.start == o + vint_enc(((v as u32)) as nat).len() by {
            let w = v as u32;
            lemma_size_u32(w as nat);
            assert((w as nat) < pow2(32)) by { lemma2_to64(); }
            match res {
                Ok(got) => {
                    lemma_canonical_vint(
                        bytes@,
                        o,
                        rd.start as int,
                        5,
                        (got as u32) as nat,
                        32,
                        w as nat,
                    );
                    assert(got == v) by {
                        assert((got as u32) == w ==> got == v) by (bit_vector)
                            requires
                                w == v as u32,
                        ;
                    }
                },
                Err(e0) => {
                    lemma_canonical_vint_no_err(bytes@, o, rd.start as int, 5, e0, w as nat);
                },
            }
        }
    }
    res
}

/// Reads one raw byte field.
fn rf_u8(rd: &mut BytesReader, bytes: &[u8]) -> (r: Result<u8>)
    ensures
        final(rd).end == old(rd).end,
        old(rd).start <= final(rd).start,
        r is Ok ==> final(rd).start <= bytes@.len(),
        forall|v: u8| #[trigger]
            canonical_at(bytes@, old(rd).start as int, seq![v]) ==> r == Ok::<u8, Error>(v)
                && final(rd).start == old(rd).start + 1,
{
    let res = rd.read_u8(bytes);
    proof {
        let o = old(rd).start as int;
        assert forall|v: u8| #[trigger]
            canonical_at(bytes@, o, seq![v]) implies res == Ok::<u8, Error>(v) && rd.start == o
            + 1 by {
            assert(bytes@.subrange(o, o + 1)[0] == bytes@[o]);
        }
    }
    res
}

/// Reads one string field; on a canonical encoding the result is forced.
fn rf_str(rd: &mut BytesReader, bytes: &[u8]) -> (r: Result<String>)
    ensures
        final(rd).end == old(rd).end,
        old(rd).start <= final(rd).start,
        r is Ok ==> final(rd).start <= bytes@.len(),
        r matches Ok(st) ==> encode_utf8(st@).len() <= bytes@.len(),
        forall|s: Seq<char>| #[trigger]
            canonical_at(bytes@, old(rd).start as int, enc_str(s)) && encode_utf8(s).len()
                < 0x100000000 ==> (r matches Ok(st) && st@ == s) && final(rd).start == old(
                rd,
            ).start + enc_str(s).len(),
{
    let res = rd.read_string(bytes);
    proof {
        let o = old(rd).start as int;
        let to = rd.start as int;
        if res is Ok {
            let st = res->Ok_0;
            let k = choose|k: int|
                {
                    &&& o < k <= to <= bytes@.len()
                    &&& k - o <= 5
                    &&& #[trigger] is_vint(bytes@.subrange(o, k))
                    &&& (to - k) as nat == vint_value(bytes@.subrange(o, k)) % pow2(32)
                    &&& valid_utf8(bytes@.subrange(k, to))
                    &&& encode_utf8(st@) == bytes@.subrange(k, to)
                };
            assert(encode_utf8(st@).len() == to - k);
        }
        assert forall|s: Seq<char>|
            #[trigger] canonical_at(bytes@, o, enc_str(s)) && encode_utf8(s).len()
                < 0x100000000 implies (res matches Ok(st) && st@ == s) && rd.start as int == o
            + enc_str(s).len() by {
            let sb = encode_utf8(s);
            let le = vint_enc(sb.len());
            lemma_vint_enc(sb.len());
            lemma_size_u32(sb.len());
            assert(sb.len() < pow2(32)) by { lemma2_to64(); }
            lemma_canonical_split(bytes@, o, le, sb);
            assert(bytes@.subrange(o + le.len(), o + enc_str(s).len() as int) =~= sb);
            match res {
                Ok(st) => {
                    let k = choose|k: int|
                        {
                            &&& o < k <= rd.start as int <= bytes@.len()
                            &&& k - o <= 5
                            &&& #[trigger] is_vint(bytes@.subrange(o, k))
                            &&& (rd.start - k) as nat == vint_value(bytes@.subrange(o, k)) % pow2(
                                32,
                            )
                            &&& valid_utf8(bytes@.subrange(k, rd.start as int))
                            &&& encode_utf8(st@) == bytes@.subrange(k, rd.start as int)
                        };
                    assert(varint_read_ok(
                        bytes@,
                        o,
                        k,
                        5,
                        vint_value(bytes@.subrange(o, k)) % pow2(32),
                        32,
                    ));
                    lemma_canonical_vint(
                        bytes@,
                        o,
                        k,
                        5,
                        vint_value(bytes@.subrange(o, k)) % pow2(32),
                        32,
                        sb.len(),
                    );
                    assert(rd.start as int == k + sb.len());
                    assert(encode_utf8(st@) =~= sb);
                    encode_utf8_decode_utf8(st@);
                    encode_utf8_decode_utf8(s);
                    assert(st@ == s);
                },
                Err(e0) => {
                    assert(string_read_err(bytes@, o, to, e0));
                    if varint_read_err(bytes@, o, to, 5, e0) {
                        lemma_canonical_vint_no_err(bytes@, o, to, 5, e0, sb.len());
                    } else {
                        let n = choose|n: nat|
                            {
                                &&& #[trigger] varint_read_ok(bytes@, o, to, 5, n, 32)
                                &&& {
                                    ||| (e0 is UnexpectedEndOfBuffer && to + n > bytes@.len())
                                    ||| (e0 is Utf8 && to + n <= bytes@.len() && !valid_utf8(
                                        bytes@.subrange(to, to + n),
                                    ))
                                }
                            };
                        lemma_canonical_vint(bytes@, o, to, 5, n, 32, sb.len());
                        assert(to == o + le.len() && n == sb.len());
                        if e0 is Utf8 {
                            encode_utf8_valid_utf8(s);
                            assert(bytes@.subrange(to, to + n) =~= sb);
                        }
                    }
                },
            }
        }
    }
    res
}

/// Reads one length-prefixed blob of raw bytes.
fn rf_bytes(rd: &mut BytesReader, bytes: &[u8]) -> (r: Result<Vec<u8>>)
    ensures
        final(rd).end == old(rd).end,
        old(rd).start <= final(rd).start,
        r is Ok ==> final(rd).start <= bytes@.len(),
        r matches Ok(b) ==> b@.len() <= bytes@.len(),
        forall|b: Seq<u8>| #[trigger]
            canonical_at(bytes@, old(rd).start as int, enc_bytes(b)) && b.len() < 0x100000000 ==> (
            r matches Ok(got) && got@ == b) && final(rd).start == old(rd).start + enc_bytes(
                b,
            ).len(),
{
    let ghost o = rd.start as int;
    let lr = rd.get_len(bytes);
    let len = match lr {
        Ok(l) => l,
        Err(e0) => {
            proof {
                assert forall|b: Seq<u8>|
                    #[trigger] canonical_at(bytes@, o, enc_bytes(b)) && b.len()
                        < 0x100000000 implies false by {
                    lemma_vint_enc(b.len());
                    lemma_size_u32(b.len());
                    lemma_canonical_split(bytes@, o, vint_enc(b.len()), b);
                    lemma_canonical_vint_no_err(bytes@, o, rd.start as int, 5, e0, b.len());
                }
            }
            return Err(e0);
        },
    };
    let ghost k = rd.start as int;
    if len > bytes.len() || rd.get_read_start() > bytes.len() - len {
        proof {
            assert forall|b: Seq<u8>|
                #[trigger] canonical_at(bytes@, o, enc_bytes(b)) && b.len()
                    < 0x100000000 implies false by {
                lemma_vint_enc(b.len());
                lemma_size_u32(b.len());
                assert(b.len() < pow2(32)) by { lemma2_to64(); }
                lemma_canonical_split(bytes@, o, vint_enc(b.len()), b);
                lemma_canonical_vint(bytes@, o, k, 5, len as nat, 32, b.len());
            }
        }
        return Err(Error::UnexpectedEndOfBuffer);
    }
    let start = rd.get_read_start();
    let sl = slice_subrange(bytes, start, start + len);
    let v = slice_to_vec(sl);
    rd.step(len);
    proof {
        assert forall|b: Seq<u8>|
            #[trigger] canonical_at(bytes@, o, enc_bytes(b)) && b.len() < 0x100000000 implies (v@
            == b) && rd.start as int == o + enc_bytes(b).len() by {
            lemma_vint_enc(b.len());
            lemma_size_u32(b.len());
            assert(b.len() < pow2(32)) by { lemma2_to64(); }
            lemma_canonical_split(bytes@, o, vint_enc(b.len()), b);
            lemma_canonical_vint(bytes@, o, k, 5, len as nat, 32, b.len());
            assert(v@ =~= b);
        }
    }
    Ok(v)
}

} // verus!

// --- message definitions ---

verus! {

/// One item as it crosses the wire inside a bag listing.
#[allow(non_camel_case_types)]
#[derive(Debug, Clone, Default)]
pub struct item_info {
    pub uid: u64,
    pub id: u32,
    pub stack: i32,
}

impl item_info {
    /// Wire form: uid, id, stack, each a varint.
    pub open spec fn spec_enc(&self) -> Seq<u8> {
        vint_enc(self.uid as nat) + vint_enc(self.id as nat) + vint_enc(((self.stack as u32)) as nat)
    }

    pub open spec fn wf(&self) -> bool {
        true
    }

    pub open spec fn eqv(&self, other: &Self) -> bool {
        self.uid == other.uid && self.id == other.id && self.stack == other.stack
    }

    pub fn size(&self) -> (r: usize)
        ensures
            r == self.spec_enc().len(),
            r <= 20,
    {
        let a = crate::sizeofs::sizeof_u64(self.uid);
        let b = crate::sizeofs::sizeof_u32(self.id);
        let c = crate::sizeofs::sizeof_i32(self.stack);
        proof {
            lemma_vint_enc(self.uid as nat);
            lemma_vint_enc(self.id as nat);
            lemma_vint_enc(((self.stack as u32)) as nat);
        }
        a + b + c
    }

    pub fn write(&self, w: &mut crate::writer::BytesWriter) -> (r: Result<()>)
        requires
            old(w).wf(),
        ensures
            final(w).wf(),
            final(w).spec_cap() == old(w).spec_cap(),
            r is Ok <==> old(w).bytes().len() + self.spec_enc().len() <= old(w).spec_cap(),
            r is Ok ==> final(w).bytes() == old(w).bytes() + self.spec_enc(),
            r matches Err(e) ==> e is OutputBufferTooSmall,
    {
        proof {
            lemma_vint_enc(self.uid as nat);
            lemma_vint_enc(self.id as nat);
            lemma_vint_enc(((self.stack as u32)) as nat);
        }
        w.write_u64(self.uid)?;
        w.write_u32(self.id)?;
        w.write_i32(self.stack)?;
        proof {
            assert(w.bytes() =~= old(w).bytes() + self.spec_enc());
            w.lemma_wf_cap();
        }
        Ok(())
    }

    pub fn read(rd: &mut BytesReader, bytes: &[u8]) -> (r: Result<Self>)
        ensures
            final(rd).end == old(rd).end,
            old(rd).start <= final(rd).start,
            r is Ok ==> old(rd).start < final(rd).start && final(rd).start <= bytes@.len(),
            forall|m: item_info| #[trigger]
                canonical_at(bytes@, old(rd).start as int, m.spec_enc()) ==> (r matches Ok(x)
                    && x.eqv(&m)) && final(rd).start == old(rd).start + m.spec_enc().len(),
    {
        let ghost o = rd.start as int;
        let uid = match rf_u64(rd, bytes) {
            Ok(v) => v,
            Err(e) => {
                proof {
                    assert forall|m: item_info| #[trigger]
                        canonical_at(bytes@, o, m.spec_enc()) implies false by {
                        assert(m.spec_enc() =~= vint_enc(m.uid as nat) + (vint_enc(m.id as nat)
                            + vint_enc(((m.stack as u32)) as nat)));
                        lemma_canonical_split(
                            bytes@,
                            o,
                            vint_enc(m.uid as nat),
                            vint_enc(m.id as nat) + vint_enc(((m.stack as u32)) as nat),
                        );
                    }
                }
                return Err(e);
            },
        };
        let ghost o1 = rd.start as int;
        let id = match rf_u32(rd, bytes) {
            Ok(v) => v,
            Err(e) => {
                proof {
                    assert forall|m: item_info| #[trigger]
                        canonical_at(bytes@, o, m.spec_enc()) implies false by {
                        assert(m.spec_enc() =~= vint_enc(m.uid as nat) + (vint_enc(m.id as nat)
                            + vint_enc(((m.stack as u32)) as nat)));
                        lemma_canonical_split(
                            bytes@,
                            o,
                            vint_enc(m.uid as nat),
                            vint_enc(m.id as nat) + vint_enc(((m.stack as u32)) as nat),
                        );
                        lemma_canonical_split(
                            bytes@,
                            o + vint_enc(m.uid as nat).len(),
                            vint_enc(m.id as nat),
                            vint_enc(((m.stack as u32)) as nat),
                        );
                    }
                }
                return Err(e);
            },
        };
        let ghost o2 = rd.start as int;
        let stack = match rf_i32(rd, bytes) {
            Ok(v) => v,
            Err(e) => {
                proof {
                    assert forall|m: item_info| #[trigger]
                        canonical_at(bytes@, o, m.spec_enc()) implies false by {
                        assert(m.spec_enc() =~= vint_enc(m.uid as nat) + (vint_enc(m.id as nat)
                            + vint_enc(((m.stack as u32)) as nat)));
                        lemma_canonical_split(
                            bytes@,
                            o,
                            vint_enc(m.uid as nat),
                            vint_enc(m.id as nat) + vint_enc(((m.stack as u32)) as nat),
                        );
                        lemma_canonical_split(
                            bytes@,
                            o + vint_enc(m.uid as nat).len(),
                            vint_enc(m.id as nat),
                            vint_enc(((m.stack as u32)) as nat),
                        );
                    }
                }
                return Err(e);
            },
        };
        let res = item_info { uid, id, stack };
        proof {
            assert forall|m: item_info| #[trigger]
                canonical_at(bytes@, o, m.spec_enc()) implies res.eqv(&m) && rd.start as int == o
                + m.spec_enc().len() by {
                assert(m.spec_enc() =~= vint_enc(m.uid as nat) + (vint_enc(m.id as nat)
                    + vint_enc(((m.stack as u32)) as nat)));
                lemma_canonical_split(
                    bytes@,
                    o,
                    vint_enc(m.uid as nat),
                    vint_enc(m.id as nat) + vint_enc(((m.stack as u32)) as nat),
                );
                lemma_canonical_split(
                    bytes@,
                    o + vint_enc(m.uid as nat).len(),
                    vint_enc(m.id as nat),
                    vint_enc(((m.stack as u32)) as nat),
                );
            }
        }
        Ok(res)
    }
}

/// A player's request for the contents of one bag.
#[allow(non_camel_case_types)]
#[derive(Debug, Clone, Default)]
pub struct s_item_bag {
    pub bagtype: u8,
}

impl s_item_bag {
    pub fn id() -> (r: u32)
        ensures
            r == 105,
    {
        105
    }

    /// Wire form: the bag type, one raw byte.
    pub open spec fn spec_enc(&self) -> Seq<u8> {
        seq![self.bagtype]
    }

    pub open spec fn wf(&self) -> bool {
        true
    }

    pub open spec fn eqv(&self, other: &Self) -> bool {
        self.bagtype == other.bagtype
    }

    pub fn size(&self) -> (r: usize)
        ensures
            r == self.spec_enc().len(),
    {
        1
    }

    pub fn write(&self, w: &mut crate::writer::BytesWriter) -> (r: Result<()>)
        requires
            old(w).wf(),
        ensures
            final(w).wf(),
            final(w).spec_cap() == old(w).spec_cap(),
            r is Ok <==> old(w).bytes().len() + self.spec_enc().len() <= old(w).spec_cap(),
            r is Ok ==> final(w).bytes() == old(w).bytes() + self.spec_enc(),
            r matches Err(e) ==> e is OutputBufferTooSmall,
    {
        w.write_u8(self.bagtype)?;
        proof {
            assert(w.bytes() =~= old(w).bytes() + self.spec_enc());
            w.lemma_wf_cap();
        }
        Ok(())
    }

    pub fn read(rd: &mut BytesReader, bytes: &[u8]) -> (r: Result<Self>)
        ensures
            final(rd).end == old(rd).end,
            old(rd).start <= final(rd).start,
            r is Ok ==> final(rd).start <= bytes@.len(),
            forall|m: s_item_bag| #[trigger]
                canonical_at(bytes@, old(rd).start as int, m.spec_enc()) ==> (r matches Ok(x)
                    && x.eqv(&m)) && final(rd).start == old(rd).start + m.spec_enc().len(),
    {
        let bagtype = rf_u8(rd, bytes)?;
        Ok(s_item_bag { bagtype })
    }
}

} // verus!

// --- the wire messages ---

verus! {

/// A player's login request: account and protocol version fingerprint.
#[allow(non_camel_case_types)]
#[derive(Debug, Clone, Default)]
pub struct s_login {
    pub acc: String,
    pub vers: String,
}

proof fn s_login_splits(bytes: Seq<u8>, o: int, m: s_login)
    requires
        canonical_at(bytes, o, m.spec_enc()),
    ensures
        canonical_at(bytes, o, enc_str(m.acc@)),
        canonical_at(bytes, o + enc_str(m.acc@).len(), enc_str(m.vers@)),
{
    assert(m.spec_enc() =~= enc_str(m.acc@) + (enc_str(m.vers@)));
    lemma_canonical_split(bytes, o, enc_str(m.acc@), enc_str(m.vers@));
}

impl s_login {
    pub fn id() -> (r: u32)
        ensures
            r == 101,
    {
        101
    }

    /// Wire form: the fields in order.
    pub open spec fn spec_enc(&self) -> Seq<u8> {
        enc_str(self.acc@) + enc_str(self.vers@)
    }

    pub open spec fn wf(&self) -> bool {
        &&& encode_utf8(self.acc@).len() < 0x10000000
        &&& encode_utf8(self.vers@).len() < 0x10000000
    }

    /// Field-for-field equality, strings and blobs by contents.
    pub open spec fn eqv(&self, other: &Self) -> bool {
        &&& self.acc@ == other.acc@
        &&& self.vers@ == other.vers@
    }

    pub fn size(&self) -> (r: usize)
        requires
            self.wf(),
        ensures
            r == self.spec_enc().len(),
    {
        proof {
            lemma_vint_enc(encode_utf8(self.acc@).len());
            lemma_size_u32(encode_utf8(self.acc@).len());
            lemma_vint_enc(encode_utf8(self.vers@).len());
            lemma_size_u32(encode_utf8(self.vers@).len());
        }
        let s0 = crate::sizeofs::sizeof_string(self.acc.as_str());
        let s1 = crate::sizeofs::sizeof_string(self.vers.as_str());
        s0 + s1
    }

    pub fn write(&self, w: &mut crate::writer::BytesWriter) -> (r: Result<()>)
        requires
            old(w).wf(),
            self.wf(),
        ensures
            final(w).wf(),
            final(w).spec_cap() == old(w).spec_cap(),
            r is Ok <==> old(w).bytes().len() + self.spec_enc().len() <= old(w).spec_cap(),
            r is Ok ==> final(w).bytes() == old(w).bytes() + self.spec_enc(),
            r matches Err(e) ==> e is OutputBufferTooSmall,
    {
        proof {
            lemma_vint_enc(encode_utf8(self.acc@).len());
            lemma_vint_enc(encode_utf8(self.vers@).len());
        }
        w.write_string(self.acc.as_str())?;
        w.write_string(self.vers.as_str())?;
        proof {
            assert(w.bytes() =~= old(w).bytes() + self.spec_enc());
            w.lemma_wf_cap();
        }
        Ok(())
    }

    pub fn read(rd: &mut BytesReader, bytes: &[u8]) -> (r: Result<Self>)
        ensures
            final(rd).end == old(rd).end,
            old(rd).start <= final(rd).start,
            r is Ok ==> final(rd).start <= bytes@.len(),
            r matches Ok(x) ==> bytes@.len() < 0x10000000 ==> x.wf(),
            forall|m: s_login| #[trigger]
                canonical_at(bytes@, old(rd).start as int, m.spec_enc()) && m.wf() ==> (r matches Ok(x)
                    && x.eqv(&m)) && final(rd).start == old(rd).start + m.spec_enc().len(),
    {
        let ghost o = rd.start as int;
        let acc = match rf_str(rd, bytes) {
            Ok(v) => v,
            Err(e) => {
                proof {
                    assert forall|m: s_login| #[trigger]
                        canonical_at(bytes@, o, m.spec_enc()) && m.wf() implies false by {
                        s_login_splits(bytes@, o, m);
                    }
                }
                return Err(e);
            },
        };
        let vers = match rf_str(rd, bytes) {
            Ok(v) => v,
            Err(e) => {
                proof {
                    assert forall|m: s_login| #[trigger]
                        canonical_at(bytes@, o, m.spec_enc()) && m.wf() implies false by {
                        s_login_splits(bytes@, o, m);
                    }
                }
                return Err(e);
            },
        };
        let res = s_login { acc, vers };
        proof {
            assert forall|m: s_login| #[trigger]
                canonical_at(bytes@, o, m.spec_enc()) && m.wf() implies (res.eqv(&m) && rd.start as int
                == o + m.spec_enc().len()) by {
                s_login_splits(bytes@, o, m);
            }
        }
        Ok(res)
    }
}

/// The server's login answer: a result code and a session magic.
#[allow(non_camel_case_types)]
#[derive(Debug, Clone, Default)]
pub struct c_login {
    pub ret: i32,
    pub magic: i32,
}

proof fn c_login_splits(bytes: Seq<u8>, o: int, m: c_login)
    requires
        canonical_at(bytes, o, m.spec_enc()),
    ensures
        canonical_at(bytes, o, vint_enc(((m.ret as u32)) as nat)),
        canonical_at(bytes, o + vint_enc(((m.ret as u32)) as nat).len(), vint_enc(((m.magic as u32)) as nat)),
{
    assert(m.spec_enc() =~= vint_enc(((m.ret as u32)) as nat) + (vint_enc(((m.magic as u32)) as nat)));
    lemma_canonical_split(bytes, o, vint_enc(((m.ret as u32)) as nat), vint_enc(((m.magic as u32)) as nat));
}

impl c_login {
    pub fn id() -> (r: u32)
        ensures
            r == 102,
    {
        102
    }

    /// Wire form: the fields in order.
    pub open spec fn spec_enc(&self) -> Seq<u8> {
        vint_enc(((self.ret as u32)) as nat) + vint_enc(((self.magic as u32)) as nat)
    }

    pub open spec fn wf(&self) -> bool {
        true
    }

    /// Field-for-field equality, strings and blobs by contents.
    pub open spec fn eqv(&self, other: &Self) -> bool {
        &&& self.ret == other.ret
        &&& self.magic == other.magic
    }

    pub fn size(&self) -> (r: usize)
        requires
            self.wf(),
        ensures
            r == self.spec_enc().len(),
    {
        proof {
            lemma_vint_enc(((self.ret as u32)) as nat);
            lemma_vint_enc(((self.magic as u32)) as nat);
        }
        let s0 = crate::sizeofs::sizeof_i32(self.ret);
        let s1 = crate::sizeofs::sizeof_i32(self.magic);
        s0 + s1
    }

    pub fn write(&self, w: &mut crate::writer::BytesWriter) -> (r: Result<()>)
        requires
            old(w).wf(),
            self.wf(),
        ensures
            final(w).wf(),
            final(w).spec_cap() == old(w).spec_cap(),
            r is Ok <==> old(w).bytes().len() + self.spec_enc().len() <= old(w).spec_cap(),
            r is Ok ==> final(w).bytes() == old(w).bytes() + self.spec_enc(),
            r matches Err(e) ==> e is OutputBufferTooSmall,
    {
        proof {
            lemma_vint_enc(((self.ret as u32)) as nat);
            lemma_vint_enc(((self.magic as u32)) as nat);
        }
        w.write_i32(self.ret)?;
        w.write_i32(self.magic)?;
        proof {
            assert(w.bytes() =~= old(w).bytes() + self.spec_enc());
            w.lemma_wf_cap();
        }
        Ok(())
    }

    pub fn read(rd: &mut BytesReader, bytes: &[u8]) -> (r: Result<Self>)
        ensures
            final(rd).end == old(rd).end,
            old(rd).start <= final(rd).start,
            r is Ok ==> final(rd).start <= bytes@.len(),
            forall|m: c_login| #[trigger]
                canonical_at(bytes@, old(rd).start as int, m.spec_enc()) ==> (r matches Ok(x)
                    && x.eqv(&m)) && final(rd).start == old(rd).start + m.spec_enc().len(),
    {
        let ghost o = rd.start as int;
        let ret = match rf_i32(rd, bytes) {
            Ok(v) => v,
            Err(e) => {
                proof {
                    assert forall|m: c_login| #[trigger]
                        canonical_at(bytes@, o, m.spec_enc()) implies false by {
                        c_login_splits(bytes@, o, m);
                    }
                }
                return Err(e);
            },
        };
        let magic = match rf_i32(rd, bytes) {
            Ok(v) => v,
            Err(e) => {
                proof {
                    assert forall|m: c_login| #[trigger]
                        canonical_at(bytes@, o, m.spec_enc()) implies false by {
                        c_login_splits(bytes@, o, m);
                    }
                }
                return Err(e);
            },
        };
        let res = c_login { ret, magic };
        proof {
            assert forall|m: c_login| #[trigger]
                canonical_at(bytes@, o, m.spec_enc()) implies (res.eqv(&m) && rd.start as int
                == o + m.spec_enc().len()) by {
                c_login_splits(bytes@, o, m);
            }
        }
        Ok(res)
    }
}

/// A player's request for their own brief profile.
#[allow(non_camel_case_types)]
#[derive(Debug, Clone, Default)]
pub struct s_player_brief {
}

impl s_player_brief {
    pub fn id() -> (r: u32)
        ensures
            r == 103,
    {
        103
    }

    /// Wire form: the fields in order.
    pub open spec fn spec_enc(&self) -> Seq<u8> {
        Seq::<u8>::empty()
    }

    pub open spec fn wf(&self) -> bool {
        true
    }

    /// Field-for-field equality, strings and blobs by contents.
    pub open spec fn eqv(&self, other: &Self) -> bool {
        true
    }

    pub fn size(&self) -> (r: usize)
        requires
            self.wf(),
        ensures
            r == self.spec_enc().len(),
    {
        proof {
        }
        0
    }

    pub fn write(&self, w: &mut crate::writer::BytesWriter) -> (r: Result<()>)
        requires
            old(w).wf(),
            self.wf(),
        ensures
            final(w).wf(),
            final(w).spec_cap() == old(w).spec_cap(),
            r is Ok <==> old(w).bytes().len() + self.spec_enc().len() <= old(w).spec_cap(),
            r is Ok ==> final(w).bytes() == old(w).bytes() + self.spec_enc(),
            r matches Err(e) ==> e is OutputBufferTooSmall,
    {
        proof {
        }
        proof {
            assert(w.bytes() =~= old(w).bytes() + self.spec_enc());
            w.lemma_wf_cap();
        }
        Ok(())
    }

    pub fn read(rd: &mut BytesReader, bytes: &[u8]) -> (r: Result<Self>)
        ensures
            final(rd).end == old(rd).end,
            old(rd).start <= final(rd).start,
            final(rd).start == old(rd).start,
            forall|m: s_player_brief| #[trigger]
                canonical_at(bytes@, old(rd).start as int, m.spec_enc()) ==> (r matches Ok(x)
                    && x.eqv(&m)) && final(rd).start == old(rd).start + m.spec_enc().len(),
    {
        Ok(s_player_brief { })
    }
}

/// The server's brief profile answer.
#[allow(non_camel_case_types)]
#[derive(Debug, Clone, Default)]
pub struct c_player_brief {
    pub acc: String,
    pub uid: u64,
    pub name: String,
    pub level: i32,
    pub expr: i32,
    pub money: i32,
}

proof fn c_player_brief_splits(bytes: Seq<u8>, o: int, m: c_player_brief)
    requires
        canonical_at(bytes, o, m.spec_enc()),
    ensures
        canonical_at(bytes, o, enc_str(m.acc@)),
        canonical_at(bytes, o + enc_str(m.acc@).len(), vint_enc(m.uid as nat)),
        canonical_at(bytes, o + enc_str(m.acc@).len() + vint_enc(m.uid as nat).len(), enc_str(m.name@)),
        canonical_at(bytes, o + enc_str(m.acc@).len() + vint_enc(m.uid as nat).len() + enc_str(m.name@).len(), vint_enc(((m.level as u32)) as nat)),
        canonical_at(bytes, o + enc_str(m.acc@).len() + vint_enc(m.uid as nat).len() + enc_str(m.name@).len() + vint_enc(((m.level as u32)) as nat).len(), vint_enc(((m.expr as u32)) as nat)),
        canonical_at(bytes, o + enc_str(m.acc@).len() + vint_enc(m.uid as nat).len() + enc_str(m.name@).len() + vint_enc(((m.level as u32)) as nat).len() + vint_enc(((m.expr as u32)) as nat).len(), vint_enc(((m.money as u32)) as nat)),
{
    assert(m.spec_enc() =~= enc_str(m.acc@) + (vint_enc(m.uid as nat) + (enc_str(m.name@) + (vint_enc(((m.level as u32)) as nat) + (vint_enc(((m.expr as u32)) as nat) + (vint_enc(((m.money as u32)) as nat)))))));
    lemma_canonical_split(bytes, o, enc_str(m.acc@), vint_enc(m.uid as nat) + (enc_str(m.name@) + (vint_enc(((m.level as u32)) as nat) + (vint_enc(((m.expr as u32)) as nat) + (vint_enc(((m.money as u32)) as nat))))));
    lemma_canonical_split(bytes, o + enc_str(m.acc@).len(), vint_enc(m.uid as nat), enc_str(m.name@) + (vint_enc(((m.level as u32)) as nat) + (vint_enc(((m.expr as u32)) as nat) + (vint_enc(((m.money as u32)) as nat)))));
    lemma_canonical_split(bytes, o + enc_str(m.acc@).len() + vint_enc(m.uid as nat).len(), enc_str(m.name@), vint_enc(((m.level as u32)) as nat) + (vint_enc(((m.expr as u32)) as nat) + (vint_enc(((m.money as u32)) as nat))));
    lemma_canonical_split(bytes, o + enc_str(m.acc@).len() + vint_enc(m.uid as nat).len() + enc_str(m.name@).len(), vint_enc(((m.level as u32)) as nat), vint_enc(((m.expr as u32)) as nat) + (vint_enc(((m.money as u32)) as nat)));
    lemma_canonical_split(bytes, o + enc_str(m.acc@).len() + vint_enc(m.uid as nat).len() + enc_str(m.name@).len() + vint_enc(((m.level as u32)) as nat).len(), vint_enc(((m.expr as u32)) as nat), vint_enc(((m.money as u32)) as nat));
}

impl c_player_brief {
    pub fn id() -> (r: u32)
        ensures
            r == 104,
    {
        104
    }

    /// Wire form: the fields in order.
    pub open spec fn spec_enc(&self) -> Seq<u8> {
        enc_str(self.acc@) + vint_enc(self.uid as nat) + enc_str(self.name@) + vint_enc(((self.level as u32)) as nat) + vint_enc(((self.expr as u32)) as nat) + vint_enc(((self.money as u32)) as nat)
    }

    pub open spec fn wf(&self) -> bool {
        &&& encode_utf8(self.acc@).len() < 0x10000000
        &&& encode_utf8(self.name@).len() < 0x10000000
    }

    /// Field-for-field equality, strings and blobs by contents.
    pub open spec fn eqv(&self, other: &Self) -> bool {
        &&& self.acc@ == other.acc@
        &&& self.uid == other.uid
        &&& self.name@ == other.name@
        &&& self.level == other.level
        &&& self.expr == other.expr
        &&& self.money == other.money
    }

    pub fn size(&self) -> (r: usize)
        requires
            self.wf(),
        ensures
            r == self.spec_enc().len(),
    {
        proof {
            lemma_vint_enc(encode_utf8(self.acc@).len());
            lemma_size_u32(encode_utf8(self.acc@).len());
            lemma_vint_enc(self.uid as nat);
            lemma_vint_enc(encode_utf8(self.name@).len());
            lemma_size_u32(encode_utf8(self.name@).len());
            lemma_vint_enc(((self.level as u32)) as nat);
            lemma_vint_enc(((self.expr as u32)) as nat);
            lemma_vint_enc(((self.money as u32)) as nat);
        }
        let s0 = crate::sizeofs::sizeof_string(self.acc.as_str());
        let s1 = crate::sizeofs::sizeof_u64(self.uid);
        let s2 = crate::sizeofs::sizeof_string(self.name.as_str());
        let s3 = crate::sizeofs::sizeof_i32(self.level);
        let s4 = crate::sizeofs::sizeof_i32(self.expr);
        let s5 = crate::sizeofs::sizeof_i32(self.money);
        s0 + s1 + s2 + s3 + s4 + s5
    }

    pub fn write(&self, w: &mut crate::writer::BytesWriter) -> (r: Result<()>)
        requires
            old(w).wf(),
            self.wf(),
        ensures
            final(w).wf(),
            final(w).spec_cap() == old(w).spec_cap(),
            r is Ok <==> old(w).bytes().len() + self.spec_enc().len() <= old(w).spec_cap(),
            r is Ok ==> final(w).bytes() == old(w).bytes() + self.spec_enc(),
            r matches Err(e) ==> e is OutputBufferTooSmall,
    {
        proof {
            lemma_vint_enc(encode_utf8(self.acc@).len());
            lemma_vint_enc(self.uid as nat);
            lemma_vint_enc(encode_utf8(self.name@).len());
            lemma_vint_enc(((self.level as u32)) as nat);
            lemma_vint_enc(((self.expr as u32)) as nat);
            lemma_vint_enc(((self.money as u32)) as nat);
        }
        w.write_string(self.acc.as_str())?;
        w.write_u64(self.uid)?;
        w.write_string(self.name.as_str())?;
        w.write_i32(self.level)?;
        w.write_i32(self.expr)?;
        w.write_i32(self.money)?;
        proof {
            assert(w.bytes() =~= old(w).bytes() + self.spec_enc());
            w.lemma_wf_cap();
        }
        Ok(())
    }

    pub fn read(rd: &mut BytesReader, bytes: &[u8]) -> (r: Result<Self>)
        ensures
            final(rd).end == old(rd).end,
            old(rd).start <= final(rd).start,
            r is Ok ==> final(rd).start <= bytes@.len(),
            r matches Ok(x) ==> bytes@.len() < 0x10000000 ==> x.wf(),
            forall|m: c_player_brief| #[trigger]
                canonical_at(bytes@, old(rd).start as int, m.spec_enc()) && m.wf() ==> (r matches Ok(x)
                    && x.eqv(&m)) && final(rd).start == old(rd).start + m.spec_enc().len(),
    {
        let ghost o = rd.start as int;
        let acc = match rf_str(rd, bytes) {
            Ok(v) => v,
            Err(e) => {
                proof {
                    assert forall|m: c_player_brief| #[trigger]
                        canonical_at(bytes@, o, m.spec_enc()) && m.wf() implies false by {
                        c_player_brief_splits(bytes@, o, m);
                    }
                }
                return Err(e);
            },
        };
        let uid = match rf_u64(rd, bytes) {
            Ok(v) => v,
            Err(e) => {
                proof {
                    assert forall|m: c_player_brief| #[trigger]
                        canonical_at(bytes@, o, m.spec_enc()) && m.wf() implies false by {
                        c_player_brief_splits(bytes@, o, m);
                    }
                }
                return Err(e);
            },
        };
        let name = match rf_str(rd, bytes) {
            Ok(v) => v,
            Err(e) => {
                proof {
                    assert forall|m: c_player_brief| #[trigger]
                        canonical_at(bytes@, o, m.spec_enc()) && m.wf() implies false by {
                        c_player_brief_splits(bytes@, o, m);
                    }
                }
                return Err(e);
            },
        };
        let level = match rf_i32(rd, bytes) {
            Ok(v) => v,
            Err(e) => {
                proof {
                    assert forall|m: c_player_brief| #[trigger]
                        canonical_at(bytes@, o, m.spec_enc()) && m.wf() implies false by {
                        c_player_brief_splits(bytes@, o, m);
                    }
                }
                return Err(e);
            },
        };
        let expr = match rf_i32(rd, bytes) {
            Ok(v) => v,
            Err(e) => {
                proof {
                    assert forall|m: c_player_brief| #[trigger]
                        canonical_at(bytes@, o, m.spec_enc()) && m.wf() implies false by {
                        c_player_brief_splits(bytes@, o, m);
                    }
                }
                return Err(e);
            },
        };
        let money = match rf_i32(rd, bytes) {
            Ok(v) => v,
            Err(e) => {
                proof {
                    assert forall|m: c_player_brief| #[trigger]
                        canonical_at(bytes@, o, m.spec_enc()) && m.wf() implies false by {
                        c_player_brief_splits(bytes@, o, m);
                    }
                }
                return Err(e);
            },
        };
        let res = c_player_brief { acc, uid, name, level, expr, money };
        proof {
            assert forall|m: c_player_brief| #[trigger]
                canonical_at(bytes@, o, m.spec_enc()) && m.wf() implies (res.eqv(&m) && rd.start as int
                == o + m.spec_enc().len()) by {
                c_player_brief_splits(bytes@, o, m);
            }
        }
        Ok(res)
    }
}

/// An error pushed to a client: a feedback code and its text.
#[allow(non_camel_case_types)]
#[derive(Debug, Clone, Default)]
pub struct c_errors {
    pub id: u32,
    pub param: String,
}

proof fn c_errors_splits(bytes: Seq<u8>, o: int, m: c_errors)
    requires
        canonical_at(bytes, o, m.spec_enc()),
    ensures
        canonical_at(bytes, o, vint_enc(m.id as nat)),
        canonical_at(bytes, o + vint_enc(m.id as nat).len(), enc_str(m.param@)),
{
    assert(m.spec_enc() =~= vint_enc(m.id as nat) + (enc_str(m.param@)));
    lemma_canonical_split(bytes, o, vint_enc(m.id as nat), enc_str(m.param@));
}

impl c_errors {
    pub fn id() -> (r: u32)
        ensures
            r == 107,
    {
        107
    }

    /// Wire form: the fields in order.
    pub open spec fn spec_enc(&self) -> Seq<u8> {
        vint_enc(self.id as nat) + enc_str(self.param@)
    }

    pub open spec fn wf(&self) -> bool {
        &&& encode_utf8(self.param@).len() < 0x10000000
    }

    /// Field-for-field equality, strings and blobs by contents.
    pub open spec fn eqv(&self, other: &Self) -> bool {
        &&& self.id == other.id
        &&& self.param@ == other.param@
    }

    pub fn size(&self) -> (r: usize)
        requires
            self.wf(),
        ensures
            r == self.spec_enc().len(),
    {
        proof {
            lemma_vint_enc(self.id as nat);
            lemma_vint_enc(encode_utf8(self.param@).len());
            lemma_size_u32(encode_utf8(self.param@).len());
        }
        let s0 = crate::sizeofs::sizeof_u32(self.id);
        let s1 = crate::sizeofs::sizeof_string(self.param.as_str());
        s0 + s1
    }

    pub fn write(&self, w: &mut crate::writer::BytesWriter) -> (r: Result<()>)
        requires
            old(w).wf(),
            self.wf(),
        ensures
            final(w).wf(),
            final(w).spec_cap() == old(w).spec_cap(),
            r is Ok <==> old(w).bytes().len() + self.spec_enc().len() <= old(w).spec_cap(),
            r is Ok ==> final(w).bytes() == old(w).bytes() + self.spec_enc(),
            r matches Err(e) ==> e is OutputBufferTooSmall,
    {
        proof {
            lemma_vint_enc(self.id as nat);
            lemma_vint_enc(encode_utf8(self.param@).len());
        }
        w.write_u32(self.id)?;
        w.write_string(self.param.as_str())?;
        proof {
            assert(w.bytes() =~= old(w).bytes() + self.spec_enc());
            w.lemma_wf_cap();
        }
        Ok(())
    }

    pub fn read(rd: &mut BytesReader, bytes: &[u8]) -> (r: Result<Self>)
        ensures
            final(rd).end == old(rd).end,
            old(rd).start <= final(rd).start,
            r is Ok ==> final(rd).start <= bytes@.len(),
            r matches Ok(x) ==> bytes@.len() < 0x10000000 ==> x.wf(),
            forall|m: c_errors| #[trigger]
                canonical_at(bytes@, old(rd).start as int, m.spec_enc()) && m.wf() ==> (r matches Ok(x)
                    && x.eqv(&m)) && final(rd).start == old(rd).start + m.spec_enc().len(),
    {
        let ghost o = rd.start as int;
        let id = match rf_u32(rd, bytes) {
            Ok(v) => v,
            Err(e) => {
                proof {
                    assert forall|m: c_errors| #[trigger]
                        canonical_at(bytes@, o, m.spec_enc()) && m.wf() implies false by {
                        c_errors_splits(bytes@, o, m);
                    }
                }
                return Err(e);
            },
        };
        let param = match rf_str(rd, bytes) {
            Ok(v) => v,
            Err(e) => {
                proof {
                    assert forall|m: c_errors| #[trigger]
                        canonical_at(bytes@, o, m.spec_enc()) && m.wf() implies false by {
                        c_errors_splits(bytes@, o, m);
                    }
                }
                return Err(e);
            },
        };
        let res = c_errors { id, param };
        proof {
            assert forall|m: c_errors| #[trigger]
                canonical_at(bytes@, o, m.spec_enc()) && m.wf() implies (res.eqv(&m) && rd.start as int
                == o + m.spec_enc().len()) by {
                c_errors_splits(bytes@, o, m);
            }
        }
        Ok(res)
    }
}

/// A load request sent to the database host.
#[allow(non_camel_case_types)]
#[derive(Debug, Clone, Default)]
pub struct db_load_req {
    pub from_host: u64,
    pub db_name: String,
    pub key: String,
    pub ret_func: u64,
    pub vfd: u64,
}

proof fn db_load_req_splits(bytes: Seq<u8>, o: int, m: db_load_req)
    requires
        canonical_at(bytes, o, m.spec_enc()),
    ensures
        canonical_at(bytes, o, vint_enc(m.from_host as nat)),
        canonical_at(bytes, o + vint_enc(m.from_host as nat).len(), enc_str(m.db_name@)),
        canonical_at(bytes, o + vint_enc(m.from_host as nat).len() + enc_str(m.db_name@).len(), enc_str(m.key@)),
        canonical_at(bytes, o + vint_enc(m.from_host as nat).len() + enc_str(m.db_name@).len() + enc_str(m.key@).len(), vint_enc(m.ret_func as nat)),
        canonical_at(bytes, o + vint_enc(m.from_host as nat).len() + enc_str(m.db_name@).len() + enc_str(m.key@).len() + vint_enc(m.ret_func as nat).len(), vint_enc(m.vfd as nat)),
{
    assert(m.spec_enc() =~= vint_enc(m.from_host as nat) + (enc_str(m.db_name@) + (enc_str(m.key@) + (vint_enc(m.ret_func as nat) + (vint_enc(m.vfd as nat))))));
    lemma_canonical_split(bytes, o, vint_enc(m.from_host as nat), enc_str(m.db_name@) + (enc_str(m.key@) + (vint_enc(m.ret_func as nat) + (vint_enc(m.vfd as nat)))));
    lemma_canonical_split(bytes, o + vint_enc(m.from_host as nat).len(), enc_str(m.db_name@), enc_str(m.key@) + (vint_enc(m.ret_func as nat) + (vint_enc(m.vfd as nat))));
    lemma_canonical_split(bytes, o + vint_enc(m.from_host as nat).len() + enc_str(m.db_name@).len(), enc_str(m.key@), vint_enc(m.ret_func as nat) + (vint_enc(m.vfd as nat)));
    lemma_canonical_split(bytes, o + vint_enc(m.from_host as nat).len() + enc_str(m.db_name@).len() + enc_str(m.key@).len(), vint_enc(m.ret_func as nat), vint_enc(m.vfd as nat));
}

impl db_load_req {
    pub fn id() -> (r: u32)
        ensures
            r == 108,
    {
        108
    }

    /// Wire form: the fields in order.
    pub open spec fn spec_enc(&self) -> Seq<u8> {
        vint_enc(self.from_host as nat) + enc_str(self.db_name@) + enc_str(self.key@) + vint_enc(self.ret_func as nat) + vint_enc(self.vfd as nat)
    }

    pub open spec fn wf(&self) -> bool {
        &&& encode_utf8(self.db_name@).len() < 0x10000000
        &&& encode_utf8(self.key@).len() < 0x10000000
    }

    /// Field-for-field equality, strings and blobs by contents.
    pub open spec fn eqv(&self, other: &Self) -> bool {
        &&& self.from_host == other.from_host
        &&& self.db_name@ == other.db_name@
        &&& self.key@ == other.key@
        &&& self.ret_func == other.ret_func
        &&& self.vfd == other.vfd
    }

    pub fn size(&self) -> (r: usize)
        requires
            self.wf(),
        ensures
            r == self.spec_enc().len(),
    {
        proof {
            lemma_vint_enc(self.from_host as nat);
            lemma_vint_enc(encode_utf8(self.db_name@).len());
            lemma_size_u32(encode_utf8(self.db_name@).len());
            lemma_vint_enc(encode_utf8(self.key@).len());
            lemma_size_u32(encode_utf8(self.key@).len());
            lemma_vint_enc(self.ret_func as nat);
            lemma_vint_enc(self.vfd as nat);
        }
        let s0 = crate::sizeofs::sizeof_u64(self.from_host);
        let s1 = crate::sizeofs::sizeof_string(self.db_name.as_str());
        let s2 = crate::sizeofs::sizeof_string(self.key.as_str());
        let s3 = crate::sizeofs::sizeof_u64(self.ret_func);
        let s4 = crate::sizeofs::sizeof_u64(self.vfd);
        s0 + s1 + s2 + s3 + s4
    }

    pub fn write(&self, w: &mut crate::writer::BytesWriter) -> (r: Result<()>)
        requires
            old(w).wf(),
            self.wf(),
        ensures
            final(w).wf(),
            final(w).spec_cap() == old(w).spec_cap(),
            r is Ok <==> old(w).bytes().len() + self.spec_enc().len() <= old(w).spec_cap(),
            r is Ok ==> final(w).bytes() == old(w).bytes() + self.spec_enc(),
            r matches Err(e) ==> e is OutputBufferTooSmall,
    {
        proof {
            lemma_vint_enc(self.from_host as nat);
            lemma_vint_enc(encode_utf8(self.db_name@).len());
            lemma_vint_enc(encode_utf8(self.key@).len());
            lemma_vint_enc(self.ret_func as nat);
            lemma_vint_enc(self.vfd as nat);
        }
        w.write_u64(self.from_host)?;
        w.write_string(self.db_name.as_str())?;
        w.write_string(self.key.as_str())?;
        w.write_u64(self.ret_func)?;
        w.write_u64(self.vfd)?;
        proof {
            assert(w.bytes() =~= old(w).bytes() + self.spec_enc());
            w.lemma_wf_cap();
        }
        Ok(())
    }

    pub fn read(rd: &mut BytesReader, bytes: &[u8]) -> (r: Result<Self>)
        ensures
            final(rd).end == old(rd).end,
            old(rd).start <= final(rd).start,
            r is Ok ==> final(rd).start <= bytes@.len(),
            r matches Ok(x) ==> bytes@.len() < 0x10000000 ==> x.wf(),
            forall|m: db_load_req| #[trigger]
                canonical_at(bytes@, old(rd).start as int, m.spec_enc()) && m.wf() ==> (r matches Ok(x)
                    && x.eqv(&m)) && final(rd).start == old(rd).start + m.spec_enc().len(),
    {
        let ghost o = rd.start as int;
        let from_host = match rf_u64(rd, bytes) {
            Ok(v) => v,
            Err(e) => {
                proof {
                    assert forall|m: db_load_req| #[trigger]
                        canonical_at(bytes@, o, m.spec_enc()) && m.wf() implies false by {
                        db_load_req_splits(bytes@, o, m);
                    }
                }
                return Err(e);
            },
        };
        let db_name = match rf_str(rd, bytes) {
            Ok(v) => v,
            Err(e) => {
                proof {
                    assert forall|m: db_load_req| #[trigger]
                        canonical_at(bytes@, o, m.spec_enc()) && m.wf() implies false by {
                        db_load_req_splits(bytes@, o, m);
                    }
                }
                return Err(e);
            },
        };
        let key = match rf_str(rd, bytes) {
            Ok(v) => v,
            Err(e) => {
                proof {
                    assert forall|m: db_load_req| #[trigger]
                        canonical_at(bytes@, o, m.spec_enc()) && m.wf() implies false by {
                        db_load_req_splits(bytes@, o, m);
                    }
                }
                return Err(e);
            },
        };
        let ret_func = match rf_u64(rd, bytes) {
            Ok(v) => v,
            Err(e) => {
                proof {
                    assert forall|m: db_load_req| #[trigger]
                        canonical_at(bytes@, o, m.spec_enc()) && m.wf() implies false by {
                        db_load_req_splits(bytes@, o, m);
                    }
                }
                return Err(e);
            },
        };
        let vfd = match rf_u64(rd, bytes) {
            Ok(v) => v,
            Err(e) => {
                proof {
                    assert forall|m: db_load_req| #[trigger]
                        canonical_at(bytes@, o, m.spec_enc()) && m.wf() implies false by {
                        db_load_req_splits(bytes@, o, m);
                    }
                }
                return Err(e);
            },
        };
        let res = db_load_req { from_host, db_name, key, ret_func, vfd };
        proof {
            assert forall|m: db_load_req| #[trigger]
                canonical_at(bytes@, o, m.spec_enc()) && m.wf() implies (res.eqv(&m) && rd.start as int
                == o + m.spec_enc().len()) by {
                db_load_req_splits(bytes@, o, m);
            }
        }
        Ok(res)
    }
}

/// A save request sent to the database host.
#[allow(non_camel_case_types)]
#[derive(Debug, Clone, Default)]
pub struct db_save_req {
    pub from_host: u64,
    pub db_name: String,
    pub key: String,
    pub value: Vec<u8>,
    pub counter: u64,
}

proof fn db_save_req_splits(bytes: Seq<u8>, o: int, m: db_save_req)
    requires
        canonical_at(bytes, o, m.spec_enc()),
    ensures
        canonical_at(bytes, o, vint_enc(m.from_host as nat)),
        canonical_at(bytes, o + vint_enc(m.from_host as nat).len(), enc_str(m.db_name@)),
        canonical_at(bytes, o + vint_enc(m.from_host as nat).len() + enc_str(m.db_name@).len(), enc_str(m.key@)),
        canonical_at(bytes, o + vint_enc(m.from_host as nat).len() + enc_str(m.db_name@).len() + enc_str(m.key@).len(), enc_bytes(m.value@)),
        canonical_at(bytes, o + vint_enc(m.from_host as nat).len() + enc_str(m.db_name@).len() + enc_str(m.key@).len() + enc_bytes(m.value@).len(), vint_enc(m.counter as nat)),
{
    assert(m.spec_enc() =~= vint_enc(m.from_host as nat) + (enc_str(m.db_name@) + (enc_str(m.key@) + (enc_bytes(m.value@) + (vint_enc(m.counter as nat))))));
    lemma_canonical_split(bytes, o, vint_enc(m.from_host as nat), enc_str(m.db_name@) + (enc_str(m.key@) + (enc_bytes(m.value@) + (vint_enc(m.counter as nat)))));
    lemma_canonical_split(bytes, o + vint_enc(m.from_host as nat).len(), enc_str(m.db_name@), enc_str(m.key@) + (enc_bytes(m.value@) + (vint_enc(m.counter as nat))));
    lemma_canonical_split(bytes, o + vint_enc(m.from_host as nat).len() + enc_str(m.db_name@).len(), enc_str(m.key@), enc_bytes(m.value@) + (vint_enc(m.counter as nat)));
    lemma_canonical_split(bytes, o + vint_enc(m.from_host as nat).len() + enc_str(m.db_name@).len() + enc_str(m.key@).len(), enc_bytes(m.value@), vint_enc(m.counter as nat));
}

impl db_save_req {
    pub fn id() -> (r: u32)
        ensures
            r == 109,
    {
        109
    }

    /// Wire form: the fields in order.
    pub open spec fn spec_enc(&self) -> Seq<u8> {
        vint_enc(self.from_host as nat) + enc_str(self.db_name@) + enc_str(self.key@) + enc_bytes(self.value@) + vint_enc(self.counter as nat)
    }

    pub open spec fn wf(&self) -> bool {
        &&& encode_utf8(self.db_name@).len() < 0x10000000
        &&& encode_utf8(self.key@).len() < 0x10000000
        &&& self.value@.len() < 0x10000000
    }

    /// Field-for-field equality, strings and blobs by contents.
    pub open spec fn eqv(&self, other: &Self) -> bool {
        &&& self.from_host == other.from_host
        &&& self.db_name@ == other.db_name@
        &&& self.key@ == other.key@
        &&& self.value@ == other.value@
        &&& self.counter == other.counter
    }

    pub fn size(&self) -> (r: usize)
        requires
            self.wf(),
        ensures
            r == self.spec_enc().len(),
    {
        proof {
            lemma_vint_enc(self.from_host as nat);
            lemma_vint_enc(encode_utf8(self.db_name@).len());
            lemma_size_u32(encode_utf8(self.db_name@).len());
            lemma_vint_enc(encode_utf8(self.key@).len());
            lemma_size_u32(encode_utf8(self.key@).len());
            lemma_vint_enc(self.value@.len());
            lemma_size_u32(self.value@.len());
            lemma_vint_enc(self.counter as nat);
        }
        let s0 = crate::sizeofs::sizeof_u64(self.from_host);
        let s1 = crate::sizeofs::sizeof_string(self.db_name.as_str());
        let s2 = crate::sizeofs::sizeof_string(self.key.as_str());
        let l3 = self.value.len();
        let s3 = l3 + crate::sizeofs::sizeof_len(l3);
        let s4 = crate::sizeofs::sizeof_u64(self.counter);
        s0 + s1 + s2 + s3 + s4
    }

    pub fn write(&self, w: &mut crate::writer::BytesWriter) -> (r: Result<()>)
        requires
            old(w).wf(),
            self.wf(),
        ensures
            final(w).wf(),
            final(w).spec_cap() == old(w).spec_cap(),
            r is Ok <==> old(w).bytes().len() + self.spec_enc().len() <= old(w).spec_cap(),
            r is Ok ==> final(w).bytes() == old(w).bytes() + self.spec_enc(),
            r matches Err(e) ==> e is OutputBufferTooSmall,
    {
        proof {
            lemma_vint_enc(self.from_host as nat);
            lemma_vint_enc(encode_utf8(self.db_name@).len());
            lemma_vint_enc(encode_utf8(self.key@).len());
            lemma_vint_enc(self.value@.len());
            lemma_vint_enc(self.counter as nat);
        }
        w.write_u64(self.from_host)?;
        w.write_string(self.db_name.as_str())?;
        w.write_string(self.key.as_str())?;
        w.write_bytes(self.value.as_slice())?;
        w.write_u64(self.counter)?;
        proof {
            assert(w.bytes() =~= old(w).bytes() + self.spec_enc());
            w.lemma_wf_cap();
        }
        Ok(())
    }

    pub fn read(rd: &mut BytesReader, bytes: &[u8]) -> (r: Result<Self>)
        ensures
            final(rd).end == old(rd).end,
            old(rd).start <= final(rd).start,
            r is Ok ==> final(rd).start <= bytes@.len(),
            r matches Ok(x) ==> bytes@.len() < 0x10000000 ==> x.wf(),
            forall|m: db_save_req| #[trigger]
                canonical_at(bytes@, old(rd).start as int, m.spec_enc()) && m.wf() ==> (r matches Ok(x)
                    && x.eqv(&m)) && final(rd).start == old(rd).start + m.spec_enc().len(),
    {
        let ghost o = rd.start as int;
        let from_host = match rf_u64(rd, bytes) {
            Ok(v) => v,
            Err(e) => {
                proof {
                    assert forall|m: db_save_req| #[trigger]
                        canonical_at(bytes@, o, m.spec_enc()) && m.wf() implies false by {
                        db_save_req_splits(bytes@, o, m);
                    }
                }
                return Err(e);
            },
        };
        let db_name = match rf_str(rd, bytes) {
            Ok(v) => v,
            Err(e) => {
                proof {
                    assert forall|m: db_save_req| #[trigger]
                        canonical_at(bytes@, o, m.spec_enc()) && m.wf() implies false by {
                        db_save_req_splits(bytes@, o, m);
                    }
                }
                return Err(e);
            },
        };
        let key = match rf_str(rd, bytes) {
            Ok(v) => v,
            Err(e) => {
                proof {
                    assert forall|m: db_save_req| #[trigger]
                        canonical_at(bytes@, o, m.spec_enc()) && m.wf() implies false by {
                        db_save_req_splits(bytes@, o, m);
                    }
                }
                return Err(e);
            },
        };
        let value = match rf_bytes(rd, bytes) {
            Ok(v) => v,
            Err(e) => {
                proof {
                    assert forall|m: db_save_req| #[trigger]
                        canonical_at(bytes@, o, m.spec_enc()) && m.wf() implies false by {
                        db_save_req_splits(bytes@, o, m);
                    }
                }
                return Err(e);
            },
        };
        let counter = match rf_u64(rd, bytes) {
            Ok(v) => v,
            Err(e) => {
                proof {
                    assert forall|m: db_save_req| #[trigger]
                        canonical_at(bytes@, o, m.spec_enc()) && m.wf() implies false by {
                        db_save_req_splits(bytes@, o, m);
                    }
                }
                return Err(e);
            },
        };
        let res = db_save_req { from_host, db_name, key, value, counter };
        proof {
            assert forall|m: db_save_req| #[trigger]
                canonical_at(bytes@, o, m.spec_enc()) && m.wf() implies (res.eqv(&m) && rd.start as int
                == o + m.spec_enc().len()) by {
                db_save_req_splits(bytes@, o, m);
            }
        }
        Ok(res)
    }
}

/// The database host's answer to a load request.
#[allow(non_camel_case_types)]
#[derive(Debug, Clone, Default)]
pub struct db_load_resp {
    pub key: String,
    pub value: Vec<u8>,
    pub counter: u64,
    pub ret_func: u64,
    pub vfd: u64,
}

proof fn db_load_resp_splits(bytes: Seq<u8>, o: int, m: db_load_resp)
    requires
        canonical_at(bytes, o, m.spec_enc()),
    ensures
        canonical_at(bytes, o, enc_str(m.key@)),
        canonical_at(bytes, o + enc_str(m.key@).len(), enc_bytes(m.value@)),
        canonical_at(bytes, o + enc_str(m.key@).len() + enc_bytes(m.value@).len(), vint_enc(m.counter as nat)),
        canonical_at(bytes, o + enc_str(m.key@).len() + enc_bytes(m.value@).len() + vint_enc(m.counter as nat).len(), vint_enc(m.ret_func as nat)),
        canonical_at(bytes, o + enc_str(m.key@).len() + enc_bytes(m.value@).len() + vint_enc(m.counter as nat).len() + vint_enc(m.ret_func as nat).len(), vint_enc(m.vfd as nat)),
{
    assert(m.spec_enc() =~= enc_str(m.key@) + (enc_bytes(m.value@) + (vint_enc(m.counter as nat) + (vint_enc(m.ret_func as nat) + (vint_enc(m.vfd as nat))))));
    lemma_canonical_split(bytes, o, enc_str(m.key@), enc_bytes(m.value@) + (vint_enc(m.counter as nat) + (vint_enc(m.ret_func as nat) + (vint_enc(m.vfd as nat)))));
    lemma_canonical_split(bytes, o + enc_str(m.key@).len(), enc_bytes(m.value@), vint_enc(m.counter as nat) + (vint_enc(m.ret_func as nat) + (vint_enc(m.vfd as nat))));
    lemma_canonical_split(bytes, o + enc_str(m.key@).len() + enc_bytes(m.value@).len(), vint_enc(m.counter as nat), vint_enc(m.ret_func as nat) + (vint_enc(m.vfd as nat)));
    lemma_canonical_split(bytes, o + enc_str(m.key@).len() + enc_bytes(m.value@).len() + vint_enc(m.counter as nat).len(), vint_enc(m.ret_func as nat), vint_enc(m.vfd as nat));
}

impl db_load_resp {
    pub fn id() -> (r: u32)
        ensures
            r == 110,
    {
        110
    }

    /// Wire form: the fields in order.
    pub open spec fn spec_enc(&self) -> Seq<u8> {
        enc_str(self.key@) + enc_bytes(self.value@) + vint_enc(self.counter as nat) + vint_enc(self.ret_func as nat) + vint_enc(self.vfd as nat)
    }

    pub open spec fn wf(&self) -> bool {
        &&& encode_utf8(self.key@).len() < 0x10000000
        &&& self.value@.len() < 0x10000000
    }

    /// Field-for-field equality, strings and blobs by contents.
    pub open spec fn eqv(&self, other: &Self) -> bool {
        &&& self.key@ == other.key@
        &&& self.value@ == other.value@
        &&& self.counter == other.counter
        &&& self.ret_func == other.ret_func
        &&& self.vfd == other.vfd
    }

    pub fn size(&self) -> (r: usize)
        requires
            self.wf(),
        ensures
            r == self.spec_enc().len(),
    {
        proof {
            lemma_vint_enc(encode_utf8(self.key@).len());
            lemma_size_u32(encode_utf8(self.key@).len());
            lemma_vint_enc(self.value@.len());
            lemma_size_u32(self.value@.len());
            lemma_vint_enc(self.counter as nat);
            lemma_vint_enc(self.ret_func as nat);
            lemma_vint_enc(self.vfd as nat);
        }
        let s0 = crate::sizeofs::sizeof_string(self.key.as_str());
        let l1 = self.value.len();
        let s1 = l1 + crate::sizeofs::sizeof_len(l1);
        let s2 = crate::sizeofs::sizeof_u64(self.counter);
        let s3 = crate::sizeofs::sizeof_u64(self.ret_func);
        let s4 = crate::sizeofs::sizeof_u64(self.vfd);
        s0 + s1 + s2 + s3 + s4
    }

    pub fn write(&self, w: &mut crate::writer::BytesWriter) -> (r: Result<()>)
        requires
            old(w).wf(),
            self.wf(),
        ensures
            final(w).wf(),
            final(w).spec_cap() == old(w).spec_cap(),
            r is Ok <==> old(w).bytes().len() + self.spec_enc().len() <= old(w).spec_cap(),
            r is Ok ==> final(w).bytes() == old(w).bytes() + self.spec_enc(),
            r matches Err(e) ==> e is OutputBufferTooSmall,
    {
        proof {
            lemma_vint_enc(encode_utf8(self.key@).len());
            lemma_vint_enc(self.value@.len());
            lemma_vint_enc(self.counter as nat);
            lemma_vint_enc(self.ret_func as nat);
            lemma_vint_enc(self.vfd as nat);
        }
        w.write_string(self.key.as_str())?;
        w.write_bytes(self.value.as_slice())?;
        w.write_u64(self.counter)?;
        w.write_u64(self.ret_func)?;
        w.write_u64(self.vfd)?;
        proof {
            assert(w.bytes() =~= old(w).bytes() + self.spec_enc());
            w.lemma_wf_cap();
        }
        Ok(())
    }

    pub fn read(rd: &mut BytesReader, bytes: &[u8]) -> (r: Result<Self>)
        ensures
            final(rd).end == old(rd).end,
            old(rd).start <= final(rd).start,
            r is Ok ==> final(rd).start <= bytes@.len(),
            r matches Ok(x) ==> bytes@.len() < 0x10000000 ==> x.wf(),
            forall|m: db_load_resp| #[trigger]
                canonical_at(bytes@, old(rd).start as int, m.spec_enc()) && m.wf() ==> (r matches Ok(x)
                    && x.eqv(&m)) && final(rd).start == old(rd).start + m.spec_enc().len(),
    {
        let ghost o = rd.start as int;
        let key = match rf_str(rd, bytes) {
            Ok(v) => v,
            Err(e) => {
                proof {
                    assert forall|m: db_load_resp| #[trigger]
                        canonical_at(bytes@, o, m.spec_enc()) && m.wf() implies false by {
                        db_load_resp_splits(bytes@, o, m);
                    }
                }
                return Err(e);
            },
        };
        let value = match rf_bytes(rd, bytes) {
            Ok(v) => v,
            Err(e) => {
                proof {
                    assert forall|m: db_load_resp| #[trigger]
                        canonical_at(bytes@, o, m.spec_enc()) && m.wf() implies false by {
                        db_load_resp_splits(bytes@, o, m);
                    }
                }
                return Err(e);
            },
        };
        let counter = match rf_u64(rd, bytes) {
            Ok(v) => v,
            Err(e) => {
                proof {
                    assert forall|m: db_load_resp| #[trigger]
                        canonical_at(bytes@, o, m.spec_enc()) && m.wf() implies false by {
                        db_load_resp_splits(bytes@, o, m);
                    }
                }
                return Err(e);
            },
        };
        let ret_func = match rf_u64(rd, bytes) {
            Ok(v) => v,
            Err(e) => {
                proof {
                    assert forall|m: db_load_resp| #[trigger]
                        canonical_at(bytes@, o, m.spec_enc()) && m.wf() implies false by {
                        db_load_resp_splits(bytes@, o, m);
                    }
                }
                return Err(e);
            },
        };
        let vfd = match rf_u64(rd, bytes) {
            Ok(v) => v,
            Err(e) => {
                proof {
                    assert forall|m: db_load_resp| #[trigger]
                        canonical_at(bytes@, o, m.spec_enc()) && m.wf() implies false by {
                        db_load_resp_splits(bytes@, o, m);
                    }
                }
                return Err(e);
            },
        };
        let res = db_load_resp { key, value, counter, ret_func, vfd };
        proof {
            assert forall|m: db_load_resp| #[trigger]
                canonical_at(bytes@, o, m.spec_enc()) && m.wf() implies (res.eqv(&m) && rd.start as int
                == o + m.spec_enc().len()) by {
                db_load_resp_splits(bytes@, o, m);
            }
        }
        Ok(res)
    }
}

} // verus!

// --- the bag listing, a message with a repeated field ---

verus! {

/// Encoding of a run of items, one after the other.
pub open spec fn enc_items_rec(items: Seq<item_info>) -> Seq<u8>
    decreases items.len(),
{
    if items.len() == 0 {
        Seq::<u8>::empty()
    } else {
        items[0].spec_enc() + enc_items_rec(items.skip(1))
    }
}

/// Encoding of a repeated field: the count, then the elements.
pub open spec fn enc_items(items: Seq<item_info>) -> Seq<u8> {
    vint_enc(items.len()) + enc_items_rec(items)
}

/// Appending one item appends its encoding.
pub proof fn lemma_enc_items_rec_push(items: Seq<item_info>, x: item_info)
    ensures
        enc_items_rec(items.push(x)) == enc_items_rec(items) + x.spec_enc(),
    decreases items.len(),
{
    if items.len() == 0 {
        assert(items.push(x).skip(1) =~= Seq::<item_info>::empty());
        assert(items.push(x)[0] == x);
        assert(enc_items_rec(Seq::<item_info>::empty()) =~= Seq::<u8>::empty());
        assert(enc_items_rec(items.push(x)) =~= x.spec_enc());
        assert(enc_items_rec(items) + x.spec_enc() =~= x.spec_enc());
    } else {
        lemma_enc_items_rec_push(items.skip(1), x);
        assert(items.push(x).skip(1) =~= items.skip(1).push(x));
        assert(items.push(x)[0] == items[0]);
        assert(items[0].spec_enc() + (enc_items_rec(items.skip(1)) + x.spec_enc())
            =~= (items[0].spec_enc() + enc_items_rec(items.skip(1))) + x.spec_enc());
    }
}

/// A run of items splits at any index into two runs.
pub proof fn lemma_enc_items_rec_split(items: Seq<item_info>, i: int)
    requires
        0 <= i <= items.len(),
    ensures
        enc_items_rec(items) == enc_items_rec(items.subrange(0, i)) + enc_items_rec(
            items.subrange(i, items.len() as int),
        ),
    decreases i,
{
    if i == 0 {
        assert(items.subrange(0, 0) =~= Seq::<item_info>::empty());
        assert(items.subrange(0, items.len() as int) =~= items);
        assert(enc_items_rec(items.subrange(0, 0)) + enc_items_rec(
            items.subrange(0, items.len() as int),
        ) =~= enc_items_rec(items));
    } else {
        lemma_enc_items_rec_split(items, i - 1);
        assert(items.subrange(0, i) =~= items.subrange(0, i - 1).push(items[i - 1]));
        lemma_enc_items_rec_push(items.subrange(0, i - 1), items[i - 1]);
        // the tail run at i - 1 begins with item i - 1
        let tail = items.subrange(i - 1, items.len() as int);
        assert(tail[0] == items[i - 1]);
        assert(tail.skip(1) =~= items.subrange(i, items.len() as int));
        assert(enc_items_rec(items) =~= (enc_items_rec(items.subrange(0, i - 1)) + items[i
            - 1].spec_enc()) + enc_items_rec(items.subrange(i, items.len() as int)));
    }
}

/// Every item encodes in at least one byte, so a run is at least as long as
/// its count.
pub proof fn lemma_enc_items_rec_min_len(items: Seq<item_info>)
    ensures
        enc_items_rec(items).len() >= items.len(),
    decreases items.len(),
{
    if items.len() > 0 {
        lemma_enc_items_rec_min_len(items.skip(1));
        lemma_vint_enc(items[0].uid as nat);
        lemma_vint_enc(items[0].id as nat);
        lemma_vint_enc(((items[0].stack as u32)) as nat);
    }
}

/// A listing of one bag's contents, sent back to the player.
#[allow(non_camel_case_types)]
#[derive(Debug, Clone, Default)]
pub struct c_item_bag {
    pub bagtype: u8,
    pub uid: u64,
    pub baginfo: Vec<item_info>,
}

impl c_item_bag {
    pub fn id() -> (r: u32)
        ensures
            r == 106,
    {
        106
    }

    /// Wire form: bag type, owner uid, then the repeated items.
    pub open spec fn spec_enc(&self) -> Seq<u8> {
        seq![self.bagtype] + vint_enc(self.uid as nat) + enc_items(self.baginfo@)
    }

    pub open spec fn wf(&self) -> bool {
        self.baginfo@.len() < 0x10000000
    }

    /// Field-for-field equality, the item list element by element.
    pub open spec fn eqv(&self, other: &Self) -> bool {
        &&& self.bagtype == other.bagtype
        &&& self.uid == other.uid
        &&& self.baginfo@ == other.baginfo@
    }

    #[verifier::loop_isolation(false)]
    pub fn size(&self) -> (r: usize)
        requires
            self.wf(),
            self.spec_enc().len() <= usize::MAX,
        ensures
            r == self.spec_enc().len(),
    {
        proof {
            lemma_vint_enc(self.uid as nat);
            lemma_vint_enc(self.baginfo@.len());
            lemma_size_u32(self.baginfo@.len());
        }
        let n = self.baginfo.len();
        let mut total: usize = 1;
        let a = crate::sizeofs::sizeof_u64(self.uid);
        let b = crate::sizeofs::sizeof_len(n);
        proof {
            lemma_enc_items_rec_split(self.baginfo@, 0);
        }
        total = total + a + b;
        let mut i: usize = 0;
        while i < n
            invariant
                i <= n,
                total == 1 + vint_enc(self.uid as nat).len() + vint_enc(self.baginfo@.len()).len()
                    + enc_items_rec(self.baginfo@.subrange(0, i as int)).len(),
            decreases n - i,
        {
            proof {
                lemma_enc_items_rec_split(self.baginfo@, i + 1);
                lemma_enc_items_rec_split(self.baginfo@, i as int);
                assert(self.baginfo@.subrange(0, i + 1) =~= self.baginfo@.subrange(
                    0,
                    i as int,
                ).push(self.baginfo@[i as int]));
                lemma_enc_items_rec_push(self.baginfo@.subrange(0, i as int), self.baginfo@[i as int]);
                // what is counted so far plus what remains is the whole
                assert(self.baginfo@.subrange(i + 1, self.baginfo@.len() as int).len()
                    == self.baginfo@.len() - i - 1);
            }
            let s = self.baginfo[i].size();
            proof {
                assert(enc_items_rec(self.baginfo@).len() >= enc_items_rec(
                    self.baginfo@.subrange(0, i + 1),
                ).len()) by {
                    lemma_enc_items_rec_split(self.baginfo@, i + 1);
                }
            }
            total = total + s;
            i = i + 1;
        }
        proof {
            assert(self.baginfo@.subrange(0, n as int) =~= self.baginfo@);
        }
        total
    }

    #[verifier::loop_isolation(false)]
    pub fn write(&self, w: &mut crate::writer::BytesWriter) -> (r: Result<()>)
        requires
            old(w).wf(),
            self.wf(),
        ensures
            final(w).wf(),
            final(w).spec_cap() == old(w).spec_cap(),
            r is Ok <==> old(w).bytes().len() + self.spec_enc().len() <= old(w).spec_cap(),
            r is Ok ==> final(w).bytes() == old(w).bytes() + self.spec_enc(),
            r matches Err(e) ==> e is OutputBufferTooSmall,
    {
        proof {
            lemma_vint_enc(self.uid as nat);
            lemma_vint_enc(self.baginfo@.len());
            lemma_size_u32(self.baginfo@.len());
            lemma_enc_items_rec_split(self.baginfo@, 0);
        }
        let n = self.baginfo.len();
        w.write_u8(self.bagtype)?;
        w.write_u64(self.uid)?;
        w.write_len(n)?;
        let mut i: usize = 0;
        while i < n
            invariant
                i <= n,
                w.wf(),
                w.spec_cap() == old(w).spec_cap(),
                w.bytes() == old(w).bytes() + seq![self.bagtype] + vint_enc(self.uid as nat)
                    + vint_enc(self.baginfo@.len()) + enc_items_rec(
                    self.baginfo@.subrange(0, i as int),
                ),
            decreases n - i,
        {
            proof {
                lemma_enc_items_rec_split(self.baginfo@, i as int);
                assert(self.baginfo@.subrange(i as int, self.baginfo@.len() as int)[0]
                    == self.baginfo@[i as int]);
                assert(self.baginfo@.subrange(i as int, self.baginfo@.len() as int).skip(1)
                    =~= self.baginfo@.subrange(i + 1, self.baginfo@.len() as int));
            }
            match self.baginfo[i].write(w) {
                Ok(_) => {},
                Err(e) => {
                    return Err(e);
                },
            }
            proof {
                assert(self.baginfo@.subrange(0, i + 1) =~= self.baginfo@.subrange(
                    0,
                    i as int,
                ).push(self.baginfo@[i as int]));
                lemma_enc_items_rec_push(self.baginfo@.subrange(0, i as int), self.baginfo@[i as int]);
                assert(w.bytes() =~= old(w).bytes() + seq![self.bagtype] + vint_enc(
                    self.uid as nat,
                ) + vint_enc(self.baginfo@.len()) + enc_items_rec(
                    self.baginfo@.subrange(0, i + 1),
                ));
            }
            i = i + 1;
        }
        proof {
            assert(self.baginfo@.subrange(0, n as int) =~= self.baginfo@);
            assert(w.bytes() =~= old(w).bytes() + self.spec_enc());
            w.lemma_wf_cap();
        }
        Ok(())
    }
}

} // verus!

// --- reading the bag listing ---

verus! {

/// Each part of the bag listing stands whole at its own offset.
proof fn c_item_bag_splits(bytes: Seq<u8>, o: int, m: c_item_bag)
    requires
        canonical_at(bytes, o, m.spec_enc()),
    ensures
        canonical_at(bytes, o, seq![m.bagtype]),
        canonical_at(bytes, o + 1, vint_enc(m.uid as nat)),
        canonical_at(bytes, o + 1 + vint_enc(m.uid as nat).len(), vint_enc(m.baginfo@.len())),
        canonical_at(
            bytes,
            o + 1 + vint_enc(m.uid as nat).len() + vint_enc(m.baginfo@.len()).len(),
            enc_items_rec(m.baginfo@),
        ),
{
    assert(m.spec_enc() =~= seq![m.bagtype] + (vint_enc(m.uid as nat) + (vint_enc(
        m.baginfo@.len(),
    ) + enc_items_rec(m.baginfo@))));
    lemma_canonical_split(
        bytes,
        o,
        seq![m.bagtype],
        vint_enc(m.uid as nat) + (vint_enc(m.baginfo@.len()) + enc_items_rec(m.baginfo@)),
    );
    lemma_canonical_split(
        bytes,
        o + 1,
        vint_enc(m.uid as nat),
        vint_enc(m.baginfo@.len()) + enc_items_rec(m.baginfo@),
    );
    lemma_canonical_split(
        bytes,
        o + 1 + vint_enc(m.uid as nat).len(),
        vint_enc(m.baginfo@.len()),
        enc_items_rec(m.baginfo@),
    );
}

impl c_item_bag {
    #[verifier::loop_isolation(false)]
    pub fn read(rd: &mut BytesReader, bytes: &[u8]) -> (r: Result<Self>)
        ensures
            final(rd).end == old(rd).end,
            old(rd).start <= final(rd).start,
            r is Ok ==> final(rd).start <= bytes@.len(),
            r matches Ok(x) ==> bytes@.len() < 0x10000000 ==> x.wf(),
            forall|m: c_item_bag| #[trigger]
                canonical_at(bytes@, old(rd).start as int, m.spec_enc()) && m.wf() ==> (r matches Ok(
                    x,
                ) && x.eqv(&m)) && final(rd).start == old(rd).start + m.spec_enc().len(),
    {
        let ghost o = rd.start as int;
        let bagtype = match rf_u8(rd, bytes) {
            Ok(v) => v,
            Err(e) => {
                proof {
                    assert forall|m: c_item_bag| #[trigger]
                        canonical_at(bytes@, o, m.spec_enc()) && m.wf() implies false by {
                        c_item_bag_splits(bytes@, o, m);
                    }
                }
                return Err(e);
            },
        };
        let uid = match rf_u64(rd, bytes) {
            Ok(v) => v,
            Err(e) => {
                proof {
                    assert forall|m: c_item_bag| #[trigger]
                        canonical_at(bytes@, o, m.spec_enc()) && m.wf() implies false by {
                        c_item_bag_splits(bytes@, o, m);
                    }
                }
                return Err(e);
            },
        };
        let cnt32 = match rf_u32(rd, bytes) {
            Ok(v) => v,
            Err(e) => {
                proof {
                    assert forall|m: c_item_bag| #[trigger]
                        canonical_at(bytes@, o, m.spec_enc()) && m.wf() implies false by {
                        c_item_bag_splits(bytes@, o, m);
                        let c = m.baginfo@.len() as u32;
                        assert(vint_enc(c as nat) == vint_enc(m.baginfo@.len()));
                    }
                }
                return Err(e);
            },
        };
        let cnt = cnt32 as usize;
        let ghost items_o = rd.start as int;
        proof {
            assert forall|m: c_item_bag| #[trigger]
                canonical_at(bytes@, o, m.spec_enc()) && m.wf() implies cnt == m.baginfo@.len()
                && items_o == o + 1 + vint_enc(m.uid as nat).len() + vint_enc(
                m.baginfo@.len(),
            ).len() by {
                c_item_bag_splits(bytes@, o, m);
                let c = m.baginfo@.len() as u32;
                assert(vint_enc(c as nat) == vint_enc(m.baginfo@.len()));
            }
        }
        let mut items: Vec<item_info> = Vec::new();
        let mut i: usize = 0;
        proof {
            assert(enc_items_rec(Seq::<item_info>::empty()) =~= Seq::<u8>::empty());
        }
        while i < cnt
            invariant
                i <= cnt,
                rd.end == old(rd).end,
                items_o <= rd.start,
                rd.start <= bytes@.len(),
                items@.len() == i,
                rd.start - items_o >= i,
                forall|m: c_item_bag| #[trigger]
                    canonical_at(bytes@, o, m.spec_enc()) && m.wf() ==> {
                        &&& items@ == m.baginfo@.subrange(0, i as int)
                        &&& rd.start == items_o + enc_items_rec(
                            m.baginfo@.subrange(0, i as int),
                        ).len()
                    },
            decreases cnt - i,
        {
            let it = match item_info::read(rd, bytes) {
                Ok(v) => v,
                Err(e) => {
                    proof {
                        assert forall|m: c_item_bag| #[trigger]
                            canonical_at(bytes@, o, m.spec_enc()) && m.wf() implies false by {
                            c_item_bag_splits(bytes@, o, m);
                            lemma_enc_items_rec_split(m.baginfo@, i as int);
                            lemma_canonical_split(
                                bytes@,
                                items_o,
                                enc_items_rec(m.baginfo@.subrange(0, i as int)),
                                enc_items_rec(
                                    m.baginfo@.subrange(i as int, m.baginfo@.len() as int),
                                ),
                            );
                            let tail = m.baginfo@.subrange(i as int, m.baginfo@.len() as int);
                            assert(tail[0] == m.baginfo@[i as int]);
                            assert(tail.skip(1) =~= m.baginfo@.subrange(
                                i + 1,
                                m.baginfo@.len() as int,
                            ));
                            lemma_canonical_split(
                                bytes@,
                                items_o + enc_items_rec(m.baginfo@.subrange(0, i as int)).len(),
                                m.baginfo@[i as int].spec_enc(),
                                enc_items_rec(m.baginfo@.subrange(i + 1, m.baginfo@.len() as int)),
                            );
                        }
                    }
                    return Err(e);
                },
            };
            items.push(it);
            proof {
                assert forall|m: c_item_bag| #[trigger]
                    canonical_at(bytes@, o, m.spec_enc()) && m.wf() implies items@
                    == m.baginfo@.subrange(0, i + 1) && rd.start == items_o + enc_items_rec(
                    m.baginfo@.subrange(0, i + 1),
                ).len() by {
                    c_item_bag_splits(bytes@, o, m);
                    lemma_enc_items_rec_split(m.baginfo@, i as int);
                    lemma_canonical_split(
                        bytes@,
                        items_o,
                        enc_items_rec(m.baginfo@.subrange(0, i as int)),
                        enc_items_rec(m.baginfo@.subrange(i as int, m.baginfo@.len() as int)),
                    );
                    let tail = m.baginfo@.subrange(i as int, m.baginfo@.len() as int);
                    assert(tail[0] == m.baginfo@[i as int]);
                    assert(tail.skip(1) =~= m.baginfo@.subrange(i + 1, m.baginfo@.len() as int));
                    lemma_canonical_split(
                        bytes@,
                        items_o + enc_items_rec(m.baginfo@.subrange(0, i as int)).len(),
                        m.baginfo@[i as int].spec_enc(),
                        enc_items_rec(m.baginfo@.subrange(i + 1, m.baginfo@.len() as int)),
                    );
                    assert(it == m.baginfo@[i as int]);
                    assert(m.baginfo@.subrange(0, i + 1) =~= m.baginfo@.subrange(0, i as int).push(
                        m.baginfo@[i as int],
                    ));
                    lemma_enc_items_rec_push(
                        m.baginfo@.subrange(0, i as int),
                        m.baginfo@[i as int],
                    );
                    assert(items@ == m.baginfo@.subrange(0, i as int).push(it));
                }
            }
            i = i + 1;
        }
        let res = c_item_bag { bagtype, uid, baginfo: items };
        proof {
            assert forall|m: c_item_bag| #[trigger]
                canonical_at(bytes@, o, m.spec_enc()) && m.wf() implies res.eqv(&m)
                && rd.start as int == o + m.spec_enc().len() by {
                c_item_bag_splits(bytes@, o, m);
                assert(m.baginfo@.subrange(0, cnt as int) =~= m.baginfo@);
            }
        }
        Ok(res)
    }
}

} // verus!

// --- the closed protocol sum type ---

verus! {

/// The protocol version fingerprint this message set was built with. A
/// connecting client presents its own; login is refused on a mismatch.
pub const PROTO_VERSION: &'static str = "6ef29ab94cfb2a36ee5a22f14ba4ae1d";

/// True exactly for the version fingerprint this build carries.
pub fn is_proto_version(vers: &str) -> (r: bool)
    ensures
        r == (vers@ == PROTO_VERSION@),
{
    crate::strutil::str_eq(vers, PROTO_VERSION)
}

/// One decoded message: the unit that moves between reader, dispatch loop
/// and writer.
#[allow(non_camel_case_types)]
#[derive(Debug, Clone)]
pub enum ProtoType {
    s_login(s_login),
    c_login(c_login),
    s_player_brief(s_player_brief),
    c_player_brief(c_player_brief),
    s_item_bag(s_item_bag),
    c_item_bag(c_item_bag),
    c_errors(c_errors),
    db_load_req(db_load_req),
    db_save_req(db_save_req),
    db_load_resp(db_load_resp),
}

/// The message type ids this build knows.
pub open spec fn known_id(id: u32) -> bool {
    101 <= id <= 110
}

impl ProtoType {
    /// The wire id of the carried message.
    pub open spec fn spec_id(&self) -> u32 {
        match self {
            ProtoType::s_login(_) => 101,
            ProtoType::c_login(_) => 102,
            ProtoType::s_player_brief(_) => 103,
            ProtoType::c_player_brief(_) => 104,
            ProtoType::s_item_bag(_) => 105,
            ProtoType::c_item_bag(_) => 106,
            ProtoType::c_errors(_) => 107,
            ProtoType::db_load_req(_) => 108,
            ProtoType::db_save_req(_) => 109,
            ProtoType::db_load_resp(_) => 110,
        }
    }

    /// The body encoding of the carried message.
    pub open spec fn spec_enc(&self) -> Seq<u8> {
        match self {
            ProtoType::s_login(m) => m.spec_enc(),
            ProtoType::c_login(m) => m.spec_enc(),
            ProtoType::s_player_brief(m) => m.spec_enc(),
            ProtoType::c_player_brief(m) => m.spec_enc(),
            ProtoType::s_item_bag(m) => m.spec_enc(),
            ProtoType::c_item_bag(m) => m.spec_enc(),
            ProtoType::c_errors(m) => m.spec_enc(),
            ProtoType::db_load_req(m) => m.spec_enc(),
            ProtoType::db_save_req(m) => m.spec_enc(),
            ProtoType::db_load_resp(m) => m.spec_enc(),
        }
    }

    pub open spec fn wf(&self) -> bool {
        match self {
            ProtoType::s_login(m) => m.wf(),
            ProtoType::c_login(m) => m.wf(),
            ProtoType::s_player_brief(m) => m.wf(),
            ProtoType::c_player_brief(m) => m.wf(),
            ProtoType::s_item_bag(m) => m.wf(),
            ProtoType::c_item_bag(m) => m.wf(),
            ProtoType::c_errors(m) => m.wf(),
            ProtoType::db_load_req(m) => m.wf(),
            ProtoType::db_save_req(m) => m.wf(),
            ProtoType::db_load_resp(m) => m.wf(),
        }
    }

    /// Same variant, and the carried messages agree field for field.
    pub open spec fn eqv(&self, other: &Self) -> bool {
        match (self, other) {
            (ProtoType::s_login(a), ProtoType::s_login(b)) => a.eqv(b),
            (ProtoType::c_login(a), ProtoType::c_login(b)) => a.eqv(b),
            (ProtoType::s_player_brief(a), ProtoType::s_player_brief(b)) => a.eqv(b),
            (ProtoType::c_player_brief(a), ProtoType::c_player_brief(b)) => a.eqv(b),
            (ProtoType::s_item_bag(a), ProtoType::s_item_bag(b)) => a.eqv(b),
            (ProtoType::c_item_bag(a), ProtoType::c_item_bag(b)) => a.eqv(b),
            (ProtoType::c_errors(a), ProtoType::c_errors(b)) => a.eqv(b),
            (ProtoType::db_load_req(a), ProtoType::db_load_req(b)) => a.eqv(b),
            (ProtoType::db_save_req(a), ProtoType::db_save_req(b)) => a.eqv(b),
            (ProtoType::db_load_resp(a), ProtoType::db_load_resp(b)) => a.eqv(b),
            _ => false,
        }
    }

    /// The name used by the dispatch tables.
    pub open spec fn spec_name(&self) -> Seq<char> {
        match self {
            ProtoType::s_login(_) => "s_login"@,
            ProtoType::c_login(_) => "c_login"@,
            ProtoType::s_player_brief(_) => "s_player_brief"@,
            ProtoType::c_player_brief(_) => "c_player_brief"@,
            ProtoType::s_item_bag(_) => "s_item_bag"@,
            ProtoType::c_item_bag(_) => "c_item_bag"@,
            ProtoType::c_errors(_) => "c_errors"@,
            ProtoType::db_load_req(_) => "db_load_req"@,
            ProtoType::db_save_req(_) => "db_save_req"@,
            ProtoType::db_load_resp(_) => "db_load_resp"@,
        }
    }

    /// The wire id and dispatch name of the carried message.
    pub fn inner_info(&self) -> (r: (u32, &'static str))
        ensures
            r.0 == self.spec_id(),
            r.1@ == self.spec_name(),
    {
        match self {
            ProtoType::s_login(_) => (101, "s_login"),
            ProtoType::c_login(_) => (102, "c_login"),
            ProtoType::s_player_brief(_) => (103, "s_player_brief"),
            ProtoType::c_player_brief(_) => (104, "c_player_brief"),
            ProtoType::s_item_bag(_) => (105, "s_item_bag"),
            ProtoType::c_item_bag(_) => (106, "c_item_bag"),
            ProtoType::c_errors(_) => (107, "c_errors"),
            ProtoType::db_load_req(_) => (108, "db_load_req"),
            ProtoType::db_save_req(_) => (109, "db_save_req"),
            ProtoType::db_load_resp(_) => (110, "db_load_resp"),
        }
    }
}

/// Encodes one message into exactly its wire body.
pub fn serialize(pto: &ProtoType) -> (r: Result<Vec<u8>>)
    requires
        pto.wf(),
        pto.spec_enc().len() <= usize::MAX,
    ensures
        r matches Ok(v) && v@ == pto.spec_enc(),
{
    let size: usize = match pto {
        ProtoType::s_login(m) => m.size(),
        ProtoType::c_login(m) => m.size(),
        ProtoType::s_player_brief(m) => m.size(),
        ProtoType::c_player_brief(m) => m.size(),
        ProtoType::s_item_bag(m) => m.size(),
        ProtoType::c_item_bag(m) => m.size(),
        ProtoType::c_errors(m) => m.size(),
        ProtoType::db_load_req(m) => m.size(),
        ProtoType::db_save_req(m) => m.size(),
        ProtoType::db_load_resp(m) => m.size(),
    };
    let mut w = crate::writer::BytesWriter::new(size);
    let res = match pto {
        ProtoType::s_login(m) => m.write(&mut w),
        ProtoType::c_login(m) => m.write(&mut w),
        ProtoType::s_player_brief(m) => m.write(&mut w),
        ProtoType::c_player_brief(m) => m.write(&mut w),
        ProtoType::s_item_bag(m) => m.write(&mut w),
        ProtoType::c_item_bag(m) => m.write(&mut w),
        ProtoType::c_errors(m) => m.write(&mut w),
        ProtoType::db_load_req(m) => m.write(&mut w),
        ProtoType::db_save_req(m) => m.write(&mut w),
        ProtoType::db_load_resp(m) => m.write(&mut w),
    };
    proof {
        assert(res is Ok);
        assert(w.bytes() =~= pto.spec_enc());
    }
    Ok(w.into_vec())
}

/// Decodes the body slice `bytes[start..end]` as the message `proto_id`
/// names. A whole well-formed encoding decodes to its message; a body that a
/// parse does not consume exactly is an error, as is an unknown id.
pub fn parse_proto(proto_id: u32, bytes: &[u8], start: usize, end: usize) -> (r: Result<ProtoType>)
    requires
        start <= end <= bytes@.len(),
    ensures
        r matches Ok(x) ==> x.spec_id() == proto_id && (bytes@.len() < 0x10000000 ==> x.wf()),
        !known_id(proto_id) ==> (r matches Err(e) && e matches Error::UnknownMessageType(i) && i
            == proto_id),
        forall|m: ProtoType| #[trigger]
            m.spec_id() == proto_id && m.wf() && canonical_at(bytes@, start as int, m.spec_enc())
                && end == start + m.spec_enc().len() ==> (r matches Ok(x) && x.eqv(&m)),
{
    let mut rd = BytesReader::new(start, end);
    match proto_id {
        101 => {
            let m = s_login::read(&mut rd, bytes)?;
            if !rd.is_complete() {
                return Err(Error::Message("partial parse".to_owned()));
            }
            Ok(ProtoType::s_login(m))
        },
        102 => {
            let m = c_login::read(&mut rd, bytes)?;
            if !rd.is_complete() {
                return Err(Error::Message("partial parse".to_owned()));
            }
            Ok(ProtoType::c_login(m))
        },
        103 => {
            let m = s_player_brief::read(&mut rd, bytes)?;
            if !rd.is_complete() {
                return Err(Error::Message("partial parse".to_owned()));
            }
            Ok(ProtoType::s_player_brief(m))
        },
        104 => {
            let m = c_player_brief::read(&mut rd, bytes)?;
            if !rd.is_complete() {
                return Err(Error::Message("partial parse".to_owned()));
            }
            Ok(ProtoType::c_player_brief(m))
        },
        105 => {
            let m = s_item_bag::read(&mut rd, bytes)?;
            if !rd.is_complete() {
                return Err(Error::Message("partial parse".to_owned()));
            }
            Ok(ProtoType::s_item_bag(m))
        },
        106 => {
            let m = c_item_bag::read(&mut rd, bytes)?;
            if !rd.is_complete() {
                return Err(Error::Message("partial parse".to_owned()));
            }
            Ok(ProtoType::c_item_bag(m))
        },
        107 => {
            let m = c_errors::read(&mut rd, bytes)?;
            if !rd.is_complete() {
                return Err(Error::Message("partial parse".to_owned()));
            }
            Ok(ProtoType::c_errors(m))
        },
        108 => {
            let m = db_load_req::read(&mut rd, bytes)?;
            if !rd.is_complete() {
                return Err(Error::Message("partial parse".to_owned()));
            }
            Ok(ProtoType::db_load_req(m))
        },
        109 => {
            let m = db_save_req::read(&mut rd, bytes)?;
            if !rd.is_complete() {
                return Err(Error::Message("partial parse".to_owned()));
            }
            Ok(ProtoType::db_save_req(m))
        },
        110 => {
            let m = db_load_resp::read(&mut rd, bytes)?;
            if !rd.is_complete() {
                return Err(Error::Message("partial parse".to_owned()));
            }
            Ok(ProtoType::db_load_resp(m))
        },
        _ => Err(Error::UnknownMessageType(proto_id)),
    }
}

} // verus!

// --- the common read/write interface of every message ---

verus! {

/// What every message can do on the write side: tell its encoded size and
/// write its encoding.
pub trait MsgWrite {
    /// The message's wire body.
    spec fn enc(&self) -> Seq<u8>;

    /// The bounds under which the message can be encoded.
    spec fn well_formed(&self) -> bool;

    /// The messages this one cannot be told apart from on the wire.
    spec fn equiv(&self, other: &Self) -> bool;

    fn size(&self) -> (r: usize)
        requires
            self.well_formed(),
            self.enc().len() <= usize::MAX,
        ensures
            r == self.enc().len(),
    ;

    fn write(&self, w: &mut crate::writer::BytesWriter) -> (r: Result<()>)
        requires
            old(w).wf(),
            self.well_formed(),
        ensures
            final(w).wf(),
            final(w).spec_cap() == old(w).spec_cap(),
            r is Ok <==> old(w).bytes().len() + self.enc().len() <= old(w).spec_cap(),
            r is Ok ==> final(w).bytes() == old(w).bytes() + self.enc(),
    ;
}

/// What every message can do on the read side: decode itself from a byte
/// stream, and on a whole well-formed encoding give that message back.
pub trait MsgRead: MsgWrite + Sized {
    fn read(rd: &mut BytesReader, bytes: &[u8]) -> (r: Result<Self>)
        ensures
            final(rd).end == old(rd).end,
            old(rd).start <= final(rd).start,
            forall|m: Self| #[trigger]
                canonical_at(bytes@, old(rd).start as int, m.enc()) && m.well_formed() ==> (r matches Ok(
                    x,
                ) && x.equiv(&m)) && final(rd).start == old(rd).start + m.enc().len(),
    ;
}

impl MsgWrite for item_info {
    open spec fn enc(&self) -> Seq<u8> {
        self.spec_enc()
    }

    open spec fn well_formed(&self) -> bool {
        self.wf()
    }

    open spec fn equiv(&self, other: &Self) -> bool {
        self.eqv(other)
    }

    fn size(&self) -> (r: usize) {
        item_info::size(self)
    }

    fn write(&self, w: &mut crate::writer::BytesWriter) -> (r: Result<()>) {
        item_info::write(self, w)
    }
}

impl MsgRead for item_info {
    fn read(rd: &mut BytesReader, bytes: &[u8]) -> (r: Result<Self>) {
        item_info::read(rd, bytes)
    }
}

impl MsgWrite for s_login {
    open spec fn enc(&self) -> Seq<u8> {
        self.spec_enc()
    }

    open spec fn well_formed(&self) -> bool {
        self.wf()
    }

    open spec fn equiv(&self, other: &Self) -> bool {
        self.eqv(other)
    }

    fn size(&self) -> (r: usize) {
        s_login::size(self)
    }

    fn write(&self, w: &mut crate::writer::BytesWriter) -> (r: Result<()>) {
        s_login::write(self, w)
    }
}

impl MsgRead for s_login {
    fn read(rd: &mut BytesReader, bytes: &[u8]) -> (r: Result<Self>) {
        s_login::read(rd, bytes)
    }
}

impl MsgWrite for c_login {
    open spec fn enc(&self) -> Seq<u8> {
        self.spec_enc()
    }

    open spec fn well_formed(&self) -> bool {
        self.wf()
    }

    open spec fn equiv(&self, other: &Self) -> bool {
        self.eqv(other)
    }

    fn size(&self) -> (r: usize) {
        c_login::size(self)
    }

    fn write(&self, w: &mut crate::writer::BytesWriter) -> (r: Result<()>) {
        c_login::write(self, w)
    }
}

impl MsgRead for c_login {
    fn read(rd: &mut BytesReader, bytes: &[u8]) -> (r: Result<Self>) {
        c_login::read(rd, bytes)
    }
}

impl MsgWrite for s_player_brief {
    open spec fn enc(&self) -> Seq<u8> {
        self.spec_enc()
    }

    open spec fn well_formed(&self) -> bool {
        self.wf()
    }

    open spec fn equiv(&self, other: &Self) -> bool {
        self.eqv(other)
    }

    fn size(&self) -> (r: usize) {
        s_player_brief::size(self)
    }

    fn write(&self, w: &mut crate::writer::BytesWriter) -> (r: Result<()>) {
        s_player_brief::write(self, w)
    }
}

impl MsgRead for s_player_brief {
    fn read(rd: &mut BytesReader, bytes: &[u8]) -> (r: Result<Self>) {
        s_player_brief::read(rd, bytes)
    }
}

impl MsgWrite for c_player_brief {
    open spec fn enc(&self) -> Seq<u8> {
        self.spec_enc()
    }

    open spec fn well_formed(&self) -> bool {
        self.wf()
    }

    open spec fn equiv(&self, other: &Self) -> bool {
        self.eqv(other)
    }

    fn size(&self) -> (r: usize) {
        c_player_brief::size(self)
    }

    fn write(&self, w: &mut crate::writer::BytesWriter) -> (r: Result<()>) {
        c_player_brief::write(self, w)
    }
}

impl MsgRead for c_player_brief {
    fn read(rd: &mut BytesReader, bytes: &[u8]) -> (r: Result<Self>) {
        c_player_brief::read(rd, bytes)
    }
}

impl MsgWrite for s_item_bag {
    open spec fn enc(&self) -> Seq<u8> {
        self.spec_enc()
    }

    open spec fn well_formed(&self) -> bool {
        self.wf()
    }

    open spec fn equiv(&self, other: &Self) -> bool {
        self.eqv(other)
    }

    fn size(&self) -> (r: usize) {
        s_item_bag::size(self)
    }

    fn write(&self, w: &mut crate::writer::BytesWriter) -> (r: Result<()>) {
        s_item_bag::write(self, w)
    }
}

impl MsgRead for s_item_bag {
    fn read(rd: &mut BytesReader, bytes: &[u8]) -> (r: Result<Self>) {
        s_item_bag::read(rd, bytes)
    }
}

impl MsgWrite for c_item_bag {
    open spec fn enc(&self) -> Seq<u8> {
        self.spec_enc()
    }

    open spec fn well_formed(&self) -> bool {
        self.wf()
    }

    open spec fn equiv(&self, other: &Self) -> bool {
        self.eqv(other)
    }

    fn size(&self) -> (r: usize) {
        c_item_bag::size(self)
    }

    fn write(&self, w: &mut crate::writer::BytesWriter) -> (r: Result<()>) {
        c_item_bag::write(self, w)
    }
}

impl MsgRead for c_item_bag {
    fn read(rd: &mut BytesReader, bytes: &[u8]) -> (r: Result<Self>) {
        c_item_bag::read(rd, bytes)
    }
}

impl MsgWrite for c_errors {
    open spec fn enc(&self) -> Seq<u8> {
        self.spec_enc()
    }

    open spec fn well_formed(&self) -> bool {
        self.wf()
    }

    open spec fn equiv(&self, other: &Self) -> bool {
        self.eqv(other)
    }

    fn size(&self) -> (r: usize) {
        c_errors::size(self)
    }

    fn write(&self, w: &mut crate::writer::BytesWriter) -> (r: Result<()>) {
        c_errors::write(self, w)
    }
}

impl MsgRead for c_errors {
    fn read(rd: &mut BytesReader, bytes: &[u8]) -> (r: Result<Self>) {
        c_errors::read(rd, bytes)
    }
}

impl MsgWrite for db_load_req {
    open spec fn enc(&self) -> Seq<u8> {
        self.spec_enc()
    }

    open spec fn well_formed(&self) -> bool {
        self.wf()
    }

    open spec fn equiv(&self, other: &Self) -> bool {
        self.eqv(other)
    }

    fn size(&self) -> (r: usize) {
        db_load_req::size(self)
    }

    fn write(&self, w: &mut crate::writer::BytesWriter) -> (r: Result<()>) {
        db_load_req::write(self, w)
    }
}

impl MsgRead for db_load_req {
    fn read(rd: &mut BytesReader, bytes: &[u8]) -> (r: Result<Self>) {
        db_load_req::read(rd, bytes)
    }
}

impl MsgWrite for db_save_req {
    open spec fn enc(&self) -> Seq<u8> {
        self.spec_enc()
    }

    open spec fn well_formed(&self) -> bool {
        self.wf()
    }

    open spec fn equiv(&self, other: &Self) -> bool {
        self.eqv(other)
    }

    fn size(&self) -> (r: usize) {
        db_save_req::size(self)
    }

    fn write(&self, w: &mut crate::writer::BytesWriter) -> (r: Result<()>) {
        db_save_req::write(self, w)
    }
}

impl MsgRead for db_save_req {
    fn read(rd: &mut BytesReader, bytes: &[u8]) -> (r: Result<Self>) {
        db_save_req::read(rd, bytes)
    }
}

impl MsgWrite for db_load_resp {
    open spec fn enc(&self) -> Seq<u8> {
        self.spec_enc()
    }

    open spec fn well_formed(&self) -> bool {
        self.wf()
    }

    open spec fn equiv(&self, other: &Self) -> bool {
        self.eqv(other)
    }

    fn size(&self) -> (r: usize) {
        db_load_resp::size(self)
    }

    fn write(&self, w: &mut crate::writer::BytesWriter) -> (r: Result<()>) {
        db_load_resp::write(self, w)
    }
}

impl MsgRead for db_load_resp {
    fn read(rd: &mut BytesReader, bytes: &[u8]) -> (r: Result<Self>) {
        db_load_resp::read(rd, bytes)
    }
}

} // verus!

// --- the run-time bounds check before a message is sent ---

verus! {

/// A run of items encodes in at most twenty bytes per item.
pub proof fn lemma_enc_items_rec_max_len(items: Seq<item_info>)
    ensures
        enc_items_rec(items).len() <= 20 * items.len(),
    decreases items.len(),
{
    if items.len() > 0 {
        lemma_enc_items_rec_max_len(items.skip(1));
        lemma_vint_enc(items[0].uid as nat);
        lemma_vint_enc(items[0].id as nat);
        lemma_vint_enc(((items[0].stack as u32)) as nat);
        lemma_vint_size_u64(items[0].uid);
        lemma_size_u32(items[0].id as nat);
        lemma_size_u32(((items[0].stack as u32)) as nat);
    }
}

impl ProtoType {
    /// The bounds under which a message can go to the wire: every string and
    /// blob field under the length cap, and a bag listing short enough for
    /// one frame's worth of arithmetic.
    pub open spec fn spec_sendable(&self) -> bool {
        match self {
            ProtoType::s_login(m) => encode_utf8(m.acc@).len() < 0x10000000 && encode_utf8(
                m.vers@,
            ).len() < 0x10000000,
            ProtoType::c_login(_) => true,
            ProtoType::s_player_brief(_) => true,
            ProtoType::c_player_brief(m) => encode_utf8(m.acc@).len() < 0x10000000 && encode_utf8(
                m.name@,
            ).len() < 0x10000000,
            ProtoType::s_item_bag(_) => true,
            ProtoType::c_item_bag(m) => m.baginfo@.len() < 0x1000000,
            ProtoType::c_errors(m) => encode_utf8(m.param@).len() < 0x10000000,
            ProtoType::db_load_req(m) => encode_utf8(m.db_name@).len() < 0x10000000 && encode_utf8(
                m.key@,
            ).len() < 0x10000000,
            ProtoType::db_save_req(m) => encode_utf8(m.db_name@).len() < 0x10000000 && encode_utf8(
                m.key@,
            ).len() < 0x10000000 && m.value@.len() < 0x10000000,
            ProtoType::db_load_resp(m) => encode_utf8(m.key@).len() < 0x10000000 && m.value@.len()
                < 0x10000000,
        }
    }

    /// Whether this message is within the bounds the writer can encode,
    /// exactly `spec_sendable`.
    pub fn sendable(&self) -> (r: bool)
        ensures
            r == self.spec_sendable(),
            r ==> self.wf() && self.spec_enc().len() < 0x100000000,
    {
        proof {
            lemma_size_u32(0);
        }
        match self {
            ProtoType::s_login(m) => {
                let ok = m.acc.as_str().as_bytes().len() < 0x10000000 && m.vers.as_str().as_bytes().len()
                    < 0x10000000;
                proof {
                    if ok {
                        lemma_vint_enc(encode_utf8(m.acc@).len());
                        lemma_size_u32(encode_utf8(m.acc@).len());
                        lemma_vint_enc(encode_utf8(m.vers@).len());
                        lemma_size_u32(encode_utf8(m.vers@).len());
                    }
                }
                ok
            },
            ProtoType::c_login(m) => {
                proof {
                    lemma_vint_enc(((m.ret as u32)) as nat);
                    lemma_size_u32(((m.ret as u32)) as nat);
                    lemma_vint_enc(((m.magic as u32)) as nat);
                    lemma_size_u32(((m.magic as u32)) as nat);
                }
                true
            },
            ProtoType::s_player_brief(_) => true,
            ProtoType::c_player_brief(m) => {
                let ok = m.acc.as_str().as_bytes().len() < 0x10000000 && m.name.as_str().as_bytes().len()
                    < 0x10000000;
                proof {
                    if ok {
                        lemma_vint_enc(encode_utf8(m.acc@).len());
                        lemma_size_u32(encode_utf8(m.acc@).len());
                        lemma_vint_enc(encode_utf8(m.name@).len());
                        lemma_size_u32(encode_utf8(m.name@).len());
                        lemma_vint_enc(m.uid as nat);
                        lemma_vint_size_u64(m.uid);
                        lemma_vint_enc(((m.level as u32)) as nat);
                        lemma_size_u32(((m.level as u32)) as nat);
                        lemma_vint_enc(((m.expr as u32)) as nat);
                        lemma_size_u32(((m.expr as u32)) as nat);
                        lemma_vint_enc(((m.money as u32)) as nat);
                        lemma_size_u32(((m.money as u32)) as nat);
                    }
                }
                ok
            },
            ProtoType::s_item_bag(_) => true,
            ProtoType::c_item_bag(m) => {
                let ok = m.baginfo.len() < 0x1000000;
                proof {
                    if ok {
                        lemma_vint_enc(m.uid as nat);
                        lemma_vint_size_u64(m.uid);
                        lemma_vint_enc(m.baginfo@.len());
                        lemma_size_u32(m.baginfo@.len());
                        lemma_enc_items_rec_max_len(m.baginfo@);
                    }
                }
                ok
            },
            ProtoType::c_errors(m) => {
                let ok = m.param.as_str().as_bytes().len() < 0x10000000;
                proof {
                    if ok {
                        lemma_vint_enc(m.id as nat);
                        lemma_size_u32(m.id as nat);
                        lemma_vint_enc(encode_utf8(m.param@).len());
                        lemma_size_u32(encode_utf8(m.param@).len());
                    }
                }
                ok
            },
            ProtoType::db_load_req(m) => {
                let ok = m.db_name.as_str().as_bytes().len() < 0x10000000
                    && m.key.as_str().as_bytes().len() < 0x10000000;
                proof {
                    if ok {
                        lemma_vint_enc(m.from_host as nat);
                        lemma_vint_size_u64(m.from_host);
                        lemma_vint_enc(encode_utf8(m.db_name@).len());
                        lemma_size_u32(encode_utf8(m.db_name@).len());
                        lemma_vint_enc(encode_utf8(m.key@).len());
                        lemma_size_u32(encode_utf8(m.key@).len());
                        lemma_vint_enc(m.ret_func as nat);
                        lemma_vint_size_u64(m.ret_func);
                        lemma_vint_enc(m.vfd as nat);
                        lemma_vint_size_u64(m.vfd);
                    }
                }
                ok
            },
            ProtoType::db_save_req(m) => {
                let ok = m.db_name.as_str().as_bytes().len() < 0x10000000
                    && m.key.as_str().as_bytes().len() < 0x10000000 && m.value.len() < 0x10000000;
                proof {
                    if ok {
                        lemma_vint_enc(m.from_host as nat);
                        lemma_vint_size_u64(m.from_host);
                        lemma_vint_enc(encode_utf8(m.db_name@).len());
                        lemma_size_u32(encode_utf8(m.db_name@).len());
                        lemma_vint_enc(encode_utf8(m.key@).len());
                        lemma_size_u32(encode_utf8(m.key@).len());
                        lemma_vint_enc(m.value@.len());
                        lemma_size_u32(m.value@.len());
                        lemma_vint_enc(m.counter as nat);
                        lemma_vint_size_u64(m.counter);
                    }
                }
                ok
            },
            ProtoType::db_load_resp(m) => {
                let ok = m.key.as_str().as_bytes().len() < 0x10000000 && m.value.len() < 0x10000000;
                proof {
                    if ok {
                        lemma_vint_enc(encode_utf8(m.key@).len());
                        lemma_size_u32(encode_utf8(m.key@).len());
                        lemma_vint_enc(m.value@.len());
                        lemma_size_u32(m.value@.len());
                        lemma_vint_enc(m.counter as nat);
                        lemma_vint_size_u64(m.counter);
                        lemma_vint_enc(m.ret_func as nat);
                        lemma_vint_size_u64(m.ret_func);
                        lemma_vint_enc(m.vfd as nat);
                        lemma_vint_size_u64(m.vfd);
                    }
                }
                ok
            },
        }
    }
}

} // verus!
