//! The frame codec each connection runs: an append-only buffer fed by socket
//! reads, from which whole frames are cut. A frame is an 8-byte little-endian
//! header — message type id, then body length — followed by that many body
//! bytes. The reader half decodes incrementally; the writer half builds the
//! exact bytes one outbound frame puts on the wire.

use vstd::prelude::*;
use vstd::arithmetic::div_mod::{lemma_fundamental_div_mod, lemma_div_denominator};
use vstd::slice::{slice_subrange, slice_to_vec};
use crate::errors::Error;
use crate::messages::{ProtoType, parse_proto, canonical_at};

verus! {

/// A whole protocol header: type id and body length, 4 bytes each.
pub const PROTO_HEADER_LEN: usize = 8;

/// A body must be strictly shorter than this; 64 KB minus the header.
pub const PROTO_BODY_MAX_LEN: usize = 64 * 1024 - 8;

/// The 32-bit little-endian value standing at offset `o`.
pub open spec fn le32_at(s: Seq<u8>, o: int) -> nat {
    (s[o] as nat) + 256 * ((s[o + 1] as nat) + 256 * ((s[o + 2] as nat) + 256 * (s[o
        + 3] as nat)))
}

/// The 4-byte little-endian form of `v`.
pub open spec fn enc_le32(v: u32) -> Seq<u8> {
    seq![
        (v % 256) as u8,
        ((v / 256) % 256) as u8,
        ((v / 0x10000) % 256) as u8,
        ((v / 0x1000000) % 256) as u8,
    ]
}

/// The full frame for one message: header, then the body.
pub open spec fn spec_frame(m: ProtoType) -> Seq<u8> {
    enc_le32(m.spec_id()) + enc_le32(m.spec_enc().len() as u32) + m.spec_enc()
}

/// Writing the little-endian form somewhere and reading it back gives the
/// value; a frame is its header and body, 8 bytes plus the body's length.
pub proof fn lemma_le32_round_trip(s: Seq<u8>, o: int, v: u32)
    requires
        0 <= o,
        o + 4 <= s.len(),
        s.subrange(o, o + 4) == enc_le32(v),
    ensures
        le32_at(s, o) == v,
{
    assert(s[o] == enc_le32(v)[0] && s[o + 1] == enc_le32(v)[1] && s[o + 2] == enc_le32(v)[2] && s[o
        + 3] == enc_le32(v)[3]) by {
        assert(s.subrange(o, o + 4)[0] == s[o]);
        assert(s.subrange(o, o + 4)[1] == s[o + 1]);
        assert(s.subrange(o, o + 4)[2] == s[o + 2]);
        assert(s.subrange(o, o + 4)[3] == s[o + 3]);
    }
    assert((v % 256) + 256 * (((v / 256) % 256) + 256 * (((v / 0x10000) % 256) + 256 * ((v
        / 0x1000000) % 256))) == v) by (nonlinear_arith);
}

/// An error that ends the connection: a frame that cannot be taken.
#[derive(Debug, PartialEq, Eq, Clone)]
pub enum FrameError {
    /// The header declared a body at or over the maximum; the length it
    /// declared is carried.
    FrameTooLarge(usize),
    /// The body was present but did not parse as one whole message.
    Parse(Error),
}

/// What a read of zero bytes means for this connection.
#[derive(Debug, PartialEq, Eq, Clone, Copy)]
pub enum ReadEvent {
    /// The peer closed cleanly between frames.
    CleanClose,
    /// The peer vanished in the middle of a frame.
    ConnectionReset,
}

/// The read half of one connection: its identity, its frame buffer, and the
/// cached header of the frame being assembled.
#[derive(Debug)]
pub struct ConnReader {
    pub vfd: u64,
    pub buffer: Vec<u8>,
    pub proto_id: u32,
    pub proto_len: usize,
    pub is_header_decode: bool,
    pub readnum: u64,
}

impl ConnReader {
    /// The cached header always mirrors the first eight buffered bytes.
    pub open spec fn wf(&self) -> bool {
        self.is_header_decode ==> {
            &&& self.buffer@.len() >= 8
            &&& self.proto_id == le32_at(self.buffer@, 0)
            &&& self.proto_len == le32_at(self.buffer@, 4)
        }
    }

    pub fn new(vfd: u64) -> (r: ConnReader)
        ensures
            r.wf(),
            r.vfd == vfd,
            r.buffer@ == Seq::<u8>::empty(),
            !r.is_header_decode,
            r.readnum == 0,
    {
        ConnReader { vfd, buffer: Vec::new(), proto_id: 0, proto_len: 0, is_header_decode: false, readnum: 0 }
    }

    /// Takes the bytes one socket read produced into the frame buffer.
    pub fn feed(&mut self, data: &[u8])
        requires
            old(self).wf(),
            old(self).buffer@.len() + data@.len() <= usize::MAX,
        ensures
            final(self).wf(),
            final(self).buffer@ == old(self).buffer@ + data@,
            final(self).vfd == old(self).vfd,
            final(self).readnum == old(self).readnum,
            final(self).is_header_decode == old(self).is_header_decode,
            final(self).proto_id == old(self).proto_id,
            final(self).proto_len == old(self).proto_len,
    {
        let ghost pre = self.buffer@;
        let n = data.len();
        let mut i: usize = 0;
        while i < n
            invariant
                i <= n,
                n == data@.len(),
                pre.len() + n <= usize::MAX,
                self.buffer@ == pre + data@.subrange(0, i as int),
                self.vfd == old(self).vfd,
                self.readnum == old(self).readnum,
                self.is_header_decode == old(self).is_header_decode,
                self.proto_id == old(self).proto_id,
                self.proto_len == old(self).proto_len,
            decreases n - i,
        {
            self.buffer.push(data[i]);
            proof {
                assert((pre + data@.subrange(0, i as int)).push(data@[i as int]) =~= pre
                    + data@.subrange(0, i + 1));
            }
            i = i + 1;
        }
        proof {
            assert(data@.subrange(0, n as int) =~= data@);
            if self.is_header_decode {
                assert(self.buffer@.subrange(0, 8) =~= pre.subrange(0, 8));
                assert(le32_at(self.buffer@, 0) == le32_at(pre, 0));
                assert(le32_at(self.buffer@, 4) == le32_at(pre, 4));
            }
        }
    }

    /// What a zero-byte read means: a clean close only between frames.
    pub fn on_zero_read(&self) -> (r: ReadEvent)
        ensures
            r == ReadEvent::CleanClose <==> self.buffer@.len() == 0,
    {
        if self.buffer.len() == 0 {
            ReadEvent::CleanClose
        } else {
            ReadEvent::ConnectionReset
        }
    }

    /// Tries to cut one whole frame off the front of the buffer.
    ///
    /// `Ok(None)` asks for more data and changes nothing but the header
    /// cache; an oversize declared length is fatal before any body byte is
    /// looked at; on success exactly the frame's bytes leave the buffer and
    /// whatever followed them stays.
    pub fn parse_frame(&mut self) -> (r: core::result::Result<
        Option<(u64, u32, ProtoType)>,
        FrameError,
    >)
        requires
            old(self).wf(),
            old(self).readnum < u64::MAX,
        ensures
            final(self).wf(),
            final(self).vfd == old(self).vfd,
            r is Ok ==> final(self).readnum <= old(self).readnum + 1,
            // nothing to decode yet: the buffer is kept whole
            r == Ok::<Option<(u64, u32, ProtoType)>, FrameError>(None::<(u64, u32, ProtoType)>)
                <==> (old(self).buffer@.len() < 8 || (le32_at(old(self).buffer@, 4)
                < PROTO_BODY_MAX_LEN && old(self).buffer@.len() < 8 + le32_at(
                old(self).buffer@,
                4,
            ))),
            r matches Ok(op) ==> (op is None ==> (final(self).buffer@ == old(self).buffer@
                && final(self).readnum == old(self).readnum)),
            // a declared length at or over the cap is fatal, on the header alone
            (r matches Err(e) && e matches FrameError::FrameTooLarge(l)) <==> (old(
                self,
            ).buffer@.len() >= 8 && le32_at(old(self).buffer@, 4) >= PROTO_BODY_MAX_LEN),
            r matches Err(e) ==> final(self).buffer@ == old(self).buffer@,
            // a whole frame: its bytes leave, the rest stays, the message is
            // the one the body encodes
            r matches Ok(op) ==> op matches Some(t) ==> {
                &&& old(self).buffer@.len() >= 8
                &&& le32_at(old(self).buffer@, 4) < PROTO_BODY_MAX_LEN
                &&& old(self).buffer@.len() >= 8 + le32_at(old(self).buffer@, 4)
                &&& t.0 == old(self).vfd
                &&& t.1 == le32_at(old(self).buffer@, 0)
                &&& t.2.spec_id() == t.1
                &&& (old(self).buffer@.len() < 0x10000000 ==> t.2.wf())
                &&& final(self).buffer@ == old(self).buffer@.skip(
                    8 + le32_at(old(self).buffer@, 4) as int,
                )
                &&& final(self).readnum == old(self).readnum + 1
                &&& !final(self).is_header_decode
            },
            // a body that is one whole well-formed encoding decodes to its
            // message, whatever follows it in the buffer
            forall|m: ProtoType|
                (#[trigger] canonical_at(old(self).buffer@, 8, m.spec_enc()) && m.wf()
                    && m.spec_id() == le32_at(old(self).buffer@, 0) && m.spec_enc().len()
                    == le32_at(old(self).buffer@, 4) && m.spec_enc().len() < PROTO_BODY_MAX_LEN)
                    ==> (r matches Ok(op) && op matches Some(t) && t.2.eqv(&m)),
    {
        let buflen = self.buffer.len();
        if buflen < PROTO_HEADER_LEN {
            return Ok(None);
        }
        if !self.is_header_decode {
            let h0 = self.buffer[0];
            let h1 = self.buffer[1];
            let h2 = self.buffer[2];
            let h3 = self.buffer[3];
            let h4 = self.buffer[4];
            let h5 = self.buffer[5];
            let h6 = self.buffer[6];
            let h7 = self.buffer[7];
            let proto_id: u32 = (h0 as u32) | ((h1 as u32) << 8) | ((h2 as u32) << 16) | ((
            h3 as u32) << 24);
            let proto_len: u32 = (h4 as u32) | ((h5 as u32) << 8) | ((h6 as u32) << 16) | ((
            h7 as u32) << 24);
            proof {
                lemma_le32_combine(h0, h1, h2, h3, proto_id);
                lemma_le32_combine(h4, h5, h6, h7, proto_len);
            }
            self.proto_id = proto_id;
            self.proto_len = proto_len as usize;
            self.is_header_decode = true;
        }
        if self.proto_len >= PROTO_BODY_MAX_LEN {
            return Err(FrameError::FrameTooLarge(self.proto_len));
        }
        let protolen = self.proto_len + PROTO_HEADER_LEN;
        if buflen < protolen {
            return Ok(None);
        }
        match parse_proto(self.proto_id, self.buffer.as_slice(), PROTO_HEADER_LEN, protolen) {
            Ok(ptoobj) => {
                let rest = slice_to_vec(slice_subrange(self.buffer.as_slice(), protolen, buflen));
                self.buffer = rest;
                self.is_header_decode = false;
                let id = self.proto_id;
                self.proto_id = 0;
                self.proto_len = 0;
                self.readnum = self.readnum + 1;
                proof {
                    assert(self.buffer@ =~= old(self).buffer@.skip(
                        8 + le32_at(old(self).buffer@, 4) as int,
                    ));
                    assert forall|m: ProtoType|
                        (#[trigger] canonical_at(old(self).buffer@, 8, m.spec_enc()) && m.wf()
                            && m.spec_id() == le32_at(old(self).buffer@, 0) && m.spec_enc().len()
                            == le32_at(old(self).buffer@, 4) && m.spec_enc().len()
                            < PROTO_BODY_MAX_LEN) implies ptoobj.eqv(&m) by {}
                }
                Ok(Some((self.vfd, id, ptoobj)))
            },
            Err(err) => {
                proof {
                    assert forall|m: ProtoType|
                        (#[trigger] canonical_at(old(self).buffer@, 8, m.spec_enc()) && m.wf()
                            && m.spec_id() == le32_at(old(self).buffer@, 0) && m.spec_enc().len()
                            == le32_at(old(self).buffer@, 4) && m.spec_enc().len()
                            < PROTO_BODY_MAX_LEN) implies false by {}
                }
                Err(FrameError::Parse(err))
            },
        }
    }
}

/// Combining four bytes with shifts and ors is the little-endian value.
proof fn lemma_le32_combine(b0: u8, b1: u8, b2: u8, b3: u8, v: u32)
    requires
        v == (b0 as u32) | ((b1 as u32) << 8) | ((b2 as u32) << 16) | ((b3 as u32) << 24),
    ensures
        v as nat == (b0 as nat) + 256 * ((b1 as nat) + 256 * ((b2 as nat) + 256 * (b3 as nat))),
{
    assert(v % 256 == b0 as u32 && (v / 256) % 256 == b1 as u32 && (v / 0x10000) % 256 == b2 as u32
        && v / 0x1000000 == b3 as u32) by (bit_vector)
        requires
            v == (b0 as u32) | ((b1 as u32) << 8) | ((b2 as u32) << 16) | ((b3 as u32) << 24),
    ;
    lemma_fundamental_div_mod(v as int, 256);
    lemma_fundamental_div_mod(v as int / 256, 256);
    lemma_fundamental_div_mod(v as int / 0x10000, 256);
    lemma_div_denominator(v as int, 256, 256);
    lemma_div_denominator(v as int, 0x10000, 256);
}

} // verus!

// --- the write half ---

verus! {

/// Builds the exact bytes one frame puts on the wire: the 8-byte header,
/// then the body. The encoded frame is 8 bytes plus the body, always.
pub fn encode_frame(proto_id: u32, body: &[u8]) -> (r: Vec<u8>)
    requires
        body@.len() < 0x100000000,
    ensures
        r@ == enc_le32(proto_id) + enc_le32(body@.len() as u32) + body@,
        r@.len() == 8 + body@.len(),
{
    let buflen: u32 = #[verifier::truncate] (body.len() as u32);
    let mut out: Vec<u8> = Vec::new();
    push_le32(&mut out, proto_id);
    push_le32(&mut out, buflen);
    let n = body.len();
    let ghost hdr = out@;
    let mut i: usize = 0;
    while i < n
        invariant
            i <= n,
            n == body@.len(),
            out@ == hdr + body@.subrange(0, i as int),
            hdr.len() == 8,
        decreases n - i,
    {
        out.push(body[i]);
        proof {
            assert((hdr + body@.subrange(0, i as int)).push(body@[i as int]) =~= hdr
                + body@.subrange(0, i + 1));
        }
        i = i + 1;
    }
    proof {
        assert(body@.subrange(0, n as int) =~= body@);
        assert((buflen as u32) as nat == body@.len());
        assert(out@ =~= enc_le32(proto_id) + enc_le32(body@.len() as u32) + body@);
    }
    out
}

/// Appends the 4-byte little-endian form of `v`.
fn push_le32(out: &mut Vec<u8>, v: u32)
    ensures
        final(out)@ == old(out)@ + enc_le32(v),
{
    let b0 = #[verifier::truncate] ((v & 0xff) as u8);
    let b1 = #[verifier::truncate] (((v >> 8) & 0xff) as u8);
    let b2 = #[verifier::truncate] (((v >> 16) & 0xff) as u8);
    let b3 = #[verifier::truncate] (((v >> 24) & 0xff) as u8);
    proof {
        assert((v & 0xff) as u8 == (v % 256) as u8 && ((v >> 8) & 0xff) as u8 == ((v / 256)
            % 256) as u8 && ((v >> 16) & 0xff) as u8 == ((v / 0x10000) % 256) as u8 && ((v >> 24)
            & 0xff) as u8 == ((v / 0x1000000) % 256) as u8) by (bit_vector);
    }
    out.push(b0);
    out.push(b1);
    out.push(b2);
    out.push(b3);
    proof {
        assert(final(out)@ =~= old(out)@ + enc_le32(v));
    }
}

/// What the write half decides for one dequeued message.
#[derive(Debug)]
pub enum WriteStep {
    /// The frame to put on the socket, whole.
    Emit(Vec<u8>),
    /// The message named another connection: a routing bug, and fatal.
    WrongIdentity,
    /// The message is outside the bounds one frame can carry.
    Unsendable,
}

/// The write half of one connection: its identity and how many frames it
/// has emitted.
#[derive(Debug)]
pub struct ConnWriter {
    pub vfd: u64,
    pub writenum: u64,
}

impl ConnWriter {
    pub fn new(vfd: u64) -> (r: ConnWriter)
        ensures
            r.vfd == vfd,
            r.writenum == 0,
    {
        ConnWriter { vfd, writenum: 0 }
    }

    /// Handles one message dequeued from this connection's channel: refuse
    /// it if it was addressed to another identity, else emit its frame.
    pub fn handle_outbound(&mut self, from_vfd: u64, proto_id: u32, pto: &ProtoType) -> (r:
        WriteStep)
        requires
            old(self).writenum < u64::MAX,
        ensures
            final(self).vfd == old(self).vfd,
            r is WrongIdentity <==> from_vfd != old(self).vfd,
            r is Emit <==> (from_vfd == old(self).vfd && pto.spec_sendable()),
            r is Unsendable <==> (from_vfd == old(self).vfd && !pto.spec_sendable()),
            !(r is Emit) ==> final(self).writenum == old(self).writenum,
            r matches WriteStep::Emit(frame) ==> {
                &&& frame@ == enc_le32(proto_id) + enc_le32(pto.spec_enc().len() as u32)
                    + pto.spec_enc()
                &&& frame@.len() == 8 + pto.spec_enc().len()
                &&& final(self).writenum == old(self).writenum + 1
            },
    {
        if self.vfd != from_vfd {
            return WriteStep::WrongIdentity;
        }
        if !pto.sendable() {
            return WriteStep::Unsendable;
        }
        self.writenum = self.writenum + 1;
        let buf = match crate::messages::serialize(pto) {
            Ok(b) => b,
            Err(_) => {
                proof {
                    assert(false);
                }
                Vec::new()
            },
        };
        let frame = encode_frame(proto_id, buf.as_slice());
        WriteStep::Emit(frame)
    }
}

} // verus!

// --- what holds of every whole frame ---

verus! {

/// Round trip of one frame: the encoded frame of a well-formed message is 8
/// bytes plus its body, and a buffer holding it — followed by anything —
/// satisfies exactly the conditions under which `parse_frame` hands the
/// message back and leaves the trailing bytes alone.
pub proof fn lemma_frame_round_trip(m: ProtoType, rest: Seq<u8>)
    requires
        m.wf(),
        m.spec_enc().len() < PROTO_BODY_MAX_LEN,
    ensures
        spec_frame(m).len() == 8 + m.spec_enc().len(),
        le32_at(spec_frame(m) + rest, 0) == m.spec_id(),
        le32_at(spec_frame(m) + rest, 4) == m.spec_enc().len(),
        canonical_at(spec_frame(m) + rest, 8, m.spec_enc()),
        (spec_frame(m) + rest).skip(8 + m.spec_enc().len() as int) == rest,
{
    let buf = spec_frame(m) + rest;
    let l = m.spec_enc().len() as u32;
    assert((l as u32) as nat == m.spec_enc().len());
    assert(buf.subrange(0, 4) =~= enc_le32(m.spec_id()));
    lemma_le32_round_trip(buf, 0, m.spec_id());
    assert(buf.subrange(4, 8) =~= enc_le32(l));
    lemma_le32_round_trip(buf, 4, l);
    assert(buf.subrange(8, 8 + m.spec_enc().len() as int) =~= m.spec_enc());
    assert(buf.skip(8 + m.spec_enc().len() as int) =~= rest);
}

/// Feeding a frame cut at any boundary: every proper prefix of a whole frame
/// satisfies exactly the conditions under which `parse_frame` answers "need
/// more data" and leaves its buffer untouched.
pub proof fn lemma_partial_prefix(m: ProtoType, i: int)
    requires
        m.wf(),
        m.spec_enc().len() < PROTO_BODY_MAX_LEN,
        0 <= i < spec_frame(m).len(),
    ensures
        ({
            let prefix = spec_frame(m).subrange(0, i);
            prefix.len() < 8 || (le32_at(prefix, 4) < PROTO_BODY_MAX_LEN && prefix.len() < 8
                + le32_at(prefix, 4))
        }),
{
    lemma_frame_round_trip(m, Seq::<u8>::empty());
    let frame = spec_frame(m);
    let prefix = frame.subrange(0, i);
    if i >= 8 {
        assert(frame.subrange(4, 8) =~= enc_le32(m.spec_enc().len() as u32));
        assert(prefix.subrange(4, 8) =~= frame.subrange(4, 8));
        lemma_le32_round_trip(prefix, 4, m.spec_enc().len() as u32);
    }
}

} // verus!
