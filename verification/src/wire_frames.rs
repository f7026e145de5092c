//! The on-wire form of a frame: a compactly encoded header followed by the
//! body (or, for protocol-error frames, a sixteen-bit error code).
//!
//! Layout, byte by byte:
//!
//! - one flags byte: bit 0 says an appendix follows the fixed fields, bit 1
//!   says the appendix carries a name hash; all other bits must be clear;
//! - the source address packed into a `u32` and written as a little-endian
//!   base-128 varint (one to five bytes);
//! - the destination address, the same way;
//! - the sequence number, two bytes little endian;
//! - the frame kind, one byte;
//! - the time-to-live, one byte;
//! - if flagged: the eight key bytes, then (if flagged) eight name-hash
//!   bytes little endian.
//!
//! Whatever follows the header is the body. A frame of kind
//! [`FrameKind::ProtocolError`] carries exactly two body bytes: the error
//! code, little endian.

use vstd::prelude::*;

use crate::addr::{Address, AnyAllAppendix, FrameKind, HeaderSeq, Key, NameHash, ProtocolError};

verus! {

broadcast use vstd::array::group_array_axioms;

/// No encoded header is longer than this: one flags byte, two varints of at
/// most five bytes, two sequence bytes, kind, ttl, and at most sixteen
/// appendix bytes.
pub const MAX_HDR_ENCODED_SIZE: usize = 31;

// ---- varint ----

/// Little-endian base-128 varint encoding of a 32-bit word: seven value bits
/// per byte, the high bit marking continuation.
pub open spec fn varint32(v: u32) -> Seq<u8>
    decreases v via varint32_decreases
{
    if v < 0x80 {
        seq![v as u8]
    } else {
        seq![((v & 0x7f) | 0x80) as u8] + varint32(v >> 7)
    }
}

#[via_fn]
proof fn varint32_decreases(v: u32) {
    assert(v >= 0x80 ==> (v >> 7) < v) by (bit_vector);
}

/// What any byte string parses to as a varint: the decoded word and the
/// number of bytes consumed, or nothing when the string starts with no
/// well-formed varint of a 32-bit word.
pub open spec fn dec_varint(s: Seq<u8>) -> Option<(u32, int)>
    decreases s.len(),
{
    if s.len() == 0 {
        None
    } else if s[0] < 0x80 {
        Some((s[0] as u32, 1))
    } else {
        match dec_varint(s.skip(1)) {
            Some((v, n)) => if v >= 1 && v <= 0x01ff_ffff {
                Some(((v << 7) | ((s[0] & 0x7f) as u32), n + 1))
            } else {
                None
            },
            None => None,
        }
    }
}

/// Append the varint encoding of `v` to `out`.
pub fn enc_varint(v: u32, out: &mut Vec<u8>)
    ensures
        final(out)@ == old(out)@ + varint32(v),
    decreases v,
{
    if v < 0x80 {
        out.push(v as u8);
        proof {
            assert(out@ =~= old(out)@ + varint32(v));
        }
    } else {
        out.push(((v & 0x7f) | 0x80) as u8);
        proof {
            assert(v >= 0x80 ==> (v >> 7) < v) by (bit_vector);
        }
        let ghost mid = out@;
        enc_varint(v >> 7, out);
        proof {
            assert(out@ =~= old(out)@ + varint32(v));
        }
    }
}

/// Read one varint from `data` at `pos`, returning the word and the number
/// of bytes consumed.
pub fn dec_varint_at(data: &[u8], pos: usize) -> (r: Option<(u32, usize)>)
    requires
        pos <= data@.len(),
    ensures
        match r {
            Some(p) => {
                &&& dec_varint(data@.skip(pos as int)) == Some((p.0, p.1 as int))
                &&& 1 <= p.1
                &&& pos + p.1 <= data@.len()
            },
            None => dec_varint(data@.skip(pos as int)) is None,
        },
    decreases data@.len() - pos,
{
    let ghost s = data@.skip(pos as int);
    if pos == data.len() {
        return None;
    }
    let b = data[pos];
    proof {
        assert(s[0] == data@[pos as int]);
    }
    if b < 0x80 {
        Some((b as u32, 1))
    } else {
        proof {
            assert(s.skip(1) =~= data@.skip(pos as int + 1));
        }
        match dec_varint_at(data, pos + 1) {
            Some((v, n)) => {
                if v >= 1 && v <= 0x01ff_ffff {
                    Some(((v << 7) | ((b & 0x7f) as u32), n + 1))
                } else {
                    None
                }
            },
            None => None,
        }
    }
}

/// A varint takes at most five bytes, fewer for small words.
pub proof fn lemma_varint_len(v: u32)
    ensures
        1 <= varint32(v).len() <= 5,
        v < 0x80 ==> varint32(v).len() == 1,
        v < 0x4000 ==> varint32(v).len() <= 2,
        v < 0x20_0000 ==> varint32(v).len() <= 3,
        v < 0x1000_0000 ==> varint32(v).len() <= 4,
    decreases v,
{
    if v >= 0x80 {
        assert({
            &&& (v >> 7) < v
            &&& (v >> 7) < 0x1000_0000
            &&& (v < 0x4000 ==> (v >> 7) < 0x80)
            &&& (v < 0x20_0000 ==> (v >> 7) < 0x4000)
            &&& (v < 0x1000_0000 ==> (v >> 7) < 0x20_0000)
        }) by (bit_vector)
            requires
                v >= 0x80,
        ;
        lemma_varint_len(v >> 7);
    }
}

/// Decoding undoes encoding: a byte string that starts with the varint of
/// `v` parses to `v`, whatever follows.
pub proof fn lemma_varint_roundtrip(v: u32, rest: Seq<u8>)
    ensures
        dec_varint(varint32(v) + rest) == Some((v, varint32(v).len() as int)),
    decreases v,
{
    let s = varint32(v) + rest;
    if v < 0x80 {
        assert(s[0] == v as u8);
        assert((v as u8) < 0x80 && (v as u8) as u32 == v) by (bit_vector)
            requires
                v < 0x80,
        ;
    } else {
        assert(v >= 0x80 ==> (v >> 7) < v) by (bit_vector);
        lemma_varint_roundtrip(v >> 7, rest);
        assert(s.skip(1) =~= varint32(v >> 7) + rest);
        let b0 = ((v & 0x7f) | 0x80) as u8;
        assert(s[0] == b0);
        assert((((v & 0x7f) | 0x80) as u8) >= 0x80) by (bit_vector);
        assert(v >= 0x80 ==> (v >> 7) >= 1 && (v >> 7) <= 0x01ff_ffff) by (bit_vector);
        assert(((v >> 7) << 7) | (((((v & 0x7f) | 0x80) as u8) & 0x7f) as u32) == v) by (bit_vector);
    }
}

// ---- addresses as 32-bit words ----

/// An address packed into one word: network in the high half, then node,
/// then port.
pub open spec fn addr_word(a: Address) -> u32 {
    (((a.network_id as u32) << 16) | ((a.node_id as u32) << 8)) | (a.port_id as u32)
}

/// The address a packed word stands for.
pub open spec fn word_addr(w: u32) -> Address {
    Address { network_id: (w >> 16) as u16, node_id: ((w >> 8) & 0xff) as u8, port_id: (w
        & 0xff) as u8 }
}

/// Packing is lossless.
pub proof fn lemma_addr_word_roundtrip(a: Address)
    ensures
        word_addr(addr_word(a)) == a,
{
    let nw = a.network_id;
    let no = a.node_id;
    let po = a.port_id;
    let w = ((((nw as u32) << 16) | ((no as u32) << 8)) | (po as u32));
    assert((w >> 16) as u16 == nw && ((w >> 8) & 0xff) as u8 == no && (w & 0xff) as u8 == po)
        by (bit_vector)
        requires
            w == ((((nw as u32) << 16) | ((no as u32) << 8)) | (po as u32)),
    ;
}

/// Pack an address for the wire.
pub fn pack_addr(a: &Address) -> (r: u32)
    ensures
        r == addr_word(*a),
{
    (((a.network_id as u32) << 16) | ((a.node_id as u32) << 8)) | (a.port_id as u32)
}

/// Unpack an address from the wire.
pub fn unpack_addr(w: u32) -> (r: Address)
    ensures
        r == word_addr(w),
{
    Address {
        network_id: (w >> 16) as u16,
        node_id: ((w >> 8) & 0xff) as u8,
        port_id: (w & 0xff) as u8,
    }
}

// ---- fixed-width little-endian pieces ----

/// The two little-endian bytes of a sixteen-bit value.
pub open spec fn u16_le(v: u16) -> Seq<u8> {
    seq![(v & 0xff) as u8, (v >> 8) as u8]
}

pub open spec fn u16_from_le(lo: u8, hi: u8) -> u16 {
    (lo as u16) | ((hi as u16) << 8)
}

pub proof fn lemma_u16_le_roundtrip(v: u16)
    ensures
        u16_from_le((v & 0xff) as u8, (v >> 8) as u8) == v,
{
    assert((((v & 0xff) as u8) as u16) | ((((v >> 8) as u8) as u16) << 8) == v) by (bit_vector);
}

/// The eight little-endian bytes of a 64-bit value.
pub open spec fn u64_le(v: u64) -> Seq<u8> {
    seq![
        (v & 0xff) as u8,
        ((v >> 8) & 0xff) as u8,
        ((v >> 16) & 0xff) as u8,
        ((v >> 24) & 0xff) as u8,
        ((v >> 32) & 0xff) as u8,
        ((v >> 40) & 0xff) as u8,
        ((v >> 48) & 0xff) as u8,
        ((v >> 56) & 0xff) as u8,
    ]
}

/// Append the eight little-endian bytes of `v`.
pub fn enc_u64_le(v: u64, out: &mut Vec<u8>)
    ensures
        final(out)@ == old(out)@ + u64_le(v),
{
    out.push((v & 0xff) as u8);
    out.push(((v >> 8) & 0xff) as u8);
    out.push(((v >> 16) & 0xff) as u8);
    out.push(((v >> 24) & 0xff) as u8);
    out.push(((v >> 32) & 0xff) as u8);
    out.push(((v >> 40) & 0xff) as u8);
    out.push(((v >> 48) & 0xff) as u8);
    out.push(((v >> 56) & 0xff) as u8);
    proof {
        assert(out@ =~= old(out)@ + u64_le(v));
    }
}

/// Read a 64-bit value from eight little-endian bytes.
pub fn dec_u64_le(data: &[u8], pos: usize) -> (r: u64)
    requires
        pos + 8 <= data@.len(),
    ensures
        u64_le(r) == data@.subrange(pos as int, pos as int + 8),
{
    let b0 = data[pos];
    let b1 = data[pos + 1];
    let b2 = data[pos + 2];
    let b3 = data[pos + 3];
    let b4 = data[pos + 4];
    let b5 = data[pos + 5];
    let b6 = data[pos + 6];
    let b7 = data[pos + 7];
    let r: u64 = (b0 as u64) | ((b1 as u64) << 8) | ((b2 as u64) << 16) | ((b3 as u64) << 24) | ((
    b4 as u64) << 32) | ((b5 as u64) << 40) | ((b6 as u64) << 48) | ((b7 as u64) << 56);
    proof {
        assert({
            &&& (r & 0xff) as u8 == b0
            &&& ((r >> 8) & 0xff) as u8 == b1
            &&& ((r >> 16) & 0xff) as u8 == b2
            &&& ((r >> 24) & 0xff) as u8 == b3
            &&& ((r >> 32) & 0xff) as u8 == b4
            &&& ((r >> 40) & 0xff) as u8 == b5
            &&& ((r >> 48) & 0xff) as u8 == b6
            &&& ((r >> 56) & 0xff) as u8 == b7
        }) by (bit_vector)
            requires
                r == (b0 as u64) | ((b1 as u64) << 8) | ((b2 as u64) << 16) | ((b3 as u64) << 24) | (
                (b4 as u64) << 32) | ((b5 as u64) << 40) | ((b6 as u64) << 48) | ((b7 as u64) << 56),
        ;
        assert(u64_le(r) =~= data@.subrange(pos as int, pos as int + 8));
    }
    r
}

// ---- the header ----

/// The flags byte of a header: appendix present, name hash present.
pub open spec fn flags_byte(h: HeaderSeq) -> u8 {
    match h.any_all {
        Some(a) => if a.nash is Some {
            3u8
        } else {
            1u8
        },
        None => 0u8,
    }
}

/// The bytes of a header appendix: the key, then the name hash if there is
/// one.
pub open spec fn apdx_bytes(apdx: Option<AnyAllAppendix>) -> Seq<u8> {
    match apdx {
        Some(a) => a.key.0@ + match a.nash {
            Some(n) => u64_le(n.0),
            None => Seq::empty(),
        },
        None => Seq::empty(),
    }
}

/// The full encoded header.
pub open spec fn encode_header(h: HeaderSeq) -> Seq<u8> {
    seq![flags_byte(h)] + varint32(addr_word(h.src)) + varint32(addr_word(h.dst)) + u16_le(h.seq_no)
        + seq![h.kind.spec_byte(), h.ttl] + apdx_bytes(h.any_all)
}

/// An encoded header fits the published bound.
pub proof fn lemma_header_size(h: HeaderSeq)
    ensures
        encode_header(h).len() <= MAX_HDR_ENCODED_SIZE,
{
    lemma_varint_len(addr_word(h.src));
    lemma_varint_len(addr_word(h.dst));
}

/// Encode a header into fresh bytes.
pub fn encode_frame_hdr(h: &HeaderSeq) -> (r: Vec<u8>)
    ensures
        r@ == encode_header(*h),
{
    let mut out: Vec<u8> = Vec::new();
    let flags: u8 = match &h.any_all {
        Some(a) => if a.nash.is_some() {
            3u8
        } else {
            1u8
        },
        None => 0u8,
    };
    out.push(flags);
    enc_varint(pack_addr(&h.src), &mut out);
    enc_varint(pack_addr(&h.dst), &mut out);
    out.push((h.seq_no & 0xff) as u8);
    out.push((h.seq_no >> 8) as u8);
    out.push(h.kind.to_byte());
    out.push(h.ttl);
    match &h.any_all {
        Some(a) => {
            let kb: &[u8; 8] = &a.key.0;
            out.extend_from_slice(kb.as_slice());
            match &a.nash {
                Some(n) => {
                    enc_u64_le(n.0, &mut out);
                },
                None => {},
            }
        },
        None => {},
    }
    proof {
        assert(out@ =~= encode_header(*h));
    }
    out
}

// ---- decoding ----

/// What a received frame decodes to: the header, how many bytes it took on
/// the wire, and either the body bytes or the error code an error frame
/// carried in their place.
pub struct RxFrame {
    pub hdr: HeaderSeq,
    pub hdr_len: usize,
    pub body: Result<Vec<u8>, ProtocolError>,
}

/// What any byte string parses to as a frame. Mirrors [`de_frame`], clause
/// for clause.
pub open spec fn spec_de_frame(s: Seq<u8>) -> Option<(HeaderSeq, Result<Seq<u8>, ProtocolError>,
    int)> {
    if s.len() < 1 || s[0] > 3 {
        None
    } else {
        let flags = s[0];
        match dec_varint(s.skip(1)) {
            None => None,
            Some((srcw, srcn)) => match dec_varint(s.skip(1 + srcn)) {
                None => None,
                Some((dstw, dstn)) => {
                    let fixed = 1 + srcn + dstn;
                    if s.len() < fixed + 4 {
                        None
                    } else {
                        let seq_no = u16_from_le(s[fixed], s[fixed + 1]);
                        let ttl = s[fixed + 3];
                        match FrameKind::spec_from_byte(s[fixed + 2]) {
                            None => None,
                            Some(kind) => spec_de_frame_tail(s, flags, srcw, dstw, seq_no, kind,
                                ttl, fixed + 4),
                        }
                    }
                },
            },
        }
    }
}

/// The appendix and body part of frame parsing, after the fixed fields.
pub open spec fn spec_de_frame_tail(
    s: Seq<u8>,
    flags: u8,
    srcw: u32,
    dstw: u32,
    seq_no: u16,
    kind: FrameKind,
    ttl: u8,
    at: int,
) -> Option<(HeaderSeq, Result<Seq<u8>, ProtocolError>, int)> {
    let apdx_len: int = if flags == 0 {
        0
    } else if flags == 1 {
        8
    } else {
        16
    };
    if flags == 2 || s.len() < at + apdx_len {
        None
    } else {
        let any_all: Option<AnyAllAppendix> = if flags == 0 {
            None
        } else {
            Some(AnyAllAppendix {
                key: Key(seq_to_key_bytes(s.subrange(at, at + 8))),
                nash: if flags == 3 {
                    Some(NameHash(u64_from_le_seq(s.subrange(at + 8, at + 16))))
                } else {
                    None
                },
            })
        };
        let hdr = HeaderSeq {
            src: word_addr(srcw),
            dst: word_addr(dstw),
            any_all,
            seq_no,
            kind,
            ttl,
        };
        let hdr_len = at + apdx_len;
        let body = s.skip(hdr_len);
        if kind is ProtocolError {
            if body.len() == 2 {
                Some((hdr, Err(ProtocolError(u16_from_le(body[0], body[1]))), hdr_len))
            } else {
                None
            }
        } else {
            Some((hdr, Ok(body), hdr_len))
        }
    }
}

/// The eight bytes of a key, as an array again.
pub open spec fn seq_to_key_bytes(s: Seq<u8>) -> [u8; 8] {
    [s[0], s[1], s[2], s[3], s[4], s[5], s[6], s[7]]
}

/// The 64-bit value eight little-endian bytes stand for.
pub open spec fn u64_from_le_seq(s: Seq<u8>) -> u64 {
    (s[0] as u64) | ((s[1] as u64) << 8) | ((s[2] as u64) << 16) | ((s[3] as u64) << 24) | ((
    s[4] as u64) << 32) | ((s[5] as u64) << 40) | ((s[6] as u64) << 48) | ((s[7] as u64) << 56)
}

/// Reading eight little-endian bytes back gives the written value.
pub proof fn lemma_u64_le_roundtrip(v: u64)
    ensures
        u64_from_le_seq(u64_le(v)) == v,
{
    let b0 = (v & 0xff) as u8;
    let b1 = ((v >> 8) & 0xff) as u8;
    let b2 = ((v >> 16) & 0xff) as u8;
    let b3 = ((v >> 24) & 0xff) as u8;
    let b4 = ((v >> 32) & 0xff) as u8;
    let b5 = ((v >> 40) & 0xff) as u8;
    let b6 = ((v >> 48) & 0xff) as u8;
    let b7 = ((v >> 56) & 0xff) as u8;
    assert((b0 as u64) | ((b1 as u64) << 8) | ((b2 as u64) << 16) | ((b3 as u64) << 24) | ((
    b4 as u64) << 32) | ((b5 as u64) << 40) | ((b6 as u64) << 48) | ((b7 as u64) << 56) == v)
        by (bit_vector)
        requires
            b0 == (v & 0xff) as u8,
            b1 == ((v >> 8) & 0xff) as u8,
            b2 == ((v >> 16) & 0xff) as u8,
            b3 == ((v >> 24) & 0xff) as u8,
            b4 == ((v >> 32) & 0xff) as u8,
            b5 == ((v >> 40) & 0xff) as u8,
            b6 == ((v >> 48) & 0xff) as u8,
            b7 == ((v >> 56) & 0xff) as u8,
    ;
}

/// The view of a decoded body: the bytes, or the error code.
pub open spec fn body_view(b: Result<Vec<u8>, ProtocolError>) -> Result<Seq<u8>, ProtocolError> {
    match b {
        Ok(v) => Ok(v@),
        Err(e) => Err(e),
    }
}

/// Parse one frame. Succeeds exactly when [`spec_de_frame`] does, and
/// returns exactly what it says.
pub fn de_frame(data: &[u8]) -> (r: Option<RxFrame>)
    ensures
        match r {
            Some(f) => spec_de_frame(data@) == Some((f.hdr, body_view(f.body), f.hdr_len as int))
                && f.hdr_len <= data@.len(),
            None => spec_de_frame(data@) is None,
        },
{
    if data.len() < 1 {
        return None;
    }
    let flags = data[0];
    if flags > 3 || flags == 2 {
        return None;
    }
    proof {
        assert(data@.skip(1) =~= data@.skip(1int));
    }
    let Some((srcw, srcn)) = dec_varint_at(data, 1) else {
        return None;
    };
    let Some((dstw, dstn)) = dec_varint_at(data, 1 + srcn) else {
        return None;
    };
    let fixed = 1 + srcn + dstn;
    if data.len() - fixed < 4 {
        return None;
    }
    let seq_no: u16 = (data[fixed] as u16) | ((data[fixed + 1] as u16) << 8);
    let Some(kind) = FrameKind::from_byte(data[fixed + 2]) else {
        return None;
    };
    let ttl = data[fixed + 3];
    let at = fixed + 4;
    let apdx_len: usize = if flags == 0 {
        0
    } else if flags == 1 {
        8
    } else {
        16
    };
    if data.len() - at < apdx_len {
        return None;
    }
    let any_all: Option<AnyAllAppendix> = if flags == 0 {
        None
    } else {
        let kb: [u8; 8] = [
            data[at],
            data[at + 1],
            data[at + 2],
            data[at + 3],
            data[at + 4],
            data[at + 5],
            data[at + 6],
            data[at + 7],
        ];
        proof {
            assert(kb =~= seq_to_key_bytes(data@.subrange(at as int, at as int + 8)));
        }
        let nash: Option<NameHash> = if flags == 3 {
            let nv = dec_u64_le(data, at + 8);
            proof {
                lemma_u64_le_roundtrip(nv);
            }
            Some(NameHash(nv))
        } else {
            None
        };
        Some(AnyAllAppendix { key: Key(kb), nash })
    };
    let hdr_len = at + apdx_len;
    let hdr = HeaderSeq {
        src: unpack_addr(srcw),
        dst: unpack_addr(dstw),
        any_all,
        seq_no,
        kind,
        ttl,
    };
    proof {
        lemma_u16_le_roundtrip(seq_no);
        assert(u16_from_le(data@[fixed as int], data@[fixed as int + 1]) == seq_no) by {
            assert(seq_no == (data@[fixed as int] as u16) | ((data@[fixed as int + 1] as u16) << 8));
        }
    }
    let mut body: Vec<u8> = Vec::new();
    body.extend_from_slice(&data[hdr_len..data.len()]);
    proof {
        assert(body@ =~= data@.skip(hdr_len as int));
    }
    if matches!(kind, FrameKind::ProtocolError) {
        if body.len() != 2 {
            return None;
        }
        let code: u16 = (body[0] as u16) | ((body[1] as u16) << 8);
        Some(RxFrame { hdr, hdr_len, body: Err(ProtocolError(code)) })
    } else {
        Some(RxFrame { hdr, hdr_len, body: Ok(body) })
    }
}

/// Encode a whole typed or raw frame: the header, then the body verbatim.
pub fn encode_frame_ty(h: &HeaderSeq, body: &[u8]) -> (r: Vec<u8>)
    ensures
        r@ == encode_header(*h) + body@,
{
    let mut out = encode_frame_hdr(h);
    out.extend_from_slice(body);
    out
}

/// Encode a protocol-error frame: the header, then the two code bytes in
/// place of a body.
pub fn encode_frame_err(h: &HeaderSeq, err: ProtocolError) -> (r: Vec<u8>)
    requires
        h.kind is ProtocolError,
    ensures
        r@ == encode_header(*h) + u16_le(err.0),
{
    let mut out = encode_frame_hdr(h);
    out.push((err.0 & 0xff) as u8);
    out.push((err.0 >> 8) as u8);
    proof {
        assert(out@ =~= encode_header(*h) + u16_le(err.0));
    }
    out
}

/// Every frame kind survives its trip through the wire byte.
pub proof fn lemma_kind_byte_roundtrip(k: FrameKind)
    ensures
        FrameKind::spec_from_byte(k.spec_byte()) == Some(k),
{
}

/// Parsing undoes encoding: a well-formed non-error frame comes back as the
/// header and body it was built from.
#[verifier::rlimit(60)]
pub proof fn lemma_frame_roundtrip(h: HeaderSeq, body: Seq<u8>)
    requires
        !(h.kind is ProtocolError),
    ensures
        spec_de_frame(encode_header(h) + body) == Some((h, Ok::<Seq<u8>, ProtocolError>(body),
        encode_header(h).len() as int)),
{
    let s = encode_header(h) + body;
    let srcv = varint32(addr_word(h.src));
    let dstv = varint32(addr_word(h.dst));
    let tail1 = dstv + u16_le(h.seq_no) + seq![h.kind.spec_byte(), h.ttl] + apdx_bytes(h.any_all)
        + body;
    assert(s.skip(1) =~= srcv + tail1);
    lemma_varint_roundtrip(addr_word(h.src), tail1);
    let srcn = srcv.len() as int;
    let tail2 = u16_le(h.seq_no) + seq![h.kind.spec_byte(), h.ttl] + apdx_bytes(h.any_all) + body;
    assert(s.skip(1 + srcn) =~= dstv + tail2);
    lemma_varint_roundtrip(addr_word(h.dst), tail2);
    let dstn = dstv.len() as int;
    lemma_addr_word_roundtrip(h.src);
    lemma_addr_word_roundtrip(h.dst);
    let fixed = 1 + srcn + dstn;
    assert(s[fixed] == (h.seq_no & 0xff) as u8 && s[fixed + 1] == (h.seq_no >> 8) as u8);
    lemma_u16_le_roundtrip(h.seq_no);
    lemma_kind_byte_roundtrip(h.kind);
    assert(s[fixed + 2] == h.kind.spec_byte() && s[fixed + 3] == h.ttl);
    let at = fixed + 4;
    lemma_frame_tail(h, body, s, at);
}

/// The appendix part of the round trip, shared by plain and error frames.
#[verifier::rlimit(60)]
proof fn lemma_frame_tail(h: HeaderSeq, tail: Seq<u8>, s: Seq<u8>, at: int)
    requires
        s == encode_header(h) + tail,
        at == 1 + varint32(addr_word(h.src)).len() + varint32(addr_word(h.dst)).len() + 4,
    ensures
        at + apdx_bytes(h.any_all).len() == encode_header(h).len(),
        s.len() == encode_header(h).len() + tail.len(),
        s.skip(encode_header(h).len() as int) =~= tail,
        match h.any_all {
            None => flags_byte(h) == 0,
            Some(a) => {
                &&& seq_to_key_bytes(s.subrange(at, at + 8)) == a.key.0
                &&& (a.nash is Some ==> flags_byte(h) == 3 && u64_from_le_seq(
                    s.subrange(at + 8, at + 16),
                ) == (a.nash->0).0)
                &&& (a.nash is None ==> flags_byte(h) == 1)
            },
        },
{
    match h.any_all {
        None => {},
        Some(a) => {
            assert(s.subrange(at, at + 8) =~= a.key.0@);
            assert(seq_to_key_bytes(a.key.0@) =~= a.key.0);
            match a.nash {
                Some(n) => {
                    assert(s.subrange(at + 8, at + 16) =~= u64_le(n.0));
                    lemma_u64_le_roundtrip(n.0);
                },
                None => {},
            }
        },
    }
}

/// Parsing undoes encoding for protocol-error frames too.
#[verifier::rlimit(60)]
pub proof fn lemma_err_frame_roundtrip(h: HeaderSeq, err: ProtocolError)
    requires
        h.kind is ProtocolError,
    ensures
        spec_de_frame(encode_header(h) + u16_le(err.0)) == Some((h, Err::<Seq<u8>, ProtocolError>(
        err), encode_header(h).len() as int)),
{
    let body = u16_le(err.0);
    let s = encode_header(h) + body;
    let srcv = varint32(addr_word(h.src));
    let dstv = varint32(addr_word(h.dst));
    let tail1 = dstv + u16_le(h.seq_no) + seq![h.kind.spec_byte(), h.ttl] + apdx_bytes(h.any_all)
        + body;
    assert(s.skip(1) =~= srcv + tail1);
    lemma_varint_roundtrip(addr_word(h.src), tail1);
    let srcn = srcv.len() as int;
    let tail2 = u16_le(h.seq_no) + seq![h.kind.spec_byte(), h.ttl] + apdx_bytes(h.any_all) + body;
    assert(s.skip(1 + srcn) =~= dstv + tail2);
    lemma_varint_roundtrip(addr_word(h.dst), tail2);
    let dstn = dstv.len() as int;
    lemma_addr_word_roundtrip(h.src);
    lemma_addr_word_roundtrip(h.dst);
    let fixed = 1 + srcn + dstn;
    assert(s[fixed] == (h.seq_no & 0xff) as u8 && s[fixed + 1] == (h.seq_no >> 8) as u8);
    lemma_u16_le_roundtrip(h.seq_no);
    lemma_kind_byte_roundtrip(h.kind);
    assert(s[fixed + 2] == h.kind.spec_byte() && s[fixed + 3] == h.ttl);
    let at = fixed + 4;
    lemma_frame_tail(h, body, s, at);
    let hdr_len = encode_header(h).len() as int;
    assert(s.skip(hdr_len)[0] == body[0] && s.skip(hdr_len)[1] == body[1]);
    lemma_u16_le_roundtrip(err.0);
}

} // verus!
