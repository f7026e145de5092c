//! Byte stuffing for stream transports.
//!
//! A stream link has no packet boundaries of its own, so frames are encoded
//! so that the byte `0x00` never appears inside them, and a single `0x00` is
//! sent after each frame as the terminator. The stuffing itself is done by
//! the `cobs` crate; this module gives its two transformations names that
//! the rest of the library states its contracts over.

use vstd::prelude::*;

verus! {

/// What the consistent-overhead byte stuffing of a data buffer is. The exact
/// bytes are the business of the `cobs` crate; contracts only rely on the
/// facts stated on [`cobs_encode`].
pub uninterp spec fn cobs_data_encoding(data: Seq<u8>) -> Seq<u8>;

/// What a received frame (terminator included) decodes to, or `None` when it
/// is not a well-formed stuffed frame.
pub uninterp spec fn cobs_frame_decoding(frame: Seq<u8>) -> Option<Seq<u8>>;

/// Relies on `cobs::encode_vec`: the encoding contains no zero byte, grows
/// by at most one byte per 254 plus one, and `cobs::decode_vec` undoes it
/// once the terminator is appended (the crate documents the encoding as
/// removing the sentinel value, leaving termination to the caller, and
/// `decode` as its reverse).
#[verifier::external_body]
pub fn cobs_encode(data: &[u8]) -> (r: Vec<u8>)
    ensures
        r@ == cobs_data_encoding(data@),
        forall|i: int| 0 <= i < r@.len() ==> r@[i] != 0,
        r@.len() <= data@.len() + data@.len() / 254 + 1,
        r@.len() >= data@.len() + 1,
        cobs_frame_decoding(r@.push(0)) == Some(data@),
{
    cobs::encode_vec(data)
}

/// Relies on `cobs::decode_vec`: it reverses [`cobs_encode`], reports
/// malformed frames as errors, and never produces more bytes than it reads.
#[verifier::external_body]
pub fn cobs_decode(frame: &[u8]) -> (r: Option<Vec<u8>>)
    ensures
        match r {
            Some(v) => cobs_frame_decoding(frame@) == Some(v@) && v@.len() <= frame@.len(),
            None => cobs_frame_decoding(frame@) is None,
        },
{
    cobs::decode_vec(frame).ok()
}

} // verus!
