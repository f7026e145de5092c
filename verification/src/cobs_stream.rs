//! The byte-stuffed stream sink: the write half of a serial-like interface.
//!
//! A sink owns a bounded queue of outgoing frames. Each accepted frame is
//! the stuffed encoding of a wire frame followed by the `0x00` terminator,
//! ready for a transmit worker to drain to the line byte for byte. A full
//! queue reports back-pressure; the callers surface it as
//! `InterfaceFull`.

use vstd::prelude::*;

use crate::addr::{HeaderSeq, ProtocolError};
use crate::cobs_codec::{cobs_data_encoding, cobs_encode};
use crate::wire_frames::{encode_frame_err, encode_frame_hdr, encode_frame_ty, encode_header, u16_le};

verus! {

/// The mathematical value of a sink: its limits and the queued frames,
/// oldest first.
pub ghost struct SinkV {
    pub mtu: u16,
    pub cap: nat,
    pub frames: Seq<Seq<u8>>,
}

/// A bounded queue of stuffed, terminator-delimited frames.
pub struct Sink {
    pub mtu: u16,
    pub cap: usize,
    pub frames: Vec<Vec<u8>>,
}

/// The stuffed line form of one wire frame: its encoding with the
/// terminator appended.
pub open spec fn line_frame(wire: Seq<u8>) -> Seq<u8> {
    cobs_data_encoding(wire).push(0)
}

impl Sink {
    /// This sink's mathematical value.
    pub open spec fn model(&self) -> SinkV {
        SinkV {
            mtu: self.mtu,
            cap: self.cap as nat,
            frames: self.frames@.map_values(|f: Vec<u8>| f@),
        }
    }

    /// A sink for frames of at most `mtu` wire bytes, queuing at most `cap`
    /// frames.
    pub fn new(mtu: u16, cap: usize) -> (r: Sink)
        ensures
            r.model() == (SinkV { mtu, cap: cap as nat, frames: Seq::<Seq<u8>>::empty() }),
    {
        let frames: Vec<Vec<u8>> = Vec::new();
        proof {
            assert(frames@.map_values(|f: Vec<u8>| f@) =~= Seq::<Seq<u8>>::empty());
        }
        Sink { mtu, cap, frames }
    }

    /// What accepting one wire frame does: refused when it is longer than
    /// the MTU or the queue is full, queued in line form otherwise.
    pub open spec fn offer_model(pre: SinkV, wire: Seq<u8>) -> (SinkV, Result<(), ()>) {
        if wire.len() > pre.mtu as nat || pre.frames.len() >= pre.cap {
            (pre, Err(()))
        } else {
            (SinkV { frames: pre.frames.push(line_frame(wire)), ..pre }, Ok(()))
        }
    }

    /// Queue one already encoded wire frame in its stuffed line form.
    fn offer(&mut self, wire: Vec<u8>) -> (r: Result<(), ()>)
        ensures
            ({
                let m = Sink::offer_model(old(self).model(), wire@);
                final(self).model() == m.0 && r == m.1
            }),
    {
        if wire.len() > self.mtu as usize || self.frames.len() >= self.cap {
            return Err(());
        }
        let mut line = cobs_encode(wire.as_slice());
        line.push(0);
        let ghost pre = self.model();
        self.frames.push(line);
        proof {
            assert(self.model().frames =~= pre.frames.push(line_frame(wire@)));
        }
        Ok(())
    }

    /// Accept a typed message: the header and the serialized body become one
    /// stuffed frame. Error-kind headers are refused here.
    pub fn send_ty(&mut self, hdr: &HeaderSeq, body: &Vec<u8>) -> (r: Result<(), ()>)
        ensures
            ({
                if hdr.kind is ProtocolError {
                    final(self).model() == old(self).model() && r == Err::<(), ()>(())
                } else {
                    let m = Sink::offer_model(old(self).model(), encode_header(*hdr) + body@);
                    final(self).model() == m.0 && r == m.1
                }
            }),
    {
        if matches!(hdr.kind, crate::addr::FrameKind::ProtocolError) {
            return Err(());
        }
        let wire = encode_frame_ty(hdr, body.as_slice());
        self.offer(wire)
    }

    /// Accept an already serialized frame: the raw header bytes and the body
    /// go to the line verbatim, stuffed.
    pub fn send_raw(&mut self, hdr: &HeaderSeq, hdr_raw: &Vec<u8>, body: &Vec<u8>) -> (r: Result<
        (),
        (),
    >)
        ensures
            ({
                if hdr.kind is ProtocolError {
                    final(self).model() == old(self).model() && r == Err::<(), ()>(())
                } else {
                    let m = Sink::offer_model(old(self).model(), hdr_raw@ + body@);
                    final(self).model() == m.0 && r == m.1
                }
            }),
    {
        if matches!(hdr.kind, crate::addr::FrameKind::ProtocolError) {
            return Err(());
        }
        let mut wire: Vec<u8> = Vec::new();
        wire.extend_from_slice(hdr_raw.as_slice());
        wire.extend_from_slice(body.as_slice());
        proof {
            assert(wire@ =~= hdr_raw@ + body@);
        }
        self.offer(wire)
    }

    /// Accept a protocol-error frame; only error-kind headers belong here.
    pub fn send_err(&mut self, hdr: &HeaderSeq, err: ProtocolError) -> (r: Result<(), ()>)
        ensures
            ({
                if !(hdr.kind is ProtocolError) {
                    final(self).model() == old(self).model() && r == Err::<(), ()>(())
                } else {
                    let m = Sink::offer_model(old(self).model(), encode_header(*hdr) + u16_le(
                        err.0,
                    ));
                    final(self).model() == m.0 && r == m.1
                }
            }),
    {
        if !matches!(hdr.kind, crate::addr::FrameKind::ProtocolError) {
            return Err(());
        }
        let wire = encode_frame_err(hdr, err);
        self.offer(wire)
    }

    /// Hand the oldest queued line frame to the transmit worker.
    pub fn pop_frame(&mut self) -> (r: Option<Vec<u8>>)
        ensures
            match r {
                Some(f) => old(self).model().frames.len() > 0 && f@ == old(
                    self,
                ).model().frames[0] && final(self).model() == (SinkV {
                    frames: old(self).model().frames.skip(1),
                    ..old(self).model()
                }),
                None => old(self).model().frames.len() == 0 && final(self).model() == old(
                    self,
                ).model(),
            },
    {
        if self.frames.len() == 0 {
            proof {
                assert(self.model().frames.len() == 0);
            }
            return None;
        }
        let f = self.frames.remove(0);
        proof {
            assert(self.model().frames =~= old(self).model().frames.skip(1));
        }
        Some(f)
    }
}

} // verus!
