//! The receive-side accumulator for byte-stuffed streams.
//!
//! Bytes arrive from a stream transport in chunks that need not line up with
//! frame boundaries. The accumulator buffers them until a `0x00` terminator
//! appears, then decodes the stuffed frame and hands back the decoded bytes
//! together with whatever part of the chunk belongs to the next frame.
//!
//! When a chunk would overrun the storage, the current frame is lost: the
//! accumulator discards everything up to the next terminator and reports
//! [`FeedResult::OverFull`] so the caller knows a frame went missing.

use vstd::prelude::*;

use crate::cobs_codec::{cobs_decode, cobs_frame_decoding};

verus! {

/// A push did not fit the storage.
#[derive(Debug)]
pub struct Overflow;

/// Bounded byte storage for the accumulator. Pushes either append the whole
/// chunk or fail and empty the storage.
pub trait Storage: Sized {
    /// The bytes currently held.
    spec fn contents(&self) -> Seq<u8>;

    /// How many bytes the storage can hold at most.
    spec fn capacity(&self) -> nat;

    /// Is the storage currently empty?
    fn is_empty(&self) -> (r: bool)
        ensures
            r == (self.contents().len() == 0),
    ;

    /// Push the data into the storage.
    ///
    /// Returns an error and empties the storage if the data does not fit.
    fn push(&mut self, data: &[u8]) -> (r: Result<(), Overflow>)
        ensures
            final(self).capacity() == old(self).capacity(),
            match r {
                Ok(_) => {
                    &&& old(self).contents().len() + data@.len() <= old(self).capacity()
                    &&& final(self).contents() == old(self).contents() + data@
                },
                Err(_) => {
                    &&& old(self).contents().len() + data@.len() > old(self).capacity()
                    &&& final(self).contents() == Seq::<u8>::empty()
                },
            },
    ;

    /// Hand out the held bytes joined with `data`, then empty the storage.
    ///
    /// Returns an error (and still empties the storage) if the joined bytes
    /// would not fit.
    fn push_reset(&mut self, data: &[u8]) -> (r: Result<Vec<u8>, Overflow>)
        ensures
            final(self).capacity() == old(self).capacity(),
            final(self).contents() == Seq::<u8>::empty(),
            match r {
                Ok(v) => {
                    &&& old(self).contents().len() + data@.len() <= old(self).capacity()
                    &&& v@ == old(self).contents() + data@
                },
                Err(_) => old(self).contents().len() + data@.len() > old(self).capacity(),
            },
    ;
}

/// Storage over a caller-supplied buffer: the buffer's length is the
/// capacity.
pub struct SliceStorage {
    data: Vec<u8>,
    cap: usize,
}

impl SliceStorage {
    /// Take over a backing buffer; its length becomes the capacity.
    pub fn new(sli: Vec<u8>) -> (r: SliceStorage)
        ensures
            r.contents() == Seq::<u8>::empty(),
            r.capacity() == sli@.len(),
    {
        let cap = sli.len();
        let mut data = sli;
        data.clear();
        SliceStorage { data, cap }
    }
}

impl Storage for SliceStorage {
    closed spec fn contents(&self) -> Seq<u8> {
        self.data@
    }

    closed spec fn capacity(&self) -> nat {
        self.cap as nat
    }

    fn is_empty(&self) -> (r: bool) {
        self.data.len() == 0
    }

    fn push(&mut self, data: &[u8]) -> (r: Result<(), Overflow>) {
        if data.len() <= self.cap && self.data.len() <= self.cap - data.len() {
            self.data.extend_from_slice(data);
            Ok(())
        } else {
            self.data.clear();
            Err(Overflow)
        }
    }

    fn push_reset(&mut self, data: &[u8]) -> (r: Result<Vec<u8>, Overflow>) {
        if data.len() <= self.cap && self.data.len() <= self.cap - data.len() {
            let mut joined: Vec<u8> = Vec::new();
            joined.extend_from_slice(self.data.as_slice());
            joined.extend_from_slice(data);
            self.data.clear();
            Ok(joined)
        } else {
            self.data.clear();
            Err(Overflow)
        }
    }
}

/// The index of the first `0x00` in a byte string, if any.
pub open spec fn first_zero(s: Seq<u8>) -> Option<int>
    decreases s.len(),
{
    if s.len() == 0 {
        None
    } else if s[0] == 0 {
        Some(0)
    } else {
        match first_zero(s.skip(1)) {
            Some(i) => Some(i + 1),
            None => None,
        }
    }
}

/// `first_zero` finds exactly the first zero.
pub proof fn lemma_first_zero(s: Seq<u8>)
    ensures
        match first_zero(s) {
            Some(i) => 0 <= i < s.len() && s[i] == 0 && forall|j: int| 0 <= j < i ==> s[j] != 0,
            None => forall|j: int| 0 <= j < s.len() ==> s[j] != 0,
        },
    decreases s.len(),
{
    if s.len() > 0 && s[0] != 0 {
        lemma_first_zero(s.skip(1));
        match first_zero(s.skip(1)) {
            Some(i) => {
                assert(s[i + 1] == s.skip(1)[i]);
                assert forall|j: int| 0 <= j < i + 1 implies s[j] != 0 by {
                    if j > 0 {
                        assert(s[j] == s.skip(1)[j - 1]);
                    }
                }
            },
            None => {
                assert forall|j: int| 0 <= j < s.len() implies s[j] != 0 by {
                    if j > 0 {
                        assert(s[j] == s.skip(1)[j - 1]);
                    }
                }
            },
        }
    }
}

/// Find the first zero of a chunk.
fn find_first_zero(data: &[u8]) -> (r: Option<usize>)
    ensures
        match r {
            Some(i) => first_zero(data@) == Some(i as int),
            None => first_zero(data@) is None,
        },
{
    let mut i: usize = 0;
    while i < data.len()
        invariant
            i <= data@.len(),
            forall|j: int| 0 <= j < i ==> data@[j] != 0,
        decreases data@.len() - i,
    {
        if data[i] == 0 {
            proof {
                lemma_first_zero_at(data@, i as int);
            }
            return Some(i);
        }
        i += 1;
    }
    proof {
        lemma_first_zero(data@);
    }
    None
}

/// The first zero is where the first zero is.
proof fn lemma_first_zero_at(s: Seq<u8>, i: int)
    requires
        0 <= i < s.len(),
        s[i] == 0,
        forall|j: int| 0 <= j < i ==> s[j] != 0,
    ensures
        first_zero(s) == Some(i),
    decreases s.len(),
{
    if s[0] != 0 {
        lemma_first_zero_at(s.skip(1), i - 1);
    }
}

/// Copy a range of a chunk into owned bytes.
fn range_to_vec(data: &[u8], from: usize, to: usize) -> (r: Vec<u8>)
    requires
        from <= to <= data@.len(),
    ensures
        r@ == data@.subrange(from as int, to as int),
{
    let mut out: Vec<u8> = Vec::new();
    out.extend_from_slice(&data[from..to]);
    out
}

/// The result of feeding one chunk to the accumulator.
pub enum FeedResult {
    /// The whole chunk was buffered; no terminator yet.
    Consumed,
    /// The storage was (or had been) overrun; the current frame is lost.
    /// Carries the part of the chunk after the terminator, empty when the
    /// whole chunk was discarded.
    OverFull(Vec<u8>),
    /// A terminator arrived but the frame did not decode. Carries the part
    /// of the chunk after the terminator.
    DeserError(Vec<u8>),
    /// A whole frame arrived inside this one chunk and decoded. `data` holds
    /// the decoded bytes, `remaining` the rest of the chunk.
    SuccessInput { data: Vec<u8>, remaining: Vec<u8> },
    /// A frame completed out of buffered bytes plus this chunk and decoded.
    Success { data: Vec<u8>, remaining: Vec<u8> },
}

/// The accumulator: storage for the frame being collected, plus the flag
/// that says the current frame already overran and is being discarded.
pub struct CobsAccumulator<S: Storage> {
    buf: S,
    in_overflow: bool,
}

impl<S: Storage> CobsAccumulator<S> {
    /// The bytes collected toward the current frame.
    pub closed spec fn contents(&self) -> Seq<u8> {
        self.buf.contents()
    }

    /// Whether the current frame has overrun the storage and is being
    /// discarded up to the next terminator.
    pub closed spec fn overflow(&self) -> bool {
        self.in_overflow
    }

    /// The storage capacity.
    pub closed spec fn capacity(&self) -> nat {
        self.buf.capacity()
    }

    /// Create a new accumulator over the given storage.
    pub fn new(s: S) -> (r: CobsAccumulator<S>)
        ensures
            r.contents() == s.contents(),
            r.overflow() == false,
            r.capacity() == s.capacity(),
    {
        CobsAccumulator { buf: s, in_overflow: false }
    }

    /// Feed one chunk. Buffers it when no terminator is present; at a
    /// terminator, decodes the collected frame and returns the decoded bytes
    /// and the unconsumed rest of the chunk; on overrun, discards the
    /// current frame and reports it.
    pub fn feed_raw(&mut self, input: &[u8]) -> (r: FeedResult)
        ensures
            final(self).capacity() == old(self).capacity(),
            ({
                let s = input@;
                let cont = old(self).contents();
                let cap = old(self).capacity();
                if s.len() == 0 {
                    &&& r is Consumed
                    &&& final(self).contents() == cont
                    &&& final(self).overflow() == old(self).overflow()
                } else {
                    match first_zero(s) {
                        None => {
                            if old(self).overflow() {
                                &&& (r matches FeedResult::OverFull(rem) && rem@ == Seq::<
                                    u8,
                                >::empty())
                                &&& final(self).contents() == cont
                                &&& final(self).overflow()
                            } else if cont.len() + s.len() <= cap {
                                &&& r is Consumed
                                &&& final(self).contents() == cont + s
                                &&& !final(self).overflow()
                            } else {
                                &&& (r matches FeedResult::OverFull(rem) && rem@ == Seq::<
                                    u8,
                                >::empty())
                                &&& final(self).contents() == Seq::<u8>::empty()
                                &&& final(self).overflow()
                            }
                        },
                        Some(n) => {
                            let take = s.take(n + 1);
                            let release = s.skip(n + 1);
                            if old(self).overflow() {
                                &&& (r matches FeedResult::OverFull(rem) && rem@ == release)
                                &&& final(self).contents() == cont
                                &&& !final(self).overflow()
                            } else if cont.len() == 0 {
                                &&& final(self).contents() == Seq::<u8>::empty()
                                &&& !final(self).overflow()
                                &&& match cobs_frame_decoding(take) {
                                    Some(d) => r matches FeedResult::SuccessInput { data, remaining }
                                        && data@ == d && remaining@ == release,
                                    None => r matches FeedResult::DeserError(rem) && rem@
                                        == release,
                                }
                            } else if cont.len() + (n + 1) <= cap {
                                &&& final(self).contents() == Seq::<u8>::empty()
                                &&& !final(self).overflow()
                                &&& match cobs_frame_decoding(cont + take) {
                                    Some(d) => r matches FeedResult::Success { data, remaining }
                                        && data@ == d && remaining@ == release,
                                    None => r matches FeedResult::DeserError(rem) && rem@
                                        == release,
                                }
                            } else {
                                &&& final(self).contents() == Seq::<u8>::empty()
                                &&& final(self).overflow()
                                &&& (r matches FeedResult::OverFull(rem) && rem@ == release)
                            }
                        },
                    }
                }
            }),
    {
        if input.len() == 0 {
            return FeedResult::Consumed;
        }
        let zero_pos = find_first_zero(input);
        match zero_pos {
            Some(n) => {
                proof {
                    lemma_first_zero(input@);
                }
                // The chunk completes a frame at the terminator: split it
                // there, terminator included in the frame part.
                let take = range_to_vec(input, 0, n + 1);
                let release = range_to_vec(input, n + 1, input.len());
                proof {
                    assert(take@ =~= input@.take(n + 1));
                    assert(release@ =~= input@.skip(n + 1));
                }
                // A terminator ends the overflow condition: the lost frame
                // is fully discarded now.
                if self.in_overflow {
                    self.in_overflow = false;
                    return FeedResult::OverFull(release);
                }
                if self.buf.is_empty() {
                    // Nothing buffered: decode straight out of the chunk.
                    match cobs_decode(take.as_slice()) {
                        Some(data) => FeedResult::SuccessInput { data, remaining: release },
                        None => FeedResult::DeserError(release),
                    }
                } else {
                    // Join the buffered part with the chunk's head.
                    match self.buf.push_reset(take.as_slice()) {
                        Ok(joined) => match cobs_decode(joined.as_slice()) {
                            Some(data) => FeedResult::Success { data, remaining: release },
                            None => FeedResult::DeserError(release),
                        },
                        Err(Overflow) => {
                            self.in_overflow = true;
                            FeedResult::OverFull(release)
                        },
                    }
                }
            },
            None => {
                // No terminator: the whole chunk belongs to the frame being
                // collected (or to the one being discarded).
                if self.in_overflow {
                    return FeedResult::OverFull(Vec::new());
                }
                match self.buf.push(input) {
                    Ok(_) => FeedResult::Consumed,
                    Err(Overflow) => {
                        // The chunk had no terminator, so nothing of it can
                        // be given back: discard it whole.
                        self.in_overflow = true;
                        FeedResult::OverFull(Vec::new())
                    },
                }
            },
        }
    }
}

/// One whole frame, stuffed and terminated, fed to an idle accumulator with
/// room for it, comes back as exactly one successful decode: the frame's own
/// bytes, with nothing left over.
pub fn feed_one_frame<S: Storage>(acc: &mut CobsAccumulator<S>, data: &[u8]) -> (r: FeedResult)
    requires
        old(acc).contents().len() == 0,
        !old(acc).overflow(),
    ensures
        final(acc).capacity() == old(acc).capacity(),
        final(acc).contents().len() == 0,
        !final(acc).overflow(),
        (r matches FeedResult::SuccessInput { data: d, remaining } && d@ == data@ && remaining@
            == Seq::<u8>::empty()),
{
    let line = crate::cobs_codec::cobs_encode(data);
    let mut framed = line;
    framed.push(0);
    proof {
        let s = framed@;
        assert(s == crate::cobs_codec::cobs_data_encoding(data@).push(0));
        lemma_first_zero_at(s, s.len() - 1);
        assert(s.take(s.len() as int) =~= s);
        assert(s.skip(s.len() as int) =~= Seq::<u8>::empty());
    }
    acc.feed_raw(framed.as_slice())
}

} // verus!
