//! The router side of the mesh: one interface per connected edge, each
//! owning a network id, plus the receive path that feeds decoded frames back
//! into a stack.
//!
//! Network ids are assigned lowest-free starting at 1, up to 65534; closed
//! interfaces are collected before a new id is chosen. Inbound frames whose
//! source network is the wildcard 0 are rewritten to the interface's
//! assigned id before they re-enter the stack, so they cannot later be
//! mistaken for local frames.

use vstd::prelude::*;

use crate::addr::{Address, Header, HeaderSeq, ProtocolError};
use crate::cobs_stream::{Sink, SinkV};
use crate::interface_manager::{InterfaceSendError, InterfaceState, Profile, SetStateError};
use crate::net_stack::{wrap_inc, NetStackInner, NetStackSendError};
use crate::wire_frames::{de_frame, encode_header, spec_de_frame, u16_le, RxFrame};

verus! {

/// Why an interface could not be added.
#[derive(Clone, Copy, Debug, PartialEq, Eq, Structural)]
pub enum Error {
    /// All 65534 network ids are taken.
    OutOfNetIds,
}

/// One registered downstream interface: the net id it speaks for, whether
/// its worker has hung up, and its outgoing sink.
pub struct RouterInterfaceSlot {
    pub net_id: u16,
    pub closed: bool,
    pub sink: Sink,
}

/// The router's interface table and its egress sequence counter.
pub struct RouterProfile {
    pub interfaces: Vec<RouterInterfaceSlot>,
    pub seq_no: u16,
    pub any_closed: bool,
}

/// Whether some interface in the table owns the given net id.
pub open spec fn net_used(ifs: Seq<RouterInterfaceSlot>, m: u16) -> bool {
    exists|k: int| 0 <= k < ifs.len() && (#[trigger] ifs[k].net_id) == m
}

/// The interface table is sorted strictly by net id, and every id is in
/// `1..=65534`.
pub open spec fn router_wf(ifs: Seq<RouterInterfaceSlot>) -> bool {
    &&& forall|i: int| 0 <= i < ifs.len() ==> 1 <= (#[trigger] ifs[i].net_id) <= 65534
    &&& forall|i: int, j: int|
        0 <= i < j < ifs.len() ==> (#[trigger] ifs[i].net_id) < (#[trigger] ifs[j].net_id)
}

impl RouterProfile {
    /// The structural invariant: see [`router_wf`].
    pub open spec fn wf(self) -> bool {
        router_wf(self.interfaces@)
    }

    /// A router with no interfaces yet.
    pub fn new() -> (r: RouterProfile)
        ensures
            r.wf(),
            r.interfaces@.len() == 0,
            r.seq_no == 0,
    {
        RouterProfile { interfaces: Vec::new(), seq_no: 0, any_closed: false }
    }

    /// Note that the interface's worker hung up: its slot is flagged closed
    /// so the next allocation collects it.
    pub fn mark_closed(&mut self, net_id: u16) -> (r: bool)
        requires
            old(self).wf(),
        ensures
            final(self).wf(),
            final(self).seq_no == old(self).seq_no,
            ({
                let ifs = old(self).model().ifaces;
                let i = find_net_v(ifs, net_id);
                if i >= 0 {
                    &&& r == true
                    &&& final(self).model().ifaces == ifs.update(
                        i,
                        RouterIfV { closed: true, ..ifs[i] },
                    )
                    &&& final(self).model().any_closed == true
                } else {
                    r == false && final(self).model() == old(self).model()
                }
            }),
    {
        let ghost ifs = self.model().ifaces;
        let Some(idx) = find_net_index(&self.interfaces, net_id) else {
            return false;
        };
        let ghost pre = self.interfaces@;
        let mut slot = self.interfaces.remove(idx);
        slot.closed = true;
        let ghost slotg = slot;
        self.interfaces.insert(idx, slot);
        self.any_closed = true;
        proof {
            assert(self.interfaces@ =~= pre.update(idx as int, slotg));
            assert(forall|j: int|
                0 <= j < self.interfaces@.len() ==> (#[trigger] self.interfaces@[j].net_id)
                    == pre[j].net_id);
            assert(self.model().ifaces =~= ifs.update(
                idx as int,
                RouterIfV { closed: true, ..ifs[idx as int] },
            ));
        }
        true
    }

    /// Add an interface around the given sink, assigning the lowest free
    /// network id. Closed interfaces are collected first when any are known.
    /// Fails exactly when all 65534 ids are in use.
    pub fn alloc_intfc(&mut self, sink: Sink) -> (r: Result<u16, Error>)
        requires
            old(self).wf(),
        ensures
            final(self).wf(),
            final(self).seq_no == old(self).seq_no,
            match r {
                Ok(net) => {
                    &&& 1 <= net <= 65534
                    &&& exists|k: int|
                        0 <= k < final(self).interfaces@.len() && (#[trigger] final(self).interfaces@[k].net_id) == net && final(self).interfaces@[k].sink.model()
                            == sink.model() && !final(self).interfaces@[k].closed
                    &&& forall|m: u16| 1 <= m < net ==> #[trigger] net_used(
                        final(self).interfaces@,
                        m,
                    )
                },
                Err(e) => e == Error::OutOfNetIds && final(self).interfaces@.len() >= 65534,
            },
    {
        // Collect interfaces whose workers closed, so their ids free up.
        if self.any_closed {
            let mut i: usize = 0;
            while i < self.interfaces.len()
                invariant
                    router_wf(self.interfaces@),
                    i <= self.interfaces@.len(),
                    self.seq_no == old(self).seq_no,
                decreases self.interfaces@.len() - i,
            {
                if self.interfaces[i].closed {
                    let ghost pre = self.interfaces@;
                    self.interfaces.remove(i);
                    proof {
                        assert(router_wf(self.interfaces@)) by {
                            assert(forall|j: int|
                                0 <= j < self.interfaces@.len() ==> #[trigger] self.interfaces@[j]
                                    == if j < i {
                                    pre[j]
                                } else {
                                    pre[j + 1]
                                });
                        }
                    }
                } else {
                    i += 1;
                }
            }
        }
        if self.interfaces.len() >= 65534 {
            return Err(Error::OutOfNetIds);
        }
        // The table is sorted, so walk it until the first gap.
        let mut cand: u16 = 1;
        let mut i: usize = 0;
        let n = self.interfaces.len();
        while i < n && self.interfaces[i].net_id == cand
            invariant
                router_wf(self.interfaces@),
                n == self.interfaces@.len(),
                n < 65534,
                i <= n,
                cand == i + 1,
                self.seq_no == old(self).seq_no,
                forall|j: int| 0 <= j < i ==> (#[trigger] self.interfaces@[j].net_id) == j + 1,
            decreases n - i,
        {
            i += 1;
            cand = cand + 1;
        }
        proof {
            // Everything before the insertion point is the contiguous run
            // `1..=i`, and everything from it on is above the candidate.
            assert forall|j: int|
                i <= j < self.interfaces@.len() implies (#[trigger] self.interfaces@[j].net_id)
                > cand by {
                if i > 0 {
                    assert(self.interfaces@[i - 1].net_id == i);
                    if j > i as int {
                        assert(self.interfaces@[i as int].net_id > self.interfaces@[i - 1].net_id);
                    }
                }
                if j > i as int {
                    assert(self.interfaces@[i as int].net_id < self.interfaces@[j].net_id);
                }
            }
        }
        let ghost pre = self.interfaces@;
        let slot = RouterInterfaceSlot { net_id: cand, closed: false, sink };
        let ghost slotg = slot;
        self.interfaces.insert(i, slot);
        proof {
            assert(forall|j: int|
                0 <= j < self.interfaces@.len() ==> #[trigger] self.interfaces@[j] == if j
                    < i as int {
                    pre[j]
                } else if j == i as int {
                    slotg
                } else {
                    pre[j - 1]
                });
            assert(self.interfaces@[i as int].net_id == cand);
            assert(self.interfaces@[i as int].sink.model() == sink.model());
            assert(!self.interfaces@[i as int].closed);
            assert((i as int) < self.interfaces@.len());
            assert forall|m: u16| 1 <= m < cand implies #[trigger] net_used(
                self.interfaces@,
                m,
            ) by {
                assert(self.interfaces@[m - 1].net_id == m);
            }
        }
        Ok(cand)
    }
}

/// One inbound frame, decoded, rewritten and fed into the stack.
///
/// A frame whose source network is the wildcard 0 was sent by the edge on
/// the far end of this interface: its source is rewritten to the
/// interface's net id before local dispatch, so replies route back out.
/// Returns `None` for undecodable frames (and for error frames aimed at the
/// broadcast port, which are never dispatched), `Some` with the stack's
/// verdict otherwise.
pub fn process_frame<P: Profile>(
    stack: &mut NetStackInner<P>,
    data: &Vec<u8>,
    net_id: u16,
) -> (r: Option<Result<(), NetStackSendError>>)
    requires
        old(stack).wf(),
    ensures
        final(stack).wf(),
        match spec_de_frame(data@) {
            None => r is None && *final(stack) == *old(stack),
            Some(f) => {
                let rewritten = rewrite_inbound_src(f.0, net_id);
                let h = rewritten.spec_to_header();
                &&& rewritten.src.network_id == (if f.0.src.network_id == 0 {
                    net_id
                } else {
                    f.0.src.network_id
                })
                &&& final(stack).next_sid == old(stack).next_sid
                &&& match f.1 {
                    Ok(body) => ({
                        let t = crate::net_stack::send_raw_transition::<P>(
                            crate::net_stack::slots_v(old(stack).sockets@),
                            old(stack).seq_no,
                            old(stack).profile.model(),
                            h,
                            data@.take(f.2),
                            body,
                        );
                        &&& crate::net_stack::slots_v(final(stack).sockets@) == t.0
                        &&& final(stack).seq_no == t.1
                        &&& final(stack).profile.model() == t.2
                        &&& r == Some(t.3)
                    }),
                    Err(e) => if f.0.dst.port_id == 255 {
                        // An error frame must never be broadcast: dropped.
                        r is None && *final(stack) == *old(stack)
                    } else {
                        let t = crate::net_stack::send_err_transition::<P>(
                            crate::net_stack::slots_v(old(stack).sockets@),
                            old(stack).seq_no,
                            old(stack).profile.model(),
                            h,
                            e,
                        );
                        &&& crate::net_stack::slots_v(final(stack).sockets@) == t.0
                        &&& final(stack).seq_no == t.1
                        &&& final(stack).profile.model() == t.2
                        &&& r == Some(t.3)
                    },
                }
            },
        },
{
    let Some(frame) = de_frame(data.as_slice()) else {
        return None;
    };
    let RxFrame { hdr, hdr_len, body } = frame;
    // Rewrite wildcard sources to this interface's assigned net id before
    // the frame enters local dispatch.
    let hdr2: HeaderSeq = if hdr.src.network_id == 0 {
        HeaderSeq {
            src: Address {
                network_id: net_id,
                node_id: hdr.src.node_id,
                port_id: hdr.src.port_id,
            },
            ..hdr
        }
    } else {
        hdr
    };
    proof {
        assert(hdr2 == rewrite_inbound_src(hdr, net_id));
    }
    let h = hdr2.to_header();
    match body {
        Ok(b) => {
            let mut hdr_raw: Vec<u8> = Vec::new();
            hdr_raw.extend_from_slice(&data.as_slice()[0..hdr_len]);
            proof {
                assert(hdr_raw@ =~= data@.take(hdr_len as int));
            }
            Some(stack.send_raw(&h, &hdr_raw, &b))
        },
        Err(e) => {
            if h.dst.port_id == 255 {
                // An error frame must never be broadcast.
                return None;
            }
            Some(stack.send_err(&h, e))
        },
    }
}

/// The inbound source rewrite: a wildcard source network becomes the
/// receiving interface's net id; anything else passes through.
pub open spec fn rewrite_inbound_src(hdr: HeaderSeq, net_id: u16) -> HeaderSeq {
    if hdr.src.network_id == 0 {
        HeaderSeq {
            src: Address {
                network_id: net_id,
                node_id: hdr.src.node_id,
                port_id: hdr.src.port_id,
            },
            ..hdr
        }
    } else {
        hdr
    }
}

/// The node id a router answers to inside each of its point-to-point links.
pub const ROUTER_NODE_ID: u8 = 1;

/// The mathematical value of one registered interface.
pub ghost struct RouterIfV {
    pub net_id: u16,
    pub closed: bool,
    pub sink: SinkV,
}

/// The mathematical value of the router profile.
pub ghost struct RouterV {
    pub ifaces: Seq<RouterIfV>,
    pub seq_no: u16,
    pub any_closed: bool,
}

impl RouterInterfaceSlot {
    pub open spec fn if_v(self) -> RouterIfV {
        RouterIfV { net_id: self.net_id, closed: self.closed, sink: self.sink.model() }
    }
}

/// The first interface that speaks for the given net id, or a negative
/// value.
pub open spec fn find_net_v(ifs: Seq<RouterIfV>, net: u16) -> int
    decreases ifs.len(),
{
    if ifs.len() == 0 {
        -1
    } else if ifs[0].net_id == net {
        0
    } else {
        let t = find_net_v(ifs.skip(1), net);
        if t < 0 {
            -1
        } else {
            t + 1
        }
    }
}

/// The destination's interface is where the destination's interface is.
proof fn lemma_find_net_at(ifs: Seq<RouterIfV>, net: u16, i: int)
    requires
        0 <= i < ifs.len(),
        ifs[i].net_id == net,
        forall|j: int| 0 <= j < i ==> (#[trigger] ifs[j].net_id) != net,
    ensures
        find_net_v(ifs, net) == i,
    decreases ifs.len(),
{
    if ifs[0].net_id != net {
        assert(ifs.skip(1)[i - 1] == ifs[i]);
        assert(forall|j: int| 0 <= j < i - 1 ==> ifs.skip(1)[j] == ifs[j + 1]);
        lemma_find_net_at(ifs.skip(1), net, i - 1);
    }
}

/// No interface speaks for the net, so the search comes back negative.
proof fn lemma_find_net_none(ifs: Seq<RouterIfV>, net: u16)
    requires
        forall|j: int| 0 <= j < ifs.len() ==> (#[trigger] ifs[j].net_id) != net,
    ensures
        find_net_v(ifs, net) < 0,
    decreases ifs.len(),
{
    if ifs.len() > 0 {
        assert(forall|j: int| 0 <= j < ifs.len() - 1 ==> ifs.skip(1)[j] == ifs[j + 1]);
        lemma_find_net_none(ifs.skip(1), net);
    }
}

/// Find the index of the interface that speaks for the given net id.
fn find_net_index(interfaces: &Vec<RouterInterfaceSlot>, net: u16) -> (r: Option<usize>)
    ensures
        ({
            let ifs = interfaces@.map_values(|s: RouterInterfaceSlot| s.if_v());
            match r {
                Some(i) => find_net_v(ifs, net) == i as int && i < interfaces@.len(),
                None => find_net_v(ifs, net) < 0,
            }
        }),
{
    let ghost ifs = interfaces@.map_values(|s: RouterInterfaceSlot| s.if_v());
    let mut i: usize = 0;
    let n = interfaces.len();
    while i < n
        invariant
            n == interfaces@.len(),
            ifs == interfaces@.map_values(|s: RouterInterfaceSlot| s.if_v()),
            i <= n,
            forall|j: int| 0 <= j < i ==> (#[trigger] ifs[j].net_id) != net,
        decreases n - i,
    {
        if interfaces[i].net_id == net {
            proof {
                assert(ifs[i as int].net_id == net);
                lemma_find_net_at(ifs, net, i as int);
            }
            return Some(i);
        }
        proof {
            assert(ifs[i as int].net_id != net);
        }
        i += 1;
    }
    proof {
        lemma_find_net_none(ifs, net);
    }
    None
}

/// What the router does to a header before it may leave: look up the
/// destination's interface, keep frames for ourselves at home, spend a hop
/// of ttl, rewrite wildcard sources to the interface's address with the
/// router's node id, stamp a sequence number from the shared counter, and
/// insist on a key for any-cast or broadcast destinations. The counter
/// advances even when the key check then fails.
pub open spec fn router_prepare(pre: RouterV, hdr: Header) -> (RouterV, Result<
    (int, HeaderSeq),
    InterfaceSendError,
>) {
    let i = find_net_v(pre.ifaces, hdr.dst.network_id);
    if i < 0 {
        (pre, Err(InterfaceSendError::NoRouteToDest))
    } else if hdr.dst.node_id == ROUTER_NODE_ID {
        (pre, Err(InterfaceSendError::DestinationLocal))
    } else if hdr.ttl == 0 {
        (pre, Err(InterfaceSendError::TtlExpired))
    } else {
        let src = if hdr.src.spec_net_node_any() {
            Address {
                network_id: pre.ifaces[i].net_id,
                node_id: ROUTER_NODE_ID,
                port_id: hdr.src.port_id,
            }
        } else {
            hdr.src
        };
        let out = HeaderSeq {
            src,
            dst: hdr.dst,
            any_all: hdr.any_all,
            seq_no: pre.seq_no,
            kind: hdr.kind,
            ttl: (hdr.ttl - 1) as u8,
        };
        let post = RouterV { seq_no: wrap_inc(pre.seq_no), ..pre };
        if (hdr.dst.port_id == 0 || hdr.dst.port_id == 255) && hdr.any_all is None {
            (post, Err(InterfaceSendError::AnyPortMissingKey))
        } else {
            (post, Ok((i, out)))
        }
    }
}

/// The router profile after one wire frame was offered to the interface at
/// index `i`, and what the caller is told.
pub open spec fn router_offer(pre: RouterV, i: int, m: (SinkV, Result<(), ()>)) -> (RouterV, Result<
    (),
    InterfaceSendError,
>) {
    (
        RouterV { ifaces: pre.ifaces.update(i, RouterIfV { sink: m.0, ..pre.ifaces[i] }), ..pre },
        if m.1 is Ok {
            Ok(())
        } else {
            Err(InterfaceSendError::InterfaceFull)
        },
    )
}

impl RouterProfile {
    /// Run the shared egress rules and return the interface index and the
    /// prepared wire header.
    fn common_send(&mut self, hdr: &Header) -> (r: Result<(usize, HeaderSeq), InterfaceSendError>)
        ensures
            ({
                let p = router_prepare(old(self).model(), *hdr);
                &&& final(self).model() == p.0
                &&& match r {
                    Ok(pair) => p.1 == Ok::<(int, HeaderSeq), InterfaceSendError>(
                        (pair.0 as int, pair.1),
                    ) && pair.0 < final(self).interfaces@.len(),
                    Err(e) => p.1 == Err::<(int, HeaderSeq), InterfaceSendError>(e),
                }
            }),
    {
        let ghost ifs = self.model().ifaces;
        let Some(idx) = find_net_index(&self.interfaces, hdr.dst.network_id) else {
            return Err(InterfaceSendError::NoRouteToDest);
        };
        if hdr.dst.node_id == ROUTER_NODE_ID {
            return Err(InterfaceSendError::DestinationLocal);
        }
        if hdr.ttl == 0 {
            return Err(InterfaceSendError::TtlExpired);
        }
        let net_id = self.interfaces[idx].net_id;
        let src = if hdr.src.net_node_any() {
            Address { network_id: net_id, node_id: ROUTER_NODE_ID, port_id: hdr.src.port_id }
        } else {
            hdr.src
        };
        let out = HeaderSeq {
            src,
            dst: hdr.dst,
            any_all: hdr.any_all,
            seq_no: self.seq_no,
            kind: hdr.kind,
            ttl: hdr.ttl - 1,
        };
        self.seq_no = if self.seq_no == 0xffffu16 {
            0
        } else {
            self.seq_no + 1
        };
        if (hdr.dst.port_id == 0 || hdr.dst.port_id == 255) && hdr.any_all.is_none() {
            return Err(InterfaceSendError::AnyPortMissingKey);
        }
        Ok((idx, out))
    }

    /// Offer one wire frame to the interface at `idx` and put it back.
    fn offer_at(&mut self, idx: usize, out: &HeaderSeq, body: &Vec<u8>, as_err: Option<
        ProtocolError,
    >) -> (r: Result<(), InterfaceSendError>)
        requires
            idx < old(self).interfaces@.len(),
        ensures
            ({
                let pre = old(self).model();
                let sv = pre.ifaces[idx as int].sink;
                let m = match as_err {
                    None => if out.kind is ProtocolError {
                        (sv, Err(()))
                    } else {
                        crate::cobs_stream::Sink::offer_model(sv, encode_header(*out) + body@)
                    },
                    Some(e) => if out.kind is ProtocolError {
                        crate::cobs_stream::Sink::offer_model(sv, encode_header(*out) + u16_le(
                            e.0,
                        ))
                    } else {
                        (sv, Err(()))
                    },
                };
                let o = router_offer(pre, idx as int, m);
                final(self).model() == o.0 && r == o.1
            }),
    {
        let ghost pre = self.model();
        let mut slot = self.interfaces.remove(idx);
        let res = match as_err {
            None => slot.sink.send_ty(out, body),
            Some(e) => slot.sink.send_err(out, e),
        };
        let ghost slotg = slot;
        self.interfaces.insert(idx, slot);
        proof {
            assert(self.interfaces@ =~= old(self).interfaces@.update(idx as int, slotg));
            assert(self.model().ifaces =~= pre.ifaces.update(idx as int, slotg.if_v()));
        }
        match res {
            Ok(_) => Ok(()),
            Err(_) => Err(InterfaceSendError::InterfaceFull),
        }
    }
}

impl Profile for RouterProfile {
    type ModelT = RouterV;

    open spec fn model(&self) -> RouterV {
        RouterV {
            ifaces: self.interfaces@.map_values(|s: RouterInterfaceSlot| s.if_v()),
            seq_no: self.seq_no,
            any_closed: self.any_closed,
        }
    }

    open spec fn send_model(pre: RouterV, hdr: Header, ty: u64, body: Seq<u8>) -> (RouterV, Result<
        (),
        InterfaceSendError,
    >) {
        let p = router_prepare(pre, hdr);
        match p.1 {
            Err(e) => (p.0, Err(e)),
            Ok(pair) => {
                let sv = p.0.ifaces[pair.0].sink;
                let m = if pair.1.kind is ProtocolError {
                    (sv, Err(()))
                } else {
                    crate::cobs_stream::Sink::offer_model(sv, encode_header(pair.1) + body)
                };
                router_offer(p.0, pair.0, m)
            },
        }
    }

    open spec fn send_raw_model(pre: RouterV, hdr: Header, hdr_raw: Seq<u8>, body: Seq<u8>) -> (
        RouterV,
        Result<(), InterfaceSendError>,
    ) {
        let p = router_prepare(pre, hdr);
        match p.1 {
            Err(e) => (p.0, Err(e)),
            Ok(pair) => {
                let sv = p.0.ifaces[pair.0].sink;
                let m = if pair.1.kind is ProtocolError {
                    (sv, Err(()))
                } else {
                    crate::cobs_stream::Sink::offer_model(sv, encode_header(pair.1) + body)
                };
                router_offer(p.0, pair.0, m)
            },
        }
    }

    open spec fn send_err_model(pre: RouterV, hdr: Header, err: ProtocolError) -> (RouterV, Result<
        (),
        InterfaceSendError,
    >) {
        let p = router_prepare(pre, hdr);
        match p.1 {
            Err(e) => (p.0, Err(e)),
            Ok(pair) => {
                let sv = p.0.ifaces[pair.0].sink;
                let m = if pair.1.kind is ProtocolError {
                    crate::cobs_stream::Sink::offer_model(sv, encode_header(pair.1) + u16_le(
                        err.0,
                    ))
                } else {
                    (sv, Err(()))
                };
                router_offer(p.0, pair.0, m)
            },
        }
    }

    fn send(&mut self, hdr: &Header, ty: u64, body: &Vec<u8>) -> (r: Result<
        (),
        InterfaceSendError,
    >) {
        let (idx, out) = match self.common_send(hdr) {
            Ok(pair) => pair,
            Err(e) => {
                return Err(e);
            },
        };
        self.offer_at(idx, &out, body, None)
    }

    fn send_raw(&mut self, hdr: &Header, hdr_raw: &Vec<u8>, body: &Vec<u8>) -> (r: Result<
        (),
        InterfaceSendError,
    >) {
        let (idx, out) = match self.common_send(hdr) {
            Ok(pair) => pair,
            Err(e) => {
                return Err(e);
            },
        };
        // The header was rewritten on the way out, so it is re-encoded
        // rather than forwarded from the raw bytes.
        self.offer_at(idx, &out, body, None)
    }

    fn send_err(&mut self, hdr: &Header, err: ProtocolError) -> (r: Result<
        (),
        InterfaceSendError,
    >) {
        let (idx, out) = match self.common_send(hdr) {
            Ok(pair) => pair,
            Err(e) => {
                return Err(e);
            },
        };
        let empty: Vec<u8> = Vec::new();
        self.offer_at(idx, &out, &empty, Some(err))
    }

    /// Interface slots are named by their net id: a registered one is
    /// active under that id, anything else is unknown.
    fn interface_state(&mut self, ident: u64) -> (r: Option<InterfaceState>)
        ensures
            *final(self) == *old(self),
            ({
                let ifs = old(self).model().ifaces;
                match r {
                    Some(st) => exists|k: int|
                        0 <= k < ifs.len() && ((#[trigger] ifs[k].net_id) as u64) == ident && st
                            == (InterfaceState::Active { net_id: ifs[k].net_id }),
                    None => forall|k: int|
                        0 <= k < ifs.len() ==> ((#[trigger] ifs[k].net_id) as u64) != ident,
                }
            }),
    {
        let ghost ifs = self.model().ifaces;
        let mut i: usize = 0;
        let n = self.interfaces.len();
        while i < n
            invariant
                n == self.interfaces@.len(),
                ifs == self.model().ifaces,
                self == old(self),
                i <= n,
                forall|j: int| 0 <= j < i ==> ((#[trigger] ifs[j].net_id) as u64) != ident,
            decreases n - i,
        {
            if self.interfaces[i].net_id as u64 == ident {
                let net_id = self.interfaces[i].net_id;
                proof {
                    assert(ifs[i as int].net_id == net_id);
                }
                return Some(InterfaceState::Active { net_id });
            }
            proof {
                assert((ifs[i as int].net_id as u64) != ident);
            }
            i += 1;
        }
        None
    }

    /// The router assigns net ids itself; its interfaces do not change state
    /// by request.
    fn set_interface_state(&mut self, ident: u64, state: InterfaceState) -> Result<
        (),
        SetStateError,
    > {
        Err(SetStateError::NoSuchInterface)
    }
}

} // verus!
