//! The edge profile: a node with exactly one external interface, on the far
//! end of a point-to-point link from its router.
//!
//! Within such a link the router is node 1 and the edge is node 2. The edge
//! refuses to route before a seed router has assigned it a network id. On
//! egress it rewrites wildcard sources to its own assigned address so that
//! responses can find their way back, redirects broadcasts at the router,
//! spends one hop of time-to-live, and stamps its own sequence numbers.

use vstd::prelude::*;

use crate::addr::{Address, Header, HeaderSeq, ProtocolError};
use crate::cobs_stream::{Sink, SinkV};
use crate::interface_manager::{
    InterfaceSendError, InterfaceState, Profile, SetStateError,
};
use crate::net_stack::wrap_inc;
use crate::wire_frames::{encode_header, u16_le};

verus! {

/// The node id an edge answers to inside its point-to-point link.
pub const EDGE_NODE_ID: u8 = 2;

/// The node id of the router on the other end of the link.
pub const EDGE_OTHER_NODE_ID: u8 = 1;

/// Why assigning a net id to the edge failed.
#[derive(Clone, Copy, Debug, PartialEq, Eq, Structural)]
pub enum SetNetIdError {
    /// Zero means "unassigned" and cannot be assigned.
    CantSetZero,
    /// No sink is registered to carry the interface.
    NoActiveSink,
}

/// The registered interface of an edge: its sink, the network id a seed
/// router assigned (zero while none has), and the egress sequence counter.
pub struct EdgeInterfaceInner {
    pub sink: Sink,
    pub net_id: u16,
    pub seq_no: u16,
}

/// The edge profile. It manages exactly one interface, registered or not.
pub struct EdgeInterface {
    pub inner: Option<EdgeInterfaceInner>,
}

/// The mathematical value of a registered edge interface.
pub ghost struct EdgeInnerV {
    pub sink: SinkV,
    pub net_id: u16,
    pub seq_no: u16,
}

/// The mathematical value of the edge profile.
pub ghost struct EdgeV {
    pub inner: Option<EdgeInnerV>,
}

impl EdgeInterfaceInner {
    pub open spec fn inner_v(self) -> EdgeInnerV {
        EdgeInnerV { sink: self.sink.model(), net_id: self.net_id, seq_no: self.seq_no }
    }
}

/// What the edge does to a header before it may leave: refuse while
/// unassigned, keep frames for ourselves at home, spend a hop of ttl,
/// rewrite wildcard sources to the assigned address, point broadcasts at the
/// router, stamp a sequence number, and insist on a key for any-cast or
/// broadcast destinations. The counter advances even when the key check then
/// fails.
pub open spec fn edge_prepare(pre: EdgeInnerV, hdr: Header) -> (EdgeInnerV, Result<
    HeaderSeq,
    InterfaceSendError,
>) {
    if pre.net_id == 0 {
        (pre, Err(InterfaceSendError::NoRouteToDest))
    } else if hdr.dst.network_id == pre.net_id && hdr.dst.node_id == EDGE_NODE_ID {
        (pre, Err(InterfaceSendError::DestinationLocal))
    } else if hdr.ttl == 0 {
        (pre, Err(InterfaceSendError::TtlExpired))
    } else {
        let src = if hdr.src.spec_net_node_any() {
            Address { network_id: pre.net_id, node_id: EDGE_NODE_ID, port_id: hdr.src.port_id }
        } else {
            hdr.src
        };
        let dst = if hdr.dst.port_id == 255 {
            Address { network_id: pre.net_id, node_id: EDGE_OTHER_NODE_ID, port_id: 255 }
        } else {
            hdr.dst
        };
        let out = HeaderSeq {
            src,
            dst,
            any_all: hdr.any_all,
            seq_no: pre.seq_no,
            kind: hdr.kind,
            ttl: (hdr.ttl - 1) as u8,
        };
        let post = EdgeInnerV { seq_no: wrap_inc(pre.seq_no), ..pre };
        if (dst.port_id == 0 || dst.port_id == 255) && hdr.any_all is None {
            (post, Err(InterfaceSendError::AnyPortMissingKey))
        } else {
            (post, Ok(out))
        }
    }
}

/// What a typed send does to the whole edge profile.
pub open spec fn edge_send_model(pre: EdgeV, hdr: Header, body: Seq<u8>) -> (EdgeV, Result<
    (),
    InterfaceSendError,
>) {
    match pre.inner {
        None => (pre, Err(InterfaceSendError::NoRouteToDest)),
        Some(iv) => {
            let p = edge_prepare(iv, hdr);
            match p.1 {
                Err(e) => (EdgeV { inner: Some(p.0) }, Err(e)),
                Ok(out) => {
                    let m = if out.kind is ProtocolError {
                        (p.0.sink, Err(()))
                    } else {
                        Sink::offer_model(p.0.sink, encode_header(out) + body)
                    };
                    (
                        EdgeV { inner: Some(EdgeInnerV { sink: m.0, ..p.0 }) },
                        if m.1 is Ok {
                            Ok(())
                        } else {
                            Err(InterfaceSendError::InterfaceFull)
                        },
                    )
                },
            }
        },
    }
}

/// What an error send does to the whole edge profile.
pub open spec fn edge_send_err_model(pre: EdgeV, hdr: Header, err: ProtocolError) -> (EdgeV, Result<
    (),
    InterfaceSendError,
>) {
    match pre.inner {
        None => (pre, Err(InterfaceSendError::NoRouteToDest)),
        Some(iv) => {
            let p = edge_prepare(iv, hdr);
            match p.1 {
                Err(e) => (EdgeV { inner: Some(p.0) }, Err(e)),
                Ok(out) => {
                    let m = if out.kind is ProtocolError {
                        Sink::offer_model(p.0.sink, encode_header(out) + u16_le(err.0))
                    } else {
                        (p.0.sink, Err(()))
                    };
                    (
                        EdgeV { inner: Some(EdgeInnerV { sink: m.0, ..p.0 }) },
                        if m.1 is Ok {
                            Ok(())
                        } else {
                            Err(InterfaceSendError::InterfaceFull)
                        },
                    )
                },
            }
        },
    }
}

impl EdgeInterface {
    /// An edge with nothing registered yet.
    pub fn new() -> (r: EdgeInterface)
        ensures
            r.model() == (EdgeV { inner: None }),
    {
        EdgeInterface { inner: None }
    }

    /// Whether a sink is registered.
    pub fn is_active(&self) -> (r: bool)
        ensures
            r == (self.model().inner is Some),
    {
        self.inner.is_some()
    }

    /// Take the interface down, handing its sink back.
    pub fn deregister(&mut self) -> (r: Option<Sink>)
        ensures
            final(self).model() == (EdgeV { inner: None }),
            match r {
                Some(s) => old(self).model().inner is Some && s.model() == (old(
                    self,
                ).model().inner->0).sink,
                None => old(self).model().inner is None,
            },
    {
        match self.inner.take() {
            Some(i) => Some(i.sink),
            None => None,
        }
    }

    /// The assigned net id, once one is assigned.
    pub fn net_id(&self) -> (r: Option<u16>)
        ensures
            match r {
                Some(n) => self.model().inner is Some && (self.model().inner->0).net_id == n && n
                    != 0,
                None => self.model().inner is None || (self.model().inner->0).net_id == 0,
            },
    {
        match &self.inner {
            None => None,
            Some(i) => if i.net_id != 0 {
                Some(i.net_id)
            } else {
                None
            },
        }
    }

    /// Record the net id a seed router assigned.
    pub fn set_net_id(&mut self, id: u16) -> (r: Result<(), SetNetIdError>)
        ensures
            match r {
                Ok(_) => {
                    &&& id != 0
                    &&& old(self).model().inner is Some
                    &&& final(self).model() == (EdgeV {
                        inner: Some(
                            EdgeInnerV { net_id: id, ..old(self).model().inner->0 },
                        ),
                    })
                },
                Err(e) => final(self).model() == old(self).model() && if id == 0 {
                    e == SetNetIdError::CantSetZero
                } else {
                    e == SetNetIdError::NoActiveSink && old(self).model().inner is None
                },
            },
    {
        if id == 0 {
            return Err(SetNetIdError::CantSetZero);
        }
        match &mut self.inner {
            None => Err(SetNetIdError::NoActiveSink),
            Some(i) => {
                i.net_id = id;
                Ok(())
            },
        }
    }

    /// Register a sink; the interface starts unassigned with a fresh
    /// sequence counter. A sink that was already registered is replaced.
    pub fn register(&mut self, sink: Sink)
        ensures
            final(self).model() == (EdgeV {
                inner: Some(EdgeInnerV { sink: sink.model(), net_id: 0, seq_no: 0 }),
            }),
    {
        self.inner = Some(EdgeInterfaceInner { sink, net_id: 0, seq_no: 0 });
    }

    /// Hand the oldest queued line frame to the transmit worker, if a sink
    /// is registered and has one.
    pub fn pop_frame(&mut self) -> (r: Option<Vec<u8>>)
        ensures
            match old(self).model().inner {
                None => r is None && final(self).model() == old(self).model(),
                Some(iv) => match r {
                    Some(f) => iv.sink.frames.len() > 0 && f@ == iv.sink.frames[0] && final(self).model() == (EdgeV {
                        inner: Some(
                            EdgeInnerV {
                                sink: SinkV { frames: iv.sink.frames.skip(1), ..iv.sink },
                                ..iv
                            },
                        ),
                    }),
                    None => iv.sink.frames.len() == 0 && final(self).model() == old(self).model(),
                },
            },
    {
        match &mut self.inner {
            None => None,
            Some(i) => i.sink.pop_frame(),
        }
    }

    /// Run the shared egress rules and return the prepared wire header.
    fn common_send(&mut self, hdr: &Header) -> (r: Result<HeaderSeq, InterfaceSendError>)
        ensures
            match old(self).model().inner {
                None => r == Err::<HeaderSeq, InterfaceSendError>(
                    InterfaceSendError::NoRouteToDest,
                ) && final(self).model() == old(self).model(),
                Some(iv) => {
                    let p = edge_prepare(iv, *hdr);
                    &&& final(self).model() == (EdgeV { inner: Some(p.0) })
                    &&& r == p.1
                },
            },
    {
        let Some(i) = &mut self.inner else {
            return Err(InterfaceSendError::NoRouteToDest);
        };
        if i.net_id == 0 {
            // Unassigned: the seed router has not given this edge an address
            // yet, so nothing can be routed outward.
            return Err(InterfaceSendError::NoRouteToDest);
        }
        if hdr.dst.network_id == i.net_id && hdr.dst.node_id == EDGE_NODE_ID {
            return Err(InterfaceSendError::DestinationLocal);
        }
        if hdr.ttl == 0 {
            return Err(InterfaceSendError::TtlExpired);
        }
        let src = if hdr.src.net_node_any() {
            Address { network_id: i.net_id, node_id: EDGE_NODE_ID, port_id: hdr.src.port_id }
        } else {
            hdr.src
        };
        let dst = if hdr.dst.port_id == 255 {
            Address { network_id: i.net_id, node_id: EDGE_OTHER_NODE_ID, port_id: 255 }
        } else {
            hdr.dst
        };
        let out = HeaderSeq {
            src,
            dst,
            any_all: hdr.any_all,
            seq_no: i.seq_no,
            kind: hdr.kind,
            ttl: hdr.ttl - 1,
        };
        i.seq_no = if i.seq_no == 0xffffu16 {
            0
        } else {
            i.seq_no + 1
        };
        if (dst.port_id == 0 || dst.port_id == 255) && hdr.any_all.is_none() {
            return Err(InterfaceSendError::AnyPortMissingKey);
        }
        Ok(out)
    }
}

impl Profile for EdgeInterface {
    type ModelT = EdgeV;

    open spec fn model(&self) -> EdgeV {
        EdgeV {
            inner: match self.inner {
                Some(i) => Some(i.inner_v()),
                None => None,
            },
        }
    }

    open spec fn send_model(pre: EdgeV, hdr: Header, ty: u64, body: Seq<u8>) -> (EdgeV, Result<
        (),
        InterfaceSendError,
    >) {
        edge_send_model(pre, hdr, body)
    }

    open spec fn send_raw_model(pre: EdgeV, hdr: Header, hdr_raw: Seq<u8>, body: Seq<u8>) -> (
        EdgeV,
        Result<(), InterfaceSendError>,
    ) {
        match pre.inner {
            None => (pre, Err(InterfaceSendError::NoRouteToDest)),
            Some(iv) => {
                let p = edge_prepare(iv, hdr);
                match p.1 {
                    Err(e) => (EdgeV { inner: Some(p.0) }, Err(e)),
                    Ok(out) => {
                        let m = if out.kind is ProtocolError {
                            (p.0.sink, Err(()))
                        } else {
                            Sink::offer_model(p.0.sink, encode_header(out) + body)
                        };
                        (
                            EdgeV { inner: Some(EdgeInnerV { sink: m.0, ..p.0 }) },
                            if m.1 is Ok {
                                Ok(())
                            } else {
                                Err(InterfaceSendError::InterfaceFull)
                            },
                        )
                    },
                }
            },
        }
    }

    open spec fn send_err_model(pre: EdgeV, hdr: Header, err: ProtocolError) -> (EdgeV, Result<
        (),
        InterfaceSendError,
    >) {
        edge_send_err_model(pre, hdr, err)
    }

    fn send(&mut self, hdr: &Header, ty: u64, body: &Vec<u8>) -> (r: Result<
        (),
        InterfaceSendError,
    >) {
        let out = match self.common_send(hdr) {
            Ok(out) => out,
            Err(e) => {
                return Err(e);
            },
        };
        let Some(i) = &mut self.inner else {
            proof {
                assert(false);
            }
            return Err(InterfaceSendError::NoRouteToDest);
        };
        match i.sink.send_ty(&out, body) {
            Ok(_) => Ok(()),
            Err(_) => Err(InterfaceSendError::InterfaceFull),
        }
    }

    fn send_raw(&mut self, hdr: &Header, hdr_raw: &Vec<u8>, body: &Vec<u8>) -> (r: Result<
        (),
        InterfaceSendError,
    >) {
        let out = match self.common_send(hdr) {
            Ok(out) => out,
            Err(e) => {
                return Err(e);
            },
        };
        let Some(i) = &mut self.inner else {
            proof {
                assert(false);
            }
            return Err(InterfaceSendError::NoRouteToDest);
        };
        // The header was rewritten on the way out, so it is re-encoded
        // rather than forwarded from the raw bytes.
        match i.sink.send_ty(&out, body) {
            Ok(_) => Ok(()),
            Err(_) => Err(InterfaceSendError::InterfaceFull),
        }
    }

    fn send_err(&mut self, hdr: &Header, err: ProtocolError) -> (r: Result<
        (),
        InterfaceSendError,
    >) {
        let out = match self.common_send(hdr) {
            Ok(out) => out,
            Err(e) => {
                return Err(e);
            },
        };
        let Some(i) = &mut self.inner else {
            proof {
                assert(false);
            }
            return Err(InterfaceSendError::NoRouteToDest);
        };
        match i.sink.send_err(&out, err) {
            Ok(_) => Ok(()),
            Err(_) => Err(InterfaceSendError::InterfaceFull),
        }
    }

    /// The edge's one interface is slot zero.
    fn interface_state(&mut self, ident: u64) -> (r: Option<InterfaceState>)
        ensures
            r == (if ident == 0 {
                match old(self).model().inner {
                    None => Some(InterfaceState::Down),
                    Some(iv) => if iv.net_id == 0 {
                        Some(InterfaceState::Inactive)
                    } else {
                        Some(InterfaceState::Active { net_id: iv.net_id })
                    },
                }
            } else {
                None::<InterfaceState>
            }),
    {
        if ident != 0 {
            return None;
        }
        match &self.inner {
            None => Some(InterfaceState::Down),
            Some(i) => if i.net_id == 0 {
                Some(InterfaceState::Inactive)
            } else {
                Some(InterfaceState::Active { net_id: i.net_id })
            },
        }
    }

    /// Activating the edge records the net id; only slot zero exists, only
    /// `Active` states can be requested, and zero cannot be assigned.
    fn set_interface_state(&mut self, ident: u64, state: InterfaceState) -> (r: Result<
        (),
        SetStateError,
    >)
        ensures
            ({
                let pre = old(self).model();
                if ident != 0 {
                    r == Err::<(), SetStateError>(SetStateError::NoSuchInterface) && final(self).model() == pre
                } else {
                    match state {
                        InterfaceState::Active { net_id } => {
                            if net_id == 0 {
                                r == Err::<(), SetStateError>(SetStateError::CantSetZero) && final(self).model() == pre
                            } else {
                                match pre.inner {
                                    None => r == Err::<(), SetStateError>(
                                        SetStateError::NoActiveSink,
                                    ) && final(self).model() == pre,
                                    Some(iv) => r == Ok::<(), SetStateError>(()) && final(self).model() == (EdgeV {
                                        inner: Some(EdgeInnerV { net_id, ..iv }),
                                    }),
                                }
                            }
                        },
                        _ => r == Err::<(), SetStateError>(SetStateError::NoActiveSink) && final(self).model() == pre,
                    }
                }
            }),
    {
        if ident != 0 {
            return Err(SetStateError::NoSuchInterface);
        }
        match state {
            InterfaceState::Active { net_id } => match self.set_net_id(net_id) {
                Ok(_) => Ok(()),
                Err(SetNetIdError::CantSetZero) => Err(SetStateError::CantSetZero),
                Err(SetNetIdError::NoActiveSink) => Err(SetStateError::NoActiveSink),
            },
            _ => Err(SetStateError::NoActiveSink),
        }
    }
}

/// An edge without an assigned net id routes nothing: whatever the header,
/// the egress rules answer `NoRouteToDest` and leave the interface alone.
pub proof fn lemma_edge_refuses_unassigned(iv: EdgeInnerV, hdr: Header)
    requires
        iv.net_id == 0,
    ensures
        edge_prepare(iv, hdr) == (iv, Err::<HeaderSeq, InterfaceSendError>(
            InterfaceSendError::NoRouteToDest,
        )),
{
}

} // verus!
