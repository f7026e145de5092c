//! The socket substrate: what a socket is to the stack, and how a frame is
//! delivered into one.
//!
//! The stack enumerates sockets without caring how each one stores its
//! messages. A socket presents a [`SocketHeader`] (its port, kind, key and
//! name), a [`SocketVTable`] saying which deliveries it supports, and a
//! [`SocketStorage`] holding the messages that have arrived and not yet been
//! taken out. Typed values are carried in their serialized form together
//! with a type token, so one storage shape serves every message type.

use vstd::prelude::*;

use crate::addr::{FrameKind, HeaderSeq, Key, NameHash, ProtocolError};
use crate::addr::{PE_SSE_DESER_FAILED, PE_SSE_NO_SPACE, PE_SSE_TYPE_MISMATCH, PE_SSE_WHAT_THE_HELL};

verus! {

/// Why a delivery into a socket failed.
#[derive(Clone, Copy, Debug, PartialEq, Eq, Structural)]
pub enum SocketSendError {
    /// The socket's storage is full.
    NoSpace,
    /// The body did not parse as the socket's message type.
    DeserFailed,
    /// A typed send addressed a socket of another message type.
    TypeMismatch,
    /// The socket supports no delivery of the attempted flavor.
    WhatTheHell,
}

impl SocketSendError {
    /// The on-wire code of this error.
    pub fn to_error(&self) -> (r: ProtocolError)
        ensures
            r == self.spec_to_error(),
    {
        match self {
            SocketSendError::NoSpace => ProtocolError(PE_SSE_NO_SPACE),
            SocketSendError::DeserFailed => ProtocolError(PE_SSE_DESER_FAILED),
            SocketSendError::TypeMismatch => ProtocolError(PE_SSE_TYPE_MISMATCH),
            SocketSendError::WhatTheHell => ProtocolError(PE_SSE_WHAT_THE_HELL),
        }
    }

    pub open spec fn spec_to_error(self) -> ProtocolError {
        match self {
            SocketSendError::NoSpace => ProtocolError(PE_SSE_NO_SPACE),
            SocketSendError::DeserFailed => ProtocolError(PE_SSE_DESER_FAILED),
            SocketSendError::TypeMismatch => ProtocolError(PE_SSE_TYPE_MISMATCH),
            SocketSendError::WhatTheHell => ProtocolError(PE_SSE_WHAT_THE_HELL),
        }
    }
}

/// What a socket listens for, and whether any-cast may discover it.
#[derive(Clone, Copy, Debug, PartialEq, Eq, Structural)]
pub struct Attributes {
    pub kind: FrameKind,
    pub discoverable: bool,
}

/// Which deliveries a socket supports. Raw delivery is required of every
/// socket; the others are optional, and a delivery of an unsupported flavor
/// fails with [`SocketSendError::WhatTheHell`].
#[derive(Clone, Copy, Debug, PartialEq, Eq, Structural)]
pub struct SocketVTable {
    pub recv_owned: bool,
    pub recv_bor: bool,
    pub recv_err: bool,
}

impl SocketVTable {
    /// The vtable of an owned typed socket: takes typed and raw deliveries
    /// and errors, but no borrowed sends.
    pub fn owned() -> (r: SocketVTable)
        ensures
            r == (SocketVTable { recv_owned: true, recv_bor: false, recv_err: true }),
    {
        SocketVTable { recv_owned: true, recv_bor: false, recv_err: true }
    }

    /// The vtable of a borrow socket: every delivery lands in its byte
    /// queue.
    pub fn borrow() -> (r: SocketVTable)
        ensures
            r == (SocketVTable { recv_owned: true, recv_bor: true, recv_err: true }),
    {
        SocketVTable { recv_owned: true, recv_bor: true, recv_err: true }
    }
}

/// One message as a socket holds it: the settled header, the type token of
/// the value, and the serialized body, or the protocol error that arrived in
/// its place.
#[derive(Debug, PartialEq, Eq)]
pub struct OwnedMessage {
    pub hdr: HeaderSeq,
    pub ty: u64,
    pub body: Result<Vec<u8>, ProtocolError>,
}

/// The mathematical value of a message: the same, with the body as a byte
/// string.
pub ghost struct MsgV {
    pub hdr: HeaderSeq,
    pub ty: u64,
    pub body: Result<Seq<u8>, ProtocolError>,
}

impl OwnedMessage {
    /// The message's mathematical value.
    pub open spec fn msg_v(self) -> MsgV {
        MsgV {
            hdr: self.hdr,
            ty: self.ty,
            body: match self.body {
                Ok(v) => Ok(v@),
                Err(e) => Err(e),
            },
        }
    }
}

/// Where a socket keeps its pending messages.
pub enum SocketStorage {
    /// Room for one message at a time.
    Single { slot: Option<OwnedMessage> },
    /// A queue bounded at `depth` messages.
    Bounded { depth: usize, queue: Vec<OwnedMessage> },
}

impl SocketStorage {
    /// The pending messages, oldest first.
    pub open spec fn msgs(self) -> Seq<MsgV> {
        match self {
            SocketStorage::Single { slot } => match slot {
                Some(m) => seq![m.msg_v()],
                None => Seq::empty(),
            },
            SocketStorage::Bounded { queue, .. } => queue@.map_values(|m: OwnedMessage| m.msg_v()),
        }
    }

    /// How many messages the storage can hold.
    pub open spec fn cap(self) -> nat {
        match self {
            SocketStorage::Single { .. } => 1nat,
            SocketStorage::Bounded { depth, .. } => depth as nat,
        }
    }

    /// Whether one more message fits.
    pub open spec fn has_space(self) -> bool {
        match self {
            SocketStorage::Single { slot } => slot is None,
            SocketStorage::Bounded { depth, queue } => queue@.len() < depth,
        }
    }

    /// Storage for a single message at a time.
    pub fn single() -> (r: SocketStorage)
        ensures
            r.msgs() == Seq::<MsgV>::empty(),
            r.has_space(),
    {
        SocketStorage::Single { slot: None }
    }

    /// Storage for up to `depth` queued messages.
    pub fn bounded(depth: usize) -> (r: SocketStorage)
        ensures
            r.msgs() == Seq::<MsgV>::empty(),
            r.cap() == depth,
            r.has_space() == (depth > 0),
    {
        let queue: Vec<OwnedMessage> = Vec::new();
        proof {
            assert(queue@.map_values(|m: OwnedMessage| m.msg_v()) =~= Seq::<MsgV>::empty());
        }
        SocketStorage::Bounded { depth, queue }
    }

    /// Append a message; fails with `NoSpace` when full.
    pub fn push_msg(&mut self, m: OwnedMessage) -> (r: Result<(), SocketSendError>)
        ensures
            final(self).cap() == old(self).cap(),
            match r {
                Ok(_) => old(self).has_space() && final(self).msgs() == old(self).msgs().push(
                    m.msg_v(),
                ),
                Err(e) => e == SocketSendError::NoSpace && !old(self).has_space() && *final(self)
                    == *old(self),
            },
    {
        match self {
            SocketStorage::Single { slot } => {
                if slot.is_some() {
                    Err(SocketSendError::NoSpace)
                } else {
                    *slot = Some(m);
                    proof {
                        assert(final(self).msgs() =~= old(self).msgs().push(m.msg_v()));
                    }
                    Ok(())
                }
            },
            SocketStorage::Bounded { depth, queue } => {
                if queue.len() < *depth {
                    queue.push(m);
                    proof {
                        assert(final(self).msgs() =~= old(self).msgs().push(m.msg_v()));
                    }
                    Ok(())
                } else {
                    Err(SocketSendError::NoSpace)
                }
            },
        }
    }

    /// Take out the oldest pending message, if any.
    pub fn pop_msg(&mut self) -> (r: Option<OwnedMessage>)
        ensures
            final(self).cap() == old(self).cap(),
            match r {
                Some(m) => old(self).msgs().len() > 0 && m.msg_v() == old(self).msgs()[0]
                    && final(self).msgs() == old(self).msgs().skip(1),
                None => old(self).msgs().len() == 0 && *final(self) == *old(self),
            },
    {
        match self {
            SocketStorage::Single { slot } => {
                let r = slot.take();
                proof {
                    if r is Some {
                        assert(final(self).msgs() =~= old(self).msgs().skip(1));
                    }
                }
                r
            },
            SocketStorage::Bounded { depth, queue } => {
                if queue.len() == 0 {
                    None
                } else {
                    let m = queue.remove(0);
                    proof {
                        assert(final(self).msgs() =~= old(self).msgs().skip(1));
                    }
                    Some(m)
                }
            },
        }
    }
}

/// The part of a socket the router reads: its port, kind and discoverability,
/// protocol key, optional name hash, and supported deliveries.
#[derive(Clone, Copy, Debug)]
pub struct SocketHeader {
    pub port: u8,
    pub attrs: Attributes,
    pub key: Key,
    pub nash: Option<NameHash>,
    pub vtable: SocketVTable,
}

/// One attached socket: its identity (a stack-assigned id that outlives port
/// recycling), its header, the type token its typed storage accepts, and the
/// storage itself.
pub struct SocketSlot {
    pub sid: u64,
    pub hdr: SocketHeader,
    pub ty: u64,
    pub storage: SocketStorage,
}

impl SocketSlot {
    /// Everything but the stored messages, unchanged.
    pub open spec fn same_identity(self, other: SocketSlot) -> bool {
        &&& self.sid == other.sid
        &&& self.hdr == other.hdr
        &&& self.ty == other.ty
    }

    /// Deliver a typed value: only into sockets that take owned deliveries,
    /// only when the type token matches, and only when there is room.
    pub fn recv_owned(&mut self, hdr: HeaderSeq, ty: u64, body: &Vec<u8>) -> (r: Result<
        (),
        SocketSendError,
    >)
        ensures
            old(self).same_identity(*final(self)),
            final(self).storage.cap() == old(self).storage.cap(),
            match r {
                Ok(_) => {
                    &&& old(self).hdr.vtable.recv_owned
                    &&& ty == old(self).ty
                    &&& old(self).storage.has_space()
                    &&& final(self).storage.msgs() == old(self).storage.msgs().push(
                        MsgV { hdr, ty, body: Ok(body@) },
                    )
                },
                Err(e) => {
                    &&& final(self).storage == old(self).storage
                    &&& if !old(self).hdr.vtable.recv_owned {
                        e == SocketSendError::WhatTheHell
                    } else if ty != old(self).ty {
                        e == SocketSendError::TypeMismatch
                    } else {
                        e == SocketSendError::NoSpace && !old(self).storage.has_space()
                    }
                },
            },
    {
        if !self.hdr.vtable.recv_owned {
            return Err(SocketSendError::WhatTheHell);
        }
        if ty != self.ty {
            return Err(SocketSendError::TypeMismatch);
        }
        let m = OwnedMessage { hdr, ty, body: Ok(body.clone()) };
        self.storage.push_msg(m)
    }

    /// Deliver an already serialized body: stored verbatim under the
    /// socket's own type token, to be decoded by the reader.
    pub fn recv_raw(&mut self, hdr: HeaderSeq, body: &Vec<u8>) -> (r: Result<(), SocketSendError>)
        ensures
            old(self).same_identity(*final(self)),
            final(self).storage.cap() == old(self).storage.cap(),
            match r {
                Ok(_) => {
                    &&& old(self).storage.has_space()
                    &&& final(self).storage.msgs() == old(self).storage.msgs().push(
                        MsgV { hdr, ty: old(self).ty, body: Ok(body@) },
                    )
                },
                Err(e) => {
                    &&& final(self).storage == old(self).storage
                    &&& e == SocketSendError::NoSpace
                    &&& !old(self).storage.has_space()
                },
            },
    {
        let ty = self.ty;
        let m = OwnedMessage { hdr, ty, body: Ok(body.clone()) };
        self.storage.push_msg(m)
    }

    /// Deliver a protocol error through the same channel, so the receiver
    /// observes it in order. A full socket drops the error silently; a
    /// socket without error support refuses the delivery.
    pub fn recv_err(&mut self, hdr: HeaderSeq, err: ProtocolError) -> (r: Result<
        (),
        SocketSendError,
    >)
        ensures
            old(self).same_identity(*final(self)),
            final(self).storage.cap() == old(self).storage.cap(),
            match r {
                Ok(_) => {
                    &&& old(self).hdr.vtable.recv_err
                    &&& if old(self).storage.has_space() {
                        final(self).storage.msgs() == old(self).storage.msgs().push(
                            MsgV { hdr, ty: old(self).ty, body: Err(err) },
                        )
                    } else {
                        final(self).storage == old(self).storage
                    }
                },
                Err(e) => {
                    &&& final(self).storage == old(self).storage
                    &&& e == SocketSendError::WhatTheHell
                    &&& !old(self).hdr.vtable.recv_err
                },
            },
    {
        if !self.hdr.vtable.recv_err {
            return Err(SocketSendError::WhatTheHell);
        }
        let ty = self.ty;
        let m = OwnedMessage { hdr, ty, body: Err(err) };
        match self.storage.push_msg(m) {
            Ok(_) => Ok(()),
            Err(_) => Ok(()),
        }
    }
}

} // verus!
