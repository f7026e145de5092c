//! The interface manager: how frames leave the local node.
//!
//! The stack is generic over a [`Profile`], the single component that knows
//! the node's external interfaces and decides whether a frame goes out on
//! one. A profile may answer [`InterfaceSendError::DestinationLocal`], the
//! internal signal that the frame is not its business and the stack should
//! dispatch locally.
//!
//! Each profile gives its behaviour as three model functions, so that every
//! contract downstream of the stack can say exactly what a send did, given
//! which profile was plugged in.

use vstd::prelude::*;

use crate::addr::{Header, ProtocolError};
use crate::addr::{
    PE_ISE_ANY_PORT_MISSING_KEY, PE_ISE_DESTINATION_LOCAL, PE_ISE_INTERFACE_FULL,
    PE_ISE_NO_ROUTE_TO_DEST, PE_ISE_TTL_EXPIRED,
};

verus! {

/// Why a profile did not transmit a frame.
#[derive(Clone, Copy, Debug, PartialEq, Eq, Structural)]
pub enum InterfaceSendError {
    /// Refusing to send a local destination remotely; the stack falls
    /// through to local dispatch. An internal signal, not a failure.
    DestinationLocal,
    /// No interface reaches the requested destination.
    NoRouteToDest,
    /// The destination interface had no room for the frame.
    InterfaceFull,
    /// The destination was an "any" or broadcast port, but no key was given.
    AnyPortMissingKey,
    /// The time-to-live reached its terminal value.
    TtlExpired,
}

impl InterfaceSendError {
    /// The on-wire code of this error.
    pub fn to_error(&self) -> (r: ProtocolError)
        ensures
            r == self.spec_to_error(),
    {
        match self {
            InterfaceSendError::DestinationLocal => ProtocolError(PE_ISE_DESTINATION_LOCAL),
            InterfaceSendError::NoRouteToDest => ProtocolError(PE_ISE_NO_ROUTE_TO_DEST),
            InterfaceSendError::InterfaceFull => ProtocolError(PE_ISE_INTERFACE_FULL),
            InterfaceSendError::AnyPortMissingKey => ProtocolError(PE_ISE_ANY_PORT_MISSING_KEY),
            InterfaceSendError::TtlExpired => ProtocolError(PE_ISE_TTL_EXPIRED),
        }
    }

    pub open spec fn spec_to_error(self) -> ProtocolError {
        match self {
            InterfaceSendError::DestinationLocal => ProtocolError(PE_ISE_DESTINATION_LOCAL),
            InterfaceSendError::NoRouteToDest => ProtocolError(PE_ISE_NO_ROUTE_TO_DEST),
            InterfaceSendError::InterfaceFull => ProtocolError(PE_ISE_INTERFACE_FULL),
            InterfaceSendError::AnyPortMissingKey => ProtocolError(PE_ISE_ANY_PORT_MISSING_KEY),
            InterfaceSendError::TtlExpired => ProtocolError(PE_ISE_TTL_EXPIRED),
        }
    }
}

/// The lifecycle of one interface slot.
#[derive(Clone, Copy, Debug, PartialEq, Eq, Structural)]
pub enum InterfaceState {
    /// No sink registered, no net id.
    Down,
    /// A sink is registered but no net id has been assigned.
    Inactive,
    /// A sink is registered and the interface speaks for `net_id`.
    Active { net_id: u16 },
}

/// Why registering a sink failed.
#[derive(Clone, Copy, Debug, PartialEq, Eq, Structural)]
pub enum RegisterSinkError {
    /// The slot already holds a sink.
    AlreadyActive,
}

/// Why a state change was refused.
#[derive(Clone, Copy, Debug, PartialEq, Eq, Structural)]
pub enum SetStateError {
    /// Zero is the unassigned net id and cannot be chosen.
    CantSetZero,
    /// The slot has no sink to activate.
    NoActiveSink,
    /// No interface slot has that identifier.
    NoSuchInterface,
}

/// The strategy component owned by a stack that moves frames onto external
/// interfaces. Implementations give their exact behaviour as the three
/// `*_model` functions, stated over the profile's mathematical value; the
/// stack's own contracts are stated over the same functions.
pub trait Profile: Sized {
    /// The type of the profile's mathematical value.
    type ModelT;

    /// The profile's mathematical value.
    spec fn model(&self) -> Self::ModelT;

    /// What a typed send does to the profile, and what it answers.
    spec fn send_model(pre: Self::ModelT, hdr: Header, ty: u64, body: Seq<u8>) -> (
        Self::ModelT,
        Result<(), InterfaceSendError>,
    );

    /// What a raw (already serialized) send does.
    spec fn send_raw_model(pre: Self::ModelT, hdr: Header, hdr_raw: Seq<u8>, body: Seq<u8>) -> (
        Self::ModelT,
        Result<(), InterfaceSendError>,
    );

    /// What an error send does.
    spec fn send_err_model(pre: Self::ModelT, hdr: Header, err: ProtocolError) -> (
        Self::ModelT,
        Result<(), InterfaceSendError>,
    );

    /// Attempt to transmit a typed value externally.
    fn send(&mut self, hdr: &Header, ty: u64, body: &Vec<u8>) -> (r: Result<
        (),
        InterfaceSendError,
    >)
        ensures
            ({
                let pm = Self::send_model(old(self).model(), *hdr, ty, body@);
                final(self).model() == pm.0 && r == pm.1
            }),
    ;

    /// Attempt to transmit an already serialized frame externally.
    fn send_raw(&mut self, hdr: &Header, hdr_raw: &Vec<u8>, body: &Vec<u8>) -> (r: Result<
        (),
        InterfaceSendError,
    >)
        ensures
            ({
                let pm = Self::send_raw_model(old(self).model(), *hdr, hdr_raw@, body@);
                final(self).model() == pm.0 && r == pm.1
            }),
    ;

    /// Attempt to transmit a protocol error externally.
    fn send_err(&mut self, hdr: &Header, err: ProtocolError) -> (r: Result<
        (),
        InterfaceSendError,
    >)
        ensures
            ({
                let pm = Self::send_err_model(old(self).model(), *hdr, err);
                final(self).model() == pm.0 && r == pm.1
            }),
    ;

    /// The state of the interface slot named `ident`, if there is one.
    fn interface_state(&mut self, ident: u64) -> Option<InterfaceState>;

    /// Move the interface slot named `ident` to `state`.
    fn set_interface_state(&mut self, ident: u64, state: InterfaceState) -> Result<
        (),
        SetStateError,
    >;
}

/// The profile of a node with no external interfaces at all: every frame is
/// local.
pub struct Null;

impl Profile for Null {
    type ModelT = ();

    open spec fn model(&self) -> () {
        ()
    }

    open spec fn send_model(pre: (), hdr: Header, ty: u64, body: Seq<u8>) -> ((), Result<
        (),
        InterfaceSendError,
    >) {
        (pre, Err(InterfaceSendError::DestinationLocal))
    }

    open spec fn send_raw_model(pre: (), hdr: Header, hdr_raw: Seq<u8>, body: Seq<u8>) -> (
        (),
        Result<(), InterfaceSendError>,
    ) {
        (pre, Err(InterfaceSendError::DestinationLocal))
    }

    open spec fn send_err_model(pre: (), hdr: Header, err: ProtocolError) -> ((), Result<
        (),
        InterfaceSendError,
    >) {
        (pre, Err(InterfaceSendError::DestinationLocal))
    }

    fn send(&mut self, hdr: &Header, ty: u64, body: &Vec<u8>) -> (r: Result<
        (),
        InterfaceSendError,
    >) {
        Err(InterfaceSendError::DestinationLocal)
    }

    fn send_raw(&mut self, hdr: &Header, hdr_raw: &Vec<u8>, body: &Vec<u8>) -> (r: Result<
        (),
        InterfaceSendError,
    >) {
        Err(InterfaceSendError::DestinationLocal)
    }

    fn send_err(&mut self, hdr: &Header, err: ProtocolError) -> (r: Result<
        (),
        InterfaceSendError,
    >) {
        Err(InterfaceSendError::DestinationLocal)
    }

    fn interface_state(&mut self, ident: u64) -> Option<InterfaceState> {
        None
    }

    fn set_interface_state(&mut self, ident: u64, state: InterfaceState) -> Result<
        (),
        SetStateError,
    > {
        Err(SetStateError::NoSuchInterface)
    }
}

} // verus!
