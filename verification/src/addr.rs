//! Addresses, keys, frame kinds and headers: the data model of every frame
//! that moves through the stack.
//!
//! An [`Address`] is the triple `(network_id, node_id, port_id)`. A network id
//! of `0` means "the local network", a node id of `0` means "this node". Port
//! `0` asks for any matching port at dispatch time, port `255` addresses the
//! broadcast receivers of a network, and `1..=254` name one attached socket.

use vstd::prelude::*;

verus! {

broadcast use vstd::array::group_array_axioms;

/// Time-to-live given to frames that do not choose their own. Each interface
/// traversal decrements it; a frame whose ttl is zero is not transmitted.
pub const DEFAULT_TTL: u8 = 16;

/// The `(network, node, port)` triple that names one socket in the mesh.
#[derive(Clone, Copy, Debug, PartialEq, Eq, Structural, Hash)]
pub struct Address {
    pub network_id: u16,
    pub node_id: u8,
    pub port_id: u8,
}

impl Address {
    /// Holds when both the network and the node are wildcards, so the
    /// address can only mean a port on the local node.
    pub open spec fn spec_net_node_any(self) -> bool {
        self.network_id == 0 && self.node_id == 0
    }

    /// The fully unknown (wildcard) address `(0, 0, 0)`.
    pub fn unknown() -> (r: Address)
        ensures
            r == (Address { network_id: 0, node_id: 0, port_id: 0 }),
    {
        Address { network_id: 0, node_id: 0, port_id: 0 }
    }

    /// True when network and node are both wildcards: the address names a
    /// port on the local node, whatever the port field says.
    pub fn net_node_any(&self) -> (r: bool)
        ensures
            r == self.spec_net_node_any(),
    {
        self.network_id == 0 && self.node_id == 0
    }
}

/// Eight-byte content hash identifying one abstract message type (a request,
/// a response, or a topic message) at the protocol level. The derivation of
/// keys from schemas happens outside this crate; the stack only compares them.
#[derive(Clone, Copy, Debug, PartialEq, Eq, Hash)]
pub struct Key(pub [u8; 8]);

/// Compare two keys byte for byte.
pub fn key_eq(a: &Key, b: &Key) -> (r: bool)
    ensures
        r == (a.0 == b.0),
{
    let ae: &[u8; 8] = &a.0;
    let be: &[u8; 8] = &b.0;
    let mut i: usize = 0;
    while i < 8
        invariant
            i <= 8,
            a.0 == ae,
            b.0 == be,
            forall|j: int| 0 <= j < i ==> ae[j] == be[j],
        decreases 8 - i,
    {
        if ae[i] != be[i] {
            return false;
        }
        i += 1;
    }
    proof {
        assert(a.0 =~= b.0);
    }
    true
}

/// Eight-byte hash of a human-readable socket name, used to tell apart
/// sockets that share a key.
#[derive(Clone, Copy, Debug, PartialEq, Eq, Structural, Hash)]
pub struct NameHash(pub u64);

/// FNV-1a offset basis.
pub const NASH_BASIS: u64 = 0xcbf29ce484222325;

/// FNV-1a prime.
pub const NASH_PRIME: u64 = 0x00000100000001b3;

/// One step of the FNV-1a name hash.
pub open spec fn nash_step(acc: u64, byte: u8) -> u64 {
    mul_wrapped(acc ^ (byte as u64), NASH_PRIME)
}

pub open spec fn mul_wrapped(a: u64, b: u64) -> u64 {
    ((a as nat) * (b as nat) % 0x1_0000_0000_0000_0000) as u64
}

/// The FNV-1a hash of a byte string, folded left to right from the basis.
pub open spec fn nash_of(s: Seq<u8>) -> u64
    decreases s.len(),
{
    if s.len() == 0 {
        NASH_BASIS
    } else {
        nash_step(nash_of(s.drop_last()), s.last())
    }
}

impl NameHash {
    /// Hash a socket name with FNV-1a over its bytes.
    pub fn new(name: &[u8]) -> (r: NameHash)
        ensures
            r.0 == nash_of(name@),
    {
        let mut acc: u64 = NASH_BASIS;
        let mut i: usize = 0;
        while i < name.len()
            invariant
                i <= name@.len(),
                acc == nash_of(name@.take(i as int)),
            decreases name@.len() - i,
        {
            let b = name[i];
            proof {
                assert(name@.take(i + 1 as int).drop_last() =~= name@.take(i as int));
                assert(name@.take(i + 1 as int).last() == name@[i as int]);
            }
            acc = (acc ^ (b as u64)).wrapping_mul(NASH_PRIME);
            i += 1;
        }
        proof {
            assert(name@.take(name@.len() as int) =~= name@);
        }
        NameHash(acc)
    }
}

/// Compare two optional name hashes.
pub fn nash_opt_eq(a: &Option<NameHash>, b: &Option<NameHash>) -> (r: bool)
    ensures
        r == (a == b),
{
    match (a, b) {
        (Some(x), Some(y)) => x.0 == y.0,
        (None, None) => true,
        _ => false,
    }
}

/// Compare two headers field by field.
pub fn header_eq(a: &Header, b: &Header) -> (r: bool)
    ensures
        r == (a == b),
{
    let apdx_eq = match (&a.any_all, &b.any_all) {
        (Some(x), Some(y)) => key_eq(&x.key, &y.key) && nash_opt_eq(&x.nash, &y.nash),
        (None, None) => true,
        _ => false,
    };
    let seq_eq = match (&a.seq_no, &b.seq_no) {
        (Some(x), Some(y)) => x == y,
        (None, None) => true,
        _ => false,
    };
    a.src == b.src && a.dst == b.dst && apdx_eq && seq_eq && a.kind == b.kind && a.ttl == b.ttl
}

/// The kind of a frame: what protocol role its body plays.
#[derive(Clone, Copy, Debug, PartialEq, Eq, Structural, Hash)]
pub enum FrameKind {
    /// Values not yet given a meaning on the wire.
    Reserved,
    /// A request addressed at an endpoint server.
    EndpointReq,
    /// The response an endpoint server gives.
    EndpointResp,
    /// A message published on a topic.
    TopicMsg,
    /// A frame whose body is a sixteen-bit protocol error code.
    ProtocolError,
}

impl FrameKind {
    /// The on-wire byte of this kind.
    pub fn to_byte(self) -> (r: u8)
        ensures
            r == self.spec_byte(),
    {
        match self {
            FrameKind::Reserved => 0,
            FrameKind::EndpointReq => 1,
            FrameKind::EndpointResp => 2,
            FrameKind::TopicMsg => 3,
            FrameKind::ProtocolError => 4,
        }
    }

    pub open spec fn spec_byte(self) -> u8 {
        match self {
            FrameKind::Reserved => 0,
            FrameKind::EndpointReq => 1,
            FrameKind::EndpointResp => 2,
            FrameKind::TopicMsg => 3,
            FrameKind::ProtocolError => 4,
        }
    }

    /// Read a kind back from its on-wire byte.
    pub fn from_byte(b: u8) -> (r: Option<FrameKind>)
        ensures
            r == FrameKind::spec_from_byte(b),
            forall|k: FrameKind| b == k.spec_byte() ==> r == Some(k),
    {
        match b {
            0 => Some(FrameKind::Reserved),
            1 => Some(FrameKind::EndpointReq),
            2 => Some(FrameKind::EndpointResp),
            3 => Some(FrameKind::TopicMsg),
            4 => Some(FrameKind::ProtocolError),
            _ => None,
        }
    }

    pub open spec fn spec_from_byte(b: u8) -> Option<FrameKind> {
        if b == 0 {
            Some(FrameKind::Reserved)
        } else if b == 1 {
            Some(FrameKind::EndpointReq)
        } else if b == 2 {
            Some(FrameKind::EndpointResp)
        } else if b == 3 {
            Some(FrameKind::TopicMsg)
        } else if b == 4 {
            Some(FrameKind::ProtocolError)
        } else {
            None
        }
    }
}

/// A sixteen-bit error code carried on the wire in place of a body by frames
/// of kind [`FrameKind::ProtocolError`]. Each local error kind maps to one
/// code, so the far side can tell what went wrong.
#[derive(Clone, Copy, Debug, PartialEq, Eq, Structural, Hash)]
pub struct ProtocolError(pub u16);

pub const PE_NSSE_NO_ROUTE: u16 = 0x0001;
pub const PE_NSSE_ANY_PORT_MISSING_KEY: u16 = 0x0002;
pub const PE_NSSE_WRONG_PORT_KIND: u16 = 0x0003;
pub const PE_NSSE_ANY_PORT_NOT_UNIQUE: u16 = 0x0004;
pub const PE_NSSE_ALL_PORT_MISSING_KEY: u16 = 0x0005;
pub const PE_SSE_NO_SPACE: u16 = 0x0101;
pub const PE_SSE_DESER_FAILED: u16 = 0x0102;
pub const PE_SSE_TYPE_MISMATCH: u16 = 0x0103;
pub const PE_SSE_WHAT_THE_HELL: u16 = 0x0104;
pub const PE_ISE_DESTINATION_LOCAL: u16 = 0x0201;
pub const PE_ISE_NO_ROUTE_TO_DEST: u16 = 0x0202;
pub const PE_ISE_INTERFACE_FULL: u16 = 0x0203;
pub const PE_ISE_ANY_PORT_MISSING_KEY: u16 = 0x0204;
pub const PE_ISE_TTL_EXPIRED: u16 = 0x0205;

/// The optional header appendix: the key (and, if given, the name hash) that
/// any-cast and broadcast destinations are resolved against.
#[derive(Clone, Copy, Debug, PartialEq, Eq, Hash)]
pub struct AnyAllAppendix {
    pub key: Key,
    pub nash: Option<NameHash>,
}

/// The header a sender builds. The sequence number may be left out; the first
/// stack that sees the frame stamps one from its own counter.
#[derive(Clone, Copy, Debug, PartialEq, Eq, Hash)]
pub struct Header {
    pub src: Address,
    pub dst: Address,
    pub any_all: Option<AnyAllAppendix>,
    pub seq_no: Option<u16>,
    pub kind: FrameKind,
    pub ttl: u8,
}

/// A header whose sequence number has been decided: the form every socket
/// sees and the form that goes on the wire.
#[derive(Clone, Copy, Debug, PartialEq, Eq, Hash)]
pub struct HeaderSeq {
    pub src: Address,
    pub dst: Address,
    pub any_all: Option<AnyAllAppendix>,
    pub seq_no: u16,
    pub kind: FrameKind,
    pub ttl: u8,
}

impl Header {
    /// The header with its sequence number settled: the frame's own if it has
    /// one, the given stamp otherwise.
    pub open spec fn spec_with_seq(self, stamp: u16) -> HeaderSeq {
        HeaderSeq {
            src: self.src,
            dst: self.dst,
            any_all: self.any_all,
            seq_no: if self.seq_no is Some { self.seq_no->0 } else { stamp },
            kind: self.kind,
            ttl: self.ttl,
        }
    }

    /// Settle the sequence number, taking `stamp` when the header has none.
    pub fn to_headerseq_or_with_seq(&self, stamp: u16) -> (r: HeaderSeq)
        ensures
            r == self.spec_with_seq(stamp),
    {
        HeaderSeq {
            src: self.src,
            dst: self.dst,
            any_all: self.any_all,
            seq_no: match self.seq_no {
                Some(s) => s,
                None => stamp,
            },
            kind: self.kind,
            ttl: self.ttl,
        }
    }
}

impl HeaderSeq {
    /// The header this settled header re-enters a stack as: the same fields,
    /// the sequence number kept.
    pub open spec fn spec_to_header(self) -> Header {
        Header {
            src: self.src,
            dst: self.dst,
            any_all: self.any_all,
            seq_no: Some(self.seq_no),
            kind: self.kind,
            ttl: self.ttl,
        }
    }

    /// Forget the sequence number again, as when a received frame re-enters
    /// the stack.
    pub fn to_header(&self) -> (r: Header)
        ensures
            r == self.spec_to_header(),
    {
        Header {
            src: self.src,
            dst: self.dst,
            any_all: self.any_all,
            seq_no: Some(self.seq_no),
            kind: self.kind,
            ttl: self.ttl,
        }
    }
}

} // verus!
