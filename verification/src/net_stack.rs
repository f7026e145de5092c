//! The NetStack router: the in-process multiplexer that owns the attached
//! sockets, assigns and recycles their ports, and dispatches every frame to
//! a local socket or to the active profile's external interfaces.
//!
//! The stack's state is a list of socket slots, a port allocator (a cached
//! 32-bit occupancy window over one 32-port base at a time), a sixteen-bit
//! sequence counter, and the profile.

use vstd::prelude::*;

use crate::addr::{AnyAllAppendix, FrameKind, Header, ProtocolError};
use crate::addr::{
    PE_NSSE_ALL_PORT_MISSING_KEY, PE_NSSE_ANY_PORT_MISSING_KEY, PE_NSSE_ANY_PORT_NOT_UNIQUE,
    PE_NSSE_NO_ROUTE, PE_NSSE_WRONG_PORT_KIND,
};
use crate::interface_manager::{InterfaceSendError, Profile};
use crate::socket::{MsgV, SocketHeader, SocketSendError, SocketSlot, SocketStorage};

verus! {

/// Why a send through the stack failed.
#[derive(Clone, Copy, Debug, PartialEq, Eq, Structural)]
pub enum NetStackSendError {
    /// The destination socket was found but refused the delivery.
    SocketSend(SocketSendError),
    /// The profile owned the destination but could not transmit.
    InterfaceSend(InterfaceSendError),
    /// No socket (and no interface) answers to the destination.
    NoRoute,
    /// An any-cast destination carried no key appendix.
    AnyPortMissingKey,
    /// The destination port exists but serves another frame kind.
    WrongPortKind,
    /// More than one discoverable socket matched an any-cast destination.
    AnyPortNotUnique,
    /// A broadcast destination carried no key appendix.
    AllPortMissingKey,
}

impl NetStackSendError {
    /// The on-wire code of this error.
    pub fn to_error(&self) -> (r: ProtocolError)
        ensures
            r == self.spec_to_error(),
    {
        match self {
            NetStackSendError::SocketSend(e) => e.to_error(),
            NetStackSendError::InterfaceSend(e) => e.to_error(),
            NetStackSendError::NoRoute => ProtocolError(PE_NSSE_NO_ROUTE),
            NetStackSendError::AnyPortMissingKey => ProtocolError(PE_NSSE_ANY_PORT_MISSING_KEY),
            NetStackSendError::WrongPortKind => ProtocolError(PE_NSSE_WRONG_PORT_KIND),
            NetStackSendError::AnyPortNotUnique => ProtocolError(PE_NSSE_ANY_PORT_NOT_UNIQUE),
            NetStackSendError::AllPortMissingKey => ProtocolError(PE_NSSE_ALL_PORT_MISSING_KEY),
        }
    }

    pub open spec fn spec_to_error(self) -> ProtocolError {
        match self {
            NetStackSendError::SocketSend(e) => e.spec_to_error(),
            NetStackSendError::InterfaceSend(e) => e.spec_to_error(),
            NetStackSendError::NoRoute => ProtocolError(PE_NSSE_NO_ROUTE),
            NetStackSendError::AnyPortMissingKey => ProtocolError(PE_NSSE_ANY_PORT_MISSING_KEY),
            NetStackSendError::WrongPortKind => ProtocolError(PE_NSSE_WRONG_PORT_KIND),
            NetStackSendError::AnyPortNotUnique => ProtocolError(PE_NSSE_ANY_PORT_NOT_UNIQUE),
            NetStackSendError::AllPortMissingKey => ProtocolError(PE_NSSE_ALL_PORT_MISSING_KEY),
        }
    }
}

/// What a caller holds after attaching a socket: the stack-assigned socket
/// id, and the port the allocator chose.
#[derive(Clone, Copy, Debug, PartialEq, Eq, Structural)]
pub struct SocketHdl {
    pub sid: u64,
    pub port: u8,
}

// ---- views ----

/// The mathematical value of an attached socket: its identity, how many
/// messages its storage can hold, and the pending messages.
pub ghost struct SlotV {
    pub sid: u64,
    pub hdr: SocketHeader,
    pub ty: u64,
    pub cap: nat,
    pub msgs: Seq<MsgV>,
}

impl SocketSlot {
    /// This socket's mathematical value.
    pub open spec fn slot_v(self) -> SlotV {
        SlotV {
            sid: self.sid,
            hdr: self.hdr,
            ty: self.ty,
            cap: self.storage.cap(),
            msgs: self.storage.msgs(),
        }
    }
}

/// The views of all attached sockets, in list order.
pub open spec fn slots_v(s: Seq<SocketSlot>) -> Seq<SlotV> {
    s.map_values(|x: SocketSlot| x.slot_v())
}

/// The ports of all attached sockets, in list order.
pub open spec fn ports_of(s: Seq<SocketSlot>) -> Seq<u8> {
    s.map_values(|x: SocketSlot| x.hdr.port)
}

/// Whether some attached socket owns port `p` (broadcast receivers own no
/// port in this sense).
pub open spec fn port_used(ports: Seq<u8>, p: u8) -> bool {
    p != 255 && ports.contains(p)
}

/// Whether bit `k` of the allocator cache is set.
pub open spec fn bit_set(bits: u32, k: u32) -> bool {
    (bits >> k) & 1u32 == 1u32
}

/// The port that bit `k` of the window starting at `start` stands for.
pub open spec fn win_port(start: u8, k: u32) -> u8 {
    ((start as u32) + k) as u8
}

/// The allocator cache is truthful: it is a window of 32 ports starting at a
/// multiple of 32; every used port of the window has its bit set; every set
/// bit is a used port or one of the two reserved ones (port 0 and port 255);
/// and port 255's bit is pinned whenever its window is the current one.
pub open spec fn pcache_wf(ports: Seq<u8>, bits: u32, start: u8) -> bool {
    &&& start % 32 == 0
    &&& forall|k: u32|
        k < 32 && port_used(ports, #[trigger] win_port(start, k)) ==> bit_set(bits, k)
    &&& forall|k: u32|
        k < 32 && #[trigger] bit_set(bits, k) ==> port_used(ports, win_port(start, k)) || (start
            == 0 && k == 0) || (start == 224 && k == 31)
    &&& (start == 224 ==> bit_set(bits, 31))
}

/// The socket list is well formed: every port is 255 (broadcast) or in
/// `1..=254`; no two sockets share a specific port; and socket ids are
/// unique and below the stack's next id.
pub open spec fn sockets_wf(s: Seq<SocketSlot>, next_sid: u64) -> bool {
    &&& forall|i: int|
        0 <= i < s.len() ==> (#[trigger] s[i].hdr.port == 255 || (1 <= s[i].hdr.port <= 254))
    &&& forall|i: int, j: int|
        0 <= i < s.len() && 0 <= j < s.len() && i != j && #[trigger] s[i].hdr.port != 255
            ==> s[i].hdr.port != #[trigger] s[j].hdr.port
    &&& forall|i: int| 0 <= i < s.len() ==> #[trigger] s[i].sid < next_sid
    &&& forall|i: int, j: int|
        0 <= i < s.len() && 0 <= j < s.len() && i != j ==> #[trigger] s[i].sid != #[trigger] s[j].sid
}

/// The stack as applications hold it. The reference shape wraps this state
/// in a blocking mutex so socket owners can detach from their destructors;
/// in the verified model the callers are serialized by `&mut` access, which
/// is what the lock provides.
pub type NetStack<P> = NetStackInner<P>;

/// The NetStack's whole state.
pub struct NetStackInner<P: Profile> {
    pub sockets: Vec<SocketSlot>,
    pub profile: P,
    pub pcache_bits: u32,
    pub pcache_start: u8,
    pub seq_no: u16,
    pub next_sid: u64,
}

impl<P: Profile> NetStackInner<P> {
    /// The stack's structural invariant.
    pub open spec fn wf(self) -> bool {
        &&& sockets_wf(self.sockets@, self.next_sid)
        &&& pcache_wf(ports_of(self.sockets@), self.pcache_bits, self.pcache_start)
    }

    /// A fresh stack around the given profile: no sockets, counters at zero.
    pub fn new_with_profile(p: P) -> (r: NetStackInner<P>)
        ensures
            r.wf(),
            r.sockets@ == Seq::<SocketSlot>::empty(),
            r.profile == p,
            r.seq_no == 0,
            r.next_sid == 0,
    {
        let r = NetStackInner {
            sockets: Vec::new(),
            profile: p,
            pcache_bits: 0,
            pcache_start: 0,
            seq_no: 0,
            next_sid: 0,
        };
        proof {
            assert(ports_of(r.sockets@) =~= Seq::<u8>::empty());
            assert(forall|k: u32| k < 32 ==> !bit_set(0u32, k)) by {
                assert(forall|k: u32| k < 32 ==> (0u32 >> k) & 1u32 == 0u32) by (bit_vector);
            }
        }
        r
    }
}

// ---- bit algebra ----

/// Setting bit `k` sets bit `k` and nothing else.
proof fn lemma_bit_or(bits: u32, k: u32, j: u32)
    requires
        k < 32,
        j < 32,
    ensures
        bit_set(bits | (1u32 << k), j) == (j == k || bit_set(bits, j)),
{
    assert(((bits | (1u32 << k)) >> j) & 1u32 == if j == k {
        1u32
    } else {
        (bits >> j) & 1u32
    }) by (bit_vector)
        requires
            k < 32,
            j < 32,
    ;
}

/// Clearing bit `k` clears bit `k` and nothing else.
proof fn lemma_bit_clear(bits: u32, k: u32, j: u32)
    requires
        k < 32,
        j < 32,
    ensures
        bit_set(bits & !(1u32 << k), j) == (j != k && bit_set(bits, j)),
{
    assert(((bits & !(1u32 << k)) >> j) & 1u32 == if j == k {
        0u32
    } else {
        (bits >> j) & 1u32
    }) by (bit_vector)
        requires
            k < 32,
            j < 32,
    ;
}

/// Membership in a sequence with one element appended.
proof fn lemma_push_contains<A>(s: Seq<A>, x: A, y: A)
    ensures
        s.push(x).contains(y) <==> (s.contains(y) || x == y),
{
    if s.contains(y) {
        let i = choose|i: int| 0 <= i < s.len() && s[i] == y;
        assert(s.push(x)[i] == y);
    }
    assert(s.push(x)[s.len() as int] == x);
    if s.push(x).contains(y) {
        let i = choose|i: int| 0 <= i < s.push(x).len() && s.push(x)[i] == y;
        if i < s.len() {
            assert(s[i] == y);
        }
    }
}

/// The cache stays truthful when the port sequence is replaced by one with
/// the same members.
proof fn lemma_pcache_wf_same_ports(ports1: Seq<u8>, ports2: Seq<u8>, bits: u32, start: u8)
    requires
        pcache_wf(ports1, bits, start),
        forall|q: u8| ports1.contains(q) <==> ports2.contains(q),
    ensures
        pcache_wf(ports2, bits, start),
{
}

/// The cache stays truthful when the port sequence is replaced by one in
/// which the same ports count as used.
proof fn lemma_pcache_wf_same_used(ports1: Seq<u8>, ports2: Seq<u8>, bits: u32, start: u8)
    requires
        pcache_wf(ports1, bits, start),
        forall|q: u8| port_used(ports1, q) == port_used(ports2, q),
    ensures
        pcache_wf(ports2, bits, start),
{
}

/// Membership in a sequence with one element put in front.
proof fn lemma_insert0_contains<A>(s: Seq<A>, x: A, y: A)
    ensures
        s.insert(0, x).contains(y) <==> (s.contains(y) || x == y),
{
    let t = s.insert(0, x);
    assert(t[0] == x);
    if s.contains(y) {
        let i = choose|i: int| 0 <= i < s.len() && s[i] == y;
        assert(t[i + 1] == y);
    }
    if t.contains(y) {
        let i = choose|i: int| 0 <= i < t.len() && t[i] == y;
        if i > 0 {
            assert(s[i - 1] == y);
        }
    }
}

/// Membership in a sequence with the element at `i` taken out.
proof fn lemma_remove_contains<A>(s: Seq<A>, i: int, y: A)
    requires
        0 <= i < s.len(),
    ensures
        s.remove(i).contains(y) ==> s.contains(y),
        s.contains(y) && (exists|t: int| 0 <= t < s.len() && t != i && s[t] == y) ==> s.remove(
            i,
        ).contains(y),
{
    let t = s.remove(i);
    if t.contains(y) {
        let j = choose|j: int| 0 <= j < t.len() && t[j] == y;
        if j < i {
            assert(s[j] == y);
        } else {
            assert(s[j + 1] == y);
        }
    }
    if exists|w: int| 0 <= w < s.len() && w != i && s[w] == y {
        let w = choose|w: int| 0 <= w < s.len() && w != i && s[w] == y;
        if w < i {
            assert(t[w] == y);
        } else {
            assert(t[w - 1] == y);
        }
    }
}

/// Whether bit `k` of the current window is one of the two pinned ones:
/// port 0 in the lowest window, port 255 in the highest.
pub open spec fn win_reserved(start: u8, k: u32) -> bool {
    (start == 0 && k == 0) || (start == 224 && k == 31)
}

impl<P: Profile> NetStackInner<P> {
    /// Claim a free port.
    ///
    /// The cache remembers one 32-port window: when it shows a free slot,
    /// the lowest free bit is claimed without touching the socket list.
    /// Otherwise every other window is rebuilt from the socket list in turn
    /// until one has room. `None` means all 254 usable ports are attached.
    pub fn alloc_port(&mut self) -> (r: Option<u8>)
        requires
            old(self).wf(),
        ensures
            final(self).sockets@ == old(self).sockets@,
            final(self).profile == old(self).profile,
            final(self).seq_no == old(self).seq_no,
            final(self).next_sid == old(self).next_sid,
            match r {
                Some(p) => {
                    &&& 1 <= p <= 254
                    &&& !port_used(ports_of(old(self).sockets@), p)
                    &&& pcache_wf(
                        ports_of(old(self).sockets@).push(p),
                        final(self).pcache_bits,
                        final(self).pcache_start,
                    )
                    // The policy: the lowest cleared bit of the cached
                    // window when it has one (after pinning port 0's bit in
                    // the lowest window); after a rebuild, the lowest free
                    // usable port anywhere.
                    &&& ({
                        let b0 = if old(self).pcache_start == 0 {
                            old(self).pcache_bits | 1u32
                        } else {
                            old(self).pcache_bits
                        };
                        if b0 != 0xffff_ffffu32 {
                            final(self).pcache_start == old(self).pcache_start && p == win_port(
                                old(self).pcache_start,
                                vstd::std_specs::bits::u32_trailing_ones(b0),
                            )
                        } else {
                            forall|q: u8|
                                1 <= q < p ==> port_used(ports_of(old(self).sockets@), q)
                        }
                    })
                },
                None => {
                    &&& forall|p: u8| 1 <= p <= 254 ==> port_used(ports_of(old(self).sockets@), p)
                    &&& pcache_wf(
                        ports_of(old(self).sockets@),
                        final(self).pcache_bits,
                        final(self).pcache_start,
                    )
                },
            },
    {
        let ghost ports = ports_of(old(self).sockets@);
        // Port 0 is never given out: pin its bit whenever the lowest window
        // is the cached one. (It may be clear before the first allocation.)
        if self.pcache_start == 0 {
            let ghost b0 = self.pcache_bits;
            self.pcache_bits = self.pcache_bits | 1u32;
            proof {
                assert(1u32 == 1u32 << 0u32) by (bit_vector);
                assert forall|j: u32| j < 32 implies #[trigger] bit_set(self.pcache_bits, j) == (j
                    == 0 || bit_set(b0, j)) by {
                    lemma_bit_or(b0, 0, j);
                }
            }
        }
        if self.pcache_bits != u32::MAX {
            let p = self.claim_lowest(Ghost(ports));
            return Some(p);
        }
        // The cached window is full: rebuild the cache from the socket list,
        // window by window, skipping the one just exhausted.
        let old_start = self.pcache_start;
        proof {
            // Everything in the exhausted window is attached.
            assert forall|p: u8|
                1 <= p <= 254 && (p as int) / 32 == (old_start as int) / 32 implies port_used(
                ports,
                p,
            ) by {
                let k = ((p - old_start) as u32);
                assert(old_start % 32 == 0 && (p as int) / 32 == (old_start as int) / 32 ==> p
                    >= old_start && ((p - old_start) as u32) < 32 && ((old_start as u32) + ((p
                    - old_start) as u32)) as u8 == p) by (bit_vector);
                assert((u32::MAX >> k) & 1u32 == 1u32) by (bit_vector)
                    requires
                        k < 32,
                ;
                assert(bit_set(u32::MAX, k));
                assert(win_port(old_start, k) == p);
            }
        }
        let mut base: u8 = 0;
        while base < 8
            invariant
                self.sockets@ == old(self).sockets@,
                self.profile == old(self).profile,
                self.seq_no == old(self).seq_no,
                self.next_sid == old(self).next_sid,
                ports == ports_of(old(self).sockets@),
                sockets_wf(self.sockets@, self.next_sid),
                pcache_wf(ports, self.pcache_bits, self.pcache_start),
                old_start % 32 == 0,
                base <= 8,
                // the cached window was full on entry, so the policy clause
                // falls to its rebuilt-window case
                (if old(self).pcache_start == 0 {
                    old(self).pcache_bits | 1u32
                } else {
                    old(self).pcache_bits
                }) == u32::MAX,
                forall|p: u8|
                    1 <= p <= 254 && ((p as int) / 32 < base as int || (p as int) / 32 == (
                    old_start as int) / 32) ==> port_used(ports, p),
            decreases 8 - base,
        {
            let start: u8 = base * 32;
            if start != old_start {
                // Rebuild the occupancy of this window by one walk of the
                // socket list.
                let mut bits: u32 = 0;
                if start == 0 {
                    bits = bits | 1u32;
                }
                if start == 224 {
                    bits = bits | (1u32 << 31u32);
                }
                proof {
                    assert(1u32 == 1u32 << 0u32) by (bit_vector);
                    assert forall|k: u32| k < 32 implies (#[trigger] bit_set(bits, k)
                        <==> win_reserved(start, k)) by {
                        assert((0u32 >> k) & 1u32 == 0u32) by (bit_vector);
                        if start == 0 {
                            lemma_bit_or(0u32, 0u32, k);
                        } else if start == 224 {
                            lemma_bit_or(0u32, 31u32, k);
                        }
                    }
                }
                let mut i: usize = 0;
                while i < self.sockets.len()
                    invariant
                        self.sockets@ == old(self).sockets@,
                        ports == ports_of(old(self).sockets@),
                        i <= self.sockets@.len(),
                        start % 32 == 0,
                        forall|k: u32|
                            k < 32 ==> (#[trigger] bit_set(bits, k) <==> win_reserved(start, k)
                                || exists|t: int|
                                0 <= t < i && #[trigger] self.sockets@[t].hdr.port != 255
                                    && self.sockets@[t].hdr.port == win_port(start, k)),
                    decreases self.sockets@.len() - i,
                {
                    let port = self.sockets[i].hdr.port;
                    let ghost prev = bits;
                    if port != 255 {
                        let pupper: u8 = port & 0xe0;
                        let plower: u8 = port & 0x1f;
                        if pupper == start {
                            proof {
                                assert((port & 0x1f) < 32 && ((port & 0xe0) == start ==> ((
                                start as u32) + ((port & 0x1f) as u32)) as u8 == port))
                                    by (bit_vector);
                            }
                            bits = bits | (1u32 << (plower as u32));
                            proof {
                                assert forall|k: u32| k < 32 implies #[trigger] bit_set(bits, k)
                                    == (k == (plower as u32) || bit_set(prev, k)) by {
                                    lemma_bit_or(prev, plower as u32, k);
                                }
                                assert(self.sockets@[i as int].hdr.port == win_port(
                                    start,
                                    plower as u32,
                                ));
                            }
                        } else {
                            proof {
                                assert forall|k: u32|
                                    k < 32 implies win_port(start, k) != port by {
                                    assert(start % 32 == 0 && k < 32 && (port & 0xe0) != start
                                        ==> ((start as u32) + k) as u8 != port) by (bit_vector);
                                }
                            }
                        }
                    } else {
                        proof {
                            assert(self.sockets@[i as int].hdr.port == 255);
                        }
                    }
                    i += 1;
                }
                self.pcache_start = start;
                self.pcache_bits = bits;
                proof {
                    // The rebuilt window is truthful.
                    assert forall|k: u32|
                        k < 32 && port_used(ports, #[trigger] win_port(start, k)) implies bit_set(
                        bits,
                        k,
                    ) by {
                        let q = win_port(start, k);
                        let t = choose|t: int| 0 <= t < ports.len() && ports[t] == q;
                        assert(self.sockets@[t].hdr.port == q);
                    }
                    assert forall|k: u32| k < 32 && #[trigger] bit_set(bits, k) implies port_used(
                        ports,
                        win_port(start, k),
                    ) || win_reserved(start, k) by {
                        if !win_reserved(start, k) {
                            let t = choose|t: int|
                                0 <= t < self.sockets@.len() && self.sockets@[t].hdr.port != 255
                                    && self.sockets@[t].hdr.port == win_port(start, k);
                            assert(ports[t] == win_port(start, k));
                        }
                    }
                    if start == 224 {
                        assert(bit_set(self.pcache_bits, 31)) by {
                            assert(bit_set(bits, 31) <==> win_reserved(start, 31) || exists|t: int|
                                0 <= t < self.sockets@.len() && #[trigger] self.sockets@[
                                t].hdr.port != 255 && self.sockets@[t].hdr.port == win_port(
                                start,
                                31,
                            ));
                        }
                    }
                }
                if self.pcache_bits != u32::MAX {
                    proof {
                        // Nothing below this window is free: every lower
                        // window was found full, and within the window every
                        // bit below the lowest clear one is an attached port
                        // or a reserved one.
                        vstd::std_specs::bits::axiom_u32_trailing_ones(self.pcache_bits);
                        let k = vstd::std_specs::bits::u32_trailing_ones(self.pcache_bits);
                        let pp = win_port(start, k);
                        assert((start as u32) + k < 256);
                        assert forall|q: u8| 1 <= q < pp implies port_used(ports, q) by {
                            if q < start {
                                assert((q as int) / 32 < base as int) by (nonlinear_arith)
                                    requires
                                        (q as int) < (base as int) * 32,
                                        start == base * 32,
                                        q < start,
                                ;
                            } else {
                                let j = ((q - start) as u32);
                                assert(q == win_port(start, j));
                                assert(j < k);
                                assert((self.pcache_bits >> j) & 1u32 == 1u32);
                                assert(bit_set(self.pcache_bits, j));
                                assert(!win_reserved(start, j));
                            }
                        }
                    }
                    let p = self.claim_lowest(Ghost(ports));
                    return Some(p);
                }
                proof {
                    // This window, too, is fully attached.
                    assert forall|p: u8|
                        1 <= p <= 254 && (p as int) / 32 == (start as int) / 32 implies port_used(
                        ports,
                        p,
                    ) by {
                        let k = ((p - start) as u32);
                        assert(start % 32 == 0 && (p as int) / 32 == (start as int) / 32 ==> p
                            >= start && ((p - start) as u32) < 32 && ((start as u32) + ((p
                            - start) as u32)) as u8 == p) by (bit_vector);
                        assert((u32::MAX >> k) & 1u32 == 1u32) by (bit_vector)
                            requires
                                k < 32,
                        ;
                        assert(bit_set(u32::MAX, k));
                        assert(win_port(start, k) == p);
                        assert(!win_reserved(start, k));
                    }
                }
            }
            proof {
                assert forall|p: u8|
                    1 <= p <= 254 && ((p as int) / 32 < base as int + 1 || (p as int) / 32 == (
                    old_start as int) / 32) implies port_used(ports, p) by {
                    if (p as int) / 32 == base as int && start != old_start {
                        assert((p as int) / 32 == (start as int) / 32) by {
                            assert(start == base * 32 && base < 8 ==> (start as int) / 32
                                == base as int) by (bit_vector);
                        }
                    }
                }
            }
            base += 1;
        }
        proof {
            assert forall|p: u8| 1 <= p <= 254 implies port_used(ports, p) by {
                assert((p as int) / 32 < 8);
            }
        }
        None
    }

    /// Claim the lowest clear bit of the cached window. The caller has made
    /// sure the window is not full and its reserved bits are pinned.
    fn claim_lowest(&mut self, Ghost(ports): Ghost<Seq<u8>>) -> (p: u8)
        requires
            old(self).pcache_bits != u32::MAX,
            pcache_wf(ports, old(self).pcache_bits, old(self).pcache_start),
            old(self).pcache_start == 0 ==> bit_set(old(self).pcache_bits, 0),
        ensures
            final(self).sockets@ == old(self).sockets@,
            final(self).profile == old(self).profile,
            final(self).seq_no == old(self).seq_no,
            final(self).next_sid == old(self).next_sid,
            final(self).pcache_start == old(self).pcache_start,
            1 <= p <= 254,
            !port_used(ports, p),
            p == win_port(
                old(self).pcache_start,
                vstd::std_specs::bits::u32_trailing_ones(old(self).pcache_bits),
            ),
            pcache_wf(ports.push(p), final(self).pcache_bits, final(self).pcache_start),
    {
        let bits = self.pcache_bits;
        let start = self.pcache_start;
        let k: u32 = bits.trailing_ones();
        proof {
            vstd::std_specs::bits::axiom_u32_trailing_ones(bits);
            assert(k < 32);
            assert((bits >> k) & 1u32 == 0u32);
            assert(!bit_set(bits, k));
            // The reserved bits are pinned, so the claimed bit is neither.
            if start == 0 {
                assert(k != 0);
            }
            if start == 224 {
                assert(k != 31);
            }
            assert(start % 32 == 0 && k < 32 && !(start == 0 && k == 0) && !(start == 224 && k
                == 31) ==> 1 <= ((start as u32) + k) && ((start as u32) + k) <= 254)
                by (bit_vector);
        }
        let p: u8 = start + (k as u8);
        self.pcache_bits = bits | (1u32 << k);
        proof {
            assert(win_port(start, k) == p);
            assert(!port_used(ports, p));
            assert forall|j: u32| j < 32 implies #[trigger] bit_set(self.pcache_bits, j) == (j == k
                || bit_set(bits, j)) by {
                lemma_bit_or(bits, k, j);
            }
            let ports2 = ports.push(p);
            assert forall|j: u32|
                j < 32 && port_used(ports2, #[trigger] win_port(start, j)) implies bit_set(
                self.pcache_bits,
                j,
            ) by {
                lemma_push_contains(ports, p, win_port(start, j));
                if win_port(start, j) == p {
                    assert(start % 32 == 0 && j < 32 && k < 32 && ((start as u32) + j) as u8 == ((
                    start as u32) + k) as u8 ==> j == k) by (bit_vector);
                }
            }
            assert forall|j: u32| j < 32 && #[trigger] bit_set(self.pcache_bits, j) implies
                port_used(ports2, win_port(start, j)) || win_reserved(start, j) by {
                lemma_push_contains(ports, p, win_port(start, j));
            }
        }
        p
    }
}

/// The index of the socket with the given id, or a negative value when none
/// has it.
pub open spec fn find_sid(s: Seq<SocketSlot>, sid: u64) -> int
    decreases s.len(),
{
    if s.len() == 0 {
        -1
    } else if s[0].sid == sid {
        0
    } else {
        let t = find_sid(s.skip(1), sid);
        if t < 0 {
            -1
        } else {
            t + 1
        }
    }
}

/// `find_sid` finds exactly the first socket with the id.
pub proof fn lemma_find_sid(s: Seq<SocketSlot>, sid: u64)
    ensures
        ({
            let i = find_sid(s, sid);
            if i >= 0 {
                i < s.len() && s[i].sid == sid && forall|j: int| 0 <= j < i ==> s[j].sid != sid
            } else {
                forall|j: int| 0 <= j < s.len() ==> s[j].sid != sid
            }
        }),
    decreases s.len(),
{
    if s.len() > 0 && s[0].sid != sid {
        lemma_find_sid(s.skip(1), sid);
        let t = find_sid(s.skip(1), sid);
        if t >= 0 {
            assert(s[t + 1] == s.skip(1)[t]);
            assert forall|j: int| 0 <= j < t + 1 implies s[j].sid != sid by {
                if j > 0 {
                    assert(s[j] == s.skip(1)[j - 1]);
                }
            }
        } else {
            assert forall|j: int| 0 <= j < s.len() implies s[j].sid != sid by {
                if j > 0 {
                    assert(s[j] == s.skip(1)[j - 1]);
                }
            }
        }
    }
}

/// The first index with the id is the one `find_sid` gives.
proof fn lemma_find_sid_at(s: Seq<SocketSlot>, sid: u64, i: int)
    requires
        0 <= i < s.len(),
        s[i].sid == sid,
        forall|j: int| 0 <= j < i ==> s[j].sid != sid,
    ensures
        find_sid(s, sid) == i,
    decreases s.len(),
{
    if s[0].sid != sid {
        lemma_find_sid_at(s.skip(1), sid, i - 1);
    }
}

/// Find the index of the socket with the given id.
fn find_sid_index(sockets: &Vec<SocketSlot>, sid: u64) -> (r: Option<usize>)
    ensures
        match r {
            Some(i) => find_sid(sockets@, sid) == i as int && i < sockets@.len(),
            None => find_sid(sockets@, sid) < 0,
        },
{
    let mut idx: usize = 0;
    let n = sockets.len();
    while idx < n
        invariant
            n == sockets@.len(),
            idx <= n,
            forall|j: int| 0 <= j < idx ==> sockets@[j].sid != sid,
        decreases n - idx,
    {
        if sockets[idx].sid == sid {
            proof {
                lemma_find_sid_at(sockets@, sid, idx as int);
            }
            return Some(idx);
        }
        idx += 1;
    }
    proof {
        lemma_find_sid(sockets@, sid);
    }
    None
}

impl<P: Profile> NetStackInner<P> {
    /// Attach a socket: give it a fresh port and put it at the front of the
    /// list. Fails exactly when all 254 usable ports are attached; the
    /// allocator hands out neither port 0 nor port 255.
    pub fn try_attach_socket(&mut self, hdr: SocketHeader, ty: u64, storage: SocketStorage) -> (r:
        Option<SocketHdl>)
        requires
            old(self).wf(),
            old(self).next_sid < u64::MAX,
        ensures
            final(self).wf(),
            final(self).profile == old(self).profile,
            final(self).seq_no == old(self).seq_no,
            match r {
                Some(h) => {
                    &&& 1 <= h.port <= 254
                    &&& !port_used(ports_of(old(self).sockets@), h.port)
                    // The allocator's policy, visible to attachers: the
                    // lowest cleared bit of the cached window when it has
                    // one, the lowest free usable port anywhere otherwise.
                    &&& ({
                        let b0 = if old(self).pcache_start == 0 {
                            old(self).pcache_bits | 1u32
                        } else {
                            old(self).pcache_bits
                        };
                        if b0 != 0xffff_ffffu32 {
                            final(self).pcache_start == old(self).pcache_start && h.port
                                == win_port(
                                old(self).pcache_start,
                                vstd::std_specs::bits::u32_trailing_ones(b0),
                            )
                        } else {
                            forall|q: u8|
                                1 <= q < h.port ==> port_used(ports_of(old(self).sockets@), q)
                        }
                    })
                    &&& h.sid == old(self).next_sid
                    &&& final(self).next_sid == old(self).next_sid + 1
                    &&& final(self).sockets@ == old(self).sockets@.insert(
                        0,
                        SocketSlot {
                            sid: h.sid,
                            hdr: SocketHeader {
                                port: h.port,
                                attrs: hdr.attrs,
                                key: hdr.key,
                                nash: hdr.nash,
                                vtable: hdr.vtable,
                            },
                            ty,
                            storage,
                        },
                    )
                },
                None => {
                    &&& forall|p: u8| 1 <= p <= 254 ==> port_used(ports_of(old(self).sockets@), p)
                    &&& final(self).sockets@ == old(self).sockets@
                    &&& final(self).next_sid == old(self).next_sid
                },
            },
    {
        let ghost ports = ports_of(old(self).sockets@);
        let Some(port) = self.alloc_port() else {
            return None;
        };
        let sid = self.next_sid;
        self.next_sid = self.next_sid + 1;
        let slot = SocketSlot {
            sid,
            hdr: SocketHeader {
                port,
                attrs: hdr.attrs,
                key: hdr.key,
                nash: hdr.nash,
                vtable: hdr.vtable,
            },
            ty,
            storage,
        };
        let ghost slotg = slot;
        self.sockets.insert(0, slot);
        proof {
            let s0 = old(self).sockets@;
            let s1 = self.sockets@;
            assert(s1 == s0.insert(0, slotg));
            assert(s1[0] == slotg);
            assert(forall|i: int| 0 < i < s1.len() ==> s1[i] == s0[i - 1]);
            assert forall|i: int, j: int|
                0 <= i < s1.len() && 0 <= j < s1.len() && i != j && #[trigger] s1[i].hdr.port
                    != 255 implies s1[i].hdr.port != #[trigger] s1[j].hdr.port by {
                if i == 0 {
                    if s1[j].hdr.port == port && s1[j].hdr.port != 255 {
                        assert(ports_of(s0)[j - 1] == port);
                        assert(port_used(ports, port));
                    }
                } else if j == 0 {
                    if s1[i].hdr.port == port {
                        assert(ports_of(s0)[i - 1] == port);
                        assert(port_used(ports, port));
                    }
                }
            }
            assert(sockets_wf(s1, self.next_sid));
            assert forall|q: u8| ports.push(port).contains(q) <==> ports_of(s1).contains(
                q,
            ) by {
                lemma_push_contains(ports, port, q);
                lemma_insert0_contains(ports, port, q);
                assert(ports_of(s1) =~= ports.insert(0, port));
            }
            lemma_pcache_wf_same_ports(
                ports.push(port),
                ports_of(s1),
                self.pcache_bits,
                self.pcache_start,
            );
        }
        Some(SocketHdl { sid, port })
    }

    /// Attach a socket when a port is known to be free. The caller rules out
    /// exhaustion; use [`Self::try_attach_socket`] when it cannot.
    pub fn attach_socket(&mut self, hdr: SocketHeader, ty: u64, storage: SocketStorage) -> (h:
        SocketHdl)
        requires
            old(self).wf(),
            old(self).next_sid < u64::MAX,
            exists|p: u8| 1 <= p <= 254 && !port_used(ports_of(old(self).sockets@), p),
        ensures
            final(self).wf(),
            final(self).profile == old(self).profile,
            final(self).seq_no == old(self).seq_no,
            1 <= h.port <= 254,
            !port_used(ports_of(old(self).sockets@), h.port),
            ({
                let b0 = if old(self).pcache_start == 0 {
                    old(self).pcache_bits | 1u32
                } else {
                    old(self).pcache_bits
                };
                if b0 != 0xffff_ffffu32 {
                    final(self).pcache_start == old(self).pcache_start && h.port == win_port(
                        old(self).pcache_start,
                        vstd::std_specs::bits::u32_trailing_ones(b0),
                    )
                } else {
                    forall|q: u8| 1 <= q < h.port ==> port_used(ports_of(old(self).sockets@), q)
                }
            }),
            h.sid == old(self).next_sid,
            final(self).next_sid == old(self).next_sid + 1,
            final(self).sockets@ == old(self).sockets@.insert(
                0,
                SocketSlot {
                    sid: h.sid,
                    hdr: SocketHeader {
                        port: h.port,
                        attrs: hdr.attrs,
                        key: hdr.key,
                        nash: hdr.nash,
                        vtable: hdr.vtable,
                    },
                    ty,
                    storage,
                },
            ),
    {
        match self.try_attach_socket(hdr, ty, storage) {
            Some(h) => h,
            None => {
                proof {
                    assert(false);
                }
                SocketHdl { sid: 0, port: 0 }
            },
        }
    }

    /// Attach a broadcast receiver: it gets port 255 (shared by all
    /// broadcast receivers) and goes to the back of the list.
    pub fn attach_broadcast_socket(&mut self, hdr: SocketHeader, ty: u64, storage: SocketStorage)
        -> (h: SocketHdl)
        requires
            old(self).wf(),
            old(self).next_sid < u64::MAX,
        ensures
            final(self).wf(),
            final(self).profile == old(self).profile,
            final(self).seq_no == old(self).seq_no,
            h.port == 255,
            h.sid == old(self).next_sid,
            final(self).next_sid == old(self).next_sid + 1,
            final(self).sockets@ == old(self).sockets@.push(
                SocketSlot {
                    sid: h.sid,
                    hdr: SocketHeader {
                        port: 255,
                        attrs: hdr.attrs,
                        key: hdr.key,
                        nash: hdr.nash,
                        vtable: hdr.vtable,
                    },
                    ty,
                    storage,
                },
            ),
    {
        let ghost ports = ports_of(old(self).sockets@);
        let sid = self.next_sid;
        self.next_sid = self.next_sid + 1;
        let slot = SocketSlot {
            sid,
            hdr: SocketHeader {
                port: 255,
                attrs: hdr.attrs,
                key: hdr.key,
                nash: hdr.nash,
                vtable: hdr.vtable,
            },
            ty,
            storage,
        };
        let ghost slotg = slot;
        self.sockets.push(slot);
        proof {
            let s0 = old(self).sockets@;
            let s1 = self.sockets@;
            assert(s1 == s0.push(slotg));
            assert(forall|i: int| 0 <= i < s0.len() ==> s1[i] == s0[i]);
            assert(sockets_wf(s1, self.next_sid));
            assert forall|q: u8| port_used(ports, q) == port_used(ports_of(s1), q) by {
                lemma_push_contains(ports, 255u8, q);
                assert(ports_of(s1) =~= ports.push(255u8));
            }
            lemma_pcache_wf_same_used(
                ports,
                ports_of(s1),
                self.pcache_bits,
                self.pcache_start,
            );
        }
        SocketHdl { sid, port: 255 }
    }

    /// Detach the socket with the given id: free its port and unlink it.
    /// Returns whether a socket was found; the port is reusable at once.
    pub fn detach_socket(&mut self, sid: u64) -> (r: bool)
        requires
            old(self).wf(),
        ensures
            final(self).wf(),
            final(self).profile == old(self).profile,
            final(self).seq_no == old(self).seq_no,
            final(self).next_sid == old(self).next_sid,
            ({
                let i = find_sid(old(self).sockets@, sid);
                if i >= 0 {
                    let port = old(self).sockets@[i].hdr.port;
                    &&& r == true
                    &&& final(self).sockets@ == old(self).sockets@.remove(i)
                    &&& final(self).pcache_start == old(self).pcache_start
                    // The freed port's bit clears when it lies in the cached
                    // window, so the next allocation can hand it out again.
                    &&& final(self).pcache_bits == (if port != 255 && (port & 0xe0u8) == old(
                        self,
                    ).pcache_start {
                        old(self).pcache_bits & !(1u32 << ((port & 0x1fu8) as u32))
                    } else {
                        old(self).pcache_bits
                    })
                } else {
                    &&& r == false
                    &&& final(self).sockets@ == old(self).sockets@
                    &&& final(self).pcache_bits == old(self).pcache_bits
                    &&& final(self).pcache_start == old(self).pcache_start
                }
            }),
    {
        let Some(idx) = find_sid_index(&self.sockets, sid) else {
            return false;
        };
        let ghost s0 = self.sockets@;
        let ghost ports = ports_of(s0);
        let removed = self.sockets.remove(idx);
        let port = removed.hdr.port;
        proof {
            assert(ports_of(self.sockets@) =~= ports.remove(idx as int));
        }
        if port != 255 {
            self.free_port(port, Ghost(ports), Ghost(idx as int));
        } else {
            proof {
                let s1 = self.sockets@;
                assert forall|k: u32|
                    k < 32 && port_used(ports_of(s1), #[trigger] win_port(self.pcache_start, k))
                        implies bit_set(self.pcache_bits, k) by {
                    lemma_remove_contains(ports, idx as int, win_port(self.pcache_start, k));
                }
                assert forall|k: u32|
                    k < 32 && #[trigger] bit_set(self.pcache_bits, k) implies port_used(
                    ports_of(s1),
                    win_port(self.pcache_start, k),
                ) || win_reserved(self.pcache_start, k) by {
                    let q = win_port(self.pcache_start, k);
                    if port_used(ports, q) {
                        let t = choose|t: int| 0 <= t < ports.len() && ports[t] == q;
                        assert(s0[t].hdr.port == q);
                        assert(t != idx);
                        lemma_remove_contains(ports, idx as int, q);
                    }
                }
            }
        }
        true
    }

    /// Clear the freed port's bit when it lies in the cached window. Ports
    /// outside the window are simply forgotten: the next rebuild of their
    /// window recounts them from the socket list.
    fn free_port(&mut self, port: u8, Ghost(ports): Ghost<Seq<u8>>, Ghost(at): Ghost<int>)
        requires
            port != 255,
            pcache_wf(ports, old(self).pcache_bits, old(self).pcache_start),
            0 <= at < ports.len(),
            ports[at] == port,
            // the freed port was attached exactly once
            forall|t: int| 0 <= t < ports.len() && t != at ==> ports[t] != port,
            ports_of(old(self).sockets@) == ports.remove(at),
        ensures
            final(self).sockets@ == old(self).sockets@,
            final(self).profile == old(self).profile,
            final(self).seq_no == old(self).seq_no,
            final(self).next_sid == old(self).next_sid,
            final(self).pcache_start == old(self).pcache_start,
            final(self).pcache_bits == (if (port & 0xe0u8) == old(self).pcache_start {
                old(self).pcache_bits & !(1u32 << ((port & 0x1fu8) as u32))
            } else {
                old(self).pcache_bits
            }),
            pcache_wf(
                ports_of(final(self).sockets@),
                final(self).pcache_bits,
                final(self).pcache_start,
            ),
    {
        let pupper: u8 = port & 0xe0;
        let plower: u8 = port & 0x1f;
        let ghost start = self.pcache_start;
        let ghost rem = ports.remove(at);
        proof {
            assert((port & 0x1f) < 32) by (bit_vector);
            assert forall|q: u8| rem.contains(q) implies ports.contains(q) by {
                lemma_remove_contains(ports, at, q);
            }
            assert forall|q: u8| ports.contains(q) && q != port implies rem.contains(q) by {
                let t = choose|t: int| 0 <= t < ports.len() && ports[t] == q;
                lemma_remove_contains(ports, at, q);
            }
            assert(!rem.contains(port)) by {
                if rem.contains(port) {
                    let t = choose|t: int| 0 <= t < rem.len() && rem[t] == port;
                    if t < at {
                        assert(ports[t] == port);
                    } else {
                        assert(ports[t + 1] == port);
                    }
                }
            }
        }
        if pupper == self.pcache_start {
            let ghost b0 = self.pcache_bits;
            self.pcache_bits = self.pcache_bits & !(1u32 << (plower as u32));
            proof {
                assert((port & 0x1f) < 32 && ((port & 0xe0) == start ==> ((start as u32) + ((port
                    & 0x1f) as u32)) as u8 == port)) by (bit_vector);
                assert forall|j: u32| j < 32 implies #[trigger] bit_set(self.pcache_bits, j) == (j
                    != (plower as u32) && bit_set(b0, j)) by {
                    lemma_bit_clear(b0, plower as u32, j);
                }
                assert forall|k: u32|
                    k < 32 && port_used(rem, #[trigger] win_port(start, k)) implies bit_set(
                    self.pcache_bits,
                    k,
                ) by {
                    if k == plower as u32 {
                        assert(win_port(start, k) == port);
                        assert(!rem.contains(port));
                    }
                }
                assert(start == 224 ==> bit_set(self.pcache_bits, 31)) by {
                    assert((port & 0xe0) == 224 && port != 255 ==> (port & 0x1f) != 31)
                        by (bit_vector);
                }
            }
        } else {
            proof {
                assert forall|k: u32|
                    k < 32 && #[trigger] bit_set(self.pcache_bits, k) && !win_reserved(start, k)
                        implies port_used(rem, win_port(start, k)) by {
                    let q = win_port(start, k);
                    assert(start % 32 == 0 && k < 32 && (port & 0xe0) != start ==> ((start as u32)
                        + k) as u8 != port) by (bit_vector);
                }
            }
        }
    }

    /// Take the oldest pending message out of the socket with the given id.
    pub fn try_recv(&mut self, sid: u64) -> (r: Option<crate::socket::OwnedMessage>)
        requires
            old(self).wf(),
        ensures
            final(self).wf(),
            final(self).profile == old(self).profile,
            final(self).seq_no == old(self).seq_no,
            final(self).next_sid == old(self).next_sid,
            ({
                let i = find_sid(old(self).sockets@, sid);
                match r {
                    Some(m) => {
                        &&& i >= 0
                        &&& old(self).sockets@[i].storage.msgs().len() > 0
                        &&& m.msg_v() == old(self).sockets@[i].storage.msgs()[0]
                        &&& final(self).sockets@.len() == old(self).sockets@.len()
                        &&& final(self).sockets@[i].slot_v() == SlotV {
                            msgs: old(self).sockets@[i].storage.msgs().skip(1),
                            ..old(self).sockets@[i].slot_v()
                        }
                        &&& forall|j: int|
                            0 <= j < old(self).sockets@.len() && j != i ==> final(self).sockets@[j]
                                == old(self).sockets@[j]
                    },
                    None => final(self).sockets@ == old(self).sockets@ && (i < 0 || old(
                        self,
                    ).sockets@[i].storage.msgs().len() == 0),
                }
            }),
    {
        let Some(idx) = find_sid_index(&self.sockets, sid) else {
            return None;
        };
        let ghost s0 = self.sockets@;
        let mut slot = self.sockets.remove(idx);
        let r = slot.storage.pop_msg();
        let ghost slotg = slot;
        self.sockets.insert(idx, slot);
        proof {
            assert(self.sockets@ =~= s0.update(idx as int, slotg));
            assert(sockets_wf(self.sockets@, self.next_sid)) by {
                assert(forall|i: int|
                    0 <= i < s0.len() ==> self.sockets@[i].hdr == s0[i].hdr && self.sockets@[i].sid
                        == s0[i].sid);
            }
            assert(ports_of(self.sockets@) =~= ports_of(s0));
            if r is Some {
                assert(self.sockets@[idx as int].slot_v() == SlotV {
                    msgs: s0[idx as int].storage.msgs().skip(1),
                    ..s0[idx as int].slot_v()
                });
            } else {
                assert(slotg == s0[idx as int]);
                assert(self.sockets@ =~= s0);
            }
        }
        r
    }

    /// Reach the profile to register interfaces, change interface state, or
    /// read it. The stack's own state is untouched by whatever the caller
    /// does with the profile.
    pub fn manage_profile(&mut self) -> (r: &mut P)
        ensures
            *r == old(self).profile,
            final(self).profile == *final(r),
            final(self).sockets@ == old(self).sockets@,
            final(self).pcache_bits == old(self).pcache_bits,
            final(self).pcache_start == old(self).pcache_start,
            final(self).seq_no == old(self).seq_no,
            final(self).next_sid == old(self).next_sid,
    {
        &mut self.profile
    }
}

// ---- dispatch: the model ----

/// Both ends of the header are wildcards for network and node: the frame is
/// certainly local and the profile need not be consulted.
pub open spec fn spec_local_bypass(h: Header) -> bool {
    h.src.spec_net_node_any() && h.dst.spec_net_node_any()
}

/// The sequence counter after one stamp.
pub open spec fn wrap_inc(seq: u16) -> u16 {
    if seq == 0xffff {
        0u16
    } else {
        (seq + 1) as u16
    }
}

/// When the appendix carries a name hash, only sockets with that name count.
pub open spec fn nash_ok(sock_nash: Option<crate::addr::NameHash>, a: AnyAllAppendix) -> bool {
    a.nash is Some ==> sock_nash == a.nash
}

/// Whether a socket receives a broadcast with this kind and appendix.
pub open spec fn bcast_matches_v(sv: SlotV, kind: FrameKind, a: AnyAllAppendix) -> bool {
    &&& sv.hdr.port == 255
    &&& sv.hdr.attrs.kind == kind
    &&& sv.hdr.key == a.key
    &&& nash_ok(sv.hdr.nash, a)
}

/// Whether a socket is a candidate for an any-cast with this kind and
/// appendix.
pub open spec fn any_matches_v(sv: SlotV, kind: FrameKind, a: AnyAllAppendix) -> bool {
    &&& sv.hdr.attrs.kind == kind
    &&& sv.hdr.attrs.discoverable
    &&& sv.hdr.key == a.key
    &&& nash_ok(sv.hdr.nash, a)
}

/// The first socket listening on the port, or a negative value.
pub open spec fn find_port_v(svs: Seq<SlotV>, p: u8) -> int
    decreases svs.len(),
{
    if svs.len() == 0 {
        -1
    } else if svs[0].hdr.port == p {
        0
    } else {
        let t = find_port_v(svs.skip(1), p);
        if t < 0 {
            -1
        } else {
            t + 1
        }
    }
}

/// How many sockets are any-cast candidates.
pub open spec fn count_any_v(svs: Seq<SlotV>, kind: FrameKind, a: AnyAllAppendix) -> nat
    decreases svs.len(),
{
    if svs.len() == 0 {
        0nat
    } else {
        count_any_v(svs.drop_last(), kind, a) + if any_matches_v(svs.last(), kind, a) {
            1nat
        } else {
            0nat
        }
    }
}

/// The first any-cast candidate, or a negative value.
pub open spec fn find_any_v(svs: Seq<SlotV>, kind: FrameKind, a: AnyAllAppendix) -> int
    decreases svs.len(),
{
    if svs.len() == 0 {
        -1
    } else if any_matches_v(svs[0], kind, a) {
        0
    } else {
        let t = find_any_v(svs.skip(1), kind, a);
        if t < 0 {
            -1
        } else {
            t + 1
        }
    }
}

/// What one typed delivery does to a socket: accepted when the socket takes
/// owned deliveries, the type token matches, and there is room. The sequence
/// stamp is consumed whenever the socket takes owned deliveries at all.
pub open spec fn deliver_ty_v(sv: SlotV, hdr: Header, seq: u16, ty: u64, body: Seq<u8>) -> (
    SlotV,
    u16,
    Result<(), NetStackSendError>,
) {
    if !sv.hdr.vtable.recv_owned {
        (sv, seq, Err(NetStackSendError::SocketSend(SocketSendError::WhatTheHell)))
    } else {
        let stamped = hdr.spec_with_seq(seq);
        let seq2 = if hdr.seq_no is None {
            wrap_inc(seq)
        } else {
            seq
        };
        if ty != sv.ty {
            (sv, seq2, Err(NetStackSendError::SocketSend(SocketSendError::TypeMismatch)))
        } else if sv.msgs.len() < sv.cap {
            (
                SlotV { msgs: sv.msgs.push(MsgV { hdr: stamped, ty, body: Ok(body) }), ..sv },
                seq2,
                Ok(()),
            )
        } else {
            (sv, seq2, Err(NetStackSendError::SocketSend(SocketSendError::NoSpace)))
        }
    }
}

/// What one raw delivery does to a socket: the body is stored verbatim under
/// the socket's own type token when there is room.
pub open spec fn deliver_raw_v(sv: SlotV, hdr: Header, seq: u16, body: Seq<u8>) -> (
    SlotV,
    u16,
    Result<(), NetStackSendError>,
) {
    let stamped = hdr.spec_with_seq(seq);
    let seq2 = if hdr.seq_no is None {
        wrap_inc(seq)
    } else {
        seq
    };
    if sv.msgs.len() < sv.cap {
        (
            SlotV { msgs: sv.msgs.push(MsgV { hdr: stamped, ty: sv.ty, body: Ok(body) }), ..sv },
            seq2,
            Ok(()),
        )
    } else {
        (sv, seq2, Err(NetStackSendError::SocketSend(SocketSendError::NoSpace)))
    }
}

/// What one error delivery does to a socket: stored in order when the socket
/// takes errors and has room; dropped silently when full.
pub open spec fn deliver_err_v(sv: SlotV, hdr: Header, seq: u16, err: ProtocolError) -> (
    SlotV,
    u16,
    Result<(), NetStackSendError>,
) {
    if !sv.hdr.vtable.recv_err {
        (sv, seq, Err(NetStackSendError::SocketSend(SocketSendError::WhatTheHell)))
    } else {
        let stamped = hdr.spec_with_seq(seq);
        let seq2 = if hdr.seq_no is None {
            wrap_inc(seq)
        } else {
            seq
        };
        if sv.msgs.len() < sv.cap {
            (
                SlotV { msgs: sv.msgs.push(MsgV { hdr: stamped, ty: sv.ty, body: Err(err) }), ..sv },
                seq2,
                Ok(()),
            )
        } else {
            (sv, seq2, Ok(()))
        }
    }
}

/// What a typed broadcast does to the whole socket list: a best-effort
/// delivery into every matching socket, front to back, and whether at least
/// one took it.
pub open spec fn bcast_ty_v(
    svs: Seq<SlotV>,
    hdr: Header,
    seq: u16,
    ty: u64,
    body: Seq<u8>,
    a: AnyAllAppendix,
) -> (Seq<SlotV>, u16, bool)
    decreases svs.len(),
{
    if svs.len() == 0 {
        (Seq::empty(), seq, false)
    } else {
        let hd = if bcast_matches_v(svs[0], hdr.kind, a) {
            let d = deliver_ty_v(svs[0], hdr, seq, ty, body);
            (d.0, d.1, d.2 is Ok)
        } else {
            (svs[0], seq, false)
        };
        let rest = bcast_ty_v(svs.skip(1), hdr, hd.1, ty, body, a);
        (seq![hd.0] + rest.0, rest.1, hd.2 || rest.2)
    }
}

/// What a raw broadcast does to the whole socket list.
pub open spec fn bcast_raw_v(
    svs: Seq<SlotV>,
    hdr: Header,
    seq: u16,
    body: Seq<u8>,
    a: AnyAllAppendix,
) -> (Seq<SlotV>, u16, bool)
    decreases svs.len(),
{
    if svs.len() == 0 {
        (Seq::empty(), seq, false)
    } else {
        let hd = if bcast_matches_v(svs[0], hdr.kind, a) {
            let d = deliver_raw_v(svs[0], hdr, seq, body);
            (d.0, d.1, d.2 is Ok)
        } else {
            (svs[0], seq, false)
        };
        let rest = bcast_raw_v(svs.skip(1), hdr, hd.1, body, a);
        (seq![hd.0] + rest.0, rest.1, hd.2 || rest.2)
    }
}

/// What local dispatch of a typed unicast or any-cast does.
pub open spec fn send_ty_local_v(svs: Seq<SlotV>, hdr: Header, seq: u16, ty: u64, body: Seq<
    u8,
>) -> (Seq<SlotV>, u16, Result<(), NetStackSendError>) {
    if hdr.dst.port_id == 0 {
        match hdr.any_all {
            None => (svs, seq, Err(NetStackSendError::AnyPortMissingKey)),
            Some(a) => {
                let c = count_any_v(svs, hdr.kind, a);
                if c == 0 {
                    (svs, seq, Err(NetStackSendError::NoRoute))
                } else if c >= 2 {
                    (svs, seq, Err(NetStackSendError::AnyPortNotUnique))
                } else {
                    let i = find_any_v(svs, hdr.kind, a);
                    let d = deliver_ty_v(svs[i], hdr, seq, ty, body);
                    (svs.update(i, d.0), d.1, d.2)
                }
            },
        }
    } else {
        let i = find_port_v(svs, hdr.dst.port_id);
        if i < 0 {
            (svs, seq, Err(NetStackSendError::NoRoute))
        } else if svs[i].hdr.attrs.kind != hdr.kind {
            (svs, seq, Err(NetStackSendError::WrongPortKind))
        } else {
            let d = deliver_ty_v(svs[i], hdr, seq, ty, body);
            (svs.update(i, d.0), d.1, d.2)
        }
    }
}

/// What local dispatch of a raw unicast or any-cast does.
pub open spec fn send_raw_local_v(svs: Seq<SlotV>, hdr: Header, seq: u16, body: Seq<u8>) -> (
    Seq<SlotV>,
    u16,
    Result<(), NetStackSendError>,
) {
    if hdr.dst.port_id == 0 {
        match hdr.any_all {
            None => (svs, seq, Err(NetStackSendError::AnyPortMissingKey)),
            Some(a) => {
                let c = count_any_v(svs, hdr.kind, a);
                if c == 0 {
                    (svs, seq, Err(NetStackSendError::NoRoute))
                } else if c >= 2 {
                    (svs, seq, Err(NetStackSendError::AnyPortNotUnique))
                } else {
                    let i = find_any_v(svs, hdr.kind, a);
                    let d = deliver_raw_v(svs[i], hdr, seq, body);
                    (svs.update(i, d.0), d.1, d.2)
                }
            },
        }
    } else {
        let i = find_port_v(svs, hdr.dst.port_id);
        if i < 0 {
            (svs, seq, Err(NetStackSendError::NoRoute))
        } else if svs[i].hdr.attrs.kind != hdr.kind {
            (svs, seq, Err(NetStackSendError::WrongPortKind))
        } else {
            let d = deliver_raw_v(svs[i], hdr, seq, body);
            (svs.update(i, d.0), d.1, d.2)
        }
    }
}

/// The whole transition one typed send makes, as a function of the stack's
/// mathematical value: the socket views, the sequence counter, the profile's
/// value, and the answer. [`NetStackInner::send_ty`] follows it exactly.
pub open spec fn send_ty_transition<P: Profile>(
    svs: Seq<SlotV>,
    seq: u16,
    prof: P::ModelT,
    hdr: Header,
    ty: u64,
    body: Seq<u8>,
) -> (Seq<SlotV>, u16, P::ModelT, Result<(), NetStackSendError>) {
    if hdr.dst.port_id == 255 {
        match hdr.any_all {
            None => (svs, seq, prof, Err(NetStackSendError::AllPortMissingKey)),
            Some(a) => {
                let lc = bcast_ty_v(svs, hdr, seq, ty, body, a);
                let pm = P::send_model(prof, hdr, ty, body);
                (
                    lc.0,
                    lc.1,
                    pm.0,
                    if lc.2 || pm.1 is Ok {
                        Ok(())
                    } else {
                        Err(NetStackSendError::NoRoute)
                    },
                )
            },
        }
    } else {
        let pm = P::send_model(prof, hdr, ty, body);
        if !spec_local_bypass(hdr) && pm.1 is Ok {
            (svs, seq, pm.0, Ok(()))
        } else if !spec_local_bypass(hdr) && !(pm.1 == Err::<(), InterfaceSendError>(
            InterfaceSendError::DestinationLocal,
        )) {
            (svs, seq, pm.0, Err(NetStackSendError::InterfaceSend(pm.1->Err_0)))
        } else {
            let prof2 = if spec_local_bypass(hdr) {
                prof
            } else {
                pm.0
            };
            let lc = send_ty_local_v(svs, hdr, seq, ty, body);
            (lc.0, lc.1, prof2, lc.2)
        }
    }
}

/// The whole transition one raw send makes. [`NetStackInner::send_raw`]
/// follows it exactly, and the receive path's contract is stated over it.
pub open spec fn send_raw_transition<P: Profile>(
    svs: Seq<SlotV>,
    seq: u16,
    prof: P::ModelT,
    hdr: Header,
    hdr_raw: Seq<u8>,
    body: Seq<u8>,
) -> (Seq<SlotV>, u16, P::ModelT, Result<(), NetStackSendError>) {
    if hdr.dst.port_id == 255 {
        match hdr.any_all {
            None => (svs, seq, prof, Err(NetStackSendError::AllPortMissingKey)),
            Some(a) => {
                let lc = bcast_raw_v(svs, hdr, seq, body, a);
                let pm = P::send_raw_model(prof, hdr, hdr_raw, body);
                (
                    lc.0,
                    lc.1,
                    pm.0,
                    if lc.2 || pm.1 is Ok {
                        Ok(())
                    } else {
                        Err(NetStackSendError::NoRoute)
                    },
                )
            },
        }
    } else {
        let pm = P::send_raw_model(prof, hdr, hdr_raw, body);
        if !spec_local_bypass(hdr) && pm.1 is Ok {
            (svs, seq, pm.0, Ok(()))
        } else if !spec_local_bypass(hdr) && !(pm.1 == Err::<(), InterfaceSendError>(
            InterfaceSendError::DestinationLocal,
        )) {
            (svs, seq, pm.0, Err(NetStackSendError::InterfaceSend(pm.1->Err_0)))
        } else {
            let prof2 = if spec_local_bypass(hdr) {
                prof
            } else {
                pm.0
            };
            let lc = send_raw_local_v(svs, hdr, seq, body);
            (lc.0, lc.1, prof2, lc.2)
        }
    }
}

/// The whole transition one error send makes. [`NetStackInner::send_err`]
/// follows it exactly, and the receive path's contract is stated over it.
pub open spec fn send_err_transition<P: Profile>(
    svs: Seq<SlotV>,
    seq: u16,
    prof: P::ModelT,
    hdr: Header,
    err: ProtocolError,
) -> (Seq<SlotV>, u16, P::ModelT, Result<(), NetStackSendError>) {
    let pm = P::send_err_model(prof, hdr, err);
    if !spec_local_bypass(hdr) && pm.1 is Ok {
        (svs, seq, pm.0, Ok(()))
    } else if !spec_local_bypass(hdr) && !(pm.1 == Err::<(), InterfaceSendError>(
        InterfaceSendError::DestinationLocal,
    )) {
        (svs, seq, pm.0, Err(NetStackSendError::InterfaceSend(pm.1->Err_0)))
    } else {
        let prof2 = if spec_local_bypass(hdr) {
            prof
        } else {
            pm.0
        };
        let lc = send_err_local_v(svs, hdr, seq, err);
        (lc.0, lc.1, prof2, lc.2)
    }
}

/// What local dispatch of an error does: the port alone decides, the kind is
/// not checked.
pub open spec fn send_err_local_v(svs: Seq<SlotV>, hdr: Header, seq: u16, err: ProtocolError) -> (
    Seq<SlotV>,
    u16,
    Result<(), NetStackSendError>,
) {
    let i = find_port_v(svs, hdr.dst.port_id);
    if i < 0 {
        (svs, seq, Err(NetStackSendError::NoRoute))
    } else {
        let d = deliver_err_v(svs[i], hdr, seq, err);
        (svs.update(i, d.0), d.1, d.2)
    }
}

// ---- dispatch: lemmas ----

/// Appending one socket extends a typed broadcast by one delivery.
proof fn lemma_bcast_ty_v_push(
    svs: Seq<SlotV>,
    x: SlotV,
    hdr: Header,
    seq: u16,
    ty: u64,
    body: Seq<u8>,
    a: AnyAllAppendix,
)
    ensures
        ({
            let p = bcast_ty_v(svs, hdr, seq, ty, body, a);
            let hd = if bcast_matches_v(x, hdr.kind, a) {
                let d = deliver_ty_v(x, hdr, p.1, ty, body);
                (d.0, d.1, d.2 is Ok)
            } else {
                (x, p.1, false)
            };
            let q = bcast_ty_v(svs.push(x), hdr, seq, ty, body, a);
            q.0 == p.0.push(hd.0) && q.1 == hd.1 && q.2 == (p.2 || hd.2)
        }),
    decreases svs.len(),
{
    let p = bcast_ty_v(svs, hdr, seq, ty, body, a);
    let q = bcast_ty_v(svs.push(x), hdr, seq, ty, body, a);
    if svs.len() == 0 {
        let e = svs.push(x).skip(1);
        assert(e =~= Seq::<SlotV>::empty());
        assert(svs.push(x)[0] == x);
        let hdq = if bcast_matches_v(x, hdr.kind, a) {
            let d = deliver_ty_v(x, hdr, seq, ty, body);
            (d.0, d.1, d.2 is Ok)
        } else {
            (x, seq, false)
        };
        let rest = bcast_ty_v(e, hdr, hdq.1, ty, body, a);
        assert(rest.0 == Seq::<SlotV>::empty() && rest.1 == hdq.1 && rest.2 == false);
        assert(q.0 == seq![hdq.0] + rest.0 && q.1 == rest.1 && q.2 == (hdq.2 || rest.2));
        assert(q.0 =~= p.0.push(hdq.0));
    } else {
        assert(svs.push(x)[0] == svs[0]);
        assert(svs.push(x).skip(1) =~= svs.skip(1).push(x));
        let hd0 = if bcast_matches_v(svs[0], hdr.kind, a) {
            let d = deliver_ty_v(svs[0], hdr, seq, ty, body);
            (d.0, d.1, d.2 is Ok)
        } else {
            (svs[0], seq, false)
        };
        lemma_bcast_ty_v_push(svs.skip(1), x, hdr, hd0.1, ty, body, a);
        let pr = bcast_ty_v(svs.skip(1), hdr, hd0.1, ty, body, a);
        let hd = if bcast_matches_v(x, hdr.kind, a) {
            let d = deliver_ty_v(x, hdr, pr.1, ty, body);
            (d.0, d.1, d.2 is Ok)
        } else {
            (x, pr.1, false)
        };
        assert(q.0 =~= p.0.push(hd.0));
    }
}

/// Appending one socket extends a raw broadcast by one delivery.
proof fn lemma_bcast_raw_v_push(
    svs: Seq<SlotV>,
    x: SlotV,
    hdr: Header,
    seq: u16,
    body: Seq<u8>,
    a: AnyAllAppendix,
)
    ensures
        ({
            let p = bcast_raw_v(svs, hdr, seq, body, a);
            let hd = if bcast_matches_v(x, hdr.kind, a) {
                let d = deliver_raw_v(x, hdr, p.1, body);
                (d.0, d.1, d.2 is Ok)
            } else {
                (x, p.1, false)
            };
            let q = bcast_raw_v(svs.push(x), hdr, seq, body, a);
            q.0 == p.0.push(hd.0) && q.1 == hd.1 && q.2 == (p.2 || hd.2)
        }),
    decreases svs.len(),
{
    let p = bcast_raw_v(svs, hdr, seq, body, a);
    let q = bcast_raw_v(svs.push(x), hdr, seq, body, a);
    if svs.len() == 0 {
        let e = svs.push(x).skip(1);
        assert(e =~= Seq::<SlotV>::empty());
        assert(svs.push(x)[0] == x);
        let hdq = if bcast_matches_v(x, hdr.kind, a) {
            let d = deliver_raw_v(x, hdr, seq, body);
            (d.0, d.1, d.2 is Ok)
        } else {
            (x, seq, false)
        };
        let rest = bcast_raw_v(e, hdr, hdq.1, body, a);
        assert(rest.0 == Seq::<SlotV>::empty() && rest.1 == hdq.1 && rest.2 == false);
        assert(q.0 == seq![hdq.0] + rest.0 && q.1 == rest.1 && q.2 == (hdq.2 || rest.2));
        assert(q.0 =~= p.0.push(hdq.0));
    } else {
        assert(svs.push(x)[0] == svs[0]);
        assert(svs.push(x).skip(1) =~= svs.skip(1).push(x));
        let hd0 = if bcast_matches_v(svs[0], hdr.kind, a) {
            let d = deliver_raw_v(svs[0], hdr, seq, body);
            (d.0, d.1, d.2 is Ok)
        } else {
            (svs[0], seq, false)
        };
        lemma_bcast_raw_v_push(svs.skip(1), x, hdr, hd0.1, body, a);
        let pr = bcast_raw_v(svs.skip(1), hdr, hd0.1, body, a);
        let hd = if bcast_matches_v(x, hdr.kind, a) {
            let d = deliver_raw_v(x, hdr, pr.1, body);
            (d.0, d.1, d.2 is Ok)
        } else {
            (x, pr.1, false)
        };
        assert(q.0 =~= p.0.push(hd.0));
    }
}

/// A candidate count of zero means no candidate, and a count with a known
/// candidate is at least one.
proof fn lemma_count_any_zero(svs: Seq<SlotV>, kind: FrameKind, a: AnyAllAppendix)
    ensures
        (count_any_v(svs, kind, a) == 0) <==> (forall|j: int|
            0 <= j < svs.len() ==> !any_matches_v(#[trigger] svs[j], kind, a)),
    decreases svs.len(),
{
    if svs.len() > 0 {
        lemma_count_any_zero(svs.drop_last(), kind, a);
        assert(forall|j: int| 0 <= j < svs.len() - 1 ==> svs.drop_last()[j] == svs[j]);
        assert(svs.last() == svs[svs.len() - 1]);
    }
}

/// A list with exactly one candidate counts exactly one.
proof fn lemma_count_any_one(svs: Seq<SlotV>, kind: FrameKind, a: AnyAllAppendix, f: int)
    requires
        0 <= f < svs.len(),
        any_matches_v(svs[f], kind, a),
        forall|j: int| 0 <= j < svs.len() && j != f ==> !any_matches_v(#[trigger] svs[j], kind, a),
    ensures
        count_any_v(svs, kind, a) == 1,
    decreases svs.len(),
{
    if f == svs.len() - 1 {
        lemma_count_any_zero(svs.drop_last(), kind, a);
        assert(forall|j: int| 0 <= j < svs.len() - 1 ==> svs.drop_last()[j] == svs[j]);
    } else {
        assert(forall|j: int| 0 <= j < svs.len() - 1 ==> svs.drop_last()[j] == svs[j]);
        lemma_count_any_one(svs.drop_last(), kind, a, f);
        assert(!any_matches_v(svs.last(), kind, a));
    }
}

/// Two distinct candidates push the count to two or more.
proof fn lemma_count_any_two(svs: Seq<SlotV>, kind: FrameKind, a: AnyAllAppendix, f: int, g: int)
    requires
        0 <= f < g < svs.len(),
        any_matches_v(svs[f], kind, a),
        any_matches_v(svs[g], kind, a),
    ensures
        count_any_v(svs, kind, a) >= 2,
    decreases svs.len(),
{
    lemma_count_any_ge_one(svs.drop_last(), kind, a, f);
    if g == svs.len() - 1 {
    } else {
        assert(forall|j: int| 0 <= j < svs.len() - 1 ==> svs.drop_last()[j] == svs[j]);
        lemma_count_any_two(svs.drop_last(), kind, a, f, g);
    }
}

/// A known candidate makes the count at least one.
proof fn lemma_count_any_ge_one(svs: Seq<SlotV>, kind: FrameKind, a: AnyAllAppendix, f: int)
    requires
        0 <= f < svs.len(),
        any_matches_v(svs[f], kind, a),
    ensures
        count_any_v(svs, kind, a) >= 1,
    decreases svs.len(),
{
    if f < svs.len() - 1 {
        assert(svs.drop_last()[f] == svs[f]);
        lemma_count_any_ge_one(svs.drop_last(), kind, a, f);
    }
}

/// The first candidate is where the first candidate is.
proof fn lemma_find_any_at(svs: Seq<SlotV>, kind: FrameKind, a: AnyAllAppendix, i: int)
    requires
        0 <= i < svs.len(),
        any_matches_v(svs[i], kind, a),
        forall|j: int| 0 <= j < i ==> !any_matches_v(#[trigger] svs[j], kind, a),
    ensures
        find_any_v(svs, kind, a) == i,
    decreases svs.len(),
{
    if !any_matches_v(svs[0], kind, a) {
        assert(svs.skip(1)[i - 1] == svs[i]);
        assert(forall|j: int| 0 <= j < i - 1 ==> svs.skip(1)[j] == svs[j + 1]);
        lemma_find_any_at(svs.skip(1), kind, a, i - 1);
    }
}

/// The first port holder is where the first port holder is.
proof fn lemma_find_port_at(svs: Seq<SlotV>, p: u8, i: int)
    requires
        0 <= i < svs.len(),
        svs[i].hdr.port == p,
        forall|j: int| 0 <= j < i ==> (#[trigger] svs[j].hdr.port) != p,
    ensures
        find_port_v(svs, p) == i,
    decreases svs.len(),
{
    if svs[0].hdr.port != p {
        assert(svs.skip(1)[i - 1] == svs[i]);
        assert(forall|j: int| 0 <= j < i - 1 ==> svs.skip(1)[j] == svs[j + 1]);
        lemma_find_port_at(svs.skip(1), p, i - 1);
    }
}

/// When no socket holds the port, the search comes back negative.
proof fn lemma_find_port_none(svs: Seq<SlotV>, p: u8)
    requires
        forall|j: int| 0 <= j < svs.len() ==> (#[trigger] svs[j].hdr.port) != p,
    ensures
        find_port_v(svs, p) < 0,
    decreases svs.len(),
{
    if svs.len() > 0 {
        assert(forall|j: int| 0 <= j < svs.len() - 1 ==> svs.skip(1)[j] == svs[j + 1]);
        lemma_find_port_none(svs.skip(1), p);
    }
}

// ---- dispatch: the executable ----

/// Does this socket receive a broadcast of the given kind and appendix?
fn bcast_matches(h: &SocketHeader, kind: FrameKind, a: &AnyAllAppendix) -> (r: bool)
    ensures
        r == (h.port == 255 && h.attrs.kind == kind && h.key == a.key && nash_ok(h.nash, *a)),
{
    h.port == 255 && h.attrs.kind == kind && crate::addr::key_eq(&h.key, &a.key) && match (
        &a.nash,
        &h.nash,
    ) {
        (Some(n), Some(m)) => m.0 == n.0,
        (Some(_), None) => false,
        (None, _) => true,
    }
}

/// Is this socket an any-cast candidate for the given kind and appendix?
fn any_matches(h: &SocketHeader, kind: FrameKind, a: &AnyAllAppendix) -> (r: bool)
    ensures
        r == (h.attrs.kind == kind && h.attrs.discoverable && h.key == a.key && nash_ok(
            h.nash,
            *a,
        )),
{
    h.attrs.kind == kind && h.attrs.discoverable && crate::addr::key_eq(&h.key, &a.key) && match (
        &a.nash,
        &h.nash,
    ) {
        (Some(n), Some(m)) => m.0 == n.0,
        (Some(_), None) => false,
        (None, _) => true,
    }
}

/// Find the one socket with the destination's specific port; its kind must
/// serve the frame's.
fn find_one_local(sockets: &Vec<SocketSlot>, hdr: &Header) -> (r: Result<usize, NetStackSendError>)
    ensures
        ({
            let svs = slots_v(sockets@);
            let i = find_port_v(svs, hdr.dst.port_id);
            match r {
                Ok(ix) => ix as int == i && 0 <= i < svs.len() && svs[i].hdr.attrs.kind
                    == hdr.kind,
                Err(e) => if i < 0 {
                    e == NetStackSendError::NoRoute
                } else {
                    e == NetStackSendError::WrongPortKind && svs[i].hdr.attrs.kind != hdr.kind
                },
            }
        }),
{
    let ghost svs = slots_v(sockets@);
    let mut i: usize = 0;
    let n = sockets.len();
    while i < n
        invariant
            n == sockets@.len(),
            svs == slots_v(sockets@),
            i <= n,
            forall|j: int| 0 <= j < i ==> (#[trigger] svs[j].hdr.port) != hdr.dst.port_id,
        decreases n - i,
    {
        let sh = sockets[i].hdr;
        if sh.port == hdr.dst.port_id {
            proof {
                lemma_find_port_at(svs, hdr.dst.port_id, i as int);
            }
            if !(sh.attrs.kind == hdr.kind) {
                return Err(NetStackSendError::WrongPortKind);
            }
            return Ok(i);
        }
        i += 1;
    }
    proof {
        lemma_find_port_none(svs, hdr.dst.port_id);
    }
    Err(NetStackSendError::NoRoute)
}

/// Find the socket with the destination's port for an error delivery; the
/// kind does not matter for errors.
fn find_one_err_local(sockets: &Vec<SocketSlot>, hdr: &Header) -> (r: Result<
    usize,
    NetStackSendError,
>)
    ensures
        ({
            let svs = slots_v(sockets@);
            let i = find_port_v(svs, hdr.dst.port_id);
            match r {
                Ok(ix) => ix as int == i && 0 <= i < svs.len(),
                Err(e) => i < 0 && e == NetStackSendError::NoRoute,
            }
        }),
{
    let ghost svs = slots_v(sockets@);
    let mut i: usize = 0;
    let n = sockets.len();
    while i < n
        invariant
            n == sockets@.len(),
            svs == slots_v(sockets@),
            i <= n,
            forall|j: int| 0 <= j < i ==> (#[trigger] svs[j].hdr.port) != hdr.dst.port_id,
        decreases n - i,
    {
        let sh = sockets[i].hdr;
        if sh.port == hdr.dst.port_id {
            proof {
                lemma_find_port_at(svs, hdr.dst.port_id, i as int);
            }
            return Ok(i);
        }
        i += 1;
    }
    proof {
        lemma_find_port_none(svs, hdr.dst.port_id);
    }
    Err(NetStackSendError::NoRoute)
}

/// Resolve an any-cast destination: exactly one discoverable socket must
/// match the appendix; none is no route, more than one is ambiguous.
fn find_any_local(sockets: &Vec<SocketSlot>, hdr: &Header) -> (r: Result<usize, NetStackSendError>)
    ensures
        ({
            let svs = slots_v(sockets@);
            match hdr.any_all {
                None => r == Err::<usize, NetStackSendError>(NetStackSendError::AnyPortMissingKey),
                Some(a) => {
                    let c = count_any_v(svs, hdr.kind, a);
                    match r {
                        Ok(ix) => c == 1 && ix as int == find_any_v(svs, hdr.kind, a) && 0 <= ix
                            < svs.len(),
                        Err(e) => if c == 0 {
                            e == NetStackSendError::NoRoute
                        } else {
                            c >= 2 && e == NetStackSendError::AnyPortNotUnique
                        },
                    }
                },
            }
        }),
{
    let ghost svs = slots_v(sockets@);
    let Some(a) = hdr.any_all else {
        return Err(NetStackSendError::AnyPortMissingKey);
    };
    let mut found: Option<usize> = None;
    let mut i: usize = 0;
    let n = sockets.len();
    while i < n
        invariant
            n == sockets@.len(),
            svs == slots_v(sockets@),
            i <= n,
            hdr.any_all == Some(a),
            match found {
                None => forall|j: int|
                    0 <= j < i ==> !any_matches_v(#[trigger] svs[j], hdr.kind, a),
                Some(f) => {
                    &&& f < i
                    &&& any_matches_v(svs[f as int], hdr.kind, a)
                    &&& forall|j: int|
                        0 <= j < i && j != f ==> !any_matches_v(#[trigger] svs[j], hdr.kind, a)
                    &&& find_any_v(svs, hdr.kind, a) == f as int
                },
            },
        decreases n - i,
    {
        let sh = sockets[i].hdr;
        if any_matches(&sh, hdr.kind, &a) {
            match found {
                Some(f) => {
                    proof {
                        lemma_count_any_two(svs, hdr.kind, a, f as int, i as int);
                    }
                    return Err(NetStackSendError::AnyPortNotUnique);
                },
                None => {
                    proof {
                        lemma_find_any_at(svs, hdr.kind, a, i as int);
                    }
                    found = Some(i);
                },
            }
        }
        i += 1;
    }
    match found {
        Some(f) => {
            proof {
                lemma_count_any_one(svs, hdr.kind, a, f as int);
            }
            Ok(f)
        },
        None => {
            proof {
                lemma_count_any_zero(svs, hdr.kind, a);
            }
            Err(NetStackSendError::NoRoute)
        },
    }
}

impl<P: Profile> NetStackInner<P> {
    /// Deliver a typed value into the socket at index `i`, stamping the
    /// sequence number from the stack's counter when the header has none.
    fn deliver_ty_at(&mut self, i: usize, hdr: &Header, ty: u64, body: &Vec<u8>) -> (r: Result<
        (),
        NetStackSendError,
    >)
        requires
            old(self).wf(),
            i < old(self).sockets@.len(),
        ensures
            final(self).wf(),
            final(self).profile == old(self).profile,
            final(self).next_sid == old(self).next_sid,
            final(self).sockets@.len() == old(self).sockets@.len(),
            forall|j: int|
                0 <= j < old(self).sockets@.len() && j != i ==> final(self).sockets@[j] == old(
                    self,
                ).sockets@[j],
            ({
                let d = deliver_ty_v(
                    old(self).sockets@[i as int].slot_v(),
                    *hdr,
                    old(self).seq_no,
                    ty,
                    body@,
                );
                &&& slots_v(final(self).sockets@) == slots_v(old(self).sockets@).update(
                    i as int,
                    d.0,
                )
                &&& final(self).seq_no == d.1
                &&& r == d.2
            }),
    {
        let ghost s0 = self.sockets@;
        let ghost d = deliver_ty_v(s0[i as int].slot_v(), *hdr, self.seq_no, ty, body@);
        let mut slot = self.sockets.remove(i);
        let res: Result<(), NetStackSendError> = if !slot.hdr.vtable.recv_owned {
            Err(NetStackSendError::SocketSend(SocketSendError::WhatTheHell))
        } else {
            let stamp = self.seq_no;
            let hs = hdr.to_headerseq_or_with_seq(stamp);
            if hdr.seq_no.is_none() {
                self.seq_no = if self.seq_no == 0xffffu16 {
                    0
                } else {
                    self.seq_no + 1
                };
            }
            match slot.recv_owned(hs, ty, body) {
                Ok(_) => Ok(()),
                Err(e) => Err(NetStackSendError::SocketSend(e)),
            }
        };
        let ghost slotg = slot;
        self.sockets.insert(i, slot);
        proof {
            assert(self.sockets@ =~= s0.update(i as int, slotg));
            assert(forall|j: int|
                0 <= j < s0.len() ==> self.sockets@[j].hdr == s0[j].hdr && self.sockets@[j].sid
                    == s0[j].sid);
            assert(ports_of(self.sockets@) =~= ports_of(s0));
            assert(slotg.slot_v() == d.0);
            assert(slots_v(self.sockets@) =~= slots_v(s0).update(i as int, d.0));
        }
        res
    }

    /// Deliver an already serialized body into the socket at index `i`.
    fn deliver_raw_at(&mut self, i: usize, hdr: &Header, body: &Vec<u8>) -> (r: Result<
        (),
        NetStackSendError,
    >)
        requires
            old(self).wf(),
            i < old(self).sockets@.len(),
        ensures
            final(self).wf(),
            final(self).profile == old(self).profile,
            final(self).next_sid == old(self).next_sid,
            final(self).sockets@.len() == old(self).sockets@.len(),
            forall|j: int|
                0 <= j < old(self).sockets@.len() && j != i ==> final(self).sockets@[j] == old(
                    self,
                ).sockets@[j],
            ({
                let d = deliver_raw_v(
                    old(self).sockets@[i as int].slot_v(),
                    *hdr,
                    old(self).seq_no,
                    body@,
                );
                &&& slots_v(final(self).sockets@) == slots_v(old(self).sockets@).update(
                    i as int,
                    d.0,
                )
                &&& final(self).seq_no == d.1
                &&& r == d.2
            }),
    {
        let ghost s0 = self.sockets@;
        let ghost d = deliver_raw_v(s0[i as int].slot_v(), *hdr, self.seq_no, body@);
        let mut slot = self.sockets.remove(i);
        let stamp = self.seq_no;
        let hs = hdr.to_headerseq_or_with_seq(stamp);
        if hdr.seq_no.is_none() {
            self.seq_no = if self.seq_no == 0xffffu16 {
                0
            } else {
                self.seq_no + 1
            };
        }
        let res: Result<(), NetStackSendError> = match slot.recv_raw(hs, body) {
            Ok(_) => Ok(()),
            Err(e) => Err(NetStackSendError::SocketSend(e)),
        };
        let ghost slotg = slot;
        self.sockets.insert(i, slot);
        proof {
            assert(self.sockets@ =~= s0.update(i as int, slotg));
            assert(forall|j: int|
                0 <= j < s0.len() ==> self.sockets@[j].hdr == s0[j].hdr && self.sockets@[j].sid
                    == s0[j].sid);
            assert(ports_of(self.sockets@) =~= ports_of(s0));
            assert(slotg.slot_v() == d.0);
            assert(slots_v(self.sockets@) =~= slots_v(s0).update(i as int, d.0));
        }
        res
    }

    /// Deliver a protocol error into the socket at index `i`.
    fn deliver_err_at(&mut self, i: usize, hdr: &Header, err: ProtocolError) -> (r: Result<
        (),
        NetStackSendError,
    >)
        requires
            old(self).wf(),
            i < old(self).sockets@.len(),
        ensures
            final(self).wf(),
            final(self).profile == old(self).profile,
            final(self).next_sid == old(self).next_sid,
            final(self).sockets@.len() == old(self).sockets@.len(),
            forall|j: int|
                0 <= j < old(self).sockets@.len() && j != i ==> final(self).sockets@[j] == old(
                    self,
                ).sockets@[j],
            ({
                let d = deliver_err_v(
                    old(self).sockets@[i as int].slot_v(),
                    *hdr,
                    old(self).seq_no,
                    err,
                );
                &&& slots_v(final(self).sockets@) == slots_v(old(self).sockets@).update(
                    i as int,
                    d.0,
                )
                &&& final(self).seq_no == d.1
                &&& r == d.2
            }),
    {
        let ghost s0 = self.sockets@;
        let ghost d = deliver_err_v(s0[i as int].slot_v(), *hdr, self.seq_no, err);
        let mut slot = self.sockets.remove(i);
        let res: Result<(), NetStackSendError> = if !slot.hdr.vtable.recv_err {
            Err(NetStackSendError::SocketSend(SocketSendError::WhatTheHell))
        } else {
            let stamp = self.seq_no;
            let hs = hdr.to_headerseq_or_with_seq(stamp);
            if hdr.seq_no.is_none() {
                self.seq_no = if self.seq_no == 0xffffu16 {
                    0
                } else {
                    self.seq_no + 1
                };
            }
            match slot.recv_err(hs, err) {
                Ok(_) => Ok(()),
                Err(e) => Err(NetStackSendError::SocketSend(e)),
            }
        };
        let ghost slotg = slot;
        self.sockets.insert(i, slot);
        proof {
            assert(self.sockets@ =~= s0.update(i as int, slotg));
            assert(forall|j: int|
                0 <= j < s0.len() ==> self.sockets@[j].hdr == s0[j].hdr && self.sockets@[j].sid
                    == s0[j].sid);
            assert(ports_of(self.sockets@) =~= ports_of(s0));
            assert(slotg.slot_v() == d.0);
            assert(slots_v(self.sockets@) =~= slots_v(s0).update(i as int, d.0));
        }
        res
    }

    /// Send a typed value.
    ///
    /// A broadcast destination is offered to every matching local socket and
    /// to the profile; it succeeds when anyone took the frame. Any other
    /// destination goes to the profile first unless both ends are local
    /// wildcards, then to the one local socket that answers to it.
    pub fn send_ty(&mut self, hdr: &Header, ty: u64, body: &Vec<u8>) -> (r: Result<
        (),
        NetStackSendError,
    >)
        requires
            old(self).wf(),
            !(hdr.kind is ProtocolError),
        ensures
            final(self).wf(),
            final(self).next_sid == old(self).next_sid,
            ({
                let t = send_ty_transition::<P>(
                    slots_v(old(self).sockets@),
                    old(self).seq_no,
                    old(self).profile.model(),
                    *hdr,
                    ty,
                    body@,
                );
                &&& slots_v(final(self).sockets@) == t.0
                &&& final(self).seq_no == t.1
                &&& final(self).profile.model() == t.2
                &&& r == t.3
            }),
            ({
                let svs = slots_v(old(self).sockets@);
                let pre_p = old(self).profile.model();
                if hdr.dst.port_id == 255 {
                    match hdr.any_all {
                        None => {
                            &&& r == Err::<(), NetStackSendError>(
                                NetStackSendError::AllPortMissingKey,
                            )
                            &&& final(self).sockets@ == old(self).sockets@
                            &&& final(self).seq_no == old(self).seq_no
                            &&& final(self).profile == old(self).profile
                        },
                        Some(a) => {
                            let lc = bcast_ty_v(svs, *hdr, old(self).seq_no, ty, body@, a);
                            let pm = P::send_model(pre_p, *hdr, ty, body@);
                            &&& slots_v(final(self).sockets@) == lc.0
                            &&& final(self).seq_no == lc.1
                            &&& final(self).profile.model() == pm.0
                            &&& r == if lc.2 || pm.1 is Ok {
                                Ok::<(), NetStackSendError>(())
                            } else {
                                Err(NetStackSendError::NoRoute)
                            }
                        },
                    }
                } else {
                    let pm = P::send_model(pre_p, *hdr, ty, body@);
                    if !spec_local_bypass(*hdr) && pm.1 is Ok {
                        &&& r == Ok::<(), NetStackSendError>(())
                        &&& final(self).sockets@ == old(self).sockets@
                        &&& final(self).seq_no == old(self).seq_no
                        &&& final(self).profile.model() == pm.0
                    } else if !spec_local_bypass(*hdr) && !(pm.1 == Err::<(), InterfaceSendError>(
                        InterfaceSendError::DestinationLocal,
                    )) {
                        &&& (pm.1 matches Err(e) && r == Err::<(), NetStackSendError>(
                            NetStackSendError::InterfaceSend(e),
                        ))
                        &&& final(self).sockets@ == old(self).sockets@
                        &&& final(self).seq_no == old(self).seq_no
                        &&& final(self).profile.model() == pm.0
                    } else {
                        let lc = send_ty_local_v(svs, *hdr, old(self).seq_no, ty, body@);
                        &&& if spec_local_bypass(*hdr) {
                            final(self).profile == old(self).profile
                        } else {
                            final(self).profile.model() == pm.0
                        }
                        &&& slots_v(final(self).sockets@) == lc.0
                        &&& final(self).seq_no == lc.1
                        &&& r == lc.2
                    }
                }
            }),
    {
        if hdr.dst.port_id == 255 {
            let Some(a) = hdr.any_all else {
                return Err(NetStackSendError::AllPortMissingKey);
            };
            let ghost svs0 = slots_v(old(self).sockets@);
            let ghost seq0 = old(self).seq_no;
            let mut any_found = false;
            let mut i: usize = 0;
            let n = self.sockets.len();
            while i < n
                invariant
                    self.wf(),
                    n == self.sockets@.len(),
                    n == old(self).sockets@.len(),
                    i <= n,
                    hdr.any_all == Some(a),
                    !(hdr.kind is ProtocolError),
                    svs0 == slots_v(old(self).sockets@),
                    seq0 == old(self).seq_no,
                    self.profile == old(self).profile,
                    self.next_sid == old(self).next_sid,
                    forall|j: int| i <= j < n ==> self.sockets@[j] == old(self).sockets@[j],
                    ({
                        let pr = bcast_ty_v(svs0.take(i as int), *hdr, seq0, ty, body@, a);
                        &&& slots_v(self.sockets@).take(i as int) == pr.0
                        &&& self.seq_no == pr.1
                        &&& any_found == pr.2
                    }),
                decreases n - i,
            {
                let ghost pr = bcast_ty_v(svs0.take(i as int), *hdr, seq0, ty, body@, a);
                let ghost pre_slots = slots_v(self.sockets@);
                proof {
                    assert(self.sockets@[i as int] == old(self).sockets@[i as int]);
                    assert(svs0[i as int] == self.sockets@[i as int].slot_v());
                    assert(svs0.take(i as int + 1) =~= svs0.take(i as int).push(svs0[i as int]));
                    lemma_bcast_ty_v_push(
                        svs0.take(i as int),
                        svs0[i as int],
                        *hdr,
                        seq0,
                        ty,
                        body@,
                        a,
                    );
                }
                let sh = self.sockets[i].hdr;
                if bcast_matches(&sh, hdr.kind, &a) {
                    let res = self.deliver_ty_at(i, hdr, ty, body);
                    any_found = any_found || res.is_ok();
                    proof {
                        assert(slots_v(self.sockets@).take(i as int + 1) =~= bcast_ty_v(
                            svs0.take(i as int + 1),
                            *hdr,
                            seq0,
                            ty,
                            body@,
                            a,
                        ).0);
                    }
                } else {
                    proof {
                        assert(slots_v(self.sockets@).take(i as int + 1) =~= bcast_ty_v(
                            svs0.take(i as int + 1),
                            *hdr,
                            seq0,
                            ty,
                            body@,
                            a,
                        ).0);
                    }
                }
                i += 1;
            }
            proof {
                assert(svs0.take(n as int) =~= svs0);
                assert(slots_v(self.sockets@).take(n as int) =~= slots_v(self.sockets@));
            }
            let rmt = self.profile.send(hdr, ty, body);
            if any_found || rmt.is_ok() {
                Ok(())
            } else {
                Err(NetStackSendError::NoRoute)
            }
        } else {
            let bypass = hdr.src.net_node_any() && hdr.dst.net_node_any();
            if !bypass {
                match self.profile.send(hdr, ty, body) {
                    Ok(_) => {
                        return Ok(());
                    },
                    Err(InterfaceSendError::DestinationLocal) => {},
                    Err(e) => {
                        return Err(NetStackSendError::InterfaceSend(e));
                    },
                }
            }
            let idx = if hdr.dst.port_id == 0 {
                match find_any_local(&self.sockets, hdr) {
                    Ok(ix) => ix,
                    Err(e) => {
                        return Err(e);
                    },
                }
            } else {
                match find_one_local(&self.sockets, hdr) {
                    Ok(ix) => ix,
                    Err(e) => {
                        return Err(e);
                    },
                }
            };
            self.deliver_ty_at(idx, hdr, ty, body)
        }
    }

    /// Send an already serialized message, as an interface worker does when
    /// it feeds a received frame back into the stack. `hdr_raw` carries the
    /// frame's encoded header for the profile to forward verbatim.
    pub fn send_raw(&mut self, hdr: &Header, hdr_raw: &Vec<u8>, body: &Vec<u8>) -> (r: Result<
        (),
        NetStackSendError,
    >)
        requires
            old(self).wf(),
            !(hdr.kind is ProtocolError),
        ensures
            final(self).wf(),
            final(self).next_sid == old(self).next_sid,
            ({
                let t = send_raw_transition::<P>(
                    slots_v(old(self).sockets@),
                    old(self).seq_no,
                    old(self).profile.model(),
                    *hdr,
                    hdr_raw@,
                    body@,
                );
                &&& slots_v(final(self).sockets@) == t.0
                &&& final(self).seq_no == t.1
                &&& final(self).profile.model() == t.2
                &&& r == t.3
            }),
            ({
                let svs = slots_v(old(self).sockets@);
                let pre_p = old(self).profile.model();
                if hdr.dst.port_id == 255 {
                    match hdr.any_all {
                        None => {
                            &&& r == Err::<(), NetStackSendError>(
                                NetStackSendError::AllPortMissingKey,
                            )
                            &&& final(self).sockets@ == old(self).sockets@
                            &&& final(self).seq_no == old(self).seq_no
                            &&& final(self).profile == old(self).profile
                        },
                        Some(a) => {
                            let lc = bcast_raw_v(svs, *hdr, old(self).seq_no, body@, a);
                            let pm = P::send_raw_model(pre_p, *hdr, hdr_raw@, body@);
                            &&& slots_v(final(self).sockets@) == lc.0
                            &&& final(self).seq_no == lc.1
                            &&& final(self).profile.model() == pm.0
                            &&& r == if lc.2 || pm.1 is Ok {
                                Ok::<(), NetStackSendError>(())
                            } else {
                                Err(NetStackSendError::NoRoute)
                            }
                        },
                    }
                } else {
                    let pm = P::send_raw_model(pre_p, *hdr, hdr_raw@, body@);
                    if !spec_local_bypass(*hdr) && pm.1 is Ok {
                        &&& r == Ok::<(), NetStackSendError>(())
                        &&& final(self).sockets@ == old(self).sockets@
                        &&& final(self).seq_no == old(self).seq_no
                        &&& final(self).profile.model() == pm.0
                    } else if !spec_local_bypass(*hdr) && !(pm.1 == Err::<(), InterfaceSendError>(
                        InterfaceSendError::DestinationLocal,
                    )) {
                        &&& (pm.1 matches Err(e) && r == Err::<(), NetStackSendError>(
                            NetStackSendError::InterfaceSend(e),
                        ))
                        &&& final(self).sockets@ == old(self).sockets@
                        &&& final(self).seq_no == old(self).seq_no
                        &&& final(self).profile.model() == pm.0
                    } else {
                        let lc = send_raw_local_v(svs, *hdr, old(self).seq_no, body@);
                        &&& if spec_local_bypass(*hdr) {
                            final(self).profile == old(self).profile
                        } else {
                            final(self).profile.model() == pm.0
                        }
                        &&& slots_v(final(self).sockets@) == lc.0
                        &&& final(self).seq_no == lc.1
                        &&& r == lc.2
                    }
                }
            }),
    {
        if hdr.dst.port_id == 255 {
            let Some(a) = hdr.any_all else {
                return Err(NetStackSendError::AllPortMissingKey);
            };
            let ghost svs0 = slots_v(old(self).sockets@);
            let ghost seq0 = old(self).seq_no;
            let mut any_found = false;
            let mut i: usize = 0;
            let n = self.sockets.len();
            while i < n
                invariant
                    self.wf(),
                    n == self.sockets@.len(),
                    n == old(self).sockets@.len(),
                    i <= n,
                    hdr.any_all == Some(a),
                    !(hdr.kind is ProtocolError),
                    svs0 == slots_v(old(self).sockets@),
                    seq0 == old(self).seq_no,
                    self.profile == old(self).profile,
                    self.next_sid == old(self).next_sid,
                    forall|j: int| i <= j < n ==> self.sockets@[j] == old(self).sockets@[j],
                    ({
                        let pr = bcast_raw_v(svs0.take(i as int), *hdr, seq0, body@, a);
                        &&& slots_v(self.sockets@).take(i as int) == pr.0
                        &&& self.seq_no == pr.1
                        &&& any_found == pr.2
                    }),
                decreases n - i,
            {
                let ghost pr = bcast_raw_v(svs0.take(i as int), *hdr, seq0, body@, a);
                proof {
                    assert(self.sockets@[i as int] == old(self).sockets@[i as int]);
                    assert(svs0[i as int] == self.sockets@[i as int].slot_v());
                    assert(svs0.take(i as int + 1) =~= svs0.take(i as int).push(svs0[i as int]));
                    lemma_bcast_raw_v_push(
                        svs0.take(i as int),
                        svs0[i as int],
                        *hdr,
                        seq0,
                        body@,
                        a,
                    );
                }
                let sh = self.sockets[i].hdr;
                if bcast_matches(&sh, hdr.kind, &a) {
                    let res = self.deliver_raw_at(i, hdr, body);
                    any_found = any_found || res.is_ok();
                    proof {
                        assert(slots_v(self.sockets@).take(i as int + 1) =~= bcast_raw_v(
                            svs0.take(i as int + 1),
                            *hdr,
                            seq0,
                            body@,
                            a,
                        ).0);
                    }
                } else {
                    proof {
                        assert(slots_v(self.sockets@).take(i as int + 1) =~= bcast_raw_v(
                            svs0.take(i as int + 1),
                            *hdr,
                            seq0,
                            body@,
                            a,
                        ).0);
                    }
                }
                i += 1;
            }
            proof {
                assert(svs0.take(n as int) =~= svs0);
                assert(slots_v(self.sockets@).take(n as int) =~= slots_v(self.sockets@));
            }
            let rmt = self.profile.send_raw(hdr, hdr_raw, body);
            if any_found || rmt.is_ok() {
                Ok(())
            } else {
                Err(NetStackSendError::NoRoute)
            }
        } else {
            let bypass = hdr.src.net_node_any() && hdr.dst.net_node_any();
            if !bypass {
                match self.profile.send_raw(hdr, hdr_raw, body) {
                    Ok(_) => {
                        return Ok(());
                    },
                    Err(InterfaceSendError::DestinationLocal) => {},
                    Err(e) => {
                        return Err(NetStackSendError::InterfaceSend(e));
                    },
                }
            }
            let idx = if hdr.dst.port_id == 0 {
                match find_any_local(&self.sockets, hdr) {
                    Ok(ix) => ix,
                    Err(e) => {
                        return Err(e);
                    },
                }
            } else {
                match find_one_local(&self.sockets, hdr) {
                    Ok(ix) => ix,
                    Err(e) => {
                        return Err(e);
                    },
                }
            };
            self.deliver_raw_at(idx, hdr, body)
        }
    }

    /// Send a protocol error back toward a sender. Errors are never
    /// broadcast, and never beget further error frames; the destination is
    /// matched by port alone.
    pub fn send_err(&mut self, hdr: &Header, err: ProtocolError) -> (r: Result<
        (),
        NetStackSendError,
    >)
        requires
            old(self).wf(),
            hdr.dst.port_id != 255,
        ensures
            final(self).wf(),
            final(self).next_sid == old(self).next_sid,
            ({
                let t = send_err_transition::<P>(
                    slots_v(old(self).sockets@),
                    old(self).seq_no,
                    old(self).profile.model(),
                    *hdr,
                    err,
                );
                &&& slots_v(final(self).sockets@) == t.0
                &&& final(self).seq_no == t.1
                &&& final(self).profile.model() == t.2
                &&& r == t.3
            }),
            ({
                let svs = slots_v(old(self).sockets@);
                let pre_p = old(self).profile.model();
                let pm = P::send_err_model(pre_p, *hdr, err);
                if !spec_local_bypass(*hdr) && pm.1 is Ok {
                    &&& r == Ok::<(), NetStackSendError>(())
                    &&& final(self).sockets@ == old(self).sockets@
                    &&& final(self).seq_no == old(self).seq_no
                    &&& final(self).profile.model() == pm.0
                } else if !spec_local_bypass(*hdr) && !(pm.1 == Err::<(), InterfaceSendError>(
                    InterfaceSendError::DestinationLocal,
                )) {
                    &&& (pm.1 matches Err(e) && r == Err::<(), NetStackSendError>(
                        NetStackSendError::InterfaceSend(e),
                    ))
                    &&& final(self).sockets@ == old(self).sockets@
                    &&& final(self).seq_no == old(self).seq_no
                    &&& final(self).profile.model() == pm.0
                } else {
                    let lc = send_err_local_v(svs, *hdr, old(self).seq_no, err);
                    &&& if spec_local_bypass(*hdr) {
                        final(self).profile == old(self).profile
                    } else {
                        final(self).profile.model() == pm.0
                    }
                    &&& slots_v(final(self).sockets@) == lc.0
                    &&& final(self).seq_no == lc.1
                    &&& r == lc.2
                }
            }),
    {
        let bypass = hdr.src.net_node_any() && hdr.dst.net_node_any();
        if !bypass {
            match self.profile.send_err(hdr, err) {
                Ok(_) => {
                    return Ok(());
                },
                Err(InterfaceSendError::DestinationLocal) => {},
                Err(e) => {
                    return Err(NetStackSendError::InterfaceSend(e));
                },
            }
        }
        let idx = match find_one_err_local(&self.sockets, hdr) {
            Ok(ix) => ix,
            Err(e) => {
                return Err(e);
            },
        };
        self.deliver_err_at(idx, hdr, err)
    }
}

/// Every attached socket with a specific (non-broadcast) port holds one in
/// `1..=254`, and no two attached sockets share a specific port. This is the
/// shape every stack operation preserves.
pub proof fn lemma_attached_ports_sound(s: Seq<SocketSlot>, next_sid: u64, i: int, j: int)
    requires
        sockets_wf(s, next_sid),
        0 <= i < s.len(),
        0 <= j < s.len(),
    ensures
        s[i].hdr.port == 255 || (1 <= s[i].hdr.port <= 254),
        i != j && s[i].hdr.port != 255 ==> s[i].hdr.port != s[j].hdr.port,
{
}

/// A local-bypass typed unicast round trip: when the destination port names
/// an attached socket of the right kind and type with room, the send is
/// accepted, and what the socket then yields is exactly the sent body under
/// the sent (still wildcard) source address, with the stamped sequence
/// number.
pub proof fn lemma_local_send_recv_roundtrip(
    svs: Seq<SlotV>,
    hdr: Header,
    seq: u16,
    ty: u64,
    body: Seq<u8>,
)
    requires
        spec_local_bypass(hdr),
        hdr.dst.port_id != 0 && hdr.dst.port_id != 255,
        ({
            let i = find_port_v(svs, hdr.dst.port_id);
            &&& 0 <= i < svs.len()
            &&& svs[i].hdr.attrs.kind == hdr.kind
            &&& svs[i].hdr.vtable.recv_owned
            &&& svs[i].ty == ty
            &&& svs[i].msgs.len() < svs[i].cap
        }),
    ensures
        ({
            let lc = send_ty_local_v(svs, hdr, seq, ty, body);
            let i = find_port_v(svs, hdr.dst.port_id);
            let got = lc.0[i].msgs.last();
            &&& lc.2 == Ok::<(), NetStackSendError>(())
            &&& lc.0[i].msgs == svs[i].msgs.push(
                MsgV { hdr: hdr.spec_with_seq(seq), ty, body: Ok(body) },
            )
            &&& got.body == Ok::<Seq<u8>, ProtocolError>(body)
            &&& got.ty == ty
            &&& got.hdr.src == hdr.src
            &&& got.hdr.src.network_id == 0 && got.hdr.src.node_id == 0
            &&& got.hdr.dst == hdr.dst
            &&& (hdr.seq_no is Some ==> got.hdr.seq_no == hdr.seq_no->0)
            &&& (hdr.seq_no is None ==> got.hdr.seq_no == seq)
        }),
{
}

/// Any-cast fails closed on ambiguity: whenever two distinct attached
/// sockets are discoverable candidates for the same kind and appendix, local
/// dispatch of an any-cast answers `AnyPortNotUnique` and changes nothing.
pub proof fn lemma_anycast_ambiguity(
    svs: Seq<SlotV>,
    hdr: Header,
    seq: u16,
    ty: u64,
    body: Seq<u8>,
    i: int,
    j: int,
)
    requires
        hdr.dst.port_id == 0,
        hdr.any_all is Some,
        0 <= i < j < svs.len(),
        any_matches_v(svs[i], hdr.kind, hdr.any_all->0),
        any_matches_v(svs[j], hdr.kind, hdr.any_all->0),
    ensures
        send_ty_local_v(svs, hdr, seq, ty, body) == (
            svs,
            seq,
            Err::<(), NetStackSendError>(NetStackSendError::AnyPortNotUnique),
        ),
{
    lemma_count_any_two(svs, hdr.kind, hdr.any_all->0, i, j);
}

} // verus!
