//! The well-known services every node may speak: ping, device info, socket
//! query, and the seed router's net-id assignment.
//!
//! The message types here are plain values; their schema keys are derived
//! outside this crate. The seed router's bookkeeping — which net ids are
//! granted under which refresh tokens — is the part with rules, and it lives
//! here verified.

use vstd::prelude::*;

use crate::addr::{Address, FrameKind, NameHash};
use crate::net_stack::{slots_v, SlotV};
use crate::socket::SocketSlot;

verus! {

/// What a device answers about itself on the device-info topic.
#[derive(Debug, Clone, PartialEq, Eq)]
pub struct DeviceInfo {
    pub name: Option<String>,
    pub description: Option<String>,
    pub unique_id: u64,
}

/// How a socket query constrains the socket's name.
#[derive(Debug, Clone, Copy, PartialEq, Eq, Structural)]
pub enum NameRequirement {
    /// Only sockets without a name match.
    Unnamed,
    /// Any socket matches, named or not.
    Any,
    /// Only sockets with exactly this name match.
    Specific(NameHash),
}

/// A request for the sockets matching a key, a name requirement, a kind and
/// a broadcast flag.
#[derive(Debug, Clone, Copy, PartialEq, Eq)]
pub struct SocketQuery {
    pub key: [u8; 8],
    pub nash_req: NameRequirement,
    pub frame_kind: FrameKind,
    pub broadcast: bool,
}

/// One match, with the full address it can be reached at.
#[derive(Debug, Clone, Copy, PartialEq, Eq, Structural)]
pub struct SocketQueryResponseAddress {
    pub name: Option<NameHash>,
    pub address: Address,
}

/// One match, named by its port on the answering node.
#[derive(Debug, Clone, Copy, PartialEq, Eq, Structural)]
pub struct SocketQueryResponse {
    pub name: Option<NameHash>,
    pub port: u8,
}

/// Whether an attached socket answers a query: key, kind and broadcast flag
/// must agree, and the name must satisfy the requirement.
pub open spec fn query_matches_v(sv: SlotV, q: SocketQuery) -> bool {
    &&& sv.hdr.key.0 == q.key
    &&& sv.hdr.attrs.kind == q.frame_kind
    &&& (sv.hdr.port == 255) == q.broadcast
    &&& match q.nash_req {
        NameRequirement::Unnamed => sv.hdr.nash is None,
        NameRequirement::Any => true,
        NameRequirement::Specific(n) => sv.hdr.nash == Some(n),
    }
}

/// The responses a query deserves: one per matching socket, in list order.
pub open spec fn query_responses_v(svs: Seq<SlotV>, q: SocketQuery) -> Seq<SocketQueryResponse>
    decreases svs.len(),
{
    if svs.len() == 0 {
        Seq::empty()
    } else {
        let rest = query_responses_v(svs.drop_last(), q);
        if query_matches_v(svs.last(), q) {
            rest.push(
                SocketQueryResponse { name: svs.last().hdr.nash, port: svs.last().hdr.port },
            )
        } else {
            rest
        }
    }
}

/// Answer a socket query against an attached socket list.
pub fn query_sockets(sockets: &Vec<SocketSlot>, q: &SocketQuery) -> (r: Vec<SocketQueryResponse>)
    ensures
        r@ == query_responses_v(slots_v(sockets@), *q),
{
    let ghost svs = slots_v(sockets@);
    let mut out: Vec<SocketQueryResponse> = Vec::new();
    let mut i: usize = 0;
    let n = sockets.len();
    proof {
        assert(svs.take(0) =~= Seq::<SlotV>::empty());
        assert(out@ =~= query_responses_v(svs.take(0), *q));
    }
    while i < n
        invariant
            n == sockets@.len(),
            svs == slots_v(sockets@),
            i <= n,
            out@ == query_responses_v(svs.take(i as int), *q),
        decreases n - i,
    {
        let sh = sockets[i].hdr;
        let key_ok = crate::addr::key_eq(&sh.key, &crate::addr::Key(q.key));
        let name_ok = match q.nash_req {
            NameRequirement::Unnamed => sh.nash.is_none(),
            NameRequirement::Any => true,
            NameRequirement::Specific(n) => match sh.nash {
                Some(m) => m.0 == n.0,
                None => false,
            },
        };
        let m = key_ok && sh.attrs.kind == q.frame_kind && (sh.port == 255) == q.broadcast
            && name_ok;
        proof {
            assert(svs[i as int].hdr == sh);
            assert(m == query_matches_v(svs[i as int], *q));
            assert(svs.take(i as int + 1).drop_last() =~= svs.take(i as int));
            assert(svs.take(i as int + 1).last() == svs[i as int]);
        }
        if m {
            out.push(SocketQueryResponse { name: sh.nash, port: sh.port });
        }
        i += 1;
    }
    proof {
        assert(svs.take(n as int) =~= svs);
    }
    out
}

/// A granted net id together with the token that authorizes refreshing it.
#[derive(Debug, Clone, Copy, PartialEq, Eq)]
pub struct SeedNetAssignment {
    pub net_id: u16,
    pub token: [u8; 8],
}

/// The seed router's answer to an assignment request: the grant, and the
/// port refreshes should be sent to.
#[derive(Debug, Clone, Copy, PartialEq, Eq)]
pub struct SeedRouterAssignment {
    pub assignment: SeedNetAssignment,
    pub refresh_port: u8,
}

/// A request to rebind an earlier grant under its token.
#[derive(Debug, Clone, Copy, PartialEq, Eq)]
pub struct SeedRouterRefreshRequest {
    pub refresh_net: u16,
    pub refresh_token: [u8; 8],
}

/// Why the seed router granted no net id.
#[derive(Debug, Clone, Copy, PartialEq, Eq, Structural)]
pub enum SeedAssignmentError {
    /// Every net id is taken.
    NoNetsAvailable,
}

/// Why a refresh was refused.
#[derive(Debug, Clone, Copy, PartialEq, Eq, Structural)]
pub enum SeedRefreshError {
    /// No grant exists for the requested net id.
    NoSuchAssignment,
    /// The token does not match the grant.
    BadToken,
}

/// The seed router's book of grants.
pub struct SeedRouterState {
    pub grants: Vec<SeedNetAssignment>,
}

/// Whether a grant for this net id is on the books.
pub open spec fn grant_for(grants: Seq<SeedNetAssignment>, net_id: u16) -> Option<SeedNetAssignment>
    decreases grants.len(),
{
    if grants.len() == 0 {
        None
    } else if grants[0].net_id == net_id {
        Some(grants[0])
    } else {
        grant_for(grants.skip(1), net_id)
    }
}

impl SeedRouterState {
    /// An empty book.
    pub fn new() -> (r: SeedRouterState)
        ensures
            r.grants@ == Seq::<SeedNetAssignment>::empty(),
    {
        SeedRouterState { grants: Vec::new() }
    }

    /// Record a grant, as issued in answer to an assignment request.
    pub fn record_grant(&mut self, grant: SeedNetAssignment)
        ensures
            final(self).grants@ == old(self).grants@.push(grant),
    {
        self.grants.push(grant);
    }

    /// Rebind a grant: succeeds exactly when the requested net id is on the
    /// books under the presented token, and then returns that grant.
    pub fn refresh(&mut self, req: &SeedRouterRefreshRequest) -> (r: Result<
        SeedNetAssignment,
        SeedRefreshError,
    >)
        ensures
            final(self).grants@ == old(self).grants@,
            match grant_for(old(self).grants@, req.refresh_net) {
                None => r == Err::<SeedNetAssignment, SeedRefreshError>(
                    SeedRefreshError::NoSuchAssignment,
                ),
                Some(g) => if g.token == req.refresh_token {
                    r == Ok::<SeedNetAssignment, SeedRefreshError>(g)
                } else {
                    r == Err::<SeedNetAssignment, SeedRefreshError>(SeedRefreshError::BadToken)
                },
            },
    {
        let ghost gs = self.grants@;
        proof {
            assert(gs.skip(0) =~= gs);
        }
        let mut i: usize = 0;
        let n = self.grants.len();
        while i < n
            invariant
                n == self.grants@.len(),
                gs == self.grants@,
                i <= n,
                self == old(self),
                grant_for(gs, req.refresh_net) == grant_for(
                    gs.skip(i as int),
                    req.refresh_net,
                ),
            decreases n - i,
        {
            let g = self.grants[i];
            proof {
                assert(gs.skip(i as int)[0] == gs[i as int]);
                assert(gs.skip(i as int).skip(1) =~= gs.skip(i as int + 1));
            }
            if g.net_id == req.refresh_net {
                if crate::addr::key_eq(&crate::addr::Key(g.token), &crate::addr::Key(
                    req.refresh_token,
                )) {
                    return Ok(g);
                }
                return Err(SeedRefreshError::BadToken);
            }
            i += 1;
        }
        proof {
            assert(gs.skip(n as int) =~= Seq::<SeedNetAssignment>::empty());
        }
        Err(SeedRefreshError::NoSuchAssignment)
    }
}

/// The header an endpoint server answers a request with: addressed from the
/// server's own port back to the request's source, response kind, the
/// request's sequence number echoed so the client can match it.
pub fn reply_header(req: &crate::addr::HeaderSeq, server_port: u8) -> (r: crate::addr::Header)
    ensures
        r == (crate::addr::Header {
            src: Address { network_id: 0, node_id: 0, port_id: server_port },
            dst: req.src,
            any_all: None,
            seq_no: Some(req.seq_no),
            kind: FrameKind::EndpointResp,
            ttl: crate::addr::DEFAULT_TTL,
        }),
{
    crate::addr::Header {
        src: Address { network_id: 0, node_id: 0, port_id: server_port },
        dst: req.src,
        any_all: None,
        seq_no: Some(req.seq_no),
        kind: FrameKind::EndpointResp,
        ttl: crate::addr::DEFAULT_TTL,
    }
}

} // verus!
