//! The edge and router profiles, and the inbound rewrite.

use ergot::addr::{Address, AnyAllAppendix, FrameKind, Header, Key, DEFAULT_TTL};
use ergot::cobs_stream::Sink;
use ergot::edge::EdgeInterface;
use ergot::interface_manager::{InterfaceSendError, InterfaceState, Null, Profile};
use ergot::net_stack::{NetStack, NetStackSendError};
use ergot::router::{process_frame, RouterProfile};
use ergot::socket::{Attributes, SocketHeader, SocketStorage, SocketVTable};
use ergot::well_known::{SeedNetAssignment, SeedRefreshError, SeedRouterRefreshRequest,
    SeedRouterState};
use ergot::wire_frames::{de_frame, encode_frame_ty};

const TY_U32: u64 = 32;

fn remote_hdr() -> Header {
    Header {
        src: Address {
            network_id: 0,
            node_id: 0,
            port_id: 123,
        },
        dst: Address {
            network_id: 7,
            node_id: 1,
            port_id: 5,
        },
        any_all: None,
        seq_no: None,
        kind: FrameKind::EndpointReq,
        ttl: DEFAULT_TTL,
    }
}

#[test]
fn edge_net_id_acquisition() {
    let mut stack: NetStack<EdgeInterface> = NetStack::new_with_profile(EdgeInterface::new());
    let body = postcard::to_stdvec(&42u32).unwrap();

    // before any net id: the edge cannot route
    assert_eq!(
        stack.send_ty(&remote_hdr(), TY_U32, &body),
        Err(NetStackSendError::InterfaceSend(
            InterfaceSendError::NoRouteToDest
        ))
    );

    // register the interface and activate it as net 7
    {
        let p = stack.manage_profile();
        p.register(Sink::new(256, 4));
        assert_eq!(p.interface_state(0), Some(InterfaceState::Inactive));
        p.set_interface_state(0, InterfaceState::Active { net_id: 7 })
            .unwrap();
        assert_eq!(
            p.interface_state(0),
            Some(InterfaceState::Active { net_id: 7 })
        );
    }

    // the same call now succeeds, and the frame on the wire carries the
    // rewritten source (7, 2, 123)
    assert_eq!(stack.send_ty(&remote_hdr(), TY_U32, &body), Ok(()));
    let line = stack.manage_profile().pop_frame().unwrap();
    assert_eq!(*line.last().unwrap(), 0);
    let wire = cobs::decode_vec(&line).unwrap();
    let frame = de_frame(&wire).unwrap();
    assert_eq!(frame.hdr.src.network_id, 7);
    assert_eq!(frame.hdr.src.node_id, 2);
    assert_eq!(frame.hdr.src.port_id, 123);
    assert_eq!(frame.hdr.ttl, DEFAULT_TTL - 1);
    assert_eq!(frame.body.unwrap(), body);
}

#[test]
fn edge_keeps_own_destination_local() {
    let mut edge = EdgeInterface::new();
    edge.register(Sink::new(256, 4));
    edge.set_net_id(7).unwrap();
    let mut hdr = remote_hdr();
    hdr.dst = Address {
        network_id: 7,
        node_id: 2,
        port_id: 5,
    };
    let body = vec![1u8];
    assert_eq!(
        edge.send(&hdr, TY_U32, &body),
        Err(InterfaceSendError::DestinationLocal)
    );
}

#[test]
fn edge_spends_ttl_and_expires_it() {
    let mut edge = EdgeInterface::new();
    edge.register(Sink::new(256, 4));
    edge.set_net_id(7).unwrap();
    let mut hdr = remote_hdr();
    hdr.ttl = 0;
    assert_eq!(
        edge.send(&hdr, TY_U32, &vec![1u8]),
        Err(InterfaceSendError::TtlExpired)
    );
}

#[test]
fn edge_anycast_needs_a_key() {
    let mut edge = EdgeInterface::new();
    edge.register(Sink::new(256, 4));
    edge.set_net_id(7).unwrap();
    let mut hdr = remote_hdr();
    hdr.dst.port_id = 0;
    assert_eq!(
        edge.send(&hdr, TY_U32, &vec![1u8]),
        Err(InterfaceSendError::AnyPortMissingKey)
    );
}

#[test]
fn edge_back_pressure_is_interface_full() {
    let mut edge = EdgeInterface::new();
    edge.register(Sink::new(256, 1));
    edge.set_net_id(7).unwrap();
    let body = vec![1u8];
    assert_eq!(edge.send(&remote_hdr(), TY_U32, &body), Ok(()));
    assert_eq!(
        edge.send(&remote_hdr(), TY_U32, &body),
        Err(InterfaceSendError::InterfaceFull)
    );
}

#[test]
fn inbound_wildcard_source_is_rewritten() {
    let mut stack: NetStack<Null> = NetStack::new_with_profile(Null);
    let h = stack.attach_socket(
        SocketHeader {
            port: 0,
            attrs: Attributes {
                kind: FrameKind::EndpointReq,
                discoverable: true,
            },
            key: Key(*b"TEST1234"),
            nash: None,
            vtable: SocketVTable::owned(),
        },
        TY_U32,
        SocketStorage::single(),
    );

    // a frame from the far edge: wildcard source network, node 2
    let hdr = ergot::addr::HeaderSeq {
        src: Address {
            network_id: 0,
            node_id: 2,
            port_id: 40,
        },
        dst: Address {
            network_id: 0,
            node_id: 0,
            port_id: h.port,
        },
        any_all: None,
        seq_no: 77,
        kind: FrameKind::EndpointReq,
        ttl: DEFAULT_TTL,
    };
    let body = postcard::to_stdvec(&42u32).unwrap();
    let wire = encode_frame_ty(&hdr, &body);

    let res = process_frame(&mut stack, &wire, 9);
    assert_eq!(res, Some(Ok(())));
    let msg = stack.try_recv(h.sid).unwrap();
    // the source network was rewritten to the interface's id before local
    // dispatch
    assert_eq!(msg.hdr.src.network_id, 9);
    assert_eq!(msg.hdr.src.node_id, 2);
    assert_eq!(msg.hdr.src.port_id, 40);
}

#[test]
fn undecodable_frames_are_dropped() {
    let mut stack: NetStack<Null> = NetStack::new_with_profile(Null);
    assert_eq!(process_frame(&mut stack, &vec![0x04u8, 1, 2], 9), None);
}

#[test]
fn router_assigns_lowest_free_net_ids() {
    let mut router = RouterProfile::new();
    assert_eq!(router.alloc_intfc(Sink::new(256, 4)), Ok(1));
    assert_eq!(router.alloc_intfc(Sink::new(256, 4)), Ok(2));
    assert_eq!(router.alloc_intfc(Sink::new(256, 4)), Ok(3));
    // close net 2: the next allocation collects it and re-issues 2
    assert!(router.mark_closed(2));
    assert_eq!(router.alloc_intfc(Sink::new(256, 4)), Ok(2));
    // nothing free below 4 now
    assert_eq!(router.alloc_intfc(Sink::new(256, 4)), Ok(4));
}

#[test]
fn seed_refresh_checks_the_token() {
    let mut seed = SeedRouterState::new();
    seed.record_grant(SeedNetAssignment {
        net_id: 7,
        token: *b"TOKENAAA",
    });
    // matching token rebinds
    let ok = seed.refresh(&SeedRouterRefreshRequest {
        refresh_net: 7,
        refresh_token: *b"TOKENAAA",
    });
    assert_eq!(
        ok,
        Ok(SeedNetAssignment {
            net_id: 7,
            token: *b"TOKENAAA",
        })
    );
    // a wrong token is refused
    let bad = seed.refresh(&SeedRouterRefreshRequest {
        refresh_net: 7,
        refresh_token: *b"TOKENBBB",
    });
    assert_eq!(bad, Err(SeedRefreshError::BadToken));
    // an unknown net id is refused
    let missing = seed.refresh(&SeedRouterRefreshRequest {
        refresh_net: 8,
        refresh_token: *b"TOKENAAA",
    });
    assert_eq!(missing, Err(SeedRefreshError::NoSuchAssignment));
}

#[test]
fn router_routes_to_the_destination_interface() {
    let mut stack: NetStack<RouterProfile> = NetStack::new_with_profile(RouterProfile::new());
    {
        let p = stack.manage_profile();
        assert_eq!(p.alloc_intfc(Sink::new(256, 4)), Ok(1));
        assert_eq!(p.alloc_intfc(Sink::new(256, 4)), Ok(2));
    }
    let hdr = Header {
        src: Address {
            network_id: 0,
            node_id: 0,
            port_id: 50,
        },
        dst: Address {
            network_id: 2,
            node_id: 2,
            port_id: 5,
        },
        any_all: None,
        seq_no: None,
        kind: FrameKind::EndpointReq,
        ttl: DEFAULT_TTL,
    };
    let body = vec![9u8, 9];
    assert_eq!(stack.send_ty(&hdr, TY_U32, &body), Ok(()));

    let p = stack.manage_profile();
    // interface 1 saw nothing; interface 2 carries the frame with the
    // source rewritten to the router's address on net 2
    assert!(p.interfaces[0].sink.pop_frame().is_none());
    let line = p.interfaces[1].sink.pop_frame().unwrap();
    let wire = cobs::decode_vec(&line).unwrap();
    let frame = de_frame(&wire).unwrap();
    assert_eq!(frame.hdr.src.network_id, 2);
    assert_eq!(frame.hdr.src.node_id, 1);
    assert_eq!(frame.hdr.src.port_id, 50);
    assert_eq!(frame.body.unwrap(), body);

    // an unknown destination net has no route
    let mut lost = hdr;
    lost.dst.network_id = 9;
    assert_eq!(
        stack.send_ty(&lost, TY_U32, &body),
        Err(NetStackSendError::InterfaceSend(
            InterfaceSendError::NoRouteToDest
        ))
    );
    // a frame for the router itself falls through to local dispatch, where
    // nothing listens
    let mut home = hdr;
    home.dst.node_id = 1;
    assert_eq!(
        stack.send_ty(&home, TY_U32, &body),
        Err(NetStackSendError::NoRoute)
    );
}
