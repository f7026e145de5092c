//! The router and its port allocator: attach, detach, dispatch.

use ergot::addr::{Address, AnyAllAppendix, FrameKind, Header, Key, NameHash, DEFAULT_TTL};
use ergot::interface_manager::{InterfaceSendError, Null};
use ergot::net_stack::{NetStack, NetStackSendError, SocketHdl};
use ergot::socket::{Attributes, SocketHeader, SocketSendError, SocketStorage, SocketVTable};

const TY_U32: u64 = 32;

fn test_key() -> Key {
    Key(*b"TEST1234")
}

fn req_header(nash: Option<NameHash>) -> SocketHeader {
    SocketHeader {
        port: 0,
        attrs: Attributes {
            kind: FrameKind::EndpointReq,
            discoverable: true,
        },
        key: test_key(),
        nash,
        vtable: SocketVTable::owned(),
    }
}

fn new_stack() -> NetStack<Null> {
    NetStack::new_with_profile(Null)
}

fn attach_one(stack: &mut NetStack<Null>) -> SocketHdl {
    stack.attach_socket(req_header(None), TY_U32, SocketStorage::single())
}

#[test]
fn port_alloc() {
    let mut stack = new_stack();
    let mut hdls: Vec<SocketHdl> = Vec::new();

    // make sockets 1..40
    for i in 1..40u16 {
        let h = attach_one(&mut stack);
        assert_eq!(h.port as u16, i);
        hdls.push(h);
    }

    // drop socket 35
    let pos = hdls.iter().position(|h| h.port == 35).unwrap();
    let h = hdls.remove(pos);
    assert!(stack.detach_socket(h.sid));

    // make a new socket, it should be 35
    let h = attach_one(&mut stack);
    assert_eq!(h.port, 35);
    hdls.push(h);

    // drop socket 4: it is outside the cached window, so the next
    // allocation still comes from the current window
    let pos = hdls.iter().position(|h| h.port == 4).unwrap();
    let h = hdls.remove(pos);
    assert!(stack.detach_socket(h.sid));

    // make a new socket, it should be 40
    let h = attach_one(&mut stack);
    assert_eq!(h.port, 40);
    hdls.push(h);

    // make sockets 41..64
    for i in 41..64u16 {
        let h = attach_one(&mut stack);
        assert_eq!(h.port as u16, i);
        hdls.push(h);
    }

    // make a new socket, it should be 4
    let h = attach_one(&mut stack);
    assert_eq!(h.port, 4);
    hdls.push(h);

    // make sockets 64..255
    for i in 64..255u16 {
        let h = attach_one(&mut stack);
        assert_eq!(h.port as u16, i);
        hdls.push(h);
    }

    // drop socket 212
    let pos = hdls.iter().position(|h| h.port == 212).unwrap();
    let h = hdls.remove(pos);
    assert!(stack.detach_socket(h.sid));

    // make a new socket, it should be 212
    let h = attach_one(&mut stack);
    assert_eq!(h.port, 212);
    hdls.push(h);

    // Sockets exhausted (we never see 255)
    assert!(stack
        .try_attach_socket(req_header(None), TY_U32, SocketStorage::single())
        .is_none());
}

#[test]
fn allocating_all_254_ports_succeeds() {
    let mut stack = new_stack();
    let mut seen = [false; 256];
    for _ in 0..254 {
        let h = attach_one(&mut stack);
        assert!(h.port >= 1 && h.port <= 254);
        assert!(!seen[h.port as usize], "port handed out twice");
        seen[h.port as usize] = true;
    }
    // the 255th fails: the address space is exhausted
    assert!(stack
        .try_attach_socket(req_header(None), TY_U32, SocketStorage::single())
        .is_none());
}

#[test]
fn freed_port_is_available_again() {
    let mut stack = new_stack();
    let mut hdls = Vec::new();
    for _ in 0..254 {
        hdls.push(attach_one(&mut stack));
    }
    let h = hdls.remove(100);
    let freed = h.port;
    assert!(stack.detach_socket(h.sid));
    let h2 = attach_one(&mut stack);
    assert_eq!(h2.port, freed);
}

fn local_req_hdr(dst: Address, apdx: Option<AnyAllAppendix>) -> Header {
    Header {
        src: Address {
            network_id: 0,
            node_id: 0,
            port_id: 123,
        },
        dst,
        any_all: apdx,
        seq_no: None,
        kind: FrameKind::EndpointReq,
        ttl: DEFAULT_TTL,
    }
}

#[test]
fn anycast_without_key_is_refused() {
    let mut stack = new_stack();
    let _h = attach_one(&mut stack);
    let hdr = local_req_hdr(
        Address {
            network_id: 0,
            node_id: 0,
            port_id: 0,
        },
        None,
    );
    let body = postcard::to_stdvec(&42u32).unwrap();
    assert_eq!(
        stack.send_ty(&hdr, TY_U32, &body),
        Err(NetStackSendError::AnyPortMissingKey)
    );
}

#[test]
fn anycast_with_two_candidates_is_ambiguous() {
    let mut stack = new_stack();
    let _h1 = attach_one(&mut stack);
    let _h2 = attach_one(&mut stack);
    let hdr = local_req_hdr(
        Address {
            network_id: 0,
            node_id: 0,
            port_id: 0,
        },
        Some(AnyAllAppendix {
            key: test_key(),
            nash: None,
        }),
    );
    let body = postcard::to_stdvec(&42u32).unwrap();
    assert_eq!(
        stack.send_ty(&hdr, TY_U32, &body),
        Err(NetStackSendError::AnyPortNotUnique)
    );
}

#[test]
fn unicast_wrong_kind_and_no_route() {
    let mut stack = new_stack();
    let h = attach_one(&mut stack);
    let body = postcard::to_stdvec(&42u32).unwrap();
    // no socket on this port at all
    let hdr = local_req_hdr(
        Address {
            network_id: 0,
            node_id: 0,
            port_id: 200,
        },
        None,
    );
    assert_eq!(
        stack.send_ty(&hdr, TY_U32, &body),
        Err(NetStackSendError::NoRoute)
    );
    // right port, wrong kind
    let mut hdr = local_req_hdr(
        Address {
            network_id: 0,
            node_id: 0,
            port_id: h.port,
        },
        None,
    );
    hdr.kind = FrameKind::TopicMsg;
    assert_eq!(
        stack.send_ty(&hdr, TY_U32, &body),
        Err(NetStackSendError::WrongPortKind)
    );
}

#[test]
fn typed_send_checks_type_token_and_space() {
    let mut stack = new_stack();
    let h = attach_one(&mut stack);
    let dst = Address {
        network_id: 0,
        node_id: 0,
        port_id: h.port,
    };
    let body = postcard::to_stdvec(&42u32).unwrap();
    // wrong type token
    assert_eq!(
        stack.send_ty(&local_req_hdr(dst, None), 99, &body),
        Err(NetStackSendError::SocketSend(SocketSendError::TypeMismatch))
    );
    // right token fills the single slot
    assert_eq!(stack.send_ty(&local_req_hdr(dst, None), TY_U32, &body), Ok(()));
    // a second message finds no room
    assert_eq!(
        stack.send_ty(&local_req_hdr(dst, None), TY_U32, &body),
        Err(NetStackSendError::SocketSend(SocketSendError::NoSpace))
    );
}

#[test]
fn ping_round_trip_local() {
    let mut stack = new_stack();
    // The ping server answers on the request key; the client waits on its
    // own response socket.
    let server = stack.attach_socket(req_header(None), TY_U32, SocketStorage::single());
    let client = stack.attach_socket(
        SocketHeader {
            port: 0,
            attrs: Attributes {
                kind: FrameKind::EndpointResp,
                discoverable: false,
            },
            key: test_key(),
            nash: None,
            vtable: SocketVTable::owned(),
        },
        TY_U32,
        SocketStorage::single(),
    );

    // the request goes by any-cast: dst (0,0,0) plus the key
    let req_hdr = Header {
        src: Address {
            network_id: 0,
            node_id: 0,
            port_id: client.port,
        },
        dst: Address {
            network_id: 0,
            node_id: 0,
            port_id: 0,
        },
        any_all: Some(AnyAllAppendix {
            key: test_key(),
            nash: None,
        }),
        seq_no: None,
        kind: FrameKind::EndpointReq,
        ttl: DEFAULT_TTL,
    };
    let body = postcard::to_stdvec(&42u32).unwrap();
    assert_eq!(stack.send_ty(&req_hdr, TY_U32, &body), Ok(()));

    // the server observes 42, from the client's (wildcard-net) address
    let msg = stack.try_recv(server.sid).unwrap();
    assert_eq!(msg.hdr.src.network_id, 0);
    assert_eq!(msg.hdr.src.node_id, 0);
    assert_eq!(msg.hdr.src.port_id, client.port);
    let seen: u32 = postcard::from_bytes(msg.body.as_ref().unwrap()).unwrap();
    assert_eq!(seen, 42);

    // the server echoes, re-using the request's sequence number
    let resp_hdr = ergot::well_known::reply_header(&msg.hdr, server.port);
    let echo = postcard::to_stdvec(&seen).unwrap();
    assert_eq!(stack.send_ty(&resp_hdr, TY_U32, &echo), Ok(()));

    // the client observes 42 back, with the sequence number echoed
    let back = stack.try_recv(client.sid).unwrap();
    let got: u32 = postcard::from_bytes(back.body.as_ref().unwrap()).unwrap();
    assert_eq!(got, 42);
    assert_eq!(back.hdr.seq_no, msg.hdr.seq_no);
}

#[test]
fn broadcast_reaches_all_matching_receivers() {
    let mut stack = new_stack();
    let bhdr = |nash: Option<NameHash>| SocketHeader {
        port: 0,
        attrs: Attributes {
            kind: FrameKind::TopicMsg,
            discoverable: false,
        },
        key: test_key(),
        nash,
        vtable: SocketVTable::owned(),
    };
    let rx1 = stack.attach_broadcast_socket(bhdr(None), TY_U32, SocketStorage::single());
    let rx2 = stack.attach_broadcast_socket(bhdr(None), TY_U32, SocketStorage::single());
    let rx3 = stack.attach_broadcast_socket(
        bhdr(Some(NameHash(7))),
        TY_U32,
        SocketStorage::single(),
    );

    // publish once with a name hash that matches nobody's: the named
    // receiver has name 7, the publish asks for 8
    let hdr = Header {
        src: Address {
            network_id: 0,
            node_id: 0,
            port_id: 123,
        },
        dst: Address {
            network_id: 0,
            node_id: 0,
            port_id: 255,
        },
        any_all: Some(AnyAllAppendix {
            key: test_key(),
            nash: None,
        }),
        seq_no: None,
        kind: FrameKind::TopicMsg,
        ttl: DEFAULT_TTL,
    };
    let body = postcard::to_stdvec(&5u32).unwrap();
    assert_eq!(stack.send_ty(&hdr, TY_U32, &body), Ok(()));

    // both unnamed receivers deliver
    assert!(stack.try_recv(rx1.sid).is_some());
    assert!(stack.try_recv(rx2.sid).is_some());
    // the named receiver delivered too (no name asked); now publish with a
    // name that matches nothing
    assert!(stack.try_recv(rx3.sid).is_some());

    let mut named = hdr;
    named.any_all = Some(AnyAllAppendix {
        key: test_key(),
        nash: Some(NameHash(8)),
    });
    assert_eq!(
        stack.send_ty(&named, TY_U32, &body),
        Err(NetStackSendError::NoRoute)
    );
    assert!(stack.try_recv(rx3.sid).is_none());
}

#[test]
fn broadcast_without_key_is_refused() {
    let mut stack = new_stack();
    let hdr = Header {
        src: Address::unknown(),
        dst: Address {
            network_id: 0,
            node_id: 0,
            port_id: 255,
        },
        any_all: None,
        seq_no: None,
        kind: FrameKind::TopicMsg,
        ttl: DEFAULT_TTL,
    };
    let body = postcard::to_stdvec(&5u32).unwrap();
    assert_eq!(
        stack.send_ty(&hdr, TY_U32, &body),
        Err(NetStackSendError::AllPortMissingKey)
    );
}

#[test]
fn detached_socket_no_longer_routes() {
    let mut stack = new_stack();
    let h = attach_one(&mut stack);
    let dst = Address {
        network_id: 0,
        node_id: 0,
        port_id: h.port,
    };
    assert!(stack.detach_socket(h.sid));
    let body = postcard::to_stdvec(&42u32).unwrap();
    assert_eq!(
        stack.send_ty(&local_req_hdr(dst, None), TY_U32, &body),
        Err(NetStackSendError::NoRoute)
    );
}

#[test]
fn send_err_goes_by_port_alone() {
    let mut stack = new_stack();
    let h = attach_one(&mut stack);
    let hdr = Header {
        src: Address {
            network_id: 0,
            node_id: 0,
            port_id: 9,
        },
        dst: Address {
            network_id: 0,
            node_id: 0,
            port_id: h.port,
        },
        any_all: None,
        seq_no: None,
        kind: FrameKind::ProtocolError,
        ttl: DEFAULT_TTL,
    };
    assert_eq!(stack.send_err(&hdr, ergot::addr::ProtocolError(77)), Ok(()));
    let msg = stack.try_recv(h.sid).unwrap();
    assert_eq!(msg.body, Err(ergot::addr::ProtocolError(77)));
}

#[test]
fn error_delivery_needs_error_support() {
    let mut stack = new_stack();
    let h = stack.attach_socket(
        SocketHeader {
            port: 0,
            attrs: Attributes {
                kind: FrameKind::EndpointReq,
                discoverable: false,
            },
            key: test_key(),
            nash: None,
            vtable: SocketVTable {
                recv_owned: true,
                recv_bor: false,
                recv_err: false,
            },
        },
        TY_U32,
        SocketStorage::single(),
    );
    let hdr = Header {
        src: Address::unknown(),
        dst: Address {
            network_id: 0,
            node_id: 0,
            port_id: h.port,
        },
        any_all: None,
        seq_no: None,
        kind: FrameKind::ProtocolError,
        ttl: DEFAULT_TTL,
    };
    assert_eq!(
        stack.send_err(&hdr, ergot::addr::ProtocolError(3)),
        Err(NetStackSendError::SocketSend(SocketSendError::WhatTheHell))
    );
}

#[test]
fn error_codes_are_stable() {
    assert_eq!(NetStackSendError::NoRoute.to_error().0, 0x0001);
    assert_eq!(NetStackSendError::AnyPortMissingKey.to_error().0, 0x0002);
    assert_eq!(NetStackSendError::WrongPortKind.to_error().0, 0x0003);
    assert_eq!(NetStackSendError::AnyPortNotUnique.to_error().0, 0x0004);
    assert_eq!(NetStackSendError::AllPortMissingKey.to_error().0, 0x0005);
    assert_eq!(
        NetStackSendError::SocketSend(SocketSendError::NoSpace)
            .to_error()
            .0,
        0x0101
    );
    assert_eq!(
        NetStackSendError::InterfaceSend(InterfaceSendError::TtlExpired)
            .to_error()
            .0,
        0x0205
    );
    assert_eq!(InterfaceSendError::InterfaceFull.to_error().0, 0x0203);
}

#[test]
fn bounded_storage_queues_in_order() {
    let mut stack = new_stack();
    let h = stack.attach_socket(req_header(None), TY_U32, SocketStorage::bounded(3));
    let dst = Address {
        network_id: 0,
        node_id: 0,
        port_id: h.port,
    };
    for v in [10u32, 20, 30] {
        let body = postcard::to_stdvec(&v).unwrap();
        assert_eq!(stack.send_ty(&local_req_hdr(dst, None), TY_U32, &body), Ok(()));
    }
    let body = postcard::to_stdvec(&40u32).unwrap();
    assert_eq!(
        stack.send_ty(&local_req_hdr(dst, None), TY_U32, &body),
        Err(NetStackSendError::SocketSend(SocketSendError::NoSpace))
    );
    // frames from one sender come back out in the order they went in, with
    // ascending sequence stamps
    let first = stack.try_recv(h.sid).unwrap();
    let second = stack.try_recv(h.sid).unwrap();
    let third = stack.try_recv(h.sid).unwrap();
    let v1: u32 = postcard::from_bytes(first.body.as_ref().unwrap()).unwrap();
    let v2: u32 = postcard::from_bytes(second.body.as_ref().unwrap()).unwrap();
    let v3: u32 = postcard::from_bytes(third.body.as_ref().unwrap()).unwrap();
    assert_eq!((v1, v2, v3), (10, 20, 30));
    assert_eq!(second.hdr.seq_no, first.hdr.seq_no + 1);
    assert_eq!(third.hdr.seq_no, second.hdr.seq_no + 1);
    assert!(stack.try_recv(h.sid).is_none());
}

#[test]
fn send_raw_delivers_bytes_verbatim() {
    let mut stack = new_stack();
    let h = attach_one(&mut stack);
    let hdr = local_req_hdr(
        Address {
            network_id: 0,
            node_id: 0,
            port_id: h.port,
        },
        None,
    );
    let hdr_raw = vec![0xAAu8, 0xBB];
    let body = vec![1u8, 2, 3];
    assert_eq!(stack.send_raw(&hdr, &hdr_raw, &body), Ok(()));
    let msg = stack.try_recv(h.sid).unwrap();
    assert_eq!(msg.body.unwrap(), body);
    assert_eq!(msg.ty, TY_U32);
}
