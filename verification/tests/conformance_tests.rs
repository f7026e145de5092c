//! Conformance exercises: the stack against the scripted profile.

use ergot::addr::{Address, FrameKind, Header, DEFAULT_TTL};
use ergot::conformance::{ExpectedSend, MockProfile};
use ergot::interface_manager::InterfaceSendError;
use ergot::net_stack::{NetStack, NetStackSendError};

const TY_U64: u64 = 64;

fn default_hdr() -> Header {
    Header {
        src: Address::unknown(),
        dst: Address {
            network_id: 10,
            node_id: 10,
            port_id: 10,
        },
        any_all: None,
        seq_no: None,
        kind: FrameKind::Reserved,
        ttl: DEFAULT_TTL,
    }
}

fn ok<E>() -> Result<(), E> {
    Ok(())
}

fn inoroute() -> Result<(), InterfaceSendError> {
    Err(InterfaceSendError::NoRouteToDest)
}

fn sinoroute() -> Result<(), NetStackSendError> {
    Err(NetStackSendError::InterfaceSend(
        InterfaceSendError::NoRouteToDest,
    ))
}

#[test]
pub fn send_tests_no_sockets() {
    let mut stack: NetStack<MockProfile> = NetStack::new_with_profile(MockProfile::new());
    let val: u64 = 1234;
    let data = postcard::to_stdvec(&val).unwrap();

    let cases: &[(Header, Vec<u8>, Result<(), InterfaceSendError>)] = &[
        // normal send, interface takes
        (default_hdr(), data.clone(), ok()),
        // normal send, interface doesn't take
        (default_hdr(), data.clone(), inoroute()),
    ];

    {
        let p = stack.manage_profile();
        for (hdr, data, retval) in cases.iter() {
            p.add_exp_send(ExpectedSend {
                hdr: *hdr,
                ty: TY_U64,
                data: data.clone(),
                retval: *retval,
            });
        }
    }

    let actval = stack.send_ty(&default_hdr(), TY_U64, &data);
    assert_eq!(actval, ok());
    let actval = stack.send_ty(&default_hdr(), TY_U64, &data);
    assert_eq!(actval, sinoroute());

    assert!(stack.manage_profile().all_matched());
}

#[test]
fn mock_flags_mismatched_send() {
    let mut stack: NetStack<MockProfile> = NetStack::new_with_profile(MockProfile::new());
    let data = postcard::to_stdvec(&1234u64).unwrap();
    stack.manage_profile().add_exp_send(ExpectedSend {
        hdr: default_hdr(),
        ty: TY_U64,
        data: vec![9, 9, 9],
        retval: ok(),
    });
    let r = stack.send_ty(&default_hdr(), TY_U64, &data);
    assert_eq!(r, ok());
    assert!(!stack.manage_profile().all_matched());
}

#[test]
fn mock_flags_unscripted_send() {
    let mut stack: NetStack<MockProfile> = NetStack::new_with_profile(MockProfile::new());
    let data = postcard::to_stdvec(&1u8).unwrap();
    let r = stack.send_ty(&default_hdr(), TY_U64, &data);
    assert_eq!(r, sinoroute());
    assert!(!stack.manage_profile().all_matched());
}
