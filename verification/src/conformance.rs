//! A scripted profile for exercising the stack.
//!
//! [`MockProfile`] plays the part of an interface manager in tests: it is
//! loaded with the sends it should see, answers each with the scripted
//! result, and remembers whether anything arrived out of script. Unlike a
//! real profile it transmits nothing.

use vstd::prelude::*;

use crate::addr::{header_eq, Header, ProtocolError};
use crate::interface_manager::{InterfaceSendError, InterfaceState, Profile, SetStateError};

verus! {


/// Compare two byte buffers by contents.
fn bytes_eq(a: &Vec<u8>, b: &Vec<u8>) -> (r: bool)
    ensures
        r == (a@ == b@),
{
    if a.len() != b.len() {
        proof {
            assert(a@.len() != b@.len());
        }
        return false;
    }
    let mut i: usize = 0;
    while i < a.len()
        invariant
            a@.len() == b@.len(),
            i <= a@.len(),
            forall|j: int| 0 <= j < i ==> a@[j] == b@[j],
        decreases a@.len() - i,
    {
        if a[i] != b[i] {
            return false;
        }
        i += 1;
    }
    proof {
        assert(a@ =~= b@);
    }
    true
}

/// One typed send the profile should see, and what to answer.
pub struct ExpectedSend {
    pub hdr: Header,
    pub ty: u64,
    pub data: Vec<u8>,
    pub retval: Result<(), InterfaceSendError>,
}

/// One error send the profile should see, and what to answer.
pub struct ExpectedSendErr {
    pub hdr: Header,
    pub err: ProtocolError,
    pub retval: Result<(), InterfaceSendError>,
}

/// One raw send the profile should see, and what to answer.
pub struct ExpectedSendRaw {
    pub hdr: Header,
    pub hdr_raw: Vec<u8>,
    pub body: Vec<u8>,
    pub retval: Result<(), InterfaceSendError>,
}

/// The mathematical value of a scripted typed send.
pub ghost struct ExpSendV {
    pub hdr: Header,
    pub ty: u64,
    pub data: Seq<u8>,
    pub retval: Result<(), InterfaceSendError>,
}

/// The mathematical value of a scripted error send.
pub ghost struct ExpErrV {
    pub hdr: Header,
    pub err: ProtocolError,
    pub retval: Result<(), InterfaceSendError>,
}

/// The mathematical value of a scripted raw send.
pub ghost struct ExpRawV {
    pub hdr: Header,
    pub hdr_raw: Seq<u8>,
    pub body: Seq<u8>,
    pub retval: Result<(), InterfaceSendError>,
}

impl ExpectedSend {
    pub open spec fn exp_v(self) -> ExpSendV {
        ExpSendV { hdr: self.hdr, ty: self.ty, data: self.data@, retval: self.retval }
    }
}

impl ExpectedSendErr {
    pub open spec fn exp_v(self) -> ExpErrV {
        ExpErrV { hdr: self.hdr, err: self.err, retval: self.retval }
    }
}

impl ExpectedSendRaw {
    pub open spec fn exp_v(self) -> ExpRawV {
        ExpRawV { hdr: self.hdr, hdr_raw: self.hdr_raw@, body: self.body@, retval: self.retval }
    }
}

/// A profile that answers from a script. Each send consumes the front of
/// the matching queue and returns its scripted result; an unscripted or
/// mismatched send marks the profile failed and tests check for that.
pub struct MockProfile {
    pub expected_sends: Vec<ExpectedSend>,
    pub expected_send_errs: Vec<ExpectedSendErr>,
    pub expected_send_raws: Vec<ExpectedSendRaw>,
    pub failed: bool,
}

/// The mathematical value of the scripted profile.
pub ghost struct MockV {
    pub sends: Seq<ExpSendV>,
    pub errs: Seq<ExpErrV>,
    pub raws: Seq<ExpRawV>,
    pub failed: bool,
}

impl MockProfile {
    /// A profile with an empty script.
    pub fn new() -> (r: MockProfile)
        ensures
            r.model() == (MockV {
                sends: Seq::<ExpSendV>::empty(),
                errs: Seq::<ExpErrV>::empty(),
                raws: Seq::<ExpRawV>::empty(),
                failed: false,
            }),
    {
        let r = MockProfile {
            expected_sends: Vec::new(),
            expected_send_errs: Vec::new(),
            expected_send_raws: Vec::new(),
            failed: false,
        };
        proof {
            assert(r.model().sends =~= Seq::<ExpSendV>::empty());
            assert(r.model().errs =~= Seq::<ExpErrV>::empty());
            assert(r.model().raws =~= Seq::<ExpRawV>::empty());
        }
        r
    }

    /// Script one typed send.
    pub fn add_exp_send(&mut self, exp: ExpectedSend)
        ensures
            final(self).model() == (MockV {
                sends: old(self).model().sends.push(exp.exp_v()),
                ..old(self).model()
            }),
    {
        self.expected_sends.push(exp);
        proof {
            assert(self.model().sends =~= old(self).model().sends.push(exp.exp_v()));
        }
    }

    /// Script one error send.
    pub fn add_exp_send_err(&mut self, exp: ExpectedSendErr)
        ensures
            final(self).model() == (MockV {
                errs: old(self).model().errs.push(exp.exp_v()),
                ..old(self).model()
            }),
    {
        self.expected_send_errs.push(exp);
        proof {
            assert(self.model().errs =~= old(self).model().errs.push(exp.exp_v()));
        }
    }

    /// Script one raw send.
    pub fn add_exp_send_raw(&mut self, exp: ExpectedSendRaw)
        ensures
            final(self).model() == (MockV {
                raws: old(self).model().raws.push(exp.exp_v()),
                ..old(self).model()
            }),
    {
        self.expected_send_raws.push(exp);
        proof {
            assert(self.model().raws =~= old(self).model().raws.push(exp.exp_v()));
        }
    }

    /// Whether every send so far arrived as scripted.
    pub fn all_matched(&self) -> (r: bool)
        ensures
            r == !self.model().failed,
    {
        !self.failed
    }
}

/// What one scripted typed send answers, and the script that remains.
pub open spec fn mock_send_model(pre: MockV, hdr: Header, ty: u64, body: Seq<u8>) -> (
    MockV,
    Result<(), InterfaceSendError>,
) {
    if pre.sends.len() == 0 {
        (MockV { failed: true, ..pre }, Err(InterfaceSendError::NoRouteToDest))
    } else {
        let e = pre.sends[0];
        let rest = MockV { sends: pre.sends.skip(1), ..pre };
        if e.hdr == hdr && e.ty == ty && e.data == body {
            (rest, e.retval)
        } else {
            (MockV { failed: true, ..rest }, e.retval)
        }
    }
}

/// What one scripted raw send answers, and the script that remains.
pub open spec fn mock_send_raw_model(pre: MockV, hdr: Header, hdr_raw: Seq<u8>, body: Seq<u8>) -> (
    MockV,
    Result<(), InterfaceSendError>,
) {
    if pre.raws.len() == 0 {
        (MockV { failed: true, ..pre }, Err(InterfaceSendError::NoRouteToDest))
    } else {
        let e = pre.raws[0];
        let rest = MockV { raws: pre.raws.skip(1), ..pre };
        if e.hdr == hdr && e.hdr_raw == hdr_raw && e.body == body {
            (rest, e.retval)
        } else {
            (MockV { failed: true, ..rest }, e.retval)
        }
    }
}

/// What one scripted error send answers, and the script that remains.
pub open spec fn mock_send_err_model(pre: MockV, hdr: Header, err: ProtocolError) -> (
    MockV,
    Result<(), InterfaceSendError>,
) {
    if pre.errs.len() == 0 {
        (MockV { failed: true, ..pre }, Err(InterfaceSendError::NoRouteToDest))
    } else {
        let e = pre.errs[0];
        let rest = MockV { errs: pre.errs.skip(1), ..pre };
        if e.hdr == hdr && e.err == err {
            (rest, e.retval)
        } else {
            (MockV { failed: true, ..rest }, e.retval)
        }
    }
}

impl Profile for MockProfile {
    type ModelT = MockV;

    open spec fn model(&self) -> MockV {
        MockV {
            sends: self.expected_sends@.map_values(|e: ExpectedSend| e.exp_v()),
            errs: self.expected_send_errs@.map_values(|e: ExpectedSendErr| e.exp_v()),
            raws: self.expected_send_raws@.map_values(|e: ExpectedSendRaw| e.exp_v()),
            failed: self.failed,
        }
    }

    open spec fn send_model(pre: MockV, hdr: Header, ty: u64, body: Seq<u8>) -> (
        MockV,
        Result<(), InterfaceSendError>,
    ) {
        mock_send_model(pre, hdr, ty, body)
    }

    open spec fn send_raw_model(pre: MockV, hdr: Header, hdr_raw: Seq<u8>, body: Seq<u8>) -> (
        MockV,
        Result<(), InterfaceSendError>,
    ) {
        mock_send_raw_model(pre, hdr, hdr_raw, body)
    }

    open spec fn send_err_model(pre: MockV, hdr: Header, err: ProtocolError) -> (
        MockV,
        Result<(), InterfaceSendError>,
    ) {
        mock_send_err_model(pre, hdr, err)
    }

    fn send(&mut self, hdr: &Header, ty: u64, body: &Vec<u8>) -> (r: Result<
        (),
        InterfaceSendError,
    >) {
        if self.expected_sends.len() == 0 {
            self.failed = true;
            proof {
                assert(self.model() == (MockV { failed: true, ..old(self).model() }));
            }
            return Err(InterfaceSendError::NoRouteToDest);
        }
        let exp = self.expected_sends.remove(0);
        proof {
            assert(self.model().sends =~= old(self).model().sends.skip(1));
            assert(exp.exp_v() == old(self).model().sends[0]);
        }
        let good = header_eq(&exp.hdr, hdr) && exp.ty == ty && bytes_eq(&exp.data, body);
        if !good {
            self.failed = true;
        }
        exp.retval
    }

    fn send_raw(&mut self, hdr: &Header, hdr_raw: &Vec<u8>, body: &Vec<u8>) -> (r: Result<
        (),
        InterfaceSendError,
    >) {
        if self.expected_send_raws.len() == 0 {
            self.failed = true;
            proof {
                assert(self.model() == (MockV { failed: true, ..old(self).model() }));
            }
            return Err(InterfaceSendError::NoRouteToDest);
        }
        let exp = self.expected_send_raws.remove(0);
        proof {
            assert(self.model().raws =~= old(self).model().raws.skip(1));
            assert(exp.exp_v() == old(self).model().raws[0]);
        }
        let good = header_eq(&exp.hdr, hdr) && bytes_eq(&exp.hdr_raw, hdr_raw) && bytes_eq(
            &exp.body,
            body,
        );
        if !good {
            self.failed = true;
        }
        exp.retval
    }

    fn send_err(&mut self, hdr: &Header, err: ProtocolError) -> (r: Result<
        (),
        InterfaceSendError,
    >) {
        if self.expected_send_errs.len() == 0 {
            self.failed = true;
            proof {
                assert(self.model() == (MockV { failed: true, ..old(self).model() }));
            }
            return Err(InterfaceSendError::NoRouteToDest);
        }
        let exp = self.expected_send_errs.remove(0);
        proof {
            assert(self.model().errs =~= old(self).model().errs.skip(1));
            assert(exp.exp_v() == old(self).model().errs[0]);
        }
        let good = header_eq(&exp.hdr, hdr) && exp.err.0 == err.0;
        if !good {
            self.failed = true;
        }
        exp.retval
    }

    fn interface_state(&mut self, ident: u64) -> Option<InterfaceState> {
        None
    }

    fn set_interface_state(&mut self, ident: u64, state: InterfaceState) -> Result<
        (),
        SetStateError,
    > {
        Err(SetStateError::NoSuchInterface)
    }
}

/// The header senders start from in conformance exercises: an unknown source
/// and a fixed remote unicast destination.
pub fn default_hdr() -> (r: Header)
    ensures
        r == (Header {
            src: crate::addr::Address { network_id: 0, node_id: 0, port_id: 0 },
            dst: crate::addr::Address { network_id: 10, node_id: 10, port_id: 10 },
            any_all: None,
            seq_no: None,
            kind: crate::addr::FrameKind::Reserved,
            ttl: crate::addr::DEFAULT_TTL,
        }),
{
    Header {
        src: crate::addr::Address::unknown(),
        dst: crate::addr::Address { network_id: 10, node_id: 10, port_id: 10 },
        any_all: None,
        seq_no: None,
        kind: crate::addr::FrameKind::Reserved,
        ttl: crate::addr::DEFAULT_TTL,
    }
}

} // verus!
