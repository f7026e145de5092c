//! The wire codec: headers survive their round trip, bit for bit.

use ergot::addr::{Address, AnyAllAppendix, FrameKind, HeaderSeq, Key, NameHash, ProtocolError};
use ergot::wire_frames::{
    de_frame, encode_frame_err, encode_frame_hdr, encode_frame_ty, MAX_HDR_ENCODED_SIZE,
};

fn sample_hdr(apdx: Option<AnyAllAppendix>) -> HeaderSeq {
    HeaderSeq {
        src: Address {
            network_id: 7,
            node_id: 2,
            port_id: 19,
        },
        dst: Address {
            network_id: 7,
            node_id: 1,
            port_id: 0,
        },
        any_all: apdx,
        seq_no: 0xBEEF,
        kind: FrameKind::EndpointReq,
        ttl: 15,
    }
}

#[test]
fn header_round_trip_plain() {
    let hdr = sample_hdr(None);
    let body = vec![1u8, 2, 3, 4, 5];
    let wire = encode_frame_ty(&hdr, &body);
    assert!(wire.len() <= MAX_HDR_ENCODED_SIZE + body.len());
    let back = de_frame(&wire).expect("frame should parse");
    assert_eq!(back.hdr, hdr);
    assert_eq!(back.body.unwrap(), body);
}

#[test]
fn header_round_trip_with_appendix() {
    let hdr = sample_hdr(Some(AnyAllAppendix {
        key: Key(*b"PINGPONG"),
        nash: Some(NameHash(0x0123_4567_89ab_cdef)),
    }));
    let body = vec![42u8];
    let wire = encode_frame_ty(&hdr, &body);
    let back = de_frame(&wire).expect("frame should parse");
    assert_eq!(back.hdr, hdr);
    assert_eq!(back.body.unwrap(), body);
}

#[test]
fn header_round_trip_key_without_name() {
    let hdr = sample_hdr(Some(AnyAllAppendix {
        key: Key(*b"ONLYKEYS"),
        nash: None,
    }));
    let wire = encode_frame_ty(&hdr, &[]);
    let back = de_frame(&wire).expect("frame should parse");
    assert_eq!(back.hdr, hdr);
    assert_eq!(back.body.unwrap(), Vec::<u8>::new());
}

#[test]
fn error_frame_round_trip() {
    let mut hdr = sample_hdr(None);
    hdr.kind = FrameKind::ProtocolError;
    let wire = encode_frame_err(&hdr, ProtocolError(0x0203));
    let back = de_frame(&wire).expect("frame should parse");
    assert_eq!(back.hdr, hdr);
    assert_eq!(back.body.unwrap_err(), ProtocolError(0x0203));
}

#[test]
fn extreme_addresses_round_trip() {
    let hdr = HeaderSeq {
        src: Address {
            network_id: 0xffff,
            node_id: 0xff,
            port_id: 0xfe,
        },
        dst: Address {
            network_id: 0,
            node_id: 0,
            port_id: 0,
        },
        any_all: None,
        seq_no: 0,
        kind: FrameKind::TopicMsg,
        ttl: 0,
    };
    let wire = encode_frame_ty(&hdr, &[0xAA]);
    let back = de_frame(&wire).expect("frame should parse");
    assert_eq!(back.hdr, hdr);
}

#[test]
fn encoded_header_is_bounded() {
    // the largest header: maximal varints plus a full appendix
    let hdr = HeaderSeq {
        src: Address {
            network_id: 0xffff,
            node_id: 0xff,
            port_id: 0xff,
        },
        dst: Address {
            network_id: 0xffff,
            node_id: 0xff,
            port_id: 0xff,
        },
        any_all: Some(AnyAllAppendix {
            key: Key([0xff; 8]),
            nash: Some(NameHash(u64::MAX)),
        }),
        seq_no: 0xffff,
        kind: FrameKind::ProtocolError,
        ttl: 0xff,
    };
    let wire = encode_frame_hdr(&hdr);
    assert!(wire.len() <= MAX_HDR_ENCODED_SIZE);
}

#[test]
fn truncated_frames_do_not_parse() {
    let hdr = sample_hdr(Some(AnyAllAppendix {
        key: Key(*b"SOMEKEY!"),
        nash: None,
    }));
    let wire = encode_frame_hdr(&hdr);
    // every strict prefix of the bare header fails to parse
    for cut in 0..wire.len() {
        assert!(de_frame(&wire[..cut]).is_none(), "prefix {cut} parsed");
    }
}

#[test]
fn unknown_flags_are_refused() {
    let hdr = sample_hdr(None);
    let mut wire = encode_frame_ty(&hdr, &[1, 2, 3]);
    wire[0] = 0x04;
    assert!(de_frame(&wire).is_none());
}

#[test]
fn name_hash_is_fnv1a() {
    // the FNV-1a test vector: hashing "a" from the 64-bit offset basis
    let h = NameHash::new(b"a");
    assert_eq!(h.0, 0xaf63dc4c8601ec8c);
    let empty = NameHash::new(b"");
    assert_eq!(empty.0, 0xcbf29ce484222325);
}
