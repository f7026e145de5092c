//! Well-known services and the small helper structures around the stack.

use ergot::addr::{FrameKind, Key, NameHash};
use ergot::graph_map::{GraphMap, GraphNode};
use ergot::icd::{Checksum, ChecksumCapabilities, HardwareAddress, LinkState};
use ergot::interface_manager::Null;
use ergot::net_stack::NetStack;
use ergot::socket::{Attributes, SocketHeader, SocketStorage, SocketVTable};
use ergot::well_known::{query_sockets, NameRequirement, SocketQuery};

const TY_U32: u64 = 32;

fn attach_named(stack: &mut NetStack<Null>, key: [u8; 8], nash: Option<NameHash>, kind: FrameKind) -> u8 {
    let h = stack.attach_socket(
        SocketHeader {
            port: 0,
            attrs: Attributes {
                kind,
                discoverable: true,
            },
            key: Key(key),
            nash,
            vtable: SocketVTable::owned(),
        },
        TY_U32,
        SocketStorage::single(),
    );
    h.port
}

#[test]
fn socket_query_filters_by_key_name_and_kind() {
    let mut stack: NetStack<Null> = NetStack::new_with_profile(Null);
    let p1 = attach_named(&mut stack, *b"KEYAAAAA", None, FrameKind::EndpointReq);
    let p2 = attach_named(
        &mut stack,
        *b"KEYAAAAA",
        Some(NameHash(5)),
        FrameKind::EndpointReq,
    );
    let _p3 = attach_named(&mut stack, *b"KEYBBBBB", None, FrameKind::EndpointReq);
    let _p4 = attach_named(&mut stack, *b"KEYAAAAA", None, FrameKind::TopicMsg);

    // any name, the right key and kind: both KEYAAAAA request sockets
    let q = SocketQuery {
        key: *b"KEYAAAAA",
        nash_req: NameRequirement::Any,
        frame_kind: FrameKind::EndpointReq,
        broadcast: false,
    };
    let rs = query_sockets(&stack.sockets, &q);
    let mut ports: Vec<u8> = rs.iter().map(|r| r.port).collect();
    ports.sort();
    assert_eq!(ports, vec![p1.min(p2), p1.max(p2)]);

    // a specific name: only the named one
    let q2 = SocketQuery {
        nash_req: NameRequirement::Specific(NameHash(5)),
        ..q
    };
    let rs2 = query_sockets(&stack.sockets, &q2);
    assert_eq!(rs2.len(), 1);
    assert_eq!(rs2[0].port, p2);
    assert_eq!(rs2[0].name, Some(NameHash(5)));

    // unnamed only
    let q3 = SocketQuery {
        nash_req: NameRequirement::Unnamed,
        ..q
    };
    let rs3 = query_sockets(&stack.sockets, &q3);
    assert_eq!(rs3.len(), 1);
    assert_eq!(rs3[0].port, p1);
}

struct Counter {
    seen: usize,
}

impl GraphNode<usize> for Counter {
    fn edge_added(&mut self, other: &Self, other_id: usize) -> usize {
        self.seen += 1;
        other_id + other.seen
    }
}

#[test]
fn graph_map_add_and_remove_edges() {
    let mut g: GraphMap<usize, Counter> = GraphMap::new();
    let a = g.add_node(Counter { seen: 0 });
    let b = g.add_node(Counter { seen: 0 });
    assert_eq!((a, b), (0, 1));
    assert!(g.add_edge(a, b));
    assert_eq!(g.edges.len(), 1);
    // an edge to an absent node does nothing
    assert!(!g.add_edge(a, 99));
    assert_eq!(g.edges.len(), 1);
    g.remove_edge(b, a);
    assert_eq!(g.edges.len(), 0);
}

#[test]
fn icd_defaults_and_shapes() {
    let caps = ChecksumCapabilities::all_both();
    assert_eq!(caps.tcp, Checksum::Both);
    assert_eq!(Checksum::both(), Checksum::Both);
    assert_ne!(LinkState::Down, LinkState::Up);
    let eth = HardwareAddress::Ethernet([1, 2, 3, 4, 5, 6]);
    assert_ne!(eth, HardwareAddress::Ip);
}

#[test]
fn fmt_records_keep_their_text() {
    let tx = ergot::fmtlog::ErgotFmtTx {
        level: ergot::fmtlog::Level::Warn,
        inner: String::from("hello 10, world"),
    };
    let rx = tx.to_rx();
    assert_eq!(rx.inner, "hello 10, world");
    let owned = rx.to_owned_rx();
    assert_eq!(owned.inner, "hello 10, world");
    assert_eq!(owned.level, ergot::fmtlog::Level::Warn);
}
