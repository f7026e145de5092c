//! Ergot: an in-process network stack for small distributed systems.
//!
//! Independent software components address, discover and exchange typed
//! messages as if they shared a single address space. The unit of
//! communication is a socket bound to a port inside a node inside a network;
//! the unit of routing is a compact header + payload frame.

pub mod addr;
pub mod cobs_acc;
pub mod cobs_codec;
pub mod cobs_stream;
pub mod conformance;
pub mod edge;
pub mod fmtlog;
pub mod graph_map;
pub mod icd;
pub mod interface_manager;
pub mod net_stack;
pub mod router;
pub mod socket;
pub mod well_known;
pub mod wire_frames;

pub use addr::{Address, AnyAllAppendix, FrameKind, Header, HeaderSeq, Key, NameHash, ProtocolError,
    DEFAULT_TTL};
