//! The interface-control document of a proxied network driver: the frames
//! and metadata a driver endpoint exchanges with the node that fronts for
//! it. These are plain values; the hardware they describe lives elsewhere.

use vstd::prelude::*;

verus! {

/// The driver's frame fifo had no room.
#[derive(Clone, Copy, Debug, PartialEq, Eq, Structural)]
pub struct FifoFull;

/// One link-layer frame carried through the driver endpoints.
#[derive(Debug, PartialEq, Eq)]
pub struct Frame {
    pub data: Vec<u8>,
}

/// Everything a driver reports about itself at once.
#[derive(Debug, Clone, Copy, PartialEq, Eq)]
pub struct AllDriverMetadata {
    pub capabilities: Capabilities,
    pub link_state: LinkState,
    pub hw_addr: HardwareAddress,
}

/// A description of device capabilities.
#[derive(Debug, Clone, Copy, PartialEq, Eq, Structural)]
pub struct Capabilities {
    /// The largest frame the device can move, in octets.
    pub max_transmission_unit: u32,
    /// The largest burst the device can move, in units of the MTU; `None`
    /// when nothing fixes it.
    pub max_burst_size: Option<u32>,
    /// What the device does about checksums.
    pub checksum: ChecksumCapabilities,
}

/// Checksum behaviour for every supported protocol.
#[derive(Debug, Clone, Copy, PartialEq, Eq, Structural)]
pub struct ChecksumCapabilities {
    pub ipv4: Checksum,
    pub udp: Checksum,
    pub tcp: Checksum,
    pub icmpv4: Checksum,
    pub icmpv6: Checksum,
}

/// Checksum behaviour for one protocol.
#[derive(Debug, Clone, Copy, PartialEq, Eq, Structural)]
pub enum Checksum {
    /// Verify on receive and compute on send.
    Both,
    /// Verify on receive only.
    Rx,
    /// Compute on send only.
    Tx,
    /// Leave checksums alone entirely.
    Disabled,
}

/// The link state of a network device.
#[derive(Clone, Copy, Debug, PartialEq, Eq, Structural)]
pub enum LinkState {
    Down,
    Up,
}

/// A hardware address, in the shapes the proxied drivers use.
#[derive(Debug, Clone, Copy, PartialEq, Eq)]
pub enum HardwareAddress {
    /// A six-octet Ethernet address.
    Ethernet([u8; 6]),
    /// An eight-octet IEEE 802.15.4 address.
    Ieee802154([u8; 8]),
    /// An IP-native driver with no hardware address at all.
    Ip,
}

/// The driver reported an address shape this document does not know.
#[derive(Debug, Clone, Copy, PartialEq, Eq, Structural)]
pub struct NonExhaustiveError;

impl Checksum {
    /// The do-everything default.
    pub fn both() -> (r: Checksum)
        ensures
            r == Checksum::Both,
    {
        Checksum::Both
    }
}

impl ChecksumCapabilities {
    /// Verify and compute everywhere, the conservative default.
    pub fn all_both() -> (r: ChecksumCapabilities)
        ensures
            r == (ChecksumCapabilities {
                ipv4: Checksum::Both,
                udp: Checksum::Both,
                tcp: Checksum::Both,
                icmpv4: Checksum::Both,
                icmpv6: Checksum::Both,
            }),
    {
        ChecksumCapabilities {
            ipv4: Checksum::Both,
            udp: Checksum::Both,
            tcp: Checksum::Both,
            icmpv4: Checksum::Both,
            icmpv6: Checksum::Both,
        }
    }
}

} // verus!
