//! The packet data model: an owned snapshot of one decoded frame, from the
//! internet layer down to the transport payload, together with the
//! direction-sensitive connection identifier derived from it.

use vstd::prelude::*;

verus! {

/// An internet-layer address, held as the big-endian integer value of its
/// bytes so that identifiers can be ordered and compared as plain numbers.
#[derive(Clone, Copy, Debug, PartialEq, Eq, Structural)]
pub enum IpAddress {
    V4(u32),
    V6(u128),
}

impl IpAddress {
    /// Total order on addresses: every v4 address sorts before every v6
    /// address, and addresses of one version sort by their numeric value.
    pub open spec fn spec_le(self, other: IpAddress) -> bool {
        match (self, other) {
            (IpAddress::V4(a), IpAddress::V4(b)) => a <= b,
            (IpAddress::V4(_), IpAddress::V6(_)) => true,
            (IpAddress::V6(_), IpAddress::V4(_)) => false,
            (IpAddress::V6(a), IpAddress::V6(b)) => a <= b,
        }
    }

    /// Decide the address order of `spec_le`.
    pub fn le(&self, other: &IpAddress) -> (r: bool)
        ensures
            r == self.spec_le(*other),
    {
        match (self, other) {
            (IpAddress::V4(a), IpAddress::V4(b)) => *a <= *b,
            (IpAddress::V4(_), IpAddress::V6(_)) => true,
            (IpAddress::V6(_), IpAddress::V4(_)) => false,
            (IpAddress::V6(a), IpAddress::V6(b)) => *a <= *b,
        }
    }
}

/// A capture timestamp: whole seconds and the fractional part in microseconds.
#[derive(Clone, Copy, Debug, PartialEq, Eq, Structural)]
pub struct Timestamp {
    pub secs: u64,
    pub micros: u32,
}

/// The nine TCP flag bits.
#[derive(Clone, Copy, Debug, PartialEq, Eq, Structural)]
pub struct TcpFlags {
    pub fin: bool,
    pub syn: bool,
    pub rst: bool,
    pub psh: bool,
    pub ack: bool,
    pub urg: bool,
    pub ece: bool,
    pub cwr: bool,
    pub ns: bool,
}

/// TCP-specific metadata of one packet.
#[derive(Clone, Copy, Debug, PartialEq, Eq, Structural)]
pub struct TcpMetadata {
    pub seq: u32,
    pub ack: u32,
    pub header_len: u8,
    pub urgent_at: u16,
    pub window_len: u16,
    pub flags: TcpFlags,
}

/// UDP-specific metadata of one packet.
#[derive(Clone, Copy, Debug, PartialEq, Eq, Structural)]
pub struct UdpMetadata {
    pub length: u16,
    pub checksum: u16,
}

/// The transport protocol of a flow.
#[derive(Clone, Copy, Debug, PartialEq, Eq, Structural)]
pub enum TransportProtocol {
    Tcp,
    Udp,
}

/// Protocol-specific transport metadata.
#[derive(Clone, Copy, Debug, PartialEq, Eq, Structural)]
pub enum TransportMetadataExtra {
    Tcp(TcpMetadata),
    Udp(UdpMetadata),
}

impl TransportMetadataExtra {
    pub open spec fn spec_protocol(self) -> TransportProtocol {
        match self {
            TransportMetadataExtra::Tcp(_) => TransportProtocol::Tcp,
            TransportMetadataExtra::Udp(_) => TransportProtocol::Udp,
        }
    }

    pub fn protocol(&self) -> (r: TransportProtocol)
        ensures
            r == self.spec_protocol(),
    {
        match self {
            TransportMetadataExtra::Tcp(_) => TransportProtocol::Tcp,
            TransportMetadataExtra::Udp(_) => TransportProtocol::Udp,
        }
    }
}

/// Transport-layer metadata: the two ports and the protocol-specific part.
#[derive(Clone, Copy, Debug, PartialEq, Eq, Structural)]
pub struct TransportMetadata {
    pub src: u16,
    pub dst: u16,
    pub extra: TransportMetadataExtra,
}

/// Fields specific to the IP version of a packet.
#[derive(Clone, Copy, Debug, PartialEq, Eq, Structural)]
pub enum IpVersionMetadata {
    V4 {
        src: u32,
        dst: u32,
        dscp: u8,
        ecn: u8,
        ident: u16,
        dont_frag: bool,
        more_frags: bool,
        frag_offset: u16,
        checksum: u16,
    },
    V6 {
        src: u128,
        dst: u128,
        traffic_class: u8,
        flow_label: u32,
        payload_len: u16,
    },
}

/// Internet-layer metadata common to both IP versions.
#[derive(Clone, Copy, Debug, PartialEq, Eq, Structural)]
pub struct IpMetadata {
    /// Header length in bytes.
    pub header_len: usize,
    /// Total length of the IP packet in bytes.
    pub total_len: usize,
    /// TTL for v4, hop limit for v6.
    pub hop_limit: u8,
    /// Protocol number of the traffic in the payload, taken verbatim.
    pub next_header: u8,
    /// Fields specific to the IP version.
    pub version: IpVersionMetadata,
}

impl IpMetadata {
    pub open spec fn spec_src(self) -> IpAddress {
        match self.version {
            IpVersionMetadata::V4 { src, .. } => IpAddress::V4(src),
            IpVersionMetadata::V6 { src, .. } => IpAddress::V6(src),
        }
    }

    pub open spec fn spec_dst(self) -> IpAddress {
        match self.version {
            IpVersionMetadata::V4 { dst, .. } => IpAddress::V4(dst),
            IpVersionMetadata::V6 { dst, .. } => IpAddress::V6(dst),
        }
    }

    pub fn src(&self) -> (r: IpAddress)
        ensures
            r == self.spec_src(),
    {
        match self.version {
            IpVersionMetadata::V4 { src, .. } => IpAddress::V4(src),
            IpVersionMetadata::V6 { src, .. } => IpAddress::V6(src),
        }
    }

    pub fn dst(&self) -> (r: IpAddress)
        ensures
            r == self.spec_dst(),
    {
        match self.version {
            IpVersionMetadata::V4 { dst, .. } => IpAddress::V4(dst),
            IpVersionMetadata::V6 { dst, .. } => IpAddress::V6(dst),
        }
    }
}

/// The mathematical model of a packet: what `Packet` holds, with the payload
/// as a sequence of bytes.
pub struct PacketModel {
    pub timestamp: Option<Timestamp>,
    pub ip: IpMetadata,
    pub direction: i8,
    pub transport: TransportMetadata,
    pub payload: Seq<u8>,
}

/// An owned snapshot of one decoded packet.
#[derive(Clone, Debug)]
pub struct Packet {
    /// Timestamp of the packet, where the capture had one.
    pub timestamp: Option<Timestamp>,
    /// Internet-layer metadata.
    pub ip: IpMetadata,
    /// Direction tag: 1 for client to wan, -1 for wan to client, 0 unknown.
    pub direction: i8,
    /// Transport-layer metadata.
    pub transport: TransportMetadata,
    /// Transport-layer payload, an owned copy.
    pub payload: Vec<u8>,
}

impl View for Packet {
    type V = PacketModel;

    open spec fn view(&self) -> PacketModel {
        PacketModel {
            timestamp: self.timestamp,
            ip: self.ip,
            direction: self.direction,
            transport: self.transport,
            payload: self.payload@,
        }
    }
}

impl Packet {
    /// The direction-sensitive identifier of the packet's connection.
    pub open spec fn spec_connection_identifier(self) -> ConnectionIdentifier {
        ConnectionIdentifier {
            src_ip: self.ip.spec_src(),
            dst_ip: self.ip.spec_dst(),
            transport_proto: self.transport.extra.spec_protocol(),
            src_port: self.transport.src,
            dst_port: self.transport.dst,
        }
    }

    pub fn connection_identifier(&self) -> (r: ConnectionIdentifier)
        ensures
            r == self.spec_connection_identifier(),
    {
        ConnectionIdentifier {
            src_ip: self.ip.src(),
            dst_ip: self.ip.dst(),
            transport_proto: self.transport.extra.protocol(),
            src_port: self.transport.src,
            dst_port: self.transport.dst,
        }
    }

    pub fn transport_proto(&self) -> (r: TransportProtocol)
        ensures
            r == self.transport.extra.spec_protocol(),
    {
        self.transport.extra.protocol()
    }

    /// Length of the transport payload.
    pub fn payload_len(&self) -> (r: usize)
        ensures
            r == self@.payload.len(),
    {
        self.payload.len()
    }
}

/// A source and destination address of one IP version.
#[derive(Clone, Copy, Debug, PartialEq, Eq, Structural)]
pub enum IpPair {
    V4 { src: u32, dst: u32 },
    V6 { src: u128, dst: u128 },
}

impl IpPair {
    pub open spec fn spec_src(self) -> IpAddress {
        match self {
            IpPair::V4 { src, .. } => IpAddress::V4(src),
            IpPair::V6 { src, .. } => IpAddress::V6(src),
        }
    }

    pub open spec fn spec_dst(self) -> IpAddress {
        match self {
            IpPair::V4 { dst, .. } => IpAddress::V4(dst),
            IpPair::V6 { dst, .. } => IpAddress::V6(dst),
        }
    }

    pub fn src(&self) -> (r: IpAddress)
        ensures
            r == self.spec_src(),
    {
        match self {
            IpPair::V4 { src, .. } => IpAddress::V4(*src),
            IpPair::V6 { src, .. } => IpAddress::V6(*src),
        }
    }

    pub fn dst(&self) -> (r: IpAddress)
        ensures
            r == self.spec_dst(),
    {
        match self {
            IpPair::V4 { dst, .. } => IpAddress::V4(*dst),
            IpPair::V6 { dst, .. } => IpAddress::V6(*dst),
        }
    }

    /// The same pair with source and destination exchanged.
    pub open spec fn spec_swap(self) -> IpPair {
        match self {
            IpPair::V4 { src, dst } => IpPair::V4 { src: dst, dst: src },
            IpPair::V6 { src, dst } => IpPair::V6 { src: dst, dst: src },
        }
    }

    pub fn swap(&self) -> (r: IpPair)
        ensures
            r == self.spec_swap(),
    {
        match self {
            IpPair::V4 { src, dst } => IpPair::V4 { src: *dst, dst: *src },
            IpPair::V6 { src, dst } => IpPair::V6 { src: *dst, dst: *src },
        }
    }
}

/// The identifier a packet model derives: the address pair, the protocol
/// and the port pair, in carried order.
pub open spec fn spec_model_connection_identifier(p: PacketModel) -> ConnectionIdentifier {
    ConnectionIdentifier {
        src_ip: p.ip.spec_src(),
        dst_ip: p.ip.spec_dst(),
        transport_proto: p.transport.extra.spec_protocol(),
        src_port: p.transport.src,
        dst_port: p.transport.dst,
    }
}

/// Direction of a packet relative to the endpoint that initiated its flow.
#[derive(Clone, Copy, Debug, PartialEq, Eq, Structural)]
pub enum Direction {
    FromInitiator,
    ToInitiator,
}

/// A direction-sensitive identifier of a connection: the address pair, the
/// transport protocol and the port pair, in the order the packet carries
/// them.
#[derive(Clone, Copy, Debug, PartialEq, Eq, Structural)]
pub struct ConnectionIdentifier {
    pub src_ip: IpAddress,
    pub dst_ip: IpAddress,
    pub transport_proto: TransportProtocol,
    pub src_port: u16,
    pub dst_port: u16,
}

impl ConnectionIdentifier {
    pub fn new(src_ip: IpAddress, dst_ip: IpAddress, transport_metadata: &TransportMetadata) -> (r:
        ConnectionIdentifier)
        ensures
            r == (ConnectionIdentifier {
                src_ip,
                dst_ip,
                transport_proto: transport_metadata.extra.spec_protocol(),
                src_port: transport_metadata.src,
                dst_port: transport_metadata.dst,
            }),
    {
        ConnectionIdentifier {
            src_ip,
            dst_ip,
            transport_proto: transport_metadata.extra.protocol(),
            src_port: transport_metadata.src,
            dst_port: transport_metadata.dst,
        }
    }

    /// What `direction` returns: the packet runs with the initiator when
    /// its endpoints match the initiating identifier exactly, against it
    /// when the endpoints are swapped, and has no direction otherwise. The
    /// transport protocol does not take part in the comparison.
    pub open spec fn spec_direction(self, other: ConnectionIdentifier) -> Option<Direction> {
        if self.src_ip == other.src_ip && self.dst_ip == other.dst_ip && self.src_port
            == other.src_port && self.dst_port == other.dst_port {
            Some(Direction::FromInitiator)
        } else if self.src_ip == other.dst_ip && self.dst_ip == other.src_ip && self.src_port
            == other.dst_port && self.dst_port == other.src_port {
            Some(Direction::ToInitiator)
        } else {
            None
        }
    }

    /// Derive the direction of a packet with identifier `other` relative to
    /// a flow whose initiating identifier is `self`.
    pub fn direction(&self, other: &ConnectionIdentifier) -> (r: Option<Direction>)
        ensures
            r == self.spec_direction(*other),
    {
        if self.src_ip == other.src_ip && self.dst_ip == other.dst_ip && self.src_port
            == other.src_port && self.dst_port == other.dst_port {
            Some(Direction::FromInitiator)
        } else if self.src_ip == other.dst_ip && self.dst_ip == other.src_ip && self.src_port
            == other.dst_port && self.dst_port == other.src_port {
            Some(Direction::ToInitiator)
        } else {
            None
        }
    }

    /// The identifier with its endpoints arranged so that the lower port
    /// comes first.
    pub open spec fn spec_order_by_port(self) -> ConnectionIdentifier {
        if self.src_port < self.dst_port {
            self
        } else {
            ConnectionIdentifier {
                src_ip: self.dst_ip,
                dst_ip: self.src_ip,
                transport_proto: self.transport_proto,
                src_port: self.dst_port,
                dst_port: self.src_port,
            }
        }
    }

    pub fn order_by_port(&self) -> (r: ConnectionIdentifier)
        ensures
            r == self.spec_order_by_port(),
    {
        if self.src_port < self.dst_port {
            *self
        } else {
            ConnectionIdentifier {
                src_ip: self.dst_ip,
                dst_ip: self.src_ip,
                transport_proto: self.transport_proto,
                src_port: self.dst_port,
                dst_port: self.src_port,
            }
        }
    }
}

} // verus!
