//! The decoder: parse raw bytes into the structured `Packet`, layer by
//! layer, against specification-level parsers on byte sequences.
//!
//! A layer is rejected with its own error kind when its slice is shorter
//! than the header, or when a length field points outside the slice. The
//! IPv4 header checksum is captured but not validated, and IPv6 extension
//! headers are not processed: the next-header field is taken verbatim.

use vstd::prelude::*;

use crate::bytes::{be128, be16, be32, be48, read_be128, read_be16, read_be32, read_be48};
use crate::packet::{
    IpMetadata,
    IpVersionMetadata,
    Packet,
    PacketModel,
    TcpFlags,
    TcpMetadata,
    Timestamp,
    TransportMetadata,
    TransportMetadataExtra,
    UdpMetadata,
};

verus! {

/// Ethertype of IPv4.
pub const ETHERTYPE_IPV4: u16 = 0x0800;

/// Ethertype of IPv6.
pub const ETHERTYPE_IPV6: u16 = 0x86DD;

/// Ethertype of ARP.
pub const ETHERTYPE_ARP: u16 = 0x0806;

/// IP protocol number of ICMP.
pub const IP_PROTO_ICMP: u8 = 1;

/// IP protocol number of TCP.
pub const IP_PROTO_TCP: u8 = 6;

/// IP protocol number of UDP.
pub const IP_PROTO_UDP: u8 = 17;

/// A typed parse error, one kind per layer.
#[derive(Clone, Copy, Debug, PartialEq, Eq, Structural)]
pub enum ParsePacketError {
    /// The bytes do not hold a complete Ethernet frame.
    Ethernet,
    /// The bytes do not hold a complete IPv4 packet.
    IPv4,
    /// The bytes do not hold a complete IPv6 packet.
    IPv6,
    /// The internet-layer protocol is neither IPv4 nor IPv6.
    UnknownInternet(u16),
    /// The bytes do not hold a complete TCP segment.
    Tcp,
    /// The bytes do not hold a complete UDP datagram.
    Udp,
    /// The transport-layer protocol is neither TCP nor UDP.
    UnknownTransport(u8),
}

/// The three fields of an Ethernet frame header.
#[derive(Clone, Copy, Debug, PartialEq, Eq, Structural)]
pub struct EthernetHeader {
    pub dst: u64,
    pub src: u64,
    pub ethertype: u16,
}

/// What parsing an Ethernet frame yields: the header fields, and the frame
/// payload starting at byte fourteen.
pub open spec fn spec_parse_ethernet(s: Seq<u8>) -> Result<(EthernetHeader, Seq<u8>), ParsePacketError> {
    if s.len() < 14 {
        Err(ParsePacketError::Ethernet)
    } else {
        let header = EthernetHeader {
            dst: be48(s, 0) as u64,
            src: be48(s, 6) as u64,
            ethertype: be16(s, 12) as u16,
        };
        Ok((header, s.skip(14)))
    }
}

/// Parse an Ethernet frame header.
pub fn parse_ethernet<'a>(data: &'a [u8]) -> (r: Result<(EthernetHeader, &'a [u8]), ParsePacketError>)
    ensures
        match r {
            Ok(pair) => spec_parse_ethernet(data@) == Ok::<_, ParsePacketError>(
                (pair.0, pair.1@),
            ),
            Err(e) => spec_parse_ethernet(data@) == Err::<(EthernetHeader, Seq<u8>), _>(e),
        },
{
    let len = data.len();
    if len < 14 {
        return Err(ParsePacketError::Ethernet);
    }
    let header = EthernetHeader {
        dst: read_be48(data, 0),
        src: read_be48(data, 6),
        ethertype: read_be16(data, 12),
    };
    let payload = vstd::slice::slice_subrange(data, 14, len);
    proof {
        assert(data@.subrange(14, data@.len() as int) =~= data@.skip(14));
    }
    Ok((header, payload))
}

/// What parsing an IPv4 packet yields: the metadata, and the payload slice
/// running from the end of the header to the total length.
pub open spec fn spec_parse_ipv4(s: Seq<u8>) -> Result<(IpMetadata, Seq<u8>), ParsePacketError> {
    if s.len() < 20 {
        Err(ParsePacketError::IPv4)
    } else {
        let header_len = (s[0] % 0x10) * 4;
        let total_len = be16(s, 2);
        if header_len < 20 || total_len < header_len || s.len() < total_len {
            Err(ParsePacketError::IPv4)
        } else {
            let flags = be16(s, 6);
            let meta = IpMetadata {
                header_len: header_len as usize,
                total_len: total_len as usize,
                hop_limit: s[8],
                next_header: s[9],
                version: IpVersionMetadata::V4 {
                    src: be32(s, 12) as u32,
                    dst: be32(s, 16) as u32,
                    dscp: (s[1] / 4) as u8,
                    ecn: (s[1] % 4) as u8,
                    ident: be16(s, 4) as u16,
                    dont_frag: (flags / 0x4000) % 2 == 1,
                    more_frags: (flags / 0x2000) % 2 == 1,
                    frag_offset: ((flags % 0x2000) * 8) as u16,
                    checksum: be16(s, 10) as u16,
                },
            };
            Ok((meta, s.subrange(header_len, total_len)))
        }
    }
}

/// Parse an IPv4 packet.
pub fn parse_ipv4<'a>(data: &'a [u8]) -> (r: Result<(IpMetadata, &'a [u8]), ParsePacketError>)
    ensures
        match r {
            Ok(pair) => spec_parse_ipv4(data@) == Ok::<_, ParsePacketError>((pair.0, pair.1@)),
            Err(e) => spec_parse_ipv4(data@) == Err::<(IpMetadata, Seq<u8>), _>(e),
        },
{
    let len = data.len();
    if len < 20 {
        return Err(ParsePacketError::IPv4);
    }
    let header_len: usize = ((data[0] % 0x10) as usize) * 4;
    let total_len: usize = read_be16(data, 2) as usize;
    if header_len < 20 || total_len < header_len || len < total_len {
        return Err(ParsePacketError::IPv4);
    }
    let flags = read_be16(data, 6);
    let meta = IpMetadata {
        header_len,
        total_len,
        hop_limit: data[8],
        next_header: data[9],
        version: IpVersionMetadata::V4 {
            src: read_be32(data, 12),
            dst: read_be32(data, 16),
            dscp: data[1] / 4,
            ecn: data[1] % 4,
            ident: read_be16(data, 4),
            dont_frag: (flags / 0x4000) % 2 == 1,
            more_frags: (flags / 0x2000) % 2 == 1,
            frag_offset: (flags % 0x2000) * 8,
            checksum: read_be16(data, 10),
        },
    };
    let payload = vstd::slice::slice_subrange(data, header_len, total_len);
    Ok((meta, payload))
}

/// What parsing an IPv6 packet yields: the metadata, and the payload slice
/// of the declared payload length after the fixed forty-byte header.
pub open spec fn spec_parse_ipv6(s: Seq<u8>) -> Result<(IpMetadata, Seq<u8>), ParsePacketError> {
    if s.len() < 40 {
        Err(ParsePacketError::IPv6)
    } else {
        let payload_len = be16(s, 4);
        if s.len() < 40 + payload_len {
            Err(ParsePacketError::IPv6)
        } else {
            let meta = IpMetadata {
                header_len: 40,
                total_len: (40 + payload_len) as usize,
                hop_limit: s[7],
                next_header: s[6],
                version: IpVersionMetadata::V6 {
                    src: be128(s, 8) as u128,
                    dst: be128(s, 24) as u128,
                    traffic_class: ((s[0] % 0x10) * 0x10 + s[1] / 0x10) as u8,
                    flow_label: ((s[1] % 0x10) * 0x10000 + be16(s, 2)) as u32,
                    payload_len: payload_len as u16,
                },
            };
            Ok((meta, s.subrange(40, 40 + payload_len)))
        }
    }
}

/// Parse an IPv6 packet.
pub fn parse_ipv6<'a>(data: &'a [u8]) -> (r: Result<(IpMetadata, &'a [u8]), ParsePacketError>)
    ensures
        match r {
            Ok(pair) => spec_parse_ipv6(data@) == Ok::<_, ParsePacketError>((pair.0, pair.1@)),
            Err(e) => spec_parse_ipv6(data@) == Err::<(IpMetadata, Seq<u8>), _>(e),
        },
{
    let len = data.len();
    if len < 40 {
        return Err(ParsePacketError::IPv6);
    }
    let payload_len: usize = read_be16(data, 4) as usize;
    if len < 40 + payload_len {
        return Err(ParsePacketError::IPv6);
    }
    let meta = IpMetadata {
        header_len: 40,
        total_len: 40 + payload_len,
        hop_limit: data[7],
        next_header: data[6],
        version: IpVersionMetadata::V6 {
            src: read_be128(data, 8),
            dst: read_be128(data, 24),
            traffic_class: (data[0] % 0x10) * 0x10 + data[1] / 0x10,
            flow_label: ((data[1] % 0x10) as u32) * 0x10000 + (read_be16(data, 2) as u32),
            payload_len: payload_len as u16,
        },
    };
    let payload = vstd::slice::slice_subrange(data, 40, 40 + payload_len);
    Ok((meta, payload))
}

/// The nine flag bits held in the last two bytes of the fixed TCP header
/// words at offset twelve.
pub open spec fn spec_tcp_flags(s: Seq<u8>) -> TcpFlags {
    TcpFlags {
        fin: s[13] % 2 == 1,
        syn: (s[13] / 2) % 2 == 1,
        rst: (s[13] / 4) % 2 == 1,
        psh: (s[13] / 8) % 2 == 1,
        ack: (s[13] / 16) % 2 == 1,
        urg: (s[13] / 32) % 2 == 1,
        ece: (s[13] / 64) % 2 == 1,
        cwr: (s[13] / 128) % 2 == 1,
        ns: s[12] % 2 == 1,
    }
}

/// What parsing a TCP segment yields: the transport metadata, and the
/// payload slice after the declared header length.
pub open spec fn spec_parse_tcp(s: Seq<u8>) -> Result<(TransportMetadata, Seq<u8>), ParsePacketError> {
    if s.len() < 20 {
        Err(ParsePacketError::Tcp)
    } else {
        let header_len = (s[12] / 0x10) * 4;
        if header_len < 20 || s.len() < header_len {
            Err(ParsePacketError::Tcp)
        } else {
            let meta = TransportMetadata {
                src: be16(s, 0) as u16,
                dst: be16(s, 2) as u16,
                extra: TransportMetadataExtra::Tcp(
                    TcpMetadata {
                        seq: be32(s, 4) as u32,
                        ack: be32(s, 8) as u32,
                        header_len: header_len as u8,
                        urgent_at: be16(s, 18) as u16,
                        window_len: be16(s, 14) as u16,
                        flags: spec_tcp_flags(s),
                    },
                ),
            };
            Ok((meta, s.skip(header_len as int)))
        }
    }
}

/// Parse a TCP segment.
pub fn parse_tcp<'a>(data: &'a [u8]) -> (r: Result<(TransportMetadata, &'a [u8]), ParsePacketError>)
    ensures
        match r {
            Ok(pair) => spec_parse_tcp(data@) == Ok::<_, ParsePacketError>((pair.0, pair.1@)),
            Err(e) => spec_parse_tcp(data@) == Err::<(TransportMetadata, Seq<u8>), _>(e),
        },
{
    let len = data.len();
    if len < 20 {
        return Err(ParsePacketError::Tcp);
    }
    let header_len: usize = ((data[12] / 0x10) as usize) * 4;
    if header_len < 20 || len < header_len {
        return Err(ParsePacketError::Tcp);
    }
    let meta = TransportMetadata {
        src: read_be16(data, 0),
        dst: read_be16(data, 2),
        extra: TransportMetadataExtra::Tcp(
            TcpMetadata {
                seq: read_be32(data, 4),
                ack: read_be32(data, 8),
                header_len: header_len as u8,
                urgent_at: read_be16(data, 18),
                window_len: read_be16(data, 14),
                flags: TcpFlags {
                    fin: data[13] % 2 == 1,
                    syn: (data[13] / 2) % 2 == 1,
                    rst: (data[13] / 4) % 2 == 1,
                    psh: (data[13] / 8) % 2 == 1,
                    ack: (data[13] / 16) % 2 == 1,
                    urg: (data[13] / 32) % 2 == 1,
                    ece: (data[13] / 64) % 2 == 1,
                    cwr: (data[13] / 128) % 2 == 1,
                    ns: data[12] % 2 == 1,
                },
            },
        ),
    };
    let payload = vstd::slice::slice_subrange(data, header_len, len);
    proof {
        assert(data@.subrange(header_len as int, data@.len() as int) =~= data@.skip(
            header_len as int,
        ));
    }
    Ok((meta, payload))
}

/// What parsing a UDP datagram yields: the transport metadata, and the
/// payload slice running to the declared datagram length.
pub open spec fn spec_parse_udp(s: Seq<u8>) -> Result<(TransportMetadata, Seq<u8>), ParsePacketError> {
    if s.len() < 8 {
        Err(ParsePacketError::Udp)
    } else {
        let length = be16(s, 4);
        if length < 8 || s.len() < length {
            Err(ParsePacketError::Udp)
        } else {
            let meta = TransportMetadata {
                src: be16(s, 0) as u16,
                dst: be16(s, 2) as u16,
                extra: TransportMetadataExtra::Udp(
                    UdpMetadata { length: length as u16, checksum: be16(s, 6) as u16 },
                ),
            };
            Ok((meta, s.subrange(8, length)))
        }
    }
}

/// Parse a UDP datagram.
pub fn parse_udp<'a>(data: &'a [u8]) -> (r: Result<(TransportMetadata, &'a [u8]), ParsePacketError>)
    ensures
        match r {
            Ok(pair) => spec_parse_udp(data@) == Ok::<_, ParsePacketError>((pair.0, pair.1@)),
            Err(e) => spec_parse_udp(data@) == Err::<(TransportMetadata, Seq<u8>), _>(e),
        },
{
    let len = data.len();
    if len < 8 {
        return Err(ParsePacketError::Udp);
    }
    let length: usize = read_be16(data, 4) as usize;
    if length < 8 || len < length {
        return Err(ParsePacketError::Udp);
    }
    let meta = TransportMetadata {
        src: read_be16(data, 0),
        dst: read_be16(data, 2),
        extra: TransportMetadataExtra::Udp(
            UdpMetadata { length: length as u16, checksum: read_be16(data, 6) },
        ),
    };
    let payload = vstd::slice::slice_subrange(data, 8, length);
    Ok((meta, payload))
}

/// What decoding one packet from internet-layer bytes yields: the IP layer
/// chosen by the ethertype, then the transport layer chosen by the IP
/// next-header field, with the transport payload kept as an owned copy and
/// the direction tag still unknown.
pub open spec fn spec_parse_packet(
    timestamp: Option<Timestamp>,
    s: Seq<u8>,
    ethertype: u16,
) -> Result<PacketModel, ParsePacketError> {
    let ip_result = if ethertype == ETHERTYPE_IPV4 {
        spec_parse_ipv4(s)
    } else if ethertype == ETHERTYPE_IPV6 {
        spec_parse_ipv6(s)
    } else {
        Err(ParsePacketError::UnknownInternet(ethertype))
    };
    match ip_result {
        Err(e) => Err(e),
        Ok((ip, ip_payload)) => {
            if ip.next_header == IP_PROTO_TCP {
                match spec_parse_tcp(ip_payload) {
                    Err(e) => Err(e),
                    Ok((transport, payload)) => Ok(
                        PacketModel { timestamp, ip, direction: 0, transport, payload },
                    ),
                }
            } else if ip.next_header == IP_PROTO_UDP {
                match spec_parse_udp(ip_payload) {
                    Err(e) => Err(e),
                    Ok((transport, payload)) => Ok(
                        PacketModel { timestamp, ip, direction: 0, transport, payload },
                    ),
                }
            } else {
                Err(ParsePacketError::UnknownTransport(ip.next_header))
            }
        },
    }
}

impl Packet {
    /// Decode one packet from internet-layer bytes, under the given
    /// ethertype hint and optional capture timestamp.
    pub fn from_ts_bytes(timestamp: Option<Timestamp>, data: &[u8], ethertype: u16) -> (r: Result<
        Packet,
        ParsePacketError,
    >)
        ensures
            match r {
                Ok(p) => spec_parse_packet(timestamp, data@, ethertype) == Ok::<
                    _,
                    ParsePacketError,
                >(p@),
                Err(e) => spec_parse_packet(timestamp, data@, ethertype) == Err::<PacketModel, _>(
                    e,
                ),
            },
    {
        let ip_result = if ethertype == ETHERTYPE_IPV4 {
            parse_ipv4(data)
        } else if ethertype == ETHERTYPE_IPV6 {
            parse_ipv6(data)
        } else {
            Err(ParsePacketError::UnknownInternet(ethertype))
        };
        match ip_result {
            Err(e) => Err(e),
            Ok((ip, ip_payload)) => {
                if ip.next_header == IP_PROTO_TCP {
                    match parse_tcp(ip_payload) {
                        Err(e) => Err(e),
                        Ok((transport, payload)) => Ok(
                            Packet {
                                timestamp,
                                ip,
                                direction: 0,
                                transport,
                                payload: vstd::slice::slice_to_vec(payload),
                            },
                        ),
                    }
                } else if ip.next_header == IP_PROTO_UDP {
                    match parse_udp(ip_payload) {
                        Err(e) => Err(e),
                        Ok((transport, payload)) => Ok(
                            Packet {
                                timestamp,
                                ip,
                                direction: 0,
                                transport,
                                payload: vstd::slice::slice_to_vec(payload),
                            },
                        ),
                    }
                } else {
                    Err(ParsePacketError::UnknownTransport(ip.next_header))
                }
            },
        }
    }
}

} // verus!
