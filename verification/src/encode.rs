//! The encoder: serialize a packet back to bytes, and craft the
//! bidirectional reset pair for a captured flow.
//!
//! Encoding emits canonical headers: twenty bytes for IPv4 and TCP, so
//! options and extension headers are not represented. Decoding an encoded
//! packet gives the packet back; that round trip is stated as
//! `lemma_parse_of_encode` and as the `ensures` of `encode_packet`.

use vstd::prelude::*;

use crate::bytes::{
    be128,
    be128_bytes,
    be16,
    be32,
    be16_pair,
    be32_quad,
    be48_bytes,
    checksum,
    internet_checksum,
    push_be128,
    push_be16,
    push_be32,
    push_be48,
};
use crate::decode::{
    spec_parse_ethernet,
    spec_parse_packet,
    EthernetHeader,
    ParsePacketError,
    ETHERTYPE_IPV4,
    ETHERTYPE_IPV6,
    IP_PROTO_TCP,
    IP_PROTO_UDP,
};
use crate::packet::{
    IpMetadata,
    IpPair,
    IpVersionMetadata,
    Packet,
    PacketModel,
    TcpFlags,
    TcpMetadata,
    TransportMetadata,
    TransportMetadataExtra,
    UdpMetadata,
};

verus! {

/// One for a set flag, zero for a clear one.
pub open spec fn flag_bit(b: bool) -> int {
    if b {
        1
    } else {
        0
    }
}

/// The TCP flag byte at offset thirteen: FIN in the lowest bit up to CWR in
/// the highest.
pub open spec fn tcp_flags_byte(f: TcpFlags) -> int {
    flag_bit(f.fin) + 2 * flag_bit(f.syn) + 4 * flag_bit(f.rst) + 8 * flag_bit(f.psh) + 16
        * flag_bit(f.ack) + 32 * flag_bit(f.urg) + 64 * flag_bit(f.ece) + 128 * flag_bit(f.cwr)
}

/// The IPv4 flags-and-fragment-offset word: the offset is carried in units
/// of eight bytes.
pub open spec fn v4_flags_word(dont_frag: bool, more_frags: bool, frag_offset: u16) -> int {
    flag_bit(dont_frag) * 0x4000 + flag_bit(more_frags) * 0x2000 + frag_offset / 8
}

/// The canonical twenty-byte TCP header with the given checksum field.
#[verifier::opaque]
pub open spec fn spec_encode_tcp(src: u16, dst: u16, m: TcpMetadata, ck: u16) -> Seq<u8> {
    be16_pair(src) + be16_pair(dst) + be32_quad(m.seq) + be32_quad(m.ack) + seq![
        (0x50 + flag_bit(m.flags.ns)) as u8,
        tcp_flags_byte(m.flags) as u8,
    ] + be16_pair(m.window_len) + be16_pair(ck) + be16_pair(m.urgent_at)
}

/// The eight-byte UDP header.
#[verifier::opaque]
pub open spec fn spec_encode_udp(src: u16, dst: u16, m: UdpMetadata) -> Seq<u8> {
    be16_pair(src) + be16_pair(dst) + be16_pair(m.length) + be16_pair(m.checksum)
}

/// The transport header bytes of a packet; `ck` is the TCP checksum field,
/// which the packet model does not carry.
pub open spec fn spec_encode_transport(t: TransportMetadata, ck: u16) -> Seq<u8> {
    match t.extra {
        TransportMetadataExtra::Tcp(m) => spec_encode_tcp(t.src, t.dst, m, ck),
        TransportMetadataExtra::Udp(m) => spec_encode_udp(t.src, t.dst, m),
    }
}

/// The IP header bytes of a packet: twenty bytes for v4, forty for v6.
#[verifier::opaque]
pub open spec fn spec_encode_ip(ip: IpMetadata) -> Seq<u8> {
    match ip.version {
        IpVersionMetadata::V4 {
            src,
            dst,
            dscp,
            ecn,
            ident,
            dont_frag,
            more_frags,
            frag_offset,
            checksum,
        } => seq![0x45u8, (dscp * 4 + ecn) as u8] + be16_pair(ip.total_len as u16) + be16_pair(
            ident,
        ) + be16_pair(v4_flags_word(dont_frag, more_frags, frag_offset) as u16) + seq![
            ip.hop_limit,
            ip.next_header,
        ] + be16_pair(checksum) + be32_quad(src) + be32_quad(dst),
        IpVersionMetadata::V6 { src, dst, traffic_class, flow_label, payload_len } => seq![
            (0x60 + traffic_class / 0x10) as u8,
            ((traffic_class % 0x10) * 0x10 + flow_label / 0x10000) as u8,
        ] + be16_pair((flow_label % 0x10000) as u16) + be16_pair(payload_len) + seq![
            ip.next_header,
            ip.hop_limit,
        ] + be128_bytes(src) + be128_bytes(dst),
    }
}

/// The IP header is twenty bytes for v4 and forty for v6.
pub proof fn lemma_encode_ip_len(ip: IpMetadata)
    ensures
        spec_encode_ip(ip).len() == match ip.version {
            IpVersionMetadata::V4 { .. } => 20int,
            IpVersionMetadata::V6 { .. } => 40int,
        },
{
    reveal(spec_encode_ip);
}

/// The transport header is twenty bytes for TCP and eight for UDP.
pub proof fn lemma_encode_transport_len(t: TransportMetadata, ck: u16)
    ensures
        spec_encode_transport(t, ck).len() == match t.extra {
            TransportMetadataExtra::Tcp(_) => 20int,
            TransportMetadataExtra::Udp(_) => 8int,
        },
{
    reveal(spec_encode_tcp);
    reveal(spec_encode_udp);
}

/// The whole internet-layer encoding of a packet.
pub open spec fn spec_encode_packet(p: PacketModel, ck: u16) -> Seq<u8> {
    spec_encode_ip(p.ip) + (spec_encode_transport(p.transport, ck) + p.payload)
}

/// The ethertype under which a packet decodes.
pub open spec fn spec_ethertype(p: PacketModel) -> u16 {
    match p.ip.version {
        IpVersionMetadata::V4 { .. } => ETHERTYPE_IPV4,
        IpVersionMetadata::V6 { .. } => ETHERTYPE_IPV6,
    }
}

/// The length of the transport header plus payload.
pub open spec fn spec_transport_len(t: TransportMetadata, payload_len: int) -> int {
    match t.extra {
        TransportMetadataExtra::Tcp(_) => 20 + payload_len,
        TransportMetadataExtra::Udp(m) => m.length as int,
    }
}

/// A packet that a canonical encoding can represent: twenty-byte IPv4 and
/// TCP headers, length fields that agree with the payload, bounded
/// sub-byte fields, and a next-header field matching the transport.
pub open spec fn packet_well_formed(p: PacketModel) -> bool {
    let tlen = spec_transport_len(p.transport, p.payload.len() as int);
    &&& match p.ip.version {
        IpVersionMetadata::V4 { dscp, ecn, frag_offset, .. } => {
            &&& p.ip.header_len == 20
            &&& p.ip.total_len == 20 + tlen
            &&& p.ip.total_len <= 0xffff
            &&& dscp < 0x40
            &&& ecn < 4
            &&& frag_offset % 8 == 0
        },
        IpVersionMetadata::V6 { flow_label, payload_len, .. } => {
            &&& p.ip.header_len == 40
            &&& p.ip.total_len == 40 + tlen
            &&& payload_len == tlen
            &&& flow_label < 0x100000
        },
    }
    &&& match p.transport.extra {
        TransportMetadataExtra::Tcp(m) => m.header_len == 20,
        TransportMetadataExtra::Udp(m) => m.length == 8 + p.payload.len(),
    }
    &&& p.ip.next_header == match p.transport.extra {
        TransportMetadataExtra::Tcp(_) => IP_PROTO_TCP,
        TransportMetadataExtra::Udp(_) => IP_PROTO_UDP,
    }
}

/// Extracting each flag of the encoded TCP flag byte gives the flag back.
proof fn lemma_tcp_flags_byte_roundtrip(f: TcpFlags)
    ensures
        ({
            let y = tcp_flags_byte(f) as u8;
            &&& (y % 2 == 1) == f.fin
            &&& ((y / 2) % 2 == 1) == f.syn
            &&& ((y / 4) % 2 == 1) == f.rst
            &&& ((y / 8) % 2 == 1) == f.psh
            &&& ((y / 16) % 2 == 1) == f.ack
            &&& ((y / 32) % 2 == 1) == f.urg
            &&& ((y / 64) % 2 == 1) == f.ece
            &&& ((y / 128) % 2 == 1) == f.cwr
        }),
{
    let fin = f.fin;
    let syn = f.syn;
    let rst = f.rst;
    let psh = f.psh;
    let ack = f.ack;
    let urg = f.urg;
    let ece = f.ece;
    let cwr = f.cwr;
    let y = tcp_flags_byte(f) as u8;
    assert(y == (if fin { 1u8 } else { 0u8 }) + (if syn { 2u8 } else { 0u8 }) + (if rst { 4u8 } else { 0u8 })
        + (if psh { 8u8 } else { 0u8 }) + (if ack { 16u8 } else { 0u8 }) + (if urg { 32u8 } else { 0u8 })
        + (if ece { 64u8 } else { 0u8 }) + (if cwr { 128u8 } else { 0u8 }));
    assert((y == (if fin { 1u8 } else { 0u8 }) + (if syn { 2u8 } else { 0u8 }) + (if rst { 4u8 } else { 0u8 })
        + (if psh { 8u8 } else { 0u8 }) + (if ack { 16u8 } else { 0u8 }) + (if urg { 32u8 } else { 0u8 })
        + (if ece { 64u8 } else { 0u8 }) + (if cwr { 128u8 } else { 0u8 })) ==> ((y % 2 == 1) == fin
        && ((y / 2) % 2 == 1) == syn && ((y / 4) % 2 == 1) == rst && ((y / 8) % 2 == 1) == psh
        && ((y / 16) % 2 == 1) == ack && ((y / 32) % 2 == 1) == urg && ((y / 64) % 2 == 1) == ece
        && ((y / 128) % 2 == 1) == cwr)) by (bit_vector);
}

/// Extracting the pieces of the encoded IPv4 flag word gives them back.
proof fn lemma_v4_flags_word_roundtrip(dont_frag: bool, more_frags: bool, frag_offset: u16)
    requires
        frag_offset % 8 == 0,
    ensures
        ({
            let w = v4_flags_word(dont_frag, more_frags, frag_offset) as u16;
            &&& ((w / 0x4000) % 2 == 1) == dont_frag
            &&& ((w / 0x2000) % 2 == 1) == more_frags
            &&& (w % 0x2000) * 8 == frag_offset
        }),
{
    let w = v4_flags_word(dont_frag, more_frags, frag_offset) as u16;
    assert(w == (if dont_frag {
        0x4000u16
    } else {
        0u16
    }) + (if more_frags {
        0x2000u16
    } else {
        0u16
    }) + frag_offset / 8);
    assert((frag_offset % 8 == 0 && w == (if dont_frag {
        0x4000u16
    } else {
        0u16
    }) + (if more_frags {
        0x2000u16
    } else {
        0u16
    }) + frag_offset / 8) ==> (((w / 0x4000) % 2 == 1) == dont_frag && ((w / 0x2000) % 2 == 1)
        == more_frags && (w % 0x2000) * 8 == frag_offset)) by (bit_vector);
}

/// Parsing bytes that start with an encoded IPv4 header yields the
/// metadata back and the rest of the bytes as the payload.
#[verifier::rlimit(100)]
#[verifier::spinoff_prover]
proof fn lemma_parse_ipv4_of_encode(ip: IpMetadata, rest: Seq<u8>)
    requires
        ip.version is V4,
        ip.header_len == 20,
        ip.total_len == 20 + rest.len(),
        ip.total_len <= 0xffff,
        match ip.version {
            IpVersionMetadata::V4 { dscp, ecn, frag_offset, .. } => dscp < 0x40 && ecn < 4
                && frag_offset % 8 == 0,
            _ => false,
        },
    ensures
        crate::decode::spec_parse_ipv4(spec_encode_ip(ip) + rest) == Ok::<_, ParsePacketError>(
            (ip, rest),
        ),
{
    reveal(spec_encode_ip);
    let s = spec_encode_ip(ip) + rest;
    match ip.version {
        IpVersionMetadata::V4 { dont_frag, more_frags, frag_offset, .. } => {
            lemma_v4_flags_word_roundtrip(dont_frag, more_frags, frag_offset);
            assert(spec_encode_ip(ip).len() == 20);
            assert(s[0] == 0x45);
            assert(be16(s, 2) == ip.total_len);
            assert(s.len() == ip.total_len);
            assert(s.subrange(20, ip.total_len as int) =~= rest);
        },
        _ => {},
    }
}

/// Recomposing the four big-endian bytes of a 32-bit value gives it back.
proof fn lemma_be32_quad_value(a: u32)
    ensures
        be32(be32_quad(a), 0) == a,
{
    assert((a / 0x1000000) * 0x1000000 + ((a / 0x10000) % 0x100) * 0x10000 + ((a / 0x100) % 0x100)
        * 0x100 + a % 0x100 == a) by (bit_vector);
}

/// Reading a 32-bit value back from its four big-endian bytes in place
/// gives it back.
proof fn lemma_be32_of_quad(a: u32, s: Seq<u8>, i: int)
    requires
        0 <= i,
        i + 4 <= s.len(),
        s.subrange(i, i + 4) == be32_quad(a),
    ensures
        be32(s, i) == a,
{
    assert(s.subrange(i, i + 4)[0] == s[i]);
    assert(s.subrange(i, i + 4)[1] == s[i + 1]);
    assert(s.subrange(i, i + 4)[2] == s[i + 2]);
    assert(s.subrange(i, i + 4)[3] == s[i + 3]);
    lemma_be32_quad_value(a);
}

/// Parsing bytes that start with an encoded IPv6 header yields the
/// metadata back and the rest of the bytes as the payload.
#[verifier::rlimit(100)]
#[verifier::spinoff_prover]
proof fn lemma_parse_ipv6_of_encode(ip: IpMetadata, rest: Seq<u8>)
    requires
        ip.version is V6,
        ip.header_len == 40,
        ip.total_len == 40 + rest.len(),
        match ip.version {
            IpVersionMetadata::V6 { flow_label, payload_len, .. } => flow_label < 0x100000
                && payload_len == rest.len(),
            _ => false,
        },
    ensures
        crate::decode::spec_parse_ipv6(spec_encode_ip(ip) + rest) == Ok::<_, ParsePacketError>(
            (ip, rest),
        ),
{
    reveal(spec_encode_ip);
    let hdr = spec_encode_ip(ip);
    let s = hdr + rest;
    match ip.version {
        IpVersionMetadata::V6 { src, dst, traffic_class, flow_label, payload_len } => {
            assert(hdr.len() == 40);
            assert(be16(s, 4) == payload_len);
            assert(s.len() == 40 + payload_len);
            let tc = traffic_class;
            let fl = flow_label;
            let b0 = (0x60 + tc / 0x10) as u8;
            let b1 = ((tc % 0x10) * 0x10 + fl / 0x10000) as u8;
            assert(s[0] == b0 && s[1] == b1);
            assert((fl < 0x100000 && b0 == (0x60 + tc / 0x10) as u8 && b1 == ((tc % 0x10) * 0x10
                + fl / 0x10000) as u8) ==> ((b0 % 0x10) * 0x10 + b1 / 0x10 == tc && (b1 % 0x10)
                == fl / 0x10000)) by (bit_vector);
            assert(be16(s, 2) == fl % 0x10000);
            assert((b1 % 0x10) * 0x10000 + be16(s, 2) == fl);
            let sa = (src / 0x1000000000000000000000000) as u32;
            let sb = ((src / 0x10000000000000000) % 0x100000000) as u32;
            let sc = ((src / 0x100000000) % 0x100000000) as u32;
            let sd = (src % 0x100000000) as u32;
            let da = (dst / 0x1000000000000000000000000) as u32;
            let db = ((dst / 0x10000000000000000) % 0x100000000) as u32;
            let dc = ((dst / 0x100000000) % 0x100000000) as u32;
            let dd = (dst % 0x100000000) as u32;
            assert(src / 0x1000000000000000000000000 < 0x100000000) by (bit_vector);
            assert(dst / 0x1000000000000000000000000 < 0x100000000) by (bit_vector);
            assert(s.subrange(8, 12) =~= be32_quad(sa));
            assert(s.subrange(12, 16) =~= be32_quad(sb));
            assert(s.subrange(16, 20) =~= be32_quad(sc));
            assert(s.subrange(20, 24) =~= be32_quad(sd));
            assert(s.subrange(24, 28) =~= be32_quad(da));
            assert(s.subrange(28, 32) =~= be32_quad(db));
            assert(s.subrange(32, 36) =~= be32_quad(dc));
            assert(s.subrange(36, 40) =~= be32_quad(dd));
            lemma_be32_of_quad(sa, s, 8);
            lemma_be32_of_quad(sb, s, 12);
            lemma_be32_of_quad(sc, s, 16);
            lemma_be32_of_quad(sd, s, 20);
            lemma_be32_of_quad(da, s, 24);
            lemma_be32_of_quad(db, s, 28);
            lemma_be32_of_quad(dc, s, 32);
            lemma_be32_of_quad(dd, s, 36);
            assert(((sa as u128) == src / 0x1000000000000000000000000 && (sb as u128) == (src
                / 0x10000000000000000) % 0x100000000 && (sc as u128) == (src / 0x100000000)
                % 0x100000000 && (sd as u128) == src % 0x100000000) ==> (sa as u128)
                * 0x1000000000000000000000000 + (sb as u128) * 0x10000000000000000 + (sc as u128)
                * 0x100000000 + (sd as u128) == src) by (bit_vector);
            assert(((da as u128) == dst / 0x1000000000000000000000000 && (db as u128) == (dst
                / 0x10000000000000000) % 0x100000000 && (dc as u128) == (dst / 0x100000000)
                % 0x100000000 && (dd as u128) == dst % 0x100000000) ==> (da as u128)
                * 0x1000000000000000000000000 + (db as u128) * 0x10000000000000000 + (dc as u128)
                * 0x100000000 + (dd as u128) == dst) by (bit_vector);
            assert(be128(s, 8) == src);
            assert(be128(s, 24) == dst);
            assert(s.subrange(40, 40 + payload_len as int) =~= rest);
        },
        _ => {},
    }
}

/// Parsing bytes that start with an encoded TCP header yields the
/// metadata back and the rest of the bytes as the payload.
#[verifier::rlimit(100)]
#[verifier::spinoff_prover]
proof fn lemma_parse_tcp_of_encode(src: u16, dst: u16, m: TcpMetadata, ck: u16, rest: Seq<u8>)
    requires
        m.header_len == 20,
    ensures
        crate::decode::spec_parse_tcp(spec_encode_tcp(src, dst, m, ck) + rest) == Ok::<
            _,
            ParsePacketError,
        >((TransportMetadata { src, dst, extra: TransportMetadataExtra::Tcp(m) }, rest)),
{
    reveal(spec_encode_tcp);
    let t = spec_encode_tcp(src, dst, m, ck) + rest;
    lemma_tcp_flags_byte_roundtrip(m.flags);
    assert(spec_encode_tcp(src, dst, m, ck).len() == 20);
    assert(t[12] == (0x50 + flag_bit(m.flags.ns)) as u8);
    assert(t[13] == tcp_flags_byte(m.flags) as u8);
    assert(t.skip(20) =~= rest);
}

/// Parsing bytes that start with an encoded UDP header yields the
/// metadata back and the declared payload.
#[verifier::rlimit(100)]
#[verifier::spinoff_prover]
proof fn lemma_parse_udp_of_encode(src: u16, dst: u16, m: UdpMetadata, rest: Seq<u8>)
    requires
        m.length == 8 + rest.len(),
    ensures
        crate::decode::spec_parse_udp(spec_encode_udp(src, dst, m) + rest) == Ok::<
            _,
            ParsePacketError,
        >((TransportMetadata { src, dst, extra: TransportMetadataExtra::Udp(m) }, rest)),
{
    reveal(spec_encode_udp);
    let t = spec_encode_udp(src, dst, m) + rest;
    assert(spec_encode_udp(src, dst, m).len() == 8);
    assert(be16(t, 4) == m.length);
    assert(t.subrange(8, m.length as int) =~= rest);
}

/// Decoding an encoded packet gives the packet back, whatever stands in the
/// TCP checksum field.
#[verifier::rlimit(100)]
#[verifier::spinoff_prover]
pub proof fn lemma_parse_of_encode(p: PacketModel, ck: u16)
    requires
        packet_well_formed(p),
        p.direction == 0,
    ensures
        spec_parse_packet(p.timestamp, spec_encode_packet(p, ck), spec_ethertype(p)) == Ok::<
            PacketModel,
            ParsePacketError,
        >(p),
{
    let s = spec_encode_packet(p, ck);
    let hdr = spec_encode_ip(p.ip);
    let seg = spec_encode_transport(p.transport, ck);
    let rest = seg + p.payload;
    lemma_encode_ip_len(p.ip);
    lemma_encode_transport_len(p.transport, ck);
    match p.transport.extra {
        TransportMetadataExtra::Tcp(m) => {
            lemma_parse_tcp_of_encode(p.transport.src, p.transport.dst, m, ck, p.payload);
        },
        TransportMetadataExtra::Udp(m) => {
            lemma_parse_udp_of_encode(p.transport.src, p.transport.dst, m, p.payload);
        },
    }
    match p.ip.version {
        IpVersionMetadata::V4 { .. } => {
            lemma_parse_ipv4_of_encode(p.ip, rest);
        },
        IpVersionMetadata::V6 { .. } => {
            lemma_parse_ipv6_of_encode(p.ip, rest);
        },
    }
}

/// Emit the IP header bytes of `ip`.
pub fn encode_ip(ip: &IpMetadata) -> (r: Vec<u8>)
    requires
        match ip.version {
            IpVersionMetadata::V4 { dscp, ecn, .. } => ip.total_len <= 0xffff && dscp < 0x40 && ecn
                < 4,
            IpVersionMetadata::V6 { flow_label, .. } => flow_label < 0x100000,
        },
    ensures
        r@ == spec_encode_ip(*ip),
{
    let mut out: Vec<u8> = Vec::new();
    match ip.version {
        IpVersionMetadata::V4 {
            src,
            dst,
            dscp,
            ecn,
            ident,
            dont_frag,
            more_frags,
            frag_offset,
            checksum,
        } => {
            out.push(0x45);
            out.push(dscp * 4 + ecn);
            push_be16(&mut out, ip.total_len as u16);
            push_be16(&mut out, ident);
            let word: u16 = (if dont_frag {
                0x4000
            } else {
                0
            }) + (if more_frags {
                0x2000
            } else {
                0
            }) + frag_offset / 8;
            push_be16(&mut out, word);
            out.push(ip.hop_limit);
            out.push(ip.next_header);
            push_be16(&mut out, checksum);
            push_be32(&mut out, src);
            push_be32(&mut out, dst);
            proof {
                reveal(spec_encode_ip);
                assert(out@ =~= spec_encode_ip(*ip));
            }
        },
        IpVersionMetadata::V6 { src, dst, traffic_class, flow_label, payload_len } => {
            out.push(0x60 + traffic_class / 0x10);
            out.push((traffic_class % 0x10) * 0x10 + (flow_label / 0x10000) as u8);
            push_be16(&mut out, (flow_label % 0x10000) as u16);
            push_be16(&mut out, payload_len);
            out.push(ip.next_header);
            out.push(ip.hop_limit);
            push_be128(&mut out, src);
            push_be128(&mut out, dst);
            proof {
                reveal(spec_encode_ip);
                assert(out@ =~= spec_encode_ip(*ip));
            }
        },
    }
    out
}

/// Compute the TCP flag byte of `f`.
fn tcp_flags_byte_exec(f: &TcpFlags) -> (r: u8)
    ensures
        r == tcp_flags_byte(*f) as u8,
{
    let mut r: u8 = 0;
    if f.fin {
        r = r + 1;
    }
    if f.syn {
        r = r + 2;
    }
    if f.rst {
        r = r + 4;
    }
    if f.psh {
        r = r + 8;
    }
    if f.ack {
        r = r + 16;
    }
    if f.urg {
        r = r + 32;
    }
    if f.ece {
        r = r + 64;
    }
    if f.cwr {
        r = r + 128;
    }
    r
}

/// Emit the canonical TCP header bytes.
#[verifier::rlimit(100)]
#[verifier::spinoff_prover]
fn encode_tcp(src: u16, dst: u16, m: &TcpMetadata, ck: u16) -> (r: Vec<u8>)
    ensures
        r@ == spec_encode_tcp(src, dst, *m, ck),
{
    let mut out: Vec<u8> = Vec::new();
    push_be16(&mut out, src);
    push_be16(&mut out, dst);
    push_be32(&mut out, m.seq);
    push_be32(&mut out, m.ack);
    if m.flags.ns {
        out.push(0x51);
    } else {
        out.push(0x50);
    }
    let flags: u8 = tcp_flags_byte_exec(&m.flags);
    out.push(flags);
    push_be16(&mut out, m.window_len);
    push_be16(&mut out, ck);
    push_be16(&mut out, m.urgent_at);
    proof {
        reveal(spec_encode_tcp);
        assert(out@ =~= spec_encode_tcp(src, dst, *m, ck));
    }
    out
}

/// Emit the UDP header bytes.
#[verifier::rlimit(100)]
#[verifier::spinoff_prover]
fn encode_udp(src: u16, dst: u16, m: &UdpMetadata) -> (r: Vec<u8>)
    ensures
        r@ == spec_encode_udp(src, dst, *m),
{
    let mut out: Vec<u8> = Vec::new();
    push_be16(&mut out, src);
    push_be16(&mut out, dst);
    push_be16(&mut out, m.length);
    push_be16(&mut out, m.checksum);
    proof {
        reveal(spec_encode_udp);
        assert(out@ =~= spec_encode_udp(src, dst, *m));
    }
    out
}

/// Emit the transport header bytes of `t`, with `ck` in the TCP checksum
/// field.
pub fn encode_transport(t: &TransportMetadata, ck: u16) -> (r: Vec<u8>)
    ensures
        r@ == spec_encode_transport(*t, ck),
{
    match &t.extra {
        TransportMetadataExtra::Tcp(m) => encode_tcp(t.src, t.dst, m, ck),
        TransportMetadataExtra::Udp(m) => encode_udp(t.src, t.dst, m),
    }
}

/// Encode a packet back to internet-layer bytes, with a zero TCP checksum
/// field; decoding the result under the packet's own ethertype gives the
/// packet back.
pub fn encode_packet(p: &Packet) -> (r: Vec<u8>)
    requires
        packet_well_formed(p@),
        p.direction == 0,
    ensures
        r@ == spec_encode_packet(p@, 0),
        spec_parse_packet(p.timestamp, r@, spec_ethertype(p@)) == Ok::<
            PacketModel,
            ParsePacketError,
        >(p@),
{
    let mut out = encode_ip(&p.ip);
    let mut seg = encode_transport(&p.transport, 0);
    out.append(&mut seg);
    let mut payload_copy: Vec<u8> = Vec::new();
    let mut i: usize = 0;
    let payload_len = p.payload.len();
    while i < payload_len
        invariant
            i <= payload_len,
            payload_len == p.payload@.len(),
            payload_copy@ == p.payload@.take(i as int),
        decreases payload_len - i,
    {
        payload_copy.push(p.payload[i]);
        proof {
            assert(payload_copy@ =~= p.payload@.take(i + 1));
        }
        i = i + 1;
    }
    proof {
        assert(p.payload@.take(payload_len as int) =~= p.payload@);
    }
    out.append(&mut payload_copy);
    proof {
        assert(out@ =~= spec_encode_packet(p@, 0));
        lemma_parse_of_encode(p@, 0);
    }
    out
}

} // verus!

verus! {

/// The TCP metadata of a crafted reset: the given sequence and ack numbers,
/// the ACK and RST flags, and nothing else.
pub open spec fn spec_reset_tcp(seq: u32, ack: u32) -> TcpMetadata {
    TcpMetadata {
        seq,
        ack,
        header_len: 20,
        urgent_at: 0,
        window_len: 0,
        flags: TcpFlags {
            fin: false,
            syn: false,
            rst: true,
            psh: false,
            ack: true,
            urg: false,
            ece: false,
            cwr: false,
            ns: false,
        },
    }
}

/// The IP metadata of a crafted reset before its header checksum is filled.
pub open spec fn spec_reset_ip0(ips: IpPair, ipid: Option<u16>) -> IpMetadata {
    match ips {
        IpPair::V4 { src, dst } => IpMetadata {
            header_len: 20,
            total_len: 40,
            hop_limit: 0x40,
            next_header: IP_PROTO_TCP,
            version: IpVersionMetadata::V4 {
                src,
                dst,
                dscp: 0x20,
                ecn: 0,
                ident: match ipid {
                    Some(i) => i,
                    None => 0,
                },
                dont_frag: false,
                more_frags: false,
                frag_offset: 0,
                checksum: 0,
            },
        },
        IpPair::V6 { src, dst } => IpMetadata {
            header_len: 40,
            total_len: 60,
            hop_limit: 0,
            next_header: IP_PROTO_TCP,
            version: IpVersionMetadata::V6 {
                src,
                dst,
                traffic_class: 0,
                flow_label: 0,
                payload_len: 20,
            },
        },
    }
}

/// The IP metadata of a crafted reset: for v4, the header checksum is the
/// internet checksum of the header with a zero checksum field.
pub open spec fn spec_reset_ip(ips: IpPair, ipid: Option<u16>) -> IpMetadata {
    let ip0 = spec_reset_ip0(ips, ipid);
    match ips {
        IpPair::V4 { src, dst } => IpMetadata {
            version: match ip0.version {
                IpVersionMetadata::V4 {
                    src,
                    dst,
                    dscp,
                    ecn,
                    ident,
                    dont_frag,
                    more_frags,
                    frag_offset,
                    checksum,
                } => IpVersionMetadata::V4 {
                    src,
                    dst,
                    dscp,
                    ecn,
                    ident,
                    dont_frag,
                    more_frags,
                    frag_offset,
                    checksum: internet_checksum(spec_encode_ip(ip0)) as u16,
                },
                v6 => v6,
            },
            ..ip0
        },
        IpPair::V6 { .. } => ip0,
    }
}

/// What a crafted reset decodes to.
pub open spec fn spec_reset_model(
    ips: IpPair,
    ipid: Option<u16>,
    src_port: u16,
    dst_port: u16,
    ack: u32,
    seq: u32,
) -> PacketModel {
    PacketModel {
        timestamp: None,
        ip: spec_reset_ip(ips, ipid),
        direction: 0,
        transport: TransportMetadata {
            src: src_port,
            dst: dst_port,
            extra: TransportMetadataExtra::Tcp(spec_reset_tcp(seq, ack)),
        },
        payload: Seq::empty(),
    }
}

/// The pseudo-header that the TCP checksum covers, for a segment of
/// `tcp_len` bytes.
pub open spec fn spec_tcp_pseudo(ips: IpPair, tcp_len: u16) -> Seq<u8> {
    match ips {
        IpPair::V4 { src, dst } => be32_quad(src) + be32_quad(dst) + seq![0u8, IP_PROTO_TCP]
            + be16_pair(tcp_len),
        IpPair::V6 { src, dst } => be128_bytes(src) + be128_bytes(dst) + be32_quad(tcp_len as u32)
            + seq![0u8, 0u8, 0u8, IP_PROTO_TCP],
    }
}

/// What holds of one crafted reset frame: its Ethernet header carries the
/// given addresses, it decodes to the reset packet, and its TCP checksum
/// field holds the checksum over the pseudo-header and the segment.
pub open spec fn spec_reset_frame_ok(
    r: Seq<u8>,
    src_mac: u64,
    dst_mac: u64,
    ips: IpPair,
    ipid: Option<u16>,
    src_port: u16,
    dst_port: u16,
    ack: u32,
    seq: u32,
) -> bool {
    let et = match ips {
        IpPair::V4 { .. } => ETHERTYPE_IPV4,
        IpPair::V6 { .. } => ETHERTYPE_IPV6,
    };
    let model = spec_reset_model(ips, ipid, src_port, dst_port, ack, seq);
    &&& r.len() == 14 + model.ip.total_len
    &&& spec_parse_ethernet(r) == Ok::<_, ParsePacketError>(
        (EthernetHeader { dst: dst_mac, src: src_mac, ethertype: et }, r.skip(14)),
    )
    &&& spec_parse_packet(None, r.skip(14), et) == Ok::<_, ParsePacketError>(model)
    &&& be16(r, 14 + model.ip.header_len + 16) == internet_checksum(
        spec_tcp_pseudo(ips, 20) + spec_encode_tcp(src_port, dst_port, spec_reset_tcp(seq, ack), 0),
    )
}

/// Reading a 48-bit value back from its six big-endian bytes in place gives
/// it back.
proof fn lemma_be48_of_bytes(x: u64, s: Seq<u8>, i: int)
    requires
        0 <= i,
        i + 6 <= s.len(),
        x < 0x1000000000000,
        s.subrange(i, i + 6) == be48_bytes(x),
    ensures
        crate::bytes::be48(s, i) == x,
{
    let hi = (x / 0x100000000) as u16;
    let lo = (x % 0x100000000) as u32;
    assert(s.subrange(i, i + 6)[0] == s[i]);
    assert(s.subrange(i, i + 6)[1] == s[i + 1]);
    assert(s[i] == (hi / 0x100) as u8 && s[i + 1] == (hi % 0x100) as u8);
    assert(s.subrange(i + 2, i + 6) =~= be32_quad(lo)) by {
        assert(s.subrange(i, i + 6)[2] == s[i + 2]);
        assert(s.subrange(i, i + 6)[3] == s[i + 3]);
        assert(s.subrange(i, i + 6)[4] == s[i + 4]);
        assert(s.subrange(i, i + 6)[5] == s[i + 5]);
    }
    lemma_be32_of_quad(lo, s, i + 2);
}

} // verus!

verus! {

/// Compute the metadata of one crafted reset: the filled IP header
/// metadata, the transport metadata, the TCP checksum over the
/// pseudo-header, and the ethertype.
#[verifier::rlimit(100)]
#[verifier::spinoff_prover]
fn reset_parts(
    ips: IpPair,
    ipid: Option<u16>,
    src_port: u16,
    dst_port: u16,
    ack: u32,
    seq: u32,
) -> (r: (IpMetadata, TransportMetadata, u16, u16))
    ensures
        r.0 == spec_reset_ip(ips, ipid),
        r.1 == (TransportMetadata {
            src: src_port,
            dst: dst_port,
            extra: TransportMetadataExtra::Tcp(spec_reset_tcp(seq, ack)),
        }),
        r.2 == internet_checksum(
            spec_tcp_pseudo(ips, 20) + spec_encode_tcp(
                src_port,
                dst_port,
                spec_reset_tcp(seq, ack),
                0,
            ),
        ),
        r.3 == (match ips {
            IpPair::V4 { .. } => ETHERTYPE_IPV4,
            IpPair::V6 { .. } => ETHERTYPE_IPV6,
        }),
{
    let tcp_meta = TcpMetadata {
        seq,
        ack,
        header_len: 20,
        urgent_at: 0,
        window_len: 0,
        flags: TcpFlags {
            fin: false,
            syn: false,
            rst: true,
            psh: false,
            ack: true,
            urg: false,
            ece: false,
            cwr: false,
            ns: false,
        },
    };
    let transport = TransportMetadata {
        src: src_port,
        dst: dst_port,
        extra: TransportMetadataExtra::Tcp(tcp_meta),
    };
    let ip0 = match ips {
        IpPair::V4 { src, dst } => IpMetadata {
            header_len: 20,
            total_len: 40,
            hop_limit: 0x40,
            next_header: IP_PROTO_TCP,
            version: IpVersionMetadata::V4 {
                src,
                dst,
                dscp: 0x20,
                ecn: 0,
                ident: match ipid {
                    Some(i) => i,
                    None => 0,
                },
                dont_frag: false,
                more_frags: false,
                frag_offset: 0,
                checksum: 0,
            },
        },
        IpPair::V6 { src, dst } => IpMetadata {
            header_len: 40,
            total_len: 60,
            hop_limit: 0,
            next_header: IP_PROTO_TCP,
            version: IpVersionMetadata::V6 {
                src,
                dst,
                traffic_class: 0,
                flow_label: 0,
                payload_len: 20,
            },
        },
    };
    assert(ip0 == spec_reset_ip0(ips, ipid));
    let et: u16 = match ips {
        IpPair::V4 { .. } => ETHERTYPE_IPV4,
        IpPair::V6 { .. } => ETHERTYPE_IPV6,
    };
    let ip: IpMetadata = match ips {
        IpPair::V4 { .. } => {
            let hdr0 = encode_ip(&ip0);
            proof {
                lemma_encode_ip_len(ip0);
            }
            let ick = checksum(hdr0.as_slice());
            match ip0.version {
                IpVersionMetadata::V4 {
                    src,
                    dst,
                    dscp,
                    ecn,
                    ident,
                    dont_frag,
                    more_frags,
                    frag_offset,
                    checksum,
                } => IpMetadata {
                    version: IpVersionMetadata::V4 {
                        src,
                        dst,
                        dscp,
                        ecn,
                        ident,
                        dont_frag,
                        more_frags,
                        frag_offset,
                        checksum: ick,
                    },
                    ..ip0
                },
                IpVersionMetadata::V6 { .. } => ip0,
            }
        },
        IpPair::V6 { .. } => ip0,
    };
    assert(ip == spec_reset_ip(ips, ipid));
    let mut pseudo: Vec<u8> = Vec::new();
    match ips {
        IpPair::V4 { src, dst } => {
            push_be32(&mut pseudo, src);
            push_be32(&mut pseudo, dst);
            pseudo.push(0);
            pseudo.push(IP_PROTO_TCP);
            push_be16(&mut pseudo, 20);
            proof {
                assert(pseudo@ =~= spec_tcp_pseudo(ips, 20));
            }
        },
        IpPair::V6 { src, dst } => {
            push_be128(&mut pseudo, src);
            push_be128(&mut pseudo, dst);
            push_be32(&mut pseudo, 20);
            pseudo.push(0);
            pseudo.push(0);
            pseudo.push(0);
            pseudo.push(IP_PROTO_TCP);
            proof {
                assert(pseudo@ =~= spec_tcp_pseudo(ips, 20));
            }
        },
    }
    let mut pseudo_seg = pseudo;
    let mut seg0 = encode_transport(&transport, 0);
    proof {
        lemma_encode_transport_len(transport, 0);
    }
    pseudo_seg.append(&mut seg0);
    let tck = checksum(pseudo_seg.as_slice());
    (ip, transport, tck, et)
}

/// A frame assembled from the reset pieces satisfies the reset frame
/// contract.
#[verifier::rlimit(100)]
#[verifier::spinoff_prover]
proof fn lemma_reset_frame_ok(
    frame: Seq<u8>,
    src_mac: u64,
    dst_mac: u64,
    ips: IpPair,
    ipid: Option<u16>,
    src_port: u16,
    dst_port: u16,
    ack: u32,
    seq: u32,
    tck: u16,
)
    requires
        src_mac < 0x1000000000000,
        dst_mac < 0x1000000000000,
        tck == internet_checksum(
            spec_tcp_pseudo(ips, 20) + spec_encode_tcp(
                src_port,
                dst_port,
                spec_reset_tcp(seq, ack),
                0,
            ),
        ),
        frame == be48_bytes(dst_mac) + be48_bytes(src_mac) + be16_pair(
            match ips {
                IpPair::V4 { .. } => ETHERTYPE_IPV4,
                IpPair::V6 { .. } => ETHERTYPE_IPV6,
            },
        ) + (spec_encode_ip(spec_reset_ip(ips, ipid)) + (spec_encode_tcp(
            src_port,
            dst_port,
            spec_reset_tcp(seq, ack),
            tck,
        ) + Seq::<u8>::empty())),
    ensures
        spec_reset_frame_ok(frame, src_mac, dst_mac, ips, ipid, src_port, dst_port, ack, seq),
{
    let model = spec_reset_model(ips, ipid, src_port, dst_port, ack, seq);
    let hdr = spec_encode_ip(model.ip);
    let seg = spec_encode_tcp(src_port, dst_port, spec_reset_tcp(seq, ack), tck);
    lemma_encode_ip_len(model.ip);
    lemma_encode_transport_len(model.transport, tck);
    assert(frame.len() == 14 + model.ip.total_len);
    assert(frame.subrange(0, 6) =~= be48_bytes(dst_mac));
    assert(frame.subrange(6, 12) =~= be48_bytes(src_mac));
    lemma_be48_of_bytes(dst_mac, frame, 0);
    lemma_be48_of_bytes(src_mac, frame, 6);
    assert(be16(frame, 12) == spec_ethertype(model));
    assert(packet_well_formed(model));
    assert(frame.skip(14) =~= spec_encode_packet(model, tck));
    lemma_parse_of_encode(model, tck);
    let ck_at = 14 + model.ip.header_len + 16;
    assert(seg[16] == (tck / 0x100) as u8 && seg[17] == (tck % 0x100) as u8) by {
        reveal(spec_encode_tcp);
        lemma_encode_transport_len(model.transport, tck);
    }
    assert(frame[ck_at as int] == seg[16]);
    assert(frame[ck_at + 1] == seg[17]);
}

/// Craft one reset frame: Ethernet destination then source address, the IP
/// header with its checksum filled, and a twenty-byte TCP segment with the
/// ACK and RST flags whose checksum covers the pseudo-header.
#[verifier::rlimit(100)]
#[verifier::spinoff_prover]
pub fn construct_reset(
    src_mac: u64,
    dst_mac: u64,
    ips: IpPair,
    ipid: Option<u16>,
    src_port: u16,
    dst_port: u16,
    ack: u32,
    seq: u32,
) -> (r: Vec<u8>)
    requires
        src_mac < 0x1000000000000,
        dst_mac < 0x1000000000000,
    ensures
        spec_reset_frame_ok(r@, src_mac, dst_mac, ips, ipid, src_port, dst_port, ack, seq),
{
    let (ip, transport, tck, et) = reset_parts(ips, ipid, src_port, dst_port, ack, seq);
    let mut out: Vec<u8> = Vec::new();
    push_be48(&mut out, dst_mac);
    push_be48(&mut out, src_mac);
    push_be16(&mut out, et);
    let mut hdr = encode_ip(&ip);
    let mut seg = encode_transport(&transport, tck);
    out.append(&mut hdr);
    out.append(&mut seg);
    proof {
        assert(out@ =~= be48_bytes(dst_mac) + be48_bytes(src_mac) + be16_pair(et) + (
        spec_encode_ip(spec_reset_ip(ips, ipid)) + (spec_encode_tcp(
            src_port,
            dst_port,
            spec_reset_tcp(seq, ack),
            tck,
        ) + Seq::<u8>::empty())));
        lemma_reset_frame_ok(
            out@,
            src_mac,
            dst_mac,
            ips,
            ipid,
            src_port,
            dst_port,
            ack,
            seq,
            tck,
        );
    }
    out
}

/// Craft the bidirectional reset pair for a captured flow: the
/// client-facing frame swaps addresses and ports, takes the captured ack as
/// its sequence number and acknowledges the captured sequence number plus
/// the payload length; the server-facing frame repeats the captured tuple.
pub fn craft_resets(
    src_mac: u64,
    dst_mac: u64,
    ips: IpPair,
    ipid: Option<u16>,
    src_port: u16,
    dst_port: u16,
    ack: u32,
    seq: u32,
    payload_len: usize,
) -> (r: (Vec<u8>, Vec<u8>))
    requires
        src_mac < 0x1000000000000,
        dst_mac < 0x1000000000000,
        payload_len <= 0xffffffff,
    ensures
        spec_reset_frame_ok(
            r.0@,
            dst_mac,
            src_mac,
            ips.spec_swap(),
            ipid,
            dst_port,
            src_port,
            ((seq + payload_len) % 0x100000000) as u32,
            ack,
        ),
        spec_reset_frame_ok(r.1@, src_mac, dst_mac, ips, ipid, src_port, dst_port, ack, seq),
{
    let client_ack: u32 = ((seq as u64 + payload_len as u64) % 0x100000000) as u32;
    let client = construct_reset(
        dst_mac,
        src_mac,
        ips.swap(),
        ipid,
        dst_port,
        src_port,
        client_ack,
        ack,
    );
    let server = construct_reset(src_mac, dst_mac, ips, ipid, src_port, dst_port, ack, seq);
    (client, server)
}

} // verus!
