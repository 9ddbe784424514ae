//! End-to-end scenarios through the censor pipeline, and the decoder and
//! encoder round trip.

use censorlab::action::Action;
use censorlab::censor::{Censor, Context, Direction};
use censorlab::decode::{parse_ethernet, ETHERTYPE_IPV4, IP_PROTO_TCP, IP_PROTO_UDP};
use censorlab::encode::{craft_resets, encode_packet};
use censorlab::lists::{AllowBlockList, AllowList, BlockList, PortAllowBlockList, PortSet};
use censorlab::packet::{
    IpAddress, IpMetadata, IpPair, IpVersionMetadata, Packet, TcpFlags, TcpMetadata,
    TransportMetadata, TransportMetadataExtra,
};
use censorlab::program::config::Config;
use censorlab::program::program::Program;
use censorlab::transport::{ExecutionMode, TransportState};

fn empty_list(action: Action) -> AllowBlockList {
    AllowBlockList {
        allow: AllowList {
            store: Vec::new(),
            not_in_allowlist: Action::Pass,
        },
        block: BlockList {
            store: Vec::new(),
            in_blocklist: action,
        },
    }
}

fn empty_port_list() -> PortAllowBlockList {
    PortAllowBlockList {
        allow_store: PortSet::new(),
        not_in_allowlist: Action::Pass,
        block_store: PortSet::new(),
        in_blocklist: Action::Pass,
    }
}

fn plain_censor() -> Censor {
    Censor::new(
        empty_list(Action::Pass),
        Action::Pass,
        Action::Pass,
        empty_list(Action::Pass),
        empty_list(Action::Pass),
        Action::Pass,
        Action::Pass,
        empty_port_list(),
        censorlab::lists::EndpointAllowBlockList::empty(),
        empty_port_list(),
        censorlab::lists::EndpointAllowBlockList::empty(),
        TransportState::new(
            ExecutionMode::CensorLang,
            Program { lines: Vec::new() },
            Config::default(),
        ),
    )
}

fn syn_flags() -> TcpFlags {
    TcpFlags {
        fin: false,
        syn: true,
        rst: false,
        psh: false,
        ack: false,
        urg: false,
        ece: false,
        cwr: false,
        ns: false,
    }
}

fn tcp_v4_packet(
    src: u32,
    dst: u32,
    src_port: u16,
    dst_port: u16,
    flags: TcpFlags,
    payload: Vec<u8>,
) -> Packet {
    let total_len = 20 + 20 + payload.len();
    Packet {
        timestamp: None,
        ip: IpMetadata {
            header_len: 20,
            total_len,
            hop_limit: 64,
            next_header: IP_PROTO_TCP,
            version: IpVersionMetadata::V4 {
                src,
                dst,
                dscp: 0,
                ecn: 0,
                ident: 7,
                dont_frag: true,
                more_frags: false,
                frag_offset: 0,
                checksum: 0xBEEF,
            },
        },
        direction: 0,
        transport: TransportMetadata {
            src: src_port,
            dst: dst_port,
            extra: TransportMetadataExtra::Tcp(TcpMetadata {
                seq: 1000,
                ack: 2000,
                header_len: 20,
                urgent_at: 0,
                window_len: 512,
                flags,
            }),
        },
        payload,
    }
}

fn frame_of(packet: &Packet, src_mac: u64, dst_mac: u64) -> Vec<u8> {
    let mut frame = Vec::new();
    let macs = [dst_mac, src_mac];
    for mac in macs {
        for k in 0..6 {
            frame.push(((mac >> (8 * (5 - k))) & 0xFF) as u8);
        }
    }
    frame.push(0x08);
    frame.push(0x00);
    frame.extend_from_slice(&encode_packet(packet));
    frame
}

#[test]
fn roundtrip_tcp_v4() {
    let p = tcp_v4_packet(0x0A000002, 0x5DB8D822, 45000, 80, syn_flags(), vec![9, 8, 7]);
    let bytes = encode_packet(&p);
    let back = Packet::from_ts_bytes(None, &bytes, ETHERTYPE_IPV4).expect("decodes");
    assert_eq!(back.ip, p.ip);
    assert_eq!(back.transport, p.transport);
    assert_eq!(back.payload, p.payload);
    assert_eq!(back.timestamp, p.timestamp);
}

#[test]
fn roundtrip_udp_v6() {
    let payload = vec![1, 2, 3, 4];
    let p = Packet {
        timestamp: None,
        ip: IpMetadata {
            header_len: 40,
            total_len: 40 + 8 + 4,
            hop_limit: 0x40,
            next_header: IP_PROTO_UDP,
            version: IpVersionMetadata::V6 {
                src: 0x20010DB8_00000000_00000000_00000001,
                dst: 0x20010DB8_00000000_00000000_00000002,
                traffic_class: 0xAB,
                flow_label: 0xFFFFF,
                payload_len: 12,
            },
        },
        direction: 0,
        transport: TransportMetadata {
            src: 5353,
            dst: 53,
            extra: TransportMetadataExtra::Udp(censorlab::packet::UdpMetadata {
                length: 12,
                checksum: 0x1234,
            }),
        },
        payload,
    };
    let bytes = encode_packet(&p);
    let back = Packet::from_ts_bytes(None, &bytes, censorlab::decode::ETHERTYPE_IPV6)
        .expect("decodes");
    assert_eq!(back.ip, p.ip);
    assert_eq!(back.transport, p.transport);
    assert_eq!(back.payload, p.payload);
}

#[test]
fn http_port_80_blocklist_drops_without_flow() {
    let mut censor = plain_censor();
    let mut blocked = PortSet::new();
    blocked.set(80);
    censor.tcp_port_list = PortAllowBlockList {
        allow_store: PortSet::new(),
        not_in_allowlist: Action::Pass,
        block_store: blocked,
        in_blocklist: Action::Drop,
    };
    let p = tcp_v4_packet(0x0A000002, 0x5DB8D822, 45000, 80, syn_flags(), Vec::new());
    let frame = frame_of(&p, 0x0000AA000001, 0x0000AA000002);
    let ctx = Context::ClientIp {
        client_ip: IpAddress::V4(0x0A000002),
    };
    let action = censor.process_frame(&frame, &ctx).expect("frame parses");
    assert_eq!(action, Action::Drop);
    assert_eq!(censor.transport_state.connections.len(), 0);
}

#[test]
fn direction_inference_by_client_ip() {
    let client = IpAddress::V4(0x0A000002);
    let other = IpAddress::V4(0x01010101);
    assert_eq!(
        censorlab::censor::infer_direction(client, client, other),
        Direction::ClientToWan
    );
    assert_eq!(
        censorlab::censor::infer_direction(client, other, client),
        Direction::WanToClient
    );
    assert_eq!(
        censorlab::censor::infer_direction(client, other, other),
        Direction::Unknown
    );
}

#[test]
fn reset_crafting_pair_fields() {
    let client_port = 45000u16;
    let server_port = 80u16;
    let client_seq = 5000u32;
    let client_ack = 9000u32;
    let payload_len = 17usize;
    let ips = IpPair::V4 {
        src: 0x0A000002,
        dst: 0x5DB8D822,
    };
    let (client_reset, server_reset) = craft_resets(
        0x0000AA000001,
        0x0000AA000002,
        ips,
        Some(42),
        client_port,
        server_port,
        client_ack,
        client_seq,
        payload_len,
    );
    // Server-facing reset: the captured tuple as-is.
    let (eth_s, rest_s) = parse_ethernet(&server_reset).expect("server frame parses");
    assert_eq!(eth_s.ethertype, ETHERTYPE_IPV4);
    let ps = Packet::from_ts_bytes(None, rest_s, ETHERTYPE_IPV4).expect("server reset decodes");
    assert_eq!(ps.transport.src, client_port);
    assert_eq!(ps.transport.dst, server_port);
    match &ps.transport.extra {
        TransportMetadataExtra::Tcp(m) => {
            assert_eq!(m.seq, client_seq);
            assert_eq!(m.ack, client_ack);
            assert!(m.flags.rst && m.flags.ack);
            assert!(!m.flags.syn && !m.flags.fin);
        }
        _ => panic!("server reset is not tcp"),
    }
    // Client-facing reset: swapped, acking past the payload.
    let (_eth_c, rest_c) = parse_ethernet(&client_reset).expect("client frame parses");
    let pc = Packet::from_ts_bytes(None, rest_c, ETHERTYPE_IPV4).expect("client reset decodes");
    assert_eq!(pc.transport.src, server_port);
    assert_eq!(pc.transport.dst, client_port);
    match &pc.transport.extra {
        TransportMetadataExtra::Tcp(m) => {
            assert_eq!(m.seq, client_ack);
            assert_eq!(m.ack, client_seq + payload_len as u32);
            assert!(m.flags.rst && m.flags.ack);
        }
        _ => panic!("client reset is not tcp"),
    }
    match pc.ip.version {
        IpVersionMetadata::V4 { src, dst, checksum, .. } => {
            assert_eq!(src, 0x5DB8D822);
            assert_eq!(dst, 0x0A000002);
            assert_ne!(checksum, 0);
        }
        _ => panic!("client reset is not v4"),
    }
}

#[test]
fn parse_rejects_short_layers() {
    assert_eq!(
        Packet::from_ts_bytes(None, &[0u8; 10], ETHERTYPE_IPV4).unwrap_err(),
        censorlab::decode::ParsePacketError::IPv4
    );
    assert_eq!(
        Packet::from_ts_bytes(None, &[0u8; 30], censorlab::decode::ETHERTYPE_IPV6).unwrap_err(),
        censorlab::decode::ParsePacketError::IPv6
    );
    assert_eq!(
        Packet::from_ts_bytes(None, &[0u8; 40], 0x1234).unwrap_err(),
        censorlab::decode::ParsePacketError::UnknownInternet(0x1234)
    );
    // A sound IPv4 header whose payload is too short for its protocol.
    let p = tcp_v4_packet(1, 2, 3, 4, syn_flags(), Vec::new());
    let bytes = encode_packet(&p);
    assert_eq!(
        Packet::from_ts_bytes(None, &bytes[..30], ETHERTYPE_IPV4).unwrap_err(),
        censorlab::decode::ParsePacketError::IPv4
    );
    let mut udp_short = bytes.clone();
    udp_short[9] = censorlab::decode::IP_PROTO_UDP;
    assert_eq!(
        Packet::from_ts_bytes(None, &udp_short[..26], ETHERTYPE_IPV4).unwrap_err(),
        censorlab::decode::ParsePacketError::IPv4
    );
    let mut icmp = bytes.clone();
    icmp[9] = censorlab::decode::IP_PROTO_ICMP;
    assert_eq!(
        Packet::from_ts_bytes(None, &icmp, ETHERTYPE_IPV4).unwrap_err(),
        censorlab::decode::ParsePacketError::UnknownTransport(censorlab::decode::IP_PROTO_ICMP)
    );
    // An Ethernet frame too short for its own header.
    let mut censor = plain_censor();
    let ctx = Context::ClientIp {
        client_ip: IpAddress::V4(1),
    };
    assert_eq!(
        censor.process_frame(&[0u8; 5], &ctx),
        Err(censorlab::decode::ParsePacketError::Ethernet)
    );
}

#[test]
fn terminate_program_resets_tcp_flows() {
    let mut censor = plain_censor();
    censor.transport_state.program = Program {
        lines: vec![censorlab::program::program::Line {
            condition: None,
            operation: censorlab::program::program::Operation::Return(
                censorlab::program::program::Action::TerminateAll,
            ),
        }],
    };
    let p = tcp_v4_packet(0x0A000002, 0x01010101, 5555, 443, syn_flags(), Vec::new());
    let frame = frame_of(&p, 0x0000AA000001, 0x0000AA000002);
    let ctx = Context::ClientIp {
        client_ip: IpAddress::V4(0x0A000002),
    };
    let action = censor.process_frame(&frame, &ctx).expect("frame parses");
    match action {
        Action::Reset {
            src_mac,
            dst_mac,
            src_port,
            dst_port,
            seq,
            ack,
            ipid,
            ..
        } => {
            // The frame tier filled the addresses, the internet tier the
            // identification, the transport tier the rest.
            assert_eq!(src_mac, 0x0000AA000001);
            assert_eq!(dst_mac, 0x0000AA000002);
            assert_eq!((src_port, dst_port), (5555, 443));
            assert_eq!((seq, ack), (1000, 2000));
            assert_eq!(ipid, Some(7));
        }
        other => panic!("expected a reset, got {other:?}"),
    }
    assert_eq!(censor.transport_state.connections.len(), 1);
    // The latch holds on the next packet of the same flow.
    let again = censor.process_frame(&frame, &ctx).expect("frame parses");
    assert!(matches!(again, Action::Reset { .. }));
    assert_eq!(censor.transport_state.connections.len(), 1);
}

#[test]
fn reset_ip_checksum_folds_to_all_ones() {
    let ips = IpPair::V4 {
        src: 0x0A000002,
        dst: 0x5DB8D822,
    };
    let (_, server_reset) = craft_resets(0, 0, ips, None, 1, 2, 3, 4, 0);
    // The IPv4 header of the server-facing frame: bytes 14 through 34.
    let header = &server_reset[14..34];
    let mut sum: u32 = 0;
    for pair in header.chunks(2) {
        sum += u32::from(pair[0]) << 8 | u32::from(pair[1]);
    }
    while sum > 0xFFFF {
        sum = (sum >> 16) + (sum & 0xFFFF);
    }
    assert_eq!(sum, 0xFFFF);
}


#[test]
fn endpoint_blocklist_blocks_one_address_port_pair() {
    let mut censor = plain_censor();
    censor.tcp_ip_port_list = censorlab::lists::EndpointAllowBlockList {
        allow_store: Vec::new(),
        not_in_allowlist: Action::Pass,
        block_store: vec![(IpAddress::V4(0x5DB8D822), 80u16)],
        in_blocklist: Action::Drop,
    };
    let ctx = Context::ClientIp {
        client_ip: IpAddress::V4(0x0A000002),
    };
    // The listed endpoint is dropped before any flow state is made.
    let hit = tcp_v4_packet(0x0A000002, 0x5DB8D822, 45000, 80, syn_flags(), Vec::new());
    let frame = frame_of(&hit, 1, 2);
    assert_eq!(censor.process_frame(&frame, &ctx), Ok(Action::Drop));
    assert_eq!(censor.transport_state.connections.len(), 0);
    // The same port on another address passes to the flow policy.
    let miss = tcp_v4_packet(0x0A000002, 0x01010101, 45000, 80, syn_flags(), Vec::new());
    let frame2 = frame_of(&miss, 1, 2);
    assert_eq!(censor.process_frame(&frame2, &ctx), Ok(Action::Pass));
    assert_eq!(censor.transport_state.connections.len(), 1);
}
