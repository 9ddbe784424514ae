//! Component-level tests: the flow key, the per-flow latch, the delay
//! queue, the lists, the optimizer, and the smaller helpers.

use censorlab::action::Action;
use censorlab::decode::IP_PROTO_TCP;
use censorlab::ipc::{IpcOpcode, IpcRequest, ModelScope};
use censorlab::lists::{AllowBlockList, AllowList, BlockList};
use censorlab::model::{Feature, FeatureParseError, PacketFeature};
use censorlab::nfq::{IpTablesArgs, IpTablesRule};
use censorlab::packet::{
    ConnectionIdentifier, IpAddress, IpMetadata, IpPair, IpVersionMetadata, Packet, TcpFlags,
    TcpMetadata, TransportMetadata, TransportMetadataExtra, TransportProtocol,
};
use censorlab::program::config::Config;
use censorlab::program::env::{EnvFields, Registers, TcpProgramEnv};
use censorlab::program::program::{
    Action as ProgramAction, ComparisonOperator, Condition, Input, Line, Operation, Operator,
    Program, Register, RegisterType,
};
use censorlab::transport::{ConnectionKey, ExecutionMode, TransportState};
use censorlab::watermark::{DelayQueue, QueuedPacket};

fn tcp_packet(src: u32, dst: u32, sport: u16, dport: u16, flags: TcpFlags, payload: Vec<u8>) -> Packet {
    Packet {
        timestamp: None,
        ip: IpMetadata {
            header_len: 20,
            total_len: 40 + payload.len(),
            hop_limit: 64,
            next_header: IP_PROTO_TCP,
            version: IpVersionMetadata::V4 {
                src,
                dst,
                dscp: 0,
                ecn: 0,
                ident: 1,
                dont_frag: false,
                more_frags: false,
                frag_offset: 0,
                checksum: 0,
            },
        },
        direction: 0,
        transport: TransportMetadata {
            src: sport,
            dst: dport,
            extra: TransportMetadataExtra::Tcp(TcpMetadata {
                seq: 1,
                ack: 2,
                header_len: 20,
                urgent_at: 0,
                window_len: 100,
                flags,
            }),
        },
        payload,
    }
}

fn no_flags() -> TcpFlags {
    TcpFlags {
        fin: false,
        syn: false,
        rst: false,
        psh: false,
        ack: false,
        urg: false,
        ece: false,
        cwr: false,
        ns: false,
    }
}

#[test]
fn connection_key_is_direction_insensitive() {
    let ips = IpPair::V4 {
        src: 0x0A000002,
        dst: 0x01010101,
    };
    let forward = ConnectionKey::new(ips, 5555, 443, TransportProtocol::Tcp);
    let backward = ConnectionKey::new(ips.swap(), 443, 5555, TransportProtocol::Tcp);
    assert_eq!(forward, backward);
    // Equal addresses: the ports alone decide the order.
    let local = IpPair::V4 {
        src: 0x7F000001,
        dst: 0x7F000001,
    };
    let f2 = ConnectionKey::new(local, 2, 1, TransportProtocol::Tcp);
    let b2 = ConnectionKey::new(local.swap(), 1, 2, TransportProtocol::Tcp);
    assert_eq!(f2, b2);
}

#[test]
fn terminal_action_latch_skips_program() {
    let id = ConnectionIdentifier {
        src_ip: IpAddress::V4(1),
        dst_ip: IpAddress::V4(2),
        transport_proto: TransportProtocol::Tcp,
        src_port: 10,
        dst_port: 20,
    };
    let mut env = TcpProgramEnv::new(id);
    let program = Program {
        lines: vec![Line {
            condition: None,
            operation: Operation::Return(ProgramAction::TerminateAll),
        }],
    };
    let mut regs = Registers::new(4, false);
    let fields = EnvFields { num_packets: 1 };
    let packet = tcp_packet(1, 2, 10, 20, no_flags(), Vec::new());
    let first = env.process(&packet, &program, &mut regs, &fields, true);
    assert_eq!(first, ProgramAction::TerminateAll);
    assert_eq!(env.default_action, ProgramAction::TerminateAll);
    // The latch holds: later packets are terminated without running the
    // program, whatever it would now say.
    let empty_program = Program { lines: Vec::new() };
    let second = env.process(&packet, &empty_program, &mut regs, &fields, true);
    assert_eq!(second, ProgramAction::TerminateAll);
    let third = env.process(&packet, &program, &mut regs, &fields, true);
    assert_eq!(third, ProgramAction::TerminateAll);
    assert_eq!(env.total_processed, 3);
    assert_eq!(env.last_fully_processed, 1);
}

#[test]
fn flow_table_creates_once_per_flow() {
    let mut ts = TransportState::new(
        ExecutionMode::CensorLang,
        Program { lines: Vec::new() },
        Config::default(),
    );
    let ips = IpPair::V4 {
        src: 0x0A000002,
        dst: 0x01010101,
    };
    let p1 = tcp_packet(0x0A000002, 0x01010101, 5555, 443, no_flags(), Vec::new());
    assert_eq!(ts.process(ips, &p1), Action::Pass);
    assert_eq!(ts.connections.len(), 1);
    let p2 = tcp_packet(0x01010101, 0x0A000002, 443, 5555, no_flags(), Vec::new());
    assert_eq!(ts.process(ips.swap(), &p2), Action::Pass);
    assert_eq!(ts.connections.len(), 1);
}

#[test]
fn delay_ordering() {
    let t = 1_000_000u64;
    let mut q = DelayQueue::new();
    q.push(QueuedPacket {
        time: t + 300_000,
        payload: vec![3],
    });
    q.push(QueuedPacket {
        time: t + 100_000,
        payload: vec![1],
    });
    q.push(QueuedPacket {
        time: t + 200_000,
        payload: vec![2],
    });
    assert_eq!(q.pop_earliest().unwrap().payload, vec![1]);
    assert_eq!(q.pop_earliest().unwrap().payload, vec![2]);
    assert_eq!(q.pop_earliest().unwrap().payload, vec![3]);
    assert!(q.pop_earliest().is_none());
}

#[test]
fn delay_equal_deadlines_keep_arrival_order() {
    let mut q = DelayQueue::new();
    q.push(QueuedPacket {
        time: 5,
        payload: vec![1],
    });
    q.push(QueuedPacket {
        time: 5,
        payload: vec![2],
    });
    assert_eq!(q.pop_earliest().unwrap().payload, vec![1]);
    assert_eq!(q.pop_earliest().unwrap().payload, vec![2]);
}

#[test]
fn recommend_either_is_order_sensitive() {
    let list = AllowBlockList {
        allow: AllowList {
            store: Vec::new(),
            not_in_allowlist: Action::Pass,
        },
        block: BlockList {
            store: vec![80u128],
            in_blocklist: Action::Drop,
        },
    };
    // The blocked key masks the other whichever side it stands on, but an
    // Ignore-terminal first key masks a Drop for the second.
    assert_eq!(list.recommend_either(80, 443), Some(Action::Drop));
    assert_eq!(list.recommend_either(443, 80), Some(Action::Drop));
    let masking = AllowBlockList {
        allow: AllowList {
            store: vec![443u128],
            not_in_allowlist: Action::Ignore,
        },
        block: BlockList {
            store: vec![80u128],
            in_blocklist: Action::Drop,
        },
    };
    // 22 is not allowlisted: terminal Ignore, so the blocked 80 never
    // speaks. In the other order 80 speaks first: Drop.
    assert_eq!(masking.recommend_either(22, 80), Some(Action::Ignore));
    assert_eq!(masking.recommend_either(80, 22), Some(Action::Drop));
}

#[test]
fn optimizer_folds_and_truncates() {
    let out = Register {
        ty: RegisterType::Int,
        index: 0,
    };
    let lines = vec![
        // A provably false guard: the line goes away.
        Line {
            condition: Some(Condition {
                lhs: Input::Int(1),
                operator: Operator::Comparison(ComparisonOperator::Less),
                rhs: Input::Int(0),
            }),
            operation: Operation::Return(ProgramAction::TerminateAll),
        },
        Line {
            condition: None,
            operation: Operation::Noop,
        },
        Line {
            condition: None,
            operation: Operation::Return(ProgramAction::AllowAll),
        },
        // Unreachable after the unconditional return.
        Line {
            condition: None,
            operation: Operation::Return(ProgramAction::TerminateAll),
        },
    ];
    let program = Program::new(lines);
    assert_eq!(program.lines.len(), 1);
    assert!(matches!(
        program.lines[0].operation,
        Operation::Return(ProgramAction::AllowAll)
    ));
    // Constant arithmetic that feeds a read becomes a copy of its value.
    let lines2 = vec![
        Line {
            condition: None,
            operation: Operation::Add {
                lhs: Input::Int(2),
                rhs: Input::Int(3),
                out,
            },
        },
        Line {
            condition: Some(Condition {
                lhs: Input::Register(out),
                operator: Operator::Comparison(ComparisonOperator::Equal),
                rhs: Input::Int(5),
            }),
            operation: Operation::Return(ProgramAction::TerminateAll),
        },
    ];
    let program2 = Program::new(lines2);
    assert_eq!(program2.lines.len(), 2);
    assert!(matches!(
        program2.lines[0].operation,
        Operation::Copy {
            from: Input::Int(5),
            ..
        }
    ));
    // Optimizing again changes nothing.
    let mut again = Program {
        lines: program2.lines.clone(),
    };
    again.optimise();
    assert_eq!(again.lines, program2.lines);
}

#[test]
fn optimizer_drops_dead_stores_and_zeroes_unwritten_reads() {
    let r0 = Register {
        ty: RegisterType::Int,
        index: 0,
    };
    let r1 = Register {
        ty: RegisterType::Int,
        index: 1,
    };
    let lines = vec![
        // Stored but never read: deleted.
        Line {
            condition: None,
            operation: Operation::Copy {
                from: Input::Int(9),
                to: r0,
            },
        },
        // Reads a register nothing writes: the read becomes the zero
        // literal, the condition becomes provably true and goes away.
        Line {
            condition: Some(Condition {
                lhs: Input::Register(r1),
                operator: Operator::Comparison(ComparisonOperator::Equal),
                rhs: Input::Int(0),
            }),
            operation: Operation::Return(ProgramAction::TerminateAll),
        },
    ];
    let program = Program::new(lines);
    assert_eq!(program.lines.len(), 1);
    assert_eq!(program.lines[0].condition, None);
    assert!(matches!(
        program.lines[0].operation,
        Operation::Return(ProgramAction::TerminateAll)
    ));
}

#[test]
fn rule_string_keeps_the_comment_verbatim() {
    let args = IpTablesArgs {
        table: String::from("raw"),
        chain_in: String::from("PREROUTING"),
        chain_out: String::from("OUTPUT"),
        queue_num_in: 0,
        queue_num_out: 1,
    };
    let rule_in: IpTablesRule = args.rule_inbound();
    let rule_out: IpTablesRule = args.rule_outbound();
    assert_eq!(
        rule_in.rule_string(),
        "-j NFQUEUE --queue-num 0 -m comment --comment \"CENSORLAB NFQ TAP\""
    );
    assert_eq!(
        rule_out.rule_string(),
        "-j NFQUEUE --queue-num 1 -m comment --comment \"CENSORLAB NFQ TAP\""
    );
    assert!(rule_out.rule_string().contains("CENSORLAB NFQ TAP"));
}

#[test]
fn feature_names_parse() {
    let f = Feature::from_str("w0_p25_Size").unwrap();
    assert_eq!(f.window_num, 0);
    assert_eq!(f.packet_num, 25);
    assert_eq!(f.feature, PacketFeature::Length);
    let g = Feature::from_str("w3_p1_burstdepth").unwrap();
    assert_eq!(g.feature, PacketFeature::BurstDepth);
    assert_eq!(g.window_num, 3);
    assert_eq!(
        Feature::from_str("wx_p1_size"),
        Err(FeatureParseError::InvalidWindowIndex)
    );
    assert_eq!(
        Feature::from_str("w1"),
        Err(FeatureParseError::MissingPacketIndex)
    );
    assert_eq!(
        Feature::from_str("w1_p2"),
        Err(FeatureParseError::MissingFeatureName)
    );
    assert_eq!(
        Feature::from_str("w1_p2_nonsense"),
        Err(FeatureParseError::InvalidFeatureName)
    );
    assert_eq!(
        Feature::from_str("w1_px_size"),
        Err(FeatureParseError::InvalidPacketIndex)
    );
}

#[test]
fn register_writes_enforce_banks() {
    let mut strict = Registers::new(2, false);
    let int0 = Register {
        ty: RegisterType::Int,
        index: 0,
    };
    let bool0 = Register {
        ty: RegisterType::Bool,
        index: 0,
    };
    assert_eq!(strict.set(&int0, &censorlab::program::program::Value::Int(7)), Ok(()));
    assert_eq!(strict.get(&int0), Some(censorlab::program::program::Value::Int(7)));
    assert_eq!(
        strict.set(&bool0, &censorlab::program::program::Value::Int(7)),
        Err(censorlab::program::env::RegisterWriteError::InvalidType)
    );
    let oob = Register {
        ty: RegisterType::Int,
        index: 9,
    };
    assert_eq!(
        strict.set(&oob, &censorlab::program::program::Value::Int(1)),
        Err(censorlab::program::env::RegisterWriteError::InvalidIndex)
    );
    assert_eq!(strict.get(&oob), None);
    // Relaxed banks put the value into the bank of its own type.
    let mut relaxed = Registers::new(2, true);
    assert_eq!(relaxed.set(&bool0, &censorlab::program::program::Value::Int(5)), Ok(()));
    assert_eq!(relaxed.get(&int0), Some(censorlab::program::program::Value::Int(5)));
    assert_eq!(relaxed.get(&bool0), Some(censorlab::program::program::Value::Bool(false)));
}

#[test]
fn ipc_codes_and_frames() {
    assert_eq!(IpcOpcode::try_from(0), Ok(IpcOpcode::UpdateModel));
    assert_eq!(IpcOpcode::try_from(1), Ok(IpcOpcode::Shutdown));
    assert!(IpcOpcode::try_from(9).is_err());
    assert_eq!(ModelScope::from_str("TCP"), Ok(ModelScope::Tcp));
    assert_eq!(ModelScope::from_str("udp"), Ok(ModelScope::Udp));
    assert!(ModelScope::from_str("sctp").is_err());
    // A complete model-update frame.
    let mut frame = vec![0u8, 1u8];
    frame.extend_from_slice(&[3, 0, 0, 0]);
    frame.extend_from_slice(&[0xAA, 0xBB, 0xCC]);
    frame.extend_from_slice(&[2, 0, 0, 0]);
    frame.extend_from_slice(&[0x7B, 0x7D]);
    match censorlab::ipc::parse_request(&frame).unwrap() {
        IpcRequest::UpdateModel {
            scope,
            model_data,
            metadata,
        } => {
            assert_eq!(scope, ModelScope::Udp);
            assert_eq!(model_data, vec![0xAA, 0xBB, 0xCC]);
            assert_eq!(metadata, vec![0x7B, 0x7D]);
        }
        _ => panic!("expected a model update"),
    }
    assert!(matches!(
        censorlab::ipc::parse_request(&[1u8]).unwrap(),
        IpcRequest::Shutdown
    ));
    assert!(censorlab::ipc::parse_request(&[0u8, 1, 9, 0, 0, 0]).is_err());
    assert!(censorlab::ipc::parse_request(&[7u8]).is_err());
}

#[test]
fn register_labels_and_fields() {
    let r = Register {
        ty: RegisterType::Int,
        index: 12,
    };
    assert_eq!(r.to_label(), "reg_i_12");
    let b = Register {
        ty: RegisterType::Bool,
        index: 0,
    };
    assert_eq!(b.to_label(), "reg_b_0");
    assert_eq!(censorlab::program::field::Field::all().len(), 32);
    assert_eq!(
        censorlab::program::field::Field::all()[0],
        censorlab::program::field::Field::Env(censorlab::program::field::EnvField::NumPackets)
    );
    assert_eq!(censorlab::program::field::V4Field::all().len(), 7);
    assert_eq!(censorlab::program::field::V6Field::all().len(), 3);
    assert_eq!(censorlab::program::program::Operator::all().len(), 12);
}

#[test]
fn arp_cache_memoizes() {
    let mut cache = censorlab::arp::ArpCache::new();
    let ip = IpAddress::V4(0x0A000001);
    assert_eq!(cache.lookup(ip), None);
    cache.insert(ip, 0x0000AA000001);
    assert_eq!(cache.lookup(ip), Some(0x0000AA000001));
    cache.insert(ip, 0x0000AA000002);
    assert_eq!(cache.lookup(ip), Some(0x0000AA000002));
    assert_eq!(cache.entries.len(), 1);
    assert_eq!(
        censorlab::arp::reset_mac(None, ip, IpAddress::V4(9), Some(0xDD)),
        0xDD
    );
    assert_eq!(censorlab::arp::reset_mac(None, ip, ip, Some(0xDD)), 0);
    assert_eq!(censorlab::arp::reset_mac(Some(0x55), ip, ip, None), 0x55);
}

#[test]
fn script_verdicts_map_to_actions() {
    let transport = TransportMetadata {
        src: 1,
        dst: 2,
        extra: TransportMetadataExtra::Tcp(TcpMetadata {
            seq: 10,
            ack: 20,
            header_len: 20,
            urgent_at: 0,
            window_len: 0,
            flags: no_flags(),
        }),
    };
    let ips = IpPair::V4 { src: 5, dst: 6 };
    let reset = censorlab::action::action_from_script_result("ReSeT", ips, &transport, 17);
    match reset {
        Action::Reset {
            src_port,
            dst_port,
            seq,
            ack,
            payload_len,
            ..
        } => {
            assert_eq!((src_port, dst_port, seq, ack, payload_len), (1, 2, 10, 20, 17));
        }
        _ => panic!("expected a reset"),
    }
    assert_eq!(
        censorlab::action::action_from_script_result("DROP", ips, &transport, 0),
        Action::Drop
    );
    assert_eq!(
        censorlab::action::action_from_script_result("allow", ips, &transport, 0),
        Action::Pass
    );
    assert_eq!(
        censorlab::action::action_from_script_result("inject foo", ips, &transport, 0),
        Action::Pass
    );
}

#[test]
fn model_table_plans_inference() {
    let mut table = censorlab::model::ModelTable::new();
    assert_eq!(
        table.plan_inference(&String::from("tcp"), 4),
        Err(censorlab::model::ModelError::ModelNotFound)
    );
    table.insert(censorlab::model::ModelEntry {
        name: String::from("tcp"),
        input_rows: 1,
        input_cols: 4,
        output_len: 3,
    });
    assert_eq!(table.plan_inference(&String::from("tcp"), 4), Ok((0, 3)));
    assert_eq!(
        table.plan_inference(&String::from("tcp"), 5),
        Err(censorlab::model::ModelError::ShapeMismatch)
    );
    assert_eq!(
        table.plan_inference(&String::from("udp"), 4),
        Err(censorlab::model::ModelError::ModelNotFound)
    );
    // A reinstalled name is replaced in place.
    table.insert(censorlab::model::ModelEntry {
        name: String::from("tcp"),
        input_rows: 1,
        input_cols: 6,
        output_len: 2,
    });
    assert_eq!(table.entries.len(), 1);
    assert_eq!(table.plan_inference(&String::from("tcp"), 6), Ok((0, 2)));
}

#[test]
fn pcapng_blocks_parse() {
    let mut file: Vec<u8> = Vec::new();
    // Section header: little-endian byte-order magic.
    file.extend_from_slice(&[0x0A, 0x0D, 0x0D, 0x0A]);
    file.extend_from_slice(&28u32.to_le_bytes());
    file.extend_from_slice(&0x1A2B3C4Du32.to_le_bytes());
    file.extend_from_slice(&[1, 0, 0, 0]);
    file.extend_from_slice(&[0xFF; 8]);
    file.extend_from_slice(&28u32.to_le_bytes());
    // Interface description: nanosecond resolution via the tsresol option.
    file.extend_from_slice(&1u32.to_le_bytes());
    file.extend_from_slice(&28u32.to_le_bytes());
    file.extend_from_slice(&[1, 0, 0, 0]); // link type and reserved
    file.extend_from_slice(&0u32.to_le_bytes()); // snap length
    file.extend_from_slice(&[9, 0, 1, 0, 9, 0, 0, 0]); // tsresol = 9, padded
    file.extend_from_slice(&28u32.to_le_bytes());
    // Enhanced packet: a four-byte frame, timestamp 3.000000123 seconds.
    file.extend_from_slice(&6u32.to_le_bytes());
    file.extend_from_slice(&36u32.to_le_bytes());
    file.extend_from_slice(&0u32.to_le_bytes()); // interface
    file.extend_from_slice(&0u32.to_le_bytes()); // timestamp high
    file.extend_from_slice(&3_000_000_123u32.to_le_bytes()); // timestamp low
    file.extend_from_slice(&4u32.to_le_bytes()); // captured length
    file.extend_from_slice(&4u32.to_le_bytes()); // original length
    file.extend_from_slice(&[0xDE, 0xAD, 0xBE, 0xEF]);
    file.extend_from_slice(&36u32.to_le_bytes());

    assert!(censorlab::pcap::check_pcapng_magic(&file));
    let shb = censorlab::pcap::parse_ng_block(&file, 0).unwrap();
    assert_eq!(shb.block_type, censorlab::pcap::PCAPNG_SECTION_HEADER);
    assert!(censorlab::pcap::section_little_endian(&file, &shb));
    let idb = censorlab::pcap::parse_ng_block(&file, shb.next).unwrap();
    assert_eq!(idb.block_type, censorlab::pcap::PCAPNG_INTERFACE_DESCRIPTION);
    let (tsresol, ts_offset) = censorlab::pcap::parse_interface_description(&file, &idb);
    assert_eq!((tsresol, ts_offset), (9, 0));
    let epb = censorlab::pcap::parse_ng_block(&file, idb.next).unwrap();
    assert_eq!(epb.block_type, censorlab::pcap::PCAPNG_ENHANCED_PACKET);
    let frame = censorlab::pcap::parse_enhanced_packet(&file, &epb).unwrap();
    assert!(frame.has_ts);
    assert_eq!(&file[frame.frame_start..frame.frame_end], &[0xDE, 0xAD, 0xBE, 0xEF]);
    let ts = censorlab::pcap::ng_timestamp(frame.ts, tsresol, ts_offset);
    assert_eq!(ts.secs, 3);
    assert_eq!(ts.micros, 0);
    // The default microsecond resolution, with an offset.
    let ts2 = censorlab::pcap::ng_timestamp(1_500_000, 6, 100);
    assert_eq!(ts2.secs, 101);
    assert_eq!(ts2.micros, 500_000);
    assert_eq!(epb.next, file.len());
    // A simple packet block stands alone, without a timestamp.
    let mut spb: Vec<u8> = Vec::new();
    spb.extend_from_slice(&3u32.to_le_bytes());
    spb.extend_from_slice(&20u32.to_le_bytes());
    spb.extend_from_slice(&2u32.to_le_bytes()); // original length
    spb.extend_from_slice(&[0xAB, 0xCD, 0, 0]);
    spb.extend_from_slice(&20u32.to_le_bytes());
    let b = censorlab::pcap::parse_ng_block(&spb, 0).unwrap();
    let f = censorlab::pcap::parse_simple_packet(&spb, &b).unwrap();
    assert!(!f.has_ts);
    assert_eq!(&spb[f.frame_start..f.frame_end], &[0xAB, 0xCD]);
}
