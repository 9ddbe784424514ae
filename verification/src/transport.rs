//! Flow identity and per-flow state: the canonical connection key, the
//! table of live flows, and the per-packet processing that feeds a flow's
//! policy environment.

use vstd::prelude::*;

use crate::action::Action;
use crate::packet::{
    IpAddress,
    IpPair,
    Packet,
    PacketModel,
    TransportMetadataExtra,
    TransportProtocol,
};
use crate::program::config::Config;
use crate::program::env::{spec_env_process, ProgramEnv};
use crate::program::program::{Action as ProgramAction, Program};

verus! {

/// A connection key resolves to the same value for both directions of a
/// flow: the address pair is sorted, and the ports follow their addresses.
#[derive(Clone, Copy, Debug, PartialEq, Eq, Structural)]
pub struct ConnectionKey {
    /// The lower address, by the address order.
    pub addr_low: IpAddress,
    /// The higher address.
    pub addr_high: IpAddress,
    /// The port of the lower address.
    pub port_low: u16,
    /// The port of the higher address.
    pub port_high: u16,
    /// The transport protocol.
    pub proto: TransportProtocol,
}

impl ConnectionKey {
    /// Whether one endpoint sorts at or before another: by address first,
    /// and by port between equal addresses.
    pub open spec fn spec_endpoint_le(ip_1: IpAddress, port_1: u16, ip_2: IpAddress, port_2: u16) -> bool {
        if ip_1 == ip_2 {
            port_1 <= port_2
        } else {
            ip_1.spec_le(ip_2)
        }
    }

    /// The key of a packet with the given addresses and ports: the two
    /// endpoints are sorted as (address, port) pairs, so that both
    /// directions of any flow share one key.
    pub open spec fn spec_new(
        ips: IpPair,
        port_1: u16,
        port_2: u16,
        proto: TransportProtocol,
    ) -> ConnectionKey {
        let ip_1 = ips.spec_src();
        let ip_2 = ips.spec_dst();
        if ConnectionKey::spec_endpoint_le(ip_1, port_1, ip_2, port_2) {
            ConnectionKey {
                addr_low: ip_1,
                addr_high: ip_2,
                port_low: port_1,
                port_high: port_2,
                proto,
            }
        } else {
            ConnectionKey {
                addr_low: ip_2,
                addr_high: ip_1,
                port_low: port_2,
                port_high: port_1,
                proto,
            }
        }
    }

    /// Construct the key of a packet.
    pub fn new(ips: IpPair, port_1: u16, port_2: u16, proto: TransportProtocol) -> (r:
        ConnectionKey)
        ensures
            r == ConnectionKey::spec_new(ips, port_1, port_2, proto),
    {
        let ip_1 = ips.src();
        let ip_2 = ips.dst();
        let forward = if ip_1 == ip_2 {
            port_1 <= port_2
        } else {
            ip_1.le(&ip_2)
        };
        if forward {
            ConnectionKey {
                addr_low: ip_1,
                addr_high: ip_2,
                port_low: port_1,
                port_high: port_2,
                proto,
            }
        } else {
            ConnectionKey {
                addr_low: ip_2,
                addr_high: ip_1,
                port_low: port_2,
                port_high: port_1,
                proto,
            }
        }
    }
}

/// Both directions of a flow share one key: the key of any packet equals
/// the key of the reversed packet.
pub proof fn lemma_connection_key_symmetric(
    ips: IpPair,
    port_1: u16,
    port_2: u16,
    proto: TransportProtocol,
)
    ensures
        ConnectionKey::spec_new(ips, port_1, port_2, proto) == ConnectionKey::spec_new(
            ips.spec_swap(),
            port_2,
            port_1,
            proto,
        ),
{
}

/// How the policy engine of a flow is chosen.
#[derive(Clone, Copy, Debug, PartialEq, Eq, Structural)]
pub enum ExecutionMode {
    /// A general script interpreter, run outside the verified core.
    Python,
    /// The register-machine program interpreter.
    CensorLang,
}

/// What one flow remembers: its policy environment and whether its first
/// packet is still to come.
#[derive(Clone, Debug)]
pub struct ConnectionInfo {
    pub env: ProgramEnv,
    pub is_first: bool,
}

/// What a program's action means for the censor: the default lets the
/// packet through; a flow latched to allow everything stops inspection
/// but forwards; a terminated flow is reset where it is TCP, from the
/// packet's own transport state, and dropped where it is UDP.
pub open spec fn spec_censor_action(a: ProgramAction, p: PacketModel, ips: IpPair) -> Action {
    match a {
        ProgramAction::Allow => Action::Pass,
        ProgramAction::AllowAll => Action::Ignore,
        ProgramAction::TerminateAll => match p.transport.extra {
            TransportMetadataExtra::Tcp(m) => Action::Reset {
                src_mac: 0,
                dst_mac: 0,
                ips,
                ipid: None,
                src_port: p.transport.src,
                dst_port: p.transport.dst,
                seq: m.seq,
                ack: m.ack,
                payload_len: p.payload.len() as usize,
            },
            TransportMetadataExtra::Udp(_) => Action::Drop,
        },
    }
}

/// The index of a key in the flow table, where it stands.
pub open spec fn spec_find_key(s: Seq<(ConnectionKey, ConnectionInfo)>, key: ConnectionKey) -> Option<
    int,
>
    decreases s.len(),
{
    if s.len() == 0 {
        None
    } else if s[0].0 == key {
        Some(0)
    } else {
        match spec_find_key(s.skip(1), key) {
            Some(i) => Some(i + 1),
            None => None,
        }
    }
}

/// A found index names the key it was found under.
proof fn lemma_find_key_hit(s: Seq<(ConnectionKey, ConnectionInfo)>, key: ConnectionKey, i: int)
    requires
        spec_find_key(s, key) == Some(i),
    ensures
        0 <= i < s.len(),
        s[i].0 == key,
    decreases s.len(),
{
    if s.len() > 0 {
        if s[0].0 == key {
        } else {
            lemma_find_key_hit(s.skip(1), key, i - 1);
        }
    }
}

/// The aggregate state of all live flows and the policy that drives them.
#[derive(Clone, Debug)]
pub struct TransportState {
    /// The flow table: one entry per live connection key.
    pub connections: Vec<(ConnectionKey, ConnectionInfo)>,
    /// How per-flow policy runs.
    pub execution_mode: ExecutionMode,
    /// The program that the register-machine mode runs.
    pub program: Program,
    /// The interpreter configuration.
    pub config: Config,
}

/// What processing one packet does to the transport state, in the
/// register-machine mode: the packet's flow is created on first sight,
/// its environment takes the packet, and the program's verdict becomes
/// the censor's action.
pub open spec fn spec_transport_post(
    pre: TransportState,
    post: TransportState,
    ips: IpPair,
    p: PacketModel,
    r: Action,
) -> bool {
    let key = ConnectionKey::spec_new(
        ips,
        p.transport.src,
        p.transport.dst,
        p.transport.extra.spec_protocol(),
    );
    &&& post.execution_mode == pre.execution_mode
    &&& post.program == pre.program
    &&& post.config == pre.config
    &&& match pre.execution_mode {
        ExecutionMode::Python => post.connections@ == pre.connections@ && r == Action::Pass,
        ExecutionMode::CensorLang => match spec_find_key(pre.connections@, key) {
            Some(i) => {
                let t = spec_env_process(
                    pre.connections@[i].1.env@,
                    p,
                    pre.program@,
                    pre.config.env.field_default_on_error,
                );
                &&& post.connections@.len() == pre.connections@.len()
                &&& forall|j: int|
                    0 <= j < pre.connections@.len() && j != i ==> post.connections@[j]
                        == pre.connections@[j]
                &&& post.connections@[i].0 == key
                &&& post.connections@[i].1.env@ == t.0
                &&& post.connections@[i].1.is_first == false
                &&& r == spec_censor_action(t.1, p, ips)
            },
            None => {
                let fresh = ProgramEnv::new_model(
                    crate::packet::spec_model_connection_identifier(p),
                    pre.config.program.num_registers as nat,
                    pre.config.env.relax_register_types,
                );
                let t = spec_env_process(
                    fresh,
                    p,
                    pre.program@,
                    pre.config.env.field_default_on_error,
                );
                &&& post.connections@.len() == pre.connections@.len() + 1
                &&& forall|j: int|
                    0 <= j < pre.connections@.len() ==> post.connections@[j]
                        == pre.connections@[j]
                &&& post.connections@[pre.connections@.len() as int].0 == key
                &&& post.connections@[pre.connections@.len() as int].1.env@ == t.0
                &&& post.connections@[pre.connections@.len() as int].1.is_first == false
                &&& r == spec_censor_action(t.1, p, ips)
            },
        },
    }
}

impl TransportState {
    /// A fresh state with no live flows.
    pub fn new(execution_mode: ExecutionMode, program: Program, config: Config) -> (r:
        TransportState)
        ensures
            r.connections@.len() == 0,
            r.execution_mode == execution_mode,
            r.program == program,
            r.config == config,
    {
        TransportState { connections: Vec::new(), execution_mode, program, config }
    }

    /// The index of a key in the flow table, where it stands.
    fn find_key(&self, key: &ConnectionKey) -> (r: Option<usize>)
        ensures
            match r {
                Some(i) => spec_find_key(self.connections@, *key) == Some(i as int) && i
                    < self.connections@.len(),
                None => spec_find_key(self.connections@, *key) is None,
            },
    {
        let n = self.connections.len();
        let mut i: usize = 0;
        proof {
            assert(self.connections@.skip(0) =~= self.connections@);
        }
        while i < n
            invariant
                i <= n,
                n == self.connections@.len(),
                spec_find_key(self.connections@, *key) == match spec_find_key(
                    self.connections@.skip(i as int),
                    *key,
                ) {
                    Some(j) => Some(j + i),
                    None => None,
                },
        decreases n - i,
        {
            proof {
                assert(self.connections@.skip(i as int)[0] == self.connections@[i as int]);
                assert(self.connections@.skip(i as int).skip(1) =~= self.connections@.skip(i + 1));
            }
            if self.connections[i].0 == *key {
                return Some(i);
            }
            i = i + 1;
        }
        proof {
            assert(self.connections@.skip(n as int) =~= Seq::<(ConnectionKey, ConnectionInfo)>::empty());
        }
        None
    }

    /// Process one packet: create its flow on first sight, run its policy
    /// environment, and map the program's verdict to the censor's action.
    /// The script mode is run outside the verified core, so here it leaves
    /// the table alone and lets the packet pass.
    pub fn process(&mut self, ips: IpPair, packet: &Packet) -> (r: Action)
        ensures
            spec_transport_post(*old(self), *final(self), ips, packet@, r),
    {
        if matches!(self.execution_mode, ExecutionMode::Python) {
            return Action::Pass;
        }
        let key = ConnectionKey::new(
            ips,
            packet.transport.src,
            packet.transport.dst,
            packet.transport_proto(),
        );
        let program_action: ProgramAction;
        match self.find_key(&key) {
            Some(i) => {
                let ghost pre = self.connections@;
                let (found_key, mut info) = self.connections.remove(i);
                program_action = info.env.process(
                    packet,
                    &self.program,
                    self.config.env.field_default_on_error,
                );
                info.is_first = false;
                self.connections.insert(i, (found_key, info));
                proof {
                    assert(found_key == key) by {
                        lemma_find_key_hit(pre, key, i as int);
                    }
                    assert(forall|j: int|
                        0 <= j < pre.len() && j != i ==> self.connections@[j] == pre[j]);
                }
            },
            None => {
                let mut env = ProgramEnv::new(packet.connection_identifier(), &self.config);
                program_action = env.process(
                    packet,
                    &self.program,
                    self.config.env.field_default_on_error,
                );
                self.connections.push((key, ConnectionInfo { env, is_first: false }));
            },
        }
        match program_action {
            ProgramAction::Allow => Action::Pass,
            ProgramAction::AllowAll => Action::Ignore,
            ProgramAction::TerminateAll => match &packet.transport.extra {
                TransportMetadataExtra::Tcp(m) => Action::Reset {
                    src_mac: 0,
                    dst_mac: 0,
                    ips,
                    ipid: None,
                    src_port: packet.transport.src,
                    dst_port: packet.transport.dst,
                    seq: m.seq,
                    ack: m.ack,
                    payload_len: packet.payload.len(),
                },
                TransportMetadataExtra::Udp(_) => Action::Drop,
            },
        }
    }
}

} // verus!
