//! The per-flow execution environment of the program interpreter: the
//! register banks, the per-flow counters, and the environment that latches
//! a terminal action and tracks the TCP close handshake.

use vstd::prelude::*;

use crate::packet::{
    spec_model_connection_identifier,
    ConnectionIdentifier,
    Direction,
    Packet,
    PacketModel,
    TransportMetadataExtra,
    TransportProtocol,
};
use crate::program::config::Config;
use crate::program::program::{
    spec_program_run,
    Action,
    Program,
    Register,
    RegisterType,
    Value,
};

verus! {

/// Why a register write was refused.
#[derive(Clone, Copy, Debug, PartialEq, Eq, Structural)]
pub enum RegisterWriteError {
    /// The value's type does not match the register's bank, and cross-bank
    /// writes are not relaxed.
    InvalidType,
    /// The register index lies outside its bank.
    InvalidIndex,
}

/// The mathematical model of the register file.
pub struct RegistersModel {
    pub int: Seq<i64>,
    pub bool: Seq<bool>,
    pub relax_register_types: bool,
}

/// The two register banks of one flow, of equal configurable width.
#[derive(Clone, Debug)]
pub struct Registers {
    /// Register bank of integers.
    pub int: Vec<i64>,
    /// Register bank of booleans.
    pub bool: Vec<bool>,
    /// Whether values are put into the bank of their own type even when
    /// the named register belongs to the other bank.
    pub relax_register_types: bool,
}

impl View for Registers {
    type V = RegistersModel;

    open spec fn view(&self) -> RegistersModel {
        RegistersModel {
            int: self.int@,
            bool: self.bool@,
            relax_register_types: self.relax_register_types,
        }
    }
}

/// What reading a register yields: the value of its bank at its index, or
/// nothing outside the bank.
pub open spec fn spec_reg_get(regs: RegistersModel, r: Register) -> Option<Value> {
    match r.ty {
        RegisterType::Int => if r.index < regs.int.len() {
            Some(Value::Int(regs.int[r.index as int]))
        } else {
            None
        },
        RegisterType::Bool => if r.index < regs.bool.len() {
            Some(Value::Bool(regs.bool[r.index as int]))
        } else {
            None
        },
    }
}

/// What writing a register yields: the value lands in the bank of its own
/// type when the register is of that type or writes are relaxed; an index
/// outside the bank or a type mismatch is an error, and the registers are
/// unchanged.
pub open spec fn spec_reg_set(regs: RegistersModel, r: Register, v: Value) -> Result<
    RegistersModel,
    RegisterWriteError,
> {
    match v {
        Value::Int(i) => if r.ty == RegisterType::Int || regs.relax_register_types {
            if r.index < regs.int.len() {
                Ok(RegistersModel { int: regs.int.update(r.index as int, i), ..regs })
            } else {
                Err(RegisterWriteError::InvalidIndex)
            }
        } else {
            Err(RegisterWriteError::InvalidType)
        },
        Value::Bool(b) => if r.ty == RegisterType::Bool || regs.relax_register_types {
            if r.index < regs.bool.len() {
                Ok(RegistersModel { bool: regs.bool.update(r.index as int, b), ..regs })
            } else {
                Err(RegisterWriteError::InvalidIndex)
            }
        } else {
            Err(RegisterWriteError::InvalidType)
        },
    }
}

impl Registers {
    /// Fresh register banks: every integer register zero, every boolean
    /// register false.
    pub fn new(num_registers: usize, relax_register_types: bool) -> (r: Registers)
        ensures
            r@.int =~= Seq::new(num_registers as nat, |i: int| 0i64),
            r@.bool =~= Seq::new(num_registers as nat, |i: int| false),
            r@.relax_register_types == relax_register_types,
            r@.int.len() == num_registers,
            r@.bool.len() == num_registers,
    {
        let mut int_bank: Vec<i64> = Vec::new();
        let mut i: usize = 0;
        while i < num_registers
            invariant
                i <= num_registers,
                int_bank@ =~= Seq::new(i as nat, |k: int| 0i64),
            decreases num_registers - i,
        {
            int_bank.push(0);
            proof {
                assert(int_bank@ =~= Seq::new((i + 1) as nat, |k: int| 0i64));
            }
            i = i + 1;
        }
        let mut bool_bank: Vec<bool> = Vec::new();
        let mut j: usize = 0;
        while j < num_registers
            invariant
                j <= num_registers,
                bool_bank@ =~= Seq::new(j as nat, |k: int| false),
            decreases num_registers - j,
        {
            bool_bank.push(false);
            proof {
                assert(bool_bank@ =~= Seq::new((j + 1) as nat, |k: int| false));
            }
            j = j + 1;
        }
        Registers { int: int_bank, bool: bool_bank, relax_register_types }
    }

    /// Read the value of a register.
    pub fn get(&self, register: &Register) -> (r: Option<Value>)
        ensures
            r == spec_reg_get(self@, *register),
    {
        match register.ty {
            RegisterType::Int => {
                if register.index < self.int.len() {
                    Some(Value::Int(self.int[register.index]))
                } else {
                    None
                }
            },
            RegisterType::Bool => {
                if register.index < self.bool.len() {
                    Some(Value::Bool(self.bool[register.index]))
                } else {
                    None
                }
            },
        }
    }

    /// Write the value of a register.
    pub fn set(&mut self, register: &Register, value: &Value) -> (r: Result<
        (),
        RegisterWriteError,
    >)
        ensures
            match r {
                Ok(()) => spec_reg_set(old(self)@, *register, *value) == Ok::<
                    RegistersModel,
                    RegisterWriteError,
                >(final(self)@),
                Err(e) => spec_reg_set(old(self)@, *register, *value) == Err::<
                    RegistersModel,
                    RegisterWriteError,
                >(e) && final(self)@ == old(self)@,
            },
    {
        match value {
            Value::Int(i) => {
                if matches!(register.ty, RegisterType::Int) || self.relax_register_types {
                    if register.index < self.int.len() {
                        self.int.set(register.index, *i);
                        Ok(())
                    } else {
                        Err(RegisterWriteError::InvalidIndex)
                    }
                } else {
                    Err(RegisterWriteError::InvalidType)
                }
            },
            Value::Bool(b) => {
                if matches!(register.ty, RegisterType::Bool) || self.relax_register_types {
                    if register.index < self.bool.len() {
                        self.bool.set(register.index, *b);
                        Ok(())
                    } else {
                        Err(RegisterWriteError::InvalidIndex)
                    }
                } else {
                    Err(RegisterWriteError::InvalidType)
                }
            },
        }
    }
}

/// The per-flow counters a program can read.
#[derive(Clone, Copy, Debug, PartialEq, Eq, Structural)]
pub struct EnvFields {
    /// How many packets of the flow have been handed to the program.
    pub num_packets: u32,
}

} // verus!

verus! {

/// State tracked beside the program: the TCP close handshake, by
/// direction, and whether a payload-bearing packet has arrived.
#[derive(Clone, Copy, Debug, PartialEq, Eq, Structural, Default)]
pub struct Hidden {
    pub fin_ack_from: bool,
    pub fin_ack_to: bool,
    pub has_received_first_data_packet: bool,
}

impl Hidden {
    /// How one TCP packet advances the tracker: a FIN with ACK latches the
    /// close flag of its direction, and a non-empty payload latches the
    /// first-data flag.
    pub open spec fn spec_process(self, p: PacketModel, direction: Direction) -> Hidden {
        match p.transport.extra {
            TransportMetadataExtra::Tcp(m) => {
                let h1 = if m.flags.fin && m.flags.ack {
                    match direction {
                        Direction::FromInitiator => Hidden { fin_ack_from: true, ..self },
                        Direction::ToInitiator => Hidden { fin_ack_to: true, ..self },
                    }
                } else {
                    self
                };
                if p.payload.len() > 0 {
                    Hidden { has_received_first_data_packet: true, ..h1 }
                } else {
                    h1
                }
            },
            TransportMetadataExtra::Udp(_) => self,
        }
    }

    pub fn process(&mut self, packet: &Packet, direction: &Direction)
        ensures
            *final(self) == old(self).spec_process(packet@, *direction),
    {
        if let TransportMetadataExtra::Tcp(m) = &packet.transport.extra {
            if m.flags.fin && m.flags.ack {
                match direction {
                    Direction::FromInitiator => {
                        self.fin_ack_from = true;
                    },
                    Direction::ToInitiator => {
                        self.fin_ack_to = true;
                    },
                }
            }
            if packet.payload.len() > 0 {
                self.has_received_first_data_packet = true;
            }
        }
    }

    /// The flow is finished when both directions have shown FIN with ACK.
    pub fn is_finished(&self) -> (r: bool)
        ensures
            r == (self.fin_ack_from && self.fin_ack_to),
    {
        self.fin_ack_from && self.fin_ack_to
    }
}

/// The per-flow program environment of a TCP flow.
#[derive(Clone, Copy, Debug, PartialEq, Eq, Structural)]
pub struct TcpProgramEnv {
    /// The five-tuple of the first packet, so the derived direction is
    /// stable.
    pub init_id: ConnectionIdentifier,
    /// The latched terminal action.
    pub default_action: Action,
    /// Packets handed to this environment.
    pub total_processed: u32,
    /// Packets that ran to the end of processing.
    pub last_fully_processed: u32,
    /// State tracked beside the program.
    pub hidden: Hidden,
}

/// What processing one packet through a TCP flow environment yields: the
/// new environment, the new registers, and the action. A latched
/// `AllowAll` skips the program and allows the packet; a latched
/// `TerminateAll` skips the program and terminates; otherwise the packet
/// runs through the program, whose `AllowAll` or `TerminateAll` return
/// latches the default action, and an error leaves it unchanged.
pub open spec fn spec_tcp_process(
    env: TcpProgramEnv,
    p: PacketModel,
    lines: Seq<crate::program::program::Line>,
    regs: RegistersModel,
    fields: EnvFields,
    default_on_error: bool,
) -> (TcpProgramEnv, RegistersModel, Action) {
    let env1 = TcpProgramEnv {
        total_processed: vstd::wrapping::u32_specs::wrapping_add(env.total_processed, 1),
        ..env
    };
    match env.default_action {
        Action::AllowAll => (env1, regs, Action::Allow),
        Action::TerminateAll => (env1, regs, Action::TerminateAll),
        Action::Allow => {
            let stepped = if p.transport.extra is Tcp {
                match env.init_id.spec_direction(spec_model_connection_identifier(p)) {
                    Some(dir) => {
                        let hidden2 = env.hidden.spec_process(p, dir);
                        let t = spec_program_run(lines, p, regs, fields, default_on_error);
                        let new_default = match t.1 {
                            Ok(Action::AllowAll) => Action::AllowAll,
                            Ok(Action::TerminateAll) => Action::TerminateAll,
                            _ => Action::Allow,
                        };
                        (
                            TcpProgramEnv { hidden: hidden2, default_action: new_default, ..env1 },
                            t.0,
                        )
                    },
                    None => (env1, regs),
                }
            } else {
                (env1, regs)
            };
            let env2 = TcpProgramEnv {
                last_fully_processed: vstd::wrapping::u32_specs::wrapping_add(
                    env.last_fully_processed,
                    1,
                ),
                ..stepped.0
            };
            (env2, stepped.1, env2.default_action)
        },
    }
}

impl TcpProgramEnv {
    /// A fresh environment for a flow whose first packet carried `id`.
    pub fn new(id: ConnectionIdentifier) -> (r: TcpProgramEnv)
        ensures
            r == (TcpProgramEnv {
                init_id: id,
                default_action: Action::Allow,
                total_processed: 0,
                last_fully_processed: 0,
                hidden: Hidden {
                    fin_ack_from: false,
                    fin_ack_to: false,
                    has_received_first_data_packet: false,
                },
            }),
    {
        TcpProgramEnv {
            init_id: id,
            default_action: Action::Allow,
            total_processed: 0,
            last_fully_processed: 0,
            hidden: Hidden {
                fin_ack_from: false,
                fin_ack_to: false,
                has_received_first_data_packet: false,
            },
        }
    }

    /// Process one packet.
    pub fn process(
        &mut self,
        packet: &Packet,
        program: &Program,
        registers: &mut Registers,
        fields: &EnvFields,
        field_default_on_error: bool,
    ) -> (r: Action)
        ensures
            ({
                let t = spec_tcp_process(
                    *old(self),
                    packet@,
                    program@,
                    old(registers)@,
                    *fields,
                    field_default_on_error,
                );
                *final(self) == t.0 && final(registers)@ == t.1 && r == t.2
            }),
    {
        self.total_processed = self.total_processed.wrapping_add(1);
        match self.default_action {
            Action::AllowAll => Action::Allow,
            Action::TerminateAll => Action::TerminateAll,
            Action::Allow => {
                if matches!(packet.transport.extra, TransportMetadataExtra::Tcp(_)) {
                    let packet_id = packet.connection_identifier();
                    if let Some(direction) = self.init_id.direction(&packet_id) {
                        self.hidden.process(packet, &direction);
                        match program.run(packet, registers, fields, field_default_on_error) {
                            Ok(Action::Allow) => {},
                            Ok(Action::AllowAll) => {
                                self.default_action = Action::AllowAll;
                            },
                            Ok(Action::TerminateAll) => {
                                self.default_action = Action::TerminateAll;
                            },
                            Err(_) => {},
                        }
                    }
                }
                self.last_fully_processed = self.last_fully_processed.wrapping_add(1);
                self.default_action
            },
        }
    }

    /// The flow is finished when both directions have shown FIN with ACK.
    pub fn is_finished(&self) -> (r: bool)
        ensures
            r == (self.hidden.fin_ack_from && self.hidden.fin_ack_to),
    {
        self.hidden.is_finished()
    }

    pub fn has_received_first_data_packet(&self) -> (r: bool)
        ensures
            r == self.hidden.has_received_first_data_packet,
    {
        self.hidden.has_received_first_data_packet
    }
}

/// A latched terminal action stays latched: once the default action is
/// `TerminateAll`, every later packet of the flow is terminated without
/// running the program or touching the registers; once it is `AllowAll`,
/// every later packet is allowed the same way.
pub proof fn lemma_terminal_action_latch(
    env: TcpProgramEnv,
    p: PacketModel,
    lines: Seq<crate::program::program::Line>,
    regs: RegistersModel,
    fields: EnvFields,
    default_on_error: bool,
)
    requires
        env.default_action == Action::TerminateAll || env.default_action == Action::AllowAll,
    ensures
        ({
            let t = spec_tcp_process(env, p, lines, regs, fields, default_on_error);
            &&& t.0.default_action == env.default_action
            &&& t.1 == regs
            &&& t.2 == (if env.default_action is TerminateAll {
                Action::TerminateAll
            } else {
                Action::Allow
            })
        }),
{
}

/// The per-flow program environment of a UDP flow.
#[derive(Clone, Copy, Debug, PartialEq, Eq, Structural)]
pub struct UdpProgramEnv {
    /// The five-tuple of the first packet.
    pub init_id: ConnectionIdentifier,
    /// The latched terminal action.
    pub default_action: Action,
    /// Packets handed to this environment.
    pub total_processed: u32,
    /// Packets that ran to the end of processing.
    pub last_fully_processed: u32,
    /// Whether a payload-bearing packet has arrived.
    pub has_received_first_data_packet: bool,
}

/// What processing one packet through a UDP flow environment yields,
/// mirroring the TCP environment without the close-handshake tracking.
pub open spec fn spec_udp_process(
    env: UdpProgramEnv,
    p: PacketModel,
    lines: Seq<crate::program::program::Line>,
    regs: RegistersModel,
    fields: EnvFields,
    default_on_error: bool,
) -> (UdpProgramEnv, RegistersModel, Action) {
    let env1 = UdpProgramEnv {
        total_processed: vstd::wrapping::u32_specs::wrapping_add(env.total_processed, 1),
        ..env
    };
    match env.default_action {
        Action::AllowAll => (env1, regs, Action::Allow),
        Action::TerminateAll => (env1, regs, Action::TerminateAll),
        Action::Allow => {
            let stepped = if p.transport.extra is Udp {
                match env.init_id.spec_direction(spec_model_connection_identifier(p)) {
                    Some(dir) => {
                        let first_data = env.has_received_first_data_packet || p.payload.len() > 0;
                        let t = spec_program_run(lines, p, regs, fields, default_on_error);
                        let new_default = match t.1 {
                            Ok(Action::AllowAll) => Action::AllowAll,
                            Ok(Action::TerminateAll) => Action::TerminateAll,
                            _ => Action::Allow,
                        };
                        (
                            UdpProgramEnv {
                                has_received_first_data_packet: first_data,
                                default_action: new_default,
                                ..env1
                            },
                            t.0,
                        )
                    },
                    None => (env1, regs),
                }
            } else {
                (env1, regs)
            };
            let env2 = UdpProgramEnv {
                last_fully_processed: vstd::wrapping::u32_specs::wrapping_add(
                    env.last_fully_processed,
                    1,
                ),
                ..stepped.0
            };
            (env2, stepped.1, env2.default_action)
        },
    }
}

impl UdpProgramEnv {
    /// A fresh environment for a flow whose first packet carried `id`.
    pub fn new(id: ConnectionIdentifier) -> (r: UdpProgramEnv)
        ensures
            r == (UdpProgramEnv {
                init_id: id,
                default_action: Action::Allow,
                total_processed: 0,
                last_fully_processed: 0,
                has_received_first_data_packet: false,
            }),
    {
        UdpProgramEnv {
            init_id: id,
            default_action: Action::Allow,
            total_processed: 0,
            last_fully_processed: 0,
            has_received_first_data_packet: false,
        }
    }

    /// Process one packet.
    pub fn process(
        &mut self,
        packet: &Packet,
        program: &Program,
        registers: &mut Registers,
        fields: &EnvFields,
        field_default_on_error: bool,
    ) -> (r: Action)
        ensures
            ({
                let t = spec_udp_process(
                    *old(self),
                    packet@,
                    program@,
                    old(registers)@,
                    *fields,
                    field_default_on_error,
                );
                *final(self) == t.0 && final(registers)@ == t.1 && r == t.2
            }),
    {
        self.total_processed = self.total_processed.wrapping_add(1);
        match self.default_action {
            Action::AllowAll => Action::Allow,
            Action::TerminateAll => Action::TerminateAll,
            Action::Allow => {
                if matches!(packet.transport.extra, TransportMetadataExtra::Udp(_)) {
                    let packet_id = packet.connection_identifier();
                    if let Some(_direction) = self.init_id.direction(&packet_id) {
                        if packet.payload.len() > 0 {
                            self.has_received_first_data_packet = true;
                        }
                        match program.run(packet, registers, fields, field_default_on_error) {
                            Ok(Action::Allow) => {},
                            Ok(Action::AllowAll) => {
                                self.default_action = Action::AllowAll;
                            },
                            Ok(Action::TerminateAll) => {
                                self.default_action = Action::TerminateAll;
                            },
                            Err(_) => {},
                        }
                    }
                }
                self.last_fully_processed = self.last_fully_processed.wrapping_add(1);
                self.default_action
            },
        }
    }

    pub fn has_received_first_data_packet(&self) -> (r: bool)
        ensures
            r == self.has_received_first_data_packet,
    {
        self.has_received_first_data_packet
    }
}

/// The per-flow program environment, by transport protocol.
#[derive(Clone, Copy, Debug, PartialEq, Eq, Structural)]
pub enum ProgramEnvInner {
    Tcp(TcpProgramEnv),
    Udp(UdpProgramEnv),
}

impl ProgramEnvInner {
    /// Process one packet through the protocol's environment.
    pub fn process(
        &mut self,
        packet: &Packet,
        program: &Program,
        registers: &mut Registers,
        fields: &EnvFields,
        field_default_on_error: bool,
    ) -> (r: Action)
        ensures
            match *old(self) {
                ProgramEnvInner::Tcp(env) => {
                    let t = spec_tcp_process(
                        env,
                        packet@,
                        program@,
                        old(registers)@,
                        *fields,
                        field_default_on_error,
                    );
                    *final(self) == ProgramEnvInner::Tcp(t.0) && final(registers)@ == t.1 && r
                        == t.2
                },
                ProgramEnvInner::Udp(env) => {
                    let t = spec_udp_process(
                        env,
                        packet@,
                        program@,
                        old(registers)@,
                        *fields,
                        field_default_on_error,
                    );
                    *final(self) == ProgramEnvInner::Udp(t.0) && final(registers)@ == t.1 && r
                        == t.2
                },
            },
    {
        match self {
            ProgramEnvInner::Tcp(env) => env.process(
                packet,
                program,
                registers,
                fields,
                field_default_on_error,
            ),
            ProgramEnvInner::Udp(env) => env.process(
                packet,
                program,
                registers,
                fields,
                field_default_on_error,
            ),
        }
    }

    /// Only a TCP flow finishes, when both directions have shown FIN with
    /// ACK.
    pub fn is_finished(&self) -> (r: bool)
        ensures
            r == match *self {
                ProgramEnvInner::Tcp(env) => env.hidden.fin_ack_from && env.hidden.fin_ack_to,
                ProgramEnvInner::Udp(_) => false,
            },
    {
        match self {
            ProgramEnvInner::Tcp(env) => env.is_finished(),
            ProgramEnvInner::Udp(_) => false,
        }
    }

    pub fn has_received_first_data_packet(&self) -> (r: bool)
        ensures
            r == match *self {
                ProgramEnvInner::Tcp(env) => env.hidden.has_received_first_data_packet,
                ProgramEnvInner::Udp(env) => env.has_received_first_data_packet,
            },
    {
        match self {
            ProgramEnvInner::Tcp(env) => env.has_received_first_data_packet(),
            ProgramEnvInner::Udp(env) => env.has_received_first_data_packet(),
        }
    }
}

/// The mathematical model of a flow's whole execution environment.
pub struct ProgramEnvModel {
    pub registers: RegistersModel,
    pub fields: EnvFields,
    pub inner: ProgramEnvInner,
}

/// The whole execution environment of one flow: its registers, its
/// counters, and the protocol-specific environment.
#[derive(Clone, Debug)]
pub struct ProgramEnv {
    pub registers: Registers,
    pub fields: EnvFields,
    pub inner: ProgramEnvInner,
}

impl View for ProgramEnv {
    type V = ProgramEnvModel;

    open spec fn view(&self) -> ProgramEnvModel {
        ProgramEnvModel { registers: self.registers@, fields: self.fields, inner: self.inner }
    }
}

/// What processing one packet through a flow environment yields: the
/// packet counter advances, then the protocol's environment takes the
/// packet.
pub open spec fn spec_env_process(
    m: ProgramEnvModel,
    p: PacketModel,
    lines: Seq<crate::program::program::Line>,
    default_on_error: bool,
) -> (ProgramEnvModel, Action) {
    let fields2 = EnvFields {
        num_packets: vstd::wrapping::u32_specs::wrapping_add(m.fields.num_packets, 1),
    };
    match m.inner {
        ProgramEnvInner::Tcp(env) => {
            let t = spec_tcp_process(env, p, lines, m.registers, fields2, default_on_error);
            (
                ProgramEnvModel {
                    registers: t.1,
                    fields: fields2,
                    inner: ProgramEnvInner::Tcp(t.0),
                },
                t.2,
            )
        },
        ProgramEnvInner::Udp(env) => {
            let t = spec_udp_process(env, p, lines, m.registers, fields2, default_on_error);
            (
                ProgramEnvModel {
                    registers: t.1,
                    fields: fields2,
                    inner: ProgramEnvInner::Udp(t.0),
                },
                t.2,
            )
        },
    }
}

impl ProgramEnv {
    /// The model of a fresh environment: zeroed register banks of the
    /// given width, a zero packet counter, and the protocol's fresh
    /// environment.
    pub open spec fn new_model(
        id: ConnectionIdentifier,
        num_registers: nat,
        relax_register_types: bool,
    ) -> ProgramEnvModel {
        ProgramEnvModel {
            registers: RegistersModel {
                int: Seq::new(num_registers, |i: int| 0i64),
                bool: Seq::new(num_registers, |i: int| false),
                relax_register_types,
            },
            fields: EnvFields { num_packets: 0 },
            inner: match id.transport_proto {
                TransportProtocol::Tcp => ProgramEnvInner::Tcp(
                    TcpProgramEnv {
                        init_id: id,
                        default_action: Action::Allow,
                        total_processed: 0,
                        last_fully_processed: 0,
                        hidden: Hidden {
                            fin_ack_from: false,
                            fin_ack_to: false,
                            has_received_first_data_packet: false,
                        },
                    },
                ),
                TransportProtocol::Udp => ProgramEnvInner::Udp(
                    UdpProgramEnv {
                        init_id: id,
                        default_action: Action::Allow,
                        total_processed: 0,
                        last_fully_processed: 0,
                        has_received_first_data_packet: false,
                    },
                ),
            },
        }
    }

    /// A fresh environment for a flow whose first packet carried `id`,
    /// with register banks of the configured width.
    pub fn new(id: ConnectionIdentifier, config: &Config) -> (r: ProgramEnv)
        ensures
            r@.fields.num_packets == 0,
            r@.registers.int.len() == config.program.num_registers,
            r@.registers.bool.len() == config.program.num_registers,
            r@.registers.relax_register_types == config.env.relax_register_types,
            r@.inner == match id.transport_proto {
                TransportProtocol::Tcp => ProgramEnvInner::Tcp(
                    TcpProgramEnv {
                        init_id: id,
                        default_action: Action::Allow,
                        total_processed: 0,
                        last_fully_processed: 0,
                        hidden: Hidden {
                            fin_ack_from: false,
                            fin_ack_to: false,
                            has_received_first_data_packet: false,
                        },
                    },
                ),
                TransportProtocol::Udp => ProgramEnvInner::Udp(
                    UdpProgramEnv {
                        init_id: id,
                        default_action: Action::Allow,
                        total_processed: 0,
                        last_fully_processed: 0,
                        has_received_first_data_packet: false,
                    },
                ),
            },
            r@ == ProgramEnv::new_model(
                id,
                config.program.num_registers as nat,
                config.env.relax_register_types,
            ),
    {
        let registers = Registers::new(
            config.program.num_registers as usize,
            config.env.relax_register_types,
        );
        let inner = match id.transport_proto {
            TransportProtocol::Tcp => ProgramEnvInner::Tcp(TcpProgramEnv::new(id)),
            TransportProtocol::Udp => ProgramEnvInner::Udp(UdpProgramEnv::new(id)),
        };
        let r = ProgramEnv { registers, fields: EnvFields { num_packets: 0 }, inner };
        proof {
            assert(r@.registers.int =~= ProgramEnv::new_model(
                id,
                config.program.num_registers as nat,
                config.env.relax_register_types,
            ).registers.int);
            assert(r@.registers.bool =~= ProgramEnv::new_model(
                id,
                config.program.num_registers as nat,
                config.env.relax_register_types,
            ).registers.bool);
        }
        r
    }

    /// Process one packet.
    pub fn process(&mut self, packet: &Packet, program: &Program, field_default_on_error: bool) -> (r:
        Action)
        ensures
            ({
                let t = spec_env_process(old(self)@, packet@, program@, field_default_on_error);
                final(self)@ == t.0 && r == t.1
            }),
    {
        self.fields.num_packets = self.fields.num_packets.wrapping_add(1);
        self.inner.process(
            packet,
            program,
            &mut self.registers,
            &self.fields,
            field_default_on_error,
        )
    }

    pub fn is_finished(&self) -> (r: bool)
        ensures
            r == match self@.inner {
                ProgramEnvInner::Tcp(env) => env.hidden.fin_ack_from && env.hidden.fin_ack_to,
                ProgramEnvInner::Udp(_) => false,
            },
    {
        self.inner.is_finished()
    }

    pub fn has_received_first_data_packet(&self) -> (r: bool)
        ensures
            r == match self@.inner {
                ProgramEnvInner::Tcp(env) => env.hidden.has_received_first_data_packet,
                ProgramEnvInner::Udp(env) => env.has_received_first_data_packet,
            },
    {
        self.inner.has_received_first_data_packet()
    }
}

/// Aggregate counts over a whole run of the censor.
#[derive(Clone, Copy, Debug, PartialEq, Eq, Structural, Default)]
pub struct AggregateStats {
    pub num_connections_allowed: u32,
    pub num_connections_terminated: u32,
    pub num_packets_unconditionally_allowed: u32,
    pub num_packets_unconditionally_terminated: u32,
    pub total_packets: u32,
}

} // verus!
