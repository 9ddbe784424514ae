//! The field catalogue of the policy program: well-known read-only
//! derivations from the packet and the per-flow counters.
//!
//! A field either yields its value or a typed error; with
//! `default_on_error` set, an error of a packet-dependent field yields
//! `Bool(false)` instead.

use vstd::prelude::*;

use crate::packet::{IpVersionMetadata, Packet, PacketModel, TransportMetadataExtra};
use crate::program::env::EnvFields;
use crate::program::program::Value;

verus! {

/// A field drawn from the per-flow environment.
#[derive(Clone, Copy, Debug, PartialEq, Eq, Structural)]
pub enum EnvField {
    NumPackets,
}

impl EnvField {
    pub open spec fn spec_eval(self, fields: EnvFields) -> Value {
        match self {
            EnvField::NumPackets => Value::Int(fields.num_packets as i64),
        }
    }

    pub fn eval(&self, fields: &EnvFields) -> (r: Value)
        ensures
            r == self.spec_eval(*fields),
    {
        match self {
            EnvField::NumPackets => Value::Int(fields.num_packets as i64),
        }
    }
}

/// A field specific to IPv4 packets.
#[derive(Clone, Copy, Debug, PartialEq, Eq, Structural)]
pub enum V4Field {
    Dscp,
    Ecn,
    Ident,
    DontFrag,
    MoreFrags,
    FragOffset,
    Checksum,
}

impl V4Field {
    pub open spec fn spec_all() -> Seq<V4Field> {
        seq![
            V4Field::Dscp,
            V4Field::Ecn,
            V4Field::Ident,
            V4Field::DontFrag,
            V4Field::MoreFrags,
            V4Field::FragOffset,
            V4Field::Checksum,
        ]
    }

    pub fn all() -> (r: Vec<V4Field>)
        ensures
            r@ == V4Field::spec_all(),
    {
        let r = vec![
            V4Field::Dscp,
            V4Field::Ecn,
            V4Field::Ident,
            V4Field::DontFrag,
            V4Field::MoreFrags,
            V4Field::FragOffset,
            V4Field::Checksum,
        ];
        proof {
            assert(r@ =~= V4Field::spec_all());
        }
        r
    }
}

/// A field specific to IPv6 packets.
#[derive(Clone, Copy, Debug, PartialEq, Eq, Structural)]
pub enum V6Field {
    TrafficClass,
    FlowLabel,
    PayloadLen,
}

impl V6Field {
    pub open spec fn spec_all() -> Seq<V6Field> {
        seq![V6Field::TrafficClass, V6Field::FlowLabel, V6Field::PayloadLen]
    }

    pub fn all() -> (r: Vec<V6Field>)
        ensures
            r@ == V6Field::spec_all(),
    {
        let r = vec![V6Field::TrafficClass, V6Field::FlowLabel, V6Field::PayloadLen];
        proof {
            assert(r@ =~= V6Field::spec_all());
        }
        r
    }
}

/// Why an IP field could not be extracted.
#[derive(Clone, Copy, Debug, PartialEq, Eq, Structural)]
pub enum IpFieldError {
    /// The value does not fit the integer register type.
    IntConvert,
    /// A version-specific field was asked of the other IP version.
    WrongIpVersion,
}

/// A field of the internet layer.
#[derive(Clone, Copy, Debug, PartialEq, Eq, Structural)]
pub enum IpField {
    HeaderLen,
    TotalLen,
    HopLimit,
    V4(V4Field),
    V6(V6Field),
}

impl IpField {
    pub open spec fn spec_all() -> Seq<IpField> {
        seq![IpField::HeaderLen, IpField::TotalLen, IpField::HopLimit]
            + V4Field::spec_all().map_values(|f: V4Field| IpField::V4(f)) + V6Field::spec_all().map_values(
            |f: V6Field| IpField::V6(f),
        )
    }

    pub fn all() -> (r: Vec<IpField>)
        ensures
            r@ == IpField::spec_all(),
    {
        let r = vec![
            IpField::HeaderLen,
            IpField::TotalLen,
            IpField::HopLimit,
            IpField::V4(V4Field::Dscp),
            IpField::V4(V4Field::Ecn),
            IpField::V4(V4Field::Ident),
            IpField::V4(V4Field::DontFrag),
            IpField::V4(V4Field::MoreFrags),
            IpField::V4(V4Field::FragOffset),
            IpField::V4(V4Field::Checksum),
            IpField::V6(V6Field::TrafficClass),
            IpField::V6(V6Field::FlowLabel),
            IpField::V6(V6Field::PayloadLen),
        ];
        proof {
            assert(r@ =~= IpField::spec_all());
        }
        r
    }

    /// The raw extraction, before the error default is applied.
    pub open spec fn spec_eval_raw(self, p: PacketModel) -> Result<Value, IpFieldError> {
        match self {
            IpField::HeaderLen => if p.ip.header_len > 0x7fffffffffffffff {
                Err(IpFieldError::IntConvert)
            } else {
                Ok(Value::Int(p.ip.header_len as i64))
            },
            IpField::TotalLen => if p.ip.total_len > 0x7fffffffffffffff {
                Err(IpFieldError::IntConvert)
            } else {
                Ok(Value::Int(p.ip.total_len as i64))
            },
            IpField::HopLimit => Ok(Value::Int(p.ip.hop_limit as i64)),
            IpField::V4(f) => match p.ip.version {
                IpVersionMetadata::V4 {
                    dscp,
                    ecn,
                    ident,
                    dont_frag,
                    more_frags,
                    frag_offset,
                    checksum,
                    ..
                } => Ok(
                    match f {
                        V4Field::Dscp => Value::Int(dscp as i64),
                        V4Field::Ecn => Value::Int(ecn as i64),
                        V4Field::Ident => Value::Int(ident as i64),
                        V4Field::DontFrag => Value::Bool(dont_frag),
                        V4Field::MoreFrags => Value::Bool(more_frags),
                        V4Field::FragOffset => Value::Int(frag_offset as i64),
                        V4Field::Checksum => Value::Int(checksum as i64),
                    },
                ),
                IpVersionMetadata::V6 { .. } => Err(IpFieldError::WrongIpVersion),
            },
            IpField::V6(f) => match p.ip.version {
                IpVersionMetadata::V6 { traffic_class, flow_label, payload_len, .. } => Ok(
                    match f {
                        V6Field::TrafficClass => Value::Int(traffic_class as i64),
                        V6Field::FlowLabel => Value::Int(flow_label as i64),
                        V6Field::PayloadLen => Value::Int(payload_len as i64),
                    },
                ),
                IpVersionMetadata::V4 { .. } => Err(IpFieldError::WrongIpVersion),
            },
        }
    }

    /// What extraction yields: the raw result, or `Bool(false)` in place of
    /// an error when the default is on.
    pub open spec fn spec_eval(self, p: PacketModel, default_on_error: bool) -> Result<
        Value,
        IpFieldError,
    > {
        if default_on_error {
            match self.spec_eval_raw(p) {
                Ok(v) => Ok(v),
                Err(_) => Ok(Value::Bool(false)),
            }
        } else {
            self.spec_eval_raw(p)
        }
    }

    pub fn eval(&self, packet: &Packet, default_on_error: bool) -> (r: Result<Value, IpFieldError>)
        ensures
            r == self.spec_eval(packet@, default_on_error),
    {
        let result: Result<Value, IpFieldError> = match self {
            IpField::HeaderLen => {
                if packet.ip.header_len as u64 > 0x7fffffffffffffffu64 {
                    Err(IpFieldError::IntConvert)
                } else {
                    Ok(Value::Int(packet.ip.header_len as i64))
                }
            },
            IpField::TotalLen => {
                if packet.ip.total_len as u64 > 0x7fffffffffffffffu64 {
                    Err(IpFieldError::IntConvert)
                } else {
                    Ok(Value::Int(packet.ip.total_len as i64))
                }
            },
            IpField::HopLimit => Ok(Value::Int(packet.ip.hop_limit as i64)),
            IpField::V4(f) => match packet.ip.version {
                IpVersionMetadata::V4 {
                    dscp,
                    ecn,
                    ident,
                    dont_frag,
                    more_frags,
                    frag_offset,
                    checksum,
                    ..
                } => Ok(
                    match f {
                        V4Field::Dscp => Value::Int(dscp as i64),
                        V4Field::Ecn => Value::Int(ecn as i64),
                        V4Field::Ident => Value::Int(ident as i64),
                        V4Field::DontFrag => Value::Bool(dont_frag),
                        V4Field::MoreFrags => Value::Bool(more_frags),
                        V4Field::FragOffset => Value::Int(frag_offset as i64),
                        V4Field::Checksum => Value::Int(checksum as i64),
                    },
                ),
                IpVersionMetadata::V6 { .. } => Err(IpFieldError::WrongIpVersion),
            },
            IpField::V6(f) => match packet.ip.version {
                IpVersionMetadata::V6 { traffic_class, flow_label, payload_len, .. } => Ok(
                    match f {
                        V6Field::TrafficClass => Value::Int(traffic_class as i64),
                        V6Field::FlowLabel => Value::Int(flow_label as i64),
                        V6Field::PayloadLen => Value::Int(payload_len as i64),
                    },
                ),
                IpVersionMetadata::V4 { .. } => Err(IpFieldError::WrongIpVersion),
            },
        };
        if default_on_error {
            match result {
                Ok(v) => Ok(v),
                Err(_) => Ok(Value::Bool(false)),
            }
        } else {
            result
        }
    }
}

/// One of the nine TCP flags.
#[derive(Clone, Copy, Debug, PartialEq, Eq, Structural)]
pub enum TcpFlag {
    Fin,
    Syn,
    Rst,
    Psh,
    Ack,
    Urg,
    Ece,
    Cwr,
    Ns,
}

impl TcpFlag {
    pub open spec fn spec_eval(self, flags: crate::packet::TcpFlags) -> Value {
        Value::Bool(
            match self {
                TcpFlag::Fin => flags.fin,
                TcpFlag::Syn => flags.syn,
                TcpFlag::Rst => flags.rst,
                TcpFlag::Psh => flags.psh,
                TcpFlag::Ack => flags.ack,
                TcpFlag::Urg => flags.urg,
                TcpFlag::Ece => flags.ece,
                TcpFlag::Cwr => flags.cwr,
                TcpFlag::Ns => flags.ns,
            },
        )
    }

    pub fn eval(&self, flags: &crate::packet::TcpFlags) -> (r: Value)
        ensures
            r == self.spec_eval(*flags),
    {
        Value::Bool(
            match self {
                TcpFlag::Fin => flags.fin,
                TcpFlag::Syn => flags.syn,
                TcpFlag::Rst => flags.rst,
                TcpFlag::Psh => flags.psh,
                TcpFlag::Ack => flags.ack,
                TcpFlag::Urg => flags.urg,
                TcpFlag::Ece => flags.ece,
                TcpFlag::Cwr => flags.cwr,
                TcpFlag::Ns => flags.ns,
            },
        )
    }
}

/// Why a TCP field could not be extracted.
#[derive(Clone, Copy, Debug, PartialEq, Eq, Structural)]
pub enum TcpFieldError {
    /// The packet does not carry TCP.
    WrongProtocol,
    /// The value does not fit the integer register type.
    IntConvert,
}

/// A field of the TCP layer.
#[derive(Clone, Copy, Debug, PartialEq, Eq, Structural)]
pub enum TcpField {
    SeqNum,
    Ack,
    Flag(TcpFlag),
    Length,
    HeaderLength,
    PayloadLength,
    UrgentAt,
    WindowLength,
}

impl TcpField {
    pub open spec fn spec_all() -> Seq<TcpField> {
        seq![
            TcpField::SeqNum,
            TcpField::Ack,
            TcpField::Flag(TcpFlag::Fin),
            TcpField::Flag(TcpFlag::Syn),
            TcpField::Flag(TcpFlag::Rst),
            TcpField::Flag(TcpFlag::Psh),
            TcpField::Flag(TcpFlag::Ack),
            TcpField::Flag(TcpFlag::Urg),
            TcpField::Flag(TcpFlag::Ece),
            TcpField::Flag(TcpFlag::Cwr),
            TcpField::Flag(TcpFlag::Ns),
            TcpField::Length,
            TcpField::HeaderLength,
            TcpField::PayloadLength,
            TcpField::UrgentAt,
            TcpField::WindowLength,
        ]
    }

    pub fn all() -> (r: Vec<TcpField>)
        ensures
            r@ == TcpField::spec_all(),
    {
        let r = vec![
            TcpField::SeqNum,
            TcpField::Ack,
            TcpField::Flag(TcpFlag::Fin),
            TcpField::Flag(TcpFlag::Syn),
            TcpField::Flag(TcpFlag::Rst),
            TcpField::Flag(TcpFlag::Psh),
            TcpField::Flag(TcpFlag::Ack),
            TcpField::Flag(TcpFlag::Urg),
            TcpField::Flag(TcpFlag::Ece),
            TcpField::Flag(TcpFlag::Cwr),
            TcpField::Flag(TcpFlag::Ns),
            TcpField::Length,
            TcpField::HeaderLength,
            TcpField::PayloadLength,
            TcpField::UrgentAt,
            TcpField::WindowLength,
        ];
        proof {
            assert(r@ =~= TcpField::spec_all());
        }
        r
    }

    /// The raw extraction, before the error default is applied.
    pub open spec fn spec_eval_raw(self, p: PacketModel) -> Result<Value, TcpFieldError> {
        match p.transport.extra {
            TransportMetadataExtra::Tcp(m) => match self {
                TcpField::SeqNum => Ok(Value::Int((m.seq as i32) as i64)),
                TcpField::Ack => Ok(Value::Int((m.ack as i32) as i64)),
                TcpField::Flag(f) => Ok(f.spec_eval(m.flags)),
                TcpField::Length => if m.header_len + p.payload.len() > 0xffffffff {
                    Err(TcpFieldError::IntConvert)
                } else {
                    Ok(Value::Int((m.header_len + p.payload.len()) as i64))
                },
                TcpField::HeaderLength => Ok(Value::Int(m.header_len as i64)),
                TcpField::PayloadLength => if p.payload.len() > 0xffffffff {
                    Err(TcpFieldError::IntConvert)
                } else {
                    Ok(Value::Int(p.payload.len() as i64))
                },
                TcpField::UrgentAt => Ok(Value::Int(m.urgent_at as i64)),
                TcpField::WindowLength => Ok(Value::Int(m.window_len as i64)),
            },
            TransportMetadataExtra::Udp(_) => Err(TcpFieldError::WrongProtocol),
        }
    }

    /// What extraction yields: the raw result, or `Bool(false)` in place of
    /// an error when the default is on.
    pub open spec fn spec_eval(self, p: PacketModel, default_on_error: bool) -> Result<
        Value,
        TcpFieldError,
    > {
        if default_on_error {
            match self.spec_eval_raw(p) {
                Ok(v) => Ok(v),
                Err(_) => Ok(Value::Bool(false)),
            }
        } else {
            self.spec_eval_raw(p)
        }
    }

    pub fn eval(&self, packet: &Packet, default_on_error: bool) -> (r: Result<Value, TcpFieldError>)
        ensures
            r == self.spec_eval(packet@, default_on_error),
    {
        let result: Result<Value, TcpFieldError> = match &packet.transport.extra {
            TransportMetadataExtra::Tcp(m) => match self {
                TcpField::SeqNum => Ok(Value::Int((m.seq as i32) as i64)),
                TcpField::Ack => Ok(Value::Int((m.ack as i32) as i64)),
                TcpField::Flag(f) => Ok(f.eval(&m.flags)),
                TcpField::Length => {
                    let hl = m.header_len as u64;
                    let pl = packet.payload.len() as u64;
                    if pl > 0xffffffffu64 - hl {
                        Err(TcpFieldError::IntConvert)
                    } else {
                        Ok(Value::Int((hl + pl) as i64))
                    }
                },
                TcpField::HeaderLength => Ok(Value::Int(m.header_len as i64)),
                TcpField::PayloadLength => {
                    let pl = packet.payload.len() as u64;
                    if pl > 0xffffffffu64 {
                        Err(TcpFieldError::IntConvert)
                    } else {
                        Ok(Value::Int(pl as i64))
                    }
                },
                TcpField::UrgentAt => Ok(Value::Int(m.urgent_at as i64)),
                TcpField::WindowLength => Ok(Value::Int(m.window_len as i64)),
            },
            TransportMetadataExtra::Udp(_) => Err(TcpFieldError::WrongProtocol),
        };
        if default_on_error {
            match result {
                Ok(v) => Ok(v),
                Err(_) => Ok(Value::Bool(false)),
            }
        } else {
            result
        }
    }
}

/// Why a UDP field could not be extracted.
#[derive(Clone, Copy, Debug, PartialEq, Eq, Structural)]
pub enum UdpFieldError {
    /// The packet does not carry UDP.
    WrongProtocol,
    /// The value does not fit the integer register type.
    IntConvert,
}

/// A field of the UDP layer.
#[derive(Clone, Copy, Debug, PartialEq, Eq, Structural)]
pub enum UdpField {
    Length,
    Checksum,
}

impl UdpField {
    pub open spec fn spec_all() -> Seq<UdpField> {
        seq![UdpField::Length, UdpField::Checksum]
    }

    pub fn all() -> (r: Vec<UdpField>)
        ensures
            r@ == UdpField::spec_all(),
    {
        let r = vec![UdpField::Length, UdpField::Checksum];
        proof {
            assert(r@ =~= UdpField::spec_all());
        }
        r
    }

    /// The raw extraction, before the error default is applied.
    pub open spec fn spec_eval_raw(self, p: PacketModel) -> Result<Value, UdpFieldError> {
        match p.transport.extra {
            TransportMetadataExtra::Udp(m) => match self {
                UdpField::Length => Ok(Value::Int(m.length as i64)),
                UdpField::Checksum => Ok(Value::Int(m.checksum as i64)),
            },
            TransportMetadataExtra::Tcp(_) => Err(UdpFieldError::WrongProtocol),
        }
    }

    /// What extraction yields: the raw result, or `Bool(false)` in place of
    /// an error when the default is on.
    pub open spec fn spec_eval(self, p: PacketModel, default_on_error: bool) -> Result<
        Value,
        UdpFieldError,
    > {
        if default_on_error {
            match self.spec_eval_raw(p) {
                Ok(v) => Ok(v),
                Err(_) => Ok(Value::Bool(false)),
            }
        } else {
            self.spec_eval_raw(p)
        }
    }

    pub fn eval(&self, packet: &Packet, default_on_error: bool) -> (r: Result<Value, UdpFieldError>)
        ensures
            r == self.spec_eval(packet@, default_on_error),
    {
        let result: Result<Value, UdpFieldError> = match &packet.transport.extra {
            TransportMetadataExtra::Udp(m) => match self {
                UdpField::Length => Ok(Value::Int(m.length as i64)),
                UdpField::Checksum => Ok(Value::Int(m.checksum as i64)),
            },
            TransportMetadataExtra::Tcp(_) => Err(UdpFieldError::WrongProtocol),
        };
        if default_on_error {
            match result {
                Ok(v) => Ok(v),
                Err(_) => Ok(Value::Bool(false)),
            }
        } else {
            result
        }
    }
}

/// Why a field could not be extracted.
#[derive(Clone, Copy, Debug, PartialEq, Eq, Structural)]
pub enum FieldError {
    Ip(IpFieldError),
    Tcp(TcpFieldError),
    Udp(UdpFieldError),
}

/// A field extractor: a well-known read-only derivation from the packet or
/// the per-flow counters.
#[derive(Clone, Copy, Debug, PartialEq, Eq, Structural)]
pub enum Field {
    /// A field from the per-flow environment.
    Env(EnvField),
    /// A field of the internet layer.
    Ip(IpField),
    /// A field of the TCP layer.
    Tcp(TcpField),
    /// A field of the UDP layer.
    Udp(UdpField),
}

impl Field {
    pub open spec fn spec_all() -> Seq<Field> {
        seq![Field::Env(EnvField::NumPackets)] + IpField::spec_all().map_values(
            |f: IpField| Field::Ip(f),
        ) + TcpField::spec_all().map_values(|f: TcpField| Field::Tcp(f))
            + UdpField::spec_all().map_values(|f: UdpField| Field::Udp(f))
    }

    pub fn all() -> (r: Vec<Field>)
        ensures
            r@ == Field::spec_all(),
    {
        let mut r: Vec<Field> = Vec::new();
        r.push(Field::Env(EnvField::NumPackets));
        let ip_fields = IpField::all();
        let mut i: usize = 0;
        proof {
            assert(r@ =~= seq![Field::Env(EnvField::NumPackets)] + IpField::spec_all().take(
                0,
            ).map_values(|f: IpField| Field::Ip(f)));
        }
        while i < ip_fields.len()
            invariant
                i <= ip_fields@.len(),
                ip_fields@ == IpField::spec_all(),
                r@ == seq![Field::Env(EnvField::NumPackets)] + IpField::spec_all().take(
                    i as int,
                ).map_values(|f: IpField| Field::Ip(f)),
            decreases ip_fields@.len() - i,
        {
            r.push(Field::Ip(ip_fields[i]));
            proof {
                assert(r@ =~= seq![Field::Env(EnvField::NumPackets)] + IpField::spec_all().take(
                    i + 1,
                ).map_values(|f: IpField| Field::Ip(f)));
            }
            i = i + 1;
        }
        let tcp_fields = TcpField::all();
        let mut j: usize = 0;
        while j < tcp_fields.len()
            invariant
                j <= tcp_fields@.len(),
                tcp_fields@ == TcpField::spec_all(),
                r@ == seq![Field::Env(EnvField::NumPackets)] + IpField::spec_all().map_values(
                    |f: IpField| Field::Ip(f),
                ) + TcpField::spec_all().take(j as int).map_values(|f: TcpField| Field::Tcp(f)),
            decreases tcp_fields@.len() - j,
        {
            r.push(Field::Tcp(tcp_fields[j]));
            proof {
                assert(r@ =~= seq![Field::Env(EnvField::NumPackets)]
                    + IpField::spec_all().map_values(|f: IpField| Field::Ip(f))
                    + TcpField::spec_all().take(j + 1).map_values(|f: TcpField| Field::Tcp(f)));
            }
            j = j + 1;
        }
        let udp_fields = UdpField::all();
        let mut k: usize = 0;
        while k < udp_fields.len()
            invariant
                k <= udp_fields@.len(),
                udp_fields@ == UdpField::spec_all(),
                r@ == seq![Field::Env(EnvField::NumPackets)] + IpField::spec_all().map_values(
                    |f: IpField| Field::Ip(f),
                ) + TcpField::spec_all().map_values(|f: TcpField| Field::Tcp(f))
                    + UdpField::spec_all().take(k as int).map_values(|f: UdpField| Field::Udp(f)),
            decreases udp_fields@.len() - k,
        {
            r.push(Field::Udp(udp_fields[k]));
            proof {
                assert(r@ =~= seq![Field::Env(EnvField::NumPackets)]
                    + IpField::spec_all().map_values(|f: IpField| Field::Ip(f))
                    + TcpField::spec_all().map_values(|f: TcpField| Field::Tcp(f))
                    + UdpField::spec_all().take(k + 1).map_values(|f: UdpField| Field::Udp(f)));
            }
            k = k + 1;
        }
        proof {
            assert(IpField::spec_all().take(IpField::spec_all().len() as int) =~= IpField::spec_all());
            assert(TcpField::spec_all().take(TcpField::spec_all().len() as int)
                =~= TcpField::spec_all());
            assert(UdpField::spec_all().take(UdpField::spec_all().len() as int)
                =~= UdpField::spec_all());
            assert(r@ =~= Field::spec_all());
        }
        r
    }

    /// What extracting this field from a packet yields.
    pub open spec fn spec_eval(
        self,
        p: PacketModel,
        fields: EnvFields,
        default_on_error: bool,
    ) -> Result<Value, FieldError> {
        match self {
            Field::Env(f) => Ok(f.spec_eval(fields)),
            Field::Ip(f) => match f.spec_eval(p, default_on_error) {
                Ok(v) => Ok(v),
                Err(e) => Err(FieldError::Ip(e)),
            },
            Field::Tcp(f) => match f.spec_eval(p, default_on_error) {
                Ok(v) => Ok(v),
                Err(e) => Err(FieldError::Tcp(e)),
            },
            Field::Udp(f) => match f.spec_eval(p, default_on_error) {
                Ok(v) => Ok(v),
                Err(e) => Err(FieldError::Udp(e)),
            },
        }
    }

    pub fn eval(&self, packet: &Packet, fields: &EnvFields, default_on_error: bool) -> (r: Result<
        Value,
        FieldError,
    >)
        ensures
            r == self.spec_eval(packet@, *fields, default_on_error),
    {
        match self {
            Field::Env(f) => Ok(f.eval(fields)),
            Field::Ip(f) => match f.eval(packet, default_on_error) {
                Ok(v) => Ok(v),
                Err(e) => Err(FieldError::Ip(e)),
            },
            Field::Tcp(f) => match f.eval(packet, default_on_error) {
                Ok(v) => Ok(v),
                Err(e) => Err(FieldError::Tcp(e)),
            },
            Field::Udp(f) => match f.eval(packet, default_on_error) {
                Ok(v) => Ok(v),
                Err(e) => Err(FieldError::Udp(e)),
            },
        }
    }
}

} // verus!
