//! The censor pipeline: one frame runs from the Ethernet list through the
//! decoder, the IP and port lists, and the per-flow policy, to an action
//! for the back end to enact.

use vstd::prelude::*;

use crate::action::Action;
use crate::decode::{
    parse_ethernet,
    spec_parse_ethernet,
    spec_parse_packet,
    ParsePacketError,
    ETHERTYPE_ARP,
    ETHERTYPE_IPV4,
    ETHERTYPE_IPV6,
    IP_PROTO_ICMP,
};
use crate::lists::{AllowBlockList, EndpointAllowBlockList, PortAllowBlockList};
use crate::packet::{
    IpAddress,
    IpPair,
    IpVersionMetadata,
    Packet,
    PacketModel,
    TransportProtocol,
};
use crate::transport::{spec_transport_post, TransportState};

verus! {

/// Direction of a packet through the censor.
#[derive(Clone, Copy, Debug, PartialEq, Eq, Structural)]
pub enum Direction {
    WanToClient,
    ClientToWan,
    Unknown,
}

/// What the back end knows about direction: the wire back end reads it
/// from the physical port; the capture and queue back ends infer it from
/// an operator-supplied client address.
#[derive(Clone, Copy, Debug, PartialEq, Eq, Structural)]
pub enum Context {
    /// The direction is known from the receiving interface.
    Wire { direction: Direction },
    /// The direction is inferred from the client address.
    ClientIp { client_ip: IpAddress },
}

/// The direction inferred from a client address: traffic from it runs
/// client to wan, traffic to it runs wan to client, and anything else has
/// no direction.
pub open spec fn spec_infer_direction(
    client_ip: IpAddress,
    src: IpAddress,
    dst: IpAddress,
) -> Direction {
    if src == client_ip {
        Direction::ClientToWan
    } else if dst == client_ip {
        Direction::WanToClient
    } else {
        Direction::Unknown
    }
}

/// Infer the direction of a packet from the client address.
pub fn infer_direction(client_ip: IpAddress, src: IpAddress, dst: IpAddress) -> (r: Direction)
    ensures
        r == spec_infer_direction(client_ip, src, dst),
{
    if src == client_ip {
        Direction::ClientToWan
    } else if dst == client_ip {
        Direction::WanToClient
    } else {
        Direction::Unknown
    }
}

/// The direction a context assigns to a packet.
pub open spec fn spec_ctx_direction(ctx: Context, p: PacketModel) -> Direction {
    match ctx {
        Context::Wire { direction } => direction,
        Context::ClientIp { client_ip } => spec_infer_direction(
            client_ip,
            p.ip.spec_src(),
            p.ip.spec_dst(),
        ),
    }
}

/// The direction tag a packet carries: one for client to wan, minus one
/// for wan to client, zero for unknown.
pub open spec fn spec_direction_tag(d: Direction) -> i8 {
    match d {
        Direction::ClientToWan => 1i8,
        Direction::WanToClient => (-1) as i8,
        Direction::Unknown => 0i8,
    }
}

/// The censor: the list tiers, the per-layer default actions, and the
/// per-flow policy state.
#[derive(Clone, Debug)]
pub struct Censor {
    /// MAC allow/blocklist, keyed by the 48-bit address value.
    pub ethernet_list: AllowBlockList,
    /// What to do with frames of unknown ethertype.
    pub ethernet_unknown: Action,
    /// What to do with ARP traffic.
    pub arp_action: Action,
    /// IPv4 allow/blocklist, keyed by the 32-bit address value.
    pub ipv4_list: AllowBlockList,
    /// IPv6 allow/blocklist, keyed by the 128-bit address value.
    pub ipv6_list: AllowBlockList,
    /// What to do with packets whose transport protocol is unknown, and
    /// with packets whose inner layers fail to parse.
    pub ip_unknown: Action,
    /// What to do with ICMP traffic.
    pub icmp_action: Action,
    /// TCP port allow/blocklist.
    pub tcp_port_list: PortAllowBlockList,
    /// TCP address-and-port allow/blocklist.
    pub tcp_ip_port_list: EndpointAllowBlockList,
    /// UDP port allow/blocklist.
    pub udp_port_list: PortAllowBlockList,
    /// UDP address-and-port allow/blocklist.
    pub udp_ip_port_list: EndpointAllowBlockList,
    /// The per-flow policy state.
    pub transport_state: TransportState,
}

impl Censor {
    /// The censor is well formed when its port stores hold one bit per
    /// port.
    pub open spec fn wf(self) -> bool {
        self.tcp_port_list.wf() && self.udp_port_list.wf()
    }

    /// A censor from its parts.
    pub fn new(
        ethernet_list: AllowBlockList,
        ethernet_unknown: Action,
        arp_action: Action,
        ipv4_list: AllowBlockList,
        ipv6_list: AllowBlockList,
        ip_unknown: Action,
        icmp_action: Action,
        tcp_port_list: PortAllowBlockList,
        tcp_ip_port_list: EndpointAllowBlockList,
        udp_port_list: PortAllowBlockList,
        udp_ip_port_list: EndpointAllowBlockList,
        transport_state: TransportState,
    ) -> (r: Censor)
        requires
            tcp_port_list.wf(),
            udp_port_list.wf(),
        ensures
            r.wf(),
            r.ethernet_list == ethernet_list,
            r.ethernet_unknown == ethernet_unknown,
            r.arp_action == arp_action,
            r.ipv4_list == ipv4_list,
            r.ipv6_list == ipv6_list,
            r.ip_unknown == ip_unknown,
            r.icmp_action == icmp_action,
            r.tcp_port_list == tcp_port_list,
            r.tcp_ip_port_list == tcp_ip_port_list,
            r.udp_port_list == udp_port_list,
            r.udp_ip_port_list == udp_ip_port_list,
            r.transport_state == transport_state,
    {
        Censor {
            ethernet_list,
            ethernet_unknown,
            arp_action,
            ipv4_list,
            ipv6_list,
            ip_unknown,
            icmp_action,
            tcp_port_list,
            tcp_ip_port_list,
            udp_port_list,
            udp_ip_port_list,
            transport_state,
        }
    }

    /// Put an address on the IP blocklist of its version.
    pub fn block_ip(&mut self, ip: IpAddress)
        ensures
            *final(self) == (Censor {
                ipv4_list: final(self).ipv4_list,
                ipv6_list: final(self).ipv6_list,
                ..*old(self)
            }),
            match ip {
                IpAddress::V4(a) => final(self).ipv4_list.block.store@ == old(
                    self,
                ).ipv4_list.block.store@.push(a as u128) && final(self).ipv6_list == old(
                    self,
                ).ipv6_list,
                IpAddress::V6(a) => final(self).ipv6_list.block.store@ == old(
                    self,
                ).ipv6_list.block.store@.push(a) && final(self).ipv4_list == old(self).ipv4_list,
            },
    {
        match ip {
            IpAddress::V4(a) => {
                self.ipv4_list.block.store.push(a as u128);
            },
            IpAddress::V6(a) => {
                self.ipv6_list.block.store.push(a);
            },
        }
    }

    /// What the transport tier decides: the port list of the packet's
    /// protocol speaks first over its two ports; its `Pass` or absent
    /// recommendation lets the address-and-port list speak over the two
    /// endpoints; and only that list's `Pass` or absent recommendation
    /// lets the per-flow policy run.
    pub open spec fn spec_transport_tier_post(
        pre: Censor,
        post: Censor,
        ips: IpPair,
        p: PacketModel,
        r: Action,
    ) -> bool {
        let port_rec = match p.transport.extra.spec_protocol() {
            TransportProtocol::Tcp => pre.tcp_port_list.spec_recommend_either(
                p.transport.src,
                p.transport.dst,
            ),
            TransportProtocol::Udp => pre.udp_port_list.spec_recommend_either(
                p.transport.src,
                p.transport.dst,
            ),
        };
        let endpoint_rec = match p.transport.extra.spec_protocol() {
            TransportProtocol::Tcp => pre.tcp_ip_port_list.spec_recommend_either(
                p.ip.spec_src(),
                p.transport.src,
                p.ip.spec_dst(),
                p.transport.dst,
            ),
            TransportProtocol::Udp => pre.udp_ip_port_list.spec_recommend_either(
                p.ip.spec_src(),
                p.transport.src,
                p.ip.spec_dst(),
                p.transport.dst,
            ),
        };
        match port_rec {
            Some(Action::Pass) | None => match endpoint_rec {
                Some(Action::Pass) | None => spec_transport_post(
                    pre.transport_state,
                    post.transport_state,
                    ips,
                    p,
                    r,
                ) && post == (Censor { transport_state: post.transport_state, ..pre }),
                Some(a) => r == a && post == pre,
            },
            Some(a) => r == a && post == pre,
        }
    }

    /// Process the transport layer of a decoded packet.
    pub fn process_transport(&mut self, ips: IpPair, packet: &Packet) -> (r: Action)
        requires
            old(self).wf(),
        ensures
            final(self).wf(),
            Censor::spec_transport_tier_post(*old(self), *final(self), ips, packet@, r),
    {
        let rec = match packet.transport_proto() {
            TransportProtocol::Tcp => self.tcp_port_list.recommend_either(
                packet.transport.src,
                packet.transport.dst,
            ),
            TransportProtocol::Udp => self.udp_port_list.recommend_either(
                packet.transport.src,
                packet.transport.dst,
            ),
        };
        match rec {
            Some(Action::Pass) | None => {
                let endpoint_rec = match packet.transport_proto() {
                    TransportProtocol::Tcp => self.tcp_ip_port_list.recommend_either(
                        packet.ip.src(),
                        packet.transport.src,
                        packet.ip.dst(),
                        packet.transport.dst,
                    ),
                    TransportProtocol::Udp => self.udp_ip_port_list.recommend_either(
                        packet.ip.src(),
                        packet.transport.src,
                        packet.ip.dst(),
                        packet.transport.dst,
                    ),
                };
                match endpoint_rec {
                    Some(Action::Pass) | None => self.transport_state.process(ips, packet),
                    Some(a) => a,
                }
            },
            Some(a) => a,
        }
    }

    /// What the internet tier decides: the IP list of the packet's
    /// version speaks first over its two addresses, and only its `Pass`
    /// or absent recommendation lets the transport tier run; for v4 the
    /// identification field then enriches a reset.
    pub open spec fn spec_packet_post(
        pre: Censor,
        post: Censor,
        p: PacketModel,
        ctx: Context,
        r: Action,
    ) -> bool {
        let tagged = PacketModel {
            direction: spec_direction_tag(spec_ctx_direction(ctx, p)),
            ..p
        };
        match p.ip.version {
            IpVersionMetadata::V4 { src, dst, ident, .. } => {
                let ips = IpPair::V4 { src, dst };
                match pre.ipv4_list.spec_recommend_either(src as u128, dst as u128) {
                    Some(Action::Pass) | None => exists|mid: Action|
                        #[trigger] Censor::spec_transport_tier_post(pre, post, ips, tagged, mid)
                            && r == mid.spec_add_ipid(ident),
                    Some(a) => r == a.spec_add_ipid(ident) && post == pre,
                }
            },
            IpVersionMetadata::V6 { src, dst, .. } => {
                let ips = IpPair::V6 { src, dst };
                match pre.ipv6_list.spec_recommend_either(src, dst) {
                    Some(Action::Pass) | None => Censor::spec_transport_tier_post(
                        pre,
                        post,
                        ips,
                        tagged,
                        r,
                    ),
                    Some(a) => r == a && post == pre,
                }
            },
        }
    }

    /// Process a decoded packet: assign its direction, consult the IP
    /// lists, and hand it to the transport tier.
    pub fn process_packet(&mut self, packet: Packet, ctx: &Context) -> (r: Action)
        requires
            old(self).wf(),
        ensures
            final(self).wf(),
            Censor::spec_packet_post(*old(self), *final(self), packet@, *ctx, r),
    {
        let mut packet = packet;
        let direction = match ctx {
            Context::Wire { direction } => *direction,
            Context::ClientIp { client_ip } => infer_direction(
                *client_ip,
                packet.ip.src(),
                packet.ip.dst(),
            ),
        };
        packet.direction = match direction {
            Direction::ClientToWan => 1,
            Direction::WanToClient => -1,
            Direction::Unknown => 0,
        };
        match packet.ip.version {
            IpVersionMetadata::V4 { src, dst, ident, .. } => {
                let ips = IpPair::V4 { src, dst };
                match self.ipv4_list.recommend_either(src as u128, dst as u128) {
                    Some(Action::Pass) | None => {
                        let mid = self.process_transport(ips, &packet);
                        mid.add_ipid(ident)
                    },
                    Some(a) => a.add_ipid(ident),
                }
            },
            IpVersionMetadata::V6 { src, dst, .. } => {
                let ips = IpPair::V6 { src, dst };
                match self.ipv6_list.recommend_either(src, dst) {
                    Some(Action::Pass) | None => self.process_transport(ips, &packet),
                    Some(a) => a,
                }
            },
        }
    }

    /// The action a parse error of an inner layer degrades to: the
    /// Ethernet tier's unknown action for an unknown ethertype, the ICMP
    /// action for an ICMP payload, and the IP tier's unknown action for
    /// everything else.
    pub open spec fn spec_error_action(self, e: ParsePacketError) -> Action {
        match e {
            ParsePacketError::Ethernet => self.ethernet_unknown,
            ParsePacketError::UnknownInternet(_) => self.ethernet_unknown,
            ParsePacketError::UnknownTransport(p) => if p == IP_PROTO_ICMP {
                self.icmp_action
            } else {
                self.ip_unknown
            },
            _ => self.ip_unknown,
        }
    }

    /// What processing a frame payload decides: ARP takes the ARP action,
    /// an unknown ethertype the Ethernet tier's unknown action, a decoded
    /// packet runs the tiers, and a parse error degrades to its layer's
    /// default.
    pub open spec fn spec_payload_post(
        pre: Censor,
        post: Censor,
        ethertype: u16,
        payload: Seq<u8>,
        ctx: Context,
        r: Action,
    ) -> bool {
        if ethertype == ETHERTYPE_ARP {
            r == pre.arp_action && post == pre
        } else if ethertype != ETHERTYPE_IPV4 && ethertype != ETHERTYPE_IPV6 {
            r == pre.ethernet_unknown && post == pre
        } else {
            match spec_parse_packet(None, payload, ethertype) {
                Ok(p) => Censor::spec_packet_post(pre, post, p, ctx, r),
                Err(e) => r == pre.spec_error_action(e) && post == pre,
            }
        }
    }

    /// Process the payload of one frame under its ethertype hint.
    pub fn process_frame_payload(&mut self, ethertype: u16, payload: &[u8], ctx: &Context) -> (r:
        Action)
        requires
            old(self).wf(),
        ensures
            final(self).wf(),
            Censor::spec_payload_post(*old(self), *final(self), ethertype, payload@, *ctx, r),
    {
        if ethertype == ETHERTYPE_ARP {
            return self.arp_action;
        }
        if ethertype != ETHERTYPE_IPV4 && ethertype != ETHERTYPE_IPV6 {
            return self.ethernet_unknown;
        }
        match Packet::from_ts_bytes(None, payload, ethertype) {
            Ok(packet) => self.process_packet(packet, ctx),
            Err(e) => match e {
                ParsePacketError::Ethernet => self.ethernet_unknown,
                ParsePacketError::UnknownInternet(_) => self.ethernet_unknown,
                ParsePacketError::UnknownTransport(p) => {
                    if p == IP_PROTO_ICMP {
                        self.icmp_action
                    } else {
                        self.ip_unknown
                    }
                },
                _ => self.ip_unknown,
            },
        }
    }

    /// What processing a whole frame decides: the Ethernet list speaks
    /// first over the two addresses; a reset there is refused and turns
    /// into an ignore; a `Pass` or absent recommendation runs the payload,
    /// whose reset is then enriched with the frame's addresses.
    pub open spec fn spec_frame_post(
        pre: Censor,
        post: Censor,
        data: Seq<u8>,
        ctx: Context,
        r: Result<Action, ParsePacketError>,
    ) -> bool {
        match spec_parse_ethernet(data) {
            Err(e) => r == Err::<Action, ParsePacketError>(e) && post == pre,
            Ok((eth, payload)) => match pre.ethernet_list.spec_recommend_either(
                eth.src as u128,
                eth.dst as u128,
            ) {
                Some(Action::Pass) | None => exists|mid: Action|
                    #[trigger] Censor::spec_payload_post(pre, post, eth.ethertype, payload, ctx, mid)
                        && r == Ok::<Action, ParsePacketError>(mid.spec_add_mac(eth.src, eth.dst)),
                Some(Action::Reset { .. }) => r == Ok::<Action, ParsePacketError>(Action::Ignore)
                    && post == pre,
                Some(a) => r == Ok::<Action, ParsePacketError>(a) && post == pre,
            },
        }
    }

    /// Process one raw frame.
    #[verifier::rlimit(100)]
    #[verifier::spinoff_prover]
    pub fn process_frame(&mut self, data: &[u8], ctx: &Context) -> (r: Result<
        Action,
        ParsePacketError,
    >)
        requires
            old(self).wf(),
        ensures
            final(self).wf(),
            Censor::spec_frame_post(*old(self), *final(self), data@, *ctx, r),
    {
        let (eth, payload) = match parse_ethernet(data) {
            Ok(pair) => pair,
            Err(e) => {
                return Err(e);
            },
        };
        match self.ethernet_list.recommend_either(eth.src as u128, eth.dst as u128) {
            Some(Action::Pass) | None => {
                let mid = self.process_frame_payload(eth.ethertype, payload, ctx);
                let r0 = mid.add_mac(eth.src, eth.dst);
                proof {
                    let pair_s = spec_parse_ethernet(data@)->Ok_0;
                    let eth_s = pair_s.0;
                    let payload_s = pair_s.1;
                    assert(eth_s == eth && payload_s == payload@);
                    assert(Censor::spec_payload_post(
                        *old(self),
                        *self,
                        eth_s.ethertype,
                        payload_s,
                        *ctx,
                        mid,
                    ));
                    assert(r0 == mid.spec_add_mac(eth_s.src, eth_s.dst));
                    assert(Censor::spec_frame_post(
                        *old(self),
                        *self,
                        data@,
                        *ctx,
                        Ok::<Action, ParsePacketError>(r0),
                    ));
                }
                Ok(r0)
            },
            Some(Action::Reset { .. }) => Ok(Action::Ignore),
            Some(a) => Ok(a),
        }
    }
}

} // verus!
