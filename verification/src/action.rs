//! The censor's decision type, and the reading of a policy script's
//! verdict string.

use vstd::prelude::*;
use vstd::string::StrSliceExecFns;

use crate::packet::{IpPair, TransportMetadata, TransportMetadataExtra};

verus! {

/// An action taken by the censor on one packet.
#[derive(Clone, Copy, Debug, PartialEq, Eq, Structural)]
pub enum Action {
    /// Continue the pipeline; with nothing more to decide, the back end
    /// forwards the packet.
    Pass,
    /// Send a reset in both directions, crafted from the captured state.
    Reset {
        src_mac: u64,
        dst_mac: u64,
        ips: IpPair,
        ipid: Option<u16>,
        src_port: u16,
        dst_port: u16,
        seq: u32,
        ack: u32,
        payload_len: usize,
    },
    /// Stop the pipeline; the back end forwards the packet.
    Ignore,
    /// Stop the pipeline; the back end drops the packet.
    Drop,
    /// Drop the original; the delayer re-transmits it at the deadline,
    /// given in microseconds of the back end's clock.
    Delay(u64),
}

impl Default for Action {
    /// The default action continues the pipeline.
    fn default() -> (r: Action)
        ensures
            r == Action::Pass,
    {
        Action::Pass
    }
}

impl Action {
    pub open spec fn spec_is_reset(self) -> bool {
        self is Reset
    }

    pub fn is_reset(&self) -> (r: bool)
        ensures
            r == self.spec_is_reset(),
    {
        matches!(self, Action::Reset { .. })
    }

    /// The action with the reset fields taken from the packet, where it is
    /// a reset.
    pub open spec fn spec_enrich(
        self,
        ips: IpPair,
        src_port: u16,
        dst_port: u16,
        ack: u32,
        seq: u32,
        payload_len: usize,
    ) -> Action {
        match self {
            Action::Reset { src_mac, dst_mac, ipid, .. } => Action::Reset {
                src_mac,
                dst_mac,
                ips,
                ipid,
                src_port,
                dst_port,
                seq,
                ack,
                payload_len,
            },
            _ => self,
        }
    }

    pub fn enrich(
        self,
        ips: IpPair,
        src_port: u16,
        dst_port: u16,
        ack: u32,
        seq: u32,
        payload_len: usize,
    ) -> (r: Action)
        ensures
            r == self.spec_enrich(ips, src_port, dst_port, ack, seq, payload_len),
    {
        if let Action::Reset { src_mac, dst_mac, ipid, .. } = self {
            Action::Reset {
                src_mac,
                dst_mac,
                ips,
                ipid,
                src_port,
                dst_port,
                seq,
                ack,
                payload_len,
            }
        } else {
            self
        }
    }

    /// The action with the Ethernet addresses filled in, where it is a
    /// reset.
    pub open spec fn spec_add_mac(self, src_mac: u64, dst_mac: u64) -> Action {
        match self {
            Action::Reset { ips, ipid, src_port, dst_port, seq, ack, payload_len, .. } => Action::Reset {
                src_mac,
                dst_mac,
                ips,
                ipid,
                src_port,
                dst_port,
                seq,
                ack,
                payload_len,
            },
            _ => self,
        }
    }

    pub fn add_mac(self, src_mac: u64, dst_mac: u64) -> (r: Action)
        ensures
            r == self.spec_add_mac(src_mac, dst_mac),
    {
        if let Action::Reset { ips, ipid, src_port, dst_port, seq, ack, payload_len, .. } = self {
            Action::Reset {
                src_mac,
                dst_mac,
                ips,
                ipid,
                src_port,
                dst_port,
                seq,
                ack,
                payload_len,
            }
        } else {
            self
        }
    }

    /// The action with the IP identification filled in, where it is a
    /// reset.
    pub open spec fn spec_add_ipid(self, ipid: u16) -> Action {
        match self {
            Action::Reset { src_mac, dst_mac, ips, src_port, dst_port, seq, ack, payload_len, .. } => Action::Reset {
                src_mac,
                dst_mac,
                ips,
                ipid: Some(ipid),
                src_port,
                dst_port,
                seq,
                ack,
                payload_len,
            },
            _ => self,
        }
    }

    pub fn add_ipid(self, ipid: u16) -> (r: Action)
        ensures
            r == self.spec_add_ipid(ipid),
    {
        if let Action::Reset { src_mac, dst_mac, ips, src_port, dst_port, seq, ack, payload_len, .. } =
            self {
            Action::Reset {
                src_mac,
                dst_mac,
                ips,
                ipid: Some(ipid),
                src_port,
                dst_port,
                seq,
                ack,
                payload_len,
            }
        } else {
            self
        }
    }
}

/// A character folded to lower case, for the ASCII letters.
pub open spec fn spec_lower_char(c: char) -> char {
    if 'A' <= c && c <= 'Z' {
        (((c as u8) + 32) as u8) as char
    } else {
        c
    }
}

/// A string folded to lower case, character by character.
pub open spec fn spec_lower(s: Seq<char>) -> Seq<char> {
    s.map_values(|c: char| spec_lower_char(c))
}

/// Whether `s`, folded to lower case, equals the literal `lit`.
pub fn lower_eq(s: &str, lit: &str) -> (r: bool)
    ensures
        r == (spec_lower(s@) == lit@),
{
    let n = s.unicode_len();
    if n != lit.unicode_len() {
        proof {
            assert(spec_lower(s@).len() == s@.len());
        }
        return false;
    }
    let mut i: usize = 0;
    while i < n
        invariant
            i <= n,
            n == s@.len(),
            n == lit@.len(),
            forall|k: int| 0 <= k < i ==> spec_lower_char(s@[k]) == lit@[k],
        decreases n - i,
    {
        let c = s.get_char(i);
        let folded: char = if c >= 'A' && c <= 'Z' {
            (((c as u8) + 32) as u8) as char
        } else {
            c
        };
        if folded != lit.get_char(i) {
            proof {
                assert(spec_lower(s@)[i as int] == spec_lower_char(s@[i as int]));
                if spec_lower(s@) == lit@ {
                    assert(spec_lower(s@)[i as int] == lit@[i as int]);
                }
            }
            return false;
        }
        i = i + 1;
    }
    proof {
        assert(spec_lower(s@) =~= lit@) by {
            assert(forall|k: int|
                0 <= k < n ==> spec_lower(s@)[k] == spec_lower_char(s@[k]));
        }
    }
    true
}

/// What a script's verdict string decides, read case-insensitively:
/// `reset` crafts a reset from the packet's transport state, degrading to
/// a drop on a non-TCP packet; `drop` drops; anything else, `allow` and
/// the reserved `inject` included, continues the pipeline.
pub open spec fn spec_script_action(
    s: Seq<char>,
    ips: IpPair,
    t: TransportMetadata,
    payload_len: usize,
) -> Action {
    let low = spec_lower(s);
    if low == "reset"@ {
        match t.extra {
            TransportMetadataExtra::Tcp(m) => Action::Reset {
                src_mac: 0,
                dst_mac: 0,
                ips,
                ipid: None,
                src_port: t.src,
                dst_port: t.dst,
                seq: m.seq,
                ack: m.ack,
                payload_len,
            },
            TransportMetadataExtra::Udp(_) => Action::Drop,
        }
    } else if low == "drop"@ {
        Action::Drop
    } else {
        Action::Pass
    }
}

/// Read a script's verdict string into an action.
pub fn action_from_script_result(
    s: &str,
    ips: IpPair,
    transport: &TransportMetadata,
    payload_len: usize,
) -> (r: Action)
    ensures
        r == spec_script_action(s@, ips, *transport, payload_len),
{
    if lower_eq(s, "reset") {
        match &transport.extra {
            TransportMetadataExtra::Tcp(m) => Action::Reset {
                src_mac: 0,
                dst_mac: 0,
                ips,
                ipid: None,
                src_port: transport.src,
                dst_port: transport.dst,
                seq: m.seq,
                ack: m.ack,
                payload_len,
            },
            TransportMetadataExtra::Udp(_) => Action::Drop,
        }
    } else if lower_eq(s, "drop") {
        Action::Drop
    } else {
        Action::Pass
    }
}

} // verus!
