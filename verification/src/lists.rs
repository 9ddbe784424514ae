//! The allow/block list discipline: a list holds a membership store and an
//! action to apply on match (block) or non-match (allow); a combined list
//! consults the blocklist first, and a decision of `Pass` falls through.

use vstd::prelude::*;

use crate::action::Action;

verus! {

/// Whether a key stands in the store.
pub open spec fn spec_key_in(store: Seq<u128>, value: u128) -> bool {
    exists|j: int| 0 <= j < store.len() && store[j] == value
}

/// Decide membership of a key in a store.
fn key_in(store: &Vec<u128>, value: u128) -> (r: bool)
    ensures
        r == spec_key_in(store@, value),
{
    let n = store.len();
    let mut j: usize = 0;
    while j < n
        invariant
            j <= n,
            n == store@.len(),
            forall|k: int| 0 <= k < j ==> store@[k] != value,
        decreases n - j,
    {
        if store[j] == value {
            return true;
        }
        j = j + 1;
    }
    proof {
        if spec_key_in(store@, value) {
            let k = choose|k: int| 0 <= k < store@.len() && store@[k] == value;
            assert(store@[k] != value);
        }
    }
    false
}

/// A membership store of all sixty-five thousand five hundred thirty-six
/// ports.
#[derive(Clone, Debug)]
pub struct PortSet {
    pub bits: Vec<bool>,
}

impl PortSet {
    /// The store is well formed when it holds one bit per port.
    pub open spec fn wf(self) -> bool {
        self.bits@.len() == 0x10000
    }

    /// Whether the port stands in the store.
    pub open spec fn spec_contains(self, port: u16) -> bool {
        self.bits@[port as int]
    }

    /// The empty store.
    pub fn new() -> (r: PortSet)
        ensures
            r.wf(),
            forall|p: u16| !r.spec_contains(p),
    {
        let mut bits: Vec<bool> = Vec::new();
        let mut i: usize = 0;
        while i < 0x10000
            invariant
                i <= 0x10000,
                bits@.len() == i,
                forall|k: int| 0 <= k < i ==> !bits@[k],
            decreases 0x10000 - i,
        {
            bits.push(false);
            i = i + 1;
        }
        PortSet { bits }
    }

    /// Put a port into the store.
    pub fn set(&mut self, port: u16)
        requires
            old(self).wf(),
        ensures
            final(self).wf(),
            forall|p: u16|
                final(self).spec_contains(p) == (old(self).spec_contains(p) || p == port),
    {
        self.bits.set(port as usize, true);
    }

    /// Decide membership of a port.
    pub fn contains(&self, port: u16) -> (r: bool)
        requires
            self.wf(),
        ensures
            r == self.spec_contains(port),
    {
        self.bits[port as usize]
    }
}

/// A blocklist of keys: membership recommends the list's action.
#[derive(Clone, Debug)]
pub struct BlockList {
    pub store: Vec<u128>,
    pub in_blocklist: Action,
}

impl BlockList {
    /// What the blocklist recommends: its action for a member, nothing
    /// otherwise.
    pub open spec fn spec_recommend(self, value: u128) -> Option<Action> {
        if spec_key_in(self.store@, value) {
            Some(self.in_blocklist)
        } else {
            None
        }
    }

    pub fn recommend(&self, value: u128) -> (r: Option<Action>)
        ensures
            r == self.spec_recommend(value),
    {
        if key_in(&self.store, value) {
            Some(self.in_blocklist)
        } else {
            None
        }
    }
}

/// An allowlist of keys: absence recommends the list's action.
#[derive(Clone, Debug)]
pub struct AllowList {
    pub store: Vec<u128>,
    pub not_in_allowlist: Action,
}

impl AllowList {
    /// What the allowlist recommends: nothing for a member, its action
    /// otherwise.
    pub open spec fn spec_recommend(self, value: u128) -> Option<Action> {
        if spec_key_in(self.store@, value) {
            None
        } else {
            Some(self.not_in_allowlist)
        }
    }

    pub fn recommend(&self, value: u128) -> (r: Option<Action>)
        ensures
            r == self.spec_recommend(value),
    {
        if key_in(&self.store, value) {
            None
        } else {
            Some(self.not_in_allowlist)
        }
    }
}

/// A combined allow and blocklist: the blocklist is consulted first, and a
/// recommendation of `Pass` falls through to the allowlist.
#[derive(Clone, Debug)]
pub struct AllowBlockList {
    pub allow: AllowList,
    pub block: BlockList,
}

/// A terminal recommendation masks the next: anything but `Pass` or no
/// recommendation stands; otherwise the second recommendation is taken.
pub open spec fn spec_first_or(first: Option<Action>, second: Option<Action>) -> Option<Action> {
    match first {
        Some(Action::Pass) => second,
        None => second,
        Some(a) => Some(a),
    }
}

impl AllowBlockList {
    /// A combined list from its two parts.
    pub fn new(allow: AllowList, block: BlockList) -> (r: AllowBlockList)
        ensures
            r.allow == allow,
            r.block == block,
    {
        AllowBlockList { allow, block }
    }

    /// What the combined list recommends: the blocklist first, and a
    /// `Pass` or no recommendation falls through to the allowlist.
    pub open spec fn spec_recommend(self, value: u128) -> Option<Action> {
        spec_first_or(self.block.spec_recommend(value), self.allow.spec_recommend(value))
    }

    pub fn recommend(&self, value: u128) -> (r: Option<Action>)
        ensures
            r == self.spec_recommend(value),
    {
        match self.block.recommend(value) {
            Some(Action::Pass) => self.allow.recommend(value),
            None => self.allow.recommend(value),
            Some(a) => Some(a),
        }
    }

    /// What the combined list recommends for two keys: the first key is
    /// consulted first, and only its `Pass` or absent recommendation lets
    /// the second key speak. The order of the keys matters.
    pub open spec fn spec_recommend_either(self, val_1: u128, val_2: u128) -> Option<Action> {
        spec_first_or(self.spec_recommend(val_1), self.spec_recommend(val_2))
    }

    pub fn recommend_either(&self, val_1: u128, val_2: u128) -> (r: Option<Action>)
        ensures
            r == self.spec_recommend_either(val_1, val_2),
    {
        match self.recommend(val_1) {
            Some(Action::Pass) => self.recommend(val_2),
            None => self.recommend(val_2),
            Some(a) => Some(a),
        }
    }
}

/// A combined allow and blocklist of ports, over the port store.
#[derive(Clone, Debug)]
pub struct PortAllowBlockList {
    pub allow_store: PortSet,
    pub not_in_allowlist: Action,
    pub block_store: PortSet,
    pub in_blocklist: Action,
}

impl PortAllowBlockList {
    pub open spec fn wf(self) -> bool {
        self.allow_store.wf() && self.block_store.wf()
    }

    /// What the port blocklist recommends.
    pub open spec fn spec_block_recommend(self, port: u16) -> Option<Action> {
        if self.block_store.spec_contains(port) {
            Some(self.in_blocklist)
        } else {
            None
        }
    }

    /// What the port allowlist recommends.
    pub open spec fn spec_allow_recommend(self, port: u16) -> Option<Action> {
        if self.allow_store.spec_contains(port) {
            None
        } else {
            Some(self.not_in_allowlist)
        }
    }

    /// What the combined port list recommends: the blocklist first.
    pub open spec fn spec_recommend(self, port: u16) -> Option<Action> {
        spec_first_or(self.spec_block_recommend(port), self.spec_allow_recommend(port))
    }

    pub fn recommend(&self, port: u16) -> (r: Option<Action>)
        requires
            self.wf(),
        ensures
            r == self.spec_recommend(port),
    {
        let first: Option<Action> = if self.block_store.contains(port) {
            Some(self.in_blocklist)
        } else {
            None
        };
        match first {
            Some(Action::Pass) | None => {
                if self.allow_store.contains(port) {
                    None
                } else {
                    Some(self.not_in_allowlist)
                }
            },
            Some(a) => Some(a),
        }
    }

    /// What the combined port list recommends for two ports: the first
    /// port is consulted first, and only its `Pass` or absent
    /// recommendation lets the second speak.
    pub open spec fn spec_recommend_either(self, port_1: u16, port_2: u16) -> Option<Action> {
        spec_first_or(self.spec_recommend(port_1), self.spec_recommend(port_2))
    }

    pub fn recommend_either(&self, port_1: u16, port_2: u16) -> (r: Option<Action>)
        requires
            self.wf(),
        ensures
            r == self.spec_recommend_either(port_1, port_2),
    {
        match self.recommend(port_1) {
            Some(Action::Pass) => self.recommend(port_2),
            None => self.recommend(port_2),
            Some(a) => Some(a),
        }
    }
}

/// The masking law of paired lookups: a terminal recommendation for the
/// first key decides alone, whatever the second key would have said; the
/// second key is consulted exactly when the first yields `Pass` or
/// nothing. The two orders of the same pair can so disagree.
pub proof fn lemma_recommend_either_masks(l: AllowBlockList, val_1: u128, val_2: u128)
    ensures
        (match l.spec_recommend(val_1) {
            Some(a) => a != Action::Pass,
            None => false,
        }) ==> l.spec_recommend_either(val_1, val_2) == l.spec_recommend(val_1),
        (match l.spec_recommend(val_1) {
            Some(a) => a == Action::Pass,
            None => true,
        }) ==> l.spec_recommend_either(val_1, val_2) == l.spec_recommend(val_2),
{
}

} // verus!

verus! {

/// Whether an endpoint stands in the store.
pub open spec fn spec_endpoint_in(
    store: Seq<(crate::packet::IpAddress, u16)>,
    ip: crate::packet::IpAddress,
    port: u16,
) -> bool {
    exists|j: int| 0 <= j < store.len() && store[j] == (ip, port)
}

/// Decide membership of an endpoint in a store.
fn endpoint_in(
    store: &Vec<(crate::packet::IpAddress, u16)>,
    ip: crate::packet::IpAddress,
    port: u16,
) -> (r: bool)
    ensures
        r == spec_endpoint_in(store@, ip, port),
{
    let n = store.len();
    let mut j: usize = 0;
    while j < n
        invariant
            j <= n,
            n == store@.len(),
            forall|k: int| 0 <= k < j ==> store@[k] != (ip, port),
        decreases n - j,
    {
        if store[j].0 == ip && store[j].1 == port {
            return true;
        }
        j = j + 1;
    }
    proof {
        if spec_endpoint_in(store@, ip, port) {
            let k = choose|k: int| 0 <= k < store@.len() && store@[k] == (ip, port);
            assert(store@[k] != (ip, port));
        }
    }
    false
}

/// A combined allow and blocklist of address-and-port endpoints.
#[derive(Clone, Debug)]
pub struct EndpointAllowBlockList {
    pub allow_store: Vec<(crate::packet::IpAddress, u16)>,
    pub not_in_allowlist: Action,
    pub block_store: Vec<(crate::packet::IpAddress, u16)>,
    pub in_blocklist: Action,
}

impl EndpointAllowBlockList {
    /// A combined endpoint list with nothing listed and `Pass` for the
    /// absent allowlist.
    pub fn empty() -> (r: EndpointAllowBlockList)
        ensures
            r.allow_store@.len() == 0,
            r.block_store@.len() == 0,
            r.not_in_allowlist == Action::Pass,
            r.in_blocklist == Action::Pass,
    {
        EndpointAllowBlockList {
            allow_store: Vec::new(),
            not_in_allowlist: Action::Pass,
            block_store: Vec::new(),
            in_blocklist: Action::Pass,
        }
    }

    /// What the endpoint blocklist recommends.
    pub open spec fn spec_block_recommend(
        self,
        ip: crate::packet::IpAddress,
        port: u16,
    ) -> Option<Action> {
        if spec_endpoint_in(self.block_store@, ip, port) {
            Some(self.in_blocklist)
        } else {
            None
        }
    }

    /// What the endpoint allowlist recommends.
    pub open spec fn spec_allow_recommend(
        self,
        ip: crate::packet::IpAddress,
        port: u16,
    ) -> Option<Action> {
        if spec_endpoint_in(self.allow_store@, ip, port) {
            None
        } else {
            Some(self.not_in_allowlist)
        }
    }

    /// What the combined endpoint list recommends: the blocklist first.
    pub open spec fn spec_recommend(
        self,
        ip: crate::packet::IpAddress,
        port: u16,
    ) -> Option<Action> {
        spec_first_or(self.spec_block_recommend(ip, port), self.spec_allow_recommend(ip, port))
    }

    pub fn recommend(&self, ip: crate::packet::IpAddress, port: u16) -> (r: Option<Action>)
        ensures
            r == self.spec_recommend(ip, port),
    {
        let first: Option<Action> = if endpoint_in(&self.block_store, ip, port) {
            Some(self.in_blocklist)
        } else {
            None
        };
        match first {
            Some(Action::Pass) | None => {
                if endpoint_in(&self.allow_store, ip, port) {
                    None
                } else {
                    Some(self.not_in_allowlist)
                }
            },
            Some(a) => Some(a),
        }
    }

    /// What the combined endpoint list recommends for a packet's two
    /// endpoints: the source endpoint is consulted first, and only its
    /// `Pass` or absent recommendation lets the destination speak.
    pub open spec fn spec_recommend_either(
        self,
        src_ip: crate::packet::IpAddress,
        src_port: u16,
        dst_ip: crate::packet::IpAddress,
        dst_port: u16,
    ) -> Option<Action> {
        spec_first_or(
            self.spec_recommend(src_ip, src_port),
            self.spec_recommend(dst_ip, dst_port),
        )
    }

    pub fn recommend_either(
        &self,
        src_ip: crate::packet::IpAddress,
        src_port: u16,
        dst_ip: crate::packet::IpAddress,
        dst_port: u16,
    ) -> (r: Option<Action>)
        ensures
            r == self.spec_recommend_either(src_ip, src_port, dst_ip, dst_port),
    {
        match self.recommend(src_ip, src_port) {
            Some(Action::Pass) => self.recommend(dst_ip, dst_port),
            None => self.recommend(dst_ip, dst_port),
            Some(a) => Some(a),
        }
    }
}

} // verus!
