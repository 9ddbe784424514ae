//! The ARP cache: a memoized map from IP address to MAC address, fed by
//! the host's ARP table, and the choice of addresses for a crafted reset.
//! Reading the host table is I/O and stays outside the verified core: the
//! caller scans it and hands entries in.

use vstd::prelude::*;

use crate::packet::IpAddress;

verus! {

/// The memoized IP-to-MAC map. A MAC address is held as its 48-bit value.
#[derive(Clone, Debug)]
pub struct ArpCache {
    pub entries: Vec<(IpAddress, u64)>,
}

/// The index of an address in the cache, where it stands.
pub open spec fn spec_cache_find(s: Seq<(IpAddress, u64)>, ip: IpAddress) -> Option<int>
    decreases s.len(),
{
    if s.len() == 0 {
        None
    } else if s[0].0 == ip {
        Some(0)
    } else {
        match spec_cache_find(s.skip(1), ip) {
            Some(i) => Some(i + 1),
            None => None,
        }
    }
}

impl ArpCache {
    /// The empty cache.
    pub fn new() -> (r: ArpCache)
        ensures
            r.entries@.len() == 0,
    {
        ArpCache { entries: Vec::new() }
    }

    /// The index of an address, where it stands.
    fn find(&self, ip: IpAddress) -> (r: Option<usize>)
        ensures
            match r {
                Some(i) => spec_cache_find(self.entries@, ip) == Some(i as int) && i
                    < self.entries@.len() && self.entries@[i as int].0 == ip,
                None => spec_cache_find(self.entries@, ip) is None,
            },
    {
        let n = self.entries.len();
        let mut i: usize = 0;
        proof {
            assert(self.entries@.skip(0) =~= self.entries@);
        }
        while i < n
            invariant
                i <= n,
                n == self.entries@.len(),
                spec_cache_find(self.entries@, ip) == match spec_cache_find(
                    self.entries@.skip(i as int),
                    ip,
                ) {
                    Some(j) => Some(j + i),
                    None => None,
                },
            decreases n - i,
        {
            proof {
                assert(self.entries@.skip(i as int)[0] == self.entries@[i as int]);
                assert(self.entries@.skip(i as int).skip(1) =~= self.entries@.skip(i + 1));
            }
            if self.entries[i].0 == ip {
                return Some(i);
            }
            i = i + 1;
        }
        proof {
            assert(self.entries@.skip(n as int) =~= Seq::<(IpAddress, u64)>::empty());
        }
        None
    }

    /// Remember the MAC address of an IP address: a known address is
    /// updated in place, a new one joins at the tail.
    pub fn insert(&mut self, ip: IpAddress, mac: u64)
        ensures
            match spec_cache_find(old(self).entries@, ip) {
                Some(i) => final(self).entries@ == old(self).entries@.update(i, (ip, mac)),
                None => final(self).entries@ == old(self).entries@.push((ip, mac)),
            },
    {
        match self.find(ip) {
            Some(i) => {
                self.entries.set(i, (ip, mac));
            },
            None => {
                self.entries.push((ip, mac));
            },
        }
    }

    /// The remembered MAC address of an IP address, where one is known.
    pub fn lookup(&self, ip: IpAddress) -> (r: Option<u64>)
        ensures
            match spec_cache_find(self.entries@, ip) {
                Some(i) => r == Some(self.entries@[i].1),
                None => r is None,
            },
    {
        match self.find(ip) {
            Some(i) => Some(self.entries[i].1),
            None => None,
        }
    }
}

/// The MAC address a crafted reset uses for one endpoint: the resolved
/// address where the cache or the host table gave one; else the default
/// route's address, unless the endpoint is the local client; else zero.
pub open spec fn spec_reset_mac(
    resolved: Option<u64>,
    ip: IpAddress,
    client_ip: IpAddress,
    default_route_mac: Option<u64>,
) -> u64 {
    match resolved {
        Some(m) => m,
        None => if ip != client_ip {
            match default_route_mac {
                Some(m) => m,
                None => 0,
            }
        } else {
            0
        },
    }
}

/// Choose the MAC address a crafted reset uses for one endpoint.
pub fn reset_mac(
    resolved: Option<u64>,
    ip: IpAddress,
    client_ip: IpAddress,
    default_route_mac: Option<u64>,
) -> (r: u64)
    ensures
        r == spec_reset_mac(resolved, ip, client_ip, default_route_mac),
{
    match resolved {
        Some(m) => m,
        None => {
            if ip != client_ip {
                match default_route_mac {
                    Some(m) => m,
                    None => 0,
                }
            } else {
                0
            }
        },
    }
}

} // verus!
