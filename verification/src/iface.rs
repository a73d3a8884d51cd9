//! Layer-2 path facts the packet injector needs: the capture device for an
//! adapter, the adapter's MAC, and the next hop toward a destination.
use vstd::prelude::*;
use crate::text::push_chars;

verus! {

/// Everything needed to frame and inject a packet toward a destination.
pub struct L2Path {
    /// Npcap device name, e.g. `\Device\NPF_{GUID}`.
    pub device: String,
    pub src_mac: [u8; 6],
    /// Next-hop (gateway, or destination if on-link) MAC.
    pub gw_mac: [u8; 6],
}

/// The next hop toward `dest` given the route's next-hop address (IPv4 as
/// numbers): the gateway, or `dest` itself when the route is on-link (an
/// unspecified next hop).
pub fn next_hop(route_next_hop: u32, dest: u32) -> (h: u32)
    ensures
        h == if route_next_hop == 0 { dest } else { route_next_hop },
{
    if route_next_hop == 0 {
        dest
    } else {
        route_next_hop
    }
}

/// The Npcap device name of an adapter.
pub open spec fn spec_device_name(adapter: Seq<char>) -> Seq<char> {
    "\\Device\\NPF_"@ + adapter
}

pub fn device_name(adapter: &Vec<char>) -> (s: String)
    ensures
        s@ == spec_device_name(adapter@),
{
    let mut s = String::from_str("\\Device\\NPF_");
    push_chars(&mut s, adapter);
    s
}

/// The MAC address from an adapter's address bytes: the first
/// `min(len, 6)` bytes, zeros after.
pub fn mac_of(address: &[u8], len: u32) -> (mac: [u8; 6])
    requires
        address@.len() >= 6,
    ensures
        forall|k: int| 0 <= k < 6 ==> mac@[k] == if k < len { address@[k] } else { 0u8 },
{
    let n: usize = if len < 6 { len as usize } else { 6 };
    let mut mac = [0u8; 6];
    let mut i: usize = 0;
    while i < n
        invariant
            n <= 6,
            n as int == if len < 6 { len as int } else { 6 },
            address@.len() >= 6,
            i <= n,
            mac@.len() == 6,
            forall|k: int| 0 <= k < i ==> mac@[k] == address@[k],
            forall|k: int| i <= k < 6 ==> mac@[k] == 0u8,
        decreases n - i,
    {
        mac[i] = address[i];
        i = i + 1;
    }
    mac
}

} // verus!
