//! Capability model. Features declare what they need; the platform layer
//! reports what is available, and frontends decide what to offer.
use vstd::prelude::*;

verus! {

/// What the current process can actually do, networking-wise.
#[derive(Clone, Copy, Debug, PartialEq, Eq, Structural)]
pub struct Capabilities {
    /// Process token is elevated (admin).
    pub elevated: bool,
    /// A raw sniffer socket can be opened; UDP mode needs it.
    pub raw_icmp: bool,
    /// Npcap is present; TCP mode needs it to build and send packets.
    pub npcap: bool,
}

impl Capabilities {
    /// UDP traceroute: needs to receive ICMP errors on a raw socket.
    pub fn rung2(&self) -> (b: bool)
        ensures
            b == self.raw_icmp,
    {
        self.raw_icmp
    }

    /// TCP-SYN / Paris multipath: needs Npcap (and admin to inject).
    pub fn rung3(&self) -> (b: bool)
        ensures
            b == self.npcap,
    {
        self.npcap
    }
}

/// The capability set from what the platform probes found: whether the
/// process is elevated, whether a raw sniffer could be stood up, and whether
/// Npcap could be loaded.
pub fn detect(elevated: bool, raw_icmp: bool, npcap: bool) -> (c: Capabilities)
    ensures
        c == (Capabilities { elevated, raw_icmp, npcap }),
{
    Capabilities { elevated, raw_icmp, npcap }
}

impl Default for Capabilities {
    fn default() -> (c: Capabilities)
        ensures
            !c.elevated && !c.raw_icmp && !c.npcap,
    {
        Capabilities { elevated: false, raw_icmp: false, npcap: false }
    }
}

} // verus!
