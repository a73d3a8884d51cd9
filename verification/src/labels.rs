//! Short labels the frontends show for settings and probe results.
use vstd::prelude::*;
use crate::cli::Family;
use crate::model::ProbeProtocol;
use crate::text::{decimal, push_decimal, spec_truncate, truncate};

verus! {

/// A label cut to at most `max` characters, ending in an ellipsis when cut.
pub fn truncate_label(s: &str, max: usize) -> (r: String)
    ensures
        r@ == spec_truncate(s@, max as nat),
{
    truncate(s, max)
}

/// The label of a path-MTU probe: still running (`None`), finished without
/// an answer (`Some(None)`), or the MTU in bytes.
pub open spec fn spec_mtu_label(slot: Option<Option<u16>>) -> Seq<char> {
    match slot {
        None => "MTU probing…"@,
        Some(None) => "MTU n/a"@,
        Some(Some(m)) => "MTU "@ + decimal(m as nat),
    }
}

pub fn mtu_label(slot: Option<Option<u16>>) -> (r: String)
    ensures
        r@ == spec_mtu_label(slot),
{
    match slot {
        None => String::from_str("MTU probing…"),
        Some(None) => String::from_str("MTU n/a"),
        Some(Some(m)) => {
            let mut s = String::from_str("MTU ");
            push_decimal(&mut s, m as u64);
            s
        },
    }
}

pub open spec fn spec_proto_label(p: ProbeProtocol) -> Seq<char> {
    match p {
        ProbeProtocol::Icmp => "ICMP"@,
        ProbeProtocol::Udp => "UDP"@,
        ProbeProtocol::TcpSyn => "TCP"@,
    }
}

pub fn proto_label(p: ProbeProtocol) -> (r: &'static str)
    ensures
        r@ == spec_proto_label(p),
{
    match p {
        ProbeProtocol::Icmp => "ICMP",
        ProbeProtocol::Udp => "UDP",
        ProbeProtocol::TcpSyn => "TCP",
    }
}

pub open spec fn spec_family_label(f: Family) -> Seq<char> {
    match f {
        Family::Auto => "Auto"@,
        Family::V4 => "IPv4"@,
        Family::V6 => "IPv6"@,
    }
}

pub fn family_label(f: Family) -> (r: &'static str)
    ensures
        r@ == spec_family_label(f),
{
    match f {
        Family::Auto => "Auto",
        Family::V4 => "IPv4",
        Family::V6 => "IPv6",
    }
}

} // verus!
