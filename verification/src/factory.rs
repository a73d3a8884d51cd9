//! Protocol to backend selection, shared by every frontend so capability
//! gating lives in one place.
use vstd::prelude::*;
use crate::caps::Capabilities;
use crate::model::{Addr, ProbeProtocol};

verus! {

/// Why a backend could not be built; frontends turn these into prompts.
#[derive(Clone, Debug, PartialEq, Eq)]
pub enum BackendError {
    /// Needs an elevated process (raw sniffer / packet injection).
    NeedsElevation,
    /// Needs Npcap installed (TCP mode).
    NeedsNpcap,
    /// The protocol cannot serve this target (UDP/TCP to an IPv6 address).
    Unsupported(String),
    /// A real I/O failure opening sockets or resolving the interface, with
    /// its message.
    Io(String),
}

/// The message shown for each error.
pub open spec fn spec_error_message(e: BackendError) -> Seq<char> {
    match e {
        BackendError::NeedsElevation => "this mode needs administrator privileges"@,
        BackendError::NeedsNpcap => "this mode needs Npcap (install from https://npcap.com)"@,
        BackendError::Unsupported(m) => m@,
        BackendError::Io(m) => m@,
    }
}

impl BackendError {
    /// The message shown to the user.
    pub fn message(&self) -> (s: String)
        ensures
            s@ == spec_error_message(*self),
    {
        match self {
            BackendError::NeedsElevation => String::from_str("this mode needs administrator privileges"),
            BackendError::NeedsNpcap => String::from_str("this mode needs Npcap (install from https://npcap.com)"),
            BackendError::Unsupported(m) => m.clone(),
            BackendError::Io(m) => m.clone(),
        }
    }
}

/// The backend to build for a trace.
#[derive(Clone, Copy, Debug, PartialEq, Eq, Structural)]
pub enum BackendPlan {
    /// The unprivileged ICMP echo API (IPv4 and IPv6).
    Icmp,
    /// UDP probes with a raw ICMP sniffer, toward this IPv4 address.
    RawUdp { dest: u32 },
    /// TCP-SYN probes injected through Npcap, toward this IPv4 address and port.
    NpcapTcp { dest: u32, port: u16 },
}

/// A [`BackendError`] of the planning stage, by its view.
pub enum PlanError {
    NeedsElevation,
    NeedsNpcap,
    Unsupported(Seq<char>),
}

/// Whether an error is the one a plan error describes.
pub open spec fn error_is(e: BackendError, p: PlanError) -> bool {
    match (e, p) {
        (BackendError::NeedsElevation, PlanError::NeedsElevation) => true,
        (BackendError::NeedsNpcap, PlanError::NeedsNpcap) => true,
        (BackendError::Unsupported(m), PlanError::Unsupported(v)) => m@ == v,
        _ => false,
    }
}

/// Which backend serves `proto` toward `dest`, or why none can. The
/// capabilities are consulted only for UDP and TCP.
pub open spec fn spec_plan(proto: ProbeProtocol, dest: Addr, port: u16, caps: Capabilities) -> Result<BackendPlan, PlanError> {
    match proto {
        ProbeProtocol::Icmp => Ok(BackendPlan::Icmp),
        ProbeProtocol::Udp => match dest {
            Addr::V6(_) => Err(PlanError::Unsupported("UDP mode is IPv4-only"@)),
            Addr::V4(d) => if !caps.raw_icmp {
                Err(PlanError::NeedsElevation)
            } else {
                Ok(BackendPlan::RawUdp { dest: d })
            },
        },
        ProbeProtocol::TcpSyn => match dest {
            Addr::V6(_) => Err(PlanError::Unsupported("TCP mode is IPv4-only"@)),
            Addr::V4(d) => if !caps.npcap {
                Err(PlanError::NeedsNpcap)
            } else if !caps.elevated {
                Err(PlanError::NeedsElevation)
            } else {
                Ok(BackendPlan::NpcapTcp { dest: d, port })
            },
        },
    }
}

/// Choose the backend for `proto` toward `dest` given what the process can
/// do: ICMP always; UDP needs an IPv4 target and the raw sniffer; TCP needs
/// an IPv4 target, Npcap, and elevation (Npcap is checked first).
pub fn plan_backend(proto: ProbeProtocol, dest: Addr, port: u16, caps: &Capabilities) -> (r: Result<BackendPlan, BackendError>)
    ensures
        match (r, spec_plan(proto, dest, port, *caps)) {
            (Ok(p), Ok(q)) => p == q,
            (Err(e), Err(p)) => error_is(e, p),
            _ => false,
        },
{
    match proto {
        ProbeProtocol::Icmp => Ok(BackendPlan::Icmp),
        ProbeProtocol::Udp => match dest {
            Addr::V6(_) => Err(BackendError::Unsupported(String::from_str("UDP mode is IPv4-only"))),
            Addr::V4(d) => {
                if !caps.rung2() {
                    Err(BackendError::NeedsElevation)
                } else {
                    Ok(BackendPlan::RawUdp { dest: d })
                }
            },
        },
        ProbeProtocol::TcpSyn => match dest {
            Addr::V6(_) => Err(BackendError::Unsupported(String::from_str("TCP mode is IPv4-only"))),
            Addr::V4(d) => {
                if !caps.npcap {
                    Err(BackendError::NeedsNpcap)
                } else if !caps.elevated {
                    Err(BackendError::NeedsElevation)
                } else {
                    Ok(BackendPlan::NpcapTcp { dest: d, port })
                }
            },
        },
    }
}

} // verus!
