//! hopscout: the verified core of a traceroute and path monitor.
//!
//! The probe model, the byte-level wire formats (helper pipe framing, IPv4 /
//! TCP-SYN crafting, ICMP error and MPLS extension parsing), the rolling
//! per-hop statistics, the live session and the per-hop engine decisions,
//! path-change detection, enrichment requests and parsing, command-line
//! parsing, the reports, and the themes all live here with their contracts.
//! Sockets, threads, timers, floating-point figures and rendering are the
//! program's business, outside this crate.

pub mod bytes;
pub mod model;
pub mod ipc;
pub mod packet;
pub mod mpls_ext;
pub mod udp_trace;
pub mod tcp_trace;
pub mod echo;
pub mod wide;
pub mod stats;
pub mod session;
pub mod alert;
pub mod text;
pub mod addr_text;
pub mod scan;
pub mod brand;
pub mod caps;
pub mod fields;
pub mod report;
pub mod enrich;
pub mod cli;
pub mod engine;
pub mod factory;
pub mod theme;
pub mod labels;
pub mod elevate;
pub mod iface;
pub mod live;
pub mod render;
pub mod dashboard;
