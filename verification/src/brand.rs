//! Shared product identity: one source of truth for the app's name, version,
//! and the strings used by the command line and the report banners.
use vstd::prelude::*;

verus! {

/// Lowercase program / command name.
pub const NAME: &'static str = "hopscout";
/// Display name for titles and About boxes.
pub const DISPLAY_NAME: &'static str = "hopscout";
/// Crate version.
pub const VERSION: &'static str = "0.1.0";
/// Short tagline.
pub const TAGLINE: &'static str = "a better traceroute for Windows";
/// One-line description (file metadata, --help banners).
pub const DESCRIPTION: &'static str = "Live traceroute & network monitor — ICMP/UDP, IPv4/IPv6, ASN + rDNS enrichment";
/// Project home.
pub const REPOSITORY: &'static str = "https://github.com/ABowlOfEleven/hopscout";
/// Copyright / authors line.
pub const AUTHORS: &'static str = "hopscout contributors";

/// `"hopscout 0.1.0"`: name and version for titles and banners.
pub fn name_version() -> (s: String)
    ensures
        s@ == DISPLAY_NAME@ + " "@ + VERSION@,
{
    let mut s = String::from_str(DISPLAY_NAME);
    s.append(" ");
    s.append(VERSION);
    s
}

} // verus!
