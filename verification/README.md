# hopscout

A traceroute and continuous path monitor for Windows, with an MTR-compatible
command line: live full-screen view, text / JSON / CSV reports, ICMP, UDP and
TCP-SYN probes, AS / reverse-DNS / geolocation enrichment, path-change alerts
and path-MTU discovery.

The core is a library verified with Verus; the program around it does the
I/O.

## Layout

- `src/` - the verified library.
  - `model`, `bytes` - probe types, durations, big-endian helpers.
  - `ipc` - framing of the elevated helper's pipe (with round-trip laws).
  - `packet`, `mpls_ext`, `udp_trace`, `tcp_trace`, `echo` - IPv4 / TCP-SYN
    crafting and the Internet checksum, ICMP error and MPLS extension
    parsing, probe correlation, echo status mapping and the path-MTU search.
  - `wide` - exact 256-bit products and comparisons.
  - `stats`, `session`, `engine` - per-hop statistics, the live session, and
    the per-hop worker decisions (path length converges to the nearest TTL
    that reached the destination).
  - `alert` - baselines and path-change detection.
  - `enrich` - what to look up, the WHOIS / geolocation request texts, WHOIS
    table parsing, and writing results into the session.
  - `cli`, `fields`, `report`, `render`, `live`, `labels`, `text`, `scan`,
    `addr_text` - command-line parsing, report layout, the live view's
    decisions, and the text handling they share.
  - `factory`, `caps`, `elevate`, `iface` - backend selection by capability,
    the relaunch command line, and layer-2 path facts.
  - `theme`, `dashboard` - colour palettes and the multi-target dashboard's
    decisions.
- `tests/` - tests of the library.
- `app/` - the `hopscout` command: argument and terminal handling, threads,
  sockets, the Win32 backends (`app/net`, Windows only) and the network
  lookups of the enrichment.

Floating-point figures (loss percentages, milliseconds) are computed and
formatted by the program from the library's exact integer counters.

The graphical dashboard (egui window with the hop table, world map,
topology view, multi-target panel and theme files) is not part of this
program: only its decisions are here, in `theme` and `dashboard`, and the
command-line frontend is the one program that `app/` builds.
