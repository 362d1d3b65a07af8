# unifi

WiFi analysis: scanners gather beacons, the library reads their 802.11
information elements and tells which WiFi generation, channel width,
security, roaming protocols and rates each network offers.

The library in `src/` is verified with Verus.  Its functions state what they
return in `requires`/`ensures` contracts over mathematical models
(sequences of bytes and characters, spec functions for every format read),
and `src/laws.rs` proves properties that tie several functions together.

Layout:

- `src/parser/` – information elements: the element walk, names, PHY
  capabilities, RSN, channel width, the beacon-to-network summary and the
  element-by-element details.
- `src/scanner/` – what scanners produce: captured frames (radiotap and
  beacon), `iw` text, the airport tool's listing and report, CoreWLAN and
  WLAN API values, libpcap capture bookkeeping, scanner selection.
- `src/scanner_core.rs`, `src/plugins.rs`, `src/registry.rs` – the plugin
  types, the plugins' own parsing and a registry that picks scanners.
- `src/analysis.rs` – networks grouped by name and scan statistics.
- `src/roaming.rs` – ping settings and results, connection states, and
  the step of a roaming test (when a roam starts, ends and loses pings).
- `src/report.rs` – what the command line shows.
- `src/vendor.rs` – vendor lookup by OUI, over a small built-in table of
  prefixes (not the full IEEE registry; other prefixes have no vendor).
- `src/text.rs`, `src/textscan.rs` – text decoding and reading command
  output.
- `app/` – the command-line program: running system tools and capture,
  floating-point latency statistics, JSON output.
