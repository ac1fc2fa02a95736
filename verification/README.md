# opncheck

A Checkmk agent plugin for OPNsense and Linux hosts, with its logic verified
by Verus.

- `src/` is the verified library: the agent and local-check output formats,
  the parsers for what the host commands print (sysctl, netstat, ps, zpool,
  smartctl, wg, unbound-control, pkg audit, …), the OPNsense configuration
  model, the Suricata EVE log cursor, Kea pool statistics, the file-safety
  rules for plugins, the configuration defaults and the auto-update schedule.
  Every public function states in `ensures` what it returns or writes, over
  spec functions on sequences of characters and lines.
- `app/` is the program around it: command-line handling, running commands,
  reading and writing files, the network, serde, and the few computations in
  floating point.
- `tests/` runs the library on concrete inputs.

Outside crates are called from `src/` only through the trusted items in
`src/pattern.rs` (the regex crate), `src/text.rs` and
`src/checks/opnsense/suricata/reader.rs` (std string functions that vstd does
not specify); each one's doc comment says what its contract claims.
