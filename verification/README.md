# net_tool

A layer-3 overlay networking tool: a central server hands out mapped
segments (`100.64.N.0/24`) for the real LAN segments that client nodes
report, gives operator nodes addresses (`100.127.0.N`), decides which node
may reach which segment, and relays IP packets between nodes over a framed
TCP tunnel.

## Layout

- `src/` — the library, verified with Verus. It holds the logic: IPv4/CIDR
  arithmetic and address conversion, the tunnel frame format, IPv4 packet
  parsing, rewriting and checksums, the bookkeeping of routes and NAT
  rules, the server's allocation, access policy, records and relay
  decisions, configuration resolution, the nodes' command parsing,
  interface scanning (from `/proc` and `ipconfig` text), diagnostics, the
  terminal tables, and the desktop session. Every public function states
  its result in `ensures`; the laws that relate several functions are
  public proof functions (`lemma_*`).
- `tests/` — tests of the library on concrete values.
- `app/` — the program around it: command line, terminal I/O, the HTTP
  API (axum + SQLite), the tunnel sockets, the TUN device, system commands,
  and the commands of the desktop window. It hands plain values to the
  library and prints or sends what comes back.

## Trusted items

The few calls the library makes into code it does not verify stand in
`#[verifier::external_body]` wrappers, each with a doc comment that says
what its contract claims: building a `String` from characters,
`String::from_utf8_lossy`, `str::to_lowercase`, `str::parse::<u32>`,
`serde_json::from_str::<Vec<String>>` and `uuid::Uuid::new_v4`.
