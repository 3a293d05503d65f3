# dcp_provider

The DCP provider desktop agent, as a Verus-verified library and a thin Tauri
shell.

- `src/` — the verified library: hardware and system facts read from tool
  output (`hardware`), the health report (`health`), the quick system checks
  (`checks`), the daemon's lifecycle state and stop procedure (`daemon`),
  daemon updates checked against the backend's manifest (`update`), the
  install wizard's choices and progress reading (`install`), the WireGuard
  mesh (`network`), operating-system decisions (`platform`), the provider
  account (`provider`), the agent chat with the local gateway (`agent`), a
  JSON document model (`json`), the records sent to the front end (`types`)
  and the text toolkit the parsers share (`text`).
- `tests/` — tests of the library on concrete values.
- `app/` — the Tauri commands, tray and I/O: they run the commands and
  requests, hand the results to the library and carry out what it decides.
