# terax

The backend logic of a terminal workstation: command-line parsing, requests
to an AI workstation gateway, starting that gateway, serving the built web UI,
and the values of the terminal history queries. The library in `src/` holds
these decisions with their contracts, proved with Verus; `app/` performs the
HTTP, process, file and SQLite work around them.

- `src/cli.rs`: the command line and the detach decision.
- `src/gateway.rs`: request plans of the gateway calls and what each outcome
  of a call yields.
- `src/serve.rs`: where the gateway and the UI are looked for, the gateway
  startup sequence, and the UI server's addresses.
- `src/request.rs`: the answer to one request of the UI server.
- `src/paths.rs`: whether a requested path joined onto the served directory
  stays within it, by Unix or Windows path conventions.
- `src/history.rs`: the history entry type and the values of its queries,
  with the meaning of the search pattern under SQL `LIKE`.
- `src/text.rs`: character-sequence helpers.
