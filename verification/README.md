# ssh_mcp

A restricted SSH command runner served over the Model Context Protocol
(JSON-RPC 2.0 over Streamable HTTP). Callers name a configured target, a
command and optionally a timeout; everything else about the connection is
server-side configuration.

Layout:

- `src/` — the verified library.
  - `text.rs`: decimal rendering, blank and character checks, header text.
  - `json.rs`: JSON values and their mathematical model.
  - `jsonrpc.rs`: JSON-RPC messages and how an incoming message is answered
    (origin and protocol-version checks, acknowledgements, validation).
  - `config.rs`: configuration, defaults and the rules it must meet.
  - `targets.rs`: the table of targets ordered and looked up by name.
  - `ssh.rs`: request checks, the hardened ssh invocation, output capping.
  - `mcp.rs`: the MCP methods and the two tools.
- `app/` — the server: HTTP, TOML and JSON reading and writing, JSON schemas,
  and running the ssh process.
- `tests/` — tests of the library on concrete values.
