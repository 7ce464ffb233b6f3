# mcp_rust

Two MCP (Model Context Protocol) servers that speak JSON-RPC over standard
input and output: one fronts an Archery SQL console (list instances,
databases and tables, describe a table, run a query), the other searches a
Graylog log store.

- `src/` is the library, verified with Verus: the JSON-RPC dispatch and tool
  registry, the login sequence and session cache, the request URLs and forms,
  and everything that turns a JSON reply into the Markdown a tool returns.
  Calls into `regex`, `urlencoding` and `reqwest` go through a few trusted
  wrappers whose contracts are stated beside them.
- `app/` runs the servers: it reads and writes the wire JSON with serde,
  performs the HTTP requests with reqwest, and hands the library plain values.
  `app archery` (the default) and `app graylog` pick the server.
- `tests/` checks the library on concrete inputs.

Credentials come from the tool call's `url`, `username` and `password`, or
else from `ARCHERY_*` / `GRAYLOG_*` variables (a `.env` file is read at start).
