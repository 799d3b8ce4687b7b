# Peckboard nginx-manager plugin

Manage an [Nginx Proxy Manager](https://github.com/firestar/nginx-proxy-manager)
instance from Peckboard sessions. NPM ships a built-in MCP server
(`POST <host>:81/api/mcp`, Streamable HTTP, Bearer `npm_…` API keys); this
plugin bridges it into every Peckboard session as MCP tools:

| Tool | What it does |
| --- | --- |
| `npm_status` | Configuration and connectivity diagnostics. |
| `npm_list_tools` | The live `npm_*` catalog; `names:[…]` returns full input schemas. |
| `npm_call` | Proxy one tool invocation (`tools/call`) to the NPM MCP server. |
| `npm_configure` | Set `base_url` / `api_key` and verify the connection. |

## Setup

1. In the NPM admin UI create an API key; its scopes bound what the tools can
   do.
2. Install the plugin and approve its permissions: `provide_mcp_tools`, and
   `http_request` for outbound HTTP including private and LAN targets.
3. Configure it from a session with `npm_configure`, in Settings → Plugins →
   nginx-manager, or in Peckboard's `config.json` under
   `plugins.nginx-manager.config`, which is re-applied on every start and wins.
4. `npm_status` should report `connected: true` and the tool catalog.

## Layout

The library under `src/` is written in Verus: it decides what to ask of the
host, what a reply means and what to answer, and its contracts are proved. It
makes no call of its own. `app/` is the Extism plugin around it: the four
exports, the host functions, and the loop that makes the calls.

| Module | What it holds |
| --- | --- |
| `text` | String operations over characters. |
| `json` | JSON trees, and the boundary to serde_json. |
| `host` | Host calls, their envelopes, and the steps of an operation. |
| `config` | The configuration: endpoint, identity, masking, loading. |
| `sse` | Server-sent events: the response in a stream. |
| `mcp_client` | The MCP client: exchanges, handshake, requests, catalog. |
| `tools` | The four tools. |
| `manifest` | The manifest. |
| `plugin` | Verdicts, dispatch, seeding, shutting down. |
| `client_laws`, `plugin_laws`, `run_laws` | What holds over any replies. |
