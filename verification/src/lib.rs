//! Peckboard nginx-manager plugin.
//!
//! Bridges the built-in MCP server of an [Nginx Proxy Manager] instance into
//! Peckboard sessions as MCP tools, via the `mcp.tool.invoke` hook:
//!
//! - **npm_status** — configuration + connectivity diagnostics.
//! - **npm_list_tools** — the live `npm_*` tool catalog the configured API
//!   key's scopes expose (full input schemas on demand).
//! - **npm_call** — proxy one tool invocation (`tools/call`) to NPM.
//! - **npm_configure** — set `base_url` / `api_key`, verify the handshake.
//!
//! The remote endpoint speaks MCP Streamable HTTP (`POST <base>/api/mcp`,
//! Bearer `npm_…` API key); [`mcp_client`] owns that dance (initialize,
//! `Mcp-Session-Id`, SSE-or-JSON response framing, expiry recovery).
//!
//! The crate makes no call of its own. An operation that needs the host hands
//! out a [`host::HostCall`] together with its state, and goes on when it is
//! given what came back; [`plugin::resume`] does so for whatever the core
//! called. So every decision is a function from a state and a reply to the
//! next state, and that is what the contracts state.
//!
//! [Nginx Proxy Manager]: https://github.com/firestar/nginx-proxy-manager
pub mod client_laws;
pub mod config;
pub mod exchange_laws;
pub mod host;
pub mod json;
pub mod manifest;
pub mod mcp_client;
pub mod plugin;
pub mod plugin_laws;
pub mod run_laws;
pub mod sse;
pub mod text;
pub mod text_laws;
pub mod tool_laws;
pub mod tools;
