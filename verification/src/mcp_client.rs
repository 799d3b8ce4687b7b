//! A minimal MCP client speaking Streamable HTTP against the Nginx Proxy
//! Manager endpoint (`POST <base_url>/api/mcp`).
//!
//! The NPM server (the `@modelcontextprotocol/sdk` `StreamableHTTPServerTransport`)
//! is strict about the dance:
//!
//! 1. `initialize` — no session header; the response carries a fresh
//!    `Mcp-Session-Id` header the server requires on everything after.
//! 2. `notifications/initialized` — acknowledged with `202 Accepted`.
//! 3. `tools/list` / `tools/call` — with the session header. There is no
//!    stateless mode; an unknown/expired session id gets a 400/404 JSON-RPC
//!    error, which this client answers by re-initialising once and retrying.
//! 4. `DELETE` on the endpoint tears the session down.
//!
//! Every POST advertises `Accept: application/json, text/event-stream` (the
//! SDK 406es unless both are present) and the reply may be framed either as
//! plain JSON or as an SSE stream.
//!
//! The client makes no call itself. Each operation starts with a [`HostCall`]
//! and a state, and a `_reply` function takes the state on with what came back.
//! The negotiated session is cached in the [`Client`] and reused until the
//! configuration changes, the server forgets it, or the plugin shuts down.
use vstd::prelude::*;
use vstd::string::StringExecFns;
use crate::config::{Config, ConfigView};
use crate::host::{HostCall, HostCallView, HostFn, Step, StepView};
use crate::json::{
    Json, JsonView, json_parsed, json_string, json_text, nesting_limit, outcome, parse_json,
    parses_to, reads_back,
};
use crate::sse::{all_readable, chosen, is_response, parse_sse_message, sse_payloads};
use crate::text::{
    chars_of, contains, contains_lowered, decimal, decimal_text, mentions, is_blank, lowered,
    or_empty, same, signed_decimal, signed_decimal_text, string_of, trim, trimmed,
};

verus! {

/// MCP protocol revision requested at `initialize` (the server negotiates
/// down/up from here and returns the version both sides speak).
pub const PROTOCOL_VERSION: &'static str = "2025-03-26";

pub const HANDSHAKE_TIMEOUT_SECS: u64 = 15;

pub const LIST_TIMEOUT_SECS: u64 = 30;

/// `tools/call` may drive slow NPM work (a Let's Encrypt issuance under
/// `npm_create_certificate` takes tens of seconds).
pub const CALL_TIMEOUT_SECS: u64 = 90;

// ── The client ────────────────────────────────────────────────────────
/// An established MCP session, valid for one (base_url, api_key) pair.
#[derive(Debug)]
pub struct McpSession {
    pub id: String,
    pub protocol_version: String,
    pub fingerprint: String,
}

/// What an [`McpSession`] means.
pub struct SessionView {
    pub id: Seq<char>,
    pub protocol_version: Seq<char>,
    pub fingerprint: Seq<char>,
}

impl View for McpSession {
    type V = SessionView;

    open spec fn view(&self) -> SessionView {
        SessionView {
            id: self.id@,
            protocol_version: self.protocol_version@,
            fingerprint: self.fingerprint@,
        }
    }
}

impl DeepView for McpSession {
    type V = SessionView;

    open spec fn deep_view(&self) -> SessionView {
        self@
    }
}

impl Clone for McpSession {
    fn clone(&self) -> (r: McpSession)
        ensures
            r@ == self@,
    {
        McpSession {
            id: self.id.clone(),
            protocol_version: self.protocol_version.clone(),
            fingerprint: self.fingerprint.clone(),
        }
    }
}

/// What outlives a tool invocation: the cached session, the id of the next
/// JSON-RPC request, and the plugin's version, which the handshake gives.
#[derive(Debug)]
pub struct Client {
    pub session: Option<McpSession>,
    pub next_id: u64,
    pub version: String,
}

/// What a [`Client`] means.
pub struct ClientView {
    pub session: Option<SessionView>,
    pub next_id: u64,
    pub version: Seq<char>,
}

impl View for Client {
    type V = ClientView;

    open spec fn view(&self) -> ClientView {
        ClientView {
            session: self.session.deep_view(),
            next_id: self.next_id,
            version: self.version@,
        }
    }
}

impl ClientView {
    /// The client with `session` in the cache.
    pub open spec fn with_session(self, session: Option<SessionView>) -> ClientView {
        ClientView { session, ..self }
    }

    /// The client with the next id used up; the ids start over from zero when
    /// they are exhausted.
    pub open spec fn advanced(self) -> ClientView {
        ClientView {
            next_id: if self.next_id == u64::MAX {
                0
            } else {
                (self.next_id + 1) as u64
            },
            ..self
        }
    }

    /// The cached session, where it was made for `cfg`.
    pub open spec fn session_for(self, cfg: ConfigView) -> Option<SessionView> {
        match self.session {
            Some(session) => if session.fingerprint == cfg.fingerprint() {
                Some(session)
            } else {
                None
            },
            None => None,
        }
    }
}

impl Client {
    /// A client without a session, for a plugin of the given version.
    pub fn new(version: &str) -> (r: Client)
        ensures
            r@ == (ClientView { session: None, next_id: 1, version: version@ }),
    {
        Client { session: None, next_id: 1, version: version.to_owned() }
    }

    /// The id of the next JSON-RPC request.
    pub fn next_id(&mut self) -> (r: u64)
        ensures
            r == old(self)@.next_id,
            final(self)@ == old(self)@.advanced(),
    {
        let id = self.next_id;
        self.next_id = id.wrapping_add(1);
        id
    }
}

/// Drop the cached session (configuration changed or server forgot it).
pub fn invalidate_session(client: &mut Client)
    ensures
        final(client)@ == old(client)@.with_session(None),
{
    client.session = None;
}

// ── HTTP exchanges ────────────────────────────────────────────────────
/// The headers of an exchange with the endpoint.
pub open spec fn headers_of(
    cfg: ConfigView,
    session: Option<SessionView>,
    has_payload: bool,
) -> JsonView {
    let always = JsonView::empty().with_str("authorization"@, "Bearer "@ + cfg.api_key).with_str(
        "accept"@,
        "application/json, text/event-stream"@,
    );
    let typed = if has_payload {
        always.with_str("content-type"@, "application/json"@)
    } else {
        always
    };
    match session {
        Some(session) => typed.with_str("mcp-session-id"@, session.id).with_str(
            "mcp-protocol-version"@,
            session.protocol_version,
        ),
        None => typed,
    }
}

/// The host call that POSTs `payload` to the endpoint, or sends it a DELETE
/// where there is none.
pub open spec fn http_call(
    cfg: ConfigView,
    session: Option<SessionView>,
    payload: Option<JsonView>,
    timeout_secs: u64,
) -> HostCallView {
    let request = JsonView::empty().with_str("url"@, cfg.endpoint()).with_str(
        "method"@,
        if payload is Some {
            "POST"@
        } else {
            "DELETE"@
        },
    ).with("headers"@, headers_of(cfg, session, payload is Some)).with(
        "timeout_secs"@,
        JsonView::Int(timeout_secs as int),
    );
    HostCallView {
        which: HostFn::HttpRequest,
        input: match payload {
            Some(payload) => request.with_str("body"@, json_text(payload)),
            None => request,
        },
    }
}

/// What one HTTP exchange with the endpoint produced.
#[derive(Debug)]
pub struct HttpReply {
    pub status: u16,
    pub content_type: String,
    pub session_header: Option<String>,
    pub body: String,
}

/// What an [`HttpReply`] means.
pub struct HttpReplyView {
    pub status: u16,
    pub content_type: Seq<char>,
    pub session_header: Option<Seq<char>>,
    pub body: Seq<char>,
}

impl View for HttpReply {
    type V = HttpReplyView;

    open spec fn view(&self) -> HttpReplyView {
        HttpReplyView {
            status: self.status,
            content_type: self.content_type@,
            session_header: self.session_header.deep_view(),
            body: self.body@,
        }
    }
}

/// The header `name` of what the host gave back.
pub open spec fn header_of(out: JsonView, name: Seq<char>) -> Option<Seq<char>> {
    match out.get("headers"@) {
        Some(headers) => headers.str_at(name),
        None => None,
    }
}

/// The lowest 16 bits of the status the host gave back, zero where there is
/// none.
pub open spec fn status_of(out: JsonView) -> u16 {
    match out.get("status"@) {
        Some(status) => match status.as_u64() {
            Some(n) => (n % 0x1_0000) as u16,
            None => 0,
        },
        None => 0,
    }
}

/// The exchange that the host reports in `out`.
pub open spec fn http_reply_of(out: JsonView) -> HttpReplyView {
    HttpReplyView {
        status: status_of(out),
        content_type: or_empty(header_of(out, "content-type"@)),
        session_header: header_of(out, "mcp-session-id"@),
        body: or_empty(out.str_at("body"@)),
    }
}

/// What a session in a reference means.
pub open spec fn session_ref(session: Option<&McpSession>) -> Option<SessionView> {
    match session {
        Some(session) => Some(session@),
        None => None,
    }
}

/// Asks the host to POST `payload` (or DELETE when `payload` is `None`) to the
/// MCP endpoint.
pub fn http_exchange(
    cfg: &Config,
    session: Option<&McpSession>,
    payload: Option<&Json>,
    timeout_secs: u64,
) -> (r: HostCall)
    ensures
        r@ == http_call(cfg@, session_ref(session), payload.deep_view(), timeout_secs),
        payload matches Some(p) ==> reads_back(p@, nesting_limit()) ==> parses_to(
            json_text(p@),
            p@,
        ),
{
    let mut headers = Json::object();
    headers.set_str("authorization", "Bearer ".to_owned().concat(cfg.api_key.as_str()).as_str());
    headers.set_str("accept", "application/json, text/event-stream");
    if payload.is_some() {
        headers.set_str("content-type", "application/json");
    }
    match session {
        Some(s) => {
            headers.set_str("mcp-session-id", s.id.as_str());
            headers.set_str("mcp-protocol-version", s.protocol_version.as_str());
        },
        None => {},
    }
    let mut request = Json::object();
    request.set_str("url", cfg.endpoint().as_str());
    request.set_str("method", if payload.is_some() {
        "POST"
    } else {
        "DELETE"
    });
    request.set("headers", headers);
    request.set("timeout_secs", Json::PosInt(timeout_secs));
    match payload {
        Some(p) => {
            request.set_str("body", json_string(p).as_str());
        },
        None => {},
    }
    HostCall { which: HostFn::HttpRequest, input: request }
}

/// The header `name` of what the host gave back.
fn header(out: &Json, name: &str) -> (r: Option<String>)
    ensures
        r.deep_view() == header_of(out@, name@),
{
    match out.get("headers") {
        Some(headers) => match headers.str_at(name) {
            Some(value) => Some(value.to_owned()),
            None => None,
        },
        None => None,
    }
}

/// Reads the exchange that the host reports in `out`.
pub fn http_reply(out: &Json) -> (r: HttpReply)
    ensures
        r@ == http_reply_of(out@),
{
    let status: u16 = match out.get("status") {
        Some(status) => match status.as_u64() {
            Some(n) => (n % 0x1_0000) as u16,
            None => 0,
        },
        None => 0,
    };
    let content_type = match header(out, "content-type") {
        Some(value) => value,
        None => String::new(),
    };
    let session_header = header(out, "mcp-session-id");
    let body = match out.str_at("body") {
        Some(body) => body.to_owned(),
        None => String::new(),
    };
    HttpReply { status, content_type, session_header, body }
}

// ── Decoding ──────────────────────────────────────────────────────────
/// One JSON-RPC exchange, decoded.
#[derive(Debug)]
pub enum Reply {
    /// A full JSON-RPC message (has `result` or `error`).
    Message(Json),
    /// `202 Accepted` / empty 2xx — the fate of notifications.
    Accepted,
    /// The server no longer knows our `Mcp-Session-Id`.
    Expired,
}

/// What a [`Reply`] means.
pub enum ReplyView {
    Message(JsonView),
    Accepted,
    Expired,
}

impl DeepView for Reply {
    type V = ReplyView;

    open spec fn deep_view(&self) -> ReplyView {
        match self {
            Reply::Message(message) => ReplyView::Message(message@),
            Reply::Accepted => ReplyView::Accepted,
            Reply::Expired => ReplyView::Expired,
        }
    }
}

/// The beginning of `body`, short enough for an error message.
pub open spec fn snippet_of(body: Seq<char>) -> Seq<char> {
    if trimmed(body).len() > 300 {
        trimmed(body).take(300) + "…"@
    } else {
        trimmed(body)
    }
}

/// The beginning of `body`, short enough for an error message.
pub fn snippet(body: &str) -> (r: String)
    ensures
        r@ == snippet_of(body@),
{
    let stripped = trim(body);
    let chars = chars_of(stripped.as_str());
    if chars.len() > 300 {
        let head = string_of(&chars, 0, 300);
        assert(head@ =~= trimmed(body@).take(300));
        head.concat("…")
    } else {
        stripped
    }
}

/// The words for a JSON-RPC error of the given parts.
pub open spec fn rpc_error_words(
    code: int,
    message: Seq<char>,
    data: Option<Seq<char>>,
) -> Seq<char> {
    let words = "NPM MCP error "@ + signed_decimal(code) + ": "@ + message;
    match data {
        Some(data) => words + " ("@ + data + ")"@,
        None => words,
    }
}

/// The words for a JSON-RPC error.
pub open spec fn rpc_error_of(err: JsonView) -> Seq<char> {
    let code = match err.get("code"@) {
        Some(code) => match code.as_i64() {
            Some(n) => n,
            None => 0,
        },
        None => 0,
    };
    let message = match err.str_at("message"@) {
        Some(message) => message,
        None => "unknown error"@,
    };
    let data = match err.get("data"@) {
        Some(JsonView::Null) => None,
        Some(data) => Some(json_text(data)),
        None => None,
    };
    rpc_error_words(code as int, message, data)
}

/// The words for a JSON-RPC error of the given parts.
pub fn rpc_error_parts(code: i64, message: &str, data: Option<String>) -> (r: String)
    ensures
        r@ == rpc_error_words(code as int, message@, data.deep_view()),
{
    let words = "NPM MCP error ".to_owned().concat(signed_decimal_text(code).as_str()).concat(
        ": ",
    ).concat(message);
    match data {
        Some(data) => words.concat(" (").concat(data.as_str()).concat(")"),
        None => words,
    }
}

/// The words for a JSON-RPC error: its code, its message, and its data where
/// it has some.
pub fn rpc_error_text(err: &Json) -> (r: String)
    ensures
        r@ == rpc_error_of(err@),
{
    let code: i64 = match err.get("code") {
        Some(code) => match code.as_i64() {
            Some(n) => n,
            None => 0,
        },
        None => 0,
    };
    let message = match err.str_at("message") {
        Some(message) => message,
        None => "unknown error",
    };
    let data: Option<String> = match err.get("data") {
        Some(data) => match data {
            Json::Null => None,
            _ => Some(json_string(data)),
        },
        None => None,
    };
    rpc_error_parts(code, message, data)
}

/// The words for an API key that the server rejects.
pub open spec fn rejected_key_words(status: u16) -> Seq<char> {
    "NPM rejected the API key ("@ + decimal(status as int)
        + "). Check it exists, is not expired, and has the scopes you need (npm_configure to update it)."@
}

/// What the status and the body alone say of an exchange, before any message
/// is looked for: a rejected API key, a session the server does not know, or
/// that there is no message.
pub open spec fn status_says(status: u16, body: Seq<char>) -> Option<
    Result<ReplyView, Seq<char>>,
> {
    if status == 401 || status == 403 {
        Some(Err(rejected_key_words(status)))
    } else if (status == 400 || status == 404) && mentions(lowered(body), "session"@) {
        Some(Ok(ReplyView::Expired))
    } else if status == 202 || (200 <= status < 300 && is_blank(body)) {
        Some(Ok(ReplyView::Accepted))
    } else {
        None
    }
}

/// The message of a plain body, given what reading it as JSON came to.
pub open spec fn plain_message_of(
    status: u16,
    body: Seq<char>,
    parsed: Result<JsonView, Seq<char>>,
) -> Result<JsonView, Seq<char>> {
    match parsed {
        Ok(message) => Ok(message),
        Err(e) => Err(
            "endpoint returned HTTP "@ + decimal(status as int) + " with a non-JSON-RPC body ("@ + e
                + "): "@ + snippet_of(body),
        ),
    }
}

/// The message of a stream, given the response found in it.
pub open spec fn stream_message_of(found: Option<JsonView>) -> Result<JsonView, Seq<char>> {
    match found {
        Some(message) => Ok(message),
        None => Err("SSE stream held no JSON-RPC response message"@),
    }
}

/// The message that a body carries, in the framing that its content type
/// names.
pub open spec fn message_of(
    status: u16,
    content_type: Seq<char>,
    body: Seq<char>,
    want_id: u64,
) -> Result<JsonView, Seq<char>> {
    if mentions(content_type, "text/event-stream"@) {
        stream_message_of(chosen(all_readable(sse_payloads(body)), want_id))
    } else {
        plain_message_of(status, body, json_parsed(body))
    }
}

/// What an exchange comes to that carries `message`: a response is taken as it
/// is, unless the status is that of an error; then the message says what is
/// wrong. A message that says nothing of the kind is an error too.
pub open spec fn message_says(
    status: u16,
    body: Seq<char>,
    message: Result<JsonView, Seq<char>>,
) -> Result<ReplyView, Seq<char>> {
    match message {
        Err(e) => Err(e),
        Ok(message) => if status < 400 && is_response(message) {
            Ok(ReplyView::Message(message))
        } else {
            match message.get("error"@) {
                Some(err) => Err(rpc_error_of(err)),
                None => Err(
                    "endpoint returned HTTP "@ + decimal(status as int) + ": "@ + snippet_of(body),
                ),
            }
        },
    }
}

/// What an exchange comes to.
pub open spec fn decoded(
    status: u16,
    content_type: Seq<char>,
    body: Seq<char>,
    want_id: u64,
) -> Result<ReplyView, Seq<char>> {
    match status_says(status, body) {
        Some(reply) => reply,
        None => message_says(status, body, message_of(status, content_type, body, want_id)),
    }
}

impl HttpReplyView {
    /// What the exchange comes to.
    pub open spec fn decoded(self, want_id: u64) -> Result<ReplyView, Seq<char>> {
        decoded(self.status, self.content_type, self.body, want_id)
    }
}

/// What an optional outcome means.
pub open spec fn optional_outcome<T: DeepView>(r: Option<Result<T, String>>) -> Option<
    Result<T::V, Seq<char>>,
> {
    match r {
        Some(r) => Some(outcome(r)),
        None => None,
    }
}

/// What the status and the body alone say of an exchange.
pub fn decode_status(status: u16, body: &str) -> (r: Option<Result<Reply, String>>)
    ensures
        optional_outcome(r) == status_says(status, body@),
{
    if status == 401 || status == 403 {
        let words = "NPM rejected the API key (".to_owned().concat(
            decimal_text(status as u64).as_str(),
        ).concat(
            "). Check it exists, is not expired, and has the scopes you need (npm_configure to update it).",
        );
        return Some(Err(words));
    }
    // The SDK answers a stale/unknown session with 400/404 before any body
    // framing; re-initialising is the fix, not an error.
    if (status == 400 || status == 404) && contains_lowered(body, "session") {
        return Some(Ok(Reply::Expired));
    }
    if status == 202 || (status >= 200 && status < 300 && trim(body).as_str().is_empty()) {
        return Some(Ok(Reply::Accepted));
    }
    None
}

/// The message of a plain body, given what reading it as JSON came to.
pub fn plain_message(status: u16, body: &str, parsed: Result<Json, String>) -> (r: Result<
    Json,
    String,
>)
    ensures
        outcome(r) == plain_message_of(status, body@, outcome(parsed)),
{
    match parsed {
        Ok(message) => Ok(message),
        Err(e) => Err(
            "endpoint returned HTTP ".to_owned().concat(
                decimal_text(status as u64).as_str(),
            ).concat(" with a non-JSON-RPC body (").concat(e.as_str()).concat("): ").concat(
                snippet(body).as_str(),
            ),
        ),
    }
}

/// The message of a stream, given the response found in it.
pub fn stream_message(found: Option<Json>) -> (r: Result<Json, String>)
    ensures
        outcome(r) == stream_message_of(found.deep_view()),
{
    match found {
        Some(message) => Ok(message),
        None => Err("SSE stream held no JSON-RPC response message".to_owned()),
    }
}

/// What an exchange comes to that carries `message`.
pub fn decode_message(status: u16, body: &str, message: Result<Json, String>) -> (r: Result<
    Reply,
    String,
>)
    ensures
        outcome(r) == message_says(status, body@, outcome(message)),
{
    match message {
        Err(e) => Err(e),
        Ok(message) => {
            let is_response = message.get("result").is_some() || message.get("error").is_some();
            if status < 400 && is_response {
                return Ok(Reply::Message(message));
            }
            // JSON-RPC-shaped HTTP error (e.g. the router's own 4xx envelopes).
            match message.get("error") {
                Some(err) => Err(rpc_error_text(err)),
                None => Err(
                    "endpoint returned HTTP ".to_owned().concat(
                        decimal_text(status as u64).as_str(),
                    ).concat(": ").concat(snippet(body).as_str()),
                ),
            }
        },
    }
}

/// Decode an exchange into a [`Reply`].
pub fn decode_reply(status: u16, content_type: &str, body: &str, want_id: u64) -> (r: Result<
    Reply,
    String,
>)
    ensures
        outcome(r) == decoded(status, content_type@, body@, want_id),
{
    match decode_status(status, body) {
        Some(reply) => reply,
        None => {
            let message = if contains(content_type, "text/event-stream") {
                stream_message(parse_sse_message(body, want_id))
            } else {
                plain_message(status, body, parse_json(body))
            };
            decode_message(status, body, message)
        },
    }
}

// ── JSON-RPC messages ─────────────────────────────────────────────────
/// The JSON-RPC request `id` for `method`.
pub open spec fn rpc_request(id: u64, method: Seq<char>, params: JsonView) -> JsonView {
    JsonView::empty().with_str("jsonrpc"@, "2.0"@).with("id"@, JsonView::Int(id as int)).with_str(
        "method"@,
        method,
    ).with("params"@, params)
}

/// What the client says of itself at `initialize`.
pub open spec fn initialize_params(version: Seq<char>) -> JsonView {
    JsonView::empty().with_str("protocolVersion"@, PROTOCOL_VERSION@).with(
        "capabilities"@,
        JsonView::empty(),
    ).with(
        "clientInfo"@,
        JsonView::empty().with_str("name"@, "peckboard-nginx-manager"@).with_str(
            "version"@,
            version,
        ),
    )
}

/// The notification that ends the handshake.
pub open spec fn initialized_note() -> JsonView {
    JsonView::empty().with_str("jsonrpc"@, "2.0"@).with_str(
        "method"@,
        "notifications/initialized"@,
    )
}

/// The JSON-RPC request `id` for `method`.
fn request_message(id: u64, method: &str, params: Json) -> (r: Json)
    ensures
        r@ == rpc_request(id, method@, params@),
{
    let mut message = Json::object();
    message.set_str("jsonrpc", "2.0");
    message.set("id", Json::PosInt(id));
    message.set_str("method", method);
    message.set("params", params);
    message
}

/// What the client says of itself at `initialize`.
fn client_introduction(version: &str) -> (r: Json)
    ensures
        r@ == initialize_params(version@),
{
    let mut info = Json::object();
    info.set_str("name", "peckboard-nginx-manager");
    info.set_str("version", version);
    let mut params = Json::object();
    params.set_str("protocolVersion", PROTOCOL_VERSION);
    params.set("capabilities", Json::object());
    params.set("clientInfo", info);
    params
}

/// The notification that ends the handshake.
fn initialized_message() -> (r: Json)
    ensures
        r@ == initialized_note(),
{
    let mut message = Json::object();
    message.set_str("jsonrpc", "2.0");
    message.set_str("method", "notifications/initialized");
    message
}

/// What a response to `method` comes to: the words of its error, or its
/// result.
pub open spec fn result_of(method: Seq<char>, message: JsonView) -> Result<JsonView, Seq<char>> {
    match message.get("error"@) {
        Some(err) => Err(rpc_error_of(err)),
        None => match message.get("result"@) {
            Some(result) => Ok(result),
            None => Err(method + " response had no result"@),
        },
    }
}

/// What a response to `method` comes to.
pub fn response_result(method: &str, message: &Json) -> (r: Result<Json, String>)
    ensures
        outcome(r) == result_of(method@, message@),
{
    match message.get("error") {
        Some(err) => Err(rpc_error_text(err)),
        None => match message.get("result") {
            Some(result) => Ok(result.clone()),
            None => Err(method.to_owned().concat(" response had no result")),
        },
    }
}

// ── The handshake ─────────────────────────────────────────────────────
/// How far the handshake has got: it waits for the response to `initialize`,
/// or for the acknowledgement of `notifications/initialized`.
#[derive(Debug)]
pub enum Handshake {
    Initialize { id: u64 },
    Initialized { session: McpSession, result: Json },
}

/// What a [`Handshake`] means.
pub enum HandshakeView {
    Initialize { id: u64 },
    Initialized { session: SessionView, result: JsonView },
}

impl View for Handshake {
    type V = HandshakeView;

    open spec fn view(&self) -> HandshakeView {
        match self {
            Handshake::Initialize { id } => HandshakeView::Initialize { id: *id },
            Handshake::Initialized { session, result } => HandshakeView::Initialized {
                session: session@,
                result: result@,
            },
        }
    }
}

/// The call that starts the handshake of `client`, which uses up an id.
pub open spec fn initialize_call(client: ClientView, cfg: ConfigView) -> HostCallView {
    http_call(
        cfg,
        None,
        Some(rpc_request(client.next_id, "initialize"@, initialize_params(client.version))),
        HANDSHAKE_TIMEOUT_SECS,
    )
}

/// The session that a response to `initialize` establishes, and its result.
pub open spec fn session_of(
    cfg: ConfigView,
    session_header: Option<Seq<char>>,
    message: JsonView,
) -> Result<(SessionView, JsonView), Seq<char>> {
    match result_of("initialize"@, message) {
        Err(e) => Err(e),
        Ok(result) => match session_header {
            None => Err(
                "server sent no Mcp-Session-Id header on initialize — not a Streamable HTTP MCP endpoint?"@,
            ),
            Some(id) => Ok(
                (
                    SessionView {
                        id,
                        protocol_version: match result.str_at("protocolVersion"@) {
                            Some(version) => version,
                            None => PROTOCOL_VERSION@,
                        },
                        fingerprint: cfg.fingerprint(),
                    },
                    result,
                ),
            ),
        },
    }
}

/// What the answer to `initialize` comes to.
pub open spec fn initialize_answer(
    cfg: ConfigView,
    session_header: Option<Seq<char>>,
    reply: Result<ReplyView, Seq<char>>,
) -> Result<(SessionView, JsonView), Seq<char>> {
    match reply {
        Err(e) => Err(e),
        Ok(ReplyView::Accepted) => Err("initialize was accepted but returned no result"@),
        Ok(ReplyView::Expired) => Err("initialize rejected as an expired session"@),
        Ok(ReplyView::Message(message)) => session_of(cfg, session_header, message),
    }
}

/// What the answer to `notifications/initialized` comes to. The server
/// acknowledges it with `202 Accepted`, and a response in its place is taken
/// too; a body that is neither, like any other error, fails the handshake.
pub open spec fn initialized_answer(reply: Result<ReplyView, Seq<char>>) -> Result<(), Seq<char>> {
    match reply {
        Err(e) => Err(e),
        Ok(ReplyView::Expired) => Err("session expired during the initialize handshake"@),
        Ok(_) => Ok(()),
    }
}

/// What the handshake does with a reply, and the client afterwards: the
/// session is cached once the handshake is complete.
pub open spec fn initialize_next(
    client: ClientView,
    cfg: ConfigView,
    state: HandshakeView,
    reply: Result<JsonView, Seq<char>>,
) -> (ClientView, StepView<HandshakeView, (SessionView, JsonView)>) {
    match reply {
        Err(e) => (client, StepView::Done(Err(e))),
        Ok(out) => {
            let http = http_reply_of(out);
            match state {
                HandshakeView::Initialize { id } => match initialize_answer(
                    cfg,
                    http.session_header,
                    http.decoded(id),
                ) {
                    Err(e) => (client, StepView::Done(Err(e))),
                    Ok((session, result)) => (
                        client,
                        StepView::Call(
                            http_call(
                                cfg,
                                Some(session),
                                Some(initialized_note()),
                                HANDSHAKE_TIMEOUT_SECS,
                            ),
                            HandshakeView::Initialized { session, result },
                        ),
                    ),
                },
                HandshakeView::Initialized { session, result } => match initialized_answer(
                    http.decoded(0),
                ) {
                    Err(e) => (client, StepView::Done(Err(e))),
                    Ok(_) => (
                        client.with_session(Some(session)),
                        StepView::Done(Ok((session, result))),
                    ),
                },
            }
        },
    }
}

/// The session that a response to `initialize` establishes, and its result
/// (serverInfo, capabilities, instructions).
pub fn session_from(cfg: &Config, session_header: Option<String>, message: &Json) -> (r: Result<
    (McpSession, Json),
    String,
>)
    ensures
        outcome(r) == session_of(cfg@, session_header.deep_view(), message@),
{
    match response_result("initialize", message) {
        Err(e) => Err(e),
        Ok(result) => match session_header {
            None => Err(
                "server sent no Mcp-Session-Id header on initialize — not a Streamable HTTP MCP endpoint?".to_owned(),
            ),
            Some(id) => {
                let protocol_version = match result.str_at("protocolVersion") {
                    Some(version) => version.to_owned(),
                    None => PROTOCOL_VERSION.to_owned(),
                };
                let session = McpSession { id, protocol_version, fingerprint: cfg.fingerprint() };
                Ok((session, result))
            },
        },
    }
}

/// What the answer to `initialize` comes to.
pub fn initialize_result(
    cfg: &Config,
    session_header: Option<String>,
    reply: Result<Reply, String>,
) -> (r: Result<(McpSession, Json), String>)
    ensures
        outcome(r) == initialize_answer(cfg@, session_header.deep_view(), outcome(reply)),
{
    match reply {
        Err(e) => Err(e),
        Ok(Reply::Accepted) => Err("initialize was accepted but returned no result".to_owned()),
        Ok(Reply::Expired) => Err("initialize rejected as an expired session".to_owned()),
        Ok(Reply::Message(message)) => session_from(cfg, session_header, &message),
    }
}

/// What the answer to `notifications/initialized` comes to.
pub fn initialized_result(reply: Result<Reply, String>) -> (r: Result<(), String>)
    ensures
        match r {
            Ok(_) => initialized_answer(outcome(reply)) is Ok,
            Err(e) => initialized_answer(outcome(reply)) == Err::<(), Seq<char>>(e@),
        },
{
    match reply {
        Err(e) => Err(e),
        Ok(Reply::Expired) => Err("session expired during the initialize handshake".to_owned()),
        Ok(_) => Ok(()),
    }
}

/// Starts the full handshake: `initialize` (capturing the session header and
/// negotiated protocol version) then `notifications/initialized`.
pub fn initialize_fresh(client: &mut Client, cfg: &Config) -> (r: (HostCall, Handshake))
    ensures
        final(client)@ == old(client)@.advanced(),
        r.0@ == initialize_call(old(client)@, cfg@),
        r.1@ == (HandshakeView::Initialize { id: old(client)@.next_id }),
{
    let id = client.next_id();
    let payload = request_message(id, "initialize", client_introduction(client.version.as_str()));
    let call = http_exchange(cfg, None, Some(&payload), HANDSHAKE_TIMEOUT_SECS);
    (call, Handshake::Initialize { id })
}

/// Goes on with the handshake. When it is done, it gives the new session and
/// the `initialize` result.
pub fn initialize_reply(
    client: &mut Client,
    cfg: &Config,
    state: Handshake,
    reply: Result<Json, String>,
) -> (r: Step<Handshake, (McpSession, Json)>)
    ensures
        (final(client)@, r@) == initialize_next(old(client)@, cfg@, state@, outcome(reply)),
{
    let out = match reply {
        Err(e) => return Step::Done(Err(e)),
        Ok(out) => out,
    };
    let http = http_reply(&out);
    match state {
        Handshake::Initialize { id } => {
            let decoded = decode_reply(
                http.status,
                http.content_type.as_str(),
                http.body.as_str(),
                id,
            );
            match initialize_result(cfg, http.session_header, decoded) {
                Err(e) => Step::Done(Err(e)),
                Ok((session, result)) => {
                    // The SDK expects the initialized notification before serving requests.
                    let note = initialized_message();
                    let call = http_exchange(
                        cfg,
                        Some(&session),
                        Some(&note),
                        HANDSHAKE_TIMEOUT_SECS,
                    );
                    Step::Call(call, Handshake::Initialized { session, result })
                },
            }
        },
        Handshake::Initialized { session, result } => {
            let decoded = decode_reply(
                http.status,
                http.content_type.as_str(),
                http.body.as_str(),
                0,
            );
            match initialized_result(decoded) {
                Err(e) => Step::Done(Err(e)),
                Ok(_) => {
                    client.session = Some(session.clone());
                    Step::Done(Ok((session, result)))
                },
            }
        },
    }
}

/// A session that is ready for use, or the handshake that makes one.
#[derive(Debug)]
pub enum Ready {
    Session(McpSession),
    Handshake(HostCall, Handshake),
}

/// What a [`Ready`] means.
pub enum ReadyView {
    Session(SessionView),
    Handshake(HostCallView, HandshakeView),
}

impl View for Ready {
    type V = ReadyView;

    open spec fn view(&self) -> ReadyView {
        match self {
            Ready::Session(session) => ReadyView::Session(session@),
            Ready::Handshake(call, state) => ReadyView::Handshake(call@, state@),
        }
    }
}

/// The session for `cfg`: the cached one where it was made for `cfg`, or else
/// the one that a handshake makes.
pub open spec fn session_wanted(client: ClientView, cfg: ConfigView) -> (ClientView, ReadyView) {
    match client.session_for(cfg) {
        Some(session) => (client, ReadyView::Session(session)),
        None => (
            client.advanced(),
            ReadyView::Handshake(
                initialize_call(client, cfg),
                HandshakeView::Initialize { id: client.next_id },
            ),
        ),
    }
}

/// The cached session for `cfg`, or the handshake that makes one if it is
/// missing or stale.
pub fn ensure_session(client: &mut Client, cfg: &Config) -> (r: Ready)
    ensures
        (final(client)@, r@) == session_wanted(old(client)@, cfg@),
{
    match &client.session {
        Some(session) => {
            if same(session.fingerprint.as_str(), cfg.fingerprint().as_str()) {
                return Ready::Session(session.clone());
            }
        },
        None => {},
    }
    let (call, state) = initialize_fresh(client, cfg);
    Ready::Handshake(call, state)
}

// ── Requests ──────────────────────────────────────────────────────────
/// Where a request stands: it waits for a session, or for the response to the
/// JSON-RPC request `id`.
#[derive(Debug)]
pub enum RequestPhase {
    Handshaking(Handshake),
    Sent { id: u64 },
}

/// What a [`RequestPhase`] means.
pub enum RequestPhaseView {
    Handshaking(HandshakeView),
    Sent { id: u64 },
}

impl View for RequestPhase {
    type V = RequestPhaseView;

    open spec fn view(&self) -> RequestPhaseView {
        match self {
            RequestPhase::Handshaking(state) => RequestPhaseView::Handshaking(state@),
            RequestPhase::Sent { id } => RequestPhaseView::Sent { id: *id },
        }
    }
}

/// What a request asks for, and whether it was sent before and found the
/// session expired.
#[derive(Debug)]
pub struct Ask {
    pub method: String,
    pub params: Json,
    pub timeout_secs: u64,
    pub retried: bool,
}

/// What an [`Ask`] means.
pub struct AskView {
    pub method: Seq<char>,
    pub params: JsonView,
    pub timeout_secs: u64,
    pub retried: bool,
}

impl View for Ask {
    type V = AskView;

    open spec fn view(&self) -> AskView {
        AskView {
            method: self.method@,
            params: self.params@,
            timeout_secs: self.timeout_secs,
            retried: self.retried,
        }
    }
}

/// A request under way: what it asks for, and where it stands.
#[derive(Debug)]
pub struct Request {
    pub ask: Ask,
    pub phase: RequestPhase,
}

/// What a [`Request`] means.
pub struct RequestView {
    pub ask: AskView,
    pub phase: RequestPhaseView,
}

impl View for Request {
    type V = RequestView;

    open spec fn view(&self) -> RequestView {
        RequestView { ask: self.ask@, phase: self.phase@ }
    }
}

impl AskView {
    /// What is asked once the first session was found expired.
    pub open spec fn again(self) -> AskView {
        AskView { retried: true, ..self }
    }

    /// The call that asks on `session`, which uses up an id.
    pub open spec fn call_on(
        self,
        client: ClientView,
        cfg: ConfigView,
        session: SessionView,
    ) -> HostCallView {
        http_call(
            cfg,
            Some(session),
            Some(rpc_request(client.next_id, self.method, self.params)),
            self.timeout_secs,
        )
    }

    /// How asking on `session` starts.
    pub open spec fn sent_on(
        self,
        client: ClientView,
        cfg: ConfigView,
        session: SessionView,
    ) -> (ClientView, HostCallView, RequestView) {
        (
            client.advanced(),
            self.call_on(client, cfg, session),
            RequestView { ask: self, phase: RequestPhaseView::Sent { id: client.next_id } },
        )
    }

    /// How asking starts: at once where a session is cached for `cfg`, and with
    /// a handshake where none is.
    pub open spec fn started(self, client: ClientView, cfg: ConfigView) -> (
        ClientView,
        HostCallView,
        RequestView,
    ) {
        match session_wanted(client, cfg) {
            (client, ReadyView::Session(session)) => self.sent_on(client, cfg, session),
            (client, ReadyView::Handshake(call, state)) => (
                client,
                call,
                RequestView { ask: self, phase: RequestPhaseView::Handshaking(state) },
            ),
        }
    }
}

/// How a request for `method` starts.
pub open spec fn request_start(
    client: ClientView,
    cfg: ConfigView,
    method: Seq<char>,
    params: JsonView,
    timeout_secs: u64,
) -> (ClientView, HostCallView, RequestView) {
    (AskView { method, params, timeout_secs, retried: false }).started(client, cfg)
}

/// What becomes of `ask` with a decoded reply to it. A session the server has
/// forgotten is dropped and made anew, and the request sent once more; when
/// that happens again, it is an error.
pub open spec fn request_answered(
    client: ClientView,
    cfg: ConfigView,
    ask: AskView,
    reply: Result<ReplyView, Seq<char>>,
) -> (ClientView, StepView<RequestView, JsonView>) {
    match reply {
        Err(e) => (client, StepView::Done(Err(e))),
        Ok(ReplyView::Message(message)) => (client, StepView::Done(result_of(ask.method, message))),
        Ok(ReplyView::Accepted) => (
            client,
            StepView::Done(Err(ask.method + " was accepted but returned no result"@)),
        ),
        Ok(ReplyView::Expired) => if ask.retried {
            (client, StepView::Done(Err("session expired again right after re-initialising"@)))
        } else {
            let (client, call, request) = ask.again().started(client.with_session(None), cfg);
            (client, StepView::Call(call, request))
        },
    }
}

/// What a request does with a reply.
pub open spec fn request_next(
    client: ClientView,
    cfg: ConfigView,
    request: RequestView,
    reply: Result<JsonView, Seq<char>>,
) -> (ClientView, StepView<RequestView, JsonView>) {
    match request.phase {
        RequestPhaseView::Handshaking(state) => match initialize_next(client, cfg, state, reply) {
            (client, StepView::Call(call, state)) => (
                client,
                StepView::Call(
                    call,
                    RequestView { phase: RequestPhaseView::Handshaking(state), ..request },
                ),
            ),
            (client, StepView::Done(Err(e))) => (client, StepView::Done(Err(e))),
            (client, StepView::Done(Ok((session, _)))) => {
                let (client, call, request) = request.ask.sent_on(client, cfg, session);
                (client, StepView::Call(call, request))
            },
        },
        RequestPhaseView::Sent { id } => match reply {
            Err(e) => (client, StepView::Done(Err(e))),
            Ok(out) => request_answered(client, cfg, request.ask, http_reply_of(out).decoded(id)),
        },
    }
}

/// Asks on `session`.
fn request_on(client: &mut Client, cfg: &Config, session: &McpSession, ask: Ask) -> (r: (
    HostCall,
    Request,
))
    ensures
        (final(client)@, r.0@, r.1@) == ask@.sent_on(old(client)@, cfg@, session@),
{
    let id = client.next_id();
    let payload = request_message(id, ask.method.as_str(), ask.params.clone());
    let call = http_exchange(cfg, Some(session), Some(&payload), ask.timeout_secs);
    (call, Request { ask, phase: RequestPhase::Sent { id } })
}

/// Asks on the session at hand, or starts the handshake for one.
fn start_asking(client: &mut Client, cfg: &Config, ask: Ask) -> (r: (HostCall, Request))
    ensures
        (final(client)@, r.0@, r.1@) == ask@.started(old(client)@, cfg@),
{
    match ensure_session(client, cfg) {
        Ready::Session(session) => request_on(client, cfg, &session, ask),
        Ready::Handshake(call, state) => (
            call,
            Request { ask, phase: RequestPhase::Handshaking(state) },
        ),
    }
}

/// Starts one request, with automatic re-initialise-and-retry when the server
/// has forgotten our session (NPM keeps sessions in memory; a restart drops
/// them).
pub fn request(
    client: &mut Client,
    cfg: &Config,
    method: &str,
    params: Json,
    timeout_secs: u64,
) -> (r: (HostCall, Request))
    ensures
        (final(client)@, r.0@, r.1@) == request_start(
            old(client)@,
            cfg@,
            method@,
            params@,
            timeout_secs,
        ),
{
    start_asking(
        client,
        cfg,
        Ask { method: method.to_owned(), params, timeout_secs, retried: false },
    )
}

/// What becomes of `ask` with a decoded reply to it.
pub fn request_decoded(
    client: &mut Client,
    cfg: &Config,
    ask: Ask,
    reply: Result<Reply, String>,
) -> (r: Step<Request, Json>)
    ensures
        (final(client)@, r@) == request_answered(old(client)@, cfg@, ask@, outcome(reply)),
{
    match reply {
        Err(e) => Step::Done(Err(e)),
        Ok(Reply::Message(message)) => Step::Done(response_result(ask.method.as_str(), &message)),
        Ok(Reply::Accepted) => Step::Done(
            Err(ask.method.concat(" was accepted but returned no result")),
        ),
        Ok(Reply::Expired) => {
            if ask.retried {
                Step::Done(Err("session expired again right after re-initialising".to_owned()))
            } else {
                invalidate_session(client);
                let (call, request) = start_asking(client, cfg, Ask { retried: true, ..ask });
                Step::Call(call, request)
            }
        },
    }
}

/// Goes on with a request. When it is done, it gives the result.
pub fn request_reply(
    client: &mut Client,
    cfg: &Config,
    request: Request,
    reply: Result<Json, String>,
) -> (r: Step<Request, Json>)
    ensures
        (final(client)@, r@) == request_next(old(client)@, cfg@, request@, outcome(reply)),
{
    let Request { ask, phase } = request;
    match phase {
        RequestPhase::Handshaking(state) => match initialize_reply(client, cfg, state, reply) {
            Step::Call(call, state) => Step::Call(
                call,
                Request { ask, phase: RequestPhase::Handshaking(state) },
            ),
            Step::Done(Err(e)) => Step::Done(Err(e)),
            Step::Done(Ok((session, _))) => {
                let (call, request) = request_on(client, cfg, &session, ask);
                Step::Call(call, request)
            },
        },
        RequestPhase::Sent { id } => match reply {
            Err(e) => Step::Done(Err(e)),
            Ok(out) => {
                let http = http_reply(&out);
                let decoded = decode_reply(
                    http.status,
                    http.content_type.as_str(),
                    http.body.as_str(),
                    id,
                );
                request_decoded(client, cfg, ask, decoded)
            },
        },
    }
}

// ── tools/list and tools/call ─────────────────────────────────────────
/// The tool catalog under way: the tools of the pages read so far, and the
/// request for the next page.
#[derive(Debug)]
pub struct Listing {
    pub tools: Vec<Json>,
    pub request: Request,
}

/// What a [`Listing`] means.
pub struct ListingView {
    pub tools: Seq<JsonView>,
    pub request: RequestView,
}

impl View for Listing {
    type V = ListingView;

    open spec fn view(&self) -> ListingView {
        ListingView { tools: self.tools.deep_view(), request: self.request@ }
    }
}

/// The tools on a page of the catalog.
pub open spec fn page_of(result: JsonView) -> Seq<JsonView> {
    match result.get("tools"@) {
        Some(tools) => match tools.as_array() {
            Some(items) => items,
            None => Seq::empty(),
        },
        None => Seq::empty(),
    }
}

/// Where the page that follows starts; nowhere on the last page.
pub open spec fn cursor_of(result: JsonView) -> Option<Seq<char>> {
    match result.str_at("nextCursor"@) {
        Some(cursor) => if cursor.len() > 0 {
            Some(cursor)
        } else {
            None
        },
        None => None,
    }
}

/// What the request for a page is given.
pub open spec fn page_params(cursor: Option<Seq<char>>) -> JsonView {
    match cursor {
        Some(cursor) => JsonView::empty().with_str("cursor"@, cursor),
        None => JsonView::empty(),
    }
}

/// How the request for a page of the catalog starts, with the tools read so
/// far.
pub open spec fn page_start(
    client: ClientView,
    cfg: ConfigView,
    tools: Seq<JsonView>,
    cursor: Option<Seq<char>>,
) -> (ClientView, HostCallView, ListingView) {
    let (client, call, request) = request_start(
        client,
        cfg,
        "tools/list"@,
        page_params(cursor),
        LIST_TIMEOUT_SECS,
    );
    (client, call, ListingView { tools, request })
}

/// What listing the tools does with a page: its tools are added, and the next
/// page is asked for where there is one.
pub open spec fn page_read(
    client: ClientView,
    cfg: ConfigView,
    tools: Seq<JsonView>,
    result: JsonView,
) -> (ClientView, StepView<ListingView, Seq<JsonView>>) {
    match cursor_of(result) {
        Some(cursor) => {
            let (client, call, state) = page_start(
                client,
                cfg,
                tools + page_of(result),
                Some(cursor),
            );
            (client, StepView::Call(call, state))
        },
        None => (client, StepView::Done(Ok(tools + page_of(result)))),
    }
}

/// What listing the tools does with a reply.
pub open spec fn list_next(
    client: ClientView,
    cfg: ConfigView,
    listing: ListingView,
    reply: Result<JsonView, Seq<char>>,
) -> (ClientView, StepView<ListingView, Seq<JsonView>>) {
    match request_next(client, cfg, listing.request, reply) {
        (client, StepView::Call(call, request)) => (
            client,
            StepView::Call(call, ListingView { request, ..listing }),
        ),
        (client, StepView::Done(Err(e))) => (client, StepView::Done(Err(e))),
        (client, StepView::Done(Ok(result))) => page_read(client, cfg, listing.tools, result),
    }
}

/// Asks for a page of the catalog.
fn list_page(client: &mut Client, cfg: &Config, tools: Vec<Json>, cursor: Option<&str>) -> (r: (
    HostCall,
    Listing,
))
    ensures
        (final(client)@, r.0@, r.1@) == page_start(
            old(client)@,
            cfg@,
            tools.deep_view(),
            cursor.deep_view(),
        ),
{
    let mut params = Json::object();
    match cursor {
        Some(cursor) => params.set_str("cursor", cursor),
        None => {},
    }
    let (call, request) = request(client, cfg, "tools/list", params, LIST_TIMEOUT_SECS);
    (call, Listing { tools, request })
}

/// Starts `tools/list`, following pagination cursors until exhausted.
pub fn list_tools(client: &mut Client, cfg: &Config) -> (r: (HostCall, Listing))
    ensures
        (final(client)@, r.0@, r.1@) == page_start(old(client)@, cfg@, Seq::empty(), None),
{
    let tools: Vec<Json> = Vec::new();
    assert(tools.deep_view() =~= Seq::<JsonView>::empty());
    list_page(client, cfg, tools, None)
}

/// Adds the tools of a page to those read before.
fn add_page(tools: Vec<Json>, result: &Json) -> (r: Vec<Json>)
    ensures
        r.deep_view() == tools.deep_view() + page_of(result@),
{
    let mut out = tools;
    let ghost before = tools.deep_view();
    match result.get("tools") {
        Some(page) => match page.as_array() {
            Some(items) => {
                let ghost all = items.deep_view();
                let mut i: usize = 0;
                assert(before + all.take(0) =~= before);
                while i < items.len()
                    invariant
                        i <= items@.len(),
                        all == items.deep_view(),
                        out.deep_view() == before + all.take(i as int),
                    decreases items@.len() - i,
                {
                    let ghost earlier = out.deep_view();
                    out.push(items[i].clone());
                    i += 1;
                    assert(out.deep_view() =~= earlier.push(all[i - 1]));
                    assert(all.take(i as int) =~= all.take(i - 1).push(all[i - 1]));
                    assert(out.deep_view() =~= before + all.take(i as int));
                }
                assert(all.take(i as int) =~= all);
                return out;
            },
            None => {},
        },
        None => {},
    }
    assert(before + Seq::<JsonView>::empty() =~= before);
    out
}

/// What listing the tools does with a page.
pub fn list_page_reply(client: &mut Client, cfg: &Config, tools: Vec<Json>, result: &Json) -> (r:
    Step<Listing, Vec<Json>>)
    ensures
        (final(client)@, r@) == page_read(old(client)@, cfg@, tools.deep_view(), result@),
{
    let tools = add_page(tools, result);
    match result.str_at("nextCursor") {
        Some(cursor) => {
            if !cursor.is_empty() {
                let (call, state) = list_page(client, cfg, tools, Some(cursor));
                Step::Call(call, state)
            } else {
                Step::Done(Ok(tools))
            }
        },
        None => Step::Done(Ok(tools)),
    }
}

/// Goes on listing the tools. When it is done, it gives the flat tool array.
pub fn list_tools_reply(
    client: &mut Client,
    cfg: &Config,
    listing: Listing,
    reply: Result<Json, String>,
) -> (r: Step<Listing, Vec<Json>>)
    ensures
        (final(client)@, r@) == list_next(old(client)@, cfg@, listing@, outcome(reply)),
{
    let Listing { tools, request } = listing;
    match request_reply(client, cfg, request, reply) {
        Step::Call(call, request) => Step::Call(call, Listing { tools, request }),
        Step::Done(Err(e)) => Step::Done(Err(e)),
        Step::Done(Ok(result)) => list_page_reply(client, cfg, tools, &result),
    }
}

/// What `tools/call` is given.
pub open spec fn call_params(name: Seq<char>, arguments: JsonView) -> JsonView {
    JsonView::empty().with_str("name"@, name).with("arguments"@, arguments)
}

/// Starts `tools/call` for one remote tool. When the request is done, it gives
/// the raw MCP result (`{"content": [...], "isError"?}`); unwrapping is the
/// caller's business.
pub fn call_tool(client: &mut Client, cfg: &Config, name: &str, arguments: Json) -> (r: (
    HostCall,
    Request,
))
    ensures
        (final(client)@, r.0@, r.1@) == request_start(
            old(client)@,
            cfg@,
            "tools/call"@,
            call_params(name@, arguments@),
            CALL_TIMEOUT_SECS,
        ),
{
    let mut params = Json::object();
    params.set_str("name", name);
    params.set("arguments", arguments);
    request(client, cfg, "tools/call", params, CALL_TIMEOUT_SECS)
}

// ── Shutdown ──────────────────────────────────────────────────────────
/// The `DELETE` of the cached session, where there is one and a configuration.
pub open spec fn shutdown_call(client: ClientView, cfg: Option<ConfigView>) -> Option<
    HostCallView,
> {
    match (cfg, client.session) {
        (Some(cfg), Some(session)) => Some(
            http_call(cfg, Some(session), None, HANDSHAKE_TIMEOUT_SECS),
        ),
        _ => None,
    }
}

/// What an optional host call means.
pub open spec fn optional_call(call: Option<HostCall>) -> Option<HostCallView> {
    match call {
        Some(call) => Some(call@),
        None => None,
    }
}

/// Best-effort `DELETE` of the cached session (plugin shutdown). NPM keeps
/// sessions in memory until told otherwise, so be a polite client. What the
/// server answers makes no difference.
pub fn shutdown_session(client: &mut Client, cfg: Option<&Config>) -> (r: Option<HostCall>)
    ensures
        final(client)@ == old(client)@.with_session(None),
        optional_call(r) == shutdown_call(old(client)@, cfg.deep_view()),
{
    let session = client.session.take();
    match (cfg, session) {
        (Some(cfg), Some(session)) => Some(
            http_exchange(cfg, Some(&session), None, HANDSHAKE_TIMEOUT_SECS),
        ),
        _ => None,
    }
}

} // verus!
