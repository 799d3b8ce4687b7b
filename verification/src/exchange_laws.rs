//! What goes to the server and what its answers come to, told by what stands in
//! the messages: each field of a call, each word of an error, and where every
//! answer leads.
use vstd::prelude::*;
use crate::config::ConfigView;
use crate::host::StepView;
use crate::json::{JsonView, json_parsed, json_text};
use crate::mcp_client::{
    AskView, ClientView, HandshakeView, HttpReplyView, ListingView, ReplyView, RequestPhaseView,
    RequestView, SessionView, call_params, cursor_of, decoded, headers_of, http_call, http_reply_of,
    initialize_answer, initialize_call, initialize_next, initialize_params, initialized_answer,
    initialized_note, list_next, page_of, page_start, request_next, request_start, result_of,
    rpc_error_of, rpc_request, session_of, shutdown_call, snippet_of,
};
use crate::sse::{all_readable, chosen, sse_payloads};
use crate::text::{decimal, is_white, lowered, mentions, signed_decimal, trimmed};
use crate::text_laws::blank_texts_are_white;

verus! {

// ── Calls ─────────────────────────────────────────────────────────────
proof fn lemma_call_keys()
    ensures
        "url"@ != "method"@,
        "url"@ != "headers"@,
        "url"@ != "timeout_secs"@,
        "url"@ != "body"@,
        "url"@ != "authorization"@,
        "url"@ != "accept"@,
        "url"@ != "content-type"@,
        "url"@ != "mcp-session-id"@,
        "url"@ != "mcp-protocol-version"@,
        "method"@ != "headers"@,
        "method"@ != "timeout_secs"@,
        "method"@ != "body"@,
        "method"@ != "authorization"@,
        "method"@ != "accept"@,
        "method"@ != "content-type"@,
        "method"@ != "mcp-session-id"@,
        "method"@ != "mcp-protocol-version"@,
        "headers"@ != "timeout_secs"@,
        "headers"@ != "body"@,
        "headers"@ != "authorization"@,
        "headers"@ != "accept"@,
        "headers"@ != "content-type"@,
        "headers"@ != "mcp-session-id"@,
        "headers"@ != "mcp-protocol-version"@,
        "timeout_secs"@ != "body"@,
        "timeout_secs"@ != "authorization"@,
        "timeout_secs"@ != "accept"@,
        "timeout_secs"@ != "content-type"@,
        "timeout_secs"@ != "mcp-session-id"@,
        "timeout_secs"@ != "mcp-protocol-version"@,
        "body"@ != "authorization"@,
        "body"@ != "accept"@,
        "body"@ != "content-type"@,
        "body"@ != "mcp-session-id"@,
        "body"@ != "mcp-protocol-version"@,
        "authorization"@ != "accept"@,
        "authorization"@ != "content-type"@,
        "authorization"@ != "mcp-session-id"@,
        "authorization"@ != "mcp-protocol-version"@,
        "accept"@ != "content-type"@,
        "accept"@ != "mcp-session-id"@,
        "accept"@ != "mcp-protocol-version"@,
        "content-type"@ != "mcp-session-id"@,
        "content-type"@ != "mcp-protocol-version"@,
        "mcp-session-id"@ != "mcp-protocol-version"@,
{
    reveal_strlit("url");
    reveal_strlit("method");
    reveal_strlit("headers");
    reveal_strlit("timeout_secs");
    reveal_strlit("body");
    reveal_strlit("authorization");
    reveal_strlit("accept");
    reveal_strlit("content-type");
    reveal_strlit("mcp-session-id");
    reveal_strlit("mcp-protocol-version");
    assert("url"@.len() == 3);
    assert("method"@.len() == 6);
    assert("headers"@.len() == 7);
    assert("timeout_secs"@.len() == 12);
    assert("body"@.len() == 4);
    assert("authorization"@.len() == 13);
    assert("accept"@.len() == 6);
    assert("content-type"@.len() == 12);
    assert("mcp-session-id"@.len() == 14);
    assert("mcp-protocol-version"@.len() == 20);
    assert("method"@[0] == 'm' && "accept"@[0] == 'a');
    assert("timeout_secs"@[0] == 't' && "content-type"@[0] == 'c');
}

/// An exchange says where it goes, how, with which headers, how long it may take
/// and what it carries, and nothing else; nor are there other headers than those
/// for the key, the framings, the payload and the session.
pub proof fn exchanges_say_nothing_else(
    cfg: ConfigView,
    session: Option<SessionView>,
    payload: Option<JsonView>,
    timeout_secs: u64,
    other: Seq<char>,
)
    ensures
        ({
            let input = http_call(cfg, session, payload, timeout_secs).input;
            let headers = headers_of(cfg, session, payload is Some);
            &&& input.get("headers"@) == Some(headers)
            &&& other != "url"@ && other != "method"@ && other != "headers"@ && other !=
                "timeout_secs"@ && other != "body"@ ==> input.get(other) is None
            &&& other != "authorization"@ && other != "accept"@ && other != "content-type"@ && other
                != "mcp-session-id"@ && other != "mcp-protocol-version"@ ==> headers.get(other) is
                None
        }),
{
    lemma_call_keys();
}

/// What the host reports of an exchange: the lowest 16 bits of the status, the
/// two headers and the body, each where it is there and of its kind.
pub proof fn exchanges_are_read_as_reported(out: JsonView)
    ensures
        ({
            let reply = http_reply_of(out);
            let header = |name: Seq<char>| match out.get("headers"@) {
                Some(headers) => headers.str_at(name),
                None => None,
            };
            &&& match out.get("status"@) {
                Some(JsonView::Int(n)) => if 0 <= n < 0x1_0000_0000_0000_0000 {
                    reply.status == n % 0x1_0000
                } else {
                    reply.status == 0
                },
                _ => reply.status == 0,
            }
            &&& header("content-type"@) matches Some(s) ==> reply.content_type == s
            &&& header("content-type"@) is None ==> reply.content_type.len() == 0
            &&& reply.session_header == header("mcp-session-id"@)
            &&& out.str_at("body"@) matches Some(s) ==> reply.body == s
            &&& out.str_at("body"@) is None ==> reply.body.len() == 0
        }),
{
}

// ── Messages ──────────────────────────────────────────────────────────
proof fn lemma_message_keys()
    ensures
        "jsonrpc"@ != "id"@,
        "jsonrpc"@ != "method"@,
        "jsonrpc"@ != "params"@,
        "jsonrpc"@ != "protocolVersion"@,
        "jsonrpc"@ != "capabilities"@,
        "jsonrpc"@ != "clientInfo"@,
        "jsonrpc"@ != "name"@,
        "jsonrpc"@ != "version"@,
        "jsonrpc"@ != "arguments"@,
        "id"@ != "method"@,
        "id"@ != "params"@,
        "id"@ != "protocolVersion"@,
        "id"@ != "capabilities"@,
        "id"@ != "clientInfo"@,
        "id"@ != "name"@,
        "id"@ != "version"@,
        "id"@ != "arguments"@,
        "method"@ != "params"@,
        "method"@ != "protocolVersion"@,
        "method"@ != "capabilities"@,
        "method"@ != "clientInfo"@,
        "method"@ != "name"@,
        "method"@ != "version"@,
        "method"@ != "arguments"@,
        "params"@ != "protocolVersion"@,
        "params"@ != "capabilities"@,
        "params"@ != "clientInfo"@,
        "params"@ != "name"@,
        "params"@ != "version"@,
        "params"@ != "arguments"@,
        "protocolVersion"@ != "capabilities"@,
        "protocolVersion"@ != "clientInfo"@,
        "protocolVersion"@ != "name"@,
        "protocolVersion"@ != "version"@,
        "protocolVersion"@ != "arguments"@,
        "capabilities"@ != "clientInfo"@,
        "capabilities"@ != "name"@,
        "capabilities"@ != "version"@,
        "capabilities"@ != "arguments"@,
        "clientInfo"@ != "name"@,
        "clientInfo"@ != "version"@,
        "clientInfo"@ != "arguments"@,
        "name"@ != "version"@,
        "name"@ != "arguments"@,
        "version"@ != "arguments"@,
{
    reveal_strlit("jsonrpc");
    reveal_strlit("id");
    reveal_strlit("method");
    reveal_strlit("params");
    reveal_strlit("protocolVersion");
    reveal_strlit("capabilities");
    reveal_strlit("clientInfo");
    reveal_strlit("name");
    reveal_strlit("version");
    reveal_strlit("arguments");
    assert("jsonrpc"@.len() == 7);
    assert("id"@.len() == 2);
    assert("method"@.len() == 6);
    assert("params"@.len() == 6);
    assert("protocolVersion"@.len() == 15);
    assert("capabilities"@.len() == 12);
    assert("clientInfo"@.len() == 10);
    assert("name"@.len() == 4);
    assert("version"@.len() == 7);
    assert("arguments"@.len() == 9);
    assert("jsonrpc"@[0] == 'j' && "version"@[0] == 'v');
    assert("method"@[0] == 'm' && "params"@[0] == 'p');
}

/// A request is a JSON-RPC 2.0 message with its id, its method and its
/// parameters, and nothing else.
pub proof fn requests_are_json_rpc(
    id: u64,
    method: Seq<char>,
    params: JsonView,
    other: Seq<char>,
)
    ensures
        ({
            let message = rpc_request(id, method, params);
            &&& message.str_at("jsonrpc"@) == Some("2.0"@)
            &&& message.get("id"@) == Some(JsonView::Int(id as int))
            &&& message.str_at("method"@) == Some(method)
            &&& message.get("params"@) == Some(params)
            &&& other != "jsonrpc"@ && other != "id"@ && other != "method"@ && other != "params"@
                ==> message.get(other) is None
        }),
{
    lemma_message_keys();
}

/// At `initialize` the client gives the protocol version it asks for, no
/// capabilities, and its name and version.
pub proof fn client_introduces_itself(version: Seq<char>, other: Seq<char>)
    ensures
        ({
            let params = initialize_params(version);
            &&& params.str_at("protocolVersion"@) == Some("2025-03-26"@)
            &&& params.get("capabilities"@) matches Some(none) && none is Object && none.get(other)
                is None
            &&& params.get("clientInfo"@) matches Some(info) && {
                &&& info.str_at("name"@) == Some("peckboard-nginx-manager"@)
                &&& info.str_at("version"@) == Some(version)
                &&& other != "name"@ && other != "version"@ ==> info.get(other) is None
            }
            &&& other != "protocolVersion"@ && other != "capabilities"@ && other != "clientInfo"@
                ==> params.get(other) is None
        }),
{
    lemma_message_keys();
}

/// The notification that ends the handshake has a method and no id.
pub proof fn notification_has_no_id(other: Seq<char>)
    ensures
        initialized_note().str_at("jsonrpc"@) == Some("2.0"@),
        initialized_note().str_at("method"@) == Some("notifications/initialized"@),
        other != "jsonrpc"@ && other != "method"@ ==> initialized_note().get(other) is None,
{
    lemma_message_keys();
}

/// A tool is called with its name and its arguments as they were given.
pub proof fn tools_are_called_as_asked(name: Seq<char>, arguments: JsonView, other: Seq<char>)
    ensures
        call_params(name, arguments).str_at("name"@) == Some(name),
        call_params(name, arguments).get("arguments"@) == Some(arguments),
        other != "name"@ && other != "arguments"@ ==> call_params(name, arguments).get(other)
            is None,
{
    lemma_message_keys();
}

/// The words for a JSON-RPC error give its code, zero where it has none, its
/// message, and its data where there is any.
pub proof fn errors_give_code_message_and_data(err: JsonView)
    ensures
        ({
            let code: int = match err.get("code"@) {
                Some(JsonView::Int(n)) => if -0x8000_0000_0000_0000 <= n < 0x8000_0000_0000_0000 {
                    n
                } else {
                    0
                },
                _ => 0,
            };
            let message = match err.get("message"@) {
                Some(JsonView::String(s)) => s,
                _ => "unknown error"@,
            };
            let words = "NPM MCP error "@ + signed_decimal(code) + ": "@ + message;
            match err.get("data"@) {
                None => rpc_error_of(err) == words,
                Some(JsonView::Null) => rpc_error_of(err) == words,
                Some(data) => rpc_error_of(err) == words + " ("@ + json_text(data) + ")"@,
            }
        }),
{
}

/// What is quoted of a body is the body without the white space around it, cut
/// behind its first 300 characters where it has more.
pub proof fn bodies_are_quoted_from_the_front(body: Seq<char>)
    ensures
        trimmed(body).len() <= 300 ==> snippet_of(body) == trimmed(body),
        trimmed(body).len() > 300 ==> snippet_of(body).take(300) == trimmed(body).take(300)
            && snippet_of(body).skip(300) == "…"@,
{
    if trimmed(body).len() > 300 {
        assert(snippet_of(body).take(300) =~= trimmed(body).take(300));
        assert(snippet_of(body).skip(300) =~= "…"@);
    }
}

/// The error of a response comes before its result, and a response without
/// either is told by its method.
pub proof fn responses_give_error_or_result(method: Seq<char>, message: JsonView)
    ensures
        message.get("error"@) matches Some(err) ==> result_of(method, message) == Err::<
            JsonView,
            Seq<char>,
        >(rpc_error_of(err)),
        message.get("error"@) is None ==> match message.get("result"@) {
            Some(result) => result_of(method, message) == Ok::<JsonView, Seq<char>>(result),
            None => result_of(method, message) == Err::<JsonView, Seq<char>>(
                method + " response had no result"@,
            ),
        },
{
}

// ── Decoding ──────────────────────────────────────────────────────────
/// Whether the status and the body settle an exchange before any message is
/// looked for: the key is rejected, the session is not known, or there is no
/// message.
pub open spec fn is_settled(status: u16, body: Seq<char>) -> bool {
    ||| status == 401 || status == 403
    ||| (status == 400 || status == 404) && mentions(lowered(body), "session"@)
    ||| status == 202
    ||| 200 <= status < 300 && forall|k: int| 0 <= k < body.len() ==> is_white(#[trigger] body[k])
}

/// A status of 401 or 403 says that the key is rejected, whatever the body says.
pub proof fn rejected_keys_are_told(
    status: u16,
    content_type: Seq<char>,
    body: Seq<char>,
    id: u64,
)
    requires
        status == 401 || status == 403,
    ensures
        decoded(status, content_type, body, id) == Err::<ReplyView, Seq<char>>(
            "NPM rejected the API key ("@ + decimal(status as int)
                + "). Check it exists, is not expired, and has the scopes you need (npm_configure to update it)."@,
        ),
{
}

/// A session is found expired by a status of 400 or 404 with a body that speaks
/// of a session, in whatever case, and by nothing else.
pub proof fn expiry_is_told_by_the_body(
    status: u16,
    content_type: Seq<char>,
    body: Seq<char>,
    id: u64,
)
    ensures
        decoded(status, content_type, body, id) == Ok::<ReplyView, Seq<char>>(ReplyView::Expired)
            <==> (status == 400 || status == 404) && mentions(lowered(body), "session"@),
{
}

/// An exchange is accepted without a message by a status of 202, or by another
/// of success with nothing in the body, and by nothing else.
pub proof fn acceptance_is_told_by_status(
    status: u16,
    content_type: Seq<char>,
    body: Seq<char>,
    id: u64,
)
    ensures
        decoded(status, content_type, body, id) == Ok::<ReplyView, Seq<char>>(ReplyView::Accepted)
            <==> status == 202 || (200 <= status < 300 && forall|k: int|
            0 <= k < body.len() ==> is_white(#[trigger] body[k])),
{
    blank_texts_are_white(body);
}

/// The message of an exchange that the status does not settle is the response in
/// the stream where the content type says that the body is one, and else what
/// the whole body says as JSON; a body without a message is an error that says
/// so.
pub proof fn messages_are_found_by_content_type(
    status: u16,
    content_type: Seq<char>,
    body: Seq<char>,
    id: u64,
    message: JsonView,
    e: Seq<char>,
)
    requires
        !is_settled(status, body),
        status < 400,
        message.get("result"@) is Some || message.get("error"@) is Some,
    ensures
        ({
            let found = chosen(all_readable(sse_payloads(body)), id);
            let reply = decoded(status, content_type, body, id);
            if mentions(content_type, "text/event-stream"@) {
                &&& found == Some(message) ==> reply == Ok::<ReplyView, Seq<char>>(
                    ReplyView::Message(message),
                )
                &&& found is None ==> reply == Err::<ReplyView, Seq<char>>(
                    "SSE stream held no JSON-RPC response message"@,
                )
            } else {
                &&& json_parsed(body) == Ok::<JsonView, Seq<char>>(message) ==> reply == Ok::<
                    ReplyView,
                    Seq<char>,
                >(ReplyView::Message(message))
                &&& json_parsed(body) == Err::<JsonView, Seq<char>>(e) ==> reply == Err::<
                    ReplyView,
                    Seq<char>,
                >(
                    "endpoint returned HTTP "@ + decimal(status as int)
                        + " with a non-JSON-RPC body ("@ + e + "): "@ + snippet_of(body),
                )
            }
        }),
{
    blank_texts_are_white(body);
}

/// Under a status of failure the exchange fails: with the words of the error in
/// its message, with the status and the body where there is no error in it, and
/// where there is no message with the same words as under any other status.
pub proof fn failure_statuses_fail(
    status: u16,
    content_type: Seq<char>,
    body: Seq<char>,
    id: u64,
    message: JsonView,
    e: Seq<char>,
)
    requires
        !is_settled(status, body),
        status >= 400,
    ensures
        ({
            let streamed = mentions(content_type, "text/event-stream"@);
            let found = chosen(all_readable(sse_payloads(body)), id);
            let reply = decoded(status, content_type, body, id);
            &&& reply is Err
            &&& (streamed && found == Some(message)) || (!streamed && json_parsed(body) == Ok::<
                JsonView,
                Seq<char>,
            >(message)) ==> match message.get("error"@) {
                Some(err) => reply == Err::<ReplyView, Seq<char>>(rpc_error_of(err)),
                None => reply == Err::<ReplyView, Seq<char>>(
                    "endpoint returned HTTP "@ + decimal(status as int) + ": "@ + snippet_of(body),
                ),
            }
            &&& streamed && found is None ==> reply == Err::<ReplyView, Seq<char>>(
                "SSE stream held no JSON-RPC response message"@,
            )
            &&& !streamed && json_parsed(body) == Err::<JsonView, Seq<char>>(e) ==> reply == Err::<
                ReplyView,
                Seq<char>,
            >(
                "endpoint returned HTTP "@ + decimal(status as int) + " with a non-JSON-RPC body ("@
                    + e + "): "@ + snippet_of(body),
            )
        }),
{
    blank_texts_are_white(body);
}

/// An exchange is decoded by its status, its content type and its body alone.
pub proof fn exchanges_are_decoded_by_their_parts(reply: HttpReplyView, id: u64)
    ensures
        reply.decoded(id) == decoded(reply.status, reply.content_type, reply.body, id),
{
}

// ── The client ────────────────────────────────────────────────────────
/// Using an id up moves to the next one and changes nothing else; dropping or
/// keeping a session changes nothing but the session.
pub proof fn client_changes_one_thing_at_a_time(client: ClientView, session: Option<SessionView>)
    ensures
        client.advanced().next_id == (client.next_id + 1) % 0x1_0000_0000_0000_0000,
        client.advanced().session == client.session,
        client.advanced().version == client.version,
        client.with_session(session).session == session,
        client.with_session(session).next_id == client.next_id,
        client.with_session(session).version == client.version,
{
}

// ── The handshake ─────────────────────────────────────────────────────
/// The handshake starts with `initialize`, under the next id and without a
/// session.
pub proof fn handshake_starts_with_initialize(client: ClientView, cfg: ConfigView)
    ensures
        initialize_call(client, cfg) == http_call(
            cfg,
            None,
            Some(rpc_request(client.next_id, "initialize"@, initialize_params(client.version))),
            15,
        ),
{
}

/// A session bears the id of its header, the protocol version of the result, or
/// the one asked for where there is none in it, and the fingerprint of its
/// configuration; there is no session without a header and none without a
/// result.
pub proof fn sessions_come_from_header_and_result(
    cfg: ConfigView,
    header: Option<Seq<char>>,
    message: JsonView,
)
    ensures
        match result_of("initialize"@, message) {
            Err(e) => session_of(cfg, header, message) == Err::<
                (SessionView, JsonView),
                Seq<char>,
            >(e),
            Ok(result) => match header {
                None => session_of(cfg, header, message) == Err::<
                    (SessionView, JsonView),
                    Seq<char>,
                >(
                    "server sent no Mcp-Session-Id header on initialize — not a Streamable HTTP MCP endpoint?"@,
                ),
                Some(id) => session_of(cfg, header, message) matches Ok((session, init)) && {
                    &&& init == result
                    &&& session.id == id
                    &&& session.fingerprint == cfg.fingerprint()
                    &&& result.get("protocolVersion"@) matches Some(JsonView::String(version))
                        ==> session.protocol_version == version
                    &&& !(result.get("protocolVersion"@) matches Some(version) && version is String)
                        ==> session.protocol_version == "2025-03-26"@
                },
            },
        },
{
}

/// Only a message answers `initialize`, and only an expired session or an error
/// is no answer to the notification.
pub proof fn handshake_answers_are_told_apart(
    cfg: ConfigView,
    header: Option<Seq<char>>,
    message: JsonView,
    e: Seq<char>,
)
    ensures
        initialize_answer(cfg, header, Ok(ReplyView::Message(message))) == session_of(
            cfg,
            header,
            message,
        ),
        initialize_answer(cfg, header, Ok(ReplyView::Accepted)) == Err::<
            (SessionView, JsonView),
            Seq<char>,
        >("initialize was accepted but returned no result"@),
        initialize_answer(cfg, header, Ok(ReplyView::Expired)) == Err::<
            (SessionView, JsonView),
            Seq<char>,
        >("initialize rejected as an expired session"@),
        initialize_answer(cfg, header, Err(e)) == Err::<(SessionView, JsonView), Seq<char>>(e),
        initialized_answer(Ok(ReplyView::Accepted)) is Ok,
        initialized_answer(Ok(ReplyView::Message(message))) is Ok,
        initialized_answer(Ok(ReplyView::Expired)) == Err::<(), Seq<char>>(
            "session expired during the initialize handshake"@,
        ),
        initialized_answer(Err(e)) == Err::<(), Seq<char>>(e),
{
}

/// Once the server has agreed to a session, the notification goes out on it, and
/// once that is acknowledged the session is cached and given to the caller with
/// the result; the client stays as it is until then, and where anything fails.
pub proof fn handshake_leads_to_its_session(
    client: ClientView,
    cfg: ConfigView,
    id: u64,
    session: SessionView,
    init: JsonView,
    out: JsonView,
    e: Seq<char>,
)
    ensures
        ({
            let first = HandshakeView::Initialize { id };
            let second = HandshakeView::Initialized { session, result: init };
            let answer = initialize_answer(
                cfg,
                http_reply_of(out).session_header,
                http_reply_of(out).decoded(id),
            );
            let acknowledged = initialized_answer(http_reply_of(out).decoded(0));
            let failed: StepView<HandshakeView, (SessionView, JsonView)> = StepView::Done(Err(e));
            &&& answer == Ok::<(SessionView, JsonView), Seq<char>>((session, init))
                ==> initialize_next(client, cfg, first, Ok(out)) == (
                client,
                StepView::<HandshakeView, (SessionView, JsonView)>::Call(
                    http_call(cfg, Some(session), Some(initialized_note()), 15),
                    second,
                ),
            )
            &&& answer == Err::<(SessionView, JsonView), Seq<char>>(e) ==> initialize_next(
                client,
                cfg,
                first,
                Ok(out),
            ) == (client, failed)
            &&& acknowledged is Ok ==> initialize_next(client, cfg, second, Ok(out)) == (
                client.with_session(Some(session)),
                StepView::<HandshakeView, (SessionView, JsonView)>::Done(Ok((session, init))),
            )
            &&& acknowledged == Err::<(), Seq<char>>(e) ==> initialize_next(
                client,
                cfg,
                second,
                Ok(out),
            ) == (client, failed)
            &&& initialize_next(client, cfg, first, Err(e)) == (client, failed)
            &&& initialize_next(client, cfg, second, Err(e)) == (client, failed)
        }),
{
}

// ── Requests ──────────────────────────────────────────────────────────
/// What is asked of the server is asked as it was given, on the session at hand
/// under the next id, or else after a handshake.
pub proof fn requests_ask_what_was_given(
    client: ClientView,
    cfg: ConfigView,
    method: Seq<char>,
    params: JsonView,
    timeout_secs: u64,
)
    ensures
        ({
            let (after, call, request) = request_start(client, cfg, method, params, timeout_secs);
            &&& request.ask == (AskView { method, params, timeout_secs, retried: false })
            &&& after == client.advanced()
            &&& client.session_for(cfg) matches Some(session) ==> {
                &&& call == http_call(
                    cfg,
                    Some(session),
                    Some(rpc_request(client.next_id, method, params)),
                    timeout_secs,
                )
                &&& request.phase == (RequestPhaseView::Sent { id: client.next_id })
            }
            &&& client.session_for(cfg) is None ==> {
                &&& call == initialize_call(client, cfg)
                &&& request.phase == RequestPhaseView::Handshaking(
                    HandshakeView::Initialize { id: client.next_id },
                )
            }
        }),
{
}

/// The answer to a request is its end: the result or the error of a response,
/// the words for an exchange without one, and the error of one that failed. Only
/// a session found expired for the first time is no end: it is dropped, and the
/// handshake for a new one starts, for the same request.
pub proof fn answers_end_requests(
    client: ClientView,
    cfg: ConfigView,
    ask: AskView,
    id: u64,
    out: JsonView,
    message: JsonView,
    e: Seq<char>,
)
    ensures
        ({
            let request = RequestView { ask, phase: RequestPhaseView::Sent { id } };
            let reply = http_reply_of(out).decoded(id);
            let (after, step) = request_next(client, cfg, request, Ok(out));
            let done = |r: Result<JsonView, Seq<char>>|
                after == client && step == StepView::<RequestView, JsonView>::Done(r);
            &&& reply == Ok::<ReplyView, Seq<char>>(ReplyView::Message(message)) ==> done(
                result_of(ask.method, message),
            )
            &&& reply == Ok::<ReplyView, Seq<char>>(ReplyView::Accepted) ==> done(
                Err(ask.method + " was accepted but returned no result"@),
            )
            &&& reply == Err::<ReplyView, Seq<char>>(e) ==> done(Err(e))
            &&& reply == Ok::<ReplyView, Seq<char>>(ReplyView::Expired) && ask.retried ==> done(
                Err("session expired again right after re-initialising"@),
            )
            &&& reply == Ok::<ReplyView, Seq<char>>(ReplyView::Expired) && !ask.retried ==> {
                &&& after == client.with_session(None).advanced()
                &&& step == StepView::<RequestView, JsonView>::Call(
                    initialize_call(client.with_session(None), cfg),
                    RequestView {
                        ask: AskView { retried: true, ..ask },
                        phase: RequestPhaseView::Handshaking(
                            HandshakeView::Initialize { id: client.next_id },
                        ),
                    },
                )
            }
            &&& request_next(client, cfg, request, Err(e)) == (
                client,
                StepView::<RequestView, JsonView>::Done(Err(e)),
            )
        }),
{
}

/// A request that waits for a session waits through the handshake, is sent on
/// the session that the handshake gives, and fails where the handshake does.
pub proof fn requests_wait_for_their_session(
    client: ClientView,
    cfg: ConfigView,
    ask: AskView,
    state: HandshakeView,
    reply: Result<JsonView, Seq<char>>,
)
    ensures
        ({
            let request = RequestView { ask, phase: RequestPhaseView::Handshaking(state) };
            let (after, step) = request_next(client, cfg, request, reply);
            match initialize_next(client, cfg, state, reply) {
                (next, StepView::Call(call, state)) => after == next && step == StepView::<
                    RequestView,
                    JsonView,
                >::Call(
                    call,
                    RequestView { ask, phase: RequestPhaseView::Handshaking(state) },
                ),
                (next, StepView::Done(Ok((session, _)))) => after == next.advanced() && step
                    == StepView::<RequestView, JsonView>::Call(
                    http_call(
                        cfg,
                        Some(session),
                        Some(rpc_request(next.next_id, ask.method, ask.params)),
                        ask.timeout_secs,
                    ),
                    RequestView { ask, phase: RequestPhaseView::Sent { id: next.next_id } },
                ),
                (next, StepView::Done(Err(e))) => after == next && step == StepView::<
                    RequestView,
                    JsonView,
                >::Done(Err(e)),
            }
        }),
{
}

// ── The tool catalog ──────────────────────────────────────────────────
/// A page holds the tools of the array under `tools`, and is followed by another
/// where it has a cursor that is not empty.
pub proof fn pages_hold_tools_and_a_cursor(result: JsonView)
    ensures
        match result.get("tools"@) {
            Some(JsonView::Array(items)) => page_of(result) == items,
            _ => page_of(result).len() == 0,
        },
        match result.get("nextCursor"@) {
            Some(JsonView::String(s)) => if s.len() > 0 {
                cursor_of(result) == Some(s)
            } else {
                cursor_of(result) is None
            },
            _ => cursor_of(result) is None,
        },
{
}

/// A page is asked for with `tools/list`, by its cursor where there is one, and
/// with the tools of the pages before it in hand.
pub proof fn pages_are_asked_for_by_cursor(
    client: ClientView,
    cfg: ConfigView,
    tools: Seq<JsonView>,
    cursor: Option<Seq<char>>,
    other: Seq<char>,
)
    ensures
        ({
            let (after, call, listing) = page_start(client, cfg, tools, cursor);
            let params = listing.request.ask.params;
            &&& listing.tools == tools
            &&& (after, call, listing.request) == request_start(
                client,
                cfg,
                "tools/list"@,
                params,
                30,
            )
            &&& params is Object
            &&& params.str_at("cursor"@) == cursor
            &&& other != "cursor"@ || cursor is None ==> params.get(other) is None
        }),
{
}

/// A page with a cursor has the next one asked for, one without ends the
/// listing; either way its tools are put behind those before. A listing waits
/// where its request waits and fails where its request does.
pub proof fn pages_follow_each_other(
    client: ClientView,
    cfg: ConfigView,
    listing: ListingView,
    reply: Result<JsonView, Seq<char>>,
)
    ensures
        ({
            let (after, step) = list_next(client, cfg, listing, reply);
            match request_next(client, cfg, listing.request, reply) {
                (next, StepView::Call(call, request)) => after == next && step == StepView::<
                    ListingView,
                    Seq<JsonView>,
                >::Call(call, ListingView { tools: listing.tools, request }),
                (next, StepView::Done(Err(e))) => after == next && step == StepView::<
                    ListingView,
                    Seq<JsonView>,
                >::Done(Err(e)),
                (next, StepView::Done(Ok(result))) => {
                    let tools = listing.tools + page_of(result);
                    match cursor_of(result) {
                        Some(cursor) => {
                            let (later, call, listing) = page_start(next, cfg, tools, Some(cursor));
                            after == later && step == StepView::<
                                ListingView,
                                Seq<JsonView>,
                            >::Call(call, listing)
                        },
                        None => after == next && step == StepView::<
                            ListingView,
                            Seq<JsonView>,
                        >::Done(Ok(tools)),
                    }
                },
            }
        }),
{
}

// ── Shutting down ─────────────────────────────────────────────────────
/// The cached session is deleted on the server with a call on that session,
/// which carries nothing; without a session or a configuration there is no call.
pub proof fn cached_session_is_deleted(
    client: ClientView,
    cfg: ConfigView,
    session: SessionView,
    wanted: Option<ConfigView>,
)
    ensures
        client.session == Some(session) ==> shutdown_call(client, Some(cfg)) == Some(
            http_call(cfg, Some(session), None, 15),
        ),
        client.session is None || wanted is None ==> shutdown_call(client, wanted) is None,
{
}

} // verus!
