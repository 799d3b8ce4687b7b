use peckboard_nginx_manager_plugin::config::Config;
use peckboard_nginx_manager_plugin::host::{parse_envelope, HostCall, HostFn, Step};
use peckboard_nginx_manager_plugin::json::Json;
use peckboard_nginx_manager_plugin::mcp_client::{
    call_tool, decode_message, decode_reply, decode_status, ensure_session, http_exchange,
    http_reply, initialize_fresh, initialize_reply, initialize_result, initialized_result,
    invalidate_session, list_page_reply, list_tools, list_tools_reply, plain_message, request,
    request_decoded, request_reply, response_result, rpc_error_parts, rpc_error_text, session_from,
    shutdown_session, snippet, stream_message, Ask, Client, McpSession, Ready, Reply, Request,
};
use peckboard_nginx_manager_plugin::plugin::answer_text;
use serde_json::Value;

fn json(text: &str) -> Json {
    parse_envelope(text).unwrap()
}

fn cfg() -> Config {
    Config { base_url: "http://npm:81".to_string(), api_key: "npm_secret_key".to_string() }
}

fn input(call: &HostCall) -> Value {
    assert_eq!(call.which, HostFn::HttpRequest);
    serde_json::from_str(&call.input_text()).unwrap()
}

fn body(call: &HostCall) -> Value {
    serde_json::from_str(input(call)["body"].as_str().unwrap()).unwrap()
}

/// What the host reports of an exchange.
fn exchange(status: u64, session: Option<&str>, content_type: &str, body: &str) -> Json {
    let mut headers = Json::object();
    headers.set_str("content-type", content_type);
    if let Some(id) = session {
        headers.set_str("mcp-session-id", id);
    }
    let mut out = Json::object();
    out.set("status", Json::PosInt(status));
    out.set("headers", headers);
    out.set_str("body", body);
    out
}

fn plain(body: &str) -> Json {
    exchange(200, None, "application/json", body)
}

fn welcome(session: &str, id: u64) -> Json {
    exchange(
        200,
        Some(session),
        "application/json",
        &format!(r#"{{"jsonrpc":"2.0","id":{id},"result":{{"protocolVersion":"2025-06-18","serverInfo":{{"name":"npm"}}}}}}"#),
    )
}

fn accepted() -> Json {
    exchange(202, None, "", "")
}

fn expired() -> Json {
    exchange(404, None, "application/json", r#"{"error":{"message":"Unknown or expired MCP session"}}"#)
}

fn with_session(id: &str) -> Client {
    let mut client = Client::new("1.2.3");
    client.session = Some(McpSession {
        id: id.to_string(),
        protocol_version: "2025-03-26".to_string(),
        fingerprint: cfg().fingerprint(),
    });
    client
}

#[test]
fn decode_plain_json_reply() {
    let r = decode_reply(
        200,
        "application/json",
        "{\"jsonrpc\":\"2.0\",\"id\":1,\"result\":{}}",
        1,
    );
    assert!(matches!(r, Ok(Reply::Message(_))));
}

#[test]
fn decode_expired_session_variants() {
    let r = decode_reply(
        404,
        "application/json",
        "{\"jsonrpc\":\"2.0\",\"error\":{\"code\":-32001,\"message\":\"Unknown or expired MCP session\"},\"id\":null}",
        1,
    );
    assert!(matches!(r, Ok(Reply::Expired)));
    let r = decode_reply(
        400,
        "application/json",
        "{\"jsonrpc\":\"2.0\",\"error\":{\"code\":-32000,\"message\":\"Bad Request: No valid session ID provided\"},\"id\":null}",
        1,
    );
    assert!(matches!(r, Ok(Reply::Expired)));
}

#[test]
fn decode_auth_failure_is_actionable() {
    let e = decode_reply(401, "application/json", "{}", 1).unwrap_err();
    assert!(e.contains("API key"), "{e}");
}

#[test]
fn decode_accepted_notification() {
    assert!(matches!(
        decode_reply(202, "", "", 0),
        Ok(Reply::Accepted)
    ));
}

#[test]
fn rpc_error_text_includes_code_and_data() {
    let mut data = Json::object();
    data.set_str("field", "port");
    let mut err = Json::object();
    err.set("code", Json::NegInt(-32602));
    err.set_str("message", "bad params");
    err.set("data", data);
    let e = rpc_error_text(&err);
    assert!(e.contains("-32602") && e.contains("bad params") && e.contains("port"), "{e}");
}

#[test]
fn rpc_errors_have_exact_words() {
    assert_eq!(
        rpc_error_text(&json(r#"{"code":-32602,"message":"bad params","data":{"field":"port"}}"#)),
        r#"NPM MCP error -32602: bad params ({"field":"port"})"#
    );
    assert_eq!(
        rpc_error_text(&json(r#"{"code":1.5,"message":3,"data":null}"#)),
        "NPM MCP error 0: unknown error"
    );
    assert_eq!(rpc_error_text(&Json::Null), "NPM MCP error 0: unknown error");
    assert_eq!(rpc_error_parts(7, "m", Some("d".to_string())), "NPM MCP error 7: m (d)");
    assert_eq!(rpc_error_parts(-7, "m", None), "NPM MCP error -7: m");
}

#[test]
fn snippets_hold_300_characters() {
    assert_eq!(snippet("  short \n"), "short");
    let long = "ä".repeat(301);
    assert_eq!(snippet(&long), "ä".repeat(300) + "…");
    assert_eq!(snippet(&"b".repeat(300)), "b".repeat(300));
}

#[test]
fn statuses_speak_first() {
    assert_eq!(
        decode_reply(403, "", "x", 1).unwrap_err(),
        "NPM rejected the API key (403). Check it exists, is not expired, and has the scopes you need (npm_configure to update it)."
    );
    assert!(matches!(decode_status(400, "A SESSION is gone"), Some(Ok(Reply::Expired))));
    assert!(decode_status(400, "bad request").is_none());
    assert!(decode_status(500, "session").is_none());
    assert!(matches!(decode_status(204, " \n"), Some(Ok(Reply::Accepted))));
    assert!(matches!(decode_status(202, "anything"), Some(Ok(Reply::Accepted))));
    assert!(decode_status(200, "x").is_none());
    assert!(decode_status(300, "").is_none());
}

#[test]
fn bodies_that_are_no_messages_are_quoted() {
    let e = decode_reply(200, "text/html", " <html> ", 1).unwrap_err();
    assert_eq!(
        e,
        "endpoint returned HTTP 200 with a non-JSON-RPC body (expected value at line 1 column 2): <html>"
    );
    assert_eq!(
        plain_message(502, "down", Err("odd".to_string())).unwrap_err(),
        "endpoint returned HTTP 502 with a non-JSON-RPC body (odd): down"
    );
    assert!(matches!(plain_message(200, "1", Ok(Json::PosInt(1))), Ok(Json::PosInt(1))));
    assert_eq!(
        decode_reply(200, "text/event-stream", "data: nothing\n\n", 1).unwrap_err(),
        "SSE stream held no JSON-RPC response message"
    );
    assert!(stream_message(None).is_err());
    assert!(matches!(stream_message(Some(Json::Null)), Ok(Json::Null)));
}

#[test]
fn error_statuses_are_errors() {
    assert_eq!(
        decode_reply(500, "application/json", r#"{"error":{"code":3,"message":"boom"}}"#, 1).unwrap_err(),
        "NPM MCP error 3: boom"
    );
    assert_eq!(
        decode_reply(500, "application/json", r#" {"oops":true} "#, 1).unwrap_err(),
        r#"endpoint returned HTTP 500: {"oops":true}"#
    );
    assert_eq!(decode_message(200, "", Err("e".to_string())).unwrap_err(), "e");
    assert_eq!(
        decode_message(399, " x ", Ok(Json::Null)).unwrap_err(),
        "endpoint returned HTTP 399: x"
    );
    assert!(matches!(
        decode_message(399, "", Ok(json(r#"{"error":{}}"#))),
        Ok(Reply::Message(_))
    ));
    assert_eq!(
        decode_message(400, " x ", Ok(Json::Null)).unwrap_err(),
        "endpoint returned HTTP 400: x"
    );
}

#[test]
fn messages_are_responses() {
    for body in ["{}", "null", "[1]", r#"{"id":1,"method":"ping"}"#] {
        assert_eq!(
            decode_reply(200, "application/json", body, 1).unwrap_err(),
            format!("endpoint returned HTTP 200: {body}")
        );
        let mut client = Client::new("1");
        let (_, state) = initialize_fresh(&mut client, &cfg());
        let Step::Call(_, state) = initialize_reply(&mut client, &cfg(), state, Ok(welcome("s", 1))) else {
            panic!("initialize was refused");
        };
        let end = initialize_reply(&mut client, &cfg(), state, Ok(plain(body)));
        assert!(matches!(end, Step::Done(Err(e)) if e == format!("endpoint returned HTTP 200: {body}")));
        assert!(client.session.is_none());
    }
    for body in [r#"{"result":null}"#, r#"{"error":null}"#] {
        assert!(matches!(decode_reply(200, "application/json", body, 1), Ok(Reply::Message(_))));
    }
}

#[test]
fn framings_make_no_difference() {
    let text = r#"{"id":4,"jsonrpc":"2.0","result":{"ok":true}}"#;
    let stream = format!("event: message\ndata: {text}\n\n");
    let Ok(Reply::Message(a)) = decode_reply(200, "application/json", text, 4) else {
        panic!("plain framing failed");
    };
    let Ok(Reply::Message(b)) = decode_reply(200, "text/event-stream; charset=utf-8", &stream, 4) else {
        panic!("stream framing failed");
    };
    assert_eq!(answer_text(&a), text);
    assert_eq!(answer_text(&b), text);
}

#[test]
fn exchanges_carry_their_headers() {
    let session = McpSession {
        id: "s1".to_string(),
        protocol_version: "v".to_string(),
        fingerprint: String::new(),
    };
    let mut payload = Json::object();
    payload.set("x", Json::PosInt(1));
    let post = http_exchange(&cfg(), Some(&session), Some(&payload), 30);
    assert_eq!(
        post.input_text(),
        r#"{"body":"{\"x\":1}","headers":{"accept":"application/json, text/event-stream","authorization":"Bearer npm_secret_key","content-type":"application/json","mcp-protocol-version":"v","mcp-session-id":"s1"},"method":"POST","timeout_secs":30,"url":"http://npm:81/api/mcp"}"#
    );
    let delete = http_exchange(&cfg(), None, None, 15);
    assert_eq!(
        delete.input_text(),
        r#"{"headers":{"accept":"application/json, text/event-stream","authorization":"Bearer npm_secret_key"},"method":"DELETE","timeout_secs":15,"url":"http://npm:81/api/mcp"}"#
    );
}

#[test]
fn exchanges_are_read() {
    let reply = http_reply(&exchange(200, Some("abc"), "text/html", "b"));
    assert_eq!(reply.status, 200);
    assert_eq!(reply.content_type, "text/html");
    assert_eq!(reply.session_header.as_deref(), Some("abc"));
    assert_eq!(reply.body, "b");
    let reply = http_reply(&json("{}"));
    assert_eq!(reply.status, 0);
    assert_eq!(reply.content_type, "");
    assert_eq!(reply.session_header, None);
    assert_eq!(reply.body, "");
    assert_eq!(http_reply(&json(r#"{"status":65737}"#)).status, 201);
    assert_eq!(http_reply(&json(r#"{"status":-1,"headers":7,"body":null}"#)).status, 0);
}

#[test]
fn ids_count_up_and_start_over() {
    let mut client = Client::new("1");
    assert_eq!(client.next_id(), 1);
    assert_eq!(client.next_id(), 2);
    client.next_id = u64::MAX;
    assert_eq!(client.next_id(), u64::MAX);
    assert_eq!(client.next_id(), 0);
}

#[test]
fn handshake_makes_a_session() {
    let mut client = Client::new("1.2.3");
    let (call, state) = initialize_fresh(&mut client, &cfg());
    assert_eq!(
        input(&call)["body"],
        r#"{"id":1,"jsonrpc":"2.0","method":"initialize","params":{"capabilities":{},"clientInfo":{"name":"peckboard-nginx-manager","version":"1.2.3"},"protocolVersion":"2025-03-26"}}"#
    );
    assert_eq!(input(&call)["timeout_secs"], 15);
    assert!(input(&call)["headers"].get("mcp-session-id").is_none());
    let Step::Call(call, state) = initialize_reply(&mut client, &cfg(), state, Ok(welcome("s1", 1))) else {
        panic!("initialize was refused");
    };
    assert_eq!(
        input(&call)["body"],
        r#"{"jsonrpc":"2.0","method":"notifications/initialized"}"#
    );
    assert_eq!(input(&call)["headers"]["mcp-session-id"], "s1");
    assert_eq!(input(&call)["headers"]["mcp-protocol-version"], "2025-06-18");
    assert!(client.session.is_none());
    let Step::Done(Ok((session, result))) = initialize_reply(&mut client, &cfg(), state, Ok(accepted())) else {
        panic!("the handshake failed");
    };
    assert_eq!(session.id, "s1");
    assert_eq!(result.get("serverInfo").unwrap().str_at("name"), Some("npm"));
    assert_eq!(client.session.as_ref().unwrap().id, "s1");
    assert_eq!(client.session.as_ref().unwrap().fingerprint, cfg().fingerprint());
}

#[test]
fn handshake_errors_are_told_apart() {
    let message = |text: &str| Ok(Reply::Message(json(text)));
    let header = || Some("s".to_string());
    let error = |r: Result<(McpSession, Json), String>| r.unwrap_err();
    assert_eq!(
        error(initialize_result(&cfg(), header(), Ok(Reply::Accepted))),
        "initialize was accepted but returned no result"
    );
    assert_eq!(
        error(initialize_result(&cfg(), header(), Ok(Reply::Expired))),
        "initialize rejected as an expired session"
    );
    assert_eq!(error(initialize_result(&cfg(), header(), Err("e".to_string()))), "e");
    assert_eq!(
        error(initialize_result(&cfg(), header(), message(r#"{"error":{"code":2,"message":"m"}}"#))),
        "NPM MCP error 2: m"
    );
    assert_eq!(
        error(initialize_result(&cfg(), header(), message("{}"))),
        "initialize response had no result"
    );
    assert_eq!(
        error(initialize_result(&cfg(), None, message(r#"{"result":{}}"#))),
        "server sent no Mcp-Session-Id header on initialize — not a Streamable HTTP MCP endpoint?"
    );
    let (session, _) = session_from(&cfg(), header(), &json(r#"{"result":{}}"#)).unwrap();
    assert_eq!(session.protocol_version, "2025-03-26");
    assert_eq!(
        initialized_result(Ok(Reply::Expired)).unwrap_err(),
        "session expired during the initialize handshake"
    );
    assert_eq!(initialized_result(Err("e".to_string())).unwrap_err(), "e");
    assert!(initialized_result(Ok(Reply::Accepted)).is_ok());
    assert!(initialized_result(Ok(Reply::Message(Json::Null))).is_ok());
    let mut client = Client::new("1");
    let (_, state) = initialize_fresh(&mut client, &cfg());
    let step = initialize_reply(&mut client, &cfg(), state, Err("offline".to_string()));
    assert!(matches!(step, Step::Done(Err(e)) if e == "offline"));
    assert!(client.session.is_none());
}

#[test]
fn sessions_belong_to_a_configuration() {
    let mut client = with_session("s1");
    let Ready::Session(session) = ensure_session(&mut client, &cfg()) else {
        panic!("the cached session was not used");
    };
    assert_eq!(session.id, "s1");
    assert_eq!(client.next_id, 1);
    let other = Config { api_key: "other".to_string(), ..cfg() };
    assert!(matches!(ensure_session(&mut client, &other), Ready::Handshake(..)));
    assert_eq!(client.next_id, 2);
    invalidate_session(&mut client);
    assert!(matches!(ensure_session(&mut client, &cfg()), Ready::Handshake(..)));
    // A line feed does not carry a session over to another target and key.
    let pair = |base_url: &str, api_key: &str| Config {
        base_url: base_url.to_string(),
        api_key: api_key.to_string(),
    };
    client.session = Some(McpSession {
        id: "s2".to_string(),
        protocol_version: "v".to_string(),
        fingerprint: pair("a", "b\nc").fingerprint(),
    });
    assert!(matches!(ensure_session(&mut client, &pair("a\nb", "c")), Ready::Handshake(..)));
    assert!(matches!(ensure_session(&mut client, &pair("a", "b\nc")), Ready::Session(_)));
}

#[test]
fn requests_go_out_on_the_session() {
    let mut client = with_session("s1");
    let (call, state) = request(&mut client, &cfg(), "tools/x", json(r#"{"a":1}"#), 77);
    assert_eq!(
        input(&call)["body"],
        r#"{"id":1,"jsonrpc":"2.0","method":"tools/x","params":{"a":1}}"#
    );
    assert_eq!(input(&call)["headers"]["mcp-session-id"], "s1");
    assert_eq!(input(&call)["timeout_secs"], 77);
    let step = request_reply(&mut client, &cfg(), state, Ok(plain(r#"{"id":1,"result":{"b":2}}"#)));
    assert!(matches!(step, Step::Done(Ok(result)) if answer_text(&result) == r#"{"b":2}"#));
}

#[test]
fn request_errors_are_told_apart() {
    let ask = |retried: bool| Ask {
        method: "tools/x".to_string(),
        params: Json::object(),
        timeout_secs: 1,
        retried,
    };
    let mut client = with_session("s1");
    let mut ended = |retried: bool, reply: Result<Reply, String>| {
        match request_decoded(&mut client, &cfg(), ask(retried), reply) {
            Step::Done(result) => result.map(|value| answer_text(&value)),
            Step::Call(..) => panic!("the request goes on"),
        }
    };
    assert_eq!(
        ended(false, Ok(Reply::Accepted)).unwrap_err(),
        "tools/x was accepted but returned no result"
    );
    assert_eq!(
        ended(true, Ok(Reply::Expired)).unwrap_err(),
        "session expired again right after re-initialising"
    );
    assert_eq!(ended(false, Err("e".to_string())).unwrap_err(), "e");
    assert_eq!(
        ended(false, Ok(Reply::Message(json(r#"{"error":{"message":"m","code":1},"result":1}"#)))).unwrap_err(),
        "NPM MCP error 1: m"
    );
    assert_eq!(
        ended(false, Ok(Reply::Message(json("{}")))).unwrap_err(),
        "tools/x response had no result"
    );
    assert_eq!(
        response_result("m", &json(r#"{"result":[1]}"#)).map(|v| answer_text(&v)).unwrap(),
        "[1]"
    );
}

#[test]
fn forgotten_sessions_are_replaced() {
    let mut client = with_session("old");
    let (_, state) = request(&mut client, &cfg(), "tools/x", json(r#"{"a":1}"#), 9);
    let step = |client: &mut Client, state: Request, reply: Json| {
        match request_reply(client, &cfg(), state, Ok(reply)) {
            Step::Call(call, state) => (call, state),
            Step::Done(_) => panic!("the request ended early"),
        }
    };
    let (call, state) = step(&mut client, state, expired());
    assert_eq!(body(&call)["method"], "initialize");
    assert!(client.session.is_none());
    let (call, state) = step(&mut client, state, welcome("new", 2));
    assert_eq!(body(&call)["method"], "notifications/initialized");
    let (call, state) = step(&mut client, state, accepted());
    assert_eq!(body(&call)["method"], "tools/x");
    assert_eq!(body(&call)["params"]["a"], 1);
    assert_eq!(body(&call)["id"], 3);
    assert_eq!(input(&call)["headers"]["mcp-session-id"], "new");
    let stream = exchange(200, None, "text/event-stream", "data: {\"id\":3,\"result\":\"fine\"}\n\n");
    let end = request_reply(&mut client, &cfg(), state, Ok(stream));
    assert!(matches!(end, Step::Done(Ok(v)) if v.as_str() == Some("fine")));
    assert_eq!(client.session.as_ref().unwrap().id, "new");
}

#[test]
fn requests_give_up_after_six_calls() {
    let mut client = Client::new("1");
    let (_, state) = request(&mut client, &cfg(), "tools/x", Json::object(), 9);
    let replies = vec![
        welcome("a", 1),
        accepted(),
        expired(),
        welcome("b", 3),
        accepted(),
        expired(),
    ];
    let mut calls = 1;
    let mut state = Some(state);
    let mut end = None;
    for reply in replies {
        match request_reply(&mut client, &cfg(), state.take().unwrap(), Ok(reply)) {
            Step::Call(_, next) => {
                calls += 1;
                state = Some(next);
            }
            Step::Done(result) => end = Some(result),
        }
    }
    assert_eq!(calls, 6);
    assert_eq!(
        end.unwrap().unwrap_err(),
        "session expired again right after re-initialising"
    );
}

#[test]
fn listing_follows_the_cursors() {
    let mut client = with_session("s1");
    let (call, state) = list_tools(&mut client, &cfg());
    assert_eq!(body(&call)["method"], "tools/list");
    assert_eq!(input(&call)["body"], r#"{"id":1,"jsonrpc":"2.0","method":"tools/list","params":{}}"#);
    assert_eq!(input(&call)["timeout_secs"], 30);
    let page = plain(r#"{"id":1,"result":{"tools":[{"name":"a"},{"name":"b"}],"nextCursor":"p2"}}"#);
    let Step::Call(call, state) = list_tools_reply(&mut client, &cfg(), state, Ok(page)) else {
        panic!("the listing ended early");
    };
    assert_eq!(body(&call)["params"]["cursor"], "p2");
    let page = plain(r#"{"id":2,"result":{"tools":[{"name":"c"}],"nextCursor":""}}"#);
    let Step::Done(Ok(tools)) = list_tools_reply(&mut client, &cfg(), state, Ok(page)) else {
        panic!("the listing failed");
    };
    assert_eq!(answer_text(&Json::array(tools)), r#"[{"name":"a"},{"name":"b"},{"name":"c"}]"#);
}

#[test]
fn pages_without_tools_add_nothing() {
    let mut client = with_session("s1");
    let before = vec![Json::PosInt(1)];
    let Step::Done(Ok(tools)) = list_page_reply(&mut client, &cfg(), before, &json(r#"{"tools":7}"#)) else {
        panic!("the listing goes on");
    };
    assert_eq!(answer_text(&Json::array(tools)), "[1]");
    let step = list_page_reply(&mut client, &cfg(), vec![], &json(r#"{"nextCursor":"x"}"#));
    assert!(matches!(step, Step::Call(..)));
    let (_, state) = list_tools(&mut client, &cfg());
    let step = list_tools_reply(&mut client, &cfg(), state, Err("down".to_string()));
    assert!(matches!(step, Step::Done(Err(e)) if e == "down"));
}

#[test]
fn tools_are_called_by_name() {
    let mut client = with_session("s1");
    let (call, _) = call_tool(&mut client, &cfg(), "npm_x", json(r#"{"id":4}"#));
    assert_eq!(
        input(&call)["body"],
        r#"{"id":1,"jsonrpc":"2.0","method":"tools/call","params":{"arguments":{"id":4},"name":"npm_x"}}"#
    );
    assert_eq!(input(&call)["timeout_secs"], 90);
}

#[test]
fn shutting_down_deletes_the_session() {
    let mut client = with_session("s1");
    let call = shutdown_session(&mut client, Some(&cfg())).unwrap();
    assert_eq!(input(&call)["method"], "DELETE");
    assert_eq!(input(&call)["headers"]["mcp-session-id"], "s1");
    assert!(client.session.is_none());
    assert!(shutdown_session(&mut client, Some(&cfg())).is_none());
    let mut client = with_session("s1");
    assert!(shutdown_session(&mut client, None).is_none());
    assert!(client.session.is_none());
}
