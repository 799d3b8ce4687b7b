use peckboard_nginx_manager_plugin::host::parse_envelope;
use peckboard_nginx_manager_plugin::json::Json;
use peckboard_nginx_manager_plugin::plugin::answer_text;
use peckboard_nginx_manager_plugin::sse::{choose_response, parse_sse_message, sse_texts};

fn json(text: &str) -> Json {
    parse_envelope(text).unwrap()
}

#[test]
fn sse_single_event_matching_id() {
    let body = "event: message\ndata: {\"jsonrpc\":\"2.0\",\"id\":7,\"result\":{\"ok\":true}}\n\n";
    let msg = parse_sse_message(body, 7).unwrap();
    assert_eq!(msg.get("result").unwrap().get("ok").unwrap().as_bool(), Some(true));
}

#[test]
fn sse_multiline_data_and_crlf() {
    let body = "data: {\"jsonrpc\":\"2.0\",\r\ndata: \"id\":3,\"result\":{\"n\":1}}\r\n\r\n";
    let msg = parse_sse_message(body, 3).unwrap();
    assert_eq!(msg.get("result").unwrap().get("n").unwrap().as_u64(), Some(1));
}

#[test]
fn sse_skips_notifications_and_falls_back() {
    let body = "data: {\"jsonrpc\":\"2.0\",\"method\":\"notifications/progress\"}\n\n".to_string()
        + "data: {\"jsonrpc\":\"2.0\",\"id\":99,\"result\":{\"v\":2}}\n\n";
    // id doesn't match, but the only response message is still returned.
    let msg = parse_sse_message(&body, 1).unwrap();
    assert_eq!(msg.get("result").unwrap().get("v").unwrap().as_u64(), Some(2));
}

#[test]
fn sse_data_lines_make_one_text() {
    assert_eq!(sse_texts("event: x\ndata: a\ndata:b\ndata:  c\nid: 4\n\ndata:\n\n: note\n\n"),
        vec!["a\nb\n c".to_string(), "".to_string()]);
    assert_eq!(sse_texts("data: a\r\n\r\ndata: b"), vec!["a".to_string(), "b".to_string()]);
    assert!(sse_texts("").is_empty());
    assert!(sse_texts("event: data: x\n\n").is_empty());
}

#[test]
fn sse_line_ends_make_no_difference() {
    let body = "event: message\ndata: {\"id\":1,\ndata: \"result\":0}\n\ndata: x\n\n";
    assert_eq!(sse_texts(body), sse_texts(&body.replace('\n', "\r\n")));
    assert_eq!(sse_texts(body), vec!["{\"id\":1,\n\"result\":0}".to_string(), "x".to_string()]);
}

#[test]
fn sse_text_is_read_back() {
    let text = r#"{"id":5,"result":{"text":"a: b, data: c"}}"#;
    let stream = format!("event: message\ndata: {text}\n\n");
    assert_eq!(sse_texts(&stream), vec![text.to_string()]);
    assert_eq!(answer_text(&parse_sse_message(&stream, 5).unwrap()), text);
}

#[test]
fn sse_matching_id_wins_over_later_responses() {
    let body = "data: {\"id\":1,\"result\":\"one\"}\n\n".to_string()
        + "data: {\"id\":2,\"error\":{\"code\":5}}\n\n"
        + "data: {\"id\":3,\"result\":\"three\"}\n\n";
    assert!(parse_sse_message(&body, 2).unwrap().get("error").is_some());
    assert_eq!(parse_sse_message(&body, 1).unwrap().str_at("result"), Some("one"));
    assert_eq!(parse_sse_message(&body, 9).unwrap().str_at("result"), Some("three"));
    assert!(parse_sse_message("data: not json\n\ndata: {\"id\":1}\n\n", 1).is_none());
    assert!(parse_sse_message("", 0).is_none());
}

#[test]
fn responses_are_chosen_from_what_was_read() {
    let messages = vec![
        None,
        Some(json(r#"{"id":7,"method":"ping"}"#)),
        Some(json(r#"{"id":"8","result":"text id"}"#)),
        Some(json(r#"{"id":7,"result":"mine"}"#)),
        Some(json(r#"{"id":9,"result":"last"}"#)),
    ];
    assert_eq!(choose_response(&messages, 7).unwrap().str_at("result"), Some("mine"));
    assert_eq!(choose_response(&messages, 8).unwrap().str_at("result"), Some("last"));
    assert!(choose_response(&vec![None], 7).is_none());
    assert!(choose_response(&vec![], 7).is_none());
}
