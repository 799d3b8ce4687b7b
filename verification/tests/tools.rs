use peckboard_nginx_manager_plugin::host::{parse_envelope, Step};
use peckboard_nginx_manager_plugin::json::Json;
use peckboard_nginx_manager_plugin::mcp_client::Client;
use peckboard_nginx_manager_plugin::plugin::answer_text;
use peckboard_nginx_manager_plugin::tools::{
    call_tool_tool, catalog, configure_reply, configure_tool, content_text, list_tools_tool,
    status_reply, status_tool, unwrap_content, unwrap_tool_result, ConfigureRun,
};

fn json(text: &str) -> Json {
    parse_envelope(text).unwrap()
}

fn text(r: Result<Json, String>) -> Result<String, String> {
    r.map(|value| answer_text(&value))
}

/// The JSON of one text item, and whether it is an error.
fn text_result(content: &str) -> Json {
    let mut item = Json::object();
    item.set_str("type", "text");
    item.set_str("text", content);
    let mut result = Json::object();
    result.set("content", Json::array(vec![item]));
    result
}

#[test]
fn unwrap_parses_json_text_content() {
    let r = unwrap_tool_result(
        "npm_list_proxy_hosts",
        &text_result("[{\"id\":1,\"domain_names\":[\"a.example.com\"]}]"),
    )
    .unwrap();
    assert_eq!(r.as_array().unwrap()[0].get("id").unwrap().as_u64(), Some(1));
}

#[test]
fn unwrap_wraps_plain_text() {
    let r = unwrap_tool_result("npm_get_setting", &text_result("not json")).unwrap();
    assert_eq!(r.str_at("text"), Some("not json"));
}

#[test]
fn unwrap_surfaces_is_error_as_err() {
    let mut result = text_result("Error: NPM API error: Not Found");
    result.set("isError", Json::Bool(true));
    let e = unwrap_tool_result("npm_delete_proxy_host", &result).unwrap_err();
    assert!(e.contains("Not Found"), "{e}");
}

#[test]
fn unwrap_empty_content_is_ok() {
    let mut result = Json::object();
    result.set("content", Json::array(vec![]));
    let r = unwrap_tool_result("npm_x", &result).unwrap();
    assert_eq!(r.get("ok").unwrap().as_bool(), Some(true));
}

#[test]
fn unwrapping_is_exact() {
    assert_eq!(text(unwrap_tool_result("npm_x", &json("{}"))).unwrap(), r#"{"ok":true}"#);
    assert_eq!(
        text(unwrap_tool_result("npm_x", &json(r#"{"isError":true}"#))).unwrap_err(),
        "npm_x failed with no error detail"
    );
    assert_eq!(
        text(unwrap_tool_result("npm_x", &json(r#"{"isError":"true","content":"t"}"#))).unwrap(),
        r#"{"ok":true}"#
    );
    let mixed = json(r#"{"content":[{"type":"text","text":"[1,"},{"type":"image","text":"x"},{"type":"text"},{"type":"text","text":"2]"}]}"#);
    assert_eq!(content_text(&mixed), "[1,\n2]");
    assert_eq!(text(unwrap_tool_result("npm_x", &mixed)).unwrap(), "[1,2]");
    let parsed = || Ok(Json::PosInt(5));
    let some = || "5".to_string();
    assert_eq!(text(unwrap_content("n", false, some(), parsed())).unwrap(), "5");
    assert_eq!(text(unwrap_content("n", true, some(), parsed())).unwrap_err(), "5");
    assert_eq!(text(unwrap_content("n", false, String::new(), parsed())).unwrap(), r#"{"ok":true}"#);
    assert_eq!(
        text(unwrap_content("n", false, some(), Err("e".to_string()))).unwrap(),
        r#"{"text":"5"}"#
    );
}

#[test]
fn catalogs_are_compact_or_complete() {
    let tools = vec![
        json(r#"{"name":"a","description":"A","inputSchema":{"x":1},"annotations":{"readOnlyHint":true,"destructiveHint":false}}"#),
        json(r#"{"name":"b","annotations":{"readOnlyHint":"yes"}}"#),
        json(r#"{"description":"nameless"}"#),
    ];
    assert_eq!(
        answer_text(&catalog(&tools, &vec![])),
        r#"{"count":3,"note":"pass names:[\"npm_…\"] to get a tool's full input schema before npm_call","tools":[{"description":"A","destructive":false,"name":"a","read_only":true},{"description":null,"name":"b"},{"description":"nameless","name":null}]}"#
    );
    let names = vec!["b".to_string(), "zz".to_string(), "b".to_string()];
    assert_eq!(
        answer_text(&catalog(&tools, &names)),
        r#"{"missing":{"names":["zz"],"note":"not registered for this API key — its scopes may exclude the resource"},"tools":[{"annotations":{"readOnlyHint":"yes"},"name":"b"},{"annotations":{"readOnlyHint":"yes"},"name":"b"}]}"#
    );
    let names = vec!["a".to_string()];
    assert_eq!(
        answer_text(&catalog(&tools, &names)),
        r#"{"tools":[{"annotations":{"destructiveHint":false,"readOnlyHint":true},"description":"A","inputSchema":{"x":1},"name":"a"}]}"#
    );
}

#[test]
fn tools_start_by_reading_the_configuration() {
    let (call, _) = status_tool(Json::Null);
    assert_eq!(call.input_text(), r#"{"key":"base_url"}"#);
    let (call, _) = list_tools_tool(json(r#"{"names":["a",7]}"#));
    assert_eq!(call.input_text(), r#"{"key":"base_url"}"#);
    let Step::Call(call, _) = call_tool_tool(json(r#"{"name":" npm_x "}"#)) else {
        panic!("npm_call ended early");
    };
    assert_eq!(call.input_text(), r#"{"key":"base_url"}"#);
}

#[test]
fn calls_need_a_name_and_object_arguments() {
    for args in ["{}", r#"{"name":"  "}"#, r#"{"name":7}"#, "null"] {
        let step = call_tool_tool(json(args));
        assert!(matches!(step, Step::Done(Err(e)) if e == "'name' is required — an NPM tool name like npm_list_proxy_hosts (discover them with npm_list_tools)"));
    }
    for args in [r#"{"name":"n","arguments":null}"#, r#"{"name":"n","arguments":[]}"#] {
        let step = call_tool_tool(json(args));
        assert!(matches!(step, Step::Done(Err(e)) if e == "'arguments' must be an object matching the tool's input schema"));
    }
}

#[test]
fn status_without_a_configuration_is_a_report() {
    let mut client = Client::new("1");
    let (_, run) = status_tool(Json::Null);
    let Step::Done(Ok(report)) = status_reply(&mut client, run, Err("locked".to_string())) else {
        panic!("npm_status failed");
    };
    assert_eq!(answer_text(&report), r#"{"configured":false,"error":"locked"}"#);
}

#[test]
fn nothing_to_configure_is_an_error() {
    let mut client = Client::new("1");
    for args in ["{}", r#"{"base_url":" ","api_key":""}"#, r#"{"verify":false}"#, "[]"] {
        let step = configure_tool(&mut client, json(args));
        assert!(matches!(step, Step::Done(Err(e)) if e == "nothing to configure — pass base_url and/or api_key (or use npm_status to inspect the current state)"));
    }
    for url in ["ftp://x", "npm.local", "HTTP://x"] {
        let mut args = Json::object();
        args.set_str("base_url", url);
        args.set_str("api_key", "k");
        let step = configure_tool(&mut client, args);
        assert!(matches!(step, Step::Done(Err(e)) if e == "base_url must start with http:// or https://"));
    }
}

fn stored(client: &mut Client, run: ConfigureRun) -> Step<ConfigureRun, Json> {
    configure_reply(client, run, Ok(Json::object()))
}

#[test]
fn configuring_stores_both_values() {
    let mut client = Client::new("1");
    let args = json(r#"{"base_url":" https://npm/ ","api_key":"npm_0123456789","verify":false}"#);
    let Step::Call(call, run) = configure_tool(&mut client, args) else {
        panic!("npm_configure ended early");
    };
    assert_eq!(call.input_text(), r#"{"key":"base_url","value":"https://npm/"}"#);
    let Step::Call(call, run) = stored(&mut client, run) else {
        panic!("npm_configure ended early");
    };
    assert_eq!(call.input_text(), r#"{"key":"api_key","value":"npm_0123456789"}"#);
    let Step::Done(Ok(report)) = stored(&mut client, run) else {
        panic!("npm_configure failed");
    };
    assert_eq!(
        answer_text(&report),
        r#"{"api_key":"npm_01…(14 chars)","base_url":"https://npm/","saved":true}"#
    );
}

#[test]
fn failed_writes_end_configuring() {
    let mut client = Client::new("1");
    let Step::Call(_, run) = configure_tool(&mut client, json(r#"{"api_key":"k"}"#)) else {
        panic!("npm_configure ended early");
    };
    let step = configure_reply(&mut client, run, Err("disk full".to_string()));
    assert!(matches!(step, Step::Done(Err(e)) if e == "disk full"));
    let Step::Call(_, run) = configure_tool(&mut client, json(r#"{"base_url":"http://a"}"#)) else {
        panic!("npm_configure ended early");
    };
    let step = configure_reply(&mut client, run, Err("disk full".to_string()));
    assert!(matches!(step, Step::Done(Err(e)) if e == "disk full"));
}
