use peckboard_nginx_manager_plugin::host::parse_envelope;
use peckboard_nginx_manager_plugin::manifest::{manifest, manifest_json, CALL_BUDGET_SECS};
use peckboard_nginx_manager_plugin::mcp_client::{
    CALL_TIMEOUT_SECS, HANDSHAKE_TIMEOUT_SECS, LIST_TIMEOUT_SECS,
};
use peckboard_nginx_manager_plugin::plugin::answer_text;
use serde_json::Value;

fn text() -> String {
    manifest_json("Manage NPM", "1.2.3", "https://example.com/repo")
}

#[test]
fn manifest_is_valid_json_with_required_fields() {
    let m: Value = serde_json::from_str(&text()).unwrap();
    assert!(!m["description"].as_str().unwrap().is_empty());
    assert!(!m["version"].as_str().unwrap().is_empty());
    assert_eq!(m["hooks"], Value::from(vec!["mcp.tool.invoke"]));
    assert_eq!(m["mcp_tools"].as_array().unwrap().len(), 4);
    // Settings the operator edits in Peckboard's UI: URL + secret token,
    // keyed exactly as the configuration reads them.
    let settings = m["settings"].as_array().unwrap();
    assert_eq!(settings.len(), 2);
    assert_eq!(settings[0]["key"], "base_url");
    assert_eq!(settings[0]["type"], "url");
    assert_eq!(settings[0]["required"], true);
    assert_eq!(settings[1]["key"], "api_key");
    assert_eq!(settings[1]["type"], "string");
    assert_eq!(settings[1]["secret"], true);
    assert_eq!(settings[1]["required"], true);
    let perms = m["permissions"].as_array().unwrap();
    assert!(perms.contains(&Value::from("provide_mcp_tools")));
    assert!(perms.contains(&Value::from("http_request")));
    // Tool-name rule enforced by core: [a-z0-9_], ≤64 chars.
    for t in m["mcp_tools"].as_array().unwrap() {
        let name = t["name"].as_str().unwrap();
        assert!(
            name.chars()
                .all(|c| c.is_ascii_lowercase() || c.is_ascii_digit() || c == '_')
                && name.len() <= 64,
            "bad tool name {name}"
        );
    }
}

#[test]
fn manifest_describes_the_package() {
    let m: Value = serde_json::from_str(&text()).unwrap();
    assert_eq!(m["description"], "Manage NPM");
    assert_eq!(m["version"], "1.2.3");
    assert_eq!(m["repository"], "https://example.com/repo");
    assert_eq!(m["call_timeout_secs"], 120);
    assert_eq!(m.as_object().unwrap().len(), 8);
    let tools = m["mcp_tools"].as_array().unwrap();
    let names: Vec<&str> = tools.iter().map(|t| t["name"].as_str().unwrap()).collect();
    assert_eq!(names, vec!["npm_status", "npm_list_tools", "npm_call", "npm_configure"]);
    for t in tools {
        assert_eq!(t["input_schema"]["type"], "object");
        assert_eq!(t["input_schema"]["additionalProperties"], false);
    }
    assert_eq!(tools[1]["input_schema"]["properties"]["names"]["items"]["type"], "string");
    assert_eq!(tools[2]["input_schema"]["required"], Value::from(vec!["name"]));
    assert_eq!(tools[2]["input_schema"]["properties"]["arguments"]["type"], "object");
    assert_eq!(tools[3]["input_schema"]["properties"]["verify"]["type"], "boolean");
    assert_eq!(
        tools[0]["input_schema"].to_string(),
        r#"{"additionalProperties":false,"properties":{},"type":"object"}"#
    );
}

#[test]
fn manifest_text_reads_back() {
    let tree = manifest("d", "v", "r");
    let text = manifest_json("d", "v", "r");
    assert_eq!(answer_text(&tree), text);
    assert_eq!(answer_text(&parse_envelope(&text).unwrap()), text);
}

#[test]
fn requests_fit_the_call_budget() {
    for timeout in [HANDSHAKE_TIMEOUT_SECS, LIST_TIMEOUT_SECS, CALL_TIMEOUT_SECS] {
        assert!(timeout < CALL_BUDGET_SECS);
    }
}
