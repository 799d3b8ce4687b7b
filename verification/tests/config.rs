use peckboard_nginx_manager_plugin::config::{
    config_from, endpoint_from, get_setting, load, load_reply, mask_key, set_setting,
    setting_value, Config, NOT_CONFIGURED,
};
use peckboard_nginx_manager_plugin::host::{parse_envelope, HostFn, Step};
use peckboard_nginx_manager_plugin::json::Json;

fn json(text: &str) -> Json {
    parse_envelope(text).unwrap()
}

fn config(base_url: &str, api_key: &str) -> Config {
    Config { base_url: base_url.to_string(), api_key: api_key.to_string() }
}

#[test]
fn endpoint_normalisation() {
    assert_eq!(
        endpoint_from("http://npm.local:81"),
        "http://npm.local:81/api/mcp"
    );
    assert_eq!(
        endpoint_from("http://npm.local:81/"),
        "http://npm.local:81/api/mcp"
    );
    assert_eq!(
        endpoint_from("http://npm.local:81/api/mcp"),
        "http://npm.local:81/api/mcp"
    );
    assert_eq!(
        endpoint_from("  https://proxy.example.com/api/mcp/  "),
        "https://proxy.example.com/api/mcp"
    );
}

#[test]
fn key_masking_never_leaks() {
    assert_eq!(mask_key("npm_abc"), "****");
    let masked = mask_key("npm_0123456789abcdef");
    assert!(masked.starts_with("npm_01"), "{masked}");
    assert!(!masked.contains("abcdef"), "{masked}");
}

#[test]
fn masks_of_long_keys_are_exact() {
    assert_eq!(mask_key("npm_0123456789abcdef"), "npm_01…(20 chars)");
    assert_eq!(mask_key("12345678"), "****");
    assert_eq!(mask_key("123456789"), "123456…(9 chars)");
    assert_eq!(mask_key("äöüßéèxyz"), "äöüßéè…(9 chars)");
    assert_eq!(mask_key(""), "****");
    // Keys that agree in their first six characters and their length look the same.
    assert_eq!(mask_key("npm_01AAAA"), mask_key("npm_01BBBB"));
}

#[test]
fn endpoint_of_an_endpoint_is_that_endpoint() {
    for url in ["http://a", " http://a/ ", "", "/", "http://a/api/mcp///", "x /", "\u{3000}h"] {
        let once = endpoint_from(url);
        assert!(once.ends_with("/api/mcp"));
        assert_eq!(endpoint_from(&once), once);
    }
    assert_eq!(endpoint_from(""), "/api/mcp");
    assert_eq!(endpoint_from("http://a"), endpoint_from("http://a/"));
}

#[test]
fn configurations_have_an_identity() {
    let a = config("http://a", "key");
    assert_eq!(a.endpoint(), "http://a/api/mcp");
    assert_eq!(a.fingerprint(), "http://a\nkey");
    assert_eq!(a.clone(), a);
    assert_ne!(config("http://b", "key").fingerprint(), a.fingerprint());
    assert_ne!(config("http://a", "yek").fingerprint(), a.fingerprint());
    assert_eq!(config("a\\b", "k").fingerprint(), "a\\b\nk");
    assert_eq!(config("a\\n", "b\nc\\").fingerprint(), "a\\n\nb\nc\\");
    // A line feed inside the URL does not blur where the key starts.
    assert_ne!(config("a\nb", "c").fingerprint(), config("a", "b\nc").fingerprint());
    assert_eq!(config("a\nb\\", "c\n").fingerprint(), "a\\nb\\\\\\kc\\n");
    assert_ne!(config("a\n", "b\\kc").fingerprint(), config("a\n\\kb", "c").fingerprint());
}

#[test]
fn both_settings_are_needed() {
    let some = |s: &str| Some(s.to_string());
    let ready = config_from(some("  http://a  "), some("\tkey\n")).unwrap();
    assert_eq!(ready, config("http://a", "key"));
    for (url, key) in [
        (None, None),
        (some("http://a"), None),
        (None, some("key")),
        (some("   "), some("key")),
        (some("http://a"), some("")),
    ] {
        assert_eq!(config_from(url, key).unwrap_err(), NOT_CONFIGURED);
    }
    assert!(NOT_CONFIGURED.starts_with("nginx-manager is not configured. Set the"));
    assert!(NOT_CONFIGURED.contains("API key in Settings → Plugins"));
    assert!(NOT_CONFIGURED.ends_with("under plugins.nginx-manager.config and restart."));
}

#[test]
fn settings_calls_are_exact() {
    let get = get_setting("base_url");
    assert_eq!(get.which, HostFn::GetPluginSetting);
    assert_eq!(get.input_text(), r#"{"key":"base_url"}"#);
    let set = set_setting("api_key", "a\"b");
    assert_eq!(set.which, HostFn::SetPluginSetting);
    assert_eq!(set.input_text(), r#"{"key":"api_key","value":"a\"b"}"#);
}

#[test]
fn settings_of_other_kinds_keep_their_json_text() {
    assert_eq!(setting_value(&json("{}")), None);
    assert_eq!(setting_value(&json(r#"{"value":null}"#)), None);
    assert_eq!(setting_value(&json(r#"{"value":"x"}"#)), Some("x".to_string()));
    assert_eq!(setting_value(&json(r#"{"value":7}"#)), Some("7".to_string()));
    assert_eq!(
        setting_value(&json(r#"{"value": {"b": 1, "a": [true]}}"#)),
        Some(r#"{"a":[true],"b":1}"#.to_string())
    );
    assert_eq!(setting_value(&json("[1]")), None);
}

#[test]
fn loading_reads_both_settings() {
    let (call, state) = load();
    assert_eq!(call.input_text(), r#"{"key":"base_url"}"#);
    let Step::Call(call, state) = load_reply(state, Ok(json(r#"{"value":" http://a "}"#))) else {
        panic!("loading stopped early");
    };
    assert_eq!(call.input_text(), r#"{"key":"api_key"}"#);
    let Step::Done(Ok(cfg)) = load_reply(state, Ok(json(r#"{"value":"key"}"#))) else {
        panic!("loading failed");
    };
    assert_eq!(cfg, config("http://a", "key"));
}

#[test]
fn loading_stops_at_a_host_error() {
    let (_, state) = load();
    let step = load_reply(state, Err("no store".to_string()));
    assert!(matches!(step, Step::Done(Err(e)) if e == "no store"));
    let (_, state) = load();
    let Step::Call(_, state) = load_reply(state, Ok(json("{}"))) else {
        panic!("loading stopped early");
    };
    let step = load_reply(state, Ok(json(r#"{"value":"key"}"#)));
    assert!(matches!(step, Step::Done(Err(e)) if e == NOT_CONFIGURED));
}
