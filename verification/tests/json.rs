use peckboard_nginx_manager_plugin::host::{
    host_reply, open_envelope, parse_envelope, HostCall, HostFn,
};
use peckboard_nginx_manager_plugin::json::Json;
use peckboard_nginx_manager_plugin::plugin::answer_text;

fn read(text: &str) -> Json {
    parse_envelope(text).unwrap()
}

#[test]
fn the_last_entry_of_a_key_counts() {
    let mut object = Json::object();
    object.set_str("a", "first");
    object.set_str("b", "other");
    object.set_str("a", "second");
    assert_eq!(object.str_at("a"), Some("second"));
    assert_eq!(object.str_at("b"), Some("other"));
    assert!(object.get("c").is_none());
    assert_eq!(answer_text(&object), r#"{"a":"second","b":"other"}"#);
    let copy = object.clone();
    assert_eq!(answer_text(&copy), answer_text(&object));
}

#[test]
fn only_objects_take_entries() {
    let mut value = Json::array(vec![Json::Null, Json::Bool(true)]);
    value.set("a", Json::Null);
    assert_eq!(answer_text(&value), "[null,true]");
    assert!(value.get("a").is_none());
    assert_eq!(value.as_array().map(|items| items.len()), Some(2));
}

#[test]
fn trees_are_read_by_kind() {
    let v = read(r#"{"s":"x","t":true,"n":7,"m":-7,"big":18446744073709551615,"f":1.5,"a":[1],"z":null}"#);
    assert_eq!(v.get("s").unwrap().as_str(), Some("x"));
    assert_eq!(v.get("s").unwrap().as_bool(), None);
    assert_eq!(v.get("t").unwrap().as_bool(), Some(true));
    assert_eq!(v.get("n").unwrap().as_u64(), Some(7));
    assert_eq!(v.get("n").unwrap().as_i64(), Some(7));
    assert_eq!(v.get("m").unwrap().as_u64(), None);
    assert_eq!(v.get("m").unwrap().as_i64(), Some(-7));
    assert_eq!(v.get("big").unwrap().as_u64(), Some(u64::MAX));
    assert_eq!(v.get("big").unwrap().as_i64(), None);
    assert_eq!(v.get("f").unwrap().as_u64(), None);
    assert_eq!(v.get("f").unwrap().as_i64(), None);
    assert!(matches!(v.get("f").unwrap(), Json::Float(_)));
    assert!(matches!(v.get("z").unwrap(), Json::Null));
    assert_eq!(v.get("a").unwrap().as_array().unwrap().len(), 1);
    assert!(v.get("s").unwrap().as_array().is_none());
    assert_eq!(Json::NegInt(4).as_u64(), Some(4));
    assert_eq!(
        answer_text(&v),
        r#"{"a":[1],"big":18446744073709551615,"f":1.5,"m":-7,"n":7,"s":"x","t":true,"z":null}"#
    );
    assert_eq!(answer_text(&v.clone()), answer_text(&v));
}

#[test]
fn written_text_is_one_line_and_reads_back() {
    let mut v = Json::object();
    v.set_str("k\n\"", "line\r\n\u{1}\u{2028}end ");
    v.set("n", Json::NegInt(i64::MIN));
    v.set("list", Json::array(vec![Json::string(""), Json::PosInt(0), Json::object()]));
    let text = answer_text(&v);
    assert!(text.chars().all(|c| c >= ' '));
    assert_eq!(text.trim(), text);
    let again = read(&text);
    assert_eq!(again.str_at("k\n\""), Some("line\r\n\u{1}\u{2028}end "));
    assert_eq!(answer_text(&again), text);
}

#[test]
fn nesting_up_to_the_limit_reads_back() {
    let mut v = Json::Null;
    for _ in 0..127 {
        v = Json::array(vec![v]);
    }
    let text = answer_text(&v);
    assert_eq!(text, format!("{}null{}", "[".repeat(127), "]".repeat(127)));
    assert_eq!(answer_text(&read(&text)), text);
    let deeper = answer_text(&Json::array(vec![v]));
    assert!(parse_envelope(&deeper).is_err());
}

#[test]
fn envelopes_turn_into_errors() {
    assert_eq!(parse_envelope(r#"{"error":"denied"}"#).unwrap_err(), "denied");
    assert!(parse_envelope(r#"{"error":{"code":1}}"#).is_ok());
    assert!(parse_envelope(r#"{"value":"error"}"#).is_ok());
    let e = parse_envelope("{").unwrap_err();
    assert!(e.starts_with("host returned invalid json: EOF while parsing"), "{e}");
    assert_eq!(
        open_envelope(Err("odd".to_string())).unwrap_err(),
        "host returned invalid json: odd"
    );
    assert!(matches!(open_envelope(Ok(Json::Null)), Ok(Json::Null)));
    assert_eq!(host_reply(Err("trap".to_string())).unwrap_err(), "trap");
    assert_eq!(host_reply(Ok(r#"{"error":"no"}"#.to_string())).unwrap_err(), "no");
    assert_eq!(host_reply(Ok("[true]".to_string())).unwrap().as_array().unwrap().len(), 1);
}

#[test]
fn host_calls_are_json_text() {
    let mut input = Json::object();
    input.set("b", Json::Bool(false));
    input.set_str("a", "…");
    let call = HostCall { which: HostFn::HttpRequest, input };
    assert_eq!(call.input_text(), r#"{"a":"…","b":false}"#);
}
