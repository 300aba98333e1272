use auto_engine::context::{Context, UNIT_SCALE_BITS};
use auto_engine::json::{JsonNumber, JsonValue};
use auto_engine::store::{find_entry, get_entry, put_entry};

#[test]
fn new_context_is_empty() {
    let context = Context::new("/tmp/flow");
    assert_eq!(context.workflow_path(), "/tmp/flow");
    assert_eq!(context.pipeline_path(), "/tmp/flow");
    assert_eq!(context.screen_scale_bits(), UNIT_SCALE_BITS);
    assert_eq!(f64::from_bits(context.screen_scale_bits()), 1.0);
    assert!(context.get_value("anything").is_none());
    assert!(!context.contains_key(""));
    let scaled = context.with_screen_scale(2.0f64.to_bits());
    assert_eq!(f64::from_bits(scaled.screen_scale_bits()), 2.0);
    assert_eq!(scaled.workflow_path(), "/tmp/flow");
}

#[test]
fn later_value_replaces_earlier_one() {
    let mut context = Context::new("");
    context.set_string_value("k", "one");
    context.set_value("other", JsonValue::Bool(true));
    context.set_value("k", JsonValue::Number(JsonNumber::PosInt(2)));
    assert!(matches!(context.get_value("k"), Some(JsonValue::Number(JsonNumber::PosInt(2)))));
    assert!(matches!(context.get_value("other"), Some(JsonValue::Bool(true))));
    assert!(context.contains_key("k"));
    assert!(!context.contains_key("K"));
}

#[test]
fn get_value_parse_reads_tokens_and_plain_keys() {
    let mut context = Context::new("");
    context.set_string_value("a.b", "found");
    context.set_string_value("${odd", "plain");
    let text = |v: Option<JsonValue>| match v {
        Some(JsonValue::String(s)) => Some(s),
        Some(other) => panic!("unexpected value {:?}", other),
        None => None,
    };
    assert_eq!(text(context.get_value_parse("a.b")).as_deref(), Some("found"));
    assert_eq!(text(context.get_value_parse("${a.b}")).as_deref(), Some("found"));
    assert_eq!(text(context.get_value_parse("${a.b:else}")).as_deref(), Some("found"));
    assert_eq!(text(context.get_value_parse("${gone:else}")).as_deref(), Some("else"));
    assert_eq!(text(context.get_value_parse("x ${gone:else} ${a.b}")).as_deref(), Some("else"));
    assert!(context.get_value_parse("${gone}").is_none());
    assert!(context.get_value_parse("${gone:}").is_none());
    assert!(context.get_value_parse("gone").is_none());
    // Without a token the key is looked up as it stands.
    assert_eq!(text(context.get_value_parse("${odd")).as_deref(), Some("plain"));
}

#[test]
fn entry_lists_read_as_maps() {
    let mut entries = vec![
        ("a".to_string(), JsonValue::Null),
        ("b".to_string(), JsonValue::Bool(true)),
        ("a".to_string(), JsonValue::Bool(false)),
    ];
    assert_eq!(find_entry(&entries, "a"), Some(2));
    assert_eq!(find_entry(&entries, "b"), Some(1));
    assert_eq!(find_entry(&entries, "c"), None);
    assert!(matches!(get_entry(&entries, "a"), Some(JsonValue::Bool(false))));
    put_entry(&mut entries, "a", JsonValue::Null);
    put_entry(&mut entries, "c", JsonValue::Bool(true));
    assert_eq!(entries.len(), 4);
    assert!(matches!(get_entry(&entries, "a"), Some(JsonValue::Null)));
    assert!(matches!(get_entry(&entries, "c"), Some(JsonValue::Bool(true))));
}

#[test]
fn json_text_is_compact() {
    let value = JsonValue::Object(vec![
        ("a".to_string(), JsonValue::Array(vec![JsonValue::Null, JsonValue::Bool(true)])),
        ("b".to_string(), JsonValue::Number(JsonNumber::NegInt(i64::MIN))),
        ("c".to_string(), JsonValue::String("tab\there \u{1} é".to_string())),
        ("d".to_string(), JsonValue::Number(JsonNumber::PosInt(0))),
    ]);
    assert_eq!(
        value.to_text(),
        "{\"a\":[null,true],\"b\":-9223372036854775808,\"c\":\"tab\\there \\u0001 é\",\"d\":0}"
    );
    assert_eq!(JsonValue::Array(vec![]).to_text(), "[]");
    assert_eq!(JsonValue::Object(vec![]).to_text(), "{}");
    assert_eq!(JsonValue::string("").to_text(), "\"\"");
    assert_eq!(value.clone().to_text(), value.to_text());
    assert_eq!(value.duplicate().to_text(), value.to_text());
    assert_eq!(JsonValue::string("x").as_str(), Some("x"));
    assert_eq!(JsonValue::Null.as_str(), None);
    assert!(matches!(JsonNumber::from_i64(-1), JsonNumber::NegInt(-1)));
    assert!(matches!(JsonNumber::from_i64(7), JsonNumber::PosInt(7)));
}

#[test]
fn json_text_agrees_with_the_json_codec() {
    let value = JsonValue::Object(vec![
        ("a".to_string(), JsonValue::Array(vec![JsonValue::Null, JsonValue::Bool(true)])),
        ("b".to_string(), JsonValue::Number(JsonNumber::NegInt(-5))),
        ("c".to_string(), JsonValue::String("quote \" slash \\ / tab \t".to_string())),
    ]);
    let parsed: serde_json::Value = serde_json::from_str(&value.to_text()).unwrap();
    assert_eq!(serde_json::to_string(&parsed).unwrap(), value.to_text());
}
