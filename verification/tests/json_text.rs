use auto_engine::json::{hex_digit, quote, JsonValue};

#[test]
fn quoting_agrees_with_serde_json() {
    for s in [
        "",
        "plain",
        "say \"hi\"",
        "back\\slash",
        "line\nfeed\r\ttab",
        "\u{8}\u{c}",
        "\u{0}\u{1}\u{1f}\u{7f}",
        "\u{e9} \u{fc} \u{6f22}\u{5b57} \u{1f600}",
        "/solidus",
        "\u{2028}\u{2029}",
    ] {
        assert_eq!(quote(s), serde_json::to_string(s).unwrap(), "text {:?}", s);
    }
    for code in 0u32..0x300 {
        let s = format!("a{}b", char::from_u32(code).unwrap());
        assert_eq!(quote(&s), serde_json::to_string(&s).unwrap(), "code {}", code);
    }
}

#[test]
fn quoting_a_string() {
    assert_eq!(quote(""), "\"\"");
    assert_eq!(quote("a\"b"), "\"a\\\"b\"");
    assert_eq!(quote("a\\b"), "\"a\\\\b\"");
    assert_eq!(quote("\u{8}\u{c}\n\r\t"), "\"\\b\\f\\n\\r\\t\"");
    assert_eq!(quote("a\u{1b}"), "\"a\\u001b\"");
    assert_eq!(quote("\u{0}\u{f}\u{10}\u{1f}"), "\"\\u0000\\u000f\\u0010\\u001f\"");
    assert_eq!(quote("\u{7f} /"), "\"\u{7f} /\"");
    assert_eq!(hex_digit(0), '0');
    assert_eq!(hex_digit(9), '9');
    assert_eq!(hex_digit(10), 'a');
    assert_eq!(hex_digit(15), 'f');
    assert_eq!(JsonValue::string("tab\there").to_text(), "\"tab\\there\"");
}
