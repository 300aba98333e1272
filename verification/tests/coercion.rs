use auto_engine::context::Context;
use auto_engine::json::{JsonNumber, JsonValue};
use auto_engine::number::{float_kind, parse_i64, FloatSyntax};
use auto_engine::store::get_entry;
use auto_engine::types::field::{FieldType, SchemaField};
use auto_engine::types::node::{coerce_inputs, coerce_text, make_output_key, CoerceError};

fn field(name: &str, kind: FieldType) -> SchemaField {
    SchemaField::new(name, kind)
}

fn chars(s: &str) -> Vec<char> {
    s.chars().collect()
}

#[test]
fn strings_images_and_files_stay_text() {
    for kind in [FieldType::String, FieldType::Image, FieldType::File] {
        let value = coerce_text(&field("f", kind), "12".to_string()).unwrap();
        assert!(matches!(value, JsonValue::String(ref s) if s == "12"));
    }
}

#[test]
fn numbers_are_whole_where_they_can_be() {
    let number = |text: &str| coerce_text(&field("n", FieldType::Number), text.to_string());
    assert!(matches!(number("42"), Ok(JsonValue::Number(JsonNumber::PosInt(42)))));
    assert!(matches!(number("+42"), Ok(JsonValue::Number(JsonNumber::PosInt(42)))));
    assert!(matches!(number("-42"), Ok(JsonValue::Number(JsonNumber::NegInt(-42)))));
    assert!(matches!(number("007"), Ok(JsonValue::Number(JsonNumber::PosInt(7)))));
    assert!(matches!(
        number("-9223372036854775808"),
        Ok(JsonValue::Number(JsonNumber::NegInt(i64::MIN)))
    ));
    assert!(matches!(
        number("9223372036854775807"),
        Ok(JsonValue::Number(JsonNumber::PosInt(9223372036854775807)))
    ));
    // Too large for a whole number of 64 bits: a decimal number.
    assert!(matches!(
        number("9223372036854775808"),
        Ok(JsonValue::Number(JsonNumber::Float(ref t))) if t == "9223372036854775808"
    ));
    assert!(matches!(number("1.5"), Ok(JsonValue::Number(JsonNumber::Float(ref t))) if t == "1.5"));
    assert!(matches!(number("-2e-3"), Ok(JsonValue::Number(JsonNumber::Float(ref t))) if t == "-2e-3"));
    assert!(matches!(number("inf"), Ok(JsonValue::Null)));
    assert!(matches!(number("-NaN"), Ok(JsonValue::Null)));
    for bad in ["", "abc", "1.2.3", "1,5", " 1", "0x10", "+", "e5", "--1"] {
        match number(bad) {
            Err(e @ CoerceError::UnparsableNumber(..)) => assert_eq!(
                e.message(FieldType::Number),
                format!("Field 'n' cannot be parsed as a number: {}", bad)
            ),
            other => panic!("input {:?} gave {:?}", bad, other),
        }
    }
}

#[test]
fn whole_numbers_parse_as_the_standard_library_parses_them() {
    for text in [
        "0", "-0", "+0", "1", "-1", "123456789", "9223372036854775807", "9223372036854775808",
        "-9223372036854775808", "-9223372036854775809", "99999999999999999999999", "", "+", "-",
        "1_000", "1 ", "٣", "+-1", "0000000000000000000000000000001",
    ] {
        assert_eq!(parse_i64(&chars(text)), text.parse::<i64>().ok(), "input {:?}", text);
    }
}

#[test]
fn decimal_numbers_are_recognised_as_the_standard_library_parses_them() {
    for text in [
        "1", "1.", ".5", "1.5", "+1.5", "-1.5", "1e5", "1E5", "1e+5", "1e-5", "1.e5", ".5e5",
        "inf", "-inf", "+Infinity", "NaN", "nan", "infinit", ".", "", "e5", "1e", "1e+", "1.5.5",
        "1 ", " 1", "1f", "0x1", "--1", "+", "1e5.5", "١", "1_0", "in", "+.e1", ".e1",
    ] {
        let expected = text.parse::<f64>().is_ok();
        assert_eq!(float_kind(&chars(text)).is_some(), expected, "input {:?}", text);
    }
    assert_eq!(float_kind(&chars("-Inf")), Some(FloatSyntax::Special));
    assert_eq!(float_kind(&chars("2.5")), Some(FloatSyntax::Number));
}

#[test]
fn booleans_are_read_in_either_case() {
    let truth = |text: &str| coerce_text(&field("b", FieldType::Boolean), text.to_string());
    for yes in ["true", "TRUE", "True", "1"] {
        assert!(matches!(truth(yes), Ok(JsonValue::Bool(true))));
    }
    for no in ["false", "FALSE", "fAlSe", "0"] {
        assert!(matches!(truth(no), Ok(JsonValue::Bool(false))));
    }
    for bad in ["", "yes", "no", "2", " true", "truee"] {
        match truth(bad) {
            Err(e @ CoerceError::UnparsableBoolean(..)) => assert_eq!(
                e.message(FieldType::Boolean),
                format!("Field 'b' cannot be parsed as a boolean: {}", bad)
            ),
            other => panic!("input {:?} gave {:?}", bad, other),
        }
    }
}

#[test]
fn bare_string_is_no_array_and_no_object() {
    let err = coerce_text(&field("a", FieldType::Array), "[1]".to_string()).unwrap_err();
    assert!(matches!(err, CoerceError::NonScalarExpected(..)));
    assert_eq!(err.message(FieldType::Array), "Field 'a' cannot be parsed as an array: [1]");
    let err = coerce_text(&field("o", FieldType::Object), "{}".to_string()).unwrap_err();
    assert_eq!(err.message(FieldType::Object), "Field 'o' cannot be parsed as an object: {}");
    assert_eq!(
        CoerceError::ParamShapeMismatch("x".to_string()).message(FieldType::String),
        "Failed to parse node parameters: x"
    );
}

#[test]
fn inputs_are_coerced_field_by_field() {
    let mut ctx = Context::new("");
    ctx.set_string_value("ctx.a.n", "5");
    let mut with_default = field("greeting", FieldType::String);
    with_default.default = Some("hi ${ctx.a.n}".to_string());
    let schema = vec![
        field("count", FieldType::Number),
        field("flag", FieldType::Boolean),
        with_default,
        field("missing", FieldType::Number),
        field("list", FieldType::Array),
        field("keep", FieldType::Number),
    ];
    let raw = vec![
        ("count".to_string(), JsonValue::String("${ctx.a.n}".to_string())),
        ("flag".to_string(), JsonValue::String("TRUE".to_string())),
        ("list".to_string(), JsonValue::Array(vec![JsonValue::String("${ctx.a.n}".to_string())])),
        ("keep".to_string(), JsonValue::Bool(false)),
        ("extra".to_string(), JsonValue::String("${ctx.a.n}".to_string())),
    ];
    let out = coerce_inputs(&ctx, raw, &schema).unwrap();
    assert!(matches!(get_entry(&out, "count"), Some(JsonValue::Number(JsonNumber::PosInt(5)))));
    assert!(matches!(get_entry(&out, "flag"), Some(JsonValue::Bool(true))));
    assert!(matches!(get_entry(&out, "greeting"), Some(JsonValue::String(ref s)) if s == "hi 5"));
    // A field without input and without default is null.
    assert!(matches!(get_entry(&out, "missing"), Some(JsonValue::Null)));
    // An array is used as it is; the strings in it are not resolved.
    assert!(matches!(get_entry(&out, "list"), Some(JsonValue::Array(ref items))
        if matches!(&items[0], JsonValue::String(s) if s == "${ctx.a.n}")));
    // A value that is no string is not brought to the type of its field.
    assert!(matches!(get_entry(&out, "keep"), Some(JsonValue::Bool(false))));
    // An input without a field stays as it is.
    assert!(matches!(get_entry(&out, "extra"), Some(JsonValue::String(ref s)) if s == "${ctx.a.n}"));
}

#[test]
fn first_field_that_cannot_be_coerced_is_the_error() {
    let ctx = Context::new("");
    let schema = vec![field("a", FieldType::Boolean), field("b", FieldType::Number)];
    let raw = vec![
        ("a".to_string(), JsonValue::String("maybe".to_string())),
        ("b".to_string(), JsonValue::String("x".to_string())),
    ];
    assert!(matches!(
        coerce_inputs(&ctx, raw, &schema),
        Err(CoerceError::UnparsableBoolean(ref f, ref t)) if f == "a" && t == "maybe"
    ));
}

#[test]
fn output_keys() {
    assert_eq!(make_output_key("node", "x"), "ctx.node.x");
    assert_eq!(make_output_key("", ""), "ctx..");
}
