use auto_engine::context::Context;
use auto_engine::json::{JsonNumber, JsonValue};
use auto_engine::types::conditions::{
    advance, examine, judge, Conditions, Lex, MAX_EXPRESSION_WEIGHT,
};
use auto_engine::variables::{parse_variables, scan_token, try_parse_variables};

fn context() -> Context {
    let mut context = Context::new("");
    context.set_string_value("test", "test_value");
    context.set_string_value("none.a", "a");
    context
}

#[test]
fn test_parse_variables() {
    struct TestCase {
        pub content: String,
        pub expected: String,
    }

    let tests: Vec<TestCase> = vec![
        TestCase { content: "${test:a}".to_string(), expected: "test_value".to_string() },
        TestCase { content: "${none.a}".to_string(), expected: "a".to_string() },
        TestCase { content: "b".to_string(), expected: "b".to_string() },
        TestCase { content: "${image-rec.x:0}".to_string(), expected: "0".to_string() },
        TestCase { content: "${image-rec.x:0} > 2".to_string(), expected: "0 > 2".to_string() },
    ];

    let context = context();

    for t in tests {
        let result = parse_variables(&context, &t.content);
        assert_eq!(t.expected, result);
    }
}

#[test]
fn missing_key_without_default_resolves_to_nothing() {
    let context = context();
    assert_eq!(parse_variables(&context, "a${gone}b"), "ab");
    assert_eq!(parse_variables(&context, "${gone:}"), "");
    assert_eq!(parse_variables(&context, ""), "");
}

#[test]
fn text_that_is_no_token_passes_through() {
    let context = context();
    for text in ["$", "${", "${}", "${:x}", "${test", "${test:abc", "$ {test}", "{test}", "}${"] {
        assert_eq!(parse_variables(&context, text), text, "input {:?}", text);
    }
    // An empty key is no token, but a token may follow it.
    assert_eq!(parse_variables(&context, "${}${test}"), "${}test_value");
    // A key may hold `$` and `{`.
    assert_eq!(parse_variables(&context, "${a${test}"), "");
    assert_eq!(parse_variables(&context, "${a${test:d}x"), "dx");
}

#[test]
fn non_string_values_are_written_as_json() {
    let mut context = Context::new("");
    context.set_value("n", JsonValue::Number(JsonNumber::NegInt(-12)));
    context.set_value("big", JsonValue::Number(JsonNumber::PosInt(u64::MAX)));
    context.set_value("f", JsonValue::Number(JsonNumber::Float("1.5".to_string())));
    context.set_value("t", JsonValue::Bool(true));
    context.set_value("z", JsonValue::Null);
    context.set_value(
        "list",
        JsonValue::Array(vec![
            JsonValue::Number(JsonNumber::PosInt(1)),
            JsonValue::String("a\"b".to_string()),
            JsonValue::Array(vec![]),
        ]),
    );
    context.set_value(
        "obj",
        JsonValue::Object(vec![
            ("k".to_string(), JsonValue::Bool(false)),
            ("line\n".to_string(), JsonValue::Object(vec![])),
        ]),
    );
    context.set_value("quoted", JsonValue::String("say \"hi\"".to_string()));
    assert_eq!(parse_variables(&context, "${n}|${big}|${f}"), "-12|18446744073709551615|1.5");
    assert_eq!(parse_variables(&context, "${t},${z}"), "true,null");
    assert_eq!(parse_variables(&context, "${list}"), "[1,\"a\\\"b\",[]]");
    assert_eq!(parse_variables(&context, "${obj}"), "{\"k\":false,\"line\\n\":{}}");
    // A string is put in as it is, without quotes or escapes.
    assert_eq!(parse_variables(&context, "${quoted}"), "say \"hi\"");
}

#[test]
fn resolving_twice_changes_nothing_once_no_token_is_left() {
    let context = context();
    for text in ["${test:a}", "x ${none.a} y ${gone:z}", "plain", "${gone}"] {
        let once = parse_variables(&context, text);
        let twice = parse_variables(&context, &once);
        assert_eq!(once, twice);
    }
}

#[test]
fn try_resolve_fails_at_the_first_required_key_that_is_missing() {
    let context = context();
    assert_eq!(try_parse_variables(&context, "${test} ${gone:1}").unwrap(), "test_value 1");
    let err = try_parse_variables(&context, "${test} ${gone} ${also.gone}").unwrap_err();
    assert_eq!(err.key, "gone");
    assert_eq!(err.message(), "variable 'gone' is not set");
    assert_eq!(try_parse_variables(&context, "no tokens").unwrap(), "no tokens");
}

#[test]
fn scanner_reports_where_a_token_lies() {
    let chars: Vec<char> = "ab${key:def}c".chars().collect();
    assert!(scan_token(&chars, 0).is_none());
    let span = scan_token(&chars, 2).unwrap();
    assert_eq!((span.key_from, span.key_to, span.end, span.has_default), (4, 7, 12, true));
    let plain: Vec<char> = "${k}".chars().collect();
    let span = scan_token(&plain, 0).unwrap();
    assert_eq!((span.key_from, span.key_to, span.end, span.has_default), (2, 3, 4, false));
    assert!(scan_token(&plain, 4).is_none());
    assert!(scan_token(&plain, 9).is_none());
}

#[test]
fn resolver_agrees_with_the_token_pattern() {
    let pattern = regex::Regex::new(r"\$\{([^}:]+(?:\.[^}:]+)*)(?::([^}]*))?}").unwrap();
    let context = context();
    let samples = [
        "${test}",
        "${test:a}${none.a}",
        "a${b${test}c}d",
        "${:}${}${test",
        "${gone:${test}}",
        "x${a.b.c:d:e}y",
        "${test}${test}${",
        "$${test}}",
        "${a\nb:c}",
        "${é:ü}${test}",
        "}{$}{${none.a:}}",
    ];
    for sample in samples {
        let expected = pattern
            .replace_all(sample, |caps: &regex::Captures| {
                let key = &caps[1];
                let default = caps.get(2).map(|m| m.as_str()).unwrap_or("");
                match context.get_value(key) {
                    Some(JsonValue::String(s)) => s,
                    Some(v) => v.to_text(),
                    None => default.to_string(),
                }
            })
            .into_owned();
        assert_eq!(parse_variables(&context, sample), expected, "input {:?}", sample);
    }
}

fn conditions(exist: Option<&str>, condition: Option<&str>, not_exist: Option<&str>) -> Conditions {
    Conditions {
        exist: exist.map(str::to_string),
        condition: condition.map(str::to_string),
        not_exist: not_exist.map(str::to_string),
    }
}

#[test]
fn test_conditions() {
    let mut context = Context::new("");
    context.set_string_value("image.x", "2");

    // x exists and passes the condition
    let result = conditions(Some("image.x"), Some("${image.x} > 1"), None).check(&context).unwrap();
    assert!(result.pass);
    assert!(result.reason.is_none());

    // y does not exist
    let result = conditions(Some("image.y"), Some("${image.y} > 1"), None).check(&context).unwrap();
    assert!(!result.pass);
    assert_eq!(result.reason.as_deref(), Some("image.y does not exist"));

    // x exists, and must not
    let result = conditions(None, Some("${image.x} > 1"), Some("image.x")).check(&context).unwrap();
    assert!(!result.pass);
    assert_eq!(result.reason.as_deref(), Some("image.x exists"));
}

#[test]
fn condition_branches() {
    let mut context = Context::new("");
    context.set_string_value("n", "3");
    context.set_string_value("name", "ada");
    // No conditions, and conditions that are set but empty, let the node run.
    assert!(Conditions::none().check(&context).unwrap().pass);
    assert!(conditions(Some(""), Some(""), Some("")).check(&context).unwrap().pass);
    // A false expression skips, the reason being the resolved expression.
    let result = conditions(None, Some("${n} > 5"), None).check(&context).unwrap();
    assert!(!result.pass);
    assert_eq!(result.reason.as_deref(), Some("3 > 5"));
    // An unresolved variable skips.
    let result = conditions(None, Some("${gone} > 5"), None).check(&context).unwrap();
    assert!(!result.pass);
    assert_eq!(result.reason.as_deref(), Some("variable 'gone' is not set"));
    // Operators of the expression language.
    for (expression, expected) in [
        ("${n} == 3 && ${n} != 4", true),
        ("${n} < 3 || ${n} <= 3", true),
        ("!(${n} >= 4)", true),
        ("\"${name}\" == \"ada\"", true),
        ("\"${name}\" != \"ada\"", false),
        ("(1 + 2) * 2 > 5 && true", true),
        ("${missing:0} > 0", false),
    ] {
        let result = conditions(None, Some(expression), None).check(&context).unwrap();
        assert_eq!(result.pass, expected, "expression {:?}", expression);
    }
    // A syntactic or a type error is an error.
    for expression in ["1 +", "${n} + 1", "\"a\" > 1", "${n} >", "ada"] {
        let err = conditions(None, Some(expression), None).check(&context).unwrap_err();
        assert!(err.ends_with(" is not boolean"), "expression {:?}: {}", expression, err);
    }
    // `exist` is looked at before `not_exist`, and both before `condition`.
    let result = conditions(Some("gone"), Some("1 +"), Some("n")).check(&context).unwrap();
    assert_eq!(result.reason.as_deref(), Some("gone does not exist"));
    let result = conditions(Some("n"), Some("1 +"), Some("n")).check(&context).unwrap();
    assert_eq!(result.reason.as_deref(), Some("n exists"));
}

#[test]
fn condition_nested_too_deep_is_not_evaluated() {
    let context = Context::new("");
    let deep = format!("{}true", "!".repeat(509));
    assert_eq!(examine(&deep), (false, 513));
    let err = conditions(None, Some(&deep), None).check(&context).unwrap_err();
    assert_eq!(err, "condition is nested too deep to evaluate");
    let fits = format!("{}true", "!".repeat(508));
    assert_eq!(examine(&fits), (false, 512));
    assert!(conditions(None, Some(&fits), None).check(&context).unwrap().pass);
    let calls = format!("{}1 == 1", "f ".repeat(253));
    assert_eq!(examine(&calls), (false, 512));
    assert!(conditions(None, Some(&calls), None).check(&context).is_err());
    let brackets = format!("{}true{}", "(".repeat(254), ")".repeat(254));
    assert_eq!(examine(&brackets), (false, 512));
    assert_eq!(MAX_EXPRESSION_WEIGHT, 512);
    assert!(conditions(None, Some(&brackets), None).check(&context).unwrap().pass);
}

#[test]
fn long_condition_is_evaluated() {
    let context = Context::new("");
    let text = "a".repeat(5000);
    let long = format!("\"{}\" == \"{}\"", text, text);
    assert_eq!(examine(&long), (false, 6));
    assert!(conditions(None, Some(&long), None).check(&context).unwrap().pass);
    let other = format!("\"{}\" == \"{}b\"", text, text);
    let result = conditions(None, Some(&other), None).check(&context).unwrap();
    assert!(!result.pass);
    assert_eq!(result.reason, Some(other));
    let commented = format!("1 == 1 /* {} */", "!".repeat(3000));
    assert!(conditions(None, Some(&commented), None).check(&context).unwrap().pass);
}

#[test]
fn condition_with_a_power_is_not_evaluated() {
    let context = Context::new("");
    for expression in ["2 ^ 2 == 4", "x = 2; x ^= 2; x == 4", "1 == 1 /^ 2"] {
        let err = conditions(None, Some(expression), None).check(&context).unwrap_err();
        assert_eq!(err, "condition uses the operator ^, which is not supported");
    }
    for expression in [
        "\"a^b\" == \"a^b\"",
        "1 == 1 // 2 ^ 2",
        "1 == /* ^ */ 1",
        "\"a\\\"^\" != \"\"",
    ] {
        let result = conditions(None, Some(expression), None).check(&context).unwrap();
        assert!(result.pass, "expression {:?}", expression);
    }
}

#[test]
fn condition_cannot_call_functions() {
    let context = Context::new("");
    for expression in [
        "len(\"abc\") == 3",
        "str::substring(\"\u{e9}\", 1) == \"a\"",
        "shl(1, 64) == 0",
        "math::abs(0 - 9223372036854775807 - 1) > 0",
        "math::sqrt(4) == 2",
    ] {
        let err = conditions(None, Some(expression), None).check(&context).unwrap_err();
        assert!(err.ends_with(" is not boolean"), "expression {:?}: {}", expression, err);
    }
}

#[test]
fn reading_an_expression() {
    assert_eq!(examine(""), (false, 0));
    assert_eq!(examine("a ^ b"), (true, 5));
    assert_eq!(examine("\"^\""), (false, 1));
    assert_eq!(examine("/* ^ */ ^"), (true, 4));
    assert_eq!(examine("// ^\n1"), (false, 3));
    assert_eq!(examine("\"a\\\"^\" == 1"), (false, 6));
    assert_eq!(examine("1 /** ^ **/ ^"), (true, 6));
    assert_eq!(examine("1 / ^"), (true, 5));
    assert!(matches!(advance(Lex::Slash, '*'), Lex::Block));
    assert!(matches!(advance(Lex::Slash, '"'), Lex::Text));
    assert!(matches!(advance(Lex::BlockStar, '*'), Lex::BlockStar));
    assert!(matches!(advance(Lex::Escape, '"'), Lex::Text));
}

#[test]
fn judging_an_evaluation() {
    assert!(judge("1 > 0".to_string(), Ok(true)).unwrap().pass);
    let skipped = judge("1 > 2".to_string(), Ok(false)).unwrap();
    assert!(!skipped.pass);
    assert_eq!(skipped.reason.as_deref(), Some("1 > 2"));
    assert_eq!(judge("x".to_string(), Err("bad".to_string())).unwrap_err(), "bad is not boolean");
}
