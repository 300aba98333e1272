use auto_engine::converter::keymousego::{key_mode, Converter, ConverterFrom, KeyStroke};
use auto_engine::node::keyboard::runner::{KeyAction, KeyboardParams};
use auto_engine::types::keyboard::{key_code_from_name, KeyBoardKeyMode, KeyCode, ToKeyCode};
use auto_engine::types::typs::Node;

#[test]
fn parse_key_case_insensitive() {
    struct Case {
        raw: &'static str,
        expected: Option<KeyCode>,
    }

    let cases = [
        Case { raw: "command", expected: Some(KeyCode::Command) },
        Case { raw: "COMMAND", expected: Some(KeyCode::Command) },
        Case { raw: "Num1", expected: Some(KeyCode::Num1) },
        Case { raw: "f1", expected: Some(KeyCode::F1) },
        Case { raw: "not-a-key", expected: None },
    ];

    for case in cases {
        let parsed = case.raw.to_string().to_key_code();
        let matches = match (&parsed, &case.expected) {
            (Some(got), Some(expected)) => {
                std::mem::discriminant(got) == std::mem::discriminant(expected)
            }
            (None, None) => true,
            _ => false,
        };

        assert!(
            matches,
            "input `{}` parsed to {:?}, expected {:?}",
            case.raw, parsed, case.expected
        );
    }
}

#[test]
fn key_names_are_matched_letter_for_letter() {
    assert_eq!(key_code_from_name("Enter"), Some(KeyCode::Enter));
    assert_eq!(key_code_from_name("enter"), None);
    assert_eq!(key_code_from_name("F12"), Some(KeyCode::F12));
    assert_eq!(key_code_from_name("Num0"), Some(KeyCode::Num0));
    assert_eq!(key_code_from_name(""), None);
    assert_eq!(KeyCode::Shift.name(), "Shift");
    assert_eq!(key_code_from_name(KeyCode::Backspace.name()), Some(KeyCode::Backspace));
}

#[test]
fn keyboard_params_say_what_to_do() {
    let typing = KeyboardParams {
        mode: KeyBoardKeyMode::Type,
        key: String::new(),
        value: Some("hello".to_string()),
    };
    assert!(matches!(typing.action(), Ok(KeyAction::Type(ref t)) if t == "hello"));

    let silent = KeyboardParams { mode: KeyBoardKeyMode::Type, key: "a".to_string(), value: None };
    assert_eq!(silent.action().unwrap_err(), "mode Type requires `value`");

    let press = KeyboardParams { mode: KeyBoardKeyMode::Down, key: "shift".to_string(), value: None };
    assert!(matches!(press.action(), Ok(KeyAction::Key(KeyCode::Shift, KeyBoardKeyMode::Down))));

    let wrong = KeyboardParams { mode: KeyBoardKeyMode::Click, key: "no such".to_string(), value: None };
    assert_eq!(wrong.action().unwrap_err(), "Invalid key value 'no such'");
}

#[test]
fn key_strokes_become_stages() {
    let strokes = vec![
        KeyStroke {
            delay: 5,
            action_type: "key down".to_string(),
            mode: KeyBoardKeyMode::Down,
            key: "W".to_string(),
        },
        KeyStroke {
            delay: 300,
            action_type: "key up".to_string(),
            mode: KeyBoardKeyMode::Up,
            key: "w".to_string(),
        },
    ];
    let converter = Converter::new("script".to_string());
    let stages = converter.convert(ConverterFrom::KeyMouseGo, &strokes).unwrap();
    assert_eq!(stages.len(), 3);
    assert!(matches!(&stages[0].stage[0], Node::KeyBoard { metadata, params }
        if metadata.name == "key down-W-0" && params.key == KeyCode::W && metadata.retry == Some(0)));
    assert!(matches!(&stages[1].stage[0], Node::TimeWait { metadata }
        if metadata.name == "wait-key up-w-1" && metadata.duration == Some(300)));
    assert!(matches!(&stages[2].stage[0], Node::KeyBoard { metadata, params }
        if metadata.name == "key up-w-1" && params.mode == KeyBoardKeyMode::Up));
}

#[test]
fn unknown_key_stops_the_conversion() {
    let strokes = vec![KeyStroke {
        delay: 0,
        action_type: "key down".to_string(),
        mode: KeyBoardKeyMode::Down,
        key: "??".to_string(),
    }];
    let err = Converter::new(String::new()).convert(ConverterFrom::KeyMouseGo, &strokes).unwrap_err();
    assert_eq!(err.key, "??");
}

#[test]
fn key_modes_by_name() {
    assert_eq!(KeyBoardKeyMode::from_name("Type"), KeyBoardKeyMode::Type);
    assert_eq!(KeyBoardKeyMode::from_name("Down"), KeyBoardKeyMode::Down);
    assert_eq!(KeyBoardKeyMode::from_name("Up"), KeyBoardKeyMode::Up);
    assert_eq!(KeyBoardKeyMode::from_name("Click"), KeyBoardKeyMode::Click);
    assert_eq!(KeyBoardKeyMode::from_name("down"), KeyBoardKeyMode::Click);
    assert_eq!(KeyBoardKeyMode::from_name(""), KeyBoardKeyMode::Click);
    for mode in [
        KeyBoardKeyMode::Click,
        KeyBoardKeyMode::Type,
        KeyBoardKeyMode::Down,
        KeyBoardKeyMode::Up,
    ] {
        assert_eq!(KeyBoardKeyMode::from_name(mode.mode_name()), mode);
    }
    assert_eq!(KeyBoardKeyMode::Down.mode_name(), "Down");
    assert_eq!(key_mode("key down"), KeyBoardKeyMode::Down);
    assert_eq!(key_mode("key up"), KeyBoardKeyMode::Up);
    assert_eq!(key_mode("key press"), KeyBoardKeyMode::Click);
    assert_eq!(key_mode(""), KeyBoardKeyMode::Click);
}
