use auto_engine::converter::quickinput::{
    parse_action_params, virtual_key_to_string, Action, ActionKind, Converter,
};
use auto_engine::types::keyboard::{KeyBoardKeyMode, KeyCode};
use auto_engine::types::typs::Node;

#[test]
fn converts_letters() {
    assert_eq!(virtual_key_to_string(0x41).as_deref(), Some("A"));
    assert_eq!(virtual_key_to_string(0x5A).as_deref(), Some("Z"));
}

#[test]
fn converts_digits() {
    assert_eq!(virtual_key_to_string(0x30).as_deref(), Some("0"));
    assert_eq!(virtual_key_to_string(0x39).as_deref(), Some("9"));
}

#[test]
fn converts_function_keys() {
    assert_eq!(virtual_key_to_string(0x70).as_deref(), Some("F1"));
    assert_eq!(virtual_key_to_string(0x7B).as_deref(), Some("F12"));
}

#[test]
fn converts_control_keys() {
    assert_eq!(virtual_key_to_string(0x0D).as_deref(), Some("Enter"));
    assert_eq!(virtual_key_to_string(0x20).as_deref(), Some("Space"));
    assert_eq!(virtual_key_to_string(0x10).as_deref(), Some("Shift"));
}

#[test]
fn converts_numpad_keys() {
    assert_eq!(virtual_key_to_string(0x60).as_deref(), Some("Num0"));
    assert_eq!(virtual_key_to_string(0x69).as_deref(), Some("Num9"));
}

#[test]
fn returns_none_for_unknown_codes() {
    assert_eq!(virtual_key_to_string(0x00), None);
    assert_eq!(virtual_key_to_string(0xFE), None);
}

#[test]
fn converts_remaining_named_keys() {
    assert_eq!(virtual_key_to_string(0x1B).as_deref(), Some("Escape"));
    assert_eq!(virtual_key_to_string(0x08).as_deref(), Some("Backspace"));
    assert_eq!(virtual_key_to_string(0x09).as_deref(), Some("Tab"));
    assert_eq!(virtual_key_to_string(0x11).as_deref(), Some("Control"));
    assert_eq!(virtual_key_to_string(0x12).as_deref(), Some("Alt"));
    assert_eq!(virtual_key_to_string(0x5B).as_deref(), Some("Win"));
    assert_eq!(virtual_key_to_string(0x5C).as_deref(), Some("Win"));
    assert_eq!(virtual_key_to_string(0x75).as_deref(), Some("F6"));
    assert_eq!(virtual_key_to_string(0x65).as_deref(), Some("Num5"));
    assert_eq!(virtual_key_to_string(-1), None);
    assert_eq!(virtual_key_to_string(0x40), None);
    assert_eq!(virtual_key_to_string(0x7C), None);
}

fn key_action(state: Option<i32>, vk: Option<i32>) -> Action {
    Action { dis: false, kind: ActionKind::Key, state, vk, ms: None }
}

#[test]
fn parses_key_actions_by_state() {
    let (params, key) = parse_action_params(&key_action(Some(0), Some(0x41))).unwrap();
    assert_eq!(key, "A");
    assert_eq!(params.mode, KeyBoardKeyMode::Up);
    assert_eq!(params.key, KeyCode::A);
    assert!(params.value.is_none());

    let (params, key) = parse_action_params(&key_action(Some(1), Some(0x0D))).unwrap();
    assert_eq!(key, "Enter");
    assert_eq!(params.mode, KeyBoardKeyMode::Down);
    assert_eq!(params.key, KeyCode::Enter);

    let (params, key) = parse_action_params(&key_action(Some(2), Some(0x70))).unwrap();
    assert_eq!(key, "F1");
    assert_eq!(params.mode, KeyBoardKeyMode::Click);
    assert_eq!(params.key, KeyCode::F1);
}

#[test]
fn key_without_a_key_code_of_its_own_becomes_a() {
    // The digit keys have names that are no key names.
    let (params, key) = parse_action_params(&key_action(Some(2), Some(0x30))).unwrap();
    assert_eq!(key, "0");
    assert_eq!(params.key, KeyCode::A);
}

#[test]
fn rejects_incomplete_or_unknown_actions() {
    assert!(parse_action_params(&key_action(None, Some(0x41))).is_none());
    assert!(parse_action_params(&key_action(Some(1), None)).is_none());
    assert!(parse_action_params(&key_action(Some(3), Some(0x41))).is_none());
    assert!(parse_action_params(&key_action(Some(1), Some(0xFE))).is_none());
}

#[test]
fn converts_actions_to_stages() {
    let converter = Converter::new("{}".to_string(), Some("find.ok".to_string()), Some(50));
    assert_eq!(converter.content(), "{}");
    let actions = vec![
        key_action(Some(1), Some(0x57)),
        Action { dis: false, kind: ActionKind::Delay, state: None, vk: None, ms: Some(120) },
        Action { dis: true, kind: ActionKind::Key, state: Some(1), vk: Some(0x41), ms: None },
        Action { dis: false, kind: ActionKind::Delay, state: None, vk: None, ms: None },
        Action { dis: false, kind: ActionKind::End, state: None, vk: None, ms: None },
        key_action(Some(0), Some(0x57)),
    ];
    let stages = converter.convert_actions(&actions);
    assert_eq!(stages.len(), 3);
    match &stages[0].stage[0] {
        Node::KeyBoard { metadata, params } => {
            assert_eq!(metadata.name, "key-0-W");
            assert_eq!(metadata.duration, Some(50));
            assert_eq!(metadata.retry, Some(0));
            assert_eq!(metadata.interval, Some(0));
            assert_eq!(metadata.conditions.as_ref().unwrap().exist.as_deref(), Some("find.ok"));
            assert_eq!(params.mode, KeyBoardKeyMode::Down);
            assert_eq!(params.key, KeyCode::W);
        }
        other => panic!("unexpected node {:?}", other),
    }
    match &stages[1].stage[0] {
        Node::TimeWait { metadata } => {
            assert_eq!(metadata.name, "wait-1");
            assert_eq!(metadata.duration, Some(120));
        }
        other => panic!("unexpected node {:?}", other),
    }
    match &stages[2].stage[0] {
        Node::KeyBoard { metadata, params } => {
            assert_eq!(metadata.name, "key-5-W");
            assert_eq!(params.mode, KeyBoardKeyMode::Up);
        }
        other => panic!("unexpected node {:?}", other),
    }
}
