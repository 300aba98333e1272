//! From the actions of a QuickInput macro to the stages of a pipeline.

use vstd::prelude::*;
use crate::text::{decimal, push_decimal};
use crate::types::conditions::Conditions;
use crate::types::keyboard::{key_code_of, pascal_case, KeyBoardKeyMode, KeyBoardParams, KeyCode, ToKeyCode};
use crate::types::typs::{MetaData, Node, Stage};

verus! {

/// What an action of a macro is.
#[derive(Clone, Copy, Debug, PartialEq, Eq, Structural)]
pub enum ActionKind {
    Key,
    Delay,
    End,
    Other,
}

/// One action of a macro.
#[derive(Clone, Copy, Debug)]
pub struct Action {
    /// The action is switched off.
    pub dis: bool,
    pub kind: ActionKind,
    /// For a key: `0` released, `1` pressed, `2` clicked.
    pub state: Option<i32>,
    /// For a key: its virtual-key code.
    pub vk: Option<i32>,
    /// For a delay: milliseconds.
    pub ms: Option<u64>,
}

pub struct Converter {
    content: String,
    conditions: Option<Conditions>,
    pub duration: Option<u32>,
}

/// The name of the key with a virtual-key code.
pub open spec fn key_name(vk: i32) -> Option<Seq<char>> {
    if (0x41 <= vk && vk <= 0x5A) || (0x30 <= vk && vk <= 0x39) {
        Some(seq![vk as u8 as char])
    } else if 0x70 <= vk && vk <= 0x7B {
        Some("F"@ + decimal((vk - 0x6F) as nat))
    } else if 0x60 <= vk && vk <= 0x69 {
        Some("Num"@ + decimal((vk - 0x60) as nat))
    } else if vk == 0x0D {
        Some("Enter"@)
    } else if vk == 0x1B {
        Some("Escape"@)
    } else if vk == 0x08 {
        Some("Backspace"@)
    } else if vk == 0x09 {
        Some("Tab"@)
    } else if vk == 0x20 {
        Some("Space"@)
    } else if vk == 0x10 {
        Some("Shift"@)
    } else if vk == 0x11 {
        Some("Control"@)
    } else if vk == 0x12 {
        Some("Alt"@)
    } else if vk == 0x5B || vk == 0x5C {
        Some("Win"@)
    } else {
        None
    }
}

/// The view of a text that may be absent.
pub open spec fn name_view(t: Option<String>) -> Option<Seq<char>> {
    match t {
        Some(s) => Some(s@),
        None => None,
    }
}

/// Converts a Windows-style virtual-key code to the name of its key.
pub fn virtual_key_to_string(vk: i32) -> (r: Option<String>)
    ensures
        name_view(r) == key_name(vk),
{
    let mut s = String::new();
    if (0x41 <= vk && vk <= 0x5A) || (0x30 <= vk && vk <= 0x39) {
        let c = vk as u8 as char;
        s.push(c);
        assert(s@ =~= seq![vk as u8 as char]);
    } else if 0x70 <= vk && vk <= 0x7B {
        s.push_str("F");
        push_decimal(&mut s, (vk - 0x6F) as u64);
        assert(s@ =~= "F"@ + decimal((vk - 0x6F) as nat));
    } else if 0x60 <= vk && vk <= 0x69 {
        s.push_str("Num");
        push_decimal(&mut s, (vk - 0x60) as u64);
        assert(s@ =~= "Num"@ + decimal((vk - 0x60) as nat));
    } else if vk == 0x0D {
        s.push_str("Enter");
        assert(s@ =~= "Enter"@);
    } else if vk == 0x1B {
        s.push_str("Escape");
        assert(s@ =~= "Escape"@);
    } else if vk == 0x08 {
        s.push_str("Backspace");
        assert(s@ =~= "Backspace"@);
    } else if vk == 0x09 {
        s.push_str("Tab");
        assert(s@ =~= "Tab"@);
    } else if vk == 0x20 {
        s.push_str("Space");
        assert(s@ =~= "Space"@);
    } else if vk == 0x10 {
        s.push_str("Shift");
        assert(s@ =~= "Shift"@);
    } else if vk == 0x11 {
        s.push_str("Control");
        assert(s@ =~= "Control"@);
    } else if vk == 0x12 {
        s.push_str("Alt");
        assert(s@ =~= "Alt"@);
    } else if vk == 0x5B || vk == 0x5C {
        s.push_str("Win");
        assert(s@ =~= "Win"@);
    } else {
        return None;
    }
    Some(s)
}

/// The mode that a key state stands for.
pub open spec fn mode_of(state: i32) -> Option<KeyBoardKeyMode> {
    if state == 0 {
        Some(KeyBoardKeyMode::Up)
    } else if state == 1 {
        Some(KeyBoardKeyMode::Down)
    } else if state == 2 {
        Some(KeyBoardKeyMode::Click)
    } else {
        None
    }
}

/// The key that a name stands for; `A` where it stands for none.
pub open spec fn key_or_a(name: Seq<char>) -> KeyCode {
    match key_code_of(pascal_case(name)) {
        Some(code) => code,
        None => KeyCode::A,
    }
}

/// The key action that an action of a macro stands for, with the name of its
/// key: none where the action has no state or no key code, or where its key code
/// or its state is not known.
pub fn parse_action_params(action: &Action) -> (r: Option<(KeyBoardParams, String)>)
    ensures
        match (action.state, action.vk) {
            (Some(state), Some(vk)) => match (key_name(vk), mode_of(state)) {
                (Some(name), Some(mode)) => r matches Some(pair) && pair.1@ == name && pair.0.mode
                    == mode && pair.0.key == key_or_a(name) && pair.0.value is None,
                _ => r is None,
            },
            _ => r is None,
        },
{
    let (state, vk) = match (action.state, action.vk) {
        (Some(state), Some(vk)) => (state, vk),
        _ => {
            return None;
        },
    };
    let key = match virtual_key_to_string(vk) {
        Some(key) => key,
        None => {
            return None;
        },
    };
    let mode = if state == 0 {
        KeyBoardKeyMode::Up
    } else if state == 1 {
        KeyBoardKeyMode::Down
    } else if state == 2 {
        KeyBoardKeyMode::Click
    } else {
        return None;
    };
    let code = match key.to_key_code() {
        Some(code) => code,
        None => KeyCode::A,
    };
    Some((KeyBoardParams { mode, key: code, value: None }, key))
}

/// Whether an action becomes a stage: it is switched on, and is a delay that
/// says how long, or a key action whose key code and state are known.
pub open spec fn yields(action: Action) -> bool {
    !action.dis && match action.kind {
        ActionKind::Delay => action.ms is Some,
        ActionKind::Key => match (action.state, action.vk) {
            (Some(state), Some(vk)) => key_name(vk) is Some && mode_of(state) is Some,
            _ => false,
        },
        _ => false,
    }
}

/// The indices of the actions, among the first `j`, that become a stage.
pub open spec fn kept(actions: Seq<Action>, j: nat) -> Seq<int>
    decreases j,
{
    if j == 0 || j > actions.len() {
        Seq::empty()
    } else if yields(actions[j - 1]) {
        kept(actions, (j - 1) as nat).push(j - 1)
    } else {
        kept(actions, (j - 1) as nat)
    }
}

impl Converter {
    /// `stage` is what action number `index` becomes: nothing where the action
    /// becomes no stage; else one wait or one key action, named by the index,
    /// with the conditions of the converter.
    pub open spec fn becomes(&self, index: int, action: Action, stage: Option<Stage>) -> bool {
        if !yields(action) {
            stage is None
        } else {
            stage is Some && match action.kind {
                ActionKind::Delay => stage->0.is_wait(
                    "wait-"@ + decimal(index as nat),
                    Some(action.ms->0 as u32),
                    self.gate(),
                    Some(0i32),
                ),
                _ => stage->0.is_key(
                    "key-"@ + decimal(index as nat) + "-"@ + key_name(action.vk->0)->0,
                    self.lasting(),
                    self.gate(),
                    mode_of(action.state->0)->0,
                    key_or_a(key_name(action.vk->0)->0),
                ),
            }
        }
    }

    /// The text of the macro.
    pub closed spec fn text(&self) -> Seq<char> {
        self.content@
    }

    /// The conditions that every stage gets.
    pub closed spec fn gate(&self) -> Option<Conditions> {
        self.conditions
    }

    /// How long a key stage lasts, in milliseconds.
    pub closed spec fn lasting(&self) -> Option<u32> {
        self.duration
    }

    /// A converter for the text of a macro. Every stage that it makes asks for
    /// `with_exist` to be there and lasts `with_duration` milliseconds.
    pub fn new(content: String, with_exist: Option<String>, with_duration: Option<u32>) -> (r:
        Converter)
        ensures
            r.text() == content@,
            r.gate() == Some(Conditions { exist: with_exist, condition: None, not_exist: None }),
            r.lasting() == with_duration,
    {
        let conditions = Conditions { exist: with_exist, condition: None, not_exist: None };
        Converter { content, conditions: Some(conditions), duration: with_duration }
    }

    /// The text of the macro.
    pub fn content(&self) -> (r: &str)
        ensures
            r@ == self.text(),
    {
        self.content.as_str()
    }

    fn conditions_copy(&self) -> (r: Option<Conditions>)
        ensures
            r == self.gate(),
    {
        match &self.conditions {
            Some(c) => Some(c.duplicate()),
            None => None,
        }
    }

    /// The stage that action number `index` becomes: a key stage named
    /// `key-<index>-<key>` for a key action that is understood, a wait named
    /// `wait-<index>` for a delay that says how long; none for any other action
    /// and for one that is switched off.
    pub fn convert_action(&self, index: usize, action: &Action) -> (r: Option<Stage>)
        ensures
            self.becomes(index as int, *action, r),
    {
        if action.dis {
            return None;
        }
        match action.kind {
            ActionKind::Key => match parse_action_params(action) {
                Some((params, key)) => {
                    let mut name = String::new();
                    name.push_str("key-");
                    push_decimal(&mut name, index as u64);
                    name.push_str("-");
                    name.push_str(key.as_str());
                    assert(name@ =~= "key-"@ + decimal(index as nat) + "-"@ + key@);
                    let metadata = MetaData {
                        name,
                        duration: self.duration,
                        retry: Some(0),
                        interval: Some(0),
                        conditions: self.conditions_copy(),
                        err_return: None,
                        description: None,
                    };
                    let mut stage: Vec<Node> = Vec::new();
                    stage.push(Node::KeyBoard { metadata, params });
                    Some(Stage { stage })
                },
                None => None,
            },
            ActionKind::Delay => match action.ms {
                Some(ms) => {
                    let mut name = String::new();
                    name.push_str("wait-");
                    push_decimal(&mut name, index as u64);
                    assert(name@ =~= "wait-"@ + decimal(index as nat));
                    let metadata = MetaData {
                        name,
                        duration: Some(#[verifier::truncate] (ms as u32)),
                        conditions: self.conditions_copy(),
                        description: None,
                        retry: Some(0),
                        interval: Some(0),
                        err_return: None,
                    };
                    let mut stage: Vec<Node> = Vec::new();
                    stage.push(Node::TimeWait { metadata });
                    Some(Stage { stage })
                },
                None => None,
            },
            _ => None,
        }
    }

    /// The stages that the actions of a macro become, in their order: one for
    /// each action that becomes a stage.
    pub fn convert_actions(&self, actions: &Vec<Action>) -> (r: Vec<Stage>)
        ensures
            r@.len() == kept(actions@, actions@.len()).len(),
            forall|k: int|
                0 <= k < r@.len() ==> self.becomes(
                    kept(actions@, actions@.len())[k],
                    actions@[kept(actions@, actions@.len())[k]],
                    Some(#[trigger] r@[k]),
                ),
    {
        let mut pipelines: Vec<Stage> = Vec::new();
        let mut index: usize = 0;
        while index < actions.len()
            invariant
                index <= actions@.len(),
                pipelines@.len() == kept(actions@, index as nat).len(),
                forall|k: int|
                    0 <= k < pipelines@.len() ==> self.becomes(
                        kept(actions@, index as nat)[k],
                        actions@[kept(actions@, index as nat)[k]],
                        Some(#[trigger] pipelines@[k]),
                    ),
            decreases actions@.len() - index,
        {
            let ghost before = pipelines@;
            let ghost indices = kept(actions@, index as nat);
            match self.convert_action(index, &actions[index]) {
                Some(stage) => {
                    pipelines.push(stage);
                    proof {
                        assert(kept(actions@, (index + 1) as nat) == indices.push(index as int));
                        assert forall|k: int| 0 <= k < pipelines@.len() implies self.becomes(
                            kept(actions@, (index + 1) as nat)[k],
                            actions@[kept(actions@, (index + 1) as nat)[k]],
                            Some(#[trigger] pipelines@[k]),
                        ) by {
                            if k < before.len() {
                                assert(pipelines@[k] == before[k]);
                            }
                        }
                    }
                },
                None => {
                    assert(kept(actions@, (index + 1) as nat) == indices);
                },
            }
            index += 1;
        }
        pipelines
    }
}

} // verus!
