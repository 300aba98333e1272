//! The parameters of a key action, and what they ask for.

use vstd::prelude::*;
use crate::types::keyboard::{key_code_of, pascal_case, KeyBoardKeyMode, KeyCode, ToKeyCode};

verus! {

#[derive(Clone, Debug)]
pub struct KeyboardParams {
    pub mode: KeyBoardKeyMode,
    pub key: String,
    pub value: Option<String>,
}

/// What a key action does.
#[derive(Clone, Debug)]
pub enum KeyAction {
    /// Types a text.
    Type(String),
    /// Presses, holds or releases a key.
    Key(KeyCode, KeyBoardKeyMode),
}

impl KeyboardParams {
    /// What the parameters ask for: a text to type, where the mode is `Type`
    /// and a text is given; else the key that `key` names, with the mode. An
    /// error where the text is missing or `key` names no key.
    pub fn action(&self) -> (r: Result<KeyAction, String>)
        ensures
            match self.mode {
                KeyBoardKeyMode::Type => match self.value {
                    Some(v) => r matches Ok(KeyAction::Type(t)) && t@ == v@,
                    None => r matches Err(e) && e@ == "mode Type requires `value`"@,
                },
                mode => match key_code_of(pascal_case(self.key@)) {
                    Some(code) => r matches Ok(KeyAction::Key(c, m)) && c == code && m == mode,
                    None => r matches Err(e) && e@ == "Invalid key value '"@ + self.key@ + "'"@,
                },
            },
    {
        match self.mode {
            KeyBoardKeyMode::Type => match &self.value {
                Some(v) => Ok(KeyAction::Type(v.clone())),
                None => Err("mode Type requires `value`".to_owned()),
            },
            mode => match self.key.to_key_code() {
                Some(code) => Ok(KeyAction::Key(code, mode)),
                None => {
                    let mut e = String::new();
                    e.push_str("Invalid key value '");
                    e.push_str(self.key.as_str());
                    e.push_str("'");
                    assert(e@ =~= "Invalid key value '"@ + self.key@ + "'"@);
                    Err(e)
                },
            },
        }
    }
}

} // verus!
