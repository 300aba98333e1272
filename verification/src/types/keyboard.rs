//! Keys of a keyboard and what can be done with them.

use vstd::prelude::*;
use crate::text::str_eq;

verus! {

/// What is done with a key.
#[derive(Clone, Copy, Debug, PartialEq, Eq, Structural)]
pub enum KeyBoardKeyMode {
    /// Pressed and released.
    Click,
    /// A text is typed.
    Type,
    /// Pressed and held.
    Down,
    /// Released.
    Up,
}

impl Default for KeyBoardKeyMode {
    fn default() -> (r: KeyBoardKeyMode)
        ensures
            r == KeyBoardKeyMode::Click,
    {
        KeyBoardKeyMode::Click
    }
}

impl KeyBoardKeyMode {
    /// The mode that a text names: `Type`, `Down` and `Up` by their names,
    /// `Click` for every other text.
    pub open spec fn named(name: Seq<char>) -> KeyBoardKeyMode {
        if name == "Type"@ {
            KeyBoardKeyMode::Type
        } else if name == "Down"@ {
            KeyBoardKeyMode::Down
        } else if name == "Up"@ {
            KeyBoardKeyMode::Up
        } else {
            KeyBoardKeyMode::Click
        }
    }

    /// The mode that a text names.
    pub fn from_name(name: &str) -> (r: KeyBoardKeyMode)
        ensures
            r == KeyBoardKeyMode::named(name@),
    {
        if str_eq(name, "Type") {
            KeyBoardKeyMode::Type
        } else if str_eq(name, "Down") {
            KeyBoardKeyMode::Down
        } else if str_eq(name, "Up") {
            KeyBoardKeyMode::Up
        } else {
            KeyBoardKeyMode::Click
        }
    }

    /// The name of the mode, which names it again.
    pub fn mode_name(&self) -> (r: &'static str)
        ensures
            KeyBoardKeyMode::named(r@) == *self,
    {
        proof {
            reveal_strlit("Type");
            reveal_strlit("Down");
            reveal_strlit("Up");
            reveal_strlit("Click");
            assert("Click"@.len() == 5 && "Type"@.len() == 4 && "Down"@.len() == 4 && "Up"@.len()
                == 2);
            assert("Type"@[0] == 'T' && "Down"@[0] == 'D');
        }
        match self {
            KeyBoardKeyMode::Click => "Click",
            KeyBoardKeyMode::Type => "Type",
            KeyBoardKeyMode::Down => "Down",
            KeyBoardKeyMode::Up => "Up",
        }
    }
}

/// Something that names a key mode.
pub trait ToKeyMode {
    fn to_key_mode(&self) -> KeyBoardKeyMode;
}

/// The parameters of a key action.
#[derive(Clone, Debug)]
pub struct KeyBoardParams {
    pub mode: KeyBoardKeyMode,
    pub key: KeyCode,
    pub value: Option<String>,
}

/// A key.
#[derive(Clone, Copy, Debug, PartialEq, Eq, Structural)]
pub enum KeyCode {
    A,
    B,
    C,
    D,
    E,
    F,
    G,
    H,
    I,
    J,
    K,
    L,
    M,
    N,
    O,
    P,
    Q,
    R,
    S,
    T,
    U,
    V,
    W,
    X,
    Y,
    Z,
    Num0,
    Num1,
    Num2,
    Num3,
    Num4,
    Num5,
    Num6,
    Num7,
    Num8,
    Num9,
    F1,
    F2,
    F3,
    F4,
    F5,
    F6,
    F7,
    F8,
    F9,
    F10,
    F11,
    F12,
    Enter,
    Escape,
    Backspace,
    Tab,
    Space,
    Win,
    Alt,
    Command,
    Option,
    Control,
    Shift,
}

/// Something that names a key.
pub trait ToKeyCode {
    fn to_key_code(&self) -> Option<KeyCode>;
}

/// The key that is written `name`, letter for letter.
pub open spec fn key_code_of(name: Seq<char>) -> Option<KeyCode> {
    if name == "A"@ {
        Some(KeyCode::A)
    } else if name == "B"@ {
        Some(KeyCode::B)
    } else if name == "C"@ {
        Some(KeyCode::C)
    } else if name == "D"@ {
        Some(KeyCode::D)
    } else if name == "E"@ {
        Some(KeyCode::E)
    } else if name == "F"@ {
        Some(KeyCode::F)
    } else if name == "G"@ {
        Some(KeyCode::G)
    } else if name == "H"@ {
        Some(KeyCode::H)
    } else if name == "I"@ {
        Some(KeyCode::I)
    } else if name == "J"@ {
        Some(KeyCode::J)
    } else if name == "K"@ {
        Some(KeyCode::K)
    } else if name == "L"@ {
        Some(KeyCode::L)
    } else if name == "M"@ {
        Some(KeyCode::M)
    } else if name == "N"@ {
        Some(KeyCode::N)
    } else if name == "O"@ {
        Some(KeyCode::O)
    } else if name == "P"@ {
        Some(KeyCode::P)
    } else if name == "Q"@ {
        Some(KeyCode::Q)
    } else if name == "R"@ {
        Some(KeyCode::R)
    } else if name == "S"@ {
        Some(KeyCode::S)
    } else if name == "T"@ {
        Some(KeyCode::T)
    } else if name == "U"@ {
        Some(KeyCode::U)
    } else if name == "V"@ {
        Some(KeyCode::V)
    } else if name == "W"@ {
        Some(KeyCode::W)
    } else if name == "X"@ {
        Some(KeyCode::X)
    } else if name == "Y"@ {
        Some(KeyCode::Y)
    } else if name == "Z"@ {
        Some(KeyCode::Z)
    } else if name == "Num0"@ {
        Some(KeyCode::Num0)
    } else if name == "Num1"@ {
        Some(KeyCode::Num1)
    } else if name == "Num2"@ {
        Some(KeyCode::Num2)
    } else if name == "Num3"@ {
        Some(KeyCode::Num3)
    } else if name == "Num4"@ {
        Some(KeyCode::Num4)
    } else if name == "Num5"@ {
        Some(KeyCode::Num5)
    } else if name == "Num6"@ {
        Some(KeyCode::Num6)
    } else if name == "Num7"@ {
        Some(KeyCode::Num7)
    } else if name == "Num8"@ {
        Some(KeyCode::Num8)
    } else if name == "Num9"@ {
        Some(KeyCode::Num9)
    } else if name == "F1"@ {
        Some(KeyCode::F1)
    } else if name == "F2"@ {
        Some(KeyCode::F2)
    } else if name == "F3"@ {
        Some(KeyCode::F3)
    } else if name == "F4"@ {
        Some(KeyCode::F4)
    } else if name == "F5"@ {
        Some(KeyCode::F5)
    } else if name == "F6"@ {
        Some(KeyCode::F6)
    } else if name == "F7"@ {
        Some(KeyCode::F7)
    } else if name == "F8"@ {
        Some(KeyCode::F8)
    } else if name == "F9"@ {
        Some(KeyCode::F9)
    } else if name == "F10"@ {
        Some(KeyCode::F10)
    } else if name == "F11"@ {
        Some(KeyCode::F11)
    } else if name == "F12"@ {
        Some(KeyCode::F12)
    } else if name == "Enter"@ {
        Some(KeyCode::Enter)
    } else if name == "Escape"@ {
        Some(KeyCode::Escape)
    } else if name == "Backspace"@ {
        Some(KeyCode::Backspace)
    } else if name == "Tab"@ {
        Some(KeyCode::Tab)
    } else if name == "Space"@ {
        Some(KeyCode::Space)
    } else if name == "Win"@ {
        Some(KeyCode::Win)
    } else if name == "Alt"@ {
        Some(KeyCode::Alt)
    } else if name == "Command"@ {
        Some(KeyCode::Command)
    } else if name == "Option"@ {
        Some(KeyCode::Option)
    } else if name == "Control"@ {
        Some(KeyCode::Control)
    } else if name == "Shift"@ {
        Some(KeyCode::Shift)
    } else {
        None
    }
}

/// What `convert_case` makes of a text in Pascal case: the words of the text,
/// each with a capital first letter and the rest in lower case, run together.
pub uninterp spec fn pascal_case(text: Seq<char>) -> Seq<char>;

/// Calls `Casing::to_case` of `convert_case` with `Case::Pascal`, which splits
/// the text into words and writes them in Pascal case. The result depends on
/// the text alone.
#[verifier::external_body]
fn to_pascal_case(text: &str) -> (r: String)
    ensures
        r@ == pascal_case(text@),
{
    convert_case::Casing::to_case(&text, convert_case::Case::Pascal)
}

/// The key that is written `name`, letter for letter.
pub fn key_code_from_name(name: &str) -> (r: Option<KeyCode>)
    ensures
        r == key_code_of(name@),
{
    if str_eq(name, "A") {
        Some(KeyCode::A)
    } else if str_eq(name, "B") {
        Some(KeyCode::B)
    } else if str_eq(name, "C") {
        Some(KeyCode::C)
    } else if str_eq(name, "D") {
        Some(KeyCode::D)
    } else if str_eq(name, "E") {
        Some(KeyCode::E)
    } else if str_eq(name, "F") {
        Some(KeyCode::F)
    } else if str_eq(name, "G") {
        Some(KeyCode::G)
    } else if str_eq(name, "H") {
        Some(KeyCode::H)
    } else if str_eq(name, "I") {
        Some(KeyCode::I)
    } else if str_eq(name, "J") {
        Some(KeyCode::J)
    } else if str_eq(name, "K") {
        Some(KeyCode::K)
    } else if str_eq(name, "L") {
        Some(KeyCode::L)
    } else if str_eq(name, "M") {
        Some(KeyCode::M)
    } else if str_eq(name, "N") {
        Some(KeyCode::N)
    } else if str_eq(name, "O") {
        Some(KeyCode::O)
    } else if str_eq(name, "P") {
        Some(KeyCode::P)
    } else if str_eq(name, "Q") {
        Some(KeyCode::Q)
    } else if str_eq(name, "R") {
        Some(KeyCode::R)
    } else if str_eq(name, "S") {
        Some(KeyCode::S)
    } else if str_eq(name, "T") {
        Some(KeyCode::T)
    } else if str_eq(name, "U") {
        Some(KeyCode::U)
    } else if str_eq(name, "V") {
        Some(KeyCode::V)
    } else if str_eq(name, "W") {
        Some(KeyCode::W)
    } else if str_eq(name, "X") {
        Some(KeyCode::X)
    } else if str_eq(name, "Y") {
        Some(KeyCode::Y)
    } else if str_eq(name, "Z") {
        Some(KeyCode::Z)
    } else if str_eq(name, "Num0") {
        Some(KeyCode::Num0)
    } else if str_eq(name, "Num1") {
        Some(KeyCode::Num1)
    } else if str_eq(name, "Num2") {
        Some(KeyCode::Num2)
    } else if str_eq(name, "Num3") {
        Some(KeyCode::Num3)
    } else if str_eq(name, "Num4") {
        Some(KeyCode::Num4)
    } else if str_eq(name, "Num5") {
        Some(KeyCode::Num5)
    } else if str_eq(name, "Num6") {
        Some(KeyCode::Num6)
    } else if str_eq(name, "Num7") {
        Some(KeyCode::Num7)
    } else if str_eq(name, "Num8") {
        Some(KeyCode::Num8)
    } else if str_eq(name, "Num9") {
        Some(KeyCode::Num9)
    } else if str_eq(name, "F1") {
        Some(KeyCode::F1)
    } else if str_eq(name, "F2") {
        Some(KeyCode::F2)
    } else if str_eq(name, "F3") {
        Some(KeyCode::F3)
    } else if str_eq(name, "F4") {
        Some(KeyCode::F4)
    } else if str_eq(name, "F5") {
        Some(KeyCode::F5)
    } else if str_eq(name, "F6") {
        Some(KeyCode::F6)
    } else if str_eq(name, "F7") {
        Some(KeyCode::F7)
    } else if str_eq(name, "F8") {
        Some(KeyCode::F8)
    } else if str_eq(name, "F9") {
        Some(KeyCode::F9)
    } else if str_eq(name, "F10") {
        Some(KeyCode::F10)
    } else if str_eq(name, "F11") {
        Some(KeyCode::F11)
    } else if str_eq(name, "F12") {
        Some(KeyCode::F12)
    } else if str_eq(name, "Enter") {
        Some(KeyCode::Enter)
    } else if str_eq(name, "Escape") {
        Some(KeyCode::Escape)
    } else if str_eq(name, "Backspace") {
        Some(KeyCode::Backspace)
    } else if str_eq(name, "Tab") {
        Some(KeyCode::Tab)
    } else if str_eq(name, "Space") {
        Some(KeyCode::Space)
    } else if str_eq(name, "Win") {
        Some(KeyCode::Win)
    } else if str_eq(name, "Alt") {
        Some(KeyCode::Alt)
    } else if str_eq(name, "Command") {
        Some(KeyCode::Command)
    } else if str_eq(name, "Option") {
        Some(KeyCode::Option)
    } else if str_eq(name, "Control") {
        Some(KeyCode::Control)
    } else if str_eq(name, "Shift") {
        Some(KeyCode::Shift)
    } else {
        None
    }
}

impl KeyCode {
    /// The name of the key.
    pub fn name(&self) -> (r: &'static str)
        ensures
            r@ == match self {
            KeyCode::A => "A"@,
            KeyCode::B => "B"@,
            KeyCode::C => "C"@,
            KeyCode::D => "D"@,
            KeyCode::E => "E"@,
            KeyCode::F => "F"@,
            KeyCode::G => "G"@,
            KeyCode::H => "H"@,
            KeyCode::I => "I"@,
            KeyCode::J => "J"@,
            KeyCode::K => "K"@,
            KeyCode::L => "L"@,
            KeyCode::M => "M"@,
            KeyCode::N => "N"@,
            KeyCode::O => "O"@,
            KeyCode::P => "P"@,
            KeyCode::Q => "Q"@,
            KeyCode::R => "R"@,
            KeyCode::S => "S"@,
            KeyCode::T => "T"@,
            KeyCode::U => "U"@,
            KeyCode::V => "V"@,
            KeyCode::W => "W"@,
            KeyCode::X => "X"@,
            KeyCode::Y => "Y"@,
            KeyCode::Z => "Z"@,
            KeyCode::Num0 => "Num0"@,
            KeyCode::Num1 => "Num1"@,
            KeyCode::Num2 => "Num2"@,
            KeyCode::Num3 => "Num3"@,
            KeyCode::Num4 => "Num4"@,
            KeyCode::Num5 => "Num5"@,
            KeyCode::Num6 => "Num6"@,
            KeyCode::Num7 => "Num7"@,
            KeyCode::Num8 => "Num8"@,
            KeyCode::Num9 => "Num9"@,
            KeyCode::F1 => "F1"@,
            KeyCode::F2 => "F2"@,
            KeyCode::F3 => "F3"@,
            KeyCode::F4 => "F4"@,
            KeyCode::F5 => "F5"@,
            KeyCode::F6 => "F6"@,
            KeyCode::F7 => "F7"@,
            KeyCode::F8 => "F8"@,
            KeyCode::F9 => "F9"@,
            KeyCode::F10 => "F10"@,
            KeyCode::F11 => "F11"@,
            KeyCode::F12 => "F12"@,
            KeyCode::Enter => "Enter"@,
            KeyCode::Escape => "Escape"@,
            KeyCode::Backspace => "Backspace"@,
            KeyCode::Tab => "Tab"@,
            KeyCode::Space => "Space"@,
            KeyCode::Win => "Win"@,
            KeyCode::Alt => "Alt"@,
            KeyCode::Command => "Command"@,
            KeyCode::Option => "Option"@,
            KeyCode::Control => "Control"@,
            KeyCode::Shift => "Shift"@,
            },
    {
        match self {
            KeyCode::A => "A",
            KeyCode::B => "B",
            KeyCode::C => "C",
            KeyCode::D => "D",
            KeyCode::E => "E",
            KeyCode::F => "F",
            KeyCode::G => "G",
            KeyCode::H => "H",
            KeyCode::I => "I",
            KeyCode::J => "J",
            KeyCode::K => "K",
            KeyCode::L => "L",
            KeyCode::M => "M",
            KeyCode::N => "N",
            KeyCode::O => "O",
            KeyCode::P => "P",
            KeyCode::Q => "Q",
            KeyCode::R => "R",
            KeyCode::S => "S",
            KeyCode::T => "T",
            KeyCode::U => "U",
            KeyCode::V => "V",
            KeyCode::W => "W",
            KeyCode::X => "X",
            KeyCode::Y => "Y",
            KeyCode::Z => "Z",
            KeyCode::Num0 => "Num0",
            KeyCode::Num1 => "Num1",
            KeyCode::Num2 => "Num2",
            KeyCode::Num3 => "Num3",
            KeyCode::Num4 => "Num4",
            KeyCode::Num5 => "Num5",
            KeyCode::Num6 => "Num6",
            KeyCode::Num7 => "Num7",
            KeyCode::Num8 => "Num8",
            KeyCode::Num9 => "Num9",
            KeyCode::F1 => "F1",
            KeyCode::F2 => "F2",
            KeyCode::F3 => "F3",
            KeyCode::F4 => "F4",
            KeyCode::F5 => "F5",
            KeyCode::F6 => "F6",
            KeyCode::F7 => "F7",
            KeyCode::F8 => "F8",
            KeyCode::F9 => "F9",
            KeyCode::F10 => "F10",
            KeyCode::F11 => "F11",
            KeyCode::F12 => "F12",
            KeyCode::Enter => "Enter",
            KeyCode::Escape => "Escape",
            KeyCode::Backspace => "Backspace",
            KeyCode::Tab => "Tab",
            KeyCode::Space => "Space",
            KeyCode::Win => "Win",
            KeyCode::Alt => "Alt",
            KeyCode::Command => "Command",
            KeyCode::Option => "Option",
            KeyCode::Control => "Control",
            KeyCode::Shift => "Shift",
        }
    }
}

impl ToKeyCode for String {
    /// The key that the text names once it is brought into Pascal case, so
    /// that `command`, `COMMAND` and `Command` all name the same key.
    fn to_key_code(&self) -> (r: Option<KeyCode>)
        ensures
            r == key_code_of(pascal_case(self@)),
    {
        let pascal = to_pascal_case(self.as_str());
        key_code_from_name(pascal.as_str())
    }
}

} // verus!
