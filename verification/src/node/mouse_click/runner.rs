//! The parameters of a mouse click.

use vstd::prelude::*;
use crate::json::JsonValue;
use crate::node::params::{read_text, shape_error, text_at};
use crate::store::entries_view;
use crate::text::{ascii_lower_seq, matches_ignore_case};
use crate::types::node::CoerceError;

verus! {

#[derive(Clone, Debug)]
pub struct MouseClickParams {
    /// `left` or `right`, in either case.
    pub value: String,
}

/// A button of the mouse.
#[derive(Clone, Copy, Debug, PartialEq, Eq, Structural)]
pub enum MouseButton {
    Left,
    Right,
}

/// The button that a text names.
pub open spec fn button_of(value: Seq<char>) -> Option<MouseButton> {
    if ascii_lower_seq(value) == "left"@ {
        Some(MouseButton::Left)
    } else if ascii_lower_seq(value) == "right"@ {
        Some(MouseButton::Right)
    } else {
        None
    }
}

/// The button that a text names, or the sentence that says that it names none.
pub fn parse_button(value: &str) -> (r: Result<MouseButton, String>)
    ensures
        match button_of(value@) {
            Some(b) => r == Ok::<MouseButton, String>(b),
            None => r matches Err(e) && e@ == "Invalid button value '"@ + value@ + "'"@,
        },
{
    if matches_ignore_case(value, "left") {
        Ok(MouseButton::Left)
    } else if matches_ignore_case(value, "right") {
        Ok(MouseButton::Right)
    } else {
        let mut e = String::new();
        e.push_str("Invalid button value '");
        e.push_str(value);
        e.push_str("'");
        assert(e@ =~= "Invalid button value '"@ + value@ + "'"@);
        Err(e)
    }
}

impl MouseClickParams {
    /// Reads the parameters from the inputs of a node: `value` must be a string.
    pub fn from_params(params: &Vec<(String, JsonValue)>) -> (r: Result<
        MouseClickParams,
        CoerceError,
    >)
        ensures
            match text_at(entries_view(params@), "value"@) {
                Some(v) => r matches Ok(p) && p.value@ == v,
                None => r is Err,
            },
    {
        match read_text(params, "value") {
            Some(value) => Ok(MouseClickParams { value }),
            None => Err(shape_error("value", "expected a string")),
        }
    }
}

#[derive(Default)]
pub struct MouseClickNodeFactory;

impl MouseClickNodeFactory {
    pub fn new() -> Self {
        Self {  }
    }
}

} // verus!
