//! The parameters of a mouse move.

use vstd::prelude::*;
use crate::json::JsonValue;
use crate::node::params::{read_i64, read_text, shape_error, text_at, whole_at};
use crate::store::entries_view;
use crate::text::str_eq;
use crate::types::node::CoerceError;

verus! {

#[derive(Clone, Debug)]
pub struct MouseMoveParams {
    pub x: i32,
    pub y: i32,
    /// The scale of the screen: `100%`, `200%` or `400%`.
    pub hidpi: String,
}

/// By how much a coordinate is divided on a screen of the given scale.
pub open spec fn divisor_of(hidpi: Seq<char>) -> int {
    if hidpi == "200%"@ {
        2
    } else if hidpi == "400%"@ {
        4
    } else {
        1
    }
}

/// `a` divided by `d`, rounded towards zero.
pub open spec fn truncated_quotient(a: int, d: int) -> int {
    if a >= 0 {
        a / d
    } else {
        -((-a) / d)
    }
}

/// By how much a coordinate is divided on a screen of the given scale.
pub fn scale_divisor(hidpi: &str) -> (d: i32)
    ensures
        d == divisor_of(hidpi@),
{
    if str_eq(hidpi, "200%") {
        2
    } else if str_eq(hidpi, "400%") {
        4
    } else {
        1
    }
}

/// `a` divided by `d`, rounded towards zero.
pub fn divide(a: i32, d: i32) -> (q: i32)
    requires
        d > 0,
    ensures
        q == truncated_quotient(a as int, d as int),
{
    if a >= 0 {
        a / d
    } else {
        let m: i64 = -(a as i64);
        let q: i64 = m / (d as i64);
        assert(q <= m) by (nonlinear_arith)
            requires
                q == m / (d as i64),
                m >= 0,
                d > 0,
        ;
        (-q) as i32
    }
}

impl MouseMoveParams {
    /// Reads the parameters from the inputs of a node: `x` and `y` must be whole
    /// numbers of 32 bits, `hidpi` a string.
    pub fn from_params(params: &Vec<(String, JsonValue)>) -> (r: Result<
        MouseMoveParams,
        CoerceError,
    >)
        ensures
            match (
                whole_at(entries_view(params@), "x"@),
                whole_at(entries_view(params@), "y"@),
                text_at(entries_view(params@), "hidpi"@),
            ) {
                (Some(x), Some(y), Some(hidpi)) => if i32::MIN <= x <= i32::MAX && i32::MIN <= y
                    <= i32::MAX {
                    r matches Ok(p) && p.x == x && p.y == y && p.hidpi@ == hidpi
                } else {
                    r is Err
                },
                _ => r is Err,
            },
    {
        let x = match read_i64(params, "x") {
            Some(v) => v,
            None => {
                return Err(shape_error("x", "expected a whole number"));
            },
        };
        let y = match read_i64(params, "y") {
            Some(v) => v,
            None => {
                return Err(shape_error("y", "expected a whole number"));
            },
        };
        let hidpi = match read_text(params, "hidpi") {
            Some(h) => h,
            None => {
                return Err(shape_error("hidpi", "expected a string"));
            },
        };
        if x < -2147483648 || x > 2147483647 {
            return Err(shape_error("x", "out of range"));
        }
        if y < -2147483648 || y > 2147483647 {
            return Err(shape_error("y", "out of range"));
        }
        Ok(MouseMoveParams { x: x as i32, y: y as i32, hidpi })
    }

    /// Where the mouse is to go: the coordinates divided by the scale of the
    /// screen.
    pub fn target(&self) -> (r: (i32, i32))
        ensures
            r.0 == truncated_quotient(self.x as int, divisor_of(self.hidpi@)),
            r.1 == truncated_quotient(self.y as int, divisor_of(self.hidpi@)),
    {
        let d = scale_divisor(self.hidpi.as_str());
        (divide(self.x, d), divide(self.y, d))
    }
}

#[derive(Default)]
pub struct MouseMoveNodeFactory;

impl MouseMoveNodeFactory {
    pub fn new() -> Self {
        Self {  }
    }
}

} // verus!
