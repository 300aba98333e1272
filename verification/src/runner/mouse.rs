//! Moving and clicking the mouse from a pipeline.

use vstd::prelude::*;
use crate::number::{parse_i64, parsed_i64};
use crate::text::chars_of;

verus! {

#[derive(Default)]
pub struct MouseRunner {}

impl MouseRunner {
    pub fn new() -> MouseRunner {
        MouseRunner {  }
    }
}

/// The whole number that a text writes, where it writes one that fits in 64
/// bits.
pub fn convert_to_int(val: &str) -> (r: Option<i64>)
    ensures
        r == parsed_i64(val@),
{
    let chars = chars_of(val);
    parse_i64(&chars)
}

} // verus!
