//! The parameters of text recognition, and what is made of the text.

use vstd::prelude::*;
use crate::json::JsonValue;
use crate::node::params::{flag_at, read_flag, read_text, shape_error, text_at};
use crate::store::entries_view;
use crate::number::is_digit;
use crate::text::chars_of;
use crate::types::node::CoerceError;

verus! {

#[derive(Clone, Debug)]
pub struct OcrParams {
    pub image: String,
    pub digits_only: bool,
}

impl OcrParams {
    /// Reads the parameters from the inputs of a node: `image` must be a string,
    /// `digits_only` a truth value.
    pub fn from_params(params: &Vec<(String, JsonValue)>) -> (r: Result<OcrParams, CoerceError>)
        ensures
            match (
                text_at(entries_view(params@), "image"@),
                flag_at(entries_view(params@), "digits_only"@),
            ) {
                (Some(image), Some(digits_only)) => r matches Ok(p) && p.image@ == image
                    && p.digits_only == digits_only,
                _ => r is Err,
            },
    {
        let image = match read_text(params, "image") {
            Some(v) => v,
            None => {
                return Err(shape_error("image", "expected a string"));
            },
        };
        let digits_only = match read_flag(params, "digits_only") {
            Some(v) => v,
            None => {
                return Err(shape_error("digits_only", "expected a boolean"));
            },
        };
        Ok(OcrParams { image, digits_only })
    }
}

#[derive(Default, Clone)]
pub struct OcrRunner;

/// The digits among the first `j` characters of `s`, in order.
pub open spec fn digits_in(s: Seq<char>, j: nat) -> Seq<char>
    decreases j,
{
    if j == 0 || j > s.len() {
        Seq::empty()
    } else if is_digit(s[j - 1]) {
        digits_in(s, (j - 1) as nat).push(s[j - 1])
    } else {
        digits_in(s, (j - 1) as nat)
    }
}

impl OcrRunner {
    pub fn new() -> Self {
        Self {  }
    }

    /// The digits of a text, in order, and nothing else of it.
    pub fn extract_digits(&self, s: &str) -> (r: String)
        ensures
            r@ == digits_in(s@, s@.len()),
    {
        let chars = chars_of(s);
        let mut r = String::new();
        let mut j: usize = 0;
        while j < chars.len()
            invariant
                j <= chars@.len(),
                chars@ == s@,
                r@ == digits_in(chars@, j as nat),
            decreases chars@.len() - j,
        {
            if '0' <= chars[j] && chars[j] <= '9' {
                r.push(chars[j]);
            }
            j += 1;
        }
        r
    }
}

pub struct OcrRunnerFactory;

impl OcrRunnerFactory {
    pub fn new() -> Self {
        Self {  }
    }
}

} // verus!
