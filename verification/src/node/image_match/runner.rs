//! How the images of an image match are read.

use vstd::prelude::*;
use crate::text::{ascii_lower_seq, matches_ignore_case};

verus! {

/// How an image is read.
#[derive(Clone, Copy, Debug, PartialEq, Eq, Structural)]
pub enum ImreadMode {
    Grayscale,
    Color,
}

/// How an image is read: in colour where `COLOR` is asked for, in either
/// case, else in shades of grey.
pub fn imread_mode(imread_type: &str) -> (r: ImreadMode)
    ensures
        r == (if ascii_lower_seq(imread_type@) == "color"@ {
            ImreadMode::Color
        } else {
            ImreadMode::Grayscale
        }),
{
    if matches_ignore_case(imread_type, "color") {
        ImreadMode::Color
    } else {
        ImreadMode::Grayscale
    }
}

#[derive(Default)]
pub struct ImageMatchRunnerFactory;

impl ImageMatchRunnerFactory {
    pub fn new() -> Self {
        Self {  }
    }
}

} // verus!
