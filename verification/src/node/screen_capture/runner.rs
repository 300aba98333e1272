//! The parameters of a screen capture.

use vstd::prelude::*;
use crate::text::{ascii_lower_seq, matches_ignore_case};

verus! {

#[derive(Clone, Debug)]
pub struct ScreenCaptureParams {
    /// `area` for a part of the screen; anything else for all of it.
    pub mode: String,
    pub file_name: String,
    pub screen_index: usize,
    pub x: Option<i32>,
    pub y: Option<i32>,
    pub width: Option<u32>,
    pub height: Option<u32>,
}

/// A part of the screen.
#[derive(Clone, Copy, Debug, PartialEq, Eq, Structural)]
pub struct Region {
    pub x: i32,
    pub y: i32,
    pub width: u32,
    pub height: u32,
}

#[derive(Default, Clone)]
pub struct ScreenCaptureRunner;

impl ScreenCaptureParams {
    /// Whether a part of the screen is asked for.
    pub open spec fn wants_area(&self) -> bool {
        ascii_lower_seq(self.mode@) == "area"@
    }

    /// Whether all that names a part of the screen is given.
    pub open spec fn has_region(&self) -> bool {
        self.x is Some && self.y is Some && self.width is Some && self.height is Some
    }

    /// The part of the screen to capture: none where all of it is asked for,
    /// an error where a part is asked for and not all of `x`, `y`, `width` and
    /// `height` is given.
    pub fn region(&self) -> (r: Result<Option<Region>, String>)
        ensures
            !self.wants_area() ==> r == Ok::<Option<Region>, String>(None),
            self.wants_area() && self.has_region() ==> r == Ok::<Option<Region>, String>(
                Some(
                    Region {
                        x: self.x->0,
                        y: self.y->0,
                        width: self.width->0,
                        height: self.height->0,
                    },
                ),
            ),
            self.wants_area() && !self.has_region() ==> (r matches Err(e) && e@
                == "Area mode requires x, y, width and height to be provided"@),
    {
        if !matches_ignore_case(self.mode.as_str(), "area") {
            return Ok(None);
        }
        match (self.x, self.y, self.width, self.height) {
            (Some(x), Some(y), Some(width), Some(height)) => Ok(
                Some(Region { x, y, width, height }),
            ),
            _ => Err("Area mode requires x, y, width and height to be provided".to_owned()),
        }
    }
}

impl ScreenCaptureRunner {
    pub fn new() -> Self {
        Self {  }
    }
}

pub struct ScreenCaptureRunnerFactory;

impl ScreenCaptureRunnerFactory {
    pub fn new() -> Self {
        Self {  }
    }
}

} // verus!
