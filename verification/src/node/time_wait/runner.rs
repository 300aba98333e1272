//! The runner that waits.

use vstd::prelude::*;
use crate::json::JsonValue;
use crate::node::params::{read_u64, shape_error, whole_at};
use crate::store::entries_view;
use crate::types::node::CoerceError;

verus! {

/// How long to wait, in seconds.
#[derive(Clone, Debug)]
pub struct TimeWaitParam {
    pub duration: u64,
}

impl TimeWaitParam {
    /// Reads the parameters from the inputs of a node: `duration` must be a whole
    /// number that is not negative.
    pub fn from_params(params: &Vec<(String, JsonValue)>) -> (r: Result<TimeWaitParam, CoerceError>)
        ensures
            match whole_at(entries_view(params@), "duration"@) {
                Some(v) => if v >= 0 {
                    r matches Ok(p) && p.duration == v
                } else {
                    r is Err
                },
                None => r is Err,
            },
    {
        match read_u64(params, "duration") {
            Some(duration) => Ok(TimeWaitParam { duration }),
            None => Err(shape_error("duration", "expected a whole number")),
        }
    }
}

#[derive(Default)]
pub struct TimeWaitRunner;

impl TimeWaitRunner {
    pub fn new() -> Self {
        TimeWaitRunner
    }
}

#[derive(Default)]
pub struct TimeWaitRunnerFactory;

impl TimeWaitRunnerFactory {
    pub fn new() -> Self {
        TimeWaitRunnerFactory
    }
}

} // verus!
