//! The inputs of a node that a plugin runs.

use vstd::prelude::*;

verus! {

/// A plugin node takes its inputs as they are.
pub struct Params;

} // verus!
