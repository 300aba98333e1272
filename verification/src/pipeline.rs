//! Pipelines: stages that run one after the other, the nodes of a stage side
//! by side. What a host does with the nodes is its own; what follows from how
//! they ended is decided here.

use vstd::prelude::*;
use crate::context::Context;
use crate::number::parsed_i64;
use crate::runner::mouse::convert_to_int;
use crate::types::typs::{Node, Stage};
use crate::variables::{parse_variables, resolve};

verus! {

/// How a node or a stage of a pipeline ended.
#[derive(Clone, Debug)]
pub enum RunningResult {
    Pass,
    Error(String),
}

/// The mathematical value of a [`RunningResult`].
pub enum Ending {
    Pass,
    Error(Seq<char>),
}

impl View for RunningResult {
    type V = Ending;

    open spec fn view(&self) -> Ending {
        match self {
            RunningResult::Pass => Ending::Pass,
            RunningResult::Error(e) => Ending::Error(e@),
        }
    }
}

/// Least time between two rounds of a pipeline that runs in a loop, in
/// milliseconds.
pub const MIN_ROUND_MS: u64 = 10;

/// Runs pipelines on a host.
pub struct PipelineRunner {
    pub pipelines: Vec<Vec<Stage>>,
    /// The scale of the screen, as the bits of an IEEE-754 double.
    pub rate_bits: u64,
    pub dir_path: String,
    pub min_interval_ms: u64,
}

/// How a node ended whose action ended in `outcome`: a failure ends the
/// pipeline only where the node says so.
pub open spec fn node_ending(stops: bool, outcome: Result<(), String>) -> Ending {
    match outcome {
        Ok(()) => Ending::Pass,
        Err(e) => if stops {
            Ending::Error(e@)
        } else {
            Ending::Pass
        },
    }
}

/// How a node ended whose action ended in `outcome`.
pub fn node_result(node: &Node, outcome: Result<(), String>) -> (r: RunningResult)
    ensures
        r@ == node_ending(
            match node.meta().err_return {
                Some(b) => b,
                None => true,
            },
            outcome,
        ),
{
    match outcome {
        Ok(()) => RunningResult::Pass,
        Err(e) => if node.stop_when_error() {
            RunningResult::Error(e)
        } else {
            RunningResult::Pass
        },
    }
}

/// How a stage ended whose nodes ended, in this order, as `results` say: as
/// the node that ended last; well where it has no node.
pub fn stage_result(results: Vec<RunningResult>) -> (r: RunningResult)
    ensures
        r@ == (if results@.len() == 0 {
            Ending::Pass
        } else {
            results@[results@.len() - 1]@
        }),
{
    let mut results = results;
    match results.pop() {
        Some(last) => last,
        None => RunningResult::Pass,
    }
}

/// The whole number that a coordinate resolves to, or the sentence that says
/// that it resolves to none.
pub fn resolve_coordinate(ctx: &Context, axis: &str, template: &str) -> (r: Result<i64, String>)
    ensures
        match parsed_i64(resolve(ctx.store(), template@)) {
            Some(v) => r == Ok::<i64, String>(v),
            None => r matches Err(e) && e@ == "Failed to covert "@ + axis@ + ": '"@ + resolve(
                ctx.store(),
                template@,
            ) + "' to int"@,
        },
{
    let variables = parse_variables(ctx, template);
    match convert_to_int(variables.as_str()) {
        Some(v) => Ok(v),
        None => {
            let mut e = String::new();
            e.push_str("Failed to covert ");
            e.push_str(axis);
            e.push_str(": '");
            e.push_str(variables.as_str());
            e.push_str("' to int");
            assert(e@ =~= "Failed to covert "@ + axis@ + ": '"@ + variables@ + "' to int"@);
            Err(e)
        },
    }
}

impl PipelineRunner {
    pub fn new(pipelines: Vec<Vec<Stage>>, rate_bits: u64, dir_path: String, min_interval_ms: u64) -> (r:
        PipelineRunner)
        ensures
            r.pipelines == pipelines,
            r.rate_bits == rate_bits,
            r.dir_path == dir_path,
            r.min_interval_ms == min_interval_ms,
    {
        PipelineRunner { pipelines, rate_bits, dir_path, min_interval_ms }
    }

    /// Least time between two rounds of a pipeline that runs in a loop, in
    /// milliseconds: what was asked for, but ten at the least.
    pub fn round_interval(&self) -> (r: u64)
        ensures
            r == (if self.min_interval_ms > MIN_ROUND_MS {
                self.min_interval_ms
            } else {
                MIN_ROUND_MS
            }),
    {
        if self.min_interval_ms > MIN_ROUND_MS {
            self.min_interval_ms
        } else {
            MIN_ROUND_MS
        }
    }
}

} // verus!
