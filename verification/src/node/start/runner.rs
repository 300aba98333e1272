//! The runner of the node that a workflow begins with.

use vstd::prelude::*;
use crate::context::Context;
use crate::json::{members_view, JsonValue, JsonView};
use crate::node::start::node::{params_members, start_params};
use crate::store::entries_view;
use crate::types::node::{NodeRunner, NodeRunnerController, NodeRunnerFactory};

verus! {

/// The inputs of a start node: an object under `params`.
pub struct Params;

/// Hands the members of its `params` on as outputs.
#[derive(Default)]
pub struct StartRunner;

impl StartRunner {
    pub fn new() -> Self {
        Self {  }
    }
}

impl NodeRunner for StartRunner {
    open spec fn yields(
        &self,
        before: Context,
        param: Map<Seq<char>, JsonView>,
        outcome: Result<Option<Vec<(String, JsonValue)>>, String>,
        after: Context,
    ) -> bool {
        after == before && (outcome matches Ok(Some(outputs)) && members_view(outputs@)
            == params_members(param))
    }

    fn run(&mut self, ctx: &mut Context, param: Vec<(String, JsonValue)>) -> (r: Result<
        Option<Vec<(String, JsonValue)>>,
        String,
    >)
        ensures
            r matches Ok(Some(outputs)) && members_view(outputs@) == params_members(
                entries_view(param@),
            ),
            *final(ctx) == *old(ctx),
    {
        Ok(Some(start_params(&param)))
    }
}

#[derive(Default)]
pub struct StartRunnerFactory;

impl StartRunnerFactory {
    pub fn new() -> Self {
        Self {  }
    }
}

impl NodeRunnerFactory for StartRunnerFactory {
    type Runner = NodeRunnerController<StartRunner>;

    /// A runner that is new.
    open spec fn makes(&self, runner: NodeRunnerController<StartRunner>) -> bool {
        runner.runner() == StartRunner
    }

    fn create(&self) -> (r: NodeRunnerController<StartRunner>)
        ensures
            r.runner() == StartRunner,
    {
        NodeRunnerController::new(StartRunner::new())
    }
}

} // verus!
