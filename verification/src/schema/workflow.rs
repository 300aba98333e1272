//! A workflow document: nodes and the connections between them.

use vstd::prelude::*;
use crate::schema::node::NodeSchema;

verus! {

#[derive(Clone, Debug, Default)]
pub struct WorkflowSchema {
    pub nodes: Vec<NodeSchema>,
    pub connections: Vec<Connection>,
}

#[derive(Clone, Debug, Default)]
pub struct Connection {
    pub from: String,
    pub to: String,
}

} // verus!
