//! One node of a workflow document.

use vstd::prelude::*;
use crate::json::JsonValue;
use crate::types::typs::MetaData;

verus! {

#[derive(Clone, Debug, Default)]
pub struct Position {
    pub x: i64,
    pub y: i64,
}

#[derive(Clone, Debug)]
pub struct NodeSchema {
    pub node_id: String,
    pub action_type: String,
    pub metadata: MetaData,
    pub input_data: Option<Vec<(String, JsonValue)>>,
    pub position: Position,
    pub icon: Option<String>,
}

} // verus!
