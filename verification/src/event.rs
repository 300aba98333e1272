pub mod node;
pub mod workflow;
