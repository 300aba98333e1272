//! A workflow engine: a workflow document is validated into a graph, and the
//! graph is run node by node, each node once all the nodes that lead to it are
//! done. The engine decides and a host performs: the host calls runners, waits
//! and publishes events as the engine commands, and reports back what happened.

pub mod cmd;
pub mod context;
pub mod converter;
pub mod event;
pub mod json;
pub mod node;
pub mod notification;
pub mod number;
pub mod pipeline;
pub mod plugin;
pub mod register;
pub mod runner;
pub mod schema;
pub mod store;
pub mod text;
pub mod types;
pub mod variables;
pub mod workflow;
