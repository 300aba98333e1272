pub mod builder;
pub mod engine;
pub mod graph;
pub mod laws;
pub mod runner;
pub mod search;
