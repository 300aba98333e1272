pub mod node;
pub mod runner;
