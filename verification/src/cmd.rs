//! The commands of the converter tool.

use vstd::prelude::*;

verus! {

pub struct Cli {
    /// The subcommand to execute.
    pub command: Commands,
}

#[derive(Debug)]
pub enum Commands {
    /// Convert a configuration of another tool to a pipeline.
    Convert { config_type: ConfigType },
}

#[derive(Debug, Clone)]
pub enum ConfigType {
    KeyMouseGo {
        /// Path of the configuration.
        config: String,
    },
    QuickInput {
        /// Path of the configuration.
        config: String,
        with_exist: Option<String>,
        with_duration: Option<u32>,
    },
}

} // verus!
