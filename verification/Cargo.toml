[package]
name = "auto_engine"
version = "0.1.0"
edition = "2021"
publish = false

[dependencies]
serde = { version = "1", features = ["derive"] }
serde_json = "1"
serde_yaml = "0.9"
evalexpr = "*"
convert_case = "*"
tokio = { version = "1", features = ["rt-multi-thread", "macros", "time", "sync"] }
tokio-util = "*"
clap = { version = "4", features = ["derive"] }
json5 = "*"
log = "0.4"
async-trait = "0.1"
enigo = "*"
reqwest = { version = "*", default-features = false }

[dev-dependencies]
regex = "1"
