[package]
name = "callgrind_core"
version = "0.1.0"
edition = "2021"
publish = false

[dependencies]
anyhow = "=1.0.104"
clap = { version = "=4.6.7", features = ["derive"] }
colored = "=2.2.0"
indexmap = { version = "=2.14.2", features = ["serde"] }
itertools = "=0.13.0"
serde = { version = "=1.0.229", features = ["derive"] }

[dev-dependencies]
assert_cmd = "2"
