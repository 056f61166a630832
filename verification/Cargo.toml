[package]
name = "full_cone_nat"
version = "0.1.0"
edition = "2021"
publish = false

[dependencies]
lexopt = "*"
nix = { version = "*", features = ["net"] }
tokio = { version = "1", features = ["rt", "signal", "time", "macros"] }
