[package]
name = "crash_traces"
version = "0.1.0"
edition = "2021"
publish = false

[dependencies]
dashmap = "*"
stybulate = "*"
time = { version = "0.3", features = ["formatting", "local-offset"] }
