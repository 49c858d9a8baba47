[package]
name = "raft_driver"
version = "0.1.0"
edition = "2021"
publish = false

[dependencies]
raft = "0.7"
protobuf = "2"
slog = "2"
slog-term = "2"
slog-async = "2"
