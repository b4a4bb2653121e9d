[package]
name = "protoflow"
version = "0.1.0"
edition = "2021"
publish = false

[dependencies]
zeromq = "0.4"
tokio = { version = "1", features = ["rt", "rt-multi-thread", "sync", "macros"] }
parking_lot = "0.12"
serde = { version = "1", features = ["derive"] }
