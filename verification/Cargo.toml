[package]
name = "edict"
version = "0.1.0"
edition = "2021"
publish = false

[dependencies]
hashbrown = "=0.14.5"
nanoserde = { version = "*", default-features = false, features = ["binary"] }
