[package]
name = "embedded_recruitment_task"
version = "0.1.0"
edition = "2021"
publish = false

[dependencies]
log = "0.4"
prost = { version = "*", default-features = false, features = ["std"] }
