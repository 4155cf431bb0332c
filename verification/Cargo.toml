[package]
name = "cirrus"
version = "0.1.0"
edition = "2021"
publish = false

[dependencies]
scrypt = "0.11"
diesel = { version = "2", features = ["sqlite"] }
libsqlite3-sys = { version = "*", features = ["bundled"] }
clap = { version = "4", features = ["derive"] }
rpassword = "7"
anyhow = "1"
env_logger = "0.11"
