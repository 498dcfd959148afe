[package]
name = "worktrunk"
version = "0.1.0"
edition = "2021"
publish = false

[dependencies]
anyhow = "=1.0.104"
regex = "=1.13.1"
serde = { version = "=1.0.229", features = ["derive"] }
serde_json = "=1.0.154"
shell-escape = "=0.1.5"
minijinja = { version = "=2.24.0", default-features = false, features = ["builtins", "debug", "deserialization", "adjacent_loop_items", "std_collections", "serde", "unstable_machinery"] }
rustix = { version = "*", features = ["fs"] }
etcetera = "*"
