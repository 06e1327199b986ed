[package]
name = "backend_supervisor"
version = "0.1.0"
edition = "2021"
publish = false

[dependencies]
nix = { version = "0.26", default-features = false, features = ["signal"] }
sysinfo = { version = "0.29", default-features = false }
serde = { version = "1", features = ["derive"] }
tokio = { version = "1", features = ["rt"] }
