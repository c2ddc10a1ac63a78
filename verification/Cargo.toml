[package]
name = "server_actions"
version = "0.1.0"
edition = "2021"
publish = false

[dependencies]
serde = { version = "1", features = ["derive"] }
swc_core = { version = "*", features = ["common", "ecma_ast", "ecma_visit", "ecma_utils"] }
