[package]
name = "imgui_lua_gen"
version = "0.1.0"
edition = "2021"
publish = false

[dependencies]
Inflector = "0.11"
serde = { version = "1", features = ["derive"] }
serde_json = "1"
clap = { version = "4", features = ["derive"] }
glob = "0.3"
anyhow = "1"
