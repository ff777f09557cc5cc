[package]
name = "cnctd_cargo"
version = "0.1.0"
edition = "2021"
publish = false

[dependencies]
anyhow = "1"
cnctd_rest = "*"
cnctd_shell = "*"
glob = "0.3"
serde = { version = "1", features = ["derive"] }
serde_json = "1"
toml = "0.8"
toml_edit = "0.21"
