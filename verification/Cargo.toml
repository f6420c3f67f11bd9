[package]
name = "matching_engine"
version = "0.1.0"
edition = "2021"
publish = false

[dependencies]
anchor-lang = { version = "0.31.1", features = ["init-if-needed"] }
anchor-spl = { version = "0.31.1", default-features = false, features = ["token", "associated_token", "token_2022"] }
arcium-anchor = { version = "0.3.0" }
arcium-client = { version = "0.3.0", default-features = false }
arcis-imports = { version = "0.3.0" }
