[package]
name = "agent_docs"
version = "0.1.0"
edition = "2021"
publish = false

[dependencies]
sha2 = "*"
hex = "*"
uuid = { version = "*", features = ["v4"] }
pulldown-cmark = "*"
serde_json = "*"
dotenvy = "*"
