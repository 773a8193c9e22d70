[package]
name = "comiya"
version = "0.1.0"
edition = "2021"
publish = false

[dependencies]
dom_query = "*"
lz-str = "*"
rquickjs = "*"
serde_json = "*"
serde = { version = "*", features = ["derive"] }
anyhow = "*"
urlencoding = "*"
reqwest = { version = "*", default-features = false }
tokio = { version = "*", features = ["macros", "rt-multi-thread"] }
