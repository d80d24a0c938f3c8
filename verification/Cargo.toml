[package]
name = "cb_patcher"
version = "0.1.0"
edition = "2021"
publish = false

[dependencies]
anyhow = "1"
clap = { version = "4", features = ["derive"] }
directories = "5"
hex = "0.4"
quick-xml = { version = "0.31", features = ["serialize"] }
reqwest = { version = "0.11", features = ["blocking", "json"] }
serde = { version = "1", features = ["derive"] }
sha1 = "0.10"
walkdir = "2"
winreg = "0.52"
zip = { version = "0.6", default-features = false, features = ["deflate"] }
