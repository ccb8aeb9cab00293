[package]
name = "yedit"
version = "0.1.0"
edition = "2021"
publish = false

[dependencies]
anyhow = "1"
base64 = "0.22"
clap = { version = "4", features = ["derive"] }
ctrlc = { version = "3", features = ["termination"] }
dirs = "*"
libc = "0.2"
pulldown-cmark = { version = "*", default-features = false, features = ["html"] }
regex = "1"
rusqlite = { version = "*", features = ["bundled"] }
serde_json = "1"
