[package]
name = "zotero-cli"
version = "0.1.0"
edition = "2021"
publish = false

[dependencies]
anyhow = "1"
clap = { version = "4", features = ["derive"] }
clap_complete = "4"
colored = "2"
dirs = "5"
serde = { version = "1", features = ["derive"] }
serde_json = "1"
tabled = "0.16"
toml = "0.8"
ureq = { version = "2", features = ["json"] }
urlencoding = "2"
