[package]
name = "scli"
version = "0.1.0"
edition = "2021"
publish = false

[dependencies]
anstream = "0.6"
anstyle = "1"
anyhow = "1"
clap = { version = "4", features = ["derive"] }
clap_complete = "4"
serde_json = "1"
sha2 = "0.10"
ureq = { version = "2", features = ["json"] }
