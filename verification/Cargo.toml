[package]
name = "driftwood"
version = "0.1.0"
edition = "2021"
publish = false

[dependencies]
anyhow = "=1.0.104"
base64 = "=0.22.1"
chrono = "=0.4.45"
dotenv = "=0.15.0"
git2 = "=0.21.0"
pulldown-cmark = "=0.13.5"
rand = "=0.8.8"
regex = "=1.13.1"
reqwest = { version = "=0.12.28", features = ["blocking", "json"] }
rsa = "=0.9.10"
rusqlite = "=0.40.2"
serde = { version = "=1.0.229", features = ["derive"] }
serde_json = "=1.0.154"
sha1_smol = "=1.0.1"
tinytemplate = "=1.2.1"
urlencoding = "=2.1.3"
webbrowser = "=1.2.5"
