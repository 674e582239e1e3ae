[package]
name = "ship-shape"
version = "0.3.0"
edition = "2021"
publish = false

[dependencies]
minisign-verify = "0.2"
patois = "*"
pulldown-cmark = { version = "*", default-features = false }
serde = { version = "1", features = ["derive"] }
ureq = { version = "3", features = ["json"] }
wxdragon = "*"
