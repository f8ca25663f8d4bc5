[package]
name = "md_preview"
version = "0.1.0"
edition = "2021"
publish = false

[dependencies]
pulldown-cmark = { version = "*", default-features = false, features = ["html"] }
serde = { version = "1", features = ["derive"] }
serde_json = "1"
gtk = "0.18"
gio = "0.18"
glib = "0.18"
cairo-rs = { version = "0.18", features = ["png"] }
webkit2gtk = "2"
