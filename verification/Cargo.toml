[package]
name = "codex_native"
version = "0.1.0"
edition = "2021"
publish = false

[dependencies]
serde = { version = "1", features = ["derive"] }
serde_json = "1"
gtk = "0.18"
gio = "0.18"
glib = "0.18"
soup3 = "0.5"
webkit2gtk = { version = "2.0", features = ["v2_38"] }
tao = "*"
wry = "*"
