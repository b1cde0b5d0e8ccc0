[package]
name = "pastebin"
version = "0.1.0"
edition = "2021"
publish = false

[dependencies]
base64 = "*"
blake3 = "*"
bs58 = "*"
compile-time = "*"
fastly = "*"
htmlescape = "*"
humanize-bytes = "*"
humantime = "*"
infer = "*"
markdown = "*"
mime_guess = "*"
pad = "*"
rand = "*"
serde = { version = "*", features = ["derive"] }
serde_json = "*"
urlencoding = "*"
